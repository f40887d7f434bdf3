//! Warping the camera to an object named by its ID.
//!
//! The user types a letter naming a kind of object followed by its number, such
//! as "r42" for road #42, or "j" to jump back to where the last warp started.
use vstd::prelude::*;

use crate::tags::str_eq;

verus! {

/// What a warp request names.
#[derive(Clone, Copy, Debug, PartialEq, Eq, Structural)]
pub enum WarpTarget {
    /// "j": back to where the last warp started.
    JumpBack,
    /// "r": a road.
    Road(usize),
    /// "R": a transit route.
    TransitRoute(usize),
    /// "l": a lane, by its encoded number.
    Lane(u32),
    /// "L": a parking lot.
    ParkingLot(usize),
    /// "i": an intersection.
    Intersection(usize),
    /// "b": a building.
    Building(usize),
    /// "a": an area.
    Area(usize),
    /// "p": a pedestrian.
    Pedestrian(usize),
    /// "P": a person.
    Person(usize),
    /// "c": a car.
    Car(usize),
    /// "t": a trip.
    Trip(usize),
}

pub open spec fn is_digit(c: char) -> bool {
    '0' <= c && c <= '9'
}

pub open spec fn digit_value(c: char) -> nat {
    (c as int - '0' as int) as nat
}

pub open spec fn all_digits(d: Seq<char>) -> bool {
    forall|i: int| 0 <= i < d.len() ==> is_digit(#[trigger] d[i])
}

/// The number that a string of decimal digits writes.
pub open spec fn digits_value(d: Seq<char>) -> nat
    decreases d.len(),
{
    if d.len() == 0 {
        0
    } else {
        digits_value(d.drop_last()) * 10 + digit_value(d.last())
    }
}

/// How the standard library reads an unsigned machine-sized number: an optional
/// '+', then at least one decimal digit, and a value that fits.
pub open spec fn parse_usize(t: Seq<char>) -> Option<nat> {
    let d = if t.len() > 0 && t[0] == '+' {
        t.skip(1)
    } else {
        t
    };
    if d.len() > 0 && all_digits(d) && digits_value(d) <= usize::MAX {
        Some(digits_value(d))
    } else {
        None
    }
}

/// The object that the letter `c` and the number `n` name; a lane's number is
/// taken modulo 2^32.
pub open spec fn target_for(c: char, n: usize) -> Option<WarpTarget> {
    if c == 'r' {
        Some(WarpTarget::Road(n))
    } else if c == 'R' {
        Some(WarpTarget::TransitRoute(n))
    } else if c == 'l' {
        Some(WarpTarget::Lane(n as u32))
    } else if c == 'L' {
        Some(WarpTarget::ParkingLot(n))
    } else if c == 'i' {
        Some(WarpTarget::Intersection(n))
    } else if c == 'b' {
        Some(WarpTarget::Building(n))
    } else if c == 'a' {
        Some(WarpTarget::Area(n))
    } else if c == 'p' {
        Some(WarpTarget::Pedestrian(n))
    } else if c == 'P' {
        Some(WarpTarget::Person(n))
    } else if c == 'c' {
        Some(WarpTarget::Car(n))
    } else if c == 't' {
        Some(WarpTarget::Trip(n))
    } else {
        None
    }
}

/// What a line of input asks to warp to, if anything.
pub open spec fn warp_target(s: Seq<char>) -> Option<WarpTarget> {
    if s.len() == 0 {
        None
    } else if s == seq!['j'] {
        Some(WarpTarget::JumpBack)
    } else {
        match parse_usize(s.skip(1)) {
            Some(n) => target_for(s[0], n as usize),
            None => None,
        }
    }
}

pub open spec fn digit_char(k: nat) -> char {
    ('0' as int + k) as char
}

/// How a number is written in decimal, without leading zeros.
pub open spec fn decimal(n: nat) -> Seq<char>
    decreases n,
{
    if n < 10 {
        seq![digit_char(n)]
    } else {
        decimal(n / 10).push(digit_char(n % 10))
    }
}

proof fn lemma_decimal(n: nat)
    ensures
        decimal(n).len() > 0,
        all_digits(decimal(n)),
        digits_value(decimal(n)) == n,
    decreases n,
{
    let c = digit_char(n % 10);
    assert(digit_value(c) == n % 10);
    if n >= 10 {
        lemma_decimal(n / 10);
        assert(decimal(n).drop_last() =~= decimal(n / 10));
        assert(decimal(n).last() == c);
        assert((n / 10) * 10 + n % 10 == n);
    } else {
        assert(decimal(n).drop_last() =~= Seq::<char>::empty());
        assert(decimal(n).last() == c);
        assert(digits_value(Seq::<char>::empty()) == 0);
    }
}

/// A letter followed by a number written in decimal names the object that the
/// letter and the number stand for: warping to "r42" goes to road #42.
pub proof fn lemma_warp_id_round_trip(c: char, n: usize)
    ensures
        warp_target(seq![c] + decimal(n as nat)) == target_for(c, n),
{
    lemma_decimal(n as nat);
    let s = seq![c] + decimal(n as nat);
    assert(s.skip(1) =~= decimal(n as nat));
    assert(s.len() >= 2);
    assert(s != seq!['j']);
    assert(is_digit(decimal(n as nat)[0]));
}

/// Only well-formed input names anything: the empty line names nothing; a
/// line naming an object is its letter, then an optional '+', then at least one
/// decimal digit and nothing else; a line naming nothing to jump back to other
/// than "j" names an object.
pub proof fn lemma_warp_target_needs_digits(s: Seq<char>)
    ensures
        s.len() == 0 ==> warp_target(s) is None,
        warp_target(s) == Some(WarpTarget::JumpBack) ==> s == seq!['j'],
        (warp_target(s) is Some && s != seq!['j']) ==> {
            let t = s.skip(1);
            let d = if t.len() > 0 && t[0] == '+' {
                t.skip(1)
            } else {
                t
            };
            &&& s.len() >= 2
            &&& d.len() > 0
            &&& forall|i: int| 0 <= i < d.len() ==> '0' <= #[trigger] d[i] && d[i] <= '9'
        },
{
}

/// A longer prefix of the digits never writes a smaller number.
proof fn lemma_digits_value_prefix(d: Seq<char>, k: int)
    requires
        0 <= k <= d.len(),
    ensures
        digits_value(d.take(k)) <= digits_value(d),
    decreases d.len(),
{
    if k < d.len() {
        lemma_digits_value_prefix(d.drop_last(), k);
        assert(d.drop_last().take(k) =~= d.take(k));
    } else {
        assert(d.take(k) =~= d);
    }
}

/// Reads "42" as 42: the digits from `start` to the end of `s`, or `None` where
/// some character is not a digit or the number does not fit in a `usize`.
fn parse_digits(s: &str, n: usize, start: usize) -> (r: Option<usize>)
    requires
        n == s@.len(),
        start <= n,
    ensures
        ({
            let d = s@.skip(start as int);
            match r {
                Some(v) => all_digits(d) && digits_value(d) == v,
                None => !(all_digits(d) && digits_value(d) <= usize::MAX),
            }
        }),
{
    let ghost d = s@.skip(start as int);
    let mut acc: usize = 0;
    let mut i = start;
    while i < n
        invariant
            n == s@.len(),
            start <= i <= n,
            d == s@.skip(start as int),
            all_digits(d.take(i - start)),
            acc == digits_value(d.take(i - start)),
        decreases n - i,
    {
        let c = s.get_char(i);
        let ghost k = i - start;
        assert(d[k] == c);
        assert(d.take(k + 1).drop_last() =~= d.take(k));
        if !('0' <= c && c <= '9') {
            assert(!is_digit(d[k]));
            return None;
        }
        let digit = ((c as u32) - ('0' as u32)) as usize;
        assert(digits_value(d.take(k + 1)) == acc * 10 + digit);
        let next = match acc.checked_mul(10) {
            Some(m) => m.checked_add(digit),
            None => None,
        };
        match next {
            Some(v) => {
                acc = v;
            },
            None => {
                proof {
                    lemma_digits_value_prefix(d, k + 1);
                }
                return None;
            },
        }
        i = i + 1;
        assert(all_digits(d.take(i - start)));
    }
    assert(d.take(n - start) =~= d);
    Some(acc)
}

/// What a line of input asks to warp to: "j" to jump back, or a letter naming a
/// kind of object followed by its number, such as "r42" for road #42. Anything
/// else names nothing. The letter must be ASCII, as the number is read from the
/// second byte on.
pub fn parse_warp_id(line: &str) -> (r: Option<WarpTarget>)
    requires
        line@.len() > 0 ==> (line@[0] as u32) < 128,
    ensures
        r == warp_target(line@),
{
    let n = line.unicode_len();
    if n == 0 {
        return None;
    }
    let first = line.get_char(0);
    if n == 1 && first == 'j' {
        assert(line@ =~= seq!['j']);
        return Some(WarpTarget::JumpBack);
    }
    assert(line@ != seq!['j']) by {
        if line@ == seq!['j'] {
            assert(line@[0] == 'j');
        }
    }
    let ghost t = line@.skip(1);
    let start: usize = if n > 1 && line.get_char(1) == '+' {
        2
    } else {
        1
    };
    proof {
        if start == 2 {
            assert(t.skip(1) =~= line@.skip(2));
        }
    }
    if start >= n {
        return None;
    }
    let idx = match parse_digits(line, n, start) {
        Some(v) => v,
        None => {
            return None;
        },
    };
    if first == 'r' {
        Some(WarpTarget::Road(idx))
    } else if first == 'R' {
        Some(WarpTarget::TransitRoute(idx))
    } else if first == 'l' {
        Some(WarpTarget::Lane(idx as u32))
    } else if first == 'L' {
        Some(WarpTarget::ParkingLot(idx))
    } else if first == 'i' {
        Some(WarpTarget::Intersection(idx))
    } else if first == 'b' {
        Some(WarpTarget::Building(idx))
    } else if first == 'a' {
        Some(WarpTarget::Area(idx))
    } else if first == 'p' {
        Some(WarpTarget::Pedestrian(idx))
    } else if first == 'P' {
        Some(WarpTarget::Person(idx))
    } else if first == 'c' {
        Some(WarpTarget::Car(idx))
    } else if first == 't' {
        Some(WarpTarget::Trip(idx))
    } else {
        None
    }
}

/// The message shown when a line of input names nothing to warp to.
pub fn invalid_id_message(input: &str) -> (r: String)
    ensures
        r@ == input@ + " isn't a valid ID"@,
{
    let mut r = String::from_str(input);
    r.append(" isn't a valid ID");
    r
}

/// What the warping screen does next.
#[derive(Clone, Copy, Debug, PartialEq, Eq, Structural)]
pub enum WarpingStep {
    /// The camera is still moving: stay.
    Keep,
    /// Arrived: leave the screen.
    Pop,
    /// Arrived at an object: leave the screen and open the object's info panel.
    PopAndShowInfo,
}

/// The warping screen stays while the camera moves; once it arrives, it leaves,
/// opening the info panel of the object warped to, if there is one.
pub fn warping_step(still_moving: bool, has_object: bool) -> (r: WarpingStep)
    ensures
        r == (if still_moving {
            WarpingStep::Keep
        } else if has_object {
            WarpingStep::PopAndShowInfo
        } else {
            WarpingStep::Pop
        }),
{
    if still_moving {
        WarpingStep::Keep
    } else if has_object {
        WarpingStep::PopAndShowInfo
    } else {
        WarpingStep::Pop
    }
}

/// What the "warp to an object by ID" screen does next.
#[derive(Clone, Copy, Debug, PartialEq, Eq, Structural)]
pub enum DebugWarpStep {
    /// Nothing was clicked: stay.
    Keep,
    /// "close" was clicked: leave the screen.
    Close,
    /// "Go!" was clicked: warp to what the input box names.
    Go,
}

/// The buttons of the "warp to an object by ID" screen.
pub open spec fn debug_warp_button(name: Seq<char>) -> bool {
    name == "close"@ || name == "Go!"@
}

/// The screen's answer to a click on the button named `clicked`, or to no click.
pub fn debug_warp_step(clicked: Option<&str>) -> (r: DebugWarpStep)
    requires
        clicked matches Some(name) ==> debug_warp_button(name@),
    ensures
        r == (match clicked {
            None => DebugWarpStep::Keep,
            Some(name) => if name@ == "close"@ {
                DebugWarpStep::Close
            } else {
                DebugWarpStep::Go
            },
        }),
{
    match clicked {
        None => DebugWarpStep::Keep,
        Some(name) => {
            if str_eq(name, "close") {
                DebugWarpStep::Close
            } else {
                DebugWarpStep::Go
            }
        },
    }
}

} // verus!
