//! Speed limits as map data writes them.

use crate::text::{chars_of, decimal_u32, parse_u32, trim_bounds, trimmed};
use vstd::prelude::*;

verus! {

/// The unit in which a speed is given.
#[derive(Debug, Clone, Copy, PartialEq, Eq, Structural)]
pub enum SpeedUnit {
    MetersPerSecond,
    KilometersPerHour,
    MilesPerHour,
    Knots,
}

/// The speed limit of a way.
#[derive(Debug)]
pub enum MaxSpeed {
    /// One limit for the whole way.
    Single(SpeedUnit, u32),
    /// Several limits, one for each part.
    Multiple(Vec<MaxSpeed>),
    /// No limit is set.
    NoLimit,
}

/// The three characters that mark a speed in miles per hour.
pub open spec fn mph() -> Seq<char> {
    seq!['m', 'p', 'h']
}

/// The four characters that say that no limit is set.
pub open spec fn none_word() -> Seq<char> {
    seq!['n', 'o', 'n', 'e']
}

/// Whether `s` begins with `mph`.
pub open spec fn starts_with_mph(s: Seq<char>) -> bool {
    s.len() >= 3 && s[0] == 'm' && s[1] == 'p' && s[2] == 'h'
}

/// Whether `s` ends with `mph`.
pub open spec fn ends_with_mph(s: Seq<char>) -> bool {
    s.len() >= 3 && s[s.len() - 3] == 'm' && s[s.len() - 2] == 'p' && s[s.len() - 1] == 'h'
}

/// `s` with every `mph` taken out, reading from the left and never taking a
/// character twice.
pub open spec fn without_mph(s: Seq<char>) -> Seq<char>
    decreases s.len(),
{
    if s.len() == 0 {
        s
    } else if starts_with_mph(s) {
        without_mph(s.skip(3))
    } else {
        seq![s[0]] + without_mph(s.skip(1))
    }
}

/// What a speed limit text means, where it means anything.
///
/// The text is trimmed first. Nothing, or the word `none`, sets no limit. A
/// decimal number is a limit in kilometres per hour. A text that ends with
/// `mph` is a limit in miles per hour, given by the decimal number that is left
/// when every `mph` is taken out. Any other text has no meaning.
pub open spec fn maxspeed_of(text: Seq<char>) -> Option<MaxSpeed> {
    let t = trimmed(text);
    if t.len() == 0 || t == none_word() {
        Some(MaxSpeed::NoLimit)
    } else if decimal_u32(t) is Some {
        Some(MaxSpeed::Single(SpeedUnit::KilometersPerHour, decimal_u32(t)->0))
    } else if ends_with_mph(t) && decimal_u32(without_mph(t)) is Some {
        Some(MaxSpeed::Single(SpeedUnit::MilesPerHour, decimal_u32(without_mph(t))->0))
    } else {
        None
    }
}

/// The characters of `s[from..to]` with every `mph` taken out.
fn strip_mph(s: &Vec<char>, from: usize, to: usize) -> (out: Vec<char>)
    requires
        from <= to <= s.len(),
    ensures
        out@ == without_mph(s@.subrange(from as int, to as int)),
{
    let ghost text = s@.subrange(from as int, to as int);
    let mut out: Vec<char> = Vec::new();
    let mut i: usize = from;
    proof {
        assert(text.skip(0) == text);
    }
    while i < to
        invariant
            from <= i <= to <= s.len(),
            text == s@.subrange(from as int, to as int),
            without_mph(text) == out@ + without_mph(text.skip(i - from)),
        decreases to - i,
    {
        let ghost rest = text.skip(i - from);
        proof {
            assert(rest.len() == to - i);
            assert(rest[0] == s@[i as int]);
        }
        if to - i >= 3 && s[i] == 'm' && s[i + 1] == 'p' && s[i + 2] == 'h' {
            proof {
                assert(rest[1] == s@[i + 1]);
                assert(rest[2] == s@[i + 2]);
                assert(rest.skip(3) == text.skip(i + 3 - from));
            }
            i = i + 3;
        } else {
            proof {
                if to - i >= 3 {
                    assert(rest[1] == s@[i + 1]);
                    assert(rest[2] == s@[i + 2]);
                }
                assert(rest.skip(1) == text.skip(i + 1 - from));
                assert(out@.push(s@[i as int]) + without_mph(rest.skip(1)) == out@ + (seq![rest[0]]
                    + without_mph(rest.skip(1))));
            }
            out.push(s[i]);
            i = i + 1;
        }
    }
    proof {
        assert(text.skip(to - from).len() == 0);
        assert(out@ + Seq::<char>::empty() == out@);
    }
    out
}

/// Reads a speed limit, or tells that the text does not hold one.
pub fn try_parse_maxspeed(string: &str) -> (r: Option<MaxSpeed>)
    ensures
        r == maxspeed_of(string@),
{
    let s = chars_of(string);
    let (a, b) = trim_bounds(&s, 0, s.len());
    assert(s@.subrange(0, s.len() as int) == s@);
    let ghost t = trimmed(string@);
    if a == b {
        return Some(MaxSpeed::NoLimit);
    }
    if b - a == 4 && s[a] == 'n' && s[a + 1] == 'o' && s[a + 2] == 'n' && s[a + 3] == 'e' {
        proof {
            assert(t == none_word());
        }
        return Some(MaxSpeed::NoLimit);
    }
    proof {
        if t == none_word() {
            assert(t[0] == 'n' && t[1] == 'o' && t[2] == 'n' && t[3] == 'e');
        }
    }
    match parse_u32(&s, a, b) {
        Some(speed) => {
            return Some(MaxSpeed::Single(SpeedUnit::KilometersPerHour, speed));
        },
        None => {},
    }
    proof {
        if b - a >= 3 {
            assert(t[t.len() - 3] == s@[b - 3]);
            assert(t[t.len() - 2] == s@[b - 2]);
            assert(t[t.len() - 1] == s@[b - 1]);
        }
    }
    if b - a >= 3 && s[b - 3] == 'm' && s[b - 2] == 'p' && s[b - 1] == 'h' {
        let digits = strip_mph(&s, a, b);
        proof {
            assert(digits@.subrange(0, digits.len() as int) == digits@);
        }
        match parse_u32(&digits, 0, digits.len()) {
            Some(speed) => {
                return Some(MaxSpeed::Single(SpeedUnit::MilesPerHour, speed));
            },
            None => {},
        }
    }
    None
}

/// Reads a speed limit from a text that holds one.
pub fn parse_maxspeed(string: &str) -> (r: MaxSpeed)
    requires
        maxspeed_of(string@) is Some,
    ensures
        Some(r) == maxspeed_of(string@),
{
    match try_parse_maxspeed(string) {
        Some(speed) => speed,
        None => MaxSpeed::NoLimit,
    }
}

} // verus!
