//! Integer parsing with the rules of Rust's `FromStr` for integers: an
//! optional sign, then one or more digits, and no value out of range.

use vstd::prelude::*;
use crate::text::chars_of;

verus! {

/// The value of digit `c` in base `radix`, when it is one.
pub open spec fn digit_of(c: char, radix: nat) -> Option<nat> {
    let u = c as u32;
    let d: int = if '0' <= c && c <= '9' {
        u - 0x30
    } else if 'a' <= c && c <= 'z' {
        u - 0x61 + 10
    } else if 'A' <= c && c <= 'Z' {
        u - 0x41 + 10
    } else {
        radix as int
    };
    if d < radix {
        Some(d as nat)
    } else {
        None
    }
}

pub open spec fn all_digits(s: Seq<char>, radix: nat) -> bool {
    forall|i: int| 0 <= i < s.len() ==> (#[trigger] digit_of(s[i], radix)) is Some
}

/// The number that the digits `s` write in base `radix`.
pub open spec fn value(s: Seq<char>, radix: nat) -> nat
    decreases s.len(),
{
    if s.len() == 0 {
        0
    } else {
        value(s.drop_last(), radix) * radix + match digit_of(s.last(), radix) {
            Some(d) => d,
            None => 0,
        }
    }
}

/// One or more digits of base `radix` whose value is at most `max`.
pub open spec fn digits_text(s: Seq<char>, radix: nat, max: nat) -> Option<nat> {
    if s.len() > 0 && all_digits(s, radix) && value(s, radix) <= max {
        Some(value(s, radix))
    } else {
        None
    }
}

/// `s` without one leading `+`.
pub open spec fn strip_plus(s: Seq<char>) -> Seq<char> {
    if s.len() > 0 && s[0] == '+' {
        s.drop_first()
    } else {
        s
    }
}

/// What an unsigned integer type of largest value `max` parses `s` to.
pub open spec fn unsigned_text(s: Seq<char>, radix: nat, max: nat) -> Option<nat> {
    digits_text(strip_plus(s), radix, max)
}

/// What `i32` parses `s` to.
pub open spec fn i32_text(s: Seq<char>) -> Option<int> {
    if s.len() > 0 && s[0] == '-' {
        match digits_text(s.drop_first(), 10, 0x8000_0000) {
            Some(v) => Some(-v),
            None => None,
        }
    } else {
        match unsigned_text(s, 10, 0x7fff_ffff) {
            Some(v) => Some(v as int),
            None => None,
        }
    }
}

proof fn lemma_value_grows(s: Seq<char>, c: char, radix: nat)
    requires
        radix >= 1,
    ensures
        value(s.push(c), radix) >= value(s, radix),
{
    let t = s.push(c);
    assert(t.drop_last() =~= s);
    let v = value(s, radix);
    assert(v * radix >= v) by (nonlinear_arith)
        requires
            radix >= 1,
    ;
}

/// The digits `cs[start..]` read in base `radix`, when they are one or more
/// digits with a value of at most `max`.
fn read_digits(cs: &Vec<char>, start: usize, radix: u32, max: u64) -> (r: Option<u64>)
    requires
        start <= cs@.len(),
        2 <= radix <= 36,
    ensures
        r matches Some(v) ==> digits_text(cs@.skip(start as int), radix as nat, max as nat)
            == Some(v as nat),
        r is None ==> digits_text(cs@.skip(start as int), radix as nat, max as nat) is None,
{
    if start == cs.len() {
        return None;
    }
    let ghost body = cs@.skip(start as int);
    let mut acc: u128 = 0;
    let mut big = false;
    let mut i = start;
    while i < cs.len()
        invariant
            start <= i <= cs@.len(),
            2 <= radix <= 36,
            body == cs@.skip(start as int),
            all_digits(cs@.subrange(start as int, i as int), radix as nat),
            big ==> value(cs@.subrange(start as int, i as int), radix as nat) > max,
            !big ==> acc == value(cs@.subrange(start as int, i as int), radix as nat) && acc
                <= max,
        decreases cs@.len() - i,
    {
        let c = cs[i];
        let ghost prev = cs@.subrange(start as int, i as int);
        let ghost next = cs@.subrange(start as int, i + 1);
        assert(next =~= prev.push(c));
        let d: u32 = if '0' <= c && c <= '9' {
            (c as u32) - 0x30
        } else if 'a' <= c && c <= 'z' {
            (c as u32) - 0x61 + 10
        } else if 'A' <= c && c <= 'Z' {
            (c as u32) - 0x41 + 10
        } else {
            radix
        };
        assert(d < radix <==> digit_of(c, radix as nat) is Some);
        if d >= radix {
            assert(digit_of(body[i - start], radix as nat) is None);
            return None;
        }
        assert(next.drop_last() =~= prev);
        assert(digit_of(c, radix as nat) == Some(d as nat));
        proof {
            lemma_value_grows(prev, c, radix as nat);
        }
        if !big {
            assert(acc * radix + d <= (max as u128) * 36 + 36) by (nonlinear_arith)
                requires
                    acc <= max,
                    radix <= 36,
                    d < radix,
            ;
            let n = acc * (radix as u128) + (d as u128);
            if n > max as u128 {
                big = true;
            } else {
                acc = n;
            }
        }
        i += 1;
        assert forall|j: int| 0 <= j < next.len() implies (#[trigger] digit_of(next[j], radix as nat))
            is Some by {
            if j < prev.len() {
                assert(next[j] == prev[j]);
            }
        }
    }
    assert(cs@.subrange(start as int, cs@.len() as int) =~= body);
    if big {
        None
    } else {
        Some(acc as u64)
    }
}

/// Parses a `u64`-range unsigned integer in base `radix` with an optional `+`.
pub(crate) fn read_unsigned(cs: &Vec<char>, radix: u32, max: u64) -> (r: Option<u64>)
    requires
        2 <= radix <= 36,
    ensures
        r matches Some(v) ==> unsigned_text(cs@, radix as nat, max as nat) == Some(v as nat),
        r is None ==> unsigned_text(cs@, radix as nat, max as nat) is None,
{
    if cs.len() > 0 && cs[0] == '+' {
        assert(cs@.skip(1) =~= cs@.drop_first());
        read_digits(cs, 1, radix, max)
    } else {
        assert(cs@.skip(0) =~= cs@);
        read_digits(cs, 0, radix, max)
    }
}

/// `s.parse::<i32>()`, with `None` for every error.
pub fn parse_i32(s: &str) -> (r: Option<i32>)
    ensures
        r matches Some(v) ==> i32_text(s@) == Some(v as int),
        r is None ==> i32_text(s@) is None,
{
    let cs = chars_of(s);
    if cs.len() > 0 && cs[0] == '-' {
        assert(cs@.skip(1) =~= cs@.drop_first());
        match read_digits(&cs, 1, 10, 0x8000_0000) {
            Some(v) => {
                let w = v as i64;
                Some((-w) as i32)
            },
            None => None,
        }
    } else {
        match read_unsigned(&cs, 10, 0x7fff_ffff) {
            Some(v) => Some(v as i32),
            None => None,
        }
    }
}

/// `s.parse::<usize>()`, with `None` for every error.
pub fn parse_usize(s: &str) -> (r: Option<usize>)
    ensures
        r matches Some(v) ==> unsigned_text(s@, 10, usize::MAX as nat) == Some(v as nat),
        r is None ==> unsigned_text(s@, 10, usize::MAX as nat) is None,
{
    let cs = chars_of(s);
    match read_unsigned(&cs, 10, usize::MAX as u64) {
        Some(v) => Some(v as usize),
        None => None,
    }
}

/// `s.parse::<u32>()`, with `None` for every error.
pub fn parse_u32(s: &str) -> (r: Option<u32>)
    ensures
        r matches Some(v) ==> unsigned_text(s@, 10, u32::MAX as nat) == Some(v as nat),
        r is None ==> unsigned_text(s@, 10, u32::MAX as nat) is None,
{
    let cs = chars_of(s);
    match read_unsigned(&cs, 10, u32::MAX as u64) {
        Some(v) => Some(v as u32),
        None => None,
    }
}

/// `s.parse::<u8>()`, with `None` for every error.
pub fn parse_u8(s: &str) -> (r: Option<u8>)
    ensures
        r matches Some(v) ==> unsigned_text(s@, 10, u8::MAX as nat) == Some(v as nat),
        r is None ==> unsigned_text(s@, 10, u8::MAX as nat) is None,
{
    let cs = chars_of(s);
    match read_unsigned(&cs, 10, u8::MAX as u64) {
        Some(v) => Some(v as u8),
        None => None,
    }
}

/// `u32::from_str_radix(s, 16)`, with `None` for every error.
pub fn parse_hex_u32(s: &str) -> (r: Option<u32>)
    ensures
        r matches Some(v) ==> unsigned_text(s@, 16, u32::MAX as nat) == Some(v as nat),
        r is None ==> unsigned_text(s@, 16, u32::MAX as nat) is None,
{
    let cs = chars_of(s);
    match read_unsigned(&cs, 16, u32::MAX as u64) {
        Some(v) => Some(v as u32),
        None => None,
    }
}

} // verus!
