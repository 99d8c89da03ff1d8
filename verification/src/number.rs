//! Numbers given on the command line, in decimal or, after `0x`, in hexadecimal.
use vstd::prelude::*;
use vstd::string::StringSliceAdditionalSpecFns;

verus! {

/// The value of an ASCII digit in base `radix` (10 or 16; hexadecimal letters in
/// either case).
pub open spec fn digit_value(c: u8, radix: nat) -> Option<nat> {
    if 0x30 <= c <= 0x39 {
        Some((c - 0x30) as nat)
    } else if radix == 16 && 0x61 <= c <= 0x66 {
        Some((c - 0x61 + 10) as nat)
    } else if radix == 16 && 0x41 <= c <= 0x46 {
        Some((c - 0x41 + 10) as nat)
    } else {
        None
    }
}

/// The value of a string of digits in base `radix`, `None` where one of them is
/// no digit.
pub open spec fn digits_value(s: Seq<u8>, radix: nat) -> Option<nat>
    decreases s.len(),
{
    if s.len() == 0 {
        Some(0)
    } else {
        match (digits_value(s.drop_last(), radix), digit_value(s.last(), radix)) {
            (Some(high), Some(d)) => Some(high * radix + d),
            _ => None,
        }
    }
}

/// The value of a number in base `radix`: at least one digit, after an optional `+`.
pub open spec fn number_value(s: Seq<u8>, radix: nat) -> Option<nat> {
    let body = if s.len() > 0 && s[0] == 0x2B { s.drop_first() } else { s };
    if body.len() == 0 { None } else { digits_value(body, radix) }
}

/// `s` without all the `0x` it starts with.
pub open spec fn strip_hex_prefixes(s: Seq<u8>) -> Seq<u8>
    decreases s.len(),
{
    if s.len() >= 2 && s[0] == 0x30 && s[1] == 0x78 {
        strip_hex_prefixes(s.subrange(2, s.len() as int))
    } else {
        s
    }
}

/// The number written in `s`: hexadecimal where `s` starts with `0x` (every
/// leading `0x` is dropped), decimal otherwise.
pub open spec fn address_value(s: Seq<u8>) -> Option<nat> {
    if s.len() >= 2 && s[0] == 0x30 && s[1] == 0x78 {
        number_value(strip_hex_prefixes(s), 16)
    } else {
        number_value(s, 10)
    }
}

/// The digits count up one by one: `0` is worth zero, each of `1`..`9` one more
/// than the character before it, and in hexadecimal `a` (or `A`) one more than
/// `9`, each of `b`..`f` (`B`..`F`) one more than the letter before it, and a
/// letter the same in either case; no other character is a digit, and letters
/// are no decimal digits.
pub proof fn law_digit_values(c: u8)
    ensures
        digit_value(0x30, 10) == Some(0nat),
        digit_value(0x30, 16) == Some(0nat),
        0x31 <= c <= 0x39 ==> digit_value(c, 10) == Some((digit_value((c - 1) as u8, 10)->0 + 1) as nat)
            && digit_value(c, 16) == digit_value(c, 10),
        0x62 <= c <= 0x66 ==> digit_value(c, 16) == Some((digit_value((c - 1) as u8, 16)->0 + 1) as nat),
        digit_value(0x61, 16) == Some((digit_value(0x39, 16)->0 + 1) as nat),
        0x41 <= c <= 0x46 ==> digit_value(c, 16) == digit_value((c + 32) as u8, 16),
        0x61 <= c <= 0x66 || 0x41 <= c <= 0x46 ==> digit_value(c, 10) is None,
        !(0x30 <= c <= 0x39 || 0x61 <= c <= 0x66 || 0x41 <= c <= 0x46) ==> digit_value(c, 16) is None,
{
}

fn digit_of(c: u8, radix: u64) -> (r: Option<u64>)
    requires
        radix == 10 || radix == 16,
    ensures
        match digit_value(c, radix as nat) {
            Some(d) => r == Some(d as u64),
            None => r is None,
        },
{
    if 0x30 <= c && c <= 0x39 {
        Some((c - 0x30) as u64)
    } else if radix == 16 && 0x61 <= c && c <= 0x66 {
        Some((c - 0x61 + 10) as u64)
    } else if radix == 16 && 0x41 <= c && c <= 0x46 {
        Some((c - 0x41 + 10) as u64)
    } else {
        None
    }
}

proof fn lemma_digits_prefix(s: Seq<u8>, radix: nat, k: int)
    requires
        0 <= k <= s.len(),
        digits_value(s.take(k), radix) is None,
    ensures
        digits_value(s, radix) is None,
    decreases s.len(),
{
    if k < s.len() {
        assert(s.drop_last().take(k) =~= s.take(k));
        lemma_digits_prefix(s.drop_last(), radix, k);
    } else {
        assert(s.take(k) =~= s);
    }
}

proof fn lemma_digits_monotone(s: Seq<u8>, radix: nat, k: int)
    requires
        radix >= 1,
        0 <= k <= s.len(),
        digits_value(s, radix) is Some,
    ensures
        digits_value(s.take(k), radix) is Some,
        digits_value(s.take(k), radix)->0 <= digits_value(s, radix)->0,
    decreases s.len(),
{
    if k < s.len() {
        assert(s.drop_last().take(k) =~= s.take(k));
        lemma_digits_monotone(s.drop_last(), radix, k);
        let high = digits_value(s.drop_last(), radix)->0;
        assert(high <= high * radix) by (nonlinear_arith) requires radix >= 1;
    } else {
        assert(s.take(k) =~= s);
    }
}

/// The value of the digits `s[start..]` in base `radix`, `None` where one of them
/// is no digit, there are none, or the value does not fit a `usize`.
fn parse_digits(s: &[u8], start: usize, radix: u64) -> (r: Option<usize>)
    requires
        radix == 10 || radix == 16,
        start <= s@.len(),
    ensures
        match r {
            Some(v) => s@.len() > start && digits_value(s@.subrange(start as int, s@.len() as int), radix as nat)
                == Some(v as nat),
            None => s@.len() == start || match digits_value(s@.subrange(start as int, s@.len() as int), radix as nat) {
                Some(v) => v > usize::MAX,
                None => true,
            },
        },
{
    if start == s.len() {
        return None;
    }
    let ghost body = s@.subrange(start as int, s@.len() as int);
    let mut value: usize = 0;
    let mut i = start;
    while i < s.len()
        invariant
            start <= i <= s@.len(),
            radix == 10 || radix == 16,
            body == s@.subrange(start as int, s@.len() as int),
            digits_value(body.take(i - start), radix as nat) == Some(value as nat),
        decreases s@.len() - i,
    {
        assert(body.take(i + 1 - start).drop_last() =~= body.take(i - start));
        assert(body.take(i + 1 - start).last() == s@[i as int]);
        let d = match digit_of(s[i], radix) {
            Some(d) => d,
            None => {
                proof { lemma_digits_prefix(body, radix as nat, i + 1 - start); }
                return None;
            }
        };
        let r = radix as usize;
        if value > (usize::MAX - d as usize) / r {
            proof {
                assert(value * radix + d > usize::MAX) by (nonlinear_arith)
                    requires value > (usize::MAX - d) / (radix as int), radix > 0, d < 16, d <= usize::MAX;
                if digits_value(body, radix as nat) is Some {
                    lemma_digits_monotone(body, radix as nat, i + 1 - start);
                }
            }
            return None;
        }
        assert(value * r + d as usize <= usize::MAX) by (nonlinear_arith)
            requires value <= (usize::MAX - d) / (r as int), r > 0, d < 16;
        value = value * r + d as usize;
        i += 1;
    }
    assert(body.take(s@.len() - start) =~= body);
    Some(value)
}

/// The number written in `s` where it fits a `usize`.
pub open spec fn address_of(s: Seq<u8>) -> Option<usize> {
    match address_value(s) {
        Some(v) => if v <= usize::MAX { Some(v as usize) } else { None },
        None => None,
    }
}

/// Whether `text` writes a number that `usize_from_str` reads.
pub fn is_address(text: &str) -> (r: bool)
    ensures
        r == (address_of(text.spec_bytes()) is Some),
{
    parse_address(text).is_some()
}

/// The number written in `text`: hexadecimal after a leading `0x` (every leading
/// `0x` is dropped), decimal otherwise, each after an optional `+`.
pub fn usize_from_str(text: &str) -> (r: usize)
    requires
        address_of(text.spec_bytes()) is Some,
    ensures
        address_of(text.spec_bytes()) == Some(r),
        r == address_value(text.spec_bytes())->0,
{
    match parse_address(text) {
        Some(v) => v,
        None => 0,
    }
}

/// The number written in `text`, `None` where no number is written there or it
/// does not fit a `usize`.
fn parse_address(text: &str) -> (r: Option<usize>)
    ensures
        r == address_of(text.spec_bytes()),
{
    let s = text.as_bytes();
    let ghost bytes = s@;
    let hex = s.len() >= 2 && s[0] == 0x30 && s[1] == 0x78;
    let mut start: usize = 0;
    let radix: u64 = if hex { 16 } else { 10 };
    if hex {
        assert(bytes.subrange(0, bytes.len() as int) =~= bytes);
        while s.len() - start >= 2 && s[start] == 0x30 && s[start + 1] == 0x78
            invariant
                start <= s@.len(),
                strip_hex_prefixes(bytes) == strip_hex_prefixes(bytes.subrange(start as int, bytes.len() as int)),
                bytes == s@,
            decreases s@.len() - start,
        {
            proof {
                let rest = bytes.subrange(start as int, bytes.len() as int);
                assert(rest.subrange(2, rest.len() as int) =~= bytes.subrange(start + 2, bytes.len() as int));
            }
            start += 2;
        }
        proof {
            let rest = bytes.subrange(start as int, bytes.len() as int);
            assert(strip_hex_prefixes(rest) == rest);
        }
    }
    proof {
        if !hex {
            assert(bytes.subrange(0, bytes.len() as int) =~= bytes);
        }
    }
    if start < s.len() && s[start] == 0x2B {
        let r = parse_digits(s, start + 1, radix);
        proof {
            let rest = bytes.subrange(start as int, bytes.len() as int);
            assert(rest.drop_first() =~= bytes.subrange(start + 1, bytes.len() as int));
        }
        r
    } else {
        parse_digits(s, start, radix)
    }
}

} // verus!
