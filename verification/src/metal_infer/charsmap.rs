//! The character map of a precompiled normalizer: a trie over bytes and the texts
//! that its leaves point to, written as base64.
use crate::text::chars_of;
use vstd::prelude::*;

verus! {

// ---------------------------------------------------------------------------
// Base64
// ---------------------------------------------------------------------------

/// The value of a base64 digit; padding counts nothing.
pub open spec fn digit(c: char) -> u8 {
    if 'A' <= c <= 'Z' {
        (c as int - 'A' as int) as u8
    } else if 'a' <= c <= 'z' {
        (c as int - 'a' as int + 26) as u8
    } else if '0' <= c <= '9' {
        (c as int - '0' as int + 52) as u8
    } else if c == '+' {
        62
    } else if c == '/' {
        63
    } else {
        0
    }
}

/// How many bytes a base64 text holds: three for each four digits, less its
/// padding.
pub open spec fn octet_count(text: Seq<char>) -> int {
    let n = text.len() as int;
    if n < 4 {
        0
    } else {
        n / 4 * 3 - (if text[n - 1] == '=' {
            1int
        } else {
            0
        }) - (if text[n - 2] == '=' {
            1int
        } else {
            0
        })
    }
}

/// A byte of a base64 text: two digits hold its upper and its lower bits.
pub open spec fn octet(text: Seq<char>, k: int) -> u8 {
    let first = k / 3 * 4 + k % 3;
    let (upper, lower) = (digit(text[first]), digit(text[first + 1]));
    if k % 3 == 0 {
        (upper * 4 + lower / 16) as u8
    } else if k % 3 == 1 {
        (upper % 16 * 16 + lower / 4) as u8
    } else {
        (upper % 4 * 64 + lower) as u8
    }
}

/// The bytes of a base64 text.
pub open spec fn octets(text: Seq<char>) -> Seq<u8> {
    Seq::new(octet_count(text) as nat, |k: int| octet(text, k))
}

fn digit_of(c: char) -> (r: u8)
    ensures
        r == digit(c),
        r < 64,
{
    let v: u32 = c as u32;
    if 'A' <= c && c <= 'Z' {
        (v - 65) as u8
    } else if 'a' <= c && c <= 'z' {
        (v - 97 + 26) as u8
    } else if '0' <= c && c <= '9' {
        (v - 48 + 52) as u8
    } else if c == '+' {
        62
    } else if c == '/' {
        63
    } else {
        0
    }
}

/// Reads a base64 text.
pub fn octets_of(text: &str) -> (r: Vec<u8>)
    ensures
        r@ == octets(text@),
{
    let chars = chars_of(text);
    let n: usize = chars.len();
    let mut bytes: Vec<u8> = Vec::new();
    if n < 4 {
        assert(bytes@ =~= octets(text@));
        return bytes;
    }
    let mut count: usize = n / 4 * 3;
    if chars[n - 1] == '=' {
        count = count - 1;
    }
    if chars[n - 2] == '=' {
        count = count - 1;
    }
    let mut k: usize = 0;
    while k < count
        invariant
            k <= count,
            n == chars@.len(),
            n >= 4,
            chars@ == text@,
            count == octet_count(text@),
            count <= n / 4 * 3,
            bytes@ =~= Seq::new(k as nat, |j: int| octet(text@, j)),
        decreases count - k,
    {
        let first: usize = k / 3 * 4 + k % 3;
        let upper: u8 = digit_of(chars[first]);
        let lower: u8 = digit_of(chars[first + 1]);
        let byte: u8 = if k % 3 == 0 {
            upper * 4 + lower / 16
        } else if k % 3 == 1 {
            upper % 16 * 16 + lower / 4
        } else {
            upper % 4 * 64 + lower
        };
        bytes.push(byte);
        k = k + 1;
    }
    bytes
}

// ---------------------------------------------------------------------------
// The map
// ---------------------------------------------------------------------------

/// Four bytes as a number, the least significant first.
pub open spec fn word(bytes: Seq<u8>, at: int) -> u64 {
    (bytes[at] + bytes[at + 1] * 0x100 + bytes[at + 2] * 0x1_0000 + bytes[at + 3]
        * 0x100_0000) as u64
}

/// How many units the trie has; its size in bytes comes first.
pub open spec fn unit_count(bytes: Seq<u8>) -> u64 {
    word(bytes, 0) / 4
}

pub open spec fn unit(bytes: Seq<u8>, i: int) -> u64 {
    word(bytes, 4 + 4 * i)
}

/// The byte that leads to a unit; more than a byte where the unit is a leaf's value.
pub open spec fn label(unit: u64) -> u64 {
    unit & 0x8000_00ff
}

/// Whether a unit has a leaf.
pub open spec fn has_leaf(unit: u64) -> bool {
    (unit >> 8) & 1 == 1
}

/// Where the units after a unit begin: each byte leads from there to its own unit,
/// and a leaf's value stands there itself.
pub open spec fn below(i: u64, unit: u64) -> u64 {
    i ^ ((unit >> 10) << ((unit & 0x200) >> 6))
}

/// Whether a byte of a text may lead to the unit.
pub open spec fn reached(unit: u64) -> bool {
    1 <= label(unit) <= 255
}

/// Whether a leaf's text begins within the texts, at a character of theirs.
pub open spec fn text_begins(bytes: Seq<u8>, value: u64) -> bool {
    let at = 4 + 4 * unit_count(bytes) + value;
    at == bytes.len() || (at < bytes.len() && bytes[at] & 0xc0 != 0x80)
}

/// Whether the search of a text may go on from a unit, whatever byte comes next.
pub open spec fn unit_leads(bytes: Seq<u8>, i: int) -> bool {
    let here = unit(bytes, i);
    let next = below(i as u64, here);
    i == 0 || reached(here) ==> {
        &&& next | 255 < unit_count(bytes)
        &&& reached(here) && has_leaf(here) ==> text_begins(
            bytes,
            unit(bytes, next as int) & 0x7fff_ffff,
        )
    }
}

/// A map in which the search of every text stays within the trie, and ends at a
/// character of the texts.
pub open spec fn map_total(bytes: Seq<u8>) -> bool {
    &&& bytes.len() >= 4
    &&& 0 < unit_count(bytes)
    &&& 4 + 4 * unit_count(bytes) <= bytes.len()
    &&& forall|i: int| 0 <= i < unit_count(bytes) ==> #[trigger] unit_leads(bytes, i)
}

fn word_at(bytes: &Vec<u8>, at: usize) -> (r: u64)
    requires
        at + 4 <= bytes@.len(),
    ensures
        r == word(bytes@, at as int),
        r <= u32::MAX,
{
    let last: usize = bytes.len() - 1;
    assert(at + 3 <= last);
    bytes[at] as u64 + bytes[at + 1] as u64 * 0x100 + bytes[at + 2] as u64 * 0x1_0000 + bytes[at
        + 3] as u64 * 0x100_0000
}

fn check_text(bytes: &Vec<u8>, units: u64, value: u64) -> (r: bool)
    requires
        units == unit_count(bytes@),
        4 + 4 * units <= bytes@.len(),
        value <= u32::MAX,
        units <= u32::MAX,
    ensures
        r == text_begins(bytes@, value),
{
    let at: u64 = 4 + 4 * units + value;
    let len: u64 = bytes.len() as u64;
    at == len || (at < len && bytes[at as usize] & 0xc0 != 0x80)
}

fn check_unit(bytes: &Vec<u8>, units: u64, i: u64) -> (r: bool)
    requires
        units == unit_count(bytes@),
        4 + 4 * units <= bytes@.len(),
        units <= u32::MAX,
        i < units,
    ensures
        r == unit_leads(bytes@, i as int),
{
    let here: u64 = word_at(bytes, 4 + 4 * (i as usize));
    let label: u64 = here & 0x8000_00ff;
    let reached = 1 <= label && label <= 255;
    if i != 0 && !reached {
        return true;
    }
    assert((here & 0x200) >> 6 <= 8) by (bit_vector);
    let next: u64 = i ^ ((here >> 10) << ((here & 0x200) >> 6));
    if next | 255 >= units {
        return false;
    }
    assert(next <= next | 255) by (bit_vector);
    if !reached || (here >> 8) & 1 != 1 {
        return true;
    }
    let value: u64 = word_at(bytes, 4 + 4 * (next as usize)) & 0x7fff_ffff;
    assert(value <= 0x7fff_ffff) by {
        let w = unit(bytes@, next as int);
        assert(w & 0x7fff_ffff <= 0x7fff_ffff) by (bit_vector);
    }
    check_text(bytes, units, value)
}

/// Whether the map takes every text.
pub fn check_map(bytes: &Vec<u8>) -> (r: bool)
    ensures
        r == map_total(bytes@),
{
    if bytes.len() < 4 {
        return false;
    }
    let units: u64 = word_at(bytes, 0) / 4;
    if units == 0 || bytes.len() as u64 - 4 < 4 * units {
        return false;
    }
    let mut i: u64 = 0;
    while i < units
        invariant
            i <= units,
            units == unit_count(bytes@),
            0 < units <= u32::MAX,
            4 + 4 * units <= bytes@.len(),
            forall|j: int| 0 <= j < i ==> #[trigger] unit_leads(bytes@, j),
        decreases units - i,
    {
        if !check_unit(bytes, units, i) {
            assert(!unit_leads(bytes@, i as int));
            return false;
        }
        i = i + 1;
    }
    true
}

} // verus!
