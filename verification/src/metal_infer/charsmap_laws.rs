//! What the encoded map of a normalizer says.
use crate::metal_infer::charsmap::{
    below, digit, has_leaf, label, map_total, octet, octet_count, octets, reached, text_begins, unit,
    unit_count, unit_leads, word,
};
use vstd::prelude::*;

verus! {

/// The digits are the capitals, the small letters, the numerals, the plus and the slash,
/// in that order from zero to sixty-three.
pub proof fn digits_count_through_the_alphabet(c: char)
    ensures
        'A' <= c <= 'Z' ==> digit(c) + 'A' as int == c as int,
        'a' <= c <= 'z' ==> digit(c) + 'a' as int == c as int + 26,
        '0' <= c <= '9' ==> digit(c) + '0' as int == c as int + 52,
        digit('+') == 62,
        digit('/') == 63,
        digit(c) < 64,
{
}

/// Four digits make up three bytes: together they are one number of twenty-four bits.
pub proof fn four_digits_make_three_bytes(text: Seq<char>, q: int)
    requires
        q >= 0,
        4 * q + 3 < text.len(),
    ensures
        octet(text, 3 * q) * 0x1_0000 + octet(text, 3 * q + 1) * 0x100 + octet(text, 3 * q + 2)
            == digit(text[4 * q]) * 0x4_0000 + digit(text[4 * q + 1]) * 0x1000 + digit(
            text[4 * q + 2],
        ) * 0x40 + digit(text[4 * q + 3]),
{
    assert((3 * q) / 3 == q && (3 * q) % 3 == 0);
    assert((3 * q + 1) / 3 == q && (3 * q + 1) % 3 == 1);
    assert((3 * q + 2) / 3 == q && (3 * q + 2) % 3 == 2);
    let a = digit(text[4 * q]);
    let b = digit(text[4 * q + 1]);
    let c = digit(text[4 * q + 2]);
    let d = digit(text[4 * q + 3]);
    assert(octet(text, 3 * q) == a * 4 + b / 16);
    assert(octet(text, 3 * q + 1) == b % 16 * 16 + c / 4);
    assert(octet(text, 3 * q + 2) == c % 4 * 64 + d);
}

/// A text of whole groups holds three bytes for each, less one for each sign of padding
/// at its end.
pub proof fn padding_shortens_the_bytes(text: Seq<char>, q: int)
    requires
        q > 0,
        text.len() == 4 * q,
    ensures
        octets(text).len() == octet_count(text),
        octet_count(text) == 3 * q - (if text[4 * q - 1] == '=' {
            1int
        } else {
            0int
        }) - (if text[4 * q - 2] == '=' {
            1int
        } else {
            0int
        }),
{
}

/// A word is four bytes, the lowest first.
pub proof fn words_are_four_bytes(bytes: Seq<u8>, at: int)
    requires
        0 <= at,
        at + 4 <= bytes.len(),
    ensures
        word(bytes, at) == bytes[at] + 0x100 * (bytes[at + 1] + 0x100 * (bytes[at + 2] + 0x100
            * bytes[at + 3])),
        unit(bytes, at) == word(bytes, 4 + 4 * at),
{
}

/// A unit's label is its low byte and its sign; whether it has a leaf is the bit above
/// the byte; the units below it are reached by the offset of its upper bits, taken two
/// hundred and fifty-six times where its ninth bit is set.
pub proof fn units_are_read_bit_by_bit(u: u64, i: u64)
    requires
        u <= 0xffff_ffff,
    ensures
        u < 0x8000_0000 ==> label(u) == u % 256,
        u >= 0x8000_0000 ==> label(u) == u % 256 + 0x8000_0000,
        has_leaf(u) <==> (u / 256) % 2 == 1,
        (u / 512) % 2 == 0 ==> below(i, u) == i ^ ((u / 1024) as u64),
        (u / 512) % 2 == 1 ==> below(i, u) == i ^ ((u / 1024 * 256) as u64),
        reached(u) <==> u < 0x8000_0000 && u % 256 != 0,
{
    assert(u < 0x8000_0000 ==> u & 0x8000_00ff == u % 256) by (bit_vector)
        requires
            u <= 0xffff_ffff,
    ;
    assert(u >= 0x8000_0000 ==> u & 0x8000_00ff == u % 256 + 0x8000_0000) by (bit_vector)
        requires
            u <= 0xffff_ffff,
    ;
    assert((u >> 8) & 1 == (u / 256) % 2) by (bit_vector);
    assert((u / 512) % 2 == 0 ==> (u >> 10) << ((u & 0x200) >> 6) == u / 1024) by (bit_vector);
    assert((u / 512) % 2 == 1 ==> (u >> 10) << ((u & 0x200) >> 6) == u / 1024 * 256) by (bit_vector)
        requires
            u <= 0xffff_ffff,
    ;
}

/// A map that is taken holds its units, at least one, and every unit that can be reached
/// leads to a whole row of them; a leaf's text begins within the map, at a character.
pub proof fn maps_lead_within_themselves(bytes: Seq<u8>, i: int)
    requires
        map_total(bytes),
        0 <= i < unit_count(bytes),
    ensures
        bytes.len() >= 4 + 4 * unit_count(bytes),
        unit_count(bytes) == word(bytes, 0) / 4,
        i == 0 || reached(unit(bytes, i)) ==> below(i as u64, unit(bytes, i)) | 255 < unit_count(
            bytes,
        ),
        reached(unit(bytes, i)) && has_leaf(unit(bytes, i)) ==> {
            let value = unit(bytes, below(i as u64, unit(bytes, i)) as int) & 0x7fff_ffff;
            let start = 4 + 4 * unit_count(bytes) + value;
            &&& text_begins(bytes, value)
            &&& start <= bytes.len()
            &&& start < bytes.len() ==> bytes[start] & 0xc0 != 0x80
        },
{
    assert(unit_leads(bytes, i));
}

} // verus!
