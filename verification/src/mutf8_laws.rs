//! The encoding that modified UTF-8 decoding undoes, written out as the JVM specification
//! (§4.4.7) gives it.
use vstd::prelude::*;
use crate::mutf8::{
    continuation, decode_modified_utf8, first_code_point, is_scalar_value, starts_supplementary,
    modified_utf8_chars, modified_utf8_valid, supplementary_code_point, three_byte_code_point,
    two_byte_code_point,
};

verus! {

/// The modified UTF-8 bytes of the character `c`: one byte for `1..=0x7f`; two bytes
/// `110xxxxx 10xxxxxx` for `0` and `0x80..=0x7ff`; three bytes `1110xxxx 10xxxxxx 10xxxxxx`
/// for `0x800..=0xffff`; and for a supplementary character, the three-byte forms of its
/// two surrogates: `11101101 1010vvvv 10wwwwxx 11101101 1011yyyy 10zzzzzz`, where `vvvv` is
/// one less than the character's plane.
pub open spec fn encode_char(c: char) -> Seq<u8> {
    let x = c as u32;
    if 1 <= x <= 0x7f {
        seq![x as u8]
    } else if x <= 0x7ff {
        seq![(0xc0 | (x >> 6)) as u8, (0x80 | (x & 0x3f)) as u8]
    } else if x <= 0xffff {
        seq![(0xe0 | (x >> 12)) as u8, (0x80 | ((x >> 6) & 0x3f)) as u8, (0x80 | (x & 0x3f)) as u8]
    } else {
        seq![
            0xedu8,
            (0xa0 | ((((x >> 16) - 1) as u32) & 0x0f)) as u8,
            (0x80 | ((x >> 10) & 0x3f)) as u8,
            0xedu8,
            (0xb0 | ((x >> 6) & 0x0f)) as u8,
            (0x80 | (x & 0x3f)) as u8,
        ]
    }
}

/// The modified UTF-8 bytes of the characters `cs`, one after another.
pub open spec fn encode_chars(cs: Seq<char>) -> Seq<u8>
    decreases cs.len(),
{
    if cs.len() == 0 {
        Seq::empty()
    } else {
        encode_char(cs[0]) + encode_chars(cs.drop_first())
    }
}

proof fn lemma_first_of_encoding(c: char, rest: Seq<u8>)
    ensures
        first_code_point(encode_char(c) + rest) == Some((c as u32, encode_char(c).len() as int)),
        is_scalar_value(c as u32),
        1 <= encode_char(c).len(),
{
    let x = c as u32;
    let e = encode_char(c);
    let b = e + rest;
    assert(x <= 0xd7ff || (0xe000 <= x && x <= 0x10ffff));
    if 1 <= x <= 0x7f {
        assert(b[0] == x as u8);
        assert((x as u8) as u32 == x && (x as u8) < 0x80) by (bit_vector)
            requires
                1 <= x <= 0x7f,
        ;
    } else if x <= 0x7ff {
        let b0 = (0xc0 | (x >> 6)) as u8;
        let b1 = (0x80 | (x & 0x3f)) as u8;
        assert(b[0] == b0 && b[1] == b1);
        assert(0xc0 <= ((0xc0 | (x >> 6)) as u8) < 0xe0 && 0x80 <= ((0x80 | (x & 0x3f)) as u8) < 0xc0
            && (((((0xc0 | (x >> 6)) as u8) as u32) & 0x1f) << 6) + ((((0x80 | (x & 0x3f)) as u8)
            as u32) & 0x3f) == x) by (bit_vector)
            requires
                x <= 0x7ff,
        ;
        assert(continuation(b1));
        assert(two_byte_code_point(b0, b1) == x);
    } else if x <= 0xffff {
        let b0 = (0xe0 | (x >> 12)) as u8;
        let b1 = (0x80 | ((x >> 6) & 0x3f)) as u8;
        let b2 = (0x80 | (x & 0x3f)) as u8;
        assert(b[0] == b0 && b[1] == b1 && b[2] == b2);
        assert(0xe0 <= ((0xe0 | (x >> 12)) as u8) < 0xf0 && 0x80 <= ((0x80 | ((x >> 6) & 0x3f)) as u8)
            < 0xc0 && 0x80 <= ((0x80 | (x & 0x3f)) as u8) < 0xc0 && (((((0xe0 | (x >> 12)) as u8)
            as u32) & 0x0f) << 12) + (((((0x80 | ((x >> 6) & 0x3f)) as u8) as u32) & 0x3f) << 6) + ((
        ((0x80 | (x & 0x3f)) as u8) as u32) & 0x3f) == x && (((0xe0 | (x >> 12)) as u8) == 0xed
            ==> !(0xa0 <= ((0x80 | ((x >> 6) & 0x3f)) as u8) < 0xb0))) by (bit_vector)
            requires
                0x800 <= x <= 0xffff,
                x <= 0xd7ff || 0xe000 <= x,
        ;
        assert(!starts_supplementary(b));
        assert(three_byte_code_point(b0, b1, b2) == x);
    } else {
        let v = (0xa0 | ((((x >> 16) - 1) as u32) & 0x0f)) as u8;
        let w = (0x80 | ((x >> 10) & 0x3f)) as u8;
        let y = (0xb0 | ((x >> 6) & 0x0f)) as u8;
        let z = (0x80 | (x & 0x3f)) as u8;
        assert(b[0] == 0xedu8 && b[1] == v && b[2] == w && b[3] == 0xedu8 && b[4] == y && b[5] == z);
        assert(0xa0 <= ((0xa0 | ((((x >> 16) - 1) as u32) & 0x0f)) as u8) < 0xb0 && 0x80 <= ((0x80 | ((x
            >> 10) & 0x3f)) as u8) < 0xc0 && 0xb0 <= ((0xb0 | ((x >> 6) & 0x0f)) as u8) < 0xc0 && 0x80
            <= ((0x80 | (x & 0x3f)) as u8) < 0xc0 && 0x10000 + (((((0xa0 | ((((x >> 16) - 1) as u32)
            & 0x0f)) as u8) as u32) & 0x0f) << 16) + (((((0x80 | ((x >> 10) & 0x3f)) as u8) as u32)
            & 0x3f) << 10) + (((((0xb0 | ((x >> 6) & 0x0f)) as u8) as u32) & 0x0f) << 6) + ((((0x80
            | (x & 0x3f)) as u8) as u32) & 0x3f) == x) by (bit_vector)
            requires
                0x10000 <= x <= 0x10ffff,
        ;
        assert(starts_supplementary(b));
        assert(supplementary_code_point(v, w, y, z) == x);
    }
}

/// Modified UTF-8 decoding undoes the encoding: the bytes of any characters, encoded as
/// the JVM specification says, are valid and decode (and `read_string` reads them) to
/// those characters.
pub proof fn law_modified_utf8_round_trip(cs: Seq<char>)
    ensures
        decode_modified_utf8(encode_chars(cs)) == Some(cs),
        modified_utf8_valid(encode_chars(cs)),
        modified_utf8_chars(encode_chars(cs)) == cs,
    decreases cs.len(),
{
    if cs.len() > 0 {
        let c = cs[0];
        let rest = encode_chars(cs.drop_first());
        let b = encode_chars(cs);
        assert(b == encode_char(c) + rest);
        lemma_first_of_encoding(c, rest);
        law_modified_utf8_round_trip(cs.drop_first());
        assert(b.skip(encode_char(c).len() as int) =~= rest);
        vstd::utf8::char_u32_cast(c, c as u32);
        assert(seq![c] + cs.drop_first() =~= cs);
    } else {
        assert(encode_chars(cs) =~= Seq::<u8>::empty());
    }
}

} // verus!
