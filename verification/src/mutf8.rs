//! Decoding the "modified UTF-8" strings of class files (JVM specification §4.4.7).
use vstd::prelude::*;

verus! {

/// `x` is the number of a character: at most `0x10FFFF` and not a surrogate.
pub open spec fn is_scalar_value(x: u32) -> bool {
    x <= 0xd7ff || (0xe000 <= x && x <= 0x10ffff)
}

/// `b` continues an encoding: it has the form `10xxxxxx`.
pub open spec fn continuation(b: u8) -> bool {
    0x80 <= b && b < 0xc0
}

/// The code point of the two-byte encoding `x y`.
pub open spec fn two_byte_code_point(x: u8, y: u8) -> u32 {
    ((((x as u32) & 0x1fu32) << 6u32) + ((y as u32) & 0x3fu32)) as u32
}

/// The code point of the three-byte encoding `x y z`.
pub open spec fn three_byte_code_point(x: u8, y: u8, z: u8) -> u32 {
    ((((x as u32) & 0x0fu32) << 12u32) + (((y as u32) & 0x3fu32) << 6u32) + ((z as u32) & 0x3fu32))
        as u32
}

/// The code point of the six-byte encoding `u v w x y z` of a supplementary character (a
/// surrogate pair, each half in three bytes), taken from `v`, `w`, `y` and `z`.
pub open spec fn supplementary_code_point(v: u8, w: u8, y: u8, z: u8) -> u32 {
    (0x10000u32 + (((v as u32) & 0x0fu32) << 16u32) + (((w as u32) & 0x3fu32) << 10u32) + (((
    y as u32) & 0x0fu32) << 6u32) + ((z as u32) & 0x3fu32)) as u32
}

/// `b` starts with the six-byte encoding of a supplementary character: `ED`, a byte of
/// `A0..=AF`, a continuation byte, `ED`, a byte of `B0..=BF`, a continuation byte.
pub open spec fn starts_supplementary(b: Seq<u8>) -> bool {
    &&& b.len() >= 6
    &&& b[0] == 0xedu8
    &&& 0xa0 <= b[1] && b[1] < 0xb0
    &&& continuation(b[2])
    &&& b[3] == 0xedu8
    &&& 0xb0 <= b[4] && b[4] < 0xc0
    &&& continuation(b[5])
}

/// The code point encoded at the front of `b` and the number of bytes it takes: one byte
/// below `0x80`, two bytes led by `110xxxxx`, six bytes for a surrogate pair, three bytes
/// led by `1110xxxx`; `None` where `b` starts with no such encoding.
pub open spec fn first_code_point(b: Seq<u8>) -> Option<(u32, int)> {
    if b.len() == 0 {
        None
    } else if b[0] < 0x80 {
        Some((b[0] as u32, 1))
    } else if 0xc0 <= b[0] && b[0] < 0xe0 {
        if b.len() >= 2 && continuation(b[1]) {
            Some((two_byte_code_point(b[0], b[1]), 2))
        } else {
            None
        }
    } else if 0xe0 <= b[0] && b[0] < 0xf0 {
        if starts_supplementary(b) {
            Some((supplementary_code_point(b[1], b[2], b[4], b[5]), 6))
        } else if b.len() >= 3 && continuation(b[1]) && continuation(b[2]) {
            Some((three_byte_code_point(b[0], b[1], b[2]), 3))
        } else {
            None
        }
    } else {
        None
    }
}

/// The characters that the modified UTF-8 bytes `b` encode, or `None` where they are not
/// a sequence of encodings of characters.
pub open spec fn decode_modified_utf8(b: Seq<u8>) -> Option<Seq<char>>
    decreases b.len(),
{
    if b.len() == 0 {
        Some(Seq::empty())
    } else {
        match first_code_point(b) {
            Some((cp, n)) => if is_scalar_value(cp) && 1 <= n <= b.len() {
                match decode_modified_utf8(b.skip(n)) {
                    Some(rest) => Some(seq![cp as char] + rest),
                    None => None,
                }
            } else {
                None
            },
            None => None,
        }
    }
}

/// The bytes `b` are valid modified UTF-8.
pub open spec fn modified_utf8_valid(b: Seq<u8>) -> bool {
    decode_modified_utf8(b) is Some
}

/// One character per byte of `b`, the one whose number is that byte.
pub open spec fn widened(b: Seq<u8>) -> Seq<char> {
    Seq::new(b.len(), |i: int| b[i] as char)
}

/// The text that the bytes `b` stand for: the characters they encode as modified UTF-8, or,
/// where they are not valid modified UTF-8, one character per byte (that byte's number).
pub open spec fn modified_utf8_chars(b: Seq<u8>) -> Seq<char> {
    match decode_modified_utf8(b) {
        Some(c) => c,
        None => widened(b),
    }
}

/// std's `char::from_u32`: the character with the number `x`, where `x` is a Unicode
/// scalar value (not a surrogate, at most `0x10FFFF`), else `None`.
#[verifier::external_body]
fn char_from_u32(x: u32) -> (c: Option<char>)
    ensures
        c == (if is_scalar_value(x) {
            Some(x as char)
        } else {
            None::<char>
        }),
{
    char::from_u32(x)
}

/// The characters that the modified UTF-8 bytes `bytes` encode, or `None` where they are
/// not valid.
pub fn decode(bytes: &[u8]) -> (r: Option<Vec<char>>)
    ensures
        match r {
            Some(v) => decode_modified_utf8(bytes@) == Some(v@),
            None => decode_modified_utf8(bytes@) is None,
        },
{
    let mut chars: Vec<char> = Vec::new();
    let mut index: usize = 0;
    assert(bytes@.skip(0) =~= bytes@);
    while index < bytes.len()
        invariant
            index <= bytes@.len(),
            decode_modified_utf8(bytes@) == match decode_modified_utf8(bytes@.skip(index as int)) {
                Some(rest) => Some(chars@ + rest),
                None => None::<Seq<char>>,
            },
        decreases bytes@.len() - index,
    {
        let ghost rest = bytes@.skip(index as int);
        let n = bytes.len() - index;
        let b = bytes[index];
        let (cp, len): (u32, usize) = if b < 0x80 {
            (b as u32, 1)
        } else if 0xc0 <= b && b < 0xe0 {
            if n >= 2 && 0x80 <= bytes[index + 1] && bytes[index + 1] < 0xc0 {
                let y = bytes[index + 1];
                let x1 = ((b as u32) & 0x1f) << 6;
                let y1 = (y as u32) & 0x3f;
                assert(x1 <= 0x7c0 && y1 <= 0x3f) by (bit_vector)
                    requires
                        x1 == ((b as u32) & 0x1f) << 6,
                        y1 == (y as u32) & 0x3f,
                ;
                (x1 + y1, 2)
            } else {
                return None;
            }
        } else if 0xe0 <= b && b < 0xf0 {
            if n >= 6 && b == 0xed && 0xa0 <= bytes[index + 1] && bytes[index + 1] < 0xb0 && 0x80
                <= bytes[index + 2] && bytes[index + 2] < 0xc0 && bytes[index + 3] == 0xed && 0xb0
                <= bytes[index + 4] && bytes[index + 4] < 0xc0 && 0x80 <= bytes[index + 5]
                && bytes[index + 5] < 0xc0 {
                let v = bytes[index + 1];
                let w = bytes[index + 2];
                let y = bytes[index + 4];
                let z = bytes[index + 5];
                let a = ((v as u32) & 0x0f) << 16;
                let bb = ((w as u32) & 0x3f) << 10;
                let c = ((y as u32) & 0x0f) << 6;
                let d = (z as u32) & 0x3f;
                assert(a <= 0xf0000 && bb <= 0xfc00 && c <= 0x3c0 && d <= 0x3f) by (bit_vector)
                    requires
                        a == ((v as u32) & 0x0f) << 16,
                        bb == ((w as u32) & 0x3f) << 10,
                        c == ((y as u32) & 0x0f) << 6,
                        d == (z as u32) & 0x3f,
                ;
                (0x10000 + a + bb + c + d, 6)
            } else if n >= 3 && 0x80 <= bytes[index + 1] && bytes[index + 1] < 0xc0 && 0x80
                <= bytes[index + 2] && bytes[index + 2] < 0xc0 {
                let y = bytes[index + 1];
                let z = bytes[index + 2];
                let x1 = ((b as u32) & 0x0f) << 12;
                let y1 = ((y as u32) & 0x3f) << 6;
                let z1 = (z as u32) & 0x3f;
                assert(x1 <= 0xf000 && y1 <= 0xfc0 && z1 <= 0x3f) by (bit_vector)
                    requires
                        x1 == ((b as u32) & 0x0f) << 12,
                        y1 == ((y as u32) & 0x3f) << 6,
                        z1 == (z as u32) & 0x3f,
                ;
                (x1 + y1 + z1, 3)
            } else {
                return None;
            }
        } else {
            return None;
        };
        proof {
            assert(first_code_point(rest) == Some((cp, len as int)));
        }
        match char_from_u32(cp) {
            Some(ch) => {
                chars.push(ch);
            },
            None => {
                return None;
            },
        }
        proof {
            assert(bytes@.skip(index + len) =~= rest.skip(len as int));
        }
        index += len;
        proof {
            let ghost before = chars@.drop_last();
            match decode_modified_utf8(bytes@.skip(index as int)) {
                Some(r) => {
                    assert(chars@ + r =~= before + (seq![cp as char] + r));
                },
                None => {},
            }
        }
    }
    proof {
        assert(bytes@.skip(index as int) =~= Seq::<u8>::empty());
        assert(chars@ + Seq::<char>::empty() =~= chars@);
    }
    Some(chars)
}

/// Whether `bytes` are valid modified UTF-8.
pub fn is_valid(bytes: &[u8]) -> (b: bool)
    ensures
        b == modified_utf8_valid(bytes@),
{
    decode(bytes).is_some()
}

/// The text that `bytes` stand for: what they encode as modified UTF-8, else one character
/// per byte.
pub fn decode_chars(bytes: &[u8]) -> (chars: Vec<char>)
    ensures
        chars@ == modified_utf8_chars(bytes@),
{
    match decode(bytes) {
        Some(v) => v,
        None => widen(bytes),
    }
}

/// One character per byte of `bytes`, the one whose number is that byte.
pub fn widen(bytes: &[u8]) -> (chars: Vec<char>)
    ensures
        chars@ == widened(bytes@),
{
    let mut chars: Vec<char> = Vec::new();
    let mut i: usize = 0;
    while i < bytes.len()
        invariant
            i <= bytes@.len(),
            chars@ =~= widened(bytes@.take(i as int)),
        decreases bytes@.len() - i,
    {
        chars.push(bytes[i] as char);
        i = i + 1;
        assert(widened(bytes@.take(i as int)) =~= widened(bytes@.take(i - 1)).push(
            bytes@[i - 1] as char,
        ));
    }
    assert(bytes@.take(bytes@.len() as int) =~= bytes@);
    chars
}

} // verus!
