//! Where the operands of the two switch instructions lie.
use vstd::prelude::*;
use crate::bytes::be32_i32;

verus! {

/// The padding that aligns the operands of a switch at `pos` to a multiple of four bytes
/// from the start of the method body.
pub open spec fn switch_padding(pos: int, start: u32) -> u8 {
    let d = (pos + 1 - start) % 4;
    if d == 0 {
        0u8
    } else {
        (4 - d) as u8
    }
}

/// Where the operands of a switch at `pos` begin, after its padding.
pub open spec fn switch_operands(pos: int, start: u32) -> int {
    pos + 1 + switch_padding(pos, start) as int
}

/// The number of jump offsets of a `tableswitch` whose operands begin at `h`.
pub open spec fn table_count(s: Seq<u8>, h: int) -> int {
    let low = be32_i32(s, h + 4);
    let high = be32_i32(s, h + 8);
    if high - low + 1 > 0 {
        high - low + 1
    } else {
        0
    }
}

/// The number of match/offset pairs of a `lookupswitch` whose operands begin at `h`.
pub open spec fn lookup_count(s: Seq<u8>, h: int) -> int {
    let n = be32_i32(s, h + 4);
    if n > 0 {
        n as int
    } else {
        0
    }
}

/// The padding before the operands of a switch instruction whose opcode byte was just read,
/// when `dist` bytes have been read and the method body began at `method_start`.
pub fn padding_for(dist: u32, method_start: u32) -> (p: u8)
    requires
        1 <= dist,
        method_start <= dist,
    ensures
        p == switch_padding(dist - 1, method_start),
        p < 4,
{
    let padding = 4 - ((dist - method_start) % 4) as u8;
    if padding == 4 {
        0
    } else {
        padding
    }
}

/// The number of entries a table switch spans from `low` to `high`, or zero.
pub fn table_len(low: i32, high: i32) -> (n: i64)
    ensures
        n == (if high - low + 1 > 0 { high - low + 1 } else { 0 }),
{
    let n = high as i64 - low as i64 + 1;
    if n > 0 {
        n
    } else {
        0
    }
}

/// The number of pairs a lookup switch announces, or zero.
pub fn lookup_len(npairs: i32) -> (n: i64)
    ensures
        n == (if npairs > 0 { npairs as int } else { 0 }),
{
    if npairs > 0 {
        npairs as i64
    } else {
        0
    }
}

} // verus!
