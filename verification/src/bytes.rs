//! Big-endian integer encodings used throughout the class-file format.
use vstd::prelude::*;

verus! {

/// The unsigned 16-bit big-endian number stored at `s[p..p+2]`.
pub open spec fn be16(s: Seq<u8>, p: int) -> u16 {
    (s[p] as int * 0x100 + s[p + 1] as int) as u16
}

/// The unsigned 32-bit big-endian number stored at `s[p..p+4]`.
pub open spec fn be32(s: Seq<u8>, p: int) -> u32 {
    (s[p] as int * 0x1000000 + s[p + 1] as int * 0x10000 + s[p + 2] as int * 0x100
        + s[p + 3] as int) as u32
}

/// The unsigned 64-bit big-endian number stored at `s[p..p+8]`.
pub open spec fn be64(s: Seq<u8>, p: int) -> u64 {
    (be32(s, p) as int * 0x1_0000_0000 + be32(s, p + 4) as int) as u64
}

/// The two big-endian bytes of a `u16`.
pub open spec fn u16_bytes(x: u16) -> Seq<u8> {
    seq![(x >> 8u16) as u8, x as u8]
}

/// The two big-endian bytes of an `i16`.
pub open spec fn i16_bytes(x: i16) -> Seq<u8> {
    seq![(x >> 8i16) as u8, x as u8]
}

/// The four big-endian bytes of a `u32`.
pub open spec fn u32_bytes(x: u32) -> Seq<u8> {
    seq![(x >> 24u32) as u8, (x >> 16u32) as u8, (x >> 8u32) as u8, x as u8]
}

/// The four big-endian bytes of an `i32`.
pub open spec fn i32_bytes(x: i32) -> Seq<u8> {
    seq![(x >> 24i32) as u8, (x >> 16i32) as u8, (x >> 8i32) as u8, x as u8]
}

/// The eight big-endian bytes of a `u64`.
pub open spec fn u64_bytes(x: u64) -> Seq<u8> {
    seq![
        (x >> 56u64) as u8,
        (x >> 48u64) as u8,
        (x >> 40u64) as u8,
        (x >> 32u64) as u8,
        (x >> 24u64) as u8,
        (x >> 16u64) as u8,
        (x >> 8u64) as u8,
        x as u8,
    ]
}

/// The concatenated encodings of a sequence of `i32`s.
pub open spec fn i32s_bytes(v: Seq<i32>) -> Seq<u8>
    decreases v.len(),
{
    if v.len() == 0 {
        Seq::empty()
    } else {
        i32s_bytes(v.drop_last()) + i32_bytes(v.last())
    }
}

/// The concatenated encodings of a sequence of `(i32, i32)` pairs.
pub open spec fn pairs_bytes(v: Seq<(i32, i32)>) -> Seq<u8>
    decreases v.len(),
{
    if v.len() == 0 {
        Seq::empty()
    } else {
        pairs_bytes(v.drop_last()) + i32_bytes(v.last().0) + i32_bytes(v.last().1)
    }
}

pub proof fn lemma_i32s_bytes_len(v: Seq<i32>)
    ensures
        i32s_bytes(v).len() == 4 * v.len(),
    decreases v.len(),
{
    if v.len() > 0 {
        lemma_i32s_bytes_len(v.drop_last());
    }
}

pub proof fn lemma_pairs_bytes_len(v: Seq<(i32, i32)>)
    ensures
        pairs_bytes(v).len() == 8 * v.len(),
    decreases v.len(),
{
    if v.len() > 0 {
        lemma_pairs_bytes_len(v.drop_last());
    }
}

/// Reading back the two bytes of a `u16` gives the `u16`.
pub proof fn lemma_u16_roundtrip(x: u16)
    ensures
        be16(u16_bytes(x), 0) == x,
{
    let hi = (x >> 8u16) as u8;
    let lo = x as u8;
    assert(hi as int * 0x100 + lo as int == x as int) by (bit_vector)
        requires
            hi == (x >> 8u16) as u8,
            lo == x as u8,
    ;
}

/// Reading back the two bytes of an `i16` gives the `i16`.
pub proof fn lemma_i16_roundtrip(x: i16)
    ensures
        be16(i16_bytes(x), 0) as i16 == x,
{
    let hi = (x >> 8i16) as u8;
    let lo = x as u8;
    assert((hi as u16 * 0x100u16 + lo as u16) as i16 == x) by (bit_vector)
        requires
            hi == (x >> 8i16) as u8,
            lo == x as u8,
    ;
    assert((hi as int) * 0x100 + (lo as int) < 0x10000);
}

/// Reading back the four bytes of an `i32` gives the `i32`.
pub proof fn lemma_i32_roundtrip(x: i32)
    ensures
        be32(i32_bytes(x), 0) as i32 == x,
{
    let a = (x >> 24i32) as u8;
    let b = (x >> 16i32) as u8;
    let c = (x >> 8i32) as u8;
    let d = x as u8;
    assert(((a as u32) * 0x1000000u32 + (b as u32) * 0x10000u32 + (c as u32) * 0x100u32
        + d as u32) as i32 == x) by (bit_vector)
        requires
            a == (x >> 24i32) as u8,
            b == (x >> 16i32) as u8,
            c == (x >> 8i32) as u8,
            d == x as u8,
    ;
    assert(a as int * 0x1000000 + b as int * 0x10000 + c as int * 0x100 + d as int
        <= 0xffffffff);
}

/// Reading back the four bytes of a `u32` gives the `u32`.
pub proof fn lemma_u32_roundtrip(x: u32)
    ensures
        be32(u32_bytes(x), 0) == x,
{
    let a = (x >> 24u32) as u8;
    let b = (x >> 16u32) as u8;
    let c = (x >> 8u32) as u8;
    let d = x as u8;
    assert(a as int * 0x1000000 + b as int * 0x10000 + c as int * 0x100 + d as int == x as int)
        by (bit_vector)
        requires
            a == (x >> 24u32) as u8,
            b == (x >> 16u32) as u8,
            c == (x >> 8u32) as u8,
            d == x as u8,
    ;
}

/// Reading back the eight bytes of a `u64` gives the `u64`.
pub proof fn lemma_u64_roundtrip(x: u64)
    ensures
        be64(u64_bytes(x), 0) == x,
{
    let s = u64_bytes(x);
    let hi = (x >> 32u64) as u32;
    let lo = x as u32;
    assert(s[0] == (hi >> 24u32) as u8 && s[1] == (hi >> 16u32) as u8 && s[2] == (hi >> 8u32) as u8
        && s[3] == hi as u8) by {
        assert((x >> 56u64) as u8 == (((x >> 32u64) as u32) >> 24u32) as u8) by (bit_vector);
        assert((x >> 48u64) as u8 == (((x >> 32u64) as u32) >> 16u32) as u8) by (bit_vector);
        assert((x >> 40u64) as u8 == (((x >> 32u64) as u32) >> 8u32) as u8) by (bit_vector);
        assert((x >> 32u64) as u8 == ((x >> 32u64) as u32) as u8) by (bit_vector);
    }
    assert(s[4] == (lo >> 24u32) as u8 && s[5] == (lo >> 16u32) as u8 && s[6] == (lo >> 8u32) as u8
        && s[7] == lo as u8) by {
        assert((x >> 24u64) as u8 == ((x as u32) >> 24u32) as u8) by (bit_vector);
        assert((x >> 16u64) as u8 == ((x as u32) >> 16u32) as u8) by (bit_vector);
        assert((x >> 8u64) as u8 == ((x as u32) >> 8u32) as u8) by (bit_vector);
        assert(x as u8 == (x as u32) as u8) by (bit_vector);
    }
    lemma_u32_roundtrip(hi);
    lemma_u32_roundtrip(lo);
    assert(u32_bytes(hi) =~= s.subrange(0, 4));
    assert(u32_bytes(lo) =~= s.subrange(4, 8));
    assert(be32(s, 0) == be32(u32_bytes(hi), 0));
    assert(be32(s, 4) == be32(u32_bytes(lo), 0));
    assert(hi as int * 0x1_0000_0000 + lo as int == x as int) by (bit_vector)
        requires
            hi == (x >> 32u64) as u32,
            lo == x as u32,
    ;
}

/// The signed 16-bit number stored at `s[p..p+2]`.
pub open spec fn be16_i16(s: Seq<u8>, p: int) -> i16 {
    be16(s, p) as i16
}

/// The signed 32-bit number stored at `s[p..p+4]`.
pub open spec fn be32_i32(s: Seq<u8>, p: int) -> i32 {
    be32(s, p) as i32
}

/// The signed byte stored at `s[p]`.
pub open spec fn byte_i8(s: Seq<u8>, p: int) -> i8 {
    s[p] as i8
}

/// The bit pattern of a signed byte.
pub open spec fn i8_bytes(x: i8) -> Seq<u8> {
    seq![x as u8]
}

/// `n` zero bytes.
pub open spec fn zeros(n: u8) -> Seq<u8> {
    Seq::new(n as nat, |i: int| 0u8)
}

/// Bytes equal to the encoding of `x` read back as `x`.
pub proof fn lemma_u16_at(s: Seq<u8>, p: int, x: u16)
    requires
        0 <= p,
        p + 2 <= s.len(),
        s[p] == u16_bytes(x)[0],
        s[p + 1] == u16_bytes(x)[1],
    ensures
        be16(s, p) == x,
{
    lemma_u16_roundtrip(x);
}

/// Bytes equal to the encoding of `x` read back as `x`.
pub proof fn lemma_i16_at(s: Seq<u8>, p: int, x: i16)
    requires
        0 <= p,
        p + 2 <= s.len(),
        s[p] == i16_bytes(x)[0],
        s[p + 1] == i16_bytes(x)[1],
    ensures
        be16_i16(s, p) == x,
{
    lemma_i16_roundtrip(x);
}

/// Bytes equal to the encoding of `x` read back as `x`.
pub proof fn lemma_i32_at(s: Seq<u8>, p: int, x: i32)
    requires
        0 <= p,
        p + 4 <= s.len(),
        s[p] == i32_bytes(x)[0],
        s[p + 1] == i32_bytes(x)[1],
        s[p + 2] == i32_bytes(x)[2],
        s[p + 3] == i32_bytes(x)[3],
    ensures
        be32_i32(s, p) == x,
{
    lemma_i32_roundtrip(x);
}

/// A byte equal to the bit pattern of `x` reads back as `x`.
pub proof fn lemma_i8_at(s: Seq<u8>, p: int, x: i8)
    requires
        0 <= p < s.len(),
        s[p] == i8_bytes(x)[0],
    ensures
        byte_i8(s, p) == x,
{
    let b = s[p];
    assert(b == x as u8 ==> b as i8 == x) by (bit_vector);
}

/// Where the `i`-th encoded `i32` of `v` lies within `i32s_bytes(v)`.
pub proof fn lemma_i32s_bytes_index(v: Seq<i32>, i: int, k: int)
    requires
        0 <= i < v.len(),
        0 <= k < 4,
    ensures
        i32s_bytes(v).len() == 4 * v.len(),
        i32s_bytes(v)[4 * i + k] == i32_bytes(v[i])[k],
    decreases v.len(),
{
    lemma_i32s_bytes_len(v);
    lemma_i32s_bytes_len(v.drop_last());
    if i < v.len() - 1 {
        lemma_i32s_bytes_index(v.drop_last(), i, k);
    }
}

/// Where the `i`-th encoded pair of `v` lies within `pairs_bytes(v)`.
pub proof fn lemma_pairs_bytes_index(v: Seq<(i32, i32)>, i: int, k: int)
    requires
        0 <= i < v.len(),
        0 <= k < 4,
    ensures
        pairs_bytes(v).len() == 8 * v.len(),
        pairs_bytes(v)[8 * i + k] == i32_bytes(v[i].0)[k],
        pairs_bytes(v)[8 * i + 4 + k] == i32_bytes(v[i].1)[k],
    decreases v.len(),
{
    lemma_pairs_bytes_len(v);
    lemma_pairs_bytes_len(v.drop_last());
    if i < v.len() - 1 {
        lemma_pairs_bytes_index(v.drop_last(), i, k);
    }
}

/// Bytes equal to the encodings of the `i32`s of `v` read back as those `i32`s.
pub proof fn lemma_i32s_at(s: Seq<u8>, p: int, v: Seq<i32>)
    requires
        0 <= p,
        p + 4 * v.len() <= s.len(),
        forall|k: int| 0 <= k < 4 * v.len() ==> s[p + k] == #[trigger] i32s_bytes(v)[k],
    ensures
        forall|i: int| 0 <= i < v.len() ==> #[trigger] be32_i32(s, p + 4 * i) == v[i],
{
    assert forall|i: int| 0 <= i < v.len() implies #[trigger] be32_i32(s, p + 4 * i) == v[i] by {
        lemma_i32s_bytes_index(v, i, 0);
        lemma_i32s_bytes_index(v, i, 1);
        lemma_i32s_bytes_index(v, i, 2);
        lemma_i32s_bytes_index(v, i, 3);
        assert(s[p + 4 * i] == i32s_bytes(v)[4 * i + 0]);
        assert(s[p + 4 * i + 1] == i32s_bytes(v)[4 * i + 1]);
        assert(s[p + 4 * i + 2] == i32s_bytes(v)[4 * i + 2]);
        assert(s[p + 4 * i + 3] == i32s_bytes(v)[4 * i + 3]);
        lemma_i32_at(s, p + 4 * i, v[i]);
    }
}

/// A count as the signed 32-bit number that a class file writes for it.
pub open spec fn count_i32(n: nat) -> i32 {
    n as i32
}

/// Bytes equal to the encodings of the pairs of `v` read back as those pairs.
pub proof fn lemma_pairs_at(s: Seq<u8>, p: int, v: Seq<(i32, i32)>)
    requires
        0 <= p,
        p + 8 * v.len() <= s.len(),
        forall|k: int| 0 <= k < 8 * v.len() ==> s[p + k] == #[trigger] pairs_bytes(v)[k],
    ensures
        forall|i: int|
            0 <= i < v.len() ==> #[trigger] v[i] == (
                be32_i32(s, p + 8 * i),
                be32_i32(s, p + 8 * i + 4),
            ),
{
    assert forall|i: int| 0 <= i < v.len() implies #[trigger] v[i] == (
        be32_i32(s, p + 8 * i),
        be32_i32(s, p + 8 * i + 4),
    ) by {
        lemma_pairs_bytes_index(v, i, 0);
        lemma_pairs_bytes_index(v, i, 1);
        lemma_pairs_bytes_index(v, i, 2);
        lemma_pairs_bytes_index(v, i, 3);
        assert(s[p + 8 * i] == pairs_bytes(v)[8 * i + 0]);
        assert(s[p + 8 * i + 1] == pairs_bytes(v)[8 * i + 1]);
        assert(s[p + 8 * i + 2] == pairs_bytes(v)[8 * i + 2]);
        assert(s[p + 8 * i + 3] == pairs_bytes(v)[8 * i + 3]);
        assert(s[p + 8 * i + 4] == pairs_bytes(v)[8 * i + 4 + 0]);
        assert(s[p + 8 * i + 5] == pairs_bytes(v)[8 * i + 4 + 1]);
        assert(s[p + 8 * i + 6] == pairs_bytes(v)[8 * i + 4 + 2]);
        assert(s[p + 8 * i + 7] == pairs_bytes(v)[8 * i + 4 + 3]);
        lemma_i32_at(s, p + 8 * i, v[i].0);
        lemma_i32_at(s, p + 8 * i + 4, v[i].1);
    }
}

/// Appends the bytes of a count, written as a signed 32-bit number.
pub fn push_count(v: &mut Vec<u8>, n: usize)
    ensures
        final(v)@ == old(v)@ + i32_bytes(count_i32(n as nat)),
{
    push_i32(v, n as i32);
}

/// Appends the two big-endian bytes of `x`.
pub fn push_u16(v: &mut Vec<u8>, x: u16)
    ensures
        final(v)@ == old(v)@ + u16_bytes(x),
{
    v.push((x >> 8u16) as u8);
    v.push(x as u8);
}

/// Appends the four big-endian bytes of `x`.
pub fn push_u32(v: &mut Vec<u8>, x: u32)
    ensures
        final(v)@ == old(v)@ + u32_bytes(x),
{
    v.push((x >> 24u32) as u8);
    v.push((x >> 16u32) as u8);
    v.push((x >> 8u32) as u8);
    v.push(x as u8);
}

/// Appends the eight big-endian bytes of `x`.
pub fn push_u64(v: &mut Vec<u8>, x: u64)
    ensures
        final(v)@ == old(v)@ + u64_bytes(x),
{
    v.push((x >> 56u64) as u8);
    v.push((x >> 48u64) as u8);
    v.push((x >> 40u64) as u8);
    v.push((x >> 32u64) as u8);
    v.push((x >> 24u64) as u8);
    v.push((x >> 16u64) as u8);
    v.push((x >> 8u64) as u8);
    v.push(x as u8);
    assert(v@ =~= old(v)@ + u64_bytes(x));
}

/// Bytes equal to the encoding of `x` read back as `x`.
pub proof fn lemma_u32_at(s: Seq<u8>, p: int, x: u32)
    requires
        0 <= p,
        p + 4 <= s.len(),
        s[p] == u32_bytes(x)[0],
        s[p + 1] == u32_bytes(x)[1],
        s[p + 2] == u32_bytes(x)[2],
        s[p + 3] == u32_bytes(x)[3],
    ensures
        be32(s, p) == x,
{
    lemma_u32_roundtrip(x);
}

/// Bytes equal to the encoding of `x` read back as `x`.
pub proof fn lemma_u64_at(s: Seq<u8>, p: int, x: u64)
    requires
        0 <= p,
        p + 8 <= s.len(),
        forall|k: int| 0 <= k < 8 ==> s[p + k] == #[trigger] u64_bytes(x)[k],
    ensures
        be64(s, p) == x,
{
    lemma_u64_roundtrip(x);
    let e = u64_bytes(x);
    assert(s[p] == e[0] && s[p + 1] == e[1] && s[p + 2] == e[2] && s[p + 3] == e[3]);
    assert(s[p + 4] == e[4] && s[p + 5] == e[5] && s[p + 6] == e[6] && s[p + 7] == e[7]);
    assert(be32(s, p) == be32(e, 0));
    assert(be32(s, p + 4) == be32(e, 4));
}

/// Appends the two big-endian bytes of `x`.
pub fn push_i16(v: &mut Vec<u8>, x: i16)
    ensures
        final(v)@ == old(v)@ + i16_bytes(x),
{
    v.push((x >> 8i16) as u8);
    v.push(x as u8);
}

/// Appends the four big-endian bytes of `x`.
pub fn push_i32(v: &mut Vec<u8>, x: i32)
    ensures
        final(v)@ == old(v)@ + i32_bytes(x),
{
    v.push((x >> 24i32) as u8);
    v.push((x >> 16i32) as u8);
    v.push((x >> 8i32) as u8);
    v.push(x as u8);
}

/// Appends the bit pattern of a signed byte.
pub fn push_i8(v: &mut Vec<u8>, x: i8)
    ensures
        final(v)@ == old(v)@ + i8_bytes(x),
{
    v.push(x as u8);
}

/// Appends `n` zero bytes.
pub fn push_zeros(v: &mut Vec<u8>, n: u8)
    ensures
        final(v)@ == old(v)@ + zeros(n),
{
    let ghost start = v@;
    let mut k: u8 = 0;
    while k < n
        invariant
            k <= n,
            v@ == start + zeros(k),
        decreases n - k,
    {
        v.push(0);
        k = k + 1;
        assert(v@ =~= start + zeros(k));
    }
}

/// Appends the encodings of every `i32` of `xs`, in order.
pub fn push_i32s(v: &mut Vec<u8>, xs: &Vec<i32>)
    ensures
        final(v)@ == old(v)@ + i32s_bytes(xs@),
{
    let ghost start = v@;
    let mut i: usize = 0;
    while i < xs.len()
        invariant
            i <= xs@.len(),
            v@ == start + i32s_bytes(xs@.take(i as int)),
        decreases xs@.len() - i,
    {
        push_i32(v, xs[i]);
        assert(xs@.take(i + 1).drop_last() =~= xs@.take(i as int));
        i = i + 1;
    }
    assert(xs@.take(xs@.len() as int) =~= xs@);
}

/// Appends the encodings of every pair of `xs`, in order.
pub fn push_pairs(v: &mut Vec<u8>, xs: &Vec<(i32, i32)>)
    ensures
        final(v)@ == old(v)@ + pairs_bytes(xs@),
{
    let ghost start = v@;
    let mut i: usize = 0;
    while i < xs.len()
        invariant
            i <= xs@.len(),
            v@ == start + pairs_bytes(xs@.take(i as int)),
        decreases xs@.len() - i,
    {
        let (a, b) = xs[i];
        push_i32(v, a);
        push_i32(v, b);
        assert(xs@.take(i + 1).drop_last() =~= xs@.take(i as int));
        i = i + 1;
    }
    assert(xs@.take(xs@.len() as int) =~= xs@);
}

/// The signed reading of a byte.
pub fn to_i8(x: u8) -> (r: i8)
    ensures
        r == x as i8,
{
    x as i8
}

/// The signed reading of a 16-bit number.
pub fn to_i16(x: u16) -> (r: i16)
    ensures
        r == x as i16,
{
    x as i16
}

/// The signed reading of a 32-bit number.
pub fn to_i32(x: u32) -> (r: i32)
    ensures
        r == x as i32,
{
    x as i32
}

} // verus!
