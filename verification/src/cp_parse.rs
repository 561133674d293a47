//! Reading the constant pool of a class file.
use vstd::prelude::*;
use crate::bytes::be16;
use crate::cp::ConstantPool;
use crate::cp_info::{cp_bytes, cp_entry_end, cp_entry_is, is_wide_entry, law_cp_entry_round_trip, CPInfo};
use crate::error::ParseError;
use crate::reader::JavaClassReader;

verus! {

/// The slots that the constant pool at `s[p]` fills when it has `slots` slots: `Some(q)` for
/// an entry read from `s[q]`, `None` for the dummy that follows a `Long` or `Double`; and where
/// the pool ends. A `Long` or `Double` in the last slot is still followed by its dummy.
pub open spec fn cp_scan(s: Seq<u8>, p: int, slots: int) -> Result<
    (Seq<Option<int>>, int),
    ParseError,
>
    decreases slots,
{
    if slots <= 0 {
        Ok((Seq::empty(), p))
    } else {
        match cp_entry_end(s, p) {
            Err(e) => Err(e),
            Ok(q) => {
                let wide = s[p] == 5u8 || s[p] == 6u8;
                match cp_scan(s, q, if wide && slots >= 2 { slots - 2 } else if wide { 0 } else { slots - 1 }) {
                    Err(e) => Err(e),
                    Ok((rest, end)) => Ok(
                        (
                            if wide {
                                seq![Some(p), None]
                            } else {
                                seq![Some(p)]
                            } + rest,
                            end,
                        ),
                    ),
                }
            },
        }
    }
}

/// `slots` found by a scan, followed by what is scanned after them.
pub open spec fn cp_prepend(
    done: Seq<Option<int>>,
    r: Result<(Seq<Option<int>>, int), ParseError>,
) -> Result<(Seq<Option<int>>, int), ParseError> {
    match r {
        Ok((rest, end)) => Ok((done + rest, end)),
        Err(e) => Err(e),
    }
}

/// The entries `v` are the ones read from the slots `slots` of `s`.
pub open spec fn cp_matches(s: Seq<u8>, slots: Seq<Option<int>>, v: Seq<CPInfo>) -> bool {
    &&& v.len() == slots.len()
    &&& forall|i: int|
        0 <= i < v.len() ==> match #[trigger] slots[i] {
            Some(q) => cp_entry_is(s, q, v[i]),
            None => v[i] is LongDoubleDummy,
        }
}

/// The bytes of the entries `es` written one after another, each as `as_bytes` gives it.
pub open spec fn pool_bytes(es: Seq<CPInfo>) -> Seq<u8>
    decreases es.len(),
{
    if es.len() == 0 {
        Seq::empty()
    } else {
        cp_bytes(es[0]) + pool_bytes(es.drop_first())
    }
}

/// The entries `es` are laid out as the slots of a constant pool: each `Long` or `Double`
/// is followed by the dummy of its second slot, no other dummy occurs, and the `length` of
/// each `Utf8` entry counts its bytes.
pub open spec fn pool_layout(es: Seq<CPInfo>) -> bool {
    forall|i: int|
        0 <= i < es.len() ==> {
            &&& (is_wide_entry(#[trigger] es[i]) ==> i + 1 < es.len() && es[i + 1] is LongDoubleDummy)
            &&& (es[i] is LongDoubleDummy ==> i > 0 && is_wide_entry(es[i - 1]))
            &&& (es[i] matches CPInfo::Utf8 { length, bytes } ==> length as int == bytes@.len())
        }
}

/// Round trip of the pool encoding: the slots of a constant pool, written one after another
/// with `as_bytes`, are scanned back (as `build_cp` scans them) as exactly those entries, and
/// the scan ends right after their bytes.
pub proof fn law_cp_round_trip(es: Seq<CPInfo>, s: Seq<u8>, p: int)
    requires
        pool_layout(es),
        0 <= p,
        p + pool_bytes(es).len() <= s.len(),
        s.subrange(p, p + pool_bytes(es).len()) == pool_bytes(es),
    ensures
        cp_scan(s, p, es.len() as int) matches Ok((slots, end)) && end == p + pool_bytes(es).len()
            && cp_matches(s, slots, es),
    decreases es.len(),
{
    if es.len() == 0 {
        assert(cp_matches(s, Seq::empty(), es));
        return;
    }
    let e = es[0];
    let b = cp_bytes(e);
    let whole = pool_bytes(es);
    assert(whole == b + pool_bytes(es.drop_first()));
    assert(!(e is LongDoubleDummy));
    assert forall|k: int| 0 <= k < b.len() implies s[p + k] == #[trigger] b[k] by {
        assert(s.subrange(p, p + whole.len())[k] == whole[k]);
    }
    law_cp_entry_round_trip(e, s, p);
    let q = p + b.len();
    assert(s[p] == b[0]);
    assert((b[0] == 5u8 || b[0] == 6u8) == is_wide_entry(e)) by {
        match e {
            CPInfo::Long { .. } | CPInfo::Double { .. } => {},
            _ => {},
        }
    }
    let rest = es.drop_first();
    if is_wide_entry(e) {
        assert(es[1] is LongDoubleDummy);
        let rest2 = rest.drop_first();
        assert(pool_bytes(rest) == cp_bytes(rest[0]) + pool_bytes(rest2));
        assert(cp_bytes(rest[0]) =~= Seq::<u8>::empty());
        assert(whole =~= b + pool_bytes(rest2));
        assert forall|i: int| 0 <= i < rest2.len() implies {
            &&& (is_wide_entry(#[trigger] rest2[i]) ==> i + 1 < rest2.len()
                && rest2[i + 1] is LongDoubleDummy)
            &&& (rest2[i] is LongDoubleDummy ==> i > 0 && is_wide_entry(rest2[i - 1]))
            &&& (rest2[i] matches CPInfo::Utf8 { length, bytes } ==> length as int == bytes@.len())
        } by {
            assert(rest2[i] == es[i + 2]);
            assert(is_wide_entry(es[i + 2]) ==> es[i + 3] is LongDoubleDummy);
            assert(es[i + 2] is LongDoubleDummy ==> is_wide_entry(es[i + 1]));
            if i > 0 {
                assert(rest2[i - 1] == es[i + 1]);
            }
            if i + 1 < rest2.len() {
                assert(rest2[i + 1] == es[i + 3]);
            }
        }
        assert(s.subrange(q, q + pool_bytes(rest2).len()) =~= pool_bytes(rest2)) by {
            assert forall|k: int| 0 <= k < pool_bytes(rest2).len() implies s.subrange(
                q,
                q + pool_bytes(rest2).len(),
            )[k] == pool_bytes(rest2)[k] by {
                assert(s.subrange(p, p + whole.len())[b.len() + k] == whole[b.len() + k]);
            }
        }
        law_cp_round_trip(rest2, s, q);
        let (rs, end) = cp_scan(s, q, rest2.len() as int).unwrap();
        let slots = seq![Some(p), None] + rs;
        assert(cp_scan(s, p, es.len() as int) == Ok::<(Seq<Option<int>>, int), ParseError>(
            (slots, end),
        ));
        assert forall|i: int| 0 <= i < es.len() implies match #[trigger] slots[i] {
            Some(x) => cp_entry_is(s, x, es[i]),
            None => es[i] is LongDoubleDummy,
        } by {
            if i >= 2 {
                assert(slots[i] == rs[i - 2]);
                assert(es[i] == rest2[i - 2]);
            }
        }
    } else {
        assert forall|i: int| 0 <= i < rest.len() implies {
            &&& (is_wide_entry(#[trigger] rest[i]) ==> i + 1 < rest.len()
                && rest[i + 1] is LongDoubleDummy)
            &&& (rest[i] is LongDoubleDummy ==> i > 0 && is_wide_entry(rest[i - 1]))
            &&& (rest[i] matches CPInfo::Utf8 { length, bytes } ==> length as int == bytes@.len())
        } by {
            assert(rest[i] == es[i + 1]);
            assert(is_wide_entry(es[i + 1]) ==> es[i + 2] is LongDoubleDummy);
            assert(es[i + 1] is LongDoubleDummy ==> is_wide_entry(es[i]));
            if i > 0 {
                assert(rest[i - 1] == es[i]);
            }
            if i + 1 < rest.len() {
                assert(rest[i + 1] == es[i + 2]);
            }
        }
        assert(s.subrange(q, q + pool_bytes(rest).len()) =~= pool_bytes(rest)) by {
            assert forall|k: int| 0 <= k < pool_bytes(rest).len() implies s.subrange(
                q,
                q + pool_bytes(rest).len(),
            )[k] == pool_bytes(rest)[k] by {
                assert(s.subrange(p, p + whole.len())[b.len() + k] == whole[b.len() + k]);
            }
        }
        law_cp_round_trip(rest, s, q);
        let (rs, end) = cp_scan(s, q, rest.len() as int).unwrap();
        let slots = seq![Some(p)] + rs;
        assert(cp_scan(s, p, es.len() as int) == Ok::<(Seq<Option<int>>, int), ParseError>(
            (slots, end),
        ));
        assert forall|i: int| 0 <= i < es.len() implies match #[trigger] slots[i] {
            Some(x) => cp_entry_is(s, x, es[i]),
            None => es[i] is LongDoubleDummy,
        } by {
            if i >= 1 {
                assert(slots[i] == rs[i - 1]);
                assert(es[i] == rest[i - 1]);
            }
        }
    }
}

/// Reads one constant pool entry.
pub fn read_cp_entry(r: &mut JavaClassReader) -> (res: Result<CPInfo, ParseError>)
    requires
        old(r).valid(),
    ensures
        final(r).valid(),
        final(r).bytes() == old(r).bytes(),
        match cp_entry_end(old(r).bytes(), old(r).pos()) {
            Ok(q) => res matches Ok(info) && cp_entry_is(old(r).bytes(), old(r).pos(), info)
                && final(r).pos() == q,
            Err(e) => res == Err::<CPInfo, ParseError>(e),
        },
{
    let ghost s = r.bytes();
    let ghost p = r.pos();
    let tag = r.next8()?;
    if !(1 <= tag && tag <= 18) || tag == 2 || tag == 13 || tag == 14 || tag == 17 {
        return Err(ParseError::InvalidConstantPoolTag);
    }
    let x: CPInfo = match tag {
        7 => CPInfo::Class { name_index: r.next16()? },
        9 => {
            let class_index = r.next16()?;
            let name_and_type_index = r.next16()?;
            CPInfo::Fieldref { class_index, name_and_type_index }
        },
        10 => {
            let class_index = r.next16()?;
            let name_and_type_index = r.next16()?;
            CPInfo::Methodref { class_index, name_and_type_index }
        },
        11 => {
            let class_index = r.next16()?;
            let name_and_type_index = r.next16()?;
            CPInfo::InterfaceMethodref { class_index, name_and_type_index }
        },
        8 => CPInfo::String { string_index: r.next16()? },
        3 => CPInfo::Integer { bytes: r.next32()? },
        4 => CPInfo::Float { bytes: r.next32()? },
        5 => CPInfo::Long { bytes: r.next64()? },
        6 => CPInfo::Double { bytes: r.next64()? },
        12 => {
            let name_index = r.next16()?;
            let descriptor_index = r.next16()?;
            CPInfo::NameAndType { name_index, descriptor_index }
        },
        1 => {
            let length = r.next16()?;
            let mut bytes: Vec<u8> = Vec::new();
            let mut j: u16 = 0;
            while j < length
                invariant
                    r.valid(),
                    r.bytes() == s,
                    s == old(r).bytes(),
                    p == old(r).pos(),
                    s[p] == 1u8,
                    0 <= p,
                    p + 3 <= s.len(),
                    length == be16(s, p + 1),
                    j <= length,
                    r.pos() == p + 3 + j,
                    bytes@ == s.subrange(p + 3, p + 3 + j),
                decreases length - j,
            {
                let b = r.next8()?;
                assert(b == s[p + 3 + j]);
                let ghost before = bytes@;
                bytes.push(b);
                assert(bytes@ == before.push(b));
                assert forall|k: int| 0 <= k < j + 1 implies #[trigger] bytes@[k] == s[p + 3 + k] by {
                    if k < j {
                        assert(before[k] == s.subrange(p + 3, p + 3 + j)[k]);
                    }
                }
                assert(bytes@ =~= s.subrange(p + 3, p + 3 + j + 1));
                j = j + 1;
            }
            CPInfo::Utf8 { length, bytes }
        },
        15 => {
            let reference_kind = r.next8()?;
            let reference_index = r.next16()?;
            CPInfo::MethodHandle { reference_kind, reference_index }
        },
        16 => CPInfo::MethodType { descriptor_index: r.next16()? },
        _ => {
            let bootstrap_method_attr_index = r.next16()?;
            let name_and_type_index = r.next16()?;
            CPInfo::InvokeDynamic { bootstrap_method_attr_index, name_and_type_index }
        },
    };
    Ok(x)
}

/// Reads in the constant pool of a class, which announces `cp_count` as one more than the
/// number of slots it fills.
pub fn build_cp(r: &mut JavaClassReader, cp_count: u16) -> (res: Result<ConstantPool, ParseError>)
    requires
        old(r).valid(),
    ensures
        final(r).valid(),
        final(r).bytes() == old(r).bytes(),
        cp_count == 0 ==> res == Err::<ConstantPool, ParseError>(
            ParseError::InvalidConstantPoolCount,
        ),
        cp_count > 0 ==> match cp_scan(old(r).bytes(), old(r).pos(), cp_count - 1) {
            Ok((slots, end)) => res matches Ok(cp) && cp_matches(old(r).bytes(), slots, cp@)
                && final(r).pos() == end,
            Err(e) => res == Err::<ConstantPool, ParseError>(e),
        },
{
    if cp_count == 0 {
        return Err(ParseError::InvalidConstantPoolCount);
    }
    let ghost s = r.bytes();
    let ghost p0 = r.pos();
    let total = cp_count - 1;
    let mut cp_vec: Vec<CPInfo> = Vec::new();
    let ghost mut done: Seq<Option<int>> = Seq::empty();
    let mut i: u32 = 0;
    while i < total as u32
        invariant
            r.valid(),
            r.bytes() == s,
            s == old(r).bytes(),
            p0 == old(r).pos(),
            total == cp_count - 1,
            i <= total + 1,
            cp_scan(s, p0, total as int) == cp_prepend(done, cp_scan(s, r.pos(), total - i)),
            cp_matches(s, done, cp_vec@),
        decreases total + 1 - i,
    {
        let ghost p = r.pos();
        let x = read_cp_entry(r)?;
        let ghost q = r.pos();
        proof {
            let wide = s[p] == 5u8 || s[p] == 6u8;
            let left = total - i;
            assert(cp_scan(s, p, left) == (match cp_scan(
                s,
                q,
                if wide && left >= 2 { left - 2 } else if wide { 0 } else { left - 1 },
            ) {
                Err(e) => Err(e),
                Ok((rest, end)) => Ok(
                    (if wide { seq![Some(p), None] } else { seq![Some(p)] } + rest, end),
                ),
            }));
        }
        match x {
            CPInfo::Double { .. } | CPInfo::Long { .. } => {
                cp_vec.push(x);
                cp_vec.push(CPInfo::LongDoubleDummy);
                proof {
                    let old_done = done;
                    done = done + seq![Some(p), None];
                    assert forall|rest: Seq<Option<int>>| old_done + (seq![Some(p), None] + rest)
                        == done + rest by {
                        assert(old_done + (seq![Some(p), None] + rest) =~= done + rest);
                    }
                    assert(cp_matches(s, done, cp_vec@)) by {
                        assert forall|k: int| 0 <= k < cp_vec@.len() implies match #[trigger] done[k] {
                            Some(q) => cp_entry_is(s, q, cp_vec@[k]),
                            None => cp_vec@[k] is LongDoubleDummy,
                        } by {
                            if k < old_done.len() {
                                assert(done[k] == old_done[k]);
                            }
                        }
                    }
                }
                i = i + 2;
            },
            _ => {
                cp_vec.push(x);
                proof {
                    let old_done = done;
                    done = done + seq![Some(p)];
                    assert forall|rest: Seq<Option<int>>| old_done + (seq![Some(p)] + rest)
                        == done + rest by {
                        assert(old_done + (seq![Some(p)] + rest) =~= done + rest);
                    }
                    assert(cp_matches(s, done, cp_vec@)) by {
                        assert forall|k: int| 0 <= k < cp_vec@.len() implies match #[trigger] done[k] {
                            Some(q) => cp_entry_is(s, q, cp_vec@[k]),
                            None => cp_vec@[k] is LongDoubleDummy,
                        } by {
                            if k < old_done.len() {
                                assert(done[k] == old_done[k]);
                            }
                        }
                    }
                }
                i = i + 1;
            },
        }
    }
    proof {
        assert(done + Seq::<Option<int>>::empty() =~= done);
    }
    Ok(ConstantPool::new_with_info(cp_vec))
}

} // verus!
