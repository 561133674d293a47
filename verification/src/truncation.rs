//! A class file cut short is refused: every item of the grammar that was read from the
//! whole input is read alike from a prefix that holds it, and cannot be read from one that
//! does not.
use vstd::prelude::*;
use crate::attr_spec::{
    attr_body_end, attr_end, attr_kind, attr_list_end, code_end, AttrKind,
    ann_end, ann_end_fn, annotations_end_fn, bootstrap_end_fn, counted16_end, ev_end, ev_list_end,
    fixed_end, frame_end, frame_end_fn, pair_list_end, path_end, target_end, type_ann_end,
    type_ann_end_fn, vti_end, vti_end_fn,
};
use crate::bytes::{be16, be32};
use crate::error::ParseError;
use crate::attr_parse::attrs_end;
use crate::class::{class_end, class_rest_end, cp_names_of, member_end, member_end_fn};
use crate::cp_info::cp_entry_end;
use crate::cp_parse::cp_scan;
use crate::grammar::many_end;
use crate::opcodes::{fixed_len, opcode_end};
use crate::switch_layout::switch_operands;

verus! {

/// What an item reader gives on the first `n` bytes of an input agrees with what it gave
/// on the whole input, `r`, for an item at `p`: the item does not end before `p`, and where
/// it starts within those bytes, an item that ended within them ends there again and one
/// that ended after them cannot be read.
pub open spec fn cut_agrees(r: Result<int, ParseError>, r2: Result<int, ParseError>, p: int, n: int) -> bool {
    r matches Ok(q) ==> p <= q && (p <= n ==> if q <= n {
        r2 == Ok::<int, ParseError>(q)
    } else {
        r2 is Err
    })
}

/// The item reader `f` agrees on every prefix of every input.
pub open spec fn cut_stable(f: spec_fn(Seq<u8>, int) -> Result<int, ParseError>) -> bool {
    forall|s: Seq<u8>, p: int, n: int|
        0 <= p && 0 <= n <= s.len() ==> #[trigger] cut_agrees(f(s, p), f(s.take(n), p), p, n)
}

/// The bytes of a prefix are those of the whole input.
proof fn lemma_take_bytes(s: Seq<u8>, n: int, p: int, k: int)
    requires
        0 <= p,
        0 <= k,
        p + k <= n <= s.len(),
    ensures
        s.take(n).len() == n,
        forall|i: int| p <= i < p + k ==> s.take(n)[i] == s[i],
        k >= 2 ==> be16(s.take(n), p) == be16(s, p),
        k >= 4 ==> be32(s.take(n), p) == be32(s, p),
{
    assert forall|i: int| p <= i < p + k implies s.take(n)[i] == s[i] by {}
    if k >= 2 {
        assert(s.take(n)[p] == s[p] && s.take(n)[p + 1] == s[p + 1]);
    }
    if k >= 4 {
        assert(s.take(n)[p] == s[p] && s.take(n)[p + 1] == s[p + 1]);
        assert(s.take(n)[p + 2] == s[p + 2] && s.take(n)[p + 3] == s[p + 3]);
    }
}

proof fn lemma_fixed_cut(k: int)
    requires
        0 <= k,
    ensures
        cut_stable(fixed_end(k)),
{
    assert forall|s: Seq<u8>, p: int, n: int| 0 <= p && 0 <= n <= s.len() implies #[trigger] cut_agrees(
        fixed_end(k)(s, p),
        fixed_end(k)(s.take(n), p),
        p,
        n,
    ) by {
        lemma_take_bytes(s, n, 0, n);
    }
}

proof fn lemma_many_cut(s: Seq<u8>, p: int, cnt: nat, f: spec_fn(Seq<u8>, int) -> Result<int, ParseError>, n: int)
    requires
        cut_stable(f),
        0 <= p,
        0 <= n <= s.len(),
    ensures
        cut_agrees(many_end(s, p, cnt, f), many_end(s.take(n), p, cnt, f), p, n),
    decreases cnt,
{
    if cnt > 0 {
        assert(cut_agrees(f(s, p), f(s.take(n), p), p, n));
        if let Ok(q1) = f(s, p) {
            lemma_many_cut(s, q1, (cnt - 1) as nat, f, n);
            assert(many_end(s, p, cnt, f) == many_end(s, q1, (cnt - 1) as nat, f));
            if p <= n && q1 <= n {
                assert(many_end(s.take(n), p, cnt, f) == many_end(s.take(n), q1, (cnt - 1) as nat, f));
            }
        }
    }
}

proof fn lemma_counted16_cut(s: Seq<u8>, p: int, f: spec_fn(Seq<u8>, int) -> Result<int, ParseError>, n: int)
    requires
        cut_stable(f),
        0 <= p,
        0 <= n <= s.len(),
    ensures
        cut_agrees(counted16_end(s, p, f), counted16_end(s.take(n), p, f), p, n),
{
    lemma_take_bytes(s, n, 0, n);
    if p + 2 <= s.len() {
        lemma_many_cut(s, p + 2, be16(s, p) as nat, f, n);
        if p + 2 <= n {
            lemma_take_bytes(s, n, p, 2);
        }
    }
}

proof fn lemma_vti_cut(s: Seq<u8>, p: int, n: int)
    requires
        0 <= p,
        0 <= n <= s.len(),
    ensures
        cut_agrees(vti_end(s, p), vti_end(s.take(n), p), p, n),
{
    lemma_take_bytes(s, n, 0, n);
}

proof fn lemma_vti_fn_cut()
    ensures
        cut_stable(vti_end_fn()),
{
    assert forall|s: Seq<u8>, p: int, n: int| 0 <= p && 0 <= n <= s.len() implies #[trigger] cut_agrees(
        vti_end_fn()(s, p),
        vti_end_fn()(s.take(n), p),
        p,
        n,
    ) by {
        lemma_vti_cut(s, p, n);
    }
}

proof fn lemma_frame_cut(s: Seq<u8>, p: int, n: int)
    requires
        0 <= p,
        0 <= n <= s.len(),
    ensures
        cut_agrees(frame_end(s, p), frame_end(s.take(n), p), p, n),
{
    lemma_vti_fn_cut();
    lemma_take_bytes(s, n, 0, n);
    if p + 1 <= s.len() {
        let tag = s[p];
        if 64 <= tag <= 127 {
            lemma_vti_cut(s, p + 1, n);
        } else if p + 3 <= s.len() && tag == 247 {
            lemma_vti_cut(s, p + 3, n);
        } else if p + 3 <= s.len() && 252 <= tag <= 254 {
            lemma_many_cut(s, p + 3, (tag - 251) as nat, vti_end_fn(), n);
        } else if p + 3 <= s.len() && tag == 255 {
            lemma_counted16_cut(s, p + 3, vti_end_fn(), n);
            if let Ok(q) = counted16_end(s, p + 3, vti_end_fn()) {
                lemma_counted16_cut(s, q, vti_end_fn(), n);
            }
        }
    }
}

proof fn lemma_frame_fn_cut()
    ensures
        cut_stable(frame_end_fn()),
{
    assert forall|s: Seq<u8>, p: int, n: int| 0 <= p && 0 <= n <= s.len() implies #[trigger] cut_agrees(
        frame_end_fn()(s, p),
        frame_end_fn()(s.take(n), p),
        p,
        n,
    ) by {
        lemma_frame_cut(s, p, n);
    }
}

proof fn lemma_bootstrap_fn_cut()
    ensures
        cut_stable(bootstrap_end_fn()),
{
    lemma_fixed_cut(2);
    assert forall|s: Seq<u8>, p: int, n: int| 0 <= p && 0 <= n <= s.len() implies #[trigger] cut_agrees(
        bootstrap_end_fn()(s, p),
        bootstrap_end_fn()(s.take(n), p),
        p,
        n,
    ) by {
        lemma_take_bytes(s, n, 0, n);
        if p + 2 <= s.len() {
            lemma_counted16_cut(s, p + 2, fixed_end(2), n);
        }
    }
}

proof fn lemma_ev_cut(s: Seq<u8>, p: int, n: int)
    requires
        0 <= p,
        0 <= n <= s.len(),
    ensures
        cut_agrees(ev_end(s, p), ev_end(s.take(n), p), p, n),
    decreases s.len() - p, 0int,
{
    lemma_take_bytes(s, n, 0, n);
    if p + 1 <= s.len() {
        let tag = s[p];
        if tag == 64 {
            lemma_ann_cut(s, p + 1, n);
        } else if tag == 91 && p + 3 <= s.len() {
            lemma_ev_list_cut(s, p + 3, be16(s, p + 1) as int, n);
            if p + 3 <= n {
                lemma_take_bytes(s, n, p + 1, 2);
            }
        }
    }
}

proof fn lemma_ev_list_cut(s: Seq<u8>, p: int, cnt: int, n: int)
    requires
        0 <= p,
        0 <= n <= s.len(),
    ensures
        cut_agrees(ev_list_end(s, p, cnt), ev_list_end(s.take(n), p, cnt), p, n),
    decreases s.len() - p, cnt + 1,
{
    lemma_take_bytes(s, n, 0, n);
    if p <= s.len() && cnt > 0 {
        lemma_ev_cut(s, p, n);
        if let Ok(q) = ev_end(s, p) {
            if p < q <= s.len() {
                lemma_ev_list_cut(s, q, cnt - 1, n);
            }
        }
    }
}

proof fn lemma_ann_cut(s: Seq<u8>, p: int, n: int)
    requires
        0 <= p,
        0 <= n <= s.len(),
    ensures
        cut_agrees(ann_end(s, p), ann_end(s.take(n), p), p, n),
    decreases s.len() - p, 0int,
{
    lemma_take_bytes(s, n, 0, n);
    if p + 4 <= s.len() {
        lemma_pair_list_cut(s, p + 4, be16(s, p + 2) as int, n);
        if p + 4 <= n {
            lemma_take_bytes(s, n, p + 2, 2);
        }
    }
}

proof fn lemma_pair_list_cut(s: Seq<u8>, p: int, cnt: int, n: int)
    requires
        0 <= p,
        0 <= n <= s.len(),
    ensures
        cut_agrees(pair_list_end(s, p, cnt), pair_list_end(s.take(n), p, cnt), p, n),
    decreases s.len() - p, cnt + 1,
{
    lemma_take_bytes(s, n, 0, n);
    if p + 2 <= s.len() && cnt > 0 {
        lemma_ev_cut(s, p + 2, n);
        if let Ok(q) = ev_end(s, p + 2) {
            if p < q <= s.len() {
                lemma_pair_list_cut(s, q, cnt - 1, n);
            }
        }
    }
}

proof fn lemma_ann_fn_cut()
    ensures
        cut_stable(ann_end_fn()),
        cut_stable(annotations_end_fn()),
{
    assert forall|s: Seq<u8>, p: int, n: int| 0 <= p && 0 <= n <= s.len() implies #[trigger] cut_agrees(
        ann_end_fn()(s, p),
        ann_end_fn()(s.take(n), p),
        p,
        n,
    ) by {
        lemma_ann_cut(s, p, n);
    }
    assert forall|s: Seq<u8>, p: int, n: int| 0 <= p && 0 <= n <= s.len() implies #[trigger] cut_agrees(
        annotations_end_fn()(s, p),
        annotations_end_fn()(s.take(n), p),
        p,
        n,
    ) by {
        lemma_counted16_cut(s, p, ann_end_fn(), n);
    }
}

proof fn lemma_type_ann_cut(s: Seq<u8>, p: int, n: int)
    requires
        0 <= p,
        0 <= n <= s.len(),
    ensures
        cut_agrees(type_ann_end(s, p), type_ann_end(s.take(n), p), p, n),
{
    lemma_fixed_cut(2);
    lemma_fixed_cut(6);
    lemma_take_bytes(s, n, 0, n);
    if p + 1 <= s.len() {
        let tag = s[p];
        if (tag == 0x40 || tag == 0x41) && p + 3 <= s.len() {
            lemma_many_cut(s, p + 3, be16(s, p + 1) as nat, fixed_end(6), n);
            if p + 3 <= n {
                lemma_take_bytes(s, n, p + 1, 2);
            }
        }
    }
    assert(cut_agrees(target_end(s, p), target_end(s.take(n), p), p, n));
    if let Ok(q) = target_end(s, p) {
        if q + 1 <= s.len() {
            lemma_many_cut(s, q + 1, s[q] as nat, fixed_end(2), n);
        }
        assert(cut_agrees(path_end(s, q), path_end(s.take(n), q), q, n));
        if let Ok(r) = path_end(s, q) {
            if r + 4 <= s.len() {
                lemma_pair_list_cut(s, r + 4, be16(s, r + 2) as int, n);
                if r + 4 <= n {
                    lemma_take_bytes(s, n, r + 2, 2);
                }
            }
        }
    }
}

proof fn lemma_type_ann_fn_cut()
    ensures
        cut_stable(type_ann_end_fn()),
{
    assert forall|s: Seq<u8>, p: int, n: int| 0 <= p && 0 <= n <= s.len() implies #[trigger] cut_agrees(
        type_ann_end_fn()(s, p),
        type_ann_end_fn()(s.take(n), p),
        p,
        n,
    ) by {
        lemma_type_ann_cut(s, p, n);
    }
}

proof fn lemma_opcode_cut(s: Seq<u8>, pos: int, start: u32, n: int)
    requires
        0 <= pos,
        0 <= n <= s.len(),
    ensures
        opcode_end(s, pos, start) matches Some(q) ==> pos < q && (pos <= n ==> if q <= n {
            opcode_end(s.take(n), pos, start) == Some(q)
        } else {
            opcode_end(s.take(n), pos, start) is None
        }),
{
    let t = s.take(n);
    lemma_take_bytes(s, n, 0, n);
    if pos < n {
        let h = switch_operands(pos, start);
        if s[pos] == 0xaau8 && h + 12 <= n {
            lemma_take_bytes(s, n, h + 4, 4);
            lemma_take_bytes(s, n, h + 8, 4);
        } else if s[pos] == 0xabu8 && h + 8 <= n {
            lemma_take_bytes(s, n, h + 4, 4);
        } else if s[pos] == 0xc4u8 && pos + 1 < n {
            assert(t[pos + 1] == s[pos + 1]);
            assert(fixed_len(t, pos) == fixed_len(s, pos));
        }
    }
}

proof fn lemma_code_cut(s: Seq<u8>, start: u32, p: int, code_len: u32, n: int)
    requires
        0 <= p,
        0 <= n <= s.len(),
    ensures
        cut_agrees(code_end(s, start, p, code_len), code_end(s.take(n), start, p, code_len), p, n),
    decreases s.len() - p,
{
    lemma_take_bytes(s, n, 0, n);
    if p <= s.len() && p - start < code_len {
        lemma_opcode_cut(s, p, start, n);
        if let Some(q) = opcode_end(s, p, start) {
            if p < q <= s.len() {
                lemma_code_cut(s, start, q, code_len, n);
            }
        }
    }
}

proof fn lemma_attr_body_cut(s: Seq<u8>, b: int, k: AttrKind, alen: u32, n: int)
    requires
        0 <= b,
        0 <= n <= s.len(),
    ensures
        cut_agrees(attr_body_end(s, b, k, alen), attr_body_end(s.take(n), b, k, alen), b, n),
{
    lemma_take_bytes(s, n, 0, n);
    lemma_fixed_cut(1);
    lemma_fixed_cut(2);
    lemma_fixed_cut(4);
    lemma_fixed_cut(8);
    lemma_fixed_cut(10);
    lemma_frame_fn_cut();
    lemma_ann_fn_cut();
    lemma_type_ann_fn_cut();
    lemma_bootstrap_fn_cut();
    match k {
        AttrKind::ConstantValue | AttrKind::Signature | AttrKind::SourceFile => {
            assert(cut_agrees(fixed_end(2)(s, b), fixed_end(2)(s.take(n), b), b, n));
        },
        AttrKind::EnclosingMethod => {
            assert(cut_agrees(fixed_end(4)(s, b), fixed_end(4)(s.take(n), b), b, n));
        },
        AttrKind::StackMapTable => lemma_counted16_cut(s, b, frame_end_fn(), n),
        AttrKind::Exceptions => lemma_counted16_cut(s, b, fixed_end(2), n),
        AttrKind::InnerClasses => lemma_counted16_cut(s, b, fixed_end(8), n),
        AttrKind::SourceDebugExtension => lemma_many_cut(s, b, alen as nat, fixed_end(1), n),
        AttrKind::LineNumberTable | AttrKind::MethodParameters => lemma_counted16_cut(
            s,
            b,
            fixed_end(4),
            n,
        ),
        AttrKind::LocalVariableTable | AttrKind::LocalVariableTypeTable => lemma_counted16_cut(
            s,
            b,
            fixed_end(10),
            n,
        ),
        AttrKind::RuntimeVisibleAnnotations | AttrKind::RuntimeInvisibleAnnotations => {
            lemma_counted16_cut(s, b, ann_end_fn(), n)
        },
        AttrKind::RuntimeVisibleParameterAnnotations
        | AttrKind::RuntimeInvisibleParameterAnnotations => {
            if b + 1 <= s.len() {
                lemma_many_cut(s, b + 1, s[b] as nat, annotations_end_fn(), n);
            }
        },
        AttrKind::RuntimeVisibleTypeAnnotations
        | AttrKind::RuntimeInvisibleTypeAnnotations => {
            lemma_counted16_cut(s, b, type_ann_end_fn(), n)
        },
        AttrKind::AnnotationDefault => lemma_ev_cut(s, b, n),
        AttrKind::BootstrapMethods => lemma_counted16_cut(s, b, bootstrap_end_fn(), n),
        _ => {},
    }
}

proof fn lemma_attr_cut(s: Seq<u8>, p: int, cp: Seq<Option<Seq<u8>>>, n: int)
    requires
        0 <= p,
        0 <= n <= s.len(),
    ensures
        cut_agrees(attr_end(s, p, cp), attr_end(s.take(n), p, cp), p, n),
    decreases s.len() - p, 0int,
{
    lemma_take_bytes(s, n, 0, n);
    lemma_fixed_cut(8);
    if p + 6 <= s.len() {
        if p + 6 <= n {
            lemma_take_bytes(s, n, p, 2);
            lemma_take_bytes(s, n, p + 2, 4);
        }
        if let Ok(k) = attr_kind(cp, be16(s, p)) {
            let b = p + 6;
            if k == AttrKind::Code {
                if b + 8 <= s.len() {
                    if b + 8 <= n {
                        lemma_take_bytes(s, n, b + 4, 4);
                    }
                    let start = (b + 8) as u32;
                    lemma_code_cut(s, start, b + 8, be32(s, b + 4), n);
                    if let Ok(c) = code_end(s, start, b + 8, be32(s, b + 4)) {
                        lemma_counted16_cut(s, c, fixed_end(8), n);
                        if let Ok(d) = counted16_end(s, c, fixed_end(8)) {
                            if d + 2 <= s.len() && d >= p {
                                if d + 2 <= n {
                                    lemma_take_bytes(s, n, d, 2);
                                }
                                lemma_attr_list_cut(s, d + 2, be16(s, d) as int, cp, n);
                            }
                        }
                    }
                }
            } else {
                lemma_attr_body_cut(s, b, k, be32(s, p + 2), n);
            }
        }
    }
}

proof fn lemma_attr_list_cut(s: Seq<u8>, p: int, cnt: int, cp: Seq<Option<Seq<u8>>>, n: int)
    requires
        0 <= p,
        0 <= n <= s.len(),
    ensures
        cut_agrees(attr_list_end(s, p, cnt, cp), attr_list_end(s.take(n), p, cnt, cp), p, n),
    decreases s.len() - p, cnt + 1,
{
    lemma_take_bytes(s, n, 0, n);
    if p <= s.len() && cnt > 0 {
        lemma_attr_cut(s, p, cp, n);
        if let Ok(q) = attr_end(s, p, cp) {
            if p < q <= s.len() {
                lemma_attr_list_cut(s, q, cnt - 1, cp, n);
            }
        }
    }
}

proof fn lemma_attrs_cut(s: Seq<u8>, p: int, cp: Seq<Option<Seq<u8>>>, n: int)
    requires
        0 <= p,
        0 <= n <= s.len(),
    ensures
        cut_agrees(attrs_end(s, p, cp), attrs_end(s.take(n), p, cp), p, n),
{
    lemma_take_bytes(s, n, 0, n);
    if p + 2 <= s.len() {
        if p + 2 <= n {
            lemma_take_bytes(s, n, p, 2);
        }
        lemma_attr_list_cut(s, p + 2, be16(s, p) as int, cp, n);
    }
}

proof fn lemma_member_fn_cut(names: Seq<Option<Seq<u8>>>)
    ensures
        cut_stable(member_end_fn(names)),
{
    assert forall|s: Seq<u8>, p: int, n: int| 0 <= p && 0 <= n <= s.len() implies #[trigger] cut_agrees(
        member_end_fn(names)(s, p),
        member_end_fn(names)(s.take(n), p),
        p,
        n,
    ) by {
        lemma_take_bytes(s, n, 0, n);
        if p + 6 <= s.len() {
            lemma_attrs_cut(s, p + 6, names, n);
        }
        assert(member_end_fn(names)(s, p) == member_end(s, p, names));
        assert(member_end_fn(names)(s.take(n), p) == member_end(s.take(n), p, names));
    }
}

proof fn lemma_class_rest_cut(s: Seq<u8>, c: int, names: Seq<Option<Seq<u8>>>, n: int)
    requires
        0 <= c,
        0 <= n <= s.len(),
    ensures
        cut_agrees(class_rest_end(s, c, names), class_rest_end(s.take(n), c, names), c, n),
{
    lemma_take_bytes(s, n, 0, n);
    lemma_fixed_cut(2);
    lemma_member_fn_cut(names);
    if c + 8 <= s.len() {
        if c + 8 <= n {
            lemma_take_bytes(s, n, c + 6, 2);
        }
        lemma_many_cut(s, c + 8, be16(s, c + 6) as nat, fixed_end(2), n);
        if let Ok(d) = many_end(s, c + 8, be16(s, c + 6) as nat, fixed_end(2)) {
            lemma_counted16_cut(s, d, member_end_fn(names), n);
            if let Ok(f) = counted16_end(s, d, member_end_fn(names)) {
                lemma_counted16_cut(s, f, member_end_fn(names), n);
                if let Ok(m) = counted16_end(s, f, member_end_fn(names)) {
                    lemma_attrs_cut(s, m, names, n);
                }
            }
        }
    }
}

/// The slots scanned from `s[p]`, up to `c`, hold entries that end by `c`.
pub open spec fn slots_within(s: Seq<u8>, slots: Seq<Option<int>>, p: int, c: int) -> bool {
    forall|i: int|
        0 <= i < slots.len() ==> (#[trigger] slots[i] matches Some(q) ==> p <= q && (cp_entry_end(
            s,
            q,
        ) matches Ok(e) && e <= c))
}

proof fn lemma_cp_scan_cut(s: Seq<u8>, p: int, k: int, n: int)
    requires
        0 <= p,
        0 <= n <= s.len(),
    ensures
        cp_scan(s, p, k) matches Ok((slots, c)) ==> p <= c && slots_within(s, slots, p, c) && (p
            <= n ==> if c <= n {
            cp_scan(s.take(n), p, k) == cp_scan(s, p, k)
        } else {
            cp_scan(s.take(n), p, k) is Err
        }),
    decreases k,
{
    let t = s.take(n);
    lemma_take_bytes(s, n, 0, n);
    if k > 0 {
        if p + 3 <= n {
            lemma_take_bytes(s, n, p + 1, 2);
        }
        assert(cut_agrees(cp_entry_end(s, p), cp_entry_end(t, p), p, n));
        if let Ok(q) = cp_entry_end(s, p) {
            let wide = s[p] == 5u8 || s[p] == 6u8;
            let next = if wide && k >= 2 {
                k - 2
            } else if wide {
                0
            } else {
                k - 1
            };
            lemma_cp_scan_cut(s, q, next, n);
            if let Ok((rest, c)) = cp_scan(s, q, next) {
                let slots = if wide {
                    seq![Some(p), None]
                } else {
                    seq![Some(p)]
                } + rest;
                assert(cp_scan(s, p, k) == Ok::<(Seq<Option<int>>, int), ParseError>((slots, c)));
                assert forall|i: int| 0 <= i < slots.len() implies (#[trigger] slots[i] matches Some(
                    x,
                ) ==> p <= x && (cp_entry_end(s, x) matches Ok(e) && e <= c)) by {
                    if wide && i >= 2 {
                        assert(slots[i] == rest[i - 2]);
                    } else if !wide && i >= 1 {
                        assert(slots[i] == rest[i - 1]);
                    }
                }
                if p < n {
                    assert(t[p] == s[p]);
                }
            }
        }
    }
}

proof fn lemma_cp_names_cut(s: Seq<u8>, slots: Seq<Option<int>>, c: int, n: int)
    requires
        slots_within(s, slots, 0, c),
        c <= n <= s.len(),
    ensures
        cp_names_of(s.take(n), slots) == cp_names_of(s, slots),
{
    let t = s.take(n);
    assert forall|i: int| 0 <= i < slots.len() implies #[trigger] cp_names_of(t, slots)[i]
        == cp_names_of(s, slots)[i] by {
        if let Some(q) = slots[i] {
            let e = cp_entry_end(s, q)->Ok_0;
            assert(q < e);
            lemma_take_bytes(s, n, q, 1);
            if s[q] == 1u8 {
                lemma_take_bytes(s, n, q + 1, 2);
                lemma_take_bytes(s, n, q, e - q);
                assert(t.subrange(q + 3, q + 3 + be16(t, q + 1)) =~= s.subrange(
                    q + 3,
                    q + 3 + be16(s, q + 1),
                ));
            }
        }
    }
    assert(cp_names_of(t, slots) =~= cp_names_of(s, slots));
}

/// Reading a class from the first `n` bytes of `s` agrees with reading it from the whole:
/// a class that ended within those bytes ends there again, and one that ended after them
/// cannot be read.
pub proof fn lemma_class_cut(s: Seq<u8>, n: int)
    requires
        0 <= n <= s.len(),
    ensures
        cut_agrees(class_end(s), class_end(s.take(n)), 0, n),
{
    let t = s.take(n);
    lemma_take_bytes(s, n, 0, n);
    if 10 <= n {
        lemma_take_bytes(s, n, 0, 4);
        lemma_take_bytes(s, n, 8, 2);
    }
    if 4 <= n {
        lemma_take_bytes(s, n, 0, 4);
    }
    if 10 <= s.len() && be32(s, 0) == 0xCAFEBABEu32 && be16(s, 8) != 0 {
        let k = be16(s, 8) - 1;
        lemma_cp_scan_cut(s, 10, k, n);
        if let Ok((slots, c)) = cp_scan(s, 10, k) {
            lemma_class_rest_cut(s, c, cp_names_of(s, slots), n);
            if 10 <= n && c <= n {
                assert(slots_within(s, slots, 0, c));
                lemma_cp_names_cut(s, slots, c, n);
            }
        }
    }
}

/// A class file cut short is refused: where the class read from `full` takes up every byte
/// of it, no shorter prefix of `full` can be read as a class.
pub proof fn law_truncated_class_refused(full: Seq<u8>, k: int)
    requires
        class_end(full) == Ok::<int, ParseError>(full.len() as int),
        0 <= k < full.len(),
    ensures
        class_end(full.take(k)) is Err,
{
    lemma_class_cut(full, k);
}

} // verus!
