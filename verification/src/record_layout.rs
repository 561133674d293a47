//! The byte layout of the fixed-size records inside attributes, as the JVM specification
//! gives it, and the laws that the parser reads each record field by field from it.
use vstd::prelude::*;
use crate::attr_spec::{
    exception_entry_is, inner_class_is, line_number_is, local_var_target_is, local_variable_is,
    local_variable_type_is, method_parameter_is, type_path_entry_is,
};
use crate::attributes::{
    ExceptionTableEntry, InnerClassInfo, LineNumberTableEntry, LocalVarTagetTableEntry,
    LocalVariableTableEntry, LocalVariableTypeTableEntry, MethodParameterEntry, TypePathEntry,
};
use crate::bytes::{be16, lemma_u16_at, u16_bytes};

verus! {

/// The big-endian bytes of the `u16`s `xs`, one after another.
pub open spec fn u16s_bytes(xs: Seq<u16>) -> Seq<u8>
    decreases xs.len(),
{
    if xs.len() == 0 {
        Seq::empty()
    } else {
        u16_bytes(xs[0]) + u16s_bytes(xs.drop_first())
    }
}

/// Bytes that hold the `u16`s `xs` one after another are read back as them.
pub proof fn lemma_u16s_at(s: Seq<u8>, p: int, xs: Seq<u16>)
    requires
        0 <= p,
        p + 2 * xs.len() <= s.len(),
        s.subrange(p, p + 2 * xs.len()) == u16s_bytes(xs),
    ensures
        forall|k: int| 0 <= k < xs.len() ==> be16(s, p + 2 * k) == #[trigger] xs[k],
    decreases xs.len(),
{
    if xs.len() > 0 {
        let b = u16s_bytes(xs);
        assert(b == u16_bytes(xs[0]) + u16s_bytes(xs.drop_first()));
        assert(s.subrange(p, p + 2 * xs.len())[0] == s[p]);
        assert(s.subrange(p, p + 2 * xs.len())[1] == s[p + 1]);
        lemma_u16_at(s, p, xs[0]);
        let t = xs.drop_first();
        assert(s.subrange(p + 2, p + 2 + 2 * t.len()) =~= u16s_bytes(t)) by {
            assert forall|j: int| 0 <= j < 2 * t.len() implies s.subrange(p + 2, p + 2 + 2 * t.len())[j]
                == u16s_bytes(t)[j] by {
                assert(s.subrange(p, p + 2 * xs.len())[2 + j] == b[2 + j]);
            }
        }
        lemma_u16s_at(s, p + 2, t);
        assert forall|k: int| 0 <= k < xs.len() implies be16(s, p + 2 * k) == #[trigger] xs[k] by {
            if k > 0 {
                assert(t[k - 1] == xs[k]);
                assert(p + 2 + 2 * (k - 1) == p + 2 * k);
            }
        }
    }
}

/// The bytes of a `LineNumberTableEntry`, as JVMS 4.7.12: `start_pc`, then `line_number`, each a big-endian `u16`.
pub open spec fn line_number_bytes(x: LineNumberTableEntry) -> Seq<u8> {
    u16s_bytes(seq![x.start_pc, x.line_number])
}

/// A `LineNumberTableEntry` is read back from its bytes: each field from its own place.
pub proof fn law_line_number_layout(s: Seq<u8>, p: int, x: LineNumberTableEntry, y: LineNumberTableEntry)
    requires
        0 <= p,
        p + 4 <= s.len(),
        s.subrange(p, p + 4) == line_number_bytes(x),
        line_number_is()(s, p, y),
    ensures
        y == x,
{
    let xs = seq![x.start_pc, x.line_number];
    lemma_u16s_at(s, p, xs);
    assert(be16(s, p + 0) == xs[0]);
    assert(be16(s, p + 2) == xs[1]);
}

/// The bytes of a `ExceptionTableEntry`, as JVMS 4.7.3: `start_pc`, `end_pc`, `handler_pc`, `catch_type`, each a big-endian `u16`.
pub open spec fn exception_entry_bytes(x: ExceptionTableEntry) -> Seq<u8> {
    u16s_bytes(seq![x.start_pc, x.end_pc, x.handler_pc, x.catch_type])
}

/// A `ExceptionTableEntry` is read back from its bytes: each field from its own place.
pub proof fn law_exception_entry_layout(s: Seq<u8>, p: int, x: ExceptionTableEntry, y: ExceptionTableEntry)
    requires
        0 <= p,
        p + 8 <= s.len(),
        s.subrange(p, p + 8) == exception_entry_bytes(x),
        exception_entry_is()(s, p, y),
    ensures
        y == x,
{
    let xs = seq![x.start_pc, x.end_pc, x.handler_pc, x.catch_type];
    lemma_u16s_at(s, p, xs);
    assert(be16(s, p + 0) == xs[0]);
    assert(be16(s, p + 2) == xs[1]);
    assert(be16(s, p + 4) == xs[2]);
    assert(be16(s, p + 6) == xs[3]);
}

/// The bytes of a `InnerClassInfo`, as JVMS 4.7.6: `inner_class_info_index`, `outer_class_info_index`, `inner_name_index`, `inner_class_access_flags`, each a big-endian `u16`.
pub open spec fn inner_class_bytes(x: InnerClassInfo) -> Seq<u8> {
    u16s_bytes(seq![x.inner_class_info_index, x.outer_class_info_index, x.inner_name_index, x.inner_class_access_flags])
}

/// A `InnerClassInfo` is read back from its bytes: each field from its own place.
pub proof fn law_inner_class_layout(s: Seq<u8>, p: int, x: InnerClassInfo, y: InnerClassInfo)
    requires
        0 <= p,
        p + 8 <= s.len(),
        s.subrange(p, p + 8) == inner_class_bytes(x),
        inner_class_is()(s, p, y),
    ensures
        y == x,
{
    let xs = seq![x.inner_class_info_index, x.outer_class_info_index, x.inner_name_index, x.inner_class_access_flags];
    lemma_u16s_at(s, p, xs);
    assert(be16(s, p + 0) == xs[0]);
    assert(be16(s, p + 2) == xs[1]);
    assert(be16(s, p + 4) == xs[2]);
    assert(be16(s, p + 6) == xs[3]);
}

/// The bytes of a `LocalVariableTableEntry`, as JVMS 4.7.13: `start_pc`, `length`, `name_index`, `descriptor_index`, `index`, each a big-endian `u16`.
pub open spec fn local_variable_bytes(x: LocalVariableTableEntry) -> Seq<u8> {
    u16s_bytes(seq![x.start_pc, x.length, x.name_index, x.descriptor_index, x.index])
}

/// A `LocalVariableTableEntry` is read back from its bytes: each field from its own place.
pub proof fn law_local_variable_layout(s: Seq<u8>, p: int, x: LocalVariableTableEntry, y: LocalVariableTableEntry)
    requires
        0 <= p,
        p + 10 <= s.len(),
        s.subrange(p, p + 10) == local_variable_bytes(x),
        local_variable_is()(s, p, y),
    ensures
        y == x,
{
    let xs = seq![x.start_pc, x.length, x.name_index, x.descriptor_index, x.index];
    lemma_u16s_at(s, p, xs);
    assert(be16(s, p + 0) == xs[0]);
    assert(be16(s, p + 2) == xs[1]);
    assert(be16(s, p + 4) == xs[2]);
    assert(be16(s, p + 6) == xs[3]);
    assert(be16(s, p + 8) == xs[4]);
}

/// The bytes of a `LocalVariableTypeTableEntry`, as JVMS 4.7.14: `start_pc`, `length`, `name_index`, `signature_index`, `index`, each a big-endian `u16`.
pub open spec fn local_variable_type_bytes(x: LocalVariableTypeTableEntry) -> Seq<u8> {
    u16s_bytes(seq![x.start_pc, x.length, x.name_index, x.signature_index, x.index])
}

/// A `LocalVariableTypeTableEntry` is read back from its bytes: each field from its own place.
pub proof fn law_local_variable_type_layout(s: Seq<u8>, p: int, x: LocalVariableTypeTableEntry, y: LocalVariableTypeTableEntry)
    requires
        0 <= p,
        p + 10 <= s.len(),
        s.subrange(p, p + 10) == local_variable_type_bytes(x),
        local_variable_type_is()(s, p, y),
    ensures
        y == x,
{
    let xs = seq![x.start_pc, x.length, x.name_index, x.signature_index, x.index];
    lemma_u16s_at(s, p, xs);
    assert(be16(s, p + 0) == xs[0]);
    assert(be16(s, p + 2) == xs[1]);
    assert(be16(s, p + 4) == xs[2]);
    assert(be16(s, p + 6) == xs[3]);
    assert(be16(s, p + 8) == xs[4]);
}

/// The bytes of a `MethodParameterEntry`, as JVMS 4.7.24: `name_index`, then `access_flags`, each a big-endian `u16`.
pub open spec fn method_parameter_bytes(x: MethodParameterEntry) -> Seq<u8> {
    u16s_bytes(seq![x.name_index, x.access_flags])
}

/// A `MethodParameterEntry` is read back from its bytes: each field from its own place.
pub proof fn law_method_parameter_layout(s: Seq<u8>, p: int, x: MethodParameterEntry, y: MethodParameterEntry)
    requires
        0 <= p,
        p + 4 <= s.len(),
        s.subrange(p, p + 4) == method_parameter_bytes(x),
        method_parameter_is()(s, p, y),
    ensures
        y == x,
{
    let xs = seq![x.name_index, x.access_flags];
    lemma_u16s_at(s, p, xs);
    assert(be16(s, p + 0) == xs[0]);
    assert(be16(s, p + 2) == xs[1]);
}

/// The bytes of a `LocalVarTagetTableEntry`, as JVMS 4.7.20.1: `start_pc`, `length`, `index`, each a big-endian `u16`.
pub open spec fn local_var_target_bytes(x: LocalVarTagetTableEntry) -> Seq<u8> {
    u16s_bytes(seq![x.start_pc, x.length, x.index])
}

/// A `LocalVarTagetTableEntry` is read back from its bytes: each field from its own place.
pub proof fn law_local_var_target_layout(s: Seq<u8>, p: int, x: LocalVarTagetTableEntry, y: LocalVarTagetTableEntry)
    requires
        0 <= p,
        p + 6 <= s.len(),
        s.subrange(p, p + 6) == local_var_target_bytes(x),
        local_var_target_is()(s, p, y),
    ensures
        y == x,
{
    let xs = seq![x.start_pc, x.length, x.index];
    lemma_u16s_at(s, p, xs);
    assert(be16(s, p + 0) == xs[0]);
    assert(be16(s, p + 2) == xs[1]);
    assert(be16(s, p + 4) == xs[2]);
}

/// The two bytes of a `TypePathEntry`, as JVMS 4.7.20.2 lays them out: `type_path_kind`,
/// then `type_argument_index`.
pub open spec fn type_path_entry_bytes(x: TypePathEntry) -> Seq<u8> {
    seq![x.type_path_kind, x.type_argument_index]
}

/// A `TypePathEntry` is read back from its bytes.
pub proof fn law_type_path_entry_layout(s: Seq<u8>, p: int, x: TypePathEntry, y: TypePathEntry)
    requires
        0 <= p,
        p + 2 <= s.len(),
        s.subrange(p, p + 2) == type_path_entry_bytes(x),
        type_path_entry_is()(s, p, y),
    ensures
        y == x,
{
    assert(s.subrange(p, p + 2)[0] == s[p]);
    assert(s.subrange(p, p + 2)[1] == s[p + 1]);
}

} // verus!
