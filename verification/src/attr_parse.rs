//! Reading the attributes of classes, fields, methods and code from a class file.
use vstd::prelude::*;
use crate::attr_lemmas::{
    code_walk, lemma_attr_list_fail, lemma_attr_list_snoc, lemma_code_walk_done,
    lemma_code_walk_fail, lemma_code_walk_snoc, lemma_ev_list_fail, lemma_ev_list_snoc,
    lemma_pair_list_fail, lemma_pair_list_snoc,
};
use crate::attr_spec::{
    ann_end, ann_end_fn, ann_is, ann_is_fn, annotations_end_fn, annotations_is_fn, attr_end,
    attr_is, attr_kind, attr_kind_of, cp_names, attr_list_end, attr_list_is, bootstrap_end,
    bootstrap_end_fn, bootstrap_is_fn, code_end, code_is, counted16_end, counted16_is, ev_end,
    ev_is, ev_list_end, ev_list_is, exception_entry_is, fixed_end, frame_end, frame_end_fn,
    frame_is, frame_is_fn, inner_class_is, line_number_is, local_var_target_is,
    local_variable_is, local_variable_type_is, method_parameter_is, pair_list_end, pair_list_is,
    type_ann_end, type_ann_end_fn, type_ann_is, type_ann_is_fn,
    type_path_entry_is, u16_is, u8_is, vti_end, vti_end_fn, vti_is_fn, vti_value, AttrKind,
};
use crate::attributes::{
    Annotation, Attribute, BootstrapMethodsEntry, ElementValue, ElementValuePair,
    ExceptionTableEntry, InnerClassInfo, LineNumberTableEntry, LocalVarTagetTableEntry,
    LocalVariableTableEntry, LocalVariableTypeTableEntry, MethodParameterEntry, StackMapFrame,
    TargetInfo, TypeAnnotation, TypePath, TypePathEntry, VerificationTypeInfo,
};
use crate::bytecode_tools::to_opcode;
use crate::bytes::be16;
use crate::cp::ConstantPool;
use crate::cp_info::CPInfo;
use crate::error::ParseError;
use crate::grammar::{lemma_many_fail, lemma_many_snoc, many_end, many_is};
use crate::mutf8::{decode_chars, is_valid};
use crate::opcodes::Opcode;
use crate::reader::JavaClassReader;
use crate::text::{chars_eq, chars_of};

verus! {

/// Reads one verification type.
pub fn read_verification_type_info(r: &mut JavaClassReader) -> (res: Result<
    VerificationTypeInfo,
    ParseError,
>)
    requires
        old(r).valid(),
    ensures
        final(r).valid(),
        final(r).bytes() == old(r).bytes(),
        old(r).pos() <= final(r).pos(),
        match vti_end(old(r).bytes(), old(r).pos()) {
            Ok(q) => res matches Ok(x) && x == vti_value(old(r).bytes(), old(r).pos())
                && final(r).pos() == q,
            Err(e) => res == Err::<VerificationTypeInfo, ParseError>(e),
        },
{
    let tag = r.next8()?;
    Ok(
        match tag {
            0 => VerificationTypeInfo::Top,
            1 => VerificationTypeInfo::Integer,
            2 => VerificationTypeInfo::Float,
            5 => VerificationTypeInfo::Null,
            6 => VerificationTypeInfo::UninitializedThis,
            7 => VerificationTypeInfo::Object { cpool_index: r.next16()? },
            8 => VerificationTypeInfo::UninitializedVariable { offset: r.next16()? },
            4 => VerificationTypeInfo::Long,
            3 => VerificationTypeInfo::Double,
            _ => return Err(ParseError::BadVerificationTypeInfo),
        },
    )
}

/// Reads one stack map frame.
pub fn read_stack_map_frame(r: &mut JavaClassReader) -> (res: Result<StackMapFrame, ParseError>)
    requires
        old(r).valid(),
    ensures
        final(r).valid(),
        final(r).bytes() == old(r).bytes(),
        old(r).pos() <= final(r).pos(),
        match frame_end(old(r).bytes(), old(r).pos()) {
            Ok(q) => res matches Ok(x) && frame_is(old(r).bytes(), old(r).pos(), x)
                && final(r).pos() == q,
            Err(e) => res == Err::<StackMapFrame, ParseError>(e),
        },
{
    let tag = r.next8()?;
    if tag <= 63 {
        Ok(StackMapFrame::SameFrame { offset_delta: tag })
    } else if tag <= 127 {
        let stack = read_verification_type_info(r)?;
        Ok(StackMapFrame::SameLocals1Item { offset_delta: tag - 64, stack })
    } else if tag < 247 {
        Err(ParseError::InvalidStackMapFrameTag)
    } else if tag == 247 {
        let offset_delta = r.next16()?;
        let stack = read_verification_type_info(r)?;
        Ok(StackMapFrame::SameLocals1ItemExtended { offset_delta, stack })
    } else if tag <= 250 {
        let offset_delta = r.next16()?;
        Ok(StackMapFrame::ChopFrame { absent_locals: 251 - tag, offset_delta })
    } else if tag == 251 {
        let offset_delta = r.next16()?;
        Ok(StackMapFrame::SameFrameExtended { offset_delta })
    } else if tag <= 254 {
        let offset_delta = r.next16()?;
        let locals = read_n_vti(r, (tag - 251) as u32)?;
        Ok(StackMapFrame::AppendFrame { offset_delta, locals })
    } else {
        let offset_delta = r.next16()?;
        let locals = read_counted_vti(r)?;
        let stack = read_counted_vti(r)?;
        Ok(StackMapFrame::FullFrame { offset_delta, locals, stack })
    }
}

/// Reads one element value of an annotation.
pub fn read_element_value(r: &mut JavaClassReader) -> (res: Result<ElementValue, ParseError>)
    requires
        old(r).valid(),
    ensures
        final(r).valid(),
        final(r).bytes() == old(r).bytes(),
        old(r).pos() <= final(r).pos(),
        match ev_end(old(r).bytes(), old(r).pos()) {
            Ok(q) => res matches Ok(x) && ev_is(old(r).bytes(), old(r).pos(), x) && final(r).pos()
                == q,
            Err(e) => res == Err::<ElementValue, ParseError>(e),
        },
        res is Ok ==> old(r).pos() < final(r).pos(),
    decreases old(r).bytes().len() - old(r).pos(), 0int,
{
    let tag = r.next8()?;
    // the tags are the characters B C D F I J S Z s, e, c, @ and [
    if tag == 66 || tag == 67 || tag == 68 || tag == 70 || tag == 73 || tag == 74 || tag == 83
        || tag == 90 || tag == 115 {
        Ok(ElementValue::ConstValueIndex(r.next16()?))
    } else if tag == 101 {
        let type_name_index = r.next16()?;
        let const_name_index = r.next16()?;
        Ok(ElementValue::EnumConstValue { type_name_index, const_name_index })
    } else if tag == 99 {
        Ok(ElementValue::ClassInfoIndex(r.next16()?))
    } else if tag == 64 {
        let a = read_annotation(r)?;
        Ok(ElementValue::AnnotationValue(a))
    } else if tag == 91 {
        let num = r.next16()?;
        let vs = read_element_values(r, num)?;
        Ok(ElementValue::ArrayValue(vs))
    } else {
        Err(ParseError::InvalidElementValueTag)
    }
}

/// Reads `n` element values one after another.
fn read_element_values(r: &mut JavaClassReader, n: u16) -> (res: Result<Vec<ElementValue>, ParseError>)
    requires
        old(r).valid(),
    ensures
        final(r).valid(),
        final(r).bytes() == old(r).bytes(),
        old(r).pos() <= final(r).pos(),
        match ev_list_end(old(r).bytes(), old(r).pos(), n as int) {
            Ok(q) => res matches Ok(v) && v@.len() == n && ev_list_is(old(r).bytes(), old(r).pos(), v@)
                && final(r).pos() == q,
            Err(e) => res == Err::<Vec<ElementValue>, ParseError>(e),
        },
    decreases old(r).bytes().len() - old(r).pos(), 1int,
{
    let ghost s = r.bytes();
    let ghost p0 = r.pos();
    let mut v: Vec<ElementValue> = Vec::new();
    let mut i: u16 = 0;
    while i < n
        invariant
            r.valid(),
            r.bytes() == s,
            s == old(r).bytes(),
            p0 == old(r).pos(),
            p0 <= r.pos(),
            i <= n,
            v@.len() == i,
            ev_list_end(s, p0, i as int) == Ok::<int, ParseError>(r.pos()),
            ev_list_is(s, p0, v@),
        decreases n - i,
    {
        let ghost p = r.pos();
        let x = match read_element_value(r) {
            Ok(x) => x,
            Err(e) => {
                proof {
                    lemma_ev_list_fail(s, p0, i as int, n as int, p, e);
                }
                return Err(e);
            },
        };
        proof {
            lemma_ev_list_snoc(s, p0, v@, x, p, r.pos());
        }
        v.push(x);
        i = i + 1;
    }
    Ok(v)
}

/// Reads `n` element value pairs one after another.
fn read_pairs(r: &mut JavaClassReader, n: u16) -> (res: Result<Vec<ElementValuePair>, ParseError>)
    requires
        old(r).valid(),
    ensures
        final(r).valid(),
        final(r).bytes() == old(r).bytes(),
        old(r).pos() <= final(r).pos(),
        match pair_list_end(old(r).bytes(), old(r).pos(), n as int) {
            Ok(q) => res matches Ok(v) && v@.len() == n && pair_list_is(
                old(r).bytes(),
                old(r).pos(),
                v@,
            ) && final(r).pos() == q,
            Err(e) => res == Err::<Vec<ElementValuePair>, ParseError>(e),
        },
    decreases old(r).bytes().len() - old(r).pos(), 1int,
{
    let ghost s = r.bytes();
    let ghost p0 = r.pos();
    let mut v: Vec<ElementValuePair> = Vec::new();
    let mut i: u16 = 0;
    while i < n
        invariant
            r.valid(),
            r.bytes() == s,
            s == old(r).bytes(),
            p0 == old(r).pos(),
            p0 <= r.pos(),
            i <= n,
            v@.len() == i,
            pair_list_end(s, p0, i as int) == Ok::<int, ParseError>(r.pos()),
            pair_list_is(s, p0, v@),
        decreases n - i,
    {
        let ghost p = r.pos();
        let element_name_index = match r.next16() {
            Ok(x) => x,
            Err(e) => {
                proof {
                    lemma_pair_list_fail(s, p0, i as int, n as int, p, e);
                }
                return Err(e);
            },
        };
        let value = match read_element_value(r) {
            Ok(x) => x,
            Err(e) => {
                proof {
                    lemma_pair_list_fail(s, p0, i as int, n as int, p, e);
                }
                return Err(e);
            },
        };
        let x = ElementValuePair { element_name_index, value };
        proof {
            lemma_pair_list_snoc(s, p0, v@, x, p, r.pos());
        }
        v.push(x);
        i = i + 1;
    }
    Ok(v)
}

/// Reads one annotation.
pub fn read_annotation(r: &mut JavaClassReader) -> (res: Result<Annotation, ParseError>)
    requires
        old(r).valid(),
    ensures
        final(r).valid(),
        final(r).bytes() == old(r).bytes(),
        old(r).pos() <= final(r).pos(),
        match ann_end(old(r).bytes(), old(r).pos()) {
            Ok(q) => res matches Ok(x) && ann_is(old(r).bytes(), old(r).pos(), x) && final(r).pos()
                == q,
            Err(e) => res == Err::<Annotation, ParseError>(e),
        },
    decreases old(r).bytes().len() - old(r).pos(), 0int,
{
    let type_index = r.next16()?;
    let len = r.next16()?;
    let element_value_pairs = read_pairs(r, len)?;
    Ok(Annotation { type_index, element_value_pairs })
}

/// Reads one type annotation.
pub fn read_type_annotation(r: &mut JavaClassReader) -> (res: Result<TypeAnnotation, ParseError>)
    requires
        old(r).valid(),
    ensures
        final(r).valid(),
        final(r).bytes() == old(r).bytes(),
        old(r).pos() <= final(r).pos(),
        match type_ann_end(old(r).bytes(), old(r).pos()) {
            Ok(q) => res matches Ok(x) && type_ann_is(old(r).bytes(), old(r).pos(), x)
                && final(r).pos() == q,
            Err(e) => res == Err::<TypeAnnotation, ParseError>(e),
        },
{
    let target_type = r.next8()?;
    let target_info = if target_type == 0x00 || target_type == 0x01 {
        TargetInfo::TypeParameterTarget { type_parameter_index: r.next8()? }
    } else if target_type == 0x10 {
        TargetInfo::SupertypeTarget { supertype_index: r.next16()? }
    } else if target_type == 0x11 || target_type == 0x12 {
        let type_parameter_index = r.next8()?;
        let bound_index = r.next8()?;
        TargetInfo::TypeParameterBoundTarget { type_parameter_index, bound_index }
    } else if target_type == 0x13 || target_type == 0x14 || target_type == 0x15 {
        TargetInfo::EmptyTarget
    } else if target_type == 0x16 {
        TargetInfo::FormalParameterTarget { formal_parameter_index: r.next8()? }
    } else if target_type == 0x17 {
        TargetInfo::ThrowsTarget { throws_type_index: r.next16()? }
    } else if target_type == 0x40 || target_type == 0x41 {
        let len = r.next16()?;
        let table = read_n_local_var_target(r, len as u32)?;
        TargetInfo::LocalVarTarget { table }
    } else if target_type == 0x42 {
        TargetInfo::CatchTarget { exception_table_index: r.next16()? }
    } else if target_type == 0x43 || target_type == 0x44 || target_type == 0x45 || target_type
        == 0x46 {
        TargetInfo::OffsetTarget { offset: r.next16()? }
    } else if target_type == 0x47 || target_type == 0x48 || target_type == 0x49 || target_type
        == 0x4A || target_type == 0x4B {
        let offset = r.next16()?;
        let type_argument_index = r.next8()?;
        TargetInfo::TypeArgumentTarget { offset, type_argument_index }
    } else {
        return Err(ParseError::BadTargetInfoTag);
    };
    let num = r.next8()?;
    let path = read_n_type_path_entry(r, num as u32)?;
    let target_path = TypePath { path };
    let type_index = r.next16()?;
    let num_ev = r.next16()?;
    let element_value_pairs = read_pairs(r, num_ev)?;
    Ok(TypeAnnotation { target_info, target_path, type_index, element_value_pairs })
}

/// Reads one entry of a `BootstrapMethods` attribute.
fn read_bootstrap_entry(r: &mut JavaClassReader) -> (res: Result<BootstrapMethodsEntry, ParseError>)
    requires
        old(r).valid(),
    ensures
        final(r).valid(),
        final(r).bytes() == old(r).bytes(),
        old(r).pos() <= final(r).pos(),
        match bootstrap_end(old(r).bytes(), old(r).pos()) {
            Ok(q) => res matches Ok(x) && bootstrap_is_fn()(old(r).bytes(), old(r).pos(), x)
                && final(r).pos() == q,
            Err(e) => res == Err::<BootstrapMethodsEntry, ParseError>(e),
        },
{
    let bootstrap_method_ref = r.next16()?;
    let bootstrap_arguments = read_counted_u16(r)?;
    Ok(BootstrapMethodsEntry { bootstrap_method_ref, bootstrap_arguments })
}

fn read_exception_entry(r: &mut JavaClassReader) -> (res: Result<ExceptionTableEntry, ParseError>)
    requires
        old(r).valid(),
    ensures
        final(r).valid(),
        final(r).bytes() == old(r).bytes(),
        old(r).pos() <= final(r).pos(),
        match fixed_end(8)(old(r).bytes(), old(r).pos()) {
            Ok(q) => res matches Ok(x) && exception_entry_is()(old(r).bytes(), old(r).pos(), x) && final(r).pos() == q,
            Err(e) => res == Err::<ExceptionTableEntry, ParseError>(e),
        },
{
    let start_pc = r.next16()?;
    let end_pc = r.next16()?;
    let handler_pc = r.next16()?;
    let catch_type = r.next16()?;
    Ok(ExceptionTableEntry { start_pc, end_pc, handler_pc, catch_type })
}

fn read_inner_class(r: &mut JavaClassReader) -> (res: Result<InnerClassInfo, ParseError>)
    requires
        old(r).valid(),
    ensures
        final(r).valid(),
        final(r).bytes() == old(r).bytes(),
        old(r).pos() <= final(r).pos(),
        match fixed_end(8)(old(r).bytes(), old(r).pos()) {
            Ok(q) => res matches Ok(x) && inner_class_is()(old(r).bytes(), old(r).pos(), x) && final(r).pos() == q,
            Err(e) => res == Err::<InnerClassInfo, ParseError>(e),
        },
{
    let inner_class_info_index = r.next16()?;
    let outer_class_info_index = r.next16()?;
    let inner_name_index = r.next16()?;
    let inner_class_access_flags = r.next16()?;
    Ok(InnerClassInfo { inner_class_info_index, outer_class_info_index, inner_name_index, inner_class_access_flags })
}

fn read_line_number(r: &mut JavaClassReader) -> (res: Result<LineNumberTableEntry, ParseError>)
    requires
        old(r).valid(),
    ensures
        final(r).valid(),
        final(r).bytes() == old(r).bytes(),
        old(r).pos() <= final(r).pos(),
        match fixed_end(4)(old(r).bytes(), old(r).pos()) {
            Ok(q) => res matches Ok(x) && line_number_is()(old(r).bytes(), old(r).pos(), x) && final(r).pos() == q,
            Err(e) => res == Err::<LineNumberTableEntry, ParseError>(e),
        },
{
    let start_pc = r.next16()?;
    let line_number = r.next16()?;
    Ok(LineNumberTableEntry { start_pc, line_number })
}

fn read_local_variable(r: &mut JavaClassReader) -> (res: Result<LocalVariableTableEntry, ParseError>)
    requires
        old(r).valid(),
    ensures
        final(r).valid(),
        final(r).bytes() == old(r).bytes(),
        old(r).pos() <= final(r).pos(),
        match fixed_end(10)(old(r).bytes(), old(r).pos()) {
            Ok(q) => res matches Ok(x) && local_variable_is()(old(r).bytes(), old(r).pos(), x) && final(r).pos() == q,
            Err(e) => res == Err::<LocalVariableTableEntry, ParseError>(e),
        },
{
    let start_pc = r.next16()?;
    let length = r.next16()?;
    let name_index = r.next16()?;
    let descriptor_index = r.next16()?;
    let index = r.next16()?;
    Ok(LocalVariableTableEntry { start_pc, length, name_index, descriptor_index, index })
}

fn read_local_variable_type(r: &mut JavaClassReader) -> (res: Result<LocalVariableTypeTableEntry, ParseError>)
    requires
        old(r).valid(),
    ensures
        final(r).valid(),
        final(r).bytes() == old(r).bytes(),
        old(r).pos() <= final(r).pos(),
        match fixed_end(10)(old(r).bytes(), old(r).pos()) {
            Ok(q) => res matches Ok(x) && local_variable_type_is()(old(r).bytes(), old(r).pos(), x) && final(r).pos() == q,
            Err(e) => res == Err::<LocalVariableTypeTableEntry, ParseError>(e),
        },
{
    let start_pc = r.next16()?;
    let length = r.next16()?;
    let name_index = r.next16()?;
    let signature_index = r.next16()?;
    let index = r.next16()?;
    Ok(LocalVariableTypeTableEntry { start_pc, length, name_index, signature_index, index })
}

fn read_method_parameter(r: &mut JavaClassReader) -> (res: Result<MethodParameterEntry, ParseError>)
    requires
        old(r).valid(),
    ensures
        final(r).valid(),
        final(r).bytes() == old(r).bytes(),
        old(r).pos() <= final(r).pos(),
        match fixed_end(4)(old(r).bytes(), old(r).pos()) {
            Ok(q) => res matches Ok(x) && method_parameter_is()(old(r).bytes(), old(r).pos(), x) && final(r).pos() == q,
            Err(e) => res == Err::<MethodParameterEntry, ParseError>(e),
        },
{
    let name_index = r.next16()?;
    let access_flags = r.next16()?;
    Ok(MethodParameterEntry { name_index, access_flags })
}

fn read_type_path_entry(r: &mut JavaClassReader) -> (res: Result<TypePathEntry, ParseError>)
    requires
        old(r).valid(),
    ensures
        final(r).valid(),
        final(r).bytes() == old(r).bytes(),
        old(r).pos() <= final(r).pos(),
        match fixed_end(2)(old(r).bytes(), old(r).pos()) {
            Ok(q) => res matches Ok(x) && type_path_entry_is()(old(r).bytes(), old(r).pos(), x) && final(r).pos() == q,
            Err(e) => res == Err::<TypePathEntry, ParseError>(e),
        },
{
    let type_path_kind = r.next8()?;
    let type_argument_index = r.next8()?;
    Ok(TypePathEntry { type_path_kind, type_argument_index })
}

fn read_local_var_target(r: &mut JavaClassReader) -> (res: Result<LocalVarTagetTableEntry, ParseError>)
    requires
        old(r).valid(),
    ensures
        final(r).valid(),
        final(r).bytes() == old(r).bytes(),
        old(r).pos() <= final(r).pos(),
        match fixed_end(6)(old(r).bytes(), old(r).pos()) {
            Ok(q) => res matches Ok(x) && local_var_target_is()(old(r).bytes(), old(r).pos(), x) && final(r).pos() == q,
            Err(e) => res == Err::<LocalVarTagetTableEntry, ParseError>(e),
        },
{
    let start_pc = r.next16()?;
    let length = r.next16()?;
    let index = r.next16()?;
    Ok(LocalVarTagetTableEntry { start_pc, length, index })
}

/// Reads `n` items one after another.
fn read_n_u16(r: &mut JavaClassReader, n: u32) -> (res: Result<Vec<u16>, ParseError>)
    requires
        old(r).valid(),
    ensures
        final(r).valid(),
        final(r).bytes() == old(r).bytes(),
        old(r).pos() <= final(r).pos(),
        match many_end(old(r).bytes(), old(r).pos(), n as nat, fixed_end(2)) {
            Ok(q) => res matches Ok(v) && v@.len() == n && many_is(
                old(r).bytes(),
                old(r).pos(),
                v@,
                fixed_end(2),
                u16_is(),
            ) && final(r).pos() == q,
            Err(e) => res == Err::<Vec<u16>, ParseError>(e),
        },
{
    let ghost s = r.bytes();
    let ghost p0 = r.pos();
    let mut v: Vec<u16> = Vec::new();
    let mut i: u32 = 0;
    while i < n
        invariant
            r.valid(),
            r.bytes() == s,
            s == old(r).bytes(),
            p0 == old(r).pos(),
            p0 <= r.pos(),
            i <= n,
            v@.len() == i,
            many_end(s, p0, i as nat, fixed_end(2)) == Ok::<int, ParseError>(r.pos()),
            many_is(s, p0, v@, fixed_end(2), u16_is()),
        decreases n - i,
    {
        let ghost p = r.pos();
        let x = match r.next16() {
            Ok(x) => x,
            Err(e) => {
                proof {
                    lemma_many_fail(s, p0, i as nat, n as nat, p, e, fixed_end(2));
                }
                return Err(e);
            },
        };
        proof {
            lemma_many_snoc(s, p0, v@, x, p, r.pos(), fixed_end(2), u16_is());
        }
        v.push(x);
        i = i + 1;
    }
    Ok(v)
}

/// Reads a `u16` count and that many items.
fn read_counted_u16(r: &mut JavaClassReader) -> (res: Result<Vec<u16>, ParseError>)
    requires
        old(r).valid(),
    ensures
        final(r).valid(),
        final(r).bytes() == old(r).bytes(),
        old(r).pos() <= final(r).pos(),
        match counted16_end(old(r).bytes(), old(r).pos(), fixed_end(2)) {
            Ok(q) => res matches Ok(v) && counted16_is(old(r).bytes(), old(r).pos(), v@, fixed_end(2), u16_is())
                && final(r).pos() == q,
            Err(e) => res == Err::<Vec<u16>, ParseError>(e),
        },
{
    let n = r.next16()?;
    read_n_u16(r, n as u32)
}

/// Reads `n` items one after another.
fn read_n_u8(r: &mut JavaClassReader, n: u32) -> (res: Result<Vec<u8>, ParseError>)
    requires
        old(r).valid(),
    ensures
        final(r).valid(),
        final(r).bytes() == old(r).bytes(),
        old(r).pos() <= final(r).pos(),
        match many_end(old(r).bytes(), old(r).pos(), n as nat, fixed_end(1)) {
            Ok(q) => res matches Ok(v) && v@.len() == n && many_is(
                old(r).bytes(),
                old(r).pos(),
                v@,
                fixed_end(1),
                u8_is(),
            ) && final(r).pos() == q,
            Err(e) => res == Err::<Vec<u8>, ParseError>(e),
        },
{
    let ghost s = r.bytes();
    let ghost p0 = r.pos();
    let mut v: Vec<u8> = Vec::new();
    let mut i: u32 = 0;
    while i < n
        invariant
            r.valid(),
            r.bytes() == s,
            s == old(r).bytes(),
            p0 == old(r).pos(),
            p0 <= r.pos(),
            i <= n,
            v@.len() == i,
            many_end(s, p0, i as nat, fixed_end(1)) == Ok::<int, ParseError>(r.pos()),
            many_is(s, p0, v@, fixed_end(1), u8_is()),
        decreases n - i,
    {
        let ghost p = r.pos();
        let x = match r.next8() {
            Ok(x) => x,
            Err(e) => {
                proof {
                    lemma_many_fail(s, p0, i as nat, n as nat, p, e, fixed_end(1));
                }
                return Err(e);
            },
        };
        proof {
            lemma_many_snoc(s, p0, v@, x, p, r.pos(), fixed_end(1), u8_is());
        }
        v.push(x);
        i = i + 1;
    }
    Ok(v)
}

/// Reads `n` items one after another.
fn read_n_exception_entry(r: &mut JavaClassReader, n: u32) -> (res: Result<Vec<ExceptionTableEntry>, ParseError>)
    requires
        old(r).valid(),
    ensures
        final(r).valid(),
        final(r).bytes() == old(r).bytes(),
        old(r).pos() <= final(r).pos(),
        match many_end(old(r).bytes(), old(r).pos(), n as nat, fixed_end(8)) {
            Ok(q) => res matches Ok(v) && v@.len() == n && many_is(
                old(r).bytes(),
                old(r).pos(),
                v@,
                fixed_end(8),
                exception_entry_is(),
            ) && final(r).pos() == q,
            Err(e) => res == Err::<Vec<ExceptionTableEntry>, ParseError>(e),
        },
{
    let ghost s = r.bytes();
    let ghost p0 = r.pos();
    let mut v: Vec<ExceptionTableEntry> = Vec::new();
    let mut i: u32 = 0;
    while i < n
        invariant
            r.valid(),
            r.bytes() == s,
            s == old(r).bytes(),
            p0 == old(r).pos(),
            p0 <= r.pos(),
            i <= n,
            v@.len() == i,
            many_end(s, p0, i as nat, fixed_end(8)) == Ok::<int, ParseError>(r.pos()),
            many_is(s, p0, v@, fixed_end(8), exception_entry_is()),
        decreases n - i,
    {
        let ghost p = r.pos();
        let x = match read_exception_entry(r) {
            Ok(x) => x,
            Err(e) => {
                proof {
                    lemma_many_fail(s, p0, i as nat, n as nat, p, e, fixed_end(8));
                }
                return Err(e);
            },
        };
        proof {
            lemma_many_snoc(s, p0, v@, x, p, r.pos(), fixed_end(8), exception_entry_is());
        }
        v.push(x);
        i = i + 1;
    }
    Ok(v)
}

/// Reads a `u16` count and that many items.
fn read_exception_table(r: &mut JavaClassReader) -> (res: Result<Vec<ExceptionTableEntry>, ParseError>)
    requires
        old(r).valid(),
    ensures
        final(r).valid(),
        final(r).bytes() == old(r).bytes(),
        old(r).pos() <= final(r).pos(),
        match counted16_end(old(r).bytes(), old(r).pos(), fixed_end(8)) {
            Ok(q) => res matches Ok(v) && counted16_is(old(r).bytes(), old(r).pos(), v@, fixed_end(8), exception_entry_is())
                && final(r).pos() == q,
            Err(e) => res == Err::<Vec<ExceptionTableEntry>, ParseError>(e),
        },
{
    let n = r.next16()?;
    read_n_exception_entry(r, n as u32)
}

/// Reads `n` items one after another.
fn read_n_inner_class(r: &mut JavaClassReader, n: u32) -> (res: Result<Vec<InnerClassInfo>, ParseError>)
    requires
        old(r).valid(),
    ensures
        final(r).valid(),
        final(r).bytes() == old(r).bytes(),
        old(r).pos() <= final(r).pos(),
        match many_end(old(r).bytes(), old(r).pos(), n as nat, fixed_end(8)) {
            Ok(q) => res matches Ok(v) && v@.len() == n && many_is(
                old(r).bytes(),
                old(r).pos(),
                v@,
                fixed_end(8),
                inner_class_is(),
            ) && final(r).pos() == q,
            Err(e) => res == Err::<Vec<InnerClassInfo>, ParseError>(e),
        },
{
    let ghost s = r.bytes();
    let ghost p0 = r.pos();
    let mut v: Vec<InnerClassInfo> = Vec::new();
    let mut i: u32 = 0;
    while i < n
        invariant
            r.valid(),
            r.bytes() == s,
            s == old(r).bytes(),
            p0 == old(r).pos(),
            p0 <= r.pos(),
            i <= n,
            v@.len() == i,
            many_end(s, p0, i as nat, fixed_end(8)) == Ok::<int, ParseError>(r.pos()),
            many_is(s, p0, v@, fixed_end(8), inner_class_is()),
        decreases n - i,
    {
        let ghost p = r.pos();
        let x = match read_inner_class(r) {
            Ok(x) => x,
            Err(e) => {
                proof {
                    lemma_many_fail(s, p0, i as nat, n as nat, p, e, fixed_end(8));
                }
                return Err(e);
            },
        };
        proof {
            lemma_many_snoc(s, p0, v@, x, p, r.pos(), fixed_end(8), inner_class_is());
        }
        v.push(x);
        i = i + 1;
    }
    Ok(v)
}

/// Reads a `u16` count and that many items.
fn read_inner_classes(r: &mut JavaClassReader) -> (res: Result<Vec<InnerClassInfo>, ParseError>)
    requires
        old(r).valid(),
    ensures
        final(r).valid(),
        final(r).bytes() == old(r).bytes(),
        old(r).pos() <= final(r).pos(),
        match counted16_end(old(r).bytes(), old(r).pos(), fixed_end(8)) {
            Ok(q) => res matches Ok(v) && counted16_is(old(r).bytes(), old(r).pos(), v@, fixed_end(8), inner_class_is())
                && final(r).pos() == q,
            Err(e) => res == Err::<Vec<InnerClassInfo>, ParseError>(e),
        },
{
    let n = r.next16()?;
    read_n_inner_class(r, n as u32)
}

/// Reads `n` items one after another.
fn read_n_line_number(r: &mut JavaClassReader, n: u32) -> (res: Result<Vec<LineNumberTableEntry>, ParseError>)
    requires
        old(r).valid(),
    ensures
        final(r).valid(),
        final(r).bytes() == old(r).bytes(),
        old(r).pos() <= final(r).pos(),
        match many_end(old(r).bytes(), old(r).pos(), n as nat, fixed_end(4)) {
            Ok(q) => res matches Ok(v) && v@.len() == n && many_is(
                old(r).bytes(),
                old(r).pos(),
                v@,
                fixed_end(4),
                line_number_is(),
            ) && final(r).pos() == q,
            Err(e) => res == Err::<Vec<LineNumberTableEntry>, ParseError>(e),
        },
{
    let ghost s = r.bytes();
    let ghost p0 = r.pos();
    let mut v: Vec<LineNumberTableEntry> = Vec::new();
    let mut i: u32 = 0;
    while i < n
        invariant
            r.valid(),
            r.bytes() == s,
            s == old(r).bytes(),
            p0 == old(r).pos(),
            p0 <= r.pos(),
            i <= n,
            v@.len() == i,
            many_end(s, p0, i as nat, fixed_end(4)) == Ok::<int, ParseError>(r.pos()),
            many_is(s, p0, v@, fixed_end(4), line_number_is()),
        decreases n - i,
    {
        let ghost p = r.pos();
        let x = match read_line_number(r) {
            Ok(x) => x,
            Err(e) => {
                proof {
                    lemma_many_fail(s, p0, i as nat, n as nat, p, e, fixed_end(4));
                }
                return Err(e);
            },
        };
        proof {
            lemma_many_snoc(s, p0, v@, x, p, r.pos(), fixed_end(4), line_number_is());
        }
        v.push(x);
        i = i + 1;
    }
    Ok(v)
}

/// Reads a `u16` count and that many items.
fn read_line_numbers(r: &mut JavaClassReader) -> (res: Result<Vec<LineNumberTableEntry>, ParseError>)
    requires
        old(r).valid(),
    ensures
        final(r).valid(),
        final(r).bytes() == old(r).bytes(),
        old(r).pos() <= final(r).pos(),
        match counted16_end(old(r).bytes(), old(r).pos(), fixed_end(4)) {
            Ok(q) => res matches Ok(v) && counted16_is(old(r).bytes(), old(r).pos(), v@, fixed_end(4), line_number_is())
                && final(r).pos() == q,
            Err(e) => res == Err::<Vec<LineNumberTableEntry>, ParseError>(e),
        },
{
    let n = r.next16()?;
    read_n_line_number(r, n as u32)
}

/// Reads `n` items one after another.
fn read_n_local_variable(r: &mut JavaClassReader, n: u32) -> (res: Result<Vec<LocalVariableTableEntry>, ParseError>)
    requires
        old(r).valid(),
    ensures
        final(r).valid(),
        final(r).bytes() == old(r).bytes(),
        old(r).pos() <= final(r).pos(),
        match many_end(old(r).bytes(), old(r).pos(), n as nat, fixed_end(10)) {
            Ok(q) => res matches Ok(v) && v@.len() == n && many_is(
                old(r).bytes(),
                old(r).pos(),
                v@,
                fixed_end(10),
                local_variable_is(),
            ) && final(r).pos() == q,
            Err(e) => res == Err::<Vec<LocalVariableTableEntry>, ParseError>(e),
        },
{
    let ghost s = r.bytes();
    let ghost p0 = r.pos();
    let mut v: Vec<LocalVariableTableEntry> = Vec::new();
    let mut i: u32 = 0;
    while i < n
        invariant
            r.valid(),
            r.bytes() == s,
            s == old(r).bytes(),
            p0 == old(r).pos(),
            p0 <= r.pos(),
            i <= n,
            v@.len() == i,
            many_end(s, p0, i as nat, fixed_end(10)) == Ok::<int, ParseError>(r.pos()),
            many_is(s, p0, v@, fixed_end(10), local_variable_is()),
        decreases n - i,
    {
        let ghost p = r.pos();
        let x = match read_local_variable(r) {
            Ok(x) => x,
            Err(e) => {
                proof {
                    lemma_many_fail(s, p0, i as nat, n as nat, p, e, fixed_end(10));
                }
                return Err(e);
            },
        };
        proof {
            lemma_many_snoc(s, p0, v@, x, p, r.pos(), fixed_end(10), local_variable_is());
        }
        v.push(x);
        i = i + 1;
    }
    Ok(v)
}

/// Reads a `u16` count and that many items.
fn read_local_variables(r: &mut JavaClassReader) -> (res: Result<Vec<LocalVariableTableEntry>, ParseError>)
    requires
        old(r).valid(),
    ensures
        final(r).valid(),
        final(r).bytes() == old(r).bytes(),
        old(r).pos() <= final(r).pos(),
        match counted16_end(old(r).bytes(), old(r).pos(), fixed_end(10)) {
            Ok(q) => res matches Ok(v) && counted16_is(old(r).bytes(), old(r).pos(), v@, fixed_end(10), local_variable_is())
                && final(r).pos() == q,
            Err(e) => res == Err::<Vec<LocalVariableTableEntry>, ParseError>(e),
        },
{
    let n = r.next16()?;
    read_n_local_variable(r, n as u32)
}

/// Reads `n` items one after another.
fn read_n_local_variable_type(r: &mut JavaClassReader, n: u32) -> (res: Result<Vec<LocalVariableTypeTableEntry>, ParseError>)
    requires
        old(r).valid(),
    ensures
        final(r).valid(),
        final(r).bytes() == old(r).bytes(),
        old(r).pos() <= final(r).pos(),
        match many_end(old(r).bytes(), old(r).pos(), n as nat, fixed_end(10)) {
            Ok(q) => res matches Ok(v) && v@.len() == n && many_is(
                old(r).bytes(),
                old(r).pos(),
                v@,
                fixed_end(10),
                local_variable_type_is(),
            ) && final(r).pos() == q,
            Err(e) => res == Err::<Vec<LocalVariableTypeTableEntry>, ParseError>(e),
        },
{
    let ghost s = r.bytes();
    let ghost p0 = r.pos();
    let mut v: Vec<LocalVariableTypeTableEntry> = Vec::new();
    let mut i: u32 = 0;
    while i < n
        invariant
            r.valid(),
            r.bytes() == s,
            s == old(r).bytes(),
            p0 == old(r).pos(),
            p0 <= r.pos(),
            i <= n,
            v@.len() == i,
            many_end(s, p0, i as nat, fixed_end(10)) == Ok::<int, ParseError>(r.pos()),
            many_is(s, p0, v@, fixed_end(10), local_variable_type_is()),
        decreases n - i,
    {
        let ghost p = r.pos();
        let x = match read_local_variable_type(r) {
            Ok(x) => x,
            Err(e) => {
                proof {
                    lemma_many_fail(s, p0, i as nat, n as nat, p, e, fixed_end(10));
                }
                return Err(e);
            },
        };
        proof {
            lemma_many_snoc(s, p0, v@, x, p, r.pos(), fixed_end(10), local_variable_type_is());
        }
        v.push(x);
        i = i + 1;
    }
    Ok(v)
}

/// Reads a `u16` count and that many items.
fn read_local_variable_types(r: &mut JavaClassReader) -> (res: Result<Vec<LocalVariableTypeTableEntry>, ParseError>)
    requires
        old(r).valid(),
    ensures
        final(r).valid(),
        final(r).bytes() == old(r).bytes(),
        old(r).pos() <= final(r).pos(),
        match counted16_end(old(r).bytes(), old(r).pos(), fixed_end(10)) {
            Ok(q) => res matches Ok(v) && counted16_is(old(r).bytes(), old(r).pos(), v@, fixed_end(10), local_variable_type_is())
                && final(r).pos() == q,
            Err(e) => res == Err::<Vec<LocalVariableTypeTableEntry>, ParseError>(e),
        },
{
    let n = r.next16()?;
    read_n_local_variable_type(r, n as u32)
}

/// Reads `n` items one after another.
fn read_n_method_parameter(r: &mut JavaClassReader, n: u32) -> (res: Result<Vec<MethodParameterEntry>, ParseError>)
    requires
        old(r).valid(),
    ensures
        final(r).valid(),
        final(r).bytes() == old(r).bytes(),
        old(r).pos() <= final(r).pos(),
        match many_end(old(r).bytes(), old(r).pos(), n as nat, fixed_end(4)) {
            Ok(q) => res matches Ok(v) && v@.len() == n && many_is(
                old(r).bytes(),
                old(r).pos(),
                v@,
                fixed_end(4),
                method_parameter_is(),
            ) && final(r).pos() == q,
            Err(e) => res == Err::<Vec<MethodParameterEntry>, ParseError>(e),
        },
{
    let ghost s = r.bytes();
    let ghost p0 = r.pos();
    let mut v: Vec<MethodParameterEntry> = Vec::new();
    let mut i: u32 = 0;
    while i < n
        invariant
            r.valid(),
            r.bytes() == s,
            s == old(r).bytes(),
            p0 == old(r).pos(),
            p0 <= r.pos(),
            i <= n,
            v@.len() == i,
            many_end(s, p0, i as nat, fixed_end(4)) == Ok::<int, ParseError>(r.pos()),
            many_is(s, p0, v@, fixed_end(4), method_parameter_is()),
        decreases n - i,
    {
        let ghost p = r.pos();
        let x = match read_method_parameter(r) {
            Ok(x) => x,
            Err(e) => {
                proof {
                    lemma_many_fail(s, p0, i as nat, n as nat, p, e, fixed_end(4));
                }
                return Err(e);
            },
        };
        proof {
            lemma_many_snoc(s, p0, v@, x, p, r.pos(), fixed_end(4), method_parameter_is());
        }
        v.push(x);
        i = i + 1;
    }
    Ok(v)
}

/// Reads a `u16` count and that many items.
fn read_method_parameters(r: &mut JavaClassReader) -> (res: Result<Vec<MethodParameterEntry>, ParseError>)
    requires
        old(r).valid(),
    ensures
        final(r).valid(),
        final(r).bytes() == old(r).bytes(),
        old(r).pos() <= final(r).pos(),
        match counted16_end(old(r).bytes(), old(r).pos(), fixed_end(4)) {
            Ok(q) => res matches Ok(v) && counted16_is(old(r).bytes(), old(r).pos(), v@, fixed_end(4), method_parameter_is())
                && final(r).pos() == q,
            Err(e) => res == Err::<Vec<MethodParameterEntry>, ParseError>(e),
        },
{
    let n = r.next16()?;
    read_n_method_parameter(r, n as u32)
}

/// Reads `n` items one after another.
fn read_n_type_path_entry(r: &mut JavaClassReader, n: u32) -> (res: Result<Vec<TypePathEntry>, ParseError>)
    requires
        old(r).valid(),
    ensures
        final(r).valid(),
        final(r).bytes() == old(r).bytes(),
        old(r).pos() <= final(r).pos(),
        match many_end(old(r).bytes(), old(r).pos(), n as nat, fixed_end(2)) {
            Ok(q) => res matches Ok(v) && v@.len() == n && many_is(
                old(r).bytes(),
                old(r).pos(),
                v@,
                fixed_end(2),
                type_path_entry_is(),
            ) && final(r).pos() == q,
            Err(e) => res == Err::<Vec<TypePathEntry>, ParseError>(e),
        },
{
    let ghost s = r.bytes();
    let ghost p0 = r.pos();
    let mut v: Vec<TypePathEntry> = Vec::new();
    let mut i: u32 = 0;
    while i < n
        invariant
            r.valid(),
            r.bytes() == s,
            s == old(r).bytes(),
            p0 == old(r).pos(),
            p0 <= r.pos(),
            i <= n,
            v@.len() == i,
            many_end(s, p0, i as nat, fixed_end(2)) == Ok::<int, ParseError>(r.pos()),
            many_is(s, p0, v@, fixed_end(2), type_path_entry_is()),
        decreases n - i,
    {
        let ghost p = r.pos();
        let x = match read_type_path_entry(r) {
            Ok(x) => x,
            Err(e) => {
                proof {
                    lemma_many_fail(s, p0, i as nat, n as nat, p, e, fixed_end(2));
                }
                return Err(e);
            },
        };
        proof {
            lemma_many_snoc(s, p0, v@, x, p, r.pos(), fixed_end(2), type_path_entry_is());
        }
        v.push(x);
        i = i + 1;
    }
    Ok(v)
}

/// Reads `n` items one after another.
fn read_n_local_var_target(r: &mut JavaClassReader, n: u32) -> (res: Result<Vec<LocalVarTagetTableEntry>, ParseError>)
    requires
        old(r).valid(),
    ensures
        final(r).valid(),
        final(r).bytes() == old(r).bytes(),
        old(r).pos() <= final(r).pos(),
        match many_end(old(r).bytes(), old(r).pos(), n as nat, fixed_end(6)) {
            Ok(q) => res matches Ok(v) && v@.len() == n && many_is(
                old(r).bytes(),
                old(r).pos(),
                v@,
                fixed_end(6),
                local_var_target_is(),
            ) && final(r).pos() == q,
            Err(e) => res == Err::<Vec<LocalVarTagetTableEntry>, ParseError>(e),
        },
{
    let ghost s = r.bytes();
    let ghost p0 = r.pos();
    let mut v: Vec<LocalVarTagetTableEntry> = Vec::new();
    let mut i: u32 = 0;
    while i < n
        invariant
            r.valid(),
            r.bytes() == s,
            s == old(r).bytes(),
            p0 == old(r).pos(),
            p0 <= r.pos(),
            i <= n,
            v@.len() == i,
            many_end(s, p0, i as nat, fixed_end(6)) == Ok::<int, ParseError>(r.pos()),
            many_is(s, p0, v@, fixed_end(6), local_var_target_is()),
        decreases n - i,
    {
        let ghost p = r.pos();
        let x = match read_local_var_target(r) {
            Ok(x) => x,
            Err(e) => {
                proof {
                    lemma_many_fail(s, p0, i as nat, n as nat, p, e, fixed_end(6));
                }
                return Err(e);
            },
        };
        proof {
            lemma_many_snoc(s, p0, v@, x, p, r.pos(), fixed_end(6), local_var_target_is());
        }
        v.push(x);
        i = i + 1;
    }
    Ok(v)
}

/// Reads `n` items one after another.
fn read_n_vti(r: &mut JavaClassReader, n: u32) -> (res: Result<Vec<VerificationTypeInfo>, ParseError>)
    requires
        old(r).valid(),
    ensures
        final(r).valid(),
        final(r).bytes() == old(r).bytes(),
        old(r).pos() <= final(r).pos(),
        match many_end(old(r).bytes(), old(r).pos(), n as nat, vti_end_fn()) {
            Ok(q) => res matches Ok(v) && v@.len() == n && many_is(
                old(r).bytes(),
                old(r).pos(),
                v@,
                vti_end_fn(),
                vti_is_fn(),
            ) && final(r).pos() == q,
            Err(e) => res == Err::<Vec<VerificationTypeInfo>, ParseError>(e),
        },
{
    let ghost s = r.bytes();
    let ghost p0 = r.pos();
    let mut v: Vec<VerificationTypeInfo> = Vec::new();
    let mut i: u32 = 0;
    while i < n
        invariant
            r.valid(),
            r.bytes() == s,
            s == old(r).bytes(),
            p0 == old(r).pos(),
            p0 <= r.pos(),
            i <= n,
            v@.len() == i,
            many_end(s, p0, i as nat, vti_end_fn()) == Ok::<int, ParseError>(r.pos()),
            many_is(s, p0, v@, vti_end_fn(), vti_is_fn()),
        decreases n - i,
    {
        let ghost p = r.pos();
        let x = match read_verification_type_info(r) {
            Ok(x) => x,
            Err(e) => {
                proof {
                    lemma_many_fail(s, p0, i as nat, n as nat, p, e, vti_end_fn());
                }
                return Err(e);
            },
        };
        proof {
            lemma_many_snoc(s, p0, v@, x, p, r.pos(), vti_end_fn(), vti_is_fn());
        }
        v.push(x);
        i = i + 1;
    }
    Ok(v)
}

/// Reads a `u16` count and that many items.
fn read_counted_vti(r: &mut JavaClassReader) -> (res: Result<Vec<VerificationTypeInfo>, ParseError>)
    requires
        old(r).valid(),
    ensures
        final(r).valid(),
        final(r).bytes() == old(r).bytes(),
        old(r).pos() <= final(r).pos(),
        match counted16_end(old(r).bytes(), old(r).pos(), vti_end_fn()) {
            Ok(q) => res matches Ok(v) && counted16_is(old(r).bytes(), old(r).pos(), v@, vti_end_fn(), vti_is_fn())
                && final(r).pos() == q,
            Err(e) => res == Err::<Vec<VerificationTypeInfo>, ParseError>(e),
        },
{
    let n = r.next16()?;
    read_n_vti(r, n as u32)
}

/// Reads `n` items one after another.
fn read_n_frame(r: &mut JavaClassReader, n: u32) -> (res: Result<Vec<StackMapFrame>, ParseError>)
    requires
        old(r).valid(),
    ensures
        final(r).valid(),
        final(r).bytes() == old(r).bytes(),
        old(r).pos() <= final(r).pos(),
        match many_end(old(r).bytes(), old(r).pos(), n as nat, frame_end_fn()) {
            Ok(q) => res matches Ok(v) && v@.len() == n && many_is(
                old(r).bytes(),
                old(r).pos(),
                v@,
                frame_end_fn(),
                frame_is_fn(),
            ) && final(r).pos() == q,
            Err(e) => res == Err::<Vec<StackMapFrame>, ParseError>(e),
        },
{
    let ghost s = r.bytes();
    let ghost p0 = r.pos();
    let mut v: Vec<StackMapFrame> = Vec::new();
    let mut i: u32 = 0;
    while i < n
        invariant
            r.valid(),
            r.bytes() == s,
            s == old(r).bytes(),
            p0 == old(r).pos(),
            p0 <= r.pos(),
            i <= n,
            v@.len() == i,
            many_end(s, p0, i as nat, frame_end_fn()) == Ok::<int, ParseError>(r.pos()),
            many_is(s, p0, v@, frame_end_fn(), frame_is_fn()),
        decreases n - i,
    {
        let ghost p = r.pos();
        let x = match read_stack_map_frame(r) {
            Ok(x) => x,
            Err(e) => {
                proof {
                    lemma_many_fail(s, p0, i as nat, n as nat, p, e, frame_end_fn());
                }
                return Err(e);
            },
        };
        proof {
            lemma_many_snoc(s, p0, v@, x, p, r.pos(), frame_end_fn(), frame_is_fn());
        }
        v.push(x);
        i = i + 1;
    }
    Ok(v)
}

/// Reads a `u16` count and that many items.
fn read_stack_map_frames(r: &mut JavaClassReader) -> (res: Result<Vec<StackMapFrame>, ParseError>)
    requires
        old(r).valid(),
    ensures
        final(r).valid(),
        final(r).bytes() == old(r).bytes(),
        old(r).pos() <= final(r).pos(),
        match counted16_end(old(r).bytes(), old(r).pos(), frame_end_fn()) {
            Ok(q) => res matches Ok(v) && counted16_is(old(r).bytes(), old(r).pos(), v@, frame_end_fn(), frame_is_fn())
                && final(r).pos() == q,
            Err(e) => res == Err::<Vec<StackMapFrame>, ParseError>(e),
        },
{
    let n = r.next16()?;
    read_n_frame(r, n as u32)
}

/// Reads `n` items one after another.
fn read_n_annotation(r: &mut JavaClassReader, n: u32) -> (res: Result<Vec<Annotation>, ParseError>)
    requires
        old(r).valid(),
    ensures
        final(r).valid(),
        final(r).bytes() == old(r).bytes(),
        old(r).pos() <= final(r).pos(),
        match many_end(old(r).bytes(), old(r).pos(), n as nat, ann_end_fn()) {
            Ok(q) => res matches Ok(v) && v@.len() == n && many_is(
                old(r).bytes(),
                old(r).pos(),
                v@,
                ann_end_fn(),
                ann_is_fn(),
            ) && final(r).pos() == q,
            Err(e) => res == Err::<Vec<Annotation>, ParseError>(e),
        },
{
    let ghost s = r.bytes();
    let ghost p0 = r.pos();
    let mut v: Vec<Annotation> = Vec::new();
    let mut i: u32 = 0;
    while i < n
        invariant
            r.valid(),
            r.bytes() == s,
            s == old(r).bytes(),
            p0 == old(r).pos(),
            p0 <= r.pos(),
            i <= n,
            v@.len() == i,
            many_end(s, p0, i as nat, ann_end_fn()) == Ok::<int, ParseError>(r.pos()),
            many_is(s, p0, v@, ann_end_fn(), ann_is_fn()),
        decreases n - i,
    {
        let ghost p = r.pos();
        let x = match read_annotation(r) {
            Ok(x) => x,
            Err(e) => {
                proof {
                    lemma_many_fail(s, p0, i as nat, n as nat, p, e, ann_end_fn());
                }
                return Err(e);
            },
        };
        proof {
            lemma_many_snoc(s, p0, v@, x, p, r.pos(), ann_end_fn(), ann_is_fn());
        }
        v.push(x);
        i = i + 1;
    }
    Ok(v)
}

/// Reads a `u16` count and that many items.
fn read_annotations(r: &mut JavaClassReader) -> (res: Result<Vec<Annotation>, ParseError>)
    requires
        old(r).valid(),
    ensures
        final(r).valid(),
        final(r).bytes() == old(r).bytes(),
        old(r).pos() <= final(r).pos(),
        match counted16_end(old(r).bytes(), old(r).pos(), ann_end_fn()) {
            Ok(q) => res matches Ok(v) && counted16_is(old(r).bytes(), old(r).pos(), v@, ann_end_fn(), ann_is_fn())
                && final(r).pos() == q,
            Err(e) => res == Err::<Vec<Annotation>, ParseError>(e),
        },
{
    let n = r.next16()?;
    read_n_annotation(r, n as u32)
}

/// Reads `n` items one after another.
fn read_n_annotations(r: &mut JavaClassReader, n: u32) -> (res: Result<Vec<Vec<Annotation>>, ParseError>)
    requires
        old(r).valid(),
    ensures
        final(r).valid(),
        final(r).bytes() == old(r).bytes(),
        old(r).pos() <= final(r).pos(),
        match many_end(old(r).bytes(), old(r).pos(), n as nat, annotations_end_fn()) {
            Ok(q) => res matches Ok(v) && v@.len() == n && many_is(
                old(r).bytes(),
                old(r).pos(),
                v@,
                annotations_end_fn(),
                annotations_is_fn(),
            ) && final(r).pos() == q,
            Err(e) => res == Err::<Vec<Vec<Annotation>>, ParseError>(e),
        },
{
    let ghost s = r.bytes();
    let ghost p0 = r.pos();
    let mut v: Vec<Vec<Annotation>> = Vec::new();
    let mut i: u32 = 0;
    while i < n
        invariant
            r.valid(),
            r.bytes() == s,
            s == old(r).bytes(),
            p0 == old(r).pos(),
            p0 <= r.pos(),
            i <= n,
            v@.len() == i,
            many_end(s, p0, i as nat, annotations_end_fn()) == Ok::<int, ParseError>(r.pos()),
            many_is(s, p0, v@, annotations_end_fn(), annotations_is_fn()),
        decreases n - i,
    {
        let ghost p = r.pos();
        let x = match read_annotations(r) {
            Ok(x) => x,
            Err(e) => {
                proof {
                    lemma_many_fail(s, p0, i as nat, n as nat, p, e, annotations_end_fn());
                }
                return Err(e);
            },
        };
        proof {
            lemma_many_snoc(s, p0, v@, x, p, r.pos(), annotations_end_fn(), annotations_is_fn());
        }
        v.push(x);
        i = i + 1;
    }
    Ok(v)
}

/// Reads `n` items one after another.
fn read_n_type_annotation(r: &mut JavaClassReader, n: u32) -> (res: Result<Vec<TypeAnnotation>, ParseError>)
    requires
        old(r).valid(),
    ensures
        final(r).valid(),
        final(r).bytes() == old(r).bytes(),
        old(r).pos() <= final(r).pos(),
        match many_end(old(r).bytes(), old(r).pos(), n as nat, type_ann_end_fn()) {
            Ok(q) => res matches Ok(v) && v@.len() == n && many_is(
                old(r).bytes(),
                old(r).pos(),
                v@,
                type_ann_end_fn(),
                type_ann_is_fn(),
            ) && final(r).pos() == q,
            Err(e) => res == Err::<Vec<TypeAnnotation>, ParseError>(e),
        },
{
    let ghost s = r.bytes();
    let ghost p0 = r.pos();
    let mut v: Vec<TypeAnnotation> = Vec::new();
    let mut i: u32 = 0;
    while i < n
        invariant
            r.valid(),
            r.bytes() == s,
            s == old(r).bytes(),
            p0 == old(r).pos(),
            p0 <= r.pos(),
            i <= n,
            v@.len() == i,
            many_end(s, p0, i as nat, type_ann_end_fn()) == Ok::<int, ParseError>(r.pos()),
            many_is(s, p0, v@, type_ann_end_fn(), type_ann_is_fn()),
        decreases n - i,
    {
        let ghost p = r.pos();
        let x = match read_type_annotation(r) {
            Ok(x) => x,
            Err(e) => {
                proof {
                    lemma_many_fail(s, p0, i as nat, n as nat, p, e, type_ann_end_fn());
                }
                return Err(e);
            },
        };
        proof {
            lemma_many_snoc(s, p0, v@, x, p, r.pos(), type_ann_end_fn(), type_ann_is_fn());
        }
        v.push(x);
        i = i + 1;
    }
    Ok(v)
}

/// Reads a `u16` count and that many items.
fn read_type_annotations(r: &mut JavaClassReader) -> (res: Result<Vec<TypeAnnotation>, ParseError>)
    requires
        old(r).valid(),
    ensures
        final(r).valid(),
        final(r).bytes() == old(r).bytes(),
        old(r).pos() <= final(r).pos(),
        match counted16_end(old(r).bytes(), old(r).pos(), type_ann_end_fn()) {
            Ok(q) => res matches Ok(v) && counted16_is(old(r).bytes(), old(r).pos(), v@, type_ann_end_fn(), type_ann_is_fn())
                && final(r).pos() == q,
            Err(e) => res == Err::<Vec<TypeAnnotation>, ParseError>(e),
        },
{
    let n = r.next16()?;
    read_n_type_annotation(r, n as u32)
}

/// Reads `n` items one after another.
fn read_n_bootstrap(r: &mut JavaClassReader, n: u32) -> (res: Result<Vec<BootstrapMethodsEntry>, ParseError>)
    requires
        old(r).valid(),
    ensures
        final(r).valid(),
        final(r).bytes() == old(r).bytes(),
        old(r).pos() <= final(r).pos(),
        match many_end(old(r).bytes(), old(r).pos(), n as nat, bootstrap_end_fn()) {
            Ok(q) => res matches Ok(v) && v@.len() == n && many_is(
                old(r).bytes(),
                old(r).pos(),
                v@,
                bootstrap_end_fn(),
                bootstrap_is_fn(),
            ) && final(r).pos() == q,
            Err(e) => res == Err::<Vec<BootstrapMethodsEntry>, ParseError>(e),
        },
{
    let ghost s = r.bytes();
    let ghost p0 = r.pos();
    let mut v: Vec<BootstrapMethodsEntry> = Vec::new();
    let mut i: u32 = 0;
    while i < n
        invariant
            r.valid(),
            r.bytes() == s,
            s == old(r).bytes(),
            p0 == old(r).pos(),
            p0 <= r.pos(),
            i <= n,
            v@.len() == i,
            many_end(s, p0, i as nat, bootstrap_end_fn()) == Ok::<int, ParseError>(r.pos()),
            many_is(s, p0, v@, bootstrap_end_fn(), bootstrap_is_fn()),
        decreases n - i,
    {
        let ghost p = r.pos();
        let x = match read_bootstrap_entry(r) {
            Ok(x) => x,
            Err(e) => {
                proof {
                    lemma_many_fail(s, p0, i as nat, n as nat, p, e, bootstrap_end_fn());
                }
                return Err(e);
            },
        };
        proof {
            lemma_many_snoc(s, p0, v@, x, p, r.pos(), bootstrap_end_fn(), bootstrap_is_fn());
        }
        v.push(x);
        i = i + 1;
    }
    Ok(v)
}

/// Reads a `u16` count and that many items.
fn read_bootstrap_methods(r: &mut JavaClassReader) -> (res: Result<Vec<BootstrapMethodsEntry>, ParseError>)
    requires
        old(r).valid(),
    ensures
        final(r).valid(),
        final(r).bytes() == old(r).bytes(),
        old(r).pos() <= final(r).pos(),
        match counted16_end(old(r).bytes(), old(r).pos(), bootstrap_end_fn()) {
            Ok(q) => res matches Ok(v) && counted16_is(old(r).bytes(), old(r).pos(), v@, bootstrap_end_fn(), bootstrap_is_fn())
                && final(r).pos() == q,
            Err(e) => res == Err::<Vec<BootstrapMethodsEntry>, ParseError>(e),
        },
{
    let n = r.next16()?;
    read_n_bootstrap(r, n as u32)
}

/// Reads the instructions of a method body of `code_len` bytes that starts where the reader is.
fn read_code(r: &mut JavaClassReader, code_len: u32) -> (res: Result<Vec<Opcode>, ParseError>)
    requires
        old(r).valid(),
    ensures
        final(r).valid(),
        final(r).bytes() == old(r).bytes(),
        old(r).pos() <= final(r).pos(),
        match code_end(old(r).bytes(), old(r).pos() as u32, old(r).pos(), code_len) {
            Ok(q) => res matches Ok(v) && code_is(
                old(r).bytes(),
                old(r).pos() as u32,
                old(r).pos(),
                code_len,
                v@,
            ) && final(r).pos() == q,
            Err(e) => res == Err::<Vec<Opcode>, ParseError>(e),
        },
{
    let ghost s = r.bytes();
    let start = r.dist();
    let ghost p0 = r.pos();
    let mut ans: Vec<Opcode> = Vec::new();
    while r.dist() - start < code_len
        invariant
            r.valid(),
            r.bytes() == s,
            s == old(r).bytes(),
            p0 == old(r).pos(),
            start == p0,
            p0 <= r.pos(),
            code_walk(s, start, p0, code_len, ans@) == Some(r.pos()),
        decreases s.len() - r.pos(),
    {
        let ghost p = r.pos();
        let op = match to_opcode(r, start) {
            Some(op) => op,
            None => {
                proof {
                    lemma_code_walk_fail(s, start, p0, code_len, ans@, p);
                }
                return Err(ParseError::InvalidBytecode);
            },
        };
        proof {
            lemma_code_walk_snoc(s, start, p0, code_len, ans@, op, p, r.pos());
        }
        ans.push(op);
    }
    proof {
        lemma_code_walk_done(s, start, p0, code_len, ans@, r.pos());
    }
    Ok(ans)
}

/// Whether `name` holds the characters of `lit`.
fn name_is(name: &Vec<char>, lit: &str) -> (b: bool)
    ensures
        b == (name@ == lit@),
{
    let l = chars_of(lit);
    chars_eq(name, &l)
}

/// The attribute that has the name `name`, if any.
pub fn attribute_kind_of(name: &Vec<char>) -> (k: Option<AttrKind>)
    ensures
        k == attr_kind_of(name@),
{
    if name_is(name, "ConstantValue") {
        Some(AttrKind::ConstantValue)
    } else if name_is(name, "Code") {
        Some(AttrKind::Code)
    } else if name_is(name, "StackMapTable") {
        Some(AttrKind::StackMapTable)
    } else if name_is(name, "Exceptions") {
        Some(AttrKind::Exceptions)
    } else if name_is(name, "InnerClasses") {
        Some(AttrKind::InnerClasses)
    } else if name_is(name, "EnclosingMethod") {
        Some(AttrKind::EnclosingMethod)
    } else if name_is(name, "Synthetic") {
        Some(AttrKind::Synthetic)
    } else if name_is(name, "Signature") {
        Some(AttrKind::Signature)
    } else if name_is(name, "SourceFile") {
        Some(AttrKind::SourceFile)
    } else if name_is(name, "SourceDebugExtension") {
        Some(AttrKind::SourceDebugExtension)
    } else if name_is(name, "LineNumberTable") {
        Some(AttrKind::LineNumberTable)
    } else if name_is(name, "LocalVariableTable") {
        Some(AttrKind::LocalVariableTable)
    } else if name_is(name, "LocalVariableTypeTable") {
        Some(AttrKind::LocalVariableTypeTable)
    } else if name_is(name, "Deprecated") {
        Some(AttrKind::Deprecated)
    } else if name_is(name, "RuntimeVisibleAnnotations") {
        Some(AttrKind::RuntimeVisibleAnnotations)
    } else if name_is(name, "RuntimeInvisibleAnnotations") {
        Some(AttrKind::RuntimeInvisibleAnnotations)
    } else if name_is(name, "RuntimeVisibleParameterAnnotations") {
        Some(AttrKind::RuntimeVisibleParameterAnnotations)
    } else if name_is(name, "RuntimeInvisibleParameterAnnotations") {
        Some(AttrKind::RuntimeInvisibleParameterAnnotations)
    } else if name_is(name, "RuntimeVisibleTypeAnnotations") {
        Some(AttrKind::RuntimeVisibleTypeAnnotations)
    } else if name_is(name, "RuntimeInvisibleTypeAnnotations") {
        Some(AttrKind::RuntimeInvisibleTypeAnnotations)
    } else if name_is(name, "AnnotationDefault") {
        Some(AttrKind::AnnotationDefault)
    } else if name_is(name, "BootstrapMethods") {
        Some(AttrKind::BootstrapMethods)
    } else if name_is(name, "MethodParameters") {
        Some(AttrKind::MethodParameters)
    } else {
        None
    }
}

/// The attribute whose name is the constant at `index` of `cp`, or why there is none.
pub fn attribute_kind(cp: &ConstantPool, index: u16) -> (k: Result<AttrKind, ParseError>)
    ensures
        k == attr_kind(cp_names(cp@), index),
{
    proof {
        assert(cp_names(cp@).len() == cp@.len());
    }
    match cp.get(index) {
        None => Err(ParseError::BadConstantPoolIndex),
        Some(CPInfo::Utf8 { bytes, .. }) => {
            if !is_valid(bytes.as_slice()) {
                Err(ParseError::InvalidAttributeName)
            } else {
                let name = decode_chars(bytes.as_slice());
                match attribute_kind_of(&name) {
                    Some(k) => Ok(k),
                    None => Err(ParseError::InvalidAttributeName),
                }
            }
        },
        Some(_) => Err(ParseError::AttributeNameNotUtf8),
    }
}

/// Reads one attribute, whose name it looks up in `cp`.
#[verifier::rlimit(100)]
pub fn read_attribute(r: &mut JavaClassReader, cp: &ConstantPool) -> (res: Result<
    Attribute,
    ParseError,
>)
    requires
        old(r).valid(),
    ensures
        final(r).valid(),
        final(r).bytes() == old(r).bytes(),
        old(r).pos() <= final(r).pos(),
        match attr_end(old(r).bytes(), old(r).pos(), cp_names(cp@)) {
            Ok(q) => res matches Ok(x) && attr_is(old(r).bytes(), old(r).pos(), cp_names(cp@), x)
                && final(r).pos() == q,
            Err(e) => res == Err::<Attribute, ParseError>(e),
        },
        res is Ok ==> old(r).pos() < final(r).pos(),
    decreases old(r).bytes().len() - old(r).pos(), 0int,
{
    let name_index = r.next16()?;
    let attribute_length = r.next32()?;
    let kind = attribute_kind(cp, name_index)?;
    let attr = match kind {
        AttrKind::ConstantValue => Attribute::ConstantValue { constantvalue_index: r.next16()? },
        AttrKind::Code => {
            let max_stack = r.next16()?;
            let max_locals = r.next16()?;
            let code_len = r.next32()?;
            let code = read_code(r, code_len)?;
            let exception_table = read_exception_table(r)?;
            let attributes = read_attributes(r, cp)?;
            Attribute::Code { max_stack, max_locals, code, exception_table, attributes }
        },
        AttrKind::StackMapTable => Attribute::StackMapTable { entries: read_stack_map_frames(r)? },
        AttrKind::Exceptions => Attribute::Exceptions {
            exception_index_table: read_counted_u16(r)?,
        },
        AttrKind::InnerClasses => Attribute::InnerClasses { classes: read_inner_classes(r)? },
        AttrKind::EnclosingMethod => {
            let class_index = r.next16()?;
            let method_index = r.next16()?;
            Attribute::EnclosingMethod { class_index, method_index }
        },
        AttrKind::Synthetic => Attribute::Synthetic,
        AttrKind::Signature => Attribute::Signature { signature_index: r.next16()? },
        AttrKind::SourceFile => Attribute::SourceFile { sourcefile_index: r.next16()? },
        AttrKind::SourceDebugExtension => {
            let debug_extension = read_n_u8(r, attribute_length)?;
            Attribute::SourceDebugExtenson { debug_extension }
        },
        AttrKind::LineNumberTable => Attribute::LineNumberTable {
            line_number_table: read_line_numbers(r)?,
        },
        AttrKind::LocalVariableTable => Attribute::LocalVariableTable {
            local_variable_table: read_local_variables(r)?,
        },
        AttrKind::LocalVariableTypeTable => Attribute::LocalVariableTypeTable {
            local_variable_type_table: read_local_variable_types(r)?,
        },
        AttrKind::Deprecated => Attribute::Deprecated,
        AttrKind::RuntimeVisibleAnnotations => Attribute::RuntimeVisibleAnnotations {
            annotations: read_annotations(r)?,
        },
        AttrKind::RuntimeInvisibleAnnotations => Attribute::RuntimeInvisibleAnnotations {
            annotations: read_annotations(r)?,
        },
        AttrKind::RuntimeVisibleParameterAnnotations => {
            let num = r.next8()?;
            let parameter_annotations = read_n_annotations(r, num as u32)?;
            Attribute::RuntimeVisibleParameterAnnotations { parameter_annotations }
        },
        AttrKind::RuntimeInvisibleParameterAnnotations => {
            let num = r.next8()?;
            let parameter_annotations = read_n_annotations(r, num as u32)?;
            Attribute::RuntimeInvisibleParameterAnnotations { parameter_annotations }
        },
        AttrKind::RuntimeVisibleTypeAnnotations => Attribute::RuntimeVisibleTypeAnnotations {
            annotations: read_type_annotations(r)?,
        },
        AttrKind::RuntimeInvisibleTypeAnnotations => Attribute::RuntimeInvisibleTypeAnnotations {
            annotations: read_type_annotations(r)?,
        },
        AttrKind::AnnotationDefault => Attribute::AnnotationDefault {
            default_value: read_element_value(r)?,
        },
        AttrKind::BootstrapMethods => Attribute::BootstrapMethods {
            bootstrap_methods: read_bootstrap_methods(r)?,
        },
        AttrKind::MethodParameters => Attribute::MethodParameters {
            parameters: read_method_parameters(r)?,
        },
    };
    Ok(attr)
}

/// Where a `u16` count of attributes and the attributes at `s[p]` end.
pub open spec fn attrs_end(s: Seq<u8>, p: int, cp: Seq<Option<Seq<u8>>>) -> Result<int, ParseError> {
    if p + 2 > s.len() {
        Err(ParseError::EndOfFile)
    } else {
        attr_list_end(s, p + 2, be16(s, p) as int, cp)
    }
}

/// `v` are the attributes that follow the `u16` count at `s[p]`.
pub open spec fn attrs_is(s: Seq<u8>, p: int, cp: Seq<Option<Seq<u8>>>, v: Seq<Attribute>) -> bool {
    v.len() == be16(s, p) && attr_list_is(s, p + 2, v, cp)
}

/// reads in the attributes of an arbitrary class file element
#[verifier::rlimit(100)]
pub fn read_attributes(r: &mut JavaClassReader, cp: &ConstantPool) -> (res: Result<
    Vec<Attribute>,
    ParseError,
>)
    requires
        old(r).valid(),
    ensures
        final(r).valid(),
        final(r).bytes() == old(r).bytes(),
        old(r).pos() <= final(r).pos(),
        match attrs_end(old(r).bytes(), old(r).pos(), cp_names(cp@)) {
            Ok(q) => res matches Ok(v) && attrs_is(old(r).bytes(), old(r).pos(), cp_names(cp@), v@)
                && final(r).pos() == q,
            Err(e) => res == Err::<Vec<Attribute>, ParseError>(e),
        },
    decreases old(r).bytes().len() - old(r).pos(), 1int,
{
    let ghost s = r.bytes();
    let num = r.next16()?;
    let ghost p0 = r.pos();
    let mut ans: Vec<Attribute> = Vec::new();
    let mut i: u16 = 0;
    while i < num
        invariant
            r.valid(),
            r.bytes() == s,
            s == old(r).bytes(),
            p0 == old(r).pos() + 2,
            p0 <= r.pos(),
            p0 <= s.len(),
            num == be16(s, old(r).pos()),
            i <= num,
            ans@.len() == i,
            attr_list_end(s, p0, i as int, cp_names(cp@)) == Ok::<int, ParseError>(r.pos()),
            attr_list_is(s, p0, ans@, cp_names(cp@)),
        decreases num - i,
    {
        let ghost p = r.pos();
        let x = match read_attribute(r, cp) {
            Ok(x) => x,
            Err(e) => {
                proof {
                    lemma_attr_list_fail(s, p0, i as int, num as int, p, e, cp_names(cp@));
                }
                return Err(e);
            },
        };
        proof {
            lemma_attr_list_snoc(s, p0, ans@, x, p, r.pos(), cp_names(cp@));
        }
        ans.push(x);
        i = i + 1;
    }
    Ok(ans)
}

} // verus!
