//! What the attribute grammar of a class file reads from a byte string.
//!
//! For each item, an `*_end` function says where the item read from a position ends (or why
//! it cannot be read), and an `*_is` function says whether a value is the item read there.
use vstd::prelude::*;
use crate::attributes::{
    Annotation, Attribute, BootstrapMethodsEntry, ElementValue, ElementValuePair,
    ExceptionTableEntry, InnerClassInfo, LineNumberTableEntry, LocalVarTagetTableEntry,
    LocalVariableTableEntry, LocalVariableTypeTableEntry, MethodParameterEntry, StackMapFrame,
    TargetInfo, TypeAnnotation, TypePathEntry, VerificationTypeInfo,
};
use crate::bytes::{be16, be32};
use crate::cp_info::CPInfo;
use crate::error::ParseError;
use crate::grammar::{many_end, many_is};
use crate::mutf8::{modified_utf8_chars, modified_utf8_valid};
use crate::opcodes::{opcode_end, opcode_is, Opcode};

verus! {

/// An item of `n` bytes.
pub open spec fn fixed_end(n: int) -> spec_fn(Seq<u8>, int) -> Result<int, ParseError> {
    |s: Seq<u8>, p: int|
        if p + n <= s.len() {
            Ok(p + n)
        } else {
            Err(ParseError::EndOfFile)
        }
}

/// An item that starts with a `u16` count of the items `f` reads.
pub open spec fn counted16_end(
    s: Seq<u8>,
    p: int,
    f: spec_fn(Seq<u8>, int) -> Result<int, ParseError>,
) -> Result<int, ParseError> {
    if p + 2 > s.len() {
        Err(ParseError::EndOfFile)
    } else {
        many_end(s, p + 2, be16(s, p) as nat, f)
    }
}

/// `v` are the items that follow the `u16` count at `s[p]`.
pub open spec fn counted16_is<T>(
    s: Seq<u8>,
    p: int,
    v: Seq<T>,
    f: spec_fn(Seq<u8>, int) -> Result<int, ParseError>,
    g: spec_fn(Seq<u8>, int, T) -> bool,
) -> bool {
    v.len() == be16(s, p) && many_is(s, p + 2, v, f, g)
}

pub open spec fn u16_is() -> spec_fn(Seq<u8>, int, u16) -> bool {
    |s: Seq<u8>, p: int, x: u16| x == be16(s, p)
}

pub open spec fn u8_is() -> spec_fn(Seq<u8>, int, u8) -> bool {
    |s: Seq<u8>, p: int, x: u8| x == s[p]
}

pub open spec fn exception_entry_is() -> spec_fn(Seq<u8>, int, ExceptionTableEntry) -> bool {
    |s: Seq<u8>, p: int, x: ExceptionTableEntry|
        x == ExceptionTableEntry {
            start_pc: be16(s, p),
            end_pc: be16(s, p + 2),
            handler_pc: be16(s, p + 4),
            catch_type: be16(s, p + 6),
        }
}

pub open spec fn inner_class_is() -> spec_fn(Seq<u8>, int, InnerClassInfo) -> bool {
    |s: Seq<u8>, p: int, x: InnerClassInfo|
        x == InnerClassInfo {
            inner_class_info_index: be16(s, p),
            outer_class_info_index: be16(s, p + 2),
            inner_name_index: be16(s, p + 4),
            inner_class_access_flags: be16(s, p + 6),
        }
}

pub open spec fn line_number_is() -> spec_fn(Seq<u8>, int, LineNumberTableEntry) -> bool {
    |s: Seq<u8>, p: int, x: LineNumberTableEntry|
        x == LineNumberTableEntry { start_pc: be16(s, p), line_number: be16(s, p + 2) }
}

pub open spec fn local_variable_is() -> spec_fn(Seq<u8>, int, LocalVariableTableEntry) -> bool {
    |s: Seq<u8>, p: int, x: LocalVariableTableEntry|
        x == LocalVariableTableEntry {
            start_pc: be16(s, p),
            length: be16(s, p + 2),
            name_index: be16(s, p + 4),
            descriptor_index: be16(s, p + 6),
            index: be16(s, p + 8),
        }
}

pub open spec fn local_variable_type_is() -> spec_fn(
    Seq<u8>,
    int,
    LocalVariableTypeTableEntry,
) -> bool {
    |s: Seq<u8>, p: int, x: LocalVariableTypeTableEntry|
        x == LocalVariableTypeTableEntry {
            start_pc: be16(s, p),
            length: be16(s, p + 2),
            name_index: be16(s, p + 4),
            signature_index: be16(s, p + 6),
            index: be16(s, p + 8),
        }
}

pub open spec fn method_parameter_is() -> spec_fn(Seq<u8>, int, MethodParameterEntry) -> bool {
    |s: Seq<u8>, p: int, x: MethodParameterEntry|
        x == MethodParameterEntry { name_index: be16(s, p), access_flags: be16(s, p + 2) }
}

pub open spec fn type_path_entry_is() -> spec_fn(Seq<u8>, int, TypePathEntry) -> bool {
    |s: Seq<u8>, p: int, x: TypePathEntry|
        x == TypePathEntry { type_path_kind: s[p], type_argument_index: s[p + 1] }
}

pub open spec fn local_var_target_is() -> spec_fn(Seq<u8>, int, LocalVarTagetTableEntry) -> bool {
    |s: Seq<u8>, p: int, x: LocalVarTagetTableEntry|
        x == LocalVarTagetTableEntry {
            start_pc: be16(s, p),
            length: be16(s, p + 2),
            index: be16(s, p + 4),
        }
}

// ---------------------------------------------------------------- bootstrap methods
pub open spec fn bootstrap_end(s: Seq<u8>, p: int) -> Result<int, ParseError> {
    if p + 2 > s.len() {
        Err(ParseError::EndOfFile)
    } else {
        counted16_end(s, p + 2, fixed_end(2))
    }
}

pub open spec fn bootstrap_end_fn() -> spec_fn(Seq<u8>, int) -> Result<int, ParseError> {
    |s: Seq<u8>, p: int| bootstrap_end(s, p)
}

pub open spec fn bootstrap_is_fn() -> spec_fn(Seq<u8>, int, BootstrapMethodsEntry) -> bool {
    |s: Seq<u8>, p: int, x: BootstrapMethodsEntry|
        x.bootstrap_method_ref == be16(s, p) && counted16_is(
            s,
            p + 2,
            x.bootstrap_arguments@,
            fixed_end(2),
            u16_is(),
        )
}

// ---------------------------------------------------------------- verification types
/// The verification type read from `s[p]` (given that `vti_end` is `Ok`).
pub open spec fn vti_value(s: Seq<u8>, p: int) -> VerificationTypeInfo {
    let t = s[p];
    if t == 0 {
        VerificationTypeInfo::Top
    } else if t == 1 {
        VerificationTypeInfo::Integer
    } else if t == 2 {
        VerificationTypeInfo::Float
    } else if t == 5 {
        VerificationTypeInfo::Null
    } else if t == 6 {
        VerificationTypeInfo::UninitializedThis
    } else if t == 7 {
        VerificationTypeInfo::Object { cpool_index: be16(s, p + 1) }
    } else if t == 8 {
        VerificationTypeInfo::UninitializedVariable { offset: be16(s, p + 1) }
    } else if t == 4 {
        VerificationTypeInfo::Long
    } else {
        VerificationTypeInfo::Double
    }
}

pub open spec fn vti_end(s: Seq<u8>, p: int) -> Result<int, ParseError> {
    if p + 1 > s.len() {
        Err(ParseError::EndOfFile)
    } else if s[p] > 8 {
        Err(ParseError::BadVerificationTypeInfo)
    } else if s[p] == 7 || s[p] == 8 {
        if p + 3 > s.len() {
            Err(ParseError::EndOfFile)
        } else {
            Ok(p + 3)
        }
    } else {
        Ok(p + 1)
    }
}

pub open spec fn vti_end_fn() -> spec_fn(Seq<u8>, int) -> Result<int, ParseError> {
    |s: Seq<u8>, p: int| vti_end(s, p)
}

pub open spec fn vti_is_fn() -> spec_fn(Seq<u8>, int, VerificationTypeInfo) -> bool {
    |s: Seq<u8>, p: int, x: VerificationTypeInfo| x == vti_value(s, p)
}

// ---------------------------------------------------------------- stack map frames
pub open spec fn frame_end(s: Seq<u8>, p: int) -> Result<int, ParseError> {
    if p + 1 > s.len() {
        Err(ParseError::EndOfFile)
    } else {
        let t = s[p];
        if t <= 63 {
            Ok(p + 1)
        } else if t <= 127 {
            vti_end(s, p + 1)
        } else if t < 247 {
            Err(ParseError::InvalidStackMapFrameTag)
        } else if p + 3 > s.len() {
            Err(ParseError::EndOfFile)
        } else if t == 247 {
            vti_end(s, p + 3)
        } else if t <= 251 {
            Ok(p + 3)
        } else if t <= 254 {
            many_end(s, p + 3, (t - 251) as nat, vti_end_fn())
        } else {
            match counted16_end(s, p + 3, vti_end_fn()) {
                Err(e) => Err(e),
                Ok(q) => counted16_end(s, q, vti_end_fn()),
            }
        }
    }
}

pub open spec fn frame_end_fn() -> spec_fn(Seq<u8>, int) -> Result<int, ParseError> {
    |s: Seq<u8>, p: int| frame_end(s, p)
}

pub open spec fn frame_is(s: Seq<u8>, p: int, x: StackMapFrame) -> bool {
    let t = s[p];
    if t <= 63 {
        x == StackMapFrame::SameFrame { offset_delta: t }
    } else if t <= 127 {
        x == StackMapFrame::SameLocals1Item {
            offset_delta: (t - 64) as u8,
            stack: vti_value(s, p + 1),
        }
    } else if t == 247 {
        x == StackMapFrame::SameLocals1ItemExtended {
            offset_delta: be16(s, p + 1),
            stack: vti_value(s, p + 3),
        }
    } else if 248 <= t <= 250 {
        x == StackMapFrame::ChopFrame { absent_locals: (251 - t) as u8, offset_delta: be16(s, p + 1) }
    } else if t == 251 {
        x == StackMapFrame::SameFrameExtended { offset_delta: be16(s, p + 1) }
    } else if 252 <= t <= 254 {
        match x {
            StackMapFrame::AppendFrame { offset_delta, locals } => offset_delta == be16(s, p + 1)
                && locals@.len() == t - 251 && many_is(
                s,
                p + 3,
                locals@,
                vti_end_fn(),
                vti_is_fn(),
            ),
            _ => false,
        }
    } else {
        match x {
            StackMapFrame::FullFrame { offset_delta, locals, stack } => {
                &&& offset_delta == be16(s, p + 1)
                &&& counted16_is(s, p + 3, locals@, vti_end_fn(), vti_is_fn())
                &&& counted16_end(s, p + 3, vti_end_fn()) matches Ok(q) && counted16_is(
                    s,
                    q,
                    stack@,
                    vti_end_fn(),
                    vti_is_fn(),
                )
            },
            _ => false,
        }
    }
}

pub open spec fn frame_is_fn() -> spec_fn(Seq<u8>, int, StackMapFrame) -> bool {
    |s: Seq<u8>, p: int, x: StackMapFrame| frame_is(s, p, x)
}

// ---------------------------------------------------------------- element values and annotations
/// The element value tags that stand for a constant: `B C D F I J S Z s`.
pub open spec fn is_const_tag(t: u8) -> bool {
    t == 66 || t == 67 || t == 68 || t == 70 || t == 73 || t == 74 || t == 83 || t == 90 || t
        == 115
}

pub open spec fn ev_end(s: Seq<u8>, p: int) -> Result<int, ParseError>
    decreases s.len() - p, 0int,
{
    if p < 0 || p + 1 > s.len() {
        Err(ParseError::EndOfFile)
    } else {
        let t = s[p];
        if is_const_tag(t) || t == 99 {
            if p + 3 > s.len() {
                Err(ParseError::EndOfFile)
            } else {
                Ok(p + 3)
            }
        } else if t == 101 {
            if p + 5 > s.len() {
                Err(ParseError::EndOfFile)
            } else {
                Ok(p + 5)
            }
        } else if t == 64 {
            ann_end(s, p + 1)
        } else if t == 91 {
            if p + 3 > s.len() {
                Err(ParseError::EndOfFile)
            } else {
                ev_list_end(s, p + 3, be16(s, p + 1) as int)
            }
        } else {
            Err(ParseError::InvalidElementValueTag)
        }
    }
}

pub open spec fn ev_list_end(s: Seq<u8>, p: int, n: int) -> Result<int, ParseError>
    decreases s.len() - p, n + 1,
{
    if p < 0 || p > s.len() || n < 0 {
        Err(ParseError::EndOfFile)
    } else if n == 0 {
        Ok(p)
    } else {
        match ev_end(s, p) {
            Err(e) => Err(e),
            Ok(q) => if p < q <= s.len() {
                ev_list_end(s, q, n - 1)
            } else {
                Err(ParseError::EndOfFile)
            },
        }
    }
}

pub open spec fn ann_end(s: Seq<u8>, p: int) -> Result<int, ParseError>
    decreases s.len() - p, 0int,
{
    if p < 0 || p + 4 > s.len() {
        Err(ParseError::EndOfFile)
    } else {
        pair_list_end(s, p + 4, be16(s, p + 2) as int)
    }
}

pub open spec fn pair_list_end(s: Seq<u8>, p: int, n: int) -> Result<int, ParseError>
    decreases s.len() - p, n + 1,
{
    if p < 0 || p > s.len() || n < 0 {
        Err(ParseError::EndOfFile)
    } else if n == 0 {
        Ok(p)
    } else if p + 2 > s.len() {
        Err(ParseError::EndOfFile)
    } else {
        match ev_end(s, p + 2) {
            Err(e) => Err(e),
            Ok(q) => if p < q <= s.len() {
                pair_list_end(s, q, n - 1)
            } else {
                Err(ParseError::EndOfFile)
            },
        }
    }
}

pub open spec fn ev_is(s: Seq<u8>, p: int, x: ElementValue) -> bool
    decreases s.len() - p, 0int,
{
    if p < 0 || p + 1 > s.len() {
        false
    } else {
        let t = s[p];
        if is_const_tag(t) {
            x == ElementValue::ConstValueIndex(be16(s, p + 1))
        } else if t == 99 {
            x == ElementValue::ClassInfoIndex(be16(s, p + 1))
        } else if t == 101 {
            x == ElementValue::EnumConstValue {
                type_name_index: be16(s, p + 1),
                const_name_index: be16(s, p + 3),
            }
        } else if t == 64 {
            match x {
                ElementValue::AnnotationValue(a) => ann_is(s, p + 1, a),
                _ => false,
            }
        } else if t == 91 && p + 3 <= s.len() {
            match x {
                ElementValue::ArrayValue(vs) => vs@.len() == be16(s, p + 1) && ev_list_is(
                    s,
                    p + 3,
                    vs@,
                ),
                _ => false,
            }
        } else {
            false
        }
    }
}

pub open spec fn ev_list_is(s: Seq<u8>, p: int, v: Seq<ElementValue>) -> bool
    decreases s.len() - p, v.len() + 1,
{
    if p < 0 || p > s.len() {
        false
    } else if v.len() == 0 {
        true
    } else {
        match ev_end(s, p) {
            Err(_) => false,
            Ok(q) => p < q <= s.len() && ev_is(s, p, v[0]) && ev_list_is(
                s,
                q,
                v.subrange(1, v.len() as int),
            ),
        }
    }
}

pub open spec fn ann_is(s: Seq<u8>, p: int, a: Annotation) -> bool
    decreases s.len() - p, 0int,
{
    if p < 0 || p + 4 > s.len() {
        false
    } else {
        &&& a.type_index == be16(s, p)
        &&& a.element_value_pairs@.len() == be16(s, p + 2)
        &&& pair_list_is(s, p + 4, a.element_value_pairs@)
    }
}

pub open spec fn pair_list_is(s: Seq<u8>, p: int, v: Seq<ElementValuePair>) -> bool
    decreases s.len() - p, v.len() + 1,
{
    if p < 0 || p > s.len() {
        false
    } else if v.len() == 0 {
        true
    } else if p + 2 > s.len() {
        false
    } else {
        match ev_end(s, p + 2) {
            Err(_) => false,
            Ok(q) => {
                &&& p < q <= s.len()
                &&& v[0].element_name_index == be16(s, p)
                &&& ev_is(s, p + 2, v[0].value)
                &&& pair_list_is(s, q, v.subrange(1, v.len() as int))
            },
        }
    }
}

pub open spec fn ann_end_fn() -> spec_fn(Seq<u8>, int) -> Result<int, ParseError> {
    |s: Seq<u8>, p: int| ann_end(s, p)
}

pub open spec fn ann_is_fn() -> spec_fn(Seq<u8>, int, Annotation) -> bool {
    |s: Seq<u8>, p: int, a: Annotation| ann_is(s, p, a)
}

/// A `u16` count of annotations followed by the annotations.
pub open spec fn annotations_end_fn() -> spec_fn(Seq<u8>, int) -> Result<int, ParseError> {
    |s: Seq<u8>, p: int| counted16_end(s, p, ann_end_fn())
}

pub open spec fn annotations_is_fn() -> spec_fn(Seq<u8>, int, Vec<Annotation>) -> bool {
    |s: Seq<u8>, p: int, v: Vec<Annotation>| counted16_is(s, p, v@, ann_end_fn(), ann_is_fn())
}

// ---------------------------------------------------------------- type annotations
/// Where the target info of a type annotation, whose target type is at `s[p]`, ends.
pub open spec fn target_end(s: Seq<u8>, p: int) -> Result<int, ParseError> {
    if p + 1 > s.len() {
        Err(ParseError::EndOfFile)
    } else {
        let t = s[p];
        let n = if t == 0x00 || t == 0x01 || t == 0x16 {
            1int
        } else if t == 0x10 || t == 0x11 || t == 0x12 || t == 0x17 || t == 0x42 || (0x43 <= t
            <= 0x46) {
            2int
        } else if 0x13 <= t <= 0x15 {
            0int
        } else if 0x47 <= t <= 0x4b {
            3int
        } else if t == 0x40 || t == 0x41 {
            2int
        } else {
            -1int
        };
        if n < 0 {
            Err(ParseError::BadTargetInfoTag)
        } else if p + 1 + n > s.len() {
            Err(ParseError::EndOfFile)
        } else if t == 0x40 || t == 0x41 {
            many_end(s, p + 3, be16(s, p + 1) as nat, fixed_end(6))
        } else {
            Ok(p + 1 + n)
        }
    }
}

pub open spec fn target_is(s: Seq<u8>, p: int, x: TargetInfo) -> bool {
    let t = s[p];
    if t == 0x00 || t == 0x01 {
        x == TargetInfo::TypeParameterTarget { type_parameter_index: s[p + 1] }
    } else if t == 0x10 {
        x == TargetInfo::SupertypeTarget { supertype_index: be16(s, p + 1) }
    } else if t == 0x11 || t == 0x12 {
        x == TargetInfo::TypeParameterBoundTarget {
            type_parameter_index: s[p + 1],
            bound_index: s[p + 2],
        }
    } else if 0x13 <= t <= 0x15 {
        x == TargetInfo::EmptyTarget
    } else if t == 0x16 {
        x == TargetInfo::FormalParameterTarget { formal_parameter_index: s[p + 1] }
    } else if t == 0x17 {
        x == TargetInfo::ThrowsTarget { throws_type_index: be16(s, p + 1) }
    } else if t == 0x40 || t == 0x41 {
        match x {
            TargetInfo::LocalVarTarget { table } => table@.len() == be16(s, p + 1) && many_is(
                s,
                p + 3,
                table@,
                fixed_end(6),
                local_var_target_is(),
            ),
            _ => false,
        }
    } else if t == 0x42 {
        x == TargetInfo::CatchTarget { exception_table_index: be16(s, p + 1) }
    } else if 0x43 <= t <= 0x46 {
        x == TargetInfo::OffsetTarget { offset: be16(s, p + 1) }
    } else {
        x == TargetInfo::TypeArgumentTarget {
            offset: be16(s, p + 1),
            type_argument_index: s[p + 3],
        }
    }
}

/// Where the type path at `s[p]` (a `u8` count of two-byte entries) ends.
pub open spec fn path_end(s: Seq<u8>, p: int) -> Result<int, ParseError> {
    if p + 1 > s.len() {
        Err(ParseError::EndOfFile)
    } else {
        many_end(s, p + 1, s[p] as nat, fixed_end(2))
    }
}

pub open spec fn type_ann_end(s: Seq<u8>, p: int) -> Result<int, ParseError> {
    match target_end(s, p) {
        Err(e) => Err(e),
        Ok(q) => match path_end(s, q) {
            Err(e) => Err(e),
            Ok(r) => if r + 4 > s.len() {
                Err(ParseError::EndOfFile)
            } else {
                pair_list_end(s, r + 4, be16(s, r + 2) as int)
            },
        },
    }
}

pub open spec fn type_ann_is(s: Seq<u8>, p: int, x: TypeAnnotation) -> bool {
    &&& target_is(s, p, x.target_info)
    &&& target_end(s, p) matches Ok(q) && {
        &&& x.target_path.path@.len() == s[q]
        &&& many_is(s, q + 1, x.target_path.path@, fixed_end(2), type_path_entry_is())
        &&& path_end(s, q) matches Ok(r) && {
            &&& x.type_index == be16(s, r)
            &&& x.element_value_pairs@.len() == be16(s, r + 2)
            &&& pair_list_is(s, r + 4, x.element_value_pairs@)
        }
    }
}

pub open spec fn type_ann_end_fn() -> spec_fn(Seq<u8>, int) -> Result<int, ParseError> {
    |s: Seq<u8>, p: int| type_ann_end(s, p)
}

pub open spec fn type_ann_is_fn() -> spec_fn(Seq<u8>, int, TypeAnnotation) -> bool {
    |s: Seq<u8>, p: int, x: TypeAnnotation| type_ann_is(s, p, x)
}

// ---------------------------------------------------------------- code
/// Where the instructions of a method body that starts at `start` and is `code_len` bytes long
/// end, when the next one is at `p`: instructions are read while fewer than `code_len` bytes
/// have been read since `start`.
pub open spec fn code_end(s: Seq<u8>, start: u32, p: int, code_len: u32) -> Result<int, ParseError>
    decreases s.len() - p,
{
    if p < 0 || p > s.len() {
        Err(ParseError::InvalidBytecode)
    } else if p - start >= code_len {
        Ok(p)
    } else {
        match opcode_end(s, p, start) {
            None => Err(ParseError::InvalidBytecode),
            Some(q) => if p < q <= s.len() {
                code_end(s, start, q, code_len)
            } else {
                Err(ParseError::InvalidBytecode)
            },
        }
    }
}

pub open spec fn code_is(s: Seq<u8>, start: u32, p: int, code_len: u32, v: Seq<Opcode>) -> bool
    decreases s.len() - p,
{
    if p < 0 || p > s.len() {
        false
    } else if p - start >= code_len {
        v.len() == 0
    } else {
        match opcode_end(s, p, start) {
            None => false,
            Some(q) => p < q <= s.len() && v.len() > 0 && opcode_is(s, p, start, v[0]) && code_is(
                s,
                start,
                q,
                code_len,
                v.subrange(1, v.len() as int),
            ),
        }
    }
}

// ---------------------------------------------------------------- attributes
/// The attributes that a class file may hold, by name.
#[derive(Clone, Copy, Debug, PartialEq, Eq, Structural)]
pub enum AttrKind {
    ConstantValue,
    Code,
    StackMapTable,
    Exceptions,
    InnerClasses,
    EnclosingMethod,
    Synthetic,
    Signature,
    SourceFile,
    SourceDebugExtension,
    LineNumberTable,
    LocalVariableTable,
    LocalVariableTypeTable,
    Deprecated,
    RuntimeVisibleAnnotations,
    RuntimeInvisibleAnnotations,
    RuntimeVisibleParameterAnnotations,
    RuntimeInvisibleParameterAnnotations,
    RuntimeVisibleTypeAnnotations,
    RuntimeInvisibleTypeAnnotations,
    AnnotationDefault,
    BootstrapMethods,
    MethodParameters,
}

/// The attribute that has the name `name`, if any.
pub open spec fn attr_kind_of(name: Seq<char>) -> Option<AttrKind> {
    if name == "ConstantValue"@ {
        Some(AttrKind::ConstantValue)
    } else if name == "Code"@ {
        Some(AttrKind::Code)
    } else if name == "StackMapTable"@ {
        Some(AttrKind::StackMapTable)
    } else if name == "Exceptions"@ {
        Some(AttrKind::Exceptions)
    } else if name == "InnerClasses"@ {
        Some(AttrKind::InnerClasses)
    } else if name == "EnclosingMethod"@ {
        Some(AttrKind::EnclosingMethod)
    } else if name == "Synthetic"@ {
        Some(AttrKind::Synthetic)
    } else if name == "Signature"@ {
        Some(AttrKind::Signature)
    } else if name == "SourceFile"@ {
        Some(AttrKind::SourceFile)
    } else if name == "SourceDebugExtension"@ {
        Some(AttrKind::SourceDebugExtension)
    } else if name == "LineNumberTable"@ {
        Some(AttrKind::LineNumberTable)
    } else if name == "LocalVariableTable"@ {
        Some(AttrKind::LocalVariableTable)
    } else if name == "LocalVariableTypeTable"@ {
        Some(AttrKind::LocalVariableTypeTable)
    } else if name == "Deprecated"@ {
        Some(AttrKind::Deprecated)
    } else if name == "RuntimeVisibleAnnotations"@ {
        Some(AttrKind::RuntimeVisibleAnnotations)
    } else if name == "RuntimeInvisibleAnnotations"@ {
        Some(AttrKind::RuntimeInvisibleAnnotations)
    } else if name == "RuntimeVisibleParameterAnnotations"@ {
        Some(AttrKind::RuntimeVisibleParameterAnnotations)
    } else if name == "RuntimeInvisibleParameterAnnotations"@ {
        Some(AttrKind::RuntimeInvisibleParameterAnnotations)
    } else if name == "RuntimeVisibleTypeAnnotations"@ {
        Some(AttrKind::RuntimeVisibleTypeAnnotations)
    } else if name == "RuntimeInvisibleTypeAnnotations"@ {
        Some(AttrKind::RuntimeInvisibleTypeAnnotations)
    } else if name == "AnnotationDefault"@ {
        Some(AttrKind::AnnotationDefault)
    } else if name == "BootstrapMethods"@ {
        Some(AttrKind::BootstrapMethods)
    } else if name == "MethodParameters"@ {
        Some(AttrKind::MethodParameters)
    } else {
        None
    }
}

/// What attribute names need of a constant pool: for each entry, its bytes if it is a `Utf8`
/// entry.
pub open spec fn cp_names(cp: Seq<CPInfo>) -> Seq<Option<Seq<u8>>> {
    cp.map_values(
        |e: CPInfo|
            match e {
                CPInfo::Utf8 { bytes, .. } => Some(bytes@),
                _ => None,
            },
    )
}

/// The attribute whose name is the constant at `index` of a constant pool whose entries have
/// the names `names` (see `cp_names`), or why there is none. A name that is not valid modified UTF-8
/// is no attribute name.
pub open spec fn attr_kind(names: Seq<Option<Seq<u8>>>, index: u16) -> Result<AttrKind, ParseError> {
    if !(1 <= index <= names.len()) {
        Err(ParseError::BadConstantPoolIndex)
    } else {
        match names[index - 1] {
            Some(bytes) => if !modified_utf8_valid(bytes) {
                Err(ParseError::InvalidAttributeName)
            } else {
                match attr_kind_of(modified_utf8_chars(bytes)) {
                    Some(k) => Ok(k),
                    None => Err(ParseError::InvalidAttributeName),
                }
            },
            None => Err(ParseError::AttributeNameNotUtf8),
        }
    }
}

/// Where the body of an attribute other than `Code`, starting at `b`, ends; `alen` is the
/// attribute length that its header announced.
pub open spec fn attr_body_end(s: Seq<u8>, b: int, k: AttrKind, alen: u32) -> Result<
    int,
    ParseError,
> {
    match k {
        AttrKind::ConstantValue | AttrKind::Signature | AttrKind::SourceFile => fixed_end(2)(s, b),
        AttrKind::EnclosingMethod => fixed_end(4)(s, b),
        AttrKind::Synthetic | AttrKind::Deprecated => Ok(b),
        AttrKind::StackMapTable => counted16_end(s, b, frame_end_fn()),
        AttrKind::Exceptions => counted16_end(s, b, fixed_end(2)),
        AttrKind::InnerClasses => counted16_end(s, b, fixed_end(8)),
        AttrKind::SourceDebugExtension => many_end(s, b, alen as nat, fixed_end(1)),
        AttrKind::LineNumberTable | AttrKind::MethodParameters => counted16_end(s, b, fixed_end(4)),
        AttrKind::LocalVariableTable | AttrKind::LocalVariableTypeTable => counted16_end(
            s,
            b,
            fixed_end(10),
        ),
        AttrKind::RuntimeVisibleAnnotations | AttrKind::RuntimeInvisibleAnnotations => counted16_end(
            s,
            b,
            ann_end_fn(),
        ),
        AttrKind::RuntimeVisibleParameterAnnotations
        | AttrKind::RuntimeInvisibleParameterAnnotations => if b + 1 > s.len() {
            Err(ParseError::EndOfFile)
        } else {
            many_end(s, b + 1, s[b] as nat, annotations_end_fn())
        },
        AttrKind::RuntimeVisibleTypeAnnotations
        | AttrKind::RuntimeInvisibleTypeAnnotations => counted16_end(s, b, type_ann_end_fn()),
        AttrKind::AnnotationDefault => ev_end(s, b),
        AttrKind::BootstrapMethods => counted16_end(s, b, bootstrap_end_fn()),
        AttrKind::Code => Err(ParseError::InvalidAttributeName),
    }
}

/// `x` is the body of an attribute other than `Code` read from `s[b]`.
pub open spec fn attr_body_is(s: Seq<u8>, b: int, k: AttrKind, alen: u32, x: Attribute) -> bool {
    match k {
        AttrKind::ConstantValue => x == Attribute::ConstantValue { constantvalue_index: be16(s, b) },
        AttrKind::Signature => x == Attribute::Signature { signature_index: be16(s, b) },
        AttrKind::SourceFile => x == Attribute::SourceFile { sourcefile_index: be16(s, b) },
        AttrKind::EnclosingMethod => x == Attribute::EnclosingMethod {
            class_index: be16(s, b),
            method_index: be16(s, b + 2),
        },
        AttrKind::Synthetic => x == Attribute::Synthetic,
        AttrKind::Deprecated => x == Attribute::Deprecated,
        AttrKind::StackMapTable => x matches Attribute::StackMapTable { entries } && counted16_is(
            s,
            b,
            entries@,
            frame_end_fn(),
            frame_is_fn(),
        ),
        AttrKind::Exceptions => x matches Attribute::Exceptions { exception_index_table }
            && counted16_is(s, b, exception_index_table@, fixed_end(2), u16_is()),
        AttrKind::InnerClasses => x matches Attribute::InnerClasses { classes } && counted16_is(
            s,
            b,
            classes@,
            fixed_end(8),
            inner_class_is(),
        ),
        AttrKind::SourceDebugExtension => x matches Attribute::SourceDebugExtenson {
            debug_extension,
        } && debug_extension@.len() == alen && many_is(
            s,
            b,
            debug_extension@,
            fixed_end(1),
            u8_is(),
        ),
        AttrKind::LineNumberTable => x matches Attribute::LineNumberTable { line_number_table }
            && counted16_is(s, b, line_number_table@, fixed_end(4), line_number_is()),
        AttrKind::MethodParameters => x matches Attribute::MethodParameters { parameters }
            && counted16_is(s, b, parameters@, fixed_end(4), method_parameter_is()),
        AttrKind::LocalVariableTable => x matches Attribute::LocalVariableTable {
            local_variable_table,
        } && counted16_is(s, b, local_variable_table@, fixed_end(10), local_variable_is()),
        AttrKind::LocalVariableTypeTable => x matches Attribute::LocalVariableTypeTable {
            local_variable_type_table,
        } && counted16_is(
            s,
            b,
            local_variable_type_table@,
            fixed_end(10),
            local_variable_type_is(),
        ),
        AttrKind::RuntimeVisibleAnnotations => x matches Attribute::RuntimeVisibleAnnotations {
            annotations,
        } && counted16_is(s, b, annotations@, ann_end_fn(), ann_is_fn()),
        AttrKind::RuntimeInvisibleAnnotations => x matches Attribute::RuntimeInvisibleAnnotations {
            annotations,
        } && counted16_is(s, b, annotations@, ann_end_fn(), ann_is_fn()),
        AttrKind::RuntimeVisibleParameterAnnotations => x matches Attribute::RuntimeVisibleParameterAnnotations {
            parameter_annotations,
        } && parameter_annotations@.len() == s[b] && many_is(
            s,
            b + 1,
            parameter_annotations@,
            annotations_end_fn(),
            annotations_is_fn(),
        ),
        AttrKind::RuntimeInvisibleParameterAnnotations => x matches Attribute::RuntimeInvisibleParameterAnnotations {
            parameter_annotations,
        } && parameter_annotations@.len() == s[b] && many_is(
            s,
            b + 1,
            parameter_annotations@,
            annotations_end_fn(),
            annotations_is_fn(),
        ),
        AttrKind::RuntimeVisibleTypeAnnotations => x matches Attribute::RuntimeVisibleTypeAnnotations {
            annotations,
        } && counted16_is(s, b, annotations@, type_ann_end_fn(), type_ann_is_fn()),
        AttrKind::RuntimeInvisibleTypeAnnotations => x matches Attribute::RuntimeInvisibleTypeAnnotations {
            annotations,
        } && counted16_is(s, b, annotations@, type_ann_end_fn(), type_ann_is_fn()),
        AttrKind::AnnotationDefault => x matches Attribute::AnnotationDefault { default_value }
            && ev_is(s, b, default_value),
        AttrKind::BootstrapMethods => x matches Attribute::BootstrapMethods { bootstrap_methods }
            && counted16_is(s, b, bootstrap_methods@, bootstrap_end_fn(), bootstrap_is_fn()),
        AttrKind::Code => false,
    }
}

/// Where the attribute at `s[p]` ends, its name looked up in the constant pool `cp`.
pub open spec fn attr_end(s: Seq<u8>, p: int, cp: Seq<Option<Seq<u8>>>) -> Result<int, ParseError>
    decreases s.len() - p, 0int,
{
    if p < 0 || p + 6 > s.len() {
        Err(ParseError::EndOfFile)
    } else {
        match attr_kind(cp, be16(s, p)) {
            Err(e) => Err(e),
            Ok(k) => {
                let b = p + 6;
                if k == AttrKind::Code {
                    if b + 8 > s.len() {
                        Err(ParseError::EndOfFile)
                    } else {
                        let start = (b + 8) as u32;
                        match code_end(s, start, b + 8, be32(s, b + 4)) {
                            Err(e) => Err(e),
                            Ok(c) => match counted16_end(s, c, fixed_end(8)) {
                                Err(e) => Err(e),
                                Ok(d) => if d + 2 > s.len() || d < p {
                                    Err(ParseError::EndOfFile)
                                } else {
                                    attr_list_end(s, d + 2, be16(s, d) as int, cp)
                                },
                            },
                        }
                    }
                } else {
                    attr_body_end(s, b, k, be32(s, p + 2))
                }
            },
        }
    }
}

pub open spec fn attr_list_end(s: Seq<u8>, p: int, n: int, cp: Seq<Option<Seq<u8>>>) -> Result<
    int,
    ParseError,
>
    decreases s.len() - p, n + 1,
{
    if p < 0 || p > s.len() || n < 0 {
        Err(ParseError::EndOfFile)
    } else if n == 0 {
        Ok(p)
    } else {
        match attr_end(s, p, cp) {
            Err(e) => Err(e),
            Ok(q) => if p < q <= s.len() {
                attr_list_end(s, q, n - 1, cp)
            } else {
                Err(ParseError::EndOfFile)
            },
        }
    }
}

pub open spec fn attr_is(s: Seq<u8>, p: int, cp: Seq<Option<Seq<u8>>>, x: Attribute) -> bool
    decreases s.len() - p, 0int,
{
    if p < 0 || p + 6 > s.len() {
        false
    } else {
        match attr_kind(cp, be16(s, p)) {
            Err(_) => false,
            Ok(k) => {
                let b = p + 6;
                if k == AttrKind::Code {
                    if b + 8 > s.len() {
                        false
                    } else {
                        let start = (b + 8) as u32;
                        match x {
                            Attribute::Code {
                                max_stack,
                                max_locals,
                                code,
                                exception_table,
                                attributes,
                            } => {
                                &&& max_stack == be16(s, b)
                                &&& max_locals == be16(s, b + 2)
                                &&& code_is(s, start, b + 8, be32(s, b + 4), code@)
                                &&& code_end(s, start, b + 8, be32(s, b + 4)) matches Ok(c) && {
                                    &&& counted16_is(
                                        s,
                                        c,
                                        exception_table@,
                                        fixed_end(8),
                                        exception_entry_is(),
                                    )
                                    &&& counted16_end(s, c, fixed_end(8)) matches Ok(d) && {
                                        &&& d + 2 <= s.len()
                                        &&& p <= d
                                        &&& attributes@.len() == be16(s, d)
                                        &&& attr_list_is(s, d + 2, attributes@, cp)
                                    }
                                }
                            },
                            _ => false,
                        }
                    }
                } else {
                    attr_body_is(s, b, k, be32(s, p + 2), x)
                }
            },
        }
    }
}

pub open spec fn attr_list_is(s: Seq<u8>, p: int, v: Seq<Attribute>, cp: Seq<Option<Seq<u8>>>) -> bool
    decreases s.len() - p, v.len() + 1,
{
    if p < 0 || p > s.len() {
        false
    } else if v.len() == 0 {
        true
    } else {
        match attr_end(s, p, cp) {
            Err(_) => false,
            Ok(q) => p < q <= s.len() && attr_is(s, p, cp, v[0]) && attr_list_is(
                s,
                q,
                v.subrange(1, v.len() as int),
                cp,
            ),
        }
    }
}

} // verus!
