//! The tag tables of the JVM specification for the parts of attributes that a tag byte
//! selects: stack map frames and verification types (§4.7.4), element values (§4.7.16.1)
//! and the targets of type annotations (§4.7.20.1).
use vstd::prelude::*;
use crate::attr_spec::{ev_is, frame_is, target_is, vti_value};
use crate::attributes::{ElementValue, StackMapFrame, TargetInfo, VerificationTypeInfo};
use crate::bytes::be16;

verus! {

/// The verification types by their tags: `ITEM_Top` 0, `ITEM_Integer` 1, `ITEM_Float` 2,
/// `ITEM_Double` 3, `ITEM_Long` 4, `ITEM_Null` 5, `ITEM_UninitializedThis` 6, `ITEM_Object`
/// 7 with a constant pool index, `ITEM_Uninitialized` 8 with an offset.
pub proof fn law_verification_type_tags(s: Seq<u8>, p: int)
    requires
        0 <= p < s.len(),
    ensures
        s[p] == 0 ==> vti_value(s, p) == VerificationTypeInfo::Top,
        s[p] == 1 ==> vti_value(s, p) == VerificationTypeInfo::Integer,
        s[p] == 2 ==> vti_value(s, p) == VerificationTypeInfo::Float,
        s[p] == 3 ==> vti_value(s, p) == VerificationTypeInfo::Double,
        s[p] == 4 ==> vti_value(s, p) == VerificationTypeInfo::Long,
        s[p] == 5 ==> vti_value(s, p) == VerificationTypeInfo::Null,
        s[p] == 6 ==> vti_value(s, p) == VerificationTypeInfo::UninitializedThis,
        s[p] == 7 ==> vti_value(s, p) == (VerificationTypeInfo::Object { cpool_index: be16(s, p + 1) }),
        s[p] == 8 ==> vti_value(s, p) == (VerificationTypeInfo::UninitializedVariable {
            offset: be16(s, p + 1),
        }),
{
}

/// The stack map frames by their frame types: `same_frame` 0 to 63 (the type is the offset
/// delta), `same_locals_1_stack_item_frame` 64 to 127 (the type less 64), the extended form
/// 247, `chop_frame` 248 to 250 (dropping `251 - type` locals), `same_frame_extended` 251,
/// `append_frame` 252 to 254 (with `type - 251` locals) and `full_frame` 255.
pub proof fn law_frame_types(s: Seq<u8>, p: int, x: StackMapFrame)
    requires
        0 <= p < s.len(),
        frame_is(s, p, x),
    ensures
        s[p] <= 63 ==> x == (StackMapFrame::SameFrame { offset_delta: s[p] }),
        64 <= s[p] <= 127 ==> (x matches StackMapFrame::SameLocals1Item { offset_delta, stack }
            && offset_delta + 64 == s[p] && stack == vti_value(s, p + 1)),
        s[p] == 247 ==> (x matches StackMapFrame::SameLocals1ItemExtended { offset_delta, stack }
            && offset_delta == be16(s, p + 1) && stack == vti_value(s, p + 3)),
        248 <= s[p] <= 250 ==> (x matches StackMapFrame::ChopFrame { absent_locals, offset_delta }
            && absent_locals + s[p] == 251 && offset_delta == be16(s, p + 1)),
        s[p] == 251 ==> x == (StackMapFrame::SameFrameExtended { offset_delta: be16(s, p + 1) }),
        252 <= s[p] <= 254 ==> (x matches StackMapFrame::AppendFrame { offset_delta, locals }
            && offset_delta == be16(s, p + 1) && locals@.len() + 251 == s[p]),
        s[p] == 255 ==> (x matches StackMapFrame::FullFrame { offset_delta, .. } && offset_delta
            == be16(s, p + 1)),
{
}

/// The element values by their tags: `B C D F I J S Z s` a constant, `e` an enum constant,
/// `c` a class, `@` an annotation, `[` an array.
pub proof fn law_element_value_tags(s: Seq<u8>, p: int, x: ElementValue)
    requires
        0 <= p < s.len(),
        ev_is(s, p, x),
    ensures
        s[p] == 0x42 || s[p] == 0x43 || s[p] == 0x44 || s[p] == 0x46 || s[p] == 0x49 || s[p] == 0x4a
            || s[p] == 0x53 || s[p] == 0x5a || s[p] == 0x73 ==> x == ElementValue::ConstValueIndex(
            be16(s, p + 1),
        ),
        s[p] == 0x65 ==> x == (ElementValue::EnumConstValue {
            type_name_index: be16(s, p + 1),
            const_name_index: be16(s, p + 3),
        }),
        s[p] == 0x63 ==> x == ElementValue::ClassInfoIndex(be16(s, p + 1)),
        s[p] == 0x40 ==> x is AnnotationValue,
        s[p] == 0x5b ==> x is ArrayValue,
{
}

/// The targets of type annotations by their target types: 0x00 and 0x01 a type parameter,
/// 0x10 a supertype, 0x11 and 0x12 a type parameter bound, 0x13 to 0x15 empty, 0x16 a
/// formal parameter, 0x17 a `throws` clause, 0x40 and 0x41 local variables, 0x42 a
/// `catch`, 0x43 to 0x46 an offset, 0x47 to 0x4b a type argument.
pub proof fn law_target_types(s: Seq<u8>, p: int, x: TargetInfo)
    requires
        0 <= p < s.len(),
        target_is(s, p, x),
    ensures
        s[p] == 0x00 || s[p] == 0x01 ==> x is TypeParameterTarget,
        s[p] == 0x10 ==> x is SupertypeTarget,
        s[p] == 0x11 || s[p] == 0x12 ==> x is TypeParameterBoundTarget,
        0x13 <= s[p] <= 0x15 ==> x is EmptyTarget,
        s[p] == 0x16 ==> x is FormalParameterTarget,
        s[p] == 0x17 ==> x is ThrowsTarget,
        s[p] == 0x40 || s[p] == 0x41 ==> x is LocalVarTarget,
        s[p] == 0x42 ==> x is CatchTarget,
        0x43 <= s[p] <= 0x46 ==> x is OffsetTarget,
        0x47 <= s[p] <= 0x4b ==> x is TypeArgumentTarget,
{
}

} // verus!
