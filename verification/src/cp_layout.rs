//! The byte layout of the constant pool entries, as the JVM specification (§4.4) gives it:
//! a tag byte that names the kind of entry, then its fields, big-endian.
use vstd::prelude::*;
use crate::bytes::{u32_bytes, u64_bytes};
use crate::cp_info::{cp_bytes, CPInfo};
use crate::record_layout::u16s_bytes;

verus! {

/// The bytes of a constant pool entry laid out as the JVM specification gives them: the
/// tags `CONSTANT_Utf8` 1, `Integer` 3, `Float` 4, `Long` 5, `Double` 6, `Class` 7, `String`
/// 8, `Fieldref` 9, `Methodref` 10, `InterfaceMethodref` 11, `NameAndType` 12,
/// `MethodHandle` 15, `MethodType` 16, `InvokeDynamic` 18, each followed by the entry's
/// fields in the order of its structure; the filler of a second slot has no bytes.
pub open spec fn jvms_entry_bytes(info: CPInfo) -> Seq<u8> {
    match info {
        CPInfo::Utf8 { length, bytes } => seq![1u8] + u16s_bytes(seq![length]) + bytes@,
        CPInfo::Integer { bytes } => seq![3u8] + u32_bytes(bytes),
        CPInfo::Float { bytes } => seq![4u8] + u32_bytes(bytes),
        CPInfo::Long { bytes } => seq![5u8] + u64_bytes(bytes),
        CPInfo::Double { bytes } => seq![6u8] + u64_bytes(bytes),
        CPInfo::Class { name_index } => seq![7u8] + u16s_bytes(seq![name_index]),
        CPInfo::String { string_index } => seq![8u8] + u16s_bytes(seq![string_index]),
        CPInfo::Fieldref { class_index, name_and_type_index } => seq![9u8] + u16s_bytes(
            seq![class_index, name_and_type_index],
        ),
        CPInfo::Methodref { class_index, name_and_type_index } => seq![10u8] + u16s_bytes(
            seq![class_index, name_and_type_index],
        ),
        CPInfo::InterfaceMethodref { class_index, name_and_type_index } => seq![11u8]
            + u16s_bytes(seq![class_index, name_and_type_index]),
        CPInfo::NameAndType { name_index, descriptor_index } => seq![12u8] + u16s_bytes(
            seq![name_index, descriptor_index],
        ),
        CPInfo::MethodHandle { reference_kind, reference_index } => seq![15u8, reference_kind]
            + u16s_bytes(seq![reference_index]),
        CPInfo::MethodType { descriptor_index } => seq![16u8] + u16s_bytes(seq![descriptor_index]),
        CPInfo::InvokeDynamic { bootstrap_method_attr_index, name_and_type_index } => seq![18u8]
            + u16s_bytes(seq![bootstrap_method_attr_index, name_and_type_index]),
        CPInfo::LongDoubleDummy => Seq::empty(),
    }
}

/// `as_bytes` writes each entry as the JVM specification lays it out.
pub proof fn law_cp_entry_layout(info: CPInfo)
    ensures
        cp_bytes(info) == jvms_entry_bytes(info),
{
    reveal_with_fuel(u16s_bytes, 3);
    assert(cp_bytes(info) =~= jvms_entry_bytes(info));
}

} // verus!
