//! The fields of a class.
use vstd::prelude::*;
use crate::attributes::Attribute;

verus! {

/// struct representing the FieldInfo struct
/// for more information refer to the [JVM specification](https://docs.oracle.com/javase/specs/jvms/se8/html/index.html)
#[derive(Debug, PartialEq)]
pub struct FieldInfo {
    pub access_flags: u16,
    pub name_index: u16,
    pub descriptor_index: u16,
    pub attributes: Vec<Attribute>,
}

/// The access flags of a field.
pub enum AccessFlags {
    Public,
    Private,
    Protected,
    Static,
    Final,
    Volatile,
    Transient,
    Synthetic,
    Enum,
}

impl AccessFlags {
    /// The bit that stands for this flag in an `access_flags` word.
    pub open spec fn spec_bits(&self) -> u16 {
        match self {
            AccessFlags::Public => 0x0001,
            AccessFlags::Private => 0x0002,
            AccessFlags::Protected => 0x0004,
            AccessFlags::Static => 0x0008,
            AccessFlags::Final => 0x0010,
            AccessFlags::Volatile => 0x0040,
            AccessFlags::Transient => 0x0080,
            AccessFlags::Synthetic => 0x1000,
            AccessFlags::Enum => 0x4000,
        }
    }

    /// The bit that stands for this flag in an `access_flags` word.
    pub fn bits(&self) -> (b: u16)
        ensures
            b == self.spec_bits(),
    {
        match self {
            AccessFlags::Public => 0x0001,
            AccessFlags::Private => 0x0002,
            AccessFlags::Protected => 0x0004,
            AccessFlags::Static => 0x0008,
            AccessFlags::Final => 0x0010,
            AccessFlags::Volatile => 0x0040,
            AccessFlags::Transient => 0x0080,
            AccessFlags::Synthetic => 0x1000,
            AccessFlags::Enum => 0x4000,
        }
    }
}

} // verus!
