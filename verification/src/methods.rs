//! The methods of a class.
use vstd::prelude::*;
use crate::attributes::Attribute;

verus! {

/// struct representing the MethodInfo struct
/// for more information refer to the [JVM specification](https://docs.oracle.com/javase/specs/jvms/se8/html/index.html)
#[derive(Debug, PartialEq)]
pub struct MethodInfo {
    pub access_flags: u16,
    pub name_index: u16,
    pub descriptor_index: u16,
    pub attributes: Vec<Attribute>,
}

impl MethodInfo {
    pub fn is_native(&self) -> (b: bool)
        ensures
            b == (self.access_flags & 0x0100u16 != 0),
    {
        self.access_flags & AccessFlags::Native.bits() != 0
    }

    pub fn is_abstract(&self) -> (b: bool)
        ensures
            b == (self.access_flags & 0x0400u16 != 0),
    {
        self.access_flags & AccessFlags::Abstract.bits() != 0
    }
}

/// The access flags of a method.
pub enum AccessFlags {
    Public,
    Private,
    Protected,
    Static,
    Final,
    Synchronized,
    Bridge,
    Varargs,
    Native,
    Abstract,
    Strict,
    Synthetic,
}

impl AccessFlags {
    /// The bit that stands for this flag in an `access_flags` word.
    pub open spec fn spec_bits(&self) -> u16 {
        match self {
            AccessFlags::Public => 0x0001,
            AccessFlags::Private => 0x0002,
            AccessFlags::Protected => 0x0004,
            AccessFlags::Static => 0x0008,
            AccessFlags::Final => 0x0010,
            AccessFlags::Synchronized => 0x0020,
            AccessFlags::Bridge => 0x0040,
            AccessFlags::Varargs => 0x0080,
            AccessFlags::Native => 0x0100,
            AccessFlags::Abstract => 0x0400,
            AccessFlags::Strict => 0x0800,
            AccessFlags::Synthetic => 0x1000,
        }
    }

    /// The bit that stands for this flag in an `access_flags` word.
    pub fn bits(&self) -> (b: u16)
        ensures
            b == self.spec_bits(),
    {
        match self {
            AccessFlags::Public => 0x0001,
            AccessFlags::Private => 0x0002,
            AccessFlags::Protected => 0x0004,
            AccessFlags::Static => 0x0008,
            AccessFlags::Final => 0x0010,
            AccessFlags::Synchronized => 0x0020,
            AccessFlags::Bridge => 0x0040,
            AccessFlags::Varargs => 0x0080,
            AccessFlags::Native => 0x0100,
            AccessFlags::Abstract => 0x0400,
            AccessFlags::Strict => 0x0800,
            AccessFlags::Synthetic => 0x1000,
        }
    }
}

} // verus!
