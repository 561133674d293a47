//! The ways in which a class file can be malformed.
use vstd::prelude::*;

verus! {

/// Why a class file could not be read.
#[derive(Debug, Clone, Copy, PartialEq, Eq, Structural)]
pub enum ParseError {
    /// The input ended in the middle of an item.
    EndOfFile,
    /// The file did not start with `0xCAFEBABE`.
    WrongMagic,
    /// A constant pool entry had a tag outside the ones the format defines.
    InvalidConstantPoolTag,
    /// The name of an attribute did not refer to a `Utf8` constant.
    AttributeNameNotUtf8,
    /// A method body ended in the middle of an instruction.
    InvalidBytecode,
    /// A stack map frame had a tag outside the defined ranges.
    InvalidStackMapFrameTag,
    /// An attribute had a name that is not one of the defined attributes.
    InvalidAttributeName,
    /// A type annotation had an unknown target type.
    BadTargetInfoTag,
    /// An element value had an unknown tag.
    InvalidElementValueTag,
    /// A verification type had an unknown tag.
    BadVerificationTypeInfo,
    /// A constant pool index pointed outside the constant pool.
    BadConstantPoolIndex,
    /// The constant pool count was zero.
    InvalidConstantPoolCount,
}

impl ParseError {
    /// The text that describes this error to a user.
    pub fn message(&self) -> (s: String)
        ensures
            s@ == self.spec_message(),
    {
        let reason = match self {
            ParseError::EndOfFile => "Reached eof early",
            ParseError::WrongMagic => "Wrong magic number",
            ParseError::InvalidConstantPoolTag => "Invalid constant pool tag",
            ParseError::AttributeNameNotUtf8 => "Attribute tag was not Utf8",
            ParseError::InvalidBytecode => "Invalid bytecode",
            ParseError::InvalidStackMapFrameTag => "Invalid stackmapframe tag",
            ParseError::InvalidAttributeName => "invalid attribute name",
            ParseError::BadTargetInfoTag => "Bad target info tag",
            ParseError::InvalidElementValueTag => "invalid elementvalue tag",
            ParseError::BadVerificationTypeInfo => "Bad verification type info number",
            ParseError::BadConstantPoolIndex => "Constant pool index out of range",
            ParseError::InvalidConstantPoolCount => "Invalid constant pool count",
        };
        let mut s = "Malformed class file: ".to_owned();
        s.append(reason);
        s
    }

    pub open spec fn spec_reason(&self) -> Seq<char> {
        match self {
            ParseError::EndOfFile => "Reached eof early"@,
            ParseError::WrongMagic => "Wrong magic number"@,
            ParseError::InvalidConstantPoolTag => "Invalid constant pool tag"@,
            ParseError::AttributeNameNotUtf8 => "Attribute tag was not Utf8"@,
            ParseError::InvalidBytecode => "Invalid bytecode"@,
            ParseError::InvalidStackMapFrameTag => "Invalid stackmapframe tag"@,
            ParseError::InvalidAttributeName => "invalid attribute name"@,
            ParseError::BadTargetInfoTag => "Bad target info tag"@,
            ParseError::InvalidElementValueTag => "invalid elementvalue tag"@,
            ParseError::BadVerificationTypeInfo => "Bad verification type info number"@,
            ParseError::BadConstantPoolIndex => "Constant pool index out of range"@,
            ParseError::InvalidConstantPoolCount => "Invalid constant pool count"@,
        }
    }

    pub open spec fn spec_message(&self) -> Seq<char> {
        "Malformed class file: "@ + self.spec_reason()
    }
}

} // verus!
