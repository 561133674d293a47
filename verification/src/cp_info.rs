//! The entries of a class file's constant pool.
use vstd::prelude::*;
use crate::bytes::{
    be16, be32, be64, lemma_u16_at, lemma_u32_at, lemma_u64_at, push_u16, push_u32, push_u64,
    u16_bytes, u32_bytes, u64_bytes,
};
use crate::error::ParseError;

verus! {

/// enum containing all JVM cp_info structs
/// for more information refer to the [JVM specification](https://docs.oracle.com/javase/specs/jvms/se8/html/index.html)
#[derive(Debug, Clone, PartialEq, Eq)]
pub enum CPInfo {
    Class { name_index: u16 },
    Fieldref { class_index: u16, name_and_type_index: u16 },
    Methodref { class_index: u16, name_and_type_index: u16 },
    InterfaceMethodref { class_index: u16, name_and_type_index: u16 },
    String { string_index: u16 },
    Integer { bytes: u32 },
    Float { bytes: u32 },
    Long { bytes: u64 },
    Double { bytes: u64 },
    /// Fills the second slot that a `Long` or `Double` occupies.
    LongDoubleDummy,
    NameAndType { name_index: u16, descriptor_index: u16 },
    Utf8 { length: u16, bytes: Vec<u8> },
    MethodHandle { reference_kind: u8, reference_index: u16 },
    MethodType { descriptor_index: u16 },
    InvokeDynamic { bootstrap_method_attr_index: u16, name_and_type_index: u16 },
}

/// The byte tag that a constant pool entry is written with.
pub open spec fn cp_tag(info: CPInfo) -> u8 {
    match info {
        CPInfo::Class { .. } => 7,
        CPInfo::Fieldref { .. } => 9,
        CPInfo::Methodref { .. } => 10,
        CPInfo::InterfaceMethodref { .. } => 11,
        CPInfo::String { .. } => 8,
        CPInfo::Integer { .. } => 3,
        CPInfo::Float { .. } => 4,
        CPInfo::Long { .. } => 5,
        CPInfo::LongDoubleDummy => 255,
        CPInfo::Double { .. } => 6,
        CPInfo::NameAndType { .. } => 12,
        CPInfo::Utf8 { .. } => 1,
        CPInfo::MethodHandle { .. } => 15,
        CPInfo::MethodType { .. } => 16,
        CPInfo::InvokeDynamic { .. } => 18,
    }
}

/// The bytes that `as_bytes` gives for an entry: its tag, then its fields big-endian; a
/// `Utf8` entry gives its tag, its `length` and then its bytes. The dummy gives nothing.
pub open spec fn cp_bytes(info: CPInfo) -> Seq<u8> {
    match info {
        CPInfo::LongDoubleDummy => Seq::empty(),
        CPInfo::Utf8 { length, bytes } => seq![1u8] + u16_bytes(length) + bytes@,
        CPInfo::Class { name_index } => seq![7u8] + u16_bytes(name_index),
        CPInfo::Fieldref { class_index, name_and_type_index } => seq![9u8] + u16_bytes(class_index)
            + u16_bytes(name_and_type_index),
        CPInfo::Methodref { class_index, name_and_type_index } => seq![10u8] + u16_bytes(
            class_index,
        ) + u16_bytes(name_and_type_index),
        CPInfo::InterfaceMethodref { class_index, name_and_type_index } => seq![11u8]
            + u16_bytes(class_index) + u16_bytes(name_and_type_index),
        CPInfo::String { string_index } => seq![8u8] + u16_bytes(string_index),
        CPInfo::Integer { bytes } => seq![3u8] + u32_bytes(bytes),
        CPInfo::Float { bytes } => seq![4u8] + u32_bytes(bytes),
        CPInfo::Long { bytes } => seq![5u8] + u64_bytes(bytes),
        CPInfo::Double { bytes } => seq![6u8] + u64_bytes(bytes),
        CPInfo::NameAndType { name_index, descriptor_index } => seq![12u8] + u16_bytes(name_index)
            + u16_bytes(descriptor_index),
        CPInfo::MethodHandle { reference_kind, reference_index } => seq![15u8, reference_kind]
            + u16_bytes(reference_index),
        CPInfo::MethodType { descriptor_index } => seq![16u8] + u16_bytes(descriptor_index),
        CPInfo::InvokeDynamic { bootstrap_method_attr_index, name_and_type_index } => seq![18u8]
            + u16_bytes(bootstrap_method_attr_index) + u16_bytes(name_and_type_index),
    }
}

impl CPInfo {
    /// returns the byte tag of the given `CPInfo` variant
    pub fn tag(&self) -> (t: u8)
        ensures
            t == cp_tag(*self),
    {
        match *self {
            CPInfo::Class { .. } => 7,
            CPInfo::Fieldref { .. } => 9,
            CPInfo::Methodref { .. } => 10,
            CPInfo::InterfaceMethodref { .. } => 11,
            CPInfo::String { .. } => 8,
            CPInfo::Integer { .. } => 3,
            CPInfo::Float { .. } => 4,
            CPInfo::Long { .. } => 5,
            CPInfo::LongDoubleDummy => 255,
            CPInfo::Double { .. } => 6,
            CPInfo::NameAndType { .. } => 12,
            CPInfo::Utf8 { .. } => 1,
            CPInfo::MethodHandle { .. } => 15,
            CPInfo::MethodType { .. } => 16,
            CPInfo::InvokeDynamic { .. } => 18,
        }
    }

    /// The bytes of this entry as it is written in a class file.
    pub fn as_bytes(&self) -> (ans: Vec<u8>)
        ensures
            ans@ == cp_bytes(*self),
    {
        let mut ans: Vec<u8> = Vec::new();
        if let CPInfo::LongDoubleDummy = self {
            return ans;
        }
        ans.push(self.tag());
        match self {
            CPInfo::Class { name_index } => {
                push_u16(&mut ans, *name_index);
            },
            CPInfo::Fieldref { class_index, name_and_type_index } => {
                push_u16(&mut ans, *class_index);
                push_u16(&mut ans, *name_and_type_index);
            },
            CPInfo::Methodref { class_index, name_and_type_index } => {
                push_u16(&mut ans, *class_index);
                push_u16(&mut ans, *name_and_type_index);
            },
            CPInfo::InterfaceMethodref { class_index, name_and_type_index } => {
                push_u16(&mut ans, *class_index);
                push_u16(&mut ans, *name_and_type_index);
            },
            CPInfo::String { string_index } => {
                push_u16(&mut ans, *string_index);
            },
            CPInfo::Integer { bytes } => {
                push_u32(&mut ans, *bytes);
            },
            CPInfo::Float { bytes } => {
                push_u32(&mut ans, *bytes);
            },
            CPInfo::Long { bytes } => {
                push_u64(&mut ans, *bytes);
            },
            CPInfo::Double { bytes } => {
                push_u64(&mut ans, *bytes);
            },
            CPInfo::NameAndType { name_index, descriptor_index } => {
                push_u16(&mut ans, *name_index);
                push_u16(&mut ans, *descriptor_index);
            },
            CPInfo::Utf8 { length, bytes } => {
                push_u16(&mut ans, *length);
                append_bytes(&mut ans, bytes);
            },
            CPInfo::MethodHandle { reference_kind, reference_index } => {
                ans.push(*reference_kind);
                push_u16(&mut ans, *reference_index);
            },
            CPInfo::MethodType { descriptor_index } => {
                push_u16(&mut ans, *descriptor_index);
            },
            CPInfo::InvokeDynamic { bootstrap_method_attr_index, name_and_type_index } => {
                push_u16(&mut ans, *bootstrap_method_attr_index);
                push_u16(&mut ans, *name_and_type_index);
            },
            CPInfo::LongDoubleDummy => {},
        }
        proof {
            assert(ans@ =~= cp_bytes(*self));
        }
        ans
    }
}

/// Appends the bytes of `src` to `dst`.
fn append_bytes(dst: &mut Vec<u8>, src: &Vec<u8>)
    ensures
        final(dst)@ == old(dst)@ + src@,
{
    let ghost start = dst@;
    let mut i: usize = 0;
    while i < src.len()
        invariant
            i <= src@.len(),
            dst@ == start + src@.subrange(0, i as int),
        decreases src@.len() - i,
    {
        dst.push(src[i]);
        i = i + 1;
        assert(src@.subrange(0, i as int) =~= src@.subrange(0, i - 1) + seq![src@[i - 1]]);
    }
    assert(src@.subrange(0, src@.len() as int) =~= src@);
}

/// The tags that a constant pool entry may carry.
pub open spec fn valid_cp_tag(t: u8) -> bool {
    t == 1 || (3 <= t <= 12) || t == 15 || t == 16 || t == 18
}

/// How many bytes follow the tag of an entry other than `Utf8`.
pub open spec fn cp_body_len(t: u8) -> int {
    if t == 7 || t == 8 || t == 16 {
        2
    } else if t == 15 {
        3
    } else if t == 5 || t == 6 {
        8
    } else {
        4
    }
}

/// Where the constant pool entry at `s[p]` ends, or why it cannot be read.
pub open spec fn cp_entry_end(s: Seq<u8>, p: int) -> Result<int, ParseError> {
    if p + 1 > s.len() {
        Err(ParseError::EndOfFile)
    } else if !valid_cp_tag(s[p]) {
        Err(ParseError::InvalidConstantPoolTag)
    } else if s[p] == 1 {
        if p + 3 > s.len() {
            Err(ParseError::EndOfFile)
        } else if p + 3 + be16(s, p + 1) > s.len() {
            Err(ParseError::EndOfFile)
        } else {
            Ok(p + 3 + be16(s, p + 1))
        }
    } else if p + 1 + cp_body_len(s[p]) > s.len() {
        Err(ParseError::EndOfFile)
    } else {
        Ok(p + 1 + cp_body_len(s[p]))
    }
}

/// The entry at `s[p]`, for every valid tag but that of `Utf8`.
pub open spec fn cp_entry_fixed(s: Seq<u8>, p: int) -> CPInfo {
    let t = s[p];
    if t == 7 {
        CPInfo::Class { name_index: be16(s, p + 1) }
    } else if t == 9 {
        CPInfo::Fieldref { class_index: be16(s, p + 1), name_and_type_index: be16(s, p + 3) }
    } else if t == 10 {
        CPInfo::Methodref { class_index: be16(s, p + 1), name_and_type_index: be16(s, p + 3) }
    } else if t == 11 {
        CPInfo::InterfaceMethodref {
            class_index: be16(s, p + 1),
            name_and_type_index: be16(s, p + 3),
        }
    } else if t == 8 {
        CPInfo::String { string_index: be16(s, p + 1) }
    } else if t == 3 {
        CPInfo::Integer { bytes: be32(s, p + 1) }
    } else if t == 4 {
        CPInfo::Float { bytes: be32(s, p + 1) }
    } else if t == 5 {
        CPInfo::Long { bytes: be64(s, p + 1) }
    } else if t == 6 {
        CPInfo::Double { bytes: be64(s, p + 1) }
    } else if t == 12 {
        CPInfo::NameAndType { name_index: be16(s, p + 1), descriptor_index: be16(s, p + 3) }
    } else if t == 15 {
        CPInfo::MethodHandle { reference_kind: s[p + 1], reference_index: be16(s, p + 2) }
    } else if t == 16 {
        CPInfo::MethodType { descriptor_index: be16(s, p + 1) }
    } else {
        CPInfo::InvokeDynamic {
            bootstrap_method_attr_index: be16(s, p + 1),
            name_and_type_index: be16(s, p + 3),
        }
    }
}

/// `info` is the entry read from `s[p]` (given that `cp_entry_end` is `Ok`).
pub open spec fn cp_entry_is(s: Seq<u8>, p: int, info: CPInfo) -> bool {
    if s[p] == 1 {
        match info {
            CPInfo::Utf8 { length, bytes } => length == be16(s, p + 1) && bytes@ == s.subrange(
                p + 3,
                p + 3 + be16(s, p + 1),
            ),
            _ => false,
        }
    } else {
        info == cp_entry_fixed(s, p)
    }
}

/// The entries that take up two slots of the constant pool.
pub open spec fn is_wide_entry(info: CPInfo) -> bool {
    info is Long || info is Double
}

/// Round trip of the entry encoding: the bytes that `as_bytes` gives for an entry other than
/// the dummy, placed at `p`, are read back as exactly that entry (a `Utf8` entry whose
/// `length` counts its bytes).
pub proof fn law_cp_entry_round_trip(info: CPInfo, s: Seq<u8>, p: int)
    requires
        !(info is LongDoubleDummy),
        info matches CPInfo::Utf8 { length, bytes } ==> length as int == bytes@.len(),
        0 <= p,
        p + cp_bytes(info).len() <= s.len(),
        forall|k: int| 0 <= k < cp_bytes(info).len() ==> s[p + k] == #[trigger] cp_bytes(info)[k],
    ensures
        cp_entry_end(s, p) == Ok::<int, ParseError>(p + cp_bytes(info).len()),
        cp_entry_is(s, p, info),
{
    let b = cp_bytes(info);
    assert(s[p] == b[0]);
    match info {
        CPInfo::Integer { bytes } | CPInfo::Float { bytes } => {
            assert(s[p + 1] == b[1] && s[p + 2] == b[2] && s[p + 3] == b[3] && s[p + 4] == b[4]);
            lemma_u32_at(s, p + 1, bytes);
        },
        CPInfo::Long { bytes } | CPInfo::Double { bytes } => {
            assert forall|k: int| 0 <= k < 8 implies s[p + 1 + k] == #[trigger] u64_bytes(bytes)[k] by {
                assert(s[p + (1 + k)] == b[1 + k]);
            }
            lemma_u64_at(s, p + 1, bytes);
        },
        CPInfo::MethodHandle { reference_kind, reference_index } => {
            assert(s[p + 1] == b[1] && s[p + 2] == b[2] && s[p + 3] == b[3]);
            lemma_u16_at(s, p + 2, reference_index);
        },
        CPInfo::Class { name_index: a } | CPInfo::String { string_index: a } | CPInfo::MethodType {
            descriptor_index: a,
        } => {
            assert(s[p + 1] == b[1] && s[p + 2] == b[2]);
            lemma_u16_at(s, p + 1, a);
        },
        CPInfo::Fieldref { class_index: a, name_and_type_index: c } | CPInfo::Methodref {
            class_index: a,
            name_and_type_index: c,
        } | CPInfo::InterfaceMethodref { class_index: a, name_and_type_index: c }
        | CPInfo::NameAndType { name_index: a, descriptor_index: c } | CPInfo::InvokeDynamic {
            bootstrap_method_attr_index: a,
            name_and_type_index: c,
        } => {
            assert(s[p + 1] == b[1] && s[p + 2] == b[2] && s[p + 3] == b[3] && s[p + 4] == b[4]);
            lemma_u16_at(s, p + 1, a);
            lemma_u16_at(s, p + 3, c);
        },
        CPInfo::Utf8 { length, bytes } => {
            assert(s[p + 1] == b[1] && s[p + 2] == b[2]);
            lemma_u16_at(s, p + 1, length);
            assert(s.subrange(p + 3, p + 3 + length as int) =~= bytes@) by {
                assert forall|k: int| 0 <= k < bytes@.len() implies s[p + 3 + k] == bytes@[k] by {
                    assert(s[p + (3 + k)] == b[3 + k]);
                }
            }
        },
        _ => {},
    }
}

} // verus!
