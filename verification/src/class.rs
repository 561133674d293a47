//! A parsed Java class file.
use vstd::prelude::*;
use crate::attr_parse::{attrs_end, attrs_is, read_attributes};
use crate::attr_spec::{counted16_end, counted16_is, cp_names, fixed_end};
use crate::attributes::Attribute;
use crate::bytes::{be16, be32};
use crate::cp::{cp_at, cp_has, CPIndex, ConstantPool};
use crate::cp_info::{cp_entry_fixed, cp_entry_is, CPInfo};
use crate::cp_parse::{build_cp, cp_matches, cp_scan};
use crate::error::ParseError;
use crate::fields::FieldInfo;
use crate::grammar::{lemma_many_fail, lemma_many_snoc, many_end, many_is};
use crate::methods::MethodInfo;
use crate::mutf8::{decode_chars, modified_utf8_chars};
pub use crate::reader::JavaClassReader;
use crate::text::string_from_chars;
use vstd::utf8::{decode_utf8, valid_utf8};

verus! {

/// An enum containing the access flags of a Java Class
pub enum AccessFlags {
    Public,
    Final,
    Super,
    Interface,
    Abstract,
    Synthetic,
    Annotation,
    Enum,
}

impl AccessFlags {
    /// The bit that stands for this flag in an `access_flags` word.
    pub open spec fn spec_bits(&self) -> u16 {
        match self {
            AccessFlags::Public => 0x0001,
            AccessFlags::Final => 0x0010,
            AccessFlags::Super => 0x0020,
            AccessFlags::Interface => 0x0200,
            AccessFlags::Abstract => 0x0400,
            AccessFlags::Synthetic => 0x1000,
            AccessFlags::Annotation => 0x2000,
            AccessFlags::Enum => 0x4000,
        }
    }

    /// The bit that stands for this flag in an `access_flags` word.
    pub fn bits(&self) -> (b: u16)
        ensures
            b == self.spec_bits(),
    {
        match self {
            AccessFlags::Public => 0x0001,
            AccessFlags::Final => 0x0010,
            AccessFlags::Super => 0x0020,
            AccessFlags::Interface => 0x0200,
            AccessFlags::Abstract => 0x0400,
            AccessFlags::Synthetic => 0x1000,
            AccessFlags::Annotation => 0x2000,
            AccessFlags::Enum => 0x4000,
        }
    }
}

#[derive(Debug)]
pub struct JavaClass {
    pub minor_version: u16,
    pub major_version: u16,
    pub constant_pool: ConstantPool,
    pub access_flags: u16,
    pub this_class: CPIndex,
    pub super_class: CPIndex,
    pub interfaces: Vec<CPIndex>,
    pub fields: Vec<FieldInfo>,
    pub methods: Vec<MethodInfo>,
    pub attributes: Vec<Attribute>,
}

/// The attribute names of the constant pool read from the slots `slots` of `s` (see
/// `cp_scan`): the bytes of each `Utf8` entry.
pub open spec fn cp_names_of(s: Seq<u8>, slots: Seq<Option<int>>) -> Seq<Option<Seq<u8>>> {
    Seq::new(
        slots.len(),
        |i: int|
            match slots[i] {
                Some(q) => if s[q] == 1u8 {
                    Some(s.subrange(q + 3, q + 3 + be16(s, q + 1)))
                } else {
                    None
                },
                None => None,
            },
    )
}

/// The attribute names of a constant pool are fixed by the bytes it was read from.
pub proof fn lemma_cp_names_of(s: Seq<u8>, slots: Seq<Option<int>>, cp: Seq<CPInfo>)
    requires
        cp_matches(s, slots, cp),
    ensures
        cp_names(cp) == cp_names_of(s, slots),
{
    assert forall|i: int| 0 <= i < cp.len() implies #[trigger] cp_names(cp)[i] == cp_names_of(
        s,
        slots,
    )[i] by {
        match slots[i] {
            Some(q) => {
                assert(cp_entry_is(s, q, cp[i]));
                if s[q] != 1u8 {
                    assert(cp[i] == cp_entry_fixed(s, q));
                }
            },
            None => {},
        }
    }
    assert(cp_names(cp) =~= cp_names_of(s, slots));
}

/// Where a field or method (three `u16`s and its attributes) at `s[p]` ends.
pub open spec fn member_end(s: Seq<u8>, p: int, names: Seq<Option<Seq<u8>>>) -> Result<int, ParseError> {
    if p + 6 > s.len() {
        Err(ParseError::EndOfFile)
    } else {
        attrs_end(s, p + 6, names)
    }
}

pub open spec fn member_end_fn(names: Seq<Option<Seq<u8>>>) -> spec_fn(Seq<u8>, int) -> Result<
    int,
    ParseError,
> {
    |s: Seq<u8>, p: int| member_end(s, p, names)
}

pub open spec fn field_is_fn(names: Seq<Option<Seq<u8>>>) -> spec_fn(Seq<u8>, int, FieldInfo) -> bool {
    |s: Seq<u8>, p: int, x: FieldInfo|
        {
            &&& x.access_flags == be16(s, p)
            &&& x.name_index == be16(s, p + 2)
            &&& x.descriptor_index == be16(s, p + 4)
            &&& attrs_is(s, p + 6, names, x.attributes@)
        }
}

pub open spec fn method_is_fn(names: Seq<Option<Seq<u8>>>) -> spec_fn(Seq<u8>, int, MethodInfo) -> bool {
    |s: Seq<u8>, p: int, x: MethodInfo|
        {
            &&& x.access_flags == be16(s, p)
            &&& x.name_index == be16(s, p + 2)
            &&& x.descriptor_index == be16(s, p + 4)
            &&& attrs_is(s, p + 6, names, x.attributes@)
        }
}

pub open spec fn index_is() -> spec_fn(Seq<u8>, int, CPIndex) -> bool {
    |s: Seq<u8>, p: int, x: CPIndex| x@ == be16(s, p)
}

/// Where the part of a class file that follows its constant pool, at `s[c]`, ends.
pub open spec fn class_rest_end(s: Seq<u8>, c: int, names: Seq<Option<Seq<u8>>>) -> Result<
    int,
    ParseError,
> {
    if c + 8 > s.len() {
        Err(ParseError::EndOfFile)
    } else {
        match many_end(s, c + 8, be16(s, c + 6) as nat, fixed_end(2)) {
            Err(e) => Err(e),
            Ok(d) => match counted16_end(s, d, member_end_fn(names)) {
                Err(e) => Err(e),
                Ok(f) => match counted16_end(s, f, member_end_fn(names)) {
                    Err(e) => Err(e),
                    Ok(m) => attrs_end(s, m, names),
                },
            },
        }
    }
}

/// Where a class file read from the start of `s` ends, or why it cannot be read. What
/// follows the class's attributes is not read.
pub open spec fn class_end(s: Seq<u8>) -> Result<int, ParseError> {
    if 4 > s.len() {
        Err(ParseError::EndOfFile)
    } else if be32(s, 0) != 0xCAFEBABEu32 {
        Err(ParseError::WrongMagic)
    } else if 10 > s.len() {
        Err(ParseError::EndOfFile)
    } else if be16(s, 8) == 0 {
        Err(ParseError::InvalidConstantPoolCount)
    } else {
        match cp_scan(s, 10, be16(s, 8) - 1) {
            Err(e) => Err(e),
            Ok((slots, c)) => class_rest_end(s, c, cp_names_of(s, slots)),
        }
    }
}

/// `jc` is the class read from the start of `s` (given that `class_end` is `Ok`).
pub open spec fn class_is(s: Seq<u8>, jc: JavaClass) -> bool {
    &&& jc.minor_version == be16(s, 4)
    &&& jc.major_version == be16(s, 6)
    &&& cp_scan(s, 10, be16(s, 8) - 1) matches Ok((slots, c)) && {
        let names = cp_names_of(s, slots);
        &&& cp_matches(s, slots, jc.constant_pool@)
        &&& jc.access_flags == be16(s, c)
        &&& jc.this_class@ == be16(s, c + 2)
        &&& jc.super_class@ == be16(s, c + 4)
        &&& jc.interfaces@.len() == be16(s, c + 6)
        &&& many_is(s, c + 8, jc.interfaces@, fixed_end(2), index_is())
        &&& many_end(s, c + 8, be16(s, c + 6) as nat, fixed_end(2)) matches Ok(d) && {
            &&& counted16_is(s, d, jc.fields@, member_end_fn(names), field_is_fn(names))
            &&& counted16_end(s, d, member_end_fn(names)) matches Ok(f) && {
                &&& counted16_is(s, f, jc.methods@, member_end_fn(names), method_is_fn(names))
                &&& counted16_end(s, f, member_end_fn(names)) matches Ok(m) && attrs_is(
                    s,
                    m,
                    names,
                    jc.attributes@,
                )
            }
        }
    }
}

/// The message `get_name` gives when the class's name is not where it should be.
pub open spec fn no_name_message() -> Seq<char> {
    "Class Pool index did not point to Utf8"@
}

/// `get_name` can run: `this_class` points into the constant pool, and a `Class` entry there
/// points into it too, at UTF-8 bytes if they are a `Utf8` entry.
pub open spec fn get_name_ok(jc: JavaClass) -> bool {
    let cp = jc.constant_pool@;
    &&& cp_has(cp, jc.this_class@ as int)
    &&& cp_at(cp, jc.this_class@ as int) matches CPInfo::Class { name_index } ==> {
        &&& cp_has(cp, name_index as int)
        &&& cp_at(cp, name_index as int) matches CPInfo::Utf8 { bytes, .. } ==> valid_utf8(bytes@)
    }
}

/// The name of a class: the UTF-8 text of the `Utf8` entry that its `Class` entry names.
pub open spec fn spec_class_name(jc: JavaClass) -> Seq<char> {
    let cp = jc.constant_pool@;
    match cp_at(cp, jc.this_class@ as int) {
        CPInfo::Class { name_index } => match cp_at(cp, name_index as int) {
            CPInfo::Utf8 { bytes, .. } => decode_utf8(bytes@),
            _ => no_name_message(),
        },
        _ => no_name_message(),
    }
}

/// The text that UTF-8 bytes stand for, if they are valid UTF-8 (std's `str::from_utf8`,
/// which accepts exactly the valid UTF-8 byte strings and reads their characters).
#[verifier::external_body]
fn utf8_to_str(bytes: &[u8]) -> (res: Option<&str>)
    ensures
        res.is_some() == valid_utf8(bytes@),
        res.is_some() ==> res.unwrap()@ == decode_utf8(bytes@),
{
    match std::str::from_utf8(bytes) {
        Ok(s) => Some(s),
        Err(_) => None,
    }
}

/// reads a String based on a list of bytes representing a Java-style modified UTF-8 list of bytes
/// JVM specification §4.4.7; bytes that are not valid modified UTF-8 are read one character
/// per byte.
pub fn read_string(bytes: &[u8]) -> (s: String)
    ensures
        s@ == modified_utf8_chars(bytes@),
{
    string_from_chars(decode_chars(bytes))
}

impl JavaClass {
    pub fn empty() -> (jc: JavaClass)
        ensures
            jc.minor_version == 0,
            jc.major_version == 0,
            jc.constant_pool@ == Seq::<CPInfo>::empty(),
            jc.access_flags == 0,
            jc.this_class@ == 0,
            jc.super_class@ == 0,
            jc.interfaces@ == Seq::<CPIndex>::empty(),
            jc.fields@ == Seq::<FieldInfo>::empty(),
            jc.methods@ == Seq::<MethodInfo>::empty(),
            jc.attributes@ == Seq::<Attribute>::empty(),
    {
        JavaClass {
            minor_version: 0,
            major_version: 0,
            constant_pool: ConstantPool::default(),
            access_flags: 0,
            this_class: CPIndex::default(),
            super_class: CPIndex::default(),
            interfaces: Vec::new(),
            fields: Vec::new(),
            methods: Vec::new(),
            attributes: Vec::new(),
        }
    }

    /// Reads a class from the bytes of a class file.
    pub fn new_from_bytes(bytes: Vec<u8>) -> (res: Result<JavaClass, ParseError>)
        requires
            bytes@.len() <= u32::MAX,
        ensures
            match class_end(bytes@) {
                Ok(_) => res matches Ok(jc) && class_is(bytes@, jc),
                Err(e) => res == Err::<JavaClass, ParseError>(e),
            },
    {
        let ghost s = bytes@;
        let r = JavaClassReader::new_from_bytes(bytes)?;
        JavaClass::build(r)
    }

    /// Reads a class from a reader positioned at the start of its bytes.
    #[verifier::rlimit(100)]
    pub fn build(r: JavaClassReader) -> (res: Result<JavaClass, ParseError>)
        requires
            r.valid(),
            r.pos() == 0,
        ensures
            match class_end(r.bytes()) {
                Ok(_) => res matches Ok(jc) && class_is(r.bytes(), jc),
                Err(e) => res == Err::<JavaClass, ParseError>(e),
            },
    {
        let mut r = r;
        let ghost s = r.bytes();
        let magic = r.next32()?;
        if magic != 0xCAFEBABE {
            return Err(ParseError::WrongMagic);
        }
        let minor_version = r.next16()?;
        let major_version = r.next16()?;
        let cp_count = r.next16()?;
        let cp = build_cp(&mut r, cp_count)?;
        let ghost slots = cp_scan(s, 10, cp_count - 1)->Ok_0.0;
        let ghost names = cp_names_of(s, slots);
        proof {
            lemma_cp_names_of(s, slots, cp@);
        }
        let ghost c = r.pos();
        let access_flags = r.next16()?;
        let this_index = r.next16()?;
        let super_index = r.next16()?;
        let this_class: CPIndex = this_index.into();
        let super_class: CPIndex = super_index.into();
        proof {
            CPIndex::lemma_new_view(this_index);
            CPIndex::lemma_new_view(super_index);
        }
        let interfaces_count = r.next16()?;
        let interfaces = read_indices(&mut r, interfaces_count)?;
        let fields = read_fields(&mut r, &cp)?;
        let methods = read_methods(&mut r, &cp)?;
        let attributes = read_attributes(&mut r, &cp)?;
        Ok(
            JavaClass {
                minor_version,
                major_version,
                constant_pool: cp,
                access_flags,
                this_class,
                super_class,
                interfaces,
                fields,
                methods,
                attributes,
            },
        )
    }

    pub fn is_interface(&self) -> (b: bool)
        ensures
            b == (self.access_flags & 0x0200u16 != 0),
    {
        self.access_flags & AccessFlags::Interface.bits() != 0
    }

    /// The name of this class, taken from the constant pool.
    pub fn get_name(&self) -> (name: String)
        requires
            get_name_ok(*self),
        ensures
            name@ == spec_class_name(*self),
    {
        match self.constant_pool.index(self.this_class) {
            CPInfo::Class { name_index } => {
                proof {
                    CPIndex::lemma_new_view(*name_index);
                }
                match self.constant_pool.index((*name_index).into()) {
                    CPInfo::Utf8 { bytes, .. } => {
                        match utf8_to_str(bytes.as_slice()) {
                            Some(s) => s.to_owned(),
                            None => "Class Pool index did not point to Utf8".to_owned(),
                        }
                    },
                    _ => "Class Pool index did not point to Utf8".to_owned(),
                }
            },
            _ => "Class Pool index did not point to Utf8".to_owned(),
        }
    }
}

/// Reads `n` constant pool indices one after another.
fn read_indices(r: &mut JavaClassReader, n: u16) -> (res: Result<Vec<CPIndex>, ParseError>)
    requires
        old(r).valid(),
    ensures
        final(r).valid(),
        final(r).bytes() == old(r).bytes(),
        old(r).pos() <= final(r).pos(),
        match many_end(old(r).bytes(), old(r).pos(), n as nat, fixed_end(2)) {
            Ok(q) => res matches Ok(v) && v@.len() == n && many_is(
                old(r).bytes(),
                old(r).pos(),
                v@,
                fixed_end(2),
                index_is(),
            ) && final(r).pos() == q,
            Err(e) => res == Err::<Vec<CPIndex>, ParseError>(e),
        },
{
    let ghost s = r.bytes();
    let ghost p0 = r.pos();
    let mut v: Vec<CPIndex> = Vec::new();
    let mut i: u16 = 0;
    while i < n
        invariant
            r.valid(),
            r.bytes() == s,
            s == old(r).bytes(),
            p0 == old(r).pos(),
            p0 <= r.pos(),
            i <= n,
            v@.len() == i,
            many_end(s, p0, i as nat, fixed_end(2)) == Ok::<int, ParseError>(r.pos()),
            many_is(s, p0, v@, fixed_end(2), index_is()),
        decreases n - i,
    {
        let ghost p = r.pos();
        let x: CPIndex = match r.next16() {
            Ok(x) => x.into(),
            Err(e) => {
                proof {
                    lemma_many_fail(s, p0, i as nat, n as nat, p, e, fixed_end(2));
                }
                return Err(e);
            },
        };
        proof {
            CPIndex::lemma_new_view(be16(s, p));
            lemma_many_snoc(s, p0, v@, x, p, r.pos(), fixed_end(2), index_is());
        }
        v.push(x);
        i = i + 1;
    }
    Ok(v)
}

/// Reads a `u16` count and that many fields.
fn read_fields(r: &mut JavaClassReader, cp: &ConstantPool) -> (res: Result<Vec<FieldInfo>, ParseError>)
    requires
        old(r).valid(),
    ensures
        final(r).valid(),
        final(r).bytes() == old(r).bytes(),
        old(r).pos() <= final(r).pos(),
        match counted16_end(old(r).bytes(), old(r).pos(), member_end_fn(cp_names(cp@))) {
            Ok(q) => res matches Ok(v) && counted16_is(
                old(r).bytes(),
                old(r).pos(),
                v@,
                member_end_fn(cp_names(cp@)),
                field_is_fn(cp_names(cp@)),
            ) && final(r).pos() == q,
            Err(e) => res == Err::<Vec<FieldInfo>, ParseError>(e),
        },
{
    let ghost s = r.bytes();
    let ghost names = cp_names(cp@);
    let n = r.next16()?;
    let ghost p0 = r.pos();
    let mut v: Vec<FieldInfo> = Vec::new();
    let mut i: u16 = 0;
    while i < n
        invariant
            r.valid(),
            r.bytes() == s,
            s == old(r).bytes(),
            p0 == old(r).pos() + 2,
            p0 <= r.pos(),
            p0 <= s.len(),
            n == be16(s, old(r).pos()),
            i <= n,
            v@.len() == i,
            names == cp_names(cp@),
            many_end(s, p0, i as nat, member_end_fn(names)) == Ok::<int, ParseError>(r.pos()),
            many_is(s, p0, v@, member_end_fn(names), field_is_fn(names)),
        decreases n - i,
    {
        let ghost p = r.pos();
        let x = match read_field(r, cp) {
            Ok(x) => x,
            Err(e) => {
                proof {
                    lemma_many_fail(s, p0, i as nat, n as nat, p, e, member_end_fn(names));
                }
                return Err(e);
            },
        };
        proof {
            lemma_many_snoc(s, p0, v@, x, p, r.pos(), member_end_fn(names), field_is_fn(names));
        }
        v.push(x);
        i = i + 1;
    }
    Ok(v)
}

/// Reads one field.
fn read_field(r: &mut JavaClassReader, cp: &ConstantPool) -> (res: Result<FieldInfo, ParseError>)
    requires
        old(r).valid(),
    ensures
        final(r).valid(),
        final(r).bytes() == old(r).bytes(),
        old(r).pos() <= final(r).pos(),
        match member_end(old(r).bytes(), old(r).pos(), cp_names(cp@)) {
            Ok(q) => res matches Ok(x) && field_is_fn(cp_names(cp@))(old(r).bytes(), old(r).pos(), x)
                && final(r).pos() == q,
            Err(e) => res == Err::<FieldInfo, ParseError>(e),
        },
{
    let access_flags = r.next16()?;
    let name_index = r.next16()?;
    let descriptor_index = r.next16()?;
    let attributes = read_attributes(r, cp)?;
    Ok(FieldInfo { access_flags, name_index, descriptor_index, attributes })
}

/// Reads a `u16` count and that many methods.
fn read_methods(r: &mut JavaClassReader, cp: &ConstantPool) -> (res: Result<Vec<MethodInfo>, ParseError>)
    requires
        old(r).valid(),
    ensures
        final(r).valid(),
        final(r).bytes() == old(r).bytes(),
        old(r).pos() <= final(r).pos(),
        match counted16_end(old(r).bytes(), old(r).pos(), member_end_fn(cp_names(cp@))) {
            Ok(q) => res matches Ok(v) && counted16_is(
                old(r).bytes(),
                old(r).pos(),
                v@,
                member_end_fn(cp_names(cp@)),
                method_is_fn(cp_names(cp@)),
            ) && final(r).pos() == q,
            Err(e) => res == Err::<Vec<MethodInfo>, ParseError>(e),
        },
{
    let ghost s = r.bytes();
    let ghost names = cp_names(cp@);
    let n = r.next16()?;
    let ghost p0 = r.pos();
    let mut v: Vec<MethodInfo> = Vec::new();
    let mut i: u16 = 0;
    while i < n
        invariant
            r.valid(),
            r.bytes() == s,
            s == old(r).bytes(),
            p0 == old(r).pos() + 2,
            p0 <= r.pos(),
            p0 <= s.len(),
            n == be16(s, old(r).pos()),
            i <= n,
            v@.len() == i,
            names == cp_names(cp@),
            many_end(s, p0, i as nat, member_end_fn(names)) == Ok::<int, ParseError>(r.pos()),
            many_is(s, p0, v@, member_end_fn(names), method_is_fn(names)),
        decreases n - i,
    {
        let ghost p = r.pos();
        let x = match read_method(r, cp) {
            Ok(x) => x,
            Err(e) => {
                proof {
                    lemma_many_fail(s, p0, i as nat, n as nat, p, e, member_end_fn(names));
                }
                return Err(e);
            },
        };
        proof {
            lemma_many_snoc(s, p0, v@, x, p, r.pos(), member_end_fn(names), method_is_fn(names));
        }
        v.push(x);
        i = i + 1;
    }
    Ok(v)
}

/// Reads one method.
fn read_method(r: &mut JavaClassReader, cp: &ConstantPool) -> (res: Result<MethodInfo, ParseError>)
    requires
        old(r).valid(),
    ensures
        final(r).valid(),
        final(r).bytes() == old(r).bytes(),
        old(r).pos() <= final(r).pos(),
        match member_end(old(r).bytes(), old(r).pos(), cp_names(cp@)) {
            Ok(q) => res matches Ok(x) && method_is_fn(cp_names(cp@))(old(r).bytes(), old(r).pos(), x)
                && final(r).pos() == q,
            Err(e) => res == Err::<MethodInfo, ParseError>(e),
        },
{
    let access_flags = r.next16()?;
    let name_index = r.next16()?;
    let descriptor_index = r.next16()?;
    let attributes = read_attributes(r, cp)?;
    Ok(MethodInfo { access_flags, name_index, descriptor_index, attributes })
}

} // verus!
