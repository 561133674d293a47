use java_class::attributes::Attribute;
use java_class::class::{read_string, JavaClass};
use java_class::cp_info::CPInfo;
use java_class::error::ParseError;
use java_class::opcodes::Opcode;

fn push_u16(v: &mut Vec<u8>, x: u16) {
    v.push((x >> 8) as u8);
    v.push(x as u8);
}

fn push_u32(v: &mut Vec<u8>, x: u32) {
    v.extend_from_slice(&x.to_be_bytes());
}

fn push_utf8(v: &mut Vec<u8>, s: &str) {
    v.push(1);
    push_u16(v, s.len() as u16);
    v.extend_from_slice(s.as_bytes());
}

/// A class `Foo` extending `java/lang/Object` with one method `main()V` whose code is a
/// single `return`.
fn sample_class() -> Vec<u8> {
    let mut v = vec![0xCA, 0xFE, 0xBA, 0xBE];
    push_u16(&mut v, 0); // minor
    push_u16(&mut v, 52); // major
    push_u16(&mut v, 8); // constant pool count
    v.extend_from_slice(&[7, 0, 2]); // #1 Class -> #2
    push_utf8(&mut v, "Foo"); // #2
    v.extend_from_slice(&[7, 0, 4]); // #3 Class -> #4
    push_utf8(&mut v, "java/lang/Object"); // #4
    push_utf8(&mut v, "main"); // #5
    push_utf8(&mut v, "()V"); // #6
    push_utf8(&mut v, "Code"); // #7
    push_u16(&mut v, 0x0021); // access
    push_u16(&mut v, 1); // this
    push_u16(&mut v, 3); // super
    push_u16(&mut v, 0); // interfaces
    push_u16(&mut v, 0); // fields
    push_u16(&mut v, 1); // methods
    push_u16(&mut v, 0x0009);
    push_u16(&mut v, 5);
    push_u16(&mut v, 6);
    push_u16(&mut v, 1); // one attribute
    push_u16(&mut v, 7); // Code
    push_u32(&mut v, 13);
    push_u16(&mut v, 0); // max_stack
    push_u16(&mut v, 1); // max_locals
    push_u32(&mut v, 1); // code length
    v.push(0xb1); // return
    push_u16(&mut v, 0); // exception table
    push_u16(&mut v, 0); // attributes
    push_u16(&mut v, 0); // class attributes
    v
}

#[test]
fn parses_a_small_class() {
    let jc = JavaClass::new_from_bytes(sample_class()).unwrap();
    assert_eq!(jc.major_version, 52);
    assert_eq!(jc.minor_version, 0);
    assert_eq!(jc.access_flags, 0x0021);
    assert_eq!(jc.this_class.as_u16(), 1);
    assert_eq!(jc.super_class.as_u16(), 3);
    assert_eq!(jc.constant_pool.len(), 8);
    assert_eq!(jc.constant_pool.items()[0], CPInfo::Class { name_index: 2 });
    assert_eq!(jc.get_name(), "Foo");
    assert!(!jc.is_interface());
    assert_eq!(jc.methods.len(), 1);
    let m = &jc.methods[0];
    assert_eq!(m.access_flags, 0x0009);
    assert!(!m.is_native());
    assert!(!m.is_abstract());
    match &m.attributes[0] {
        Attribute::Code { max_stack, max_locals, code, exception_table, attributes } => {
            assert_eq!(*max_stack, 0);
            assert_eq!(*max_locals, 1);
            assert_eq!(code, &vec![Opcode::return_]);
            assert!(exception_table.is_empty());
            assert!(attributes.is_empty());
        }
        other => panic!("not a Code attribute: {:?}", other),
    }
}

#[test]
fn wrong_magic_is_refused() {
    let mut bytes = sample_class();
    bytes[0] = 0;
    assert_eq!(JavaClass::new_from_bytes(bytes).unwrap_err(), ParseError::WrongMagic);
}

#[test]
fn truncated_file_is_refused() {
    let bytes = sample_class();
    for cut in [0usize, 3, 9, 20, bytes.len() - 1] {
        let part = bytes[..cut].to_vec();
        assert_eq!(JavaClass::new_from_bytes(part).unwrap_err(), ParseError::EndOfFile, "cut at {}", cut);
    }
}

#[test]
fn every_prefix_is_refused() {
    let bytes = sample_class();
    for cut in 0..bytes.len() {
        assert!(JavaClass::new_from_bytes(bytes[..cut].to_vec()).is_err(), "cut at {}", cut);
    }
}

#[test]
fn bad_constant_pool_tag_is_refused() {
    let mut bytes = sample_class();
    bytes[10] = 2; // tag of entry #1
    assert_eq!(JavaClass::new_from_bytes(bytes).unwrap_err(), ParseError::InvalidConstantPoolTag);
}

#[test]
fn zero_constant_pool_count_is_refused() {
    let mut bytes = sample_class();
    bytes[8] = 0;
    bytes[9] = 0;
    assert_eq!(JavaClass::new_from_bytes(bytes).unwrap_err(), ParseError::InvalidConstantPoolCount);
}

#[test]
fn unknown_attribute_name_is_refused() {
    let mut bytes = sample_class();
    // rename "Code" (#7) to "Cods"
    let pos = bytes.windows(4).position(|w| w == b"Code").unwrap();
    bytes[pos + 3] = b's';
    assert_eq!(JavaClass::new_from_bytes(bytes).unwrap_err(), ParseError::InvalidAttributeName);
}

#[test]
fn attribute_name_must_be_utf8() {
    let mut bytes = sample_class();
    // the method's attribute names #1, a Class entry
    let pos = bytes.windows(4).position(|w| w == [0x00, 0x09, 0x00, 0x05]).unwrap();
    bytes[pos + 8] = 0;
    bytes[pos + 9] = 1;
    assert_eq!(JavaClass::new_from_bytes(bytes).unwrap_err(), ParseError::AttributeNameNotUtf8);
}

#[test]
fn attribute_name_index_out_of_range() {
    let mut bytes = sample_class();
    let pos = bytes.windows(4).position(|w| w == [0x00, 0x09, 0x00, 0x05]).unwrap();
    bytes[pos + 8] = 0;
    bytes[pos + 9] = 40;
    assert_eq!(JavaClass::new_from_bytes(bytes).unwrap_err(), ParseError::BadConstantPoolIndex);
}

#[test]
fn error_messages() {
    assert_eq!(ParseError::EndOfFile.message(), "Malformed class file: Reached eof early");
    assert_eq!(ParseError::WrongMagic.message(), "Malformed class file: Wrong magic number");
    assert_eq!(
        ParseError::InvalidBytecode.message(),
        "Malformed class file: Invalid bytecode"
    );
}

#[test]
fn empty_class() {
    let jc = JavaClass::empty();
    assert_eq!(jc.constant_pool.items().len(), 0);
    assert!(jc.constant_pool.is_empty());
    assert!(jc.methods.is_empty());
    assert_eq!(jc.this_class.as_u16(), 0);
}

#[test]
fn get_name_reports_missing_name() {
    let mut bytes = sample_class();
    // this_class points at #2, a Utf8 entry rather than a Class entry
    let pos = bytes.windows(6).position(|w| w == [0x00, 0x21, 0x00, 0x01, 0x00, 0x03]).unwrap();
    bytes[pos + 3] = 2;
    let jc = JavaClass::new_from_bytes(bytes).unwrap();
    assert_eq!(jc.get_name(), "Class Pool index did not point to Utf8");
}

#[test]
fn read_string_of_ascii_and_supplementary() {
    assert_eq!(read_string(b"abc"), "abc");
    // A surrogate pair in modified UTF-8 (ED A0 BD ED B8 80) is one supplementary character.
    let s = read_string(&[0xED, 0xA0, 0xBD, 0xED, 0xB8, 0x80]);
    assert_eq!(s, String::from(char::from_u32(0x1F600).unwrap()));
}

#[test]
fn read_string_decodes_two_and_three_byte_forms() {
    assert_eq!(read_string(&[0xC3, 0xA9]), "\u{E9}");
    assert_eq!(read_string(&[0xC0, 0x80]), "\u{0}");
    assert_eq!(read_string(&[0xE2, 0x82, 0xAC]), "\u{20AC}");
    assert_eq!(read_string(&[0x61, 0xC3, 0xA9, 0x62]), "a\u{E9}b");
    // bytes that are not modified UTF-8 are read one character per byte
    assert_eq!(read_string(&[0xFF]), "\u{FF}");
    assert_eq!(read_string(&[0x61, 0xC3]), "a\u{C3}");
    assert_eq!(read_string(&[0xED, 0xA0, 0x80]), "\u{ED}\u{A0}\u{80}");
}
