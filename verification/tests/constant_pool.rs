use java_class::builders::cp::CPBuilder;
use java_class::class::JavaClassReader;
use java_class::cp_parse::{build_cp, read_cp_entry};
use java_class::cp::{CPIndex, ConstantPool};
use java_class::cp_info::CPInfo;

#[test]
fn tags() {
    assert_eq!(CPInfo::Class { name_index: 1 }.tag(), 7);
    assert_eq!(CPInfo::Utf8 { length: 0, bytes: vec![] }.tag(), 1);
    assert_eq!(CPInfo::InvokeDynamic { bootstrap_method_attr_index: 0, name_and_type_index: 0 }.tag(), 18);
    assert_eq!(CPInfo::LongDoubleDummy.tag(), 255);
}

#[test]
fn entry_bytes() {
    assert_eq!(CPInfo::Class { name_index: 0x0102 }.as_bytes(), vec![7, 1, 2]);
    assert_eq!(CPInfo::Integer { bytes: 0x01020304 }.as_bytes(), vec![3, 1, 2, 3, 4]);
    assert_eq!(
        CPInfo::Long { bytes: 0x0102030405060708 }.as_bytes(),
        vec![5, 1, 2, 3, 4, 5, 6, 7, 8]
    );
    assert_eq!(
        CPInfo::MethodHandle { reference_kind: 6, reference_index: 9 }.as_bytes(),
        vec![15, 6, 0, 9]
    );
    assert_eq!(CPInfo::LongDoubleDummy.as_bytes(), Vec::<u8>::new());
    // a Utf8 entry is written as its tag, its big-endian length and its bytes
    assert_eq!(
        CPInfo::Utf8 { length: 3, bytes: vec![b'a', b'b', b'c'] }.as_bytes(),
        vec![1, 0, 3, b'a', b'b', b'c']
    );
    assert_eq!(CPInfo::Utf8 { length: 2, bytes: vec![0x68, 0x69] }.as_bytes(), vec![1, 0, 2, 0x68, 0x69]);
    assert_eq!(CPInfo::Utf8 { length: 0, bytes: vec![] }.as_bytes(), vec![1, 0, 0]);
}

#[test]
fn pool_indexing_is_one_based() {
    let cp = ConstantPool::new_with_info(vec![CPInfo::Integer { bytes: 5 }, CPInfo::Float { bytes: 6 }]);
    assert_eq!(cp.len(), 3);
    assert!(!cp.is_empty());
    assert_eq!(cp.index(CPIndex::from(2)), &CPInfo::Float { bytes: 6 });
    assert_eq!(cp.get(1), Some(&CPInfo::Integer { bytes: 5 }));
    assert_eq!(cp.get(0), None);
    assert_eq!(cp.get(3), None);
    assert_eq!(CPIndex::default().as_u16(), 0);
    assert!(ConstantPool::default().is_empty());
}

#[test]
fn numbers_are_not_added_twice() {
    let mut b = CPBuilder::new();
    let i = b.add_integer(42);
    let l = b.add_long(7);
    let f = b.add_float(1);
    let d = b.add_double(9);
    assert_eq!(i.as_u16(), 1);
    assert_eq!(l.as_u16(), 2);
    assert_eq!(f.as_u16(), 4);
    assert_eq!(d.as_u16(), 5);
    assert_eq!(b.add_integer(42).as_u16(), 1);
    assert_eq!(b.add_long(7).as_u16(), 2);
    assert_eq!(b.add_float(1).as_u16(), 4);
    assert_eq!(b.add_double(9).as_u16(), 5);
    // the same bits as another kind of number make a new entry
    assert_eq!(b.add_float(42).as_u16(), 7);
    let cp = b.build();
    assert_eq!(
        cp.items(),
        &vec![
            CPInfo::Integer { bytes: 42 },
            CPInfo::Long { bytes: 7 },
            CPInfo::LongDoubleDummy,
            CPInfo::Float { bytes: 1 },
            CPInfo::Double { bytes: 9 },
            CPInfo::LongDoubleDummy,
            CPInfo::Float { bytes: 42 },
        ]
    );
}

#[test]
fn texts_are_shared() {
    let mut b = CPBuilder::default();
    let u = b.add_utf8("hello".to_owned());
    let s = b.add_string("hello".to_owned());
    let c = b.add_class("hello".to_owned());
    assert_eq!(u.as_u16(), 1);
    assert_eq!(s.as_u16(), 2);
    assert_eq!(c.as_u16(), 3);
    assert_eq!(b.add_string("hello".to_owned()).as_u16(), 2);
    assert_eq!(b.add_class("hello".to_owned()).as_u16(), 3);
    assert_eq!(b.add_utf8("hello".to_owned()).as_u16(), 1);
    let s2 = b.add_string("é".to_owned());
    assert_eq!(s2.as_u16(), 5);
    let cp = b.build();
    assert_eq!(
        cp.items(),
        &vec![
            CPInfo::Utf8 { length: 5, bytes: b"hello".to_vec() },
            CPInfo::String { string_index: 1 },
            CPInfo::Class { name_index: 1 },
            CPInfo::Utf8 { length: 2, bytes: vec![0xC3, 0xA9] },
            CPInfo::String { string_index: 4 },
        ]
    );
}

#[test]
fn member_references() {
    let mut b = CPBuilder::new();
    let f = b.add_fieldref("A".to_owned(), "x".to_owned(), "I".to_owned());
    // x, I, NameAndType, A, Class, Fieldref
    assert_eq!(f.as_u16(), 6);
    assert_eq!(b.add_fieldref("A".to_owned(), "x".to_owned(), "I".to_owned()).as_u16(), 6);
    let m = b.add_methodref("A".to_owned(), "x".to_owned(), "I".to_owned());
    // the NameAndType and the Class are shared; only the Methodref is new
    assert_eq!(m.as_u16(), 7);
    let im = b.add_interface_methodref("B".to_owned(), "y".to_owned(), "()V".to_owned());
    let cp = b.build();
    let items = cp.items();
    assert_eq!(items[5], CPInfo::Fieldref { class_index: 5, name_and_type_index: 3 });
    assert_eq!(items[2], CPInfo::NameAndType { name_index: 1, descriptor_index: 2 });
    assert_eq!(items[6], CPInfo::Methodref { class_index: 5, name_and_type_index: 3 });
    match items[im.as_u16() as usize - 1] {
        CPInfo::InterfaceMethodref { .. } => {}
        ref other => panic!("{:?}", other),
    }
}

#[test]
fn name_and_type_is_added_once() {
    let mut b = CPBuilder::new();
    let first = b.add_name_type("x".to_owned(), "I".to_owned());
    let second = b.add_name_type("x".to_owned(), "I".to_owned());
    assert_eq!(first.as_u16(), 3);
    assert_eq!(second.as_u16(), 3);
    assert_eq!(b.size(), 3);
    // a class of the same text as the key is another entry
    let c = b.add_class("x%I".to_owned());
    assert_eq!(c.as_u16(), 5);
    assert_eq!(b.add_name_type("x".to_owned(), "I".to_owned()).as_u16(), 3);
    // the same name and type text share one Utf8 entry
    assert_eq!(b.add_name_type("I".to_owned(), "I".to_owned()).as_u16(), 6);
    let cp = b.build();
    assert_eq!(
        cp.items(),
        &vec![
            CPInfo::Utf8 { length: 1, bytes: b"x".to_vec() },
            CPInfo::Utf8 { length: 1, bytes: b"I".to_vec() },
            CPInfo::NameAndType { name_index: 1, descriptor_index: 2 },
            CPInfo::Utf8 { length: 3, bytes: b"x%I".to_vec() },
            CPInfo::Class { name_index: 4 },
            CPInfo::NameAndType { name_index: 2, descriptor_index: 2 },
        ]
    );
}

#[test]
fn member_keys_can_collide() {
    let mut b = CPBuilder::new();
    let f1 = b.add_fieldref("a%b".to_owned(), "c".to_owned(), "d".to_owned());
    let f2 = b.add_fieldref("a".to_owned(), "b%c".to_owned(), "d".to_owned());
    assert_eq!(f1.as_u16(), f2.as_u16());
}

#[test]
fn entries_read_back_from_their_bytes() {
    let entries = vec![
        CPInfo::Class { name_index: 3 },
        CPInfo::Fieldref { class_index: 1, name_and_type_index: 2 },
        CPInfo::Methodref { class_index: 4, name_and_type_index: 5 },
        CPInfo::InterfaceMethodref { class_index: 6, name_and_type_index: 7 },
        CPInfo::String { string_index: 8 },
        CPInfo::Integer { bytes: 0xdeadbeef },
        CPInfo::Float { bytes: 0x3f800000 },
        CPInfo::Long { bytes: u64::MAX },
        CPInfo::Double { bytes: 1 },
        CPInfo::NameAndType { name_index: 9, descriptor_index: 10 },
        CPInfo::MethodHandle { reference_kind: 5, reference_index: 11 },
        CPInfo::MethodType { descriptor_index: 12 },
        CPInfo::InvokeDynamic { bootstrap_method_attr_index: 0, name_and_type_index: 13 },
        CPInfo::Utf8 { length: 3, bytes: b"abc".to_vec() },
        CPInfo::Utf8 { length: 0, bytes: vec![] },
    ];
    for e in entries {
        let bytes = e.as_bytes();
        let n = bytes.len() as u32;
        let mut r = JavaClassReader::new_from_bytes(bytes).unwrap();
        assert_eq!(read_cp_entry(&mut r).unwrap(), e);
        assert_eq!(r.dist(), n);
    }
}

#[test]
fn pool_reads_back_from_its_bytes() {
    let entries = vec![
        CPInfo::Utf8 { length: 2, bytes: vec![0x68, 0x69] },
        CPInfo::Long { bytes: 5 },
        CPInfo::LongDoubleDummy,
        CPInfo::Class { name_index: 1 },
        CPInfo::Double { bytes: 7 },
        CPInfo::LongDoubleDummy,
        CPInfo::String { string_index: 1 },
    ];
    let mut bytes = vec![];
    for e in &entries {
        bytes.extend(e.as_bytes());
    }
    bytes.push(0xAA);
    let n = bytes.len() as u32;
    let mut r = JavaClassReader::new_from_bytes(bytes).unwrap();
    let cp = build_cp(&mut r, entries.len() as u16 + 1).unwrap();
    assert_eq!(cp.items(), &entries);
    assert_eq!(r.dist(), n - 1);
}

#[test]
fn built_pool_keeps_every_returned_index() {
    let mut b = CPBuilder::new();
    let s = b.add_string("s".to_owned());
    let l = b.add_long(9);
    let m = b.add_methodref("p/C".to_owned(), "m".to_owned(), "()V".to_owned());
    let i = b.add_integer(3);
    let c = b.add_class("p/C".to_owned());
    let cp = b.build();
    let items = cp.items();
    match &items[s.as_u16() as usize - 1] {
        CPInfo::String { string_index } => {
            assert!(*string_index < s.as_u16());
            assert_eq!(items[*string_index as usize - 1], CPInfo::Utf8 { length: 1, bytes: b"s".to_vec() });
        }
        other => panic!("{:?}", other),
    }
    assert_eq!(items[l.as_u16() as usize - 1], CPInfo::Long { bytes: 9 });
    assert_eq!(items[l.as_u16() as usize], CPInfo::LongDoubleDummy);
    assert!(matches!(items[m.as_u16() as usize - 1], CPInfo::Methodref { .. }));
    assert_eq!(items[i.as_u16() as usize - 1], CPInfo::Integer { bytes: 3 });
    assert!(matches!(items[c.as_u16() as usize - 1], CPInfo::Class { .. }));
    // every index held in an entry names an earlier entry
    for (k, e) in items.iter().enumerate() {
        let refs: Vec<u16> = match e {
            CPInfo::String { string_index } => vec![*string_index],
            CPInfo::Class { name_index } => vec![*name_index],
            CPInfo::NameAndType { name_index, descriptor_index } => vec![*name_index, *descriptor_index],
            CPInfo::Methodref { class_index, name_and_type_index } => vec![*class_index, *name_and_type_index],
            _ => vec![],
        };
        for r in refs {
            assert!(1 <= r as usize && r as usize <= k);
        }
    }
}
