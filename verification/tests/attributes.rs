use java_class::attr_parse::{
    read_annotation, read_attribute, read_attributes, read_element_value, read_stack_map_frame,
    read_type_annotation, read_verification_type_info,
};
use java_class::attributes::{
    Annotation, Attribute, ElementValue, ElementValuePair, LocalVarTagetTableEntry, StackMapFrame,
    TargetInfo, TypePath, VerificationTypeInfo,
};
use java_class::class::JavaClassReader;
use java_class::cp::ConstantPool;
use java_class::cp_info::CPInfo;
use java_class::error::ParseError;
use java_class::opcodes::Opcode;

fn reader(bytes: &[u8]) -> JavaClassReader {
    JavaClassReader::new_from_bytes(bytes.to_vec()).unwrap()
}

fn pool(names: &[&str]) -> ConstantPool {
    ConstantPool::new_with_info(
        names
            .iter()
            .map(|s| CPInfo::Utf8 { length: s.len() as u16, bytes: s.as_bytes().to_vec() })
            .collect(),
    )
}

#[test]
fn verification_types() {
    assert_eq!(read_verification_type_info(&mut reader(&[1])), Ok(VerificationTypeInfo::Integer));
    assert_eq!(
        read_verification_type_info(&mut reader(&[7, 0, 5])),
        Ok(VerificationTypeInfo::Object { cpool_index: 5 })
    );
    assert_eq!(
        read_verification_type_info(&mut reader(&[9])),
        Err(ParseError::BadVerificationTypeInfo)
    );
}

#[test]
fn stack_map_frames() {
    assert_eq!(read_stack_map_frame(&mut reader(&[10])), Ok(StackMapFrame::SameFrame { offset_delta: 10 }));
    assert_eq!(
        read_stack_map_frame(&mut reader(&[70, 1])),
        Ok(StackMapFrame::SameLocals1Item { offset_delta: 6, stack: VerificationTypeInfo::Integer })
    );
    assert_eq!(
        read_stack_map_frame(&mut reader(&[250, 0, 3])),
        Ok(StackMapFrame::ChopFrame { absent_locals: 1, offset_delta: 3 })
    );
    assert_eq!(read_stack_map_frame(&mut reader(&[128])), Err(ParseError::InvalidStackMapFrameTag));
}

#[test]
fn element_values() {
    assert_eq!(read_element_value(&mut reader(&[b'I', 0, 4])), Ok(ElementValue::ConstValueIndex(4)));
    assert_eq!(
        read_element_value(&mut reader(&[b'[', 0, 2, b'c', 0, 1, b's', 0, 2])),
        Ok(ElementValue::ArrayValue(vec![ElementValue::ClassInfoIndex(1), ElementValue::ConstValueIndex(2)]))
    );
    assert_eq!(read_element_value(&mut reader(&[b'x', 0, 0])), Err(ParseError::InvalidElementValueTag));
}

#[test]
fn annotations() {
    assert_eq!(
        read_annotation(&mut reader(&[0, 3, 0, 1, 0, 4, b'Z', 0, 5])),
        Ok(Annotation {
            type_index: 3,
            element_value_pairs: vec![ElementValuePair { element_name_index: 4, value: ElementValue::ConstValueIndex(5) }],
        })
    );
    // target 0x13 (an empty target), no path, type 7, no pairs
    assert_eq!(
        read_type_annotation(&mut reader(&[0x13, 0, 0, 7, 0, 0])).map(|t| (t.target_info, t.target_path, t.type_index)),
        Ok((TargetInfo::EmptyTarget, TypePath { path: vec![] }, 7))
    );
    assert_eq!(read_type_annotation(&mut reader(&[0x50, 0, 0, 0, 0])).map(|_| ()), Err(ParseError::BadTargetInfoTag));
}

#[test]
fn code_attribute() {
    let cp = pool(&["Code"]);
    let bytes = [0, 1, 0, 0, 0, 13, 0, 1, 0, 1, 0, 0, 0, 1, 0xb1, 0, 0, 0, 0];
    let attr = read_attribute(&mut reader(&bytes), &cp).unwrap();
    assert_eq!(
        attr,
        Attribute::Code {
            max_stack: 1,
            max_locals: 1,
            code: vec![Opcode::return_],
            exception_table: vec![],
            attributes: vec![],
        }
    );
    // an instruction cut off by the end of the input
    let bytes = [0, 1, 0, 0, 0, 13, 0, 1, 0, 1, 0, 0, 0, 3, 0x11, 0x01];
    assert_eq!(read_attribute(&mut reader(&bytes), &cp), Err(ParseError::InvalidBytecode));
}

#[test]
fn simple_attributes() {
    let cp = pool(&["SourceFile", "Deprecated", "Synthetic", "Signature"]);
    let bytes = [0, 2, 0, 1, 0, 0, 0, 2, 0, 7, 0, 2, 0, 0, 0, 0];
    let attrs = read_attributes(&mut reader(&bytes), &cp).unwrap();
    assert_eq!(
        attrs,
        vec![Attribute::SourceFile { sourcefile_index: 7 }, Attribute::Deprecated]
    );
}

#[test]
fn local_variable_target_table_follows_its_length() {
    // target 0x40, one entry (start 1, length 2, index 3), no path, type 9, no pairs
    let bytes = [0x40, 0, 1, 0, 1, 0, 2, 0, 3, 0, 0, 9, 0, 0];
    let mut r = reader(&bytes);
    let t = read_type_annotation(&mut r).unwrap();
    assert_eq!(
        t.target_info,
        TargetInfo::LocalVarTarget {
            table: vec![LocalVarTagetTableEntry { start_pc: 1, length: 2, index: 3 }]
        }
    );
    assert_eq!(t.type_index, 9);
    assert_eq!(r.dist(), bytes.len() as u32);
}

#[test]
fn source_debug_extension_takes_its_length() {
    let cp = pool(&["SourceDebugExtension", "Deprecated"]);
    let bytes = [0, 2, 0, 1, 0, 0, 0, 3, b'a', b'b', b'c', 0, 2, 0, 0, 0, 0];
    let mut r = reader(&bytes);
    let attrs = read_attributes(&mut r, &cp).unwrap();
    assert_eq!(
        attrs,
        vec![Attribute::SourceDebugExtenson { debug_extension: b"abc".to_vec() }, Attribute::Deprecated]
    );
    assert_eq!(r.dist(), bytes.len() as u32);
}
