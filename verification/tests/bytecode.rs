use java_class::bytecode_tools::{to_bytecode, to_opcode};
use java_class::class::JavaClassReader;
use java_class::opcodes::Opcode;

fn read_all(bytes: Vec<u8>, method_start: u32) -> Vec<Opcode> {
    let n = bytes.len() as u32;
    let mut r = JavaClassReader::new_from_bytes(bytes).unwrap();
    let mut out = vec![];
    while r.dist() < n {
        out.push(to_opcode(&mut r, method_start).unwrap());
    }
    out
}

fn write(op: Opcode) -> Vec<u8> {
    let (b, rest) = to_bytecode(op);
    let mut v = vec![b];
    v.extend(rest);
    v
}

#[test]
fn simple_instructions() {
    let code = vec![0x10, 0x05, 0x11, 0x01, 0x00, 0x84, 0x02, 0xff, 0xb1];
    let ops = read_all(code.clone(), 0);
    assert_eq!(
        ops,
        vec![
            Opcode::bipush { val: 5 },
            Opcode::sipush { val: 256 },
            Opcode::iinc { index: 2, const_: -1 },
            Opcode::return_,
        ]
    );
    let mut back = vec![];
    for op in ops {
        back.extend(write(op));
    }
    assert_eq!(back, code);
}

#[test]
fn branch_offsets_are_signed() {
    let ops = read_all(vec![0x99, 0xff, 0xfd], 0);
    assert_eq!(ops, vec![Opcode::ifeq { branch: -3 }]);
    assert_eq!(write(Opcode::ifeq { branch: -3 }), vec![0x99, 0xff, 0xfd]);
}

#[test]
fn tableswitch_round_trip() {
    // tableswitch at offset 0: three bytes of padding, default 10, low 1, high 2, two offsets
    let mut code = vec![0xaa, 0, 0, 0];
    for x in [10i32, 1, 2, 20, 30] {
        code.extend_from_slice(&x.to_be_bytes());
    }
    let ops = read_all(code.clone(), 0);
    assert_eq!(
        ops,
        vec![Opcode::tableswitch { default: 10, low: 1, high: 2, jump_offsets: vec![20, 30], padding: 3 }]
    );
    assert_eq!(write(ops[0].clone()), code);
}

#[test]
fn lookupswitch_round_trip() {
    // lookupswitch at offset 1 of the method: two bytes of padding, default 7, one pair
    let mut code = vec![0x00, 0xab, 0, 0];
    for x in [7i32, 1, 5, 99] {
        code.extend_from_slice(&x.to_be_bytes());
    }
    let ops = read_all(code.clone(), 0);
    assert_eq!(
        ops[1],
        Opcode::lookupswitch { default: 7, match_offset_pairs: vec![(5, 99)], padding: 2 }
    );
    assert_eq!(write(ops[1].clone()), code[1..].to_vec());
}

#[test]
fn lookupswitch_writes_its_pair_count() {
    let op = Opcode::lookupswitch { default: 8, match_offset_pairs: vec![(1, 12)], padding: 0 };
    assert_eq!(to_bytecode(op), (0xab, vec![0, 0, 0, 8, 0, 0, 0, 1, 0, 0, 0, 1, 0, 0, 0, 12]));
    let op = Opcode::lookupswitch { default: -1, match_offset_pairs: vec![(1, 2), (3, 4)], padding: 1 };
    let mut expect = vec![0xab, 0];
    for x in [-1i32, 2, 1, 2, 3, 4] {
        expect.extend_from_slice(&x.to_be_bytes());
    }
    assert_eq!(write(op), expect);
}

#[test]
fn unknown_bytes_read_as_reserved() {
    let ops = read_all(vec![0xcb, 0xfd], 0);
    assert_eq!(ops, vec![Opcode::reserved, Opcode::reserved]);
    assert_eq!(write(Opcode::reserved), vec![0xcb]);
}

#[test]
fn truncated_instruction_gives_none() {
    let mut r = JavaClassReader::new_from_bytes(vec![0x11, 0x01]).unwrap();
    assert_eq!(to_opcode(&mut r, 0), None);
}

#[test]
fn wide_forms() {
    let ops = read_all(vec![0xc4, 0x15, 0x01, 0x00], 0);
    assert_eq!(ops.len(), 1);
    assert_eq!(write(ops[0].clone()), vec![0xc4, 0x15, 0x01, 0x00]);
}
