use java_class::code_layout::{instruction_len, next_pc};
use java_class::interp::StepAction;
use java_class::opcodes::Opcode;

#[test]
fn branches_land_on_instructions() {
    let code = vec![
        Opcode::iconst_0,
        Opcode::ifeq { branch: 4 },
        Opcode::iconst_1,
        Opcode::iconst_2,
        Opcode::return_,
    ];
    assert_eq!(next_pc(&code, 1, StepAction::Branch(4)), Some(3));
    assert_eq!(next_pc(&code, 1, StepAction::Branch(-1)), Some(0));
    assert_eq!(next_pc(&code, 1, StepAction::Branch(2)), None);
    assert_eq!(next_pc(&code, 1, StepAction::Next), Some(2));
    assert_eq!(next_pc(&code, 4, StepAction::Next), None);
    assert_eq!(next_pc(&code, 4, StepAction::Return(None)), None);
}

#[test]
fn instruction_lengths() {
    assert_eq!(instruction_len(&Opcode::nop), 1);
    assert_eq!(instruction_len(&Opcode::bipush { val: 1 }), 2);
    assert_eq!(instruction_len(&Opcode::goto { branch: 1 }), 3);
    assert_eq!(instruction_len(&Opcode::wide_iinc { index: 1, const_: 1 }), 6);
    let table = Opcode::tableswitch { default: 0, low: 1, high: 2, jump_offsets: vec![5, 6], padding: 3 };
    assert_eq!(instruction_len(&table), 24);
    let lookup = Opcode::lookupswitch { default: 0, match_offset_pairs: vec![(1, 2)], padding: 0 };
    assert_eq!(instruction_len(&lookup), 17);
    let (b, args) = java_class::bytecode_tools::to_bytecode(table.clone());
    let _ = b;
    assert_eq!(instruction_len(&table), 1 + args.len() as u64);
}
