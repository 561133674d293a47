use java_class::interp::{pop_value, push_value, step, Frame, StepAction, Value};
use java_class::opcodes::Opcode;
use Value::{Int, Long, Null};

fn run(stack: Vec<Value>, locals: Vec<Value>, ins: Opcode) -> (Vec<Value>, Vec<Value>, StepAction) {
    let mut f = Frame { stack, locals };
    let a = step(&mut f, &ins);
    (f.stack, f.locals, a)
}

fn on_stack(stack: Vec<Value>, ins: Opcode) -> (Vec<Value>, StepAction) {
    let (s, _, a) = run(stack, vec![], ins);
    (s, a)
}

#[test]
fn int_arithmetic_wraps() {
    assert_eq!(on_stack(vec![Int(2), Int(3)], Opcode::iadd), (vec![Int(5)], StepAction::Next));
    assert_eq!(on_stack(vec![Int(i32::MAX), Int(1)], Opcode::iadd).0, vec![Int(i32::MIN)]);
    assert_eq!(on_stack(vec![Int(2), Int(3)], Opcode::isub).0, vec![Int(-1)]);
    assert_eq!(on_stack(vec![Int(0x10000), Int(0x10000)], Opcode::imul).0, vec![Int(0)]);
    assert_eq!(on_stack(vec![Int(i32::MIN)], Opcode::ineg).0, vec![Int(i32::MIN)]);
    assert_eq!(on_stack(vec![Int(6), Int(3)], Opcode::iand).0, vec![Int(2)]);
    assert_eq!(on_stack(vec![Int(6), Int(3)], Opcode::ior).0, vec![Int(7)]);
    assert_eq!(on_stack(vec![Int(6), Int(3)], Opcode::ixor).0, vec![Int(5)]);
}

#[test]
fn int_division_rounds_toward_zero() {
    assert_eq!(on_stack(vec![Int(7), Int(-2)], Opcode::idiv).0, vec![Int(-3)]);
    assert_eq!(on_stack(vec![Int(7), Int(-2)], Opcode::irem).0, vec![Int(1)]);
    assert_eq!(on_stack(vec![Int(-7), Int(2)], Opcode::irem).0, vec![Int(-1)]);
    assert_eq!(on_stack(vec![Int(i32::MIN), Int(-1)], Opcode::idiv).0, vec![Int(i32::MIN)]);
    assert_eq!(on_stack(vec![Int(i32::MIN), Int(-1)], Opcode::irem).0, vec![Int(0)]);
    assert_eq!(
        on_stack(vec![Int(1), Int(0)], Opcode::idiv),
        (vec![Int(1), Int(0)], StepAction::ArithmeticException)
    );
    assert_eq!(
        on_stack(vec![Null, Long(1), Null, Long(0)], Opcode::lrem).1,
        StepAction::ArithmeticException
    );
}

#[test]
fn shifts_use_the_low_bits_of_the_count() {
    assert_eq!(on_stack(vec![Int(1), Int(33)], Opcode::ishl).0, vec![Int(2)]);
    assert_eq!(on_stack(vec![Int(-8), Int(1)], Opcode::ishr).0, vec![Int(-4)]);
    assert_eq!(on_stack(vec![Int(-1), Int(28)], Opcode::iushr).0, vec![Int(15)]);
    assert_eq!(on_stack(vec![Null, Long(1), Int(65)], Opcode::lshl).0, vec![Null, Long(2)]);
    assert_eq!(on_stack(vec![Null, Long(-1), Int(60)], Opcode::lushr).0, vec![Null, Long(15)]);
}

#[test]
fn long_arithmetic_and_comparison() {
    assert_eq!(on_stack(vec![Null, Long(5), Null, Long(7)], Opcode::ladd).0, vec![Null, Long(12)]);
    assert_eq!(on_stack(vec![Null, Long(-7), Null, Long(2)], Opcode::ldiv).0, vec![Null, Long(-3)]);
    assert_eq!(on_stack(vec![Null, Long(5)], Opcode::lneg).0, vec![Null, Long(-5)]);
    assert_eq!(on_stack(vec![Null, Long(1), Null, Long(2)], Opcode::lcmp).0, vec![Int(-1)]);
    assert_eq!(on_stack(vec![Null, Long(2), Null, Long(2)], Opcode::lcmp).0, vec![Int(0)]);
    assert_eq!(on_stack(vec![Null, Long(3), Null, Long(2)], Opcode::lcmp).0, vec![Int(1)]);
}

#[test]
fn conversions() {
    assert_eq!(on_stack(vec![Int(-1)], Opcode::i2l).0, vec![Null, Long(-1)]);
    assert_eq!(on_stack(vec![Null, Long(0x1_0000_0005)], Opcode::l2i).0, vec![Int(5)]);
    assert_eq!(on_stack(vec![Int(200)], Opcode::i2b).0, vec![Int(-56)]);
    assert_eq!(on_stack(vec![Int(-1)], Opcode::i2c).0, vec![Int(65535)]);
    assert_eq!(on_stack(vec![Int(0x18000)], Opcode::i2s).0, vec![Int(-32768)]);
    assert_eq!(on_stack(vec![], Opcode::bipush { val: 0xff }).0, vec![Int(-1)]);
    assert_eq!(on_stack(vec![], Opcode::sipush { val: 0x8000 }).0, vec![Int(-32768)]);
    assert_eq!(on_stack(vec![], Opcode::lconst_1).0, vec![Null, Long(1)]);
}

#[test]
fn locals() {
    let locals = vec![Int(1), Long(2), Null, Null];
    assert_eq!(run(vec![], locals.clone(), Opcode::iload_0).0, vec![Int(1)]);
    assert_eq!(run(vec![], locals.clone(), Opcode::lload { index: 1 }).0, vec![Null, Long(2)]);
    let (s, l, a) = run(vec![Int(9)], locals.clone(), Opcode::istore_3);
    assert_eq!((s, a), (vec![], StepAction::Next));
    assert_eq!(l, vec![Int(1), Long(2), Null, Int(9)]);
    let (s, l, _) = run(vec![Null, Long(4)], locals.clone(), Opcode::wide { opcode: 0x37, index: 2 });
    assert!(s.is_empty());
    assert_eq!(l[2], Long(4));
    assert_eq!(run(vec![], locals.clone(), Opcode::iinc { index: 0, const_: -1 }).1[0], Int(0));
    assert_eq!(run(vec![], locals, Opcode::wide_iinc { index: 0, const_: 300 }).1[0], Int(301));
}

#[test]
fn stack_shuffles() {
    assert_eq!(on_stack(vec![Int(1), Int(2)], Opcode::dup_x1).0, vec![Int(2), Int(1), Int(2)]);
    assert_eq!(on_stack(vec![Int(1), Int(2)], Opcode::swap).0, vec![Int(2), Int(1)]);
    assert_eq!(on_stack(vec![Int(1), Int(2)], Opcode::dup2).0, vec![Int(1), Int(2), Int(1), Int(2)]);
    assert_eq!(
        on_stack(vec![Int(1), Int(2), Int(3)], Opcode::dup_x2).0,
        vec![Int(3), Int(1), Int(2), Int(3)]
    );
    assert_eq!(on_stack(vec![Int(1), Int(2)], Opcode::pop).0, vec![Int(1)]);
    assert_eq!(on_stack(vec![Null, Long(1)], Opcode::pop2).0, vec![]);
}

#[test]
fn branches() {
    assert_eq!(on_stack(vec![Int(0)], Opcode::ifeq { branch: 5 }), (vec![], StepAction::Branch(5)));
    assert_eq!(on_stack(vec![Int(1)], Opcode::ifeq { branch: 5 }), (vec![], StepAction::Next));
    assert_eq!(on_stack(vec![Int(1), Int(2)], Opcode::if_icmplt { branch: -3 }).1, StepAction::Branch(-3));
    assert_eq!(on_stack(vec![Int(2), Int(2)], Opcode::if_icmplt { branch: -3 }).1, StepAction::Next);
    assert_eq!(on_stack(vec![Value::Ref(4), Value::Ref(4)], Opcode::if_acmpeq { branch: 7 }).1, StepAction::Branch(7));
    assert_eq!(on_stack(vec![Value::Ref(4), Null], Opcode::if_acmpne { branch: 7 }).1, StepAction::Branch(7));
    assert_eq!(on_stack(vec![Null], Opcode::ifnull { branch: 2 }).1, StepAction::Branch(2));
    assert_eq!(on_stack(vec![Value::Ref(1)], Opcode::ifnonnull { branch: 2 }).1, StepAction::Branch(2));
    assert_eq!(on_stack(vec![], Opcode::goto_w { branch: 70000 }).1, StepAction::Branch(70000));
    let table = Opcode::tableswitch { default: 10, low: 1, high: 2, jump_offsets: vec![20, 30], padding: 0 };
    assert_eq!(on_stack(vec![Int(2)], table.clone()), (vec![], StepAction::Branch(30)));
    assert_eq!(on_stack(vec![Int(5)], table).1, StepAction::Branch(10));
    let lookup = Opcode::lookupswitch { default: 8, match_offset_pairs: vec![(1, 12), (1, 14)], padding: 0 };
    assert_eq!(on_stack(vec![Int(1)], lookup.clone()).1, StepAction::Branch(12));
    assert_eq!(on_stack(vec![Int(3)], lookup).1, StepAction::Branch(8));
}

#[test]
fn returns_and_the_host() {
    assert_eq!(on_stack(vec![Int(4)], Opcode::ireturn), (vec![], StepAction::Return(Some(Int(4)))));
    assert_eq!(on_stack(vec![Null, Long(3)], Opcode::lreturn), (vec![], StepAction::Return(Some(Long(3)))));
    assert_eq!(on_stack(vec![Int(1)], Opcode::return_), (vec![Int(1)], StepAction::Return(None)));
    assert_eq!(on_stack(vec![Int(1)], Opcode::getstatic { index: 1 }), (vec![Int(1)], StepAction::Outside));
    assert_eq!(on_stack(vec![Value::Float(0), Value::Float(0)], Opcode::fadd).1, StepAction::Outside);
}

#[test]
fn push_then_pop() {
    let mut st = vec![Int(1)];
    push_value(&mut st, Long(3));
    assert_eq!(st, vec![Int(1), Null, Long(3)]);
    assert_eq!(pop_value(&mut st), Long(3));
    assert_eq!(st, vec![Int(1)]);
    push_value(&mut st, Int(2));
    assert_eq!(pop_value(&mut st), Int(2));
    assert_eq!(st, vec![Int(1)]);
}
