use java_class::heap::Heap;
use java_class::interp::{Frame, StepAction, Value};
use java_class::opcodes::Opcode;
use java_class::run::{run, Stop};
use Value::Int;

fn sum_down() -> Vec<Opcode> {
    vec![
        Opcode::iload_1,
        Opcode::iload_0,
        Opcode::iadd,
        Opcode::istore_1,
        Opcode::iinc { index: 0, const_: -1 },
        Opcode::iload_0,
        Opcode::ifgt { branch: -8 },
        Opcode::iload_1,
        Opcode::ireturn,
    ]
}

#[test]
fn a_loop_runs_to_its_return() {
    let code = sum_down();
    let mut f = Frame { stack: vec![], locals: vec![Int(5), Int(0)] };
    let mut heap = Heap::new();
    assert_eq!(run(&code, &mut f, &mut heap, 0, 1000), (8, Stop::Action(StepAction::Return(Some(Int(15))))));
    assert_eq!(f.locals, vec![Int(0), Int(15)]);
}

#[test]
fn a_run_stops_when_its_fuel_is_used() {
    let code = sum_down();
    let mut f = Frame { stack: vec![], locals: vec![Int(5), Int(0)] };
    let mut heap = Heap::new();
    assert_eq!(run(&code, &mut f, &mut heap, 0, 3), (3, Stop::OutOfFuel));
    assert_eq!(f.stack, vec![Int(5)]);
}

#[test]
fn a_run_stops_where_it_cannot_go_on() {
    let code = vec![Opcode::iadd];
    let mut f = Frame { stack: vec![], locals: vec![] };
    let mut heap = Heap::new();
    assert_eq!(run(&code, &mut f, &mut heap, 0, 10), (0, Stop::Stuck));
    let code = vec![Opcode::iconst_1, Opcode::getstatic { index: 2 }];
    assert_eq!(run(&code, &mut f, &mut heap, 0, 10), (1, Stop::Action(StepAction::Outside)));
    assert_eq!(f.stack, vec![Int(1)]);
    let code = vec![Opcode::iconst_1];
    assert_eq!(run(&code, &mut f, &mut heap, 0, 10), (0, Stop::NoNext));
}

#[test]
fn a_run_works_on_arrays() {
    let code = vec![
        Opcode::iconst_2,
        Opcode::newarray { atype: 10 },
        Opcode::dup,
        Opcode::iconst_1,
        Opcode::bipush { val: 7 },
        Opcode::iastore,
        Opcode::iconst_1,
        Opcode::iaload,
        Opcode::ireturn,
    ];
    let mut f = Frame { stack: vec![], locals: vec![] };
    let mut heap = Heap::new();
    assert_eq!(run(&code, &mut f, &mut heap, 0, 100), (8, Stop::Action(StepAction::Return(Some(Int(7))))));
    let code = vec![Opcode::iconst_0, Opcode::iconst_0, Opcode::idiv];
    assert_eq!(run(&code, &mut f, &mut heap, 0, 100), (2, Stop::Action(StepAction::ArithmeticException)));
}
