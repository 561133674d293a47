use java_class::heap::{heap_step, Heap};
use java_class::interp::{Frame, StepAction, Value};
use java_class::opcodes::Opcode;
use Value::{Int, Long, Null};

fn frame(stack: Vec<Value>) -> Frame {
    Frame { stack, locals: vec![] }
}

#[test]
fn arrays_are_made_read_and_written() {
    let mut heap = Heap::new();
    let mut f = frame(vec![Int(3)]);
    assert_eq!(heap_step(&mut f, &mut heap, &Opcode::newarray { atype: 10 }), StepAction::Next);
    assert_eq!(f.stack, vec![Value::Ref(0)]);
    assert_eq!(heap.count(), 1);
    assert_eq!(heap.length(0), 3);
    assert_eq!(heap.get(0, 2), Int(0));

    let mut f = frame(vec![Value::Ref(0), Int(1), Int(42)]);
    assert_eq!(heap_step(&mut f, &mut heap, &Opcode::iastore), StepAction::Next);
    assert!(f.stack.is_empty());
    let mut f = frame(vec![Value::Ref(0), Int(1)]);
    assert_eq!(heap_step(&mut f, &mut heap, &Opcode::iaload), StepAction::Next);
    assert_eq!(f.stack, vec![Int(42)]);

    let mut f = frame(vec![Value::Ref(0)]);
    heap_step(&mut f, &mut heap, &Opcode::arraylength);
    assert_eq!(f.stack, vec![Int(3)]);
}

#[test]
fn long_arrays_and_narrowing_stores() {
    let mut heap = Heap::new();
    let mut f = frame(vec![Int(2)]);
    heap_step(&mut f, &mut heap, &Opcode::newarray { atype: 11 });
    assert_eq!(heap.get(0, 0), Long(0));
    let mut f = frame(vec![Value::Ref(0), Int(1), Null, Long(7)]);
    assert_eq!(heap_step(&mut f, &mut heap, &Opcode::lastore), StepAction::Next);
    assert!(f.stack.is_empty());
    let mut f = frame(vec![Value::Ref(0), Int(1)]);
    heap_step(&mut f, &mut heap, &Opcode::laload);
    assert_eq!(f.stack, vec![Null, Long(7)]);

    let mut f = frame(vec![Int(1)]);
    heap_step(&mut f, &mut heap, &Opcode::newarray { atype: 8 });
    let mut f = frame(vec![Value::Ref(1), Int(0), Int(200)]);
    heap_step(&mut f, &mut heap, &Opcode::bastore);
    assert_eq!(heap.get(1, 0), Int(-56));
}

#[test]
fn array_exceptions() {
    let mut heap = Heap::new();
    let mut f = frame(vec![Int(-1)]);
    assert_eq!(
        heap_step(&mut f, &mut heap, &Opcode::anewarray { index: 1 }),
        StepAction::NegativeArraySizeException
    );
    assert_eq!(f.stack, vec![Int(-1)]);
    let mut f = frame(vec![Int(1)]);
    heap_step(&mut f, &mut heap, &Opcode::anewarray { index: 1 });
    assert_eq!(heap.get(0, 0), Null);
    let mut f = frame(vec![Value::Ref(0), Int(1)]);
    assert_eq!(heap_step(&mut f, &mut heap, &Opcode::aaload), StepAction::ArrayIndexOutOfBoundsException);
    let mut f = frame(vec![Null, Int(0)]);
    assert_eq!(heap_step(&mut f, &mut heap, &Opcode::aaload), StepAction::NullPointerException);
    let mut f = frame(vec![Null]);
    assert_eq!(heap_step(&mut f, &mut heap, &Opcode::arraylength), StepAction::NullPointerException);
    // other instructions go to `step`
    let mut f = frame(vec![Int(2), Int(3)]);
    assert_eq!(heap_step(&mut f, &mut heap, &Opcode::imul), StepAction::Next);
    assert_eq!(f.stack, vec![Int(6)]);
}
