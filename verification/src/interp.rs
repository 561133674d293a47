//! One step of the interpreter on the frame of a method: the instructions that work on
//! integers, longs, the operand stack, the local variables and the flow of control are
//! carried out here (and those on arrays in `heap`); the others are handed back to the
//! host, which owns the objects, the classes and floating point.
use vstd::prelude::*;
use crate::opcodes::Opcode;

verus! {

/// A value held in a slot of the operand stack or in a local variable. A `float` or a
/// `double` is held by its bits, an object or array by the handle that the host gave it.
/// A `long` or a `double` takes two slots of the operand stack: a `Null` below the value.
#[derive(Debug, Clone, Copy, PartialEq, Eq)]
pub enum Value {
    Int(i32),
    Long(i64),
    Float(u32),
    Double(u64),
    Ref(u64),
    Null,
}

/// What the host does after a step.
#[derive(Debug, Clone, Copy, PartialEq, Eq)]
pub enum StepAction {
    /// Go on with the next instruction.
    Next,
    /// Jump by this offset from the instruction.
    Branch(i32),
    /// Leave the method, with the value returned, if any.
    Return(Option<Value>),
    /// Throw an `ArithmeticException` (an integer division by zero); the frame is unchanged.
    ArithmeticException,
    /// Throw a `NullPointerException` (an array instruction on null); the frame and the heap
    /// are unchanged.
    NullPointerException,
    /// Throw an `ArrayIndexOutOfBoundsException`; the frame and the heap are unchanged.
    ArrayIndexOutOfBoundsException,
    /// Throw a `NegativeArraySizeException`; the frame and the heap are unchanged.
    NegativeArraySizeException,
    /// The instruction is the host's to carry out; the frame is unchanged.
    Outside,
}

/// The operand stack and the local variables of a method being run.
pub struct Frame {
    pub stack: Vec<Value>,
    pub locals: Vec<Value>,
}

/// The operations on two `int`s or two `long`s.
#[derive(Debug, Clone, Copy, PartialEq, Eq)]
pub enum BinOp {
    Add,
    Sub,
    Mul,
    Div,
    Rem,
    And,
    Or,
    Xor,
}

/// The shifts.
#[derive(Debug, Clone, Copy, PartialEq, Eq)]
pub enum ShiftOp {
    Shl,
    Shr,
    Ushr,
}

/// A `long` or a `double`: a value that takes two slots of the operand stack.
pub open spec fn is_wide(v: Value) -> bool {
    v is Long || v is Double
}

/// The stack `st` with `v` pushed on it, below a wide value its second slot.
pub open spec fn pushed(st: Seq<Value>, v: Value) -> Seq<Value> {
    if is_wide(v) {
        st.push(Value::Null).push(v)
    } else {
        st.push(v)
    }
}

/// The stack `st` with its top value taken off, and the slot below a wide one.
pub open spec fn popped(st: Seq<Value>) -> Seq<Value> {
    if is_wide(st.last()) && st.len() >= 2 {
        st.subrange(0, st.len() - 2)
    } else {
        st.drop_last()
    }
}

/// The magnitude of `a`.
pub open spec fn magnitude(a: int) -> int {
    if a < 0 {
        -a
    } else {
        a
    }
}

/// `a / b` rounded toward zero.
pub open spec fn trunc_div(a: int, b: int) -> int {
    let q = magnitude(a) / magnitude(b);
    if (a < 0) != (b < 0) {
        -q
    } else {
        q
    }
}

/// The remainder of `a / b` rounded toward zero: it has the sign of `a`.
pub open spec fn trunc_rem(a: int, b: int) -> int {
    let r = magnitude(a) % magnitude(b);
    if a < 0 {
        -r
    } else {
        r
    }
}

/// `op` on the `int`s `a` and `b`, with the wrap-around of 32-bit two's complement; `None`
/// for a division or remainder by zero.
pub open spec fn int_op(op: BinOp, a: i32, b: i32) -> Option<i32> {
    match op {
        BinOp::Add => Some(a.wrapping_add(b)),
        BinOp::Sub => Some(a.wrapping_sub(b)),
        BinOp::Mul => Some(a.wrapping_mul(b)),
        BinOp::Div => if b == 0 {
            None
        } else if a == i32::MIN && b == -1 {
            Some(i32::MIN)
        } else {
            Some(trunc_div(a as int, b as int) as i32)
        },
        BinOp::Rem => if b == 0 {
            None
        } else {
            Some(trunc_rem(a as int, b as int) as i32)
        },
        BinOp::And => Some(a & b),
        BinOp::Or => Some(a | b),
        BinOp::Xor => Some(a ^ b),
    }
}

/// `op` on the `long`s `a` and `b`, with the wrap-around of 64-bit two's complement; `None`
/// for a division or remainder by zero.
pub open spec fn long_op(op: BinOp, a: i64, b: i64) -> Option<i64> {
    match op {
        BinOp::Add => Some(a.wrapping_add(b)),
        BinOp::Sub => Some(a.wrapping_sub(b)),
        BinOp::Mul => Some(a.wrapping_mul(b)),
        BinOp::Div => if b == 0 {
            None
        } else if a == i64::MIN && b == -1 {
            Some(i64::MIN)
        } else {
            Some(trunc_div(a as int, b as int) as i64)
        },
        BinOp::Rem => if b == 0 {
            None
        } else {
            Some(trunc_rem(a as int, b as int) as i64)
        },
        BinOp::And => Some(a & b),
        BinOp::Or => Some(a | b),
        BinOp::Xor => Some(a ^ b),
    }
}

/// `a` shifted by the low five bits of `b`.
pub open spec fn int_shift(op: ShiftOp, a: i32, b: i32) -> i32 {
    match op {
        ShiftOp::Shl => a.wrapping_shl(b as u32),
        ShiftOp::Shr => a.wrapping_shr(b as u32),
        ShiftOp::Ushr => (a as u32).wrapping_shr(b as u32) as i32,
    }
}

/// `a` shifted by the low six bits of `b`.
pub open spec fn long_shift(op: ShiftOp, a: i64, b: i32) -> i64 {
    match op {
        ShiftOp::Shl => a.wrapping_shl(b as u32),
        ShiftOp::Shr => a.wrapping_shr(b as u32),
        ShiftOp::Ushr => (a as u64).wrapping_shr(b as u32) as i64,
    }
}

fn exec_int_op(op: BinOp, a: i32, b: i32) -> (r: Option<i32>)
    ensures
        r == int_op(op, a, b),
{
    match op {
        BinOp::Add => Some(a.wrapping_add(b)),
        BinOp::Sub => Some(a.wrapping_sub(b)),
        BinOp::Mul => Some(a.wrapping_mul(b)),
        BinOp::Div => {
            if b == 0 {
                None
            } else if a == i32::MIN && b == -1 {
                Some(i32::MIN)
            } else {
                let r = a.checked_div(b);
                proof {
                    let (x, d) = (a as int, b as int);
                    if x < 0 && d < 0 {
                        assert(magnitude(x) == x * -1 && magnitude(d) == d * -1);
                    } else if x < 0 && d > 0 {
                        assert(magnitude(x) == x * -1 && magnitude(d) == d);
                    } else if x > 0 && d < 0 {
                        assert(magnitude(x) == x && magnitude(d) == d * -1);
                    } else if x == 0 {
                        assert(magnitude(x) / magnitude(d) == 0) by (nonlinear_arith)
                            requires magnitude(x) == 0, magnitude(d) > 0;
                    }
                    let (m, n) = (magnitude(x), magnitude(d));
                    let q = m / n;
                    assert(0 <= q <= m) by (nonlinear_arith)
                        requires n >= 1, m >= 0, q == m / n;
                    if n >= 2 {
                        assert(q * 2 <= m) by (nonlinear_arith)
                            requires n >= 2, m >= 0, q == m / n;
                    }
                }
                r
            }
        },
        BinOp::Rem => {
            if b == 0 {
                None
            } else if b == -1 {
                proof {
                    assert(magnitude(a as int) % 1 == 0);
                }
                Some(0)
            } else {
                let r = a.checked_rem(b);
                proof {
                    let (x, d) = (a as int, b as int);
                    if x < 0 && d < 0 {
                        assert(magnitude(x) == x * -1 && magnitude(d) == d * -1);
                    } else if x < 0 && d > 0 {
                        assert(magnitude(x) == x * -1 && magnitude(d) == d);
                    } else if x > 0 && d < 0 {
                        assert(magnitude(x) == x && magnitude(d) == d * -1);
                    } else if x == 0 {
                        assert(magnitude(x) % magnitude(d) == 0) by (nonlinear_arith)
                            requires magnitude(x) == 0, magnitude(d) > 0;
                    }
                }
                r
            }
        },
        BinOp::And => Some(a & b),
        BinOp::Or => Some(a | b),
        BinOp::Xor => Some(a ^ b),
    }
}

fn exec_long_op(op: BinOp, a: i64, b: i64) -> (r: Option<i64>)
    ensures
        r == long_op(op, a, b),
{
    match op {
        BinOp::Add => Some(a.wrapping_add(b)),
        BinOp::Sub => Some(a.wrapping_sub(b)),
        BinOp::Mul => Some(a.wrapping_mul(b)),
        BinOp::Div => {
            if b == 0 {
                None
            } else if a == i64::MIN && b == -1 {
                Some(i64::MIN)
            } else {
                let r = a.checked_div(b);
                proof {
                    let (x, d) = (a as int, b as int);
                    if x < 0 && d < 0 {
                        assert(magnitude(x) == x * -1 && magnitude(d) == d * -1);
                    } else if x < 0 && d > 0 {
                        assert(magnitude(x) == x * -1 && magnitude(d) == d);
                    } else if x > 0 && d < 0 {
                        assert(magnitude(x) == x && magnitude(d) == d * -1);
                    } else if x == 0 {
                        assert(magnitude(x) / magnitude(d) == 0) by (nonlinear_arith)
                            requires magnitude(x) == 0, magnitude(d) > 0;
                    }
                    let (m, n) = (magnitude(x), magnitude(d));
                    let q = m / n;
                    assert(0 <= q <= m) by (nonlinear_arith)
                        requires n >= 1, m >= 0, q == m / n;
                    if n >= 2 {
                        assert(q * 2 <= m) by (nonlinear_arith)
                            requires n >= 2, m >= 0, q == m / n;
                    }
                }
                r
            }
        },
        BinOp::Rem => {
            if b == 0 {
                None
            } else if b == -1 {
                proof {
                    assert(magnitude(a as int) % 1 == 0);
                }
                Some(0)
            } else {
                let r = a.checked_rem(b);
                proof {
                    let (x, d) = (a as int, b as int);
                    if x < 0 && d < 0 {
                        assert(magnitude(x) == x * -1 && magnitude(d) == d * -1);
                    } else if x < 0 && d > 0 {
                        assert(magnitude(x) == x * -1 && magnitude(d) == d);
                    } else if x > 0 && d < 0 {
                        assert(magnitude(x) == x && magnitude(d) == d * -1);
                    } else if x == 0 {
                        assert(magnitude(x) % magnitude(d) == 0) by (nonlinear_arith)
                            requires magnitude(x) == 0, magnitude(d) > 0;
                    }
                }
                r
            }
        },
        BinOp::And => Some(a & b),
        BinOp::Or => Some(a | b),
        BinOp::Xor => Some(a ^ b),
    }
}

fn exec_int_shift(op: ShiftOp, a: i32, b: i32) -> (r: i32)
    ensures
        r == int_shift(op, a, b),
{
    match op {
        ShiftOp::Shl => a.wrapping_shl(b as u32),
        ShiftOp::Shr => a.wrapping_shr(b as u32),
        ShiftOp::Ushr => (a as u32).wrapping_shr(b as u32) as i32,
    }
}

fn exec_long_shift(op: ShiftOp, a: i64, b: i32) -> (r: i64)
    ensures
        r == long_shift(op, a, b),
{
    match op {
        ShiftOp::Shl => a.wrapping_shl(b as u32),
        ShiftOp::Shr => a.wrapping_shr(b as u32),
        ShiftOp::Ushr => (a as u64).wrapping_shr(b as u32) as i64,
    }
}


/// The `u8` operand of `bipush`, read as a signed byte.
pub open spec fn sext8(v: u8) -> i32 {
    (v as i8) as i32
}

/// The `u16` operand of `sipush`, read as a signed short.
pub open spec fn sext16(v: u16) -> i32 {
    (v as i16) as i32
}

/// The `int` whose low byte `a` has, sign-extended (`i2b`).
pub open spec fn narrow_byte(a: i32) -> i32 {
    (a as i8) as i32
}

/// The `int` whose low 16 bits `a` has, zero-extended (`i2c`).
pub open spec fn narrow_char(a: i32) -> i32 {
    (a as u16) as i32
}

/// The `int` whose low 16 bits `a` has, sign-extended (`i2s`).
pub open spec fn narrow_short(a: i32) -> i32 {
    (a as i16) as i32
}

/// The `long` of the `int` `a`.
pub open spec fn long_of(a: i32) -> i64 {
    a as i64
}

/// The low 32 bits of the `long` `a`.
pub open spec fn int_of(a: i64) -> i32 {
    a as i32
}

/// A local variable index of one byte.
pub open spec fn idx8(i: u8) -> int {
    i as int
}

/// A local variable index of two bytes.
pub open spec fn idx16(i: u16) -> int {
    i as int
}

/// A branch offset of two bytes.
pub open spec fn off16(b: i16) -> i32 {
    b as i32
}

/// An `iinc` constant of one byte.
pub open spec fn inc8(c: i8) -> i32 {
    c as i32
}

/// An `iinc` constant of two bytes.
pub open spec fn inc16(c: i16) -> i32 {
    c as i32
}

/// The stack `st` without its top `k` slots.
pub open spec fn below(st: Seq<Value>, k: int) -> Seq<Value> {
    st.subrange(0, st.len() - k)
}

/// The slot `k` places below the top (0 is the top).
pub open spec fn slot(st: Seq<Value>, k: int) -> Value {
    st[st.len() - 1 - k]
}

/// The top `k` values are `int`s (`k` is 1 or 2).
pub open spec fn ints_on_top(st: Seq<Value>, k: int) -> bool {
    st.len() >= k && slot(st, 0) is Int && (k == 2 ==> slot(st, 1) is Int)
}

/// The top `k` values are `long`s, each above the second slot that it takes (`k` is 1 or 2).
pub open spec fn longs_on_top(st: Seq<Value>, k: int) -> bool {
    st.len() >= 2 * k && slot(st, 0) is Long && (k == 2 ==> slot(st, 2) is Long)
}

/// An `int` is on top of a `long`.
pub open spec fn int_on_long(st: Seq<Value>) -> bool {
    st.len() >= 3 && slot(st, 0) is Int && slot(st, 1) is Long
}

/// A value that `if_acmpeq` and `if_acmpne` compare: a reference or null.
pub open spec fn is_reference(v: Value) -> bool {
    v is Ref || v is Null
}

/// The two references `a` and `b` are the same.
pub open spec fn same_reference(a: Value, b: Value) -> bool {
    match (a, b) {
        (Value::Ref(x), Value::Ref(y)) => x == y,
        (Value::Null, Value::Null) => true,
        _ => false,
    }
}

/// The offset that a `lookupswitch` with the pairs `pairs` jumps by for `key`: that of the
/// first pair that matches it, else `default`.
pub open spec fn lookup_target(key: i32, default: i32, pairs: Seq<(i32, i32)>) -> i32
    decreases pairs.len(),
{
    if pairs.len() == 0 {
        default
    } else if pairs[0].0 == key {
        pairs[0].1
    } else {
        lookup_target(key, default, pairs.drop_first())
    }
}

/// The offset that a `tableswitch` jumps by for `key`.
pub open spec fn table_target(key: i32, default: i32, low: i32, high: i32, offsets: Seq<i32>) -> i32 {
    if key < low || key > high {
        default
    } else {
        offsets[key - low]
    }
}

/// The step of a load of the local variable `i`.
pub open spec fn load_step(st: Seq<Value>, loc: Seq<Value>, i: int) -> (Seq<Value>, Seq<Value>, StepAction) {
    (pushed(st, loc[i]), loc, StepAction::Next)
}

/// The step of a store into the local variable `i`.
pub open spec fn store_step(st: Seq<Value>, loc: Seq<Value>, i: int) -> (Seq<Value>, Seq<Value>, StepAction) {
    (popped(st), loc.update(i, st.last()), StepAction::Next)
}

/// The step of `op` on two `int`s.
pub open spec fn int_bin_step(st: Seq<Value>, loc: Seq<Value>, op: BinOp) -> (Seq<Value>, Seq<Value>, StepAction) {
    match int_op(op, slot(st, 1)->Int_0, slot(st, 0)->Int_0) {
        Some(r) => (below(st, 2).push(Value::Int(r)), loc, StepAction::Next),
        None => (st, loc, StepAction::ArithmeticException),
    }
}

/// The step of `op` on two `long`s.
pub open spec fn long_bin_step(st: Seq<Value>, loc: Seq<Value>, op: BinOp) -> (Seq<Value>, Seq<Value>, StepAction) {
    match long_op(op, slot(st, 2)->Long_0, slot(st, 0)->Long_0) {
        Some(r) => (pushed(below(st, 4), Value::Long(r)), loc, StepAction::Next),
        None => (st, loc, StepAction::ArithmeticException),
    }
}

/// The step of a shift of an `int`.
pub open spec fn int_shift_step(st: Seq<Value>, loc: Seq<Value>, op: ShiftOp) -> (Seq<Value>, Seq<Value>, StepAction) {
    (below(st, 2).push(Value::Int(int_shift(op, slot(st, 1)->Int_0, slot(st, 0)->Int_0))), loc, StepAction::Next)
}

/// The step of a shift of a `long`.
pub open spec fn long_shift_step(st: Seq<Value>, loc: Seq<Value>, op: ShiftOp) -> (Seq<Value>, Seq<Value>, StepAction) {
    (
        pushed(below(st, 3), Value::Long(long_shift(op, slot(st, 1)->Long_0, slot(st, 0)->Int_0))),
        loc,
        StepAction::Next,
    )
}

/// The step of a branch that pops `k` slots and jumps by `off` where `taken` holds.
pub open spec fn branch_step(st: Seq<Value>, loc: Seq<Value>, k: int, taken: bool, off: i32) -> (Seq<Value>, Seq<Value>, StepAction) {
    (below(st, k), loc, if taken {
        StepAction::Branch(off)
    } else {
        StepAction::Next
    })
}

/// The frame can take the step `ins`: the operands are on the stack with the kinds that it
/// reads, and the local variable it names is there (an `int`, for `iinc`).
pub open spec fn step_ok(st: Seq<Value>, loc: Seq<Value>, ins: Opcode) -> bool {
    match ins {
        Opcode::iload { index } | Opcode::lload { index } | Opcode::fload { index }
        | Opcode::dload { index } | Opcode::aload { index } => idx8(index) < loc.len(),
        Opcode::iload_0 | Opcode::lload_0 | Opcode::fload_0 | Opcode::dload_0 | Opcode::aload_0 => 0 < loc.len(),
        Opcode::iload_1 | Opcode::lload_1 | Opcode::fload_1 | Opcode::dload_1 | Opcode::aload_1 => 1 < loc.len(),
        Opcode::iload_2 | Opcode::lload_2 | Opcode::fload_2 | Opcode::dload_2 | Opcode::aload_2 => 2 < loc.len(),
        Opcode::iload_3 | Opcode::lload_3 | Opcode::fload_3 | Opcode::dload_3 | Opcode::aload_3 => 3 < loc.len(),
        Opcode::istore { index } | Opcode::lstore { index } | Opcode::fstore { index }
        | Opcode::dstore { index } | Opcode::astore { index } => idx8(index) < loc.len() && st.len() >= 1,
        Opcode::istore_0 | Opcode::lstore_0 | Opcode::fstore_0 | Opcode::dstore_0 | Opcode::astore_0 => 0 < loc.len() && st.len() >= 1,
        Opcode::istore_1 | Opcode::lstore_1 | Opcode::fstore_1 | Opcode::dstore_1 | Opcode::astore_1 => 1 < loc.len() && st.len() >= 1,
        Opcode::istore_2 | Opcode::lstore_2 | Opcode::fstore_2 | Opcode::dstore_2 | Opcode::astore_2 => 2 < loc.len() && st.len() >= 1,
        Opcode::istore_3 | Opcode::lstore_3 | Opcode::fstore_3 | Opcode::dstore_3 | Opcode::astore_3 => 3 < loc.len() && st.len() >= 1,
        Opcode::wide { opcode, index } => if 0x15 <= opcode <= 0x19 {
            idx16(index) < loc.len()
        } else if 0x36 <= opcode <= 0x3a {
            idx16(index) < loc.len() && st.len() >= 1
        } else {
            true
        },
        Opcode::pop | Opcode::dup => st.len() >= 1,
        Opcode::pop2 | Opcode::dup_x1 | Opcode::dup2 | Opcode::swap => st.len() >= 2,
        Opcode::dup_x2 | Opcode::dup2_x1 => st.len() >= 3,
        Opcode::dup2_x2 => st.len() >= 4,
        Opcode::iadd | Opcode::isub | Opcode::imul | Opcode::idiv | Opcode::irem | Opcode::iand
        | Opcode::ior | Opcode::ixor | Opcode::ishl | Opcode::ishr | Opcode::iushr => ints_on_top(st, 2),
        Opcode::ladd | Opcode::lsub | Opcode::lmul | Opcode::ldiv | Opcode::lrem | Opcode::land
        | Opcode::lor | Opcode::lxor | Opcode::lcmp => longs_on_top(st, 2),
        Opcode::lshl | Opcode::lshr | Opcode::lushr => int_on_long(st),
        Opcode::ineg | Opcode::i2l | Opcode::i2b | Opcode::i2c | Opcode::i2s => ints_on_top(st, 1),
        Opcode::lneg | Opcode::l2i => longs_on_top(st, 1),
        Opcode::iinc { index, .. } => idx8(index) < loc.len() && loc[idx8(index)] is Int,
        Opcode::wide_iinc { index, .. } => idx16(index) < loc.len() && loc[idx16(index)] is Int,
        Opcode::ifeq { .. } | Opcode::ifne { .. } | Opcode::iflt { .. } | Opcode::ifge { .. }
        | Opcode::ifgt { .. } | Opcode::ifle { .. } => ints_on_top(st, 1),
        Opcode::if_icmpeq { .. } | Opcode::if_icmpne { .. } | Opcode::if_icmplt { .. }
        | Opcode::if_icmpge { .. } | Opcode::if_icmpgt { .. } | Opcode::if_icmple { .. } => ints_on_top(st, 2),
        Opcode::if_acmpeq { .. } | Opcode::if_acmpne { .. } => st.len() >= 2 && is_reference(
            slot(st, 0),
        ) && is_reference(slot(st, 1)),
        Opcode::ifnull { .. } | Opcode::ifnonnull { .. } => st.len() >= 1,
        Opcode::tableswitch { low, high, jump_offsets, .. } => ints_on_top(st, 1) && (slot(st, 0)->Int_0 < low
            || slot(st, 0)->Int_0 > high || slot(st, 0)->Int_0 - low < jump_offsets@.len()),
        Opcode::lookupswitch { .. } => ints_on_top(st, 1),
        Opcode::ireturn | Opcode::lreturn | Opcode::freturn | Opcode::dreturn | Opcode::areturn => st.len() >= 1,
        _ => true,
    }
}

/// What the step `ins` makes of the operand stack `st` and the local variables `loc`, and
/// what the host does next.
pub open spec fn spec_step(st: Seq<Value>, loc: Seq<Value>, ins: Opcode) -> (Seq<Value>, Seq<Value>, StepAction) {
    let next = StepAction::Next;
    match ins {
        Opcode::nop => (st, loc, next),
        Opcode::aconst_null => (st.push(Value::Null), loc, next),
        Opcode::iconst_m1 => (st.push(Value::Int(-1i32)), loc, next),
        Opcode::iconst_0 => (st.push(Value::Int(0)), loc, next),
        Opcode::iconst_1 => (st.push(Value::Int(1)), loc, next),
        Opcode::iconst_2 => (st.push(Value::Int(2)), loc, next),
        Opcode::iconst_3 => (st.push(Value::Int(3)), loc, next),
        Opcode::iconst_4 => (st.push(Value::Int(4)), loc, next),
        Opcode::iconst_5 => (st.push(Value::Int(5)), loc, next),
        Opcode::lconst_0 => (pushed(st, Value::Long(0)), loc, next),
        Opcode::lconst_1 => (pushed(st, Value::Long(1)), loc, next),
        Opcode::bipush { val } => (st.push(Value::Int(sext8(val))), loc, next),
        Opcode::sipush { val } => (st.push(Value::Int(sext16(val))), loc, next),
        Opcode::iload { index } | Opcode::lload { index } | Opcode::fload { index }
        | Opcode::dload { index } | Opcode::aload { index } => load_step(st, loc, idx8(index)),
        Opcode::iload_0 | Opcode::lload_0 | Opcode::fload_0 | Opcode::dload_0 | Opcode::aload_0 => load_step(st, loc, 0),
        Opcode::iload_1 | Opcode::lload_1 | Opcode::fload_1 | Opcode::dload_1 | Opcode::aload_1 => load_step(st, loc, 1),
        Opcode::iload_2 | Opcode::lload_2 | Opcode::fload_2 | Opcode::dload_2 | Opcode::aload_2 => load_step(st, loc, 2),
        Opcode::iload_3 | Opcode::lload_3 | Opcode::fload_3 | Opcode::dload_3 | Opcode::aload_3 => load_step(st, loc, 3),
        Opcode::istore { index } | Opcode::lstore { index } | Opcode::fstore { index }
        | Opcode::dstore { index } | Opcode::astore { index } => store_step(st, loc, idx8(index)),
        Opcode::istore_0 | Opcode::lstore_0 | Opcode::fstore_0 | Opcode::dstore_0 | Opcode::astore_0 => store_step(st, loc, 0),
        Opcode::istore_1 | Opcode::lstore_1 | Opcode::fstore_1 | Opcode::dstore_1 | Opcode::astore_1 => store_step(st, loc, 1),
        Opcode::istore_2 | Opcode::lstore_2 | Opcode::fstore_2 | Opcode::dstore_2 | Opcode::astore_2 => store_step(st, loc, 2),
        Opcode::istore_3 | Opcode::lstore_3 | Opcode::fstore_3 | Opcode::dstore_3 | Opcode::astore_3 => store_step(st, loc, 3),
        Opcode::wide { opcode, index } => if 0x15 <= opcode <= 0x19 {
            load_step(st, loc, idx16(index))
        } else if 0x36 <= opcode <= 0x3a {
            store_step(st, loc, idx16(index))
        } else {
            (st, loc, StepAction::Outside)
        },
        Opcode::pop => (below(st, 1), loc, next),
        Opcode::pop2 => (below(st, 2), loc, next),
        Opcode::dup => (st.push(slot(st, 0)), loc, next),
        Opcode::dup_x1 => (below(st, 2) + seq![slot(st, 0), slot(st, 1), slot(st, 0)], loc, next),
        Opcode::dup_x2 => (
            below(st, 3) + seq![slot(st, 0), slot(st, 2), slot(st, 1), slot(st, 0)],
            loc,
            next,
        ),
        Opcode::dup2 => (below(st, 2) + seq![slot(st, 1), slot(st, 0), slot(st, 1), slot(st, 0)], loc, next),
        Opcode::dup2_x1 => (
            below(st, 3) + seq![slot(st, 1), slot(st, 0), slot(st, 2), slot(st, 1), slot(st, 0)],
            loc,
            next,
        ),
        Opcode::dup2_x2 => (
            below(st, 4) + seq![slot(st, 1), slot(st, 0), slot(st, 3), slot(st, 2), slot(st, 1), slot(st, 0)],
            loc,
            next,
        ),
        Opcode::swap => (below(st, 2) + seq![slot(st, 0), slot(st, 1)], loc, next),
        Opcode::iadd => int_bin_step(st, loc, BinOp::Add),
        Opcode::isub => int_bin_step(st, loc, BinOp::Sub),
        Opcode::imul => int_bin_step(st, loc, BinOp::Mul),
        Opcode::idiv => int_bin_step(st, loc, BinOp::Div),
        Opcode::irem => int_bin_step(st, loc, BinOp::Rem),
        Opcode::iand => int_bin_step(st, loc, BinOp::And),
        Opcode::ior => int_bin_step(st, loc, BinOp::Or),
        Opcode::ixor => int_bin_step(st, loc, BinOp::Xor),
        Opcode::ladd => long_bin_step(st, loc, BinOp::Add),
        Opcode::lsub => long_bin_step(st, loc, BinOp::Sub),
        Opcode::lmul => long_bin_step(st, loc, BinOp::Mul),
        Opcode::ldiv => long_bin_step(st, loc, BinOp::Div),
        Opcode::lrem => long_bin_step(st, loc, BinOp::Rem),
        Opcode::land => long_bin_step(st, loc, BinOp::And),
        Opcode::lor => long_bin_step(st, loc, BinOp::Or),
        Opcode::lxor => long_bin_step(st, loc, BinOp::Xor),
        Opcode::ishl => int_shift_step(st, loc, ShiftOp::Shl),
        Opcode::ishr => int_shift_step(st, loc, ShiftOp::Shr),
        Opcode::iushr => int_shift_step(st, loc, ShiftOp::Ushr),
        Opcode::lshl => long_shift_step(st, loc, ShiftOp::Shl),
        Opcode::lshr => long_shift_step(st, loc, ShiftOp::Shr),
        Opcode::lushr => long_shift_step(st, loc, ShiftOp::Ushr),
        Opcode::ineg => (below(st, 1).push(Value::Int(0i32.wrapping_sub(slot(st, 0)->Int_0))), loc, next),
        Opcode::lneg => (pushed(below(st, 2), Value::Long(0i64.wrapping_sub(slot(st, 0)->Long_0))), loc, next),
        Opcode::i2l => (pushed(below(st, 1), Value::Long(long_of(slot(st, 0)->Int_0))), loc, next),
        Opcode::l2i => (below(st, 2).push(Value::Int(int_of(slot(st, 0)->Long_0))), loc, next),
        Opcode::i2b => (below(st, 1).push(Value::Int(narrow_byte(slot(st, 0)->Int_0))), loc, next),
        Opcode::i2c => (below(st, 1).push(Value::Int(narrow_char(slot(st, 0)->Int_0))), loc, next),
        Opcode::i2s => (below(st, 1).push(Value::Int(narrow_short(slot(st, 0)->Int_0))), loc, next),
        Opcode::lcmp => {
            let (a, b) = (slot(st, 2)->Long_0, slot(st, 0)->Long_0);
            (below(st, 4).push(Value::Int(if a < b {
                -1i32
            } else if a == b {
                0i32
            } else {
                1i32
            })), loc, next)
        },
        Opcode::iinc { index, const_ } => (
            st,
            loc.update(idx8(index), Value::Int(loc[idx8(index)]->Int_0.wrapping_add(inc8(const_)))),
            next,
        ),
        Opcode::wide_iinc { index, const_ } => (
            st,
            loc.update(idx16(index), Value::Int(loc[idx16(index)]->Int_0.wrapping_add(inc16(const_)))),
            next,
        ),
        Opcode::ifeq { branch } => branch_step(st, loc, 1, slot(st, 0)->Int_0 == 0, off16(branch)),
        Opcode::ifne { branch } => branch_step(st, loc, 1, slot(st, 0)->Int_0 != 0, off16(branch)),
        Opcode::iflt { branch } => branch_step(st, loc, 1, slot(st, 0)->Int_0 < 0, off16(branch)),
        Opcode::ifge { branch } => branch_step(st, loc, 1, slot(st, 0)->Int_0 >= 0, off16(branch)),
        Opcode::ifgt { branch } => branch_step(st, loc, 1, slot(st, 0)->Int_0 > 0, off16(branch)),
        Opcode::ifle { branch } => branch_step(st, loc, 1, slot(st, 0)->Int_0 <= 0, off16(branch)),
        Opcode::if_icmpeq { branch } => branch_step(st, loc, 2, slot(st, 1)->Int_0 == slot(st, 0)->Int_0, off16(branch)),
        Opcode::if_icmpne { branch } => branch_step(st, loc, 2, slot(st, 1)->Int_0 != slot(st, 0)->Int_0, off16(branch)),
        Opcode::if_icmplt { branch } => branch_step(st, loc, 2, slot(st, 1)->Int_0 < slot(st, 0)->Int_0, off16(branch)),
        Opcode::if_icmpge { branch } => branch_step(st, loc, 2, slot(st, 1)->Int_0 >= slot(st, 0)->Int_0, off16(branch)),
        Opcode::if_icmpgt { branch } => branch_step(st, loc, 2, slot(st, 1)->Int_0 > slot(st, 0)->Int_0, off16(branch)),
        Opcode::if_icmple { branch } => branch_step(st, loc, 2, slot(st, 1)->Int_0 <= slot(st, 0)->Int_0, off16(branch)),
        Opcode::if_acmpeq { branch } => branch_step(st, loc, 2, same_reference(slot(st, 1), slot(st, 0)), off16(branch)),
        Opcode::if_acmpne { branch } => branch_step(st, loc, 2, !same_reference(slot(st, 1), slot(st, 0)), off16(branch)),
        Opcode::ifnull { branch } => branch_step(st, loc, 1, slot(st, 0) is Null, off16(branch)),
        Opcode::ifnonnull { branch } => branch_step(st, loc, 1, !(slot(st, 0) is Null), off16(branch)),
        Opcode::goto { branch } => (st, loc, StepAction::Branch(off16(branch))),
        Opcode::goto_w { branch } => (st, loc, StepAction::Branch(branch)),
        Opcode::tableswitch { default, low, high, jump_offsets, .. } => (
            below(st, 1),
            loc,
            StepAction::Branch(table_target(slot(st, 0)->Int_0, default, low, high, jump_offsets@)),
        ),
        Opcode::lookupswitch { default, match_offset_pairs, .. } => (
            below(st, 1),
            loc,
            StepAction::Branch(lookup_target(slot(st, 0)->Int_0, default, match_offset_pairs@)),
        ),
        Opcode::ireturn | Opcode::lreturn | Opcode::freturn | Opcode::dreturn | Opcode::areturn => (
            popped(st),
            loc,
            StepAction::Return(Some(st.last())),
        ),
        Opcode::return_ => (st, loc, StepAction::Return(None)),
        _ => (st, loc, StepAction::Outside),
    }
}

fn usize8(i: u8) -> (r: usize)
    ensures
        r == idx8(i),
{
    i as usize
}

fn usize16(i: u16) -> (r: usize)
    ensures
        r == idx16(i),
{
    i as usize
}

fn exec_sext8(v: u8) -> (r: i32)
    ensures
        r == sext8(v),
{
    (v as i8) as i32
}

fn exec_sext16(v: u16) -> (r: i32)
    ensures
        r == sext16(v),
{
    (v as i16) as i32
}

pub(crate) fn exec_narrow_byte(a: i32) -> (r: i32)
    ensures
        r == narrow_byte(a),
{
    (a as i8) as i32
}

pub(crate) fn exec_narrow_char(a: i32) -> (r: i32)
    ensures
        r == narrow_char(a),
{
    (a as u16) as i32
}

pub(crate) fn exec_narrow_short(a: i32) -> (r: i32)
    ensures
        r == narrow_short(a),
{
    (a as i16) as i32
}

fn exec_long_of(a: i32) -> (r: i64)
    ensures
        r == long_of(a),
{
    a as i64
}

fn exec_int_of(a: i64) -> (r: i32)
    ensures
        r == int_of(a),
{
    a as i32
}

fn exec_off16(b: i16) -> (r: i32)
    ensures
        r == off16(b),
{
    b as i32
}

fn exec_inc8(c: i8) -> (r: i32)
    ensures
        r == inc8(c),
{
    c as i32
}

fn exec_inc16(c: i16) -> (r: i32)
    ensures
        r == inc16(c),
{
    c as i32
}

/// Takes the top `k` slots off the stack and puts `vals` on it.
pub(crate) fn rewrite_top(st: &mut Vec<Value>, k: usize, vals: Vec<Value>)
    requires
        k <= old(st)@.len(),
    ensures
        final(st)@ == below(old(st)@, k as int) + vals@,
{
    let ghost s0 = st@;
    let mut i: usize = 0;
    while i < k
        invariant
            i <= k,
            k <= s0.len(),
            st@ == s0.subrange(0, s0.len() - i),
        decreases k - i,
    {
        st.pop();
        i = i + 1;
    }
    let mut j: usize = 0;
    while j < vals.len()
        invariant
            j <= vals@.len(),
            k <= s0.len(),
            st@ == below(s0, k as int) + vals@.subrange(0, j as int),
        decreases vals@.len() - j,
    {
        st.push(vals[j]);
        j = j + 1;
        assert(vals@.subrange(0, j as int) =~= vals@.subrange(0, j - 1).push(vals@[j - 1]));
    }
    assert(vals@.subrange(0, vals@.len() as int) =~= vals@);
}

/// Pushes `v`, below a wide value its second slot.
pub fn push_value(st: &mut Vec<Value>, v: Value)
    ensures
        final(st)@ == pushed(old(st)@, v),
{
    match v {
        Value::Long(_) | Value::Double(_) => {
            st.push(Value::Null);
        },
        _ => {},
    }
    st.push(v);
}

/// Takes the top value off the stack, and the slot below a wide one.
pub fn pop_value(st: &mut Vec<Value>) -> (v: Value)
    requires
        old(st)@.len() >= 1,
    ensures
        v == old(st)@.last(),
        final(st)@ == popped(old(st)@),
{
    let v = match st.pop() {
        Some(x) => x,
        None => Value::Null,
    };
    match v {
        Value::Long(_) | Value::Double(_) => {
            if st.len() > 0 {
                st.pop();
            }
        },
        _ => {},
    }
    v
}

fn load_local(frame: &mut Frame, i: usize) -> (a: StepAction)
    requires
        i < old(frame).locals@.len(),
    ensures
        (final(frame).stack@, final(frame).locals@, a) == load_step(
            old(frame).stack@,
            old(frame).locals@,
            i as int,
        ),
{
    let v = frame.locals[i];
    push_value(&mut frame.stack, v);
    StepAction::Next
}

fn store_local(frame: &mut Frame, i: usize) -> (a: StepAction)
    requires
        i < old(frame).locals@.len(),
        old(frame).stack@.len() >= 1,
    ensures
        (final(frame).stack@, final(frame).locals@, a) == store_step(
            old(frame).stack@,
            old(frame).locals@,
            i as int,
        ),
{
    let v = pop_value(&mut frame.stack);
    frame.locals.set(i, v);
    StepAction::Next
}

pub(crate) fn int_at(st: &Vec<Value>, k: usize) -> (x: i32)
    requires
        k < st@.len(),
        slot(st@, k as int) is Int,
    ensures
        x == slot(st@, k as int)->Int_0,
{
    match st[st.len() - 1 - k] {
        Value::Int(x) => x,
        _ => 0,
    }
}

fn long_at(st: &Vec<Value>, k: usize) -> (x: i64)
    requires
        k < st@.len(),
        slot(st@, k as int) is Long,
    ensures
        x == slot(st@, k as int)->Long_0,
{
    match st[st.len() - 1 - k] {
        Value::Long(x) => x,
        _ => 0,
    }
}

pub(crate) fn slot_at(st: &Vec<Value>, k: usize) -> (v: Value)
    requires
        k < st@.len(),
    ensures
        v == slot(st@, k as int),
{
    st[st.len() - 1 - k]
}

fn int_bin(frame: &mut Frame, op: BinOp) -> (a: StepAction)
    requires
        ints_on_top(old(frame).stack@, 2),
    ensures
        (final(frame).stack@, final(frame).locals@, a) == int_bin_step(
            old(frame).stack@,
            old(frame).locals@,
            op,
        ),
{
    let b = int_at(&frame.stack, 0);
    let x = int_at(&frame.stack, 1);
    match exec_int_op(op, x, b) {
        Some(r) => {
            let ghost s0 = frame.stack@;
            rewrite_top(&mut frame.stack, 2, vec![Value::Int(r)]);
            assert(frame.stack@ =~= below(s0, 2).push(Value::Int(r)));
            StepAction::Next
        },
        None => StepAction::ArithmeticException,
    }
}

fn long_bin(frame: &mut Frame, op: BinOp) -> (a: StepAction)
    requires
        longs_on_top(old(frame).stack@, 2),
    ensures
        (final(frame).stack@, final(frame).locals@, a) == long_bin_step(
            old(frame).stack@,
            old(frame).locals@,
            op,
        ),
{
    let b = long_at(&frame.stack, 0);
    let x = long_at(&frame.stack, 2);
    match exec_long_op(op, x, b) {
        Some(r) => {
            let ghost s0 = frame.stack@;
            rewrite_top(&mut frame.stack, 4, vec![Value::Null, Value::Long(r)]);
            assert(frame.stack@ =~= pushed(below(s0, 4), Value::Long(r)));
            StepAction::Next
        },
        None => StepAction::ArithmeticException,
    }
}

fn int_shift_op(frame: &mut Frame, op: ShiftOp) -> (a: StepAction)
    requires
        ints_on_top(old(frame).stack@, 2),
    ensures
        (final(frame).stack@, final(frame).locals@, a) == int_shift_step(
            old(frame).stack@,
            old(frame).locals@,
            op,
        ),
{
    let b = int_at(&frame.stack, 0);
    let x = int_at(&frame.stack, 1);
    let r = exec_int_shift(op, x, b);
    let ghost s0 = frame.stack@;
    rewrite_top(&mut frame.stack, 2, vec![Value::Int(r)]);
    assert(frame.stack@ =~= below(s0, 2).push(Value::Int(r)));
    StepAction::Next
}

fn long_shift_op(frame: &mut Frame, op: ShiftOp) -> (a: StepAction)
    requires
        int_on_long(old(frame).stack@),
    ensures
        (final(frame).stack@, final(frame).locals@, a) == long_shift_step(
            old(frame).stack@,
            old(frame).locals@,
            op,
        ),
{
    let b = int_at(&frame.stack, 0);
    let x = long_at(&frame.stack, 1);
    let r = exec_long_shift(op, x, b);
    let ghost s0 = frame.stack@;
    rewrite_top(&mut frame.stack, 3, vec![Value::Null, Value::Long(r)]);
    assert(frame.stack@ =~= pushed(below(s0, 3), Value::Long(r)));
    StepAction::Next
}

fn branch_if(frame: &mut Frame, k: usize, taken: bool, off: i32) -> (a: StepAction)
    requires
        k <= old(frame).stack@.len(),
    ensures
        (final(frame).stack@, final(frame).locals@, a) == branch_step(
            old(frame).stack@,
            old(frame).locals@,
            k as int,
            taken,
            off,
        ),
{
    let ghost s0 = frame.stack@;
    rewrite_top(&mut frame.stack, k, Vec::new());
    assert(frame.stack@ =~= below(s0, k as int));
    if taken {
        StepAction::Branch(off)
    } else {
        StepAction::Next
    }
}

fn table_target_exec(key: i32, default: i32, low: i32, high: i32, offsets: &Vec<i32>) -> (r: i32)
    requires
        key < low || key > high || key - low < offsets@.len(),
    ensures
        r == table_target(key, default, low, high, offsets@),
{
    if key < low || key > high {
        default
    } else {
        let i = (key as i64 - low as i64) as usize;
        offsets[i]
    }
}

fn lookup_target_exec(key: i32, default: i32, pairs: &Vec<(i32, i32)>) -> (r: i32)
    ensures
        r == lookup_target(key, default, pairs@),
{
    let mut i: usize = 0;
    assert(pairs@.subrange(0, pairs@.len() as int) =~= pairs@);
    while i < pairs.len()
        invariant
            i <= pairs@.len(),
            lookup_target(key, default, pairs@) == lookup_target(
                key,
                default,
                pairs@.subrange(i as int, pairs@.len() as int),
            ),
        decreases pairs@.len() - i,
    {
        let ghost rest = pairs@.subrange(i as int, pairs@.len() as int);
        assert(rest.drop_first() =~= pairs@.subrange(i + 1, pairs@.len() as int));
        if pairs[i].0 == key {
            return pairs[i].1;
        }
        i = i + 1;
    }
    default
}

/// Carries out the instruction `ins` on `frame` where it works on integers, longs, the
/// operand stack, the local variables or the flow of control, and says what the host does
/// next; any other instruction leaves the frame as it is, for the host to carry out.
pub fn step(frame: &mut Frame, ins: &Opcode) -> (a: StepAction)
    requires
        step_ok(old(frame).stack@, old(frame).locals@, *ins),
    ensures
        (final(frame).stack@, final(frame).locals@, a) == spec_step(
            old(frame).stack@,
            old(frame).locals@,
            *ins,
        ),
{
    let ghost s0 = frame.stack@;
    match ins {
        Opcode::nop => StepAction::Next,
        Opcode::aconst_null => {
            frame.stack.push(Value::Null);
            StepAction::Next
        },
        Opcode::iconst_m1 => {
            frame.stack.push(Value::Int(-1));
            StepAction::Next
        },
        Opcode::iconst_0 => {
            frame.stack.push(Value::Int(0));
            StepAction::Next
        },
        Opcode::iconst_1 => {
            frame.stack.push(Value::Int(1));
            StepAction::Next
        },
        Opcode::iconst_2 => {
            frame.stack.push(Value::Int(2));
            StepAction::Next
        },
        Opcode::iconst_3 => {
            frame.stack.push(Value::Int(3));
            StepAction::Next
        },
        Opcode::iconst_4 => {
            frame.stack.push(Value::Int(4));
            StepAction::Next
        },
        Opcode::iconst_5 => {
            frame.stack.push(Value::Int(5));
            StepAction::Next
        },
        Opcode::lconst_0 => {
            push_value(&mut frame.stack, Value::Long(0));
            StepAction::Next
        },
        Opcode::lconst_1 => {
            push_value(&mut frame.stack, Value::Long(1));
            StepAction::Next
        },
        Opcode::bipush { val } => {
            frame.stack.push(Value::Int(exec_sext8(*val)));
            StepAction::Next
        },
        Opcode::sipush { val } => {
            frame.stack.push(Value::Int(exec_sext16(*val)));
            StepAction::Next
        },
        Opcode::iload { index } | Opcode::lload { index } | Opcode::fload { index }
        | Opcode::dload { index } | Opcode::aload { index } => load_local(frame, usize8(*index)),
        Opcode::iload_0 | Opcode::lload_0 | Opcode::fload_0 | Opcode::dload_0 | Opcode::aload_0 => load_local(frame, 0),
        Opcode::iload_1 | Opcode::lload_1 | Opcode::fload_1 | Opcode::dload_1 | Opcode::aload_1 => load_local(frame, 1),
        Opcode::iload_2 | Opcode::lload_2 | Opcode::fload_2 | Opcode::dload_2 | Opcode::aload_2 => load_local(frame, 2),
        Opcode::iload_3 | Opcode::lload_3 | Opcode::fload_3 | Opcode::dload_3 | Opcode::aload_3 => load_local(frame, 3),
        Opcode::istore { index } | Opcode::lstore { index } | Opcode::fstore { index }
        | Opcode::dstore { index } | Opcode::astore { index } => store_local(frame, usize8(*index)),
        Opcode::istore_0 | Opcode::lstore_0 | Opcode::fstore_0 | Opcode::dstore_0 | Opcode::astore_0 => store_local(frame, 0),
        Opcode::istore_1 | Opcode::lstore_1 | Opcode::fstore_1 | Opcode::dstore_1 | Opcode::astore_1 => store_local(frame, 1),
        Opcode::istore_2 | Opcode::lstore_2 | Opcode::fstore_2 | Opcode::dstore_2 | Opcode::astore_2 => store_local(frame, 2),
        Opcode::istore_3 | Opcode::lstore_3 | Opcode::fstore_3 | Opcode::dstore_3 | Opcode::astore_3 => store_local(frame, 3),
        Opcode::wide { opcode, index } => {
            if 0x15 <= *opcode && *opcode <= 0x19 {
                load_local(frame, usize16(*index))
            } else if 0x36 <= *opcode && *opcode <= 0x3a {
                store_local(frame, usize16(*index))
            } else {
                StepAction::Outside
            }
        },
        Opcode::pop => {
            rewrite_top(&mut frame.stack, 1, Vec::new());
            assert(frame.stack@ =~= below(s0, 1));
            StepAction::Next
        },
        Opcode::pop2 => {
            rewrite_top(&mut frame.stack, 2, Vec::new());
            assert(frame.stack@ =~= below(s0, 2));
            StepAction::Next
        },
        Opcode::dup => {
            let x = slot_at(&frame.stack, 0);
            frame.stack.push(x);
            StepAction::Next
        },
        Opcode::dup_x1 => {
            let (x, y) = (slot_at(&frame.stack, 0), slot_at(&frame.stack, 1));
            rewrite_top(&mut frame.stack, 2, vec![x, y, x]);
            StepAction::Next
        },
        Opcode::dup_x2 => {
            let (x, y, z) = (slot_at(&frame.stack, 0), slot_at(&frame.stack, 1), slot_at(&frame.stack, 2));
            rewrite_top(&mut frame.stack, 3, vec![x, z, y, x]);
            StepAction::Next
        },
        Opcode::dup2 => {
            let (x, y) = (slot_at(&frame.stack, 0), slot_at(&frame.stack, 1));
            rewrite_top(&mut frame.stack, 2, vec![y, x, y, x]);
            StepAction::Next
        },
        Opcode::dup2_x1 => {
            let (x, y, z) = (slot_at(&frame.stack, 0), slot_at(&frame.stack, 1), slot_at(&frame.stack, 2));
            rewrite_top(&mut frame.stack, 3, vec![y, x, z, y, x]);
            StepAction::Next
        },
        Opcode::dup2_x2 => {
            let (x, y) = (slot_at(&frame.stack, 0), slot_at(&frame.stack, 1));
            let (z, w) = (slot_at(&frame.stack, 2), slot_at(&frame.stack, 3));
            rewrite_top(&mut frame.stack, 4, vec![y, x, w, z, y, x]);
            StepAction::Next
        },
        Opcode::swap => {
            let (x, y) = (slot_at(&frame.stack, 0), slot_at(&frame.stack, 1));
            rewrite_top(&mut frame.stack, 2, vec![x, y]);
            StepAction::Next
        },
        Opcode::iadd => int_bin(frame, BinOp::Add),
        Opcode::isub => int_bin(frame, BinOp::Sub),
        Opcode::imul => int_bin(frame, BinOp::Mul),
        Opcode::idiv => int_bin(frame, BinOp::Div),
        Opcode::irem => int_bin(frame, BinOp::Rem),
        Opcode::iand => int_bin(frame, BinOp::And),
        Opcode::ior => int_bin(frame, BinOp::Or),
        Opcode::ixor => int_bin(frame, BinOp::Xor),
        Opcode::ladd => long_bin(frame, BinOp::Add),
        Opcode::lsub => long_bin(frame, BinOp::Sub),
        Opcode::lmul => long_bin(frame, BinOp::Mul),
        Opcode::ldiv => long_bin(frame, BinOp::Div),
        Opcode::lrem => long_bin(frame, BinOp::Rem),
        Opcode::land => long_bin(frame, BinOp::And),
        Opcode::lor => long_bin(frame, BinOp::Or),
        Opcode::lxor => long_bin(frame, BinOp::Xor),
        Opcode::ishl => int_shift_op(frame, ShiftOp::Shl),
        Opcode::ishr => int_shift_op(frame, ShiftOp::Shr),
        Opcode::iushr => int_shift_op(frame, ShiftOp::Ushr),
        Opcode::lshl => long_shift_op(frame, ShiftOp::Shl),
        Opcode::lshr => long_shift_op(frame, ShiftOp::Shr),
        Opcode::lushr => long_shift_op(frame, ShiftOp::Ushr),
        Opcode::ineg => {
            let x = int_at(&frame.stack, 0);
            let r = 0i32.wrapping_sub(x);
            rewrite_top(&mut frame.stack, 1, vec![Value::Int(r)]);
            assert(frame.stack@ =~= below(s0, 1).push(Value::Int(r)));
            StepAction::Next
        },
        Opcode::lneg => {
            let x = long_at(&frame.stack, 0);
            let r = 0i64.wrapping_sub(x);
            rewrite_top(&mut frame.stack, 2, vec![Value::Null, Value::Long(r)]);
            assert(frame.stack@ =~= pushed(below(s0, 2), Value::Long(r)));
            StepAction::Next
        },
        Opcode::i2l => {
            let r = exec_long_of(int_at(&frame.stack, 0));
            rewrite_top(&mut frame.stack, 1, vec![Value::Null, Value::Long(r)]);
            assert(frame.stack@ =~= pushed(below(s0, 1), Value::Long(r)));
            StepAction::Next
        },
        Opcode::l2i => {
            let r = exec_int_of(long_at(&frame.stack, 0));
            rewrite_top(&mut frame.stack, 2, vec![Value::Int(r)]);
            assert(frame.stack@ =~= below(s0, 2).push(Value::Int(r)));
            StepAction::Next
        },
        Opcode::i2b => {
            let r = exec_narrow_byte(int_at(&frame.stack, 0));
            rewrite_top(&mut frame.stack, 1, vec![Value::Int(r)]);
            assert(frame.stack@ =~= below(s0, 1).push(Value::Int(r)));
            StepAction::Next
        },
        Opcode::i2c => {
            let r = exec_narrow_char(int_at(&frame.stack, 0));
            rewrite_top(&mut frame.stack, 1, vec![Value::Int(r)]);
            assert(frame.stack@ =~= below(s0, 1).push(Value::Int(r)));
            StepAction::Next
        },
        Opcode::i2s => {
            let r = exec_narrow_short(int_at(&frame.stack, 0));
            rewrite_top(&mut frame.stack, 1, vec![Value::Int(r)]);
            assert(frame.stack@ =~= below(s0, 1).push(Value::Int(r)));
            StepAction::Next
        },
        Opcode::lcmp => {
            let (x, y) = (long_at(&frame.stack, 2), long_at(&frame.stack, 0));
            let r: i32 = if x < y {
                -1
            } else if x == y {
                0
            } else {
                1
            };
            rewrite_top(&mut frame.stack, 4, vec![Value::Int(r)]);
            assert(frame.stack@ =~= below(s0, 4).push(Value::Int(r)));
            StepAction::Next
        },
        Opcode::iinc { index, const_ } => {
            let i = usize8(*index);
            let x = match frame.locals[i] {
                Value::Int(x) => x,
                _ => 0,
            };
            frame.locals.set(i, Value::Int(x.wrapping_add(exec_inc8(*const_))));
            StepAction::Next
        },
        Opcode::wide_iinc { index, const_ } => {
            let i = usize16(*index);
            let x = match frame.locals[i] {
                Value::Int(x) => x,
                _ => 0,
            };
            frame.locals.set(i, Value::Int(x.wrapping_add(exec_inc16(*const_))));
            StepAction::Next
        },
        Opcode::ifeq { branch } => {
            let x = int_at(&frame.stack, 0);
            branch_if(frame, 1, x == 0, exec_off16(*branch))
        },
        Opcode::ifne { branch } => {
            let x = int_at(&frame.stack, 0);
            branch_if(frame, 1, x != 0, exec_off16(*branch))
        },
        Opcode::iflt { branch } => {
            let x = int_at(&frame.stack, 0);
            branch_if(frame, 1, x < 0, exec_off16(*branch))
        },
        Opcode::ifge { branch } => {
            let x = int_at(&frame.stack, 0);
            branch_if(frame, 1, x >= 0, exec_off16(*branch))
        },
        Opcode::ifgt { branch } => {
            let x = int_at(&frame.stack, 0);
            branch_if(frame, 1, x > 0, exec_off16(*branch))
        },
        Opcode::ifle { branch } => {
            let x = int_at(&frame.stack, 0);
            branch_if(frame, 1, x <= 0, exec_off16(*branch))
        },
        Opcode::if_icmpeq { branch } => {
            let (x, y) = (int_at(&frame.stack, 1), int_at(&frame.stack, 0));
            branch_if(frame, 2, x == y, exec_off16(*branch))
        },
        Opcode::if_icmpne { branch } => {
            let (x, y) = (int_at(&frame.stack, 1), int_at(&frame.stack, 0));
            branch_if(frame, 2, x != y, exec_off16(*branch))
        },
        Opcode::if_icmplt { branch } => {
            let (x, y) = (int_at(&frame.stack, 1), int_at(&frame.stack, 0));
            branch_if(frame, 2, x < y, exec_off16(*branch))
        },
        Opcode::if_icmpge { branch } => {
            let (x, y) = (int_at(&frame.stack, 1), int_at(&frame.stack, 0));
            branch_if(frame, 2, x >= y, exec_off16(*branch))
        },
        Opcode::if_icmpgt { branch } => {
            let (x, y) = (int_at(&frame.stack, 1), int_at(&frame.stack, 0));
            branch_if(frame, 2, x > y, exec_off16(*branch))
        },
        Opcode::if_icmple { branch } => {
            let (x, y) = (int_at(&frame.stack, 1), int_at(&frame.stack, 0));
            branch_if(frame, 2, x <= y, exec_off16(*branch))
        },
        Opcode::if_acmpeq { branch } => {
            let same = references_equal(slot_at(&frame.stack, 1), slot_at(&frame.stack, 0));
            branch_if(frame, 2, same, exec_off16(*branch))
        },
        Opcode::if_acmpne { branch } => {
            let same = references_equal(slot_at(&frame.stack, 1), slot_at(&frame.stack, 0));
            branch_if(frame, 2, !same, exec_off16(*branch))
        },
        Opcode::ifnull { branch } => {
            let is_null = matches!(slot_at(&frame.stack, 0), Value::Null);
            branch_if(frame, 1, is_null, exec_off16(*branch))
        },
        Opcode::ifnonnull { branch } => {
            let is_null = matches!(slot_at(&frame.stack, 0), Value::Null);
            branch_if(frame, 1, !is_null, exec_off16(*branch))
        },
        Opcode::goto { branch } => StepAction::Branch(exec_off16(*branch)),
        Opcode::goto_w { branch } => StepAction::Branch(*branch),
        Opcode::tableswitch { default, low, high, jump_offsets, .. } => {
            let key = int_at(&frame.stack, 0);
            let off = table_target_exec(key, *default, *low, *high, jump_offsets);
            branch_if(frame, 1, true, off)
        },
        Opcode::lookupswitch { default, match_offset_pairs, .. } => {
            let key = int_at(&frame.stack, 0);
            let off = lookup_target_exec(key, *default, match_offset_pairs);
            branch_if(frame, 1, true, off)
        },
        Opcode::ireturn | Opcode::lreturn | Opcode::freturn | Opcode::dreturn | Opcode::areturn => {
            let v = pop_value(&mut frame.stack);
            StepAction::Return(Some(v))
        },
        Opcode::return_ => StepAction::Return(None),
        _ => StepAction::Outside,
    }
}

/// Whether the references `a` and `b` are the same.
fn references_equal(a: Value, b: Value) -> (r: bool)
    ensures
        r == same_reference(a, b),
{
    match (a, b) {
        (Value::Ref(x), Value::Ref(y)) => x == y,
        (Value::Null, Value::Null) => true,
        _ => false,
    }
}

/// Popping the value just pushed gives it back and leaves the stack as it was: a `long` or a
/// `double` goes with its second slot.
pub proof fn law_push_pop(st: Seq<Value>, v: Value)
    ensures
        pushed(st, v).last() == v,
        popped(pushed(st, v)) == st,
{
    assert(popped(pushed(st, v)) =~= st);
}

/// Storing the value on top of the stack into a local variable and loading that variable
/// again puts the same value back on the same stack.
pub proof fn law_store_load(st: Seq<Value>, loc: Seq<Value>, v: Value, i: int)
    requires
        0 <= i < loc.len(),
    ensures
        ({
            let (st1, loc1, _) = store_step(pushed(st, v), loc, i);
            let (st2, loc2, a) = load_step(st1, loc1, i);
            st2 == pushed(st, v) && loc2 == loc.update(i, v) && a == StepAction::Next
        }),
{
    law_push_pop(st, v);
}

fn kind_at(st: &Vec<Value>, k: usize) -> (r: (bool, bool, bool))
    ensures
        r.0 == (k < st@.len() && slot(st@, k as int) is Int),
        r.1 == (k < st@.len() && slot(st@, k as int) is Long),
        r.2 == (k < st@.len() && is_reference(slot(st@, k as int))),
{
    if k >= st.len() {
        return (false, false, false);
    }
    match st[st.len() - 1 - k] {
        Value::Int(_) => (true, false, false),
        Value::Long(_) => (false, true, false),
        Value::Ref(_) | Value::Null => (false, false, true),
        _ => (false, false, false),
    }
}

fn ints_on_top_exec(st: &Vec<Value>, k: usize) -> (b: bool)
    requires
        k == 1 || k == 2,
    ensures
        b == ints_on_top(st@, k as int),
{
    kind_at(st, 0).0 && (k == 1 || kind_at(st, 1).0)
}

fn longs_on_top_exec(st: &Vec<Value>, k: usize) -> (b: bool)
    requires
        k == 1 || k == 2,
    ensures
        b == longs_on_top(st@, k as int),
{
    st.len() >= 2 * k && kind_at(st, 0).1 && (k == 1 || kind_at(st, 2).1)
}

fn table_key_ok(key: i32, low: i32, high: i32, n: usize) -> (b: bool)
    ensures
        b == (key < low || key > high || key - low < n),
{
    key < low || key > high || ((key as i64 - low as i64) as u64) < (n as u64)
}

fn local_is_int(loc: &Vec<Value>, i: usize) -> (b: bool)
    ensures
        b == (i < loc@.len() && loc@[i as int] is Int),
{
    i < loc.len() && matches!(loc[i], Value::Int(_))
}

/// Whether `step` can take the instruction `ins` on `frame`.
pub fn can_step(frame: &Frame, ins: &Opcode) -> (b: bool)
    ensures
        b == step_ok(frame.stack@, frame.locals@, *ins),
{
    let st = &frame.stack;
    let nl = frame.locals.len();
    let ns = st.len();
    match ins {
        Opcode::iload { index } | Opcode::lload { index } | Opcode::fload { index }
        | Opcode::dload { index } | Opcode::aload { index } => usize8(*index) < nl,
        Opcode::iload_0 | Opcode::lload_0 | Opcode::fload_0 | Opcode::dload_0 | Opcode::aload_0 => 0 < nl,
        Opcode::iload_1 | Opcode::lload_1 | Opcode::fload_1 | Opcode::dload_1 | Opcode::aload_1 => 1 < nl,
        Opcode::iload_2 | Opcode::lload_2 | Opcode::fload_2 | Opcode::dload_2 | Opcode::aload_2 => 2 < nl,
        Opcode::iload_3 | Opcode::lload_3 | Opcode::fload_3 | Opcode::dload_3 | Opcode::aload_3 => 3 < nl,
        Opcode::istore { index } | Opcode::lstore { index } | Opcode::fstore { index }
        | Opcode::dstore { index } | Opcode::astore { index } => usize8(*index) < nl && ns >= 1,
        Opcode::istore_0 | Opcode::lstore_0 | Opcode::fstore_0 | Opcode::dstore_0 | Opcode::astore_0 => 0 < nl && ns >= 1,
        Opcode::istore_1 | Opcode::lstore_1 | Opcode::fstore_1 | Opcode::dstore_1 | Opcode::astore_1 => 1 < nl && ns >= 1,
        Opcode::istore_2 | Opcode::lstore_2 | Opcode::fstore_2 | Opcode::dstore_2 | Opcode::astore_2 => 2 < nl && ns >= 1,
        Opcode::istore_3 | Opcode::lstore_3 | Opcode::fstore_3 | Opcode::dstore_3 | Opcode::astore_3 => 3 < nl && ns >= 1,
        Opcode::wide { opcode, index } => {
            if 0x15 <= *opcode && *opcode <= 0x19 {
                usize16(*index) < nl
            } else if 0x36 <= *opcode && *opcode <= 0x3a {
                usize16(*index) < nl && ns >= 1
            } else {
                true
            }
        },
        Opcode::pop | Opcode::dup => ns >= 1,
        Opcode::pop2 | Opcode::dup_x1 | Opcode::dup2 | Opcode::swap => ns >= 2,
        Opcode::dup_x2 | Opcode::dup2_x1 => ns >= 3,
        Opcode::dup2_x2 => ns >= 4,
        Opcode::iadd | Opcode::isub | Opcode::imul | Opcode::idiv | Opcode::irem | Opcode::iand
        | Opcode::ior | Opcode::ixor | Opcode::ishl | Opcode::ishr | Opcode::iushr => ints_on_top_exec(st, 2),
        Opcode::ladd | Opcode::lsub | Opcode::lmul | Opcode::ldiv | Opcode::lrem | Opcode::land
        | Opcode::lor | Opcode::lxor | Opcode::lcmp => longs_on_top_exec(st, 2),
        Opcode::lshl | Opcode::lshr | Opcode::lushr => ns >= 3 && kind_at(st, 0).0 && kind_at(st, 1).1,
        Opcode::ineg | Opcode::i2l | Opcode::i2b | Opcode::i2c | Opcode::i2s => ints_on_top_exec(st, 1),
        Opcode::lneg | Opcode::l2i => longs_on_top_exec(st, 1),
        Opcode::iinc { index, .. } => local_is_int(&frame.locals, usize8(*index)),
        Opcode::wide_iinc { index, .. } => local_is_int(&frame.locals, usize16(*index)),
        Opcode::ifeq { .. } | Opcode::ifne { .. } | Opcode::iflt { .. } | Opcode::ifge { .. }
        | Opcode::ifgt { .. } | Opcode::ifle { .. } => ints_on_top_exec(st, 1),
        Opcode::if_icmpeq { .. } | Opcode::if_icmpne { .. } | Opcode::if_icmplt { .. }
        | Opcode::if_icmpge { .. } | Opcode::if_icmpgt { .. } | Opcode::if_icmple { .. } => ints_on_top_exec(st, 2),
        Opcode::if_acmpeq { .. } | Opcode::if_acmpne { .. } => ns >= 2 && kind_at(st, 0).2 && kind_at(st, 1).2,
        Opcode::ifnull { .. } | Opcode::ifnonnull { .. } => ns >= 1,
        Opcode::tableswitch { low, high, jump_offsets, .. } => {
            ints_on_top_exec(st, 1) && table_key_ok(int_at(st, 0), *low, *high, jump_offsets.len())
        },
        Opcode::lookupswitch { .. } => ints_on_top_exec(st, 1),
        Opcode::ireturn | Opcode::lreturn | Opcode::freturn | Opcode::dreturn | Opcode::areturn => ns >= 1,
        _ => true,
    }
}

/// The conditional branches on `int`s compare as the JVM specification says. `if_icmp<c>`
/// compares the second value from the top (`a`) with the top one (`b`), `if<c>` compares
/// the top value with zero; each takes its operands off the stack and branches by its
/// offset exactly when the comparison holds (`eq` equal, `ne` not equal, `lt` less, `ge`
/// greater or equal, `gt` greater, `le` less or equal), and otherwise goes on.
pub proof fn law_int_branches(st: Seq<Value>, loc: Seq<Value>, a: i32, b: i32, off: i16)
    ensures
        spec_step(st.push(Value::Int(a)).push(Value::Int(b)), loc, Opcode::if_icmpeq { branch: off }) == (
            st,
            loc,
            if a == b {
                StepAction::Branch(off16(off))
            } else {
                StepAction::Next
            },
        ),
        spec_step(st.push(Value::Int(a)).push(Value::Int(b)), loc, Opcode::if_icmpne { branch: off }) == (
            st,
            loc,
            if a != b {
                StepAction::Branch(off16(off))
            } else {
                StepAction::Next
            },
        ),
        spec_step(st.push(Value::Int(a)).push(Value::Int(b)), loc, Opcode::if_icmplt { branch: off }) == (
            st,
            loc,
            if a < b {
                StepAction::Branch(off16(off))
            } else {
                StepAction::Next
            },
        ),
        spec_step(st.push(Value::Int(a)).push(Value::Int(b)), loc, Opcode::if_icmpge { branch: off }) == (
            st,
            loc,
            if a >= b {
                StepAction::Branch(off16(off))
            } else {
                StepAction::Next
            },
        ),
        spec_step(st.push(Value::Int(a)).push(Value::Int(b)), loc, Opcode::if_icmpgt { branch: off }) == (
            st,
            loc,
            if a > b {
                StepAction::Branch(off16(off))
            } else {
                StepAction::Next
            },
        ),
        spec_step(st.push(Value::Int(a)).push(Value::Int(b)), loc, Opcode::if_icmple { branch: off }) == (
            st,
            loc,
            if a <= b {
                StepAction::Branch(off16(off))
            } else {
                StepAction::Next
            },
        ),
        spec_step(st.push(Value::Int(a)), loc, Opcode::ifeq { branch: off }) == (
            st,
            loc,
            if a == 0 {
                StepAction::Branch(off16(off))
            } else {
                StepAction::Next
            },
        ),
        spec_step(st.push(Value::Int(a)), loc, Opcode::ifne { branch: off }) == (
            st,
            loc,
            if a != 0 {
                StepAction::Branch(off16(off))
            } else {
                StepAction::Next
            },
        ),
        spec_step(st.push(Value::Int(a)), loc, Opcode::iflt { branch: off }) == (
            st,
            loc,
            if a < 0 {
                StepAction::Branch(off16(off))
            } else {
                StepAction::Next
            },
        ),
        spec_step(st.push(Value::Int(a)), loc, Opcode::ifge { branch: off }) == (
            st,
            loc,
            if a >= 0 {
                StepAction::Branch(off16(off))
            } else {
                StepAction::Next
            },
        ),
        spec_step(st.push(Value::Int(a)), loc, Opcode::ifgt { branch: off }) == (
            st,
            loc,
            if a > 0 {
                StepAction::Branch(off16(off))
            } else {
                StepAction::Next
            },
        ),
        spec_step(st.push(Value::Int(a)), loc, Opcode::ifle { branch: off }) == (
            st,
            loc,
            if a <= 0 {
                StepAction::Branch(off16(off))
            } else {
                StepAction::Next
            },
        ),
{
    assert(below(st.push(Value::Int(a)).push(Value::Int(b)), 2) =~= st);
    assert(below(st.push(Value::Int(a)), 1) =~= st);
}

/// Each test and its opposite (`eq` and `ne`, `lt` and `ge`, `gt` and `le`) decide in
/// opposite ways on the same operands: exactly one of them branches.
pub proof fn law_opposite_branches(st: Seq<Value>, loc: Seq<Value>, a: i32, b: i32, off: i16)
    ensures
        (spec_step(st.push(Value::Int(a)).push(Value::Int(b)), loc, Opcode::if_icmplt { branch: off }).2 is Branch)
            != (spec_step(st.push(Value::Int(a)).push(Value::Int(b)), loc, Opcode::if_icmpge { branch: off }).2 is Branch),
        (spec_step(st.push(Value::Int(a)).push(Value::Int(b)), loc, Opcode::if_icmpgt { branch: off }).2 is Branch)
            != (spec_step(st.push(Value::Int(a)).push(Value::Int(b)), loc, Opcode::if_icmple { branch: off }).2 is Branch),
        (spec_step(st.push(Value::Int(a)).push(Value::Int(b)), loc, Opcode::if_icmpeq { branch: off }).2 is Branch)
            != (spec_step(st.push(Value::Int(a)).push(Value::Int(b)), loc, Opcode::if_icmpne { branch: off }).2 is Branch),
        (spec_step(st.push(Value::Int(a)), loc, Opcode::iflt { branch: off }).2 is Branch)
            != (spec_step(st.push(Value::Int(a)), loc, Opcode::ifge { branch: off }).2 is Branch),
        (spec_step(st.push(Value::Int(a)), loc, Opcode::ifgt { branch: off }).2 is Branch)
            != (spec_step(st.push(Value::Int(a)), loc, Opcode::ifle { branch: off }).2 is Branch),
        (spec_step(st.push(Value::Int(a)), loc, Opcode::ifeq { branch: off }).2 is Branch)
            != (spec_step(st.push(Value::Int(a)), loc, Opcode::ifne { branch: off }).2 is Branch),
{
    law_int_branches(st, loc, a, b, off);
}

} // verus!
