//! Arrays on a heap of plain values, and the instructions that make, read and write them.
use vstd::prelude::*;
use crate::interp::{
    below, exec_narrow_byte, exec_narrow_char, exec_narrow_short, int_at, is_wide, narrow_byte,
    narrow_char, narrow_short, popped, push_value, pushed, rewrite_top, slot, slot_at, spec_step,
    can_step, step, step_ok, Frame, StepAction, Value,
};
use crate::opcodes::Opcode;

verus! {

/// The arrays made so far; `Value::Ref(h)` stands for the `h`-th. Their elements lie one
/// array after another in `cells`, the `h`-th from `arrays[h].0`, `arrays[h].1` of them.
pub struct Heap {
    cells: Vec<Value>,
    arrays: Vec<(usize, usize)>,
}

impl View for Heap {
    type V = Seq<Seq<Value>>;

    /// The elements of each array.
    closed spec fn view(&self) -> Seq<Seq<Value>> {
        Seq::new(
            self.arrays@.len(),
            |h: int| self.cells@.subrange(self.arrays@[h].0 as int, self.arrays@[h].0 + self.arrays@[h].1),
        )
    }
}

impl Heap {
    /// Each array lies within the cells, after the arrays made before it, and has at most
    /// `i32::MAX` elements.
    pub closed spec fn wf(&self) -> bool {
        &&& forall|h: int|
            0 <= h < self.arrays@.len() ==> #[trigger] self.arrays@[h].0 + self.arrays@[h].1
                <= self.cells@.len() && self.arrays@[h].1 <= i32::MAX
        &&& forall|h: int, k: int|
            0 <= h < k < self.arrays@.len() ==> #[trigger] self.arrays@[h].0 + self.arrays@[h].1
                <= #[trigger] self.arrays@[k].0
    }

    /// A heap with no arrays.
    pub fn new() -> (hp: Heap)
        ensures
            hp.wf(),
            hp@ == Seq::<Seq<Value>>::empty(),
    {
        let hp = Heap { cells: Vec::new(), arrays: Vec::new() };
        assert(hp@ =~= Seq::<Seq<Value>>::empty());
        hp
    }

    /// How many arrays there are.
    pub fn count(&self) -> (n: usize)
        ensures
            n == self@.len(),
    {
        self.arrays.len()
    }

    /// How many elements the `h`-th array has.
    pub fn length(&self, h: usize) -> (n: usize)
        requires
            self.wf(),
            h < self@.len(),
        ensures
            n == self@[h as int].len(),
            n <= i32::MAX,
    {
        proof {
            assert(self.arrays@[h as int].0 + self.arrays@[h as int].1 <= self.cells@.len());
        }
        self.arrays[h].1
    }

    /// The `i`-th element of the `h`-th array.
    pub fn get(&self, h: usize, i: usize) -> (v: Value)
        requires
            self.wf(),
            h < self@.len(),
            i < self@[h as int].len(),
        ensures
            v == self@[h as int][i as int],
    {
        proof {
            assert(self.arrays@[h as int].0 + self.arrays@[h as int].1 <= self.cells@.len());
            assert(self@[h as int].len() == self.arrays@[h as int].1);
        }
        let start = self.arrays[h].0;
        let total = self.cells.len();
        assert(start + i < total);
        self.cells[start + i]
    }

    /// Writes `v` as the `i`-th element of the `h`-th array.
    pub fn set(&mut self, h: usize, i: usize, v: Value)
        requires
            old(self).wf(),
            h < old(self)@.len(),
            i < old(self)@[h as int].len(),
        ensures
            final(self).wf(),
            final(self)@ == old(self)@.update(h as int, old(self)@[h as int].update(i as int, v)),
    {
        let ghost a = *self;
        proof {
            assert(a.arrays@[h as int].0 + a.arrays@[h as int].1 <= a.cells@.len());
            assert(a@[h as int].len() == a.arrays@[h as int].1);
        }
        let start = self.arrays[h].0;
        let total = self.cells.len();
        assert(start + i < total);
        let at = start + i;
        self.cells.set(at, v);
        proof {
            assert forall|g: int| 0 <= g < a.arrays@.len() implies #[trigger] self@[g] == a@.update(
                h as int,
                a@[h as int].update(i as int, v),
            )[g] by {
                if g != h {
                    if g < h {
                        assert(a.arrays@[g].0 + a.arrays@[g].1 <= a.arrays@[h as int].0);
                    } else {
                        assert(a.arrays@[h as int].0 + a.arrays@[h as int].1 <= a.arrays@[g].0);
                    }
                    assert(self@[g] =~= a@[g]);
                } else {
                    assert(self@[g] =~= a@[g].update(i as int, v));
                }
            }
            assert(self@ =~= a@.update(h as int, a@[h as int].update(i as int, v)));
        }
    }

    /// Makes an array of `n` elements, each `d`, and gives its place.
    pub fn new_array(&mut self, n: usize, d: Value) -> (h: usize)
        requires
            old(self).wf(),
            n <= i32::MAX,
        ensures
            final(self).wf(),
            h == old(self)@.len(),
            final(self)@ == old(self)@.push(Seq::new(n as nat, |i: int| d)),
    {
        let ghost a = *self;
        let start = self.cells.len();
        let mut k: usize = 0;
        while k < n
            invariant
                k <= n,
                self.arrays@ == a.arrays@,
                self.cells@.len() == start + k,
                self.cells@.subrange(0, start as int) == a.cells@,
                forall|j: int| start <= j < start + k ==> self.cells@[j] == d,
            decreases n - k,
        {
            let ghost before = self.cells@;
            self.cells.push(d);
            assert(self.cells@.subrange(0, start as int) =~= before.subrange(0, start as int));
            k = k + 1;
        }
        let h = self.arrays.len();
        self.arrays.push((start, n));
        proof {
            assert forall|g: int| 0 <= g < a.arrays@.len() implies #[trigger] self@[g] == a@[g] by {
                assert(a.cells@.subrange(a.arrays@[g].0 as int, a.arrays@[g].0 + a.arrays@[g].1)
                    =~= self.cells@.subrange(a.arrays@[g].0 as int, a.arrays@[g].0 + a.arrays@[g].1))
                    by {
                    assert forall|j: int| a.arrays@[g].0 <= j < a.arrays@[g].0 + a.arrays@[g].1 implies a.cells@[j]
                        == self.cells@[j] by {
                        assert(self.cells@.subrange(0, start as int)[j] == self.cells@[j]);
                    }
                }
            }
            assert(self@[h as int] =~= Seq::new(n as nat, |i: int| d));
            assert(self@ =~= a@.push(Seq::new(n as nat, |i: int| d)));
        }
        h
    }
}

/// How an array store writes an `int`: `bastore` keeps its low byte, `castore` and
/// `sastore` its low 16 bits; every other store writes the value as it is.
pub enum StoreKind {
    Plain,
    Byte,
    Char,
    Short,
}

/// The value that a store of the kind `k` writes for `v`.
pub open spec fn stored(k: StoreKind, v: Value) -> Value {
    match (k, v) {
        (StoreKind::Byte, Value::Int(x)) => Value::Int(narrow_byte(x)),
        (StoreKind::Char, Value::Int(x)) => Value::Int(narrow_char(x)),
        (StoreKind::Short, Value::Int(x)) => Value::Int(narrow_short(x)),
        _ => v,
    }
}

/// The element that `newarray` fills an array of the type `atype` with.
pub open spec fn default_of(atype: u8) -> Value {
    if atype == 6 {
        Value::Float(0)
    } else if atype == 7 {
        Value::Double(0)
    } else if atype == 11 {
        Value::Long(0)
    } else {
        Value::Int(0)
    }
}

/// `v` is null or a reference to one of the arrays of `hp`.
pub open spec fn array_ref_ok(hp: Seq<Seq<Value>>, v: Value) -> bool {
    v is Null || (v matches Value::Ref(h) && h < hp.len())
}

/// The place of an array, as the `int` a reference holds.
pub open spec fn place(v: Value) -> int {
    v->Ref_0 as int
}

/// The `int` of the number `n`.
pub open spec fn int_len(n: nat) -> i32 {
    n as i32
}

/// The step of `newarray` or `anewarray`: an array of as many elements as the count on top
/// of the stack, each `d`, whose reference takes the place of the count.
pub open spec fn alloc_step(st: Seq<Value>, loc: Seq<Value>, hp: Seq<Seq<Value>>, d: Value) -> (Seq<Value>, Seq<Value>, Seq<Seq<Value>>, StepAction) {
    let n = slot(st, 0)->Int_0;
    if n < 0 {
        (st, loc, hp, StepAction::NegativeArraySizeException)
    } else {
        (
            below(st, 1).push(Value::Ref(hp.len() as u64)),
            loc,
            hp.push(Seq::new(n as nat, |i: int| d)),
            StepAction::Next,
        )
    }
}

/// The step of an array load: the element at the index on top of the stack, of the array
/// below it, takes the place of both.
pub open spec fn load_elem_step(st: Seq<Value>, loc: Seq<Value>, hp: Seq<Seq<Value>>) -> (Seq<Value>, Seq<Value>, Seq<Seq<Value>>, StepAction) {
    let i = slot(st, 0)->Int_0;
    let arr = slot(st, 1);
    if arr is Null {
        (st, loc, hp, StepAction::NullPointerException)
    } else if i < 0 || i >= hp[place(arr)].len() {
        (st, loc, hp, StepAction::ArrayIndexOutOfBoundsException)
    } else {
        (pushed(below(st, 2), hp[place(arr)][i as int]), loc, hp, StepAction::Next)
    }
}

/// The step of an array store: the value on top of the stack is written at the index below
/// it, into the array below that, and all three leave the stack.
pub open spec fn store_elem_step(st: Seq<Value>, loc: Seq<Value>, hp: Seq<Seq<Value>>, k: StoreKind) -> (Seq<Value>, Seq<Value>, Seq<Seq<Value>>, StepAction) {
    let v = st.last();
    let rest = popped(st);
    let i = slot(rest, 0)->Int_0;
    let arr = slot(rest, 1);
    if arr is Null {
        (st, loc, hp, StepAction::NullPointerException)
    } else if i < 0 || i >= hp[place(arr)].len() {
        (st, loc, hp, StepAction::ArrayIndexOutOfBoundsException)
    } else {
        (
            below(rest, 2),
            loc,
            hp.update(place(arr), hp[place(arr)].update(i as int, stored(k, v))),
            StepAction::Next,
        )
    }
}

/// The frame and the heap can take the step `ins`: an array instruction finds a count, an
/// index, a value and an array reference where it reads them, and any other instruction
/// is one that `step` can take.
pub open spec fn heap_step_ok(st: Seq<Value>, loc: Seq<Value>, hp: Seq<Seq<Value>>, ins: Opcode) -> bool {
    match ins {
        Opcode::newarray { atype } => st.len() >= 1 && slot(st, 0) is Int && 4 <= atype <= 11
            && hp.len() < u64::MAX,
        Opcode::anewarray { .. } => st.len() >= 1 && slot(st, 0) is Int && hp.len() < u64::MAX,
        Opcode::arraylength => st.len() >= 1 && array_ref_ok(hp, slot(st, 0)),
        Opcode::iaload | Opcode::laload | Opcode::faload | Opcode::daload | Opcode::aaload
        | Opcode::baload | Opcode::caload | Opcode::saload => st.len() >= 2 && slot(st, 0) is Int
            && array_ref_ok(hp, slot(st, 1)),
        Opcode::iastore | Opcode::lastore | Opcode::fastore | Opcode::dastore | Opcode::aastore
        | Opcode::bastore | Opcode::castore | Opcode::sastore => st.len() >= 1 && popped(st).len()
            >= 2 && slot(popped(st), 0) is Int && array_ref_ok(hp, slot(popped(st), 1)),
        _ => step_ok(st, loc, ins),
    }
}

/// What the step `ins` makes of the operand stack, the local variables and the heap, and
/// what the host does next: the array instructions here, every other one as `step` takes it.
pub open spec fn spec_heap_step(st: Seq<Value>, loc: Seq<Value>, hp: Seq<Seq<Value>>, ins: Opcode) -> (Seq<Value>, Seq<Value>, Seq<Seq<Value>>, StepAction) {
    match ins {
        Opcode::newarray { atype } => alloc_step(st, loc, hp, default_of(atype)),
        Opcode::anewarray { .. } => alloc_step(st, loc, hp, Value::Null),
        Opcode::arraylength => if slot(st, 0) is Null {
            (st, loc, hp, StepAction::NullPointerException)
        } else {
            (below(st, 1).push(Value::Int(int_len(hp[place(slot(st, 0))].len()))), loc, hp, StepAction::Next)
        },
        Opcode::iaload | Opcode::laload | Opcode::faload | Opcode::daload | Opcode::aaload
        | Opcode::baload | Opcode::caload | Opcode::saload => load_elem_step(st, loc, hp),
        Opcode::bastore => store_elem_step(st, loc, hp, StoreKind::Byte),
        Opcode::castore => store_elem_step(st, loc, hp, StoreKind::Char),
        Opcode::sastore => store_elem_step(st, loc, hp, StoreKind::Short),
        Opcode::iastore | Opcode::lastore | Opcode::fastore | Opcode::dastore | Opcode::aastore => {
            store_elem_step(st, loc, hp, StoreKind::Plain)
        },
        _ => {
            let (s2, l2, a) = spec_step(st, loc, ins);
            (s2, l2, hp, a)
        },
    }
}

fn exec_stored(k: &StoreKind, v: Value) -> (r: Value)
    ensures
        r == stored(*k, v),
{
    match (k, v) {
        (StoreKind::Byte, Value::Int(x)) => Value::Int(exec_narrow_byte(x)),
        (StoreKind::Char, Value::Int(x)) => Value::Int(exec_narrow_char(x)),
        (StoreKind::Short, Value::Int(x)) => Value::Int(exec_narrow_short(x)),
        _ => v,
    }
}

fn exec_default_of(atype: u8) -> (v: Value)
    ensures
        v == default_of(atype),
{
    if atype == 6 {
        Value::Float(0)
    } else if atype == 7 {
        Value::Double(0)
    } else if atype == 11 {
        Value::Long(0)
    } else {
        Value::Int(0)
    }
}

fn ref_of(h: usize) -> (v: Value)
    ensures
        v == Value::Ref(h as u64),
{
    Value::Ref(h as u64)
}

fn place_of(heap: &Heap, h: u64) -> (p: usize)
    requires
        h < heap@.len(),
    ensures
        p == h,
{
    let n = heap.count();
    assert(h < n);
    h as usize
}

fn int_of_len(n: usize) -> (x: i32)
    requires
        n <= i32::MAX,
    ensures
        x == int_len(n as nat),
{
    n as i32
}

fn index_of_int(i: i32) -> (u: usize)
    requires
        i >= 0,
    ensures
        u == i,
{
    i as usize
}

fn alloc_array(frame: &mut Frame, heap: &mut Heap, d: Value) -> (a: StepAction)
    requires
        old(heap).wf(),
        old(frame).stack@.len() >= 1,
        slot(old(frame).stack@, 0) is Int,
        old(heap)@.len() < u64::MAX,
    ensures
        final(heap).wf(),
        (final(frame).stack@, final(frame).locals@, final(heap)@, a) == alloc_step(
            old(frame).stack@,
            old(frame).locals@,
            old(heap)@,
            d,
        ),
{
    let n = int_at(&frame.stack, 0);
    if n < 0 {
        return StepAction::NegativeArraySizeException;
    }
    let h = heap.new_array(index_of_int(n), d);
    let ghost s0 = frame.stack@;
    rewrite_top(&mut frame.stack, 1, vec![ref_of(h)]);
    assert(frame.stack@ =~= below(s0, 1).push(Value::Ref(h as u64)));
    StepAction::Next
}

fn load_element(frame: &mut Frame, heap: &Heap) -> (a: StepAction)
    requires
        heap.wf(),
        old(frame).stack@.len() >= 2,
        slot(old(frame).stack@, 0) is Int,
        array_ref_ok(heap@, slot(old(frame).stack@, 1)),
    ensures
        (final(frame).stack@, final(frame).locals@, heap@, a) == load_elem_step(
            old(frame).stack@,
            old(frame).locals@,
            heap@,
        ),
{
    let i = int_at(&frame.stack, 0);
    match slot_at(&frame.stack, 1) {
        Value::Ref(h) => {
            let p = place_of(heap, h);
            let len = heap.length(p);
            if i < 0 || index_of_int(i) >= len {
                return StepAction::ArrayIndexOutOfBoundsException;
            }
            let v = heap.get(p, index_of_int(i));
            let ghost s0 = frame.stack@;
            rewrite_top(&mut frame.stack, 2, Vec::new());
            assert(frame.stack@ =~= below(s0, 2));
            push_value(&mut frame.stack, v);
            StepAction::Next
        },
        _ => StepAction::NullPointerException,
    }
}

fn store_element(frame: &mut Frame, heap: &mut Heap, k: StoreKind) -> (a: StepAction)
    requires
        old(heap).wf(),
        old(frame).stack@.len() >= 1,
        popped(old(frame).stack@).len() >= 2,
        slot(popped(old(frame).stack@), 0) is Int,
        array_ref_ok(old(heap)@, slot(popped(old(frame).stack@), 1)),
    ensures
        final(heap).wf(),
        (final(frame).stack@, final(frame).locals@, final(heap)@, a) == store_elem_step(
            old(frame).stack@,
            old(frame).locals@,
            old(heap)@,
            k,
        ),
{
    let ghost s0 = frame.stack@;
    let v = slot_at(&frame.stack, 0);
    let w: usize = match v {
        Value::Long(_) | Value::Double(_) => {
            if frame.stack.len() >= 2 {
                2
            } else {
                1
            }
        },
        _ => 1,
    };
    proof {
        let rest = popped(s0);
        assert(rest =~= s0.subrange(0, s0.len() - w));
        assert(slot(rest, 0) == slot(s0, w as int));
        assert(slot(rest, 1) == slot(s0, w + 1));
    }
    let i = int_at(&frame.stack, w);
    match slot_at(&frame.stack, w + 1) {
        Value::Ref(h) => {
            let p = place_of(heap, h);
            let len = heap.length(p);
            if i < 0 || index_of_int(i) >= len {
                return StepAction::ArrayIndexOutOfBoundsException;
            }
            heap.set(p, index_of_int(i), exec_stored(&k, v));
            rewrite_top(&mut frame.stack, w + 2, Vec::new());
            assert(frame.stack@ =~= below(popped(s0), 2));
            StepAction::Next
        },
        _ => StepAction::NullPointerException,
    }
}

/// Carries out the instruction `ins` on `frame` and `heap`: the array instructions here,
/// every other one as `step` does.
pub fn heap_step(frame: &mut Frame, heap: &mut Heap, ins: &Opcode) -> (a: StepAction)
    requires
        old(heap).wf(),
        heap_step_ok(old(frame).stack@, old(frame).locals@, old(heap)@, *ins),
    ensures
        final(heap).wf(),
        (final(frame).stack@, final(frame).locals@, final(heap)@, a) == spec_heap_step(
            old(frame).stack@,
            old(frame).locals@,
            old(heap)@,
            *ins,
        ),
{
    match ins {
        Opcode::newarray { atype } => alloc_array(frame, heap, exec_default_of(*atype)),
        Opcode::anewarray { .. } => alloc_array(frame, heap, Value::Null),
        Opcode::arraylength => {
            match slot_at(&frame.stack, 0) {
                Value::Ref(h) => {
                    let n = heap.length(place_of(heap, h));
                    let ghost s0 = frame.stack@;
                    rewrite_top(&mut frame.stack, 1, vec![Value::Int(int_of_len(n))]);
                    assert(frame.stack@ =~= below(s0, 1).push(Value::Int(int_len(n as nat))));
                    StepAction::Next
                },
                _ => StepAction::NullPointerException,
            }
        },
        Opcode::iaload | Opcode::laload | Opcode::faload | Opcode::daload | Opcode::aaload
        | Opcode::baload | Opcode::caload | Opcode::saload => load_element(frame, heap),
        Opcode::bastore => store_element(frame, heap, StoreKind::Byte),
        Opcode::castore => store_element(frame, heap, StoreKind::Char),
        Opcode::sastore => store_element(frame, heap, StoreKind::Short),
        Opcode::iastore | Opcode::lastore | Opcode::fastore | Opcode::dastore | Opcode::aastore => {
            store_element(frame, heap, StoreKind::Plain)
        },
        _ => step(frame, ins),
    }
}

/// What an array store writes at an index, an array load at that index reads back.
pub proof fn law_array_store_load(st: Seq<Value>, loc: Seq<Value>, hp: Seq<Seq<Value>>, h: u64, i: i32, v: Value)
    requires
        h < hp.len(),
        0 <= i < hp[h as int].len(),
    ensures
        ({
            let st0 = pushed(st.push(Value::Ref(h)).push(Value::Int(i)), v);
            let (st1, loc1, hp1, a1) = store_elem_step(st0, loc, hp, StoreKind::Plain);
            let (st2, loc2, hp2, a2) = load_elem_step(st1.push(Value::Ref(h)).push(Value::Int(i)), loc1, hp1);
            &&& a1 == StepAction::Next
            &&& a2 == StepAction::Next
            &&& st1 == st
            &&& hp1 == hp.update(h as int, hp[h as int].update(i as int, v))
            &&& st2 == pushed(st, v)
            &&& hp2 == hp1
        }),
{
    let base = st.push(Value::Ref(h)).push(Value::Int(i));
    let st0 = pushed(base, v);
    assert(popped(st0) =~= base);
    assert(below(base, 2) =~= st);
    let st1 = st;
    let b2 = st1.push(Value::Ref(h)).push(Value::Int(i));
    assert(below(b2, 2) =~= st);
}

fn array_ref_ok_exec(heap: &Heap, v: Value) -> (b: bool)
    ensures
        b == array_ref_ok(heap@, v),
{
    match v {
        Value::Null => true,
        Value::Ref(h) => (h as u128) < (heap.count() as u128),
        _ => false,
    }
}

/// Whether `heap_step` can take the instruction `ins` on `frame` and `heap`.
pub fn can_heap_step(frame: &Frame, heap: &Heap, ins: &Opcode) -> (b: bool)
    ensures
        b == heap_step_ok(frame.stack@, frame.locals@, heap@, *ins),
{
    let st = &frame.stack;
    let room = (heap.count() as u128) < (u64::MAX as u128);
    match ins {
        Opcode::newarray { atype } => st.len() >= 1 && matches!(slot_at(st, 0), Value::Int(_))
            && 4 <= *atype && *atype <= 11 && room,
        Opcode::anewarray { .. } => st.len() >= 1 && matches!(slot_at(st, 0), Value::Int(_)) && room,
        Opcode::arraylength => st.len() >= 1 && array_ref_ok_exec(heap, slot_at(st, 0)),
        Opcode::iaload | Opcode::laload | Opcode::faload | Opcode::daload | Opcode::aaload
        | Opcode::baload | Opcode::caload | Opcode::saload => st.len() >= 2 && matches!(
            slot_at(st, 0),
            Value::Int(_)
        ) && array_ref_ok_exec(heap, slot_at(st, 1)),
        Opcode::iastore | Opcode::lastore | Opcode::fastore | Opcode::dastore | Opcode::aastore
        | Opcode::bastore | Opcode::castore | Opcode::sastore => {
            if st.len() < 1 {
                return false;
            }
            let w: usize = match slot_at(st, 0) {
                Value::Long(_) | Value::Double(_) => {
                    if st.len() >= 2 {
                        2
                    } else {
                        1
                    }
                },
                _ => 1,
            };
            proof {
                let rest = popped(st@);
                assert(rest =~= st@.subrange(0, st@.len() - w));
                if rest.len() >= 2 {
                    assert(slot(rest, 0) == slot(st@, w as int));
                    assert(slot(rest, 1) == slot(st@, w + 1));
                }
            }
            st.len() >= w + 2 && matches!(slot_at(st, w), Value::Int(_)) && array_ref_ok_exec(
                heap,
                slot_at(st, w + 1),
            )
        },
        _ => can_step(frame, ins),
    }
}

/// The low byte and the low 16 bits of an `int`, as the narrowing stores keep them.
proof fn lemma_narrowing(v: i32)
    ensures
        -128 <= narrow_byte(v) <= 127,
        narrow_byte(v) & 0xff == v & 0xff,
        0 <= narrow_char(v) <= 65535,
        narrow_char(v) & 0xffff == v & 0xffff,
        -32768 <= narrow_short(v) <= 32767,
        narrow_short(v) & 0xffff == v & 0xffff,
        -128 <= v <= 127 ==> narrow_byte(v) == v,
        0 <= v <= 65535 ==> narrow_char(v) == v,
        -32768 <= v <= 32767 ==> narrow_short(v) == v,
{
    assert(((v as i8) as i32) & 0xff == v & 0xff) by (bit_vector);
    assert(((v as u16) as i32) & 0xffff == v & 0xffff) by (bit_vector);
    assert(((v as i16) as i32) & 0xffff == v & 0xffff) by (bit_vector);
    assert(-128 <= v <= 127 ==> (v as i8) as i32 == v) by (bit_vector);
    assert(0 <= v <= 65535 ==> (v as u16) as i32 == v) by (bit_vector);
    assert(-32768 <= v <= 32767 ==> (v as i16) as i32 == v) by (bit_vector);
}

/// Each array store writes what the JVM specification says at the index it is given, and
/// changes nothing else: `iastore`, `lastore`, `fastore`, `dastore` and `aastore` write the
/// value itself; `bastore` writes a byte (an `int` in `-128..=127`) with the low 8 bits of
/// the `int` value, `castore` a char (in `0..=65535`) and `sastore` a short (in
/// `-32768..=32767`) with its low 16 bits, so that a value in the element's range is
/// written as it is. The three operands leave the stack.
pub proof fn law_array_stores(st: Seq<Value>, loc: Seq<Value>, hp: Seq<Seq<Value>>, h: u64, i: i32, v: Value)
    requires
        h < hp.len(),
        0 <= i < hp[h as int].len(),
    ensures
        ({
            let st0 = pushed(st.push(Value::Ref(h)).push(Value::Int(i)), v);
            let plain = spec_heap_step(st0, loc, hp, Opcode::iastore);
            &&& plain == (st, loc, hp.update(h as int, hp[h as int].update(i as int, v)), StepAction::Next)
            &&& spec_heap_step(st0, loc, hp, Opcode::lastore) == plain
            &&& spec_heap_step(st0, loc, hp, Opcode::fastore) == plain
            &&& spec_heap_step(st0, loc, hp, Opcode::dastore) == plain
            &&& spec_heap_step(st0, loc, hp, Opcode::aastore) == plain
        }),
        v matches Value::Int(x) ==> ({
            let st0 = st.push(Value::Ref(h)).push(Value::Int(i)).push(v);
            let b = spec_heap_step(st0, loc, hp, Opcode::bastore);
            let c = spec_heap_step(st0, loc, hp, Opcode::castore);
            let s = spec_heap_step(st0, loc, hp, Opcode::sastore);
            &&& b.0 == st && c.0 == st && s.0 == st
            &&& b.3 == StepAction::Next && c.3 == StepAction::Next && s.3 == StepAction::Next
            &&& b.2.len() == hp.len() && c.2.len() == hp.len() && s.2.len() == hp.len()
            &&& forall|g: int| 0 <= g < hp.len() && g != h ==> b.2[g] == hp[g] && c.2[g] == hp[g] && s.2[g] == hp[g]
            &&& forall|k: int| 0 <= k < hp[h as int].len() && k != i ==> b.2[h as int][k] == hp[h as int][k]
                && c.2[h as int][k] == hp[h as int][k] && s.2[h as int][k] == hp[h as int][k]
            &&& b.2[h as int][i as int] matches Value::Int(y) && -128 <= y <= 127 && y & 0xff == x & 0xff
                && (-128 <= x <= 127 ==> y == x)
            &&& c.2[h as int][i as int] matches Value::Int(y) && 0 <= y <= 65535 && y & 0xffff == x & 0xffff
                && (0 <= x <= 65535 ==> y == x)
            &&& s.2[h as int][i as int] matches Value::Int(y) && -32768 <= y <= 32767 && y & 0xffff == x
                & 0xffff && (-32768 <= x <= 32767 ==> y == x)
        }),
{
    let base = st.push(Value::Ref(h)).push(Value::Int(i));
    assert(popped(pushed(base, v)) =~= base);
    assert(below(base, 2) =~= st);
    if let Value::Int(x) = v {
        lemma_narrowing(x);
        assert(pushed(base, v) == base.push(v));
    }
}

/// The arrays that `newarray` makes, by the array type codes of the JVM specification:
/// `T_BOOLEAN` 4, `T_CHAR` 5, `T_BYTE` 8, `T_SHORT` 9 and `T_INT` 10 hold the `int` 0,
/// `T_FLOAT` 6 the float `+0.0` (all bits zero), `T_DOUBLE` 7 the double `+0.0`, `T_LONG`
/// 11 the `long` 0; `anewarray` fills with null. The new array has as many elements as the
/// count, takes the next place on the heap, and its reference takes the place of the
/// count; a negative count throws a `NegativeArraySizeException`.
pub proof fn law_array_creation(st: Seq<Value>, loc: Seq<Value>, hp: Seq<Seq<Value>>, n: i32, atype: u8, index: u16)
    ensures
        n >= 0 ==> {
            let d = if atype == 6 {
                Value::Float(0)
            } else if atype == 7 {
                Value::Double(0)
            } else if atype == 11 {
                Value::Long(0)
            } else {
                Value::Int(0)
            };
            &&& (4 <= atype <= 11) ==> spec_heap_step(st.push(Value::Int(n)), loc, hp, Opcode::newarray { atype })
                == (st.push(Value::Ref(hp.len() as u64)), loc, hp.push(Seq::new(n as nat, |i: int| d)), StepAction::Next)
            &&& spec_heap_step(st.push(Value::Int(n)), loc, hp, Opcode::anewarray { index }) == (
                st.push(Value::Ref(hp.len() as u64)),
                loc,
                hp.push(Seq::new(n as nat, |i: int| Value::Null)),
                StepAction::Next,
            )
        },
        n < 0 ==> spec_heap_step(st.push(Value::Int(n)), loc, hp, Opcode::newarray { atype }) == (
            st.push(Value::Int(n)),
            loc,
            hp,
            StepAction::NegativeArraySizeException,
        ) && spec_heap_step(st.push(Value::Int(n)), loc, hp, Opcode::anewarray { index }) == (
            st.push(Value::Int(n)),
            loc,
            hp,
            StepAction::NegativeArraySizeException,
        ),
{
    let one = st.push(Value::Int(n));
    assert(below(one, 1) =~= st);
}

/// The array reads: `arraylength` gives the number of elements of the array, and every
/// array load gives the element at its index (a `long` or `double` above its second slot);
/// an index outside the array throws an `ArrayIndexOutOfBoundsException` and null a
/// `NullPointerException`, leaving the frame and the heap as they are.
pub proof fn law_array_reads(st: Seq<Value>, loc: Seq<Value>, hp: Seq<Seq<Value>>, h: u64, i: i32)
    requires
        h < hp.len(),
    ensures
        spec_heap_step(st.push(Value::Ref(h)), loc, hp, Opcode::arraylength).0 == st.push(
            Value::Int(int_len(hp[h as int].len())),
        ),
        spec_heap_step(st.push(Value::Ref(h)), loc, hp, Opcode::arraylength).3 == StepAction::Next,
        hp[h as int].len() <= i32::MAX ==> int_len(hp[h as int].len()) as int == hp[h as int].len(),
        spec_heap_step(st.push(Value::Null), loc, hp, Opcode::arraylength) == (
            st.push(Value::Null),
            loc,
            hp,
            StepAction::NullPointerException,
        ),
        0 <= i < hp[h as int].len() ==> spec_heap_step(st.push(Value::Ref(h)).push(Value::Int(i)), loc, hp, Opcode::iaload)
            == (pushed(st, hp[h as int][i as int]), loc, hp, StepAction::Next),
        !(0 <= i < hp[h as int].len()) ==> spec_heap_step(st.push(Value::Ref(h)).push(Value::Int(i)), loc, hp, Opcode::iaload)
            == (st.push(Value::Ref(h)).push(Value::Int(i)), loc, hp, StepAction::ArrayIndexOutOfBoundsException),
        spec_heap_step(st.push(Value::Null).push(Value::Int(i)), loc, hp, Opcode::iaload)
            == (st.push(Value::Null).push(Value::Int(i)), loc, hp, StepAction::NullPointerException),
        0 <= i < hp[h as int].len() ==> spec_heap_step(st.push(Value::Ref(h)).push(Value::Int(i)), loc, hp, Opcode::laload)
            == (pushed(st, hp[h as int][i as int]), loc, hp, StepAction::Next),
        !(0 <= i < hp[h as int].len()) ==> spec_heap_step(st.push(Value::Ref(h)).push(Value::Int(i)), loc, hp, Opcode::laload)
            == (st.push(Value::Ref(h)).push(Value::Int(i)), loc, hp, StepAction::ArrayIndexOutOfBoundsException),
        spec_heap_step(st.push(Value::Null).push(Value::Int(i)), loc, hp, Opcode::laload)
            == (st.push(Value::Null).push(Value::Int(i)), loc, hp, StepAction::NullPointerException),
        0 <= i < hp[h as int].len() ==> spec_heap_step(st.push(Value::Ref(h)).push(Value::Int(i)), loc, hp, Opcode::faload)
            == (pushed(st, hp[h as int][i as int]), loc, hp, StepAction::Next),
        !(0 <= i < hp[h as int].len()) ==> spec_heap_step(st.push(Value::Ref(h)).push(Value::Int(i)), loc, hp, Opcode::faload)
            == (st.push(Value::Ref(h)).push(Value::Int(i)), loc, hp, StepAction::ArrayIndexOutOfBoundsException),
        spec_heap_step(st.push(Value::Null).push(Value::Int(i)), loc, hp, Opcode::faload)
            == (st.push(Value::Null).push(Value::Int(i)), loc, hp, StepAction::NullPointerException),
        0 <= i < hp[h as int].len() ==> spec_heap_step(st.push(Value::Ref(h)).push(Value::Int(i)), loc, hp, Opcode::daload)
            == (pushed(st, hp[h as int][i as int]), loc, hp, StepAction::Next),
        !(0 <= i < hp[h as int].len()) ==> spec_heap_step(st.push(Value::Ref(h)).push(Value::Int(i)), loc, hp, Opcode::daload)
            == (st.push(Value::Ref(h)).push(Value::Int(i)), loc, hp, StepAction::ArrayIndexOutOfBoundsException),
        spec_heap_step(st.push(Value::Null).push(Value::Int(i)), loc, hp, Opcode::daload)
            == (st.push(Value::Null).push(Value::Int(i)), loc, hp, StepAction::NullPointerException),
        0 <= i < hp[h as int].len() ==> spec_heap_step(st.push(Value::Ref(h)).push(Value::Int(i)), loc, hp, Opcode::aaload)
            == (pushed(st, hp[h as int][i as int]), loc, hp, StepAction::Next),
        !(0 <= i < hp[h as int].len()) ==> spec_heap_step(st.push(Value::Ref(h)).push(Value::Int(i)), loc, hp, Opcode::aaload)
            == (st.push(Value::Ref(h)).push(Value::Int(i)), loc, hp, StepAction::ArrayIndexOutOfBoundsException),
        spec_heap_step(st.push(Value::Null).push(Value::Int(i)), loc, hp, Opcode::aaload)
            == (st.push(Value::Null).push(Value::Int(i)), loc, hp, StepAction::NullPointerException),
        0 <= i < hp[h as int].len() ==> spec_heap_step(st.push(Value::Ref(h)).push(Value::Int(i)), loc, hp, Opcode::baload)
            == (pushed(st, hp[h as int][i as int]), loc, hp, StepAction::Next),
        !(0 <= i < hp[h as int].len()) ==> spec_heap_step(st.push(Value::Ref(h)).push(Value::Int(i)), loc, hp, Opcode::baload)
            == (st.push(Value::Ref(h)).push(Value::Int(i)), loc, hp, StepAction::ArrayIndexOutOfBoundsException),
        spec_heap_step(st.push(Value::Null).push(Value::Int(i)), loc, hp, Opcode::baload)
            == (st.push(Value::Null).push(Value::Int(i)), loc, hp, StepAction::NullPointerException),
        0 <= i < hp[h as int].len() ==> spec_heap_step(st.push(Value::Ref(h)).push(Value::Int(i)), loc, hp, Opcode::caload)
            == (pushed(st, hp[h as int][i as int]), loc, hp, StepAction::Next),
        !(0 <= i < hp[h as int].len()) ==> spec_heap_step(st.push(Value::Ref(h)).push(Value::Int(i)), loc, hp, Opcode::caload)
            == (st.push(Value::Ref(h)).push(Value::Int(i)), loc, hp, StepAction::ArrayIndexOutOfBoundsException),
        spec_heap_step(st.push(Value::Null).push(Value::Int(i)), loc, hp, Opcode::caload)
            == (st.push(Value::Null).push(Value::Int(i)), loc, hp, StepAction::NullPointerException),
        0 <= i < hp[h as int].len() ==> spec_heap_step(st.push(Value::Ref(h)).push(Value::Int(i)), loc, hp, Opcode::saload)
            == (pushed(st, hp[h as int][i as int]), loc, hp, StepAction::Next),
        !(0 <= i < hp[h as int].len()) ==> spec_heap_step(st.push(Value::Ref(h)).push(Value::Int(i)), loc, hp, Opcode::saload)
            == (st.push(Value::Ref(h)).push(Value::Int(i)), loc, hp, StepAction::ArrayIndexOutOfBoundsException),
        spec_heap_step(st.push(Value::Null).push(Value::Int(i)), loc, hp, Opcode::saload)
            == (st.push(Value::Null).push(Value::Int(i)), loc, hp, StepAction::NullPointerException),
{
    let one = st.push(Value::Ref(h));
    assert(below(one, 1) =~= st);
    let two = st.push(Value::Ref(h)).push(Value::Int(i));
    assert(below(two, 2) =~= st);
}

} // verus!
