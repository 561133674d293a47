//! Running the code of a method one step after another, from instruction to instruction,
//! until it returns, throws, or comes to an instruction that is the host's to carry out.
use vstd::prelude::*;
use crate::code_layout::{code_fits, next_pc, spec_next_pc};
use crate::heap::{can_heap_step, heap_step, heap_step_ok, spec_heap_step, Heap};
use crate::interp::{Frame, StepAction, Value};
use crate::opcodes::Opcode;

verus! {

/// Why a run stopped.
#[derive(Debug, Clone, Copy, PartialEq, Eq)]
pub enum Stop {
    /// The last step ended in this action, which is neither `Next` nor `Branch`: a return,
    /// an exception, or an instruction for the host.
    Action(StepAction),
    /// The frame cannot take the step at the instruction it stopped at (an operand is
    /// missing or of the wrong kind).
    Stuck,
    /// The step went on past the last instruction, or branched to no instruction.
    NoNext,
    /// The steps allowed were used up.
    OutOfFuel,
}

/// What running `code` from the instruction `pc` for at most `fuel` steps makes of the
/// operand stack, the local variables and the heap, the instruction it stops at, and why.
pub open spec fn spec_run(
    code: Seq<Opcode>,
    st: Seq<Value>,
    loc: Seq<Value>,
    hp: Seq<Seq<Value>>,
    pc: int,
    fuel: nat,
) -> (Seq<Value>, Seq<Value>, Seq<Seq<Value>>, int, Stop)
    decreases fuel,
{
    if fuel == 0 {
        (st, loc, hp, pc, Stop::OutOfFuel)
    } else if !heap_step_ok(st, loc, hp, code[pc]) {
        (st, loc, hp, pc, Stop::Stuck)
    } else {
        let (s2, l2, h2, a) = spec_heap_step(st, loc, hp, code[pc]);
        if a is Next || a is Branch {
            match spec_next_pc(code, pc, a) {
                Some(q) => spec_run(code, s2, l2, h2, q, (fuel - 1) as nat),
                None => (s2, l2, h2, pc, Stop::NoNext),
            }
        } else {
            (s2, l2, h2, pc, Stop::Action(a))
        }
    }
}

/// Runs `code` on `frame` and `heap` from the instruction `pc`, for at most `fuel` steps,
/// and gives the instruction it stopped at and why.
pub fn run(code: &Vec<Opcode>, frame: &mut Frame, heap: &mut Heap, pc: usize, fuel: u64) -> (r: (usize, Stop))
    requires
        pc < code@.len(),
        code_fits(code@),
        old(heap).wf(),
    ensures
        final(heap).wf(),
        ({
            let (s, l, h, p, stop) = spec_run(
                code@,
                old(frame).stack@,
                old(frame).locals@,
                old(heap)@,
                pc as int,
                fuel as nat,
            );
            &&& final(frame).stack@ == s
            &&& final(frame).locals@ == l
            &&& final(heap)@ == h
            &&& r.0 == p
            &&& r.1 == stop
        }),
{
    let ghost whole = spec_run(code@, frame.stack@, frame.locals@, heap@, pc as int, fuel as nat);
    let mut at: usize = pc;
    let mut left: u64 = fuel;
    loop
        invariant
            at < code@.len(),
            code_fits(code@),
            heap.wf(),
            spec_run(code@, frame.stack@, frame.locals@, heap@, at as int, left as nat) == whole,
            whole == spec_run(
                code@,
                old(frame).stack@,
                old(frame).locals@,
                old(heap)@,
                pc as int,
                fuel as nat,
            ),
        decreases left,
    {
        if left == 0 {
            assert(whole == (frame.stack@, frame.locals@, heap@, at as int, Stop::OutOfFuel));
            return (at, Stop::OutOfFuel);
        }
        if !can_heap_step(frame, heap, &code[at]) {
            assert(whole == (frame.stack@, frame.locals@, heap@, at as int, Stop::Stuck));
            return (at, Stop::Stuck);
        }
        let a = heap_step(frame, heap, &code[at]);
        match a {
            StepAction::Next | StepAction::Branch(_) => {
                match next_pc(code, at, a) {
                    Some(q) => {
                        assert(whole == spec_run(
                            code@,
                            frame.stack@,
                            frame.locals@,
                            heap@,
                            q as int,
                            (left - 1) as nat,
                        ));
                        at = q;
                        left = left - 1;
                    },
                    None => {
                        assert(whole == (frame.stack@, frame.locals@, heap@, at as int, Stop::NoNext));
                        return (at, Stop::NoNext);
                    },
                }
            },
            _ => {
                assert(whole == (frame.stack@, frame.locals@, heap@, at as int, Stop::Action(a)));
                return (at, Stop::Action(a));
            },
        }
    }
}

} // verus!
