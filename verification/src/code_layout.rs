//! Where the instructions of a method body stand: the byte offset of each, as
//! `to_bytecode` writes them, and the instruction that a branch lands on.
use vstd::prelude::*;
use crate::bytes::{lemma_i32s_bytes_len, lemma_pairs_bytes_len};
use crate::interp::StepAction;
use crate::opcodes::{opcode_args, Opcode};

verus! {

/// How many bytes the instruction `op` takes: its opcode byte and its operands.
pub open spec fn op_len(op: Opcode) -> int {
    1 + opcode_args(op).len() as int
}

/// The byte offset of the `i`-th instruction of `code`: the lengths of those before it.
pub open spec fn code_offset(code: Seq<Opcode>, i: int) -> int
    decreases i,
{
    if i <= 0 {
        0
    } else {
        code_offset(code, i - 1) + op_len(code[i - 1])
    }
}

/// The first instruction of `code`, from the `j`-th on, that starts at the byte offset `off`.
pub open spec fn index_at(code: Seq<Opcode>, off: int, j: int) -> Option<int>
    decreases code.len() - j,
{
    if j < 0 || j >= code.len() {
        None
    } else if code_offset(code, j) == off {
        Some(j)
    } else {
        index_at(code, off, j + 1)
    }
}

/// The instruction that the frame goes on with after the `pc`-th instruction of `code`
/// ended in the action `a`: the next one, or the one that a branch lands on; none where
/// there is no such instruction or the action leaves the code to the host.
pub open spec fn spec_next_pc(code: Seq<Opcode>, pc: int, a: StepAction) -> Option<int> {
    match a {
        StepAction::Next => if pc + 1 < code.len() {
            Some(pc + 1)
        } else {
            None
        },
        StepAction::Branch(off) => index_at(code, code_offset(code, pc) + off, 0),
        _ => None,
    }
}

/// The body `code` fits the 32-bit `code_length` of a `Code` attribute.
pub open spec fn code_fits(code: Seq<Opcode>) -> bool {
    code_offset(code, code.len() as int) <= u32::MAX
}

proof fn lemma_offsets_grow(code: Seq<Opcode>, i: int, k: int)
    requires
        0 <= i <= k <= code.len(),
    ensures
        code_offset(code, i) + (k - i) <= code_offset(code, k),
    decreases k - i,
{
    if i < k {
        lemma_offsets_grow(code, i, k - 1);
    }
}

fn as_u64(n: usize) -> (r: u64)
    ensures
        r == n,
{
    n as u64
}

fn as_i64(n: u64) -> (r: i64)
    requires
        n <= u32::MAX,
    ensures
        r == n,
{
    n as i64
}

fn i32_as_i64(n: i32) -> (r: i64)
    ensures
        r == n,
{
    n as i64
}

/// The length of a switch with `padding` bytes of padding, `fixed` bytes of fixed operands
/// and `n` entries of `per` bytes each.
fn switch_len(padding: u8, fixed: u64, per: u64, n: usize) -> (r: u64)
    requires
        fixed <= 12,
        per <= 8,
        1 + padding + fixed + per * n <= u32::MAX,
    ensures
        r == 1 + padding + fixed + per * n,
{
    let n64 = as_u64(n);
    assert(per * n64 <= u32::MAX);
    1 + (padding as u64) + fixed + per * n64
}

/// How many bytes the instruction `op` takes.
pub fn instruction_len(op: &Opcode) -> (n: u64)
    requires
        op_len(*op) <= u32::MAX,
    ensures
        n == op_len(*op),
{
    match op {
        Opcode::bipush { .. } | Opcode::ldc { .. } | Opcode::iload { .. } | Opcode::lload { .. }
        | Opcode::fload { .. } | Opcode::dload { .. } | Opcode::aload { .. } | Opcode::istore { .. }
        | Opcode::lstore { .. } | Opcode::fstore { .. } | Opcode::dstore { .. }
        | Opcode::astore { .. } | Opcode::newarray { .. } | Opcode::ret { .. } => 2,
        Opcode::sipush { .. } | Opcode::ldc_w { .. } | Opcode::ldc2_w { .. } | Opcode::iinc { .. }
        | Opcode::ifeq { .. } | Opcode::ifne { .. } | Opcode::iflt { .. } | Opcode::ifge { .. }
        | Opcode::ifgt { .. } | Opcode::ifle { .. } | Opcode::if_icmpeq { .. }
        | Opcode::if_icmpne { .. } | Opcode::if_icmplt { .. } | Opcode::if_icmpge { .. }
        | Opcode::if_icmpgt { .. } | Opcode::if_icmple { .. } | Opcode::if_acmpeq { .. }
        | Opcode::if_acmpne { .. } | Opcode::goto { .. } | Opcode::jsr { .. }
        | Opcode::getstatic { .. } | Opcode::putstatic { .. } | Opcode::getfield { .. }
        | Opcode::putfield { .. } | Opcode::invokevirtual { .. } | Opcode::invokespecial { .. }
        | Opcode::invokestatic { .. } | Opcode::new { .. } | Opcode::anewarray { .. }
        | Opcode::checkcast { .. } | Opcode::instanceof { .. } | Opcode::ifnull { .. }
        | Opcode::ifnonnull { .. } => 3,
        Opcode::wide { .. } | Opcode::multianewarray { .. } => 4,
        Opcode::invokeinterface { .. } | Opcode::invokedynamic { .. } | Opcode::goto_w { .. }
        | Opcode::jsr_w { .. } => 5,
        Opcode::wide_iinc { .. } => 6,
        Opcode::tableswitch { jump_offsets, padding, .. } => {
            proof {
                lemma_i32s_bytes_len(jump_offsets@);
            }
            switch_len(*padding, 12, 4, jump_offsets.len())
        },
        Opcode::lookupswitch { match_offset_pairs, padding, .. } => {
            proof {
                lemma_pairs_bytes_len(match_offset_pairs@);
            }
            switch_len(*padding, 8, 8, match_offset_pairs.len())
        },
        _ => 1,
    }
}

/// The index of the instruction that the frame goes on with after the `pc`-th instruction
/// of `code` ended in `a`.
pub fn next_pc(code: &Vec<Opcode>, pc: usize, a: StepAction) -> (r: Option<usize>)
    requires
        pc < code@.len(),
        code_fits(code@),
    ensures
        match r {
            Some(j) => j < code@.len() && spec_next_pc(code@, pc as int, a) == Some(j as int),
            None => spec_next_pc(code@, pc as int, a) is None,
        },
{
    match a {
        StepAction::Next => {
            if pc < code.len() - 1 {
                Some(pc + 1)
            } else {
                None
            }
        },
        StepAction::Branch(off) => {
            let ghost c = code@;
            let mut at: u64 = 0;
            let mut i: usize = 0;
            while i < pc
                invariant
                    c == code@,
                    pc < c.len(),
                    code_fits(c),
                    i <= pc,
                    at == code_offset(c, i as int),
                decreases pc - i,
            {
                proof {
                    lemma_offsets_grow(c, i + 1, c.len() as int);
                }
                at = at + instruction_len(&code[i]);
                i = i + 1;
            }
            proof {
                lemma_offsets_grow(c, pc as int, c.len() as int);
            }
            let target: i64 = as_i64(at) + i32_as_i64(off);
            let mut pos: u64 = 0;
            let mut j: usize = 0;
            while j < code.len()
                invariant
                    c == code@,
                    code_fits(c),
                    j <= c.len(),
                    pos == code_offset(c, j as int),
                    target == code_offset(c, pc as int) + off,
                    a == StepAction::Branch(off),
                    index_at(c, target as int, 0) == index_at(c, target as int, j as int),
                decreases c.len() - j,
            {
                proof {
                    lemma_offsets_grow(c, j as int, c.len() as int);
                }
                if as_i64(pos) == target {
                    return Some(j);
                }
                proof {
                    lemma_offsets_grow(c, j + 1, c.len() as int);
                }
                pos = pos + instruction_len(&code[j]);
                j = j + 1;
            }
            None
        },
        _ => None,
    }
}

proof fn lemma_index_at_found(code: Seq<Opcode>, k: int, j: int)
    requires
        0 <= j <= k < code.len(),
    ensures
        index_at(code, code_offset(code, k), j) == Some(k),
    decreases k - j,
{
    if j < k {
        lemma_offsets_grow(code, j + 1, k);
        lemma_index_at_found(code, k, j + 1);
    }
}

/// A branch from the `pc`-th instruction by the distance in bytes to the `k`-th lands on
/// the `k`-th: each instruction starts at its own offset.
pub proof fn law_branch_lands(code: Seq<Opcode>, pc: int, k: int, off: i32)
    requires
        0 <= pc < code.len(),
        0 <= k < code.len(),
        off == code_offset(code, k) - code_offset(code, pc),
    ensures
        spec_next_pc(code, pc, StepAction::Branch(off)) == Some(k),
{
    lemma_index_at_found(code, k, 0);
}

} // verus!
