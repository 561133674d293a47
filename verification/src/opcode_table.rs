//! The numbering of the instruction set: each instruction is written with, and read
//! from, the opcode byte that the table of opcodes of the JVM specification gives it.
use vstd::prelude::*;
use crate::opcodes::{decode_fixed, opcode_byte, Opcode};

verus! {

/// The instructions without operands numbered from `0x0` on, in the order of their
/// numbers: `nop`, `aconst_null` and the constant pushes.
pub open spec fn constants() -> Seq<Opcode> {
    seq![Opcode::nop, Opcode::aconst_null, Opcode::iconst_m1, Opcode::iconst_0, Opcode::iconst_1, Opcode::iconst_2, Opcode::iconst_3, Opcode::iconst_4, Opcode::iconst_5, Opcode::lconst_0, Opcode::lconst_1, Opcode::fconst_0, Opcode::fconst_1, Opcode::fconst_2, Opcode::dconst_0, Opcode::dconst_1]
}

/// The instructions without operands numbered from `0x1a` on, in the order of their
/// numbers: the loads of local variables 0 to 3 and the array loads.
pub open spec fn loads() -> Seq<Opcode> {
    seq![Opcode::iload_0, Opcode::iload_1, Opcode::iload_2, Opcode::iload_3, Opcode::lload_0, Opcode::lload_1, Opcode::lload_2, Opcode::lload_3, Opcode::fload_0, Opcode::fload_1, Opcode::fload_2, Opcode::fload_3, Opcode::dload_0, Opcode::dload_1, Opcode::dload_2, Opcode::dload_3, Opcode::aload_0, Opcode::aload_1, Opcode::aload_2, Opcode::aload_3, Opcode::iaload, Opcode::laload, Opcode::faload, Opcode::daload, Opcode::aaload, Opcode::baload, Opcode::caload, Opcode::saload]
}

/// The instructions without operands numbered from `0x3b` on, in the order of their
/// numbers: the stores into local variables 0 to 3, the array stores and the stack shuffles.
pub open spec fn stores_and_stack() -> Seq<Opcode> {
    seq![Opcode::istore_0, Opcode::istore_1, Opcode::istore_2, Opcode::istore_3, Opcode::lstore_0, Opcode::lstore_1, Opcode::lstore_2, Opcode::lstore_3, Opcode::fstore_0, Opcode::fstore_1, Opcode::fstore_2, Opcode::fstore_3, Opcode::dstore_0, Opcode::dstore_1, Opcode::dstore_2, Opcode::dstore_3, Opcode::astore_0, Opcode::astore_1, Opcode::astore_2, Opcode::astore_3, Opcode::iastore, Opcode::lastore, Opcode::fastore, Opcode::dastore, Opcode::aastore, Opcode::bastore, Opcode::castore, Opcode::sastore, Opcode::pop, Opcode::pop2, Opcode::dup, Opcode::dup_x1, Opcode::dup_x2, Opcode::dup2, Opcode::dup2_x1, Opcode::dup2_x2, Opcode::swap]
}

/// The instructions without operands numbered from `0x60` on, in the order of their
/// numbers: the arithmetic, shift and bitwise instructions, typed int, long, float, double.
pub open spec fn arithmetic() -> Seq<Opcode> {
    seq![Opcode::iadd, Opcode::ladd, Opcode::fadd, Opcode::dadd, Opcode::isub, Opcode::lsub, Opcode::fsub, Opcode::dsub, Opcode::imul, Opcode::lmul, Opcode::fmul, Opcode::dmul, Opcode::idiv, Opcode::ldiv, Opcode::fdiv, Opcode::ddiv, Opcode::irem, Opcode::lrem, Opcode::frem, Opcode::drem, Opcode::ineg, Opcode::lneg, Opcode::fneg, Opcode::dneg, Opcode::ishl, Opcode::lshl, Opcode::ishr, Opcode::lshr, Opcode::iushr, Opcode::lushr, Opcode::iand, Opcode::land, Opcode::ior, Opcode::lor, Opcode::ixor, Opcode::lxor]
}

/// The instructions without operands numbered from `0x85` on, in the order of their
/// numbers: the conversions and the comparisons of longs and floating-point values.
pub open spec fn conversions_and_comparisons() -> Seq<Opcode> {
    seq![Opcode::i2l, Opcode::i2f, Opcode::i2d, Opcode::l2i, Opcode::l2f, Opcode::l2d, Opcode::f2i, Opcode::f2l, Opcode::f2d, Opcode::d2i, Opcode::d2l, Opcode::d2f, Opcode::i2b, Opcode::i2c, Opcode::i2s, Opcode::lcmp, Opcode::fcmpl, Opcode::fcmpg, Opcode::dcmpl, Opcode::dcmpg]
}

/// The instructions without operands numbered from `0xac` on, in the order of their
/// numbers: the return instructions.
pub open spec fn return_instructions() -> Seq<Opcode> {
    seq![Opcode::ireturn, Opcode::lreturn, Opcode::freturn, Opcode::dreturn, Opcode::areturn, Opcode::return_]
}

/// The instructions without operands numbered from `0xbe` on, in the order of their
/// numbers: `arraylength` and `athrow`.
pub open spec fn array_length_and_throw() -> Seq<Opcode> {
    seq![Opcode::arraylength, Opcode::athrow]
}

/// The instructions without operands numbered from `0xc2` on, in the order of their
/// numbers: `monitorenter` and `monitorexit`.
pub open spec fn monitors() -> Seq<Opcode> {
    seq![Opcode::monitorenter, Opcode::monitorexit]
}

/// The instructions without operands numbered from `0xca` on, in the order of their
/// numbers: `breakpoint`.
pub open spec fn breakpoint() -> Seq<Opcode> {
    seq![Opcode::breakpoint]
}

/// The instructions without operands numbered from `0xfe` on, in the order of their
/// numbers: `impdep1` and `impdep2`.
pub open spec fn implementation_dependent() -> Seq<Opcode> {
    seq![Opcode::impdep1, Opcode::impdep2]
}

/// The instructions without operands are written with the numbers of the JVM table: each
/// run of them takes consecutive opcode bytes from the first number of the run on.
pub proof fn law_plain_opcode_numbers()
    ensures
        forall|k: int| 0 <= k < constants().len() ==> opcode_byte(#[trigger] constants()[k]) == 0x0 + k,
        forall|k: int| 0 <= k < loads().len() ==> opcode_byte(#[trigger] loads()[k]) == 0x1a + k,
        forall|k: int| 0 <= k < stores_and_stack().len() ==> opcode_byte(#[trigger] stores_and_stack()[k]) == 0x3b + k,
        forall|k: int| 0 <= k < arithmetic().len() ==> opcode_byte(#[trigger] arithmetic()[k]) == 0x60 + k,
        forall|k: int| 0 <= k < conversions_and_comparisons().len() ==> opcode_byte(#[trigger] conversions_and_comparisons()[k]) == 0x85 + k,
        forall|k: int| 0 <= k < return_instructions().len() ==> opcode_byte(#[trigger] return_instructions()[k]) == 0xac + k,
        forall|k: int| 0 <= k < array_length_and_throw().len() ==> opcode_byte(#[trigger] array_length_and_throw()[k]) == 0xbe + k,
        forall|k: int| 0 <= k < monitors().len() ==> opcode_byte(#[trigger] monitors()[k]) == 0xc2 + k,
        forall|k: int| 0 <= k < breakpoint().len() ==> opcode_byte(#[trigger] breakpoint()[k]) == 0xca + k,
        forall|k: int| 0 <= k < implementation_dependent().len() ==> opcode_byte(#[trigger] implementation_dependent()[k]) == 0xfe + k,
{
    assert forall|k: int| 0 <= k < constants().len() implies opcode_byte(#[trigger] constants()[k]) == 0x0 + k by {
        if k == 0 {
            assert(constants()[k] == Opcode::nop);
        } else if k == 1 {
            assert(constants()[k] == Opcode::aconst_null);
        } else if k == 2 {
            assert(constants()[k] == Opcode::iconst_m1);
        } else if k == 3 {
            assert(constants()[k] == Opcode::iconst_0);
        } else if k == 4 {
            assert(constants()[k] == Opcode::iconst_1);
        } else if k == 5 {
            assert(constants()[k] == Opcode::iconst_2);
        } else if k == 6 {
            assert(constants()[k] == Opcode::iconst_3);
        } else if k == 7 {
            assert(constants()[k] == Opcode::iconst_4);
        } else if k == 8 {
            assert(constants()[k] == Opcode::iconst_5);
        } else if k == 9 {
            assert(constants()[k] == Opcode::lconst_0);
        } else if k == 10 {
            assert(constants()[k] == Opcode::lconst_1);
        } else if k == 11 {
            assert(constants()[k] == Opcode::fconst_0);
        } else if k == 12 {
            assert(constants()[k] == Opcode::fconst_1);
        } else if k == 13 {
            assert(constants()[k] == Opcode::fconst_2);
        } else if k == 14 {
            assert(constants()[k] == Opcode::dconst_0);
        } else if k == 15 {
            assert(constants()[k] == Opcode::dconst_1);
        }
    }
    assert forall|k: int| 0 <= k < loads().len() implies opcode_byte(#[trigger] loads()[k]) == 0x1a + k by {
        if k == 0 {
            assert(loads()[k] == Opcode::iload_0);
        } else if k == 1 {
            assert(loads()[k] == Opcode::iload_1);
        } else if k == 2 {
            assert(loads()[k] == Opcode::iload_2);
        } else if k == 3 {
            assert(loads()[k] == Opcode::iload_3);
        } else if k == 4 {
            assert(loads()[k] == Opcode::lload_0);
        } else if k == 5 {
            assert(loads()[k] == Opcode::lload_1);
        } else if k == 6 {
            assert(loads()[k] == Opcode::lload_2);
        } else if k == 7 {
            assert(loads()[k] == Opcode::lload_3);
        } else if k == 8 {
            assert(loads()[k] == Opcode::fload_0);
        } else if k == 9 {
            assert(loads()[k] == Opcode::fload_1);
        } else if k == 10 {
            assert(loads()[k] == Opcode::fload_2);
        } else if k == 11 {
            assert(loads()[k] == Opcode::fload_3);
        } else if k == 12 {
            assert(loads()[k] == Opcode::dload_0);
        } else if k == 13 {
            assert(loads()[k] == Opcode::dload_1);
        } else if k == 14 {
            assert(loads()[k] == Opcode::dload_2);
        } else if k == 15 {
            assert(loads()[k] == Opcode::dload_3);
        } else if k == 16 {
            assert(loads()[k] == Opcode::aload_0);
        } else if k == 17 {
            assert(loads()[k] == Opcode::aload_1);
        } else if k == 18 {
            assert(loads()[k] == Opcode::aload_2);
        } else if k == 19 {
            assert(loads()[k] == Opcode::aload_3);
        } else if k == 20 {
            assert(loads()[k] == Opcode::iaload);
        } else if k == 21 {
            assert(loads()[k] == Opcode::laload);
        } else if k == 22 {
            assert(loads()[k] == Opcode::faload);
        } else if k == 23 {
            assert(loads()[k] == Opcode::daload);
        } else if k == 24 {
            assert(loads()[k] == Opcode::aaload);
        } else if k == 25 {
            assert(loads()[k] == Opcode::baload);
        } else if k == 26 {
            assert(loads()[k] == Opcode::caload);
        } else if k == 27 {
            assert(loads()[k] == Opcode::saload);
        }
    }
    assert forall|k: int| 0 <= k < stores_and_stack().len() implies opcode_byte(#[trigger] stores_and_stack()[k]) == 0x3b + k by {
        if k == 0 {
            assert(stores_and_stack()[k] == Opcode::istore_0);
        } else if k == 1 {
            assert(stores_and_stack()[k] == Opcode::istore_1);
        } else if k == 2 {
            assert(stores_and_stack()[k] == Opcode::istore_2);
        } else if k == 3 {
            assert(stores_and_stack()[k] == Opcode::istore_3);
        } else if k == 4 {
            assert(stores_and_stack()[k] == Opcode::lstore_0);
        } else if k == 5 {
            assert(stores_and_stack()[k] == Opcode::lstore_1);
        } else if k == 6 {
            assert(stores_and_stack()[k] == Opcode::lstore_2);
        } else if k == 7 {
            assert(stores_and_stack()[k] == Opcode::lstore_3);
        } else if k == 8 {
            assert(stores_and_stack()[k] == Opcode::fstore_0);
        } else if k == 9 {
            assert(stores_and_stack()[k] == Opcode::fstore_1);
        } else if k == 10 {
            assert(stores_and_stack()[k] == Opcode::fstore_2);
        } else if k == 11 {
            assert(stores_and_stack()[k] == Opcode::fstore_3);
        } else if k == 12 {
            assert(stores_and_stack()[k] == Opcode::dstore_0);
        } else if k == 13 {
            assert(stores_and_stack()[k] == Opcode::dstore_1);
        } else if k == 14 {
            assert(stores_and_stack()[k] == Opcode::dstore_2);
        } else if k == 15 {
            assert(stores_and_stack()[k] == Opcode::dstore_3);
        } else if k == 16 {
            assert(stores_and_stack()[k] == Opcode::astore_0);
        } else if k == 17 {
            assert(stores_and_stack()[k] == Opcode::astore_1);
        } else if k == 18 {
            assert(stores_and_stack()[k] == Opcode::astore_2);
        } else if k == 19 {
            assert(stores_and_stack()[k] == Opcode::astore_3);
        } else if k == 20 {
            assert(stores_and_stack()[k] == Opcode::iastore);
        } else if k == 21 {
            assert(stores_and_stack()[k] == Opcode::lastore);
        } else if k == 22 {
            assert(stores_and_stack()[k] == Opcode::fastore);
        } else if k == 23 {
            assert(stores_and_stack()[k] == Opcode::dastore);
        } else if k == 24 {
            assert(stores_and_stack()[k] == Opcode::aastore);
        } else if k == 25 {
            assert(stores_and_stack()[k] == Opcode::bastore);
        } else if k == 26 {
            assert(stores_and_stack()[k] == Opcode::castore);
        } else if k == 27 {
            assert(stores_and_stack()[k] == Opcode::sastore);
        } else if k == 28 {
            assert(stores_and_stack()[k] == Opcode::pop);
        } else if k == 29 {
            assert(stores_and_stack()[k] == Opcode::pop2);
        } else if k == 30 {
            assert(stores_and_stack()[k] == Opcode::dup);
        } else if k == 31 {
            assert(stores_and_stack()[k] == Opcode::dup_x1);
        } else if k == 32 {
            assert(stores_and_stack()[k] == Opcode::dup_x2);
        } else if k == 33 {
            assert(stores_and_stack()[k] == Opcode::dup2);
        } else if k == 34 {
            assert(stores_and_stack()[k] == Opcode::dup2_x1);
        } else if k == 35 {
            assert(stores_and_stack()[k] == Opcode::dup2_x2);
        } else if k == 36 {
            assert(stores_and_stack()[k] == Opcode::swap);
        }
    }
    assert forall|k: int| 0 <= k < arithmetic().len() implies opcode_byte(#[trigger] arithmetic()[k]) == 0x60 + k by {
        if k == 0 {
            assert(arithmetic()[k] == Opcode::iadd);
        } else if k == 1 {
            assert(arithmetic()[k] == Opcode::ladd);
        } else if k == 2 {
            assert(arithmetic()[k] == Opcode::fadd);
        } else if k == 3 {
            assert(arithmetic()[k] == Opcode::dadd);
        } else if k == 4 {
            assert(arithmetic()[k] == Opcode::isub);
        } else if k == 5 {
            assert(arithmetic()[k] == Opcode::lsub);
        } else if k == 6 {
            assert(arithmetic()[k] == Opcode::fsub);
        } else if k == 7 {
            assert(arithmetic()[k] == Opcode::dsub);
        } else if k == 8 {
            assert(arithmetic()[k] == Opcode::imul);
        } else if k == 9 {
            assert(arithmetic()[k] == Opcode::lmul);
        } else if k == 10 {
            assert(arithmetic()[k] == Opcode::fmul);
        } else if k == 11 {
            assert(arithmetic()[k] == Opcode::dmul);
        } else if k == 12 {
            assert(arithmetic()[k] == Opcode::idiv);
        } else if k == 13 {
            assert(arithmetic()[k] == Opcode::ldiv);
        } else if k == 14 {
            assert(arithmetic()[k] == Opcode::fdiv);
        } else if k == 15 {
            assert(arithmetic()[k] == Opcode::ddiv);
        } else if k == 16 {
            assert(arithmetic()[k] == Opcode::irem);
        } else if k == 17 {
            assert(arithmetic()[k] == Opcode::lrem);
        } else if k == 18 {
            assert(arithmetic()[k] == Opcode::frem);
        } else if k == 19 {
            assert(arithmetic()[k] == Opcode::drem);
        } else if k == 20 {
            assert(arithmetic()[k] == Opcode::ineg);
        } else if k == 21 {
            assert(arithmetic()[k] == Opcode::lneg);
        } else if k == 22 {
            assert(arithmetic()[k] == Opcode::fneg);
        } else if k == 23 {
            assert(arithmetic()[k] == Opcode::dneg);
        } else if k == 24 {
            assert(arithmetic()[k] == Opcode::ishl);
        } else if k == 25 {
            assert(arithmetic()[k] == Opcode::lshl);
        } else if k == 26 {
            assert(arithmetic()[k] == Opcode::ishr);
        } else if k == 27 {
            assert(arithmetic()[k] == Opcode::lshr);
        } else if k == 28 {
            assert(arithmetic()[k] == Opcode::iushr);
        } else if k == 29 {
            assert(arithmetic()[k] == Opcode::lushr);
        } else if k == 30 {
            assert(arithmetic()[k] == Opcode::iand);
        } else if k == 31 {
            assert(arithmetic()[k] == Opcode::land);
        } else if k == 32 {
            assert(arithmetic()[k] == Opcode::ior);
        } else if k == 33 {
            assert(arithmetic()[k] == Opcode::lor);
        } else if k == 34 {
            assert(arithmetic()[k] == Opcode::ixor);
        } else if k == 35 {
            assert(arithmetic()[k] == Opcode::lxor);
        }
    }
    assert forall|k: int| 0 <= k < conversions_and_comparisons().len() implies opcode_byte(#[trigger] conversions_and_comparisons()[k]) == 0x85 + k by {
        if k == 0 {
            assert(conversions_and_comparisons()[k] == Opcode::i2l);
        } else if k == 1 {
            assert(conversions_and_comparisons()[k] == Opcode::i2f);
        } else if k == 2 {
            assert(conversions_and_comparisons()[k] == Opcode::i2d);
        } else if k == 3 {
            assert(conversions_and_comparisons()[k] == Opcode::l2i);
        } else if k == 4 {
            assert(conversions_and_comparisons()[k] == Opcode::l2f);
        } else if k == 5 {
            assert(conversions_and_comparisons()[k] == Opcode::l2d);
        } else if k == 6 {
            assert(conversions_and_comparisons()[k] == Opcode::f2i);
        } else if k == 7 {
            assert(conversions_and_comparisons()[k] == Opcode::f2l);
        } else if k == 8 {
            assert(conversions_and_comparisons()[k] == Opcode::f2d);
        } else if k == 9 {
            assert(conversions_and_comparisons()[k] == Opcode::d2i);
        } else if k == 10 {
            assert(conversions_and_comparisons()[k] == Opcode::d2l);
        } else if k == 11 {
            assert(conversions_and_comparisons()[k] == Opcode::d2f);
        } else if k == 12 {
            assert(conversions_and_comparisons()[k] == Opcode::i2b);
        } else if k == 13 {
            assert(conversions_and_comparisons()[k] == Opcode::i2c);
        } else if k == 14 {
            assert(conversions_and_comparisons()[k] == Opcode::i2s);
        } else if k == 15 {
            assert(conversions_and_comparisons()[k] == Opcode::lcmp);
        } else if k == 16 {
            assert(conversions_and_comparisons()[k] == Opcode::fcmpl);
        } else if k == 17 {
            assert(conversions_and_comparisons()[k] == Opcode::fcmpg);
        } else if k == 18 {
            assert(conversions_and_comparisons()[k] == Opcode::dcmpl);
        } else if k == 19 {
            assert(conversions_and_comparisons()[k] == Opcode::dcmpg);
        }
    }
    assert forall|k: int| 0 <= k < return_instructions().len() implies opcode_byte(#[trigger] return_instructions()[k]) == 0xac + k by {
        if k == 0 {
            assert(return_instructions()[k] == Opcode::ireturn);
        } else if k == 1 {
            assert(return_instructions()[k] == Opcode::lreturn);
        } else if k == 2 {
            assert(return_instructions()[k] == Opcode::freturn);
        } else if k == 3 {
            assert(return_instructions()[k] == Opcode::dreturn);
        } else if k == 4 {
            assert(return_instructions()[k] == Opcode::areturn);
        } else if k == 5 {
            assert(return_instructions()[k] == Opcode::return_);
        }
    }
    assert forall|k: int| 0 <= k < array_length_and_throw().len() implies opcode_byte(#[trigger] array_length_and_throw()[k]) == 0xbe + k by {
        if k == 0 {
            assert(array_length_and_throw()[k] == Opcode::arraylength);
        } else if k == 1 {
            assert(array_length_and_throw()[k] == Opcode::athrow);
        }
    }
    assert forall|k: int| 0 <= k < monitors().len() implies opcode_byte(#[trigger] monitors()[k]) == 0xc2 + k by {
        if k == 0 {
            assert(monitors()[k] == Opcode::monitorenter);
        } else if k == 1 {
            assert(monitors()[k] == Opcode::monitorexit);
        }
    }
    assert forall|k: int| 0 <= k < breakpoint().len() implies opcode_byte(#[trigger] breakpoint()[k]) == 0xca + k by {
        if k == 0 {
            assert(breakpoint()[k] == Opcode::breakpoint);
        }
    }
    assert forall|k: int| 0 <= k < implementation_dependent().len() implies opcode_byte(#[trigger] implementation_dependent()[k]) == 0xfe + k by {
        if k == 0 {
            assert(implementation_dependent()[k] == Opcode::impdep1);
        } else if k == 1 {
            assert(implementation_dependent()[k] == Opcode::impdep2);
        }
    }
}

/// An opcode byte of the JVM table for an instruction without operands is read as that
/// instruction.
pub proof fn law_plain_opcode_decoding(s: Seq<u8>, p: int)
    requires
        0 <= p < s.len(),
    ensures
        forall|k: int| 0 <= k < constants().len() && s[p] == 0x0 + k ==> decode_fixed(s, p) == #[trigger] constants()[k],
        forall|k: int| 0 <= k < loads().len() && s[p] == 0x1a + k ==> decode_fixed(s, p) == #[trigger] loads()[k],
        forall|k: int| 0 <= k < stores_and_stack().len() && s[p] == 0x3b + k ==> decode_fixed(s, p) == #[trigger] stores_and_stack()[k],
        forall|k: int| 0 <= k < arithmetic().len() && s[p] == 0x60 + k ==> decode_fixed(s, p) == #[trigger] arithmetic()[k],
        forall|k: int| 0 <= k < conversions_and_comparisons().len() && s[p] == 0x85 + k ==> decode_fixed(s, p) == #[trigger] conversions_and_comparisons()[k],
        forall|k: int| 0 <= k < return_instructions().len() && s[p] == 0xac + k ==> decode_fixed(s, p) == #[trigger] return_instructions()[k],
        forall|k: int| 0 <= k < array_length_and_throw().len() && s[p] == 0xbe + k ==> decode_fixed(s, p) == #[trigger] array_length_and_throw()[k],
        forall|k: int| 0 <= k < monitors().len() && s[p] == 0xc2 + k ==> decode_fixed(s, p) == #[trigger] monitors()[k],
        forall|k: int| 0 <= k < breakpoint().len() && s[p] == 0xca + k ==> decode_fixed(s, p) == #[trigger] breakpoint()[k],
        forall|k: int| 0 <= k < implementation_dependent().len() && s[p] == 0xfe + k ==> decode_fixed(s, p) == #[trigger] implementation_dependent()[k],
        0xcb <= s[p] <= 0xfd ==> decode_fixed(s, p) == Opcode::reserved,
{
    assert forall|k: int| 0 <= k < constants().len() && s[p] == 0x0 + k implies decode_fixed(s, p) == #[trigger] constants()[k] by {
        if k == 0 {
            assert(constants()[k] == Opcode::nop);
        } else if k == 1 {
            assert(constants()[k] == Opcode::aconst_null);
        } else if k == 2 {
            assert(constants()[k] == Opcode::iconst_m1);
        } else if k == 3 {
            assert(constants()[k] == Opcode::iconst_0);
        } else if k == 4 {
            assert(constants()[k] == Opcode::iconst_1);
        } else if k == 5 {
            assert(constants()[k] == Opcode::iconst_2);
        } else if k == 6 {
            assert(constants()[k] == Opcode::iconst_3);
        } else if k == 7 {
            assert(constants()[k] == Opcode::iconst_4);
        } else if k == 8 {
            assert(constants()[k] == Opcode::iconst_5);
        } else if k == 9 {
            assert(constants()[k] == Opcode::lconst_0);
        } else if k == 10 {
            assert(constants()[k] == Opcode::lconst_1);
        } else if k == 11 {
            assert(constants()[k] == Opcode::fconst_0);
        } else if k == 12 {
            assert(constants()[k] == Opcode::fconst_1);
        } else if k == 13 {
            assert(constants()[k] == Opcode::fconst_2);
        } else if k == 14 {
            assert(constants()[k] == Opcode::dconst_0);
        } else if k == 15 {
            assert(constants()[k] == Opcode::dconst_1);
        }
    }
    assert forall|k: int| 0 <= k < loads().len() && s[p] == 0x1a + k implies decode_fixed(s, p) == #[trigger] loads()[k] by {
        if k == 0 {
            assert(loads()[k] == Opcode::iload_0);
        } else if k == 1 {
            assert(loads()[k] == Opcode::iload_1);
        } else if k == 2 {
            assert(loads()[k] == Opcode::iload_2);
        } else if k == 3 {
            assert(loads()[k] == Opcode::iload_3);
        } else if k == 4 {
            assert(loads()[k] == Opcode::lload_0);
        } else if k == 5 {
            assert(loads()[k] == Opcode::lload_1);
        } else if k == 6 {
            assert(loads()[k] == Opcode::lload_2);
        } else if k == 7 {
            assert(loads()[k] == Opcode::lload_3);
        } else if k == 8 {
            assert(loads()[k] == Opcode::fload_0);
        } else if k == 9 {
            assert(loads()[k] == Opcode::fload_1);
        } else if k == 10 {
            assert(loads()[k] == Opcode::fload_2);
        } else if k == 11 {
            assert(loads()[k] == Opcode::fload_3);
        } else if k == 12 {
            assert(loads()[k] == Opcode::dload_0);
        } else if k == 13 {
            assert(loads()[k] == Opcode::dload_1);
        } else if k == 14 {
            assert(loads()[k] == Opcode::dload_2);
        } else if k == 15 {
            assert(loads()[k] == Opcode::dload_3);
        } else if k == 16 {
            assert(loads()[k] == Opcode::aload_0);
        } else if k == 17 {
            assert(loads()[k] == Opcode::aload_1);
        } else if k == 18 {
            assert(loads()[k] == Opcode::aload_2);
        } else if k == 19 {
            assert(loads()[k] == Opcode::aload_3);
        } else if k == 20 {
            assert(loads()[k] == Opcode::iaload);
        } else if k == 21 {
            assert(loads()[k] == Opcode::laload);
        } else if k == 22 {
            assert(loads()[k] == Opcode::faload);
        } else if k == 23 {
            assert(loads()[k] == Opcode::daload);
        } else if k == 24 {
            assert(loads()[k] == Opcode::aaload);
        } else if k == 25 {
            assert(loads()[k] == Opcode::baload);
        } else if k == 26 {
            assert(loads()[k] == Opcode::caload);
        } else if k == 27 {
            assert(loads()[k] == Opcode::saload);
        }
    }
    assert forall|k: int| 0 <= k < stores_and_stack().len() && s[p] == 0x3b + k implies decode_fixed(s, p) == #[trigger] stores_and_stack()[k] by {
        if k == 0 {
            assert(stores_and_stack()[k] == Opcode::istore_0);
        } else if k == 1 {
            assert(stores_and_stack()[k] == Opcode::istore_1);
        } else if k == 2 {
            assert(stores_and_stack()[k] == Opcode::istore_2);
        } else if k == 3 {
            assert(stores_and_stack()[k] == Opcode::istore_3);
        } else if k == 4 {
            assert(stores_and_stack()[k] == Opcode::lstore_0);
        } else if k == 5 {
            assert(stores_and_stack()[k] == Opcode::lstore_1);
        } else if k == 6 {
            assert(stores_and_stack()[k] == Opcode::lstore_2);
        } else if k == 7 {
            assert(stores_and_stack()[k] == Opcode::lstore_3);
        } else if k == 8 {
            assert(stores_and_stack()[k] == Opcode::fstore_0);
        } else if k == 9 {
            assert(stores_and_stack()[k] == Opcode::fstore_1);
        } else if k == 10 {
            assert(stores_and_stack()[k] == Opcode::fstore_2);
        } else if k == 11 {
            assert(stores_and_stack()[k] == Opcode::fstore_3);
        } else if k == 12 {
            assert(stores_and_stack()[k] == Opcode::dstore_0);
        } else if k == 13 {
            assert(stores_and_stack()[k] == Opcode::dstore_1);
        } else if k == 14 {
            assert(stores_and_stack()[k] == Opcode::dstore_2);
        } else if k == 15 {
            assert(stores_and_stack()[k] == Opcode::dstore_3);
        } else if k == 16 {
            assert(stores_and_stack()[k] == Opcode::astore_0);
        } else if k == 17 {
            assert(stores_and_stack()[k] == Opcode::astore_1);
        } else if k == 18 {
            assert(stores_and_stack()[k] == Opcode::astore_2);
        } else if k == 19 {
            assert(stores_and_stack()[k] == Opcode::astore_3);
        } else if k == 20 {
            assert(stores_and_stack()[k] == Opcode::iastore);
        } else if k == 21 {
            assert(stores_and_stack()[k] == Opcode::lastore);
        } else if k == 22 {
            assert(stores_and_stack()[k] == Opcode::fastore);
        } else if k == 23 {
            assert(stores_and_stack()[k] == Opcode::dastore);
        } else if k == 24 {
            assert(stores_and_stack()[k] == Opcode::aastore);
        } else if k == 25 {
            assert(stores_and_stack()[k] == Opcode::bastore);
        } else if k == 26 {
            assert(stores_and_stack()[k] == Opcode::castore);
        } else if k == 27 {
            assert(stores_and_stack()[k] == Opcode::sastore);
        } else if k == 28 {
            assert(stores_and_stack()[k] == Opcode::pop);
        } else if k == 29 {
            assert(stores_and_stack()[k] == Opcode::pop2);
        } else if k == 30 {
            assert(stores_and_stack()[k] == Opcode::dup);
        } else if k == 31 {
            assert(stores_and_stack()[k] == Opcode::dup_x1);
        } else if k == 32 {
            assert(stores_and_stack()[k] == Opcode::dup_x2);
        } else if k == 33 {
            assert(stores_and_stack()[k] == Opcode::dup2);
        } else if k == 34 {
            assert(stores_and_stack()[k] == Opcode::dup2_x1);
        } else if k == 35 {
            assert(stores_and_stack()[k] == Opcode::dup2_x2);
        } else if k == 36 {
            assert(stores_and_stack()[k] == Opcode::swap);
        }
    }
    assert forall|k: int| 0 <= k < arithmetic().len() && s[p] == 0x60 + k implies decode_fixed(s, p) == #[trigger] arithmetic()[k] by {
        if k == 0 {
            assert(arithmetic()[k] == Opcode::iadd);
        } else if k == 1 {
            assert(arithmetic()[k] == Opcode::ladd);
        } else if k == 2 {
            assert(arithmetic()[k] == Opcode::fadd);
        } else if k == 3 {
            assert(arithmetic()[k] == Opcode::dadd);
        } else if k == 4 {
            assert(arithmetic()[k] == Opcode::isub);
        } else if k == 5 {
            assert(arithmetic()[k] == Opcode::lsub);
        } else if k == 6 {
            assert(arithmetic()[k] == Opcode::fsub);
        } else if k == 7 {
            assert(arithmetic()[k] == Opcode::dsub);
        } else if k == 8 {
            assert(arithmetic()[k] == Opcode::imul);
        } else if k == 9 {
            assert(arithmetic()[k] == Opcode::lmul);
        } else if k == 10 {
            assert(arithmetic()[k] == Opcode::fmul);
        } else if k == 11 {
            assert(arithmetic()[k] == Opcode::dmul);
        } else if k == 12 {
            assert(arithmetic()[k] == Opcode::idiv);
        } else if k == 13 {
            assert(arithmetic()[k] == Opcode::ldiv);
        } else if k == 14 {
            assert(arithmetic()[k] == Opcode::fdiv);
        } else if k == 15 {
            assert(arithmetic()[k] == Opcode::ddiv);
        } else if k == 16 {
            assert(arithmetic()[k] == Opcode::irem);
        } else if k == 17 {
            assert(arithmetic()[k] == Opcode::lrem);
        } else if k == 18 {
            assert(arithmetic()[k] == Opcode::frem);
        } else if k == 19 {
            assert(arithmetic()[k] == Opcode::drem);
        } else if k == 20 {
            assert(arithmetic()[k] == Opcode::ineg);
        } else if k == 21 {
            assert(arithmetic()[k] == Opcode::lneg);
        } else if k == 22 {
            assert(arithmetic()[k] == Opcode::fneg);
        } else if k == 23 {
            assert(arithmetic()[k] == Opcode::dneg);
        } else if k == 24 {
            assert(arithmetic()[k] == Opcode::ishl);
        } else if k == 25 {
            assert(arithmetic()[k] == Opcode::lshl);
        } else if k == 26 {
            assert(arithmetic()[k] == Opcode::ishr);
        } else if k == 27 {
            assert(arithmetic()[k] == Opcode::lshr);
        } else if k == 28 {
            assert(arithmetic()[k] == Opcode::iushr);
        } else if k == 29 {
            assert(arithmetic()[k] == Opcode::lushr);
        } else if k == 30 {
            assert(arithmetic()[k] == Opcode::iand);
        } else if k == 31 {
            assert(arithmetic()[k] == Opcode::land);
        } else if k == 32 {
            assert(arithmetic()[k] == Opcode::ior);
        } else if k == 33 {
            assert(arithmetic()[k] == Opcode::lor);
        } else if k == 34 {
            assert(arithmetic()[k] == Opcode::ixor);
        } else if k == 35 {
            assert(arithmetic()[k] == Opcode::lxor);
        }
    }
    assert forall|k: int| 0 <= k < conversions_and_comparisons().len() && s[p] == 0x85 + k implies decode_fixed(s, p) == #[trigger] conversions_and_comparisons()[k] by {
        if k == 0 {
            assert(conversions_and_comparisons()[k] == Opcode::i2l);
        } else if k == 1 {
            assert(conversions_and_comparisons()[k] == Opcode::i2f);
        } else if k == 2 {
            assert(conversions_and_comparisons()[k] == Opcode::i2d);
        } else if k == 3 {
            assert(conversions_and_comparisons()[k] == Opcode::l2i);
        } else if k == 4 {
            assert(conversions_and_comparisons()[k] == Opcode::l2f);
        } else if k == 5 {
            assert(conversions_and_comparisons()[k] == Opcode::l2d);
        } else if k == 6 {
            assert(conversions_and_comparisons()[k] == Opcode::f2i);
        } else if k == 7 {
            assert(conversions_and_comparisons()[k] == Opcode::f2l);
        } else if k == 8 {
            assert(conversions_and_comparisons()[k] == Opcode::f2d);
        } else if k == 9 {
            assert(conversions_and_comparisons()[k] == Opcode::d2i);
        } else if k == 10 {
            assert(conversions_and_comparisons()[k] == Opcode::d2l);
        } else if k == 11 {
            assert(conversions_and_comparisons()[k] == Opcode::d2f);
        } else if k == 12 {
            assert(conversions_and_comparisons()[k] == Opcode::i2b);
        } else if k == 13 {
            assert(conversions_and_comparisons()[k] == Opcode::i2c);
        } else if k == 14 {
            assert(conversions_and_comparisons()[k] == Opcode::i2s);
        } else if k == 15 {
            assert(conversions_and_comparisons()[k] == Opcode::lcmp);
        } else if k == 16 {
            assert(conversions_and_comparisons()[k] == Opcode::fcmpl);
        } else if k == 17 {
            assert(conversions_and_comparisons()[k] == Opcode::fcmpg);
        } else if k == 18 {
            assert(conversions_and_comparisons()[k] == Opcode::dcmpl);
        } else if k == 19 {
            assert(conversions_and_comparisons()[k] == Opcode::dcmpg);
        }
    }
    assert forall|k: int| 0 <= k < return_instructions().len() && s[p] == 0xac + k implies decode_fixed(s, p) == #[trigger] return_instructions()[k] by {
        if k == 0 {
            assert(return_instructions()[k] == Opcode::ireturn);
        } else if k == 1 {
            assert(return_instructions()[k] == Opcode::lreturn);
        } else if k == 2 {
            assert(return_instructions()[k] == Opcode::freturn);
        } else if k == 3 {
            assert(return_instructions()[k] == Opcode::dreturn);
        } else if k == 4 {
            assert(return_instructions()[k] == Opcode::areturn);
        } else if k == 5 {
            assert(return_instructions()[k] == Opcode::return_);
        }
    }
    assert forall|k: int| 0 <= k < array_length_and_throw().len() && s[p] == 0xbe + k implies decode_fixed(s, p) == #[trigger] array_length_and_throw()[k] by {
        if k == 0 {
            assert(array_length_and_throw()[k] == Opcode::arraylength);
        } else if k == 1 {
            assert(array_length_and_throw()[k] == Opcode::athrow);
        }
    }
    assert forall|k: int| 0 <= k < monitors().len() && s[p] == 0xc2 + k implies decode_fixed(s, p) == #[trigger] monitors()[k] by {
        if k == 0 {
            assert(monitors()[k] == Opcode::monitorenter);
        } else if k == 1 {
            assert(monitors()[k] == Opcode::monitorexit);
        }
    }
    assert forall|k: int| 0 <= k < breakpoint().len() && s[p] == 0xca + k implies decode_fixed(s, p) == #[trigger] breakpoint()[k] by {
        if k == 0 {
            assert(breakpoint()[k] == Opcode::breakpoint);
        }
    }
    assert forall|k: int| 0 <= k < implementation_dependent().len() && s[p] == 0xfe + k implies decode_fixed(s, p) == #[trigger] implementation_dependent()[k] by {
        if k == 0 {
            assert(implementation_dependent()[k] == Opcode::impdep1);
        } else if k == 1 {
            assert(implementation_dependent()[k] == Opcode::impdep2);
        }
    }
}

/// The instructions with operands are written with the numbers of the JVM table, whatever
/// their operands.
pub proof fn law_operand_opcode_numbers(op: Opcode)
    ensures
        op is bipush ==> opcode_byte(op) == 0x10,
        op is sipush ==> opcode_byte(op) == 0x11,
        op is ldc ==> opcode_byte(op) == 0x12,
        op is ldc_w ==> opcode_byte(op) == 0x13,
        op is ldc2_w ==> opcode_byte(op) == 0x14,
        op is iload ==> opcode_byte(op) == 0x15,
        op is lload ==> opcode_byte(op) == 0x16,
        op is fload ==> opcode_byte(op) == 0x17,
        op is dload ==> opcode_byte(op) == 0x18,
        op is aload ==> opcode_byte(op) == 0x19,
        op is istore ==> opcode_byte(op) == 0x36,
        op is lstore ==> opcode_byte(op) == 0x37,
        op is fstore ==> opcode_byte(op) == 0x38,
        op is dstore ==> opcode_byte(op) == 0x39,
        op is astore ==> opcode_byte(op) == 0x3a,
        op is iinc ==> opcode_byte(op) == 0x84,
        op is ifeq ==> opcode_byte(op) == 0x99,
        op is ifne ==> opcode_byte(op) == 0x9a,
        op is iflt ==> opcode_byte(op) == 0x9b,
        op is ifge ==> opcode_byte(op) == 0x9c,
        op is ifgt ==> opcode_byte(op) == 0x9d,
        op is ifle ==> opcode_byte(op) == 0x9e,
        op is if_icmpeq ==> opcode_byte(op) == 0x9f,
        op is if_icmpne ==> opcode_byte(op) == 0xa0,
        op is if_icmplt ==> opcode_byte(op) == 0xa1,
        op is if_icmpge ==> opcode_byte(op) == 0xa2,
        op is if_icmpgt ==> opcode_byte(op) == 0xa3,
        op is if_icmple ==> opcode_byte(op) == 0xa4,
        op is if_acmpeq ==> opcode_byte(op) == 0xa5,
        op is if_acmpne ==> opcode_byte(op) == 0xa6,
        op is goto ==> opcode_byte(op) == 0xa7,
        op is jsr ==> opcode_byte(op) == 0xa8,
        op is ret ==> opcode_byte(op) == 0xa9,
        op is getstatic ==> opcode_byte(op) == 0xb2,
        op is putstatic ==> opcode_byte(op) == 0xb3,
        op is getfield ==> opcode_byte(op) == 0xb4,
        op is putfield ==> opcode_byte(op) == 0xb5,
        op is invokevirtual ==> opcode_byte(op) == 0xb6,
        op is invokespecial ==> opcode_byte(op) == 0xb7,
        op is invokestatic ==> opcode_byte(op) == 0xb8,
        op is invokeinterface ==> opcode_byte(op) == 0xb9,
        op is invokedynamic ==> opcode_byte(op) == 0xba,
        op is new ==> opcode_byte(op) == 0xbb,
        op is newarray ==> opcode_byte(op) == 0xbc,
        op is anewarray ==> opcode_byte(op) == 0xbd,
        op is checkcast ==> opcode_byte(op) == 0xc0,
        op is instanceof ==> opcode_byte(op) == 0xc1,
        op is wide ==> opcode_byte(op) == 0xc4,
        op is wide_iinc ==> opcode_byte(op) == 0xc4,
        op is multianewarray ==> opcode_byte(op) == 0xc5,
        op is ifnull ==> opcode_byte(op) == 0xc6,
        op is ifnonnull ==> opcode_byte(op) == 0xc7,
        op is goto_w ==> opcode_byte(op) == 0xc8,
        op is jsr_w ==> opcode_byte(op) == 0xc9,
        op is tableswitch ==> opcode_byte(op) == 0xaa,
        op is lookupswitch ==> opcode_byte(op) == 0xab,
{
}

/// An opcode byte of the JVM table for an instruction with operands is read as that
/// instruction (`wide` as the wide form of `iinc` where `iinc` follows it).
pub proof fn law_operand_opcode_decoding(s: Seq<u8>, p: int)
    requires
        0 <= p < s.len(),
    ensures
        s[p] == 0x10 ==> decode_fixed(s, p) is bipush,
        s[p] == 0x11 ==> decode_fixed(s, p) is sipush,
        s[p] == 0x12 ==> decode_fixed(s, p) is ldc,
        s[p] == 0x13 ==> decode_fixed(s, p) is ldc_w,
        s[p] == 0x14 ==> decode_fixed(s, p) is ldc2_w,
        s[p] == 0x15 ==> decode_fixed(s, p) is iload,
        s[p] == 0x16 ==> decode_fixed(s, p) is lload,
        s[p] == 0x17 ==> decode_fixed(s, p) is fload,
        s[p] == 0x18 ==> decode_fixed(s, p) is dload,
        s[p] == 0x19 ==> decode_fixed(s, p) is aload,
        s[p] == 0x36 ==> decode_fixed(s, p) is istore,
        s[p] == 0x37 ==> decode_fixed(s, p) is lstore,
        s[p] == 0x38 ==> decode_fixed(s, p) is fstore,
        s[p] == 0x39 ==> decode_fixed(s, p) is dstore,
        s[p] == 0x3a ==> decode_fixed(s, p) is astore,
        s[p] == 0x84 ==> decode_fixed(s, p) is iinc,
        s[p] == 0x99 ==> decode_fixed(s, p) is ifeq,
        s[p] == 0x9a ==> decode_fixed(s, p) is ifne,
        s[p] == 0x9b ==> decode_fixed(s, p) is iflt,
        s[p] == 0x9c ==> decode_fixed(s, p) is ifge,
        s[p] == 0x9d ==> decode_fixed(s, p) is ifgt,
        s[p] == 0x9e ==> decode_fixed(s, p) is ifle,
        s[p] == 0x9f ==> decode_fixed(s, p) is if_icmpeq,
        s[p] == 0xa0 ==> decode_fixed(s, p) is if_icmpne,
        s[p] == 0xa1 ==> decode_fixed(s, p) is if_icmplt,
        s[p] == 0xa2 ==> decode_fixed(s, p) is if_icmpge,
        s[p] == 0xa3 ==> decode_fixed(s, p) is if_icmpgt,
        s[p] == 0xa4 ==> decode_fixed(s, p) is if_icmple,
        s[p] == 0xa5 ==> decode_fixed(s, p) is if_acmpeq,
        s[p] == 0xa6 ==> decode_fixed(s, p) is if_acmpne,
        s[p] == 0xa7 ==> decode_fixed(s, p) is goto,
        s[p] == 0xa8 ==> decode_fixed(s, p) is jsr,
        s[p] == 0xa9 ==> decode_fixed(s, p) is ret,
        s[p] == 0xb2 ==> decode_fixed(s, p) is getstatic,
        s[p] == 0xb3 ==> decode_fixed(s, p) is putstatic,
        s[p] == 0xb4 ==> decode_fixed(s, p) is getfield,
        s[p] == 0xb5 ==> decode_fixed(s, p) is putfield,
        s[p] == 0xb6 ==> decode_fixed(s, p) is invokevirtual,
        s[p] == 0xb7 ==> decode_fixed(s, p) is invokespecial,
        s[p] == 0xb8 ==> decode_fixed(s, p) is invokestatic,
        s[p] == 0xb9 ==> decode_fixed(s, p) is invokeinterface,
        s[p] == 0xba ==> decode_fixed(s, p) is invokedynamic,
        s[p] == 0xbb ==> decode_fixed(s, p) is new,
        s[p] == 0xbc ==> decode_fixed(s, p) is newarray,
        s[p] == 0xbd ==> decode_fixed(s, p) is anewarray,
        s[p] == 0xc0 ==> decode_fixed(s, p) is checkcast,
        s[p] == 0xc1 ==> decode_fixed(s, p) is instanceof,
        s[p] == 0xc4 ==> (decode_fixed(s, p) is wide || decode_fixed(s, p) is wide_iinc),
        s[p] == 0xc5 ==> decode_fixed(s, p) is multianewarray,
        s[p] == 0xc6 ==> decode_fixed(s, p) is ifnull,
        s[p] == 0xc7 ==> decode_fixed(s, p) is ifnonnull,
        s[p] == 0xc8 ==> decode_fixed(s, p) is goto_w,
        s[p] == 0xc9 ==> decode_fixed(s, p) is jsr_w,
{
}

} // verus!
