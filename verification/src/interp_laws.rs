//! What the arithmetic, conversion, constant and local-variable instructions compute, stated
//! by the numbers they stand for rather than by the operations that carry them out.
use vstd::prelude::*;
use vstd::arithmetic::div_mod::{lemma_fundamental_div_mod, lemma_mod_multiples_basic, lemma_mod_pos_bound};
use crate::interp::{
    lookup_target, magnitude, off16, popped, pushed, spec_step, trunc_div, trunc_rem, StepAction,
    Value,
};
use crate::opcodes::Opcode;

verus! {

/// `2^32`: `int` arithmetic wraps around modulo this.
pub open spec fn int_modulus() -> int {
    0x1_0000_0000
}

/// `2^64`: `long` arithmetic wraps around modulo this.
pub open spec fn long_modulus() -> int {
    0x1_0000_0000_0000_0000
}

/// The `int` on top of the stack after the step `ins` on `st` with `a` and `b` pushed.
pub open spec fn int_result(st: Seq<Value>, loc: Seq<Value>, a: i32, b: i32, ins: Opcode) -> i32 {
    spec_step(st.push(Value::Int(a)).push(Value::Int(b)), loc, ins).0.last()->Int_0
}

/// The step `ins` on `st` with `a` and `b` pushed takes both off and leaves one `int`.
pub open spec fn leaves_one_int(st: Seq<Value>, loc: Seq<Value>, a: i32, b: i32, ins: Opcode) -> bool {
    spec_step(st.push(Value::Int(a)).push(Value::Int(b)), loc, ins) == (
        st.push(Value::Int(int_result(st, loc, a, b, ins))),
        loc,
        StepAction::Next,
    )
}

/// `x` and `y` are equal modulo `m`.
pub open spec fn congruent(x: int, y: int, m: int) -> bool {
    (x - y) % m == 0
}

proof fn lemma_crop_congruent(x: int, r: int, m: int)
    requires
        m > 0,
        r == x % m || r == x % m - m,
    ensures
        congruent(r, x, m),
{
    lemma_fundamental_div_mod(x, m);
    lemma_mod_multiples_basic(-(x / m), m);
    lemma_mod_multiples_basic(-(x / m) - 1, m);
    assert(x % m - x == (-(x / m)) * m) by (nonlinear_arith)
        requires
            x == m * (x / m) + (x % m),
    ;
    assert(x % m - m - x == (-(x / m) - 1) * m) by (nonlinear_arith)
        requires
            x == m * (x / m) + (x % m),
    ;
}

/// `iadd`, `isub`, `imul` and `ineg` give the sum, the difference, the product and the
/// negation of their operands wrapped around to 32 bits: the result is congruent to the
/// exact number modulo `2^32`. The operands leave the stack and the result takes their
/// place.
pub proof fn law_int_wrapping_arithmetic(st: Seq<Value>, loc: Seq<Value>, a: i32, b: i32)
    ensures
        leaves_one_int(st, loc, a, b, Opcode::iadd),
        leaves_one_int(st, loc, a, b, Opcode::isub),
        leaves_one_int(st, loc, a, b, Opcode::imul),
        congruent(int_result(st, loc, a, b, Opcode::iadd) as int, a + b, int_modulus()),
        congruent(int_result(st, loc, a, b, Opcode::isub) as int, a - b, int_modulus()),
        congruent(int_result(st, loc, a, b, Opcode::imul) as int, a * b, int_modulus()),
        spec_step(st.push(Value::Int(a)), loc, Opcode::ineg).1 == loc,
        spec_step(st.push(Value::Int(a)), loc, Opcode::ineg).2 == StepAction::Next,
        spec_step(st.push(Value::Int(a)), loc, Opcode::ineg).0.drop_last() == st,
        spec_step(st.push(Value::Int(a)), loc, Opcode::ineg).0.last() matches Value::Int(r)
            && congruent(r as int, -a, int_modulus()),
{
    let two = st.push(Value::Int(a)).push(Value::Int(b));
    assert(two.subrange(0, two.len() - 2) =~= st);
    let one = st.push(Value::Int(a));
    assert(one.subrange(0, one.len() - 1) =~= st);
    assert(spec_step(one, loc, Opcode::ineg).0 == st.push(Value::Int(0i32.wrapping_sub(a))));
    let m = int_modulus();
    let p = a * b;
    assert(congruent(a.wrapping_mul(b) as int, p, m)) by {
        lemma_crop_congruent(p, a.wrapping_mul(b) as int, m);
    }
    assert(congruent(a.wrapping_add(b) as int, a + b, m)) by {
        lemma_mod_multiples_basic(1, m);
        lemma_mod_multiples_basic(-1, m);
        lemma_mod_multiples_basic(0, m);
    }
    assert(congruent(a.wrapping_sub(b) as int, a - b, m)) by {
        lemma_mod_multiples_basic(1, m);
        lemma_mod_multiples_basic(-1, m);
        lemma_mod_multiples_basic(0, m);
    }
    assert(congruent(0i32.wrapping_sub(a) as int, -a, m)) by {
        lemma_mod_multiples_basic(1, m);
        lemma_mod_multiples_basic(-1, m);
        lemma_mod_multiples_basic(0, m);
    }
}

proof fn lemma_trunc_div_rem(a: int, b: int)
    requires
        b != 0,
    ensures
        a == trunc_div(a, b) * b + trunc_rem(a, b),
        magnitude(trunc_rem(a, b)) < magnitude(b),
        trunc_rem(a, b) == 0 || (trunc_rem(a, b) < 0) == (a < 0),
        magnitude(trunc_div(a, b)) <= magnitude(a),
        magnitude(b) >= 2 ==> 2 * magnitude(trunc_div(a, b)) <= magnitude(a),
{
    let m = magnitude(a);
    let n = magnitude(b);
    let q = m / n;
    let r = m % n;
    lemma_fundamental_div_mod(m, n);
    lemma_mod_pos_bound(m, n);
    assert(0 <= r < n);
    assert(0 <= q <= m) by (nonlinear_arith)
        requires
            m == n * q + r,
            0 <= r < n,
            n >= 1,
            m >= 0,
    ;
    if n >= 2 {
        assert(2 * q <= m) by (nonlinear_arith)
            requires
                m == n * q + r,
                0 <= r,
                n >= 2,
                q >= 0,
        ;
    }
    if a >= 0 && b > 0 {
        assert(a == q * b + r) by (nonlinear_arith)
            requires
                m == n * q + r,
                m == a,
                n == b,
        ;
    } else if a >= 0 && b < 0 {
        assert(a == (-q) * b + r) by (nonlinear_arith)
            requires
                m == n * q + r,
                m == a,
                n == -b,
        ;
    } else if a < 0 && b > 0 {
        assert(a == (-q) * b + (-r)) by (nonlinear_arith)
            requires
                m == n * q + r,
                m == -a,
                n == b,
        ;
    } else {
        assert(a == q * b + (-r)) by (nonlinear_arith)
            requires
                m == n * q + r,
                m == -a,
                n == -b,
        ;
    }
}

/// `idiv` and `irem` divide rounding toward zero: for a divisor `b` other than zero the
/// quotient `q` and remainder `r` satisfy `a == q * b + r`, `|r| < |b|`, and `r` is zero or
/// has the sign of `a` (which fixes both); dividing the least `int` by -1 overflows and
/// gives the dividend back, with remainder 0. A divisor of zero throws an
/// `ArithmeticException` and leaves the frame as it is.
pub proof fn law_int_division(st: Seq<Value>, loc: Seq<Value>, a: i32, b: i32)
    ensures
        b != 0 ==> leaves_one_int(st, loc, a, b, Opcode::idiv) && leaves_one_int(st, loc, a, b, Opcode::irem),
        b != 0 && !(a == i32::MIN && b == -1) ==> ({
            let q = int_result(st, loc, a, b, Opcode::idiv) as int;
            let r = int_result(st, loc, a, b, Opcode::irem) as int;
            &&& a == q * b + r
            &&& magnitude(r) < magnitude(b as int)
            &&& r == 0 || (r < 0) == (a < 0)
        }),
        a == i32::MIN && b == -1 ==> int_result(st, loc, a, b, Opcode::idiv) == a && int_result(
            st,
            loc,
            a,
            b,
            Opcode::irem,
        ) == 0,
        b == 0 ==> spec_step(st.push(Value::Int(a)).push(Value::Int(b)), loc, Opcode::idiv) == (
            st.push(Value::Int(a)).push(Value::Int(b)),
            loc,
            StepAction::ArithmeticException,
        ) && spec_step(st.push(Value::Int(a)).push(Value::Int(b)), loc, Opcode::irem) == (
            st.push(Value::Int(a)).push(Value::Int(b)),
            loc,
            StepAction::ArithmeticException,
        ),
{
    let two = st.push(Value::Int(a)).push(Value::Int(b));
    assert(two.subrange(0, two.len() - 2) =~= st);
    if b != 0 {
        lemma_trunc_div_rem(a as int, b as int);
        if b == -1 {
            assert(magnitude(a as int) % 1 == 0);
        }
    }
}

/// The stack `st` with the `long`s `a` and `b` pushed (each above its second slot).
pub open spec fn two_longs(st: Seq<Value>, a: i64, b: i64) -> Seq<Value> {
    pushed(pushed(st, Value::Long(a)), Value::Long(b))
}

/// The `long` on top of the stack after the step `ins` on `st` with `a` and `b` pushed.
pub open spec fn long_result(st: Seq<Value>, loc: Seq<Value>, a: i64, b: i64, ins: Opcode) -> i64 {
    spec_step(two_longs(st, a, b), loc, ins).0.last()->Long_0
}

/// The step `ins` on `st` with the `long`s `a` and `b` pushed takes both off and leaves one
/// `long`.
pub open spec fn leaves_one_long(st: Seq<Value>, loc: Seq<Value>, a: i64, b: i64, ins: Opcode) -> bool {
    spec_step(two_longs(st, a, b), loc, ins) == (
        pushed(st, Value::Long(long_result(st, loc, a, b, ins))),
        loc,
        StepAction::Next,
    )
}

/// `ladd`, `lsub` and `lmul` give the sum, the difference and the product of their operands
/// wrapped around to 64 bits; `ldiv` and `lrem` divide rounding toward zero, as `idiv` and
/// `irem` do, and throw an `ArithmeticException` on a divisor of zero.
pub proof fn law_long_arithmetic(st: Seq<Value>, loc: Seq<Value>, a: i64, b: i64)
    ensures
        leaves_one_long(st, loc, a, b, Opcode::ladd),
        leaves_one_long(st, loc, a, b, Opcode::lsub),
        leaves_one_long(st, loc, a, b, Opcode::lmul),
        congruent(long_result(st, loc, a, b, Opcode::ladd) as int, a + b, long_modulus()),
        congruent(long_result(st, loc, a, b, Opcode::lsub) as int, a - b, long_modulus()),
        congruent(long_result(st, loc, a, b, Opcode::lmul) as int, a * b, long_modulus()),
        b != 0 ==> leaves_one_long(st, loc, a, b, Opcode::ldiv) && leaves_one_long(st, loc, a, b, Opcode::lrem),
        b != 0 && !(a == i64::MIN && b == -1) ==> ({
            let q = long_result(st, loc, a, b, Opcode::ldiv) as int;
            let r = long_result(st, loc, a, b, Opcode::lrem) as int;
            &&& a == q * b + r
            &&& magnitude(r) < magnitude(b as int)
            &&& r == 0 || (r < 0) == (a < 0)
        }),
        a == i64::MIN && b == -1 ==> long_result(st, loc, a, b, Opcode::ldiv) == a && long_result(
            st,
            loc,
            a,
            b,
            Opcode::lrem,
        ) == 0,
        b == 0 ==> spec_step(two_longs(st, a, b), loc, Opcode::ldiv).2 == StepAction::ArithmeticException
            && spec_step(two_longs(st, a, b), loc, Opcode::lrem).2 == StepAction::ArithmeticException,
{
    let four = two_longs(st, a, b);
    assert(four.subrange(0, four.len() - 4) =~= st);
    let m = long_modulus();
    assert(congruent(a.wrapping_mul(b) as int, a * b, m)) by {
        lemma_crop_congruent(a * b, a.wrapping_mul(b) as int, m);
    }
    assert(congruent(a.wrapping_add(b) as int, a + b, m)) by {
        lemma_mod_multiples_basic(1, m);
        lemma_mod_multiples_basic(-1, m);
        lemma_mod_multiples_basic(0, m);
    }
    assert(congruent(a.wrapping_sub(b) as int, a - b, m)) by {
        lemma_mod_multiples_basic(1, m);
        lemma_mod_multiples_basic(-1, m);
        lemma_mod_multiples_basic(0, m);
    }
    if b != 0 {
        lemma_trunc_div_rem(a as int, b as int);
        if b == -1 {
            assert(magnitude(a as int) % 1 == 0);
        }
    }
}

/// `iand`, `ior` and `ixor` give the bitwise and, or and exclusive or of their operands,
/// and `land`, `lor` and `lxor` those of two `long`s.
pub proof fn law_bitwise(st: Seq<Value>, loc: Seq<Value>, a: i32, b: i32, x: i64, y: i64)
    ensures
        leaves_one_int(st, loc, a, b, Opcode::iand) && int_result(st, loc, a, b, Opcode::iand) == a & b,
        leaves_one_int(st, loc, a, b, Opcode::ior) && int_result(st, loc, a, b, Opcode::ior) == a | b,
        leaves_one_int(st, loc, a, b, Opcode::ixor) && int_result(st, loc, a, b, Opcode::ixor) == a ^ b,
        leaves_one_long(st, loc, x, y, Opcode::land) && long_result(st, loc, x, y, Opcode::land) == x & y,
        leaves_one_long(st, loc, x, y, Opcode::lor) && long_result(st, loc, x, y, Opcode::lor) == x | y,
        leaves_one_long(st, loc, x, y, Opcode::lxor) && long_result(st, loc, x, y, Opcode::lxor) == x ^ y,
{
    let two = st.push(Value::Int(a)).push(Value::Int(b));
    assert(two.subrange(0, two.len() - 2) =~= st);
    let four = two_longs(st, x, y);
    assert(four.subrange(0, four.len() - 4) =~= st);
}

/// The conversions: `i2l` widens an `int` to the `long` of the same value; `l2i` keeps the
/// low 32 bits of a `long`; `i2b`, `i2c` and `i2s` keep the low 8 or 16 bits of an `int`,
/// read as a byte (in `-128..=127`), a char (in `0..=65535`) or a short (in
/// `-32768..=32767`), so that a value already in that range is left as it is.
pub proof fn law_conversions(st: Seq<Value>, loc: Seq<Value>, a: i32, x: i64)
    ensures
        spec_step(st.push(Value::Int(a)), loc, Opcode::i2l) == (
            pushed(st, Value::Long(a as i64)),
            loc,
            StepAction::Next,
        ),
        spec_step(pushed(st, Value::Long(x)), loc, Opcode::l2i).2 == StepAction::Next,
        spec_step(pushed(st, Value::Long(x)), loc, Opcode::l2i).0.drop_last() == st,
        spec_step(pushed(st, Value::Long(x)), loc, Opcode::l2i).0.last() matches Value::Int(r) && (
        r as i64) & 0xffff_ffff == x & 0xffff_ffff,
        spec_step(st.push(Value::Int(a)), loc, Opcode::i2b).0.drop_last() == st,
        spec_step(st.push(Value::Int(a)), loc, Opcode::i2b).0.last() matches Value::Int(r) && -128
            <= r <= 127 && r & 0xff == a & 0xff && (-128 <= a <= 127 ==> r == a),
        spec_step(st.push(Value::Int(a)), loc, Opcode::i2c).0.drop_last() == st,
        spec_step(st.push(Value::Int(a)), loc, Opcode::i2c).0.last() matches Value::Int(r) && 0 <= r
            <= 65535 && r & 0xffff == a & 0xffff && (0 <= a <= 65535 ==> r == a),
        spec_step(st.push(Value::Int(a)), loc, Opcode::i2s).0.drop_last() == st,
        spec_step(st.push(Value::Int(a)), loc, Opcode::i2s).0.last() matches Value::Int(r) && -32768
            <= r <= 32767 && r & 0xffff == a & 0xffff && (-32768 <= a <= 32767 ==> r == a),
{
    let one = st.push(Value::Int(a));
    assert(one.subrange(0, one.len() - 1) =~= st);
    let two = pushed(st, Value::Long(x));
    assert(two.subrange(0, two.len() - 2) =~= st);
    assert(((x as i32) as i64) & 0xffff_ffff == x & 0xffff_ffff) by (bit_vector);
    assert(((a as i8) as i32) & 0xff == a & 0xff) by (bit_vector);
    assert(((a as u16) as i32) & 0xffff == a & 0xffff) by (bit_vector);
    assert(((a as i16) as i32) & 0xffff == a & 0xffff) by (bit_vector);
    assert(-128 <= a <= 127 ==> (a as i8) as i32 == a) by (bit_vector);
    assert(0 <= a <= 65535 ==> (a as u16) as i32 == a) by (bit_vector);
    assert(-32768 <= a <= 32767 ==> (a as i16) as i32 == a) by (bit_vector);
}

/// The constants: `iconst_m1` to `iconst_5` push the `int`s -1 to 5, `lconst_0` and
/// `lconst_1` the `long`s 0 and 1, `aconst_null` null; `bipush` and `sipush` push their
/// operand read as a signed byte or short.
pub proof fn law_constants(st: Seq<Value>, loc: Seq<Value>, v8: u8, v16: u16)
    ensures
        spec_step(st, loc, Opcode::iconst_m1) == (st.push(Value::Int(-1i32)), loc, StepAction::Next),
        spec_step(st, loc, Opcode::iconst_0) == (st.push(Value::Int(0)), loc, StepAction::Next),
        spec_step(st, loc, Opcode::iconst_1) == (st.push(Value::Int(1)), loc, StepAction::Next),
        spec_step(st, loc, Opcode::iconst_2) == (st.push(Value::Int(2)), loc, StepAction::Next),
        spec_step(st, loc, Opcode::iconst_3) == (st.push(Value::Int(3)), loc, StepAction::Next),
        spec_step(st, loc, Opcode::iconst_4) == (st.push(Value::Int(4)), loc, StepAction::Next),
        spec_step(st, loc, Opcode::iconst_5) == (st.push(Value::Int(5)), loc, StepAction::Next),
        spec_step(st, loc, Opcode::lconst_0) == (pushed(st, Value::Long(0)), loc, StepAction::Next),
        spec_step(st, loc, Opcode::lconst_1) == (pushed(st, Value::Long(1)), loc, StepAction::Next),
        spec_step(st, loc, Opcode::aconst_null) == (st.push(Value::Null), loc, StepAction::Next),
        spec_step(st, loc, Opcode::bipush { val: v8 }).0.drop_last() == st,
        spec_step(st, loc, Opcode::bipush { val: v8 }).0.last() matches Value::Int(r) && -128 <= r
            <= 127 && r & 0xff == (v8 as i32),
        spec_step(st, loc, Opcode::sipush { val: v16 }).0.drop_last() == st,
        spec_step(st, loc, Opcode::sipush { val: v16 }).0.last() matches Value::Int(r) && -32768
            <= r <= 32767 && r & 0xffff == (v16 as i32),
{
    assert(((v8 as i8) as i32) & 0xff == (v8 as i32)) by (bit_vector);
    assert(((v16 as i16) as i32) & 0xffff == (v16 as i32)) by (bit_vector);
}

/// The loads and stores of local variables: a load with an index pushes the variable of
/// that index (a `long` or `double` above its second slot), a store takes the top value
/// off and writes it to the variable; `<x>load_<n>` and `<x>store_<n>` are the same as the
/// load and the store with the index `n`, and `wide` forms with a 16-bit index do the same.
pub proof fn law_locals(st: Seq<Value>, loc: Seq<Value>, i: u8)
    requires
        (i as int) < loc.len(),
        st.len() >= 1,
    ensures
        spec_step(st, loc, Opcode::iload { index: i }) == (pushed(st, loc[i as int]), loc, StepAction::Next),
        spec_step(st, loc, Opcode::lload { index: i }) == spec_step(st, loc, Opcode::iload { index: i }),
        spec_step(st, loc, Opcode::fload { index: i }) == spec_step(st, loc, Opcode::iload { index: i }),
        spec_step(st, loc, Opcode::dload { index: i }) == spec_step(st, loc, Opcode::iload { index: i }),
        spec_step(st, loc, Opcode::aload { index: i }) == spec_step(st, loc, Opcode::iload { index: i }),
        spec_step(st, loc, Opcode::istore { index: i }) == (
            popped(st),
            loc.update(i as int, st.last()),
            StepAction::Next,
        ),
        spec_step(st, loc, Opcode::lstore { index: i }) == spec_step(st, loc, Opcode::istore { index: i }),
        spec_step(st, loc, Opcode::fstore { index: i }) == spec_step(st, loc, Opcode::istore { index: i }),
        spec_step(st, loc, Opcode::dstore { index: i }) == spec_step(st, loc, Opcode::istore { index: i }),
        spec_step(st, loc, Opcode::astore { index: i }) == spec_step(st, loc, Opcode::istore { index: i }),
        spec_step(st, loc, Opcode::wide { opcode: 0x15, index: i as u16 }) == spec_step(st, loc, Opcode::iload { index: i }),
        spec_step(st, loc, Opcode::wide { opcode: 0x19, index: i as u16 }) == spec_step(st, loc, Opcode::iload { index: i }),
        spec_step(st, loc, Opcode::wide { opcode: 0x36, index: i as u16 }) == spec_step(st, loc, Opcode::istore { index: i }),
        spec_step(st, loc, Opcode::wide { opcode: 0x3a, index: i as u16 }) == spec_step(st, loc, Opcode::istore { index: i }),
        i == 0 ==> spec_step(st, loc, Opcode::iload_0) == spec_step(st, loc, Opcode::iload { index: i })
            && spec_step(st, loc, Opcode::lload_0) == spec_step(st, loc, Opcode::iload { index: i })
            && spec_step(st, loc, Opcode::fload_0) == spec_step(st, loc, Opcode::iload { index: i })
            && spec_step(st, loc, Opcode::dload_0) == spec_step(st, loc, Opcode::iload { index: i })
            && spec_step(st, loc, Opcode::aload_0) == spec_step(st, loc, Opcode::iload { index: i })
            && spec_step(st, loc, Opcode::istore_0) == spec_step(st, loc, Opcode::istore { index: i })
            && spec_step(st, loc, Opcode::lstore_0) == spec_step(st, loc, Opcode::istore { index: i })
            && spec_step(st, loc, Opcode::fstore_0) == spec_step(st, loc, Opcode::istore { index: i })
            && spec_step(st, loc, Opcode::dstore_0) == spec_step(st, loc, Opcode::istore { index: i })
            && spec_step(st, loc, Opcode::astore_0) == spec_step(st, loc, Opcode::istore { index: i }),
        i == 1 ==> spec_step(st, loc, Opcode::iload_1) == spec_step(st, loc, Opcode::iload { index: i })
            && spec_step(st, loc, Opcode::lload_1) == spec_step(st, loc, Opcode::iload { index: i })
            && spec_step(st, loc, Opcode::fload_1) == spec_step(st, loc, Opcode::iload { index: i })
            && spec_step(st, loc, Opcode::dload_1) == spec_step(st, loc, Opcode::iload { index: i })
            && spec_step(st, loc, Opcode::aload_1) == spec_step(st, loc, Opcode::iload { index: i })
            && spec_step(st, loc, Opcode::istore_1) == spec_step(st, loc, Opcode::istore { index: i })
            && spec_step(st, loc, Opcode::lstore_1) == spec_step(st, loc, Opcode::istore { index: i })
            && spec_step(st, loc, Opcode::fstore_1) == spec_step(st, loc, Opcode::istore { index: i })
            && spec_step(st, loc, Opcode::dstore_1) == spec_step(st, loc, Opcode::istore { index: i })
            && spec_step(st, loc, Opcode::astore_1) == spec_step(st, loc, Opcode::istore { index: i }),
        i == 2 ==> spec_step(st, loc, Opcode::iload_2) == spec_step(st, loc, Opcode::iload { index: i })
            && spec_step(st, loc, Opcode::lload_2) == spec_step(st, loc, Opcode::iload { index: i })
            && spec_step(st, loc, Opcode::fload_2) == spec_step(st, loc, Opcode::iload { index: i })
            && spec_step(st, loc, Opcode::dload_2) == spec_step(st, loc, Opcode::iload { index: i })
            && spec_step(st, loc, Opcode::aload_2) == spec_step(st, loc, Opcode::iload { index: i })
            && spec_step(st, loc, Opcode::istore_2) == spec_step(st, loc, Opcode::istore { index: i })
            && spec_step(st, loc, Opcode::lstore_2) == spec_step(st, loc, Opcode::istore { index: i })
            && spec_step(st, loc, Opcode::fstore_2) == spec_step(st, loc, Opcode::istore { index: i })
            && spec_step(st, loc, Opcode::dstore_2) == spec_step(st, loc, Opcode::istore { index: i })
            && spec_step(st, loc, Opcode::astore_2) == spec_step(st, loc, Opcode::istore { index: i }),
        i == 3 ==> spec_step(st, loc, Opcode::iload_3) == spec_step(st, loc, Opcode::iload { index: i })
            && spec_step(st, loc, Opcode::lload_3) == spec_step(st, loc, Opcode::iload { index: i })
            && spec_step(st, loc, Opcode::fload_3) == spec_step(st, loc, Opcode::iload { index: i })
            && spec_step(st, loc, Opcode::dload_3) == spec_step(st, loc, Opcode::iload { index: i })
            && spec_step(st, loc, Opcode::aload_3) == spec_step(st, loc, Opcode::iload { index: i })
            && spec_step(st, loc, Opcode::istore_3) == spec_step(st, loc, Opcode::istore { index: i })
            && spec_step(st, loc, Opcode::lstore_3) == spec_step(st, loc, Opcode::istore { index: i })
            && spec_step(st, loc, Opcode::fstore_3) == spec_step(st, loc, Opcode::istore { index: i })
            && spec_step(st, loc, Opcode::dstore_3) == spec_step(st, loc, Opcode::istore { index: i })
            && spec_step(st, loc, Opcode::astore_3) == spec_step(st, loc, Opcode::istore { index: i }),
{
}

/// The stack shuffles, on the values `w`, `x`, `y`, `z` on top of the stack (`z` on top):
/// `pop` and `pop2` take off one and two slots, `dup` copies the top, `dup_x1` and `dup_x2`
/// copy it below the second and the third, `dup2` copies the top two, `dup2_x1` and
/// `dup2_x2` copy them below the third and the fourth, and `swap` exchanges the top two.
pub proof fn law_stack_shuffles(st: Seq<Value>, loc: Seq<Value>, w: Value, x: Value, y: Value, z: Value)
    ensures
        spec_step(st.push(z), loc, Opcode::pop) == (st, loc, StepAction::Next),
        spec_step(st.push(y).push(z), loc, Opcode::pop2) == (st, loc, StepAction::Next),
        spec_step(st.push(z), loc, Opcode::dup) == (st.push(z).push(z), loc, StepAction::Next),
        spec_step(st.push(y).push(z), loc, Opcode::dup_x1) == (st.push(z).push(y).push(z), loc, StepAction::Next),
        spec_step(st.push(x).push(y).push(z), loc, Opcode::dup_x2) == (
            st.push(z).push(x).push(y).push(z),
            loc,
            StepAction::Next,
        ),
        spec_step(st.push(y).push(z), loc, Opcode::dup2) == (
            st.push(y).push(z).push(y).push(z),
            loc,
            StepAction::Next,
        ),
        spec_step(st.push(x).push(y).push(z), loc, Opcode::dup2_x1) == (
            st.push(y).push(z).push(x).push(y).push(z),
            loc,
            StepAction::Next,
        ),
        spec_step(st.push(w).push(x).push(y).push(z), loc, Opcode::dup2_x2) == (
            st.push(y).push(z).push(w).push(x).push(y).push(z),
            loc,
            StepAction::Next,
        ),
        spec_step(st.push(y).push(z), loc, Opcode::swap) == (st.push(z).push(y), loc, StepAction::Next),
{
    assert(spec_step(st.push(z), loc, Opcode::pop).0 =~= st);
    assert(spec_step(st.push(y).push(z), loc, Opcode::pop2).0 =~= st);
    assert(spec_step(st.push(y).push(z), loc, Opcode::dup_x1).0 =~= st.push(z).push(y).push(z));
    assert(spec_step(st.push(x).push(y).push(z), loc, Opcode::dup_x2).0 =~= st.push(z).push(x).push(y).push(z));
    assert(spec_step(st.push(y).push(z), loc, Opcode::dup2).0 =~= st.push(y).push(z).push(y).push(z));
    assert(spec_step(st.push(x).push(y).push(z), loc, Opcode::dup2_x1).0 =~= st.push(y).push(z).push(x).push(y).push(z));
    assert(spec_step(st.push(w).push(x).push(y).push(z), loc, Opcode::dup2_x2).0 =~= st.push(y).push(z).push(w).push(x).push(y).push(z));
    assert(spec_step(st.push(y).push(z), loc, Opcode::swap).0 =~= st.push(z).push(y));
}

/// The returns: `ireturn`, `lreturn`, `freturn`, `dreturn` and `areturn` leave the method
/// with the value on top of the stack, `return` without a value; `goto` and `goto_w`
/// branch by their offset.
pub proof fn law_returns_and_jumps(st: Seq<Value>, loc: Seq<Value>, v: Value, off: i16, off_w: i32)
    ensures
        spec_step(pushed(st, v), loc, Opcode::ireturn) == (st, loc, StepAction::Return(Some(v))),
        spec_step(pushed(st, v), loc, Opcode::lreturn) == (st, loc, StepAction::Return(Some(v))),
        spec_step(pushed(st, v), loc, Opcode::freturn) == (st, loc, StepAction::Return(Some(v))),
        spec_step(pushed(st, v), loc, Opcode::dreturn) == (st, loc, StepAction::Return(Some(v))),
        spec_step(pushed(st, v), loc, Opcode::areturn) == (st, loc, StepAction::Return(Some(v))),
        spec_step(st, loc, Opcode::return_) == (st, loc, StepAction::Return(None)),
        spec_step(st, loc, Opcode::goto { branch: off }) == (st, loc, StepAction::Branch(off as i32)),
        spec_step(st, loc, Opcode::goto_w { branch: off_w }) == (st, loc, StepAction::Branch(off_w)),
{
    assert(popped(pushed(st, v)) =~= st);
}

/// `iinc` adds its constant to an `int` local variable, wrapping around to 32 bits, and
/// leaves the stack as it is.
pub proof fn law_iinc(st: Seq<Value>, loc: Seq<Value>, i: u8, c: i8)
    requires
        (i as int) < loc.len(),
        loc[i as int] is Int,
    ensures
        spec_step(st, loc, Opcode::iinc { index: i, const_: c }).0 == st,
        spec_step(st, loc, Opcode::iinc { index: i, const_: c }).2 == StepAction::Next,
        spec_step(st, loc, Opcode::iinc { index: i, const_: c }).1.len() == loc.len(),
        forall|k: int| 0 <= k < loc.len() && k != i ==> spec_step(st, loc, Opcode::iinc { index: i, const_: c }).1[k] == loc[k],
        spec_step(st, loc, Opcode::iinc { index: i, const_: c }).1[i as int] matches Value::Int(r)
            && congruent(r as int, loc[i as int]->Int_0 + c, int_modulus()),
{
    let m = int_modulus();
    let a = loc[i as int]->Int_0;
    assert(congruent(a.wrapping_add(c as i32) as int, a + c, m)) by {
        lemma_mod_multiples_basic(1, m);
        lemma_mod_multiples_basic(-1, m);
        lemma_mod_multiples_basic(0, m);
    }
}

/// `lcmp` compares two `long`s: it leaves -1 when the first is less than the second, 0 when
/// they are equal and 1 when it is greater.
pub proof fn law_long_comparison(st: Seq<Value>, loc: Seq<Value>, a: i64, b: i64)
    ensures
        spec_step(two_longs(st, a, b), loc, Opcode::lcmp) == (
            st.push(Value::Int(if a < b {
                -1i32
            } else if a == b {
                0i32
            } else {
                1i32
            })),
            loc,
            StepAction::Next,
        ),
{
    let four = two_longs(st, a, b);
    assert(four.subrange(0, four.len() - 4) =~= st);
}

/// The offset that a `lookupswitch` jumps by is that of the first pair whose match is the
/// key, or the default where none is.
proof fn lemma_lookup_target(st: Seq<Value>, loc: Seq<Value>, key: i32, default: i32, pairs: Seq<(i32, i32)>)
    ensures
        (exists|k: int| 0 <= k < pairs.len() && pairs[k].0 == key) ==> exists|k: int|
            0 <= k < pairs.len() && pairs[k].0 == key && (forall|j: int| 0 <= j < k ==> pairs[j].0 != key)
                && lookup_target(key, default, pairs) == pairs[k].1,
        (forall|k: int| 0 <= k < pairs.len() ==> pairs[k].0 != key) ==> lookup_target(key, default, pairs)
            == default,
    decreases pairs.len(),
{
    if pairs.len() > 0 {
        let t = pairs.drop_first();
        lemma_lookup_target(st, loc, key, default, t);
        if pairs[0].0 != key {
            if exists|k: int| 0 <= k < pairs.len() && pairs[k].0 == key {
                let k = choose|k: int| 0 <= k < pairs.len() && pairs[k].0 == key;
                assert(t[k - 1].0 == key);
                let k2 = choose|k2: int| 0 <= k2 < t.len() && t[k2].0 == key && (forall|j: int| 0 <= j < k2 ==> t[j].0 != key)
                    && lookup_target(key, default, t) == t[k2].1;
                assert forall|j: int| 0 <= j < k2 + 1 implies pairs[j].0 != key by {
                    if j > 0 {
                        assert(pairs[j] == t[j - 1]);
                    }
                }
                assert(pairs[k2 + 1] == t[k2]);
            }
            if forall|k: int| 0 <= k < pairs.len() ==> pairs[k].0 != key {
                assert forall|k: int| 0 <= k < t.len() implies t[k].0 != key by {
                    assert(t[k] == pairs[k + 1]);
                }
            }
        }
    }
}

/// `lookupswitch` takes its key off the stack and branches by the offset of the first pair
/// whose match is the key, or by its default offset where no pair matches; `tableswitch`
/// takes its index off the stack and branches by the offset at `index - low` where the
/// index lies in `low..=high`, else by its default offset.
pub proof fn law_switches(
    st: Seq<Value>,
    loc: Seq<Value>,
    key: i32,
    default: i32,
    pairs: Vec<(i32, i32)>,
    low: i32,
    high: i32,
    offsets: Vec<i32>,
    padding: u8,
)
    ensures
        ({
            let r = spec_step(
                st.push(Value::Int(key)),
                loc,
                Opcode::lookupswitch { default, match_offset_pairs: pairs, padding },
            );
            &&& r.0 == st
            &&& r.1 == loc
            &&& (exists|k: int| 0 <= k < pairs@.len() && pairs@[k].0 == key) ==> exists|k: int|
                0 <= k < pairs@.len() && pairs@[k].0 == key && (forall|j: int|
                    0 <= j < k ==> pairs@[j].0 != key) && r.2 == StepAction::Branch(pairs@[k].1)
            &&& (forall|k: int| 0 <= k < pairs@.len() ==> pairs@[k].0 != key) ==> r.2
                == StepAction::Branch(default)
        }),
        ({
            let r = spec_step(
                st.push(Value::Int(key)),
                loc,
                Opcode::tableswitch { default, low, high, jump_offsets: offsets, padding },
            );
            &&& r.0 == st
            &&& r.1 == loc
            &&& low <= key <= high ==> r.2 == StepAction::Branch(offsets@[key - low])
            &&& !(low <= key <= high) ==> r.2 == StepAction::Branch(default)
        }),
{
    lemma_lookup_target(st, loc, key, default, pairs@);
    let one = st.push(Value::Int(key));
    assert(one.subrange(0, one.len() - 1) =~= st);
}

/// The shifts of an `int` by the low five bits of the count: a count and its low five bits
/// shift alike, a count of 0 leaves the value as it is, a count of `s + 1` shifts by `s`
/// and then by one more bit, and a shift by one bit doubles the value, wrapping around to
/// 32 bits (`ishl`), halves it rounding down (`ishr`), or halves the value read as an
/// unsigned 32-bit number (`iushr`, which shifts in a zero bit).
pub proof fn law_int_shifts(st: Seq<Value>, loc: Seq<Value>, a: i32, b: i32, s: i32)
    requires
        0 <= s < 31,
    ensures
        leaves_one_int(st, loc, a, b, Opcode::ishl),
        leaves_one_int(st, loc, a, b, Opcode::ishr),
        leaves_one_int(st, loc, a, b, Opcode::iushr),
        int_result(st, loc, a, b, Opcode::ishl) == int_result(st, loc, a, b & 31, Opcode::ishl),
        int_result(st, loc, a, b, Opcode::ishr) == int_result(st, loc, a, b & 31, Opcode::ishr),
        int_result(st, loc, a, b, Opcode::iushr) == int_result(st, loc, a, b & 31, Opcode::iushr),
        int_result(st, loc, a, 0, Opcode::ishl) == a,
        int_result(st, loc, a, 0, Opcode::ishr) == a,
        int_result(st, loc, a, 0, Opcode::iushr) == a,
        int_result(st, loc, a, (s + 1) as i32, Opcode::ishl) == int_result(
            st,
            loc,
            int_result(st, loc, a, s, Opcode::ishl),
            1,
            Opcode::ishl,
        ),
        int_result(st, loc, a, (s + 1) as i32, Opcode::ishr) == int_result(
            st,
            loc,
            int_result(st, loc, a, s, Opcode::ishr),
            1,
            Opcode::ishr,
        ),
        int_result(st, loc, a, (s + 1) as i32, Opcode::iushr) == int_result(
            st,
            loc,
            int_result(st, loc, a, s, Opcode::iushr),
            1,
            Opcode::iushr,
        ),
        congruent(int_result(st, loc, a, 1, Opcode::ishl) as int, 2 * a, int_modulus()),
        int_result(st, loc, a, 1, Opcode::ishr) == a / 2,
        int_result(st, loc, a, 1, Opcode::iushr) == if a < 0 {
            a / 2 + 0x8000_0000
        } else {
            a / 2
        },
{
    let two = st.push(Value::Int(a)).push(Value::Int(b));
    assert(two.subrange(0, two.len() - 2) =~= st);
    let u = s as u32;
    assert((((b & 31) as u32) % 32 == (b as u32) % 32) && (a << (0u32 % 32)) == a && (a >> (0u32 % 32)) == a
        && (((a as u32) >> (0u32 % 32)) as i32) == a && (a << ((u + 1) % 32)) == ((a << (u % 32)) << (
    1u32 % 32)) && (a >> ((u + 1) % 32)) == ((a >> (u % 32)) >> (1u32 % 32)) && ((a as u32) >> ((u
        + 1) % 32)) as i32 == (((((a as u32) >> (u % 32)) as i32) as u32) >> (1u32 % 32)) as i32 && (
    a >> (1u32 % 32)) == a / 2 && (a >= 0 ==> ((a as u32) >> (1u32 % 32)) as i32 == a / 2) && (a
        < 0 ==> ((a as u32) >> (1u32 % 32)) as i32 == a / 2 + 0x8000_0000) && (-0x4000_0000 <= a
        < 0x4000_0000 ==> (a << (1u32 % 32)) == a * 2) && (0x4000_0000 <= a ==> (a << (1u32 % 32))
        == a * 2 - 0x1_0000_0000) && (a < -0x4000_0000 ==> (a << (1u32 % 32)) == a * 2
        + 0x1_0000_0000)) by (bit_vector)
        requires
            0 <= u < 31,
    ;
    let m = int_modulus();
    assert(congruent(int_result(st, loc, a, 1, Opcode::ishl) as int, 2 * a, m)) by {
        lemma_mod_multiples_basic(1, m);
        lemma_mod_multiples_basic(-1, m);
        lemma_mod_multiples_basic(0, m);
    }
    for_shifted(st, loc, a, s);
    for_shifted(st, loc, a, b);
}

/// The step of a shift on `st` with `a` and `b` pushed leaves one `int`.
proof fn for_shifted(st: Seq<Value>, loc: Seq<Value>, a: i32, b: i32)
    ensures
        leaves_one_int(st, loc, a, b, Opcode::ishl),
        leaves_one_int(st, loc, a, b, Opcode::ishr),
        leaves_one_int(st, loc, a, b, Opcode::iushr),
{
    let two = st.push(Value::Int(a)).push(Value::Int(b));
    assert(two.subrange(0, two.len() - 2) =~= st);
}

/// The `long` on top of the stack after the shift `ins` of the `long` `a` by the count `b`.
pub open spec fn long_shift_result(st: Seq<Value>, loc: Seq<Value>, a: i64, b: i32, ins: Opcode) -> i64 {
    spec_step(pushed(st, Value::Long(a)).push(Value::Int(b)), loc, ins).0.last()->Long_0
}

/// The shift `ins` of the `long` `a` by `b` takes both off and leaves one `long`.
pub open spec fn leaves_shifted_long(st: Seq<Value>, loc: Seq<Value>, a: i64, b: i32, ins: Opcode) -> bool {
    spec_step(pushed(st, Value::Long(a)).push(Value::Int(b)), loc, ins) == (
        pushed(st, Value::Long(long_shift_result(st, loc, a, b, ins))),
        loc,
        StepAction::Next,
    )
}

proof fn lemma_long_shift_shape(st: Seq<Value>, loc: Seq<Value>, a: i64, b: i32)
    ensures
        leaves_shifted_long(st, loc, a, b, Opcode::lshl),
        leaves_shifted_long(st, loc, a, b, Opcode::lshr),
        leaves_shifted_long(st, loc, a, b, Opcode::lushr),
{
    let three = pushed(st, Value::Long(a)).push(Value::Int(b));
    assert(three.subrange(0, three.len() - 3) =~= st);
}

/// The shifts of a `long` by the low six bits of the count, as those of an `int` by five:
/// a count and its low six bits shift alike, a count of 0 leaves the value, a count of
/// `s + 1` shifts by `s` and then by one more bit, and a shift by one bit doubles the value
/// wrapping around to 64 bits (`lshl`), halves it rounding down (`lshr`), or halves the
/// value read as an unsigned 64-bit number (`lushr`).
pub proof fn law_long_shifts(st: Seq<Value>, loc: Seq<Value>, a: i64, b: i32, s: i32)
    requires
        0 <= s < 63,
    ensures
        leaves_shifted_long(st, loc, a, b, Opcode::lshl),
        leaves_shifted_long(st, loc, a, b, Opcode::lshr),
        leaves_shifted_long(st, loc, a, b, Opcode::lushr),
        long_shift_result(st, loc, a, b, Opcode::lshl) == long_shift_result(st, loc, a, b & 63, Opcode::lshl),
        long_shift_result(st, loc, a, b, Opcode::lshr) == long_shift_result(st, loc, a, b & 63, Opcode::lshr),
        long_shift_result(st, loc, a, b, Opcode::lushr) == long_shift_result(st, loc, a, b & 63, Opcode::lushr),
        long_shift_result(st, loc, a, 0, Opcode::lshl) == a,
        long_shift_result(st, loc, a, 0, Opcode::lshr) == a,
        long_shift_result(st, loc, a, 0, Opcode::lushr) == a,
        long_shift_result(st, loc, a, (s + 1) as i32, Opcode::lshl) == long_shift_result(
            st,
            loc,
            long_shift_result(st, loc, a, s, Opcode::lshl),
            1,
            Opcode::lshl,
        ),
        long_shift_result(st, loc, a, (s + 1) as i32, Opcode::lshr) == long_shift_result(
            st,
            loc,
            long_shift_result(st, loc, a, s, Opcode::lshr),
            1,
            Opcode::lshr,
        ),
        long_shift_result(st, loc, a, (s + 1) as i32, Opcode::lushr) == long_shift_result(
            st,
            loc,
            long_shift_result(st, loc, a, s, Opcode::lushr),
            1,
            Opcode::lushr,
        ),
        congruent(long_shift_result(st, loc, a, 1, Opcode::lshl) as int, 2 * a, long_modulus()),
        long_shift_result(st, loc, a, 1, Opcode::lshr) == a / 2,
        long_shift_result(st, loc, a, 1, Opcode::lushr) == if a < 0 {
            a / 2 + 0x8000_0000_0000_0000
        } else {
            a / 2
        },
{
    lemma_long_shift_shape(st, loc, a, b);
    lemma_long_shift_shape(st, loc, a, (b & 63) as i32);
    lemma_long_shift_shape(st, loc, a, 0);
    lemma_long_shift_shape(st, loc, a, 1);
    lemma_long_shift_shape(st, loc, a, s);
    lemma_long_shift_shape(st, loc, a, (s + 1) as i32);
    let u = s as u32;
    assert((((b & 63) as u32) % 64 == (b as u32) % 64) && (a << (0u32 % 64)) == a && (a >> (0u32
        % 64)) == a && (((a as u64) >> (0u32 % 64)) as i64) == a && (a << ((u + 1) % 64)) == ((a << (
    u % 64)) << (1u32 % 64)) && (a >> ((u + 1) % 64)) == ((a >> (u % 64)) >> (1u32 % 64)) && ((a
        as u64) >> ((u + 1) % 64)) as i64 == (((((a as u64) >> (u % 64)) as i64) as u64) >> (1u32
        % 64)) as i64 && (a >> (1u32 % 64)) == a / 2 && (a >= 0 ==> ((a as u64) >> (1u32 % 64)) as i64
        == a / 2) && (a < 0 ==> ((a as u64) >> (1u32 % 64)) as i64 == a / 2 + 0x8000_0000_0000_0000)
        && (-0x4000_0000_0000_0000 <= a < 0x4000_0000_0000_0000 ==> (a << (1u32 % 64)) == a * 2) && (
    0x4000_0000_0000_0000 <= a ==> (a << (1u32 % 64)) == a * 2 - 0x1_0000_0000_0000_0000) && (a
        < -0x4000_0000_0000_0000 ==> (a << (1u32 % 64)) == a * 2 + 0x1_0000_0000_0000_0000)) by (bit_vector)
        requires
            0 <= u < 63,
    ;
    let m = long_modulus();
    assert(congruent(long_shift_result(st, loc, a, 1, Opcode::lshl) as int, 2 * a, m)) by {
        lemma_mod_multiples_basic(1, m);
        lemma_mod_multiples_basic(-1, m);
        lemma_mod_multiples_basic(0, m);
    }
}

} // verus!
