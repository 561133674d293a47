//! Decoding instructions from a class file and encoding them back into bytes.
use vstd::prelude::*;
use crate::bytes::{
    be32_i32, count_i32, i32_bytes, i32s_bytes, lemma_i16_at, lemma_i32_at, lemma_i32s_at,
    lemma_pairs_at, lemma_pairs_bytes_len, pairs_bytes,
    lemma_i32s_bytes_len, lemma_i8_at, lemma_u16_at, push_i16, push_i32, push_i32s, push_i8,
    push_count, push_pairs, push_u16, push_zeros, to_i16, to_i32, to_i8, zeros,
};
use crate::opcodes::{opcode_args, opcode_byte, opcode_end, opcode_is, Opcode};
use crate::reader::JavaClassReader;
use crate::switch_layout::{
    lookup_count, lookup_len, padding_for, switch_operands, switch_padding, table_count, table_len,
};

verus! {

/// A method body that begins at `method_start` leaves room to align the operands of a switch
/// at `pos`: the padding is counted from `method_start` to the position after the opcode
/// byte, which must not come before it.
pub open spec fn switch_start_ok(s: Seq<u8>, pos: int, method_start: u32) -> bool {
    (0 <= pos < s.len() && (s[pos] == 0xaau8 || s[pos] == 0xabu8)) ==> method_start <= pos + 1
}

/// Skips the padding before the operands of a switch whose opcode byte was just read.
fn skip_padding(r: &mut JavaClassReader, method_start: u32) -> (ok: bool)
    requires
        old(r).valid(),
        1 <= old(r).pos(),
        method_start <= old(r).pos(),
    ensures
        final(r).valid(),
        final(r).bytes() == old(r).bytes(),
        ok == (old(r).pos() + switch_padding(old(r).pos() - 1, method_start) <= old(r).bytes().len()),
        ok ==> final(r).pos() == old(r).pos() + switch_padding(old(r).pos() - 1, method_start),
        !ok ==> final(r).pos() == old(r).bytes().len(),
{
    let padding = padding_for(r.dist(), method_start);
    let ghost p0 = r.pos();
    let mut k: u8 = 0;
    while k < padding
        invariant
            r.valid(),
            r.bytes() == old(r).bytes(),
            p0 == old(r).pos(),
            padding == switch_padding(p0 - 1, method_start),
            k <= padding,
            r.pos() == p0 + k,
        decreases padding - k,
    {
        if r.next8().is_err() {
            return false;
        }
        k = k + 1;
    }
    true
}

/// Reads the operands of a `tableswitch` whose opcode byte was just read.
fn read_tableswitch(r: &mut JavaClassReader, method_start: u32) -> (res: Option<Opcode>)
    requires
        old(r).valid(),
        1 <= old(r).pos(),
        method_start <= old(r).pos(),
        old(r).bytes()[old(r).pos() - 1] == 0xaau8,
    ensures
        final(r).valid(),
        final(r).bytes() == old(r).bytes(),
        match res {
            Some(op) => opcode_end(old(r).bytes(), old(r).pos() - 1, method_start) == Some(
                final(r).pos(),
            ) && opcode_is(old(r).bytes(), old(r).pos() - 1, method_start, op),
            None => opcode_end(old(r).bytes(), old(r).pos() - 1, method_start) is None
                && final(r).pos() == old(r).bytes().len(),
        },
{
    let ghost s = r.bytes();
    let ghost pos = r.pos() - 1;
    let ghost h = switch_operands(pos, method_start);
    let padding = padding_for(r.dist(), method_start);
    if !skip_padding(r, method_start) {
        return None;
    }
    let default = to_i32(r.next32().ok()?);
    let low = to_i32(r.next32().ok()?);
    let high = to_i32(r.next32().ok()?);
    let n = table_len(low, high);
    assert(n == table_count(s, h));
    let mut jump_offsets: Vec<i32> = Vec::new();
    let mut i: i64 = 0;
    while i < n
        invariant
            r.valid(),
            r.bytes() == s,
            s == old(r).bytes(),
            pos == old(r).pos() - 1,
            s[pos] == 0xaau8,
            h == switch_operands(pos, method_start),
            0 <= pos,
            h + 12 <= s.len(),
            n == table_count(s, h),
            0 <= i <= n,
            r.pos() == h + 12 + 4 * i,
            jump_offsets@.len() == i,
            forall|j: int| 0 <= j < i ==> #[trigger] jump_offsets@[j] == be32_i32(s, h + 12 + 4 * j),
        decreases n - i,
    {
        let v = to_i32(r.next32().ok()?);
        jump_offsets.push(v);
        i = i + 1;
    }
    Some(Opcode::tableswitch { default, low, high, jump_offsets, padding })
}

/// Reads the operands of a `lookupswitch` whose opcode byte was just read.
fn read_lookupswitch(r: &mut JavaClassReader, method_start: u32) -> (res: Option<Opcode>)
    requires
        old(r).valid(),
        1 <= old(r).pos(),
        method_start <= old(r).pos(),
        old(r).bytes()[old(r).pos() - 1] == 0xabu8,
    ensures
        final(r).valid(),
        final(r).bytes() == old(r).bytes(),
        match res {
            Some(op) => opcode_end(old(r).bytes(), old(r).pos() - 1, method_start) == Some(
                final(r).pos(),
            ) && opcode_is(old(r).bytes(), old(r).pos() - 1, method_start, op),
            None => opcode_end(old(r).bytes(), old(r).pos() - 1, method_start) is None
                && final(r).pos() == old(r).bytes().len(),
        },
{
    let ghost s = r.bytes();
    let ghost pos = r.pos() - 1;
    let ghost h = switch_operands(pos, method_start);
    let padding = padding_for(r.dist(), method_start);
    if !skip_padding(r, method_start) {
        return None;
    }
    let default = to_i32(r.next32().ok()?);
    let npairs = to_i32(r.next32().ok()?);
    let n = lookup_len(npairs);
    assert(n == lookup_count(s, h));
    let mut offsets: Vec<(i32, i32)> = Vec::new();
    let mut i: i64 = 0;
    while i < n
        invariant
            r.valid(),
            r.bytes() == s,
            s == old(r).bytes(),
            pos == old(r).pos() - 1,
            s[pos] == 0xabu8,
            h == switch_operands(pos, method_start),
            0 <= pos,
            h + 8 <= s.len(),
            n == lookup_count(s, h),
            0 <= i <= n,
            r.pos() == h + 8 + 8 * i,
            offsets@.len() == i,
            forall|j: int|
                0 <= j < i ==> #[trigger] offsets@[j] == (
                    be32_i32(s, h + 8 + 8 * j),
                    be32_i32(s, h + 12 + 8 * j),
                ),
        decreases n - i,
    {
        let a = to_i32(r.next32().ok()?);
        let b = to_i32(r.next32().ok()?);
        offsets.push((a, b));
        i = i + 1;
    }
    Some(Opcode::lookupswitch { default, match_offset_pairs: offsets, padding })
}

/// Reads in a single opcode from a `JavaClassReader` and returns the read-in Opcode.
/// Should never fail with a well-formed Java 8 class file.
/// `method_start` is where the method body began; switches align their operands to it.
#[verifier::rlimit(100)]
pub fn to_opcode(r: &mut JavaClassReader, method_start: u32) -> (res: Option<Opcode>)
    requires
        old(r).valid(),
        switch_start_ok(old(r).bytes(), old(r).pos(), method_start),
    ensures
        final(r).valid(),
        final(r).bytes() == old(r).bytes(),
        match res {
            Some(op) => opcode_end(old(r).bytes(), old(r).pos(), method_start) == Some(
                final(r).pos(),
            ) && opcode_is(old(r).bytes(), old(r).pos(), method_start, op),
            None => opcode_end(old(r).bytes(), old(r).pos(), method_start) is None
                && final(r).pos() == old(r).bytes().len(),
        },
{
    let bytecode = r.next8().ok()?;
    let ans = match bytecode {
        0x00 => Opcode::nop,
        0x01 => Opcode::aconst_null,
        0x02 => Opcode::iconst_m1,
        0x03 => Opcode::iconst_0,
        0x04 => Opcode::iconst_1,
        0x05 => Opcode::iconst_2,
        0x06 => Opcode::iconst_3,
        0x07 => Opcode::iconst_4,
        0x08 => Opcode::iconst_5,
        0x09 => Opcode::lconst_0,
        0x0a => Opcode::lconst_1,
        0x0b => Opcode::fconst_0,
        0x0c => Opcode::fconst_1,
        0x0d => Opcode::fconst_2,
        0x0e => Opcode::dconst_0,
        0x0f => Opcode::dconst_1,
        0x10 => Opcode::bipush { val: r.next8().ok()? },
        0x11 => Opcode::sipush { val: r.next16().ok()? },
        0x12 => Opcode::ldc { index: r.next8().ok()? },
        0x13 => Opcode::ldc_w { index: r.next16().ok()? },
        0x14 => Opcode::ldc2_w { index: r.next16().ok()? },
        0x15 => Opcode::iload { index: r.next8().ok()? },
        0x16 => Opcode::lload { index: r.next8().ok()? },
        0x17 => Opcode::fload { index: r.next8().ok()? },
        0x18 => Opcode::dload { index: r.next8().ok()? },
        0x19 => Opcode::aload { index: r.next8().ok()? },
        0x1a => Opcode::iload_0,
        0x1b => Opcode::iload_1,
        0x1c => Opcode::iload_2,
        0x1d => Opcode::iload_3,
        0x1e => Opcode::lload_0,
        0x1f => Opcode::lload_1,
        0x20 => Opcode::lload_2,
        0x21 => Opcode::lload_3,
        0x22 => Opcode::fload_0,
        0x23 => Opcode::fload_1,
        0x24 => Opcode::fload_2,
        0x25 => Opcode::fload_3,
        0x26 => Opcode::dload_0,
        0x27 => Opcode::dload_1,
        0x28 => Opcode::dload_2,
        0x29 => Opcode::dload_3,
        0x2a => Opcode::aload_0,
        0x2b => Opcode::aload_1,
        0x2c => Opcode::aload_2,
        0x2d => Opcode::aload_3,
        0x2e => Opcode::iaload,
        0x2f => Opcode::laload,
        0x30 => Opcode::faload,
        0x31 => Opcode::daload,
        0x32 => Opcode::aaload,
        0x33 => Opcode::baload,
        0x34 => Opcode::caload,
        0x35 => Opcode::saload,
        0x36 => Opcode::istore { index: r.next8().ok()? },
        0x37 => Opcode::lstore { index: r.next8().ok()? },
        0x38 => Opcode::fstore { index: r.next8().ok()? },
        0x39 => Opcode::dstore { index: r.next8().ok()? },
        0x3a => Opcode::astore { index: r.next8().ok()? },
        0x3b => Opcode::istore_0,
        0x3c => Opcode::istore_1,
        0x3d => Opcode::istore_2,
        0x3e => Opcode::istore_3,
        0x3f => Opcode::lstore_0,
        0x40 => Opcode::lstore_1,
        0x41 => Opcode::lstore_2,
        0x42 => Opcode::lstore_3,
        0x43 => Opcode::fstore_0,
        0x44 => Opcode::fstore_1,
        0x45 => Opcode::fstore_2,
        0x46 => Opcode::fstore_3,
        0x47 => Opcode::dstore_0,
        0x48 => Opcode::dstore_1,
        0x49 => Opcode::dstore_2,
        0x4a => Opcode::dstore_3,
        0x4b => Opcode::astore_0,
        0x4c => Opcode::astore_1,
        0x4d => Opcode::astore_2,
        0x4e => Opcode::astore_3,
        0x4f => Opcode::iastore,
        0x50 => Opcode::lastore,
        0x51 => Opcode::fastore,
        0x52 => Opcode::dastore,
        0x53 => Opcode::aastore,
        0x54 => Opcode::bastore,
        0x55 => Opcode::castore,
        0x56 => Opcode::sastore,
        0x57 => Opcode::pop,
        0x58 => Opcode::pop2,
        0x59 => Opcode::dup,
        0x5a => Opcode::dup_x1,
        0x5b => Opcode::dup_x2,
        0x5c => Opcode::dup2,
        0x5d => Opcode::dup2_x1,
        0x5e => Opcode::dup2_x2,
        0x5f => Opcode::swap,
        0x60 => Opcode::iadd,
        0x61 => Opcode::ladd,
        0x62 => Opcode::fadd,
        0x63 => Opcode::dadd,
        0x64 => Opcode::isub,
        0x65 => Opcode::lsub,
        0x66 => Opcode::fsub,
        0x67 => Opcode::dsub,
        0x68 => Opcode::imul,
        0x69 => Opcode::lmul,
        0x6a => Opcode::fmul,
        0x6b => Opcode::dmul,
        0x6c => Opcode::idiv,
        0x6d => Opcode::ldiv,
        0x6e => Opcode::fdiv,
        0x6f => Opcode::ddiv,
        0x70 => Opcode::irem,
        0x71 => Opcode::lrem,
        0x72 => Opcode::frem,
        0x73 => Opcode::drem,
        0x74 => Opcode::ineg,
        0x75 => Opcode::lneg,
        0x76 => Opcode::fneg,
        0x77 => Opcode::dneg,
        0x78 => Opcode::ishl,
        0x79 => Opcode::lshl,
        0x7a => Opcode::ishr,
        0x7b => Opcode::lshr,
        0x7c => Opcode::iushr,
        0x7d => Opcode::lushr,
        0x7e => Opcode::iand,
        0x7f => Opcode::land,
        0x80 => Opcode::ior,
        0x81 => Opcode::lor,
        0x82 => Opcode::ixor,
        0x83 => Opcode::lxor,
        0x84 => {
            let index = r.next8().ok()?;
            let const_ = to_i8(r.next8().ok()?);
            Opcode::iinc { index, const_ }
        },
        0x85 => Opcode::i2l,
        0x86 => Opcode::i2f,
        0x87 => Opcode::i2d,
        0x88 => Opcode::l2i,
        0x89 => Opcode::l2f,
        0x8a => Opcode::l2d,
        0x8b => Opcode::f2i,
        0x8c => Opcode::f2l,
        0x8d => Opcode::f2d,
        0x8e => Opcode::d2i,
        0x8f => Opcode::d2l,
        0x90 => Opcode::d2f,
        0x91 => Opcode::i2b,
        0x92 => Opcode::i2c,
        0x93 => Opcode::i2s,
        0x94 => Opcode::lcmp,
        0x95 => Opcode::fcmpl,
        0x96 => Opcode::fcmpg,
        0x97 => Opcode::dcmpl,
        0x98 => Opcode::dcmpg,
        0x99 => Opcode::ifeq { branch: to_i16(r.next16().ok()?) },
        0x9a => Opcode::ifne { branch: to_i16(r.next16().ok()?) },
        0x9b => Opcode::iflt { branch: to_i16(r.next16().ok()?) },
        0x9c => Opcode::ifge { branch: to_i16(r.next16().ok()?) },
        0x9d => Opcode::ifgt { branch: to_i16(r.next16().ok()?) },
        0x9e => Opcode::ifle { branch: to_i16(r.next16().ok()?) },
        0x9f => Opcode::if_icmpeq { branch: to_i16(r.next16().ok()?) },
        0xa0 => Opcode::if_icmpne { branch: to_i16(r.next16().ok()?) },
        0xa1 => Opcode::if_icmplt { branch: to_i16(r.next16().ok()?) },
        0xa2 => Opcode::if_icmpge { branch: to_i16(r.next16().ok()?) },
        0xa3 => Opcode::if_icmpgt { branch: to_i16(r.next16().ok()?) },
        0xa4 => Opcode::if_icmple { branch: to_i16(r.next16().ok()?) },
        0xa5 => Opcode::if_acmpeq { branch: to_i16(r.next16().ok()?) },
        0xa6 => Opcode::if_acmpne { branch: to_i16(r.next16().ok()?) },
        0xa7 => Opcode::goto { branch: to_i16(r.next16().ok()?) },
        0xa8 => Opcode::jsr { branch: to_i16(r.next16().ok()?) },
        0xa9 => Opcode::ret { index: r.next8().ok()? },
        0xaa => read_tableswitch(r, method_start)?,
        0xab => read_lookupswitch(r, method_start)?,
        0xac => Opcode::ireturn,
        0xad => Opcode::lreturn,
        0xae => Opcode::freturn,
        0xaf => Opcode::dreturn,
        0xb0 => Opcode::areturn,
        0xb1 => Opcode::return_,
        0xb2 => Opcode::getstatic { index: r.next16().ok()? },
        0xb3 => Opcode::putstatic { index: r.next16().ok()? },
        0xb4 => Opcode::getfield { index: r.next16().ok()? },
        0xb5 => Opcode::putfield { index: r.next16().ok()? },
        0xb6 => Opcode::invokevirtual { index: r.next16().ok()? },
        0xb7 => Opcode::invokespecial { index: r.next16().ok()? },
        0xb8 => Opcode::invokestatic { index: r.next16().ok()? },
        0xb9 => {
            let index = r.next16().ok()?;
            let count = r.next8().ok()?;
            r.next8().ok()?;
            Opcode::invokeinterface { index, count }
        },
        0xba => {
            let index = r.next16().ok()?;
            r.next8().ok()?;
            r.next8().ok()?;
            Opcode::invokedynamic { index }
        },
        0xbb => Opcode::new { index: r.next16().ok()? },
        0xbc => Opcode::newarray { atype: r.next8().ok()? },
        0xbd => Opcode::anewarray { index: r.next16().ok()? },
        0xbe => Opcode::arraylength,
        0xbf => Opcode::athrow,
        0xc0 => Opcode::checkcast { index: r.next16().ok()? },
        0xc1 => Opcode::instanceof { index: r.next16().ok()? },
        0xc2 => Opcode::monitorenter,
        0xc3 => Opcode::monitorexit,
        0xc4 => {
            let opcode = r.next8().ok()?;
            if opcode == 0x84 {
                let index = r.next16().ok()?;
                let const_ = to_i16(r.next16().ok()?);
                Opcode::wide_iinc { index, const_ }
            } else {
                let index = r.next16().ok()?;
                Opcode::wide { opcode, index }
            }
        },
        0xc5 => {
            let index = r.next16().ok()?;
            let dimensions = r.next8().ok()?;
            Opcode::multianewarray { index, dimensions }
        },
        0xc6 => Opcode::ifnull { branch: to_i16(r.next16().ok()?) },
        0xc7 => Opcode::ifnonnull { branch: to_i16(r.next16().ok()?) },
        0xc8 => Opcode::goto_w { branch: to_i32(r.next32().ok()?) },
        0xc9 => Opcode::jsr_w { branch: to_i32(r.next32().ok()?) },
        0xca => Opcode::breakpoint,
        0xcb..=0xfd => Opcode::reserved,
        0xfe => Opcode::impdep1,
        0xff => Opcode::impdep2,
    };
    Some(ans)
}

/// Converts an `Opcode` into its opcode byte and operand bytes.
#[verifier::rlimit(100)]
pub fn to_bytecode(opcode: Opcode) -> (res: (u8, Vec<u8>))
    ensures
        res.0 == opcode_byte(opcode),
        res.1@ == opcode_args(opcode),
{
    let ghost op = opcode;
    let mut args: Vec<u8> = Vec::new();
    let byte = match opcode {
        Opcode::nop => 0x00,
        Opcode::aconst_null => 0x01,
        Opcode::iconst_m1 => 0x02,
        Opcode::iconst_0 => 0x03,
        Opcode::iconst_1 => 0x04,
        Opcode::iconst_2 => 0x05,
        Opcode::iconst_3 => 0x06,
        Opcode::iconst_4 => 0x07,
        Opcode::iconst_5 => 0x08,
        Opcode::lconst_0 => 0x09,
        Opcode::lconst_1 => 0x0a,
        Opcode::fconst_0 => 0x0b,
        Opcode::fconst_1 => 0x0c,
        Opcode::fconst_2 => 0x0d,
        Opcode::dconst_0 => 0x0e,
        Opcode::dconst_1 => 0x0f,
        Opcode::bipush { val } => {
            args.push(val);
            0x10
        },
        Opcode::sipush { val } => {
            push_u16(&mut args, val);
            0x11
        },
        Opcode::ldc { index } => {
            args.push(index);
            0x12
        },
        Opcode::ldc_w { index } => {
            push_u16(&mut args, index);
            0x13
        },
        Opcode::ldc2_w { index } => {
            push_u16(&mut args, index);
            0x14
        },
        Opcode::iload { index } => {
            args.push(index);
            0x15
        },
        Opcode::lload { index } => {
            args.push(index);
            0x16
        },
        Opcode::fload { index } => {
            args.push(index);
            0x17
        },
        Opcode::dload { index } => {
            args.push(index);
            0x18
        },
        Opcode::aload { index } => {
            args.push(index);
            0x19
        },
        Opcode::iload_0 => 0x1a,
        Opcode::iload_1 => 0x1b,
        Opcode::iload_2 => 0x1c,
        Opcode::iload_3 => 0x1d,
        Opcode::lload_0 => 0x1e,
        Opcode::lload_1 => 0x1f,
        Opcode::lload_2 => 0x20,
        Opcode::lload_3 => 0x21,
        Opcode::fload_0 => 0x22,
        Opcode::fload_1 => 0x23,
        Opcode::fload_2 => 0x24,
        Opcode::fload_3 => 0x25,
        Opcode::dload_0 => 0x26,
        Opcode::dload_1 => 0x27,
        Opcode::dload_2 => 0x28,
        Opcode::dload_3 => 0x29,
        Opcode::aload_0 => 0x2a,
        Opcode::aload_1 => 0x2b,
        Opcode::aload_2 => 0x2c,
        Opcode::aload_3 => 0x2d,
        Opcode::iaload => 0x2e,
        Opcode::laload => 0x2f,
        Opcode::faload => 0x30,
        Opcode::daload => 0x31,
        Opcode::aaload => 0x32,
        Opcode::baload => 0x33,
        Opcode::caload => 0x34,
        Opcode::saload => 0x35,
        Opcode::istore { index } => {
            args.push(index);
            0x36
        },
        Opcode::lstore { index } => {
            args.push(index);
            0x37
        },
        Opcode::fstore { index } => {
            args.push(index);
            0x38
        },
        Opcode::dstore { index } => {
            args.push(index);
            0x39
        },
        Opcode::astore { index } => {
            args.push(index);
            0x3a
        },
        Opcode::istore_0 => 0x3b,
        Opcode::istore_1 => 0x3c,
        Opcode::istore_2 => 0x3d,
        Opcode::istore_3 => 0x3e,
        Opcode::lstore_0 => 0x3f,
        Opcode::lstore_1 => 0x40,
        Opcode::lstore_2 => 0x41,
        Opcode::lstore_3 => 0x42,
        Opcode::fstore_0 => 0x43,
        Opcode::fstore_1 => 0x44,
        Opcode::fstore_2 => 0x45,
        Opcode::fstore_3 => 0x46,
        Opcode::dstore_0 => 0x47,
        Opcode::dstore_1 => 0x48,
        Opcode::dstore_2 => 0x49,
        Opcode::dstore_3 => 0x4a,
        Opcode::astore_0 => 0x4b,
        Opcode::astore_1 => 0x4c,
        Opcode::astore_2 => 0x4d,
        Opcode::astore_3 => 0x4e,
        Opcode::iastore => 0x4f,
        Opcode::lastore => 0x50,
        Opcode::fastore => 0x51,
        Opcode::dastore => 0x52,
        Opcode::aastore => 0x53,
        Opcode::bastore => 0x54,
        Opcode::castore => 0x55,
        Opcode::sastore => 0x56,
        Opcode::pop => 0x57,
        Opcode::pop2 => 0x58,
        Opcode::dup => 0x59,
        Opcode::dup_x1 => 0x5a,
        Opcode::dup_x2 => 0x5b,
        Opcode::dup2 => 0x5c,
        Opcode::dup2_x1 => 0x5d,
        Opcode::dup2_x2 => 0x5e,
        Opcode::swap => 0x5f,
        Opcode::iadd => 0x60,
        Opcode::ladd => 0x61,
        Opcode::fadd => 0x62,
        Opcode::dadd => 0x63,
        Opcode::isub => 0x64,
        Opcode::lsub => 0x65,
        Opcode::fsub => 0x66,
        Opcode::dsub => 0x67,
        Opcode::imul => 0x68,
        Opcode::lmul => 0x69,
        Opcode::fmul => 0x6a,
        Opcode::dmul => 0x6b,
        Opcode::idiv => 0x6c,
        Opcode::ldiv => 0x6d,
        Opcode::fdiv => 0x6e,
        Opcode::ddiv => 0x6f,
        Opcode::irem => 0x70,
        Opcode::lrem => 0x71,
        Opcode::frem => 0x72,
        Opcode::drem => 0x73,
        Opcode::ineg => 0x74,
        Opcode::lneg => 0x75,
        Opcode::fneg => 0x76,
        Opcode::dneg => 0x77,
        Opcode::ishl => 0x78,
        Opcode::lshl => 0x79,
        Opcode::ishr => 0x7a,
        Opcode::lshr => 0x7b,
        Opcode::iushr => 0x7c,
        Opcode::lushr => 0x7d,
        Opcode::iand => 0x7e,
        Opcode::land => 0x7f,
        Opcode::ior => 0x80,
        Opcode::lor => 0x81,
        Opcode::ixor => 0x82,
        Opcode::lxor => 0x83,
        Opcode::iinc { index, const_ } => {
            args.push(index);
            push_i8(&mut args, const_);
            0x84
        },
        Opcode::i2l => 0x85,
        Opcode::i2f => 0x86,
        Opcode::i2d => 0x87,
        Opcode::l2i => 0x88,
        Opcode::l2f => 0x89,
        Opcode::l2d => 0x8a,
        Opcode::f2i => 0x8b,
        Opcode::f2l => 0x8c,
        Opcode::f2d => 0x8d,
        Opcode::d2i => 0x8e,
        Opcode::d2l => 0x8f,
        Opcode::d2f => 0x90,
        Opcode::i2b => 0x91,
        Opcode::i2c => 0x92,
        Opcode::i2s => 0x93,
        Opcode::lcmp => 0x94,
        Opcode::fcmpl => 0x95,
        Opcode::fcmpg => 0x96,
        Opcode::dcmpl => 0x97,
        Opcode::dcmpg => 0x98,
        Opcode::ifeq { branch } => {
            push_i16(&mut args, branch);
            0x99
        },
        Opcode::ifne { branch } => {
            push_i16(&mut args, branch);
            0x9a
        },
        Opcode::iflt { branch } => {
            push_i16(&mut args, branch);
            0x9b
        },
        Opcode::ifge { branch } => {
            push_i16(&mut args, branch);
            0x9c
        },
        Opcode::ifgt { branch } => {
            push_i16(&mut args, branch);
            0x9d
        },
        Opcode::ifle { branch } => {
            push_i16(&mut args, branch);
            0x9e
        },
        Opcode::if_icmpeq { branch } => {
            push_i16(&mut args, branch);
            0x9f
        },
        Opcode::if_icmpne { branch } => {
            push_i16(&mut args, branch);
            0xa0
        },
        Opcode::if_icmplt { branch } => {
            push_i16(&mut args, branch);
            0xa1
        },
        Opcode::if_icmpge { branch } => {
            push_i16(&mut args, branch);
            0xa2
        },
        Opcode::if_icmpgt { branch } => {
            push_i16(&mut args, branch);
            0xa3
        },
        Opcode::if_icmple { branch } => {
            push_i16(&mut args, branch);
            0xa4
        },
        Opcode::if_acmpeq { branch } => {
            push_i16(&mut args, branch);
            0xa5
        },
        Opcode::if_acmpne { branch } => {
            push_i16(&mut args, branch);
            0xa6
        },
        Opcode::goto { branch } => {
            push_i16(&mut args, branch);
            0xa7
        },
        Opcode::jsr { branch } => {
            push_i16(&mut args, branch);
            0xa8
        },
        Opcode::ret { index } => {
            args.push(index);
            0xa9
        },
        Opcode::tableswitch { default, low, high, jump_offsets, padding } => {
            push_zeros(&mut args, padding);
            push_i32(&mut args, default);
            push_i32(&mut args, low);
            push_i32(&mut args, high);
            push_i32s(&mut args, &jump_offsets);
            0xaa
        },
        Opcode::lookupswitch { default, match_offset_pairs, padding } => {
            push_zeros(&mut args, padding);
            push_i32(&mut args, default);
            push_count(&mut args, match_offset_pairs.len());
            push_pairs(&mut args, &match_offset_pairs);
            0xab
        },
        Opcode::ireturn => 0xac,
        Opcode::lreturn => 0xad,
        Opcode::freturn => 0xae,
        Opcode::dreturn => 0xaf,
        Opcode::areturn => 0xb0,
        Opcode::return_ => 0xb1,
        Opcode::getstatic { index } => {
            push_u16(&mut args, index);
            0xb2
        },
        Opcode::putstatic { index } => {
            push_u16(&mut args, index);
            0xb3
        },
        Opcode::getfield { index } => {
            push_u16(&mut args, index);
            0xb4
        },
        Opcode::putfield { index } => {
            push_u16(&mut args, index);
            0xb5
        },
        Opcode::invokevirtual { index } => {
            push_u16(&mut args, index);
            0xb6
        },
        Opcode::invokespecial { index } => {
            push_u16(&mut args, index);
            0xb7
        },
        Opcode::invokestatic { index } => {
            push_u16(&mut args, index);
            0xb8
        },
        Opcode::invokeinterface { index, count } => {
            push_u16(&mut args, index);
            args.push(count);
            args.push(0);
            0xb9
        },
        Opcode::invokedynamic { index } => {
            push_u16(&mut args, index);
            args.push(0);
            args.push(0);
            0xba
        },
        Opcode::new { index } => {
            push_u16(&mut args, index);
            0xbb
        },
        Opcode::newarray { atype } => {
            args.push(atype);
            0xbc
        },
        Opcode::anewarray { index } => {
            push_u16(&mut args, index);
            0xbd
        },
        Opcode::arraylength => 0xbe,
        Opcode::athrow => 0xbf,
        Opcode::checkcast { index } => {
            push_u16(&mut args, index);
            0xc0
        },
        Opcode::instanceof { index } => {
            push_u16(&mut args, index);
            0xc1
        },
        Opcode::monitorenter => 0xc2,
        Opcode::monitorexit => 0xc3,
        Opcode::wide { opcode, index } => {
            args.push(opcode);
            push_u16(&mut args, index);
            0xc4
        },
        Opcode::wide_iinc { index, const_ } => {
            args.push(0x84);
            push_u16(&mut args, index);
            push_i16(&mut args, const_);
            0xc4
        },
        Opcode::multianewarray { index, dimensions } => {
            push_u16(&mut args, index);
            args.push(dimensions);
            0xc5
        },
        Opcode::ifnull { branch } => {
            push_i16(&mut args, branch);
            0xc6
        },
        Opcode::ifnonnull { branch } => {
            push_i16(&mut args, branch);
            0xc7
        },
        Opcode::goto_w { branch } => {
            push_i32(&mut args, branch);
            0xc8
        },
        Opcode::jsr_w { branch } => {
            push_i32(&mut args, branch);
            0xc9
        },
        Opcode::breakpoint => 0xca,
        Opcode::reserved => 0xcb,
        Opcode::impdep1 => 0xfe,
        Opcode::impdep2 => 0xff,
    };
    proof {
        assert(args@ =~= opcode_args(op));
    }
    (byte, args)
}

/// The instructions that `to_opcode` reads back unchanged from what `to_bytecode` writes at
/// `pos` of a method body starting at `start`: a switch whose padding fits its position (a
/// `tableswitch` whose offsets match its bounds, a `lookupswitch` whose pair count fits its
/// 32-bit count), a `wide` that does not carry the `iinc` opcode, and every other instruction.
pub open spec fn reads_back(op: Opcode, pos: int, start: u32) -> bool {
    match op {
        Opcode::lookupswitch { match_offset_pairs, padding, .. } => {
            &&& padding == switch_padding(pos, start)
            &&& match_offset_pairs@.len() <= i32::MAX
        },
        Opcode::wide { opcode, .. } => opcode != 0x84u8,
        Opcode::tableswitch { low, high, jump_offsets, padding, .. } => {
            &&& padding == switch_padding(pos, start)
            &&& jump_offsets@.len() == (if high - low + 1 > 0 { high - low + 1 } else { 0 })
        },
        _ => true,
    }
}

/// Round trip of the instruction encoding: when the opcode byte and operand bytes that
/// `to_bytecode` gives for `op` stand at `pos` of a method body that starts at `start`,
/// `to_opcode` reads exactly those bytes back, as `op`.
#[verifier::rlimit(100)]
pub proof fn law_opcode_round_trip(op: Opcode, s: Seq<u8>, pos: int, start: u32)
    requires
        reads_back(op, pos, start),
        0 <= pos,
        pos + 1 + opcode_args(op).len() <= s.len(),
        s[pos] == opcode_byte(op),
        forall|k: int|
            0 <= k < opcode_args(op).len() ==> s[pos + 1 + k] == #[trigger] opcode_args(op)[k],
    ensures
        opcode_end(s, pos, start) == Some(pos + 1 + opcode_args(op).len()),
        opcode_is(s, pos, start, op),
{
    let args = opcode_args(op);
    match op {
        Opcode::nop => {},
        Opcode::aconst_null => {},
        Opcode::iconst_m1 => {},
        Opcode::iconst_0 => {},
        Opcode::iconst_1 => {},
        Opcode::iconst_2 => {},
        Opcode::iconst_3 => {},
        Opcode::iconst_4 => {},
        Opcode::iconst_5 => {},
        Opcode::lconst_0 => {},
        Opcode::lconst_1 => {},
        Opcode::fconst_0 => {},
        Opcode::fconst_1 => {},
        Opcode::fconst_2 => {},
        Opcode::dconst_0 => {},
        Opcode::dconst_1 => {},
        Opcode::bipush { val } => {
            assert(s[pos + 1 + 0] == args[0]);
        },
        Opcode::sipush { val } => {
            assert(s[pos + 1 + 0] == args[0]);
            assert(s[pos + 1 + 1] == args[1]);
            lemma_u16_at(s, pos + 1 + 0, val);
        },
        Opcode::ldc { index } => {
            assert(s[pos + 1 + 0] == args[0]);
        },
        Opcode::ldc_w { index } => {
            assert(s[pos + 1 + 0] == args[0]);
            assert(s[pos + 1 + 1] == args[1]);
            lemma_u16_at(s, pos + 1 + 0, index);
        },
        Opcode::ldc2_w { index } => {
            assert(s[pos + 1 + 0] == args[0]);
            assert(s[pos + 1 + 1] == args[1]);
            lemma_u16_at(s, pos + 1 + 0, index);
        },
        Opcode::iload { index } => {
            assert(s[pos + 1 + 0] == args[0]);
        },
        Opcode::lload { index } => {
            assert(s[pos + 1 + 0] == args[0]);
        },
        Opcode::fload { index } => {
            assert(s[pos + 1 + 0] == args[0]);
        },
        Opcode::dload { index } => {
            assert(s[pos + 1 + 0] == args[0]);
        },
        Opcode::aload { index } => {
            assert(s[pos + 1 + 0] == args[0]);
        },
        Opcode::iload_0 => {},
        Opcode::iload_1 => {},
        Opcode::iload_2 => {},
        Opcode::iload_3 => {},
        Opcode::lload_0 => {},
        Opcode::lload_1 => {},
        Opcode::lload_2 => {},
        Opcode::lload_3 => {},
        Opcode::fload_0 => {},
        Opcode::fload_1 => {},
        Opcode::fload_2 => {},
        Opcode::fload_3 => {},
        Opcode::dload_0 => {},
        Opcode::dload_1 => {},
        Opcode::dload_2 => {},
        Opcode::dload_3 => {},
        Opcode::aload_0 => {},
        Opcode::aload_1 => {},
        Opcode::aload_2 => {},
        Opcode::aload_3 => {},
        Opcode::iaload => {},
        Opcode::laload => {},
        Opcode::faload => {},
        Opcode::daload => {},
        Opcode::aaload => {},
        Opcode::baload => {},
        Opcode::caload => {},
        Opcode::saload => {},
        Opcode::istore { index } => {
            assert(s[pos + 1 + 0] == args[0]);
        },
        Opcode::lstore { index } => {
            assert(s[pos + 1 + 0] == args[0]);
        },
        Opcode::fstore { index } => {
            assert(s[pos + 1 + 0] == args[0]);
        },
        Opcode::dstore { index } => {
            assert(s[pos + 1 + 0] == args[0]);
        },
        Opcode::astore { index } => {
            assert(s[pos + 1 + 0] == args[0]);
        },
        Opcode::istore_0 => {},
        Opcode::istore_1 => {},
        Opcode::istore_2 => {},
        Opcode::istore_3 => {},
        Opcode::lstore_0 => {},
        Opcode::lstore_1 => {},
        Opcode::lstore_2 => {},
        Opcode::lstore_3 => {},
        Opcode::fstore_0 => {},
        Opcode::fstore_1 => {},
        Opcode::fstore_2 => {},
        Opcode::fstore_3 => {},
        Opcode::dstore_0 => {},
        Opcode::dstore_1 => {},
        Opcode::dstore_2 => {},
        Opcode::dstore_3 => {},
        Opcode::astore_0 => {},
        Opcode::astore_1 => {},
        Opcode::astore_2 => {},
        Opcode::astore_3 => {},
        Opcode::iastore => {},
        Opcode::lastore => {},
        Opcode::fastore => {},
        Opcode::dastore => {},
        Opcode::aastore => {},
        Opcode::bastore => {},
        Opcode::castore => {},
        Opcode::sastore => {},
        Opcode::pop => {},
        Opcode::pop2 => {},
        Opcode::dup => {},
        Opcode::dup_x1 => {},
        Opcode::dup_x2 => {},
        Opcode::dup2 => {},
        Opcode::dup2_x1 => {},
        Opcode::dup2_x2 => {},
        Opcode::swap => {},
        Opcode::iadd => {},
        Opcode::ladd => {},
        Opcode::fadd => {},
        Opcode::dadd => {},
        Opcode::isub => {},
        Opcode::lsub => {},
        Opcode::fsub => {},
        Opcode::dsub => {},
        Opcode::imul => {},
        Opcode::lmul => {},
        Opcode::fmul => {},
        Opcode::dmul => {},
        Opcode::idiv => {},
        Opcode::ldiv => {},
        Opcode::fdiv => {},
        Opcode::ddiv => {},
        Opcode::irem => {},
        Opcode::lrem => {},
        Opcode::frem => {},
        Opcode::drem => {},
        Opcode::ineg => {},
        Opcode::lneg => {},
        Opcode::fneg => {},
        Opcode::dneg => {},
        Opcode::ishl => {},
        Opcode::lshl => {},
        Opcode::ishr => {},
        Opcode::lshr => {},
        Opcode::iushr => {},
        Opcode::lushr => {},
        Opcode::iand => {},
        Opcode::land => {},
        Opcode::ior => {},
        Opcode::lor => {},
        Opcode::ixor => {},
        Opcode::lxor => {},
        Opcode::iinc { index, const_ } => {
            assert(s[pos + 1 + 0] == args[0]);
            assert(s[pos + 1 + 1] == args[1]);
            lemma_i8_at(s, pos + 1 + 1, const_);
        },
        Opcode::i2l => {},
        Opcode::i2f => {},
        Opcode::i2d => {},
        Opcode::l2i => {},
        Opcode::l2f => {},
        Opcode::l2d => {},
        Opcode::f2i => {},
        Opcode::f2l => {},
        Opcode::f2d => {},
        Opcode::d2i => {},
        Opcode::d2l => {},
        Opcode::d2f => {},
        Opcode::i2b => {},
        Opcode::i2c => {},
        Opcode::i2s => {},
        Opcode::lcmp => {},
        Opcode::fcmpl => {},
        Opcode::fcmpg => {},
        Opcode::dcmpl => {},
        Opcode::dcmpg => {},
        Opcode::ifeq { branch } => {
            assert(s[pos + 1 + 0] == args[0]);
            assert(s[pos + 1 + 1] == args[1]);
            lemma_i16_at(s, pos + 1 + 0, branch);
        },
        Opcode::ifne { branch } => {
            assert(s[pos + 1 + 0] == args[0]);
            assert(s[pos + 1 + 1] == args[1]);
            lemma_i16_at(s, pos + 1 + 0, branch);
        },
        Opcode::iflt { branch } => {
            assert(s[pos + 1 + 0] == args[0]);
            assert(s[pos + 1 + 1] == args[1]);
            lemma_i16_at(s, pos + 1 + 0, branch);
        },
        Opcode::ifge { branch } => {
            assert(s[pos + 1 + 0] == args[0]);
            assert(s[pos + 1 + 1] == args[1]);
            lemma_i16_at(s, pos + 1 + 0, branch);
        },
        Opcode::ifgt { branch } => {
            assert(s[pos + 1 + 0] == args[0]);
            assert(s[pos + 1 + 1] == args[1]);
            lemma_i16_at(s, pos + 1 + 0, branch);
        },
        Opcode::ifle { branch } => {
            assert(s[pos + 1 + 0] == args[0]);
            assert(s[pos + 1 + 1] == args[1]);
            lemma_i16_at(s, pos + 1 + 0, branch);
        },
        Opcode::if_icmpeq { branch } => {
            assert(s[pos + 1 + 0] == args[0]);
            assert(s[pos + 1 + 1] == args[1]);
            lemma_i16_at(s, pos + 1 + 0, branch);
        },
        Opcode::if_icmpne { branch } => {
            assert(s[pos + 1 + 0] == args[0]);
            assert(s[pos + 1 + 1] == args[1]);
            lemma_i16_at(s, pos + 1 + 0, branch);
        },
        Opcode::if_icmplt { branch } => {
            assert(s[pos + 1 + 0] == args[0]);
            assert(s[pos + 1 + 1] == args[1]);
            lemma_i16_at(s, pos + 1 + 0, branch);
        },
        Opcode::if_icmpge { branch } => {
            assert(s[pos + 1 + 0] == args[0]);
            assert(s[pos + 1 + 1] == args[1]);
            lemma_i16_at(s, pos + 1 + 0, branch);
        },
        Opcode::if_icmpgt { branch } => {
            assert(s[pos + 1 + 0] == args[0]);
            assert(s[pos + 1 + 1] == args[1]);
            lemma_i16_at(s, pos + 1 + 0, branch);
        },
        Opcode::if_icmple { branch } => {
            assert(s[pos + 1 + 0] == args[0]);
            assert(s[pos + 1 + 1] == args[1]);
            lemma_i16_at(s, pos + 1 + 0, branch);
        },
        Opcode::if_acmpeq { branch } => {
            assert(s[pos + 1 + 0] == args[0]);
            assert(s[pos + 1 + 1] == args[1]);
            lemma_i16_at(s, pos + 1 + 0, branch);
        },
        Opcode::if_acmpne { branch } => {
            assert(s[pos + 1 + 0] == args[0]);
            assert(s[pos + 1 + 1] == args[1]);
            lemma_i16_at(s, pos + 1 + 0, branch);
        },
        Opcode::goto { branch } => {
            assert(s[pos + 1 + 0] == args[0]);
            assert(s[pos + 1 + 1] == args[1]);
            lemma_i16_at(s, pos + 1 + 0, branch);
        },
        Opcode::jsr { branch } => {
            assert(s[pos + 1 + 0] == args[0]);
            assert(s[pos + 1 + 1] == args[1]);
            lemma_i16_at(s, pos + 1 + 0, branch);
        },
        Opcode::ret { index } => {
            assert(s[pos + 1 + 0] == args[0]);
        },
        Opcode::tableswitch { default, low, high, jump_offsets, padding } => {
            let h = pos + 1 + padding;
            let z = zeros(padding);
            let v = jump_offsets@;
            lemma_i32s_bytes_len(v);
            assert(args == z + i32_bytes(default) + i32_bytes(low) + i32_bytes(high) + i32s_bytes(v));
            assert(args.len() == padding + 12 + 4 * v.len());
            assert(forall|j: int| 0 <= j < 4 ==> s[h + j] == #[trigger] i32_bytes(default)[j]) by {
                assert forall|j: int| 0 <= j < 4 implies s[h + j] == #[trigger] i32_bytes(default)[j] by {
                    assert(s[pos + 1 + (padding + j)] == args[padding + j]);
                }
            }
            assert(forall|j: int| 0 <= j < 4 ==> s[h + 4 + j] == #[trigger] i32_bytes(low)[j]) by {
                assert forall|j: int| 0 <= j < 4 implies s[h + 4 + j] == #[trigger] i32_bytes(low)[j] by {
                    assert(s[pos + 1 + (padding + 4 + j)] == args[padding + 4 + j]);
                }
            }
            assert(forall|j: int| 0 <= j < 4 ==> s[h + 8 + j] == #[trigger] i32_bytes(high)[j]) by {
                assert forall|j: int| 0 <= j < 4 implies s[h + 8 + j] == #[trigger] i32_bytes(high)[j] by {
                    assert(s[pos + 1 + (padding + 8 + j)] == args[padding + 8 + j]);
                }
            }
            lemma_i32_at(s, h, default);
            lemma_i32_at(s, h + 4, low);
            lemma_i32_at(s, h + 8, high);
            assert forall|k: int| 0 <= k < 4 * v.len() implies s[h + 12 + k] == #[trigger] i32s_bytes(
                v,
            )[k] by {
                assert(s[pos + 1 + (padding + 12 + k)] == args[padding + 12 + k]);
            }
            lemma_i32s_at(s, h + 12, v);
            assert(h == switch_operands(pos, start));
            assert(table_count(s, h) == v.len());
        },
        Opcode::lookupswitch { default, match_offset_pairs, padding } => {
            let h = pos + 1 + padding;
            let z = zeros(padding);
            let v = match_offset_pairs@;
            let n = count_i32(v.len());
            lemma_pairs_bytes_len(v);
            assert(n == v.len());
            assert(args == z + i32_bytes(default) + i32_bytes(n) + pairs_bytes(v));
            assert(args.len() == padding + 8 + 8 * v.len());
            assert(forall|j: int| 0 <= j < 4 ==> s[h + j] == #[trigger] i32_bytes(default)[j]) by {
                assert forall|j: int| 0 <= j < 4 implies s[h + j] == #[trigger] i32_bytes(default)[j] by {
                    assert(s[pos + 1 + (padding + j)] == args[padding + j]);
                }
            }
            assert(forall|j: int| 0 <= j < 4 ==> s[h + 4 + j] == #[trigger] i32_bytes(n)[j]) by {
                assert forall|j: int| 0 <= j < 4 implies s[h + 4 + j] == #[trigger] i32_bytes(n)[j] by {
                    assert(s[pos + 1 + (padding + 4 + j)] == args[padding + 4 + j]);
                }
            }
            lemma_i32_at(s, h, default);
            lemma_i32_at(s, h + 4, n);
            assert forall|k: int| 0 <= k < 8 * v.len() implies s[h + 8 + k] == #[trigger] pairs_bytes(
                v,
            )[k] by {
                assert(s[pos + 1 + (padding + 8 + k)] == args[padding + 8 + k]);
            }
            lemma_pairs_at(s, h + 8, v);
            assert(h == switch_operands(pos, start));
            assert(lookup_count(s, h) == v.len());
            assert forall|i: int| 0 <= i < v.len() implies #[trigger] v[i] == (
                be32_i32(s, h + 8 + 8 * i),
                be32_i32(s, h + 12 + 8 * i),
            ) by {
                assert(h + 8 + 8 * i + 4 == h + 12 + 8 * i);
            }
        },
        Opcode::ireturn => {},
        Opcode::lreturn => {},
        Opcode::freturn => {},
        Opcode::dreturn => {},
        Opcode::areturn => {},
        Opcode::return_ => {},
        Opcode::getstatic { index } => {
            assert(s[pos + 1 + 0] == args[0]);
            assert(s[pos + 1 + 1] == args[1]);
            lemma_u16_at(s, pos + 1 + 0, index);
        },
        Opcode::putstatic { index } => {
            assert(s[pos + 1 + 0] == args[0]);
            assert(s[pos + 1 + 1] == args[1]);
            lemma_u16_at(s, pos + 1 + 0, index);
        },
        Opcode::getfield { index } => {
            assert(s[pos + 1 + 0] == args[0]);
            assert(s[pos + 1 + 1] == args[1]);
            lemma_u16_at(s, pos + 1 + 0, index);
        },
        Opcode::putfield { index } => {
            assert(s[pos + 1 + 0] == args[0]);
            assert(s[pos + 1 + 1] == args[1]);
            lemma_u16_at(s, pos + 1 + 0, index);
        },
        Opcode::invokevirtual { index } => {
            assert(s[pos + 1 + 0] == args[0]);
            assert(s[pos + 1 + 1] == args[1]);
            lemma_u16_at(s, pos + 1 + 0, index);
        },
        Opcode::invokespecial { index } => {
            assert(s[pos + 1 + 0] == args[0]);
            assert(s[pos + 1 + 1] == args[1]);
            lemma_u16_at(s, pos + 1 + 0, index);
        },
        Opcode::invokestatic { index } => {
            assert(s[pos + 1 + 0] == args[0]);
            assert(s[pos + 1 + 1] == args[1]);
            lemma_u16_at(s, pos + 1 + 0, index);
        },
        Opcode::invokeinterface { index, count } => {
            assert(s[pos + 1 + 0] == args[0]);
            assert(s[pos + 1 + 1] == args[1]);
            assert(s[pos + 1 + 2] == args[2]);
            assert(s[pos + 1 + 3] == args[3]);
            lemma_u16_at(s, pos + 1 + 0, index);
        },
        Opcode::invokedynamic { index } => {
            assert(s[pos + 1 + 0] == args[0]);
            assert(s[pos + 1 + 1] == args[1]);
            assert(s[pos + 1 + 2] == args[2]);
            assert(s[pos + 1 + 3] == args[3]);
            lemma_u16_at(s, pos + 1 + 0, index);
        },
        Opcode::new { index } => {
            assert(s[pos + 1 + 0] == args[0]);
            assert(s[pos + 1 + 1] == args[1]);
            lemma_u16_at(s, pos + 1 + 0, index);
        },
        Opcode::newarray { atype } => {
            assert(s[pos + 1 + 0] == args[0]);
        },
        Opcode::anewarray { index } => {
            assert(s[pos + 1 + 0] == args[0]);
            assert(s[pos + 1 + 1] == args[1]);
            lemma_u16_at(s, pos + 1 + 0, index);
        },
        Opcode::arraylength => {},
        Opcode::athrow => {},
        Opcode::checkcast { index } => {
            assert(s[pos + 1 + 0] == args[0]);
            assert(s[pos + 1 + 1] == args[1]);
            lemma_u16_at(s, pos + 1 + 0, index);
        },
        Opcode::instanceof { index } => {
            assert(s[pos + 1 + 0] == args[0]);
            assert(s[pos + 1 + 1] == args[1]);
            lemma_u16_at(s, pos + 1 + 0, index);
        },
        Opcode::monitorenter => {},
        Opcode::monitorexit => {},
        Opcode::wide { opcode, index } => {
            assert(s[pos + 1 + 0] == args[0]);
            assert(s[pos + 1 + 1] == args[1]);
            assert(s[pos + 1 + 2] == args[2]);
            lemma_u16_at(s, pos + 1 + 1, index);
        },
        Opcode::wide_iinc { index, const_ } => {
            assert(s[pos + 1 + 0] == args[0]);
            assert(s[pos + 1 + 1] == args[1]);
            assert(s[pos + 1 + 2] == args[2]);
            assert(s[pos + 1 + 3] == args[3]);
            assert(s[pos + 1 + 4] == args[4]);
            lemma_u16_at(s, pos + 1 + 1, index);
            lemma_i16_at(s, pos + 1 + 3, const_);
        },
        Opcode::multianewarray { index, dimensions } => {
            assert(s[pos + 1 + 0] == args[0]);
            assert(s[pos + 1 + 1] == args[1]);
            assert(s[pos + 1 + 2] == args[2]);
            lemma_u16_at(s, pos + 1 + 0, index);
        },
        Opcode::ifnull { branch } => {
            assert(s[pos + 1 + 0] == args[0]);
            assert(s[pos + 1 + 1] == args[1]);
            lemma_i16_at(s, pos + 1 + 0, branch);
        },
        Opcode::ifnonnull { branch } => {
            assert(s[pos + 1 + 0] == args[0]);
            assert(s[pos + 1 + 1] == args[1]);
            lemma_i16_at(s, pos + 1 + 0, branch);
        },
        Opcode::goto_w { branch } => {
            assert(s[pos + 1 + 0] == args[0]);
            assert(s[pos + 1 + 1] == args[1]);
            assert(s[pos + 1 + 2] == args[2]);
            assert(s[pos + 1 + 3] == args[3]);
            lemma_i32_at(s, pos + 1 + 0, branch);
        },
        Opcode::jsr_w { branch } => {
            assert(s[pos + 1 + 0] == args[0]);
            assert(s[pos + 1 + 1] == args[1]);
            assert(s[pos + 1 + 2] == args[2]);
            assert(s[pos + 1 + 3] == args[3]);
            lemma_i32_at(s, pos + 1 + 0, branch);
        },
        Opcode::breakpoint => {},
        Opcode::reserved => {},
        Opcode::impdep1 => {},
        Opcode::impdep2 => {},
    }
}

} // verus!
