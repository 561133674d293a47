//! The instruction set of the Java virtual machine.
use vstd::prelude::*;
use crate::bytes::{
    be16, be16_i16, be32_i32, byte_i8, count_i32, i16_bytes, i32_bytes, i32s_bytes, i8_bytes, pairs_bytes,
    u16_bytes, zeros,
};
use crate::switch_layout::{lookup_count, switch_operands, switch_padding, table_count};

verus! {

/// One instruction of a method body, with its operands.
///
/// `reserved` stands for every opcode byte in `0xcb..=0xfd`; it is written back as `0xcb`.
#[allow(non_camel_case_types, inconsistent_fields)]
#[derive(Debug, PartialEq)]
pub enum Opcode {
    nop,
    aconst_null,
    iconst_m1,
    iconst_0,
    iconst_1,
    iconst_2,
    iconst_3,
    iconst_4,
    iconst_5,
    lconst_0,
    lconst_1,
    fconst_0,
    fconst_1,
    fconst_2,
    dconst_0,
    dconst_1,
    bipush { val: u8 },
    sipush { val: u16 },
    ldc { index: u8 },
    ldc_w { index: u16 },
    ldc2_w { index: u16 },
    iload { index: u8 },
    lload { index: u8 },
    fload { index: u8 },
    dload { index: u8 },
    aload { index: u8 },
    iload_0,
    iload_1,
    iload_2,
    iload_3,
    lload_0,
    lload_1,
    lload_2,
    lload_3,
    fload_0,
    fload_1,
    fload_2,
    fload_3,
    dload_0,
    dload_1,
    dload_2,
    dload_3,
    aload_0,
    aload_1,
    aload_2,
    aload_3,
    iaload,
    laload,
    faload,
    daload,
    aaload,
    baload,
    caload,
    saload,
    istore { index: u8 },
    lstore { index: u8 },
    fstore { index: u8 },
    dstore { index: u8 },
    astore { index: u8 },
    istore_0,
    istore_1,
    istore_2,
    istore_3,
    lstore_0,
    lstore_1,
    lstore_2,
    lstore_3,
    fstore_0,
    fstore_1,
    fstore_2,
    fstore_3,
    dstore_0,
    dstore_1,
    dstore_2,
    dstore_3,
    astore_0,
    astore_1,
    astore_2,
    astore_3,
    iastore,
    lastore,
    fastore,
    dastore,
    aastore,
    bastore,
    castore,
    sastore,
    pop,
    pop2,
    dup,
    dup_x1,
    dup_x2,
    dup2,
    dup2_x1,
    dup2_x2,
    swap,
    iadd,
    ladd,
    fadd,
    dadd,
    isub,
    lsub,
    fsub,
    dsub,
    imul,
    lmul,
    fmul,
    dmul,
    idiv,
    ldiv,
    fdiv,
    ddiv,
    irem,
    lrem,
    frem,
    drem,
    ineg,
    lneg,
    fneg,
    dneg,
    ishl,
    lshl,
    ishr,
    lshr,
    iushr,
    lushr,
    iand,
    land,
    ior,
    lor,
    ixor,
    lxor,
    iinc { index: u8, const_: i8 },
    i2l,
    i2f,
    i2d,
    l2i,
    l2f,
    l2d,
    f2i,
    f2l,
    f2d,
    d2i,
    d2l,
    d2f,
    i2b,
    i2c,
    i2s,
    lcmp,
    fcmpl,
    fcmpg,
    dcmpl,
    dcmpg,
    ifeq { branch: i16 },
    ifne { branch: i16 },
    iflt { branch: i16 },
    ifge { branch: i16 },
    ifgt { branch: i16 },
    ifle { branch: i16 },
    if_icmpeq { branch: i16 },
    if_icmpne { branch: i16 },
    if_icmplt { branch: i16 },
    if_icmpge { branch: i16 },
    if_icmpgt { branch: i16 },
    if_icmple { branch: i16 },
    if_acmpeq { branch: i16 },
    if_acmpne { branch: i16 },
    goto { branch: i16 },
    jsr { branch: i16 },
    ret { index: u8 },
    tableswitch { default: i32, low: i32, high: i32, jump_offsets: Vec<i32>, padding: u8 },
    lookupswitch { default: i32, match_offset_pairs: Vec<(i32, i32)>, padding: u8 },
    ireturn,
    lreturn,
    freturn,
    dreturn,
    areturn,
    return_,
    getstatic { index: u16 },
    putstatic { index: u16 },
    getfield { index: u16 },
    putfield { index: u16 },
    invokevirtual { index: u16 },
    invokespecial { index: u16 },
    invokestatic { index: u16 },
    invokeinterface { index: u16, count: u8 },
    invokedynamic { index: u16 },
    new { index: u16 },
    newarray { atype: u8 },
    anewarray { index: u16 },
    arraylength,
    athrow,
    checkcast { index: u16 },
    instanceof { index: u16 },
    monitorenter,
    monitorexit,
    wide { opcode: u8, index: u16 },
    wide_iinc { index: u16, const_: i16 },
    multianewarray { index: u16, dimensions: u8 },
    ifnull { branch: i16 },
    ifnonnull { branch: i16 },
    goto_w { branch: i32 },
    jsr_w { branch: i32 },
    breakpoint,
    reserved,
    impdep1,
    impdep2,
}

/// The opcode byte that an instruction is written with.
pub open spec fn opcode_byte(op: Opcode) -> u8 {
    match op {
        Opcode::nop => 0x00u8,
        Opcode::aconst_null => 0x01u8,
        Opcode::iconst_m1 => 0x02u8,
        Opcode::iconst_0 => 0x03u8,
        Opcode::iconst_1 => 0x04u8,
        Opcode::iconst_2 => 0x05u8,
        Opcode::iconst_3 => 0x06u8,
        Opcode::iconst_4 => 0x07u8,
        Opcode::iconst_5 => 0x08u8,
        Opcode::lconst_0 => 0x09u8,
        Opcode::lconst_1 => 0x0au8,
        Opcode::fconst_0 => 0x0bu8,
        Opcode::fconst_1 => 0x0cu8,
        Opcode::fconst_2 => 0x0du8,
        Opcode::dconst_0 => 0x0eu8,
        Opcode::dconst_1 => 0x0fu8,
        Opcode::bipush { .. } => 0x10u8,
        Opcode::sipush { .. } => 0x11u8,
        Opcode::ldc { .. } => 0x12u8,
        Opcode::ldc_w { .. } => 0x13u8,
        Opcode::ldc2_w { .. } => 0x14u8,
        Opcode::iload { .. } => 0x15u8,
        Opcode::lload { .. } => 0x16u8,
        Opcode::fload { .. } => 0x17u8,
        Opcode::dload { .. } => 0x18u8,
        Opcode::aload { .. } => 0x19u8,
        Opcode::iload_0 => 0x1au8,
        Opcode::iload_1 => 0x1bu8,
        Opcode::iload_2 => 0x1cu8,
        Opcode::iload_3 => 0x1du8,
        Opcode::lload_0 => 0x1eu8,
        Opcode::lload_1 => 0x1fu8,
        Opcode::lload_2 => 0x20u8,
        Opcode::lload_3 => 0x21u8,
        Opcode::fload_0 => 0x22u8,
        Opcode::fload_1 => 0x23u8,
        Opcode::fload_2 => 0x24u8,
        Opcode::fload_3 => 0x25u8,
        Opcode::dload_0 => 0x26u8,
        Opcode::dload_1 => 0x27u8,
        Opcode::dload_2 => 0x28u8,
        Opcode::dload_3 => 0x29u8,
        Opcode::aload_0 => 0x2au8,
        Opcode::aload_1 => 0x2bu8,
        Opcode::aload_2 => 0x2cu8,
        Opcode::aload_3 => 0x2du8,
        Opcode::iaload => 0x2eu8,
        Opcode::laload => 0x2fu8,
        Opcode::faload => 0x30u8,
        Opcode::daload => 0x31u8,
        Opcode::aaload => 0x32u8,
        Opcode::baload => 0x33u8,
        Opcode::caload => 0x34u8,
        Opcode::saload => 0x35u8,
        Opcode::istore { .. } => 0x36u8,
        Opcode::lstore { .. } => 0x37u8,
        Opcode::fstore { .. } => 0x38u8,
        Opcode::dstore { .. } => 0x39u8,
        Opcode::astore { .. } => 0x3au8,
        Opcode::istore_0 => 0x3bu8,
        Opcode::istore_1 => 0x3cu8,
        Opcode::istore_2 => 0x3du8,
        Opcode::istore_3 => 0x3eu8,
        Opcode::lstore_0 => 0x3fu8,
        Opcode::lstore_1 => 0x40u8,
        Opcode::lstore_2 => 0x41u8,
        Opcode::lstore_3 => 0x42u8,
        Opcode::fstore_0 => 0x43u8,
        Opcode::fstore_1 => 0x44u8,
        Opcode::fstore_2 => 0x45u8,
        Opcode::fstore_3 => 0x46u8,
        Opcode::dstore_0 => 0x47u8,
        Opcode::dstore_1 => 0x48u8,
        Opcode::dstore_2 => 0x49u8,
        Opcode::dstore_3 => 0x4au8,
        Opcode::astore_0 => 0x4bu8,
        Opcode::astore_1 => 0x4cu8,
        Opcode::astore_2 => 0x4du8,
        Opcode::astore_3 => 0x4eu8,
        Opcode::iastore => 0x4fu8,
        Opcode::lastore => 0x50u8,
        Opcode::fastore => 0x51u8,
        Opcode::dastore => 0x52u8,
        Opcode::aastore => 0x53u8,
        Opcode::bastore => 0x54u8,
        Opcode::castore => 0x55u8,
        Opcode::sastore => 0x56u8,
        Opcode::pop => 0x57u8,
        Opcode::pop2 => 0x58u8,
        Opcode::dup => 0x59u8,
        Opcode::dup_x1 => 0x5au8,
        Opcode::dup_x2 => 0x5bu8,
        Opcode::dup2 => 0x5cu8,
        Opcode::dup2_x1 => 0x5du8,
        Opcode::dup2_x2 => 0x5eu8,
        Opcode::swap => 0x5fu8,
        Opcode::iadd => 0x60u8,
        Opcode::ladd => 0x61u8,
        Opcode::fadd => 0x62u8,
        Opcode::dadd => 0x63u8,
        Opcode::isub => 0x64u8,
        Opcode::lsub => 0x65u8,
        Opcode::fsub => 0x66u8,
        Opcode::dsub => 0x67u8,
        Opcode::imul => 0x68u8,
        Opcode::lmul => 0x69u8,
        Opcode::fmul => 0x6au8,
        Opcode::dmul => 0x6bu8,
        Opcode::idiv => 0x6cu8,
        Opcode::ldiv => 0x6du8,
        Opcode::fdiv => 0x6eu8,
        Opcode::ddiv => 0x6fu8,
        Opcode::irem => 0x70u8,
        Opcode::lrem => 0x71u8,
        Opcode::frem => 0x72u8,
        Opcode::drem => 0x73u8,
        Opcode::ineg => 0x74u8,
        Opcode::lneg => 0x75u8,
        Opcode::fneg => 0x76u8,
        Opcode::dneg => 0x77u8,
        Opcode::ishl => 0x78u8,
        Opcode::lshl => 0x79u8,
        Opcode::ishr => 0x7au8,
        Opcode::lshr => 0x7bu8,
        Opcode::iushr => 0x7cu8,
        Opcode::lushr => 0x7du8,
        Opcode::iand => 0x7eu8,
        Opcode::land => 0x7fu8,
        Opcode::ior => 0x80u8,
        Opcode::lor => 0x81u8,
        Opcode::ixor => 0x82u8,
        Opcode::lxor => 0x83u8,
        Opcode::iinc { .. } => 0x84u8,
        Opcode::i2l => 0x85u8,
        Opcode::i2f => 0x86u8,
        Opcode::i2d => 0x87u8,
        Opcode::l2i => 0x88u8,
        Opcode::l2f => 0x89u8,
        Opcode::l2d => 0x8au8,
        Opcode::f2i => 0x8bu8,
        Opcode::f2l => 0x8cu8,
        Opcode::f2d => 0x8du8,
        Opcode::d2i => 0x8eu8,
        Opcode::d2l => 0x8fu8,
        Opcode::d2f => 0x90u8,
        Opcode::i2b => 0x91u8,
        Opcode::i2c => 0x92u8,
        Opcode::i2s => 0x93u8,
        Opcode::lcmp => 0x94u8,
        Opcode::fcmpl => 0x95u8,
        Opcode::fcmpg => 0x96u8,
        Opcode::dcmpl => 0x97u8,
        Opcode::dcmpg => 0x98u8,
        Opcode::ifeq { .. } => 0x99u8,
        Opcode::ifne { .. } => 0x9au8,
        Opcode::iflt { .. } => 0x9bu8,
        Opcode::ifge { .. } => 0x9cu8,
        Opcode::ifgt { .. } => 0x9du8,
        Opcode::ifle { .. } => 0x9eu8,
        Opcode::if_icmpeq { .. } => 0x9fu8,
        Opcode::if_icmpne { .. } => 0xa0u8,
        Opcode::if_icmplt { .. } => 0xa1u8,
        Opcode::if_icmpge { .. } => 0xa2u8,
        Opcode::if_icmpgt { .. } => 0xa3u8,
        Opcode::if_icmple { .. } => 0xa4u8,
        Opcode::if_acmpeq { .. } => 0xa5u8,
        Opcode::if_acmpne { .. } => 0xa6u8,
        Opcode::goto { .. } => 0xa7u8,
        Opcode::jsr { .. } => 0xa8u8,
        Opcode::ret { .. } => 0xa9u8,
        Opcode::tableswitch { .. } => 0xaau8,
        Opcode::lookupswitch { .. } => 0xabu8,
        Opcode::ireturn => 0xacu8,
        Opcode::lreturn => 0xadu8,
        Opcode::freturn => 0xaeu8,
        Opcode::dreturn => 0xafu8,
        Opcode::areturn => 0xb0u8,
        Opcode::return_ => 0xb1u8,
        Opcode::getstatic { .. } => 0xb2u8,
        Opcode::putstatic { .. } => 0xb3u8,
        Opcode::getfield { .. } => 0xb4u8,
        Opcode::putfield { .. } => 0xb5u8,
        Opcode::invokevirtual { .. } => 0xb6u8,
        Opcode::invokespecial { .. } => 0xb7u8,
        Opcode::invokestatic { .. } => 0xb8u8,
        Opcode::invokeinterface { .. } => 0xb9u8,
        Opcode::invokedynamic { .. } => 0xbau8,
        Opcode::new { .. } => 0xbbu8,
        Opcode::newarray { .. } => 0xbcu8,
        Opcode::anewarray { .. } => 0xbdu8,
        Opcode::arraylength => 0xbeu8,
        Opcode::athrow => 0xbfu8,
        Opcode::checkcast { .. } => 0xc0u8,
        Opcode::instanceof { .. } => 0xc1u8,
        Opcode::monitorenter => 0xc2u8,
        Opcode::monitorexit => 0xc3u8,
        Opcode::wide { .. } => 0xc4u8,
        Opcode::wide_iinc { .. } => 0xc4u8,
        Opcode::multianewarray { .. } => 0xc5u8,
        Opcode::ifnull { .. } => 0xc6u8,
        Opcode::ifnonnull { .. } => 0xc7u8,
        Opcode::goto_w { .. } => 0xc8u8,
        Opcode::jsr_w { .. } => 0xc9u8,
        Opcode::breakpoint => 0xcau8,
        Opcode::reserved => 0xcbu8,
        Opcode::impdep1 => 0xfeu8,
        Opcode::impdep2 => 0xffu8,
    }
}

/// The operand bytes that follow the opcode byte of an instruction.
pub open spec fn opcode_args(op: Opcode) -> Seq<u8> {
    match op {
        Opcode::bipush { val } => seq![val],
        Opcode::sipush { val } => u16_bytes(val),
        Opcode::ldc { index } => seq![index],
        Opcode::ldc_w { index } => u16_bytes(index),
        Opcode::ldc2_w { index } => u16_bytes(index),
        Opcode::iload { index } => seq![index],
        Opcode::lload { index } => seq![index],
        Opcode::fload { index } => seq![index],
        Opcode::dload { index } => seq![index],
        Opcode::aload { index } => seq![index],
        Opcode::istore { index } => seq![index],
        Opcode::lstore { index } => seq![index],
        Opcode::fstore { index } => seq![index],
        Opcode::dstore { index } => seq![index],
        Opcode::astore { index } => seq![index],
        Opcode::iinc { index, const_ } => seq![index] + i8_bytes(const_),
        Opcode::ifeq { branch } => i16_bytes(branch),
        Opcode::ifne { branch } => i16_bytes(branch),
        Opcode::iflt { branch } => i16_bytes(branch),
        Opcode::ifge { branch } => i16_bytes(branch),
        Opcode::ifgt { branch } => i16_bytes(branch),
        Opcode::ifle { branch } => i16_bytes(branch),
        Opcode::if_icmpeq { branch } => i16_bytes(branch),
        Opcode::if_icmpne { branch } => i16_bytes(branch),
        Opcode::if_icmplt { branch } => i16_bytes(branch),
        Opcode::if_icmpge { branch } => i16_bytes(branch),
        Opcode::if_icmpgt { branch } => i16_bytes(branch),
        Opcode::if_icmple { branch } => i16_bytes(branch),
        Opcode::if_acmpeq { branch } => i16_bytes(branch),
        Opcode::if_acmpne { branch } => i16_bytes(branch),
        Opcode::goto { branch } => i16_bytes(branch),
        Opcode::jsr { branch } => i16_bytes(branch),
        Opcode::ret { index } => seq![index],
        Opcode::tableswitch { default, low, high, jump_offsets, padding } => zeros(padding)
            + i32_bytes(default) + i32_bytes(low) + i32_bytes(high) + i32s_bytes(jump_offsets@),
        Opcode::lookupswitch { default, match_offset_pairs, padding } => zeros(padding)
            + i32_bytes(default) + i32_bytes(count_i32(match_offset_pairs@.len()))
            + pairs_bytes(match_offset_pairs@),
        Opcode::getstatic { index } => u16_bytes(index),
        Opcode::putstatic { index } => u16_bytes(index),
        Opcode::getfield { index } => u16_bytes(index),
        Opcode::putfield { index } => u16_bytes(index),
        Opcode::invokevirtual { index } => u16_bytes(index),
        Opcode::invokespecial { index } => u16_bytes(index),
        Opcode::invokestatic { index } => u16_bytes(index),
        Opcode::invokeinterface { index, count } => u16_bytes(index) + seq![count, 0u8],
        Opcode::invokedynamic { index } => u16_bytes(index) + seq![0u8, 0u8],
        Opcode::new { index } => u16_bytes(index),
        Opcode::newarray { atype } => seq![atype],
        Opcode::anewarray { index } => u16_bytes(index),
        Opcode::checkcast { index } => u16_bytes(index),
        Opcode::instanceof { index } => u16_bytes(index),
        Opcode::wide { opcode, index } => seq![opcode] + u16_bytes(index),
        Opcode::wide_iinc { index, const_ } => seq![0x84u8] + u16_bytes(index) + i16_bytes(const_),
        Opcode::multianewarray { index, dimensions } => u16_bytes(index) + seq![dimensions],
        Opcode::ifnull { branch } => i16_bytes(branch),
        Opcode::ifnonnull { branch } => i16_bytes(branch),
        Opcode::goto_w { branch } => i32_bytes(branch),
        Opcode::jsr_w { branch } => i32_bytes(branch),
        _ => Seq::empty(),
    }
}

/// The encoded length of the instruction at `s[pos]`, for every opcode byte but the two
/// switches (whose length depends on their operands).
pub open spec fn fixed_len(s: Seq<u8>, pos: int) -> int {
    let b = s[pos];
    if b == 0x10u8 || b == 0x12u8 || b == 0x15u8 || b == 0x16u8 || b == 0x17u8 || b == 0x18u8 || b == 0x19u8 || b == 0x36u8 || b == 0x37u8 || b == 0x38u8 || b == 0x39u8 || b == 0x3au8 || b == 0xa9u8 || b == 0xbcu8 {
        2
    } else if b == 0x11u8 || b == 0x13u8 || b == 0x14u8 || b == 0x84u8 || b == 0x99u8 || b == 0x9au8 || b == 0x9bu8 || b == 0x9cu8 || b == 0x9du8 || b == 0x9eu8 || b == 0x9fu8 || b == 0xa0u8 || b == 0xa1u8 || b == 0xa2u8 || b == 0xa3u8 || b == 0xa4u8 || b == 0xa5u8 || b == 0xa6u8 || b == 0xa7u8 || b == 0xa8u8 || b == 0xb2u8 || b == 0xb3u8 || b == 0xb4u8 || b == 0xb5u8 || b == 0xb6u8 || b == 0xb7u8 || b == 0xb8u8 || b == 0xbbu8 || b == 0xbdu8 || b == 0xc0u8 || b == 0xc1u8 || b == 0xc6u8 || b == 0xc7u8 {
        3
    } else if b == 0xc5u8 {
        4
    } else if b == 0xb9u8 || b == 0xbau8 || b == 0xc8u8 || b == 0xc9u8 {
        5
    } else if b == 0xc4u8 {
        if pos + 1 < s.len() && s[pos + 1] == 0x84u8 { 6 } else { 4 }
    } else {
        1
    }
}

/// The instruction at `s[pos]`, for every opcode byte but the two switches.
pub open spec fn decode_fixed(s: Seq<u8>, pos: int) -> Opcode {
    match s[pos] {
        0x00u8 => Opcode::nop,
        0x01u8 => Opcode::aconst_null,
        0x02u8 => Opcode::iconst_m1,
        0x03u8 => Opcode::iconst_0,
        0x04u8 => Opcode::iconst_1,
        0x05u8 => Opcode::iconst_2,
        0x06u8 => Opcode::iconst_3,
        0x07u8 => Opcode::iconst_4,
        0x08u8 => Opcode::iconst_5,
        0x09u8 => Opcode::lconst_0,
        0x0au8 => Opcode::lconst_1,
        0x0bu8 => Opcode::fconst_0,
        0x0cu8 => Opcode::fconst_1,
        0x0du8 => Opcode::fconst_2,
        0x0eu8 => Opcode::dconst_0,
        0x0fu8 => Opcode::dconst_1,
        0x10u8 => Opcode::bipush { val: s[pos + 1] },
        0x11u8 => Opcode::sipush { val: be16(s, pos + 1) },
        0x12u8 => Opcode::ldc { index: s[pos + 1] },
        0x13u8 => Opcode::ldc_w { index: be16(s, pos + 1) },
        0x14u8 => Opcode::ldc2_w { index: be16(s, pos + 1) },
        0x15u8 => Opcode::iload { index: s[pos + 1] },
        0x16u8 => Opcode::lload { index: s[pos + 1] },
        0x17u8 => Opcode::fload { index: s[pos + 1] },
        0x18u8 => Opcode::dload { index: s[pos + 1] },
        0x19u8 => Opcode::aload { index: s[pos + 1] },
        0x1au8 => Opcode::iload_0,
        0x1bu8 => Opcode::iload_1,
        0x1cu8 => Opcode::iload_2,
        0x1du8 => Opcode::iload_3,
        0x1eu8 => Opcode::lload_0,
        0x1fu8 => Opcode::lload_1,
        0x20u8 => Opcode::lload_2,
        0x21u8 => Opcode::lload_3,
        0x22u8 => Opcode::fload_0,
        0x23u8 => Opcode::fload_1,
        0x24u8 => Opcode::fload_2,
        0x25u8 => Opcode::fload_3,
        0x26u8 => Opcode::dload_0,
        0x27u8 => Opcode::dload_1,
        0x28u8 => Opcode::dload_2,
        0x29u8 => Opcode::dload_3,
        0x2au8 => Opcode::aload_0,
        0x2bu8 => Opcode::aload_1,
        0x2cu8 => Opcode::aload_2,
        0x2du8 => Opcode::aload_3,
        0x2eu8 => Opcode::iaload,
        0x2fu8 => Opcode::laload,
        0x30u8 => Opcode::faload,
        0x31u8 => Opcode::daload,
        0x32u8 => Opcode::aaload,
        0x33u8 => Opcode::baload,
        0x34u8 => Opcode::caload,
        0x35u8 => Opcode::saload,
        0x36u8 => Opcode::istore { index: s[pos + 1] },
        0x37u8 => Opcode::lstore { index: s[pos + 1] },
        0x38u8 => Opcode::fstore { index: s[pos + 1] },
        0x39u8 => Opcode::dstore { index: s[pos + 1] },
        0x3au8 => Opcode::astore { index: s[pos + 1] },
        0x3bu8 => Opcode::istore_0,
        0x3cu8 => Opcode::istore_1,
        0x3du8 => Opcode::istore_2,
        0x3eu8 => Opcode::istore_3,
        0x3fu8 => Opcode::lstore_0,
        0x40u8 => Opcode::lstore_1,
        0x41u8 => Opcode::lstore_2,
        0x42u8 => Opcode::lstore_3,
        0x43u8 => Opcode::fstore_0,
        0x44u8 => Opcode::fstore_1,
        0x45u8 => Opcode::fstore_2,
        0x46u8 => Opcode::fstore_3,
        0x47u8 => Opcode::dstore_0,
        0x48u8 => Opcode::dstore_1,
        0x49u8 => Opcode::dstore_2,
        0x4au8 => Opcode::dstore_3,
        0x4bu8 => Opcode::astore_0,
        0x4cu8 => Opcode::astore_1,
        0x4du8 => Opcode::astore_2,
        0x4eu8 => Opcode::astore_3,
        0x4fu8 => Opcode::iastore,
        0x50u8 => Opcode::lastore,
        0x51u8 => Opcode::fastore,
        0x52u8 => Opcode::dastore,
        0x53u8 => Opcode::aastore,
        0x54u8 => Opcode::bastore,
        0x55u8 => Opcode::castore,
        0x56u8 => Opcode::sastore,
        0x57u8 => Opcode::pop,
        0x58u8 => Opcode::pop2,
        0x59u8 => Opcode::dup,
        0x5au8 => Opcode::dup_x1,
        0x5bu8 => Opcode::dup_x2,
        0x5cu8 => Opcode::dup2,
        0x5du8 => Opcode::dup2_x1,
        0x5eu8 => Opcode::dup2_x2,
        0x5fu8 => Opcode::swap,
        0x60u8 => Opcode::iadd,
        0x61u8 => Opcode::ladd,
        0x62u8 => Opcode::fadd,
        0x63u8 => Opcode::dadd,
        0x64u8 => Opcode::isub,
        0x65u8 => Opcode::lsub,
        0x66u8 => Opcode::fsub,
        0x67u8 => Opcode::dsub,
        0x68u8 => Opcode::imul,
        0x69u8 => Opcode::lmul,
        0x6au8 => Opcode::fmul,
        0x6bu8 => Opcode::dmul,
        0x6cu8 => Opcode::idiv,
        0x6du8 => Opcode::ldiv,
        0x6eu8 => Opcode::fdiv,
        0x6fu8 => Opcode::ddiv,
        0x70u8 => Opcode::irem,
        0x71u8 => Opcode::lrem,
        0x72u8 => Opcode::frem,
        0x73u8 => Opcode::drem,
        0x74u8 => Opcode::ineg,
        0x75u8 => Opcode::lneg,
        0x76u8 => Opcode::fneg,
        0x77u8 => Opcode::dneg,
        0x78u8 => Opcode::ishl,
        0x79u8 => Opcode::lshl,
        0x7au8 => Opcode::ishr,
        0x7bu8 => Opcode::lshr,
        0x7cu8 => Opcode::iushr,
        0x7du8 => Opcode::lushr,
        0x7eu8 => Opcode::iand,
        0x7fu8 => Opcode::land,
        0x80u8 => Opcode::ior,
        0x81u8 => Opcode::lor,
        0x82u8 => Opcode::ixor,
        0x83u8 => Opcode::lxor,
        0x84u8 => Opcode::iinc { index: s[pos + 1], const_: byte_i8(s, pos + 2) },
        0x85u8 => Opcode::i2l,
        0x86u8 => Opcode::i2f,
        0x87u8 => Opcode::i2d,
        0x88u8 => Opcode::l2i,
        0x89u8 => Opcode::l2f,
        0x8au8 => Opcode::l2d,
        0x8bu8 => Opcode::f2i,
        0x8cu8 => Opcode::f2l,
        0x8du8 => Opcode::f2d,
        0x8eu8 => Opcode::d2i,
        0x8fu8 => Opcode::d2l,
        0x90u8 => Opcode::d2f,
        0x91u8 => Opcode::i2b,
        0x92u8 => Opcode::i2c,
        0x93u8 => Opcode::i2s,
        0x94u8 => Opcode::lcmp,
        0x95u8 => Opcode::fcmpl,
        0x96u8 => Opcode::fcmpg,
        0x97u8 => Opcode::dcmpl,
        0x98u8 => Opcode::dcmpg,
        0x99u8 => Opcode::ifeq { branch: be16_i16(s, pos + 1) },
        0x9au8 => Opcode::ifne { branch: be16_i16(s, pos + 1) },
        0x9bu8 => Opcode::iflt { branch: be16_i16(s, pos + 1) },
        0x9cu8 => Opcode::ifge { branch: be16_i16(s, pos + 1) },
        0x9du8 => Opcode::ifgt { branch: be16_i16(s, pos + 1) },
        0x9eu8 => Opcode::ifle { branch: be16_i16(s, pos + 1) },
        0x9fu8 => Opcode::if_icmpeq { branch: be16_i16(s, pos + 1) },
        0xa0u8 => Opcode::if_icmpne { branch: be16_i16(s, pos + 1) },
        0xa1u8 => Opcode::if_icmplt { branch: be16_i16(s, pos + 1) },
        0xa2u8 => Opcode::if_icmpge { branch: be16_i16(s, pos + 1) },
        0xa3u8 => Opcode::if_icmpgt { branch: be16_i16(s, pos + 1) },
        0xa4u8 => Opcode::if_icmple { branch: be16_i16(s, pos + 1) },
        0xa5u8 => Opcode::if_acmpeq { branch: be16_i16(s, pos + 1) },
        0xa6u8 => Opcode::if_acmpne { branch: be16_i16(s, pos + 1) },
        0xa7u8 => Opcode::goto { branch: be16_i16(s, pos + 1) },
        0xa8u8 => Opcode::jsr { branch: be16_i16(s, pos + 1) },
        0xa9u8 => Opcode::ret { index: s[pos + 1] },
        0xacu8 => Opcode::ireturn,
        0xadu8 => Opcode::lreturn,
        0xaeu8 => Opcode::freturn,
        0xafu8 => Opcode::dreturn,
        0xb0u8 => Opcode::areturn,
        0xb1u8 => Opcode::return_,
        0xb2u8 => Opcode::getstatic { index: be16(s, pos + 1) },
        0xb3u8 => Opcode::putstatic { index: be16(s, pos + 1) },
        0xb4u8 => Opcode::getfield { index: be16(s, pos + 1) },
        0xb5u8 => Opcode::putfield { index: be16(s, pos + 1) },
        0xb6u8 => Opcode::invokevirtual { index: be16(s, pos + 1) },
        0xb7u8 => Opcode::invokespecial { index: be16(s, pos + 1) },
        0xb8u8 => Opcode::invokestatic { index: be16(s, pos + 1) },
        0xb9u8 => Opcode::invokeinterface { index: be16(s, pos + 1), count: s[pos + 3] },
        0xbau8 => Opcode::invokedynamic { index: be16(s, pos + 1) },
        0xbbu8 => Opcode::new { index: be16(s, pos + 1) },
        0xbcu8 => Opcode::newarray { atype: s[pos + 1] },
        0xbdu8 => Opcode::anewarray { index: be16(s, pos + 1) },
        0xbeu8 => Opcode::arraylength,
        0xbfu8 => Opcode::athrow,
        0xc0u8 => Opcode::checkcast { index: be16(s, pos + 1) },
        0xc1u8 => Opcode::instanceof { index: be16(s, pos + 1) },
        0xc2u8 => Opcode::monitorenter,
        0xc3u8 => Opcode::monitorexit,
        0xc4u8 => if s[pos + 1] == 0x84u8 {
            Opcode::wide_iinc { index: be16(s, pos + 2), const_: be16_i16(s, pos + 4) }
        } else {
            Opcode::wide { opcode: s[pos + 1], index: be16(s, pos + 2) }
        },
        0xc5u8 => Opcode::multianewarray { index: be16(s, pos + 1), dimensions: s[pos + 3] },
        0xc6u8 => Opcode::ifnull { branch: be16_i16(s, pos + 1) },
        0xc7u8 => Opcode::ifnonnull { branch: be16_i16(s, pos + 1) },
        0xc8u8 => Opcode::goto_w { branch: be32_i32(s, pos + 1) },
        0xc9u8 => Opcode::jsr_w { branch: be32_i32(s, pos + 1) },
        0xcau8 => Opcode::breakpoint,
        0xfeu8 => Opcode::impdep1,
        0xffu8 => Opcode::impdep2,
        _ => Opcode::reserved,
    }
}

/// Where the instruction at `s[pos]` ends, or `None` if the bytes run out before it does.
/// `start` is where the method body begins.
pub open spec fn opcode_end(s: Seq<u8>, pos: int, start: u32) -> Option<int> {
    if pos < 0 || pos >= s.len() {
        None
    } else if s[pos] == 0xaau8 {
        let h = switch_operands(pos, start);
        if h + 12 > s.len() {
            None
        } else if h + 12 + 4 * table_count(s, h) > s.len() {
            None
        } else {
            Some(h + 12 + 4 * table_count(s, h))
        }
    } else if s[pos] == 0xabu8 {
        let h = switch_operands(pos, start);
        if h + 8 > s.len() {
            None
        } else if h + 8 + 8 * lookup_count(s, h) > s.len() {
            None
        } else {
            Some(h + 8 + 8 * lookup_count(s, h))
        }
    } else if pos + fixed_len(s, pos) > s.len() {
        None
    } else {
        Some(pos + fixed_len(s, pos))
    }
}

/// `op` is the instruction encoded at `s[pos]` (given that `opcode_end` is `Some`).
pub open spec fn opcode_is(s: Seq<u8>, pos: int, start: u32, op: Opcode) -> bool {
    if s[pos] == 0xaau8 {
        let h = switch_operands(pos, start);
        match op {
            Opcode::tableswitch { default, low, high, jump_offsets, padding } => {
                &&& padding == switch_padding(pos, start)
                &&& default == be32_i32(s, h)
                &&& low == be32_i32(s, h + 4)
                &&& high == be32_i32(s, h + 8)
                &&& jump_offsets@.len() == table_count(s, h)
                &&& forall|i: int|
                    0 <= i < jump_offsets@.len() ==> #[trigger] jump_offsets@[i] == be32_i32(
                        s,
                        h + 12 + 4 * i,
                    )
            },
            _ => false,
        }
    } else if s[pos] == 0xabu8 {
        let h = switch_operands(pos, start);
        match op {
            Opcode::lookupswitch { default, match_offset_pairs, padding } => {
                &&& padding == switch_padding(pos, start)
                &&& default == be32_i32(s, h)
                &&& match_offset_pairs@.len() == lookup_count(s, h)
                &&& forall|i: int|
                    0 <= i < match_offset_pairs@.len() ==> #[trigger] match_offset_pairs@[i] == (
                        be32_i32(s, h + 8 + 8 * i),
                        be32_i32(s, h + 12 + 8 * i),
                    )
            },
            _ => false,
        }
    } else {
        op == decode_fixed(s, pos)
    }
}

/// `r` is a copy of `o`: the same instruction with the same operands (the lists of a
/// switch hold the same items).
pub open spec fn opcode_copy_of(r: Opcode, o: Opcode) -> bool {
    match o {
        Opcode::tableswitch { default: o_default, low: o_low, high: o_high, jump_offsets: o_jump_offsets, padding: o_padding } => match r {
            Opcode::tableswitch { default, low, high, jump_offsets, padding } => default == o_default && low == o_low && high == o_high && jump_offsets@ == o_jump_offsets@ && padding == o_padding,
            _ => false,
        },
        Opcode::lookupswitch { default: o_default, match_offset_pairs: o_match_offset_pairs, padding: o_padding } => match r {
            Opcode::lookupswitch { default, match_offset_pairs, padding } => default == o_default && match_offset_pairs@ == o_match_offset_pairs@ && padding == o_padding,
            _ => false,
        },
        _ => r == o,
    }
}

/// A new list holding the items of `v`, in order.
fn copy_items<T: Copy>(v: &Vec<T>) -> (w: Vec<T>)
    ensures
        w@ == v@,
{
    let mut w: Vec<T> = Vec::new();
    let mut i: usize = 0;
    while i < v.len()
        invariant
            i <= v@.len(),
            w@ == v@.take(i as int),
        decreases v@.len() - i,
    {
        w.push(v[i]);
        assert(v@.take(i + 1) =~= v@.take(i as int).push(v@[i as int]));
        i = i + 1;
    }
    assert(v@.take(v@.len() as int) =~= v@);
    w
}

impl Clone for Opcode {
    fn clone(&self) -> (r: Opcode)
        ensures
            opcode_copy_of(r, *self),
    {
        match self {
            Opcode::nop => Opcode::nop,
            Opcode::aconst_null => Opcode::aconst_null,
            Opcode::iconst_m1 => Opcode::iconst_m1,
            Opcode::iconst_0 => Opcode::iconst_0,
            Opcode::iconst_1 => Opcode::iconst_1,
            Opcode::iconst_2 => Opcode::iconst_2,
            Opcode::iconst_3 => Opcode::iconst_3,
            Opcode::iconst_4 => Opcode::iconst_4,
            Opcode::iconst_5 => Opcode::iconst_5,
            Opcode::lconst_0 => Opcode::lconst_0,
            Opcode::lconst_1 => Opcode::lconst_1,
            Opcode::fconst_0 => Opcode::fconst_0,
            Opcode::fconst_1 => Opcode::fconst_1,
            Opcode::fconst_2 => Opcode::fconst_2,
            Opcode::dconst_0 => Opcode::dconst_0,
            Opcode::dconst_1 => Opcode::dconst_1,
            Opcode::bipush { val } => Opcode::bipush { val: *val },
            Opcode::sipush { val } => Opcode::sipush { val: *val },
            Opcode::ldc { index } => Opcode::ldc { index: *index },
            Opcode::ldc_w { index } => Opcode::ldc_w { index: *index },
            Opcode::ldc2_w { index } => Opcode::ldc2_w { index: *index },
            Opcode::iload { index } => Opcode::iload { index: *index },
            Opcode::lload { index } => Opcode::lload { index: *index },
            Opcode::fload { index } => Opcode::fload { index: *index },
            Opcode::dload { index } => Opcode::dload { index: *index },
            Opcode::aload { index } => Opcode::aload { index: *index },
            Opcode::iload_0 => Opcode::iload_0,
            Opcode::iload_1 => Opcode::iload_1,
            Opcode::iload_2 => Opcode::iload_2,
            Opcode::iload_3 => Opcode::iload_3,
            Opcode::lload_0 => Opcode::lload_0,
            Opcode::lload_1 => Opcode::lload_1,
            Opcode::lload_2 => Opcode::lload_2,
            Opcode::lload_3 => Opcode::lload_3,
            Opcode::fload_0 => Opcode::fload_0,
            Opcode::fload_1 => Opcode::fload_1,
            Opcode::fload_2 => Opcode::fload_2,
            Opcode::fload_3 => Opcode::fload_3,
            Opcode::dload_0 => Opcode::dload_0,
            Opcode::dload_1 => Opcode::dload_1,
            Opcode::dload_2 => Opcode::dload_2,
            Opcode::dload_3 => Opcode::dload_3,
            Opcode::aload_0 => Opcode::aload_0,
            Opcode::aload_1 => Opcode::aload_1,
            Opcode::aload_2 => Opcode::aload_2,
            Opcode::aload_3 => Opcode::aload_3,
            Opcode::iaload => Opcode::iaload,
            Opcode::laload => Opcode::laload,
            Opcode::faload => Opcode::faload,
            Opcode::daload => Opcode::daload,
            Opcode::aaload => Opcode::aaload,
            Opcode::baload => Opcode::baload,
            Opcode::caload => Opcode::caload,
            Opcode::saload => Opcode::saload,
            Opcode::istore { index } => Opcode::istore { index: *index },
            Opcode::lstore { index } => Opcode::lstore { index: *index },
            Opcode::fstore { index } => Opcode::fstore { index: *index },
            Opcode::dstore { index } => Opcode::dstore { index: *index },
            Opcode::astore { index } => Opcode::astore { index: *index },
            Opcode::istore_0 => Opcode::istore_0,
            Opcode::istore_1 => Opcode::istore_1,
            Opcode::istore_2 => Opcode::istore_2,
            Opcode::istore_3 => Opcode::istore_3,
            Opcode::lstore_0 => Opcode::lstore_0,
            Opcode::lstore_1 => Opcode::lstore_1,
            Opcode::lstore_2 => Opcode::lstore_2,
            Opcode::lstore_3 => Opcode::lstore_3,
            Opcode::fstore_0 => Opcode::fstore_0,
            Opcode::fstore_1 => Opcode::fstore_1,
            Opcode::fstore_2 => Opcode::fstore_2,
            Opcode::fstore_3 => Opcode::fstore_3,
            Opcode::dstore_0 => Opcode::dstore_0,
            Opcode::dstore_1 => Opcode::dstore_1,
            Opcode::dstore_2 => Opcode::dstore_2,
            Opcode::dstore_3 => Opcode::dstore_3,
            Opcode::astore_0 => Opcode::astore_0,
            Opcode::astore_1 => Opcode::astore_1,
            Opcode::astore_2 => Opcode::astore_2,
            Opcode::astore_3 => Opcode::astore_3,
            Opcode::iastore => Opcode::iastore,
            Opcode::lastore => Opcode::lastore,
            Opcode::fastore => Opcode::fastore,
            Opcode::dastore => Opcode::dastore,
            Opcode::aastore => Opcode::aastore,
            Opcode::bastore => Opcode::bastore,
            Opcode::castore => Opcode::castore,
            Opcode::sastore => Opcode::sastore,
            Opcode::pop => Opcode::pop,
            Opcode::pop2 => Opcode::pop2,
            Opcode::dup => Opcode::dup,
            Opcode::dup_x1 => Opcode::dup_x1,
            Opcode::dup_x2 => Opcode::dup_x2,
            Opcode::dup2 => Opcode::dup2,
            Opcode::dup2_x1 => Opcode::dup2_x1,
            Opcode::dup2_x2 => Opcode::dup2_x2,
            Opcode::swap => Opcode::swap,
            Opcode::iadd => Opcode::iadd,
            Opcode::ladd => Opcode::ladd,
            Opcode::fadd => Opcode::fadd,
            Opcode::dadd => Opcode::dadd,
            Opcode::isub => Opcode::isub,
            Opcode::lsub => Opcode::lsub,
            Opcode::fsub => Opcode::fsub,
            Opcode::dsub => Opcode::dsub,
            Opcode::imul => Opcode::imul,
            Opcode::lmul => Opcode::lmul,
            Opcode::fmul => Opcode::fmul,
            Opcode::dmul => Opcode::dmul,
            Opcode::idiv => Opcode::idiv,
            Opcode::ldiv => Opcode::ldiv,
            Opcode::fdiv => Opcode::fdiv,
            Opcode::ddiv => Opcode::ddiv,
            Opcode::irem => Opcode::irem,
            Opcode::lrem => Opcode::lrem,
            Opcode::frem => Opcode::frem,
            Opcode::drem => Opcode::drem,
            Opcode::ineg => Opcode::ineg,
            Opcode::lneg => Opcode::lneg,
            Opcode::fneg => Opcode::fneg,
            Opcode::dneg => Opcode::dneg,
            Opcode::ishl => Opcode::ishl,
            Opcode::lshl => Opcode::lshl,
            Opcode::ishr => Opcode::ishr,
            Opcode::lshr => Opcode::lshr,
            Opcode::iushr => Opcode::iushr,
            Opcode::lushr => Opcode::lushr,
            Opcode::iand => Opcode::iand,
            Opcode::land => Opcode::land,
            Opcode::ior => Opcode::ior,
            Opcode::lor => Opcode::lor,
            Opcode::ixor => Opcode::ixor,
            Opcode::lxor => Opcode::lxor,
            Opcode::iinc { index, const_ } => Opcode::iinc { index: *index, const_: *const_ },
            Opcode::i2l => Opcode::i2l,
            Opcode::i2f => Opcode::i2f,
            Opcode::i2d => Opcode::i2d,
            Opcode::l2i => Opcode::l2i,
            Opcode::l2f => Opcode::l2f,
            Opcode::l2d => Opcode::l2d,
            Opcode::f2i => Opcode::f2i,
            Opcode::f2l => Opcode::f2l,
            Opcode::f2d => Opcode::f2d,
            Opcode::d2i => Opcode::d2i,
            Opcode::d2l => Opcode::d2l,
            Opcode::d2f => Opcode::d2f,
            Opcode::i2b => Opcode::i2b,
            Opcode::i2c => Opcode::i2c,
            Opcode::i2s => Opcode::i2s,
            Opcode::lcmp => Opcode::lcmp,
            Opcode::fcmpl => Opcode::fcmpl,
            Opcode::fcmpg => Opcode::fcmpg,
            Opcode::dcmpl => Opcode::dcmpl,
            Opcode::dcmpg => Opcode::dcmpg,
            Opcode::ifeq { branch } => Opcode::ifeq { branch: *branch },
            Opcode::ifne { branch } => Opcode::ifne { branch: *branch },
            Opcode::iflt { branch } => Opcode::iflt { branch: *branch },
            Opcode::ifge { branch } => Opcode::ifge { branch: *branch },
            Opcode::ifgt { branch } => Opcode::ifgt { branch: *branch },
            Opcode::ifle { branch } => Opcode::ifle { branch: *branch },
            Opcode::if_icmpeq { branch } => Opcode::if_icmpeq { branch: *branch },
            Opcode::if_icmpne { branch } => Opcode::if_icmpne { branch: *branch },
            Opcode::if_icmplt { branch } => Opcode::if_icmplt { branch: *branch },
            Opcode::if_icmpge { branch } => Opcode::if_icmpge { branch: *branch },
            Opcode::if_icmpgt { branch } => Opcode::if_icmpgt { branch: *branch },
            Opcode::if_icmple { branch } => Opcode::if_icmple { branch: *branch },
            Opcode::if_acmpeq { branch } => Opcode::if_acmpeq { branch: *branch },
            Opcode::if_acmpne { branch } => Opcode::if_acmpne { branch: *branch },
            Opcode::goto { branch } => Opcode::goto { branch: *branch },
            Opcode::jsr { branch } => Opcode::jsr { branch: *branch },
            Opcode::ret { index } => Opcode::ret { index: *index },
            Opcode::tableswitch { default, low, high, jump_offsets, padding } => Opcode::tableswitch { default: *default, low: *low, high: *high, jump_offsets: copy_items(jump_offsets), padding: *padding },
            Opcode::lookupswitch { default, match_offset_pairs, padding } => Opcode::lookupswitch { default: *default, match_offset_pairs: copy_items(match_offset_pairs), padding: *padding },
            Opcode::ireturn => Opcode::ireturn,
            Opcode::lreturn => Opcode::lreturn,
            Opcode::freturn => Opcode::freturn,
            Opcode::dreturn => Opcode::dreturn,
            Opcode::areturn => Opcode::areturn,
            Opcode::return_ => Opcode::return_,
            Opcode::getstatic { index } => Opcode::getstatic { index: *index },
            Opcode::putstatic { index } => Opcode::putstatic { index: *index },
            Opcode::getfield { index } => Opcode::getfield { index: *index },
            Opcode::putfield { index } => Opcode::putfield { index: *index },
            Opcode::invokevirtual { index } => Opcode::invokevirtual { index: *index },
            Opcode::invokespecial { index } => Opcode::invokespecial { index: *index },
            Opcode::invokestatic { index } => Opcode::invokestatic { index: *index },
            Opcode::invokeinterface { index, count } => Opcode::invokeinterface { index: *index, count: *count },
            Opcode::invokedynamic { index } => Opcode::invokedynamic { index: *index },
            Opcode::new { index } => Opcode::new { index: *index },
            Opcode::newarray { atype } => Opcode::newarray { atype: *atype },
            Opcode::anewarray { index } => Opcode::anewarray { index: *index },
            Opcode::arraylength => Opcode::arraylength,
            Opcode::athrow => Opcode::athrow,
            Opcode::checkcast { index } => Opcode::checkcast { index: *index },
            Opcode::instanceof { index } => Opcode::instanceof { index: *index },
            Opcode::monitorenter => Opcode::monitorenter,
            Opcode::monitorexit => Opcode::monitorexit,
            Opcode::wide { opcode, index } => Opcode::wide { opcode: *opcode, index: *index },
            Opcode::wide_iinc { index, const_ } => Opcode::wide_iinc { index: *index, const_: *const_ },
            Opcode::multianewarray { index, dimensions } => Opcode::multianewarray { index: *index, dimensions: *dimensions },
            Opcode::ifnull { branch } => Opcode::ifnull { branch: *branch },
            Opcode::ifnonnull { branch } => Opcode::ifnonnull { branch: *branch },
            Opcode::goto_w { branch } => Opcode::goto_w { branch: *branch },
            Opcode::jsr_w { branch } => Opcode::jsr_w { branch: *branch },
            Opcode::breakpoint => Opcode::breakpoint,
            Opcode::reserved => Opcode::reserved,
            Opcode::impdep1 => Opcode::impdep1,
            Opcode::impdep2 => Opcode::impdep2,
        }
    }
}

} // verus!
