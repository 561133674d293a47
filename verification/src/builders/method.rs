//! Building the code of a method.
use vstd::prelude::*;
use crate::opcodes::Opcode;

verus! {

/// The instructions and parameter types of a method under construction.
pub struct MethodBuilder {
    code: Vec<Opcode>,
    params: Vec<u8>,
}

} // verus!
