//! Reading, writing and naming the parts of Java class files.
use vstd::prelude::*;

pub mod bytes;
pub mod error;
pub mod reader;
pub mod text;
pub mod mutf8;
pub mod mutf8_laws;
pub mod grammar;
pub mod attr_spec;
pub mod attr_lemmas;
pub mod attr_parse;
pub mod attr_names;
pub mod attr_tables;
pub mod record_layout;
pub mod switch_layout;
pub mod opcodes;
pub mod bytecode_tools;
pub mod opcode_table;
pub mod cp_info;
pub mod cp;
pub mod cp_parse;
pub mod cp_layout;
pub mod attributes;
pub mod methods;
pub mod fields;
pub mod class;
pub mod builders;
pub mod names;
pub mod runtime;
pub mod class_graph;
pub mod truncation;
pub mod interp;
pub mod interp_laws;
pub mod code_layout;
pub mod heap;
pub mod run;

pub use names::{JVMClassName, JVMFieldLocator, JVMFieldName, JVMMethodLocator, JVMMethodName};

verus! {

} // verus!
