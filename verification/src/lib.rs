//! A small register machine and the line-oriented assembly front end that
//! feeds it.
//!
//! Source text is cut into lexemes with byte spans ([`scan`], [`lex`]),
//! recognised line by line against the grammar ([`token`], [`grammar`],
//! [`parse`]) and run on the engine ([`machine`], [`vm`]). Names and string
//! literals live in the symbol table ([`intern`]).
//!
//! Each module states what its functions do over a mathematical model: the
//! lexer over the bytes of the text, the parser over the state of the lexer
//! and the tables it fills, the engine over a machine made of registers,
//! flags, memory and tables. The executable functions are proved against
//! these statements, and so are the laws that tie them together: the
//! lexemes of a text cover it ([`lex::lemma_lexer_complete`]), a label is
//! bound to the instruction behind it ([`listing::lemma_label_indexing`]),
//! the engine is deterministic ([`machine::lemma_run_deterministic`]) and
//! its stack gives back last what was pushed first
//! ([`stack::lemma_stack_lifo`]).

pub mod alu;
pub mod feeds;
pub mod grammar;
pub mod intern;
pub mod isa;
pub mod lex;
pub mod listing;
pub mod machine;
pub mod parse;
pub mod scan;
pub mod span;
pub mod stack;
pub mod token;
pub mod vm;

pub use crate::intern::{Symbol, SymbolTable};
pub use crate::isa::{
    mem, reg, Address, HexSize, IHexSize, JmpKind, Op, Register, Sequence, ValIndex, Value,
    HEX_MEM_SIZE, MEM_SIZE,
};
pub use crate::stack::{Fault, FlagSet, RegisterSet};
pub use crate::vm::HexVm;
