//! Lowering of structured, stack-based bytecode onto call/return stack machines.
//!
//! A program arrives as a tree of operations ([`ops`]): functions whose
//! bodies hold blocks and loops, and branches that name an enclosing
//! construct by its relative depth. The machines it is compiled for know
//! calls, returns and a conditional skip, and nothing else that steers the
//! control flow. The crate holds
//!
//! - the value types and index spaces of a module ([`types`]);
//! - the stack-shape analysis: the height of the operand stack before each
//!   operation ([`stack_depth`]);
//! - outlining: every block and loop becomes a procedure of the flat
//!   instruction stream ([`ir`]), and every branch a return that leaves a
//!   count in the branch-signal register ([`outline`]), under names that
//!   spell the way to the block ([`naming`]);
//! - what both programs mean ([`semantics`]) and the proof that outlining
//!   keeps the meaning ([`simulation`]);
//! - the frame of the frame-pointer machine and the lowering of the
//!   operations that touch it ([`valida`]);
//! - the instruction selection, the sink and the listing of the Miden
//!   backend ([`miden`]), with the decimal rendering that listings use
//!   ([`text`]).
//!
//! Every function carries a contract that Verus proves.

pub mod ir;
pub mod miden;
pub mod naming;
pub mod ops;
pub mod outline;
pub mod semantics;
pub mod simulation;
pub mod stack_depth;
pub mod text;
pub mod types;
pub mod valida;
