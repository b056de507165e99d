//! The flat instruction stream that the backends consume: a module is an
//! ordered list of procedures, a procedure an ordered list of instructions.
//! Nested blocks and loops do not occur here; they have been outlined into
//! procedures of their own before a module of this kind is built.

use std::collections::HashMap;
use vstd::prelude::*;
use crate::ops::ValidaOp;
use crate::types::FuncIndex;

verus! {

broadcast use vstd::std_specs::hash::group_hash_axioms;

/// Width of the value that a memory access moves.
#[derive(Debug, Copy, Clone, PartialEq, Eq, Hash, Structural)]
pub enum MemAccessOpValueType {
    /// i32
    I32,
    /// i64
    I64,
}

/// The name of an access width, as listings write it.
pub open spec fn mem_access_type_name(ty: MemAccessOpValueType) -> Seq<char> {
    match ty {
        MemAccessOpValueType::I32 => "I32"@,
        MemAccessOpValueType::I64 => "I64"@,
    }
}

impl MemAccessOpValueType {
    /// Renders the access width by its name.
    pub fn to_string(&self) -> (text: String)
        ensures
            text@ == mem_access_type_name(*self),
    {
        match self {
            MemAccessOpValueType::I32 => String::from_str("I32"),
            MemAccessOpValueType::I64 => String::from_str("I64"),
        }
    }
}

/// Intrinsics of the Miden machine.
#[derive(Debug, Copy, Clone, PartialEq, Eq, Hash, Structural)]
pub enum MidenExt {
    /// Push the current depth of the operand stack.
    SDepth,
    /// Open a `while.true` region.
    While,
    /// Close the innermost open region.
    End,
}

/// Target-specific intrinsics: the one open variant of [`Inst`], tagged by the
/// backend that understands it.
#[derive(Debug, Copy, Clone, PartialEq, Eq, Hash, Structural)]
pub enum Ext {
    /// An intrinsic of the Miden machine.
    Miden(MidenExt),
    /// An instruction of the frame-pointer machine.
    Valida(ValidaOp),
}

/// One instruction of the flat stream.
#[allow(inconsistent_fields)]
#[derive(Debug, Copy, Clone, PartialEq, Eq, Hash, Structural)]
pub enum Inst {
    /// Does nothing.
    Nop,
    /// Marks the end of a procedure.
    End,
    /// Returns from the current procedure.
    Return,
    /// Calls the procedure with the given index.
    Call { func_idx: FuncIndex },
    /// Calls the procedure with the given index as `Call` does, and marks
    /// the callee as the body of a loop: a procedure that may re-enter
    /// itself.
    CallLoop { func_idx: FuncIndex },
    /// Pushes a 32-bit constant.
    I32Const { value: i32 },
    /// Pushes a 64-bit constant.
    I64Const { value: i64 },
    /// Pops two 32-bit values and pushes their sum.
    I32Add,
    /// Pops two 64-bit values and pushes their sum.
    I64Add,
    /// Pops a value and pushes 1 if it was zero, else 0.
    I32Eqz,
    /// Pushes a copy of the stack item `idx` places below the top.
    Dup { idx: u8 },
    /// Swaps the top of the stack with the item `idx` places below it.
    Swap { idx: u8 },
    /// Pushes the local with the given index.
    LocalGet { local_idx: u32 },
    /// Pops a value into the local with the given index.
    LocalSet { local_idx: u32 },
    /// Copies the top of the stack into the local with the given index.
    LocalTee { local_idx: u32 },
    /// Pushes the global with the given index.
    GlobalGet { global_idx: u32 },
    /// Pops a value into the global with the given index.
    GlobalSet { global_idx: u32 },
    /// Pops an address and pushes the value stored there.
    Load { ty: MemAccessOpValueType },
    /// Pops a value and an address and stores the value there.
    Store { ty: MemAccessOpValueType },
    /// Re-enters the current procedure at its first instruction.
    Recurse,
    /// Pops a value and skips the next instruction if it was zero.
    SkipIfZero,
    /// Stores `levels` in the branch-signal register and returns.
    SignalReturn { levels: u32 },
    /// The propagation check that follows a call from a block or a function
    /// body: lowers a pending signal by one and returns unless nothing is
    /// left of it.
    Propagate,
    /// The propagation check that follows a call from a loop body: as
    /// [`Inst::Propagate`], but a signal that comes to rest at this loop
    /// re-enters it.
    PropagateInLoop,
    /// A target-specific intrinsic.
    Ext(Ext),
}

/// A procedure: a name and its instructions in program order.
#[derive(Debug)]
pub struct Func {
    /// The label under which listings show the procedure.
    pub name: String,
    /// The instructions, in program order.
    pub instructions: Vec<Inst>,
}

/// A procedure as a mathematical value.
pub struct Proc {
    pub name: Seq<char>,
    pub body: Seq<Inst>,
}

impl View for Func {
    type V = Proc;

    open spec fn view(&self) -> Proc {
        Proc { name: self.name@, body: self.instructions@ }
    }
}

/// The procedures `funcs` as mathematical values.
pub open spec fn procs_of(funcs: Seq<Func>) -> Seq<Proc> {
    funcs.map_values(|f: Func| f@)
}

impl Func {
    /// A procedure of the given name and instructions.
    pub fn new(name: String, instructions: Vec<Inst>) -> (func: Func)
        ensures
            func.name == name,
            func.instructions == instructions,
    {
        Func { name, instructions }
    }

    /// The label of the procedure.
    pub fn name(&self) -> (name: &str)
        ensures
            name@ == self.name@,
    {
        self.name.as_str()
    }

    /// The instructions, in program order.
    pub fn instructions(&self) -> (instructions: &[Inst])
        ensures
            instructions@ == self.instructions@,
    {
        self.instructions.as_slice()
    }
}

/// The names of the procedures `funcs`, keyed by index.
pub open spec fn names_of(funcs: Seq<Func>) -> Map<u32, String> {
    Map::new(|idx: u32| (idx as int) < funcs.len(), |idx: u32| funcs[idx as int].name)
}

/// A module: procedures in definition order and the index of the one that
/// the entry trampoline calls.
pub struct Module {
    /// The procedures, in definition order.
    pub functions: Vec<Func>,
    /// Index of the start procedure.
    pub start_func_idx: FuncIndex,
}

impl Module {
    /// The procedures of the module, in definition order.
    pub open spec fn funcs(&self) -> Seq<Func> {
        self.functions@
    }

    /// The index of the start procedure.
    pub open spec fn start(&self) -> FuncIndex {
        self.start_func_idx
    }

    /// A module of the given procedures and start index.
    pub fn new(functions: Vec<Func>, start_func_idx: FuncIndex) -> (module: Self)
        ensures
            module.funcs() == functions@,
            module.start() == start_func_idx,
    {
        Self { functions, start_func_idx }
    }

    /// The index of the start procedure.
    pub fn start_func_idx(&self) -> (idx: FuncIndex)
        ensures
            idx == self.start(),
    {
        self.start_func_idx
    }

    /// The procedures, in definition order.
    pub fn functions(&self) -> (functions: &[Func])
        ensures
            functions@ == self.funcs(),
    {
        self.functions.as_slice()
    }

    /// Gives up the module for its procedures.
    pub fn into_functions(self) -> (functions: Vec<Func>)
        ensures
            functions@ == self.funcs(),
    {
        self.functions
    }

    /// The procedures, for writing: what is written through the result is
    /// what the module holds afterwards.
    pub fn functions_mut(&mut self) -> (functions: &mut [Func])
        ensures
            functions@ == old(self).funcs(),
            final(self).funcs() == final(functions)@,
            final(self).start() == old(self).start(),
    {
        self.functions.as_mut_slice()
    }

    /// The procedure with the given index, if the module has one.
    pub fn function(&self, idx: u32) -> (func: Option<&Func>)
        ensures
            (idx as int) < self.funcs().len() ==> func == Some(&self.funcs()[idx as int]),
            (idx as int) >= self.funcs().len() ==> func is None,
    {
        if (idx as usize) < self.functions.len() {
            Some(&self.functions[idx as usize])
        } else {
            None
        }
    }

    /// Appends a procedure and returns the index it got.
    pub fn push_function(&mut self, func: Func) -> (idx: FuncIndex)
        requires
            old(self).funcs().len() <= u32::MAX,
        ensures
            final(self).funcs() == old(self).funcs().push(func),
            final(self).start() == old(self).start(),
            idx.0 == old(self).funcs().len(),
    {
        self.functions.push(func);
        FuncIndex((self.functions.len() - 1) as u32)
    }

    /// The names of the procedures, keyed by index.
    pub fn func_names(&self) -> (names: HashMap<u32, String>)
        ensures
            names@ == names_of(self.funcs()),
    {
        let mut names: HashMap<u32, String> = HashMap::new();
        let mut i: usize = 0;
        while i < self.functions.len() && i <= u32::MAX as usize
            invariant
                i <= self.functions.len(),
                i <= u32::MAX + 1,
                names@ == names_of(self.functions@.take(i as int)),
            decreases self.functions.len() - i,
        {
            let name = self.functions[i].name.clone();
            names.insert(i as u32, name);
            assert(names@ =~= names_of(self.functions@.take(i + 1)));
            i = i + 1;
        }
        assert(names@ =~= names_of(self.functions@));
        names
    }

    /// Replaces the procedure with the given index.
    pub fn set_function(&mut self, idx: u32, func: Func)
        requires
            (idx as int) < old(self).funcs().len(),
        ensures
            final(self).funcs() == old(self).funcs().update(idx as int, func),
            final(self).start() == old(self).start(),
    {
        self.functions[idx as usize] = func;
    }
}

} // verus!
