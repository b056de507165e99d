//! The structured operations of the source program: a tree in which blocks
//! and loops own their bodies, functions own their entry block and a module
//! owns its functions.

use vstd::prelude::*;
use vstd::std_specs::convert::FromSpecImpl;
use crate::ir::MemAccessOpValueType;
use crate::types::{FuncIndex, GlobalIndex, LocalIndex, RelativeDepth, WasmFuncType, WasmType};

verus! {

/// The symbol under which a function is known.
#[derive(Debug)]
pub struct FuncSym {
    /// The characters of the symbol.
    pub name: String,
}

impl View for FuncSym {
    type V = Seq<char>;

    open spec fn view(&self) -> Seq<char> {
        self.name@
    }
}

impl From<String> for FuncSym {
    fn from(name: String) -> (sym: FuncSym) {
        FuncSym { name }
    }
}

impl FromSpecImpl<String> for FuncSym {
    open spec fn obeys_from_spec() -> bool {
        true
    }

    open spec fn from_spec(name: String) -> FuncSym {
        FuncSym { name }
    }
}

impl Clone for FuncSym {
    fn clone(&self) -> (copy: FuncSym)
        ensures
            copy == *self,
    {
        FuncSym { name: self.name.clone() }
    }
}

impl FuncSym {
    /// The symbol as a string slice.
    pub fn as_str(&self) -> (name: &str)
        ensures
            name@ == self@,
    {
        self.name.as_str()
    }

    /// Whether two symbols are spelled alike.
    pub fn same_as(&self, other: &FuncSym) -> (same: bool)
        ensures
            same == (self@ == other@),
    {
        self.name == other.name
    }
}

/// An integer constant together with its width.
#[derive(Debug, Copy, Clone, PartialEq, Eq, Hash, Structural)]
pub enum ConstValue {
    /// A 32-bit constant.
    I32(i32),
    /// A 64-bit constant.
    I64(i64),
}

/// Pushes a numeric constant on the stack.
#[derive(Debug)]
pub struct ConstantOp {
    pub value: ConstValue,
}

/// Pops the two topmost stack items and pushes their sum.
#[derive(Debug)]
pub struct AddOp {
    pub ty: WasmType,
}

/// Calls a function by its index in the module.
#[derive(Debug)]
pub struct CallOp {
    pub func_index: FuncIndex,
}

/// Calls a function whose symbol has been looked up: the index together
/// with the symbol that the module gives it.
#[derive(Debug)]
pub struct CallSymOp {
    pub func_index: FuncIndex,
    pub func_sym: FuncSym,
}

/// Returns from the function, from however deep inside its blocks.
#[derive(Debug)]
pub struct ReturnOp {}

/// A block: a branch to it resumes after its end.
#[derive(Debug)]
pub struct BlockOp {
    pub ty: WasmFuncType,
    pub body: Vec<WasmOp>,
}

/// A loop: a branch to it resumes at its start.
#[derive(Debug)]
pub struct LoopOp {
    pub ty: WasmFuncType,
    pub body: Vec<WasmOp>,
}

/// Pushes the local variable with the given index onto the stack.
#[derive(Debug)]
pub struct LocalGetOp {
    pub index: LocalIndex,
}

/// Pops the stack into the local variable with the given index.
#[derive(Debug)]
pub struct LocalSetOp {
    pub index: LocalIndex,
}

/// Copies the top of the stack into the local variable with the given index.
#[derive(Debug)]
pub struct LocalTeeOp {
    pub index: LocalIndex,
}

/// Pops the stack into the global variable with the given index.
#[derive(Debug)]
pub struct GlobalSetOp {
    pub index: GlobalIndex,
}

/// Pushes the global variable with the given index onto the stack.
#[derive(Debug)]
pub struct GlobalGetOp {
    pub index: GlobalIndex,
}

/// Pops a value and an address and stores the value at the address.
#[derive(Debug)]
pub struct StoreOp {
    pub ty: MemAccessOpValueType,
}

/// Pops an address and pushes the value loaded from it.
#[derive(Debug)]
pub struct LoadOp {
    pub ty: MemAccessOpValueType,
}

/// Transfers control to the end of the enclosing block `relative_depth`
/// levels up, or to the start of it where it is a loop.
#[derive(Debug)]
pub struct BrOp {
    pub relative_depth: RelativeDepth,
}

/// Pops a condition and branches like [`BrOp`] if it is not zero.
#[derive(Debug)]
pub struct BrIfOp {
    pub relative_depth: RelativeDepth,
}

/// Pops a value and pushes 1 if it was zero, else 0.
#[derive(Debug)]
pub struct I32EqzOp {}

/// The operands of one instruction of the frame-pointer machine.
#[derive(Debug, Copy, Clone, PartialEq, Eq, Hash, Structural)]
pub struct Operands {
    pub a: i32,
    pub b: i32,
    pub c: i32,
    pub d: i32,
    pub e: i32,
}

/// One instruction of the frame-pointer machine.
#[derive(Debug, Copy, Clone, PartialEq, Eq, Hash, Structural)]
pub enum ValidaOp {
    /// Stores the cell at `c(fp)` into the cell at `b(fp)`.
    Sw(Operands),
    /// Writes the immediate `e` into the cell at `a(fp)`.
    Imm32(Operands),
    /// Jumps to the function with the given index and links: the return
    /// address goes to `a(fp)`, and the frame pointer moves by `b`.
    JalSym { a: i32, b: i32, func_index: FuncIndex },
    /// Jumps to the address in the cell at `b(fp)` and links: the way a
    /// function returns.
    Jalv(Operands),
}

/// An operation of a target, tagged by the target.
#[derive(Debug, Copy, Clone, PartialEq, Eq, Hash, Structural)]
pub enum ExtOp {
    /// An instruction of the frame-pointer machine.
    Valida(ValidaOp),
}

/// One operation of a function body.
#[derive(Debug)]
pub enum WasmOp {
    Constant(ConstantOp),
    Add(AddOp),
    Call(CallOp),
    Return(ReturnOp),
    Block(BlockOp),
    Loop(LoopOp),
    LocalGet(LocalGetOp),
    LocalSet(LocalSetOp),
    LocalTee(LocalTeeOp),
    GlobalSet(GlobalSetOp),
    GlobalGet(GlobalGetOp),
    Store(StoreOp),
    Load(LoadOp),
    Br(BrOp),
    BrIf(BrIfOp),
    I32Eqz(I32EqzOp),
    CallSym(CallSymOp),
    /// An operation of a target: the one open variant.
    Ext(ExtOp),
}

impl ConstantOp {
    /// Get the constant value that this operation defines.
    pub fn get_value(&self) -> (value: ConstValue)
        ensures
            value == self.value,
    {
        self.value
    }

    /// A constant operation of the given value.
    pub fn new_unlinked(val: ConstValue) -> (op: ConstantOp)
        ensures
            op.value == val,
    {
        ConstantOp { value: val }
    }

    /// A constant operation of the given 32-bit value.
    pub fn new_i32_unlinked(val: i32) -> (op: ConstantOp)
        ensures
            op.value == ConstValue::I32(val),
    {
        ConstantOp { value: ConstValue::I32(val) }
    }
}

impl AddOp {
    /// An addition on values of the given type.
    pub fn new_unlinked(ty: WasmType) -> (op: AddOp)
        ensures
            op.ty == ty,
    {
        AddOp { ty }
    }

    /// Get the type of the operands and the result of this operation.
    pub fn get_type(&self) -> (ty: WasmType)
        ensures
            ty == self.ty,
    {
        self.ty
    }
}

impl CallOp {
    /// Get the function index
    pub fn get_func_index(&self) -> (idx: FuncIndex)
        ensures
            idx == self.func_index,
    {
        self.func_index
    }

    /// A call of the function with the given index.
    pub fn new_unlinked(func_index: FuncIndex) -> (op: CallOp)
        ensures
            op.func_index == func_index,
    {
        CallOp { func_index }
    }
}

impl CallSymOp {
    /// A call of the function with the given index and symbol.
    pub fn new_unlinked(func_index: FuncIndex, func_sym: FuncSym) -> (op: CallSymOp)
        ensures
            op.func_index == func_index,
            op.func_sym == func_sym,
    {
        CallSymOp { func_index, func_sym }
    }

    /// Get the function index
    pub fn get_func_index(&self) -> (idx: FuncIndex)
        ensures
            idx == self.func_index,
    {
        self.func_index
    }

    /// Get the symbol of the function
    pub fn get_func_sym(&self) -> (sym: FuncSym)
        ensures
            sym == self.func_sym,
    {
        self.func_sym.clone()
    }
}

impl ReturnOp {
    /// Create a new op
    pub fn new_unlinked() -> (op: ReturnOp) {
        ReturnOp {  }
    }
}

impl BlockOp {
    /// An empty block of the given type.
    pub fn new_unlinked(ty: WasmFuncType) -> (op: BlockOp)
        ensures
            op.ty == ty,
            op.body@ == Seq::<WasmOp>::empty(),
    {
        BlockOp { ty, body: Vec::new() }
    }

    /// Get the signature (type).
    pub fn get_type(&self) -> (ty: &WasmFuncType)
        ensures
            *ty == self.ty,
    {
        &self.ty
    }

    /// Get the body of this block.
    pub fn get_block(&self) -> (body: &Vec<WasmOp>)
        ensures
            *body == self.body,
    {
        &self.body
    }

    /// All operations of the body, in order.
    pub fn op_iter(&self) -> (ops: &[WasmOp])
        ensures
            ops@ == self.body@,
    {
        self.body.as_slice()
    }

    /// Appends an operation to the body.
    pub fn append_operation(&mut self, op: WasmOp)
        ensures
            final(self).ty == old(self).ty,
            final(self).body@ == old(self).body@.push(op),
    {
        self.body.push(op);
    }
}

impl LoopOp {
    /// An empty loop of the given type.
    pub fn new_unlinked(ty: WasmFuncType) -> (op: LoopOp)
        ensures
            op.ty == ty,
            op.body@ == Seq::<WasmOp>::empty(),
    {
        LoopOp { ty, body: Vec::new() }
    }

    /// Get the signature (type).
    pub fn get_type(&self) -> (ty: &WasmFuncType)
        ensures
            *ty == self.ty,
    {
        &self.ty
    }

    /// Get the body of this loop.
    pub fn get_block(&self) -> (body: &Vec<WasmOp>)
        ensures
            *body == self.body,
    {
        &self.body
    }

    /// All operations of the body, in order.
    pub fn op_iter(&self) -> (ops: &[WasmOp])
        ensures
            ops@ == self.body@,
    {
        self.body.as_slice()
    }

    /// Appends an operation to the body.
    pub fn append_operation(&mut self, op: WasmOp)
        ensures
            final(self).ty == old(self).ty,
            final(self).body@ == old(self).body@.push(op),
    {
        self.body.push(op);
    }
}

impl LocalGetOp {
    /// A read of the local variable with the given index.
    pub fn new_unlinked(index: u32) -> (op: LocalGetOp)
        ensures
            op.index == LocalIndex(index),
    {
        LocalGetOp { index: LocalIndex(index) }
    }

    /// Get the index of the local variable.
    pub fn get_index(&self) -> (index: LocalIndex)
        ensures
            index == self.index,
    {
        self.index
    }

    /// Get the index of the local variable, as a plain number.
    pub fn get_index_as_attr(&self) -> (index: u32)
        ensures
            index == self.index.0,
    {
        self.index.0
    }
}

impl LocalSetOp {
    /// A write of the local variable with the given index.
    pub fn new_unlinked(index: u32) -> (op: LocalSetOp)
        ensures
            op.index == LocalIndex(index),
    {
        LocalSetOp { index: LocalIndex(index) }
    }

    /// Get the index of the local variable.
    pub fn get_index(&self) -> (index: LocalIndex)
        ensures
            index == self.index,
    {
        self.index
    }

    /// Get the index of the local variable, as a plain number.
    pub fn get_index_attr(&self) -> (index: u32)
        ensures
            index == self.index.0,
    {
        self.index.0
    }
}

impl LocalTeeOp {
    /// A write of the local variable with the given index that keeps the value on the stack.
    pub fn new_unlinked(index: u32) -> (op: LocalTeeOp)
        ensures
            op.index == LocalIndex(index),
    {
        LocalTeeOp { index: LocalIndex(index) }
    }

    /// Get the index of the local variable.
    pub fn get_index(&self) -> (index: LocalIndex)
        ensures
            index == self.index,
    {
        self.index
    }
}

impl GlobalSetOp {
    /// Get the index of the global variable.
    pub fn get_index(&self) -> (index: GlobalIndex)
        ensures
            index == self.index,
    {
        self.index
    }

    /// A write of the global variable with the given index.
    pub fn new_unlinked(index: GlobalIndex) -> (op: GlobalSetOp)
        ensures
            op.index == index,
    {
        GlobalSetOp { index }
    }
}

impl GlobalGetOp {
    /// Get the index of the global variable.
    pub fn get_index(&self) -> (index: GlobalIndex)
        ensures
            index == self.index,
    {
        self.index
    }

    /// A read of the global variable with the given index.
    pub fn new_unlinked(index: u32) -> (op: GlobalGetOp)
        ensures
            op.index == GlobalIndex(index),
    {
        GlobalGetOp { index: GlobalIndex(index) }
    }
}

impl StoreOp {
    /// A store of a value of the given width.
    pub fn new_unlinked(ty: MemAccessOpValueType) -> (op: StoreOp)
        ensures
            op.ty == ty,
    {
        StoreOp { ty }
    }

    /// Get the type of the value.
    pub fn get_value_type(&self) -> (ty: MemAccessOpValueType)
        ensures
            ty == self.ty,
    {
        self.ty
    }
}

impl LoadOp {
    /// A load of a value of the given width.
    pub fn new_unlinked(ty: MemAccessOpValueType) -> (op: LoadOp)
        ensures
            op.ty == ty,
    {
        LoadOp { ty }
    }

    /// Get the type of the value.
    pub fn get_value_type(&self) -> (ty: MemAccessOpValueType)
        ensures
            ty == self.ty,
    {
        self.ty
    }
}

impl BrOp {
    /// Get the relative depth of the branch target.
    pub fn get_relative_depth(&self) -> (depth: RelativeDepth)
        ensures
            depth == self.relative_depth,
    {
        self.relative_depth
    }

    /// A branch to the construct `relative_depth` levels up.
    pub fn new_unlinked(relative_depth: RelativeDepth) -> (op: BrOp)
        ensures
            op.relative_depth == relative_depth,
    {
        BrOp { relative_depth }
    }
}

impl BrIfOp {
    /// Get the relative depth of the branch target.
    pub fn get_relative_depth(&self) -> (depth: RelativeDepth)
        ensures
            depth == self.relative_depth,
    {
        self.relative_depth
    }

    /// A conditional branch to the construct `relative_depth` levels up.
    pub fn new_unlinked(relative_depth: RelativeDepth) -> (op: BrIfOp)
        ensures
            op.relative_depth == relative_depth,
    {
        BrIfOp { relative_depth }
    }
}

impl I32EqzOp {
    /// A test for zero.
    pub fn new_unlinked() -> (op: I32EqzOp) {
        I32EqzOp {  }
    }
}

/// Number of blocks and loops in `ops[from..]`, nested ones included.
pub open spec fn count_blocks(ops: Seq<WasmOp>, from: int) -> nat
    decreases ops, ops.len() - from,
{
    if from < 0 || from >= ops.len() {
        0
    } else {
        let inner: nat = match ops[from] {
            WasmOp::Block(b) => 1 + count_blocks(b.body@, 0),
            WasmOp::Loop(l) => 1 + count_blocks(l.body@, 0),
            _ => 0,
        };
        inner + count_blocks(ops, from + 1)
    }
}

/// Why a module cannot be compiled.
#[derive(Debug, Copy, Clone, PartialEq, Eq, Structural)]
pub enum CompilerError {
    /// A branch names more enclosing constructs than there are around it:
    /// `depth` is what the branch asks for, `nesting` the number of blocks
    /// and loops around it.
    MalformedBranch { depth: RelativeDepth, nesting: u32 },
    /// The module names no start function, or names one that is not among
    /// its function symbols.
    MissingStart,
    /// An operation that was to be lowered has no height of the stack
    /// recorded for it; `operation` is its number in the program order of
    /// its function, nested bodies included.
    MissingHeight { operation: usize },
    /// An operation that was to be lowered needs a cell whose displacement
    /// from the frame pointer does not fit in 32 bits; `operation` is its
    /// number in the program order of its function, nested bodies included.
    SlotOutOfRange { operation: usize },
}

/// The first branch of `ops[from..]`, in program order and with nested
/// bodies included, that asks for more than the constructs around it, with
/// the number of those constructs; `nesting` constructs enclose `ops`
/// itself. A branch may ask for exactly as many: it then leaves the
/// function.
pub open spec fn first_malformed(ops: Seq<WasmOp>, from: int, nesting: nat) -> Option<
    (RelativeDepth, nat),
>
    decreases ops, ops.len() - from,
{
    if from < 0 || from >= ops.len() {
        None
    } else {
        let here = match ops[from] {
            WasmOp::Br(b) => if b.relative_depth.0 > nesting {
                Some((b.relative_depth, nesting))
            } else {
                None
            },
            WasmOp::BrIf(b) => if b.relative_depth.0 > nesting {
                Some((b.relative_depth, nesting))
            } else {
                None
            },
            WasmOp::Block(b) => first_malformed(b.body@, 0, nesting + 1),
            WasmOp::Loop(l) => first_malformed(l.body@, 0, nesting + 1),
            _ => None,
        };
        match here {
            Some(found) => Some(found),
            None => first_malformed(ops, from + 1, nesting),
        }
    }
}

/// Whether every branch of `ops`, nested bodies included, names a construct
/// that encloses it or the function itself.
pub open spec fn branches_in_range(ops: Seq<WasmOp>, nesting: nat) -> bool {
    first_malformed(ops, 0, nesting) is None
}

/// What checking the branches of `ops` reports.
pub open spec fn branch_check(ops: Seq<WasmOp>, nesting: nat) -> Result<(), CompilerError> {
    match first_malformed(ops, 0, nesting) {
        None => Ok(()),
        Some((depth, around)) => Err(
            CompilerError::MalformedBranch { depth, nesting: around as u32 },
        ),
    }
}

proof fn lemma_first_malformed_is_small(ops: Seq<WasmOp>, from: int, nesting: nat)
    ensures
        first_malformed(ops, from, nesting) matches Some((depth, around)) ==> around < depth.0,
    decreases ops, ops.len() - from,
{
    if 0 <= from < ops.len() {
        match ops[from] {
            WasmOp::Block(b) => lemma_first_malformed_is_small(b.body@, 0, nesting + 1),
            WasmOp::Loop(l) => lemma_first_malformed_is_small(l.body@, 0, nesting + 1),
            _ => {},
        }
        lemma_first_malformed_is_small(ops, from + 1, nesting);
    }
}

proof fn lemma_first_malformed_saturates(ops: Seq<WasmOp>, from: int, nesting: nat)
    requires
        nesting >= u32::MAX,
    ensures
        first_malformed(ops, from, nesting) is None,
    decreases ops, ops.len() - from,
{
    if 0 <= from < ops.len() {
        match ops[from] {
            WasmOp::Block(x) => lemma_first_malformed_saturates(x.body@, 0, nesting + 1),
            WasmOp::Loop(x) => lemma_first_malformed_saturates(x.body@, 0, nesting + 1),
            _ => {},
        }
        lemma_first_malformed_saturates(ops, from + 1, nesting);
    }
}

/// Checks that every branch of `ops` names a construct around it, where
/// `nesting` constructs enclose `ops`; reports the first that does not.
pub fn check_branches(ops: &Vec<WasmOp>, nesting: u32) -> (res: Result<(), CompilerError>)
    ensures
        res == branch_check(ops@, nesting as nat),
    decreases ops, 0int,
{
    let mut i: usize = 0;
    while i < ops.len()
        invariant
            i <= ops.len(),
            first_malformed(ops@, 0, nesting as nat) == first_malformed(
                ops@,
                i as int,
                nesting as nat,
            ),
        decreases ops.len() - i,
    {
        match &ops[i] {
            WasmOp::Br(b) => {
                if b.relative_depth.0 > nesting {
                    return Err(
                        CompilerError::MalformedBranch { depth: b.relative_depth, nesting },
                    );
                }
            },
            WasmOp::BrIf(b) => {
                if b.relative_depth.0 > nesting {
                    return Err(
                        CompilerError::MalformedBranch { depth: b.relative_depth, nesting },
                    );
                }
            },
            WasmOp::Block(b) => {
                let inner = b.verify(nesting);
                if inner.is_err() {
                    proof {
                        lemma_first_malformed_is_small(b.body@, 0, nesting as nat + 1);
                    }
                    return inner;
                }
            },
            WasmOp::Loop(l) => {
                let inner = l.verify(nesting);
                if inner.is_err() {
                    proof {
                        lemma_first_malformed_is_small(l.body@, 0, nesting as nat + 1);
                    }
                    return inner;
                }
            },
            _ => {},
        }
        i = i + 1;
    }
    Ok(())
}

impl BlockOp {
    /// Checks the block where `nesting` constructs lie around it: every
    /// branch in it names the block, a construct inside or around it, or the
    /// function.
    pub fn verify(&self, nesting: u32) -> (res: Result<(), CompilerError>)
        ensures
            res == branch_check(self.body@, nesting as nat + 1),
        decreases self.body, 1int,
    {
        if nesting < u32::MAX {
            check_branches(&self.body, nesting + 1)
        } else {
            proof {
                lemma_first_malformed_saturates(self.body@, 0, nesting as nat + 1);
            }
            Ok(())
        }
    }
}

impl LoopOp {
    /// Checks the loop where `nesting` constructs lie around it: every
    /// branch in it names the loop, a construct inside or around it, or the
    /// function.
    pub fn verify(&self, nesting: u32) -> (res: Result<(), CompilerError>)
        ensures
            res == branch_check(self.body@, nesting as nat + 1),
        decreases self.body, 1int,
    {
        if nesting < u32::MAX {
            check_branches(&self.body, nesting + 1)
        } else {
            proof {
                lemma_first_malformed_saturates(self.body@, 0, nesting as nat + 1);
            }
            Ok(())
        }
    }
}

/// A function: its symbol, signature, the types of its declared locals and
/// its entry block.
#[derive(Debug)]
pub struct FuncOp {
    pub name: FuncSym,
    pub ty: WasmFuncType,
    pub locals: Vec<WasmType>,
    pub body: Vec<WasmOp>,
}

impl FuncOp {
    /// A function of the given symbol, signature, entry block and locals.
    pub fn new_unlinked_with_block(
        name: FuncSym,
        ty: WasmFuncType,
        entry_block: Vec<WasmOp>,
        locals: Vec<WasmType>,
    ) -> (func: FuncOp)
        ensures
            func.name == name,
            func.ty == ty,
            func.body == entry_block,
            func.locals == locals,
    {
        FuncOp { name, ty, locals, body: entry_block }
    }

    /// Get the function signature (type), as it is stored.
    pub fn get_type_attr(&self) -> (ty: &WasmFuncType)
        ensures
            *ty == self.ty,
    {
        &self.ty
    }

    /// Get the function signature (type).
    pub fn get_type(&self) -> (ty: WasmFuncType)
        ensures
            ty.spec_params() == self.ty.spec_params(),
            ty.spec_results() == self.ty.spec_results(),
    {
        self.ty.clone()
    }

    /// Get the entry block of this function.
    pub fn get_entry_block(&self) -> (body: &Vec<WasmOp>)
        ensures
            *body == self.body,
    {
        &self.body
    }

    /// All operations of the entry block, in order.
    pub fn op_iter(&self) -> (ops: &[WasmOp])
        ensures
            ops@ == self.body@,
    {
        self.body.as_slice()
    }

    /// Get the local variables types
    pub fn get_locals(&self) -> (locals: Vec<WasmType>)
        ensures
            locals@ == self.locals@,
    {
        let locals = self.locals.clone();
        assert(locals@ =~= self.locals@);
        locals
    }

    /// The symbol of the function.
    pub fn get_symbol_name(&self) -> (name: &str)
        ensures
            name@ == self.name@,
    {
        self.name.as_str()
    }

    /// Checks the function: every branch names a construct around it or the
    /// function itself.
    pub fn verify(&self) -> (res: Result<(), CompilerError>)
        ensures
            res == branch_check(self.body@, 0),
    {
        check_branches(&self.body, 0)
    }
}

/// The symbols of `funcs`, in order.
pub open spec fn symbols_of(funcs: Seq<FuncOp>) -> Seq<Seq<char>> {
    funcs.map_values(|f: FuncOp| f.name@)
}

/// The spelling of `syms`, in order.
pub open spec fn spellings(syms: Seq<FuncSym>) -> Seq<Seq<char>> {
    syms.map_values(|s: FuncSym| s@)
}

/// A module, the top level container: the symbols of all its functions,
/// imported ones first, the signatures and origins of the imported ones, the
/// defined functions and, where it has one, the symbol of the start function.
#[derive(Debug)]
pub struct ModuleOp {
    pub start_func_sym: Option<FuncSym>,
    pub func_syms: Vec<FuncSym>,
    pub import_func_types: Vec<WasmFuncType>,
    pub import_func_modules: Vec<String>,
    pub functions: Vec<FuncOp>,
}

/// Whether `at` is the first position of `syms` that holds `sym`.
pub open spec fn first_position_of(syms: Seq<Seq<char>>, sym: Seq<char>, at: int) -> bool {
    &&& 0 <= at < syms.len()
    &&& syms[at] == sym
    &&& forall|j: int| 0 <= j < at ==> syms[j] != sym
}

impl ModuleOp {
    /// Builds a module. `all_func_syms` are the symbols known beforehand (those
    /// of the imports); each function of `functions` is then appended in turn
    /// and adds its own symbol.
    pub fn new(
        start_func_name: Option<FuncSym>,
        all_func_syms: Vec<FuncSym>,
        functions: Vec<FuncOp>,
        import_func_types: Vec<WasmFuncType>,
        import_func_modules: Vec<String>,
    ) -> (module: ModuleOp)
        requires
            all_func_syms@.len() + functions@.len() <= u32::MAX,
        ensures
            module.start_func_sym == start_func_name,
            spellings(module.func_syms@) == spellings(all_func_syms@) + symbols_of(functions@),
            module.functions@ == functions@,
            module.import_func_types == import_func_types,
            module.import_func_modules == import_func_modules,
    {
        let mut module = ModuleOp {
            start_func_sym: start_func_name,
            func_syms: all_func_syms,
            import_func_types,
            import_func_modules,
            functions: Vec::new(),
        };
        let ghost given = functions@;
        proof {
            assert(given.take(0) =~= Seq::<FuncOp>::empty());
            assert(spellings(module.func_syms@) =~= spellings(all_func_syms@) + symbols_of(
                given.take(0),
            ));
        }
        for func_op in it: functions.into_iter()
            invariant
                it.seq() == given,
                all_func_syms@.len() + given.len() <= u32::MAX,
                module.start_func_sym == start_func_name,
                module.import_func_types == import_func_types,
                module.import_func_modules == import_func_modules,
                module.functions@ == given.take(it.index() as int),
                spellings(module.func_syms@) == spellings(all_func_syms@) + symbols_of(
                    given.take(it.index() as int),
                ),
        {
            let ghost before = module.func_syms@;
            assert(spellings(before).len() == before.len());
            module.append_function(func_op);
            proof {
                let n = it.index() as int;
                assert(given.take(n + 1) =~= given.take(n).push(func_op));
                assert(symbols_of(given.take(n + 1)) =~= symbols_of(given.take(n)).push(
                    func_op.name@,
                ));
                assert(spellings(module.func_syms@) =~= spellings(all_func_syms@) + symbols_of(
                    given.take(n + 1),
                ));
            }
        }
        proof {
            assert(given.take(given.len() as int) =~= given);
        }
        module
    }

    /// Adds a function to this module: its symbol joins the symbols of the
    /// module, and the index of that symbol is returned.
    pub fn append_function(&mut self, func_op: FuncOp) -> (idx: FuncIndex)
        requires
            old(self).func_syms@.len() < u32::MAX,
        ensures
            idx.0 == old(self).func_syms@.len(),
            spellings(final(self).func_syms@) == spellings(old(self).func_syms@).push(
                func_op.name@,
            ),
            final(self).functions@ == old(self).functions@.push(func_op),
            final(self).start_func_sym == old(self).start_func_sym,
            final(self).import_func_types == old(self).import_func_types,
            final(self).import_func_modules == old(self).import_func_modules,
    {
        self.func_syms.push(func_op.name.clone());
        let func_index = self.func_syms.len() - 1;
        self.functions.push(func_op);
        proof {
            assert(spellings(final(self).func_syms@) =~= spellings(old(self).func_syms@).push(
                func_op.name@,
            ));
        }
        FuncIndex(func_index as u32)
    }

    /// Return the start function symbol name
    pub fn get_start_func_sym(&self) -> (sym: Option<FuncSym>)
        ensures
            sym == self.start_func_sym,
    {
        match &self.start_func_sym {
            Some(sym) => Some(sym.clone()),
            None => None,
        }
    }

    /// Return the function symbol name for the given function index.
    pub fn get_func_sym(&self, func_index: FuncIndex) -> (sym: Option<FuncSym>)
        ensures
            (func_index.0 as int) < self.func_syms@.len() ==> sym == Some(
                self.func_syms@[func_index.0 as int],
            ),
            (func_index.0 as int) >= self.func_syms@.len() ==> sym is None,
    {
        if (func_index.0 as usize) < self.func_syms.len() {
            Some(self.func_syms[func_index.0 as usize].clone())
        } else {
            None
        }
    }

    /// Return the function index for the given function symbol name: the
    /// first position among the symbols of the module that holds it.
    pub fn get_func_index(&self, func_sym: FuncSym) -> (idx: Option<FuncIndex>)
        requires
            self.func_syms@.len() <= u32::MAX,
        ensures
            match idx {
                Some(found) => first_position_of(
                    spellings(self.func_syms@),
                    func_sym@,
                    found.0 as int,
                ),
                None => !spellings(self.func_syms@).contains(func_sym@),
            },
    {
        let mut i: usize = 0;
        while i < self.func_syms.len()
            invariant
                i <= self.func_syms.len(),
                self.func_syms@.len() <= u32::MAX,
                forall|j: int| 0 <= j < i ==> spellings(self.func_syms@)[j] != func_sym@,
            decreases self.func_syms.len() - i,
        {
            if self.func_syms[i].same_as(&func_sym) {
                return Some(FuncIndex(i as u32));
            }
            i = i + 1;
        }
        None
    }

    /// Return the first function of the module that is known under the
    /// given symbol.
    pub fn get_func(&self, func_sym: &FuncSym) -> (func: Option<&FuncOp>)
        ensures
            match func {
                Some(found) => exists|at: int|
                    first_position_of(symbols_of(self.functions@), func_sym@, at) && *found
                        == #[trigger] self.functions@[at],
                None => !symbols_of(self.functions@).contains(func_sym@),
            },
    {
        let mut i: usize = 0;
        while i < self.functions.len()
            invariant
                i <= self.functions.len(),
                forall|j: int| 0 <= j < i ==> symbols_of(self.functions@)[j] != func_sym@,
            decreases self.functions.len() - i,
        {
            if self.functions[i].name.same_as(func_sym) {
                assert(first_position_of(symbols_of(self.functions@), func_sym@, i as int));
                return Some(&self.functions[i]);
            }
            i = i + 1;
        }
        None
    }

    /// Checks every function of the module, in order; reports what the first
    /// function with a malformed branch reports.
    pub fn verify(&self) -> (res: Result<(), CompilerError>)
        ensures
            res is Ok <==> forall|f: int|
                0 <= f < self.functions@.len() ==> branches_in_range(
                    (#[trigger] self.functions@[f]).body@,
                    0,
                ),
            res is Err ==> exists|f: int|
                0 <= f < self.functions@.len() && res == branch_check(
                    (#[trigger] self.functions@[f]).body@,
                    0,
                ) && forall|g: int|
                    0 <= g < f ==> branches_in_range((#[trigger] self.functions@[g]).body@, 0),
    {
        let mut i: usize = 0;
        while i < self.functions.len()
            invariant
                i <= self.functions.len(),
                forall|g: int|
                    0 <= g < i ==> branches_in_range((#[trigger] self.functions@[g]).body@, 0),
            decreases self.functions.len() - i,
        {
            let res = self.functions[i].verify();
            if res.is_err() {
                return res;
            }
            i = i + 1;
        }
        Ok(())
    }
}

} // verus!
