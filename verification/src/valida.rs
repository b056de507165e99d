//! The frame-pointer backend: every operand of the stack, every argument and
//! every local of a function lives in a cell at a fixed displacement from
//! the frame pointer, and the operations that touch them become moves
//! between such cells.
//!
//! The frame of a function, from high displacements to low:
//!
//! ```text
//! 12 + 4 * i (fp)   argument i; the last one gives its cell to the result
//!  8 (fp)           the result, where the function takes no argument
//!  4 (fp)           the frame pointer of the caller
//!  0 (fp)           the return address
//! -4 * (j + 1) (fp) cell j below the frame pointer: the declared locals,
//!                   the first of them in cell 0, then the operands
//! ```
//!
//! The locals of a function are its arguments followed by its declared
//! locals, so the local with the index `i` of a function of `n` arguments
//! is argument `i` where `i < n` and lives in cell `i - n` below the frame
//! pointer otherwise. Reads and writes of a local go to the same cell.

use vstd::prelude::*;
use crate::ops::{
    CompilerError, ConstValue, ExtOp, FuncOp, ModuleOp, Operands, ValidaOp, WasmOp,
};
use crate::stack_depth::{depths_of, lemma_one_depth_per_op, op_count, shifted, StackDepth};
use crate::text::{decimal_int, decimal_nat, push_decimal_i64, push_decimal_u64};
use crate::types::WasmFuncType;

verus! {

/// A displacement from the frame pointer, in bytes.
#[derive(Copy, Clone, PartialEq, Eq, Hash, PartialOrd, Ord, Debug, Structural)]
pub struct FramePointer(pub i32);

/// Whether `x` can be a displacement: whether it fits in 32 bits.
pub open spec fn fits(x: int) -> bool {
    i32::MIN <= x <= i32::MAX
}

/// The displacement of the topmost cell of a stack of the given height.
pub open spec fn fp_of(depth: int) -> int {
    -4 * depth
}

/// The displacement of argument number `index`.
pub open spec fn arg_slot(index: int) -> int {
    12 + 4 * index
}

/// The displacement of cell number `index` below the frame pointer.
pub open spec fn local_slot(index: int) -> int {
    -4 * (index + 1)
}

/// The displacement where a function of `n_params` arguments leaves its
/// result: the cell of its last argument, or the cell above the saved frame
/// pointer where it has none.
pub open spec fn return_slot(n_params: int) -> int {
    8 + 4 * n_params
}

/// The displacement of the cell of the local with the given index, in a
/// function of `n_params` arguments: the arguments are the first locals and
/// have their cells above the header; the declared locals follow and have
/// theirs below the frame pointer, the first of them in the first cell.
/// Reads and writes of a local go to this one cell.
pub open spec fn slot_of(index: int, n_params: int) -> int {
    if index < n_params {
        arg_slot(index)
    } else {
        local_slot(index - n_params)
    }
}

/// The cells of a frame do not overlap. Take a function of `n_params`
/// arguments and `locals` declared locals. Cells are four bytes wide. Two
/// locals, arguments or declared, have cells of their own; none of them
/// lies in the header, which holds the return address at `0(fp)` and the
/// frame pointer of the caller at `4(fp)`, nor at `8(fp)`; and where the
/// declared locals are reserved on the stack, every operand, which lies at
/// a height above their number, has its cell below those of all locals.
pub proof fn law_cells_are_apart(n_params: nat, locals: nat, i: nat, j: nat, height: nat)
    requires
        i < n_params + locals,
        j < n_params + locals,
    ensures
        i != j ==> slot_of(i as int, n_params as int) - slot_of(j as int, n_params as int) >= 4
            || slot_of(j as int, n_params as int) - slot_of(i as int, n_params as int) >= 4,
        slot_of(i as int, n_params as int) >= 12 || slot_of(i as int, n_params as int) <= -4,
        height > locals ==> slot_of(i as int, n_params as int) - fp_of(height as int) >= 4,
        n_params > 0 ==> return_slot(n_params as int) == slot_of(n_params - 1, n_params as int),
        n_params == 0 ==> return_slot(n_params as int) == 8,
{
}

fn cell_below(cells: u32) -> (at: i64)
    ensures
        at == fp_of(cells as int),
{
    let wide: i64 = cells as i64;
    0 - 4 * wide
}

/// The displacement of the topmost cell of a stack of the given height, if
/// it fits in 32 bits.
pub fn fp_from_wasm_stack(depth: StackDepth) -> (fp: Option<FramePointer>)
    ensures
        fp == if fits(fp_of(depth.0 as int)) {
            Some(FramePointer(fp_of(depth.0 as int) as i32))
        } else {
            None
        },
{
    let wide: i64 = cell_below(depth.0);
    if wide >= i32::MIN as i64 {
        Some(FramePointer(wide as i32))
    } else {
        None
    }
}

/// Which operations a lowering replaces.
#[derive(Debug, Copy, Clone, PartialEq, Eq, Structural)]
pub struct Conversions {
    /// Reads and writes of arguments and declared locals become moves
    /// between cells.
    pub args_and_locals: bool,
    /// A return stores the result and jumps back.
    pub returns: bool,
    /// A call of a function known by symbol sets up the frame and jumps.
    pub calls: bool,
    /// A 32-bit constant becomes an immediate written into a cell.
    pub constants: bool,
}

/// The move `to(fp) <- from(fp)`.
pub open spec fn sw(to: int, from: int) -> ValidaOp {
    ValidaOp::Sw(Operands { a: 0, b: to as i32, c: from as i32, d: 0, e: 0 })
}

/// The write of the immediate `value` into the cell at `to(fp)`.
pub open spec fn imm32(to: int, value: int) -> ValidaOp {
    ValidaOp::Imm32(Operands { a: to as i32, b: 0, c: 0, d: 0, e: value as i32 })
}

/// The jump by which every function returns: to the address in the cell at
/// `0(fp)`, with the frame pointer of the caller taken from `4(fp)`.
pub open spec fn return_jump() -> ValidaOp {
    ValidaOp::Jalv(Operands { a: -4i32, b: 0, c: 4, d: 0, e: 0 })
}

/// The instructions that stand for `op` in the frame-pointer machine, where
/// the stack has the height `depth` before `op` and the function takes
/// `n_params` arguments; `None` where `op` stays as it is: where `passes`
/// does not ask for it, where no height is known for it, or where one of its
/// displacements would not fit in 32 bits.
pub open spec fn replacement(
    op: WasmOp,
    depth: Option<StackDepth>,
    n_params: nat,
    passes: Conversions,
) -> Option<Seq<ValidaOp>> {
    match depth {
        None => None,
        Some(before) => {
            let top = fp_of(before.0 as int);
            let pushed = fp_of(shifted(before.0, 0, 1) as int);
            match op {
                WasmOp::LocalGet(g) => {
                    let from = slot_of(g.index.0 as int, n_params as int);
                    if passes.args_and_locals && fits(pushed) && fits(from) {
                        Some(seq![sw(pushed, from)])
                    } else {
                        None
                    }
                },
                WasmOp::LocalSet(s) => {
                    let to = slot_of(s.index.0 as int, n_params as int);
                    if passes.args_and_locals && fits(top) && fits(to) {
                        Some(seq![sw(to, top)])
                    } else {
                        None
                    }
                },
                WasmOp::LocalTee(t) => {
                    let to = slot_of(t.index.0 as int, n_params as int);
                    if passes.args_and_locals && fits(top) && fits(to) {
                        Some(seq![sw(to, top)])
                    } else {
                        None
                    }
                },
                WasmOp::Return(_) => {
                    let to = return_slot(n_params as int);
                    if passes.returns && fits(top) && fits(to) {
                        Some(seq![sw(to, top), return_jump()])
                    } else {
                        None
                    }
                },
                WasmOp::CallSym(c) => {
                    let link = top - 12;
                    if passes.calls && fits(link) && fits(-link) {
                        Some(
                            seq![
                                imm32(link + 4, -link),
                                ValidaOp::JalSym {
                                    a: link as i32,
                                    b: link as i32,
                                    func_index: c.func_index,
                                },
                            ],
                        )
                    } else {
                        None
                    }
                },
                WasmOp::Constant(c) => match c.value {
                    ConstValue::I32(value) => if passes.constants && fits(pushed) {
                        Some(seq![imm32(pushed, value as int)])
                    } else {
                        None
                    },
                    _ => None,
                },
                _ => None,
            }
        },
    }
}

/// What the index of a local is, where `op` reads or writes one.
pub open spec fn local_of(op: WasmOp) -> Option<u32> {
    match op {
        WasmOp::LocalGet(g) => Some(g.index.0),
        WasmOp::LocalSet(s) => Some(s.index.0),
        WasmOp::LocalTee(t) => Some(t.index.0),
        _ => None,
    }
}

/// A read finds what was written: where a write of a local, by `local.set`
/// or `local.tee`, and a read of the same local are both lowered, at
/// whatever heights of the stack, the cell that the move of the read takes
/// its value from is the cell that the move of the write put it in; and it
/// is the cell that `slot_of` gives for the local.
pub proof fn law_read_finds_what_was_written(
    write: WasmOp,
    read: WasmOp,
    at_write: StackDepth,
    at_read: StackDepth,
    n_params: nat,
    passes: Conversions,
)
    requires
        write is LocalSet || write is LocalTee,
        read is LocalGet,
        local_of(write) == local_of(read),
        replacement(write, Some(at_write), n_params, passes) is Some,
        replacement(read, Some(at_read), n_params, passes) is Some,
    ensures
        ({
            let written = replacement(write, Some(at_write), n_params, passes)->0;
            let fetched = replacement(read, Some(at_read), n_params, passes)->0;
            &&& written.len() == 1
            &&& fetched.len() == 1
            &&& written[0] matches ValidaOp::Sw(w)
            &&& fetched[0] matches ValidaOp::Sw(r)
            &&& w.b == r.c
            &&& w.b as int == slot_of(local_of(read)->0 as int, n_params as int)
        }),
{
}

fn cell_of_local(index: u32, n_params: usize) -> (at: i64)
    ensures
        at == slot_of(index as int, n_params as int),
{
    let wide: i64 = index as i64;
    if (index as usize) < n_params {
        12 + 4 * wide
    } else {
        let below: i64 = wide - (n_params as i64);
        0 - 4 * (below + 1)
    }
}

fn narrow(x: i64) -> (r: Option<i32>)
    ensures
        r == if fits(x as int) {
            Some(x as i32)
        } else {
            None::<i32>
        },
{
    if x >= i32::MIN as i64 && x <= i32::MAX as i64 {
        Some(x as i32)
    } else {
        None
    }
}

fn make_sw(to: i32, from: i32) -> (op: ValidaOp)
    ensures
        op == sw(to as int, from as int),
{
    ValidaOp::Sw(Operands { a: 0, b: to, c: from, d: 0, e: 0 })
}

fn make_imm32(to: i32, value: i32) -> (op: ValidaOp)
    ensures
        op == imm32(to as int, value as int),
{
    ValidaOp::Imm32(Operands { a: to, b: 0, c: 0, d: 0, e: value })
}

/// The instructions that stand for `op` in the frame-pointer machine, or
/// `None` where `op` stays as it is.
pub fn replace_op(op: &WasmOp, depth: Option<StackDepth>, n_params: usize, passes: Conversions) -> (res:
    Option<Vec<ValidaOp>>)
    ensures
        match replacement(*op, depth, n_params as nat, passes) {
            Some(insts) => res matches Some(found) && found@ == insts,
            None => res is None,
        },
{
    let before = match depth {
        Some(before) => before,
        None => {
            return None;
        },
    };
    let top: i64 = cell_below(before.0);
    let pushed: i64 = cell_below(before.next().0);
    let mut out: Vec<ValidaOp> = Vec::new();
    match op {
        WasmOp::LocalGet(g) => {
            let from: i64 = cell_of_local(g.index.0, n_params);
            if !passes.args_and_locals {
                return None;
            }
            match (narrow(pushed), narrow(from)) {
                (Some(to), Some(from)) => {
                    out.push(make_sw(to, from));
                    assert(out@ =~= seq![sw(pushed as int, from as int)]);
                    Some(out)
                },
                _ => None,
            }
        },
        WasmOp::LocalSet(s) => {
            let to: i64 = cell_of_local(s.index.0, n_params);
            if !passes.args_and_locals {
                return None;
            }
            match (narrow(top), narrow(to)) {
                (Some(from), Some(to)) => {
                    out.push(make_sw(to, from));
                    assert(out@ =~= seq![sw(to as int, top as int)]);
                    Some(out)
                },
                _ => None,
            }
        },
        WasmOp::LocalTee(t) => {
            let to: i64 = cell_of_local(t.index.0, n_params);
            if !passes.args_and_locals {
                return None;
            }
            match (narrow(top), narrow(to)) {
                (Some(from), Some(to)) => {
                    out.push(make_sw(to, from));
                    assert(out@ =~= seq![sw(to as int, top as int)]);
                    Some(out)
                },
                _ => None,
            }
        },
        WasmOp::Return(_) => {
            if !passes.returns || n_params > 0x4000_0000 {
                return None;
            }
            let to: i64 = 8 + 4 * (n_params as i64);
            match (narrow(top), narrow(to)) {
                (Some(from), Some(to)) => {
                    out.push(make_sw(to, from));
                    out.push(ValidaOp::Jalv(Operands { a: -4, b: 0, c: 4, d: 0, e: 0 }));
                    assert(out@ =~= seq![sw(to as int, top as int), return_jump()]);
                    Some(out)
                },
                _ => None,
            }
        },
        WasmOp::CallSym(c) => {
            let link: i64 = top - 12;
            if !passes.calls {
                return None;
            }
            match (narrow(link), narrow(-link)) {
                (Some(a), Some(back)) => {
                    out.push(make_imm32(a + 4, back));
                    out.push(ValidaOp::JalSym { a, b: a, func_index: c.func_index });
                    assert(out@ =~= seq![
                        imm32(link + 4, -link),
                        ValidaOp::JalSym { a: link as i32, b: link as i32, func_index: c.func_index },
                    ]);
                    Some(out)
                },
                _ => None,
            }
        },
        WasmOp::Constant(c) => match c.value {
            ConstValue::I32(value) => {
                if !passes.constants {
                    return None;
                }
                match narrow(pushed) {
                    Some(to) => {
                        out.push(make_imm32(to, value));
                        assert(out@ =~= seq![imm32(pushed as int, value as int)]);
                        Some(out)
                    },
                    None => None,
                }
            },
            _ => None,
        },
        _ => None,
    }
}

/// The height that `depths` holds for the operation number `at`, if any.
pub open spec fn annotation(depths: Seq<StackDepth>, at: nat) -> Option<StackDepth> {
    if at < depths.len() {
        Some(depths[at as int])
    } else {
        None
    }
}

/// The instructions `insts` as operations of a function body.
pub open spec fn as_ops(insts: Seq<ValidaOp>) -> Seq<WasmOp> {
    insts.map_values(|inst: ValidaOp| WasmOp::Ext(ExtOp::Valida(inst)))
}

/// Whether `output` is what the lowering makes of `input[..upto]`: operation
/// by operation, `output` holds the instructions that stand for it, or the
/// operation itself where it stays; a block or a loop stays, with its body
/// lowered in the same way. The height of the stack before an operation is
/// looked up in `depths` under the number of the operation in program order,
/// nested bodies included, where `input[0]` has the number `first`.
pub open spec fn converted(
    input: Seq<WasmOp>,
    upto: int,
    output: Seq<WasmOp>,
    depths: Seq<StackDepth>,
    first: nat,
    n_params: nat,
    passes: Conversions,
) -> bool
    decreases input, upto,
{
    if upto <= 0 || upto > input.len() {
        output.len() == 0
    } else {
        let op = input[upto - 1];
        let at = first + op_count(input, upto - 1);
        match op {
            WasmOp::Block(b) => {
                &&& output.len() >= 1
                &&& converted(input, upto - 1, output.drop_last(), depths, first, n_params, passes)
                &&& output.last() matches WasmOp::Block(lowered)
                &&& lowered.ty == b.ty
                &&& converted(
                    b.body@,
                    b.body@.len() as int,
                    lowered.body@,
                    depths,
                    at + 1,
                    n_params,
                    passes,
                )
            },
            WasmOp::Loop(l) => {
                &&& output.len() >= 1
                &&& converted(input, upto - 1, output.drop_last(), depths, first, n_params, passes)
                &&& output.last() matches WasmOp::Loop(lowered)
                &&& lowered.ty == l.ty
                &&& converted(
                    l.body@,
                    l.body@.len() as int,
                    lowered.body@,
                    depths,
                    at + 1,
                    n_params,
                    passes,
                )
            },
            _ => match replacement(op, annotation(depths, at), n_params, passes) {
                Some(insts) => {
                    &&& output.len() >= insts.len()
                    &&& converted(
                        input,
                        upto - 1,
                        output.take(output.len() - insts.len()),
                        depths,
                        first,
                        n_params,
                        passes,
                    )
                    &&& output.skip(output.len() - insts.len()) == as_ops(insts)
                },
                None => {
                    &&& output.len() >= 1
                    &&& converted(
                        input,
                        upto - 1,
                        output.drop_last(),
                        depths,
                        first,
                        n_params,
                        passes,
                    )
                    &&& output.last() == op
                },
            },
        }
    }
}

proof fn lemma_op_count_step(ops: Seq<WasmOp>, upto: int)
    requires
        0 < upto <= ops.len(),
    ensures
        op_count(ops, upto - 1) < op_count(ops, upto),
        op_count(ops, upto) <= op_count(ops, ops.len() as int),
    decreases ops.len() - upto,
{
    if upto < ops.len() {
        lemma_op_count_step(ops, upto + 1);
    }
}

/// Whether `op` is one that `passes` asks to replace.
pub open spec fn wanted(op: WasmOp, passes: Conversions) -> bool {
    match op {
        WasmOp::LocalGet(_) => passes.args_and_locals,
        WasmOp::LocalSet(_) => passes.args_and_locals,
        WasmOp::LocalTee(_) => passes.args_and_locals,
        WasmOp::Return(_) => passes.returns,
        WasmOp::CallSym(_) => passes.calls,
        WasmOp::Constant(c) => passes.constants && c.value is I32,
        _ => false,
    }
}

/// The number of the first operation of `ops[from..]`, in program order and
/// with nested bodies included, that `passes` asks to replace and that
/// cannot be replaced: because `depths` holds no height for it, or because
/// one of its cells is out of range. `ops[from]` has the number `number`.
pub open spec fn first_unlowered(
    ops: Seq<WasmOp>,
    from: int,
    depths: Seq<StackDepth>,
    number: nat,
    n_params: nat,
    passes: Conversions,
) -> Option<nat>
    decreases ops, ops.len() - from,
{
    if from < 0 || from >= ops.len() {
        None
    } else {
        let inner: nat = match ops[from] {
            WasmOp::Block(b) => op_count(b.body@, b.body@.len() as int),
            WasmOp::Loop(l) => op_count(l.body@, l.body@.len() as int),
            _ => 0,
        };
        let here = match ops[from] {
            WasmOp::Block(b) => first_unlowered(b.body@, 0, depths, number + 1, n_params, passes),
            WasmOp::Loop(l) => first_unlowered(l.body@, 0, depths, number + 1, n_params, passes),
            op => if wanted(op, passes) && replacement(
                op,
                annotation(depths, number),
                n_params,
                passes,
            ) is None {
                Some(number)
            } else {
                None
            },
        };
        match here {
            Some(found) => Some(found),
            None => first_unlowered(ops, from + 1, depths, number + 1 + inner, n_params, passes),
        }
    }
}

/// Why the operation with the given number cannot be lowered.
pub open spec fn lowering_error(depths: Seq<StackDepth>, number: nat) -> CompilerError {
    if annotation(depths, number) is None {
        CompilerError::MissingHeight { operation: number as usize }
    } else {
        CompilerError::SlotOutOfRange { operation: number as usize }
    }
}

/// What the lowering of the body `ops` reports: nothing where every
/// operation that `passes` asks for can be replaced, and else the error of
/// the first that cannot.
pub open spec fn lowering_check(
    ops: Seq<WasmOp>,
    depths: Seq<StackDepth>,
    n_params: nat,
    passes: Conversions,
) -> Result<(), CompilerError> {
    match first_unlowered(ops, 0, depths, 0, n_params, passes) {
        None => Ok(()),
        Some(number) => Err(lowering_error(depths, number)),
    }
}

proof fn lemma_unlowered_is_numbered(
    ops: Seq<WasmOp>,
    from: int,
    depths: Seq<StackDepth>,
    number: nat,
    n_params: nat,
    passes: Conversions,
)
    requires
        0 <= from <= ops.len(),
    ensures
        first_unlowered(ops, from, depths, number, n_params, passes) matches Some(found)
            ==> number <= found && found + op_count(ops, from) < number + op_count(
            ops,
            ops.len() as int,
        ),
    decreases ops, ops.len() - from,
{
    if from < ops.len() {
        lemma_op_count_step(ops, from + 1);
        let inner: nat = match ops[from] {
            WasmOp::Block(b) => op_count(b.body@, b.body@.len() as int),
            WasmOp::Loop(l) => op_count(l.body@, l.body@.len() as int),
            _ => 0,
        };
        match ops[from] {
            WasmOp::Block(b) => lemma_unlowered_is_numbered(
                b.body@,
                0,
                depths,
                number + 1,
                n_params,
                passes,
            ),
            WasmOp::Loop(l) => lemma_unlowered_is_numbered(
                l.body@,
                0,
                depths,
                number + 1,
                n_params,
                passes,
            ),
            _ => {},
        }
        lemma_unlowered_is_numbered(ops, from + 1, depths, number + 1 + inner, n_params, passes);
    }
}

/// With the heights of the stack-shape analysis no height is missing: the
/// analysis records one for every operation, so the lowering of a body
/// with the heights that the analysis gives for it can only fail for a
/// cell out of range.
pub proof fn law_analysed_body_has_its_heights(
    ops: Seq<WasmOp>,
    entry: u32,
    sigs: Seq<WasmFuncType>,
    n_params: nat,
    passes: Conversions,
)
    ensures
        lowering_check(ops, depths_of(ops, 0, entry, sigs), n_params, passes)
            matches Err(e) ==> e is SlotOutOfRange,
{
    let depths = depths_of(ops, 0, entry, sigs);
    lemma_one_depth_per_op(ops, entry, sigs);
    lemma_unlowered_is_numbered(ops, 0, depths, 0, n_params, passes);
}

/// Whether the operations of `ops`, nested ones included, can be numbered
/// in the machine's word.
pub open spec fn countable(ops: Seq<WasmOp>) -> bool {
    op_count(ops, ops.len() as int) <= usize::MAX
}

/// The number of operations of `ops`, nested ones included, where the
/// machine's word holds it.
pub fn count_ops(ops: &Vec<WasmOp>) -> (n: Option<usize>)
    ensures
        n == if countable(ops@) {
            Some(op_count(ops@, ops@.len() as int) as usize)
        } else {
            None::<usize>
        },
    decreases ops,
{
    let mut seen: usize = 0;
    let mut i: usize = 0;
    while i < ops.len()
        invariant
            i <= ops.len(),
            seen == op_count(ops@, i as int),
        decreases ops.len() - i,
    {
        proof {
            lemma_op_count_step(ops@, i + 1);
        }
        let inner = match &ops[i] {
            WasmOp::Block(b) => count_ops(&b.body),
            WasmOp::Loop(l) => count_ops(&l.body),
            _ => Some(0),
        };
        let next = match inner {
            Some(n) => match n.checked_add(1) {
                Some(with_op) => seen.checked_add(with_op),
                None => None,
            },
            None => None,
        };
        match next {
            Some(total) => {
                seen = total;
            },
            None => {
                return None;
            },
        }
        i = i + 1;
    }
    Some(seen)
}

/// Whether the operations of every function of `module` can be numbered in
/// the machine's word: what the lowering of a module asks of its callers.
pub open spec fn module_countable(module: ModuleOp) -> bool {
    forall|f: int|
        0 <= f < module.functions@.len() ==> countable((#[trigger] module.functions@[f]).body@)
}

/// Whether the operations of every function of `module` can be numbered in
/// the machine's word.
pub fn ops_fit(module: &ModuleOp) -> (ok: bool)
    ensures
        ok == module_countable(*module),
{
    let mut f: usize = 0;
    while f < module.functions.len()
        invariant
            f <= module.functions.len(),
            forall|g: int| 0 <= g < f ==> countable((#[trigger] module.functions@[g]).body@),
        decreases module.functions.len() - f,
    {
        if count_ops(&module.functions[f].body).is_none() {
            return false;
        }
        f = f + 1;
    }
    true
}

fn is_wanted(op: &WasmOp, passes: Conversions) -> (yes: bool)
    ensures
        yes == wanted(*op, passes),
{
    match op {
        WasmOp::LocalGet(_) => passes.args_and_locals,
        WasmOp::LocalSet(_) => passes.args_and_locals,
        WasmOp::LocalTee(_) => passes.args_and_locals,
        WasmOp::Return(_) => passes.returns,
        WasmOp::CallSym(_) => passes.calls,
        WasmOp::Constant(c) => passes.constants && match c.value {
            ConstValue::I32(_) => true,
            _ => false,
        },
        _ => false,
    }
}

/// Lowers `ops` and says how many operations it went through, nested ones
/// included; or gives the number of the first operation that cannot be
/// lowered.
#[verifier::rlimit(60)]
fn convert_ops(
    ops: Vec<WasmOp>,
    depths: &[StackDepth],
    first: usize,
    n_params: usize,
    passes: Conversions,
) -> (res: Result<(Vec<WasmOp>, usize), usize>)
    requires
        first + op_count(ops@, ops@.len() as int) <= usize::MAX,
    ensures
        match res {
            Ok(done) => {
                &&& first_unlowered(ops@, 0, depths@, first as nat, n_params as nat, passes) is None
                &&& converted(
                    ops@,
                    ops@.len() as int,
                    done.0@,
                    depths@,
                    first as nat,
                    n_params as nat,
                    passes,
                )
                &&& done.1 == op_count(ops@, ops@.len() as int)
            },
            Err(number) => first_unlowered(
                ops@,
                0,
                depths@,
                first as nat,
                n_params as nat,
                passes,
            ) == Some(number as nat),
        },
    decreases ops,
{
    let ghost input = ops@;
    let ghost whole = first_unlowered(input, 0, depths@, first as nat, n_params as nat, passes);
    let mut out: Vec<WasmOp> = Vec::new();
    let mut seen: usize = 0;
    for op in it: ops.into_iter()
        invariant
            it.seq() == input,
            first + op_count(input, input.len() as int) <= usize::MAX,
            seen == op_count(input, it.index() as int),
            whole == first_unlowered(input, 0, depths@, first as nat, n_params as nat, passes),
            whole == first_unlowered(
                input,
                it.index() as int,
                depths@,
                (first + seen) as nat,
                n_params as nat,
                passes,
            ),
            converted(
                input,
                it.index() as int,
                out@,
                depths@,
                first as nat,
                n_params as nat,
                passes,
            ),
    {
        let ghost i = it.index() as int;
        let ghost before = out@;
        proof {
            lemma_op_count_step(input, i + 1);
        }
        let at = first + seen;
        match op {
            WasmOp::Block(b) => {
                match convert_ops(b.body, depths, at + 1, n_params, passes) {
                    Err(number) => {
                        return Err(number);
                    },
                    Ok((body, inner)) => {
                        out.push(WasmOp::Block(crate::ops::BlockOp { ty: b.ty, body }));
                        proof {
                            assert(out@.drop_last() =~= before);
                        }
                        seen = seen + 1 + inner;
                    },
                }
            },
            WasmOp::Loop(l) => {
                match convert_ops(l.body, depths, at + 1, n_params, passes) {
                    Err(number) => {
                        return Err(number);
                    },
                    Ok((body, inner)) => {
                        out.push(WasmOp::Loop(crate::ops::LoopOp { ty: l.ty, body }));
                        proof {
                            assert(out@.drop_last() =~= before);
                        }
                        seen = seen + 1 + inner;
                    },
                }
            },
            _ => {
                let depth = if at < depths.len() {
                    Some(depths[at])
                } else {
                    None
                };
                match replace_op(&op, depth, n_params, passes) {
                    Some(insts) => {
                        let mut j: usize = 0;
                        while j < insts.len()
                            invariant
                                j <= insts.len(),
                                out@ == before + as_ops(insts@.take(j as int)),
                            decreases insts.len() - j,
                        {
                            out.push(WasmOp::Ext(ExtOp::Valida(insts[j])));
                            proof {
                                assert(out@ =~= before + as_ops(insts@.take(j + 1)));
                            }
                            j = j + 1;
                        }
                        proof {
                            assert(insts@.take(j as int) =~= insts@);
                            assert(out@.take(out@.len() - insts@.len()) =~= before);
                            assert(out@.skip(out@.len() - insts@.len()) =~= as_ops(insts@));
                        }
                    },
                    None => {
                        if is_wanted(&op, passes) {
                            return Err(at);
                        }
                        out.push(op);
                        proof {
                            assert(out@.drop_last() =~= before);
                        }
                    },
                }
                seen = seen + 1;
            },
        }
    }
    Ok((out, seen))
}

/// Whether `res` is what the lowering gives for `func`: the function with
/// its body lowered, where every operation that `passes` asks for can be
/// replaced; and else the error of the first operation that cannot, and no
/// function at all, so that no function comes out lowered in part.
pub open spec fn lowered_to(
    func: FuncOp,
    depths: Seq<StackDepth>,
    passes: Conversions,
    res: Result<FuncOp, CompilerError>,
) -> bool {
    let n_params = func.ty.spec_params().len();
    match res {
        Ok(lowered) => {
            &&& lowering_check(func.body@, depths, n_params, passes) is Ok
            &&& lowered.name == func.name
            &&& lowered.ty == func.ty
            &&& lowered.locals == func.locals
            &&& converted(
                func.body@,
                func.body@.len() as int,
                lowered.body@,
                depths,
                0,
                n_params,
                passes,
            )
        },
        Err(e) => lowering_check(func.body@, depths, n_params, passes) == Err::<
            (),
            CompilerError,
        >(e),
    }
}

/// Lowers the body of `func` for the frame-pointer machine, as far as
/// `passes` asks; `depths` holds the height of the stack before each
/// operation, as the stack-shape analysis gives it. Where an operation that
/// `passes` asks for cannot be replaced, the error names the first such
/// operation and nothing is lowered.
pub fn convert_func(func: FuncOp, depths: &[StackDepth], passes: Conversions) -> (res: Result<
    FuncOp,
    CompilerError,
>)
    requires
        countable(func.body@),
    ensures
        lowered_to(func, depths@, passes, res),
{
    let n_params = func.ty.params().len();
    match convert_ops(func.body, depths, 0, n_params, passes) {
        Ok((body, _)) => Ok(FuncOp { name: func.name, ty: func.ty, locals: func.locals, body }),
        Err(number) => {
            if number < depths.len() {
                Err(CompilerError::SlotOutOfRange { operation: number })
            } else {
                Err(CompilerError::MissingHeight { operation: number })
            }
        },
    }
}

/// What the lowering of the accesses to locals replaces.
pub open spec fn arg_and_locals_passes() -> Conversions {
    Conversions { args_and_locals: true, returns: false, calls: false, constants: false }
}

/// What the lowering of returns replaces.
pub open spec fn return_passes() -> Conversions {
    Conversions { args_and_locals: false, returns: true, calls: false, constants: false }
}

/// What the lowering of calls replaces.
pub open spec fn call_passes() -> Conversions {
    Conversions { args_and_locals: false, returns: false, calls: true, constants: false }
}

/// Replaces the reads and writes of arguments and declared locals by moves
/// between cells.
pub fn convert_func_arg_and_locals(func: FuncOp, depths: &[StackDepth]) -> (res: Result<
    FuncOp,
    CompilerError,
>)
    requires
        countable(func.body@),
    ensures
        lowered_to(func, depths@, arg_and_locals_passes(), res),
{
    convert_func(
        func,
        depths,
        Conversions { args_and_locals: true, returns: false, calls: false, constants: false },
    )
}

/// Replaces every return by the store of the result and the jump back.
pub fn convert_return_ops(func: FuncOp, depths: &[StackDepth]) -> (res: Result<
    FuncOp,
    CompilerError,
>)
    requires
        countable(func.body@),
    ensures
        lowered_to(func, depths@, return_passes(), res),
{
    convert_func(
        func,
        depths,
        Conversions { args_and_locals: false, returns: true, calls: false, constants: false },
    )
}

/// Replaces every call of a function known by symbol by the set-up of the
/// frame of the callee and the jump to it.
pub fn convert_call_ops(func: FuncOp, depths: &[StackDepth]) -> (res: Result<
    FuncOp,
    CompilerError,
>)
    requires
        countable(func.body@),
    ensures
        lowered_to(func, depths@, call_passes(), res),
{
    convert_func(
        func,
        depths,
        Conversions { args_and_locals: false, returns: false, calls: true, constants: false },
    )
}

/// The lowering of one function for the frame-pointer machine.
#[derive(Debug, Copy, Clone)]
pub struct FuncOpLowering {}

impl Default for FuncOpLowering {
    fn default() -> (lowering: FuncOpLowering) {
        FuncOpLowering {  }
    }
}

/// What the lowering of a function replaces: the accesses to arguments and
/// locals, the returns and the calls.
pub open spec fn func_lowering_passes() -> Conversions {
    Conversions { args_and_locals: true, returns: true, calls: true, constants: false }
}

impl FuncOpLowering {
    /// Lowers `func`: accesses to arguments and locals, returns and calls
    /// become instructions of the frame-pointer machine; every other
    /// operation stays. Where one of them cannot be replaced, the error
    /// names the first such operation and nothing is lowered.
    pub fn match_and_rewrite(&self, func: FuncOp, depths: &[StackDepth]) -> (res: Result<
        FuncOp,
        CompilerError,
    >)
        requires
            countable(func.body@),
        ensures
            lowered_to(func, depths@, func_lowering_passes(), res),
    {
        convert_func(
            func,
            depths,
            Conversions { args_and_locals: true, returns: true, calls: true, constants: false },
        )
    }
}

/// The heights that `depths` holds for the function number `f`: none where
/// it holds no entry for it.
pub open spec fn depths_for(depths: Seq<Vec<StackDepth>>, f: int) -> Seq<StackDepth> {
    if 0 <= f < depths.len() {
        depths[f]@
    } else {
        Seq::empty()
    }
}

/// What the lowering of the function number `f` of `module` reports.
pub open spec fn function_check(module: ModuleOp, depths: Seq<Vec<StackDepth>>, f: int) -> Result<
    (),
    CompilerError,
> {
    lowering_check(
        module.functions@[f].body@,
        depths_for(depths, f),
        module.functions@[f].ty.spec_params().len(),
        func_lowering_passes(),
    )
}

/// Whether `res` is what the lowering gives for `module`: the module with
/// every function lowered and the rest as it was; or the error of the first
/// function that cannot be lowered, and no module.
pub open spec fn module_lowered_to(
    module: ModuleOp,
    depths: Seq<Vec<StackDepth>>,
    res: Result<ModuleOp, CompilerError>,
) -> bool {
    match res {
        Ok(lowered) => {
            &&& lowered.start_func_sym == module.start_func_sym
            &&& lowered.func_syms == module.func_syms
            &&& lowered.import_func_types == module.import_func_types
            &&& lowered.import_func_modules == module.import_func_modules
            &&& lowered.functions@.len() == module.functions@.len()
            &&& forall|f: int|
                0 <= f < module.functions@.len() ==> lowered_to(
                    module.functions@[f],
                    depths_for(depths, f),
                    func_lowering_passes(),
                    Ok(#[trigger] lowered.functions@[f]),
                )
        },
        Err(e) => exists|f: int|
            0 <= f < module.functions@.len() && #[trigger] function_check(module, depths, f)
                == Err::<(), CompilerError>(e) && forall|g: int|
                0 <= g < f ==> (#[trigger] function_check(module, depths, g)) is Ok,
    }
}

/// The lowering of every function of a module for the frame-pointer machine.
#[derive(Debug, Copy, Clone)]
pub struct WasmToValidaFuncLoweringPass {}

impl Default for WasmToValidaFuncLoweringPass {
    fn default() -> (pass: WasmToValidaFuncLoweringPass) {
        WasmToValidaFuncLoweringPass {  }
    }
}

impl WasmToValidaFuncLoweringPass {
    /// Lowers every function of `module`, each with the heights that
    /// `depths` holds for it; the rest of the module stays as it is. Where
    /// a function cannot be lowered, the error is that of the first such
    /// function and no module comes out.
    pub fn run_on_operation(&self, module: ModuleOp, depths: &Vec<Vec<StackDepth>>) -> (res:
        Result<ModuleOp, CompilerError>)
        requires
            module_countable(module),
        ensures
            module_lowered_to(module, depths@, res),
    {
        let ghost given = module.functions@;
        assert(given.len() == module.functions.len());
        let lowering = FuncOpLowering::default();
        let none: Vec<StackDepth> = Vec::new();
        let mut functions: Vec<FuncOp> = Vec::new();
        let mut f: usize = 0;
        for func in it: module.functions.into_iter()
            invariant
                it.seq() == given,
                given == module.functions@,
                f == it.index(),
                given.len() <= usize::MAX,
                none@.len() == 0,
                functions@.len() == f,
                module_countable(module),
                forall|g: int|
                    0 <= g < f ==> lowered_to(
                        given[g],
                        depths_for(depths@, g),
                        func_lowering_passes(),
                        Ok(#[trigger] functions@[g]),
                    ),
        {
            let heights: &Vec<StackDepth> = if f < depths.len() {
                &depths[f]
            } else {
                &none
            };
            assert(heights@ =~= depths_for(depths@, f as int));
            assert(countable(given[f as int].body@));
            match lowering.match_and_rewrite(func, heights.as_slice()) {
                Err(e) => {
                    proof {
                        assert(function_check(module, depths@, f as int) == Err::<
                            (),
                            CompilerError,
                        >(e));
                        assert forall|g: int| 0 <= g < f implies (#[trigger] function_check(
                            module,
                            depths@,
                            g,
                        )) is Ok by {
                            assert(lowered_to(
                                given[g],
                                depths_for(depths@, g),
                                func_lowering_passes(),
                                Ok(functions@[g]),
                            ));
                        }
                    }
                    return Err(e);
                },
                Ok(lowered) => {
                    functions.push(lowered);
                },
            }
            f = f + 1;
        }
        Ok(
            ModuleOp {
                start_func_sym: module.start_func_sym,
                func_syms: module.func_syms,
                import_func_types: module.import_func_types,
                import_func_modules: module.import_func_modules,
                functions,
            },
        )
    }
}

/// The text of one instruction of the frame-pointer machine: its name and
/// its operands, a cell written as its displacement followed by `(fp)`.
pub open spec fn valida_text(op: ValidaOp) -> Seq<char> {
    match op {
        ValidaOp::Sw(o) => "valida.sw "@ + decimal_int(o.a as int) + " "@ + decimal_int(o.b as int)
            + "(fp) "@ + decimal_int(o.c as int) + "(fp) "@ + decimal_int(o.d as int) + " "@
            + decimal_int(o.e as int),
        ValidaOp::Imm32(o) => "valida.imm32 "@ + decimal_int(o.a as int) + "(fp) "@ + decimal_int(
            o.b as int,
        ) + " "@ + decimal_int(o.c as int) + " "@ + decimal_int(o.d as int) + " "@ + decimal_int(
            o.e as int,
        ),
        ValidaOp::Jalv(o) => "valida.jalv "@ + decimal_int(o.a as int) + "(fp) "@ + decimal_int(
            o.b as int,
        ) + "(fp) "@ + decimal_int(o.c as int) + "(fp) "@ + decimal_int(o.d as int) + " "@
            + decimal_int(o.e as int),
        ValidaOp::JalSym { a, b, func_index } => "valida.jalsym "@ + decimal_int(a as int)
            + "(fp) "@ + decimal_int(b as int) + "(fp) "@ + decimal_nat(func_index.0 as nat),
    }
}

/// Renders one instruction of the frame-pointer machine.
pub fn valida_op_to_string(op: &ValidaOp) -> (text: String)
    ensures
        text@ == valida_text(*op),
{
    let mut text = String::new();
    match op {
        ValidaOp::Sw(o) => {
            text.append("valida.sw ");
            push_decimal_i64(&mut text, o.a as i64);
            text.append(" ");
            push_decimal_i64(&mut text, o.b as i64);
            text.append("(fp) ");
            push_decimal_i64(&mut text, o.c as i64);
            text.append("(fp) ");
            push_decimal_i64(&mut text, o.d as i64);
            text.append(" ");
            push_decimal_i64(&mut text, o.e as i64);
        },
        ValidaOp::Imm32(o) => {
            text.append("valida.imm32 ");
            push_decimal_i64(&mut text, o.a as i64);
            text.append("(fp) ");
            push_decimal_i64(&mut text, o.b as i64);
            text.append(" ");
            push_decimal_i64(&mut text, o.c as i64);
            text.append(" ");
            push_decimal_i64(&mut text, o.d as i64);
            text.append(" ");
            push_decimal_i64(&mut text, o.e as i64);
        },
        ValidaOp::Jalv(o) => {
            text.append("valida.jalv ");
            push_decimal_i64(&mut text, o.a as i64);
            text.append("(fp) ");
            push_decimal_i64(&mut text, o.b as i64);
            text.append("(fp) ");
            push_decimal_i64(&mut text, o.c as i64);
            text.append("(fp) ");
            push_decimal_i64(&mut text, o.d as i64);
            text.append(" ");
            push_decimal_i64(&mut text, o.e as i64);
        },
        ValidaOp::JalSym { a, b, func_index } => {
            text.append("valida.jalsym ");
            push_decimal_i64(&mut text, *a as i64);
            text.append("(fp) ");
            push_decimal_i64(&mut text, *b as i64);
            text.append("(fp) ");
            push_decimal_u64(&mut text, func_index.0 as u64);
        },
    }
    assert(text@ =~= valida_text(*op));
    text
}

} // verus!
