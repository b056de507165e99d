//! The stack-shape analysis: the height of the operand stack before every
//! operation of a function, from the static arity of each operation.

use vstd::prelude::*;
use vstd::std_specs::convert::FromSpecImpl;
use crate::ops::{FuncOp, WasmOp};
use crate::types::WasmFuncType;

verus! {

/// Height of the operand stack, in values.
#[derive(Copy, Clone, PartialEq, Eq, Hash, PartialOrd, Ord, Debug, Structural)]
pub struct StackDepth(pub u32);

impl From<u32> for StackDepth {
    fn from(v: u32) -> (depth: StackDepth) {
        StackDepth(v)
    }
}

impl FromSpecImpl<u32> for StackDepth {
    open spec fn obeys_from_spec() -> bool {
        true
    }

    open spec fn from_spec(v: u32) -> StackDepth {
        StackDepth(v)
    }
}

/// The height after `inputs` values have left a stack of height `depth` and
/// `outputs` values have come: never below zero, never above what a 32-bit
/// counter holds.
pub open spec fn shifted(depth: u32, inputs: nat, outputs: nat) -> u32 {
    let left: nat = if depth >= inputs {
        (depth - inputs) as nat
    } else {
        0
    };
    if left + outputs >= u32::MAX {
        u32::MAX
    } else {
        (left + outputs) as u32
    }
}

impl StackDepth {
    /// The height after one more value has been pushed.
    pub fn next(&self) -> (depth: StackDepth)
        ensures
            depth.0 == shifted(self.0, 0, 1),
    {
        StackDepth(self.0.saturating_add(1))
    }
}

/// The values that `op` takes from the stack and those it leaves there.
/// A call goes by the signature that `sigs` holds for the function; where
/// `sigs` holds none, and for blocks, loops and the operations of a target,
/// the height stays as it is.
pub open spec fn arity(op: WasmOp, sigs: Seq<WasmFuncType>) -> (nat, nat) {
    match op {
        WasmOp::Constant(_) => (0, 1),
        WasmOp::Add(_) => (2, 1),
        WasmOp::Call(c) => if (c.func_index.0 as int) < sigs.len() {
            (
                sigs[c.func_index.0 as int].spec_params().len(),
                sigs[c.func_index.0 as int].spec_results().len(),
            )
        } else {
            (0, 0)
        },
        WasmOp::CallSym(c) => if (c.func_index.0 as int) < sigs.len() {
            (
                sigs[c.func_index.0 as int].spec_params().len(),
                sigs[c.func_index.0 as int].spec_results().len(),
            )
        } else {
            (0, 0)
        },
        WasmOp::Return(_) => (0, 0),
        WasmOp::Block(_) => (0, 0),
        WasmOp::Loop(_) => (0, 0),
        WasmOp::LocalGet(_) => (0, 1),
        WasmOp::LocalSet(_) => (1, 0),
        WasmOp::LocalTee(_) => (1, 1),
        WasmOp::GlobalSet(_) => (1, 0),
        WasmOp::GlobalGet(_) => (0, 1),
        WasmOp::Store(_) => (2, 0),
        WasmOp::Load(_) => (1, 1),
        WasmOp::Br(_) => (0, 0),
        WasmOp::BrIf(_) => (1, 0),
        WasmOp::I32Eqz(_) => (1, 1),
        WasmOp::Ext(_) => (0, 0),
    }
}

/// The height of the stack after `op`, where it was `depth` before.
pub open spec fn depth_after(op: WasmOp, depth: u32, sigs: Seq<WasmFuncType>) -> u32 {
    shifted(depth, arity(op, sigs).0, arity(op, sigs).1)
}

/// The height of the stack after `ops[from..]`, where it was `depth` before
/// `ops[from]`. A block or a loop leaves the height as it found it.
pub open spec fn depth_at_end(ops: Seq<WasmOp>, from: int, depth: u32, sigs: Seq<WasmFuncType>) -> u32
    decreases ops.len() - from,
{
    if from < 0 || from >= ops.len() {
        depth
    } else {
        depth_at_end(ops, from + 1, depth_after(ops[from], depth, sigs), sigs)
    }
}

/// The heights before each operation of `ops[from..]`, in program order,
/// nested bodies included: an entry for a block or a loop, then those of its
/// body, which starts at the height of the block itself.
pub open spec fn depths_of(ops: Seq<WasmOp>, from: int, depth: u32, sigs: Seq<WasmFuncType>) -> Seq<
    StackDepth,
>
    decreases ops, ops.len() - from,
{
    if from < 0 || from >= ops.len() {
        Seq::empty()
    } else {
        let inner = match ops[from] {
            WasmOp::Block(b) => depths_of(b.body@, 0, depth, sigs),
            WasmOp::Loop(l) => depths_of(l.body@, 0, depth, sigs),
            _ => Seq::empty(),
        };
        seq![StackDepth(depth)] + inner + depths_of(
            ops,
            from + 1,
            depth_after(ops[from], depth, sigs),
            sigs,
        )
    }
}

/// Number of operations in `ops[..upto]`, nested bodies included.
pub open spec fn op_count(ops: Seq<WasmOp>, upto: int) -> nat
    decreases ops, upto,
{
    if upto <= 0 || upto > ops.len() {
        0
    } else {
        let inner: nat = match ops[upto - 1] {
            WasmOp::Block(b) => op_count(b.body@, b.body@.len() as int),
            WasmOp::Loop(l) => op_count(l.body@, l.body@.len() as int),
            _ => 0,
        };
        op_count(ops, upto - 1) + 1 + inner
    }
}

fn clamp_len(len: usize) -> (n: u32)
    ensures
        n == if len >= u32::MAX {
            u32::MAX
        } else {
            len as u32
        },
{
    if len >= u32::MAX as usize {
        u32::MAX
    } else {
        len as u32
    }
}

fn shift(depth: u32, inputs: usize, outputs: usize) -> (after: u32)
    ensures
        after == shifted(depth, inputs as nat, outputs as nat),
{
    depth.saturating_sub(clamp_len(inputs)).saturating_add(clamp_len(outputs))
}

fn call_shift(depth: u32, func_index: u32, sigs: &[WasmFuncType]) -> (after: u32)
    ensures
        after == if (func_index as int) < sigs@.len() {
            shifted(
                depth,
                sigs@[func_index as int].spec_params().len(),
                sigs@[func_index as int].spec_results().len(),
            )
        } else {
            shifted(depth, 0, 0)
        },
{
    if (func_index as usize) < sigs.len() {
        let sig = &sigs[func_index as usize];
        shift(depth, sig.params().len(), sig.results().len())
    } else {
        depth
    }
}

/// The height of the stack after the operation `op`, where it was `depth`
/// before.
pub fn step_depth(op: &WasmOp, depth: StackDepth, sigs: &[WasmFuncType]) -> (after: StackDepth)
    ensures
        after.0 == depth_after(*op, depth.0, sigs@),
{
    let d = depth.0;
    let after = match op {
        WasmOp::Constant(_) => shift(d, 0, 1),
        WasmOp::Add(_) => shift(d, 2, 1),
        WasmOp::Call(c) => call_shift(d, c.func_index.0, sigs),
        WasmOp::CallSym(c) => call_shift(d, c.func_index.0, sigs),
        WasmOp::Return(_) => d,
        WasmOp::Block(_) => d,
        WasmOp::Loop(_) => d,
        WasmOp::LocalGet(_) => shift(d, 0, 1),
        WasmOp::LocalSet(_) => shift(d, 1, 0),
        WasmOp::LocalTee(_) => shift(d, 1, 1),
        WasmOp::GlobalSet(_) => shift(d, 1, 0),
        WasmOp::GlobalGet(_) => shift(d, 0, 1),
        WasmOp::Store(_) => shift(d, 2, 0),
        WasmOp::Load(_) => shift(d, 1, 1),
        WasmOp::Br(_) => d,
        WasmOp::BrIf(_) => shift(d, 1, 0),
        WasmOp::I32Eqz(_) => shift(d, 1, 1),
        WasmOp::Ext(_) => d,
    };
    StackDepth(after)
}

/// Appends to `out` the heights before each operation of `ops`, nested
/// bodies included, and returns the height after the last of them.
pub fn annotate_ops(
    ops: &Vec<WasmOp>,
    depth: StackDepth,
    sigs: &[WasmFuncType],
    out: &mut Vec<StackDepth>,
) -> (after: StackDepth)
    ensures
        final(out)@ == old(out)@ + depths_of(ops@, 0, depth.0, sigs@),
        after.0 == depth_at_end(ops@, 0, depth.0, sigs@),
    decreases ops,
{
    let mut current = depth;
    let mut i: usize = 0;
    while i < ops.len()
        invariant
            i <= ops.len(),
            out@ + depths_of(ops@, i as int, current.0, sigs@) == old(out)@ + depths_of(
                ops@,
                0,
                depth.0,
                sigs@,
            ),
            depth_at_end(ops@, i as int, current.0, sigs@) == depth_at_end(
                ops@,
                0,
                depth.0,
                sigs@,
            ),
        decreases ops.len() - i,
    {
        let ghost before = out@;
        let ghost rest = depths_of(ops@, i as int, current.0, sigs@);
        out.push(current);
        match &ops[i] {
            WasmOp::Block(b) => {
                annotate_ops(&b.body, current, sigs, out);
            },
            WasmOp::Loop(l) => {
                annotate_ops(&l.body, current, sigs, out);
            },
            _ => {},
        }
        let next = step_depth(&ops[i], current, sigs);
        proof {
            let tail = depths_of(ops@, i + 1, next.0, sigs@);
            assert(out@ + tail =~= before + rest);
        }
        current = next;
        i = i + 1;
    }
    proof {
        assert(out@ + Seq::<StackDepth>::empty() =~= out@);
    }
    current
}

/// The stack-shape analysis of a function.
#[derive(Debug, Copy, Clone, PartialEq, Eq, Structural)]
pub struct WasmTrackStackDepthPass {
    /// Whether the declared locals of the function lie on the stack below
    /// its operands, so that the height at entry is their number.
    pub reserve_space_for_locals: bool,
}

/// The height of the stack at the entry of a function with `locals` declared
/// locals.
pub open spec fn entry_depth(reserve_space_for_locals: bool, locals: nat) -> u32 {
    if reserve_space_for_locals {
        shifted(0, 0, locals)
    } else {
        0
    }
}

impl WasmTrackStackDepthPass {
    /// An analysis in which the stack of a function starts empty.
    pub fn new() -> (pass: WasmTrackStackDepthPass)
        ensures
            !pass.reserve_space_for_locals,
    {
        WasmTrackStackDepthPass { reserve_space_for_locals: false }
    }

    /// An analysis in which the declared locals of a function lie on its
    /// stack from the start.
    pub fn new_reserve_space_for_locals() -> (pass: WasmTrackStackDepthPass)
        ensures
            pass.reserve_space_for_locals,
    {
        WasmTrackStackDepthPass { reserve_space_for_locals: true }
    }

    /// The height of the stack before each operation of `func`, in program
    /// order and with nested bodies included; `sigs` holds the signatures of
    /// the functions that calls may name, by index.
    pub fn run_on_function(&self, func: &FuncOp, sigs: &[WasmFuncType]) -> (depths: Vec<
        StackDepth,
    >)
        ensures
            depths@ == depths_of(
                func.body@,
                0,
                entry_depth(self.reserve_space_for_locals, func.locals@.len()),
                sigs@,
            ),
    {
        let start = if self.reserve_space_for_locals {
            shift(0, 0, func.locals.len())
        } else {
            0
        };
        let mut depths: Vec<StackDepth> = Vec::new();
        annotate_ops(&func.body, StackDepth(start), sigs, &mut depths);
        assert(depths@ =~= depths_of(func.body@, 0, start, sigs@));
        depths
    }
}

/// The height of the stack before `ops[upto]`, where it was `depth` before
/// `ops[0]`.
pub open spec fn depth_before(ops: Seq<WasmOp>, upto: int, depth: u32, sigs: Seq<WasmFuncType>) -> u32
    decreases upto,
{
    if upto <= 0 || upto > ops.len() {
        depth
    } else {
        depth_after(ops[upto - 1], depth_before(ops, upto - 1, depth, sigs), sigs)
    }
}

/// The heights of the whole body are those of `ops[..from]` followed by
/// those of `ops[from..]`, and the former are as many as `ops[..from]` has
/// operations.
proof fn lemma_depths_split(
    ops: Seq<WasmOp>,
    from: int,
    depth: u32,
    sigs: Seq<WasmFuncType>,
)
    requires
        0 <= from <= ops.len(),
    ensures
        op_count(ops, from) <= depths_of(ops, 0, depth, sigs).len(),
        depths_of(ops, 0, depth, sigs).skip(op_count(ops, from) as int) == depths_of(
            ops,
            from,
            depth_before(ops, from, depth, sigs),
            sigs,
        ),
    decreases from,
{
    let all = depths_of(ops, 0, depth, sigs);
    if from == 0 {
        assert(all.skip(0) =~= all);
    } else {
        lemma_depths_split(ops, from - 1, depth, sigs);
        let before = depth_before(ops, from - 1, depth, sigs);
        let k = op_count(ops, from - 1) as int;
        let tail = depths_of(ops, from - 1, before, sigs);
        let inner = match ops[from - 1] {
            WasmOp::Block(b) => depths_of(b.body@, 0, before, sigs),
            WasmOp::Loop(l) => depths_of(l.body@, 0, before, sigs),
            _ => Seq::empty(),
        };
        match ops[from - 1] {
            WasmOp::Block(b) => lemma_one_depth_per_op(b.body@, before, sigs),
            WasmOp::Loop(l) => lemma_one_depth_per_op(l.body@, before, sigs),
            _ => {},
        }
        let rest = depths_of(ops, from, depth_before(ops, from, depth, sigs), sigs);
        assert(tail == seq![StackDepth(before)] + inner + rest);
        assert(all.skip(k) == tail);
        let n = 1 + inner.len() as int;
        assert(all.skip(k + n) =~= tail.skip(n));
        assert(tail.skip(n) =~= rest);
    }
}

proof fn lemma_depths_and_ops(
    ops: Seq<WasmOp>,
    from: int,
    depth: u32,
    sigs: Seq<WasmFuncType>,
)
    requires
        0 <= from <= ops.len(),
    ensures
        depths_of(ops, from, depth, sigs).len() + op_count(ops, from) == op_count(
            ops,
            ops.len() as int,
        ),
    decreases ops, ops.len() - from,
{
    if from < ops.len() {
        match ops[from] {
            WasmOp::Block(b) => lemma_depths_and_ops(b.body@, 0, depth, sigs),
            WasmOp::Loop(l) => lemma_depths_and_ops(l.body@, 0, depth, sigs),
            _ => {},
        }
        lemma_depths_and_ops(ops, from + 1, depth_after(ops[from], depth, sigs), sigs);
    }
}

/// The analysis gives one height for each operation, nested ones included.
pub proof fn lemma_one_depth_per_op(ops: Seq<WasmOp>, depth: u32, sigs: Seq<WasmFuncType>)
    ensures
        depths_of(ops, 0, depth, sigs).len() == op_count(ops, ops.len() as int),
{
    lemma_depths_and_ops(ops, 0, depth, sigs);
}

/// Where to find a height. Number the operations of a body in program
/// order, nested ones included. Then the entry of the analysis with the
/// number of `ops[at]` is the height before `ops[at]`; and where `ops[at]`
/// is a block or a loop, the entries that follow are the heights of its
/// body, which starts at that same height.
pub proof fn lemma_depth_of_op(ops: Seq<WasmOp>, at: int, depth: u32, sigs: Seq<WasmFuncType>)
    requires
        0 <= at < ops.len(),
    ensures
        ({
            let all = depths_of(ops, 0, depth, sigs);
            let number = op_count(ops, at) as int;
            let before = depth_before(ops, at, depth, sigs);
            let inner = match ops[at] {
                WasmOp::Block(b) => depths_of(b.body@, 0, before, sigs),
                WasmOp::Loop(l) => depths_of(l.body@, 0, before, sigs),
                _ => Seq::empty(),
            };
            &&& number + 1 + inner.len() <= all.len()
            &&& all[number] == StackDepth(before)
            &&& all.subrange(number + 1, number + 1 + inner.len()) == inner
        }),
{
    let all = depths_of(ops, 0, depth, sigs);
    let number = op_count(ops, at) as int;
    let before = depth_before(ops, at, depth, sigs);
    let inner = match ops[at] {
        WasmOp::Block(b) => depths_of(b.body@, 0, before, sigs),
        WasmOp::Loop(l) => depths_of(l.body@, 0, before, sigs),
        _ => Seq::empty(),
    };
    lemma_depths_split(ops, at, depth, sigs);
    let tail = depths_of(ops, at, before, sigs);
    let rest = depths_of(ops, at + 1, depth_after(ops[at], before, sigs), sigs);
    assert(tail == seq![StackDepth(before)] + inner + rest);
    assert(all.skip(number) == tail);
    assert(tail[0] == all[number]);
    assert forall|j: int| 0 <= j < inner.len() implies all.subrange(
        number + 1,
        number + 1 + inner.len(),
    )[j] == inner[j] by {
        assert(tail[1 + j] == all[number + 1 + j]);
    }
    assert(all.subrange(number + 1, number + 1 + inner.len()) =~= inner);
}

} // verus!
