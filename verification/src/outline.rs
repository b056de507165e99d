//! Outlining and branch lowering: every block and every loop of a function
//! becomes a procedure of its own, called from where the construct stood,
//! and every branch becomes a return that leaves a count in the
//! branch-signal register for the callers to act on.
//!
//! The protocol. A branch that leaves `d` constructs besides the one it
//! stands in stores `d + 1` in the register and returns. After a call of an
//! outlined procedure from which a branch can come that leaves more than
//! that procedure, the caller runs a propagation check: a register of 0
//! means that nothing is pending; else the register is lowered by one, and
//! the caller goes on if it has reached 0, re-enters itself if it has
//! reached 1 and the caller is a loop, and returns in every other case. A
//! branch to the loop it stands in needs no count: it re-enters the loop.
//! So whenever code runs that no branch is skipping, the register holds 0
//! or 1, and the check goes on for both.

use vstd::prelude::*;
use crate::ir::{Ext, Func, Inst, Module, Proc, procs_of};
use crate::ops::{
    branch_check, branches_in_range, count_blocks, first_position_of, spellings, CompilerError,
    ConstValue, ExtOp, FuncOp, ModuleOp, WasmOp,
};
use crate::text::{decimal_nat, push_decimal_u64};
use crate::types::{FuncIndex, WasmType};

verus! {

/// The kind of construct whose body is being lowered.
#[derive(Debug, Copy, Clone, PartialEq, Eq, Structural)]
pub enum Construct {
    /// The body of a function.
    Func,
    /// The body of a block.
    Block,
    /// The body of a loop.
    Loop,
}

/// Whether a branch of `ops[from..]`, nested bodies included, leaves the
/// outlined construct that `ops` belongs to, where `level` constructs lie
/// between that construct and `ops`: a branch that leaves more than `level`
/// constructs besides its own, or a return.
pub open spec fn escapes(ops: Seq<WasmOp>, from: int, level: nat) -> bool
    decreases ops, ops.len() - from,
{
    if from < 0 || from >= ops.len() {
        false
    } else {
        let here = match ops[from] {
            WasmOp::Br(b) => b.relative_depth.0 > level,
            WasmOp::BrIf(b) => b.relative_depth.0 > level,
            WasmOp::Return(_) => true,
            WasmOp::Block(b) => escapes(b.body@, 0, level + 1),
            WasmOp::Loop(l) => escapes(l.body@, 0, level + 1),
            _ => false,
        };
        here || escapes(ops, from + 1, level)
    }
}

/// The body of a block or a loop; empty for every other operation.
pub open spec fn body_of(op: WasmOp) -> Seq<WasmOp> {
    match op {
        WasmOp::Block(b) => b.body@,
        WasmOp::Loop(l) => l.body@,
        _ => Seq::empty(),
    }
}

/// Number of procedures that outlining makes of `op`: one for a block or a
/// loop, and those of its body.
pub open spec fn blocks_in(op: WasmOp) -> nat {
    match op {
        WasmOp::Block(b) => 1 + count_blocks(b.body@, 0),
        WasmOp::Loop(l) => 1 + count_blocks(l.body@, 0),
        _ => 0,
    }
}

/// The instruction of the flat stream that stands for an operation which is
/// neither a construct nor a branch.
pub open spec fn plain(op: WasmOp) -> Inst {
    match op {
        WasmOp::Constant(c) => match c.value {
            ConstValue::I32(value) => Inst::I32Const { value },
            ConstValue::I64(value) => Inst::I64Const { value },
        },
        WasmOp::Add(a) => if a.ty == WasmType::I32 {
            Inst::I32Add
        } else {
            Inst::I64Add
        },
        WasmOp::Call(c) => Inst::Call { func_idx: c.func_index },
        WasmOp::CallSym(c) => Inst::Call { func_idx: c.func_index },
        WasmOp::LocalGet(g) => Inst::LocalGet { local_idx: g.index.0 },
        WasmOp::LocalSet(s) => Inst::LocalSet { local_idx: s.index.0 },
        WasmOp::LocalTee(t) => Inst::LocalTee { local_idx: t.index.0 },
        WasmOp::GlobalSet(s) => Inst::GlobalSet { global_idx: s.index.0 },
        WasmOp::GlobalGet(g) => Inst::GlobalGet { global_idx: g.index.0 },
        WasmOp::Store(s) => Inst::Store { ty: s.ty },
        WasmOp::Load(l) => Inst::Load { ty: l.ty },
        WasmOp::I32Eqz(_) => Inst::I32Eqz,
        WasmOp::Ext(ExtOp::Valida(v)) => Inst::Ext(Ext::Valida(v)),
        _ => Inst::Nop,
    }
}

/// The instruction by which a branch leaves `depth` constructs besides the
/// one it stands in, from the body of a construct of the given kind: it
/// stores `depth + 1` in the branch-signal register and returns. Two
/// branches need no count: the one to the loop it stands in, which
/// re-enters the loop, and the one that leaves nothing but the body of the
/// function, which is a return.
pub open spec fn branch_out(depth: nat, kind: Construct) -> Inst {
    if depth == 0 && kind == Construct::Loop {
        Inst::Recurse
    } else if depth == 0 && kind == Construct::Func {
        Inst::Return
    } else {
        Inst::SignalReturn { levels: (depth + 1) as u32 }
    }
}

/// The propagation check that a body of the given kind runs.
pub open spec fn check_of(kind: Construct) -> Inst {
    match kind {
        Construct::Loop => Inst::PropagateInLoop,
        _ => Inst::Propagate,
    }
}

/// The call of the outlined procedure `at` that stands for the construct
/// `child` with the body `body`, from the body of a construct of the kind
/// `kind`: the call of a loop is marked as such, and the propagation check
/// follows where a branch can come out of the callee.
pub open spec fn call_of(body: Seq<WasmOp>, child: Construct, kind: Construct, at: nat) -> Seq<
    Inst,
> {
    let call = if child == Construct::Loop {
        Inst::CallLoop { func_idx: FuncIndex(at as u32) }
    } else {
        Inst::Call { func_idx: FuncIndex(at as u32) }
    };
    if escapes(body, 0, 0) {
        seq![call, check_of(kind)]
    } else {
        seq![call]
    }
}

/// The instructions that stand for `op` in the body of a construct of the
/// given kind, around which `depth` constructs lie, the construct itself
/// counted; `at` is the index of the procedure that `op` becomes, where it
/// is a block or a loop.
pub open spec fn lower_op(op: WasmOp, kind: Construct, depth: nat, at: nat) -> Seq<Inst> {
    match op {
        WasmOp::Br(b) => seq![branch_out(b.relative_depth.0 as nat, kind)],
        WasmOp::BrIf(b) => seq![Inst::SkipIfZero, branch_out(b.relative_depth.0 as nat, kind)],
        WasmOp::Return(_) => seq![branch_out(depth, kind)],
        WasmOp::Block(b) => call_of(b.body@, Construct::Block, kind, at),
        WasmOp::Loop(l) => call_of(l.body@, Construct::Loop, kind, at),
        _ => seq![plain(op)],
    }
}

/// The instructions that stand for `ops[from..]`; `next` is the index of
/// the procedure that the first block or loop among them becomes.
pub open spec fn lower_ops(ops: Seq<WasmOp>, from: int, kind: Construct, depth: nat, next: nat) -> Seq<
    Inst,
>
    decreases ops.len() - from,
{
    if from < 0 || from >= ops.len() {
        Seq::empty()
    } else {
        lower_op(ops[from], kind, depth, next) + lower_ops(
            ops,
            from + 1,
            kind,
            depth,
            next + blocks_in(ops[from]),
        )
    }
}

/// The body of the procedure that stands for a construct of the given kind
/// with the body `ops`: its instructions, closed by `End`.
pub open spec fn proc_body(ops: Seq<WasmOp>, kind: Construct, depth: nat, next: nat) -> Seq<Inst> {
    lower_ops(ops, 0, kind, depth, next).push(Inst::End)
}

/// The name of the procedure that stands for a block or a loop: the name of
/// what it lies in, then the nesting level of that and the position of the
/// construct among the blocks and loops of the same body.
pub open spec fn block_name(path: Seq<char>, level: nat, sibling: nat) -> Seq<char> {
    path + "_l"@ + decimal_nat(level) + "_b"@ + decimal_nat(sibling)
}

/// The procedure that stands for a block or a loop with the body `inner`,
/// where `at` is its index; the construct lies in a body around which
/// `depth` constructs lie, after `sibling` other blocks and loops.
pub open spec fn own_proc(
    inner: Seq<WasmOp>,
    construct: Construct,
    depth: nat,
    at: nat,
    path: Seq<char>,
    sibling: nat,
) -> Proc {
    Proc {
        name: block_name(path, depth, sibling),
        body: proc_body(inner, construct, depth + 1, at + 1),
    }
}

/// The procedures that outlining makes of the blocks and loops of
/// `ops[from..]`, each before those of its own body. `depth` constructs lie
/// around `ops`, the first procedure gets the index `next`, `path` is the
/// name of what `ops` is the body of, and `sibling` blocks and loops
/// precede `ops[from]` in `ops`.
pub open spec fn outlined(
    ops: Seq<WasmOp>,
    from: int,
    depth: nat,
    next: nat,
    path: Seq<char>,
    sibling: nat,
) -> Seq<Proc>
    decreases ops, ops.len() - from,
{
    if from < 0 || from >= ops.len() {
        Seq::empty()
    } else {
        match ops[from] {
            WasmOp::Block(b) => seq![
                own_proc(b.body@, Construct::Block, depth, next, path, sibling),
            ] + outlined(b.body@, 0, depth + 1, next + 1, block_name(path, depth, sibling), 0)
                + outlined(
                ops,
                from + 1,
                depth,
                next + 1 + count_blocks(b.body@, 0),
                path,
                sibling + 1,
            ),
            WasmOp::Loop(l) => seq![
                own_proc(l.body@, Construct::Loop, depth, next, path, sibling),
            ] + outlined(l.body@, 0, depth + 1, next + 1, block_name(path, depth, sibling), 0)
                + outlined(
                ops,
                from + 1,
                depth,
                next + 1 + count_blocks(l.body@, 0),
                path,
                sibling + 1,
            ),
            _ => outlined(ops, from + 1, depth, next, path, sibling),
        }
    }
}

/// Outlining makes one procedure of each block and loop.
pub proof fn lemma_outlined_len(
    ops: Seq<WasmOp>,
    from: int,
    depth: nat,
    next: nat,
    path: Seq<char>,
    sibling: nat,
)
    ensures
        outlined(ops, from, depth, next, path, sibling).len() == count_blocks(ops, from),
    decreases ops, ops.len() - from,
{
    if 0 <= from < ops.len() {
        match ops[from] {
            WasmOp::Block(b) => {
                let name = block_name(path, depth, sibling);
                lemma_outlined_len(b.body@, 0, depth + 1, next + 1, name, 0);
                lemma_outlined_len(
                    ops,
                    from + 1,
                    depth,
                    next + 1 + count_blocks(b.body@, 0),
                    path,
                    sibling + 1,
                );
            },
            WasmOp::Loop(l) => {
                let name = block_name(path, depth, sibling);
                lemma_outlined_len(l.body@, 0, depth + 1, next + 1, name, 0);
                lemma_outlined_len(
                    ops,
                    from + 1,
                    depth,
                    next + 1 + count_blocks(l.body@, 0),
                    path,
                    sibling + 1,
                );
            },
            _ => lemma_outlined_len(ops, from + 1, depth, next, path, sibling),
        }
    }
}

proof fn lemma_escapes_saturates(ops: Seq<WasmOp>, from: int, a: nat, b: nat)
    requires
        a >= u32::MAX,
        b >= u32::MAX,
    ensures
        escapes(ops, from, a) == escapes(ops, from, b),
    decreases ops, ops.len() - from,
{
    if 0 <= from < ops.len() {
        match ops[from] {
            WasmOp::Block(x) => lemma_escapes_saturates(x.body@, 0, a + 1, b + 1),
            WasmOp::Loop(x) => lemma_escapes_saturates(x.body@, 0, a + 1, b + 1),
            _ => {},
        }
        lemma_escapes_saturates(ops, from + 1, a, b);
    }
}

/// Whether a branch of `ops`, nested bodies included, leaves more than
/// `level` constructs besides its own, or `ops` holds a return.
pub fn has_escape(ops: &Vec<WasmOp>, level: u32) -> (found: bool)
    ensures
        found == escapes(ops@, 0, level as nat),
    decreases ops,
{
    let mut i: usize = 0;
    while i < ops.len()
        invariant
            i <= ops.len(),
            escapes(ops@, 0, level as nat) == escapes(ops@, i as int, level as nat),
        decreases ops.len() - i,
    {
        let here = match &ops[i] {
            WasmOp::Br(b) => b.relative_depth.0 > level,
            WasmOp::BrIf(b) => b.relative_depth.0 > level,
            WasmOp::Return(_) => true,
            WasmOp::Block(b) => {
                proof {
                    if level == u32::MAX {
                        lemma_escapes_saturates(b.body@, 0, level as nat, level as nat + 1);
                    }
                }
                has_escape(&b.body, level.saturating_add(1))
            },
            WasmOp::Loop(l) => {
                proof {
                    if level == u32::MAX {
                        lemma_escapes_saturates(l.body@, 0, level as nat, level as nat + 1);
                    }
                }
                has_escape(&l.body, level.saturating_add(1))
            },
            _ => false,
        };
        if here {
            return true;
        }
        i = i + 1;
    }
    false
}

fn plain_inst(op: &WasmOp) -> (inst: Inst)
    ensures
        inst == plain(*op),
{
    match op {
        WasmOp::Constant(c) => match c.value {
            ConstValue::I32(value) => Inst::I32Const { value },
            ConstValue::I64(value) => Inst::I64Const { value },
        },
        WasmOp::Add(a) => if a.ty == WasmType::I32 {
            Inst::I32Add
        } else {
            Inst::I64Add
        },
        WasmOp::Call(c) => Inst::Call { func_idx: c.func_index },
        WasmOp::CallSym(c) => Inst::Call { func_idx: c.func_index },
        WasmOp::LocalGet(g) => Inst::LocalGet { local_idx: g.index.0 },
        WasmOp::LocalSet(s) => Inst::LocalSet { local_idx: s.index.0 },
        WasmOp::LocalTee(t) => Inst::LocalTee { local_idx: t.index.0 },
        WasmOp::GlobalSet(s) => Inst::GlobalSet { global_idx: s.index.0 },
        WasmOp::GlobalGet(g) => Inst::GlobalGet { global_idx: g.index.0 },
        WasmOp::Store(s) => Inst::Store { ty: s.ty },
        WasmOp::Load(l) => Inst::Load { ty: l.ty },
        WasmOp::I32Eqz(_) => Inst::I32Eqz,
        WasmOp::Ext(ExtOp::Valida(v)) => Inst::Ext(Ext::Valida(*v)),
        _ => Inst::Nop,
    }
}

fn branch_inst(depth: u32, kind: Construct) -> (inst: Inst)
    requires
        depth < u32::MAX,
    ensures
        inst == branch_out(depth as nat, kind),
{
    match kind {
        Construct::Loop if depth == 0 => Inst::Recurse,
        Construct::Func if depth == 0 => Inst::Return,
        _ => Inst::SignalReturn { levels: depth + 1 },
    }
}

fn make_block_name(path: &str, level: u32, sibling: u32) -> (name: String)
    ensures
        name@ == block_name(path@, level as nat, sibling as nat),
{
    let mut name = String::from_str(path);
    name.append("_l");
    push_decimal_u64(&mut name, level as u64);
    name.append("_b");
    push_decimal_u64(&mut name, sibling as u64);
    name
}

proof fn lemma_count_blocks_step(ops: Seq<WasmOp>, from: int)
    requires
        0 <= from < ops.len(),
    ensures
        count_blocks(ops, from) == blocks_in(ops[from]) + count_blocks(ops, from + 1),
{
}

proof fn lemma_slot_filled(
    before: Seq<Func>,
    reserved: Seq<Func>,
    filled: Seq<Func>,
    done: Seq<Func>,
    own: Proc,
    below: Seq<Proc>,
)
    requires
        reserved.len() == before.len() + 1,
        reserved.take(before.len() as int) == before,
        procs_of(filled) == procs_of(reserved) + below,
        done.len() == filled.len(),
        done == filled.update(before.len() as int, done[before.len() as int]),
        done[before.len() as int]@ == own,
    ensures
        procs_of(done) == procs_of(before) + seq![own] + below,
{
    let at = before.len() as int;
    assert(procs_of(filled).len() == filled.len());
    assert(procs_of(reserved).len() == reserved.len());
    assert forall|j: int| 0 <= j < done.len() implies procs_of(done)[j] == (procs_of(before)
        + seq![own] + below)[j] by {
        if j < at {
            assert(procs_of(filled)[j] == procs_of(reserved)[j]);
            assert(reserved.take(at)[j] == reserved[j]);
        } else if j > at {
            assert(procs_of(filled)[j] == below[j - at - 1]);
        }
    }
    assert(procs_of(done) =~= procs_of(before) + seq![own] + below);
}

/// Whether the outlining of `ops` stays within what 32-bit counters hold:
/// the nesting, with the `depth` constructs around `ops`, and the indices
/// of the procedures, of which `taken` are in use.
pub open spec fn outlining_fits(ops: Seq<WasmOp>, depth: nat, taken: nat) -> bool {
    &&& depth + count_blocks(ops, 0) < u32::MAX
    &&& taken + count_blocks(ops, 0) < u32::MAX
}

/// Appends to `procs` the procedure that stands for a block or a loop with
/// the body `inner`, then those of the blocks and loops of `inner`; returns
/// the index of the former.
fn outline_construct(
    inner: &Vec<WasmOp>,
    construct: Construct,
    depth: u32,
    path: &str,
    sibling: u32,
    procs: &mut Vec<Func>,
) -> (idx: u32)
    requires
        branches_in_range(inner@, depth as nat + 1),
        depth + 1 + count_blocks(inner@, 0) < u32::MAX,
        old(procs)@.len() + 1 + count_blocks(inner@, 0) < u32::MAX,
    ensures
        idx == old(procs)@.len(),
        final(procs)@.len() == old(procs)@.len() + 1 + count_blocks(inner@, 0),
        procs_of(final(procs)@) == procs_of(old(procs)@) + seq![
            own_proc(
                inner@,
                construct,
                depth as nat,
                old(procs)@.len(),
                path@,
                sibling as nat,
            ),
        ] + outlined(
            inner@,
            0,
            depth as nat + 1,
            old(procs)@.len() + 1,
            block_name(path@, depth as nat, sibling as nat),
            0,
        ),
    decreases inner, 1int,
{
    let ghost before = procs@;
    let name = make_block_name(path, depth, sibling);
    let idx = procs.len();
    procs.push(Func { name: name.clone(), instructions: Vec::new() });
    let ghost reserved = procs@;
    assert(reserved.take(before.len() as int) =~= before);
    let mut body = outline_ops(inner, construct, depth + 1, name.as_str(), procs);
    body.push(Inst::End);
    let ghost filled = procs@;
    procs[idx] = Func { name, instructions: body };
    proof {
        let own = own_proc(
            inner@,
            construct,
            depth as nat,
            before.len(),
            path@,
            sibling as nat,
        );
        let below = outlined(inner@, 0, depth as nat + 1, before.len() + 1, own.name, 0);
        lemma_slot_filled(before, reserved, filled, procs@, own, below);
    }
    idx as u32
}

/// Lowers the body `ops` of a construct of the given kind and appends to
/// `procs` the procedures that its blocks and loops become, each before
/// those of its own body. Returns the instructions that stand for `ops`.
#[verifier::rlimit(40)]
pub fn outline_ops(
    ops: &Vec<WasmOp>,
    kind: Construct,
    depth: u32,
    path: &str,
    procs: &mut Vec<Func>,
) -> (body: Vec<Inst>)
    requires
        branches_in_range(ops@, depth as nat),
        outlining_fits(ops@, depth as nat, old(procs)@.len()),
    ensures
        body@ == lower_ops(ops@, 0, kind, depth as nat, old(procs)@.len()),
        procs_of(final(procs)@) == procs_of(old(procs)@) + outlined(
            ops@,
            0,
            depth as nat,
            old(procs)@.len(),
            path@,
            0,
        ),
        final(procs)@.len() == old(procs)@.len() + count_blocks(ops@, 0),
    decreases ops, 0int,
{
    let ghost start = old(procs)@;
    let ghost base = start.len();
    let ghost whole_body = lower_ops(ops@, 0, kind, depth as nat, base);
    let ghost whole_procs = outlined(ops@, 0, depth as nat, base, path@, 0);
    let mut body: Vec<Inst> = Vec::new();
    let mut sibling: u32 = 0;
    let mut i: usize = 0;
    proof {
        assert(body@ + whole_body =~= whole_body);
    }
    while i < ops.len()
        invariant
            i <= ops.len(),
            base == start.len(),
            depth + count_blocks(ops@, 0) < u32::MAX,
            base + count_blocks(ops@, 0) < u32::MAX,
            procs@.len() + count_blocks(ops@, i as int) == base + count_blocks(ops@, 0),
            sibling + count_blocks(ops@, i as int) <= count_blocks(ops@, 0),
            crate::ops::first_malformed(ops@, i as int, depth as nat) is None,
            body@ + lower_ops(ops@, i as int, kind, depth as nat, procs@.len() as nat)
                == whole_body,
            procs_of(procs@) + outlined(
                ops@,
                i as int,
                depth as nat,
                procs@.len() as nat,
                path@,
                sibling as nat,
            ) == procs_of(start) + whole_procs,
        decreases ops.len() - i,
    {
        let ghost body_before = body@;
        let ghost procs_before = procs@;
        let ghost at = procs@.len() as nat;
        let ghost rest_body = lower_ops(ops@, i as int, kind, depth as nat, at);
        let ghost rest_procs = outlined(ops@, i as int, depth as nat, at, path@, sibling as nat);
        proof {
            lemma_count_blocks_step(ops@, i as int);
        }
        match &ops[i] {
            WasmOp::Br(b) => {
                body.push(branch_inst(b.relative_depth.0, kind));
            },
            WasmOp::BrIf(b) => {
                body.push(Inst::SkipIfZero);
                body.push(branch_inst(b.relative_depth.0, kind));
            },
            WasmOp::Return(_) => {
                body.push(branch_inst(depth, kind));
            },
            WasmOp::Block(b) => {
                let idx = outline_construct(&b.body, Construct::Block, depth, path, sibling, procs);
                body.push(Inst::Call { func_idx: FuncIndex(idx) });
                if has_escape(&b.body, 0) {
                    body.push(
                        match kind {
                            Construct::Loop => Inst::PropagateInLoop,
                            _ => Inst::Propagate,
                        },
                    );
                }
                sibling = sibling + 1;
            },
            WasmOp::Loop(l) => {
                let idx = outline_construct(&l.body, Construct::Loop, depth, path, sibling, procs);
                body.push(Inst::CallLoop { func_idx: FuncIndex(idx) });
                if has_escape(&l.body, 0) {
                    body.push(
                        match kind {
                            Construct::Loop => Inst::PropagateInLoop,
                            _ => Inst::Propagate,
                        },
                    );
                }
                sibling = sibling + 1;
            },
            other => {
                body.push(plain_inst(other));
            },
        }
        proof {
            let after = lower_ops(ops@, i + 1, kind, depth as nat, procs@.len() as nat);
            assert(body@ =~= body_before + lower_op(ops@[i as int], kind, depth as nat, at));
            assert(rest_body == lower_op(ops@[i as int], kind, depth as nat, at) + after);
            assert(body@ + after =~= body_before + rest_body);
            let later = outlined(
                ops@,
                i + 1,
                depth as nat,
                procs@.len() as nat,
                path@,
                sibling as nat,
            );
            assert(procs_of(procs@) + later =~= procs_of(procs_before) + rest_procs);
        }
        i = i + 1;
    }
    proof {
        assert(body@ + Seq::<Inst>::empty() =~= body@);
        assert(procs_of(procs@) + Seq::<Proc>::empty() =~= procs_of(procs@));
    }
    body
}

/// Number of blocks and loops in the functions `funcs[..upto]`.
pub open spec fn blocks_before(funcs: Seq<FuncOp>, upto: int) -> nat
    decreases upto,
{
    if upto <= 0 || upto > funcs.len() {
        0
    } else {
        blocks_before(funcs, upto - 1) + count_blocks(funcs[upto - 1].body@, 0)
    }
}

/// Number of functions that the module imports.
pub open spec fn import_count(module: ModuleOp) -> nat {
    module.import_func_types@.len()
}

/// Index of the first outlined procedure of the function number `f`: the
/// imports come first, then the functions, then the procedures of their
/// blocks and loops, function by function.
pub open spec fn block_base(module: ModuleOp, f: int) -> nat {
    import_count(module) + module.functions@.len() + blocks_before(module.functions@, f)
}

/// The procedure that holds the place of the import number `i`: it has the
/// symbol of the import, where the module has one for it, and returns at
/// once. What an import does is the target's to say.
pub open spec fn import_stub(module: ModuleOp, i: int) -> Proc {
    Proc {
        name: if 0 <= i < module.func_syms@.len() {
            module.func_syms@[i]@
        } else {
            Seq::empty()
        },
        body: seq![Inst::End],
    }
}

/// The procedure that stands for the function number `f`.
pub open spec fn root_proc(module: ModuleOp, f: int) -> Proc {
    Proc {
        name: module.functions@[f].name@,
        body: proc_body(module.functions@[f].body@, Construct::Func, 0, block_base(module, f)),
    }
}

/// The outlined procedures of the functions `[..upto]` of the module.
pub open spec fn nested_procs(module: ModuleOp, upto: int) -> Seq<Proc>
    decreases upto,
{
    if upto <= 0 || upto > module.functions@.len() {
        Seq::empty()
    } else {
        nested_procs(module, upto - 1) + outlined(
            module.functions@[upto - 1].body@,
            0,
            0,
            block_base(module, upto - 1),
            module.functions@[upto - 1].name@,
            0,
        )
    }
}

/// The procedures of the flat module that outlining makes of `module`: a
/// stub for each import, a procedure for each function, and then those of
/// the blocks and loops, function by function.
pub open spec fn module_procs(module: ModuleOp) -> Seq<Proc> {
    Seq::new(import_count(module), |i: int| import_stub(module, i)) + Seq::new(
        module.functions@.len(),
        |f: int| root_proc(module, f),
    ) + nested_procs(module, module.functions@.len() as int)
}

/// Whether the procedures of the flat module can be numbered by 32 bits.
pub open spec fn module_fits(module: ModuleOp) -> bool {
    &&& block_base(module, module.functions@.len() as int) < u32::MAX
    &&& module.func_syms@.len() <= u32::MAX
}

/// The number of blocks and loops of `ops`, nested ones included, where the
/// machine's word holds it.
pub fn count_blocks_of(ops: &Vec<WasmOp>) -> (n: Option<usize>)
    ensures
        n == if count_blocks(ops@, 0) <= usize::MAX {
            Some(count_blocks(ops@, 0) as usize)
        } else {
            None::<usize>
        },
    decreases ops,
{
    let mut seen: usize = 0;
    let mut i: usize = 0;
    while i < ops.len()
        invariant
            i <= ops.len(),
            seen + count_blocks(ops@, i as int) == count_blocks(ops@, 0),
        decreases ops.len() - i,
    {
        proof {
            lemma_count_blocks_step(ops@, i as int);
        }
        let inner = match &ops[i] {
            WasmOp::Block(b) => match count_blocks_of(&b.body) {
                Some(n) => n.checked_add(1),
                None => None,
            },
            WasmOp::Loop(l) => match count_blocks_of(&l.body) {
                Some(n) => n.checked_add(1),
                None => None,
            },
            _ => Some(0),
        };
        let next = match inner {
            Some(n) => seen.checked_add(n),
            None => None,
        };
        match next {
            Some(total) => {
                seen = total;
            },
            None => {
                return None;
            },
        }
        i = i + 1;
    }
    Some(seen)
}

/// Whether the procedures of the flat module can be numbered by 32 bits:
/// what outlining asks of its callers.
pub fn fits_numbering(module: &ModuleOp) -> (ok: bool)
    ensures
        ok == module_fits(*module),
{
    if module.func_syms.len() > u32::MAX as usize {
        return false;
    }
    let n_funcs = module.functions.len();
    let ghost funcs = module.functions@;
    let mut total: usize = match module.import_func_types.len().checked_add(n_funcs) {
        Some(n) => n,
        None => {
            return false;
        },
    };
    if total >= u32::MAX as usize {
        return false;
    }
    let mut f: usize = 0;
    while f < n_funcs
        invariant
            f <= n_funcs,
            funcs == module.functions@,
            n_funcs == funcs.len(),
            total == block_base(*module, f as int),
            total < u32::MAX,
            module.func_syms@.len() <= u32::MAX,
        decreases n_funcs - f,
    {
        proof {
            lemma_blocks_before_grows(funcs, f as int + 1, n_funcs as int);
        }
        let next = match count_blocks_of(&module.functions[f].body) {
            Some(n) => total.checked_add(n),
            None => None,
        };
        match next {
            Some(n) => {
                if n >= u32::MAX as usize {
                    return false;
                }
                total = n;
            },
            None => {
                return false;
            },
        }
        f = f + 1;
    }
    true
}

/// Whether every branch of every function of `module` names a construct
/// around it or the function itself.
pub open spec fn module_branches_in_range(module: ModuleOp) -> bool {
    forall|f: int|
        0 <= f < module.functions@.len() ==> branches_in_range(
            (#[trigger] module.functions@[f]).body@,
            0,
        )
}

/// Number of functions that calls can name: the imports and the functions
/// of the module.
pub open spec fn function_count(module: ModuleOp) -> nat {
    import_count(module) + module.functions@.len()
}

/// Whether `at` is the index of the start function: the first position
/// among the function symbols of the module that holds the start symbol,
/// and the index of an import or of a function of the module.
pub open spec fn is_start_index(module: ModuleOp, at: int) -> bool {
    &&& module.start_func_sym matches Some(sym) && first_position_of(
        spellings(module.func_syms@),
        sym@,
        at,
    )
    &&& at < function_count(module)
}

/// Whether the module names a start function that it has.
pub open spec fn has_start(module: ModuleOp) -> bool {
    exists|at: int| is_start_index(module, at)
}

pub proof fn lemma_blocks_before_grows(funcs: Seq<FuncOp>, a: int, b: int)
    requires
        0 <= a <= b <= funcs.len(),
    ensures
        blocks_before(funcs, a) <= blocks_before(funcs, b),
    decreases b - a,
{
    if a < b {
        lemma_blocks_before_grows(funcs, a, b - 1);
    }
}

pub proof fn lemma_nested_len(module: ModuleOp, upto: int)
    requires
        0 <= upto <= module.functions@.len(),
    ensures
        nested_procs(module, upto).len() == blocks_before(module.functions@, upto),
    decreases upto,
{
    if upto > 0 {
        lemma_nested_len(module, upto - 1);
        lemma_outlined_len(
            module.functions@[upto - 1].body@,
            0,
            0,
            block_base(module, upto - 1),
            module.functions@[upto - 1].name@,
            0,
        );
    }
}

/// Whether `f` is the first function of the module with a malformed
/// branch.
pub open spec fn first_malformed_function(module: ModuleOp, f: int) -> bool {
    &&& 0 <= f < module.functions@.len()
    &&& branch_check(module.functions@[f].body@, 0) is Err
    &&& forall|g: int| 0 <= g < f ==> branches_in_range((#[trigger] module.functions@[g]).body@, 0)
}

/// Whether `res` is what outlining gives for `module`: the flat module
/// with the procedures of `module` and the index of its start function; or
/// the error of the first function with a malformed branch; or, where no
/// branch is malformed, the error that says that the start function is
/// missing.
pub open spec fn outlined_module(module: ModuleOp, res: Result<Module, CompilerError>) -> bool {
    &&& res is Ok <==> module_branches_in_range(module) && has_start(module)
    &&& res matches Ok(flat) ==> procs_of(flat.funcs()) == module_procs(module) && is_start_index(
        module,
        flat.start().0 as int,
    ) && (flat.start().0 as int) < flat.funcs().len()
    &&& !module_branches_in_range(module) ==> exists|f: int|
        first_malformed_function(module, f) && res == Err::<Module, CompilerError>(
            branch_check((#[trigger] module.functions@[f]).body@, 0)->Err_0,
        )
    &&& module_branches_in_range(module) && !has_start(module) ==> res == Err::<
        Module,
        CompilerError,
    >(CompilerError::MissingStart)
}

/// Outlines every block and loop of the module and lowers every branch:
/// the flat module holds a stub for each import, then a procedure for each
/// function, then the procedures of the blocks and loops. A malformed
/// branch stops the compilation, and so does a module without a start
/// function; then no module comes out.
#[verifier::rlimit(40)]
pub fn outline_module(module: &ModuleOp) -> (res: Result<Module, CompilerError>)
    requires
        module_fits(*module),
    ensures
        outlined_module(*module, res),
{
    match module.verify() {
        Err(e) => {
            return Err(e);
        },
        Ok(()) => {},
    }
    let n_imports = module.import_func_types.len();
    let n_funcs = module.functions.len();
    let start = match &module.start_func_sym {
        None => {
            return Err(CompilerError::MissingStart);
        },
        Some(sym) => match module.get_func_index(sym.clone()) {
            None => {
                proof {
                    assert forall|at: int| !is_start_index(*module, at) by {
                        if 0 <= at < spellings(module.func_syms@).len() {
                            assert(spellings(module.func_syms@).contains(
                                spellings(module.func_syms@)[at],
                            ));
                        }
                    }
                }
                return Err(CompilerError::MissingStart);
            },
            Some(idx) => {
                if (idx.0 as usize) >= n_imports + n_funcs {
                    proof {
                        assert forall|at: int| !is_start_index(*module, at) by {
                            if is_start_index(*module, at) {
                                if at < idx.0 {
                                    assert(spellings(module.func_syms@)[at] != sym@);
                                }
                            }
                        }
                    }
                    return Err(CompilerError::MissingStart);
                }
                assert(is_start_index(*module, idx.0 as int));
                idx
            },
        },
    };
    let ghost funcs = module.functions@;
    proof {
        lemma_blocks_before_grows(funcs, 0, n_funcs as int);
    }
    let mut procs: Vec<Func> = Vec::new();
    let mut i: usize = 0;
    while i < n_imports
        invariant
            i <= n_imports,
            n_imports == import_count(*module),
            procs@.len() == i,
            forall|k: int| 0 <= k < i ==> (#[trigger] procs@[k])@ == import_stub(*module, k),
        decreases n_imports - i,
    {
        let name = if i < module.func_syms.len() {
            module.func_syms[i].name.clone()
        } else {
            String::new()
        };
        let mut instructions: Vec<Inst> = Vec::new();
        instructions.push(Inst::End);
        assert(instructions@ =~= seq![Inst::End]);
        procs.push(Func { name, instructions });
        i = i + 1;
    }
    let mut f: usize = 0;
    while f < n_funcs
        invariant
            f <= n_funcs,
            funcs == module.functions@,
            n_funcs == funcs.len(),
            n_imports == import_count(*module),
            procs@.len() == n_imports + f,
            forall|k: int| 0 <= k < n_imports ==> (#[trigger] procs@[k])@ == import_stub(*module, k),
        decreases n_funcs - f,
    {
        procs.push(Func { name: module.functions[f].name.name.clone(), instructions: Vec::new() });
        f = f + 1;
    }
    let mut f: usize = 0;
    proof {
        assert(procs_of(procs@).skip(n_imports + n_funcs) =~= nested_procs(*module, 0));
    }
    while f < n_funcs
        invariant
            f <= n_funcs,
            funcs == module.functions@,
            n_funcs == funcs.len(),
            n_imports == import_count(*module),
            module_fits(*module),
            module_branches_in_range(*module),
            procs@.len() == block_base(*module, f as int),
            forall|k: int| 0 <= k < n_imports ==> (#[trigger] procs@[k])@ == import_stub(*module, k),
            forall|g: int| 0 <= g < f ==> (#[trigger] procs@[n_imports + g])@ == root_proc(*module, g),
            procs_of(procs@).skip(n_imports + n_funcs) == nested_procs(*module, f as int),
        decreases n_funcs - f,
    {
        let func = &module.functions[f];
        let ghost before = procs@;
        proof {
            lemma_blocks_before_grows(funcs, f as int + 1, n_funcs as int);
            assert(branches_in_range(funcs[f as int].body@, 0));
        }
        let mut body = outline_ops(&func.body, Construct::Func, 0, func.name.as_str(), &mut procs);
        body.push(Inst::End);
        let ghost grown = procs@;
        procs[n_imports + f] = Func { name: func.name.name.clone(), instructions: body };
        proof {
            let added = outlined(
                funcs[f as int].body@,
                0,
                0,
                block_base(*module, f as int),
                funcs[f as int].name@,
                0,
            );
            assert(procs_of(grown) == procs_of(before) + added);
            assert(procs_of(grown).len() == grown.len());
            assert(procs_of(before).len() == before.len());
            assert forall|k: int| 0 <= k < n_imports implies (#[trigger] procs@[k])@
                == import_stub(*module, k) by {
                assert(procs_of(grown)[k] == procs_of(before)[k]);
            }
            assert forall|g: int| 0 <= g < f + 1 implies (#[trigger] procs@[n_imports + g])@
                == root_proc(*module, g) by {
                if g < f {
                    assert(procs_of(grown)[n_imports + g] == procs_of(before)[n_imports + g]);
                }
            }
            assert(procs_of(procs@).len() == procs@.len());
            let tail = procs_of(procs@).skip(n_imports + n_funcs);
            let expected = procs_of(before).skip(n_imports + n_funcs) + added;
            assert forall|k: int| 0 <= k < tail.len() implies #[trigger] tail[k] == expected[k] by {
                assert(procs@[n_imports + n_funcs + k] == grown[n_imports + n_funcs + k]);
                assert(procs_of(grown)[n_imports + n_funcs + k] == (procs_of(before)
                    + added)[n_imports + n_funcs + k]);
            }
            assert(procs_of(procs@).skip(n_imports + n_funcs) =~= procs_of(before).skip(
                n_imports + n_funcs,
            ) + added);
        }
        f = f + 1;
    }
    proof {
        let whole = module_procs(*module);
        lemma_nested_len(*module, n_funcs as int);
        assert(procs_of(procs@).len() == procs@.len());
        assert forall|k: int| 0 <= k < procs@.len() implies procs_of(procs@)[k] == whole[k] by {
            if k < n_imports {
            } else if k < n_imports + n_funcs {
                assert(procs@[n_imports + (k - n_imports)]@ == root_proc(*module, k - n_imports));
            } else {
                assert(procs_of(procs@).skip(n_imports + n_funcs)[k - n_imports - n_funcs]
                    == procs_of(procs@)[k]);
            }
        }
        assert(procs_of(procs@) =~= whole);
    }
    Ok(Module::new(procs, start))
}

/// Outlining is reproducible: whatever two runs on the same module give,
/// they give the same. Both fail with the same error, or both give flat
/// modules with the same procedures, by name and by body and in the same
/// order, and the same start index.
pub proof fn law_same_module_same_procedures(
    module: ModuleOp,
    first: Result<Module, CompilerError>,
    second: Result<Module, CompilerError>,
)
    requires
        outlined_module(module, first),
        outlined_module(module, second),
    ensures
        first is Ok <==> second is Ok,
        first is Ok ==> procs_of(first->Ok_0.funcs()) == procs_of(second->Ok_0.funcs())
            && first->Ok_0.start() == second->Ok_0.start(),
        first is Err ==> first->Err_0 == second->Err_0,
{
    if first is Ok {
        let a = first->Ok_0.start().0 as int;
        let b = second->Ok_0.start().0 as int;
        if a < b {
            assert(spellings(module.func_syms@)[a] != module.start_func_sym->0@);
        }
        if b < a {
            assert(spellings(module.func_syms@)[b] != module.start_func_sym->0@);
        }
    } else if !module_branches_in_range(module) {
        let f = choose|f: int|
            first_malformed_function(module, f) && first == Err::<Module, CompilerError>(
                branch_check((#[trigger] module.functions@[f]).body@, 0)->Err_0,
            );
        let g = choose|g: int|
            first_malformed_function(module, g) && second == Err::<Module, CompilerError>(
                branch_check((#[trigger] module.functions@[g]).body@, 0)->Err_0,
            );
        if f < g {
            assert(branches_in_range(module.functions@[f].body@, 0));
        }
        if g < f {
            assert(branches_in_range(module.functions@[g].body@, 0));
        }
    }
}

} // verus!
