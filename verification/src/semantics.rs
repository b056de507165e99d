//! What a program means, before and after outlining.
//!
//! The structured program runs under a reference semantics in which a
//! branch of depth `d` ends the `d + 1` innermost bodies around it: the run
//! resumes after the end of the construct `d` levels up where that is a
//! block, and at its start where it is a loop; a return ends every body of
//! the function. The flat program runs on a machine that knows calls,
//! returns, the conditional skip and the branch-signal register. Both are
//! stated for any machine state and any meaning of the instructions that do
//! not steer the control flow, so what is proved here holds whatever those
//! instructions do.

use vstd::prelude::*;
use crate::ir::{Inst, Proc};
use crate::ops::{first_malformed, ModuleOp, WasmOp};
use crate::outline::{
    block_base, body_of, escapes, function_count, import_count, module_branches_in_range, plain,
};

verus! {

/// The part of a machine that outlining does not speak of: what an
/// instruction without influence on the control flow does to the state,
/// how a condition is taken from the state, and what the call of an import
/// does.
#[verifier::reject_recursive_types(S)]
pub struct Machine<S> {
    /// The state after an instruction that does not steer the control flow.
    pub step: spec_fn(Inst, S) -> S,
    /// Takes a condition from the state: whether it was non-zero, and the
    /// state without it.
    pub test: spec_fn(S) -> (bool, S),
    /// The state after the call of the import with the given index.
    pub host: spec_fn(nat, S) -> S,
}

/// How a run of a body of the structured program ends.
pub enum Flow {
    /// The run reached the end of the body.
    Next,
    /// A branch is under way that ends this body and as many more around it
    /// as the number says.
    Branch(nat),
    /// The run was cut short: it needed more nested entries than it was
    /// given.
    OutOfFuel,
}

/// What follows the run of the body of a block or a loop, or of a call, in
/// the body that holds it: `Some` of the flow that ends that body too, or
/// `None` where the run goes on behind the construct.
pub open spec fn after_construct(inner: Flow) -> Option<Flow> {
    match inner {
        Flow::Next => None,
        Flow::Branch(k) => if k == 0 {
            None
        } else {
            Some(Flow::Branch((k - 1) as nat))
        },
        Flow::OutOfFuel => Some(Flow::OutOfFuel),
    }
}

/// The run of `ops[pc..]`, the body of a construct around which `depth`
/// constructs lie, itself counted, from the state `s`. Every entry into a
/// block, a loop or a function, and every re-entry of a loop, takes one
/// unit of `fuel` for all that runs inside.
pub open spec fn run_ops<S>(
    m: Machine<S>,
    module: ModuleOp,
    ops: Seq<WasmOp>,
    pc: int,
    depth: nat,
    s: S,
    fuel: nat,
) -> (Flow, S)
    decreases fuel, ops.len() - pc, 1int,
{
    if pc < 0 || pc >= ops.len() {
        (Flow::Next, s)
    } else {
        match ops[pc] {
            WasmOp::Br(b) => (Flow::Branch(b.relative_depth.0 as nat), s),
            WasmOp::BrIf(b) => {
                let (taken, s1) = (m.test)(s);
                if taken {
                    (Flow::Branch(b.relative_depth.0 as nat), s1)
                } else {
                    run_ops(m, module, ops, pc + 1, depth, s1, fuel)
                }
            },
            WasmOp::Return(_) => (Flow::Branch(depth), s),
            WasmOp::Block(b) => {
                if fuel == 0 {
                    (Flow::OutOfFuel, s)
                } else {
                    let (inner, s1) = run_ops(
                        m,
                        module,
                        b.body@,
                        0,
                        depth + 1,
                        s,
                        (fuel - 1) as nat,
                    );
                    match after_construct(inner) {
                        Some(flow) => (flow, s1),
                        None => run_ops(m, module, ops, pc + 1, depth, s1, fuel),
                    }
                }
            },
            WasmOp::Loop(l) => {
                if fuel == 0 {
                    (Flow::OutOfFuel, s)
                } else {
                    let (inner, s1) = run_loop(
                        m,
                        module,
                        l.body@,
                        depth + 1,
                        s,
                        (fuel - 1) as nat,
                    );
                    match after_construct(inner) {
                        Some(flow) => (flow, s1),
                        None => run_ops(m, module, ops, pc + 1, depth, s1, fuel),
                    }
                }
            },
            WasmOp::Call(c) => {
                let (inner, s1) = run_call(m, module, c.func_index.0 as nat, s, fuel);
                match inner {
                    Flow::OutOfFuel => (Flow::OutOfFuel, s1),
                    _ => run_ops(m, module, ops, pc + 1, depth, s1, fuel),
                }
            },
            WasmOp::CallSym(c) => {
                let (inner, s1) = run_call(m, module, c.func_index.0 as nat, s, fuel);
                match inner {
                    Flow::OutOfFuel => (Flow::OutOfFuel, s1),
                    _ => run_ops(m, module, ops, pc + 1, depth, s1, fuel),
                }
            },
            op => run_ops(m, module, ops, pc + 1, depth, (m.step)(plain(op), s), fuel),
        }
    }
}

/// The call of the function `callee`: an import does what the machine
/// says; a function of the module runs its body, and whichever way that
/// ends, short of running out of fuel, the call is over; a call of a
/// function that the module does not have does nothing.
pub open spec fn run_call<S>(m: Machine<S>, module: ModuleOp, callee: nat, s: S, fuel: nat) -> (
    Flow,
    S,
)
    decreases fuel, 0int, 0int,
{
    if callee < import_count(module) {
        (Flow::Next, (m.host)(callee, s))
    } else if callee >= function_count(module) {
        (Flow::Next, s)
    } else if fuel == 0 {
        (Flow::OutOfFuel, s)
    } else {
        let (inner, s1) = run_ops(
            m,
            module,
            module.functions@[callee - import_count(module)].body@,
            0,
            0,
            s,
            (fuel - 1) as nat,
        );
        match inner {
            Flow::OutOfFuel => (Flow::OutOfFuel, s1),
            _ => (Flow::Next, s1),
        }
    }
}

/// The run of a loop with the body `body`: the body runs, and runs again,
/// from the state it left, whenever a branch ends at the loop itself.
pub open spec fn run_loop<S>(
    m: Machine<S>,
    module: ModuleOp,
    body: Seq<WasmOp>,
    depth: nat,
    s: S,
    fuel: nat,
) -> (Flow, S)
    decreases fuel, body.len() + 1, 0int,
{
    let (flow, s1) = run_ops(m, module, body, 0, depth, s, fuel);
    if flow == Flow::Branch(0) {
        if fuel == 0 {
            (Flow::OutOfFuel, s1)
        } else {
            run_loop(m, module, body, depth, s1, (fuel - 1) as nat)
        }
    } else {
        (flow, s1)
    }
}

/// How a run of a procedure of the flat program ends.
pub enum Outcome {
    /// The procedure returned.
    Returned,
    /// The run was cut short: it needed more nested calls than it was given.
    OutOfFuel,
}

/// The procedure that `inst` calls, if it is a call.
pub open spec fn call_target(inst: Inst) -> Option<int> {
    match inst {
        Inst::Call { func_idx } => Some(func_idx.0 as int),
        Inst::CallLoop { func_idx } => Some(func_idx.0 as int),
        _ => None,
    }
}

/// The run of the procedure `id` of `procs` from its instruction `pc`, in
/// the state `s` and with `signal` in the branch-signal register; the
/// first `imports` procedures stand for imports. It gives how the run
/// ends, the state and the register. Every call and every re-entry takes
/// one unit of `fuel` for all that runs inside.
pub open spec fn run_proc<S>(
    m: Machine<S>,
    procs: Seq<Proc>,
    imports: nat,
    id: int,
    pc: int,
    s: S,
    signal: nat,
    fuel: nat,
) -> (Outcome, S, nat)
    decreases fuel, (if 0 <= id < procs.len() {
        procs[id].body.len() + 1 - pc
    } else {
        0
    }),
{
    if id < 0 || id >= procs.len() || pc < 0 || pc >= procs[id].body.len() {
        (Outcome::Returned, s, signal)
    } else if let Some(callee) = call_target(procs[id].body[pc]) {
        if callee < imports {
            run_proc(m, procs, imports, id, pc + 1, (m.host)(callee as nat, s), signal, fuel)
        } else if callee >= procs.len() {
            run_proc(m, procs, imports, id, pc + 1, s, signal, fuel)
        } else if fuel == 0 {
            (Outcome::OutOfFuel, s, signal)
        } else {
            let (inner, s1, signal1) = run_proc(
                m,
                procs,
                imports,
                callee,
                0,
                s,
                signal,
                (fuel - 1) as nat,
            );
            match inner {
                Outcome::OutOfFuel => (Outcome::OutOfFuel, s1, signal1),
                Outcome::Returned => run_proc(m, procs, imports, id, pc + 1, s1, signal1, fuel),
            }
        }
    } else {
        match procs[id].body[pc] {
            Inst::End => (Outcome::Returned, s, signal),
            Inst::Return => (Outcome::Returned, s, signal),
            Inst::Recurse => {
                if fuel == 0 {
                    (Outcome::OutOfFuel, s, signal)
                } else {
                    run_proc(m, procs, imports, id, 0, s, signal, (fuel - 1) as nat)
                }
            },
            Inst::SkipIfZero => {
                let (nonzero, s1) = (m.test)(s);
                if nonzero {
                    run_proc(m, procs, imports, id, pc + 1, s1, signal, fuel)
                } else {
                    run_proc(m, procs, imports, id, pc + 2, s1, signal, fuel)
                }
            },
            Inst::SignalReturn { levels } => (Outcome::Returned, s, levels as nat),
            Inst::Propagate => {
                if signal <= 1 {
                    run_proc(m, procs, imports, id, pc + 1, s, 0, fuel)
                } else {
                    (Outcome::Returned, s, (signal - 1) as nat)
                }
            },
            Inst::PropagateInLoop => {
                if signal <= 1 {
                    run_proc(m, procs, imports, id, pc + 1, s, 0, fuel)
                } else if signal == 2 {
                    if fuel == 0 {
                        (Outcome::OutOfFuel, s, 1)
                    } else {
                        run_proc(m, procs, imports, id, 0, s, 1, (fuel - 1) as nat)
                    }
                } else {
                    (Outcome::Returned, s, (signal - 1) as nat)
                }
            },
            inst => run_proc(m, procs, imports, id, pc + 1, (m.step)(inst, s), signal, fuel),
        }
    }
}

/// Whether no branch of `ops[from..]` asks for more than the `nesting`
/// constructs around it.
pub open spec fn in_range(ops: Seq<WasmOp>, from: int, nesting: nat) -> bool {
    first_malformed(ops, from, nesting) is None
}

/// Whether no branch of `ops[from..]` leaves more than `level` constructs
/// besides its own, and `ops[from..]` holds no return.
pub open spec fn contained(ops: Seq<WasmOp>, from: int, level: nat) -> bool {
    !escapes(ops, from, level)
}

/// A run of a body in which no branch asks for more than the constructs
/// around it ends at most as many bodies as there are.
pub proof fn lemma_flow_in_range<S>(
    m: Machine<S>,
    module: ModuleOp,
    ops: Seq<WasmOp>,
    pc: int,
    depth: nat,
    s: S,
    fuel: nat,
)
    requires
        in_range(ops, pc, depth),
    ensures
        run_ops(m, module, ops, pc, depth, s, fuel).0 matches Flow::Branch(k) ==> k <= depth,
    decreases fuel, ops.len() - pc, 1int,
{
    if 0 <= pc < ops.len() {
        match ops[pc] {
            WasmOp::Br(_) => {},
            WasmOp::Return(_) => {},
            WasmOp::BrIf(_) => {
                let (taken, s1) = (m.test)(s);
                if !taken {
                    lemma_flow_in_range(m, module, ops, pc + 1, depth, s1, fuel);
                }
            },
            WasmOp::Block(b) => {
                if fuel > 0 {
                    lemma_flow_in_range(m, module, b.body@, 0, depth + 1, s, (fuel - 1) as nat);
                    let (inner, s1) = run_ops(
                        m,
                        module,
                        b.body@,
                        0,
                        depth + 1,
                        s,
                        (fuel - 1) as nat,
                    );
                    if after_construct(inner) is None {
                        lemma_flow_in_range(m, module, ops, pc + 1, depth, s1, fuel);
                    }
                }
            },
            WasmOp::Loop(l) => {
                if fuel > 0 {
                    lemma_loop_flow_in_range(m, module, l.body@, depth + 1, s, (fuel - 1) as nat);
                    let (inner, s1) = run_loop(m, module, l.body@, depth + 1, s, (fuel - 1) as nat);
                    if after_construct(inner) is None {
                        lemma_flow_in_range(m, module, ops, pc + 1, depth, s1, fuel);
                    }
                }
            },
            WasmOp::Call(c) => {
                let (inner, s1) = run_call(m, module, c.func_index.0 as nat, s, fuel);
                if !(inner is OutOfFuel) {
                    lemma_flow_in_range(m, module, ops, pc + 1, depth, s1, fuel);
                }
            },
            WasmOp::CallSym(c) => {
                let (inner, s1) = run_call(m, module, c.func_index.0 as nat, s, fuel);
                if !(inner is OutOfFuel) {
                    lemma_flow_in_range(m, module, ops, pc + 1, depth, s1, fuel);
                }
            },
            op => {
                lemma_flow_in_range(m, module, ops, pc + 1, depth, (m.step)(plain(op), s), fuel);
            },
        }
    }
}

/// A run of a loop in which no branch asks for more than the constructs
/// around it ends at most as many bodies as there are.
pub proof fn lemma_loop_flow_in_range<S>(
    m: Machine<S>,
    module: ModuleOp,
    body: Seq<WasmOp>,
    depth: nat,
    s: S,
    fuel: nat,
)
    requires
        in_range(body, 0, depth),
    ensures
        run_loop(m, module, body, depth, s, fuel).0 matches Flow::Branch(k) ==> k <= depth,
    decreases fuel, body.len() + 1, 0int,
{
    lemma_flow_in_range(m, module, body, 0, depth, s, fuel);
    let (flow, s1) = run_ops(m, module, body, 0, depth, s, fuel);
    if flow == Flow::Branch(0) && fuel > 0 {
        lemma_loop_flow_in_range(m, module, body, depth, s1, (fuel - 1) as nat);
    }
}

/// A run of a body from which no branch escapes past `level` constructs
/// ends at most `level` bodies besides its own.
pub proof fn lemma_flow_contained<S>(
    m: Machine<S>,
    module: ModuleOp,
    ops: Seq<WasmOp>,
    pc: int,
    depth: nat,
    level: nat,
    s: S,
    fuel: nat,
)
    requires
        contained(ops, pc, level),
    ensures
        run_ops(m, module, ops, pc, depth, s, fuel).0 matches Flow::Branch(k) ==> k <= level,
    decreases fuel, ops.len() - pc, 1int,
{
    if 0 <= pc < ops.len() {
        match ops[pc] {
            WasmOp::Br(_) => {},
            WasmOp::Return(_) => {},
            WasmOp::BrIf(_) => {
                let (taken, s1) = (m.test)(s);
                if !taken {
                    lemma_flow_contained(m, module, ops, pc + 1, depth, level, s1, fuel);
                }
            },
            WasmOp::Block(b) => {
                if fuel > 0 {
                    lemma_flow_contained(
                        m,
                        module,
                        b.body@,
                        0,
                        depth + 1,
                        level + 1,
                        s,
                        (fuel - 1) as nat,
                    );
                    let (inner, s1) = run_ops(
                        m,
                        module,
                        b.body@,
                        0,
                        depth + 1,
                        s,
                        (fuel - 1) as nat,
                    );
                    if after_construct(inner) is None {
                        lemma_flow_contained(m, module, ops, pc + 1, depth, level, s1, fuel);
                    }
                }
            },
            WasmOp::Loop(l) => {
                if fuel > 0 {
                    lemma_loop_flow_contained(
                        m,
                        module,
                        l.body@,
                        depth + 1,
                        level + 1,
                        s,
                        (fuel - 1) as nat,
                    );
                    let (inner, s1) = run_loop(m, module, l.body@, depth + 1, s, (fuel - 1) as nat);
                    if after_construct(inner) is None {
                        lemma_flow_contained(m, module, ops, pc + 1, depth, level, s1, fuel);
                    }
                }
            },
            WasmOp::Call(c) => {
                let (inner, s1) = run_call(m, module, c.func_index.0 as nat, s, fuel);
                if !(inner is OutOfFuel) {
                    lemma_flow_contained(m, module, ops, pc + 1, depth, level, s1, fuel);
                }
            },
            WasmOp::CallSym(c) => {
                let (inner, s1) = run_call(m, module, c.func_index.0 as nat, s, fuel);
                if !(inner is OutOfFuel) {
                    lemma_flow_contained(m, module, ops, pc + 1, depth, level, s1, fuel);
                }
            },
            op => {
                lemma_flow_contained(
                    m,
                    module,
                    ops,
                    pc + 1,
                    depth,
                    level,
                    (m.step)(plain(op), s),
                    fuel,
                );
            },
        }
    }
}

/// A run of a loop from which no branch escapes past `level` constructs
/// ends at most `level` bodies besides its own.
pub proof fn lemma_loop_flow_contained<S>(
    m: Machine<S>,
    module: ModuleOp,
    body: Seq<WasmOp>,
    depth: nat,
    level: nat,
    s: S,
    fuel: nat,
)
    requires
        contained(body, 0, level),
    ensures
        run_loop(m, module, body, depth, s, fuel).0 matches Flow::Branch(k) ==> k <= level,
    decreases fuel, body.len() + 1, 0int,
{
    lemma_flow_contained(m, module, body, 0, depth, level, s, fuel);
    let (flow, s1) = run_ops(m, module, body, 0, depth, s, fuel);
    if flow == Flow::Branch(0) && fuel > 0 {
        lemma_loop_flow_contained(m, module, body, depth, level, s1, (fuel - 1) as nat);
    }
}

/// Whether every call of `ops[from..]`, nested bodies included, names one
/// of the first `limit` functions.
pub open spec fn calls_in_range(ops: Seq<WasmOp>, from: int, limit: nat) -> bool
    decreases ops, ops.len() - from,
{
    if from < 0 || from >= ops.len() {
        true
    } else {
        let here = match ops[from] {
            WasmOp::Call(c) => c.func_index.0 < limit,
            WasmOp::CallSym(c) => c.func_index.0 < limit,
            WasmOp::Block(b) => calls_in_range(b.body@, 0, limit),
            WasmOp::Loop(l) => calls_in_range(l.body@, 0, limit),
            _ => true,
        };
        here && calls_in_range(ops, from + 1, limit)
    }
}

/// Whether the module is one that outlining is meant for: every branch
/// names a construct around it or the function itself, every call names an
/// import or a function of the module, and the procedures can be numbered
/// by 32 bits.
pub open spec fn well_formed(module: ModuleOp) -> bool {
    &&& module_branches_in_range(module)
    &&& forall|f: int|
        0 <= f < module.functions@.len() ==> calls_in_range(
            (#[trigger] module.functions@[f]).body@,
            0,
            function_count(module),
        )
    &&& block_base(module, module.functions@.len() as int) < u32::MAX
}

/// A branch ends the body it stands in: what follows it there does not
/// run, and the state is as the branch found it.
pub proof fn law_branch_ends_its_body<S>(
    m: Machine<S>,
    module: ModuleOp,
    ops: Seq<WasmOp>,
    pc: int,
    depth: nat,
    s: S,
    fuel: nat,
)
    requires
        0 <= pc < ops.len(),
    ensures
        ops[pc] matches WasmOp::Br(b) ==> run_ops(m, module, ops, pc, depth, s, fuel) == (
            Flow::Branch(b.relative_depth.0 as nat),
            s,
        ),
        ops[pc] is Return ==> run_ops(m, module, ops, pc, depth, s, fuel) == (
            Flow::Branch(depth),
            s,
        ),
{
}

/// A branch resumes behind its target. Where the run of the body of the
/// block `ops[pc]` ends with a branch of depth 0, the run goes on behind
/// the block, from the state the branch left. Where it ends with a branch
/// of depth `k + 1`, the body that holds the block ends too, with a branch
/// of depth `k`, and nothing of what follows the block in it runs. So a
/// branch of depth `d` ends `d + 1` bodies and resumes behind the construct
/// `d` levels up.
pub proof fn law_branch_resumes_behind_its_target<S>(
    m: Machine<S>,
    module: ModuleOp,
    ops: Seq<WasmOp>,
    pc: int,
    depth: nat,
    s: S,
    fuel: nat,
)
    requires
        0 <= pc < ops.len(),
        ops[pc] is Block,
        fuel > 0,
    ensures
        ({
            let inner = run_ops(
                m,
                module,
                body_of(ops[pc]),
                0,
                depth + 1,
                s,
                (fuel - 1) as nat,
            );
            let whole = run_ops(m, module, ops, pc, depth, s, fuel);
            match inner.0 {
                Flow::Branch(k) => if k == 0 {
                    whole == run_ops(m, module, ops, pc + 1, depth, inner.1, fuel)
                } else {
                    whole == (Flow::Branch((k - 1) as nat), inner.1)
                },
                Flow::Next => whole == run_ops(m, module, ops, pc + 1, depth, inner.1, fuel),
                Flow::OutOfFuel => whole == (Flow::OutOfFuel, inner.1),
            }
        }),
{
}

/// A branch to a loop runs the loop again: where the run of the body of a
/// loop ends with a branch of depth 0, the body runs once more from its
/// start, in the state the branch left; nothing of that state is reset.
pub proof fn law_branch_to_a_loop_runs_it_again<S>(
    m: Machine<S>,
    module: ModuleOp,
    body: Seq<WasmOp>,
    depth: nat,
    s: S,
    fuel: nat,
)
    requires
        fuel > 0,
        run_ops(m, module, body, 0, depth, s, fuel).0 == Flow::Branch(0),
    ensures
        run_loop(m, module, body, depth, s, fuel) == run_loop(
            m,
            module,
            body,
            depth,
            run_ops(m, module, body, 0, depth, s, fuel).1,
            (fuel - 1) as nat,
        ),
{
}

} // verus!
