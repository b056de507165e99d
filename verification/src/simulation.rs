//! The proof that outlining keeps the meaning of a program: the procedures
//! of the flat module do to the machine state what the structured program
//! does under the reference semantics.

use vstd::prelude::*;
use crate::ir::{Inst, Proc};
use crate::ops::{count_blocks, ModuleOp, WasmOp};
use crate::outline::{
    block_base, block_name, blocks_before, blocks_in, body_of, branch_out, call_of, check_of,
    escapes, function_count, import_count, lemma_blocks_before_grows, lemma_nested_len, lemma_outlined_len,
    lower_op, lower_ops, module_procs, nested_procs, outlined, plain, proc_body, root_proc,
    Construct,
};
use crate::semantics::{
    after_construct, call_target, calls_in_range, in_range, lemma_flow_contained,
    lemma_flow_in_range, lemma_loop_flow_contained, run_call, run_loop, run_ops, run_proc,
    well_formed, Flow, Machine, Outcome,
};
use crate::types::FuncIndex;

verus! {

/// How the end of a run of the flat program matches the end of a run of
/// the structured program: the same state; and the register tells what the
/// flow was: at most 1 where the body ended or a branch ended at the
/// construct itself, and one more than the constructs still to leave
/// otherwise.
pub open spec fn related<S>(structured: (Flow, S), flat: (Outcome, S, nat)) -> bool {
    &&& structured.1 == flat.1
    &&& match structured.0 {
        Flow::OutOfFuel => flat.0 is OutOfFuel,
        Flow::Next => flat.0 is Returned && flat.2 <= 1,
        Flow::Branch(k) => flat.0 is Returned && if k == 0 {
            flat.2 <= 1
        } else {
            flat.2 == k + 1
        },
    }
}

/// What becomes of the end `r` of a run of the body `ops` of a construct of
/// the given kind: a loop runs again where a branch ended at the loop
/// itself.
pub open spec fn finish<S>(
    kind: Construct,
    m: Machine<S>,
    module: ModuleOp,
    ops: Seq<WasmOp>,
    depth: nat,
    r: (Flow, S),
    fuel: nat,
) -> (Flow, S) {
    if kind == Construct::Loop && r.0 == Flow::Branch(0) {
        if fuel == 0 {
            (Flow::OutOfFuel, r.1)
        } else {
            run_loop(m, module, ops, depth, r.1, (fuel - 1) as nat)
        }
    } else {
        r
    }
}

/// Whether `procs` holds, from the index `at` on, procedures with the
/// bodies of `expected`.
pub open spec fn placed(procs: Seq<Proc>, at: nat, expected: Seq<Proc>) -> bool {
    &&& at + expected.len() <= procs.len()
    &&& forall|k: int|
        0 <= k < expected.len() ==> procs[at + k].body == (#[trigger] expected[k]).body
}

proof fn lemma_placed_split(procs: Seq<Proc>, at: nat, a: Seq<Proc>, b: Seq<Proc>)
    requires
        placed(procs, at, a + b),
    ensures
        placed(procs, at, a),
        placed(procs, at + a.len(), b),
{
    let whole = a + b;
    assert forall|k: int| 0 <= k < a.len() implies procs[at + k].body == (#[trigger] a[k]).body by {
        assert(whole[k] == a[k]);
    }
    let shifted = at + a.len();
    assert forall|k: int| 0 <= k < b.len() implies procs[shifted + k].body == (
    #[trigger] b[k]).body by {
        assert(whole[a.len() + k] == b[k]);
        assert(at + (a.len() + k) == shifted + k);
    }
}

/// Whether the procedure `id` of `procs` stands for the body `ops` of a
/// construct of the given kind, and the procedures of the blocks and loops
/// of `ops` follow from the index `first` on.
pub open spec fn body_in_place(
    module: ModuleOp,
    procs: Seq<Proc>,
    ops: Seq<WasmOp>,
    kind: Construct,
    depth: nat,
    id: int,
    first: nat,
    path: Seq<char>,
) -> bool {
    &&& 0 <= id < procs.len()
    &&& import_count(module) <= id
    &&& function_count(module) <= first
    &&& procs[id].body == proc_body(ops, kind, depth, first)
    &&& placed(procs, first, outlined(ops, 0, depth, first, path, 0))
    &&& (kind == Construct::Func <==> depth == 0)
    &&& in_range(ops, 0, depth)
    &&& calls_in_range(ops, 0, function_count(module))
    &&& depth + count_blocks(ops, 0) < u32::MAX
}

/// Whether the instruction `at` of the procedure `id` is where the run of
/// `ops[pc..]` begins.
pub open spec fn at_position(
    module: ModuleOp,
    procs: Seq<Proc>,
    ops: Seq<WasmOp>,
    kind: Construct,
    depth: nat,
    id: int,
    pc: int,
    next: nat,
    path: Seq<char>,
    sibling: nat,
    at: int,
) -> bool {
    &&& 0 <= pc <= ops.len()
    &&& 0 <= at <= procs[id].body.len()
    &&& function_count(module) <= next
    &&& procs[id].body.skip(at) == lower_ops(ops, pc, kind, depth, next).push(Inst::End)
    &&& placed(procs, next, outlined(ops, pc, depth, next, path, sibling))
    &&& in_range(ops, pc, depth)
    &&& calls_in_range(ops, pc, function_count(module))
    &&& depth + count_blocks(ops, pc) < u32::MAX
}

/// Whether `procs` is laid out as outlining lays out the module: each
/// function stands at its own index, behind the imports, with the
/// procedures of its blocks and loops in place.
pub open spec fn laid_out(module: ModuleOp, procs: Seq<Proc>) -> bool {
    &&& procs.len() < u32::MAX
    &&& function_count(module) <= procs.len()
    &&& forall|f: int|
        0 <= f < module.functions@.len() ==> body_in_place(
            module,
            procs,
            (#[trigger] module.functions@[f]).body@,
            Construct::Func,
            0,
            import_count(module) + f,
            block_base(module, f),
            module.functions@[f].name@,
        )
}

/// Whether a run of `ops[pc..]` and a run of the procedure `id` from its
/// instruction `at` can be compared: `procs` is laid out as outlining lays
/// out the module, the procedure `id` stands for `ops`, and `at` is where
/// the instructions of `ops[pc..]` begin.
#[verifier::opaque]
pub open spec fn aligned(
    module: ModuleOp,
    procs: Seq<Proc>,
    ops: Seq<WasmOp>,
    kind: Construct,
    depth: nat,
    id: int,
    first: nat,
    path: Seq<char>,
    pc: int,
    next: nat,
    sibling: nat,
    at: int,
) -> bool {
    &&& laid_out(module, procs)
    &&& body_in_place(module, procs, ops, kind, depth, id, first, path)
    &&& at_position(module, procs, ops, kind, depth, id, pc, next, path, sibling, at)
}

proof fn lemma_code_at(body: Seq<Inst>, at: int, head: Seq<Inst>, rest: Seq<Inst>)
    requires
        0 <= at <= body.len(),
        body.skip(at) == head + rest,
    ensures
        at + head.len() + rest.len() == body.len(),
        forall|i: int| 0 <= i < head.len() ==> body[at + i] == #[trigger] head[i],
        body.skip(at + head.len()) == rest,
{
    let tail = body.skip(at);
    assert(tail.len() == head.len() + rest.len());
    assert forall|i: int| 0 <= i < head.len() implies body[at + i] == #[trigger] head[i] by {
        assert(tail[i] == body[at + i]);
    }
    assert forall|i: int| 0 <= i < rest.len() implies body.skip(at + head.len())[i] == rest[i] by {
        assert(tail[head.len() + i] == body[at + head.len() + i]);
    }
    assert(body.skip(at + head.len()) =~= rest);
}

/// Behind the last operation of a body stands the `End` of the procedure.
proof fn lemma_at_end(
    module: ModuleOp,
    procs: Seq<Proc>,
    ops: Seq<WasmOp>,
    kind: Construct,
    depth: nat,
    id: int,
    first: nat,
    path: Seq<char>,
    pc: int,
    next: nat,
    sibling: nat,
    at: int,
)
    requires
        aligned(module, procs, ops, kind, depth, id, first, path, pc, next, sibling, at),
        pc >= ops.len(),
    ensures
        0 <= id < procs.len(),
        0 <= at < procs[id].body.len(),
        procs[id].body[at] == Inst::End,
{
    reveal(aligned);
    assert(lower_ops(ops, pc, kind, depth, next).push(Inst::End) =~= seq![Inst::End]);
    lemma_code_at(procs[id].body, at, seq![Inst::End], Seq::empty());
    assert(procs[id].body[at + 0] == Inst::End);
}

/// What is known of the operation `ops[pc]` and of its instructions, which
/// begin at `at`; what follows them is where the run of `ops[pc + 1..]`
/// begins.
proof fn lemma_advance(
    module: ModuleOp,
    procs: Seq<Proc>,
    ops: Seq<WasmOp>,
    kind: Construct,
    depth: nat,
    id: int,
    first: nat,
    path: Seq<char>,
    pc: int,
    next: nat,
    sibling: nat,
    at: int,
)
    requires
        aligned(module, procs, ops, kind, depth, id, first, path, pc, next, sibling, at),
        0 <= pc < ops.len(),
    ensures
        ({
            let code = lower_op(ops[pc], kind, depth, next);
            let later = if blocks_in(ops[pc]) > 0 {
                sibling + 1
            } else {
                sibling
            };
            &&& 0 <= id < procs.len()
            &&& 0 <= at
            &&& at + code.len() < procs[id].body.len()
            &&& 1 <= code.len() <= 2
            &&& procs[id].body[at] == code[0]
            &&& code.len() == 2 ==> procs[id].body[at + 1] == code[1]
            &&& aligned(
                module,
                procs,
                ops,
                kind,
                depth,
                id,
                first,
                path,
                pc + 1,
                next + blocks_in(ops[pc]),
                later,
                at + code.len(),
            )
        }),
        kind == Construct::Func <==> depth == 0,
        depth < u32::MAX,
        procs.len() < u32::MAX,
        import_count(module) <= function_count(module) <= procs.len(),
        ops[pc] matches WasmOp::Br(b) ==> b.relative_depth.0 <= depth,
        ops[pc] matches WasmOp::BrIf(b) ==> b.relative_depth.0 <= depth,
        ops[pc] matches WasmOp::Call(c) ==> c.func_index.0 < function_count(module),
        ops[pc] matches WasmOp::CallSym(c) ==> c.func_index.0 < function_count(module),
        blocks_in(ops[pc]) > 0 ==> function_count(module) <= next < procs.len(),
{
    reveal(aligned);
    let code = lower_op(ops[pc], kind, depth, next);
    let after = next + blocks_in(ops[pc]);
    let rest = lower_ops(ops, pc + 1, kind, depth, after).push(Inst::End);
    assert(lower_ops(ops, pc, kind, depth, next).push(Inst::End) =~= code + rest);
    lemma_code_at(procs[id].body, at, code, rest);
    assert(procs[id].body[at + 0] == code[0]);
    if code.len() == 2 {
        assert(procs[id].body[at + 1] == code[1]);
    }
    if blocks_in(ops[pc]) > 0 {
        let inner = body_of(ops[pc]);
        let child = if ops[pc] is Loop {
            Construct::Loop
        } else {
            Construct::Block
        };
        let name = block_name(path, depth, sibling);
        let own = seq![Proc { name, body: proc_body(inner, child, depth + 1, next + 1) }];
        let below = outlined(inner, 0, depth + 1, next + 1, name, 0);
        let beyond = outlined(
            ops,
            pc + 1,
            depth,
            next + 1 + count_blocks(inner, 0),
            path,
            sibling + 1,
        );
        lemma_outlined_len(inner, 0, depth + 1, next + 1, name, 0);
        assert(outlined(ops, pc, depth, next, path, sibling) == own + below + beyond);
        lemma_placed_split(procs, next, own + below, beyond);
    }
}

/// The procedure of a block or a loop at `ops[pc]` is in place, and its
/// first instruction is where the run of the body of the construct begins.
proof fn lemma_child_in_place(
    module: ModuleOp,
    procs: Seq<Proc>,
    ops: Seq<WasmOp>,
    kind: Construct,
    depth: nat,
    id: int,
    first: nat,
    path: Seq<char>,
    pc: int,
    next: nat,
    sibling: nat,
    at: int,
)
    requires
        aligned(module, procs, ops, kind, depth, id, first, path, pc, next, sibling, at),
        0 <= pc < ops.len(),
        blocks_in(ops[pc]) > 0,
    ensures
        aligned(
            module,
            procs,
            body_of(ops[pc]),
            if ops[pc] is Loop {
                Construct::Loop
            } else {
                Construct::Block
            },
            depth + 1,
            next as int,
            next + 1,
            block_name(path, depth, sibling),
            0,
            next + 1,
            0,
            0,
        ),
{
    reveal(aligned);
    let inner = body_of(ops[pc]);
    let child = if ops[pc] is Loop {
        Construct::Loop
    } else {
        Construct::Block
    };
    let name = block_name(path, depth, sibling);
    let own = seq![Proc { name, body: proc_body(inner, child, depth + 1, next + 1) }];
    let below = outlined(inner, 0, depth + 1, next + 1, name, 0);
    let beyond = outlined(
        ops,
        pc + 1,
        depth,
        next + 1 + count_blocks(inner, 0),
        path,
        sibling + 1,
    );
    assert(outlined(ops, pc, depth, next, path, sibling) == own + below + beyond);
    lemma_placed_split(procs, next, own + below, beyond);
    lemma_placed_split(procs, next, own, below);
    assert(own[0].body == proc_body(inner, child, depth + 1, next + 1));
    assert(procs[next + 0int].body == own[0].body);
    assert(procs[next as int].body.skip(0) =~= procs[next as int].body);
}

/// The first instruction of a procedure is where the run of its whole body
/// begins.
proof fn lemma_restart(
    module: ModuleOp,
    procs: Seq<Proc>,
    ops: Seq<WasmOp>,
    kind: Construct,
    depth: nat,
    id: int,
    first: nat,
    path: Seq<char>,
    pc: int,
    next: nat,
    sibling: nat,
    at: int,
)
    requires
        aligned(module, procs, ops, kind, depth, id, first, path, pc, next, sibling, at),
    ensures
        aligned(module, procs, ops, kind, depth, id, first, path, 0, first, 0, 0),
{
    reveal(aligned);
    assert(procs[id].body.skip(0) =~= procs[id].body);
}

/// The procedure of a function of the module is in place.
proof fn lemma_callee(module: ModuleOp, procs: Seq<Proc>, callee: nat)
    requires
        laid_out(module, procs),
        import_count(module) <= callee < function_count(module),
    ensures
        ({
            let f = callee - import_count(module);
            &&& in_range(module.functions@[f].body@, 0, 0)
            &&& aligned(
                module,
                procs,
                module.functions@[f].body@,
                Construct::Func,
                0,
                callee as int,
                block_base(module, f),
                module.functions@[f].name@,
                0,
                block_base(module, f),
                0,
                0,
            )
        }),
{
    reveal(aligned);
    let f = callee - import_count(module);
    assert(body_in_place(
        module,
        procs,
        module.functions@[f].body@,
        Construct::Func,
        0,
        import_count(module) + f,
        block_base(module, f),
        module.functions@[f].name@,
    ));
    assert(procs[callee as int].body.skip(0) =~= procs[callee as int].body);
}

proof fn lemma_aligned_is_laid_out(
    module: ModuleOp,
    procs: Seq<Proc>,
    ops: Seq<WasmOp>,
    kind: Construct,
    depth: nat,
    id: int,
    first: nat,
    path: Seq<char>,
    pc: int,
    next: nat,
    sibling: nat,
    at: int,
)
    requires
        aligned(module, procs, ops, kind, depth, id, first, path, pc, next, sibling, at),
    ensures
        laid_out(module, procs),
{
    reveal(aligned);
}

/// A branch that leaves `d` constructs besides its own does on the flat
/// machine what it does in the structured program.
#[verifier::rlimit(40)]
proof fn lemma_branch<S>(
    m: Machine<S>,
    module: ModuleOp,
    procs: Seq<Proc>,
    ops: Seq<WasmOp>,
    kind: Construct,
    depth: nat,
    id: int,
    first: nat,
    path: Seq<char>,
    pc: int,
    next: nat,
    sibling: nat,
    at: int,
    d: nat,
    here: int,
    s: S,
    signal: nat,
    fuel: nat,
)
    requires
        aligned(module, procs, ops, kind, depth, id, first, path, pc, next, sibling, at),
        0 <= id < procs.len(),
        0 <= here < procs[id].body.len(),
        procs[id].body[here] == branch_out(d, kind),
        d <= depth,
        depth < u32::MAX,
        kind == Construct::Func <==> depth == 0,
        signal <= 1,
    ensures
        related(
            finish(kind, m, module, ops, depth, (Flow::Branch(d), s), fuel),
            run_proc(m, procs, import_count(module), id, here, s, signal, fuel),
        ),
    decreases fuel, 0int, 0int,
{
    let flat = run_proc(m, procs, import_count(module), id, here, s, signal, fuel);
    if d == 0 && kind == Construct::Loop {
        assert(procs[id].body[here] == Inst::Recurse);
        if fuel > 0 {
            let below = (fuel - 1) as nat;
            lemma_restart(module, procs, ops, kind, depth, id, first, path, pc, next, sibling, at);
            lemma_sim(
                m,
                module,
                procs,
                ops,
                kind,
                depth,
                id,
                first,
                path,
                0,
                first,
                0,
                0,
                s,
                signal,
                below,
            );
            assert(flat == run_proc(m, procs, import_count(module), id, 0, s, signal, below));
            assert(run_loop(m, module, ops, depth, s, below) == finish(
                kind,
                m,
                module,
                ops,
                depth,
                run_ops(m, module, ops, 0, depth, s, below),
                below,
            ));
        } else {
            assert(flat == (Outcome::OutOfFuel, s, signal));
        }
    } else if d == 0 && kind == Construct::Func {
        assert(procs[id].body[here] == Inst::Return);
        assert(flat == (Outcome::Returned, s, signal));
    } else {
        assert(procs[id].body[here] == Inst::SignalReturn { levels: (d + 1) as u32 });
        assert(flat == (Outcome::Returned, s, d + 1));
    }
}

/// The call of a function of the module does on the flat machine what it
/// does in the structured program, and leaves at most 1 in the register.
#[verifier::rlimit(40)]
proof fn lemma_call<S>(
    m: Machine<S>,
    module: ModuleOp,
    procs: Seq<Proc>,
    callee: nat,
    s: S,
    signal: nat,
    fuel: nat,
)
    requires
        laid_out(module, procs),
        import_count(module) <= callee < function_count(module),
        signal <= 1,
        fuel > 0,
    ensures
        ({
            let structured = run_call(m, module, callee, s, fuel);
            let flat = run_proc(
                m,
                procs,
                import_count(module),
                callee as int,
                0,
                s,
                signal,
                (fuel - 1) as nat,
            );
            &&& structured.1 == flat.1
            &&& structured.0 is OutOfFuel <==> flat.0 is OutOfFuel
            &&& !(structured.0 is OutOfFuel) ==> structured.0 is Next && flat.2 <= 1
        }),
    decreases fuel, 0int, 0int,
{
    let f = callee - import_count(module);
    let body = module.functions@[f].body@;
    let below = (fuel - 1) as nat;
    lemma_callee(module, procs, callee);
    lemma_sim(
        m,
        module,
        procs,
        body,
        Construct::Func,
        0,
        callee as int,
        block_base(module, f),
        module.functions@[f].name@,
        0,
        block_base(module, f),
        0,
        0,
        s,
        signal,
        below,
    );
    lemma_flow_in_range(m, module, body, 0, 0, s, below);
    let inner = run_ops(m, module, body, 0, 0, s, below);
    assert(finish(Construct::Func, m, module, body, 0, inner, below) == inner);
    assert(run_call(m, module, callee, s, fuel) == match inner.0 {
        Flow::OutOfFuel => (Flow::OutOfFuel, inner.1),
        _ => (Flow::Next, inner.1),
    });
}

/// A block or a loop at `ops[pc]` and all that follows it do on the flat
/// machine what they do in the structured program.
#[verifier::rlimit(60)]
proof fn lemma_construct<S>(
    m: Machine<S>,
    module: ModuleOp,
    procs: Seq<Proc>,
    ops: Seq<WasmOp>,
    kind: Construct,
    depth: nat,
    id: int,
    first: nat,
    path: Seq<char>,
    pc: int,
    next: nat,
    sibling: nat,
    at: int,
    s: S,
    signal: nat,
    fuel: nat,
)
    requires
        aligned(module, procs, ops, kind, depth, id, first, path, pc, next, sibling, at),
        0 <= pc < ops.len(),
        blocks_in(ops[pc]) > 0,
        signal <= 1,
    ensures
        related(
            finish(kind, m, module, ops, depth, run_ops(m, module, ops, pc, depth, s, fuel), fuel),
            run_proc(m, procs, import_count(module), id, at, s, signal, fuel),
        ),
    decreases fuel, ops.len() - pc, 0int,
{
    let imports = import_count(module);
    let inner = body_of(ops[pc]);
    let child = if ops[pc] is Loop {
        Construct::Loop
    } else {
        Construct::Block
    };
    let name = block_name(path, depth, sibling);
    let code = call_of(inner, child, kind, next);
    let here = run_ops(m, module, ops, pc, depth, s, fuel);
    let flat = run_proc(m, procs, imports, id, at, s, signal, fuel);
    lemma_advance(module, procs, ops, kind, depth, id, first, path, pc, next, sibling, at);
    lemma_child_in_place(module, procs, ops, kind, depth, id, first, path, pc, next, sibling, at);
    assert(lower_op(ops[pc], kind, depth, next) == code);
    assert(FuncIndex(next as u32).0 as int == next);
    assert(call_target(procs[id].body[at]) == Some(next as int));
    if fuel == 0 {
        assert(here == (Flow::OutOfFuel, s));
        assert(flat == (Outcome::OutOfFuel, s, signal));
    } else {
        let below = (fuel - 1) as nat;
        lemma_sim(
            m,
            module,
            procs,
            inner,
            child,
            depth + 1,
            next as int,
            next + 1,
            name,
            0,
            next + 1,
            0,
            0,
            s,
            signal,
            below,
        );
        let run_inner = run_ops(m, module, inner, 0, depth + 1, s, below);
        let structured = finish(child, m, module, inner, depth + 1, run_inner, below);
        let called = run_proc(m, procs, imports, next as int, 0, s, signal, below);
        assert(related(structured, called));
        if ops[pc] is Loop {
            assert(structured == run_loop(m, module, inner, depth + 1, s, below));
        } else {
            assert(structured == run_inner);
        }
        assert(here == match after_construct(structured.0) {
            Some(flow) => (flow, structured.1),
            None => run_ops(m, module, ops, pc + 1, depth, structured.1, fuel),
        });
        assert(flat == match called.0 {
            Outcome::OutOfFuel => (Outcome::OutOfFuel, called.1, called.2),
            Outcome::Returned => run_proc(m, procs, imports, id, at + 1, called.1, called.2, fuel),
        });
        match structured.0 {
            Flow::OutOfFuel => {},
            Flow::Branch(k) if k > 0 => {
                if !escapes(inner, 0, 0) {
                    if ops[pc] is Loop {
                        lemma_loop_flow_contained(m, module, inner, depth + 1, 0, s, below);
                    } else {
                        lemma_flow_contained(m, module, inner, 0, depth + 1, 0, s, below);
                    }
                }
                assert(escapes(inner, 0, 0));
                assert(code.len() == 2);
                assert(procs[id].body[at + 1] == check_of(kind));
                assert(called.2 == k + 1);
                let after = run_proc(m, procs, imports, id, at + 1, called.1, called.2, fuel);
                assert(here == (Flow::Branch((k - 1) as nat), structured.1));
                if kind == Construct::Loop && k == 1 {
                    lemma_restart(
                        module,
                        procs,
                        ops,
                        kind,
                        depth,
                        id,
                        first,
                        path,
                        pc,
                        next,
                        sibling,
                        at,
                    );
                    lemma_sim(
                        m,
                        module,
                        procs,
                        ops,
                        kind,
                        depth,
                        id,
                        first,
                        path,
                        0,
                        first,
                        0,
                        0,
                        called.1,
                        1,
                        below,
                    );
                    assert(after == run_proc(m, procs, imports, id, 0, called.1, 1, below));
                    assert(run_loop(m, module, ops, depth, structured.1, below) == finish(
                        kind,
                        m,
                        module,
                        ops,
                        depth,
                        run_ops(m, module, ops, 0, depth, structured.1, below),
                        below,
                    ));
                } else {
                    assert(after == (Outcome::Returned, called.1, k));
                }
            },
            _ => {
                assert(after_construct(structured.0) is None);
                assert(called.0 is Returned && called.2 <= 1);
                if escapes(inner, 0, 0) {
                    assert(code.len() == 2);
                    assert(procs[id].body[at + 1] == check_of(kind));
                    assert(run_proc(m, procs, imports, id, at + 1, called.1, called.2, fuel)
                        == run_proc(m, procs, imports, id, at + 2, called.1, 0, fuel));
                    lemma_sim(
                        m,
                        module,
                        procs,
                        ops,
                        kind,
                        depth,
                        id,
                        first,
                        path,
                        pc + 1,
                        next + blocks_in(ops[pc]),
                        sibling + 1,
                        at + 2,
                        called.1,
                        0,
                        fuel,
                    );
                } else {
                    assert(code.len() == 1);
                    lemma_sim(
                        m,
                        module,
                        procs,
                        ops,
                        kind,
                        depth,
                        id,
                        first,
                        path,
                        pc + 1,
                        next + blocks_in(ops[pc]),
                        sibling + 1,
                        at + 1,
                        called.1,
                        called.2,
                        fuel,
                    );
                }
            },
        }
    }
}

/// The run of `ops[pc..]` on the flat machine, from the instruction `at`
/// of the procedure that stands for `ops`, ends as the run in the
/// structured program does.
#[verifier::rlimit(60)]
proof fn lemma_sim<S>(
    m: Machine<S>,
    module: ModuleOp,
    procs: Seq<Proc>,
    ops: Seq<WasmOp>,
    kind: Construct,
    depth: nat,
    id: int,
    first: nat,
    path: Seq<char>,
    pc: int,
    next: nat,
    sibling: nat,
    at: int,
    s: S,
    signal: nat,
    fuel: nat,
)
    requires
        aligned(module, procs, ops, kind, depth, id, first, path, pc, next, sibling, at),
        signal <= 1,
    ensures
        related(
            finish(kind, m, module, ops, depth, run_ops(m, module, ops, pc, depth, s, fuel), fuel),
            run_proc(m, procs, import_count(module), id, at, s, signal, fuel),
        ),
    decreases fuel, ops.len() - pc, 1int,
{
    let imports = import_count(module);
    let here = run_ops(m, module, ops, pc, depth, s, fuel);
    let flat = run_proc(m, procs, imports, id, at, s, signal, fuel);
    if pc < 0 || pc >= ops.len() {
        if pc < 0 {
            reveal(aligned);
        }
        lemma_at_end(module, procs, ops, kind, depth, id, first, path, pc, next, sibling, at);
        assert(here == (Flow::Next, s));
        assert(flat == (Outcome::Returned, s, signal));
    } else {
        lemma_advance(module, procs, ops, kind, depth, id, first, path, pc, next, sibling, at);
        let code = lower_op(ops[pc], kind, depth, next);
        match ops[pc] {
            WasmOp::Br(b) => {
                assert(here == (Flow::Branch(b.relative_depth.0 as nat), s));
                lemma_branch(
                    m,
                    module,
                    procs,
                    ops,
                    kind,
                    depth,
                    id,
                    first,
                    path,
                    pc,
                    next,
                    sibling,
                    at,
                    b.relative_depth.0 as nat,
                    at,
                    s,
                    signal,
                    fuel,
                );
            },
            WasmOp::Return(_) => {
                assert(here == (Flow::Branch(depth), s));
                lemma_branch(
                    m,
                    module,
                    procs,
                    ops,
                    kind,
                    depth,
                    id,
                    first,
                    path,
                    pc,
                    next,
                    sibling,
                    at,
                    depth,
                    at,
                    s,
                    signal,
                    fuel,
                );
            },
            WasmOp::BrIf(b) => {
                let (taken, s1) = (m.test)(s);
                assert(procs[id].body[at] == Inst::SkipIfZero);
                if taken {
                    assert(here == (Flow::Branch(b.relative_depth.0 as nat), s1));
                    assert(flat == run_proc(m, procs, imports, id, at + 1, s1, signal, fuel));
                    lemma_branch(
                        m,
                        module,
                        procs,
                        ops,
                        kind,
                        depth,
                        id,
                        first,
                        path,
                        pc,
                        next,
                        sibling,
                        at,
                        b.relative_depth.0 as nat,
                        at + 1,
                        s1,
                        signal,
                        fuel,
                    );
                } else {
                    assert(here == run_ops(m, module, ops, pc + 1, depth, s1, fuel));
                    assert(flat == run_proc(m, procs, imports, id, at + 2, s1, signal, fuel));
                    lemma_sim(
                        m,
                        module,
                        procs,
                        ops,
                        kind,
                        depth,
                        id,
                        first,
                        path,
                        pc + 1,
                        next,
                        sibling,
                        at + 2,
                        s1,
                        signal,
                        fuel,
                    );
                }
            },
            WasmOp::Block(_) => {
                lemma_construct(
                    m,
                    module,
                    procs,
                    ops,
                    kind,
                    depth,
                    id,
                    first,
                    path,
                    pc,
                    next,
                    sibling,
                    at,
                    s,
                    signal,
                    fuel,
                );
            },
            WasmOp::Loop(_) => {
                lemma_construct(
                    m,
                    module,
                    procs,
                    ops,
                    kind,
                    depth,
                    id,
                    first,
                    path,
                    pc,
                    next,
                    sibling,
                    at,
                    s,
                    signal,
                    fuel,
                );
            },
            WasmOp::Call(c) => {
                lemma_sim_call(
                    m,
                    module,
                    procs,
                    ops,
                    kind,
                    depth,
                    id,
                    first,
                    path,
                    pc,
                    next,
                    sibling,
                    at,
                    c.func_index,
                    s,
                    signal,
                    fuel,
                );
            },
            WasmOp::CallSym(c) => {
                lemma_sim_call(
                    m,
                    module,
                    procs,
                    ops,
                    kind,
                    depth,
                    id,
                    first,
                    path,
                    pc,
                    next,
                    sibling,
                    at,
                    c.func_index,
                    s,
                    signal,
                    fuel,
                );
            },
            op => {
                let s1 = (m.step)(plain(op), s);
                assert(procs[id].body[at] == plain(op));
                assert(here == run_ops(m, module, ops, pc + 1, depth, s1, fuel));
                assert(flat == run_proc(m, procs, imports, id, at + 1, s1, signal, fuel));
                lemma_sim(
                    m,
                    module,
                    procs,
                    ops,
                    kind,
                    depth,
                    id,
                    first,
                    path,
                    pc + 1,
                    next,
                    sibling,
                    at + 1,
                    s1,
                    signal,
                    fuel,
                );
            },
        }
    }
}

/// A call at `ops[pc]` and all that follows it do on the flat machine what
/// they do in the structured program.
#[verifier::rlimit(40)]
proof fn lemma_sim_call<S>(
    m: Machine<S>,
    module: ModuleOp,
    procs: Seq<Proc>,
    ops: Seq<WasmOp>,
    kind: Construct,
    depth: nat,
    id: int,
    first: nat,
    path: Seq<char>,
    pc: int,
    next: nat,
    sibling: nat,
    at: int,
    target: FuncIndex,
    s: S,
    signal: nat,
    fuel: nat,
)
    requires
        aligned(module, procs, ops, kind, depth, id, first, path, pc, next, sibling, at),
        0 <= pc < ops.len(),
        ops[pc] matches WasmOp::Call(c) ==> c.func_index == target,
        ops[pc] matches WasmOp::CallSym(c) ==> c.func_index == target,
        ops[pc] is Call || ops[pc] is CallSym,
        signal <= 1,
    ensures
        related(
            finish(kind, m, module, ops, depth, run_ops(m, module, ops, pc, depth, s, fuel), fuel),
            run_proc(m, procs, import_count(module), id, at, s, signal, fuel),
        ),
    decreases fuel, ops.len() - pc, 0int,
{
    let imports = import_count(module);
    let callee = target.0 as nat;
    let here = run_ops(m, module, ops, pc, depth, s, fuel);
    let flat = run_proc(m, procs, imports, id, at, s, signal, fuel);
    let called = run_call(m, module, callee, s, fuel);
    lemma_advance(module, procs, ops, kind, depth, id, first, path, pc, next, sibling, at);
    lemma_aligned_is_laid_out(
        module,
        procs,
        ops,
        kind,
        depth,
        id,
        first,
        path,
        pc,
        next,
        sibling,
        at,
    );
    assert(procs[id].body[at] == Inst::Call { func_idx: target });
    assert(call_target(procs[id].body[at]) == Some(callee as int));
    assert(here == match called.0 {
        Flow::OutOfFuel => (Flow::OutOfFuel, called.1),
        _ => run_ops(m, module, ops, pc + 1, depth, called.1, fuel),
    });
    if callee < imports {
        let s1 = (m.host)(callee, s);
        assert(called == (Flow::Next, s1));
        assert(flat == run_proc(m, procs, imports, id, at + 1, s1, signal, fuel));
        lemma_sim(
            m,
            module,
            procs,
            ops,
            kind,
            depth,
            id,
            first,
            path,
            pc + 1,
            next,
            sibling,
            at + 1,
            s1,
            signal,
            fuel,
        );
    } else if fuel == 0 {
        assert(called == (Flow::OutOfFuel, s));
        assert(flat == (Outcome::OutOfFuel, s, signal));
    } else {
        let below = (fuel - 1) as nat;
        lemma_call(m, module, procs, callee, s, signal, fuel);
        let inner = run_proc(m, procs, imports, callee as int, 0, s, signal, below);
        assert(flat == match inner.0 {
            Outcome::OutOfFuel => (Outcome::OutOfFuel, inner.1, inner.2),
            Outcome::Returned => run_proc(m, procs, imports, id, at + 1, inner.1, inner.2, fuel),
        });
        if !(inner.0 is OutOfFuel) {
            lemma_sim(
                m,
                module,
                procs,
                ops,
                kind,
                depth,
                id,
                first,
                path,
                pc + 1,
                next,
                sibling,
                at + 1,
                inner.1,
                inner.2,
                fuel,
            );
        }
    }
}

proof fn lemma_nested_holds(module: ModuleOp, f: int, upto: int, k: int)
    requires
        0 <= f < upto <= module.functions@.len(),
        0 <= k < count_blocks(module.functions@[f].body@, 0),
    ensures
        blocks_before(module.functions@, f) + k < nested_procs(module, upto).len(),
        nested_procs(module, upto)[blocks_before(module.functions@, f) + k] == outlined(
            module.functions@[f].body@,
            0,
            0,
            block_base(module, f),
            module.functions@[f].name@,
            0,
        )[k],
    decreases upto,
{
    let last = outlined(
        module.functions@[upto - 1].body@,
        0,
        0,
        block_base(module, upto - 1),
        module.functions@[upto - 1].name@,
        0,
    );
    lemma_nested_len(module, upto - 1);
    lemma_nested_len(module, upto);
    lemma_outlined_len(
        module.functions@[upto - 1].body@,
        0,
        0,
        block_base(module, upto - 1),
        module.functions@[upto - 1].name@,
        0,
    );
    if f < upto - 1 {
        lemma_nested_holds(module, f, upto - 1, k);
    }
}

/// The procedures that outlining makes of a well-formed module are laid
/// out as the comparison of the two programs needs them.
proof fn lemma_laid_out(module: ModuleOp)
    requires
        well_formed(module),
    ensures
        laid_out(module, module_procs(module)),
{
    let procs = module_procs(module);
    let n = module.functions@.len() as int;
    let imports = import_count(module);
    lemma_nested_len(module, n);
    assert forall|f: int| 0 <= f < n implies body_in_place(
        module,
        procs,
        (#[trigger] module.functions@[f]).body@,
        Construct::Func,
        0,
        imports + f,
        block_base(module, f),
        module.functions@[f].name@,
    ) by {
        let body = module.functions@[f].body@;
        let expected = outlined(body, 0, 0, block_base(module, f), module.functions@[f].name@, 0);
        lemma_blocks_before_grows(module.functions@, f + 1, n);
        lemma_outlined_len(body, 0, 0, block_base(module, f), module.functions@[f].name@, 0);
        assert(procs[imports + f] == root_proc(module, f));
        assert forall|k: int| 0 <= k < expected.len() implies procs[block_base(module, f) + k].body
            == (#[trigger] expected[k]).body by {
            lemma_nested_holds(module, f, n, k);
        }
    }
}

/// Outlining keeps the meaning of every function. Take a module in which
/// every branch names a construct around it or the function itself and
/// every call names a function that there is. Run one of its functions
/// under the reference semantics, and run the procedure that outlining
/// makes of it on the flat machine, from the same state and with nothing
/// pending in the branch-signal register. Then both runs end in the same
/// state, or both are cut short by the same lack of fuel; and the flat run
/// leaves nothing pending in the register. So a branch of depth `d` resumes
/// where the reference semantics says: after the end of the construct `d`
/// levels up, with nothing run on the way that lies behind the branch in
/// any of the bodies it leaves.
pub proof fn theorem_outlining_keeps_meaning<S>(
    m: Machine<S>,
    module: ModuleOp,
    f: int,
    s: S,
    signal: nat,
    fuel: nat,
)
    requires
        well_formed(module),
        0 <= f < module.functions@.len(),
        signal <= 1,
    ensures
        ({
            let structured = run_ops(m, module, module.functions@[f].body@, 0, 0, s, fuel);
            let flat = run_proc(
                m,
                module_procs(module),
                import_count(module),
                import_count(module) + f,
                0,
                s,
                signal,
                fuel,
            );
            &&& flat.1 == structured.1
            &&& flat.0 is OutOfFuel <==> structured.0 is OutOfFuel
            &&& flat.0 is Returned ==> flat.2 <= 1
        }),
{
    let procs = module_procs(module);
    let body = module.functions@[f].body@;
    let id = import_count(module) + f;
    lemma_laid_out(module);
    lemma_callee(module, procs, id as nat);
    lemma_sim(
        m,
        module,
        procs,
        body,
        Construct::Func,
        0,
        id,
        block_base(module, f),
        module.functions@[f].name@,
        0,
        block_base(module, f),
        0,
        0,
        s,
        signal,
        fuel,
    );
    lemma_flow_in_range(m, module, body, 0, 0, s, fuel);
}
} // verus!
