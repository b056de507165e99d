//! The Miden backend: instruction selection from the flat stream, the
//! instruction sink and the assembly listing.

use std::collections::HashMap;
use vstd::prelude::*;
use vstd::std_specs::convert::FromSpecImpl;
use crate::ir::{names_of, Ext, Func, Inst, MidenExt, Module};
use crate::ops::WasmOp;
use crate::outline::{blocks_in, lower_op, lower_ops, proc_body, Construct};
use crate::text::{decimal_int, decimal_nat, push_decimal_i64, push_decimal_u64};
use crate::types::FuncIndex;

verus! {

broadcast use vstd::std_specs::hash::group_hash_axioms;

/// A pass over the program that a target asks for before emission.
#[derive(Debug, Copy, Clone, PartialEq, Eq, Hash, Structural)]
pub enum IrPass {
    /// Annotate every instruction with the operand-stack depth before it.
    TrackStackDepth,
    /// Outline blocks and loops into procedures and lower branches.
    OutlineBlocks,
}

/// What the driver hands to the Miden backend.
#[derive(Debug)]
pub struct MidenTargetConfig {
    /// The rewrites to run before emission, in order.
    pub ir_passes: Vec<IrPass>,
}

impl Default for MidenTargetConfig {
    fn default() -> (config: MidenTargetConfig)
        ensures
            config.ir_passes@ == seq![IrPass::OutlineBlocks],
    {
        let mut ir_passes = Vec::new();
        ir_passes.push(IrPass::OutlineBlocks);
        assert(ir_passes@ =~= seq![IrPass::OutlineBlocks]);
        MidenTargetConfig { ir_passes }
    }
}

/// One line of Miden assembly.
#[derive(Debug)]
pub enum MidenInst {
    /// Opens the procedure of the given name.
    Proc(String),
    /// Opens the program body.
    Begin,
    /// Closes the innermost open region.
    End,
    /// Calls the procedure of the given name.
    Exec(String),
    /// Pushes a constant.
    Push(i64),
    /// Pushes a copy of the stack item at the given position.
    Dup(u8),
    /// Swaps the top of the stack with the item at the given position.
    Swap(u8),
    /// Adds the two topmost items.
    Add,
    /// Pushes the depth of the stack.
    SDepth,
    /// Opens a loop that runs while the popped item is one.
    WhileTrue,
}

/// A line of Miden assembly as a mathematical value: names are sequences
/// of characters.
pub enum MidenLine {
    Proc(Seq<char>),
    Begin,
    End,
    Exec(Seq<char>),
    Push(i64),
    Dup(u8),
    Swap(u8),
    Add,
    SDepth,
    WhileTrue,
}

impl View for MidenInst {
    type V = MidenLine;

    open spec fn view(&self) -> MidenLine {
        match self {
            MidenInst::Proc(name) => MidenLine::Proc(name@),
            MidenInst::Begin => MidenLine::Begin,
            MidenInst::End => MidenLine::End,
            MidenInst::Exec(name) => MidenLine::Exec(name@),
            MidenInst::Push(value) => MidenLine::Push(*value),
            MidenInst::Dup(idx) => MidenLine::Dup(*idx),
            MidenInst::Swap(idx) => MidenLine::Swap(*idx),
            MidenInst::Add => MidenLine::Add,
            MidenInst::SDepth => MidenLine::SDepth,
            MidenInst::WhileTrue => MidenLine::WhileTrue,
        }
    }
}

/// The text of one line.
pub open spec fn line_text(line: MidenLine) -> Seq<char> {
    match line {
        MidenLine::Proc(name) => "proc."@ + name,
        MidenLine::Begin => "begin"@,
        MidenLine::End => "end"@,
        MidenLine::Exec(name) => "exec."@ + name,
        MidenLine::Push(value) => "push."@ + decimal_int(value as int),
        MidenLine::Dup(idx) => "dup."@ + decimal_nat(idx as nat),
        MidenLine::Swap(idx) => "swap."@ + decimal_nat(idx as nat),
        MidenLine::Add => "add"@,
        MidenLine::SDepth => "sdepth"@,
        MidenLine::WhileTrue => "while.true"@,
    }
}

/// The text of a listing: its lines in order, a line feed between each two.
pub open spec fn listing_text(lines: Seq<MidenLine>) -> Seq<char>
    decreases lines.len(),
{
    if lines.len() == 0 {
        Seq::empty()
    } else if lines.len() == 1 {
        line_text(lines[0])
    } else {
        listing_text(lines.drop_last()) + "\n"@ + line_text(lines.last())
    }
}

impl MidenInst {
    /// Appends the text of this line to `out`.
    pub fn write_to(&self, out: &mut String)
        ensures
            final(out)@ == old(out)@ + line_text(self@),
    {
        match self {
            MidenInst::Proc(name) => {
                out.append("proc.");
                out.append(name.as_str());
                assert(final(out)@ =~= old(out)@ + ("proc."@ + name@));
            },
            MidenInst::Begin => {
                out.append("begin");
            },
            MidenInst::End => {
                out.append("end");
            },
            MidenInst::Exec(name) => {
                out.append("exec.");
                out.append(name.as_str());
                assert(final(out)@ =~= old(out)@ + ("exec."@ + name@));
            },
            MidenInst::Push(value) => {
                out.append("push.");
                push_decimal_i64(out, *value);
                assert(final(out)@ =~= old(out)@ + ("push."@ + decimal_int(*value as int)));
            },
            MidenInst::Dup(idx) => {
                out.append("dup.");
                push_decimal_u64(out, *idx as u64);
                assert(final(out)@ =~= old(out)@ + ("dup."@ + decimal_nat(*idx as nat)));
            },
            MidenInst::Swap(idx) => {
                out.append("swap.");
                push_decimal_u64(out, *idx as u64);
                assert(final(out)@ =~= old(out)@ + ("swap."@ + decimal_nat(*idx as nat)));
            },
            MidenInst::Add => {
                out.append("add");
            },
            MidenInst::SDepth => {
                out.append("sdepth");
            },
            MidenInst::WhileTrue => {
                out.append("while.true");
            },
        }
    }
}

/// Makes the lines of Miden assembly that the emitter uses.
#[derive(Debug, Copy, Clone)]
pub struct MidenAssemblyBuilder {}

impl MidenAssemblyBuilder {
    pub fn new() -> (builder: MidenAssemblyBuilder) {
        MidenAssemblyBuilder {  }
    }

    pub fn proc(&self, name: String) -> (inst: MidenInst)
        ensures
            inst@ == MidenLine::Proc(name@),
    {
        MidenInst::Proc(name)
    }

    pub fn begin(&self) -> (inst: MidenInst)
        ensures
            inst@ == MidenLine::Begin,
    {
        MidenInst::Begin
    }

    pub fn end(&self) -> (inst: MidenInst)
        ensures
            inst@ == MidenLine::End,
    {
        MidenInst::End
    }

    pub fn exec(&self, name: String) -> (inst: MidenInst)
        ensures
            inst@ == MidenLine::Exec(name@),
    {
        MidenInst::Exec(name)
    }

    pub fn push(&self, value: i64) -> (inst: MidenInst)
        ensures
            inst@ == MidenLine::Push(value),
    {
        MidenInst::Push(value)
    }

    pub fn dup(&self, idx: u8) -> (inst: MidenInst)
        ensures
            inst@ == MidenLine::Dup(idx),
    {
        MidenInst::Dup(idx)
    }

    pub fn swap(&self, idx: u8) -> (inst: MidenInst)
        ensures
            inst@ == MidenLine::Swap(idx),
    {
        MidenInst::Swap(idx)
    }

    pub fn add(&self) -> (inst: MidenInst)
        ensures
            inst@ == MidenLine::Add,
    {
        MidenInst::Add
    }

    pub fn sdepth(&self) -> (inst: MidenInst)
        ensures
            inst@ == MidenLine::SDepth,
    {
        MidenInst::SDepth
    }

    pub fn while_true(&self) -> (inst: MidenInst)
        ensures
            inst@ == MidenLine::WhileTrue,
    {
        MidenInst::WhileTrue
    }
}

/// The instruction sink: the emitted lines in emission order.
#[derive(Debug)]
pub struct InstBuffer {
    inner: Vec<MidenInst>,
}

impl View for InstBuffer {
    type V = Seq<MidenLine>;

    closed spec fn view(&self) -> Seq<MidenLine> {
        self.inner@.map_values(|inst: MidenInst| inst@)
    }
}

impl InstBuffer {
    /// An empty sink.
    pub fn new(config: &MidenTargetConfig) -> (sink: InstBuffer)
        ensures
            sink@ == Seq::<MidenLine>::empty(),
    {
        let sink = InstBuffer { inner: Vec::new() };
        assert(sink@ =~= Seq::<MidenLine>::empty());
        sink
    }

    /// Number of lines in the sink.
    pub fn len(&self) -> (n: usize)
        ensures
            n == self@.len(),
    {
        self.inner.len()
    }

    /// Appends one line.
    pub fn push(&mut self, inst: MidenInst)
        ensures
            final(self)@ == old(self)@.push(inst@),
    {
        self.inner.push(inst);
        assert(final(self)@ =~= old(self)@.push(inst@));
    }

    /// Drops every line but the first `len`.
    pub fn truncate(&mut self, len: usize)
        requires
            len <= old(self)@.len(),
        ensures
            final(self)@ == old(self)@.take(len as int),
    {
        self.inner.truncate(len);
        assert(final(self)@ =~= old(self)@.take(len as int));
    }

    /// The listing as text: one line per instruction, a line feed between
    /// each two.
    pub fn pretty_print(&self) -> (text: String)
        ensures
            text@ == listing_text(self@),
    {
        let mut text = String::new();
        let mut i: usize = 0;
        while i < self.inner.len()
            invariant
                i <= self.inner.len(),
                text@ == listing_text(self@.take(i as int)),
            decreases self.inner.len() - i,
        {
            let ghost before = text@;
            if i > 0 {
                text.append("\n");
            }
            self.inner[i].write_to(&mut text);
            proof {
                let prefix = self@.take(i as int);
                let next = self@.take(i + 1);
                assert(next.drop_last() =~= prefix);
                assert(next.last() == self.inner[i as int]@);
                if i == 0 {
                    assert(before =~= Seq::<char>::empty());
                    assert(text@ =~= line_text(next[0]));
                } else {
                    assert(text@ =~= listing_text(prefix) + "\n"@ + line_text(next.last()));
                }
            }
            i = i + 1;
        }
        proof {
            assert(self@.take(i as int) =~= self@);
        }
        text
    }
}

/// The label of a procedure: its name where `names` has one, else the letter
/// `f` and the decimal index.
pub open spec fn label_of(idx: FuncIndex, names: Map<u32, String>) -> Seq<char> {
    if names.contains_key(idx.0) {
        names[idx.0]@
    } else {
        "f"@ + decimal_nat(idx.0 as nat)
    }
}

/// The label under which listings show the procedure `func_index`.
pub fn func_index_to_label(func_index: FuncIndex, func_names: &HashMap<u32, String>) -> (label:
    String)
    ensures
        label@ == label_of(func_index, func_names@),
{
    match func_names.get(&func_index.0) {
        Some(name) => name.clone(),
        None => {
            let mut label = String::from_str("f");
            push_decimal_u64(&mut label, func_index.0 as u64);
            label
        },
    }
}

/// Why the emitter gave up.
#[derive(Debug, Copy, Clone, PartialEq, Eq, Structural)]
pub enum EmitError {
    /// The backend has no encoding for this instruction.
    UnsupportedInstruction(Inst),
}

/// Why the Miden backend gave up.
#[derive(Debug, Copy, Clone, PartialEq, Eq, Structural)]
pub enum MidenError {
    /// Instruction selection failed.
    Emit(EmitError),
}

impl From<EmitError> for MidenError {
    fn from(e: EmitError) -> (err: MidenError) {
        MidenError::Emit(e)
    }
}

impl FromSpecImpl<EmitError> for MidenError {
    open spec fn obeys_from_spec() -> bool {
        true
    }

    open spec fn from_spec(e: EmitError) -> MidenError {
        MidenError::Emit(e)
    }
}

/// The opcode table of the backend: the lines that stand for one instruction
/// of the flat stream, or `None` where the backend has no encoding for it.
/// A `Return` stands for no line at all: the `End` that follows it closes the
/// procedure.
pub open spec fn encoding(ins: Inst, names: Map<u32, String>) -> Option<Seq<MidenLine>> {
    match ins {
        Inst::End => Some(seq![MidenLine::End]),
        Inst::Return => Some(Seq::empty()),
        Inst::Dup { idx } => Some(seq![MidenLine::Dup(idx)]),
        Inst::Swap { idx } => Some(seq![MidenLine::Swap(idx)]),
        Inst::Call { func_idx } => Some(seq![MidenLine::Exec(label_of(func_idx, names))]),
        Inst::I32Const { value } => Some(seq![MidenLine::Push(value as i64)]),
        Inst::I32Add => Some(seq![MidenLine::Add]),
        Inst::Ext(Ext::Miden(MidenExt::SDepth)) => Some(seq![MidenLine::SDepth]),
        Inst::Ext(Ext::Miden(MidenExt::While)) => Some(seq![MidenLine::WhileTrue]),
        Inst::Ext(Ext::Miden(MidenExt::End)) => Some(seq![MidenLine::End]),
        _ => None,
    }
}

/// Emits the lines that stand for `ins` into `sink`, or reports the
/// instruction as unsupported and leaves the sink as it was.
pub fn emit_inst(
    ins: &Inst,
    config: &MidenTargetConfig,
    sink: &mut InstBuffer,
    func_names: &HashMap<u32, String>,
) -> (res: Result<(), EmitError>)
    ensures
        match encoding(*ins, func_names@) {
            Some(lines) => res is Ok && final(sink)@ == old(sink)@ + lines,
            None => res == Err::<(), EmitError>(EmitError::UnsupportedInstruction(*ins))
                && final(sink)@ == old(sink)@,
        },
{
    let b = MidenAssemblyBuilder::new();
    match ins {
        Inst::End => sink.push(b.end()),
        Inst::Return => (),
        Inst::Dup { idx } => sink.push(b.dup(*idx)),
        Inst::Swap { idx } => sink.push(b.swap(*idx)),
        Inst::Call { func_idx } => sink.push(b.exec(func_index_to_label(*func_idx, func_names))),
        Inst::I32Const { value } => sink.push(b.push(*value as i64)),
        Inst::I32Add => sink.push(b.add()),
        Inst::Ext(Ext::Miden(miden_inst)) => match miden_inst {
            MidenExt::SDepth => sink.push(b.sdepth()),
            MidenExt::While => sink.push(b.while_true()),
            MidenExt::End => sink.push(b.end()),
        },
        _ => {
            return Err(EmitError::UnsupportedInstruction(*ins));
        },
    };
    proof {
        let lines = encoding(*ins, func_names@)->0;
        assert(final(sink)@ =~= old(sink)@ + lines);
    }
    Ok(())
}

/// Whether the opcode table of the backend has an entry for `ins`.
pub open spec fn is_supported(ins: Inst) -> bool {
    encoding(ins, Map::empty()) is Some
}

/// Whether the backend can emit `insts[at]` where it stands: the opcode
/// table has an entry for it, and, where it is a `Return`, which stands for
/// no line, the `End` of the procedure follows it at once. A `Return`
/// anywhere else would not be without effect, so leaving it out is not an
/// encoding of it.
pub open spec fn encodable_at(insts: Seq<Inst>, at: int) -> bool {
    &&& is_supported(insts[at])
    &&& insts[at] == Inst::Return ==> at + 1 < insts.len() && insts[at + 1] == Inst::End
}

/// Whether the backend can emit every instruction of `insts`.
pub open spec fn all_supported(insts: Seq<Inst>) -> bool {
    forall|i: int| 0 <= i < insts.len() ==> #[trigger] encodable_at(insts, i)
}

/// Whether `insts[at]` is the first instruction that the backend cannot
/// emit.
pub open spec fn first_unsupported_at(insts: Seq<Inst>, at: int) -> bool {
    &&& 0 <= at < insts.len()
    &&& !encodable_at(insts, at)
    &&& forall|j: int| 0 <= j < at ==> #[trigger] encodable_at(insts, j)
}

/// The lines that stand for `insts`, in order; an instruction without an
/// encoding contributes none.
pub open spec fn lines_of(insts: Seq<Inst>, names: Map<u32, String>) -> Seq<MidenLine>
    decreases insts.len(),
{
    if insts.len() == 0 {
        Seq::empty()
    } else {
        lines_of(insts.drop_last(), names) + match encoding(insts.last(), names) {
            Some(lines) => lines,
            None => Seq::empty(),
        }
    }
}

/// Emits the body of one procedure into `sink`, instruction by instruction.
/// Where the backend cannot emit one of them, the error names the first
/// such instruction and the sink is left as it was: a procedure is emitted
/// whole or not at all.
pub fn compile_function(
    func: Func,
    config: &MidenTargetConfig,
    sink: &mut InstBuffer,
    func_names: &HashMap<u32, String>,
) -> (res: Result<(), MidenError>)
    ensures
        res is Ok <==> all_supported(func.instructions@),
        res is Ok ==> final(sink)@ == old(sink)@ + lines_of(func.instructions@, func_names@),
        res is Err ==> final(sink)@ == old(sink)@,
        res is Err ==> exists|at: int|
            first_unsupported_at(func.instructions@, at) && res
                == Err::<(), MidenError>(
                MidenError::Emit(
                    EmitError::UnsupportedInstruction(#[trigger] func.instructions@[at]),
                ),
            ),
{
    let start = sink.len();
    let ghost insts = func.instructions@;
    let ghost names = func_names@;
    let mut i: usize = 0;
    while i < func.instructions.len()
        invariant
            i <= func.instructions.len(),
            insts == func.instructions@,
            names == func_names@,
            start == old(sink)@.len(),
            forall|j: int| 0 <= j < i ==> #[trigger] encodable_at(insts, j),
            sink@ == old(sink)@ + lines_of(insts.take(i as int), names),
        decreases func.instructions.len() - i,
    {
        let ins = func.instructions[i];
        let dangling = match ins {
            Inst::Return => !(i + 1 < func.instructions.len() && func.instructions[i + 1]
                == Inst::End),
            _ => false,
        };
        let res = if dangling {
            Err(EmitError::UnsupportedInstruction(ins))
        } else {
            emit_inst(&ins, config, sink, func_names)
        };
        match res {
            Err(e) => {
                sink.truncate(start);
                proof {
                    assert(sink@ =~= old(sink)@);
                    assert(!encodable_at(insts, i as int));
                    assert(first_unsupported_at(insts, i as int));
                }
                return Err(MidenError::from(e));
            },
            Ok(()) => {
                proof {
                    let prefix = insts.take(i as int);
                    let next = insts.take(i + 1);
                    assert(next.drop_last() =~= prefix);
                    assert(next.last() == insts[i as int]);
                    assert(sink@ =~= old(sink)@ + lines_of(next, names));
                    assert(encodable_at(insts, i as int));
                }
            },
        }
        i = i + 1;
    }
    proof {
        assert(insts.take(i as int) =~= insts);
    }
    Ok(())
}

/// The procedures `funcs[..upto]` as lines: each opened by its `proc` line
/// and followed by the lines of its body.
pub open spec fn procedures_lines(funcs: Seq<Func>, names: Map<u32, String>, upto: int) -> Seq<
    MidenLine,
>
    decreases upto,
{
    if upto <= 0 {
        Seq::empty()
    } else {
        procedures_lines(funcs, names, upto - 1) + seq![
            MidenLine::Proc(label_of(FuncIndex((upto - 1) as u32), names)),
        ] + lines_of(funcs[upto - 1].instructions@, names)
    }
}

/// The listing of a whole module: every procedure in definition order, then
/// the program body, which calls the start procedure.
pub open spec fn module_lines(funcs: Seq<Func>, start: FuncIndex) -> Seq<MidenLine> {
    let names = names_of(funcs);
    procedures_lines(funcs, names, funcs.len() as int) + seq![
        MidenLine::Begin,
        MidenLine::Exec(label_of(start, names)),
        MidenLine::End,
    ]
}

/// Whether the backend can emit every instruction of every procedure of
/// `funcs`.
pub open spec fn module_supported(funcs: Seq<Func>) -> bool {
    forall|f: int| 0 <= f < funcs.len() ==> all_supported((#[trigger] funcs[f]).instructions@)
}

/// Whether `funcs[f].instructions[at]` is the first instruction of the
/// module, in definition order, that the backend cannot emit.
pub open spec fn module_first_unsupported_at(funcs: Seq<Func>, f: int, at: int) -> bool {
    &&& 0 <= f < funcs.len()
    &&& forall|g: int| 0 <= g < f ==> all_supported((#[trigger] funcs[g]).instructions@)
    &&& first_unsupported_at(funcs[f].instructions@, at)
}

/// Whether `res` is what compiling the procedures `funcs` with the start
/// index `start` gives: the listing of the module where the backend can
/// emit every instruction, and else the error that names the first
/// instruction, in definition order, that it cannot emit.
pub open spec fn compiled(funcs: Seq<Func>, start: FuncIndex, res: Result<InstBuffer, MidenError>) -> bool {
    &&& res is Ok <==> module_supported(funcs)
    &&& res is Ok ==> res->Ok_0@ == module_lines(funcs, start)
    &&& res is Err ==> exists|f: int, at: int|
        module_first_unsupported_at(funcs, f, at) && res->Err_0 == MidenError::Emit(
            EmitError::UnsupportedInstruction(#[trigger] funcs[f].instructions@[at]),
        )
}

/// Compiles a module to a Miden listing: the procedures in definition order,
/// then the program body that calls the start procedure. Compilation stops
/// at the first instruction that the backend has no encoding for, and then
/// no listing comes out at all.
#[verifier::rlimit(40)]
pub fn compile_module(module: Module, config: &MidenTargetConfig) -> (res: Result<
    InstBuffer,
    MidenError,
>)
    requires
        module.funcs().len() <= u32::MAX,
    ensures
        compiled(module.funcs(), module.start(), res),
{
    let mut sink = InstBuffer::new(config);
    let func_names = module.func_names();
    let builder = MidenAssemblyBuilder::new();
    let start_func_index = module.start_func_idx();
    let ghost funcs = module.funcs();
    let ghost names = names_of(funcs);
    let functions = module.into_functions();
    proof {
        assert(sink@ =~= procedures_lines(funcs, names, 0));
    }
    let mut idx: u32 = 0;
    for func in it: functions.into_iter()
        invariant
            it.seq() == funcs,
            funcs == module.funcs(),
            idx == it.index(),
            funcs.len() <= u32::MAX,
            names == names_of(funcs),
            func_names@ == names,
            sink@ == procedures_lines(funcs, names, it.index() as int),
            forall|g: int|
                0 <= g < it.index() ==> all_supported((#[trigger] funcs[g]).instructions@),
    {
        let ghost f = it.index() as int;
        sink.push(builder.proc(func_index_to_label(FuncIndex(idx), &func_names)));
        let ghost insts = func.instructions@;
        match compile_function(func, config, &mut sink, &func_names) {
            Err(e) => {
                proof {
                    let at = choose|at: int|
                        first_unsupported_at(insts, at) && e == MidenError::Emit(
                            EmitError::UnsupportedInstruction(#[trigger] insts[at]),
                        );
                    assert(funcs[f].instructions@ == insts);
                    assert(module_first_unsupported_at(funcs, f, at));
                    assert(!encodable_at(funcs[f].instructions@, at));
                    assert(!all_supported(funcs[f].instructions@));
                }
                return Err(e);
            },
            Ok(()) => {},
        }
        idx = idx + 1;
    }
    sink.push(builder.begin());
    sink.push(builder.exec(func_index_to_label(start_func_index, &func_names)));
    sink.push(builder.end());
    proof {
        assert(sink@ =~= module_lines(funcs, module.start()));
    }
    Ok(sink)
}

/// Only one instruction of a module is the first that the backend cannot
/// emit.
proof fn lemma_first_unsupported_is_unique(funcs: Seq<Func>, f: int, at: int, g: int, bt: int)
    requires
        module_first_unsupported_at(funcs, f, at),
        module_first_unsupported_at(funcs, g, bt),
    ensures
        f == g,
        at == bt,
{
    if f < g {
        assert(all_supported(funcs[f].instructions@));
        assert(encodable_at(funcs[f].instructions@, at));
    }
    if g < f {
        assert(all_supported(funcs[g].instructions@));
        assert(encodable_at(funcs[g].instructions@, bt));
    }
    let insts = funcs[f].instructions@;
    if at < bt {
        assert(encodable_at(insts, at));
    }
    if bt < at {
        assert(encodable_at(insts, bt));
    }
}

/// Compilation is reproducible: whatever two compilations of the same
/// module give, they give the same. Both fail with the same error, or both
/// give listings with the same lines, and so the same text, byte for byte.
pub proof fn law_same_module_same_listing(
    funcs: Seq<Func>,
    start: FuncIndex,
    first: Result<InstBuffer, MidenError>,
    second: Result<InstBuffer, MidenError>,
)
    requires
        compiled(funcs, start, first),
        compiled(funcs, start, second),
    ensures
        first is Ok <==> second is Ok,
        first is Ok ==> first->Ok_0@ == second->Ok_0@ && listing_text(first->Ok_0@)
            == listing_text(second->Ok_0@),
        first is Err ==> first->Err_0 == second->Err_0,
{
    if first is Err {
        let (f, at) = choose|f: int, at: int|
            module_first_unsupported_at(funcs, f, at) && first->Err_0 == MidenError::Emit(
                EmitError::UnsupportedInstruction(#[trigger] funcs[f].instructions@[at]),
            );
        let (g, bt) = choose|g: int, bt: int|
            module_first_unsupported_at(funcs, g, bt) && second->Err_0 == MidenError::Emit(
                EmitError::UnsupportedInstruction(#[trigger] funcs[g].instructions@[bt]),
            );
        lemma_first_unsupported_is_unique(funcs, f, at, g, bt);
    }
}

/// Where the first instruction of `ops[pc]` stands among the instructions of
/// `ops[from..]`.
proof fn lemma_first_instruction_is_there(
    ops: Seq<WasmOp>,
    from: int,
    pc: int,
    kind: Construct,
    depth: nat,
    next: nat,
) -> (at: int)
    requires
        0 <= from <= pc < ops.len(),
        ops[pc] is Br || ops[pc] is BrIf,
    ensures
        0 <= at < lower_ops(ops, from, kind, depth, next).len(),
        lower_ops(ops, from, kind, depth, next)[at] == lower_op(ops[pc], kind, depth, 0)[0],
    decreases pc - from,
{
    let here = lower_op(ops[from], kind, depth, next);
    let rest = lower_ops(ops, from + 1, kind, depth, next + blocks_in(ops[from]));
    assert(lower_ops(ops, from, kind, depth, next) == here + rest);
    if from == pc {
        assert(here[0] == lower_op(ops[pc], kind, depth, 0)[0]);
        0
    } else {
        let later = lemma_first_instruction_is_there(
            ops,
            from + 1,
            pc,
            kind,
            depth,
            next + blocks_in(ops[from]),
        );
        assert((here + rest)[here.len() + later] == rest[later]);
        here.len() + later
    }
}

/// This backend refuses every procedure that holds a branch. The opcode
/// table has no entry for the instructions of the branch-signal protocol,
/// so where the body of a block or a loop holds a branch, conditional or
/// not, the procedure that outlining makes of that body cannot be emitted;
/// and a conditional branch is refused in the body of a function as well.
/// No listing of this backend runs a branch out of a block or back into a
/// loop.
pub proof fn law_procedure_with_a_branch_is_refused(
    ops: Seq<WasmOp>,
    pc: int,
    kind: Construct,
    depth: nat,
    next: nat,
)
    requires
        0 <= pc < ops.len(),
        ops[pc] is BrIf || (ops[pc] is Br && kind != Construct::Func),
    ensures
        !all_supported(proc_body(ops, kind, depth, next)),
{
    let at = lemma_first_instruction_is_there(ops, 0, pc, kind, depth, next);
    let body = proc_body(ops, kind, depth, next);
    assert(body[at] == lower_ops(ops, 0, kind, depth, next)[at]);
    assert(!is_supported(body[at]));
    assert(!encodable_at(body, at));
}

} // verus!
