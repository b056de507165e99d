use std::collections::VecDeque;

use c2zk::ir::{Func, Inst, Module};
use c2zk::miden::{compile_module, EmitError, MidenError, MidenTargetConfig};
use c2zk::ops::{
    AddOp, BlockOp, BrIfOp, BrOp, CallOp, CompilerError, ConstValue, ConstantOp, FuncOp, FuncSym,
    I32EqzOp, LocalGetOp, LocalSetOp, LocalTeeOp, LoopOp, ModuleOp, ReturnOp, WasmOp,
};
use c2zk::outline::{
    count_blocks_of, fits_numbering, has_escape, outline_module, outline_ops, Construct,
};
use c2zk::types::{FuncIndex, RelativeDepth, WasmFuncType, WasmType};

const PUB_INPUT: u32 = 0;
const PUB_OUTPUT: u32 = 1;
const SECRET_INPUT: u32 = 2;

fn ty(params: usize, results: usize) -> WasmFuncType {
    WasmFuncType::new(
        vec![WasmType::I64; params].into_boxed_slice(),
        vec![WasmType::I64; results].into_boxed_slice(),
    )
}

fn sym(name: &str) -> FuncSym {
    FuncSym::from(String::from(name))
}

fn constant(v: i64) -> WasmOp {
    WasmOp::Constant(ConstantOp::new_unlinked(ConstValue::I64(v)))
}

fn add() -> WasmOp {
    WasmOp::Add(AddOp::new_unlinked(WasmType::I64))
}

fn eqz() -> WasmOp {
    WasmOp::I32Eqz(I32EqzOp::new_unlinked())
}

fn call(idx: u32) -> WasmOp {
    WasmOp::Call(CallOp::new_unlinked(FuncIndex(idx)))
}

fn ret() -> WasmOp {
    WasmOp::Return(ReturnOp::new_unlinked())
}

fn br(depth: u32) -> WasmOp {
    WasmOp::Br(BrOp::new_unlinked(RelativeDepth(depth)))
}

fn br_if(depth: u32) -> WasmOp {
    WasmOp::BrIf(BrIfOp::new_unlinked(RelativeDepth(depth)))
}

fn get(i: u32) -> WasmOp {
    WasmOp::LocalGet(LocalGetOp::new_unlinked(i))
}

fn set(i: u32) -> WasmOp {
    WasmOp::LocalSet(LocalSetOp::new_unlinked(i))
}

fn tee(i: u32) -> WasmOp {
    WasmOp::LocalTee(LocalTeeOp::new_unlinked(i))
}

fn block(body: Vec<WasmOp>) -> WasmOp {
    let mut b = BlockOp::new_unlinked(ty(0, 0));
    for op in body {
        b.append_operation(op);
    }
    WasmOp::Block(b)
}

fn loop_of(body: Vec<WasmOp>) -> WasmOp {
    let mut l = LoopOp::new_unlinked(ty(0, 0));
    for op in body {
        l.append_operation(op);
    }
    WasmOp::Loop(l)
}

fn func(name: &str, params: usize, locals: usize, body: Vec<WasmOp>) -> FuncOp {
    FuncOp::new_unlinked_with_block(sym(name), ty(params, 0), body, vec![WasmType::I64; locals])
}

/// A module with the three imports of the I/O library and the given functions; the last
/// function is the start function.
fn module_of(functions: Vec<FuncOp>) -> ModuleOp {
    let start = functions.last().map(|f| sym(f.get_symbol_name()));
    ModuleOp::new(
        start,
        vec![sym("c2zk_stdlib_pub_input"), sym("c2zk_stdlib_pub_output"), sym("c2zk_stdlib_secret_input")],
        functions,
        vec![ty(0, 1), ty(1, 0), ty(0, 1)],
        vec![String::from("env"), String::from("env"), String::from("env")],
    )
}

/// What both interpreters share: the operand stack and the I/O of the program.
struct World {
    stack: Vec<i64>,
    input: VecDeque<i64>,
    secret: VecDeque<i64>,
    output: Vec<i64>,
    steps: usize,
}

impl World {
    fn new(input: &[i64], secret: &[i64]) -> World {
        World {
            stack: Vec::new(),
            input: input.iter().copied().collect(),
            secret: secret.iter().copied().collect(),
            output: Vec::new(),
            steps: 0,
        }
    }

    fn tick(&mut self) {
        self.steps += 1;
        assert!(self.steps < 1_000_000, "the program does not end");
    }

    fn host(&mut self, idx: u32) {
        match idx {
            PUB_INPUT => {
                let v = self.input.pop_front().unwrap();
                self.stack.push(v)
            }
            PUB_OUTPUT => {
                let v = self.stack.pop().unwrap();
                self.output.push(v)
            }
            SECRET_INPUT => {
                let v = self.secret.pop_front().unwrap();
                self.stack.push(v)
            }
            _ => unreachable!(),
        }
    }

    fn frame(&mut self, params: usize, locals: usize) -> Vec<i64> {
        let mut frame = vec![0; params + locals];
        for i in (0..params).rev() {
            frame[i] = self.stack.pop().unwrap();
        }
        frame
    }

    fn plain(&mut self, inst: &Inst, frame: &mut Vec<i64>) {
        match inst {
            Inst::Nop => {}
            Inst::I32Const { value } => self.stack.push(*value as i64),
            Inst::I64Const { value } => self.stack.push(*value),
            Inst::I32Add | Inst::I64Add => {
                let b = self.stack.pop().unwrap();
                let a = self.stack.pop().unwrap();
                self.stack.push(a.wrapping_add(b))
            }
            Inst::I32Eqz => {
                let a = self.stack.pop().unwrap();
                self.stack.push((a == 0) as i64)
            }
            Inst::LocalGet { local_idx } => self.stack.push(frame[*local_idx as usize]),
            Inst::LocalSet { local_idx } => frame[*local_idx as usize] = self.stack.pop().unwrap(),
            Inst::LocalTee { local_idx } => frame[*local_idx as usize] = *self.stack.last().unwrap(),
            other => panic!("not a plain instruction: {:?}", other),
        }
    }
}

/// The reference semantics of the structured program.
enum Flow {
    Next,
    Branch(u32),
}

fn plain_inst(op: &WasmOp) -> Inst {
    match op {
        WasmOp::Constant(c) => match c.value {
            ConstValue::I32(value) => Inst::I32Const { value },
            ConstValue::I64(value) => Inst::I64Const { value },
        },
        WasmOp::Add(_) => Inst::I64Add,
        WasmOp::I32Eqz(_) => Inst::I32Eqz,
        WasmOp::LocalGet(g) => Inst::LocalGet { local_idx: g.index.0 },
        WasmOp::LocalSet(s) => Inst::LocalSet { local_idx: s.index.0 },
        WasmOp::LocalTee(t) => Inst::LocalTee { local_idx: t.index.0 },
        other => panic!("not a plain operation: {:?}", other),
    }
}

fn run_structured(module: &ModuleOp, ops: &[WasmOp], depth: u32, frame: &mut Vec<i64>, w: &mut World) -> Flow {
    for op in ops {
        w.tick();
        match op {
            WasmOp::Br(b) => return Flow::Branch(b.relative_depth.0),
            WasmOp::BrIf(b) => {
                if w.stack.pop().unwrap() != 0 {
                    return Flow::Branch(b.relative_depth.0);
                }
            }
            WasmOp::Return(_) => return Flow::Branch(depth),
            WasmOp::Block(b) => match run_structured(module, b.op_iter(), depth + 1, frame, w) {
                Flow::Next | Flow::Branch(0) => {}
                Flow::Branch(k) => return Flow::Branch(k - 1),
            },
            WasmOp::Loop(l) => loop {
                match run_structured(module, l.op_iter(), depth + 1, frame, w) {
                    Flow::Branch(0) => continue,
                    Flow::Next => break,
                    Flow::Branch(k) => return Flow::Branch(k - 1),
                }
            },
            WasmOp::Call(c) => {
                let idx = c.func_index.0;
                let imports = module.import_func_types.len() as u32;
                if idx < imports {
                    w.host(idx);
                } else {
                    let callee = &module.functions[(idx - imports) as usize];
                    let mut inner = w.frame(callee.get_type_attr().params().len(), callee.locals.len());
                    run_structured(module, callee.op_iter(), 0, &mut inner, w);
                }
            }
            other => w.plain(&plain_inst(other), frame),
        }
    }
    Flow::Next
}

/// The machine that runs the flat program: calls, returns, the conditional skip and the
/// branch-signal register.
struct Flat<'a> {
    source: &'a ModuleOp,
    procs: &'a [Func],
    signal: u32,
}

impl<'a> Flat<'a> {
    fn run(&mut self, id: usize, frame: &mut Vec<i64>, w: &mut World) {
        let imports = self.source.import_func_types.len();
        let functions = imports + self.source.functions.len();
        let body = self.procs[id].instructions();
        let mut pc = 0;
        while pc < body.len() {
            w.tick();
            match &body[pc] {
                Inst::End | Inst::Return => return,
                Inst::Call { func_idx } | Inst::CallLoop { func_idx } => {
                    let callee = func_idx.0 as usize;
                    if callee < imports {
                        w.host(func_idx.0);
                    } else if callee < functions {
                        let f = &self.source.functions[callee - imports];
                        let mut inner = w.frame(f.get_type_attr().params().len(), f.locals.len());
                        self.run(callee, &mut inner, w);
                    } else {
                        self.run(callee, frame, w);
                    }
                }
                Inst::Recurse => {
                    pc = 0;
                    continue;
                }
                Inst::SkipIfZero => {
                    if w.stack.pop().unwrap() == 0 {
                        pc += 1;
                    }
                }
                Inst::SignalReturn { levels } => {
                    self.signal = *levels;
                    return;
                }
                Inst::Propagate => {
                    if self.signal <= 1 {
                        self.signal = 0;
                    } else {
                        self.signal -= 1;
                        return;
                    }
                }
                Inst::PropagateInLoop => {
                    if self.signal <= 1 {
                        self.signal = 0;
                    } else if self.signal == 2 {
                        self.signal = 1;
                        pc = 0;
                        continue;
                    } else {
                        self.signal -= 1;
                        return;
                    }
                }
                other => w.plain(other, frame),
            }
            pc += 1;
        }
    }
}

/// Runs the start function of `module` under the reference semantics, outlines the module and
/// runs the start procedure on the flat machine: both must write `expected`.
fn check(module: ModuleOp, input: &[i64], secret: &[i64], expected: &[i64]) -> Module {
    let flat = outline_module(&module).unwrap();
    let start = flat.start_func_idx.0 as usize;
    let imports = module.import_func_types.len();
    let main = &module.functions[start - imports];

    let mut reference = World::new(input, secret);
    let mut frame = vec![0; main.locals.len()];
    run_structured(&module, main.op_iter(), 0, &mut frame, &mut reference);
    assert_eq!(reference.output, expected);

    let mut w = World::new(input, secret);
    let mut frame = vec![0; main.locals.len()];
    let mut machine = Flat { source: &module, procs: flat.functions(), signal: 0 };
    machine.run(start, &mut frame, &mut w);
    assert_eq!(w.output, expected);
    assert_eq!(w.stack, reference.stack);
    assert!(machine.signal <= 1);
    flat
}

fn names(flat: &Module) -> Vec<&str> {
    flat.functions().iter().map(|f| f.name()).collect()
}

fn call_inst(idx: u32) -> Inst {
    Inst::Call { func_idx: FuncIndex(idx) }
}

fn call_loop(idx: u32) -> Inst {
    Inst::CallLoop { func_idx: FuncIndex(idx) }
}

#[test]
fn sum_of_two_public_inputs_and_a_secret_one() {
    let add_fn = func("add", 2, 0, vec![get(1), get(0), add()]);
    let main = func(
        "main_add",
        0,
        0,
        vec![
            call(PUB_INPUT),
            call(PUB_INPUT),
            call(3),
            call(SECRET_INPUT),
            call(3),
            call(PUB_OUTPUT),
        ],
    );
    let flat = check(module_of(vec![add_fn, main]), &[11, 7], &[3], &[21]);
    assert_eq!(
        names(&flat),
        vec!["c2zk_stdlib_pub_input", "c2zk_stdlib_pub_output", "c2zk_stdlib_secret_input", "add", "main_add"]
    );
    assert_eq!(flat.start_func_idx, FuncIndex(4));
}

fn nested_block_br() -> ModuleOp {
    module_of(vec![func(
        "main",
        0,
        0,
        vec![
            block(vec![
                constant(3),
                call(PUB_OUTPUT),
                block(vec![constant(8), call(PUB_OUTPUT), br(1), constant(11), call(PUB_OUTPUT)]),
                constant(9),
                call(PUB_OUTPUT),
            ]),
            constant(7),
            call(PUB_OUTPUT),
            ret(),
        ],
    )])
}

#[test]
fn branch_out_of_two_nested_blocks_skips_both_tails() {
    let flat = check(nested_block_br(), &[], &[], &[3, 8, 7]);
    assert_eq!(
        names(&flat),
        vec![
            "c2zk_stdlib_pub_input",
            "c2zk_stdlib_pub_output",
            "c2zk_stdlib_secret_input",
            "main",
            "main_l0_b0",
            "main_l0_b0_l1_b0",
        ]
    );
    let procs = flat.functions();
    assert_eq!(procs[0].instructions(), &[Inst::End]);
    assert_eq!(
        procs[3].instructions(),
        &[
            call_inst(4),
            Inst::I64Const { value: 7 },
            call_inst(PUB_OUTPUT),
            Inst::Return,
            Inst::End,
        ]
    );
    assert_eq!(
        procs[4].instructions(),
        &[
            Inst::I64Const { value: 3 },
            call_inst(PUB_OUTPUT),
            call_inst(5),
            Inst::Propagate,
            Inst::I64Const { value: 9 },
            call_inst(PUB_OUTPUT),
            Inst::End,
        ]
    );
    assert_eq!(
        procs[5].instructions(),
        &[
            Inst::I64Const { value: 8 },
            call_inst(PUB_OUTPUT),
            Inst::SignalReturn { levels: 2 },
            Inst::I64Const { value: 11 },
            call_inst(PUB_OUTPUT),
            Inst::End,
        ]
    );
}

#[test]
fn a_local_that_is_set_is_read_back() {
    let main = func("main", 0, 1, vec![constant(9), set(0), get(0), call(PUB_OUTPUT), ret()]);
    check(module_of(vec![main]), &[], &[], &[9]);
}

fn fib() -> ModuleOp {
    // locals: 0 = n, 1 = a, 2 = b
    module_of(vec![func(
        "fib_seq",
        0,
        3,
        vec![
            call(PUB_INPUT),
            set(0),
            constant(1),
            set(2),
            block(vec![loop_of(vec![
                get(0),
                eqz(),
                br_if(1),
                get(1),
                get(2),
                tee(1),
                add(),
                set(2),
                get(0),
                constant(-1),
                add(),
                set(0),
                br(0),
            ])]),
            get(1),
            call(PUB_OUTPUT),
        ],
    )])
}

#[test]
fn loop_counts_down_the_input() {
    let flat = check(fib(), &[25], &[], &[75025]);
    assert_eq!(names(&flat)[3..], ["fib_seq", "fib_seq_l0_b0", "fib_seq_l0_b0_l1_b0"]);
    let procs = flat.functions();
    // Nothing leaves the block: its caller runs no check.
    assert_eq!(procs[3].instructions()[4..6], [call_inst(4), Inst::LocalGet { local_idx: 1 }]);
    // The branch out of the loop leaves the loop only: the block checks, and goes on.
    assert_eq!(procs[4].instructions(), &[call_loop(5), Inst::Propagate, Inst::End]);
    assert_eq!(procs[5].instructions()[..3], [Inst::LocalGet { local_idx: 0 }, Inst::I32Eqz, Inst::SkipIfZero]);
    assert_eq!(procs[5].instructions()[3], Inst::SignalReturn { levels: 2 });
    assert_eq!(procs[5].instructions()[13..], [Inst::Recurse, Inst::End]);
    check(fib(), &[0], &[], &[0]);
    check(fib(), &[1], &[], &[1]);
    check(fib(), &[10], &[], &[55]);
}

#[test]
fn branch_from_a_block_inside_a_loop_enters_the_loop_again() {
    // Counts local 0 down from the input and writes every value on the way; the branch that
    // repeats the loop comes from a block inside it.
    let main = func(
        "count",
        0,
        1,
        vec![
            call(PUB_INPUT),
            set(0),
            constant(100),
            call(PUB_OUTPUT),
            loop_of(vec![
                get(0),
                call(PUB_OUTPUT),
                block(vec![
                    get(0),
                    eqz(),
                    br_if(0),
                    get(0),
                    constant(-1),
                    add(),
                    set(0),
                    br(1),
                ]),
                constant(-1),
                call(PUB_OUTPUT),
            ]),
            constant(200),
            call(PUB_OUTPUT),
        ],
    );
    let flat = check(module_of(vec![main]), &[3], &[], &[100, 3, 2, 1, 0, -1, 200]);
    let procs = flat.functions();
    assert_eq!(names(&flat)[3..], ["count", "count_l0_b0", "count_l0_b0_l1_b0"]);
    // The loop is called as a loop; the block inside it is followed by the check of a loop.
    assert_eq!(procs[3].instructions()[4], call_loop(4));
    assert_eq!(procs[4].instructions()[2..4], [call_inst(5), Inst::PropagateInLoop]);
    // A branch out of the block stores one more than the constructs it leaves besides.
    assert_eq!(procs[5].instructions()[2..4], [Inst::SkipIfZero, Inst::SignalReturn { levels: 1 }]);
    assert_eq!(procs[5].instructions()[8], Inst::SignalReturn { levels: 2 });
}

#[test]
fn return_from_inside_blocks_leaves_the_function() {
    let helper = func(
        "helper",
        1,
        0,
        vec![
            block(vec![
                loop_of(vec![
                    block(vec![get(0), br_if(1), constant(1), call(PUB_OUTPUT), ret()]),
                    constant(2),
                    call(PUB_OUTPUT),
                ]),
                constant(3),
                call(PUB_OUTPUT),
            ]),
            constant(4),
            call(PUB_OUTPUT),
        ],
    );
    let main = func(
        "main",
        0,
        0,
        vec![
            constant(0),
            call(3),
            block(vec![constant(5), call(PUB_OUTPUT), br(0), constant(6), call(PUB_OUTPUT)]),
            block(vec![block(vec![constant(0), br_if(1), constant(7), call(PUB_OUTPUT)]), constant(8), call(PUB_OUTPUT)]),
            constant(9),
            call(PUB_OUTPUT),
        ],
    );
    let flat = check(module_of(vec![helper, main]), &[], &[], &[1, 5, 7, 8, 9]);
    let procs = flat.functions();
    assert_eq!(
        names(&flat)[3..],
        [
            "helper",
            "main",
            "helper_l0_b0",
            "helper_l0_b0_l1_b0",
            "helper_l0_b0_l1_b0_l2_b0",
            "main_l0_b0",
            "main_l0_b1",
            "main_l0_b1_l1_b0",
        ]
    );
    // The return inside three constructs names all of them and the function: the function
    // itself checks after the call of its block.
    assert_eq!(procs[7].instructions()[5], Inst::SignalReturn { levels: 4 });
    assert_eq!(procs[3].instructions()[..2], [call_inst(5), Inst::Propagate]);
}

#[test]
fn blocks_are_counted_with_the_nested_ones() {
    assert_eq!(count_blocks_of(&Vec::new()), Some(0));
    let body = vec![constant(1), block(vec![loop_of(vec![block(Vec::new())]), br(0)]), loop_of(Vec::new())];
    assert_eq!(count_blocks_of(&body), Some(4));
    assert!(fits_numbering(&nested_block_br()));
    assert!(fits_numbering(&fib()));
}

#[test]
fn escape_analysis() {
    let inner = vec![constant(1), br(0), block(vec![br(1), br_if(0)])];
    assert!(!has_escape(&inner, 0));
    let leaves = vec![block(vec![br(1)]), br(1)];
    assert!(has_escape(&leaves, 0));
    assert!(!has_escape(&leaves, 1));
    let deep = vec![loop_of(vec![block(vec![br_if(3)])])];
    assert!(has_escape(&deep, 0));
    assert!(!has_escape(&deep, 1));
    assert!(has_escape(&vec![block(vec![ret()])], 40));
    assert!(!has_escape(&Vec::new(), 0));
}

#[test]
fn empty_block_becomes_a_procedure_that_returns() {
    let mut procs: Vec<Func> = Vec::new();
    let body = outline_ops(&vec![block(Vec::new()), loop_of(Vec::new())], Construct::Func, 0, "f", &mut procs);
    assert_eq!(body, vec![call_inst(0), call_loop(1)]);
    assert_eq!(procs.len(), 2);
    assert_eq!(procs[0].name(), "f_l0_b0");
    assert_eq!(procs[0].instructions(), &[Inst::End]);
    assert_eq!(procs[1].name(), "f_l0_b1");
    assert_eq!(procs[1].instructions(), &[Inst::End]);
}

#[test]
fn malformed_branch_stops_the_compilation() {
    let module = module_of(vec![
        func("fine", 0, 0, vec![block(vec![br(1)])]),
        func("main", 0, 0, vec![block(vec![loop_of(vec![br_if(3)])])]),
    ]);
    match outline_module(&module) {
        Err(e) => assert_eq!(e, CompilerError::MalformedBranch { depth: RelativeDepth(3), nesting: 2 }),
        Ok(_) => panic!("a module came out"),
    }
}

#[test]
fn module_without_start_function_is_refused() {
    let mut module = module_of(vec![func("main", 0, 0, vec![ret()])]);
    module.start_func_sym = None;
    assert!(matches!(outline_module(&module), Err(CompilerError::MissingStart)));
    module.start_func_sym = Some(sym("nobody"));
    assert!(matches!(outline_module(&module), Err(CompilerError::MissingStart)));
    module.func_syms.push(sym("surplus"));
    module.start_func_sym = Some(sym("surplus"));
    assert!(matches!(outline_module(&module), Err(CompilerError::MissingStart)));
    module.start_func_sym = Some(sym("main"));
    assert_eq!(outline_module(&module).unwrap().start_func_idx, FuncIndex(3));
    module.start_func_sym = Some(sym("c2zk_stdlib_pub_output"));
    assert_eq!(outline_module(&module).unwrap().start_func_idx, FuncIndex(1));
}

#[test]
fn outlining_twice_gives_the_same_module() {
    let first = outline_module(&nested_block_br()).unwrap();
    let second = outline_module(&nested_block_br()).unwrap();
    assert_eq!(first.start_func_idx, second.start_func_idx);
    assert_eq!(first.functions().len(), second.functions().len());
    for (a, b) in first.functions().iter().zip(second.functions().iter()) {
        assert_eq!(a.name(), b.name());
        assert_eq!(a.instructions(), b.instructions());
    }
}

#[test]
fn the_miden_backend_names_the_first_instruction_it_cannot_encode() {
    let flat = outline_module(&nested_block_br()).unwrap();
    match compile_module(flat, &MidenTargetConfig::default()) {
        Err(e) => assert_eq!(e, MidenError::Emit(EmitError::UnsupportedInstruction(Inst::I64Const { value: 7 }))),
        Ok(_) => panic!("a listing came out"),
    }
}

#[test]
fn a_module_of_supported_instructions_goes_through_both_stages() {
    let main = func(
        "main",
        0,
        0,
        vec![
            WasmOp::Constant(ConstantOp::new_i32_unlinked(1)),
            block(vec![WasmOp::Constant(ConstantOp::new_i32_unlinked(2)), WasmOp::Add(AddOp::new_unlinked(WasmType::I32))]),
            ret(),
        ],
    );
    let module = ModuleOp::new(Some(sym("main")), Vec::new(), vec![main], Vec::new(), Vec::new());
    let flat = outline_module(&module).unwrap();
    let listing = compile_module(flat, &MidenTargetConfig::default()).unwrap().pretty_print();
    assert_eq!(
        listing,
        "proc.main\npush.1\nexec.main_l0_b0\nend\nproc.main_l0_b0\npush.2\nadd\nend\nbegin\nexec.main\nend"
    );
}

/// A small generator of pseudo-random numbers: the same programs on every run.
struct Dice(u64);

impl Dice {
    fn roll(&mut self, sides: u32) -> u32 {
        self.0 = self.0.wrapping_mul(6364136223846793005).wrapping_add(1442695040888963407);
        ((self.0 >> 33) % sides as u64) as u32
    }
}

/// A body of operations that writes what it passes by: nested blocks and loops, branches of
/// every depth that the nesting allows, and returns. Every loop counts a local of its own
/// down at its head and leaves when that reaches zero, so every program ends.
fn random_body(dice: &mut Dice, nesting: u32, budget: &mut u32, locals: &mut u32, mark: &mut i64) -> Vec<WasmOp> {
    let mut ops = Vec::new();
    let len = 1 + dice.roll(5);
    for _ in 0..len {
        *mark += 1;
        ops.push(constant(*mark));
        ops.push(call(PUB_OUTPUT));
        let choice = dice.roll(12);
        if *budget == 0 || choice < 4 {
            continue;
        }
        *budget -= 1;
        match choice {
            4 | 5 => ops.push(block(random_body(dice, nesting + 1, budget, locals, mark))),
            6 | 7 => {
                let counter = *locals;
                *locals += 1;
                let mut body = vec![
                    get(counter),
                    eqz(),
                    br_if(1),
                    get(counter),
                    constant(-1),
                    add(),
                    set(counter),
                ];
                body.extend(random_body(dice, nesting + 2, budget, locals, mark));
                if dice.roll(2) == 0 {
                    body.push(br(0));
                }
                ops.push(constant(1 + dice.roll(3) as i64));
                ops.push(set(counter));
                ops.push(block(vec![loop_of(body)]));
            }
            8 => {
                ops.push(br(dice.roll(nesting + 1)));
            }
            9 | 10 => {
                ops.push(constant(dice.roll(2) as i64));
                ops.push(br_if(dice.roll(nesting + 1)));
            }
            _ => {
                if dice.roll(4) == 0 {
                    ops.push(ret());
                } else {
                    ops.push(constant(dice.roll(2) as i64));
                    ops.push(eqz());
                    ops.push(br_if(dice.roll(nesting + 1)));
                }
            }
        }
    }
    ops
}

#[test]
fn flat_programs_write_what_the_structured_ones_write() {
    let mut dice = Dice(2024);
    let mut with_checks = 0;
    let mut with_loops = 0;
    for _ in 0..300 {
        let mut helper_locals = 0;
        let mut main_locals = 0;
        let mut mark = 0;
        let mut budget = 6;
        let helper_body = random_body(&mut dice, 0, &mut budget, &mut helper_locals, &mut mark);
        let mut budget = 8;
        let mut main_body = random_body(&mut dice, 0, &mut budget, &mut main_locals, &mut mark);
        main_body.insert(0, call(3));
        main_body.push(call(3));
        main_body.push(constant(-1));
        main_body.push(call(PUB_OUTPUT));
        let module = module_of(vec![
            func("helper", 0, helper_locals as usize, helper_body),
            func("main", 0, main_locals as usize, main_body),
        ]);
        assert_eq!(module.verify(), Ok(()));

        let imports = module.import_func_types.len();
        let main = &module.functions[1];
        let mut reference = World::new(&[], &[]);
        let mut frame = vec![0; main.locals.len()];
        run_structured(&module, main.op_iter(), 0, &mut frame, &mut reference);

        let flat = outline_module(&module).unwrap();
        assert_eq!(flat.start_func_idx, FuncIndex(imports as u32 + 1));
        let mut w = World::new(&[], &[]);
        let mut frame = vec![0; main.locals.len()];
        let mut machine = Flat { source: &module, procs: flat.functions(), signal: 0 };
        machine.run(imports + 1, &mut frame, &mut w);
        assert_eq!(w.output, reference.output);
        assert!(machine.signal <= 1);

        let mut labels = names(&flat);
        let count = labels.len();
        labels.sort();
        labels.dedup();
        assert_eq!(labels.len(), count, "two procedures share a name");

        let all: Vec<&Inst> = flat.functions().iter().flat_map(|f| f.instructions().iter()).collect();
        if all.iter().any(|i| matches!(i, Inst::Propagate | Inst::PropagateInLoop)) {
            with_checks += 1;
        }
        if all.iter().any(|i| matches!(i, Inst::Recurse)) {
            with_loops += 1;
        }
    }
    assert!(with_checks > 100);
    assert!(with_loops > 50);
}
