use c2zk::ops::{
    AddOp, BlockOp, CallOp, CallSymOp, CompilerError, ConstValue, ConstantOp, ExtOp, FuncOp,
    FuncSym, LocalGetOp, LocalSetOp, LocalTeeOp, LoopOp, ModuleOp, Operands, ReturnOp, ValidaOp,
    WasmOp,
};
use c2zk::stack_depth::{StackDepth, WasmTrackStackDepthPass};
use c2zk::types::{FuncIndex, WasmFuncType, WasmType};
use c2zk::valida::{
    convert_call_ops, convert_func, convert_func_arg_and_locals, convert_return_ops, count_ops,
    fp_from_wasm_stack, ops_fit, replace_op, valida_op_to_string, Conversions, FramePointer,
    FuncOpLowering, WasmToValidaFuncLoweringPass,
};

fn ty(params: usize, results: usize) -> WasmFuncType {
    WasmFuncType::new(
        vec![WasmType::I32; params].into_boxed_slice(),
        vec![WasmType::I32; results].into_boxed_slice(),
    )
}

fn constant(v: i32) -> WasmOp {
    WasmOp::Constant(ConstantOp::new_i32_unlinked(v))
}

fn local_get(i: u32) -> WasmOp {
    WasmOp::LocalGet(LocalGetOp::new_unlinked(i))
}

fn local_set(i: u32) -> WasmOp {
    WasmOp::LocalSet(LocalSetOp::new_unlinked(i))
}

fn ret() -> WasmOp {
    WasmOp::Return(ReturnOp::new_unlinked())
}

fn add_func() -> FuncOp {
    FuncOp::new_unlinked_with_block(
        FuncSym::from(String::from("add")),
        ty(2, 1),
        vec![local_get(0), local_get(1), WasmOp::Add(AddOp::new_unlinked(WasmType::I32)), ret()],
        Vec::new(),
    )
}

fn main_func() -> FuncOp {
    FuncOp::new_unlinked_with_block(
        FuncSym::from(String::from("main")),
        ty(0, 0),
        vec![constant(3), constant(4), WasmOp::Call(CallOp::new_unlinked(FuncIndex(0))), ret()],
        Vec::new(),
    )
}

/// One line for each operation: the text of an instruction of the
/// frame-pointer machine, or the name of the operation that stayed.
fn lines(ops: &[WasmOp]) -> Vec<String> {
    ops.iter()
        .map(|op| match op {
            WasmOp::Ext(ExtOp::Valida(v)) => valida_op_to_string(v),
            WasmOp::Add(_) => String::from("wasm.add"),
            WasmOp::Constant(c) => match c.value {
                ConstValue::I32(v) => format!("wasm.const 0x{:x}: si32", v),
                ConstValue::I64(v) => format!("wasm.const 0x{:x}: si64", v),
            },
            WasmOp::Call(c) => format!("wasm.call {}", c.func_index.0),
            WasmOp::Block(_) => String::from("wasm.block"),
            _ => String::from("?"),
        })
        .collect()
}

#[test]
fn func_op_lowering() {
    let track = WasmTrackStackDepthPass::new_reserve_space_for_locals();
    let module = ModuleOp::new(
        Some(FuncSym::from(String::from("main"))),
        Vec::new(),
        vec![add_func(), main_func()],
        Vec::new(),
        Vec::new(),
    );
    let depths: Vec<Vec<StackDepth>> =
        module.functions.iter().map(|f| track.run_on_function(f, &[])).collect();
    let lowered = WasmToValidaFuncLoweringPass::default().run_on_operation(module, &depths).unwrap();
    assert_eq!(lowered.functions.len(), 2);
    assert_eq!(lowered.functions[0].get_symbol_name(), "add");
    assert_eq!(
        lines(lowered.functions[0].op_iter()),
        vec![
            "valida.sw 0 -4(fp) 12(fp) 0 0",
            "valida.sw 0 -8(fp) 16(fp) 0 0",
            "wasm.add",
            "valida.sw 0 16(fp) -4(fp) 0 0",
            "valida.jalv -4(fp) 0(fp) 4(fp) 0 0",
        ]
    );
    assert_eq!(lowered.functions[1].get_symbol_name(), "main");
    assert_eq!(
        lines(lowered.functions[1].op_iter()),
        vec![
            "wasm.const 0x3: si32",
            "wasm.const 0x4: si32",
            "wasm.call 0",
            "valida.sw 0 8(fp) -8(fp) 0 0",
            "valida.jalv -4(fp) 0(fp) 4(fp) 0 0",
        ]
    );
}

#[test]
fn smoke_local_var_access() {
    let func = FuncOp::new_unlinked_with_block(
        FuncSym::from(String::from("main")),
        ty(0, 0),
        vec![constant(3), constant(7), local_set(0), local_get(0), ret()],
        vec![WasmType::I32],
    );
    let depths = WasmTrackStackDepthPass::new_reserve_space_for_locals().run_on_function(&func, &[]);
    let arith = Conversions { args_and_locals: false, returns: false, calls: false, constants: true };
    let func = convert_func(func, &depths, arith).unwrap();
    let func = FuncOpLowering::default().match_and_rewrite(func, &depths).unwrap();
    assert_eq!(func.get_symbol_name(), "main");
    assert_eq!(
        lines(func.op_iter()),
        vec![
            "valida.imm32 -8(fp) 0 0 0 3",
            "valida.imm32 -12(fp) 0 0 0 7",
            "valida.sw 0 -4(fp) -12(fp) 0 0",
            "valida.sw 0 -12(fp) -4(fp) 0 0",
            "valida.sw 0 8(fp) -12(fp) 0 0",
            "valida.jalv -4(fp) 0(fp) 4(fp) 0 0",
        ]
    );
}

#[test]
fn a_tee_copies_the_top_cell_into_the_local() {
    let all = Conversions { args_and_locals: true, returns: true, calls: true, constants: true };
    let tee = WasmOp::LocalTee(LocalTeeOp::new_unlinked(2));
    let out = replace_op(&tee, Some(StackDepth(5)), 0, all).unwrap();
    assert_eq!(out, vec![ValidaOp::Sw(Operands { a: 0, b: -12, c: -20, d: 0, e: 0 })]);
    let set = WasmOp::LocalSet(LocalSetOp::new_unlinked(2));
    assert_eq!(replace_op(&set, Some(StackDepth(5)), 0, all).unwrap(), out);
}

#[test]
fn frame_pointer_of_a_stack_height() {
    assert_eq!(fp_from_wasm_stack(StackDepth(0)), Some(FramePointer(0)));
    assert_eq!(fp_from_wasm_stack(StackDepth(1)), Some(FramePointer(-4)));
    assert_eq!(fp_from_wasm_stack(StackDepth(3)), Some(FramePointer(-12)));
    assert_eq!(fp_from_wasm_stack(StackDepth(536870912)), Some(FramePointer(i32::MIN)));
    assert_eq!(fp_from_wasm_stack(StackDepth(536870913)), None);
}

#[test]
fn a_call_by_symbol_sets_up_the_frame_and_jumps() {
    let all = Conversions { args_and_locals: true, returns: true, calls: true, constants: true };
    let call = WasmOp::CallSym(CallSymOp::new_unlinked(FuncIndex(7), FuncSym::from(String::from("g"))));
    // Two operands on the stack: the topmost cell is -8(fp), the frame of the callee starts at -20.
    let out = replace_op(&call, Some(StackDepth(2)), 0, all).unwrap();
    assert_eq!(
        out,
        vec![
            ValidaOp::Imm32(Operands { a: -16, b: 0, c: 0, d: 0, e: 20 }),
            ValidaOp::JalSym { a: -20, b: -20, func_index: FuncIndex(7) },
        ]
    );
    assert_eq!(valida_op_to_string(&out[0]), "valida.imm32 -16(fp) 0 0 0 20");
    assert_eq!(valida_op_to_string(&out[1]), "valida.jalsym -20(fp) -20(fp) 7");
}

#[test]
fn each_pass_replaces_its_own_operations_only() {
    // One argument and one declared local: local 0 is the argument, local 1 the declared one.
    let body = || {
        FuncOp::new_unlinked_with_block(
            FuncSym::from(String::from("f")),
            ty(1, 0),
            vec![
                local_get(0),
                local_get(1),
                local_set(1),
                WasmOp::CallSym(CallSymOp::new_unlinked(FuncIndex(0), FuncSym::from(String::from("f")))),
                ret(),
            ],
            vec![WasmType::I32],
        )
    };
    let depths: Vec<StackDepth> = [0u32, 1, 2, 1, 1].iter().map(|d| StackDepth(*d)).collect();
    let kinds = |f: &FuncOp| -> Vec<bool> {
        f.op_iter().iter().map(|op| matches!(op, WasmOp::Ext(_))).collect()
    };
    let locals = convert_func_arg_and_locals(body(), &depths).unwrap();
    assert_eq!(kinds(&locals), vec![true, true, true, false, false]);
    assert_eq!(
        lines(&locals.op_iter()[..3]),
        vec![
            "valida.sw 0 -4(fp) 12(fp) 0 0",
            "valida.sw 0 -8(fp) -4(fp) 0 0",
            "valida.sw 0 -4(fp) -8(fp) 0 0",
        ]
    );
    let returns = convert_return_ops(body(), &depths).unwrap();
    assert_eq!(kinds(&returns), vec![false, false, false, false, true, true]);
    assert_eq!(lines(&returns.op_iter()[4..]), vec!["valida.sw 0 12(fp) -4(fp) 0 0", "valida.jalv -4(fp) 0(fp) 4(fp) 0 0"]);
    let calls = convert_call_ops(body(), &depths).unwrap();
    assert_eq!(kinds(&calls), vec![false, false, false, true, true, false]);
    assert_eq!(lines(&calls.op_iter()[3..5]), vec!["valida.imm32 -12(fp) 0 0 0 16", "valida.jalsym -16(fp) -16(fp) 0"]);
}

#[test]
fn a_local_is_read_from_the_cell_it_was_written_to() {
    let all = Conversions { args_and_locals: true, returns: true, calls: true, constants: true };
    let written = |op: &WasmOp, depth: u32, n_params: usize| match replace_op(op, Some(StackDepth(depth)), n_params, all).unwrap()[..] {
        [ValidaOp::Sw(o)] => o.b,
        _ => panic!("not one move"),
    };
    let read = |op: &WasmOp, depth: u32, n_params: usize| match replace_op(op, Some(StackDepth(depth)), n_params, all).unwrap()[..] {
        [ValidaOp::Sw(o)] => o.c,
        _ => panic!("not one move"),
    };
    // Two arguments, then declared locals: indices 0 and 1 are arguments, 2 and 3 declared.
    let cells = [12, 16, -4, -8];
    for (index, cell) in cells.iter().enumerate() {
        let index = index as u32;
        assert_eq!(written(&local_set(index), 7, 2), *cell);
        assert_eq!(written(&WasmOp::LocalTee(LocalTeeOp::new_unlinked(index)), 3, 2), *cell);
        assert_eq!(read(&local_get(index), 5, 2), *cell);
    }
    // With one argument and one declared local reserved on the stack, the first operand lies
    // below the local and the read of the local does not take the operand's cell.
    let out = replace_op(&local_get(1), Some(StackDepth(1)), 1, all).unwrap();
    assert_eq!(out, vec![ValidaOp::Sw(Operands { a: 0, b: -8, c: -4, d: 0, e: 0 })]);
}

#[test]
fn bodies_of_blocks_are_lowered_with_their_own_heights() {
    let mut block = BlockOp::new_unlinked(ty(0, 0));
    block.append_operation(local_get(0));
    block.append_operation(ret());
    let func = FuncOp::new_unlinked_with_block(
        FuncSym::from(String::from("f")),
        ty(0, 0),
        vec![constant(1), WasmOp::Block(block), local_get(0)],
        vec![WasmType::I32],
    );
    let depths = WasmTrackStackDepthPass::new().run_on_function(&func, &[]);
    assert_eq!(depths, [0u32, 1, 1, 2, 1].iter().map(|d| StackDepth(*d)).collect::<Vec<_>>());
    let lowered = FuncOpLowering::default().match_and_rewrite(func, &depths).unwrap();
    assert_eq!(lines(lowered.op_iter()), vec!["wasm.const 0x1: si32", "wasm.block", "valida.sw 0 -8(fp) -4(fp) 0 0"]);
    match &lowered.op_iter()[1] {
        WasmOp::Block(b) => assert_eq!(
            lines(b.op_iter()),
            vec![
                "valida.sw 0 -8(fp) -4(fp) 0 0",
                "valida.sw 0 8(fp) -8(fp) 0 0",
                "valida.jalv -4(fp) 0(fp) 4(fp) 0 0",
            ]
        ),
        _ => panic!("the block is gone"),
    }
}

#[test]
fn an_operation_that_is_not_asked_for_or_cannot_be_placed_has_no_replacement() {
    let all = Conversions { args_and_locals: true, returns: true, calls: true, constants: true };
    assert!(replace_op(&local_get(0), None, 0, all).is_none());
    assert!(replace_op(&local_get(0), Some(StackDepth(536870912)), 0, all).is_none());
    assert!(replace_op(&local_get(536870912), Some(StackDepth(0)), 0, all).is_none());
    assert!(replace_op(&local_get(536870911), Some(StackDepth(0)), 0, all).is_some());
    assert!(replace_op(&local_get(536870912), Some(StackDepth(0)), 1, all).is_some());
    assert!(replace_op(&ret(), Some(StackDepth(0)), 0x2000_0000, all).is_none());
    let none = Conversions { args_and_locals: false, returns: false, calls: false, constants: false };
    assert!(replace_op(&local_get(0), Some(StackDepth(0)), 0, none).is_none());
    assert!(replace_op(&WasmOp::Add(AddOp::new_unlinked(WasmType::I32)), Some(StackDepth(2)), 0, all).is_none());
}

fn two_ops() -> FuncOp {
    FuncOp::new_unlinked_with_block(
        FuncSym::from(String::from("f")),
        ty(0, 0),
        vec![WasmOp::Add(AddOp::new_unlinked(WasmType::I32)), local_get(0), ret()],
        Vec::new(),
    )
}

#[test]
fn a_missing_height_stops_the_lowering() {
    let lowering = FuncOpLowering::default();
    // The addition is not lowered and needs no height; the read is the operation number 1.
    assert!(matches!(
        lowering.match_and_rewrite(two_ops(), &[]),
        Err(CompilerError::MissingHeight { operation: 1 })
    ));
    assert!(matches!(
        lowering.match_and_rewrite(two_ops(), &[StackDepth(2), StackDepth(1)]),
        Err(CompilerError::MissingHeight { operation: 2 })
    ));
    let heights = [StackDepth(2), StackDepth(1), StackDepth(2)];
    let lowered = lowering.match_and_rewrite(two_ops(), &heights).unwrap();
    assert_eq!(
        lines(lowered.op_iter()),
        vec![
            "wasm.add",
            "valida.sw 0 -8(fp) -4(fp) 0 0",
            "valida.sw 0 8(fp) -8(fp) 0 0",
            "valida.jalv -4(fp) 0(fp) 4(fp) 0 0",
        ]
    );
    // What no pass asks for stays, with or without a height.
    assert_eq!(convert_call_ops(two_ops(), &[]).unwrap().op_iter().len(), 3);
}

#[test]
fn a_cell_out_of_range_stops_the_lowering() {
    let heights = [StackDepth(2), StackDepth(536870912), StackDepth(2)];
    assert!(matches!(
        FuncOpLowering::default().match_and_rewrite(two_ops(), &heights),
        Err(CompilerError::SlotOutOfRange { operation: 1 })
    ));
    // Inside a block the operations are numbered on: block 0, its read 1, its return 2.
    let mut block = BlockOp::new_unlinked(ty(0, 0));
    block.append_operation(local_get(0));
    block.append_operation(ret());
    let func = FuncOp::new_unlinked_with_block(
        FuncSym::from(String::from("f")),
        ty(0, 0),
        vec![WasmOp::Block(block), local_get(0)],
        Vec::new(),
    );
    let heights = [StackDepth(0), StackDepth(0), StackDepth(536870913), StackDepth(0)];
    assert!(matches!(
        convert_return_ops(func, &heights),
        Err(CompilerError::SlotOutOfRange { operation: 2 })
    ));
}

#[test]
fn the_module_lowering_reports_the_first_function_that_fails() {
    let module = ModuleOp::new(None, Vec::new(), vec![add_func(), two_ops(), main_func()], Vec::new(), Vec::new());
    let track = WasmTrackStackDepthPass::new();
    let mut depths: Vec<Vec<StackDepth>> =
        module.functions.iter().map(|f| track.run_on_function(f, &[])).collect();
    depths[1].truncate(1);
    depths[2].clear();
    assert!(ops_fit(&module));
    assert!(matches!(
        WasmToValidaFuncLoweringPass::default().run_on_operation(module, &depths),
        Err(CompilerError::MissingHeight { operation: 1 })
    ));
}

#[test]
fn operations_are_counted_with_their_nested_bodies() {
    assert_eq!(count_ops(&Vec::new()), Some(0));
    let mut inner = LoopOp::new_unlinked(ty(0, 0));
    inner.append_operation(ret());
    let mut outer = BlockOp::new_unlinked(ty(0, 0));
    outer.append_operation(constant(1));
    outer.append_operation(WasmOp::Loop(inner));
    let body = vec![constant(0), WasmOp::Block(outer), ret()];
    assert_eq!(count_ops(&body), Some(6));
    let heights = WasmTrackStackDepthPass::new().run_on_function(
        &FuncOp::new_unlinked_with_block(FuncSym::from(String::from("f")), ty(0, 0), body, Vec::new()),
        &[],
    );
    assert_eq!(heights.len(), 6);
}
