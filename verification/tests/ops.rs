use c2zk::ir::MemAccessOpValueType;
use c2zk::ops::{
    check_branches, AddOp, BlockOp, BrIfOp, BrOp, CallOp, CallSymOp, CompilerError, ConstValue,
    ConstantOp, FuncOp, FuncSym, GlobalGetOp, GlobalSetOp, I32EqzOp, LoadOp, LocalGetOp,
    LocalSetOp, LocalTeeOp, LoopOp, ModuleOp, ReturnOp, StoreOp, WasmOp,
};
use c2zk::types::{FuncIndex, GlobalIndex, LocalIndex, RelativeDepth, WasmFuncType, WasmType};

fn sym(name: &str) -> FuncSym {
    FuncSym::from(String::from(name))
}

fn no_type() -> WasmFuncType {
    WasmFuncType::new(Vec::new().into_boxed_slice(), Vec::new().into_boxed_slice())
}

fn block(body: Vec<WasmOp>) -> WasmOp {
    let mut b = BlockOp::new_unlinked(no_type());
    for op in body {
        b.append_operation(op);
    }
    WasmOp::Block(b)
}

fn loop_of(body: Vec<WasmOp>) -> WasmOp {
    let mut l = LoopOp::new_unlinked(no_type());
    for op in body {
        l.append_operation(op);
    }
    WasmOp::Loop(l)
}

fn br(depth: u32) -> WasmOp {
    WasmOp::Br(BrOp::new_unlinked(RelativeDepth(depth)))
}

fn br_if(depth: u32) -> WasmOp {
    WasmOp::BrIf(BrIfOp::new_unlinked(RelativeDepth(depth)))
}

fn func(name: &str, body: Vec<WasmOp>) -> FuncOp {
    FuncOp::new_unlinked_with_block(sym(name), no_type(), body, Vec::new())
}

#[test]
fn leaf_operations_keep_what_they_were_made_of() {
    assert_eq!(ConstantOp::new_i32_unlinked(-3).get_value(), ConstValue::I32(-3));
    assert_eq!(ConstantOp::new_unlinked(ConstValue::I64(1 << 40)).get_value(), ConstValue::I64(1 << 40));
    assert_eq!(AddOp::new_unlinked(WasmType::I64).get_type(), WasmType::I64);
    assert_eq!(CallOp::new_unlinked(FuncIndex(5)).get_func_index(), FuncIndex(5));
    let call = CallSymOp::new_unlinked(FuncIndex(2), sym("callee"));
    assert_eq!(call.get_func_index(), FuncIndex(2));
    assert_eq!(call.get_func_sym().as_str(), "callee");
    assert_eq!(LocalGetOp::new_unlinked(4).get_index(), LocalIndex(4));
    assert_eq!(LocalGetOp::new_unlinked(4).get_index_as_attr(), 4);
    assert_eq!(LocalSetOp::new_unlinked(6).get_index(), LocalIndex(6));
    assert_eq!(LocalSetOp::new_unlinked(6).get_index_attr(), 6);
    assert_eq!(LocalTeeOp::new_unlinked(8).get_index(), LocalIndex(8));
    assert_eq!(GlobalSetOp::new_unlinked(GlobalIndex(1)).get_index(), GlobalIndex(1));
    assert_eq!(GlobalGetOp::new_unlinked(9).get_index(), GlobalIndex(9));
    assert_eq!(StoreOp::new_unlinked(MemAccessOpValueType::I64).get_value_type(), MemAccessOpValueType::I64);
    assert_eq!(LoadOp::new_unlinked(MemAccessOpValueType::I32).get_value_type(), MemAccessOpValueType::I32);
    assert_eq!(BrOp::new_unlinked(RelativeDepth(3)).get_relative_depth(), RelativeDepth(3));
    assert_eq!(BrIfOp::new_unlinked(RelativeDepth(0)).get_relative_depth(), RelativeDepth(0));
    let _ = ReturnOp::new_unlinked();
    let _ = I32EqzOp::new_unlinked();
}

#[test]
fn block_and_loop_own_their_body() {
    let mut b = BlockOp::new_unlinked(no_type());
    assert!(b.op_iter().is_empty());
    b.append_operation(br(0));
    b.append_operation(WasmOp::Return(ReturnOp::new_unlinked()));
    assert_eq!(b.op_iter().len(), 2);
    assert_eq!(b.get_block().len(), 2);
    assert!(matches!(b.op_iter()[0], WasmOp::Br(_)));
    assert!(b.get_type().params().is_empty());
    let mut l = LoopOp::new_unlinked(no_type());
    l.append_operation(br_if(1));
    assert_eq!(l.op_iter().len(), 1);
    assert_eq!(l.get_block().len(), 1);
    assert!(l.get_type().results().is_empty());
}

#[test]
fn function_keeps_its_parts() {
    let ty = WasmFuncType::new(
        vec![WasmType::I32, WasmType::I64].into_boxed_slice(),
        vec![WasmType::I32].into_boxed_slice(),
    );
    let f = FuncOp::new_unlinked_with_block(
        sym("add"),
        ty,
        vec![WasmOp::Add(AddOp::new_unlinked(WasmType::I32))],
        vec![WasmType::I64],
    );
    assert_eq!(f.get_symbol_name(), "add");
    assert_eq!(f.get_type().params(), &[WasmType::I32, WasmType::I64]);
    assert_eq!(f.get_type_attr().results(), &[WasmType::I32]);
    assert_eq!(f.get_locals(), vec![WasmType::I64]);
    assert_eq!(f.get_entry_block().len(), 1);
    assert_eq!(f.op_iter().len(), 1);
}

#[test]
fn module_numbers_functions_behind_the_given_symbols() {
    let module = ModuleOp::new(
        Some(sym("main")),
        vec![sym("imp_a"), sym("imp_b")],
        vec![func("helper", Vec::new()), func("main", Vec::new())],
        vec![no_type(), no_type()],
        vec![String::from("env"), String::from("env")],
    );
    assert_eq!(module.get_start_func_sym().map(|s| s.name), Some(String::from("main")));
    assert_eq!(module.get_func_sym(FuncIndex(0)).map(|s| s.name), Some(String::from("imp_a")));
    assert_eq!(module.get_func_sym(FuncIndex(2)).map(|s| s.name), Some(String::from("helper")));
    assert_eq!(module.get_func_sym(FuncIndex(3)).map(|s| s.name), Some(String::from("main")));
    assert!(module.get_func_sym(FuncIndex(4)).is_none());
    assert_eq!(module.get_func_index(sym("imp_b")), Some(FuncIndex(1)));
    assert_eq!(module.get_func_index(sym("main")), Some(FuncIndex(3)));
    assert_eq!(module.get_func_index(sym("nobody")), None);
    assert_eq!(module.get_func(&sym("helper")).map(|f| f.get_symbol_name()), Some("helper"));
    assert!(module.get_func(&sym("imp_a")).is_none());
}

#[test]
fn append_function_returns_the_index_of_the_symbol() {
    let mut module = ModuleOp::new(None, vec![sym("imp")], Vec::new(), vec![no_type()], vec![String::from("env")]);
    assert!(module.get_start_func_sym().is_none());
    assert_eq!(module.append_function(func("first", Vec::new())), FuncIndex(1));
    assert_eq!(module.append_function(func("second", Vec::new())), FuncIndex(2));
    assert_eq!(module.functions.len(), 2);
    assert_eq!(module.get_func_index(sym("second")), Some(FuncIndex(2)));
}

#[test]
fn get_func_index_takes_the_first_of_equal_symbols() {
    let module = ModuleOp::new(
        None,
        vec![sym("twice"), sym("twice")],
        vec![func("twice", Vec::new())],
        Vec::new(),
        Vec::new(),
    );
    assert_eq!(module.get_func_index(sym("twice")), Some(FuncIndex(0)));
}

#[test]
fn branch_to_an_enclosing_construct_is_accepted() {
    let body = vec![block(vec![loop_of(vec![br(0), br_if(1), br(2)]), br(1)]), br(0)];
    assert_eq!(check_branches(&body, 0), Ok(()));
    assert_eq!(func("f", body).verify(), Ok(()));
}

#[test]
fn branch_past_the_function_is_malformed() {
    let body = vec![block(vec![br(1), loop_of(vec![br_if(3)]), br(9)])];
    assert_eq!(
        func("f", body).verify(),
        Err(CompilerError::MalformedBranch { depth: RelativeDepth(3), nesting: 2 })
    );
    let body = vec![br(1)];
    assert_eq!(
        check_branches(&body, 0),
        Err(CompilerError::MalformedBranch { depth: RelativeDepth(1), nesting: 0 })
    );
    assert_eq!(check_branches(&body, 1), Ok(()));
}

#[test]
fn block_and_loop_check_their_own_body() {
    let mut b = BlockOp::new_unlinked(no_type());
    b.append_operation(br(1));
    b.append_operation(br_if(2));
    assert_eq!(b.verify(1), Ok(()));
    assert_eq!(b.verify(0), Err(CompilerError::MalformedBranch { depth: RelativeDepth(2), nesting: 1 }));
    let mut l = LoopOp::new_unlinked(no_type());
    l.append_operation(block(vec![br(3)]));
    assert_eq!(l.verify(1), Ok(()));
    assert_eq!(l.verify(0), Err(CompilerError::MalformedBranch { depth: RelativeDepth(3), nesting: 2 }));
    assert_eq!(l.verify(u32::MAX), Ok(()));
}

#[test]
fn module_reports_the_first_malformed_function() {
    let module = ModuleOp::new(
        None,
        Vec::new(),
        vec![
            func("good", vec![block(vec![br(1)])]),
            func("bad", vec![block(vec![br_if(2)])]),
            func("worse", vec![br(7)]),
        ],
        Vec::new(),
        Vec::new(),
    );
    assert_eq!(
        module.verify(),
        Err(CompilerError::MalformedBranch { depth: RelativeDepth(2), nesting: 1 })
    );
    let fine = ModuleOp::new(None, Vec::new(), vec![func("good", vec![br(0)])], Vec::new(), Vec::new());
    assert_eq!(fine.verify(), Ok(()));
}
