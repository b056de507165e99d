use c2zk::types::{EntityIndex, FuncIndex, Global, GlobalInit, WasmFuncType, WasmType};

#[test]
fn wasm_type_names() {
    assert_eq!(WasmType::I32.to_string(), "i32");
    assert_eq!(WasmType::I64.to_string(), "i64");
    assert_eq!(WasmType::F32.to_string(), "f32");
    assert_eq!(WasmType::F64.to_string(), "f64");
    assert_eq!(WasmType::V128.to_string(), "v128");
    assert_eq!(WasmType::ExternRef.to_string(), "externref");
    assert_eq!(WasmType::FuncRef.to_string(), "funcref");
}

#[test]
fn func_type_counts_externrefs() {
    let ty = WasmFuncType::new(
        vec![WasmType::ExternRef, WasmType::I32, WasmType::ExternRef].into_boxed_slice(),
        vec![WasmType::I64, WasmType::ExternRef].into_boxed_slice(),
    );
    assert_eq!(ty.params(), &[WasmType::ExternRef, WasmType::I32, WasmType::ExternRef]);
    assert_eq!(ty.results(), &[WasmType::I64, WasmType::ExternRef]);
    assert_eq!(ty.externref_params_count(), 2);
    assert_eq!(ty.externref_returns_count(), 1);
    let copy = ty.clone();
    assert_eq!(copy, ty);
}

#[test]
fn func_type_of_nothing() {
    let ty = WasmFuncType::new(Vec::new().into_boxed_slice(), Vec::new().into_boxed_slice());
    assert!(ty.params().is_empty());
    assert!(ty.results().is_empty());
    assert_eq!(ty.externref_params_count(), 0);
    assert_eq!(ty.externref_returns_count(), 0);
}

#[test]
fn indices_wrap_their_number() {
    let idx = FuncIndex::from(7);
    assert_eq!(idx, FuncIndex(7));
    assert_eq!(EntityIndex::from(idx), EntityIndex::Function(FuncIndex(7)));
}

#[test]
fn global_keeps_its_parts() {
    let g = Global::new(WasmType::I32, true, GlobalInit::I32Const(5));
    assert_eq!(g.wasm_ty, WasmType::I32);
    assert!(g.mutability);
    assert_eq!(g.initializer, GlobalInit::I32Const(5));
}
