use c2zk::ir::{Func, Inst, MemAccessOpValueType, Module};
use c2zk::text::{decimal_i64, decimal_u64};
use c2zk::types::FuncIndex;

fn func(name: &str, value: i32) -> Func {
    Func::new(String::from(name), vec![Inst::I32Const { value }, Inst::End])
}

#[test]
fn module_keeps_functions_in_order() {
    let module = Module::new(vec![func("a", 1), func("b", 2)], FuncIndex(1));
    assert_eq!(module.start_func_idx, FuncIndex(1));
    assert_eq!(module.start_func_idx(), FuncIndex(1));
    assert_eq!(module.functions().len(), 2);
    assert_eq!(module.functions()[0].name(), "a");
    assert_eq!(module.functions()[1].name(), "b");
    assert_eq!(module.functions()[1].instructions(), &[Inst::I32Const { value: 2 }, Inst::End]);
    let all = module.into_functions();
    assert_eq!(all.len(), 2);
    assert_eq!(all[0].name, "a");
}

#[test]
fn function_by_index() {
    let module = Module::new(vec![func("a", 1), func("b", 2)], FuncIndex(0));
    assert_eq!(module.function(1).map(|f| f.name()), Some("b"));
    assert!(module.function(2).is_none());
    assert!(module.function(u32::MAX).is_none());
}

#[test]
fn push_function_returns_the_new_index() {
    let mut module = Module::new(vec![func("a", 1)], FuncIndex(0));
    assert_eq!(module.push_function(func("b", 2)), FuncIndex(1));
    assert_eq!(module.push_function(func("c", 3)), FuncIndex(2));
    assert_eq!(module.functions().len(), 3);
    assert_eq!(module.functions()[2].name(), "c");
    assert_eq!(module.start_func_idx, FuncIndex(0));
}

#[test]
fn set_function_replaces_one() {
    let mut module = Module::new(vec![func("a", 1), func("b", 2)], FuncIndex(0));
    module.set_function(0, func("z", 26));
    assert_eq!(module.functions()[0].name(), "z");
    assert_eq!(module.functions()[1].name(), "b");
    assert_eq!(module.functions().len(), 2);
}

#[test]
fn functions_mut_gives_write_access() {
    let mut module = Module::new(vec![func("a", 1), func("b", 2)], FuncIndex(0));
    module.functions_mut()[1] = func("y", 25);
    assert_eq!(module.functions()[1].name(), "y");
    assert_eq!(module.functions()[0].name(), "a");
}

#[test]
fn func_names_by_index() {
    let module = Module::new(vec![func("a", 1), func("b", 2)], FuncIndex(0));
    let names = module.func_names();
    assert_eq!(names.len(), 2);
    assert_eq!(names.get(&0).map(|s| s.as_str()), Some("a"));
    assert_eq!(names.get(&1).map(|s| s.as_str()), Some("b"));
    assert!(names.get(&2).is_none());
}

#[test]
fn decimal_rendering() {
    assert_eq!(decimal_u64(0), "0");
    assert_eq!(decimal_u64(7), "7");
    assert_eq!(decimal_u64(10), "10");
    assert_eq!(decimal_u64(1234567890), "1234567890");
    assert_eq!(decimal_u64(u64::MAX), "18446744073709551615");
    assert_eq!(decimal_i64(0), "0");
    assert_eq!(decimal_i64(-1), "-1");
    assert_eq!(decimal_i64(-120), "-120");
    assert_eq!(decimal_i64(i64::MAX), "9223372036854775807");
    assert_eq!(decimal_i64(i64::MIN), "-9223372036854775808");
}

#[test]
fn access_width_names() {
    assert_eq!(MemAccessOpValueType::I32.to_string(), "I32");
    assert_eq!(MemAccessOpValueType::I64.to_string(), "I64");
}
