use std::collections::HashMap;

use c2zk::ir::{Ext, Func, Inst, MemAccessOpValueType, MidenExt, Module};
use c2zk::miden::{
    compile_function, compile_module, emit_inst, func_index_to_label, EmitError, InstBuffer,
    MidenAssemblyBuilder, MidenError, MidenTargetConfig,
};
use c2zk::types::FuncIndex;

fn check(module: Module, expected: &str) {
    let config = MidenTargetConfig::default();
    let inst_buf = compile_module(module, &config).unwrap();
    let out_source = inst_buf.pretty_print();
    assert_eq!(out_source, expected);
}

#[test]
fn test_smoke() {
    // (module (start $f1) (func $f1 i32.const 1 return))
    let f1 = Func::new(
        String::from("f1"),
        vec![Inst::I32Const { value: 1 }, Inst::Return, Inst::End],
    );
    let module = Module::new(vec![f1], FuncIndex::from(0));
    check(module, "proc.f1\npush.1\nend\nbegin\nexec.f1\nend");
}

#[test]
fn listing_of_two_procedures_calls_by_name() {
    let helper = Func::new(
        String::from("helper"),
        vec![Inst::I32Const { value: -7 }, Inst::Dup { idx: 0 }, Inst::I32Add, Inst::End],
    );
    let main = Func::new(
        String::from("main"),
        vec![
            Inst::Call { func_idx: FuncIndex(0) },
            Inst::Swap { idx: 12 },
            Inst::Ext(Ext::Miden(MidenExt::SDepth)),
            Inst::Ext(Ext::Miden(MidenExt::While)),
            Inst::Ext(Ext::Miden(MidenExt::End)),
            Inst::End,
        ],
    );
    let module = Module::new(vec![helper, main], FuncIndex::from(1));
    check(
        module,
        "proc.helper\npush.-7\ndup.0\nadd\nend\nproc.main\nexec.helper\nswap.12\nsdepth\nwhile.true\nend\nend\nbegin\nexec.main\nend",
    );
}

#[test]
fn empty_module_is_only_the_program_body() {
    let module = Module::new(Vec::new(), FuncIndex::from(3));
    check(module, "begin\nexec.f3\nend");
}

#[test]
fn label_falls_back_to_the_index() {
    let mut names: HashMap<u32, String> = HashMap::new();
    names.insert(2, String::from("two"));
    assert_eq!(func_index_to_label(FuncIndex(2), &names), "two");
    assert_eq!(func_index_to_label(FuncIndex(0), &names), "f0");
    assert_eq!(func_index_to_label(FuncIndex(4294967295), &names), "f4294967295");
}

#[test]
fn return_emits_no_line() {
    let config = MidenTargetConfig::default();
    let names: HashMap<u32, String> = HashMap::new();
    let mut sink = InstBuffer::new(&config);
    assert!(emit_inst(&Inst::Return, &config, &mut sink, &names).is_ok());
    assert_eq!(sink.len(), 0);
    assert_eq!(sink.pretty_print(), "");
}

#[test]
fn unsupported_instruction_is_named_and_nothing_is_emitted() {
    let config = MidenTargetConfig::default();
    let names: HashMap<u32, String> = HashMap::new();
    let unsupported = [
        Inst::Nop,
        Inst::CallLoop { func_idx: FuncIndex(0) },
        Inst::I64Const { value: 5 },
        Inst::I64Add,
        Inst::I32Eqz,
        Inst::LocalGet { local_idx: 0 },
        Inst::LocalSet { local_idx: 1 },
        Inst::LocalTee { local_idx: 2 },
        Inst::GlobalGet { global_idx: 0 },
        Inst::GlobalSet { global_idx: 0 },
        Inst::Load { ty: MemAccessOpValueType::I32 },
        Inst::Store { ty: MemAccessOpValueType::I64 },
        Inst::Recurse,
        Inst::SkipIfZero,
        Inst::SignalReturn { levels: 2 },
        Inst::Propagate,
        Inst::PropagateInLoop,
    ];
    for ins in unsupported.iter() {
        let mut sink = InstBuffer::new(&config);
        sink.push(MidenAssemblyBuilder::new().begin());
        let res = emit_inst(ins, &config, &mut sink, &names);
        assert_eq!(res, Err(EmitError::UnsupportedInstruction(*ins)));
        assert_eq!(sink.pretty_print(), "begin");
    }
}

#[test]
fn failed_procedure_leaves_the_sink_as_it_was() {
    let config = MidenTargetConfig::default();
    let names: HashMap<u32, String> = HashMap::new();
    let mut sink = InstBuffer::new(&config);
    sink.push(MidenAssemblyBuilder::new().proc(String::from("p")));
    let func = Func::new(
        String::from("p"),
        vec![
            Inst::I32Const { value: 1 },
            Inst::I32Add,
            Inst::LocalGet { local_idx: 3 },
            Inst::I64Add,
            Inst::End,
        ],
    );
    let res = compile_function(func, &config, &mut sink, &names);
    assert_eq!(
        res,
        Err(MidenError::Emit(EmitError::UnsupportedInstruction(Inst::LocalGet { local_idx: 3 })))
    );
    assert_eq!(sink.pretty_print(), "proc.p");
}

#[test]
fn a_return_is_left_out_only_before_the_end() {
    let config = MidenTargetConfig::default();
    let names: HashMap<u32, String> = HashMap::new();
    let bodies = [
        vec![Inst::I32Const { value: 1 }, Inst::Return, Inst::I32Const { value: 2 }, Inst::End],
        vec![Inst::I32Const { value: 1 }, Inst::Return],
        vec![Inst::Return, Inst::Return, Inst::End],
    ];
    for body in bodies.iter() {
        let mut sink = InstBuffer::new(&config);
        sink.push(MidenAssemblyBuilder::new().proc(String::from("p")));
        let res = compile_function(Func::new(String::from("p"), body.clone()), &config, &mut sink, &names);
        assert_eq!(res, Err(MidenError::Emit(EmitError::UnsupportedInstruction(Inst::Return))));
        assert_eq!(sink.pretty_print(), "proc.p");
    }
    let mut sink = InstBuffer::new(&config);
    let body = vec![Inst::I32Const { value: 1 }, Inst::Return, Inst::End];
    assert_eq!(compile_function(Func::new(String::from("p"), body), &config, &mut sink, &names), Ok(()));
    assert_eq!(sink.pretty_print(), "push.1\nend");
}

#[test]
fn module_with_unsupported_instruction_gives_no_listing() {
    let good = Func::new(String::from("good"), vec![Inst::I32Const { value: 1 }, Inst::End]);
    let bad = Func::new(
        String::from("bad"),
        vec![Inst::I32Add, Inst::Propagate, Inst::Recurse, Inst::End],
    );
    let module = Module::new(vec![good, bad], FuncIndex::from(0));
    let res = compile_module(module, &MidenTargetConfig::default());
    match res {
        Err(e) => assert_eq!(e, MidenError::Emit(EmitError::UnsupportedInstruction(Inst::Propagate))),
        Ok(_) => panic!("a listing came out"),
    }
}

#[test]
fn compiling_twice_gives_the_same_text() {
    let build = || {
        Module::new(
            vec![
                Func::new(String::from("a"), vec![Inst::I32Const { value: 2147483647 }, Inst::End]),
                Func::new(
                    String::from("b"),
                    vec![Inst::I32Const { value: -2147483648 }, Inst::Call { func_idx: FuncIndex(9) }, Inst::End],
                ),
            ],
            FuncIndex(1),
        )
    };
    let config = MidenTargetConfig::default();
    let first = compile_module(build(), &config).unwrap().pretty_print();
    let second = compile_module(build(), &config).unwrap().pretty_print();
    assert_eq!(first, second);
    assert_eq!(
        first,
        "proc.a\npush.2147483647\nend\nproc.b\npush.-2147483648\nexec.f9\nend\nbegin\nexec.b\nend"
    );
}

#[test]
fn sink_truncates_to_a_prefix() {
    let config = MidenTargetConfig::default();
    let b = MidenAssemblyBuilder::new();
    let mut sink = InstBuffer::new(&config);
    sink.push(b.push(1));
    sink.push(b.push(2));
    sink.push(b.add());
    sink.truncate(2);
    assert_eq!(sink.len(), 2);
    assert_eq!(sink.pretty_print(), "push.1\npush.2");
}
