use spwn_core::bytecode::{
    BinOp, BuiltinKey, BytecodeFunc, Code, ConstID, Constant, InstrNum, Instruction, KeysID,
    MacroBuild, MacroBuildID, MemberID, Operator, VarID,
};
use spwn_core::context::{CallKey, CallStackItem, Context};
use spwn_core::error::ErrorKind;
use spwn_core::sources::{CodeSpan, SpwnSource};
use spwn_core::ids::Id;
use spwn_core::value::{Builtin, FloatBits, FloatMath, FuncCoord, ObjKeyType, Pattern, Value, ValueType};
use spwn_core::vm::Vm;

struct RealFloat;

impl FloatMath for RealFloat {
    fn of_int(&self, n: i64) -> FloatBits {
        FloatBits((n as f64).to_bits())
    }
    fn add(&self, a: FloatBits, b: FloatBits) -> FloatBits {
        FloatBits((f64::from_bits(a.0) + f64::from_bits(b.0)).to_bits())
    }
    fn sub(&self, a: FloatBits, b: FloatBits) -> FloatBits {
        FloatBits((f64::from_bits(a.0) - f64::from_bits(b.0)).to_bits())
    }
    fn mul(&self, a: FloatBits, b: FloatBits) -> FloatBits {
        FloatBits((f64::from_bits(a.0) * f64::from_bits(b.0)).to_bits())
    }
    fn div(&self, a: FloatBits, b: FloatBits) -> FloatBits {
        FloatBits((f64::from_bits(a.0) / f64::from_bits(b.0)).to_bits())
    }
    fn rem(&self, a: FloatBits, b: FloatBits) -> FloatBits {
        FloatBits((f64::from_bits(a.0) % f64::from_bits(b.0)).to_bits())
    }
    fn pow(&self, a: FloatBits, b: FloatBits) -> FloatBits {
        FloatBits(f64::from_bits(a.0).powf(f64::from_bits(b.0)).to_bits())
    }
    fn neg(&self, a: FloatBits) -> FloatBits {
        FloatBits((-f64::from_bits(a.0)).to_bits())
    }
    fn ipow(&self, a: i64, b: i64) -> i64 {
        (a as f64).powf(b as f64).floor() as i64
    }
    fn eq(&self, a: FloatBits, b: FloatBits) -> bool {
        f64::from_bits(a.0) == f64::from_bits(b.0)
    }
    fn eq_int(&self, n: i64, f: FloatBits) -> bool {
        (n as f64) == f64::from_bits(f.0)
    }
    fn lt(&self, a: FloatBits, b: FloatBits) -> bool {
        f64::from_bits(a.0) < f64::from_bits(b.0)
    }
    fn le(&self, a: FloatBits, b: FloatBits) -> bool {
        f64::from_bits(a.0) <= f64::from_bits(b.0)
    }
    fn gt(&self, a: FloatBits, b: FloatBits) -> bool {
        f64::from_bits(a.0) > f64::from_bits(b.0)
    }
    fn ge(&self, a: FloatBits, b: FloatBits) -> bool {
        f64::from_bits(a.0) >= f64::from_bits(b.0)
    }
    fn display(&self, a: FloatBits) -> String {
        format!("{}", f64::from_bits(a.0))
    }
}

fn span(n: usize) -> CodeSpan {
    CodeSpan { start: n, end: n + 1 }
}

fn func(instrs: Vec<Instruction>, args: Vec<u16>) -> BytecodeFunc {
    BytecodeFunc {
        instructions: instrs
            .into_iter()
            .enumerate()
            .map(|(i, ins)| (ins, span(i)))
            .collect(),
        arg_ids: args.into_iter().map(VarID).collect(),
        capture_ids: vec![],
        inner_ids: vec![],
    }
}

fn module(consts: Vec<Constant>, var_count: usize, funcs: Vec<BytecodeFunc>) -> Code {
    Code {
        source: SpwnSource::File("test.spwn".to_string()),
        const_register: consts,
        keys_register: vec![],
        member_register: vec![],
        import_register: vec![],
        macro_build_register: vec![],
        var_count,
        funcs,
    }
}

#[test]
fn end_to_end_let_and_multiply_returns_six_and_emits_nothing() {
    // bytecode equivalent to `let a = 1 + 2; a * 2`
    let code = module(
        vec![Constant::Int(1), Constant::Int(2), Constant::Int(2)],
        1,
        vec![func(
            vec![
                Instruction::LoadConst(ConstID(0)),
                Instruction::LoadConst(ConstID(1)),
                Instruction::CallOp(Operator::Bin(BinOp::Plus)),
                Instruction::CreateVar(VarID(0)),
                Instruction::LoadVar(VarID(0)),
                Instruction::LoadConst(ConstID(2)),
                Instruction::CallOp(Operator::Bin(BinOp::Mult)),
                Instruction::Return,
            ],
            vec![],
        )],
    );
    let mut vm = Vm::new(vec![code], vec![]).unwrap();
    let r = vm.run(&RealFloat, 10_000).unwrap().unwrap();
    assert_eq!(r.value, Value::Int(6));
    assert!(vm.objects.is_empty());
}

#[test]
fn range_iterates_zero_to_four_then_exhausts() {
    // `for x in 0..5 { print(x) }`
    let code = module(
        vec![Constant::Range(0, 5, 1)],
        1,
        vec![func(
            vec![
                Instruction::LoadConst(ConstID(0)),
                Instruction::ToIter,
                Instruction::IterNext(InstrNum(7)),
                Instruction::CreateVar(VarID(0)),
                Instruction::LoadVar(VarID(0)),
                Instruction::Print,
                Instruction::Jump(InstrNum(2)),
                Instruction::PushEmpty,
                Instruction::Return,
            ],
            vec![],
        )],
    );
    let mut vm = Vm::new(vec![code], vec![]).unwrap();
    let r = vm.run(&RealFloat, 10_000).unwrap().unwrap();
    assert_eq!(r.value, Value::Empty);
    assert_eq!(vm.output, vec!["0", "1", "2", "3", "4"]);
}

#[test]
fn calling_two_parameter_macro_with_three_arguments_fails() {
    let mut code = module(
        vec![Constant::Int(9)],
        3,
        vec![
            func(
                vec![
                    Instruction::BuildMacro(MacroBuildID(0)),
                    Instruction::CreateVar(VarID(2)),
                    Instruction::LoadVar(VarID(2)),
                    Instruction::LoadConst(ConstID(0)),
                    Instruction::LoadConst(ConstID(0)),
                    Instruction::LoadConst(ConstID(0)),
                    Instruction::Call(InstrNum(3)),
                    Instruction::Return,
                ],
                vec![],
            ),
            func(
                vec![Instruction::PushEmpty, Instruction::Return],
                vec![0, 1],
            ),
        ],
    );
    code.macro_build_register = vec![MacroBuild {
        func: 1,
        params: vec![
            ("a".to_string(), false, false),
            ("b".to_string(), false, false),
        ],
    }];
    let mut vm = Vm::new(vec![code], vec![]).unwrap();
    let err = vm.run(&RealFloat, 10_000).unwrap_err();
    match err.kind {
        ErrorKind::TooManyArguments {
            call_area,
            macro_def_area,
            macro_arg_amount,
            call_arg_amount,
        } => {
            assert_eq!(macro_arg_amount, 2);
            assert_eq!(call_arg_amount, 3);
            // the call site: the `Call` instruction at index 6
            assert_eq!(call_area.span, span(6));
            // the definition: where the macro value was built, at index 0
            assert_eq!(macro_def_area.span, span(0));
        }
        other => panic!("expected TooManyArguments, got {:?}", other),
    }
    assert!(!err.call_stack.is_empty());
}

#[test]
fn forked_context_shares_registers_exactly_like_the_original() {
    let code = module(
        vec![],
        3,
        vec![func(vec![Instruction::PushEmpty, Instruction::Return], vec![])],
    );
    let mut vm = Vm::new(vec![code], vec![]).unwrap();
    let ka = vm.store(Value::Int(1), spwn_core::sources::CodeArea::internal());
    let kb = vm.store(Value::Int(2), spwn_core::sources::CodeArea::internal());
    let mut ctx = Context::root();
    ctx.pos_stack.push(CallStackItem {
        func: FuncCoord { program: 0, func: 0 },
        ip: 0,
        return_dest: None,
        call_key: CallKey(0),
        call_area: None,
    });
    ctx.registers.push(vec![ka, kb, ka]);
    ctx.stack.push(vec![]);
    let fork = vm.fork_context(&ctx);
    let regs = &fork.registers[0];
    assert_eq!(regs.len(), 3);
    assert_ne!(regs[0], ka);
    assert_ne!(regs[1], kb);
    assert_eq!(regs[0], regs[2]);
    assert_ne!(regs[0], regs[1]);
    assert_eq!(vm.memory.get(regs[0]).value, Value::Int(1));
    assert_eq!(vm.memory.get(regs[1]).value, Value::Int(2));
    // the original context is untouched
    assert_eq!(ctx.registers[0], vec![ka, kb, ka]);
}

#[test]
fn fork_in_recursive_calls_emits_in_scheduler_order() {
    // a function that recurses while n > 0, then forks a detached block
    // that emits an object tagged with its n
    let mut code = module(
        vec![
            Constant::Int(0),
            Constant::Int(1),
            Constant::Int(1),
            Constant::Int(2),
        ],
        3,
        vec![
            func(
                vec![
                    Instruction::BuildMacro(MacroBuildID(0)),
                    Instruction::CreateVar(VarID(2)),
                    Instruction::LoadVar(VarID(2)),
                    Instruction::LoadConst(ConstID(3)),
                    Instruction::Call(InstrNum(1)),
                    Instruction::Return,
                ],
                vec![],
            ),
            func(
                vec![
                    Instruction::LoadVar(VarID(0)),
                    Instruction::LoadConst(ConstID(0)),
                    Instruction::CallOp(Operator::Bin(BinOp::Gt)),
                    Instruction::JumpIfFalse(InstrNum(10)),
                    Instruction::BuildMacro(MacroBuildID(0)),
                    Instruction::LoadVar(VarID(0)),
                    Instruction::LoadConst(ConstID(1)),
                    Instruction::CallOp(Operator::Bin(BinOp::Minus)),
                    Instruction::Call(InstrNum(1)),
                    Instruction::PopTop,
                    Instruction::EnterArrowStatement(InstrNum(16)),
                    Instruction::LoadConst(ConstID(2)),
                    Instruction::LoadVar(VarID(0)),
                    Instruction::BuildObject(InstrNum(1)),
                    Instruction::AddObject,
                    Instruction::YeetContext,
                    Instruction::PushEmpty,
                    Instruction::Return,
                ],
                vec![0],
            ),
        ],
    );
    code.macro_build_register = vec![MacroBuild {
        func: 1,
        params: vec![("n".to_string(), false, false)],
    }];
    let mut vm = Vm::new(vec![code], vec![]).unwrap();
    let r = vm.run(&RealFloat, 100_000).unwrap().unwrap();
    assert_eq!(r.value, Value::Empty);
    // the deepest fork runs first; ties go to the smaller instruction
    // pointer — not source textual order
    let emitted: Vec<Value> = vm
        .objects
        .iter()
        .map(|o| {
            assert_eq!(o.params.len(), 1);
            assert_eq!(o.params[0].0, ObjKeyType::Num(1));
            o.params[0].1.clone()
        })
        .collect();
    assert_eq!(emitted, vec![Value::Int(0), Value::Int(1), Value::Int(2)]);
}

#[test]
fn assert_builtin_reports_assertion_failed() {
    let code = module(
        vec![Constant::Bool(false)],
        1,
        vec![func(
            vec![
                Instruction::LoadConst(ConstID(0)),
                Instruction::CallBuiltin(BuiltinKey(1)),
                Instruction::Return,
            ],
            vec![],
        )],
    );
    let mut vm = Vm::new(
        vec![code],
        vec![Builtin::Print, Builtin::Assert, Builtin::AssertEq],
    )
    .unwrap();
    let err = vm.run(&RealFloat, 10_000).unwrap_err();
    assert!(matches!(err.kind, ErrorKind::AssertionFailed { .. }));
}

#[test]
fn assert_eq_builtin_renders_both_sides() {
    let code = module(
        vec![Constant::Int(1), Constant::Int(2)],
        1,
        vec![func(
            vec![
                Instruction::LoadConst(ConstID(0)),
                Instruction::LoadConst(ConstID(1)),
                Instruction::CallBuiltin(BuiltinKey(2)),
                Instruction::Return,
            ],
            vec![],
        )],
    );
    let mut vm = Vm::new(
        vec![code],
        vec![Builtin::Print, Builtin::Assert, Builtin::AssertEq],
    )
    .unwrap();
    let err = vm.run(&RealFloat, 10_000).unwrap_err();
    match err.kind {
        ErrorKind::EqAssertionFailed { left, right, .. } => {
            assert_eq!(left, "1");
            assert_eq!(right, "2");
        }
        other => panic!("expected EqAssertionFailed, got {:?}", other),
    }
}

#[test]
fn array_indexing_and_out_of_bounds() {
    let code = module(
        vec![Constant::Int(7), Constant::Int(0)],
        1,
        vec![func(
            vec![
                Instruction::LoadConst(ConstID(0)),
                Instruction::BuildArray(InstrNum(1)),
                Instruction::LoadConst(ConstID(1)),
                Instruction::Index,
                Instruction::Return,
            ],
            vec![],
        )],
    );
    let mut vm = Vm::new(vec![code], vec![]).unwrap();
    let r = vm.run(&RealFloat, 10_000).unwrap().unwrap();
    assert_eq!(r.value, Value::Int(7));

    let code = module(
        vec![Constant::Int(7), Constant::Int(3)],
        1,
        vec![func(
            vec![
                Instruction::LoadConst(ConstID(0)),
                Instruction::BuildArray(InstrNum(1)),
                Instruction::LoadConst(ConstID(1)),
                Instruction::Index,
                Instruction::Return,
            ],
            vec![],
        )],
    );
    let mut vm = Vm::new(vec![code], vec![]).unwrap();
    let err = vm.run(&RealFloat, 10_000).unwrap_err();
    match err.kind {
        ErrorKind::IndexOutOfBounds { len, index, .. } => {
            assert_eq!(len, 1);
            assert_eq!(index, 3);
        }
        other => panic!("expected IndexOutOfBounds, got {:?}", other),
    }
}

#[test]
fn dict_member_access_through_key_pool() {
    let mut code = module(
        vec![Constant::Int(5)],
        1,
        vec![func(
            vec![
                Instruction::LoadConst(ConstID(0)),
                Instruction::BuildDict(KeysID(0)),
                Instruction::Member(MemberID(0)),
                Instruction::Return,
            ],
            vec![],
        )],
    );
    code.keys_register = vec![vec!["a".to_string()]];
    code.member_register = vec!["a".to_string()];
    let mut vm = Vm::new(vec![code], vec![]).unwrap();
    let r = vm.run(&RealFloat, 10_000).unwrap().unwrap();
    assert_eq!(r.value, Value::Int(5));
}

#[test]
fn unwrap_or_jump_takes_the_none_exit() {
    let code = module(
        vec![Constant::Int(4)],
        1,
        vec![func(
            vec![
                Instruction::PushNone,
                Instruction::UnwrapOrJump(InstrNum(3)),
                Instruction::Return,
                Instruction::LoadConst(ConstID(0)),
                Instruction::Return,
            ],
            vec![],
        )],
    );
    let mut vm = Vm::new(vec![code], vec![]).unwrap();
    let r = vm.run(&RealFloat, 10_000).unwrap().unwrap();
    assert_eq!(r.value, Value::Int(4));
}

#[test]
fn trigger_function_fork_assigns_group_and_call_fires_it() {
    let code = module(
        vec![],
        1,
        vec![func(
            vec![
                // `!{ ... }` — the body just aborts its path
                Instruction::EnterTriggerFunction(InstrNum(3)),
                Instruction::PushEmpty,
                Instruction::YeetContext,
                Instruction::PushTriggerFn,
                Instruction::CreateVar(VarID(0)),
                Instruction::LoadVar(VarID(0)),
                Instruction::TriggerFuncCall,
                Instruction::PushEmpty,
                Instruction::Return,
            ],
            vec![],
        )],
    );
    let mut vm = Vm::new(vec![code], vec![]).unwrap();
    let r = vm.run(&RealFloat, 10_000).unwrap().unwrap();
    assert_eq!(r.value, Value::Empty);
    assert_eq!(vm.spawned, vec![Id::ArbitraryId(1)]);
}

#[test]
fn module_validation_rejects_bad_pool_indices() {
    let code = module(
        vec![],
        1,
        vec![func(vec![Instruction::LoadConst(ConstID(0))], vec![])],
    );
    assert!(Vm::new(vec![code], vec![]).is_none());
    let code = module(
        vec![],
        1,
        vec![func(vec![Instruction::Jump(InstrNum(5))], vec![])],
    );
    assert!(Vm::new(vec![code], vec![]).is_none());
}

#[test]
fn build_instance_refuses_builtin_types() {
    let mut code = module(
        vec![],
        1,
        vec![func(
            vec![
                Instruction::PushAnyPattern,
                Instruction::TypeOf,
                Instruction::BuildDict(KeysID(0)),
                Instruction::BuildInstance,
                Instruction::Return,
            ],
            vec![],
        )],
    );
    code.keys_register = vec![vec![]];
    let mut vm = Vm::new(vec![code], vec![]).unwrap();
    let err = vm.run(&RealFloat, 10_000).unwrap_err();
    match err.kind {
        ErrorKind::CannotInstanceBuiltinType { typ, .. } => {
            assert_eq!(typ, ValueType::Pattern)
        }
        other => panic!("expected CannotInstanceBuiltinType, got {:?}", other),
    }
}

#[test]
fn step_ceiling_fails_the_looping_context() {
    let code = module(
        vec![],
        1,
        vec![func(vec![Instruction::Jump(InstrNum(0))], vec![])],
    );
    let mut vm = Vm::new(vec![code], vec![]).unwrap();
    vm.step_limit = 50;
    let err = vm.run(&RealFloat, 10_000).unwrap_err();
    assert!(matches!(err.kind, ErrorKind::ThrownError { .. }));
}

#[test]
fn budget_exhaustion_returns_no_result() {
    let code = module(
        vec![],
        1,
        vec![func(vec![Instruction::Jump(InstrNum(0))], vec![])],
    );
    let mut vm = Vm::new(vec![code], vec![]).unwrap();
    let r = vm.run(&RealFloat, 10).unwrap();
    assert!(r.is_none());
}

#[test]
fn wrap_maybe_unwraps_through_the_some_exit() {
    let code = module(
        vec![Constant::Int(11)],
        1,
        vec![func(
            vec![
                Instruction::LoadConst(ConstID(0)),
                Instruction::WrapMaybe,
                Instruction::UnwrapOrJump(InstrNum(4)),
                Instruction::Return,
                Instruction::PushEmpty,
                Instruction::Return,
            ],
            vec![],
        )],
    );
    let mut vm = Vm::new(vec![code], vec![]).unwrap();
    let r = vm.run(&RealFloat, 10_000).unwrap().unwrap();
    assert_eq!(r.value, Value::Int(11));
}

#[test]
fn negative_array_index_counts_from_the_end() {
    let code = module(
        vec![Constant::Int(7), Constant::Int(8), Constant::Int(-1)],
        1,
        vec![func(
            vec![
                Instruction::LoadConst(ConstID(0)),
                Instruction::LoadConst(ConstID(1)),
                Instruction::BuildArray(InstrNum(2)),
                Instruction::LoadConst(ConstID(2)),
                Instruction::Index,
                Instruction::Return,
            ],
            vec![],
        )],
    );
    let mut vm = Vm::new(vec![code], vec![]).unwrap();
    let r = vm.run(&RealFloat, 10_000).unwrap().unwrap();
    assert_eq!(r.value, Value::Int(8));
}

#[test]
fn split_current_context_duplicates_the_scheduled_context() {
    let code = module(
        vec![],
        2,
        vec![func(vec![Instruction::PushEmpty, Instruction::Return], vec![])],
    );
    let mut vm = Vm::new(vec![code], vec![]).unwrap();
    let before = vm.contexts.contexts.len();
    vm.split_current_context();
    assert_eq!(vm.contexts.contexts.len(), before + 1);
    let orig = &vm.contexts.contexts[before - 1];
    let clone = &vm.contexts.contexts[before];
    assert_eq!(clone.recursion_depth, orig.recursion_depth);
    assert_eq!(clone.pos_stack, orig.pos_stack);
    assert_eq!(clone.registers[0].len(), orig.registers[0].len());
    // every register of the fork holds a fresh key
    for (c, o) in clone.registers[0].iter().zip(orig.registers[0].iter()) {
        assert_ne!(c, o);
    }
}

#[test]
fn import_runs_the_target_module_root() {
    let lib = module(
        vec![Constant::Int(40)],
        1,
        vec![func(
            vec![Instruction::LoadConst(ConstID(0)), Instruction::Return],
            vec![],
        )],
    );
    let mut root = module(
        vec![Constant::Int(2)],
        1,
        vec![func(
            vec![
                Instruction::Import(spwn_core::bytecode::ImportID(0)),
                Instruction::LoadConst(ConstID(0)),
                Instruction::CallOp(Operator::Bin(BinOp::Plus)),
                Instruction::Return,
            ],
            vec![],
        )],
    );
    root.import_register = vec![1];
    let mut vm = Vm::new(vec![root, lib], vec![]).unwrap();
    let r = vm.run(&RealFloat, 10_000).unwrap().unwrap();
    assert_eq!(r.value, Value::Int(42));
}

#[test]
fn impl_installs_members_that_associated_resolves() {
    let mut code = module(
        vec![Constant::Int(3)],
        1,
        vec![func(
            vec![
                Instruction::PushEmpty,
                Instruction::TypeOf,
                Instruction::LoadConst(ConstID(0)),
                Instruction::BuildDict(KeysID(0)),
                Instruction::Impl,
                Instruction::PushEmpty,
                Instruction::TypeOf,
                Instruction::Associated(MemberID(0)),
                Instruction::Return,
            ],
            vec![],
        )],
    );
    code.keys_register = vec![vec!["m".to_string()]];
    code.member_register = vec!["m".to_string()];
    let mut vm = Vm::new(vec![code], vec![]).unwrap();
    let r = vm.run(&RealFloat, 10_000).unwrap().unwrap();
    assert_eq!(r.value, Value::Int(3));
}

#[test]
fn associated_lookup_on_a_bare_type_fails() {
    let mut code = module(
        vec![],
        1,
        vec![func(
            vec![
                Instruction::PushEmpty,
                Instruction::TypeOf,
                Instruction::Associated(MemberID(0)),
                Instruction::Return,
            ],
            vec![],
        )],
    );
    code.member_register = vec!["missing".to_string()];
    let mut vm = Vm::new(vec![code], vec![]).unwrap();
    let err = vm.run(&RealFloat, 10_000).unwrap_err();
    match err.kind {
        ErrorKind::NonexistentAssociatedMember { member, base_type, .. } => {
            assert_eq!(member, "missing");
            assert_eq!(base_type, ValueType::Empty);
        }
        other => panic!("expected NonexistentAssociatedMember, got {:?}", other),
    }
}

#[test]
fn dict_iteration_yields_its_key_strings() {
    let mut code = module(
        vec![Constant::Int(1), Constant::Int(2)],
        1,
        vec![func(
            vec![
                Instruction::LoadConst(ConstID(0)),
                Instruction::LoadConst(ConstID(1)),
                Instruction::BuildDict(KeysID(0)),
                Instruction::ToIter,
                Instruction::IterNext(InstrNum(9)),
                Instruction::CreateVar(VarID(0)),
                Instruction::LoadVar(VarID(0)),
                Instruction::Print,
                Instruction::Jump(InstrNum(4)),
                Instruction::PushEmpty,
                Instruction::Return,
            ],
            vec![],
        )],
    );
    code.keys_register = vec![vec!["x".to_string(), "y".to_string()]];
    let mut vm = Vm::new(vec![code], vec![]).unwrap();
    let r = vm.run(&RealFloat, 10_000).unwrap().unwrap();
    assert_eq!(r.value, Value::Empty);
    assert_eq!(vm.output, vec!["x", "y"]);
}

#[test]
fn iterating_a_non_iterable_fails() {
    let code = module(
        vec![Constant::Int(3)],
        1,
        vec![func(
            vec![
                Instruction::LoadConst(ConstID(0)),
                Instruction::ToIter,
                Instruction::Return,
            ],
            vec![],
        )],
    );
    let mut vm = Vm::new(vec![code], vec![]).unwrap();
    let err = vm.run(&RealFloat, 10_000).unwrap_err();
    match err.kind {
        ErrorKind::CannotIterate { v, .. } => assert_eq!(v.0, ValueType::Int),
        other => panic!("expected CannotIterate, got {:?}", other),
    }
}

#[test]
fn container_values_fail_object_field_validation() {
    let code = module(
        vec![Constant::Int(1)],
        1,
        vec![func(
            vec![
                Instruction::LoadConst(ConstID(0)),
                Instruction::LoadConst(ConstID(0)),
                Instruction::BuildArray(InstrNum(1)),
                Instruction::BuildObject(InstrNum(1)),
                Instruction::Return,
            ],
            vec![],
        )],
    );
    let mut vm = Vm::new(vec![code], vec![]).unwrap();
    let err = vm.run(&RealFloat, 10_000).unwrap_err();
    assert!(matches!(err.kind, ErrorKind::InvalidObjectValue { .. }));
}

#[test]
fn missing_argument_without_default_is_not_satisfied() {
    let mut code = module(
        vec![],
        1,
        vec![
            func(
                vec![
                    Instruction::BuildMacro(MacroBuildID(0)),
                    Instruction::Call(InstrNum(0)),
                    Instruction::Return,
                ],
                vec![],
            ),
            func(vec![Instruction::PushEmpty, Instruction::Return], vec![0]),
        ],
    );
    code.macro_build_register = vec![MacroBuild {
        func: 1,
        params: vec![("a".to_string(), false, false)],
    }];
    let mut vm = Vm::new(vec![code], vec![]).unwrap();
    let err = vm.run(&RealFloat, 10_000).unwrap_err();
    match err.kind {
        ErrorKind::ArgumentNotSatisfied { arg_name, .. } => assert_eq!(arg_name, "a"),
        other => panic!("expected ArgumentNotSatisfied, got {:?}", other),
    }
}

#[test]
fn argument_pattern_rejects_a_value_of_the_wrong_type() {
    let mut code = module(
        vec![Constant::Int(1)],
        1,
        vec![
            func(
                vec![
                    Instruction::PushEmpty,
                    Instruction::TypeOf,
                    Instruction::BuildMacro(MacroBuildID(0)),
                    Instruction::LoadConst(ConstID(0)),
                    Instruction::Call(InstrNum(1)),
                    Instruction::Return,
                ],
                vec![],
            ),
            func(vec![Instruction::PushEmpty, Instruction::Return], vec![0]),
        ],
    );
    code.macro_build_register = vec![MacroBuild {
        func: 1,
        params: vec![("a".to_string(), false, true)],
    }];
    let mut vm = Vm::new(vec![code], vec![]).unwrap();
    let err = vm.run(&RealFloat, 10_000).unwrap_err();
    match err.kind {
        ErrorKind::ArgumentPatternMismatch { arg_name, pattern, v, .. } => {
            assert_eq!(arg_name, "a");
            assert_eq!(pattern, Pattern::Type(ValueType::Empty));
            assert_eq!(v.0, ValueType::Int);
        }
        other => panic!("expected ArgumentPatternMismatch, got {:?}", other),
    }
}

#[test]
fn non_macro_member_table_entry_is_not_a_method() {
    let mut code = module(
        vec![Constant::Int(3)],
        1,
        vec![func(
            vec![
                Instruction::PushEmpty,
                Instruction::TypeOf,
                Instruction::LoadConst(ConstID(0)),
                Instruction::BuildDict(KeysID(0)),
                Instruction::Impl,
                Instruction::PushEmpty,
                Instruction::Member(MemberID(0)),
                Instruction::Return,
            ],
            vec![],
        )],
    );
    code.keys_register = vec![vec!["m".to_string()]];
    code.member_register = vec!["m".to_string()];
    let mut vm = Vm::new(vec![code], vec![]).unwrap();
    let err = vm.run(&RealFloat, 10_000).unwrap_err();
    match err.kind {
        ErrorKind::NotAMethod { member_name, member_type, base_type, .. } => {
            assert_eq!(member_name, "m");
            assert_eq!(member_type, ValueType::Int);
            assert_eq!(base_type, ValueType::Empty);
        }
        other => panic!("expected NotAMethod, got {:?}", other),
    }
}

#[test]
fn indexing_an_integer_is_invalid() {
    let code = module(
        vec![Constant::Int(1)],
        1,
        vec![func(
            vec![
                Instruction::LoadConst(ConstID(0)),
                Instruction::LoadConst(ConstID(0)),
                Instruction::Index,
                Instruction::Return,
            ],
            vec![],
        )],
    );
    let mut vm = Vm::new(vec![code], vec![]).unwrap();
    let err = vm.run(&RealFloat, 10_000).unwrap_err();
    match err.kind {
        ErrorKind::InvalidIndex { base, index, .. } => {
            assert_eq!(base.0, ValueType::Int);
            assert_eq!(index.0, ValueType::Int);
        }
        other => panic!("expected InvalidIndex, got {:?}", other),
    }
}

#[test]
fn restricted_object_add_fails_inside_a_trigger_scope() {
    let code = module(
        vec![Constant::Int(1)],
        1,
        vec![func(
            vec![
                Instruction::EnterTriggerFunction(InstrNum(6)),
                Instruction::LoadConst(ConstID(0)),
                Instruction::LoadConst(ConstID(0)),
                Instruction::BuildObject(InstrNum(1)),
                Instruction::AddObject,
                Instruction::YeetContext,
                Instruction::PushEmpty,
                Instruction::Return,
            ],
            vec![],
        )],
    );
    let mut vm = Vm::new(vec![code], vec![]).unwrap();
    vm.restrict_object_add = true;
    let err = vm.run(&RealFloat, 10_000).unwrap_err();
    assert!(matches!(err.kind, ErrorKind::AddObjectInTriggerContext { .. }));
    // without the restriction the same program emits the object
    let code = module(
        vec![Constant::Int(1)],
        1,
        vec![func(
            vec![
                Instruction::EnterTriggerFunction(InstrNum(6)),
                Instruction::LoadConst(ConstID(0)),
                Instruction::LoadConst(ConstID(0)),
                Instruction::BuildObject(InstrNum(1)),
                Instruction::AddObject,
                Instruction::YeetContext,
                Instruction::PushEmpty,
                Instruction::Return,
            ],
            vec![],
        )],
    );
    let mut vm = Vm::new(vec![code], vec![]).unwrap();
    vm.run(&RealFloat, 10_000).unwrap().unwrap();
    assert_eq!(vm.objects.len(), 1);
}
