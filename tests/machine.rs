use siliconvm::chunk::{Chunk, Function, OpCode};
use siliconvm::fault::{Fault, FaultKind};
use siliconvm::frame::CallFrame;
use siliconvm::instance::Instance;
use siliconvm::types::Type;
use siliconvm::vm::{InstructionResult, VM};

fn ty(name: &str) -> Type {
    Type::new(name.to_string())
}

fn run(vm: &mut VM, chunk: &mut Chunk) -> Result<InstructionResult, Fault> {
    chunk.lock();
    vm.execute_chunk(chunk, CallFrame::new(), vec![], vec![], 10_000)
}

fn chunk_of(ops: &[OpCode], consts: &[Instance]) -> Chunk {
    let mut chunk = Chunk::new();
    for (i, c) in consts.iter().enumerate() {
        chunk.add_const(i as u16, *c).unwrap();
    }
    for op in ops {
        chunk.write(*op).unwrap();
    }
    chunk
}

#[test]
fn add_and_print_byte() {
    let mut vm = VM::new();
    let mut chunk = chunk_of(
        &[OpCode::Get(true, 0), OpCode::Get(true, 0), OpCode::Add, OpCode::Print],
        &[Instance::Byte(3)],
    );
    assert_eq!(run(&mut vm, &mut chunk), Ok(InstructionResult::Return));
    assert_eq!(vm.output(), &vec!["6".to_string()]);
    assert!(vm.stack().is_empty());
}

#[test]
fn call_squares_argument_and_restores_window() {
    let mut vm = VM::new();
    let body = chunk_of(
        &[OpCode::Get(false, 0), OpCode::Get(false, 0), OpCode::Multiply, OpCode::Return(true)],
        &[],
    );
    let mut body = body;
    body.lock();
    let square = Function::new(1, vec![ty("silicon.lang.Byte")], ty("silicon.lang.Byte"), body).unwrap();
    let f = vm.define_function(square);
    let mut main = chunk_of(
        &[
            OpCode::Get(true, 0),
            OpCode::Declare(false, 2),
            OpCode::Get(true, 0),
            OpCode::Get(true, 1),
            OpCode::Call,
            OpCode::Return(true),
        ],
        &[Instance::Byte(5), f],
    );
    assert_eq!(run(&mut vm, &mut main), Ok(InstructionResult::ReturnWith(Instance::Byte(25))));
    assert_eq!(vm.register().len(), 1);
    assert!(vm.stack().is_empty());
}

#[test]
fn init_array_infers_element_type() {
    let mut vm = VM::new();
    let mut same = chunk_of(
        &[OpCode::Get(true, 0), OpCode::Get(true, 1), OpCode::Get(true, 2), OpCode::InitArray(3), OpCode::Return(true)],
        &[Instance::Int16(1), Instance::Int16(2), Instance::Int16(3)],
    );
    let arr = match run(&mut vm, &mut same) {
        Ok(InstructionResult::ReturnWith(a)) => a,
        other => panic!("unexpected {:?}", other),
    };
    assert_eq!(vm.array_type(arr).unwrap().name(), "silicon.lang.Int16");
    assert_eq!(vm.array_items(arr).unwrap(), vec![Instance::Int16(1), Instance::Int16(2), Instance::Int16(3)]);

    let mut mixed = chunk_of(
        &[OpCode::Get(true, 0), OpCode::GetTrue, OpCode::InitArray(2), OpCode::Return(true)],
        &[Instance::Int16(1)],
    );
    let arr = match run(&mut vm, &mut mixed) {
        Ok(InstructionResult::ReturnWith(a)) => a,
        other => panic!("unexpected {:?}", other),
    };
    assert_eq!(vm.array_type(arr).unwrap().name(), "silicon.lang.Object");
}

fn aliased_array_chunk(new_value: Instance) -> Chunk {
    chunk_of(
        &[
            OpCode::Get(true, 0),
            OpCode::Get(true, 1),
            OpCode::InitArray(2),
            OpCode::Declare(false, 0),
            OpCode::Get(false, 0),
            OpCode::Declare(false, 0),
            OpCode::Get(false, 0),
            OpCode::Get(true, 2),
            OpCode::Get(true, 3),
            OpCode::IndexSet,
            OpCode::Get(false, 1),
            OpCode::Get(true, 2),
            OpCode::IndexGet,
            OpCode::Return(true),
        ],
        &[Instance::Int16(1), Instance::Int16(2), Instance::UByte(1), new_value],
    )
}

#[test]
fn index_set_is_seen_through_alias() {
    let mut vm = VM::new();
    let mut chunk = aliased_array_chunk(Instance::Int16(9));
    assert_eq!(run(&mut vm, &mut chunk), Ok(InstructionResult::ReturnWith(Instance::Int16(9))));
    let first = vm.register().get(0).unwrap();
    let second = vm.register().get(1).unwrap();
    assert_eq!(first, second);
    assert_eq!(vm.array_items(first).unwrap(), vec![Instance::Int16(1), Instance::Int16(9)]);
}

#[test]
fn index_set_of_wrong_type_faults_and_keeps_array() {
    let mut vm = VM::new();
    let mut chunk = aliased_array_chunk(Instance::Bool(true));
    assert_eq!(
        run(&mut vm, &mut chunk),
        Err(Fault { kind: FaultKind::TypeMismatch, pc: 9, function: None })
    );
    let arr = vm.register().get(0).unwrap();
    assert_eq!(vm.array_items(arr).unwrap(), vec![Instance::Int16(1), Instance::Int16(2)]);
}

#[test]
fn unconditional_jump_always_jumps() {
    let mut vm = VM::new();
    let mut chunk = chunk_of(
        &[OpCode::Jump(false, 0), OpCode::Get(true, 0), OpCode::Get(true, 1), OpCode::Return(true)],
        &[Instance::Int16(1), Instance::Int16(2)],
    );
    chunk.add_jump_point(0, 2).unwrap();
    assert_eq!(run(&mut vm, &mut chunk), Ok(InstructionResult::ReturnWith(Instance::Int16(2))));
    assert!(vm.stack().is_empty());
}

#[test]
fn conditional_jump_pops_only_the_condition() {
    let mut vm = VM::new();
    // true: falls through, leaving the value below the condition in place.
    let mut taken = chunk_of(
        &[OpCode::Get(true, 0), OpCode::GetTrue, OpCode::Jump(true, 0), OpCode::Return(true), OpCode::GetFalse, OpCode::Return(true)],
        &[Instance::Int16(7)],
    );
    taken.add_jump_point(0, 4).unwrap();
    assert_eq!(run(&mut vm, &mut taken), Ok(InstructionResult::ReturnWith(Instance::Int16(7))));

    // false: jumps.
    let mut vm = VM::new();
    let mut skipped = chunk_of(
        &[OpCode::Get(true, 0), OpCode::GetFalse, OpCode::Jump(true, 0), OpCode::Return(true), OpCode::GetTrue, OpCode::Return(true)],
        &[Instance::Int16(7)],
    );
    skipped.add_jump_point(0, 4).unwrap();
    assert_eq!(run(&mut vm, &mut skipped), Ok(InstructionResult::ReturnWith(Instance::Bool(true))));
    assert_eq!(vm.stack(), &vec![Instance::Int16(7)]);
}

#[test]
fn conditional_jump_needs_a_boolean() {
    let mut vm = VM::new();
    let mut chunk = chunk_of(&[OpCode::Get(true, 0), OpCode::Jump(true, 0)], &[Instance::Int16(7)]);
    chunk.add_jump_point(0, 0).unwrap();
    assert_eq!(run(&mut vm, &mut chunk), Err(Fault { kind: FaultKind::TypeMismatch, pc: 1, function: None }));
}

#[test]
fn unresolved_jump_faults() {
    let mut vm = VM::new();
    let mut chunk = chunk_of(&[OpCode::Jump(false, 3)], &[]);
    assert_eq!(run(&mut vm, &mut chunk), Err(Fault { kind: FaultKind::UnresolvedJump, pc: 0, function: None }));
}

#[test]
fn stray_exit_scope_changes_nothing() {
    let mut vm = VM::new();
    let mut frame = CallFrame::new();
    vm.push(Instance::Int16(1));
    vm.declare_variable(4, false, 0).unwrap();
    vm.exit_scope(&mut frame);
    assert_eq!(frame.register_declare_offset(), 0);
    assert_eq!(frame.scope_depth(), 0);
    assert_eq!(vm.register().len(), 1);
    assert_eq!(vm.diagnostics().len(), 1);
    vm.push(Instance::Int16(2));
    assert_eq!(vm.declare_variable(4, false, 0), Ok(1));
}

#[test]
fn scope_exit_reclaims_its_slots() {
    let mut vm = VM::new();
    let mut chunk = chunk_of(
        &[
            OpCode::Get(true, 0),
            OpCode::Declare(false, 4),
            OpCode::EnterScope(2),
            OpCode::Get(true, 0),
            OpCode::Declare(false, 4),
            OpCode::Get(true, 0),
            OpCode::Declare(false, 4),
            OpCode::ExitScope,
        ],
        &[Instance::Int16(4)],
    );
    assert_eq!(run(&mut vm, &mut chunk), Ok(InstructionResult::Return));
    assert_eq!(vm.register().len(), 1);
    assert_eq!(vm.diagnostics().len(), 0);
}

#[test]
fn store_checks_type_and_constness() {
    let mut vm = VM::new();
    let mut ok = chunk_of(
        &[OpCode::Get(true, 0), OpCode::Declare(false, 4), OpCode::Get(true, 1), OpCode::Store(0), OpCode::Get(false, 0), OpCode::Return(true)],
        &[Instance::Int16(4), Instance::Int16(5)],
    );
    assert_eq!(run(&mut vm, &mut ok), Ok(InstructionResult::ReturnWith(Instance::Int16(5))));

    let mut vm = VM::new();
    let mut wrong = chunk_of(
        &[OpCode::Get(true, 0), OpCode::Declare(false, 4), OpCode::GetTrue, OpCode::Store(0)],
        &[Instance::Int16(4)],
    );
    assert_eq!(run(&mut vm, &mut wrong), Err(Fault { kind: FaultKind::TypeMismatch, pc: 3, function: None }));

    let mut vm = VM::new();
    let mut constant = chunk_of(
        &[OpCode::Get(true, 0), OpCode::Declare(true, 4), OpCode::Get(true, 0), OpCode::Store(0)],
        &[Instance::Int16(4)],
    );
    assert_eq!(run(&mut vm, &mut constant), Err(Fault { kind: FaultKind::TypeMismatch, pc: 3, function: None }));

    let mut vm = VM::new();
    let mut absent = chunk_of(&[OpCode::Get(true, 0), OpCode::Store(3)], &[Instance::Int16(4)]);
    assert_eq!(run(&mut vm, &mut absent), Err(Fault { kind: FaultKind::RegisterAbsent, pc: 1, function: None }));
}

#[test]
fn arithmetic_faults() {
    let cases: Vec<(OpCode, Instance, Instance, FaultKind)> = vec![
        (OpCode::Add, Instance::Byte(100), Instance::Byte(100), FaultKind::Overflow),
        (OpCode::Subtract, Instance::UByte(1), Instance::UByte(2), FaultKind::Overflow),
        (OpCode::Divide, Instance::Int32(1), Instance::Int32(0), FaultKind::DivideByZero),
        (OpCode::Power, Instance::Int16(2), Instance::Int16(-1), FaultKind::NegativeExponent),
        (OpCode::Add, Instance::Int16(1), Instance::Byte(1), FaultKind::TypeMismatch),
        (OpCode::Less, Instance::Bool(true), Instance::Bool(false), FaultKind::TypeMismatch),
    ];
    for (op, l, r, kind) in cases {
        let mut vm = VM::new();
        let mut chunk = chunk_of(&[OpCode::Get(true, 0), OpCode::Get(true, 1), op], &[l, r]);
        assert_eq!(run(&mut vm, &mut chunk), Err(Fault { kind, pc: 2, function: None }));
    }
}

#[test]
fn arithmetic_results() {
    let cases: Vec<(OpCode, Instance, Instance, Instance)> = vec![
        (OpCode::Subtract, Instance::Int64(5), Instance::Int64(9), Instance::Int64(-4)),
        (OpCode::Multiply, Instance::UInt32(7), Instance::UInt32(6), Instance::UInt32(42)),
        (OpCode::Divide, Instance::Int16(-7), Instance::Int16(2), Instance::Int16(-3)),
        (OpCode::Power, Instance::Byte(-2), Instance::Byte(7), Instance::Byte(-128)),
        (OpCode::Power, Instance::UInt128(3), Instance::UInt128(4), Instance::UInt128(81)),
        (OpCode::Greater, Instance::Int16(3), Instance::Int16(3), Instance::Bool(false)),
        (OpCode::GreaterOrEq, Instance::Int16(3), Instance::Int16(3), Instance::Bool(true)),
        (OpCode::Less, Instance::UInt64(2), Instance::UInt64(3), Instance::Bool(true)),
        (OpCode::LessOrEq, Instance::Byte(4), Instance::Byte(3), Instance::Bool(false)),
        (OpCode::Eq, Instance::Int16(3), Instance::Int16(3), Instance::Bool(true)),
        (OpCode::Eq, Instance::Int16(3), Instance::UInt16(3), Instance::Bool(false)),
        (OpCode::NotEq, Instance::Int16(3), Instance::Int16(4), Instance::Bool(true)),
        (OpCode::NotEq, Instance::Int16(3), Instance::Bool(true), Instance::Bool(false)),
    ];
    for (op, l, r, expected) in cases {
        let mut vm = VM::new();
        let mut chunk = chunk_of(&[OpCode::Get(true, 0), OpCode::Get(true, 1), op, OpCode::Return(true)], &[l, r]);
        assert_eq!(run(&mut vm, &mut chunk), Ok(InstructionResult::ReturnWith(expected)), "{:?}", op);
    }
}

#[test]
fn power_overflow_is_a_fault() {
    let mut vm = VM::new();
    let mut chunk = chunk_of(&[OpCode::Get(true, 0), OpCode::Get(true, 1), OpCode::Power], &[Instance::Byte(-2), Instance::Byte(8)]);
    assert_eq!(run(&mut vm, &mut chunk), Err(Fault { kind: FaultKind::Overflow, pc: 2, function: None }));
}

#[test]
fn negations() {
    let mut vm = VM::new();
    let mut chunk = chunk_of(&[OpCode::Get(true, 0), OpCode::IntNegate, OpCode::Return(true)], &[Instance::Int32(5)]);
    assert_eq!(run(&mut vm, &mut chunk), Ok(InstructionResult::ReturnWith(Instance::Int32(-5))));

    let mut vm = VM::new();
    let mut chunk = chunk_of(&[OpCode::Get(true, 0), OpCode::IntNegate], &[Instance::Byte(-128)]);
    assert_eq!(run(&mut vm, &mut chunk), Err(Fault { kind: FaultKind::Overflow, pc: 1, function: None }));

    let mut vm = VM::new();
    let mut chunk = chunk_of(&[OpCode::Get(true, 0), OpCode::IntNegate], &[Instance::UByte(1)]);
    assert_eq!(run(&mut vm, &mut chunk), Err(Fault { kind: FaultKind::TypeMismatch, pc: 1, function: None }));

    let mut vm = VM::new();
    let mut chunk = chunk_of(&[OpCode::GetTrue, OpCode::LogicNegate, OpCode::Return(true)], &[]);
    assert_eq!(run(&mut vm, &mut chunk), Ok(InstructionResult::ReturnWith(Instance::Bool(false))));
}

#[test]
fn type_test_uses_registry() {
    let mut vm = VM::new();
    let mut chunk = chunk_of(
        &[OpCode::Get(true, 0), OpCode::Is(4), OpCode::Get(true, 0), OpCode::Is(0), OpCode::Get(true, 0), OpCode::Is(1), OpCode::InitArray(3), OpCode::Return(true)],
        &[Instance::Int16(1)],
    );
    let arr = match run(&mut vm, &mut chunk) {
        Ok(InstructionResult::ReturnWith(a)) => a,
        other => panic!("unexpected {:?}", other),
    };
    assert_eq!(vm.array_items(arr).unwrap(), vec![Instance::Bool(true), Instance::Bool(true), Instance::Bool(false)]);

    let mut vm = VM::new();
    let mut chunk = chunk_of(&[OpCode::GetTrue, OpCode::Is(200)], &[]);
    assert_eq!(run(&mut vm, &mut chunk), Err(Fault { kind: FaultKind::UnknownType, pc: 1, function: None }));
}

#[test]
fn concat_interns_result() {
    let mut vm = VM::new();
    let ab = vm.intern("ab");
    let mut chunk = chunk_of(
        &[OpCode::Get(true, 0), OpCode::Get(true, 1), OpCode::Concat, OpCode::Get(true, 2), OpCode::Concat, OpCode::Return(true)],
        &[ab, Instance::Char('c'), Instance::Int32(12)],
    );
    let result = match run(&mut vm, &mut chunk) {
        Ok(InstructionResult::ReturnWith(s)) => s,
        other => panic!("unexpected {:?}", other),
    };
    assert_eq!(vm.string_content(result).unwrap(), "abc12");
    assert_eq!(vm.intern("abc12"), result);

    let mut vm = VM::new();
    let mut chunk = chunk_of(&[OpCode::Get(true, 0), OpCode::Get(true, 0), OpCode::Concat], &[Instance::Int16(1)]);
    assert_eq!(run(&mut vm, &mut chunk), Err(Fault { kind: FaultKind::TypeMismatch, pc: 2, function: None }));
}

#[test]
fn concat_of_two_strings() {
    let mut vm = VM::new();
    let left = vm.intern("foo");
    let right = vm.intern("bar");
    let mut chunk = chunk_of(&[OpCode::Get(true, 0), OpCode::Get(true, 1), OpCode::Concat, OpCode::Print], &[left, right]);
    assert_eq!(run(&mut vm, &mut chunk), Ok(InstructionResult::Return));
    assert_eq!(vm.output(), &vec!["\"foobar\"".to_string()]);
}

#[test]
fn index_get_on_strings_and_bounds() {
    let mut vm = VM::new();
    let s = vm.intern("héllo");
    let mut chunk = chunk_of(&[OpCode::Get(true, 0), OpCode::Get(true, 1), OpCode::IndexGet, OpCode::Return(true)], &[s, Instance::UInt16(1)]);
    assert_eq!(run(&mut vm, &mut chunk), Ok(InstructionResult::ReturnWith(Instance::Char('é'))));

    let mut vm = VM::new();
    let s = vm.intern("hi");
    let mut chunk = chunk_of(&[OpCode::Get(true, 0), OpCode::Get(true, 1), OpCode::IndexGet], &[s, Instance::Byte(2)]);
    assert_eq!(run(&mut vm, &mut chunk), Err(Fault { kind: FaultKind::IndexOutOfBounds, pc: 2, function: None }));

    let mut vm = VM::new();
    let mut chunk = chunk_of(
        &[OpCode::Get(true, 0), OpCode::InitArray(1), OpCode::Get(true, 1), OpCode::IndexGet],
        &[Instance::Int16(1), Instance::Int32(-1)],
    );
    assert_eq!(run(&mut vm, &mut chunk), Err(Fault { kind: FaultKind::IndexOutOfBounds, pc: 3, function: None }));

    let mut vm = VM::new();
    let mut chunk = chunk_of(&[OpCode::GetTrue, OpCode::GetTrue, OpCode::IndexGet], &[]);
    assert_eq!(run(&mut vm, &mut chunk), Err(Fault { kind: FaultKind::TypeMismatch, pc: 2, function: None }));
}

#[test]
fn print_renders_display_forms() {
    let mut vm = VM::new();
    let s = vm.intern("x");
    let mut chunk = chunk_of(
        &[
            OpCode::Get(true, 0),
            OpCode::Get(true, 1),
            OpCode::InitArray(2),
            OpCode::Print,
            OpCode::Get(true, 2),
            OpCode::Print,
            OpCode::Get(true, 3),
            OpCode::Print,
            OpCode::GetFalse,
            OpCode::Print,
            OpCode::Get(true, 4),
            OpCode::Print,
        ],
        &[Instance::Int16(-3), Instance::Int16(40), s, Instance::Char('q'), Instance::Void],
    );
    assert_eq!(run(&mut vm, &mut chunk), Ok(InstructionResult::Return));
    assert_eq!(
        vm.output(),
        &vec![
            "silicon.lang.Int16[-3, 40]".to_string(),
            "\"x\"".to_string(),
            "'q'".to_string(),
            "false".to_string(),
            "void".to_string(),
        ]
    );
}

#[test]
fn largest_values_render() {
    let vm = VM::new();
    assert_eq!(vm.display(Instance::Int128(i128::MIN)), "-170141183460469231731687303715884105728");
    assert_eq!(vm.display(Instance::UInt128(u128::MAX)), "340282366920938463463374607431768211455");
    assert_eq!(vm.display(Instance::UByte(0)), "0");
}

#[test]
fn call_faults() {
    let mut vm = VM::new();
    let mut chunk = chunk_of(&[OpCode::GetTrue, OpCode::Call], &[]);
    assert_eq!(run(&mut vm, &mut chunk), Err(Fault { kind: FaultKind::NotAFunction, pc: 1, function: None }));

    let mut vm = VM::new();
    let mut body = Chunk::new();
    body.lock();
    let f = vm.define_function(Function::new(2, vec![ty("silicon.lang.Int16"), ty("silicon.lang.Int16")], ty("silicon.lang.Void"), body).unwrap());
    let mut chunk = chunk_of(&[OpCode::Get(true, 0), OpCode::Get(true, 1), OpCode::Call], &[Instance::Int16(1), f]);
    assert_eq!(run(&mut vm, &mut chunk), Err(Fault { kind: FaultKind::ArityMismatch, pc: 2, function: None }));
}

#[test]
fn fault_inside_function_names_it() {
    let mut vm = VM::new();
    let mut body = chunk_of(&[OpCode::GetTrue, OpCode::Add], &[]);
    body.lock();
    let f = vm.define_function(Function::new(0, vec![], ty("silicon.lang.Void"), body).unwrap());
    let mut chunk = chunk_of(&[OpCode::Get(true, 0), OpCode::Call], &[f]);
    assert_eq!(run(&mut vm, &mut chunk), Err(Fault { kind: FaultKind::StackUnderflow, pc: 1, function: Some(0) }));
}

#[test]
fn void_function_returns_nothing() {
    let mut vm = VM::new();
    let mut body = chunk_of(&[OpCode::Get(false, 0), OpCode::Print], &[]);
    body.lock();
    let f = vm.define_function(Function::new(1, vec![ty("silicon.lang.Int16")], ty("silicon.lang.Void"), body).unwrap());
    let mut chunk = chunk_of(&[OpCode::Get(true, 1), OpCode::Get(true, 0), OpCode::Call, OpCode::GetTrue, OpCode::Return(true)], &[f, Instance::Int16(8)]);
    assert_eq!(run(&mut vm, &mut chunk), Ok(InstructionResult::ReturnWith(Instance::Bool(true))));
    assert_eq!(vm.output(), &vec!["8".to_string()]);
    assert_eq!(vm.register().len(), 0);
}

#[test]
fn recursion_counts_down() {
    // f(n) = if n > 0 { f(n - 1) } else { n }
    let mut vm = VM::new();
    let mut body = chunk_of(
        &[
            OpCode::Get(false, 0),
            OpCode::Get(true, 0),
            OpCode::Greater,
            OpCode::Jump(true, 0),
            OpCode::Get(false, 0),
            OpCode::Get(true, 1),
            OpCode::Subtract,
            OpCode::Get(true, 2),
            OpCode::Call,
            OpCode::Return(true),
            OpCode::Get(false, 0),
            OpCode::Return(true),
        ],
        &[Instance::Int32(0), Instance::Int32(1), Instance::Func(0)],
    );
    body.add_jump_point(0, 10).unwrap();
    body.lock();
    let f = vm.define_function(Function::new(1, vec![ty("silicon.lang.Int32")], ty("silicon.lang.Int32"), body).unwrap());
    let mut chunk = chunk_of(&[OpCode::Get(true, 0), OpCode::Get(true, 1), OpCode::Call, OpCode::Return(true)], &[Instance::Int32(20), f]);
    assert_eq!(run(&mut vm, &mut chunk), Ok(InstructionResult::ReturnWith(Instance::Int32(0))));
    assert_eq!(vm.register().len(), 0);
}

#[test]
fn step_limit_stops_endless_loop() {
    let mut vm = VM::new();
    let mut chunk = chunk_of(&[OpCode::Jump(false, 0)], &[]);
    chunk.add_jump_point(0, 0).unwrap();
    chunk.lock();
    assert_eq!(
        vm.execute_chunk(&chunk, CallFrame::new(), vec![], vec![], 50),
        Err(Fault { kind: FaultKind::StepLimit, pc: 0, function: None })
    );
}

#[test]
fn unlocked_chunk_is_refused() {
    let mut vm = VM::new();
    let chunk = chunk_of(&[OpCode::GetTrue], &[]);
    assert_eq!(
        vm.execute_chunk(&chunk, CallFrame::new(), vec![], vec![], 50),
        Err(Fault { kind: FaultKind::ChunkUnlocked, pc: 0, function: None })
    );
}

#[test]
fn arguments_are_declared_in_order() {
    let mut vm = VM::new();
    let mut chunk = chunk_of(&[OpCode::Get(false, 1), OpCode::Return(true)], &[]);
    chunk.lock();
    let r = vm.execute_chunk(
        &chunk,
        CallFrame::new(),
        vec![Instance::Int16(1), Instance::Bool(false)],
        vec![ty("silicon.lang.Int16"), ty("silicon.lang.Boolean")],
        50,
    );
    assert_eq!(r, Ok(InstructionResult::ReturnWith(Instance::Bool(false))));
    assert_eq!(
        vm.execute_chunk(&chunk, CallFrame::new(), vec![Instance::Int16(1)], vec![], 50),
        Err(Fault { kind: FaultKind::ArityMismatch, pc: 0, function: None })
    );
}

#[test]
fn missing_constant_faults() {
    let mut vm = VM::new();
    let mut chunk = chunk_of(&[OpCode::Get(true, 4)], &[]);
    assert_eq!(run(&mut vm, &mut chunk), Err(Fault { kind: FaultKind::ConstantAbsent, pc: 0, function: None }));
}

#[test]
fn empty_stack_underflows() {
    let mut vm = VM::new();
    let mut chunk = chunk_of(&[OpCode::Print], &[]);
    assert_eq!(run(&mut vm, &mut chunk), Err(Fault { kind: FaultKind::StackUnderflow, pc: 0, function: None }));
}

#[test]
fn call_func_runs_the_whole_call() {
    let mut vm = VM::new();
    let mut body = chunk_of(
        &[OpCode::Get(false, 0), OpCode::Get(false, 0), OpCode::Multiply, OpCode::Return(true)],
        &[],
    );
    body.lock();
    let square = vm.define_function(Function::new(1, vec![ty("silicon.lang.Byte")], ty("silicon.lang.Byte"), body).unwrap());
    vm.push(Instance::Int16(1));
    vm.declare_variable(4, false, 0).unwrap();
    vm.push(Instance::Bool(true));
    vm.push(Instance::Byte(5));
    vm.push(square);
    let mut top = Chunk::new();
    top.lock();
    assert_eq!(vm.call_func(&top, None, 0, 0, 100), Ok(Some(Instance::Byte(25))));
    assert_eq!(vm.stack(), &vec![Instance::Bool(true), Instance::Byte(25)]);
    assert_eq!(vm.register().len(), 1);
    assert_eq!(vm.register().get(0), Ok(Instance::Int16(1)));
}

#[test]
fn call_func_reports_binding_faults_at_the_call() {
    let mut vm = VM::new();
    vm.push(Instance::Bool(true));
    let mut top = Chunk::new();
    top.lock();
    assert_eq!(
        vm.call_func(&top, Some(3), 7, 0, 100),
        Err(Fault { kind: FaultKind::NotAFunction, pc: 7, function: Some(3) })
    );
    assert_eq!(vm.stack(), &vec![Instance::Bool(true)]);
}

#[test]
fn scope_exit_in_callee_keeps_caller_slots() {
    let mut vm = VM::new();
    let mut body = chunk_of(&[OpCode::EnterScope(5), OpCode::ExitScope], &[]);
    body.lock();
    let f = vm.define_function(Function::new(0, vec![], ty("silicon.lang.Void"), body).unwrap());
    let mut main = chunk_of(
        &[OpCode::Get(true, 0), OpCode::Declare(false, 4), OpCode::Get(true, 1), OpCode::Call, OpCode::Get(false, 0), OpCode::Return(true)],
        &[Instance::Int16(9), f],
    );
    assert_eq!(run(&mut vm, &mut main), Ok(InstructionResult::ReturnWith(Instance::Int16(9))));
    assert_eq!(vm.register().len(), 1);
}

#[test]
fn faults_leave_the_stack_alone() {
    let mut vm = VM::new();
    vm.push(Instance::Int16(1));
    vm.push(Instance::Int16(2));
    assert_eq!(vm.concat(0), Err(FaultKind::TypeMismatch));
    assert_eq!(vm.index_get(0), Err(FaultKind::TypeMismatch));
    assert_eq!(vm.stack(), &vec![Instance::Int16(1), Instance::Int16(2)]);
}
