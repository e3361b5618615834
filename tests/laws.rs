use siliconvm::frame::CallFrame;
use siliconvm::instance::Instance;
use siliconvm::math::{self, MathResult};
use siliconvm::register::Register;
use siliconvm::string_pool::StringPool;
use siliconvm::types::{Type, TypeRegistry};
use siliconvm::vm::VM;

#[test]
fn equal_content_gets_one_handle() {
    let mut pool = StringPool::new();
    let a = pool.pool_str("silicon");
    let other = pool.pool_str("other");
    let b = pool.pool_string("silicon".to_string());
    assert_eq!(a, b);
    assert_ne!(a, other);
    assert_eq!(pool.len(), 2);
    assert_eq!(pool.content(a), "silicon");
}

#[test]
fn object_matches_everything() {
    let object = Type::new("silicon.lang.Object".to_string());
    let int16 = Type::new("silicon.lang.Int16".to_string());
    let samples = [
        Instance::Bool(true),
        Instance::Int16(3),
        Instance::UInt128(9),
        Instance::Char('x'),
        Instance::Str(0),
        Instance::Array(0),
        Instance::Func(0),
        Instance::Void,
    ];
    for x in samples.iter() {
        assert!(object.is(x));
        assert_eq!(int16.is(x), matches!(x, Instance::Int16(_)));
    }
}

#[test]
fn truncate_then_declare_lands_at_cut() {
    let mut reg = Register::new();
    for i in 0..5 {
        reg.declare(false, Instance::Int32(i), Type::new("silicon.lang.Int32".to_string()));
    }
    reg.truncate(2);
    assert_eq!(reg.len(), 2);
    assert!(reg.get(2).is_err());
    assert_eq!(reg.declare(false, Instance::Int32(70), Type::new("silicon.lang.Int32".to_string())), 2);
    assert_eq!(reg.get(2), Ok(Instance::Int32(70)));
    assert!(reg.get(3).is_err());
    reg.truncate(9);
    assert_eq!(reg.len(), 3);
}

#[test]
fn declared_value_reads_back() {
    let mut reg = Register::new();
    let idx = reg.declare(false, Instance::UInt16(41), Type::new("silicon.lang.UInt16".to_string()));
    assert_eq!(reg.get(idx), Ok(Instance::UInt16(41)));
    assert_eq!(reg.set(idx, Instance::UInt16(42)), Ok(()));
    assert_eq!(reg.get(idx), Ok(Instance::UInt16(42)));
}

#[test]
fn stray_exit_keeps_offsets() {
    let mut vm = VM::new();
    let mut frame = CallFrame::new_with_offset(3, 5, 0);
    vm.exit_scope(&mut frame);
    assert_eq!(frame.register_access_offset(), 3);
    assert_eq!(frame.register_declare_offset(), 5);
    assert_eq!(vm.register().len(), 0);
    assert!(vm.enter_scope(4, &mut frame).is_ok());
    assert_eq!(frame.register_declare_offset(), 9);
    vm.exit_scope(&mut frame);
    assert_eq!(frame.register_declare_offset(), 5);
    assert_eq!(vm.diagnostics().len(), 1);
}

#[test]
fn enter_scope_refuses_overflow() {
    let mut frame = CallFrame::new_with_offset(0, 65530, 0);
    assert!(frame.enter_scope(10).is_err());
    assert_eq!(frame.register_declare_offset(), 65530);
}

#[test]
fn bounded_arithmetic() {
    assert!(matches!(math::add(100, 27, -128, 127), MathResult::Value(127)));
    assert!(matches!(math::add(100, 28, -128, 127), MathResult::Overflow));
    assert!(matches!(math::subtract(-100, 29, -128, 127), MathResult::Underflow));
    assert!(matches!(math::multiply(-64, 2, -128, 127), MathResult::Value(-128)));
    assert!(matches!(math::divide(-7, 2, -128, 127), MathResult::Value(-3)));
    assert!(matches!(math::divide(-128, -1, -128, 127), MathResult::Overflow));
    assert!(matches!(math::power(-3, 5, -128, 127), MathResult::Underflow));
    assert!(matches!(math::power(-1, 1001, -128, 127), MathResult::Value(-1)));
    assert!(matches!(math::power(0, 0, -128, 127), MathResult::Value(1)));
    assert!(matches!(math::add_unsigned(200, 55, 255), MathResult::Value(255)));
    assert!(matches!(math::subtract_unsigned(1, 2, 255), MathResult::Underflow));
    assert!(matches!(math::multiply_unsigned(16, 16, 255), MathResult::Overflow));
    assert!(matches!(math::divide_unsigned(255, 16, 255), MathResult::Value(15)));
    assert!(matches!(math::power_unsigned(2, 200, u128::MAX), MathResult::Overflow));
    assert!(matches!(math::power_unsigned(1, u128::MAX, 255), MathResult::Value(1)));
    let over: fn() -> i128 = || 127;
    let under: fn() -> i128 = || -128;
    assert_eq!(math::add(120, 120, -128, 127).unwrap(over, under), 127);
    assert_eq!(math::subtract(-120, 120, -128, 127).unwrap(over, under), -128);
    assert_eq!(math::add(1, 2, -128, 127).unwrap(over, under), 3);
}

#[test]
fn generic_type_names() {
    let list = Type::new_generic("silicon.lang.List".to_string());
    assert!(list.is_generic());
    let int16 = Type::new("silicon.lang.Int16".to_string());
    let chr = Type::new("silicon.lang.Char".to_string());
    let reified = list.reify(vec![int16.duplicate(), chr]).unwrap();
    assert!(!reified.is_generic());
    assert_eq!(reified.get_canonical_name(), "silicon.lang.List<silicon.lang.Int16,silicon.lang.Char>");
    assert_eq!(reified.name(), "silicon.lang.List");
    assert!(int16.reify(vec![]).is_none());
    assert_eq!(int16.get_canonical_name(), "silicon.lang.Int16");
}

#[test]
fn registry_catalogue() {
    let registry = TypeRegistry::new();
    assert_eq!(registry.len(), 18);
    assert_eq!(registry.get(0).unwrap().name(), "silicon.lang.Object");
    assert_eq!(registry.get(17).unwrap().name(), "silicon.lang.Func");
    assert!(registry.get(18).is_none());
    assert_eq!(registry.get_by_name(&"silicon.lang.Char".to_string()).unwrap().name(), "silicon.lang.Char");
    assert!(registry.get_by_name(&"silicon.lang.Void".to_string()).is_none());
}

#[test]
fn canonical_names_of_values() {
    assert_eq!(Instance::Byte(1).get_canonical_name(), "silicon.lang.Byte");
    assert_eq!(Instance::Void.get_canonical_name(), "silicon.lang.Void");
    assert_eq!(Instance::Array(3).type_index(), 16);
}
