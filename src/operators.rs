use vstd::prelude::*;
use crate::fault::FaultKind;
use crate::instance::{Instance, same_variant, type_index};
use crate::math;
use crate::math::{
    MathResult, add_unsigned, subtract_unsigned,
    multiply_unsigned, divide_unsigned, power_unsigned, power_of, trunc_div, signed_bounds,
    unsigned_bounds, bounded_signed, bounded_unsigned,
};

verus! {

/// The binary arithmetic operators.
#[derive(Clone, Copy, Debug, PartialEq, Eq, Structural)]
pub enum BinaryOp {
    Add,
    Subtract,
    Multiply,
    Divide,
    Power,
}

pub open spec fn is_signed(x: Instance) -> bool {
    x is Byte || x is Int16 || x is Int32 || x is Int64 || x is Int128
}

pub open spec fn is_unsigned(x: Instance) -> bool {
    x is UByte || x is UInt16 || x is UInt32 || x is UInt64 || x is UInt128
}

pub open spec fn is_integer(x: Instance) -> bool {
    is_signed(x) || is_unsigned(x)
}

/// The mathematical value of an integer instance.
pub open spec fn int_value(x: Instance) -> int {
    match x {
        Instance::Byte(v) => v as int,
        Instance::UByte(v) => v as int,
        Instance::Int16(v) => v as int,
        Instance::UInt16(v) => v as int,
        Instance::Int32(v) => v as int,
        Instance::UInt32(v) => v as int,
        Instance::Int64(v) => v as int,
        Instance::UInt64(v) => v as int,
        Instance::Int128(v) => v as int,
        Instance::UInt128(v) => v as int,
        _ => 0,
    }
}

/// Least value of the integer variant of `x`.
pub open spec fn min_of(x: Instance) -> int {
    match x {
        Instance::Byte(_) => i8::MIN as int,
        Instance::Int16(_) => i16::MIN as int,
        Instance::Int32(_) => i32::MIN as int,
        Instance::Int64(_) => i64::MIN as int,
        Instance::Int128(_) => i128::MIN as int,
        _ => 0,
    }
}

/// Greatest value of the integer variant of `x`.
pub open spec fn max_of(x: Instance) -> int {
    match x {
        Instance::Byte(_) => i8::MAX as int,
        Instance::UByte(_) => u8::MAX as int,
        Instance::Int16(_) => i16::MAX as int,
        Instance::UInt16(_) => u16::MAX as int,
        Instance::Int32(_) => i32::MAX as int,
        Instance::UInt32(_) => u32::MAX as int,
        Instance::Int64(_) => i64::MAX as int,
        Instance::UInt64(_) => u64::MAX as int,
        Instance::Int128(_) => i128::MAX as int,
        Instance::UInt128(_) => u128::MAX as int,
        _ => 0,
    }
}

/// The value of the integer variant of `x` that holds `v`.
pub open spec fn with_value(x: Instance, v: int) -> Instance {
    match x {
        Instance::Byte(_) => Instance::Byte(v as i8),
        Instance::UByte(_) => Instance::UByte(v as u8),
        Instance::Int16(_) => Instance::Int16(v as i16),
        Instance::UInt16(_) => Instance::UInt16(v as u16),
        Instance::Int32(_) => Instance::Int32(v as i32),
        Instance::UInt32(_) => Instance::UInt32(v as u32),
        Instance::Int64(_) => Instance::Int64(v as i64),
        Instance::UInt64(_) => Instance::UInt64(v as u64),
        Instance::Int128(_) => Instance::Int128(v as i128),
        Instance::UInt128(_) => Instance::UInt128(v as u128),
        _ => x,
    }
}

/// The exact result of `a op b` over the integers.
pub open spec fn op_value(op: BinaryOp, a: int, b: int) -> int {
    match op {
        BinaryOp::Add => a + b,
        BinaryOp::Subtract => a - b,
        BinaryOp::Multiply => a * b,
        BinaryOp::Divide => trunc_div(a, b),
        BinaryOp::Power => power_of(a, b as nat),
    }
}

/// `a op b` for a type with range `[min, max]`.
pub open spec fn arith_int(op: BinaryOp, a: int, b: int, min: int, max: int) -> Result<int, FaultKind> {
    if op == BinaryOp::Divide && b == 0 {
        Err(FaultKind::DivideByZero)
    } else if op == BinaryOp::Power && b < 0 {
        Err(FaultKind::NegativeExponent)
    } else if min <= op_value(op, a, b) <= max {
        Ok(op_value(op, a, b))
    } else {
        Err(FaultKind::Overflow)
    }
}

/// `l op r` on instances: both operands must be the same integer variant,
/// and the result is of that variant.
pub open spec fn arith_spec(op: BinaryOp, l: Instance, r: Instance) -> Result<Instance, FaultKind> {
    if is_integer(l) && same_variant(l, r) {
        match arith_int(op, int_value(l), int_value(r), min_of(l), max_of(l)) {
            Ok(v) => Ok(with_value(l, v)),
            Err(e) => Err(e),
        }
    } else {
        Err(FaultKind::TypeMismatch)
    }
}

/// The ordering test that `Less`, `Greater`, `LessOrEq` and `GreaterOrEq`
/// share: `flip` swaps the operands, `allow_equal` also accepts equality.
pub open spec fn ordered(flip: bool, allow_equal: bool, a: int, b: int) -> bool {
    (if flip { b < a } else { a < b }) || (allow_equal && a == b)
}

pub open spec fn compare_spec(flip: bool, allow_equal: bool, l: Instance, r: Instance) -> Result<bool, FaultKind> {
    if is_integer(l) && same_variant(l, r) {
        Ok(ordered(flip, allow_equal, int_value(l), int_value(r)))
    } else {
        Err(FaultKind::TypeMismatch)
    }
}

/// `Eq` (`negate == false`) and `NotEq` (`negate == true`): values of one
/// variant compare by content; a mismatched pair is never equal nor unequal.
pub open spec fn equate_spec(negate: bool, l: Instance, r: Instance) -> bool {
    same_variant(l, r) && ((l == r) != negate)
}

pub open spec fn negate_spec(x: Instance) -> Result<Instance, FaultKind> {
    if is_signed(x) {
        if min_of(x) <= -int_value(x) <= max_of(x) {
            Ok(with_value(x, -int_value(x)))
        } else {
            Err(FaultKind::Overflow)
        }
    } else {
        Err(FaultKind::TypeMismatch)
    }
}

pub open spec fn logic_negate_spec(x: Instance) -> Result<Instance, FaultKind> {
    match x {
        Instance::Bool(b) => Ok(Instance::Bool(!b)),
        _ => Err(FaultKind::TypeMismatch),
    }
}

fn signed_op(op: BinaryOp, a: i128, b: i128, min: i128, max: i128) -> (r: Result<i128, FaultKind>)
    requires
        signed_bounds(min as int, max as int),
    ensures
        match r {
            Ok(v) => arith_int(op, a as int, b as int, min as int, max as int) == Ok::<int, FaultKind>(v as int),
            Err(e) => arith_int(op, a as int, b as int, min as int, max as int) == Err::<int, FaultKind>(e),
        },
{
    let m = match op {
        BinaryOp::Add => math::add(a, b, min, max),
        BinaryOp::Subtract => math::subtract(a, b, min, max),
        BinaryOp::Multiply => math::multiply(a, b, min, max),
        BinaryOp::Divide => {
            if b == 0 {
                return Err(FaultKind::DivideByZero);
            }
            math::divide(a, b, min, max)
        },
        BinaryOp::Power => {
            if b < 0 {
                return Err(FaultKind::NegativeExponent);
            }
            math::power(a, b as u128, min, max)
        },
    };
    match m {
        MathResult::Value(v) => Ok(v),
        _ => Err(FaultKind::Overflow),
    }
}

fn unsigned_op(op: BinaryOp, a: u128, b: u128, max: u128) -> (r: Result<u128, FaultKind>)
    requires
        unsigned_bounds(max as int),
    ensures
        match r {
            Ok(v) => arith_int(op, a as int, b as int, 0, max as int) == Ok::<int, FaultKind>(v as int),
            Err(e) => arith_int(op, a as int, b as int, 0, max as int) == Err::<int, FaultKind>(e),
        },
{
    let m = match op {
        BinaryOp::Add => add_unsigned(a, b, max),
        BinaryOp::Subtract => subtract_unsigned(a, b, max),
        BinaryOp::Multiply => multiply_unsigned(a, b, max),
        BinaryOp::Divide => {
            if b == 0 {
                return Err(FaultKind::DivideByZero);
            }
            divide_unsigned(a, b, max)
        },
        BinaryOp::Power => power_unsigned(a, b, max),
    };
    match m {
        MathResult::Value(v) => Ok(v),
        _ => Err(FaultKind::Overflow),
    }
}

/// `l op r` on instances.
pub fn arith(op: BinaryOp, l: Instance, r: Instance) -> (res: Result<Instance, FaultKind>)
    ensures
        res == arith_spec(op, l, r),
{
    match (l, r) {
        (Instance::Byte(a), Instance::Byte(b)) => {
            match signed_op(op, a as i128, b as i128, i8::MIN as i128, i8::MAX as i128) {
                Ok(v) => Ok(Instance::Byte(v as i8)),
                Err(e) => Err(e),
            }
        },
        (Instance::Int16(a), Instance::Int16(b)) => {
            match signed_op(op, a as i128, b as i128, i16::MIN as i128, i16::MAX as i128) {
                Ok(v) => Ok(Instance::Int16(v as i16)),
                Err(e) => Err(e),
            }
        },
        (Instance::Int32(a), Instance::Int32(b)) => {
            match signed_op(op, a as i128, b as i128, i32::MIN as i128, i32::MAX as i128) {
                Ok(v) => Ok(Instance::Int32(v as i32)),
                Err(e) => Err(e),
            }
        },
        (Instance::Int64(a), Instance::Int64(b)) => {
            match signed_op(op, a as i128, b as i128, i64::MIN as i128, i64::MAX as i128) {
                Ok(v) => Ok(Instance::Int64(v as i64)),
                Err(e) => Err(e),
            }
        },
        (Instance::Int128(a), Instance::Int128(b)) => {
            match signed_op(op, a, b, i128::MIN, i128::MAX) {
                Ok(v) => Ok(Instance::Int128(v)),
                Err(e) => Err(e),
            }
        },
        (Instance::UByte(a), Instance::UByte(b)) => {
            match unsigned_op(op, a as u128, b as u128, u8::MAX as u128) {
                Ok(v) => Ok(Instance::UByte(v as u8)),
                Err(e) => Err(e),
            }
        },
        (Instance::UInt16(a), Instance::UInt16(b)) => {
            match unsigned_op(op, a as u128, b as u128, u16::MAX as u128) {
                Ok(v) => Ok(Instance::UInt16(v as u16)),
                Err(e) => Err(e),
            }
        },
        (Instance::UInt32(a), Instance::UInt32(b)) => {
            match unsigned_op(op, a as u128, b as u128, u32::MAX as u128) {
                Ok(v) => Ok(Instance::UInt32(v as u32)),
                Err(e) => Err(e),
            }
        },
        (Instance::UInt64(a), Instance::UInt64(b)) => {
            match unsigned_op(op, a as u128, b as u128, u64::MAX as u128) {
                Ok(v) => Ok(Instance::UInt64(v as u64)),
                Err(e) => Err(e),
            }
        },
        (Instance::UInt128(a), Instance::UInt128(b)) => {
            match unsigned_op(op, a, b, u128::MAX) {
                Ok(v) => Ok(Instance::UInt128(v)),
                Err(e) => Err(e),
            }
        },
        _ => Err(FaultKind::TypeMismatch),
    }
}


fn ordered_signed(flip: bool, allow_equal: bool, a: i128, b: i128) -> (r: bool)
    ensures
        r == ordered(flip, allow_equal, a as int, b as int),
{
    (if flip { b < a } else { a < b }) || (allow_equal && a == b)
}

fn ordered_unsigned(flip: bool, allow_equal: bool, a: u128, b: u128) -> (r: bool)
    ensures
        r == ordered(flip, allow_equal, a as int, b as int),
{
    (if flip { b < a } else { a < b }) || (allow_equal && a == b)
}

/// The shared comparator of `Less`, `Greater`, `LessOrEq` and `GreaterOrEq`.
pub fn compare(flip: bool, allow_equal: bool, l: Instance, r: Instance) -> (res: Result<bool, FaultKind>)
    ensures
        res == compare_spec(flip, allow_equal, l, r),
{
    match (l, r) {
        (Instance::Byte(a), Instance::Byte(b)) => Ok(ordered_signed(flip, allow_equal, a as i128, b as i128)),
        (Instance::Int16(a), Instance::Int16(b)) => Ok(ordered_signed(flip, allow_equal, a as i128, b as i128)),
        (Instance::Int32(a), Instance::Int32(b)) => Ok(ordered_signed(flip, allow_equal, a as i128, b as i128)),
        (Instance::Int64(a), Instance::Int64(b)) => Ok(ordered_signed(flip, allow_equal, a as i128, b as i128)),
        (Instance::Int128(a), Instance::Int128(b)) => Ok(ordered_signed(flip, allow_equal, a, b)),
        (Instance::UByte(a), Instance::UByte(b)) => Ok(ordered_unsigned(flip, allow_equal, a as u128, b as u128)),
        (Instance::UInt16(a), Instance::UInt16(b)) => Ok(ordered_unsigned(flip, allow_equal, a as u128, b as u128)),
        (Instance::UInt32(a), Instance::UInt32(b)) => Ok(ordered_unsigned(flip, allow_equal, a as u128, b as u128)),
        (Instance::UInt64(a), Instance::UInt64(b)) => Ok(ordered_unsigned(flip, allow_equal, a as u128, b as u128)),
        (Instance::UInt128(a), Instance::UInt128(b)) => Ok(ordered_unsigned(flip, allow_equal, a, b)),
        _ => Err(FaultKind::TypeMismatch),
    }
}

/// `Eq` and `NotEq`; never a fault.
pub fn equate(negate: bool, l: Instance, r: Instance) -> (res: bool)
    ensures
        res == equate_spec(negate, l, r),
{
    l.type_index() == r.type_index() && ((l == r) != negate)
}

fn negate_signed(v: i128, min: i128, max: i128) -> (r: Result<i128, FaultKind>)
    requires
        signed_bounds(min as int, max as int),
        min <= v <= max,
    ensures
        match r {
            Ok(n) => n as int == -v && min <= n <= max,
            Err(e) => e == FaultKind::Overflow && !(min <= -v <= max),
        },
{
    match math::subtract(0, v, min, max) {
        MathResult::Value(n) => Ok(n),
        _ => Err(FaultKind::Overflow),
    }
}

/// Arithmetic negation of a signed integer.
pub fn negate(x: Instance) -> (res: Result<Instance, FaultKind>)
    ensures
        res == negate_spec(x),
{
    match x {
        Instance::Byte(a) => match negate_signed(a as i128, i8::MIN as i128, i8::MAX as i128) {
            Ok(n) => Ok(Instance::Byte(n as i8)),
            Err(e) => Err(e),
        },
        Instance::Int16(a) => match negate_signed(a as i128, i16::MIN as i128, i16::MAX as i128) {
            Ok(n) => Ok(Instance::Int16(n as i16)),
            Err(e) => Err(e),
        },
        Instance::Int32(a) => match negate_signed(a as i128, i32::MIN as i128, i32::MAX as i128) {
            Ok(n) => Ok(Instance::Int32(n as i32)),
            Err(e) => Err(e),
        },
        Instance::Int64(a) => match negate_signed(a as i128, i64::MIN as i128, i64::MAX as i128) {
            Ok(n) => Ok(Instance::Int64(n as i64)),
            Err(e) => Err(e),
        },
        Instance::Int128(a) => match negate_signed(a, i128::MIN, i128::MAX) {
            Ok(n) => Ok(Instance::Int128(n)),
            Err(e) => Err(e),
        },
        _ => Err(FaultKind::TypeMismatch),
    }
}

/// Logical negation of a boolean.
pub fn logic_negate(x: Instance) -> (res: Result<Instance, FaultKind>)
    ensures
        res == logic_negate_spec(x),
{
    match x {
        Instance::Bool(b) => Ok(Instance::Bool(!b)),
        _ => Err(FaultKind::TypeMismatch),
    }
}

} // verus!
