use vstd::prelude::*;

verus! {

/// Outcome of an arithmetic operation checked against the bounds of a
/// numeric type.
pub enum MathResult<T> {
    Value(T),
    Overflow,
    Underflow,
}

impl<T> MathResult<T> {
    /// The value, or the result of `over` / `under` for an out-of-range
    /// outcome.
    pub fn unwrap<F>(self, over: F, under: F) -> (r: T) where F: Fn() -> T
        requires
            over.requires(()),
            under.requires(()),
        ensures
            match self {
                MathResult::Value(t) => r == t,
                MathResult::Overflow => over.ensures((), r),
                MathResult::Underflow => under.ensures((), r),
            },
    {
        match self {
            MathResult::Overflow => over(),
            MathResult::Underflow => under(),
            MathResult::Value(t) => t,
        }
    }
}

/// `v` checked against the signed bounds `[min, max]`.
pub open spec fn bounded_signed(v: int, min: int, max: int) -> MathResult<i128> {
    if v > max {
        MathResult::Overflow
    } else if v < min {
        MathResult::Underflow
    } else {
        MathResult::Value(v as i128)
    }
}

/// `v` checked against the unsigned bounds `[0, max]`.
pub open spec fn bounded_unsigned(v: int, max: int) -> MathResult<u128> {
    if v > max {
        MathResult::Overflow
    } else if v < 0 {
        MathResult::Underflow
    } else {
        MathResult::Value(v as u128)
    }
}

/// Integer division that rounds toward zero.
pub open spec fn trunc_div(a: int, b: int) -> int {
    let q = abs(a) / abs(b);
    if (a < 0) != (b < 0) {
        -q
    } else {
        q
    }
}

pub open spec fn abs(a: int) -> int {
    if a < 0 {
        -a
    } else {
        a
    }
}

/// `b` raised to the power `e`.
pub open spec fn power_of(b: int, e: nat) -> int
    decreases e,
{
    if e == 0 {
        1
    } else {
        b * power_of(b, (e - 1) as nat)
    }
}

/// Two's-complement bounds: `min` is `-max - 1`.
pub open spec fn signed_bounds(min: int, max: int) -> bool {
    &&& 0 < max <= i128::MAX
    &&& min == -max - 1
}

/// Unsigned bounds: `max` is positive and fits in `u128`.
pub open spec fn unsigned_bounds(max: int) -> bool {
    0 < max <= u128::MAX
}

fn classify_signed(v: i128, min: i128, max: i128) -> (r: MathResult<i128>)
    ensures
        r == bounded_signed(v as int, min as int, max as int),
{
    if v > max {
        MathResult::Overflow
    } else if v < min {
        MathResult::Underflow
    } else {
        MathResult::Value(v)
    }
}

fn classify_unsigned(v: u128, max: u128) -> (r: MathResult<u128>)
    ensures
        r == bounded_unsigned(v as int, max as int),
{
    if v > max {
        MathResult::Overflow
    } else {
        MathResult::Value(v)
    }
}

/// Signed addition within `[min, max]`.
pub fn add(left: i128, right: i128, min: i128, max: i128) -> (r: MathResult<i128>)
    ensures
        r == bounded_signed(left + right, min as int, max as int),
{
    match left.checked_add(right) {
        Some(v) => classify_signed(v, min, max),
        None => {
            if right > 0 {
                MathResult::Overflow
            } else {
                MathResult::Underflow
            }
        },
    }
}

/// Signed subtraction within `[min, max]`.
pub fn subtract(left: i128, right: i128, min: i128, max: i128) -> (r: MathResult<i128>)
    ensures
        r == bounded_signed(left - right, min as int, max as int),
{
    match left.checked_sub(right) {
        Some(v) => classify_signed(v, min, max),
        None => {
            if right < 0 {
                MathResult::Overflow
            } else {
                MathResult::Underflow
            }
        },
    }
}

/// Signed multiplication within `[min, max]`.
pub fn multiply(left: i128, right: i128, min: i128, max: i128) -> (r: MathResult<i128>)
    ensures
        r == bounded_signed(left * right, min as int, max as int),
{
    match left.checked_mul(right) {
        Some(v) => classify_signed(v, min, max),
        None => {
            proof {
                let (a, b) = (left as int, right as int);
                assert((a < 0) == (b < 0) ==> a * b >= 0) by (nonlinear_arith);
                assert((a < 0) != (b < 0) ==> a * b <= 0) by (nonlinear_arith);
            }
            if (left < 0) == (right < 0) {
                MathResult::Overflow
            } else {
                MathResult::Underflow
            }
        },
    }
}

/// Signed division, rounding toward zero, within `[min, max]`.
pub fn divide(left: i128, right: i128, min: i128, max: i128) -> (r: MathResult<i128>)
    requires
        right != 0,
    ensures
        r == bounded_signed(trunc_div(left as int, right as int), min as int, max as int),
{
    match left.checked_div(right) {
        Some(v) => classify_signed(v, min, max),
        None => MathResult::Overflow,
    }
}


proof fn lemma_power_grows(b: int, i: nat, e: nat)
    requires
        abs(b) >= 2,
        i < e,
    ensures
        abs(power_of(b, e)) >= 2 * abs(power_of(b, i)),
    decreases e,
{
    let p = power_of(b, (e - 1) as nat);
    assert(power_of(b, e) == b * p);
    assert(abs(b * p) == abs(b) * abs(p)) by (nonlinear_arith);
    assert(abs(b) * abs(p) >= 2 * abs(p)) by (nonlinear_arith)
        requires
            abs(b) >= 2,
            abs(p) >= 0,
    ;
    if i + 1 < e {
        lemma_power_grows(b, i, (e - 1) as nat);
    }
}

proof fn lemma_power_sign(b: int, e: nat)
    requires
        b != 0,
    ensures
        (b < 0 && e % 2 == 1) ==> power_of(b, e) < 0,
        !(b < 0 && e % 2 == 1) ==> power_of(b, e) > 0,
    decreases e,
{
    if e > 0 {
        let p = power_of(b, (e - 1) as nat);
        lemma_power_sign(b, (e - 1) as nat);
        assert(power_of(b, e) == b * p);
        assert(b < 0 && p < 0 ==> b * p > 0) by (nonlinear_arith);
        assert(b < 0 && p > 0 ==> b * p < 0) by (nonlinear_arith);
        assert(b > 0 && p > 0 ==> b * p > 0) by (nonlinear_arith);
    }
}

proof fn lemma_power_small(b: int, e: nat)
    requires
        -1 <= b <= 1,
    ensures
        b == 0 ==> power_of(b, e) == (if e == 0 { 1int } else { 0int }),
        b == 1 ==> power_of(b, e) == 1,
        b == -1 ==> power_of(b, e) == (if e % 2 == 0 { 1int } else { -1int }),
    decreases e,
{
    if e > 0 {
        lemma_power_small(b, (e - 1) as nat);
    }
}

/// Signed exponentiation within `[min, max]`.
pub fn power(base: i128, exp: u128, min: i128, max: i128) -> (r: MathResult<i128>)
    requires
        signed_bounds(min as int, max as int),
    ensures
        r == bounded_signed(power_of(base as int, exp as nat), min as int, max as int),
{
    if -1 <= base && base <= 1 {
        proof {
            lemma_power_small(base as int, exp as nat);
        }
        let v: i128 = if base == 0 {
            if exp == 0 {
                1
            } else {
                0
            }
        } else if base == 1 {
            1
        } else if exp % 2 == 0 {
            1
        } else {
            -1
        };
        return classify_signed(v, min, max);
    }
    let ghost b = base as int;
    let ghost e = exp as nat;
    let mut acc: i128 = 1;
    let mut i: u128 = 0;
    while i < exp
        invariant
            abs(b) >= 2,
            b == base as int,
            e == exp as nat,
            i <= exp,
            acc as int == power_of(b, i as nat),
            min <= acc <= max,
            signed_bounds(min as int, max as int),
        decreases exp - i,
    {
        let ghost j = (i + 1) as nat;
        assert(power_of(b, j) == b * power_of(b, i as nat));
        let next = acc.checked_mul(base);
        let escaped = match next {
            Some(v) => v > max || v < min,
            None => true,
        };
        if escaped {
            proof {
                let v = power_of(b, j);
                assert(abs(v) >= max + 1);
                lemma_power_sign(b, e);
                if j < e {
                    lemma_power_grows(b, j, e);
                }
            }
            if base < 0 && exp % 2 == 1 {
                return MathResult::Underflow;
            } else {
                return MathResult::Overflow;
            }
        }
        acc = next.unwrap();
        i = i + 1;
    }
    MathResult::Value(acc)
}

/// Unsigned addition within `[0, max]`.
pub fn add_unsigned(left: u128, right: u128, max: u128) -> (r: MathResult<u128>)
    ensures
        r == bounded_unsigned(left + right, max as int),
{
    match left.checked_add(right) {
        Some(v) => classify_unsigned(v, max),
        None => MathResult::Overflow,
    }
}

/// Unsigned subtraction within `[0, max]`.
pub fn subtract_unsigned(left: u128, right: u128, max: u128) -> (r: MathResult<u128>)
    ensures
        r == bounded_unsigned(left - right, max as int),
{
    match left.checked_sub(right) {
        Some(v) => classify_unsigned(v, max),
        None => MathResult::Underflow,
    }
}

/// Unsigned multiplication within `[0, max]`.
pub fn multiply_unsigned(left: u128, right: u128, max: u128) -> (r: MathResult<u128>)
    ensures
        r == bounded_unsigned(left * right, max as int),
{
    match left.checked_mul(right) {
        Some(v) => classify_unsigned(v, max),
        None => MathResult::Overflow,
    }
}

/// Unsigned division within `[0, max]`.
pub fn divide_unsigned(left: u128, right: u128, max: u128) -> (r: MathResult<u128>)
    requires
        right != 0,
    ensures
        r == bounded_unsigned(trunc_div(left as int, right as int), max as int),
{
    classify_unsigned(left / right, max)
}

/// Unsigned exponentiation within `[0, max]`.
pub fn power_unsigned(base: u128, exp: u128, max: u128) -> (r: MathResult<u128>)
    requires
        unsigned_bounds(max as int),
    ensures
        r == bounded_unsigned(power_of(base as int, exp as nat), max as int),
{
    if base <= 1 {
        proof {
            lemma_power_small(base as int, exp as nat);
        }
        let v: u128 = if base == 0 && exp != 0 {
            0
        } else {
            1
        };
        return classify_unsigned(v, max);
    }
    let ghost b = base as int;
    let ghost e = exp as nat;
    let mut acc: u128 = 1;
    let mut i: u128 = 0;
    while i < exp
        invariant
            b >= 2,
            b == base as int,
            e == exp as nat,
            i <= exp,
            acc as int == power_of(b, i as nat),
            acc <= max,
            unsigned_bounds(max as int),
        decreases exp - i,
    {
        let ghost j = (i + 1) as nat;
        assert(power_of(b, j) == b * power_of(b, i as nat));
        let next = acc.checked_mul(base);
        let escaped = match next {
            Some(v) => v > max,
            None => true,
        };
        if escaped {
            proof {
                lemma_power_sign(b, e);
                if j < e {
                    lemma_power_grows(b, j, e);
                }
            }
            return MathResult::Overflow;
        }
        acc = next.unwrap();
        i = i + 1;
    }
    MathResult::Value(acc)
}

} // verus!
