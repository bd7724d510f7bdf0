//! The sample functions the corpus teaches with: function values passed as
//! arguments, and division guarded through `Result` and `Option`.

use vstd::prelude::*;
use vstd::string::*;

verus! {

/// Truncating integer division, as the machine division operator computes
/// it for any divisor other than zero.
pub open spec fn div_trunc(a: i32, b: i32) -> int {
    let x = a as int;
    let d = b as int;
    if x == 0 {
        0
    } else if x > 0 && d > 0 {
        x / d
    } else if x < 0 && d < 0 {
        (x * -1) / (d * -1)
    } else if x < 0 {
        ((x * -1) / d) * -1
    } else {
        (x / (d * -1)) * -1
    }
}

/// The truncating quotient of two machine integers stays in machine range,
/// except for the most negative value divided by minus one.
proof fn lemma_div_trunc_in_range(a: i32, b: i32)
    requires
        b != 0,
        !(a == i32::MIN && b == -1),
    ensures
        i32::MIN <= div_trunc(a, b) <= i32::MAX,
{
    let x = a as int;
    let d = b as int;
    if x == 0 {
    } else if x > 0 && d > 0 {
        assert(0 <= x / d <= x) by (nonlinear_arith)
            requires
                x > 0 && d > 0,
        ;
    } else if x < 0 && d < 0 {
        let p = x * -1;
        let q = d * -1;
        assert(1 <= p <= 0x8000_0000 && q >= 1);
        if q == 1 {
            assert(p <= 0x7fff_ffff);
            assert(p / 1 == p);
        } else {
            assert(0 <= p / q <= p / 2) by (nonlinear_arith)
                requires
                    p >= 1 && q >= 2,
            ;
        }
    } else if x < 0 {
        let p = x * -1;
        assert(0 <= p / d <= p) by (nonlinear_arith)
            requires
                p >= 1 && d >= 1,
        ;
    } else {
        let q = d * -1;
        assert(0 <= x / q <= x) by (nonlinear_arith)
            requires
                x >= 1 && q >= 1,
        ;
    }
}

/// Divides, reporting division by zero through `Err`.
pub fn divide(a: i32, b: i32) -> (r: Result<i32, String>)
    requires
        !(a == i32::MIN && b == -1),
    ensures
        b == 0 ==> (r matches Err(e) && e@ == "Cannot divide by zero"@),
        b != 0 ==> (r matches Ok(q) && q as int == div_trunc(a, b)),
{
    if b == 0 {
        Err(String::from_str("Cannot divide by zero"))
    } else {
        proof {
            lemma_div_trunc_in_range(a, b);
        }
        match a.checked_div(b) {
            Option::Some(q) => Ok(q),
            Option::None => {
                proof {
                    assert(false);
                }
                Err(String::new())
            },
        }
    }
}

/// Divides, reporting division by zero through `Err`.
pub fn divide_res(a: i32, b: i32) -> (r: Result<i32, String>)
    requires
        !(a == i32::MIN && b == -1),
    ensures
        b == 0 ==> (r matches Err(e) && e@ == "Division by Zero"@),
        b != 0 ==> (r matches Ok(q) && q as int == div_trunc(a, b)),
{
    if b == 0 {
        Err(String::from_str("Division by Zero"))
    } else {
        proof {
            lemma_div_trunc_in_range(a, b);
        }
        match a.checked_div(b) {
            Option::Some(q) => Ok(q),
            Option::None => {
                proof {
                    assert(false);
                }
                Err(String::new())
            },
        }
    }
}

/// Divides, reporting division by zero through `None`.
pub fn divide_opt(a: i32, b: i32) -> (r: Option<i32>)
    requires
        !(a == i32::MIN && b == -1),
    ensures
        b == 0 ==> r is None,
        b != 0 ==> (r matches Some(q) && q as int == div_trunc(a, b)),
{
    if b == 0 {
        None
    } else {
        proof {
            lemma_div_trunc_in_range(a, b);
        }
        a.checked_div(b)
    }
}

/// Squares a value small enough for the square to fit.
pub fn square(value: i32) -> (r: i32)
    requires
        -46340 <= value <= 46340,
    ensures
        r == value * value,
{
    proof {
        assert(value * value <= 46340 * 46340) by (nonlinear_arith)
            requires
                -46340 <= value <= 46340,
        ;
        assert(value * value >= 0) by (nonlinear_arith);
    }
    value * value
}

/// Applies `f` to `value` twice and adds the two results.
pub fn add_fn_twice<F: Fn(i32) -> i32>(value: i32, f: F) -> (r: i32)
    requires
        f.requires((value,)),
        forall|r1: i32, r2: i32|
            f.ensures((value,), r1) && f.ensures((value,), r2) ==> i32::MIN <= r1 + r2
                <= i32::MAX,
    ensures
        exists|r1: i32, r2: i32|
            f.ensures((value,), r1) && f.ensures((value,), r2) && r == r1 + r2,
{
    let first = f(value);
    let second = f(value);
    first + second
}

} // verus!
