use vstd::prelude::*;
use vstd::string::StringExecFns;

use crate::text::{decimal, push_char, push_decimal};

verus! {

/// A small arithmetic expression on two `i32` operands.
#[derive(Debug)]
pub enum Expr {
    Null,
    Add(i32, i32),
    Sub(i32, i32),
    Mul(i32, i32),
    Div { dividend: i32, divisor: i32 },
    Val(i32),
}

/// Quotient rounded toward zero, as `i32` division gives it.
pub open spec fn trunc_div(x: int, y: int) -> int {
    if x == 0 {
        0
    } else if x > 0 && y > 0 {
        x / y
    } else if x < 0 && y < 0 {
        (-x) / (-y)
    } else if x < 0 {
        -((-x) / y)
    } else {
        -(x / (-y))
    }
}

/// `v` in decimal, with a leading `-` when negative.
pub open spec fn signed_decimal(v: int) -> Seq<char> {
    if v < 0 {
        seq!['-'] + decimal((-v) as nat)
    } else {
        decimal(v as nat)
    }
}

/// The value of `e` fits in an `i32` (a zero divisor is no value, and no
/// overflow).
pub open spec fn fits_i32(e: Expr) -> bool {
    match e {
        Expr::Add(x, y) => i32::MIN <= x + y <= i32::MAX,
        Expr::Sub(x, y) => i32::MIN <= x - y <= i32::MAX,
        Expr::Mul(x, y) => i32::MIN <= x * y <= i32::MAX,
        Expr::Div { dividend, divisor } => !(dividend == i32::MIN && divisor == -1),
        _ => true,
    }
}

/// The line that describes `e`.
pub open spec fn expr_text(e: Expr) -> Seq<char> {
    match e {
        Expr::Null => "No value"@,
        Expr::Add(x, y) => "Add "@ + signed_decimal(x + y),
        Expr::Sub(x, y) => "Sub "@ + signed_decimal(x - y),
        Expr::Mul(x, y) => "Mul "@ + signed_decimal(x * y),
        Expr::Div { dividend, divisor } => if divisor == 0 {
            "Divisor is zero"@
        } else {
            "Div "@ + signed_decimal(trunc_div(dividend as int, divisor as int))
        },
        Expr::Val(x) => "Val "@ + signed_decimal(x as int),
    }
}

/// Appends `v` in decimal, with a leading `-` when negative.
pub fn push_signed(s: &mut String, v: i32)
    ensures
        final(s)@ == old(s)@ + signed_decimal(v as int),
{
    if v < 0 {
        push_char(s, '-');
        let magnitude = (-(v as i64)) as u32;
        push_decimal(s, magnitude);
        assert(final(s)@ =~= old(s)@ + signed_decimal(v as int));
    } else {
        push_decimal(s, v as u32);
    }
}

/// The text that describes `expr`: its value, or why it has none.
pub fn describe_expr(expr: &Expr) -> (s: String)
    requires
        fits_i32(*expr),
    ensures
        s@ == expr_text(*expr),
{
    match expr {
        Expr::Null => {
            proof {
                reveal_strlit("No value");
            }
            String::from_str("No value")
        },
        Expr::Add(x, y) => {
            proof {
                reveal_strlit("Add ");
            }
            let mut s = String::from_str("Add ");
            push_signed(&mut s, *x + *y);
            s
        },
        Expr::Sub(x, y) => {
            proof {
                reveal_strlit("Sub ");
            }
            let mut s = String::from_str("Sub ");
            push_signed(&mut s, *x - *y);
            s
        },
        Expr::Mul(x, y) => {
            proof {
                reveal_strlit("Mul ");
            }
            let mut s = String::from_str("Mul ");
            push_signed(&mut s, *x * *y);
            s
        },
        Expr::Div { dividend, divisor } => {
            if *divisor == 0 {
                proof {
                    reveal_strlit("Divisor is zero");
                }
                String::from_str("Divisor is zero")
            } else {
                proof {
                    reveal_strlit("Div ");
                }
                let mut s = String::from_str("Div ");
                proof {
                    let x = *dividend as int;
                    let d = *divisor as int;
                    let a = if x < 0 { -x } else { x };
                    let b = if d < 0 { -d } else { d };
                    assert(0 <= a / b <= a) by (nonlinear_arith)
                        requires
                            a >= 0,
                            b >= 1,
                    ;
                    assert(b >= 2 ==> 2 * (a / b) <= a) by (nonlinear_arith)
                        requires
                            a >= 0,
                            b >= 1,
                    ;
                }
                match dividend.checked_div(*divisor) {
                    Some(q) => push_signed(&mut s, q),
                    None => {},
                }
                s
            }
        },
        Expr::Val(x) => {
            proof {
                reveal_strlit("Val ");
            }
            let mut s = String::from_str("Val ");
            push_signed(&mut s, *x);
            s
        },
    }
}

} // verus!
