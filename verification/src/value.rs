//! The value model: a tagged 32-bit scalar, typed integer arithmetic and
//! comparison, and the machine's fault taxonomy.

use vstd::prelude::*;

verus! {

/// Whether a value holds an integer or a floating-point payload.
#[derive(Clone, Copy, PartialEq, Eq, Debug)]
pub enum ValueKind {
    Int,
    Float,
}

/// A single stack-resident scalar: a 32-bit integer, or a 32-bit IEEE-754
/// float carried as its bit pattern. The machine never computes with the
/// float payload itself; every float operation is delegated to the host.
#[derive(Clone, Copy, PartialEq, Eq, Debug)]
pub enum Value {
    Int(i32),
    Float(u32),
}

impl Value {
    /// The kind tag of this value.
    pub open spec fn kind(self) -> ValueKind {
        match self {
            Value::Int(_) => ValueKind::Int,
            Value::Float(_) => ValueKind::Float,
        }
    }

    /// Reports the kind tag of this value.
    pub fn kind_of(&self) -> (k: ValueKind)
        ensures
            k == self.kind(),
    {
        match self {
            Value::Int(_) => ValueKind::Int,
            Value::Float(_) => ValueKind::Float,
        }
    }
}

/// A fatal fault. Every fault aborts the run; the machine is not resumable.
#[derive(Clone, Copy, PartialEq, Eq, Debug)]
pub enum Fault {
    /// An opcode required more operands than the stack held.
    StackUnderflow,
    /// An operation required operands of equal (or a specific) kind and the
    /// actual kinds disagreed, or a code point was not printable.
    TypeMismatch,
    /// A jump or branch referenced a label absent from the label table.
    LabelNotFound,
    /// Console input could not be parsed as the requested numeric kind.
    ParseError,
    /// Integer division by zero, or the one overflowing integer quotient.
    ArithmeticFault,
}

impl Fault {
    /// The diagnostic name of this fault.
    pub open spec fn text(self) -> Seq<char> {
        match self {
            Fault::StackUnderflow => "stack underflow"@,
            Fault::TypeMismatch => "type mismatch"@,
            Fault::LabelNotFound => "label not found"@,
            Fault::ParseError => "parse error"@,
            Fault::ArithmeticFault => "arithmetic fault"@,
        }
    }

    /// Returns the diagnostic name of this fault.
    pub fn name(&self) -> (r: &'static str)
        ensures
            r@ == self.text(),
    {
        match self {
            Fault::StackUnderflow => "stack underflow",
            Fault::TypeMismatch => "type mismatch",
            Fault::LabelNotFound => "label not found",
            Fault::ParseError => "parse error",
            Fault::ArithmeticFault => "arithmetic fault",
        }
    }
}

/// An arithmetic opcode. The operands must share one kind; on integers the
/// result wraps as two's-complement 32-bit arithmetic does, and division
/// truncates toward zero.
#[derive(Clone, Copy, PartialEq, Eq, Debug)]
pub enum ArithOp {
    Add,
    Sub,
    Mul,
    Div,
}

/// A comparison relation used by conditional branches.
#[derive(Clone, Copy, PartialEq, Eq, Debug)]
pub enum CmpOp {
    Eq,
    Ne,
    Lt,
    Gt,
    Le,
    Ge,
}

/// How the host ordered two floats: IEEE-754 comparison leaves two NaN
/// operands unordered.
#[derive(Clone, Copy, PartialEq, Eq, Debug)]
pub enum FloatOrder {
    Less,
    Equal,
    Greater,
    Unordered,
}

/// The result of integer arithmetic: the wrapped 32-bit result, or `None`
/// for the two division faults (zero divisor, and `i32::MIN / -1`, whose
/// quotient has no 32-bit representation).
pub open spec fn int_arith(op: ArithOp, a: i32, b: i32) -> Option<i32> {
    match op {
        ArithOp::Add => Some(a.wrapping_add(b)),
        ArithOp::Sub => Some(a.wrapping_sub(b)),
        ArithOp::Mul => Some(a.wrapping_mul(b)),
        ArithOp::Div => a.checked_div(b),
    }
}

/// Division truncated toward zero, as 32-bit integer division behaves.
pub open spec fn div_trunc(a: int, b: int) -> int
    recommends
        b != 0,
{
    if a >= 0 && b > 0 {
        a / b
    } else if a <= 0 && b < 0 {
        (-a) / (-b)
    } else if a <= 0 {
        -((-a) / b)
    } else {
        -(a / (-b))
    }
}

/// Performs one integer arithmetic operation, faulting exactly where
/// `int_arith` is undefined.
pub fn eval_int_arith(op: ArithOp, a: i32, b: i32) -> (r: Result<i32, Fault>)
    ensures
        match int_arith(op, a, b) {
            Some(v) => r == Ok::<i32, Fault>(v),
            None => r == Err::<i32, Fault>(Fault::ArithmeticFault),
        },
{
    match op {
        ArithOp::Add => Ok(a.wrapping_add(b)),
        ArithOp::Sub => Ok(a.wrapping_sub(b)),
        ArithOp::Mul => Ok(a.wrapping_mul(b)),
        ArithOp::Div => match a.checked_div(b) {
            Some(q) => Ok(q),
            None => Err(Fault::ArithmeticFault),
        },
    }
}

/// Law: integer division faults exactly on a zero divisor and on
/// `i32::MIN / -1`; everywhere else it yields the quotient truncated
/// toward zero.
pub proof fn lemma_div_cases(a: i32, b: i32)
    ensures
        int_arith(ArithOp::Div, a, b) is None <==> (b == 0 || (a == i32::MIN && b == -1)),
        !(b == 0 || (a == i32::MIN && b == -1)) ==> int_arith(ArithOp::Div, a, b) == Some(
            div_trunc(a as int, b as int) as i32,
        ),
{
    if b != 0 {
        let x = a as int;
        let d = b as int;
        if x == 0 {
            assert(div_trunc(x, d) == 0) by {
                if d > 0 {
                    assert(0int / d == 0);
                } else {
                    assert(0int / (-d) == 0);
                }
            }
        } else if x > 0 && d > 0 {
            lemma_nonneg_div_bounds(x, d);
        } else if x < 0 && d < 0 {
            lemma_nonneg_div_bounds(x * -1, d * -1);
            if a == i32::MIN && b == -1 {
                assert((x * -1) / (d * -1) == 0x8000_0000int) by {
                    assert(0x8000_0000int / 1int == 0x8000_0000int) by (nonlinear_arith);
                }
            } else {
                assert((x * -1) / (d * -1) < 0x8000_0000) by {
                    if x * -1 < 0x8000_0000 {
                        // quotient is at most the dividend
                    } else {
                        // the dividend is exactly 2^31 and the divisor at least 2
                        lemma_div_shrinks(x * -1, d * -1);
                    }
                }
            }
        } else if x < 0 {
            lemma_nonneg_div_bounds(x * -1, d);
        } else {
            lemma_nonneg_div_bounds(x, d * -1);
        }
    }
}

/// For nonnegative `x` and positive `d`, the quotient lies between 0 and `x`.
proof fn lemma_nonneg_div_bounds(x: int, d: int)
    requires
        x >= 0,
        d >= 1,
    ensures
        0 <= x / d <= x,
{
    assert(0 <= x / d <= x) by (nonlinear_arith)
        requires
            x >= 0,
            d >= 1,
    ;
}

/// For a divisor of at least 2, the quotient is at most half the dividend.
proof fn lemma_div_shrinks(x: int, d: int)
    requires
        x >= 0,
        d >= 2,
    ensures
        x / d <= x / 2,
{
    assert(x / d <= x / 2) by (nonlinear_arith)
        requires
            x >= 0,
            d >= 2,
    ;
}

/// Whether the comparison `first OP second` holds for two integers.
pub open spec fn int_cmp_holds(op: CmpOp, first: i32, second: i32) -> bool {
    match op {
        CmpOp::Eq => first == second,
        CmpOp::Ne => first != second,
        CmpOp::Lt => first < second,
        CmpOp::Gt => first > second,
        CmpOp::Le => first <= second,
        CmpOp::Ge => first >= second,
    }
}

/// Evaluates the comparison `first OP second` on two integers.
pub fn eval_int_cmp(op: CmpOp, first: i32, second: i32) -> (t: bool)
    ensures
        t == int_cmp_holds(op, first, second),
{
    match op {
        CmpOp::Eq => first == second,
        CmpOp::Ne => first != second,
        CmpOp::Lt => first < second,
        CmpOp::Gt => first > second,
        CmpOp::Le => first <= second,
        CmpOp::Ge => first >= second,
    }
}

/// Whether the comparison holds given the host's ordering of two floats.
/// An unordered pair (a NaN operand) satisfies only `Ne`, as IEEE-754
/// comparison does.
pub open spec fn float_cmp_holds(op: CmpOp, ord: FloatOrder) -> bool {
    match op {
        CmpOp::Eq => ord is Equal,
        CmpOp::Ne => !(ord is Equal),
        CmpOp::Lt => ord is Less,
        CmpOp::Gt => ord is Greater,
        CmpOp::Le => ord is Less || ord is Equal,
        CmpOp::Ge => ord is Greater || ord is Equal,
    }
}

/// Evaluates the comparison given the host's ordering of two floats.
pub fn eval_float_cmp(op: CmpOp, ord: FloatOrder) -> (t: bool)
    ensures
        t == float_cmp_holds(op, ord),
{
    match op {
        CmpOp::Eq => matches!(ord, FloatOrder::Equal),
        CmpOp::Ne => !matches!(ord, FloatOrder::Equal),
        CmpOp::Lt => matches!(ord, FloatOrder::Less),
        CmpOp::Gt => matches!(ord, FloatOrder::Greater),
        CmpOp::Le => matches!(ord, FloatOrder::Less | FloatOrder::Equal),
        CmpOp::Ge => matches!(ord, FloatOrder::Greater | FloatOrder::Equal),
    }
}

} // verus!
