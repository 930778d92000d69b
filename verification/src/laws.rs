//! Laws of the machine, stated over the step relation and proved once for
//! all programs.

use vstd::prelude::*;
use crate::engine::Outcome;
use crate::engine::Reply;
use crate::engine::step_rel;
use crate::instr::Instr;
use crate::value::ArithOp;
use crate::value::Fault;
use crate::value::Value;
use crate::value::div_trunc;
use crate::value::int_arith;
use crate::value::lemma_div_cases;

verus! {

/// The three-instruction straight-line program `push a; push b; OP`.
pub open spec fn arith_program(a: i32, b: i32, op: ArithOp) -> Seq<Instr> {
    seq![Instr::Push(Value::Int(a)), Instr::Push(Value::Int(b)), Instr::Arith(op)]
}

/// The exact mathematical result of `a OP b` on integers.
pub open spec fn exact_arith_value(op: ArithOp, a: i32, b: i32) -> int {
    match op {
        ArithOp::Add => a + b,
        ArithOp::Sub => a - b,
        ArithOp::Mul => a * b,
        ArithOp::Div => div_trunc(a as int, b as int),
    }
}

/// Whether `a OP b` has its exact mathematical result as a 32-bit integer:
/// the result fits, and a division has a nonzero divisor and a representable
/// quotient.
pub open spec fn arith_exact(op: ArithOp, a: i32, b: i32) -> bool {
    match op {
        ArithOp::Add => i32::MIN <= a + b <= i32::MAX,
        ArithOp::Sub => i32::MIN <= a - b <= i32::MAX,
        ArithOp::Mul => i32::MIN <= a * b <= i32::MAX,
        ArithOp::Div => b != 0 && !(a == i32::MIN && b == -1),
    }
}

/// Where the exact result fits, integer arithmetic returns exactly it.
pub proof fn lemma_arith_exact(op: ArithOp, a: i32, b: i32)
    requires
        arith_exact(op, a, b),
    ensures
        int_arith(op, a, b) == Some(exact_arith_value(op, a, b) as i32),
{
    match op {
        ArithOp::Mul => {
            let x = a as int * b as int;
            let r = 0x1_0000_0000int;
            if x >= 0 {
                vstd::arithmetic::div_mod::lemma_small_mod(x as nat, r as nat);
            } else {
                vstd::arithmetic::div_mod::lemma_mod_add_multiples_vanish(x, r);
                vstd::arithmetic::div_mod::lemma_small_mod((x + r) as nat, r as nat);
            }
        },
        ArithOp::Div => {
            lemma_div_cases(a, b);
        },
        _ => {},
    }
}

/// Law: for every starting stack, running `push a; push b; OP` to its end —
/// three steps, no jumps — leaves exactly the exact value of `a OP b` on
/// top of the untouched rest of the stack, faulting nowhere. Subtraction
/// and division compute `a OP b`, not `b OP a`. The replies play no part:
/// integer arithmetic asks nothing of the host.
pub proof fn lemma_arith_program(
    a: i32,
    b: i32,
    op: ArithOp,
    s0: Seq<Value>,
    r1: Reply,
    r2: Reply,
    r3: Reply,
    s1: Seq<Value>,
    pc1: int,
    f1: bool,
    o1: Outcome,
    s2: Seq<Value>,
    pc2: int,
    f2: bool,
    o2: Outcome,
    s3: Seq<Value>,
    pc3: int,
    f3: bool,
    o3: Outcome,
)
    requires
        arith_exact(op, a, b),
        step_rel(arith_program(a, b, op), s0, 0, r1, s1, pc1, f1, o1),
        step_rel(arith_program(a, b, op), s1, pc1, r2, s2, pc2, f2, o2),
        step_rel(arith_program(a, b, op), s2, pc2, r3, s3, pc3, f3, o3),
    ensures
        !f1 && !f2 && !f3,
        pc3 == 3,
        s3 == s0.push(Value::Int(exact_arith_value(op, a, b) as i32)),
{
    let p = arith_program(a, b, op);
    assert(s1 == s0.push(Value::Int(a)) && pc1 == 1);
    assert(s2 == s1.push(Value::Int(b)) && pc2 == 2);
    assert(s2[s2.len() - 2] == Value::Int(a));
    assert(s2[s2.len() - 1] == Value::Int(b));
    lemma_arith_exact(op, a, b);
    assert(s2.subrange(0, s2.len() - 2) =~= s0);
}

/// The three-instruction conversion round trip `push v; to-float; to-int`.
pub open spec fn convert_program(v: i32) -> Seq<Instr> {
    seq![Instr::Push(Value::Int(v)), Instr::ToFloat, Instr::ToInt]
}

/// Law: the machine's part of the conversion round trip. Running
/// `push v; to-float; to-int` faults nowhere and leaves on top of the
/// untouched rest of the stack exactly the integer `w` that the host's
/// float-to-int conversion returned for the bits `b` its int-to-float
/// conversion produced. That `w` equals `v` again is the host's
/// floating-point behavior — it holds for magnitudes the float kind
/// represents exactly — and is exercised by tests, not stated here.
pub proof fn lemma_convert_round_trip(
    v: i32,
    b: u32,
    w: i32,
    s0: Seq<Value>,
    s1: Seq<Value>,
    pc1: int,
    f1: bool,
    o1: Outcome,
    s2: Seq<Value>,
    pc2: int,
    f2: bool,
    o2: Outcome,
    s3: Seq<Value>,
    pc3: int,
    f3: bool,
    o3: Outcome,
)
    requires
        step_rel(convert_program(v), s0, 0, Reply::Nothing, s1, pc1, f1, o1),
        step_rel(convert_program(v), s1, pc1, Reply::Bits(b), s2, pc2, f2, o2),
        step_rel(convert_program(v), s2, pc2, Reply::IntVal(w), s3, pc3, f3, o3),
    ensures
        !f1 && !f2 && !f3,
        pc3 == 3,
        s3 == s0.push(Value::Int(w)),
{
    assert(s1 == s0.push(Value::Int(v)) && pc1 == 1);
    assert(s2 == s1.update(s1.len() - 1, Value::Float(b)) && pc2 == 2);
    assert(s3 == s2.update(s2.len() - 1, Value::Int(w)) && pc3 == 3);
    assert(s3 =~= s0.push(Value::Int(w)));
}

/// Law: a print instruction never changes the stack — neither its depth nor
/// any value on it — whether it succeeds or underflows.
pub proof fn lemma_print_preserves_stack(
    p: Seq<Instr>,
    s: Seq<Value>,
    pc: int,
    reply: Reply,
    s2: Seq<Value>,
    pc2: int,
    f2: bool,
    out: Outcome,
)
    requires
        0 <= pc < p.len(),
        p[pc] is Print,
        step_rel(p, s, pc, reply, s2, pc2, f2, out),
    ensures
        s2 == s,
{
}

/// Law: in every program, popping from an empty stack raises a stack
/// underflow fault and changes nothing.
pub proof fn lemma_pop_empty_underflows(
    p: Seq<Instr>,
    s: Seq<Value>,
    pc: int,
    reply: Reply,
    s2: Seq<Value>,
    pc2: int,
    f2: bool,
    out: Outcome,
)
    requires
        0 <= pc < p.len(),
        p[pc] is Pop,
        s.len() == 0,
        step_rel(p, s, pc, reply, s2, pc2, f2, out),
    ensures
        out == Outcome::Fault(Fault::StackUnderflow),
        f2,
        s2 == s,
        pc2 == pc,
{
}

/// Law: in every program, a conditional branch whose two operands disagree
/// in kind raises a type mismatch fault before any program-counter or stack
/// mutation.
pub proof fn lemma_branch_mismatch_faults(
    p: Seq<Instr>,
    s: Seq<Value>,
    pc: int,
    reply: Reply,
    s2: Seq<Value>,
    pc2: int,
    f2: bool,
    out: Outcome,
)
    requires
        0 <= pc < p.len(),
        p[pc] is Branch,
        s.len() >= 2,
        s[s.len() - 2].kind() != s[s.len() - 1].kind(),
        step_rel(p, s, pc, reply, s2, pc2, f2, out),
    ensures
        out == Outcome::Fault(Fault::TypeMismatch),
        f2,
        pc2 == pc,
        s2 == s,
{
}

} // verus!
