//! Instructions: one tagged variant per opcode category, so an instruction
//! cannot carry a field its opcode has no use for.

use vstd::prelude::*;
use crate::value::ArithOp;
use crate::value::CmpOp;
use crate::value::Value;
use crate::value::ValueKind;

verus! {

/// One instruction of a program. A program is a fixed, 0-indexed sequence
/// of these; it never changes during a run.
#[derive(Clone, PartialEq, Eq, Debug)]
pub enum Instr {
    /// Pushes the carried literal onto the stack.
    Push(Value),
    /// Pops one value and discards it.
    Pop,
    /// Pops two values of one shared kind and pushes `left OP right`, where
    /// the right operand was on top.
    Arith(ArithOp),
    /// Pops the top value, prints it (with a trailing line break when the
    /// flag is set) and pushes it back unchanged.
    Print(bool),
    /// Pops the top value, which must be an integer naming a valid code
    /// point, prints that character, and pushes the value back unchanged.
    PrintAscii,
    /// Reads one line of console input, parses it as the named kind and
    /// pushes the value.
    Input(ValueKind),
    /// Marks a jump destination; a no-op when executed.
    Label(String),
    /// Continues execution at the named label.
    Jump(String),
    /// Pops `second`, then `first`, both of one shared kind; pushes `first`
    /// back (the second operand is consumed), and jumps to the named label
    /// when `first OP second` holds.
    Branch(CmpOp, String),
    /// Pops a float and pushes it converted to an integer.
    ToInt,
    /// Pops an integer and pushes it converted to a float.
    ToFloat,
    /// Pops the top value and pushes three copies of it.
    Duplicate,
    /// Sets the program counter to the end of the program.
    Terminate,
}

impl Instr {
    /// The diagnostic name of this instruction's opcode.
    pub open spec fn opcode_text(self) -> Seq<char> {
        match self {
            Instr::Push(_) => "push"@,
            Instr::Pop => "pop"@,
            Instr::Arith(ArithOp::Add) => "add"@,
            Instr::Arith(ArithOp::Sub) => "sub"@,
            Instr::Arith(ArithOp::Mul) => "mul"@,
            Instr::Arith(ArithOp::Div) => "div"@,
            Instr::Print(false) => "print"@,
            Instr::Print(true) => "print-line"@,
            Instr::PrintAscii => "print-ascii"@,
            Instr::Input(ValueKind::Int) => "input-int"@,
            Instr::Input(ValueKind::Float) => "input-float"@,
            Instr::Label(_) => "label"@,
            Instr::Jump(_) => "jump"@,
            Instr::Branch(CmpOp::Eq, _) => "branch-equal"@,
            Instr::Branch(CmpOp::Ne, _) => "branch-not-equal"@,
            Instr::Branch(CmpOp::Lt, _) => "branch-less"@,
            Instr::Branch(CmpOp::Gt, _) => "branch-greater"@,
            Instr::Branch(CmpOp::Le, _) => "branch-less-or-equal"@,
            Instr::Branch(CmpOp::Ge, _) => "branch-greater-or-equal"@,
            Instr::ToInt => "to-int"@,
            Instr::ToFloat => "to-float"@,
            Instr::Duplicate => "duplicate"@,
            Instr::Terminate => "terminate"@,
        }
    }

    /// Returns the diagnostic name of this instruction's opcode.
    pub fn opcode_name(&self) -> (r: &'static str)
        ensures
            r@ == self.opcode_text(),
    {
        match self {
            Instr::Push(_) => "push",
            Instr::Pop => "pop",
            Instr::Arith(ArithOp::Add) => "add",
            Instr::Arith(ArithOp::Sub) => "sub",
            Instr::Arith(ArithOp::Mul) => "mul",
            Instr::Arith(ArithOp::Div) => "div",
            Instr::Print(false) => "print",
            Instr::Print(true) => "print-line",
            Instr::PrintAscii => "print-ascii",
            Instr::Input(ValueKind::Int) => "input-int",
            Instr::Input(ValueKind::Float) => "input-float",
            Instr::Label(_) => "label",
            Instr::Jump(_) => "jump",
            Instr::Branch(CmpOp::Eq, _) => "branch-equal",
            Instr::Branch(CmpOp::Ne, _) => "branch-not-equal",
            Instr::Branch(CmpOp::Lt, _) => "branch-less",
            Instr::Branch(CmpOp::Gt, _) => "branch-greater",
            Instr::Branch(CmpOp::Le, _) => "branch-less-or-equal",
            Instr::Branch(CmpOp::Ge, _) => "branch-greater-or-equal",
            Instr::ToInt => "to-int",
            Instr::ToFloat => "to-float",
            Instr::Duplicate => "duplicate",
            Instr::Terminate => "terminate",
        }
    }
}

} // verus!
