use stack_vm::engine::{Engine, Outcome, Reply, Request};
use stack_vm::instr::Instr;
use stack_vm::value::{ArithOp, CmpOp, Fault, FloatOrder, Value, ValueKind};

fn answer(req: Request, inputs: &mut Vec<String>) -> Reply {
    match req {
        Request::Nothing => Reply::Nothing,
        Request::FloatBin(op, a, b) => {
            let x = f32::from_bits(a);
            let y = f32::from_bits(b);
            let r = match op {
                ArithOp::Add => x + y,
                ArithOp::Sub => x - y,
                ArithOp::Mul => x * y,
                ArithOp::Div => x / y,
            };
            Reply::Bits(r.to_bits())
        }
        Request::FloatCmp(a, b) => {
            let x = f32::from_bits(a);
            let y = f32::from_bits(b);
            let ord = match x.partial_cmp(&y) {
                Some(std::cmp::Ordering::Less) => FloatOrder::Less,
                Some(std::cmp::Ordering::Equal) => FloatOrder::Equal,
                Some(std::cmp::Ordering::Greater) => FloatOrder::Greater,
                None => FloatOrder::Unordered,
            };
            Reply::Order(ord)
        }
        Request::FloatOfInt(i) => Reply::Bits((i as f32).to_bits()),
        Request::IntOfFloat(b) => Reply::IntVal(f32::from_bits(b) as i32),
        Request::FloatText(b) => Reply::Text(format!("{}", f32::from_bits(b))),
        Request::IntLine => Reply::Text(inputs.remove(0)),
        Request::FloatLine => {
            let line = inputs.remove(0);
            match line.trim().parse::<f32>() {
                Ok(v) => Reply::ParsedFloat(Some(v.to_bits())),
                Err(_) => Reply::ParsedFloat(None),
            }
        }
    }
}

fn run_to_fault(program: Vec<Instr>, inputs: Vec<String>) -> (Engine, Fault) {
    let mut engine = Engine::new(program);
    let mut inputs = inputs;
    for _ in 0..10_000 {
        let req = engine.next_request();
        let reply = answer(req, &mut inputs);
        match engine.step(reply) {
            Outcome::Continue | Outcome::Write(_, _) => {}
            Outcome::Halt => panic!("halted without the expected fault"),
            Outcome::Fault(f) => return (engine, f),
        }
    }
    panic!("step budget ran out without the expected fault");
}

fn bits(x: f32) -> u32 {
    x.to_bits()
}

#[test]
fn pop_on_empty_stack_underflows() {
    let (engine, fault) = run_to_fault(vec![Instr::Pop], vec![]);
    assert_eq!(fault, Fault::StackUnderflow);
    assert!(engine.has_faulted());
    // the fault changed neither the counter nor the stack
    assert_eq!(engine.pc_index(), 0);
    assert_eq!(engine.stack_depth(), 0);
}

#[test]
fn arithmetic_with_one_operand_underflows() {
    let program = vec![Instr::Push(Value::Int(1)), Instr::Arith(ArithOp::Add)];
    let (_, fault) = run_to_fault(program, vec![]);
    assert_eq!(fault, Fault::StackUnderflow);
}

#[test]
fn print_on_empty_stack_underflows() {
    let (_, fault) = run_to_fault(vec![Instr::Print(false)], vec![]);
    assert_eq!(fault, Fault::StackUnderflow);
}

#[test]
fn branch_on_mismatched_kinds_faults_before_jumping() {
    let program = vec![
        Instr::Push(Value::Int(1)),
        Instr::Push(Value::Float(bits(1.0))),
        Instr::Branch(CmpOp::Eq, String::from("x")),
        Instr::Label(String::from("x")),
    ];
    let (engine, fault) = run_to_fault(program, vec![]);
    assert_eq!(fault, Fault::TypeMismatch);
    // the counter still points at the branch, and both operands remain
    assert_eq!(engine.pc_index(), 2);
    assert_eq!(engine.stack_depth(), 2);
}

#[test]
fn arithmetic_on_mismatched_kinds_faults() {
    let program = vec![
        Instr::Push(Value::Int(1)),
        Instr::Push(Value::Float(bits(1.0))),
        Instr::Arith(ArithOp::Add),
    ];
    let (_, fault) = run_to_fault(program, vec![]);
    assert_eq!(fault, Fault::TypeMismatch);
}

#[test]
fn jump_to_unknown_label_faults() {
    let program = vec![Instr::Jump(String::from("nowhere"))];
    let (_, fault) = run_to_fault(program, vec![]);
    assert_eq!(fault, Fault::LabelNotFound);
}

#[test]
fn taken_branch_to_unknown_label_faults() {
    let program = vec![
        Instr::Push(Value::Int(1)),
        Instr::Push(Value::Int(1)),
        Instr::Branch(CmpOp::Eq, String::from("nowhere")),
    ];
    let (_, fault) = run_to_fault(program, vec![]);
    assert_eq!(fault, Fault::LabelNotFound);
}

#[test]
fn untaken_branch_never_resolves_its_label() {
    // the label does not exist, but the branch is not taken, so no fault
    let program = vec![
        Instr::Push(Value::Int(1)),
        Instr::Push(Value::Int(2)),
        Instr::Branch(CmpOp::Eq, String::from("nowhere")),
    ];
    let mut engine = Engine::new(program);
    let mut inputs: Vec<String> = Vec::new();
    loop {
        let req = engine.next_request();
        let reply = answer(req, &mut inputs);
        match engine.step(reply) {
            Outcome::Continue | Outcome::Write(_, _) => {}
            Outcome::Halt => break,
            Outcome::Fault(f) => panic!("unexpected fault {:?}", f),
        }
    }
    assert_eq!(engine.stack_depth(), 1);
    assert_eq!(engine.stack_at(0), Value::Int(1));
}

#[test]
fn integer_division_by_zero_faults() {
    let program = vec![
        Instr::Push(Value::Int(1)),
        Instr::Push(Value::Int(0)),
        Instr::Arith(ArithOp::Div),
    ];
    let (_, fault) = run_to_fault(program, vec![]);
    assert_eq!(fault, Fault::ArithmeticFault);
}

#[test]
fn smallest_integer_divided_by_minus_one_faults() {
    let program = vec![
        Instr::Push(Value::Int(i32::MIN)),
        Instr::Push(Value::Int(-1)),
        Instr::Arith(ArithOp::Div),
    ];
    let (_, fault) = run_to_fault(program, vec![]);
    assert_eq!(fault, Fault::ArithmeticFault);
}

#[test]
fn malformed_integer_input_faults() {
    let program = vec![Instr::Input(ValueKind::Int)];
    let (_, fault) = run_to_fault(program, vec![String::from("abc")]);
    assert_eq!(fault, Fault::ParseError);
}

#[test]
fn malformed_float_input_faults() {
    let program = vec![Instr::Input(ValueKind::Float)];
    let (_, fault) = run_to_fault(program, vec![String::from("abc")]);
    assert_eq!(fault, Fault::ParseError);
}

#[test]
fn to_int_of_an_integer_faults() {
    let program = vec![Instr::Push(Value::Int(1)), Instr::ToInt];
    let (_, fault) = run_to_fault(program, vec![]);
    assert_eq!(fault, Fault::TypeMismatch);
}

#[test]
fn to_float_of_a_float_faults() {
    let program = vec![Instr::Push(Value::Float(bits(1.0))), Instr::ToFloat];
    let (_, fault) = run_to_fault(program, vec![]);
    assert_eq!(fault, Fault::TypeMismatch);
}

#[test]
fn print_ascii_of_a_float_faults() {
    let program = vec![Instr::Push(Value::Float(bits(65.0))), Instr::PrintAscii];
    let (_, fault) = run_to_fault(program, vec![]);
    assert_eq!(fault, Fault::TypeMismatch);
}

#[test]
fn print_ascii_of_a_negative_code_faults() {
    let program = vec![Instr::Push(Value::Int(-1)), Instr::PrintAscii];
    let (_, fault) = run_to_fault(program, vec![]);
    assert_eq!(fault, Fault::TypeMismatch);
}

#[test]
fn print_ascii_of_a_surrogate_code_faults() {
    let program = vec![Instr::Push(Value::Int(0xD800)), Instr::PrintAscii];
    let (_, fault) = run_to_fault(program, vec![]);
    assert_eq!(fault, Fault::TypeMismatch);
}

#[test]
fn print_ascii_of_a_too_large_code_faults() {
    let program = vec![Instr::Push(Value::Int(0x110000)), Instr::PrintAscii];
    let (_, fault) = run_to_fault(program, vec![]);
    assert_eq!(fault, Fault::TypeMismatch);
}

#[test]
fn fault_names_identify_each_fault() {
    assert_eq!(Fault::StackUnderflow.name(), "stack underflow");
    assert_eq!(Fault::TypeMismatch.name(), "type mismatch");
    assert_eq!(Fault::LabelNotFound.name(), "label not found");
    assert_eq!(Fault::ParseError.name(), "parse error");
    assert_eq!(Fault::ArithmeticFault.name(), "arithmetic fault");
}

#[test]
fn opcode_names_identify_instructions() {
    assert_eq!(Instr::Pop.opcode_name(), "pop");
    assert_eq!(Instr::Arith(ArithOp::Div).opcode_name(), "div");
    assert_eq!(
        Instr::Branch(CmpOp::Le, String::from("x")).opcode_name(),
        "branch-less-or-equal"
    );
    assert_eq!(Instr::Input(ValueKind::Float).opcode_name(), "input-float");
}
