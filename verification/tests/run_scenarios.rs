use stack_vm::engine::{Engine, Outcome, Reply, Request};
use stack_vm::instr::Instr;
use stack_vm::value::{ArithOp, CmpOp, Fault, FloatOrder, Value, ValueKind};

fn answer(req: Request, inputs: &mut Vec<String>) -> Reply {
    match req {
        Request::Nothing => Reply::Nothing,
        Request::FloatBin(op, a, b) => {
            let x = f32::from_bits(a);
            let y = f32::from_bits(b);
            let r = match op {
                ArithOp::Add => x + y,
                ArithOp::Sub => x - y,
                ArithOp::Mul => x * y,
                ArithOp::Div => x / y,
            };
            Reply::Bits(r.to_bits())
        }
        Request::FloatCmp(a, b) => {
            let x = f32::from_bits(a);
            let y = f32::from_bits(b);
            let ord = match x.partial_cmp(&y) {
                Some(std::cmp::Ordering::Less) => FloatOrder::Less,
                Some(std::cmp::Ordering::Equal) => FloatOrder::Equal,
                Some(std::cmp::Ordering::Greater) => FloatOrder::Greater,
                None => FloatOrder::Unordered,
            };
            Reply::Order(ord)
        }
        Request::FloatOfInt(i) => Reply::Bits((i as f32).to_bits()),
        Request::IntOfFloat(b) => Reply::IntVal(f32::from_bits(b) as i32),
        Request::FloatText(b) => Reply::Text(format!("{}", f32::from_bits(b))),
        Request::IntLine => Reply::Text(inputs.remove(0)),
        Request::FloatLine => {
            let line = inputs.remove(0);
            match line.trim().parse::<f32>() {
                Ok(v) => Reply::ParsedFloat(Some(v.to_bits())),
                Err(_) => Reply::ParsedFloat(None),
            }
        }
    }
}

/// Runs until halt, fault or the step budget runs out: Some(Ok(())) on
/// halt, Some(Err(fault)) on a fault, None when the budget ran out.
fn run(
    engine: &mut Engine,
    inputs: &mut Vec<String>,
    outputs: &mut String,
    max_steps: usize,
) -> Option<Result<(), Fault>> {
    for _ in 0..max_steps {
        let req = engine.next_request();
        let reply = answer(req, inputs);
        match engine.step(reply) {
            Outcome::Continue => {}
            Outcome::Write(text, line) => {
                outputs.push_str(&text);
                if line {
                    outputs.push('\n');
                }
            }
            Outcome::Halt => return Some(Ok(())),
            Outcome::Fault(f) => return Some(Err(f)),
        }
    }
    None
}

fn run_plain(program: Vec<Instr>) -> (Engine, String, Option<Result<(), Fault>>) {
    let mut engine = Engine::new(program);
    let mut inputs: Vec<String> = Vec::new();
    let mut outputs = String::new();
    let end = run(&mut engine, &mut inputs, &mut outputs, 10_000);
    (engine, outputs, end)
}

fn stack_of(engine: &Engine) -> Vec<Value> {
    let mut v = Vec::new();
    let mut i = 0;
    while i < engine.stack_depth() {
        v.push(engine.stack_at(i));
        i += 1;
    }
    v
}

#[test]
fn values_carry_their_kind_tag() {
    assert_eq!(Value::Int(3).kind_of(), ValueKind::Int);
    assert_eq!(Value::Float(0).kind_of(), ValueKind::Float);
}

#[test]
fn add_program_prints_seven() {
    let program = vec![
        Instr::Push(Value::Int(3)),
        Instr::Push(Value::Int(4)),
        Instr::Arith(ArithOp::Add),
        Instr::Print(true),
    ];
    let (engine, outputs, end) = run_plain(program);
    assert_eq!(outputs, "7\n");
    assert_eq!(end, Some(Ok(())));
    assert!(engine.has_halted());
    assert!(!engine.has_faulted());
    assert_eq!(stack_of(&engine), vec![Value::Int(7)]);
}

#[test]
fn unconditional_jump_loops_forever() {
    let program = vec![
        Instr::Label(String::from("loop")),
        Instr::Push(Value::Int(1)),
        Instr::Jump(String::from("loop")),
    ];
    let mut engine = Engine::new(program);
    let mut inputs: Vec<String> = Vec::new();
    let mut outputs = String::new();
    let end = run(&mut engine, &mut inputs, &mut outputs, 300);
    assert_eq!(end, None);
    assert!(!engine.has_halted());
    assert!(!engine.has_faulted());
    // every jump lands back on the label's recorded index
    assert!(engine.pc_index() < 3);
    // one value pushed per three-instruction cycle
    assert_eq!(engine.stack_depth(), 100);
    assert_eq!(engine.stack_at(0), Value::Int(1));
    assert_eq!(engine.stack_at(99), Value::Int(1));
}

#[test]
fn branch_not_taken_pushes_ninety_nine() {
    let program = vec![
        Instr::Push(Value::Int(5)),
        Instr::Push(Value::Int(3)),
        Instr::Branch(CmpOp::Lt, String::from("skip")),
        Instr::Push(Value::Int(99)),
        Instr::Label(String::from("skip")),
    ];
    let (engine, _, end) = run_plain(program);
    assert_eq!(end, Some(Ok(())));
    // 5 < 3 is false: the branch consumed the 3, restored the 5 and fell
    // through to push 99
    assert_eq!(stack_of(&engine), vec![Value::Int(5), Value::Int(99)]);
}

#[test]
fn branch_taken_skips_push() {
    let program = vec![
        Instr::Push(Value::Int(3)),
        Instr::Push(Value::Int(5)),
        Instr::Branch(CmpOp::Lt, String::from("skip")),
        Instr::Push(Value::Int(99)),
        Instr::Label(String::from("skip")),
    ];
    let (engine, _, end) = run_plain(program);
    assert_eq!(end, Some(Ok(())));
    assert_eq!(stack_of(&engine), vec![Value::Int(3)]);
}

#[test]
fn terminate_halts_early() {
    let program = vec![
        Instr::Push(Value::Int(1)),
        Instr::Terminate,
        Instr::Push(Value::Int(2)),
    ];
    let (engine, _, end) = run_plain(program);
    assert_eq!(end, Some(Ok(())));
    assert_eq!(engine.pc_index(), 3);
    assert_eq!(stack_of(&engine), vec![Value::Int(1)]);
}

#[test]
fn duplicate_pushes_three_copies() {
    let program = vec![Instr::Push(Value::Int(7)), Instr::Duplicate];
    let (engine, _, end) = run_plain(program);
    assert_eq!(end, Some(Ok(())));
    assert_eq!(
        stack_of(&engine),
        vec![Value::Int(7), Value::Int(7), Value::Int(7)]
    );
}

#[test]
fn first_label_occurrence_wins() {
    let program = vec![
        Instr::Jump(String::from("a")),
        Instr::Label(String::from("a")),
        Instr::Push(Value::Int(1)),
        Instr::Terminate,
        Instr::Label(String::from("a")),
        Instr::Push(Value::Int(2)),
    ];
    let (engine, _, end) = run_plain(program);
    assert_eq!(end, Some(Ok(())));
    assert_eq!(stack_of(&engine), vec![Value::Int(1)]);
}

#[test]
fn print_leaves_stack_unchanged() {
    let program = vec![
        Instr::Push(Value::Int(5)),
        Instr::Print(false),
        Instr::Print(false),
    ];
    let (engine, outputs, end) = run_plain(program);
    assert_eq!(end, Some(Ok(())));
    assert_eq!(outputs, "55");
    assert_eq!(stack_of(&engine), vec![Value::Int(5)]);
}

#[test]
fn print_ascii_writes_character() {
    let program = vec![Instr::Push(Value::Int(65)), Instr::PrintAscii];
    let (engine, outputs, end) = run_plain(program);
    assert_eq!(end, Some(Ok(())));
    assert_eq!(outputs, "A");
    assert_eq!(stack_of(&engine), vec![Value::Int(65)]);
}

#[test]
fn pop_discards_top() {
    let program = vec![
        Instr::Push(Value::Int(1)),
        Instr::Push(Value::Int(2)),
        Instr::Pop,
    ];
    let (engine, _, end) = run_plain(program);
    assert_eq!(end, Some(Ok(())));
    assert_eq!(stack_of(&engine), vec![Value::Int(1)]);
}

#[test]
fn input_int_pushes_parsed_value() {
    let program = vec![Instr::Input(ValueKind::Int), Instr::Input(ValueKind::Int)];
    let mut engine = Engine::new(program);
    let mut inputs = vec![String::from("123"), String::from("-7")];
    let mut outputs = String::new();
    let end = run(&mut engine, &mut inputs, &mut outputs, 100);
    assert_eq!(end, Some(Ok(())));
    assert_eq!(stack_of(&engine), vec![Value::Int(123), Value::Int(-7)]);
}

#[test]
fn subtraction_order_is_first_minus_second() {
    let program = vec![
        Instr::Push(Value::Int(10)),
        Instr::Push(Value::Int(3)),
        Instr::Arith(ArithOp::Sub),
    ];
    let (engine, _, _) = run_plain(program);
    assert_eq!(stack_of(&engine), vec![Value::Int(7)]);
}

#[test]
fn multiplication_of_two_integers() {
    let program = vec![
        Instr::Push(Value::Int(6)),
        Instr::Push(Value::Int(7)),
        Instr::Arith(ArithOp::Mul),
    ];
    let (engine, _, _) = run_plain(program);
    assert_eq!(stack_of(&engine), vec![Value::Int(42)]);
}

#[test]
fn division_truncates_toward_zero() {
    let program = vec![
        Instr::Push(Value::Int(7)),
        Instr::Push(Value::Int(2)),
        Instr::Arith(ArithOp::Div),
    ];
    let (engine, _, _) = run_plain(program);
    assert_eq!(stack_of(&engine), vec![Value::Int(3)]);

    let program = vec![
        Instr::Push(Value::Int(-7)),
        Instr::Push(Value::Int(2)),
        Instr::Arith(ArithOp::Div),
    ];
    let (engine, _, _) = run_plain(program);
    assert_eq!(stack_of(&engine), vec![Value::Int(-3)]);
}

#[test]
fn addition_wraps_at_the_integer_boundary() {
    let program = vec![
        Instr::Push(Value::Int(i32::MAX)),
        Instr::Push(Value::Int(1)),
        Instr::Arith(ArithOp::Add),
    ];
    let (engine, _, end) = run_plain(program);
    assert_eq!(end, Some(Ok(())));
    assert_eq!(stack_of(&engine), vec![Value::Int(i32::MIN)]);
}

#[test]
fn equal_branch_loops_with_counter() {
    // count down from 3 to 0: the loop runs until the counter equals zero
    let program = vec![
        Instr::Push(Value::Int(3)),
        Instr::Label(String::from("top")),
        Instr::Push(Value::Int(1)),
        Instr::Arith(ArithOp::Sub),
        Instr::Push(Value::Int(0)),
        Instr::Branch(CmpOp::Ne, String::from("top")),
    ];
    let (engine, _, end) = run_plain(program);
    assert_eq!(end, Some(Ok(())));
    assert_eq!(stack_of(&engine), vec![Value::Int(0)]);
}
