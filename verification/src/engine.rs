//! The execution engine: owns the program, the label table, the operand
//! stack and the program counter, and executes one fetch-decode-execute step
//! at a time.
//!
//! Work that only the host can do — reading a line of console input,
//! writing text, and every floating-point computation — is announced ahead
//! of a step as a [`Request`]; the host answers with a matching [`Reply`],
//! and the step is then pinned down by [`step_rel`] as a function of the
//! machine state and that reply. A step that prints hands the text back as
//! an [`Outcome`] for the host to write.

use vstd::prelude::*;
use vstd::hash_map::StringHashMap;
use vstd::pervasive::VecAdditionalExecFns;
use crate::instr::Instr;
use crate::numtext::char_to_text;
use crate::numtext::int_decimal;
use crate::numtext::int_literal_value;
use crate::numtext::int_to_decimal;
use crate::numtext::parse_int;
use crate::numtext::parses_to_i32;
use crate::value::ArithOp;
use crate::value::Fault;
use crate::value::FloatOrder;
use crate::value::Value;
use crate::value::ValueKind;
use crate::value::eval_float_cmp;
use crate::value::eval_int_arith;
use crate::value::eval_int_cmp;
use crate::value::float_cmp_holds;
use crate::value::int_arith;
use crate::value::int_cmp_holds;

verus! {

/// What the host must do before the next step can run. Besides `Nothing`,
/// every request names outside work: a float computation on bit patterns, a
/// float rendered as text, or a line of console input.
#[derive(Clone, Copy, PartialEq, Eq, Debug)]
pub enum Request {
    /// The next step needs no reply.
    Nothing,
    /// Compute `left OP right` on two floats given as bit patterns.
    FloatBin(ArithOp, u32, u32),
    /// Order two floats given as bit patterns (`first`, then `second`).
    FloatCmp(u32, u32),
    /// Convert an integer to a float, returned as its bit pattern.
    FloatOfInt(i32),
    /// Convert a float given as its bit pattern to an integer.
    IntOfFloat(u32),
    /// Render a float given as its bit pattern as text.
    FloatText(u32),
    /// Read one line of console input, to be parsed as an integer.
    IntLine,
    /// Read one line of console input and parse it as a float, returning
    /// its bit pattern, or nothing where it does not parse.
    FloatLine,
}

/// The host's answer to a [`Request`].
#[derive(Clone, PartialEq, Debug)]
pub enum Reply {
    /// Answers `Request::Nothing`.
    Nothing,
    /// A float result as its bit pattern, answering `FloatBin` or
    /// `FloatOfInt`.
    Bits(u32),
    /// How two floats compare, answering `FloatCmp`.
    Order(FloatOrder),
    /// An integer result, answering `IntOfFloat`.
    IntVal(i32),
    /// A line of text, answering `FloatText` or `IntLine`.
    Text(String),
    /// A parsed float's bit pattern, or nothing on malformed input,
    /// answering `FloatLine`.
    ParsedFloat(Option<u32>),
}

/// What one step did. `Write` hands text to the host; the machine state is
/// already updated when it is returned.
#[derive(Clone, PartialEq, Debug)]
pub enum Outcome {
    /// The instruction is done; fetch the next one.
    Continue,
    /// Write the text, with a trailing line break when the flag is set.
    Write(String, bool),
    /// The program counter reached the end of the program.
    Halt,
    /// A fatal fault; the run is over and the machine not resumable.
    Fault(Fault),
}

/// The mathematical state of an engine: the fixed program, the operand
/// stack, the program counter and whether a fault has ended the run.
pub ghost struct EngineView {
    pub prog: Seq<Instr>,
    pub stack: Seq<Value>,
    pub pc: int,
    pub faulted: bool,
}

/// The index of the first `Label` instruction at or after `from` bearing
/// `name`, if any. Jumps resolve a name to the first such index.
pub open spec fn find_label(p: Seq<Instr>, name: Seq<char>, from: int) -> Option<int>
    decreases p.len() - from,
{
    if from < 0 || from >= p.len() {
        None
    } else if p[from] matches Instr::Label(l) && l@ == name {
        Some(from)
    } else {
        find_label(p, name, from + 1)
    }
}

/// A resolved label index lies within the program and names a `Label`
/// instruction bearing the looked-up name.
pub proof fn lemma_find_label_range(p: Seq<Instr>, name: Seq<char>, from: int)
    ensures
        find_label(p, name, from) matches Some(t) ==> from <= t < p.len() && (p[t]
            matches Instr::Label(l) && l@ == name),
    decreases p.len() - from,
{
    if 0 <= from < p.len() {
        if !(p[from] matches Instr::Label(l) && l@ == name) {
            lemma_find_label_range(p, name, from + 1);
        }
    }
}

/// Whether an integer names a valid code point: not a surrogate and at most
/// 0x10FFFF.
pub open spec fn valid_code_point(i: i32) -> bool {
    0 <= i && (i < 0xD800 || (0xE000 <= i && i <= 0x10FFFF))
}

/// The step succeeded with nothing to write: no fault, and the machine
/// moved to the given stack and program counter.
pub open spec fn steps_to(
    s2: Seq<Value>,
    pc2: int,
    f2: bool,
    out: Outcome,
    ns: Seq<Value>,
    npc: int,
) -> bool {
    s2 == ns && pc2 == npc && !f2 && out == Outcome::Continue
}

/// The step faulted: the stack and program counter are untouched, the
/// machine is marked faulted, and the outcome names the fault.
pub open spec fn faults_with(
    s: Seq<Value>,
    pc: int,
    s2: Seq<Value>,
    pc2: int,
    f2: bool,
    out: Outcome,
    f: Fault,
) -> bool {
    s2 == s && pc2 == pc && f2 && out == Outcome::Fault(f)
}

/// The outcome hands the given text to the host, with the given line flag.
pub open spec fn writes_text(out: Outcome, text: Seq<char>, line: bool) -> bool {
    out matches Outcome::Write(t, nl) && t@ == text && nl == line
}

/// The outcome hands the host the one-character text whose code point is
/// the given integer, with no line break.
pub open spec fn writes_code_point(out: Outcome, i: i32) -> bool {
    out matches Outcome::Write(t, nl) && t@.len() == 1 && t@[0] as u32 == i as u32 && nl == false
}

/// How a conditional branch ends: the consumed operand is gone either way;
/// a taken branch resolves the label (faulting with the state untouched
/// where the label is unknown), an untaken one falls through.
pub open spec fn branch_steps(
    p: Seq<Instr>,
    s: Seq<Value>,
    pc: int,
    taken: bool,
    name: Seq<char>,
    s2: Seq<Value>,
    pc2: int,
    f2: bool,
    out: Outcome,
) -> bool {
    if taken {
        match find_label(p, name, 0) {
            Some(t) => steps_to(s2, pc2, f2, out, s.drop_last(), t),
            None => faults_with(s, pc, s2, pc2, f2, out, Fault::LabelNotFound),
        }
    } else {
        steps_to(s2, pc2, f2, out, s.drop_last(), pc + 1)
    }
}

/// The request that the instruction at `pc` makes of the host, given the
/// stack it will find.
pub open spec fn request_at(p: Seq<Instr>, s: Seq<Value>, pc: int) -> Request {
    if 0 <= pc < p.len() {
        match p[pc] {
            Instr::Arith(op) => if s.len() >= 2 {
                match (s[s.len() - 2], s[s.len() - 1]) {
                    (Value::Float(a), Value::Float(b)) => Request::FloatBin(op, a, b),
                    _ => Request::Nothing,
                }
            } else {
                Request::Nothing
            },
            Instr::Print(_) => if s.len() >= 1 {
                match s.last() {
                    Value::Float(bits) => Request::FloatText(bits),
                    _ => Request::Nothing,
                }
            } else {
                Request::Nothing
            },
            Instr::Input(ValueKind::Int) => Request::IntLine,
            Instr::Input(ValueKind::Float) => Request::FloatLine,
            Instr::Branch(_, _) => if s.len() >= 2 {
                match (s[s.len() - 2], s[s.len() - 1]) {
                    (Value::Float(a), Value::Float(b)) => Request::FloatCmp(a, b),
                    _ => Request::Nothing,
                }
            } else {
                Request::Nothing
            },
            Instr::ToInt => if s.len() >= 1 {
                match s.last() {
                    Value::Float(b) => Request::IntOfFloat(b),
                    _ => Request::Nothing,
                }
            } else {
                Request::Nothing
            },
            Instr::ToFloat => if s.len() >= 1 {
                match s.last() {
                    Value::Int(i) => Request::FloatOfInt(i),
                    _ => Request::Nothing,
                }
            } else {
                Request::Nothing
            },
            _ => Request::Nothing,
        }
    } else {
        Request::Nothing
    }
}

/// Whether a reply is of the shape the request asks for. Nothing more is
/// assumed of a reply's content: the machine is verified for every value
/// the host may hand back.
pub open spec fn reply_matches(req: Request, reply: Reply) -> bool {
    match req {
        Request::Nothing => reply is Nothing,
        Request::FloatBin(_, _, _) => reply is Bits,
        Request::FloatCmp(_, _) => reply is Order,
        Request::FloatOfInt(_) => reply is Bits,
        Request::IntOfFloat(_) => reply is IntVal,
        Request::FloatText(_) => reply is Text,
        Request::IntLine => reply is Text,
        Request::FloatLine => reply is ParsedFloat,
    }
}

/// The one-step transition relation of the machine: from program `p`, stack
/// `s` and program counter `pc`, answered with `reply`, the machine reaches
/// stack `s2`, counter `pc2` and fault flag `f2`, yielding `out`.
///
/// The program counter conceptually moves to `pc + 1` before a branch
/// target is weighed: a taken jump overwrites it, everything else leaves
/// the advanced counter alone, and a faulting step changes nothing at all.
/// In pop order, a two-operand instruction pops `second`, then `first`, and
/// computes `first OP second`; a conditional branch pushes `first` back.
pub open spec fn step_rel(
    p: Seq<Instr>,
    s: Seq<Value>,
    pc: int,
    reply: Reply,
    s2: Seq<Value>,
    pc2: int,
    f2: bool,
    out: Outcome,
) -> bool
    recommends
        0 <= pc <= p.len(),
{
    if pc == p.len() {
        s2 == s && pc2 == pc && !f2 && out == Outcome::Halt
    } else {
        let q = pc + 1;
        match p[pc] {
            Instr::Push(v) => steps_to(s2, pc2, f2, out, s.push(v), q),
            Instr::Pop => if s.len() == 0 {
                faults_with(s, pc, s2, pc2, f2, out, Fault::StackUnderflow)
            } else {
                steps_to(s2, pc2, f2, out, s.drop_last(), q)
            },
            Instr::Arith(op) => if s.len() < 2 {
                faults_with(s, pc, s2, pc2, f2, out, Fault::StackUnderflow)
            } else {
                match (s[s.len() - 2], s[s.len() - 1]) {
                    (Value::Int(a), Value::Int(b)) => match int_arith(op, a, b) {
                        Some(r) => steps_to(
                            s2,
                            pc2,
                            f2,
                            out,
                            s.subrange(0, s.len() - 2).push(Value::Int(r)),
                            q,
                        ),
                        None => faults_with(s, pc, s2, pc2, f2, out, Fault::ArithmeticFault),
                    },
                    (Value::Float(_), Value::Float(_)) => reply matches Reply::Bits(r)
                        && steps_to(
                        s2,
                        pc2,
                        f2,
                        out,
                        s.subrange(0, s.len() - 2).push(Value::Float(r)),
                        q,
                    ),
                    _ => faults_with(s, pc, s2, pc2, f2, out, Fault::TypeMismatch),
                }
            },
            Instr::Print(line) => if s.len() == 0 {
                faults_with(s, pc, s2, pc2, f2, out, Fault::StackUnderflow)
            } else {
                match s.last() {
                    Value::Int(i) => s2 == s && pc2 == q && !f2 && writes_text(
                        out,
                        int_decimal(i as int),
                        line,
                    ),
                    Value::Float(_) => reply matches Reply::Text(t) && s2 == s && pc2 == q && !f2
                        && writes_text(out, t@, line),
                }
            },
            Instr::PrintAscii => if s.len() == 0 {
                faults_with(s, pc, s2, pc2, f2, out, Fault::StackUnderflow)
            } else {
                match s.last() {
                    Value::Int(i) => if valid_code_point(i) {
                        s2 == s && pc2 == q && !f2 && writes_code_point(out, i)
                    } else {
                        faults_with(s, pc, s2, pc2, f2, out, Fault::TypeMismatch)
                    },
                    Value::Float(_) => faults_with(s, pc, s2, pc2, f2, out, Fault::TypeMismatch),
                }
            },
            Instr::Input(kind) => match kind {
                ValueKind::Int => reply matches Reply::Text(line) && if parses_to_i32(line@) {
                    steps_to(
                        s2,
                        pc2,
                        f2,
                        out,
                        s.push(Value::Int(int_literal_value(line@) as i32)),
                        q,
                    )
                } else {
                    faults_with(s, pc, s2, pc2, f2, out, Fault::ParseError)
                },
                ValueKind::Float => reply matches Reply::ParsedFloat(ob) && match ob {
                    Some(bits) => steps_to(s2, pc2, f2, out, s.push(Value::Float(bits)), q),
                    None => faults_with(s, pc, s2, pc2, f2, out, Fault::ParseError),
                },
            },
            Instr::Label(_) => steps_to(s2, pc2, f2, out, s, q),
            Instr::Jump(l) => match find_label(p, l@, 0) {
                Some(t) => steps_to(s2, pc2, f2, out, s, t),
                None => faults_with(s, pc, s2, pc2, f2, out, Fault::LabelNotFound),
            },
            Instr::Branch(op, l) => if s.len() < 2 {
                faults_with(s, pc, s2, pc2, f2, out, Fault::StackUnderflow)
            } else {
                match (s[s.len() - 2], s[s.len() - 1]) {
                    (Value::Int(a), Value::Int(b)) => branch_steps(
                        p,
                        s,
                        pc,
                        int_cmp_holds(op, a, b),
                        l@,
                        s2,
                        pc2,
                        f2,
                        out,
                    ),
                    (Value::Float(_), Value::Float(_)) => reply matches Reply::Order(o)
                        && branch_steps(p, s, pc, float_cmp_holds(op, o), l@, s2, pc2, f2, out),
                    _ => faults_with(s, pc, s2, pc2, f2, out, Fault::TypeMismatch),
                }
            },
            Instr::ToInt => if s.len() == 0 {
                faults_with(s, pc, s2, pc2, f2, out, Fault::StackUnderflow)
            } else {
                match s.last() {
                    Value::Float(_) => reply matches Reply::IntVal(i) && steps_to(
                        s2,
                        pc2,
                        f2,
                        out,
                        s.update(s.len() - 1, Value::Int(i)),
                        q,
                    ),
                    Value::Int(_) => faults_with(s, pc, s2, pc2, f2, out, Fault::TypeMismatch),
                }
            },
            Instr::ToFloat => if s.len() == 0 {
                faults_with(s, pc, s2, pc2, f2, out, Fault::StackUnderflow)
            } else {
                match s.last() {
                    Value::Int(_) => reply matches Reply::Bits(b) && steps_to(
                        s2,
                        pc2,
                        f2,
                        out,
                        s.update(s.len() - 1, Value::Float(b)),
                        q,
                    ),
                    Value::Float(_) => faults_with(s, pc, s2, pc2, f2, out, Fault::TypeMismatch),
                }
            },
            Instr::Duplicate => if s.len() == 0 {
                faults_with(s, pc, s2, pc2, f2, out, Fault::StackUnderflow)
            } else {
                steps_to(s2, pc2, f2, out, s.push(s.last()).push(s.last()), q)
            },
            Instr::Terminate => steps_to(s2, pc2, f2, out, s, p.len() as int),
        }
    }
}

/// The execution engine for one run. The program and the label table are
/// fixed at construction; the operand stack and the program counter change
/// only through [`Engine::step`].
pub struct Engine {
    program: Vec<Instr>,
    labels: StringHashMap<usize>,
    stack: Vec<Value>,
    pc: usize,
    faulted: bool,
}

impl View for Engine {
    type V = EngineView;

    closed spec fn view(&self) -> EngineView {
        EngineView {
            prog: self.program@,
            stack: self.stack@,
            pc: self.pc as int,
            faulted: self.faulted,
        }
    }
}

impl Engine {
    /// Well-formedness: the program counter stays within bounds, and the
    /// label table maps exactly the resolvable names, each to the index of
    /// the first `Label` instruction bearing it.
    pub closed spec fn inv(self) -> bool {
        &&& self.pc <= self.program@.len()
        &&& forall|name: Seq<char>| #[trigger]
            self.labels@.contains_key(name) <==> find_label(self.program@, name, 0) is Some
        &&& forall|name: Seq<char>| #[trigger]
            self.labels@.contains_key(name) ==> Some(self.labels@[name] as int) == find_label(
                self.program@,
                name,
                0,
            )
    }

    /// Builds an engine over `program` with an empty stack and the counter
    /// at the first instruction, scanning the program once to build the
    /// label table. The first `Label` bearing a name wins; a jump to a name
    /// no `Label` bears faults only when it executes.
    pub fn new(program: Vec<Instr>) -> (e: Engine)
        ensures
            e.inv(),
            e@.prog == program@,
            e@.stack == Seq::<Value>::empty(),
            e@.pc == 0,
            !e@.faulted,
    {
        let ghost p: Seq<Instr> = program@;
        let mut labels: StringHashMap<usize> = StringHashMap::new();
        let n = program.len();
        let mut i: usize = 0;
        while i < n
            invariant
                n == p.len(),
                i <= n,
                p == program@,
                forall|name: Seq<char>|
                    find_label(p, name, 0) == if #[trigger] labels@.contains_key(name) {
                        Some(labels@[name] as int)
                    } else {
                        find_label(p, name, i as int)
                    },
            decreases n - i,
        {
            let ghost pre_tbl: Map<Seq<char>, usize> = labels@;
            let ghost ii: int = i as int;
            match &program[i] {
                Instr::Label(l) => {
                    if !labels.contains_key(l.as_str()) {
                        labels.insert(l.clone(), i);
                    }
                },
                _ => {},
            }
            proof {
                assert forall|name: Seq<char>|
                    find_label(p, name, 0) == if #[trigger] labels@.contains_key(name) {
                        Some(labels@[name] as int)
                    } else {
                        find_label(p, name, ii + 1)
                    } by {
                    match p[ii] {
                        Instr::Label(l) => {
                            if l@ == name {
                                assert(find_label(p, name, ii) == Some(ii));
                            } else {
                                assert(find_label(p, name, ii) == find_label(p, name, ii + 1));
                            }
                        },
                        _ => {
                            assert(find_label(p, name, ii) == find_label(p, name, ii + 1));
                        },
                    }
                }
            }
            i = i + 1;
        }
        proof {
            assert forall|name: Seq<char>| #[trigger]
                labels@.contains_key(name) implies Some(labels@[name] as int) == find_label(
                    p,
                    name,
                    0,
                ) by {}
            assert forall|name: Seq<char>| #[trigger]
                labels@.contains_key(name) <==> find_label(p, name, 0) is Some by {
                if !labels@.contains_key(name) {
                    assert(find_label(p, name, n as int) is None);
                }
            }
        }
        Engine { program, labels, stack: Vec::new(), pc: 0, faulted: false }
    }

    /// Returns the number of instructions in the program.
    pub fn instruction_count(&self) -> (n: usize)
        ensures
            n == self@.prog.len(),
    {
        self.program.len()
    }

    /// Returns the instruction at index `i`.
    pub fn instruction_at(&self, i: usize) -> (r: &Instr)
        requires
            i < self@.prog.len(),
        ensures
            *r == self@.prog[i as int],
    {
        &self.program[i]
    }

    /// Returns the program counter.
    pub fn pc_index(&self) -> (r: usize)
        ensures
            r == self@.pc,
    {
        self.pc
    }

    /// Returns the number of values on the operand stack.
    pub fn stack_depth(&self) -> (n: usize)
        ensures
            n == self@.stack.len(),
    {
        self.stack.len()
    }

    /// Returns the stack value at index `i`, 0 being the bottom.
    pub fn stack_at(&self, i: usize) -> (v: Value)
        requires
            i < self@.stack.len(),
        ensures
            v == self@.stack[i as int],
    {
        self.stack[i]
    }

    /// Whether the run has halted: the counter is at the end of the program.
    pub fn has_halted(&self) -> (r: bool)
        ensures
            r == (self@.pc == self@.prog.len()),
    {
        self.pc == self.program.len()
    }

    /// Whether a fault has ended the run.
    pub fn has_faulted(&self) -> (r: bool)
        ensures
            r == self@.faulted,
    {
        self.faulted
    }

    /// Announces what the host must do before the next step: the request
    /// of the instruction the counter stands on, given the current stack.
    pub fn next_request(&self) -> (r: Request)
        ensures
            r == request_at(self@.prog, self@.stack, self@.pc),
    {
        if self.pc >= self.program.len() {
            return Request::Nothing;
        }
        let n = self.stack.len();
        match &self.program[self.pc] {
            Instr::Arith(op) => {
                if n >= 2 {
                    match (self.stack[n - 2], self.stack[n - 1]) {
                        (Value::Float(a), Value::Float(b)) => Request::FloatBin(*op, a, b),
                        _ => Request::Nothing,
                    }
                } else {
                    Request::Nothing
                }
            },
            Instr::Print(_) => {
                if n >= 1 {
                    match self.stack[n - 1] {
                        Value::Float(bits) => Request::FloatText(bits),
                        _ => Request::Nothing,
                    }
                } else {
                    Request::Nothing
                }
            },
            Instr::Input(ValueKind::Int) => Request::IntLine,
            Instr::Input(ValueKind::Float) => Request::FloatLine,
            Instr::Branch(_, _) => {
                if n >= 2 {
                    match (self.stack[n - 2], self.stack[n - 1]) {
                        (Value::Float(a), Value::Float(b)) => Request::FloatCmp(a, b),
                        _ => Request::Nothing,
                    }
                } else {
                    Request::Nothing
                }
            },
            Instr::ToInt => {
                if n >= 1 {
                    match self.stack[n - 1] {
                        Value::Float(b) => Request::IntOfFloat(b),
                        _ => Request::Nothing,
                    }
                } else {
                    Request::Nothing
                }
            },
            Instr::ToFloat => {
                if n >= 1 {
                    match self.stack[n - 1] {
                        Value::Int(i) => Request::FloatOfInt(i),
                        _ => Request::Nothing,
                    }
                } else {
                    Request::Nothing
                }
            },
            _ => Request::Nothing,
        }
    }

    /// Executes one instruction, given a reply of the shape the pending
    /// request asks for. The transition is exactly [`step_rel`]; the
    /// program never changes.
    pub fn step(&mut self, reply: Reply) -> (out: Outcome)
        requires
            old(self).inv(),
            !old(self)@.faulted,
            reply_matches(
                request_at(old(self)@.prog, old(self)@.stack, old(self)@.pc),
                reply,
            ),
        ensures
            final(self).inv(),
            final(self)@.prog == old(self)@.prog,
            step_rel(
                old(self)@.prog,
                old(self)@.stack,
                old(self)@.pc,
                reply,
                final(self)@.stack,
                final(self)@.pc,
                final(self)@.faulted,
                out,
            ),
    {
        let ghost p: Seq<Instr> = old(self)@.prog;
        let ghost s0: Seq<Value> = old(self)@.stack;
        if self.pc == self.program.len() {
            return Outcome::Halt;
        }
        let q = self.pc + 1;
        let n = self.stack.len();
        match &self.program[self.pc] {
            Instr::Push(v) => {
                let val = *v;
                self.stack.push(val);
                self.pc = q;
                Outcome::Continue
            },
            Instr::Pop => {
                if n == 0 {
                    self.faulted = true;
                    return Outcome::Fault(Fault::StackUnderflow);
                }
                self.stack.pop();
                self.pc = q;
                proof {
                    assert(self@.stack =~= s0.drop_last());
                }
                Outcome::Continue
            },
            Instr::Arith(op) => {
                if n < 2 {
                    self.faulted = true;
                    return Outcome::Fault(Fault::StackUnderflow);
                }
                let second = self.stack[n - 1];
                let first = self.stack[n - 2];
                match (first, second) {
                    (Value::Int(a), Value::Int(b)) => {
                        match eval_int_arith(*op, a, b) {
                            Ok(r) => {
                                self.stack.pop();
                                self.stack.pop();
                                self.stack.push(Value::Int(r));
                                self.pc = q;
                                proof {
                                    assert(self@.stack =~= s0.subrange(0, s0.len() - 2).push(
                                        Value::Int(r),
                                    ));
                                }
                                Outcome::Continue
                            },
                            Err(f) => {
                                self.faulted = true;
                                Outcome::Fault(f)
                            },
                        }
                    },
                    (Value::Float(_), Value::Float(_)) => {
                        match reply {
                            Reply::Bits(r) => {
                                self.stack.pop();
                                self.stack.pop();
                                self.stack.push(Value::Float(r));
                                self.pc = q;
                                proof {
                                    assert(self@.stack =~= s0.subrange(0, s0.len() - 2).push(
                                        Value::Float(r),
                                    ));
                                }
                                Outcome::Continue
                            },
                            _ => vstd::pervasive::unreached(),
                        }
                    },
                    _ => {
                        self.faulted = true;
                        Outcome::Fault(Fault::TypeMismatch)
                    },
                }
            },
            Instr::Print(line) => {
                if n == 0 {
                    self.faulted = true;
                    return Outcome::Fault(Fault::StackUnderflow);
                }
                let top = self.stack[n - 1];
                match top {
                    Value::Int(i) => {
                        let text = int_to_decimal(i);
                        self.pc = q;
                        Outcome::Write(text, *line)
                    },
                    Value::Float(_) => {
                        match reply {
                            Reply::Text(t) => {
                                self.pc = q;
                                Outcome::Write(t, *line)
                            },
                            _ => vstd::pervasive::unreached(),
                        }
                    },
                }
            },
            Instr::PrintAscii => {
                if n == 0 {
                    self.faulted = true;
                    return Outcome::Fault(Fault::StackUnderflow);
                }
                let top = self.stack[n - 1];
                match top {
                    Value::Int(i) => {
                        if i >= 0 {
                            match char::from_u32(i as u32) {
                                Some(c) => {
                                    let text = char_to_text(c);
                                    self.pc = q;
                                    Outcome::Write(text, false)
                                },
                                None => {
                                    self.faulted = true;
                                    Outcome::Fault(Fault::TypeMismatch)
                                },
                            }
                        } else {
                            self.faulted = true;
                            Outcome::Fault(Fault::TypeMismatch)
                        }
                    },
                    Value::Float(_) => {
                        self.faulted = true;
                        Outcome::Fault(Fault::TypeMismatch)
                    },
                }
            },
            Instr::Input(kind) => {
                match kind {
                    ValueKind::Int => {
                        match reply {
                            Reply::Text(t) => {
                                match parse_int(t.as_str()) {
                                    Ok(v) => {
                                        self.stack.push(Value::Int(v));
                                        self.pc = q;
                                        Outcome::Continue
                                    },
                                    Err(f) => {
                                        self.faulted = true;
                                        Outcome::Fault(f)
                                    },
                                }
                            },
                            _ => vstd::pervasive::unreached(),
                        }
                    },
                    ValueKind::Float => {
                        match reply {
                            Reply::ParsedFloat(ob) => {
                                match ob {
                                    Some(bits) => {
                                        self.stack.push(Value::Float(bits));
                                        self.pc = q;
                                        Outcome::Continue
                                    },
                                    None => {
                                        self.faulted = true;
                                        Outcome::Fault(Fault::ParseError)
                                    },
                                }
                            },
                            _ => vstd::pervasive::unreached(),
                        }
                    },
                }
            },
            Instr::Label(_) => {
                self.pc = q;
                Outcome::Continue
            },
            Instr::Jump(l) => {
                match self.labels.get(l.as_str()) {
                    Some(t) => {
                        let tv = *t;
                        proof {
                            lemma_find_label_range(p, l@, 0);
                        }
                        self.pc = tv;
                        Outcome::Continue
                    },
                    None => {
                        self.faulted = true;
                        Outcome::Fault(Fault::LabelNotFound)
                    },
                }
            },
            Instr::Branch(op, l) => {
                if n < 2 {
                    self.faulted = true;
                    return Outcome::Fault(Fault::StackUnderflow);
                }
                let second = self.stack[n - 1];
                let first = self.stack[n - 2];
                let taken: bool;
                match (first, second) {
                    (Value::Int(a), Value::Int(b)) => {
                        taken = eval_int_cmp(*op, a, b);
                    },
                    (Value::Float(_), Value::Float(_)) => {
                        match reply {
                            Reply::Order(o) => {
                                taken = eval_float_cmp(*op, o);
                            },
                            _ => {
                                return vstd::pervasive::unreached();
                            },
                        }
                    },
                    _ => {
                        self.faulted = true;
                        return Outcome::Fault(Fault::TypeMismatch);
                    },
                }
                if taken {
                    match self.labels.get(l.as_str()) {
                        Some(t) => {
                            let tv = *t;
                            proof {
                                lemma_find_label_range(p, l@, 0);
                            }
                            self.stack.pop();
                            self.pc = tv;
                            proof {
                                assert(self@.stack =~= s0.drop_last());
                            }
                            Outcome::Continue
                        },
                        None => {
                            self.faulted = true;
                            Outcome::Fault(Fault::LabelNotFound)
                        },
                    }
                } else {
                    self.stack.pop();
                    self.pc = q;
                    proof {
                        assert(self@.stack =~= s0.drop_last());
                    }
                    Outcome::Continue
                }
            },
            Instr::ToInt => {
                if n == 0 {
                    self.faulted = true;
                    return Outcome::Fault(Fault::StackUnderflow);
                }
                let top = self.stack[n - 1];
                match top {
                    Value::Float(_) => {
                        match reply {
                            Reply::IntVal(iv) => {
                                self.stack.set(n - 1, Value::Int(iv));
                                self.pc = q;
                                Outcome::Continue
                            },
                            _ => vstd::pervasive::unreached(),
                        }
                    },
                    Value::Int(_) => {
                        self.faulted = true;
                        Outcome::Fault(Fault::TypeMismatch)
                    },
                }
            },
            Instr::ToFloat => {
                if n == 0 {
                    self.faulted = true;
                    return Outcome::Fault(Fault::StackUnderflow);
                }
                let top = self.stack[n - 1];
                match top {
                    Value::Int(_) => {
                        match reply {
                            Reply::Bits(b) => {
                                self.stack.set(n - 1, Value::Float(b));
                                self.pc = q;
                                Outcome::Continue
                            },
                            _ => vstd::pervasive::unreached(),
                        }
                    },
                    Value::Float(_) => {
                        self.faulted = true;
                        Outcome::Fault(Fault::TypeMismatch)
                    },
                }
            },
            Instr::Duplicate => {
                if n == 0 {
                    self.faulted = true;
                    return Outcome::Fault(Fault::StackUnderflow);
                }
                let top = self.stack[n - 1];
                self.stack.push(top);
                self.stack.push(top);
                self.pc = q;
                Outcome::Continue
            },
            Instr::Terminate => {
                self.pc = self.program.len();
                Outcome::Continue
            },
        }
    }
}

} // verus!
