use vstd::prelude::*;
use crate::chunk::{Chunk, OpCode};
use crate::stack::{Stack, StackFault};

verus! {

/// The capacity of a machine's operand stack.
pub const STACK_MAX: usize = 256;

/// The terminal status of a run, as a front end reports it.
#[derive(Copy, Clone, Debug, Eq, PartialEq, Structural)]
pub enum InterpretResult {
    InterpretOk,
    InterpretCompileError,
    InterpretRuntimeError,
}

/// Why a run stopped without reaching `OpReturn`.
#[derive(Copy, Clone, Debug, Eq, PartialEq, Structural)]
pub enum VmFault {
    /// The operand stack overflowed or underflowed.
    Stack(StackFault),
    /// An `OpConstant` was not followed by a `Reg` slot.
    OperandExpected,
    /// A `Reg` slot named a constant that the pool does not hold.
    UnknownConstant,
    /// The instruction stream ended before an `OpReturn`.
    NoReturn,
}

/// Arithmetic the machine hands to its host; the operands are `a` (popped first) and `b`.
/// The host computes `-a`, `a + b`, `a - b`, `a * b` or `a / b` and hands the result back
/// through `VM::resume`.
#[derive(Debug, PartialEq)]
pub enum Request<V> {
    Negate(V),
    Add(V, V),
    Subtract(V, V),
    Multiply(V, V),
    Divide(V, V),
}

/// Where a run stopped.
#[derive(Debug, PartialEq)]
pub enum Outcome<V> {
    /// Waiting for the host to compute a value.
    Compute(Request<V>),
    /// `OpReturn` surfaced this value.
    Returned(V),
    Fault(VmFault),
}

/// What a machine is, for reasoning: its code, constants and line runs, its instruction
/// pointer and its operand stack, bottom first.
pub struct Machine<V> {
    pub code: Seq<OpCode>,
    pub constants: Seq<V>,
    pub line_runs: Seq<(nat, nat)>,
    pub ip: nat,
    pub stack: Seq<V>,
}

impl<V> Machine<V> {
    pub open spec fn at(self, ip: nat, stack: Seq<V>) -> Machine<V> {
        Machine { ip, stack, ..self }
    }
}

/// The request made by a binary instruction, `a` being the value on top of the stack.
pub open spec fn binary_request<V>(op: OpCode, a: V, b: V) -> Request<V> {
    match op {
        OpCode::OpAdd => Request::Add(a, b),
        OpCode::OpSubtract => Request::Subtract(a, b),
        OpCode::OpMultiply => Request::Multiply(a, b),
        _ => Request::Divide(a, b),
    }
}

/// One fetch-decode-execute step: the machine after it, and where the run stops, if it does.
pub open spec fn step_spec<V>(m: Machine<V>) -> (Machine<V>, Option<Outcome<V>>) {
    let ip = m.ip;
    let s = m.stack;
    if ip >= m.code.len() {
        (m, Some(Outcome::Fault(VmFault::NoReturn)))
    } else {
        let op = m.code[ip as int];
        if op == OpCode::OpConstant {
            if ip + 1 < m.code.len() && m.code[ip as int + 1] is Reg {
                let idx = m.code[ip as int + 1]->Reg_0;
                if idx >= m.constants.len() {
                    (m.at(ip + 2, s), Some(Outcome::Fault(VmFault::UnknownConstant)))
                } else if s.len() >= STACK_MAX {
                    (m.at(ip + 2, s), Some(Outcome::Fault(VmFault::Stack(StackFault::Overflow))))
                } else {
                    (m.at(ip + 2, s.push(m.constants[idx as int])), None)
                }
            } else {
                (m.at(ip + 1, s), Some(Outcome::Fault(VmFault::OperandExpected)))
            }
        } else if op is Reg {
            (m.at(ip + 1, s), None)
        } else if op == OpCode::OpReturn || op == OpCode::OpNegate {
            if s.len() == 0 {
                (m.at(ip + 1, s), Some(Outcome::Fault(VmFault::Stack(StackFault::Underflow))))
            } else if op == OpCode::OpReturn {
                (m.at(ip + 1, s.drop_last()), Some(Outcome::Returned(s.last())))
            } else {
                (m.at(ip + 1, s.drop_last()), Some(Outcome::Compute(Request::Negate(s.last()))))
            }
        } else {
            if s.len() < 2 {
                (m.at(ip + 1, s), Some(Outcome::Fault(VmFault::Stack(StackFault::Underflow))))
            } else {
                (
                    m.at(ip + 1, s.take(s.len() - 2)),
                    Some(Outcome::Compute(binary_request(op, s.last(), s[s.len() - 2]))),
                )
            }
        }
    }
}

/// Steps until the run stops: the machine then, and where it stopped.
pub open spec fn run_spec<V>(m: Machine<V>) -> (Machine<V>, Outcome<V>)
    decreases m.code.len() - m.ip,
{
    let (next, o) = step_spec(m);
    match o {
        Some(o) => (next, o),
        None => if next.ip > m.ip && m.ip < m.code.len() {
            run_spec(next)
        } else {
            (next, Outcome::Fault(VmFault::NoReturn))
        },
    }
}

/// The status a front end reports for a run that stopped with `o`; `None` while the machine
/// waits for its host.
pub open spec fn status_spec<V>(o: Outcome<V>) -> Option<InterpretResult> {
    match o {
        Outcome::Compute(_) => None,
        Outcome::Returned(_) => Some(InterpretResult::InterpretOk),
        Outcome::Fault(_) => Some(InterpretResult::InterpretRuntimeError),
    }
}

proof fn lemma_step_advances<V>(m: Machine<V>)
    ensures
        step_spec(m).1 is None ==> m.ip < m.code.len() && step_spec(m).0.ip > m.ip
            && step_spec(m).0.ip <= m.code.len(),
{
}

/// A run, however it stops, changes only the instruction pointer and the operand stack: the
/// machine keeps its code, constants and line runs.
pub proof fn lemma_run_keeps_chunk<V>(m: Machine<V>)
    ensures
        run_spec(m).0.code == m.code,
        run_spec(m).0.constants == m.constants,
        run_spec(m).0.line_runs == m.line_runs,
    decreases m.code.len() - m.ip,
{
    let (next, o) = step_spec(m);
    if o is None && next.ip > m.ip && m.ip < m.code.len() {
        lemma_run_keeps_chunk(next);
    }
}

/// Executing an `OpConstant` that is not immediately followed by a `Reg` slot stops the run
/// with a decoding fault, whatever the stack holds.
pub proof fn lemma_constant_without_operand_faults<V>(m: Machine<V>)
    requires
        m.ip < m.code.len(),
        m.code[m.ip as int] == OpCode::OpConstant,
        !(m.ip + 1 < m.code.len() && m.code[m.ip as int + 1] is Reg),
    ensures
        run_spec(m).1 == Outcome::<V>::Fault(VmFault::OperandExpected),
{
}

/// A virtual machine that owns one chunk, an instruction pointer and an operand stack.
#[derive(Debug)]
pub struct VM<V> {
    chunk: Chunk<V>,
    ip: usize,
    stack: Stack<V>,
    trace: bool,
}

impl<V: Copy> VM<V> {
    pub closed spec fn view(&self) -> Machine<V> {
        Machine {
            code: self.chunk.code@,
            constants: self.chunk.constants@,
            line_runs: self.chunk.lines.runs(),
            ip: self.ip as nat,
            stack: self.stack@,
        }
    }

    /// Whether the host should print each instruction as it executes.
    pub closed spec fn tracing(&self) -> bool {
        self.trace
    }

    pub closed spec fn wf(&self) -> bool {
        &&& self.chunk.wf()
        &&& self.stack.wf()
        &&& self.stack.capacity() == STACK_MAX
        &&& self.ip <= self.chunk.code@.len()
    }

    pub fn new(chunk: Chunk<V>) -> (r: VM<V>)
        requires
            chunk.wf(),
        ensures
            r.wf(),
            !r.tracing(),
            r@ == (Machine {
                code: chunk.code@,
                constants: chunk.constants@,
                line_runs: chunk.lines.runs(),
                ip: 0,
                stack: Seq::<V>::empty(),
            }),
    {
        VM::with_trace(chunk, false)
    }

    /// A machine whose host prints each instruction as it executes, where `trace` is set.
    pub fn with_trace(chunk: Chunk<V>, trace: bool) -> (r: VM<V>)
        requires
            chunk.wf(),
        ensures
            r.wf(),
            r.tracing() == trace,
            r@ == (Machine {
                code: chunk.code@,
                constants: chunk.constants@,
                line_runs: chunk.lines.runs(),
                ip: 0,
                stack: Seq::<V>::empty(),
            }),
    {
        VM { chunk, ip: 0, stack: Stack::new(STACK_MAX), trace }
    }

    pub fn trace(&self) -> (r: bool)
        ensures
            r == self.tracing(),
    {
        self.trace
    }

    /// The chunk the machine runs.
    pub fn chunk(&self) -> (r: &Chunk<V>)
        requires
            self.wf(),
        ensures
            r.wf(),
            r.code@ == self@.code,
            r.constants@ == self@.constants,
            r.lines.runs() == self@.line_runs,
    {
        &self.chunk
    }

    /// The offset of the next instruction.
    pub fn ip(&self) -> (r: usize)
        ensures
            r == self@.ip,
    {
        self.ip
    }

    /// The operand stack, bottom first.
    pub fn stack(&self) -> (r: &[V])
        ensures
            r@ == self@.stack,
    {
        self.stack.iter()
    }

    /// Runs the chunk from its current position; there is no compiler yet, so the source
    /// text is not read.
    pub fn interpret(&mut self, _source: &str) -> (r: Outcome<V>)
        requires
            old(self).wf(),
        ensures
            final(self).wf(),
            final(self).tracing() == old(self).tracing(),
            (final(self)@, r) == run_spec(old(self)@),
    {
        self.run()
    }

    /// Hands the machine the value it asked for, then runs on.
    pub fn resume(&mut self, value: V) -> (r: Outcome<V>)
        requires
            old(self).wf(),
        ensures
            final(self).wf(),
            final(self).tracing() == old(self).tracing(),
            old(self)@.stack.len() >= STACK_MAX ==> r == Outcome::<V>::Fault(
                VmFault::Stack(StackFault::Overflow),
            ) && final(self)@ == old(self)@,
            old(self)@.stack.len() < STACK_MAX ==> (final(self)@, r) == run_spec(
                old(self)@.at(old(self)@.ip, old(self)@.stack.push(value)),
            ),
    {
        match self.supply(value) {
            Ok(()) => self.run(),
            Err(e) => Outcome::Fault(e),
        }
    }

    /// Pushes the value the machine asked for, without running on.
    pub fn supply(&mut self, value: V) -> (r: Result<(), VmFault>)
        requires
            old(self).wf(),
        ensures
            final(self).wf(),
            final(self).tracing() == old(self).tracing(),
            old(self)@.stack.len() >= STACK_MAX ==> r == Err::<(), VmFault>(
                VmFault::Stack(StackFault::Overflow),
            ) && final(self)@ == old(self)@,
            old(self)@.stack.len() < STACK_MAX ==> r is Ok && final(self)@ == old(self)@.at(
                old(self)@.ip,
                old(self)@.stack.push(value),
            ),
    {
        match self.stack.push(value) {
            Ok(()) => Ok(()),
            Err(e) => Err(VmFault::Stack(e)),
        }
    }

    /// Steps until the machine returns, faults or needs its host to compute a value.
    pub fn run(&mut self) -> (r: Outcome<V>)
        requires
            old(self).wf(),
        ensures
            final(self).wf(),
            final(self).tracing() == old(self).tracing(),
            (final(self)@, r) == run_spec(old(self)@),
    {
        loop
            invariant
                self.wf(),
                self.tracing() == old(self).tracing(),
                run_spec(self@) == run_spec(old(self)@),
            decreases self.chunk.code@.len() - self.ip,
        {
            let ghost before = self@;
            proof {
                lemma_step_advances(before);
            }
            match self.step() {
                Some(o) => {
                    return o;
                },
                None => {},
            }
        }
    }

    /// Executes one instruction.
    pub fn step(&mut self) -> (r: Option<Outcome<V>>)
        requires
            old(self).wf(),
        ensures
            final(self).wf(),
            final(self).tracing() == old(self).tracing(),
            (final(self)@, r) == step_spec(old(self)@),
    {
        let ghost m = self@;
        if self.ip >= self.chunk.code.len() {
            return Some(Outcome::Fault(VmFault::NoReturn));
        }
        let op = self.next();
        match op {
            OpCode::OpConstant => {
                if self.ip >= self.chunk.code.len() {
                    return Some(Outcome::Fault(VmFault::OperandExpected));
                }
                match self.chunk.code[self.ip] {
                    OpCode::Reg(idx) => {
                        self.ip = self.ip + 1;
                        if idx as usize >= self.chunk.constants.len() {
                            return Some(Outcome::Fault(VmFault::UnknownConstant));
                        }
                        let constant = *self.chunk.constants.index(idx as usize);
                        match self.stack.push(constant) {
                            Ok(()) => None,
                            Err(e) => Some(Outcome::Fault(VmFault::Stack(e))),
                        }
                    },
                    _ => Some(Outcome::Fault(VmFault::OperandExpected)),
                }
            },
            OpCode::Reg(_) => None,
            OpCode::OpReturn => match self.stack.pop() {
                Ok(v) => Some(Outcome::Returned(v)),
                Err(e) => Some(Outcome::Fault(VmFault::Stack(e))),
            },
            OpCode::OpNegate => match self.stack.pop() {
                Ok(v) => Some(Outcome::Compute(Request::Negate(v))),
                Err(e) => Some(Outcome::Fault(VmFault::Stack(e))),
            },
            _ => {
                if self.stack.len() < 2 {
                    return Some(Outcome::Fault(VmFault::Stack(StackFault::Underflow)));
                }
                let ghost s = self.stack@;
                let a = match self.stack.pop() {
                    Ok(v) => v,
                    Err(e) => {
                        return Some(Outcome::Fault(VmFault::Stack(e)));
                    },
                };
                let b = match self.stack.pop() {
                    Ok(v) => v,
                    Err(e) => {
                        return Some(Outcome::Fault(VmFault::Stack(e)));
                    },
                };
                assert(s.drop_last().drop_last() =~= s.take(s.len() - 2));
                let req = match op {
                    OpCode::OpAdd => Request::Add(a, b),
                    OpCode::OpSubtract => Request::Subtract(a, b),
                    OpCode::OpMultiply => Request::Multiply(a, b),
                    _ => Request::Divide(a, b),
                };
                Some(Outcome::Compute(req))
            },
        }
    }

    /// Fetches the instruction at the instruction pointer and moves past it.
    fn next(&mut self) -> (r: OpCode)
        requires
            old(self).wf(),
            old(self).ip < old(self).chunk.code@.len(),
        ensures
            final(self).wf(),
            final(self).tracing() == old(self).tracing(),
            r == old(self)@.code[old(self)@.ip as int],
            final(self)@ == old(self)@.at(old(self)@.ip + 1, old(self)@.stack),
    {
        let n = self.chunk.code.len();
        assert(self.ip < n);
        self.ip = self.ip + 1;
        self.chunk.code[self.ip - 1]
    }
}

/// The status a front end reports for a run that stopped with `o`; `None` while the machine
/// waits for its host.
pub fn status<V>(o: &Outcome<V>) -> (r: Option<InterpretResult>)
    ensures
        r == status_spec(*o),
{
    match o {
        Outcome::Compute(_) => None,
        Outcome::Returned(_) => Some(InterpretResult::InterpretOk),
        Outcome::Fault(_) => Some(InterpretResult::InterpretRuntimeError),
    }
}

} // verus!
