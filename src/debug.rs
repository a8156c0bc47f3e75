use vstd::prelude::*;
use crate::chunk::{Chunk, OpCode};
use crate::line_number::line_at_spec;

verus! {

/// Why an instruction could not be disassembled.
#[derive(Copy, Clone, Debug, PartialEq, Eq, Structural)]
pub enum DisassembleFault {
    /// A `Reg` slot stood where an instruction was expected.
    StrayOperand,
    /// An `OpConstant` was not followed by a `Reg` slot.
    OperandExpected,
    /// A `Reg` slot named a constant that the pool does not hold.
    UnknownConstant,
}

/// One disassembled instruction, ready to be printed.
#[derive(Debug, PartialEq)]
pub struct Entry<V> {
    pub offset: usize,
    /// The source line, or `None` where it is the line of the previous instruction.
    pub line: Option<usize>,
    pub op: OpCode,
    /// For `OpConstant`: the index it names and the constant stored there.
    pub constant: Option<(u8, V)>,
}

/// The symbolic name printed for an instruction; a `Reg` slot has none.
pub open spec fn op_name_spec(op: OpCode) -> Option<Seq<char>> {
    match op {
        OpCode::OpConstant => Some("OP_CONSTANT"@),
        OpCode::OpNegate => Some("OP_NEGATE"@),
        OpCode::OpAdd => Some("OP_ADD"@),
        OpCode::OpSubtract => Some("OP_SUBTRACT"@),
        OpCode::OpMultiply => Some("OP_MULTIPLY"@),
        OpCode::OpDivide => Some("OP_DIVIDE"@),
        OpCode::OpReturn => Some("OP_RETURN"@),
        OpCode::Reg(_) => None,
    }
}

/// The symbolic name of an instruction; `None` for a `Reg` slot.
pub fn op_name(op: OpCode) -> (r: Option<&'static str>)
    ensures
        r is None <==> op_name_spec(op) is None,
        r matches Some(name) ==> op_name_spec(op) == Some(name@),
{
    match op {
        OpCode::OpConstant => Some("OP_CONSTANT"),
        OpCode::OpNegate => Some("OP_NEGATE"),
        OpCode::OpAdd => Some("OP_ADD"),
        OpCode::OpSubtract => Some("OP_SUBTRACT"),
        OpCode::OpMultiply => Some("OP_MULTIPLY"),
        OpCode::OpDivide => Some("OP_DIVIDE"),
        OpCode::OpReturn => Some("OP_RETURN"),
        OpCode::Reg(_) => None,
    }
}

/// The line column of the instruction at `offset`.
pub open spec fn line_column(lines: Seq<nat>, offset: nat) -> Option<usize> {
    if offset > 0 && line_at_spec(lines, offset) == line_at_spec(lines, (offset - 1) as nat) {
        None
    } else {
        Some(line_at_spec(lines, offset) as usize)
    }
}

/// The entry for the instruction at `offset` and the offset of the next instruction.
pub open spec fn entry_spec<V>(
    code: Seq<OpCode>,
    constants: Seq<V>,
    lines: Seq<nat>,
    offset: nat,
) -> Result<(Entry<V>, nat), DisassembleFault> {
    let op = code[offset as int];
    if op is Reg {
        Err(DisassembleFault::StrayOperand)
    } else if op == OpCode::OpConstant {
        if offset + 1 < code.len() && code[offset as int + 1] is Reg {
            let idx = code[offset as int + 1]->Reg_0;
            if idx < constants.len() {
                Ok(
                    (
                        Entry {
                            offset: offset as usize,
                            line: line_column(lines, offset),
                            op,
                            constant: Some((idx, constants[idx as int])),
                        },
                        offset + 2,
                    ),
                )
            } else {
                Err(DisassembleFault::UnknownConstant)
            }
        } else {
            Err(DisassembleFault::OperandExpected)
        }
    } else {
        Ok(
            (
                Entry {
                    offset: offset as usize,
                    line: line_column(lines, offset),
                    op,
                    constant: None,
                },
                offset + 1,
            ),
        )
    }
}

/// The entries of all instructions from `offset` to the end of the code.
pub open spec fn listing_spec<V>(
    code: Seq<OpCode>,
    constants: Seq<V>,
    lines: Seq<nat>,
    offset: nat,
) -> Result<Seq<Entry<V>>, DisassembleFault>
    decreases code.len() - offset,
{
    if offset >= code.len() {
        Ok(Seq::empty())
    } else {
        match entry_spec(code, constants, lines, offset) {
            Err(e) => Err(e),
            // Every entry moves past its offset; the guard makes termination evident.
            Ok((entry, next)) => if next > offset {
                match listing_spec(code, constants, lines, next) {
                    Ok(rest) => Ok(seq![entry] + rest),
                    Err(e) => Err(e),
                }
            } else {
                Err(DisassembleFault::StrayOperand)
            },
        }
    }
}

/// Disassembles every instruction of `chunk`, in order.
pub fn disassemble_chunk<V: Copy>(chunk: &Chunk<V>) -> (r: Result<Vec<Entry<V>>, DisassembleFault>)
    requires
        chunk.wf(),
    ensures
        r matches Ok(v) ==> listing_spec(chunk.code@, chunk.constants@, chunk.lines@, 0) == Ok::<
            Seq<Entry<V>>,
            DisassembleFault,
        >(v@),
        r matches Err(e) ==> listing_spec(chunk.code@, chunk.constants@, chunk.lines@, 0) == Err::<
            Seq<Entry<V>>,
            DisassembleFault,
        >(e),
{
    let ghost code = chunk.code@;
    let ghost constants = chunk.constants@;
    let ghost lines = chunk.lines@;
    let mut entries: Vec<Entry<V>> = Vec::new();
    let mut offset: usize = 0;
    while offset < chunk.code.len()
        invariant
            chunk.wf(),
            code == chunk.code@,
            constants == chunk.constants@,
            lines == chunk.lines@,
            offset <= code.len(),
            listing_spec(code, constants, lines, 0) == match listing_spec(
                code,
                constants,
                lines,
                offset as nat,
            ) {
                Ok(rest) => Ok(entries@ + rest),
                Err(e) => Err(e),
            },
        decreases code.len() - offset,
    {
        match disassemble_instruction(chunk, offset) {
            Ok((entry, next)) => {
                proof {
                    let rest = listing_spec(code, constants, lines, next as nat);
                    if let Ok(r) = rest {
                        assert(entries@.push(entry) + r =~= entries@ + (seq![entry] + r));
                    }
                }
                entries.push(entry);
                offset = next;
            },
            Err(e) => {
                return Err(e);
            },
        }
    }
    assert(entries@ + Seq::<Entry<V>>::empty() =~= entries@);
    Ok(entries)
}

/// Disassembles the instruction at `offset`; also returns the offset of the next instruction.
pub fn disassemble_instruction<V: Copy>(chunk: &Chunk<V>, offset: usize) -> (r: Result<
    (Entry<V>, usize),
    DisassembleFault,
>)
    requires
        chunk.wf(),
        offset < chunk.code@.len(),
    ensures
        r matches Ok((e, next)) ==> entry_spec(
            chunk.code@,
            chunk.constants@,
            chunk.lines@,
            offset as nat,
        ) == Ok::<(Entry<V>, nat), DisassembleFault>((e, next as nat)),
        r matches Err(f) ==> entry_spec(chunk.code@, chunk.constants@, chunk.lines@, offset as nat)
            == Err::<(Entry<V>, nat), DisassembleFault>(f),
{
    let current_line = chunk.lines.get_line(offset);
    let line = if offset > 0 && current_line == chunk.lines.get_line(offset - 1) {
        None
    } else {
        Some(current_line)
    };
    let n = chunk.code.len();
    assert(offset < n);
    let op = chunk.code[offset];
    match op {
        OpCode::Reg(_) => Err(DisassembleFault::StrayOperand),
        OpCode::OpConstant => constant_instruction(chunk, offset, line),
        _ => Ok(simple_instruction(op, offset, line)),
    }
}

fn simple_instruction<V>(op: OpCode, offset: usize, line: Option<usize>) -> (r: (
    Entry<V>,
    usize,
))
    requires
        offset < usize::MAX,
    ensures
        r == (Entry::<V> { offset, line, op, constant: None }, (offset + 1) as usize),
{
    (Entry { offset, line, op, constant: None }, offset + 1)
}

fn constant_instruction<V: Copy>(chunk: &Chunk<V>, offset: usize, line: Option<usize>) -> (r:
    Result<(Entry<V>, usize), DisassembleFault>)
    requires
        chunk.wf(),
        offset < chunk.code@.len(),
    ensures
        ({
            let code = chunk.code@;
            let constants = chunk.constants@;
            if offset + 1 < code.len() && code[offset + 1] is Reg {
                let idx = code[offset + 1]->Reg_0;
                if idx < constants.len() {
                    r == Ok::<(Entry<V>, usize), DisassembleFault>(
                        (
                            Entry {
                                offset,
                                line,
                                op: OpCode::OpConstant,
                                constant: Some((idx, constants[idx as int])),
                            },
                            (offset + 2) as usize,
                        ),
                    )
                } else {
                    r == Err::<(Entry<V>, usize), DisassembleFault>(
                        DisassembleFault::UnknownConstant,
                    )
                }
            } else {
                r == Err::<(Entry<V>, usize), DisassembleFault>(DisassembleFault::OperandExpected)
            }
        }),
{
    let n = chunk.code.len();
    if offset + 1 >= n {
        return Err(DisassembleFault::OperandExpected);
    }
    match chunk.code[offset + 1] {
        OpCode::Reg(val) => {
            if val as usize >= chunk.constants.len() {
                return Err(DisassembleFault::UnknownConstant);
            }
            let constant = *chunk.constants.index(val as usize);
            Ok(
                (
                    Entry { offset, line, op: OpCode::OpConstant, constant: Some((val, constant)) },
                    offset + 2,
                ),
            )
        },
        _ => Err(DisassembleFault::OperandExpected),
    }
}

} // verus!
