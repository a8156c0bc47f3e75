use vstd::prelude::*;
use crate::line_number::{LineFault, LineNumber, record_runs, record_spec};
use crate::value::{CONSTANTS_MAX, ValueArray};

verus! {

/// One slot of the instruction stream.
#[derive(Copy, Clone, Debug, PartialEq, Eq, Structural)]
pub enum OpCode {
    OpConstant,
    OpNegate,
    OpAdd,
    OpSubtract,
    OpMultiply,
    OpDivide,
    OpReturn,
    /// The constant-pool index that follows an `OpConstant`.
    Reg(u8),
}

/// Why a constant was refused.
#[derive(Copy, Clone, Debug, PartialEq, Eq, Structural)]
pub enum ChunkFault {
    /// The pool already holds as many constants as a byte can index.
    TooManyConstants,
}

/// A unit of compiled code: instructions, their source lines and the constants they use.
#[derive(Debug)]
pub struct Chunk<V> {
    pub code: Vec<OpCode>,
    pub lines: LineNumber,
    pub constants: ValueArray<V>,
}

impl<V> Chunk<V> {
    /// Every instruction has its line, and every constant can be indexed by a byte.
    pub open spec fn wf(&self) -> bool {
        &&& self.lines.wf()
        &&& self.lines@.len() == self.code@.len()
        &&& self.constants@.len() <= CONSTANTS_MAX
    }

    pub fn new() -> (r: Chunk<V>)
        ensures
            r.wf(),
            r.code@ == Seq::<OpCode>::empty(),
            r.lines@ == Seq::<nat>::empty(),
            r.constants@ == Seq::<V>::empty(),
    {
        Chunk { code: Vec::new(), lines: LineNumber::new(), constants: ValueArray::new() }
    }

    /// Appends `byte`, emitted on source line `line`. A refused line leaves the chunk as it was.
    pub fn add_chunk(&mut self, byte: OpCode, line: usize) -> (r: Result<(), LineFault>)
        requires
            old(self).wf(),
            old(self).code@.len() < usize::MAX,
        ensures
            final(self).wf(),
            final(self).constants@ == old(self).constants@,
            match record_spec(old(self).lines@, line as nat) {
                Some(t) => r is Ok && final(self).lines@ == t && final(self).lines.runs()
                    == record_runs(old(self).lines.runs(), line as nat) && final(self).code@ == old(
                    self,
                ).code@.push(byte),
                None => r is Err && final(self).lines@ == old(self).lines@ && final(self).lines.runs()
                    == old(self).lines.runs() && final(self).code@ == old(self).code@,
            },
            r == Err::<(), LineFault>(LineFault::ZeroLine) <==> line == 0,
    {
        match self.lines.add_line(line) {
            Ok(()) => {
                self.code.push(byte);
                Ok(())
            },
            Err(e) => Err(e),
        }
    }

    /// Adds `value` to the constant pool and returns its index.
    pub fn add_constant(&mut self, value: V) -> (r: Result<u8, ChunkFault>)
        requires
            old(self).wf(),
        ensures
            final(self).wf(),
            final(self).code@ == old(self).code@,
            final(self).lines@ == old(self).lines@,
            final(self).lines.runs() == old(self).lines.runs(),
            old(self).constants@.len() < CONSTANTS_MAX ==> r == Ok::<u8, ChunkFault>(
                old(self).constants@.len() as u8,
            ) && final(self).constants@ == old(self).constants@.push(value),
            old(self).constants@.len() >= CONSTANTS_MAX ==> r == Err::<u8, ChunkFault>(
                ChunkFault::TooManyConstants,
            ) && final(self).constants@ == old(self).constants@,
    {
        let n = self.constants.len();
        if n >= CONSTANTS_MAX {
            return Err(ChunkFault::TooManyConstants);
        }
        self.constants.add(value);
        Ok(n as u8)
    }
}

} // verus!
