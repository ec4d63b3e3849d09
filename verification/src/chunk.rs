use vstd::prelude::*;

use crate::value::Value;

verus! {

/// One machine operation. Each variant carries the operands it needs inline:
/// a load-constant instruction embeds the constant-pool index in the variant
/// itself rather than in a separate operand stream.
#[allow(non_camel_case_types)]
#[derive(Clone, Copy, Debug, PartialEq, Eq, Structural)]
pub enum OpCode {
    OP_CONSTANT(usize),
    OP_NEGATE,
    OP_ADD,
    OP_SUBTRACT,
    OP_MULTIPLY,
    OP_DIVIDE,
    OP_RETURN,
}

/// Whether the constant-pool index embedded in `op`, if any, is below `n`.
pub open spec fn op_index_ok(op: OpCode, n: int) -> bool {
    match op {
        OpCode::OP_CONSTANT(c) => (c as int) < n,
        _ => true,
    }
}

/// A unit of compiled code: an ordered sequence of instructions, the constant
/// pool they refer to, and a parallel per-instruction source-line table used
/// only for diagnostics. Built append-only by a producer, then handed
/// read-only to the machine for execution.
pub struct Chunk {
    code: Vec<OpCode>,
    constants: Vec<Value>,
    lines: Vec<usize>,
}

impl Chunk {
    /// The instruction sequence.
    pub closed spec fn code_view(self) -> Seq<OpCode> {
        self.code@
    }

    /// The constant pool.
    pub closed spec fn constants_view(self) -> Seq<Value> {
        self.constants@
    }

    /// The source-line table, parallel to the instruction sequence.
    pub closed spec fn lines_view(self) -> Seq<usize> {
        self.lines@
    }

    /// The line table carries exactly one entry per instruction.
    pub open spec fn lines_match(self) -> bool {
        self.lines_view().len() == self.code_view().len()
    }

    /// Every constant-pool index embedded in an instruction is in range.
    pub open spec fn indices_ok(self) -> bool {
        forall|i: int|
            0 <= i < self.code_view().len() ==> op_index_ok(
                #[trigger] self.code_view()[i],
                self.constants_view().len() as int,
            )
    }

    /// A chunk safe to hand to the machine: parallel line table and in-range
    /// constant indices.
    pub open spec fn well_formed(self) -> bool {
        &&& self.lines_match()
        &&& self.indices_ok()
    }

    /// An empty chunk.
    pub fn new() -> (r: Chunk)
        ensures
            r.code_view() == Seq::<OpCode>::empty(),
            r.constants_view() == Seq::<Value>::empty(),
            r.lines_view() == Seq::<usize>::empty(),
            r.well_formed(),
    {
        Chunk { code: Vec::new(), constants: Vec::new(), lines: Vec::new() }
    }

    /// How many instructions the chunk holds.
    pub fn count(&self) -> (r: usize)
        ensures
            r == self.code_view().len(),
    {
        self.code.len()
    }

    /// Append one instruction together with the source line it came from.
    pub fn write_chunk(&mut self, byte: OpCode, line: usize)
        ensures
            final(self).code_view() == old(self).code_view().push(byte),
            final(self).lines_view() == old(self).lines_view().push(line),
            final(self).constants_view() == old(self).constants_view(),
    {
        self.code.push(byte);
        self.lines.push(line);
    }

    /// Append a value to the constant pool and return its index, stable for
    /// the life of this chunk. Indices are assigned in call order from 0.
    pub fn add_constant(&mut self, value: Value) -> (r: usize)
        ensures
            final(self).constants_view() == old(self).constants_view().push(value),
            final(self).code_view() == old(self).code_view(),
            final(self).lines_view() == old(self).lines_view(),
            r == old(self).constants_view().len(),
            final(self).constants_view()[r as int] == value,
    {
        self.constants.push(value);
        self.constants.len() - 1
    }

    /// Clear instructions, constants, and lines together, so the chunk can be
    /// recycled for a new program without breaking the parallel-table
    /// invariant.
    pub fn free(&mut self)
        ensures
            final(self).code_view() == Seq::<OpCode>::empty(),
            final(self).constants_view() == Seq::<Value>::empty(),
            final(self).lines_view() == Seq::<usize>::empty(),
            final(self).well_formed(),
    {
        self.code.clear();
        self.constants.clear();
        self.lines.clear();
    }

    /// The instruction at `offset`.
    pub fn at(&self, offset: usize) -> (r: &OpCode)
        requires
            offset < self.code_view().len(),
        ensures
            *r == self.code_view()[offset as int],
    {
        &self.code[offset]
    }

    /// The constant at `index`. Querying the same index twice returns equal
    /// values: the pool is append-only and indices are stable.
    pub fn constant_at(&self, index: usize) -> (r: Value)
        requires
            index < self.constants_view().len(),
        ensures
            r == self.constants_view()[index as int],
    {
        self.constants[index]
    }

    /// The source line recorded for the instruction at `index`.
    pub fn line_at(&self, index: usize) -> (r: usize)
        requires
            index < self.lines_view().len(),
        ensures
            r == self.lines_view()[index as int],
    {
        self.lines[index]
    }

    /// Decide whether this chunk is well-formed: whether a producer may
    /// safely hand it to the machine. Out-of-range indices are a producer
    /// bug, so the machine does not re-validate them on every step; this
    /// check lets a producer establish the invariant once, up front.
    pub fn is_well_formed(&self) -> (r: bool)
        ensures
            r == self.well_formed(),
    {
        if self.lines.len() != self.code.len() {
            return false;
        }
        let constants_len = self.constants.len();
        let mut i: usize = 0;
        #[verifier::loop_isolation(false)]
        while i < self.code.len()
            invariant
                0 <= i <= self.code_view().len(),
                forall|j: int|
                    0 <= j < i ==> op_index_ok(
                        #[trigger] self.code_view()[j],
                        self.constants_view().len() as int,
                    ),
            decreases self.code_view().len() - i,
        {
            match self.code[i] {
                OpCode::OP_CONSTANT(c) => {
                    if c >= constants_len {
                        proof {
                            assert(!op_index_ok(
                                self.code_view()[i as int],
                                self.constants_view().len() as int,
                            ));
                        }
                        return false;
                    }
                },
                _ => {},
            }
            i = i + 1;
        }
        true
    }

    /// How many entries the line table holds.
    pub fn lines_count(&self) -> (r: usize)
        ensures
            r == self.lines_view().len(),
    {
        self.lines.len()
    }

    /// How many values the constant pool holds.
    pub fn constants_count(&self) -> (r: usize)
        ensures
            r == self.constants_view().len(),
    {
        self.constants.len()
    }
}

} // verus!
