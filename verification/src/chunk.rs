//! A growable bytecode buffer: opcodes, the capacity-growth rule and the
//! chunk that records one byte of code and its source line per entry. The
//! constant pool and the disassembler live with the program around the
//! library, since constants are floating-point values and disassembly is
//! output.

use vstd::prelude::*;

verus! {

/// The operation codes a chunk can hold.
#[allow(non_camel_case_types)]
#[derive(Debug, Clone, Copy, PartialEq, Eq, Structural)]
pub enum OpCode {
    OP_CONSTANT,
    OP_RETURN,
}

impl OpCode {
    /// The byte encoding the opcode.
    pub fn value(&self) -> (r: u8)
        ensures
            r == match self {
                OpCode::OP_CONSTANT => 0u8,
                OpCode::OP_RETURN => 1u8,
            },
    {
        match self {
            OpCode::OP_CONSTANT => 0,
            OpCode::OP_RETURN => 1,
        }
    }
}

/// The next capacity of a growing buffer: at least eight, then doubling.
pub fn grow_capacity(capacity: i32) -> (r: i32)
    requires
        capacity <= 0x3fff_ffff,
    ensures
        r == if capacity <= 7 {
            8int
        } else {
            2 * capacity
        },
{
    if capacity <= 7 {
        8
    } else {
        capacity * 2
    }
}

/// A run of bytecode: one byte of code and its source line per entry, with
/// the count and capacity bookkeeping of a growable buffer.
pub struct Chunk {
    count: i32,
    capacity: i32,
    code: Vec<u8>,
    lines: Vec<i32>,
}

impl Chunk {
    /// The bytes written so far, in order.
    pub closed spec fn code_spec(self) -> Seq<u8> {
        self.code@
    }

    /// The source line of each written byte, in order.
    pub closed spec fn lines_spec(self) -> Seq<i32> {
        self.lines@
    }

    /// The count matches the contents and the capacity is non-negative and
    /// within growing range.
    pub closed spec fn wf(self) -> bool {
        &&& self.count >= 0
        &&& self.code@.len() == self.count
        &&& self.lines@.len() == self.count
        &&& 0 <= self.capacity <= 0x7fff_fffe
    }

    /// An empty chunk.
    pub fn new() -> (r: Self)
        ensures
            r.wf(),
            r.code_spec() == Seq::<u8>::empty(),
            r.lines_spec() == Seq::<i32>::empty(),
    {
        Chunk { count: 0, capacity: 0, code: Vec::new(), lines: Vec::new() }
    }

    /// Appends one byte with its source line, growing the bookkept
    /// capacity when the count reaches it.
    pub fn write_chunk(&mut self, byte: u8, line: i32)
        requires
            old(self).wf(),
            old(self).code_spec().len() < 0x3fff_ffff,
        ensures
            final(self).wf(),
            final(self).code_spec() == old(self).code_spec().push(byte),
            final(self).lines_spec() == old(self).lines_spec().push(line),
    {
        if self.capacity < self.count + 1 {
            let old_capacity = self.capacity;
            self.capacity = grow_capacity(old_capacity);
            proof {
                assert(self.capacity <= 0x7fff_fffe);
            }
        }
        let at = self.count as usize;
        self.code.insert(at, byte);
        self.lines.insert(at, line);
        self.count = self.count + 1;
        proof {
            assert(self.code@ =~= old(self).code@.push(byte));
            assert(self.lines@ =~= old(self).lines@.push(line));
        }
    }

    /// How many bytes have been written.
    pub fn count(&self) -> (r: i32)
        requires
            self.wf(),
        ensures
            r == self.code_spec().len(),
    {
        self.count
    }

    /// The bytes written so far.
    pub fn code(&self) -> (r: &Vec<u8>)
        ensures
            r@ == self.code_spec(),
    {
        &self.code
    }

    /// The source line of each written byte.
    pub fn lines(&self) -> (r: &Vec<i32>)
        ensures
            r@ == self.lines_spec(),
    {
        &self.lines
    }
}

} // verus!
