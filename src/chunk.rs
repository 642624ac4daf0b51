use crate::op::{decoded, missing_operand, tag_width, DecodeError, OpCode};
use crate::text::{decimal, push_decimal};
use crate::value::{Datum, Value};
use vstd::prelude::*;
use vstd::slice::slice_subrange;

verus! {

/// Most entries the constant pool can hold: an index is one byte.
pub const MAX_CONSTANTS: usize = 255;

/// One compiled unit: instruction bytes, the source line of each
/// instruction's first byte, and the constant pool.
pub struct Chunk {
    code: Vec<u8>,
    lines: Vec<(usize, usize)>,
    constants: Vec<Value>,
}

/// Where `Chunk::add` put an instruction: its first byte and its width.
pub struct ChunkReference {
    offset: usize,
    length: usize,
}

/// The line recorded at the greatest offset that is at most `offset`, or 0
/// where no offset that small is recorded.
pub open spec fn line_at(lines: Seq<(usize, usize)>, offset: int) -> usize
    decreases lines.len(),
{
    if lines.len() == 0 {
        0
    } else if lines.last().0 <= offset {
        lines.last().1
    } else {
        line_at(lines.drop_last(), offset)
    }
}

/// `code` with the bytes at `offset` replaced by `bytes`.
pub open spec fn overwrite(code: Seq<u8>, offset: int, bytes: Seq<u8>) -> Seq<u8> {
    code.subrange(0, offset) + bytes + code.subrange(offset + bytes.len(), code.len() as int)
}

/// Recorded offsets rise strictly.
pub open spec fn offsets_rise(lines: Seq<(usize, usize)>) -> bool {
    forall|i: int, j: int| 0 <= i < j < lines.len() ==> #[trigger] lines[i].0 < #[trigger] lines[j].0
}

/// Line lookup finds the entry with the greatest recorded offset at or
/// before `offset` (entry `j`), and gives line 0 when every recorded offset
/// lies after `offset`, as it does for a chunk with no instruction.
pub proof fn lemma_line_lookup(lines: Seq<(usize, usize)>, offset: int, j: int)
    requires
        offsets_rise(lines),
    ensures
        line_at(Seq::empty(), offset) == 0,
        (forall|i: int| 0 <= i < lines.len() ==> #[trigger] lines[i].0 > offset) ==> line_at(
            lines,
            offset,
        ) == 0,
        0 <= j < lines.len() && lines[j].0 <= offset && (j == lines.len() - 1 || lines[j + 1].0
            > offset) ==> line_at(lines, offset) == lines[j].1,
    decreases lines.len(),
{
    if lines.len() > 0 {
        let rest = lines.drop_last();
        assert(offsets_rise(rest));
        lemma_line_lookup(rest, offset, j);
        if 0 <= j < lines.len() - 1 && lines[j].0 <= offset && lines[j + 1].0 > offset {
            assert(lines[j + 1].0 <= lines.last().0);
            assert(rest[j] == lines[j]);
            if j + 1 < rest.len() {
                assert(rest[j + 1] == lines[j + 1]);
            }
        }
        if forall|i: int| 0 <= i < lines.len() ==> #[trigger] lines[i].0 > offset {
            assert forall|i: int| 0 <= i < rest.len() implies #[trigger] rest[i].0 > offset by {
                assert(rest[i] == lines[i]);
            }
            assert(lines[lines.len() - 1].0 > offset);
        }
    }
}

impl ChunkReference {
    pub closed spec fn spec_offset(&self) -> nat {
        self.offset as nat
    }

    pub closed spec fn spec_length(&self) -> nat {
        self.length as nat
    }
}

impl Chunk {
    pub closed spec fn spec_code(&self) -> Seq<u8> {
        self.code@
    }

    /// The (offset, line) pairs, in the order the instructions were added.
    pub closed spec fn spec_lines(&self) -> Seq<(usize, usize)> {
        self.lines@
    }

    pub closed spec fn spec_constants(&self) -> Seq<Datum> {
        self.constants@.map_values(|v: Value| v@)
    }

    /// Recorded offsets rise strictly and lie inside the code; the pool is
    /// within its bound.
    pub closed spec fn wf(&self) -> bool {
        &&& offsets_rise(self.lines@)
        &&& forall|i: int| 0 <= i < self.lines@.len() ==> #[trigger] self.lines@[i].0 < self.code@.len()
        &&& self.constants@.len() <= MAX_CONSTANTS
    }

    /// The line map of a well-formed chunk has rising offsets, so line
    /// lookup on it finds the nearest recorded instruction.
    pub proof fn lemma_wf_lines(&self)
        requires
            self.wf(),
        ensures
            offsets_rise(self.spec_lines()),
    {
    }

    pub fn new() -> (r: Chunk)
        ensures
            r.wf(),
            r.spec_code() == Seq::<u8>::empty(),
            r.spec_lines() == Seq::<(usize, usize)>::empty(),
            r.spec_constants() == Seq::<Datum>::empty(),
    {
        let r = Chunk { code: Vec::new(), lines: Vec::new(), constants: Vec::new() };
        assert(r.spec_constants() =~= Seq::<Datum>::empty());
        r
    }

    pub fn len(&self) -> (r: usize)
        ensures
            r == self.spec_code().len(),
    {
        self.code.len()
    }

    /// Appends `value` to the constant pool and returns its index; fails,
    /// changing nothing, once the pool holds 255 entries.
    pub fn add_constant(&mut self, value: Value) -> (r: Result<u8, String>)
        requires
            old(self).wf(),
        ensures
            final(self).wf(),
            final(self).spec_code() == old(self).spec_code(),
            final(self).spec_lines() == old(self).spec_lines(),
            old(self).spec_constants().len() >= MAX_CONSTANTS ==> r is Err && final(self).spec_constants()
                == old(self).spec_constants(),
            old(self).spec_constants().len() < MAX_CONSTANTS ==> r == Ok::<u8, String>(
                old(self).spec_constants().len() as u8,
            ) && final(self).spec_constants() == old(self).spec_constants().push(value@),
    {
        if self.constants.len() >= MAX_CONSTANTS {
            Err(String::from_str("too many local constants"))
        } else {
            let ghost before = self.constants@;
            self.constants.push(value);
            assert(self.constants@.map_values(|v: Value| v@) =~= before.map_values(
                |v: Value| v@,
            ).push(value@));
            Ok((self.constants.len() - 1) as u8)
        }
    }

    /// Encodes `op` at the end of the code, records `line` for its first
    /// byte, and returns where it went.
    pub fn add(&mut self, op: OpCode, line: usize) -> (r: ChunkReference)
        requires
            old(self).wf(),
        ensures
            final(self).wf(),
            final(self).spec_code() == old(self).spec_code() + op.spec_encode(),
            final(self).spec_lines() == old(self).spec_lines().push(
                (old(self).spec_code().len() as usize, line),
            ),
            final(self).spec_constants() == old(self).spec_constants(),
            r.spec_offset() == old(self).spec_code().len(),
            r.spec_length() == op.spec_byte_length(),
    {
        let mut bytes = op.encode();
        let offset = self.code.len();
        let length = bytes.len();
        self.lines.push((offset, line));
        self.code.append(&mut bytes);
        ChunkReference { offset, length }
    }

    /// Overwrites the instruction at `location` with `op`, which must be
    /// exactly as wide: a placeholder is only ever replaced by its resolved
    /// form.
    pub fn patch(&mut self, location: &ChunkReference, op: OpCode)
        requires
            old(self).wf(),
            location.spec_offset() + location.spec_length() <= old(self).spec_code().len(),
            op.spec_byte_length() == location.spec_length(),
        ensures
            final(self).wf(),
            final(self).spec_code() == overwrite(
                old(self).spec_code(),
                location.spec_offset() as int,
                op.spec_encode(),
            ),
            final(self).spec_lines() == old(self).spec_lines(),
            final(self).spec_constants() == old(self).spec_constants(),
    {
        let bytes = op.encode();
        let ghost before = self.code@;
        let n = self.code.len();
        let mut i: usize = 0;
        while i < bytes.len()
            invariant
                bytes@ == op.spec_encode(),
                bytes@.len() == location.length,
                self.lines@ == old(self).lines@,
                self.constants@ == old(self).constants@,
                old(self).wf(),
                before == old(self).code@,
                location.offset + location.length <= self.code@.len(),
                self.code@.len() == before.len(),
                self.code@.len() == n,
                i <= bytes@.len(),
                forall|k: int|
                    0 <= k < self.code@.len() ==> #[trigger] self.code@[k] == if location.offset <= k
                        < location.offset + i {
                        bytes@[k - location.offset]
                    } else {
                        before[k]
                    },
            decreases bytes@.len() - i,
        {
            let at = location.offset + i;
            self.code.set(at, bytes[i]);
            i = i + 1;
        }
        assert(self.code@ =~= overwrite(before, location.offset as int, op.spec_encode()));
    }

    /// Decodes the instruction at `offset`: it and the offset of the next
    /// one; `EOF` at or past the end of the code.
    pub fn decode(&self, offset: usize) -> (r: Result<(OpCode, usize), DecodeError>)
        ensures
            offset >= self.spec_code().len() ==> r matches Err(DecodeError::EOF),
            offset < self.spec_code().len() && offset + tag_width(self.spec_code()[offset as int])
                > self.spec_code().len() ==> (r matches Err(DecodeError::UnexpectedEOF(n, m)) && n == 1
                && m@ == missing_operand(self.spec_code()[offset as int])),
            offset < self.spec_code().len() && offset + tag_width(self.spec_code()[offset as int])
                <= self.spec_code().len() ==> (r matches Ok((op, next)) && op == decoded(
                self.spec_code().subrange(offset as int, self.spec_code().len() as int),
            ) && next == offset + tag_width(self.spec_code()[offset as int])),
    {
        if offset >= self.code.len() {
            Err(DecodeError::EOF)
        } else {
            let rest = slice_subrange(self.code.as_slice(), offset, self.code.len());
            assert(rest@[0] == self.code@[offset as int]);
            match OpCode::decode(rest) {
                Ok((op, len)) => Ok((op, offset + len)),
                Err(e) => Err(e),
            }
        }
    }

    pub fn as_bytes(&self) -> (r: &[u8])
        ensures
            r@ == self.spec_code(),
    {
        self.code.as_slice()
    }

    /// The pool entry at `index`, or an error past the end of the pool.
    pub fn constant(&self, index: u8) -> (r: Result<Value, String>)
        ensures
            index < self.spec_constants().len() ==> (r matches Ok(v) && v@
                == self.spec_constants()[index as int]),
            index >= self.spec_constants().len() ==> (r matches Err(m) && m@ == "invalid constant index "@
                + decimal(index as nat) + " of "@ + decimal(self.spec_constants().len())),
    {
        if (index as usize) < self.constants.len() {
            Ok(self.constants[index as usize].duplicate())
        } else {
            let mut m = String::from_str("invalid constant index ");
            push_decimal(&mut m, index as u64);
            m.append(" of ");
            push_decimal(&mut m, self.constants.len() as u64);
            Err(m)
        }
    }

    /// The source line of the nearest recorded instruction at or before
    /// `offset`; 0 where there is none.
    pub fn line(&self, offset: usize) -> (r: usize)
        ensures
            r == line_at(self.spec_lines(), offset as int),
    {
        let mut n = self.lines.len();
        assert(self.lines@.subrange(0, n as int) =~= self.lines@);
        while n > 0
            invariant
                n <= self.lines@.len(),
                line_at(self.lines@, offset as int) == line_at(self.lines@.subrange(0, n as int), offset as int),
            decreases n,
        {
            let (at, line) = self.lines[n - 1];
            assert(self.lines@.subrange(0, n as int).drop_last() =~= self.lines@.subrange(0, n - 1));
            if at <= offset {
                return line;
            }
            n = n - 1;
        }
        0
    }
}

} // verus!
