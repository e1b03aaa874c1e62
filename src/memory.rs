//! Byte-addressed memory that grows in 32-byte steps, new bytes zero.
use vstd::prelude::*;
use primitive_types::U256;
use crate::word::{be_bytes, be_val, from_be_bytes, lemma_be_bytes_len, to_be_bytes, val};

verus! {

/// Largest length memory may reach (16 MiB); a multiple of 32. This is a
/// resource ceiling of the interpreter: an access beyond it fails with
/// `Failure::MemoryLimitExceeded`.
pub const MEMORY_LIMIT: usize = 0x100_0000;

/// The least multiple of 32 that is at least `n`.
pub open spec fn ceil32(n: nat) -> nat {
    ((n + 31) / 32 * 32) as nat
}

/// `mem` grown with zero bytes so that it covers `end`, in 32-byte steps.
pub open spec fn expanded(mem: Seq<u8>, end: nat) -> Seq<u8> {
    if end <= mem.len() {
        mem
    } else {
        mem + Seq::new((ceil32(end) - mem.len()) as nat, |i: int| 0u8)
    }
}

/// `mem` with `data` written from `offset` on.
pub open spec fn spliced(mem: Seq<u8>, offset: nat, data: Seq<u8>) -> Seq<u8> {
    mem.take(offset as int) + data + mem.skip((offset + data.len()) as int)
}

pub struct Memory {
    bytes: Vec<u8>,
}

impl View for Memory {
    type V = Seq<u8>;

    closed spec fn view(&self) -> Seq<u8> {
        self.bytes@
    }
}

impl Memory {
    pub open spec fn wf(&self) -> bool {
        self@.len() % 32 == 0 && self@.len() <= MEMORY_LIMIT
    }

    pub fn new() -> (r: Memory)
        ensures
            r@ == Seq::<u8>::empty(),
            r.wf(),
    {
        Memory { bytes: Vec::new() }
    }

    /// Current length in bytes.
    pub fn size(&self) -> (r: usize)
        ensures
            r == self@.len(),
    {
        self.bytes.len()
    }

    /// Grows memory to cover `offset + length`.
    pub fn ensure(&mut self, offset: usize, length: usize)
        requires
            old(self).wf(),
            offset + length <= MEMORY_LIMIT,
        ensures
            final(self).wf(),
            final(self)@ == expanded(old(self)@, (offset + length) as nat),
    {
        let end = offset + length;
        if end <= self.bytes.len() {
            return;
        }
        let target = (end + 31) / 32 * 32;
        let ghost before = self.bytes@;
        while self.bytes.len() < target
            invariant
                before.len() <= self.bytes@.len() <= target,
                target == ceil32(end as nat),
                target <= MEMORY_LIMIT,
                self.bytes@.take(before.len() as int) == before,
                forall|j: int|
                    before.len() <= j < self.bytes@.len() ==> #[trigger] self.bytes@[j] == 0u8,
            decreases target - self.bytes@.len(),
        {
            self.bytes.push(0u8);
            assert(self.bytes@.take(before.len() as int) =~= before);
        }
        assert(self.bytes@ =~= expanded(before, end as nat));
    }

    /// The `length` bytes from `offset` on, after growing to cover them.
    pub fn window(&mut self, offset: usize, length: usize) -> (r: Vec<u8>)
        requires
            old(self).wf(),
            offset + length <= MEMORY_LIMIT,
        ensures
            final(self).wf(),
            final(self)@ == expanded(old(self)@, (offset + length) as nat),
            r@ == final(self)@.subrange(offset as int, offset + length),
    {
        self.ensure(offset, length);
        let mut out: Vec<u8> = Vec::new();
        let mut i: usize = 0;
        while i < length
            invariant
                i <= length,
                offset + length <= self.bytes@.len(),
                offset + length <= MEMORY_LIMIT,
                out@ == self.bytes@.subrange(offset as int, offset + i),
            decreases length - i,
        {
            out.push(self.bytes[offset + i]);
            i = i + 1;
            assert(out@ =~= self.bytes@.subrange(offset as int, offset + i));
        }
        out
    }

    /// Writes `data` from `offset` on, after growing to cover it.
    pub fn write(&mut self, offset: usize, data: &Vec<u8>)
        requires
            old(self).wf(),
            offset + data@.len() <= MEMORY_LIMIT,
        ensures
            final(self).wf(),
            final(self)@ == spliced(
                expanded(old(self)@, (offset + data@.len()) as nat),
                offset as nat,
                data@,
            ),
    {
        self.ensure(offset, data.len());
        let ghost grown = self.bytes@;
        let mut i: usize = 0;
        while i < data.len()
            invariant
                i <= data@.len(),
                offset + data@.len() <= grown.len(),
                offset + data@.len() <= MEMORY_LIMIT,
                self.bytes@.len() == grown.len(),
                self.bytes@ == spliced(grown, offset as nat, data@.take(i as int)),
            decreases data@.len() - i,
        {
            self.bytes.set(offset + i, data[i]);
            i = i + 1;
            assert(self.bytes@ =~= spliced(grown, offset as nat, data@.take(i as int)));
        }
        assert(data@.take(data@.len() as int) =~= data@);
    }
}

impl Memory {
    /// The big-endian word at `offset`, after growing to cover it.
    pub fn read_word(&mut self, offset: usize) -> (r: U256)
        requires
            old(self).wf(),
            offset + 32 <= MEMORY_LIMIT,
        ensures
            final(self).wf(),
            final(self)@ == expanded(old(self)@, (offset + 32) as nat),
            val(r) == be_val(final(self)@.subrange(offset as int, offset + 32)),
    {
        let bytes = self.window(offset, 32);
        from_be_bytes(bytes.as_slice())
    }

    /// Writes `w` as 32 big-endian bytes at `offset`, after growing to cover them.
    pub fn write_word(&mut self, offset: usize, w: U256)
        requires
            old(self).wf(),
            offset + 32 <= MEMORY_LIMIT,
        ensures
            final(self).wf(),
            final(self)@ == spliced(
                expanded(old(self)@, (offset + 32) as nat),
                offset as nat,
                be_bytes(val(w), 32),
            ),
    {
        let data = to_be_bytes(w);
        proof {
            lemma_be_bytes_len(val(w), 32);
        }
        self.write(offset, &data);
    }

    /// Writes one byte at `offset`, after growing to cover it.
    pub fn write_byte(&mut self, offset: usize, b: u8)
        requires
            old(self).wf(),
            offset + 1 <= MEMORY_LIMIT,
        ensures
            final(self).wf(),
            final(self)@ == expanded(old(self)@, (offset + 1) as nat).update(offset as int, b),
    {
        let mut data: Vec<u8> = Vec::new();
        data.push(b);
        self.write(offset, &data);
        assert(self@ =~= expanded(old(self)@, (offset + 1) as nat).update(offset as int, b));
    }
}

} // verus!
