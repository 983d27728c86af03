//! The flat, byte-addressed memory of the machine.

use vstd::prelude::*;
use vstd::slice::slice_subrange;

verus! {

/// Number of addressable bytes.
pub const MEMORY_SIZE: usize = 4096;

/// An access reached outside the address space.
#[derive(Clone, Copy, Debug, PartialEq, Eq, Structural)]
pub struct OutOfBounds;

/// The address space: 4096 bytes, all zero when created.
pub struct Memory {
    bytes: [u8; 4096],
}

impl View for Memory {
    type V = Seq<u8>;

    closed spec fn view(&self) -> Seq<u8> {
        self.bytes@
    }
}

/// `mem` with `data` copied over the bytes from `address` on.
pub open spec fn overwritten(mem: Seq<u8>, address: int, data: Seq<u8>) -> Seq<u8> {
    Seq::new(
        mem.len(),
        |i: int|
            if address <= i < address + data.len() {
                data[i - address]
            } else {
                mem[i]
            },
    )
}

/// The 16-bit value whose high byte is `hi` and whose low byte is `lo`.
pub open spec fn big_endian(hi: u8, lo: u8) -> int {
    hi * 256 + lo
}

impl Memory {
    /// An address space filled with zero bytes.
    pub fn new() -> (mem: Self)
        ensures
            mem@ == Seq::new(MEMORY_SIZE as nat, |i: int| 0u8),
    {
        let mem = Memory { bytes: [0; 4096] };
        assert(mem@ =~= Seq::new(MEMORY_SIZE as nat, |i: int| 0u8));
        mem
    }

    /// Every memory holds exactly `MEMORY_SIZE` bytes.
    pub proof fn lemma_len(&self)
        ensures
            self@.len() == MEMORY_SIZE,
    {
    }

    /// Copies `data` to the addresses from `address` on. A copy that would
    /// run past the last address is refused and leaves the memory as it was.
    pub fn write(&mut self, address: u16, data: &[u8]) -> (done: Result<(), OutOfBounds>)
        ensures
            done is Ok <==> address + data@.len() <= MEMORY_SIZE,
            done is Ok ==> final(self)@ == overwritten(old(self)@, address as int, data@),
            done is Err ==> final(self)@ == old(self)@,
    {
        let start: usize = address as usize;
        if start > MEMORY_SIZE || data.len() > MEMORY_SIZE - start {
            return Err(OutOfBounds);
        }
        let mut i: usize = 0;
        while i < data.len()
            invariant
                i <= data@.len(),
                start + data@.len() <= MEMORY_SIZE,
                self@.len() == MEMORY_SIZE,
                forall|j: int|
                    0 <= j < MEMORY_SIZE ==> #[trigger] self@[j] == (if start <= j < start + i {
                        data@[j - start]
                    } else {
                        old(self)@[j]
                    }),
            decreases data@.len() - i,
        {
            self.bytes[start + i] = data[i];
            i += 1;
        }
        assert(self@ =~= overwritten(old(self)@, address as int, data@));
        Ok(())
    }

    /// The byte at `address`.
    pub fn read(&self, address: u16) -> (byte: Result<u8, OutOfBounds>)
        ensures
            byte is Ok <==> address < MEMORY_SIZE,
            byte matches Ok(b) ==> b == self@[address as int],
    {
        let a: usize = address as usize;
        if a < MEMORY_SIZE {
            Ok(self.bytes[a])
        } else {
            Err(OutOfBounds)
        }
    }

    /// The `len` bytes from `address` on, borrowed.
    pub fn read_range(&self, address: u16, len: usize) -> (range: Result<&[u8], OutOfBounds>)
        ensures
            range is Ok <==> address + len <= MEMORY_SIZE,
            range matches Ok(r) ==> r@ == self@.subrange(address as int, address + len),
    {
        let a: usize = address as usize;
        if a > MEMORY_SIZE || len > MEMORY_SIZE - a {
            return Err(OutOfBounds);
        }
        Ok(slice_subrange(self.bytes.as_slice(), a, a + len))
    }

    /// The two bytes at `address` and `address + 1`, the first one taken as
    /// the high byte.
    pub fn read16(&self, address: u16) -> (word: Result<u16, OutOfBounds>)
        ensures
            word is Ok <==> address + 1 < MEMORY_SIZE,
            word matches Ok(w) ==> w == big_endian(
                self@[address as int],
                self@[address as int + 1],
            ),
    {
        let a: usize = address as usize;
        if a < MEMORY_SIZE - 1 {
            let hi: u16 = self.bytes[a] as u16;
            let lo: u16 = self.bytes[a + 1] as u16;
            Ok(hi * 256 + lo)
        } else {
            Err(OutOfBounds)
        }
    }
}

} // verus!
