use crate::fault::Fault;
use vstd::prelude::*;

verus! {

/// Number of addressable bytes.
pub const MEMORY_SIZE: usize = 4096;

/// The address at which programs are loaded and execution starts.
pub const PROGRAM_START: u16 = 0x200;

/// Whether the `len` bytes starting at `address` all lie inside memory.
/// An empty range touches no byte and lies inside wherever it starts.
pub open spec fn in_range(address: int, len: int) -> bool {
    len == 0 || (0 <= address && address + len <= MEMORY_SIZE)
}

/// The big-endian 16-bit word whose high byte is at `address`.
pub open spec fn word_at(bytes: Seq<u8>, address: int) -> int {
    bytes[address] * 256 + bytes[address + 1]
}

/// `bytes` with `data` written over it from `address` on.
pub open spec fn splice(bytes: Seq<u8>, address: int, data: Seq<u8>) -> Seq<u8> {
    Seq::new(
        bytes.len(),
        |k: int|
            if address <= k < address + data.len() {
                data[k - address]
            } else {
                bytes[k]
            },
    )
}

/// The four big-endian bytes of a 32-bit value.
pub open spec fn dword_bytes(value: u32) -> Seq<u8> {
    seq![
        (value / 0x100_0000) as u8,
        (value / 0x1_0000 % 256) as u8,
        (value / 0x100 % 256) as u8,
        (value % 256) as u8,
    ]
}

/// The two big-endian bytes of a 16-bit value.
pub open spec fn word_bytes(value: u16) -> Seq<u8> {
    seq![(value / 256) as u8, (value % 256) as u8]
}

/// Flat memory of 4096 bytes, addresses `0x000` to `0xFFF`.
#[derive(Debug, Clone)]
pub struct Memory {
    data: [u8; 4096],
}

impl View for Memory {
    type V = Seq<u8>;

    /// The bytes in address order.
    closed spec fn view(&self) -> Seq<u8> {
        self.data@
    }
}

impl Memory {
    /// The view always holds exactly 4096 bytes.
    pub proof fn lemma_len(&self)
        ensures
            self@.len() == MEMORY_SIZE,
    {
    }

    /// A memory with every byte zero.
    pub fn new() -> (r: Memory)
        ensures
            r@ == Seq::new(MEMORY_SIZE as nat, |k: int| 0u8),
    {
        Memory { data: [0u8; 4096] }
    }

    /// Stores one byte.
    pub fn write(&mut self, address: u16, value: u8) -> (r: Result<(), Fault>)
        ensures
            final(self)@.len() == MEMORY_SIZE,
            address < MEMORY_SIZE ==> r == Ok::<(), Fault>(())
                && final(self)@ == old(self)@.update(address as int, value),
            address >= MEMORY_SIZE ==> r == Err::<(), Fault>(Fault::MemoryOutOfRange)
                && final(self)@ == old(self)@,
    {
        if (address as usize) < MEMORY_SIZE {
            self.data[address as usize] = value;
            Ok(())
        } else {
            Err(Fault::MemoryOutOfRange)
        }
    }

    /// Loads one byte.
    pub fn read(&self, address: u16) -> (r: Result<u8, Fault>)
        ensures
            address < MEMORY_SIZE ==> r == Ok::<u8, Fault>(self@[address as int]),
            address >= MEMORY_SIZE ==> r == Err::<u8, Fault>(Fault::MemoryOutOfRange),
    {
        if (address as usize) < MEMORY_SIZE {
            Ok(self.data[address as usize])
        } else {
            Err(Fault::MemoryOutOfRange)
        }
    }

    /// Stores a 16-bit value, high byte first.
    pub fn write_word(&mut self, address: u16, value: u16) -> (r: Result<(), Fault>)
        ensures
            final(self)@.len() == MEMORY_SIZE,
            in_range(address as int, 2) ==> r == Ok::<(), Fault>(())
                && final(self)@ == splice(old(self)@, address as int, word_bytes(value)),
            !in_range(address as int, 2) ==> r == Err::<(), Fault>(Fault::MemoryOutOfRange)
                && final(self)@ == old(self)@,
    {
        let at = address as usize;
        if at + 1 < MEMORY_SIZE {
            proof {
                assert(value >> 8 == value / 256) by (bit_vector);
                assert(value & 0xFF == value % 256) by (bit_vector);
            }
            self.data[at] = (value >> 8) as u8;
            self.data[at + 1] = (value & 0xFF) as u8;
            Ok(())
        } else {
            Err(Fault::MemoryOutOfRange)
        }
    }

    /// Stores a 32-bit value, highest byte first.
    pub fn write_dword(&mut self, address: u16, value: u32) -> (r: Result<(), Fault>)
        ensures
            final(self)@.len() == MEMORY_SIZE,
            in_range(address as int, 4) ==> r == Ok::<(), Fault>(())
                && final(self)@ == splice(old(self)@, address as int, dword_bytes(value)),
            !in_range(address as int, 4) ==> r == Err::<(), Fault>(Fault::MemoryOutOfRange)
                && final(self)@ == old(self)@,
    {
        let at = address as usize;
        if at + 3 < MEMORY_SIZE {
            proof {
                assert(value >> 24 == value / 0x100_0000) by (bit_vector);
                assert((value >> 16) & 0xFF == value / 0x1_0000 % 256) by (bit_vector);
                assert((value >> 8) & 0xFF == value / 0x100 % 256) by (bit_vector);
                assert(value & 0xFF == value % 256) by (bit_vector);
            }
            self.data[at] = (value >> 24) as u8;
            self.data[at + 1] = ((value >> 16) & 0xFF) as u8;
            self.data[at + 2] = ((value >> 8) & 0xFF) as u8;
            self.data[at + 3] = (value & 0xFF) as u8;
            Ok(())
        } else {
            Err(Fault::MemoryOutOfRange)
        }
    }

    /// Copies `data` into memory from `address` on. Either the whole range
    /// fits and is written, or nothing is.
    pub fn write_data(&mut self, address: u16, data: &[u8]) -> (r: Result<(), Fault>)
        ensures
            final(self)@.len() == MEMORY_SIZE,
            in_range(address as int, data@.len() as int) ==> r == Ok::<(), Fault>(())
                && final(self)@ == splice(old(self)@, address as int, data@),
            !in_range(address as int, data@.len() as int) ==> r == Err::<(), Fault>(
                Fault::MemoryOutOfRange,
            ) && final(self)@ == old(self)@,
    {
        let at = address as usize;
        let len = data.len();
        if len == 0 {
            return Ok(());
        }
        if len > MEMORY_SIZE || at > MEMORY_SIZE - len {
            return Err(Fault::MemoryOutOfRange);
        }
        let ghost before = self@;
        let mut k: usize = 0;
        while k < len
            invariant
                k <= len,
                len == data@.len(),
                at + len <= MEMORY_SIZE,
                self@ == splice(before, at as int, data@.take(k as int)),
            decreases len - k,
        {
            self.data[at + k] = data[k];
            k += 1;
        }
        assert(data@.take(len as int) == data@);
        Ok(())
    }

    /// Loads a 16-bit value, high byte first.
    pub fn read_word(&self, address: u16) -> (r: Result<u16, Fault>)
        ensures
            in_range(address as int, 2) ==> r == Ok::<u16, Fault>(
                word_at(self@, address as int) as u16,
            ),
            !in_range(address as int, 2) ==> r == Err::<u16, Fault>(Fault::MemoryOutOfRange),
    {
        let at = address as usize;
        if at + 1 < MEMORY_SIZE {
            let high = self.data[at];
            let low = self.data[at + 1];
            proof {
                assert(((high as u16) << 8) | (low as u16) == high * 256 + low) by (bit_vector);
            }
            Ok(((high as u16) << 8) | (low as u16))
        } else {
            Err(Fault::MemoryOutOfRange)
        }
    }
}

} // verus!
