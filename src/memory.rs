use vstd::prelude::*;

use crate::error::MachineError;

verus! {

/// Number of 16-bit addresses, and so the largest size of a memory.
pub const ADDRESS_SPACE: usize = 0x10000;

/// A flat, bounds-checked byte memory of a fixed size.
pub struct Memory {
    bytes: Vec<u8>,
}

impl View for Memory {
    type V = Seq<u8>;

    closed spec fn view(&self) -> Seq<u8> {
        self.bytes@
    }
}

/// `n` zero bytes.
fn zeroes(n: usize) -> (r: Vec<u8>)
    ensures
        r@ == Seq::new(n as nat, |i: int| 0u8),
{
    let mut bytes: Vec<u8> = Vec::new();
    let mut i: usize = 0;
    while i < n
        invariant
            i <= n,
            bytes@ == Seq::new(i as nat, |k: int| 0u8),
        decreases n - i,
    {
        bytes.push(0);
        i += 1;
        proof {
            assert(bytes@ =~= Seq::new(i as nat, |k: int| 0u8));
        }
    }
    bytes
}

impl Memory {
    #[verifier::type_invariant]
    spec fn addressable(self) -> bool {
        self.bytes.len() <= ADDRESS_SPACE
    }

    /// A zeroed memory of `size` bytes.
    pub fn new(size: u16) -> (r: Self)
        ensures
            r@ == Seq::new(size as nat, |i: int| 0u8),
    {
        Memory { bytes: zeroes(size as usize) }
    }

    /// A zeroed memory with a byte at every 16-bit address.
    pub fn full() -> (r: Self)
        ensures
            r@ == Seq::new(ADDRESS_SPACE as nat, |i: int| 0u8),
    {
        Memory { bytes: zeroes(ADDRESS_SPACE) }
    }

    /// Number of bytes; every address below it can be read and written.
    pub fn size(&self) -> (r: usize)
        ensures
            r == self@.len(),
            r <= ADDRESS_SPACE,
    {
        proof {
            use_type_invariant(self);
        }
        self.bytes.len()
    }

    pub fn read(&self, addr: u16) -> (r: Result<u8, MachineError>)
        ensures
            addr < self@.len() ==> r == Ok::<u8, MachineError>(self@[addr as int]),
            addr >= self@.len() ==> r == Err::<u8, MachineError>(MachineError::OutOfBounds(addr)),
    {
        if (addr as usize) < self.bytes.len() {
            Ok(self.bytes[addr as usize])
        } else {
            Err(MachineError::OutOfBounds(addr))
        }
    }

    /// Writes one byte; out of bounds, fails and leaves every byte as it was.
    pub fn write(&mut self, addr: u16, value: u8) -> (r: Result<(), MachineError>)
        ensures
            addr < old(self)@.len() ==> r == Ok::<(), MachineError>(()) && final(self)@ == old(self)@.update(
                addr as int,
                value,
            ),
            addr >= old(self)@.len() ==> r == Err::<(), MachineError>(MachineError::OutOfBounds(addr))
                && final(self)@ == old(self)@,
    {
        proof {
            use_type_invariant(&*self);
        }
        if (addr as usize) < self.bytes.len() {
            self.bytes[addr as usize] = value;
            Ok(())
        } else {
            Err(MachineError::OutOfBounds(addr))
        }
    }

    /// Writes `program` from address 0 on. Where it is longer than the memory,
    /// the bytes that fit are written, and the write to the first address past
    /// the end fails (past the last 16-bit address, that is address 0 again).
    pub fn load(&mut self, program: &[u8]) -> (r: Result<(), MachineError>)
        ensures
            program@.len() <= old(self)@.len() ==> r is Ok && final(self)@ == program@ + old(self)@.skip(
                program@.len() as int,
            ),
            program@.len() > old(self)@.len() ==> r == Err::<(), MachineError>(
                MachineError::OutOfBounds((old(self)@.len() % 0x10000) as u16),
            ) && final(self)@ == program@.take(old(self)@.len() as int),
    {
        proof {
            use_type_invariant(&*self);
        }
        let ghost start = self@;
        let mut index: usize = 0;
        while index < program.len()
            invariant
                start == old(self)@,
                index <= program@.len(),
                start.len() <= ADDRESS_SPACE,
                self@.len() == start.len(),
                self@ == program@.take(index as int) + start.skip(index as int),
            decreases program.len() - index,
        {
            if index >= self.size() {
                proof {
                    assert(program@.take(index as int) =~= program@.take(start.len() as int));
                    assert(start.skip(index as int) =~= seq![]);
                    assert(self@ =~= program@.take(index as int));
                }
                let addr: u16 = if index < ADDRESS_SPACE {
                    index as u16
                } else {
                    0
                };
                return Err(MachineError::OutOfBounds(addr));
            }
            let _ = self.write(index as u16, program[index]);
            index += 1;
            proof {
                assert(self@ =~= program@.take(index as int) + start.skip(index as int));
            }
        }
        proof {
            assert(program@.take(index as int) =~= program@);
        }
        Ok(())
    }
}

} // verus!
