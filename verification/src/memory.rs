//! The flat, bounds-checked 4096-byte memory.

use vstd::prelude::*;

use crate::exceptions::Exception;
use crate::exceptions::ExceptionType;

verus! {

/// The number of addressable bytes.
pub const RAM_MAX: usize = 4096;

/// A flat byte array over addresses `0..4095`. Every access outside that
/// range is rejected with `AddressOutOfRange`; nothing wraps and nothing
/// panics.
pub struct RandomAccessMemory {
    memory: Vec<u8>,
}

impl View for RandomAccessMemory {
    type V = Seq<u8>;

    closed spec fn view(&self) -> Seq<u8> {
        self.memory@
    }
}

impl RandomAccessMemory {
    /// The memory always spans exactly 4096 bytes.
    pub open spec fn wf(&self) -> bool {
        self@.len() == RAM_MAX
    }

    /// A fresh, zero-initialized memory.
    pub fn new() -> (m: RandomAccessMemory)
        ensures
            m.wf(),
            m@ == Seq::new(RAM_MAX as nat, |i: int| 0u8),
    {
        let memory: Vec<u8> = vec![0u8; RAM_MAX];
        let m = RandomAccessMemory { memory };
        proof {
            assert(m@ =~= Seq::new(RAM_MAX as nat, |i: int| 0u8));
        }
        m
    }

    /// Reads the byte at `address`; an address at or past 4096 is a fault.
    pub fn read(&self, address: u16) -> (r: Result<u8, Exception>)
        requires
            self.wf(),
        ensures
            address < RAM_MAX ==> r == Ok::<u8, Exception>(self@[address as int]),
            address >= RAM_MAX ==> (r matches Err(e)
                && e.exception_type == ExceptionType::AddressOutOfRange),
    {
        if address < RAM_MAX as u16 {
            Ok(self.memory[address as usize])
        } else {
            Err(Exception::new(ExceptionType::AddressOutOfRange))
        }
    }

    /// Writes `value` at `address`; an address at or past 4096 is a fault
    /// and leaves the memory unchanged.
    pub fn write(&mut self, address: u16, value: u8) -> (r: Result<(), Exception>)
        requires
            old(self).wf(),
        ensures
            final(self).wf(),
            address < RAM_MAX ==> r == Ok::<(), Exception>(())
                && final(self)@ == old(self)@.update(address as int, value),
            address >= RAM_MAX ==> (r matches Err(e)
                && e.exception_type == ExceptionType::AddressOutOfRange)
                && final(self)@ == old(self)@,
    {
        if address < RAM_MAX as u16 {
            self.memory[address as usize] = value;
            Ok(())
        } else {
            Err(Exception::new(ExceptionType::AddressOutOfRange))
        }
    }
}

/// Writing a byte and reading it back at the same in-range address yields
/// that byte, whatever the memory held before.
pub proof fn lemma_write_then_read(m: Seq<u8>, address: u16, value: u8)
    requires
        m.len() == RAM_MAX,
        address < RAM_MAX,
    ensures
        m.update(address as int, value)[address as int] == value,
{
}

} // verus!
