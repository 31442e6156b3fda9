//! When a GPU buffer has to be made anew and when it can be written in
//! place. The buffers themselves live with the GPU code.

use std::ops::Range;

use vstd::prelude::*;

verus! {

/// What to do with a buffer to store new data in it.
#[derive(Debug, Clone, Copy, PartialEq, Eq, Structural)]
pub enum BufferWrite {
    /// Make a new buffer that holds exactly the new data.
    Recreate,
    /// Write the new data at the start of the current buffer.
    WriteInPlace,
}

/// The length in bytes of what a writeable buffer holds.
pub struct BufferCapacity {
    count: usize,
}

impl BufferCapacity {
    pub closed spec fn spec_byte_len(&self) -> usize {
        self.count
    }

    /// A buffer made to hold `byte_len` bytes.
    pub fn new(byte_len: usize) -> (r: BufferCapacity)
        ensures
            r.spec_byte_len() == byte_len,
    {
        BufferCapacity { count: byte_len }
    }

    #[verifier::when_used_as_spec(spec_byte_len)]
    pub fn byte_len(&self) -> (r: usize)
        ensures
            r == self.spec_byte_len(),
    {
        self.count
    }

    /// Writing `new_len` bytes: the buffer is made anew only when it is too
    /// small, and then it is made to hold exactly the new data.
    pub fn write_data(&mut self, new_len: usize) -> (r: BufferWrite)
        ensures
            old(self).spec_byte_len() < new_len ==> r == BufferWrite::Recreate
                && final(self).spec_byte_len() == new_len,
            new_len <= old(self).spec_byte_len() ==> r == BufferWrite::WriteInPlace
                && final(self).spec_byte_len() == old(self).spec_byte_len(),
    {
        if self.count < new_len {
            self.count = new_len;
            BufferWrite::Recreate
        } else {
            BufferWrite::WriteInPlace
        }
    }

    /// Writing `new_len` bytes: the buffer is made anew whenever its size
    /// differs from the new data's.
    pub fn write_data_shrinking(&mut self, new_len: usize) -> (r: BufferWrite)
        ensures
            final(self).spec_byte_len() == new_len,
            r == (if old(self).spec_byte_len() != new_len {
                BufferWrite::Recreate
            } else {
                BufferWrite::WriteInPlace
            }),
    {
        if self.count != new_len {
            self.count = new_len;
            BufferWrite::Recreate
        } else {
            BufferWrite::WriteInPlace
        }
    }
}

/// The number of indices an index buffer holds, as a GPU draw takes it.
pub struct IndexCount {
    count: u32,
}

impl IndexCount {
    pub closed spec fn spec_count(&self) -> u32 {
        self.count
    }

    /// The count of a buffer made of `len` indices; like the GPU API it is a
    /// 32-bit number, taken from the low 32 bits of `len`.
    pub fn new(len: usize) -> (r: IndexCount)
        ensures
            r.spec_count() == len as u32,
    {
        IndexCount { count: len as u32 }
    }

    /// The range of indices a draw of the whole buffer uses.
    pub fn draw_count(&self) -> (r: Range<u32>)
        ensures
            r.start == 0,
            r.end == self.spec_count(),
    {
        0..self.count
    }
}

} // verus!
