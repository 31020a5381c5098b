//! Word-addressable, monotonically expanding byte memory.

use vstd::prelude::*;

use primitive_types::U256;

use crate::u256::{be_nat, u256_from_be, u256_nat, u256_to_be};

verus! {

/// The byte memory of one call frame. It starts empty, only ever grows, and
/// its length is always a multiple of 32.
pub struct Memory {
    data: Vec<u8>,
}

impl Memory {
    pub closed spec fn view(&self) -> Seq<u8> {
        self.data@
    }

    pub open spec fn wf(&self) -> bool {
        self@.len() % 32 == 0
    }

    pub fn new() -> (r: Memory)
        ensures
            r@ == Seq::<u8>::empty(),
            r.wf(),
    {
        Memory { data: Vec::new() }
    }

    /// The touched length in bytes.
    pub fn effective_len(&self) -> (r: usize)
        ensures
            r == self@.len(),
    {
        self.data.len()
    }

    /// Grow to `new_len` bytes, the new tail zero-filled.
    pub fn resize_to(&mut self, new_len: usize) -> (r: ())
        requires
            old(self).wf(),
            new_len % 32 == 0,
            new_len >= old(self)@.len(),
        ensures
            final(self).wf(),
            final(self)@ == old(self)@ + Seq::<u8>::new((new_len - old(self)@.len()) as nat, |i: int| 0u8),
            final(self)@.len() == new_len,
    {
        while self.data.len() < new_len
            invariant
                self.data@.len() <= new_len,
                self.data@ == old(self).data@ + Seq::<u8>::new(
                    (self.data@.len() - old(self)@.len()) as nat,
                    |i: int| 0u8,
                ),
            decreases new_len - self.data.len(),
        {
            self.data.push(0u8);
            proof {
                assert(self.data@ =~= old(self).data@ + Seq::<u8>::new(
                    (self.data@.len() - old(self)@.len()) as nat,
                    |i: int| 0u8,
                ));
            }
        }
        proof {
            assert(self.data@ =~= old(self).data@ + Seq::<u8>::new(
                (new_len - old(self)@.len()) as nat,
                |i: int| 0u8,
            ));
        }
    }

    /// Borrow the bytes in `[offset, offset + len)`.
    pub fn get_slice(&self, offset: usize, len: usize) -> (r: &[u8])
        requires
            offset + len <= self@.len(),
        ensures
            r@ == self@.subrange(offset as int, offset + len),
    {
        let dlen = self.data.len();
        proof {
            assert(offset + len <= dlen);
        }
        vstd::slice::slice_subrange(self.data.as_slice(), offset, offset + len)
    }

    /// Copy one byte of `[offset, offset + len)` out.
    pub fn get_byte(&self, index: usize) -> (r: u8)
        requires
            index < self@.len(),
        ensures
            r == self@[index as int],
    {
        self.data[index]
    }

    /// Overwrite one byte.
    pub fn set_byte(&mut self, index: usize, byte: u8) -> (r: ())
        requires
            old(self).wf(),
            index < old(self)@.len(),
        ensures
            final(self).wf(),
            final(self)@ == old(self)@.update(index as int, byte),
    {
        self.data.set(index, byte);
    }

    /// Overwrite `[offset, offset + value.len())` with `value`.
    pub fn set(&mut self, offset: usize, value: &[u8]) -> (r: ())
        requires
            old(self).wf(),
            offset + value@.len() <= old(self)@.len(),
        ensures
            final(self).wf(),
            final(self)@.len() == old(self)@.len(),
            forall|j: int|
                0 <= j < old(self)@.len() ==> final(self)@[j] == (if offset <= j < offset
                    + value@.len() {
                    value@[j - offset]
                } else {
                    old(self)@[j]
                }),
    {
        let mut i: usize = 0;
        while i < value.len()
            invariant
                self.wf(),
                i <= value@.len(),
                offset + value@.len() <= self@.len(),
                self@.len() == old(self)@.len(),
                forall|j: int|
                    0 <= j < old(self)@.len() ==> self@[j] == (if offset <= j < offset + i {
                        value@[j - offset]
                    } else {
                        old(self)@[j]
                    }),
            decreases value@.len() - i,
        {
            let b = value[i];
            let dlen = self.data.len();
            proof {
                assert(offset + i < dlen);
            }
            self.data.set(offset + i, b);
            i = i + 1;
        }
    }

    /// Copy `len` bytes out of `data` starting at `data_offset`, zero-padding
    /// where the source is shorter — the rule for copying from calldata or
    /// another account's code.
    pub fn set_data(&mut self, mem_offset: usize, data_offset: usize, len: usize, data: &[u8]) -> (r:
        ())
        requires
            old(self).wf(),
            mem_offset + len <= old(self)@.len(),
        ensures
            final(self).wf(),
            final(self)@.len() == old(self)@.len(),
            forall|j: int|
                0 <= j < old(self)@.len() ==> final(self)@[j] == (if mem_offset <= j < mem_offset
                    + len {
                    (if data_offset + (j - mem_offset) < data@.len() {
                        data@[data_offset + (j - mem_offset)]
                    } else {
                        0u8
                    })
                } else {
                    old(self)@[j]
                }),
    {
        let mut i: usize = 0;
        while i < len
            invariant
                self.wf(),
                i <= len,
                mem_offset + len <= self@.len(),
                self@.len() == old(self)@.len(),
                forall|j: int|
                    0 <= j < old(self)@.len() ==> self@[j] == (if mem_offset <= j < mem_offset
                        + i {
                        (if data_offset + (j - mem_offset) < data@.len() {
                            data@[data_offset + (j - mem_offset)]
                        } else {
                            0u8
                        })
                    } else {
                        old(self)@[j]
                    }),
            decreases len - i,
        {
            let b: u8 = if data_offset < data.len() && i < data.len() - data_offset {
                data[data_offset + i]
            } else {
                0u8
            };
            let dlen = self.data.len();
            proof {
                assert(mem_offset + i < dlen);
            }
            self.data.set(mem_offset + i, b);
            i = i + 1;
        }
    }

    /// Store a word big-endian at `index`.
    pub fn set_u256(&mut self, index: usize, value: U256) -> (r: ())
        requires
            old(self).wf(),
            index + 32 <= old(self)@.len(),
        ensures
            final(self).wf(),
            final(self)@.len() == old(self)@.len(),
            forall|j: int|
                0 <= j < old(self)@.len() && !(index <= j < index + 32) ==> final(self)@[j] == old(self)@[j],
            be_nat(final(self)@.subrange(index as int, index + 32)) == u256_nat(value),
    {
        let bytes = u256_to_be(&value);
        self.set(index, bytes.as_slice());
        proof {
            assert(self@.subrange(index as int, index + 32) =~= bytes@);
        }
    }

    /// Load the word stored big-endian at `index`.
    pub fn get_u256(&self, index: usize) -> (r: U256)
        requires
            index + 32 <= self@.len(),
        ensures
            u256_nat(r) == be_nat(self@.subrange(index as int, index + 32)),
    {
        u256_from_be(self.get_slice(index, 32))
    }
}

} // verus!
