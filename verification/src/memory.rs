//! Guest memory view: the only component that touches the sandboxed linear
//! memory, and it does so behind a bounds check on every single access.
//!
//! Pointers are guest-supplied offsets into the linear memory, carried as
//! `u64` whatever the guest's pointer width; a 32-bit guest additionally may
//! not reach past the first 2^32 bytes, whatever size the memory has. The
//! bounds are re-validated on every call because the guest may resize its
//! memory between calls; nothing here is cached.

use vstd::prelude::*;

verus! {

/// Pointer width of the guest: how wide an offset into linear memory is.
#[derive(Clone, Copy, Debug, PartialEq, Eq, Structural)]
pub enum PtrWidth {
    W32,
    W64,
}

/// Why a guest memory access was refused.
#[derive(Clone, Copy, Debug, PartialEq, Eq, Structural)]
pub enum MemoryError {
    /// The requested range does not lie within the current linear memory for
    /// the guest's pointer width.
    OutOfBounds,
}

/// A bounds-checked view over one guest's linear memory.
pub struct GuestMemory {
    width: PtrWidth,
    data: Vec<u8>,
}

impl View for GuestMemory {
    type V = Seq<u8>;

    closed spec fn view(&self) -> Seq<u8> {
        self.data@
    }
}

impl GuestMemory {
    /// The guest's pointer width.
    pub closed spec fn spec_width(self) -> PtrWidth {
        self.width
    }

    /// One past the highest offset an address of this width can denote.
    pub open spec fn addr_limit(self) -> int {
        match self.spec_width() {
            PtrWidth::W32 => 0x1_0000_0000,
            PtrWidth::W64 => 0x1_0000_0000_0000_0000,
        }
    }

    /// The range `ptr .. ptr + len` lies inside the current linear memory
    /// and is addressable at the guest's pointer width.
    pub open spec fn in_bounds(self, ptr: u64, len: int) -> bool {
        &&& ptr + len <= self@.len()
        &&& ptr + len <= self.addr_limit()
    }

    /// Wraps a linear memory of the given width around the given contents.
    pub fn new(width: PtrWidth, data: Vec<u8>) -> (r: GuestMemory)
        ensures
            r@ == data@,
            r.spec_width() == width,
    {
        GuestMemory { width, data }
    }

    /// Current size of the linear memory in bytes.
    pub fn size(&self) -> (r: usize)
        ensures
            r == self@.len(),
    {
        self.data.len()
    }

    /// The guest's pointer width.
    pub fn width(&self) -> (r: PtrWidth)
        ensures
            r == self.spec_width(),
    {
        self.width
    }

    /// Reads `len` bytes starting at guest offset `ptr`, after validating
    /// the whole range against the current bounds.
    pub fn read_bytes(&self, ptr: u64, len: u64) -> (r: Result<Vec<u8>, MemoryError>)
        ensures
            r matches Ok(bytes) ==> self.in_bounds(ptr, len as int) && bytes@ == self@.subrange(
                ptr as int,
                ptr + len,
            ),
            r is Err ==> !self.in_bounds(ptr, len as int) && r == Err::<Vec<u8>, MemoryError>(
                MemoryError::OutOfBounds,
            ),
    {
        if !self.check_bounds(ptr, len) {
            return Err(MemoryError::OutOfBounds);
        }
        let size: usize = self.data.len();
        assert(ptr + len <= size);
        let base: usize = ptr as usize;
        let count: usize = len as usize;
        let mut out: Vec<u8> = Vec::new();
        let mut i: usize = 0;
        while i < count
            invariant
                self.in_bounds(ptr, len as int),
                self@.len() <= usize::MAX,
                base == ptr,
                count == len,
                i <= count,
                out@ == self@.subrange(ptr as int, ptr + i),
            decreases count - i,
        {
            out.push(self.data[base + i]);
            assert(out@ =~= self@.subrange(ptr as int, ptr + i + 1));
            i = i + 1;
        }
        assert(out@ =~= self@.subrange(ptr as int, ptr + len));
        Ok(out)
    }

    /// Writes the given bytes starting at guest offset `ptr`, after
    /// validating the whole range against the current bounds; on failure the
    /// memory is untouched.
    pub fn write_bytes(&mut self, ptr: u64, src: &[u8]) -> (r: Result<(), MemoryError>)
        ensures
            final(self).spec_width() == old(self).spec_width(),
            final(self)@.len() == old(self)@.len(),
            r matches Ok(u) ==> old(self).in_bounds(ptr, src@.len() as int) && final(self)@
                == old(self)@.subrange(0, ptr as int) + src@ + old(self)@.subrange(
                ptr + src@.len(),
                old(self)@.len() as int,
            ),
            r is Err ==> !old(self).in_bounds(ptr, src@.len() as int) && r == Err::<
                (),
                MemoryError,
            >(MemoryError::OutOfBounds) && final(self)@ == old(self)@,
    {
        let len: u64 = src.len() as u64;
        if !self.check_bounds(ptr, len) {
            return Err(MemoryError::OutOfBounds);
        }
        let size: usize = self.data.len();
        assert(ptr + len <= size);
        let base: usize = ptr as usize;
        let count: usize = src.len();
        let mut i: usize = 0;
        while i < count
            invariant
                old(self).in_bounds(ptr, count as int),
                old(self)@.len() <= usize::MAX,
                base == ptr,
                count == src@.len(),
                i <= count,
                self.width == old(self).width,
                self@.len() == old(self)@.len(),
                self@ == old(self)@.subrange(0, ptr as int) + src@.subrange(0, i as int) + old(
                    self,
                )@.subrange(ptr + i, old(self)@.len() as int),
            decreases count - i,
        {
            let b = *vstd::slice::slice_index_get(src, i);
            self.data.set(base + i, b);
            assert(self@ =~= old(self)@.subrange(0, ptr as int) + src@.subrange(0, i + 1) + old(
                self,
            )@.subrange(ptr + i + 1, old(self)@.len() as int));
            i = i + 1;
        }
        assert(src@.subrange(0, count as int) =~= src@);
        Ok(())
    }

    /// Exact runtime test of `in_bounds` for a `u64` byte count.
    fn check_bounds(&self, ptr: u64, len: u64) -> (r: bool)
        ensures
            r == self.in_bounds(ptr, len as int),
    {
        let end: u128 = ptr as u128 + len as u128;
        let limit: u128 = match self.width {
            PtrWidth::W32 => 0x1_0000_0000,
            PtrWidth::W64 => 0x1_0000_0000_0000_0000,
        };
        end <= self.data.len() as u128 && end <= limit
    }
}

} // verus!
