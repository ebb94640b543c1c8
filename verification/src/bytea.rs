//! A zero-overhead view of the host's `bytea` values.
//!
//! A [`ByteA`] owns a variable-length buffer in arena memory whose payload
//! is raw bytes.

use vstd::prelude::*;

use crate::pg_alloc::{BufPtr, MemPool, PgAllocated, PgAllocator};
use crate::pg_datum::ConversionError;
use crate::varlena;

verus! {

/// An owned `bytea` value in arena memory.
pub struct ByteA {
    inner: PgAllocated<BufPtr>,
}

impl ByteA {
    /// Whether this value still owns its buffer.
    pub closed spec fn live(self) -> bool {
        self.inner.live()
    }

    /// The chunk handle of the buffer.
    pub closed spec fn addr(self) -> usize {
        self.inner.addr()
    }

    /// A live, well-formed byte-array value of `pool`.
    pub open spec fn wf(self, pool: MemPool) -> bool {
        &&& self.live()
        &&& pool.chunk_live(self.addr() as int)
        &&& varlena::wf_varlena(pool.chunk_bytes(self.addr() as int))
    }

    /// The payload bytes of a well-formed byte-array value.
    pub open spec fn bytes_spec(self, pool: MemPool) -> Seq<u8>
        recommends
            self.wf(pool),
    {
        varlena::logical_payload(pool.chunk_bytes(self.addr() as int))
    }

    /// Adopt a raw buffer pointer as a byte-array value.
    pub fn from_raw(alloc: &PgAllocator, buf_ptr: usize) -> (r: ByteA)
        ensures
            r.live(),
            r.addr() == buf_ptr,
    {
        ByteA { inner: PgAllocated::from_raw(alloc, buf_ptr) }
    }

    /// Give the buffer back to host management and return its handle.
    pub fn into_ptr(self) -> (r: usize)
        requires
            self.live(),
        ensures
            r == self.addr(),
    {
        let mut this = self;
        this.inner.take_ptr()
    }

    /// Allocate a new byte-array value in the current region holding
    /// `payload`.
    pub fn from_bytes(pool: &mut MemPool, payload: &Vec<u8>) -> (r: ByteA)
        requires
            old(pool).wf(),
            payload@.len() + 4 <= varlena::VARLENA_MAX_SIZE,
        ensures
            final(pool).wf(),
            final(pool).mem_extends(*old(pool)),
            final(pool).chunks.len() == old(pool).chunks.len() + 1,
            r.wf(*final(pool)),
            r.addr() == old(pool).chunks.len(),
            varlena::is_direct(final(pool).chunk_bytes(r.addr() as int)),
            r.bytes_spec(*final(pool)) == payload@,
    {
        proof {
            varlena::lemma_encode_4b_u(payload@);
        }
        let allocator = PgAllocator::current_context(pool);
        let h = varlena::varlena_from_payload(pool, payload);
        ByteA { inner: PgAllocated::from_raw(&allocator, h) }
    }

    /// The payload length in bytes, decoded from the buffer's header.
    ///
    /// The buffer must hold its payload in place; compressed and
    /// out-of-line values must be normalized first.
    pub fn len(&self, pool: &MemPool) -> (r: usize)
        requires
            self.wf(*pool),
            varlena::is_direct(pool.chunk_bytes(self.addr() as int)),
        ensures
            r == self.bytes_spec(*pool).len(),
    {
        let bytes = match &pool.chunks[self.inner.as_ptr()].data {
            Some(d) => d,
            None => unreached(),
        };
        proof {
            varlena::lemma_layout_cases(bytes@[0]);
        }
        let v = varlena::VarLenA::from_varlena(bytes);
        match v.len() {
            Ok(n) => n,
            Err(_) => unreached(),
        }
    }

    /// True when the byte array is empty.
    pub fn is_empty(&self, pool: &MemPool) -> (r: bool)
        requires
            self.wf(*pool),
            varlena::is_direct(pool.chunk_bytes(self.addr() as int)),
        ensures
            r == (self.bytes_spec(*pool).len() == 0),
    {
        self.len(pool) == 0
    }

    /// Copy the payload bytes out.
    pub fn as_bytes(&self, pool: &MemPool) -> (r: Vec<u8>)
        requires
            self.wf(*pool),
            varlena::is_direct(pool.chunk_bytes(self.addr() as int)),
        ensures
            r@ == self.bytes_spec(*pool),
    {
        let bytes = match &pool.chunks[self.inner.as_ptr()].data {
            Some(d) => d,
            None => unreached(),
        };
        match varlena::varlena_payload(bytes) {
            Ok(p) => p,
            Err(_) => unreached(),
        }
    }
}

} // verus!
