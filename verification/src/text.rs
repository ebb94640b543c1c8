//! A zero-overhead view of the host's `text` values.
//!
//! A [`Text`] owns a variable-length buffer in arena memory; its payload is
//! the UTF-8 encoding of the text. Reading the characters out goes through
//! the marshaling layer's `String` conversion, which validates the
//! encoding.

use vstd::prelude::*;
use vstd::string::StringSliceAdditionalSpecFns;
use vstd::string::StrSliceExecFns;

use crate::pg_alloc::{BufPtr, MemPool, PgAllocated, PgAllocator};
use crate::pg_datum::{ConversionError, PgDatum};
use crate::varlena;

verus! {

/// An owned `text` value in arena memory.
pub struct Text {
    inner: PgAllocated<BufPtr>,
}

impl Text {
    /// Whether this value still owns its buffer.
    pub closed spec fn live(self) -> bool {
        self.inner.live()
    }

    /// The chunk handle of the buffer.
    pub closed spec fn addr(self) -> usize {
        self.inner.addr()
    }

    /// A live, well-formed text value of `pool`.
    pub open spec fn wf(self, pool: MemPool) -> bool {
        &&& self.live()
        &&& pool.chunk_live(self.addr() as int)
        &&& varlena::wf_varlena(pool.chunk_bytes(self.addr() as int))
    }

    /// The payload bytes of a well-formed text value.
    pub open spec fn bytes_spec(self, pool: MemPool) -> Seq<u8>
        recommends
            self.wf(pool),
    {
        varlena::logical_payload(pool.chunk_bytes(self.addr() as int))
    }

    /// Adopt a raw buffer pointer as a text value.
    pub fn from_raw(alloc: &PgAllocator, text_ptr: usize) -> (r: Text)
        ensures
            r.live(),
            r.addr() == text_ptr,
    {
        Text { inner: PgAllocated::from_raw(alloc, text_ptr) }
    }

    /// Give the buffer back to host management and return its handle.
    pub fn into_ptr(self) -> (r: usize)
        requires
            self.live(),
        ensures
            r == self.addr(),
    {
        let mut this = self;
        this.inner.take_ptr()
    }

    /// The word encoding of this text value: the buffer pointer itself.
    pub fn into_datum(self) -> (r: PgDatum)
        requires
            self.live(),
        ensures
            r@ == Some(self.addr() as u64),
    {
        let mut this = self;
        let ptr = this.inner.take_ptr();
        PgDatum(Some(ptr as u64))
    }

    /// Allocate a new text value in the current region holding `s`'s
    /// UTF-8 bytes.
    pub fn from_string(pool: &mut MemPool, s: &str) -> (r: Text)
        requires
            old(pool).wf(),
            s.spec_bytes().len() + 4 <= varlena::VARLENA_MAX_SIZE,
        ensures
            final(pool).wf(),
            final(pool).mem_extends(*old(pool)),
            final(pool).chunks.len() == old(pool).chunks.len() + 1,
            r.wf(*final(pool)),
            r.addr() == old(pool).chunks.len(),
            varlena::is_direct(final(pool).chunk_bytes(r.addr() as int)),
            r.bytes_spec(*final(pool)) == s.spec_bytes(),
    {
        let bytes = s.as_bytes_vec();
        proof {
            varlena::lemma_encode_4b_u(bytes@);
        }
        let allocator = PgAllocator::current_context(pool);
        let h = varlena::varlena_from_payload(pool, &bytes);
        Text { inner: PgAllocated::from_raw(&allocator, h) }
    }

    /// The payload length in bytes, decoded from the buffer's header.
    ///
    /// The buffer must hold its payload in place; compressed and
    /// out-of-line values must be normalized first.
    pub fn len(&self, pool: &MemPool) -> (r: usize)
        requires
            self.wf(*pool),
            varlena::is_direct(pool.chunk_bytes(self.addr() as int)),
        ensures
            r == self.bytes_spec(*pool).len(),
    {
        let bytes = match &pool.chunks[self.as_ptr_ref()].data {
            Some(d) => d,
            None => unreached(),
        };
        proof {
            varlena::lemma_layout_cases(bytes@[0]);
        }
        let v = varlena::VarLenA::from_varlena(bytes);
        match v.len() {
            Ok(n) => n,
            Err(_) => unreached(),
        }
    }

    /// True when the text is empty.
    pub fn is_empty(&self, pool: &MemPool) -> (r: bool)
        requires
            self.wf(*pool),
            varlena::is_direct(pool.chunk_bytes(self.addr() as int)),
        ensures
            r == (self.bytes_spec(*pool).len() == 0),
    {
        self.len(pool) == 0
    }

    fn as_ptr_ref(&self) -> (r: usize)
        requires
            self.live(),
        ensures
            r == self.addr(),
    {
        self.inner.as_ptr()
    }
}

} // verus!
