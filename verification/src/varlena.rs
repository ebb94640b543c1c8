//! Variable-length buffer values and their four header layouts.
//!
//! A buffer-backed value in arena memory starts with a header whose low
//! bits say how the rest is laid out. Four layouts are recognized, told
//! apart by the first byte `b`:
//!
//! * 4-byte header, uncompressed (`b & 0x03 == 0x00`): the header is a
//!   little-endian `u32` `h`, the total size is `(h >> 2) & 0x3FFF_FFFF`,
//!   and the payload follows the 4 header bytes.
//! * 4-byte header, compressed (`b & 0x03 == 0x02`): same size rule; the
//!   payload must be normalized (detoasted) before it is addressable.
//! * 1-byte header, short (`b & 0x01 == 0x01`, but `b != 0x01`): the total
//!   size is `(b >> 1) & 0x7F` and the payload follows the 1 header byte.
//! * 1-byte header, out-of-line (`b == 0x01`): a tag byte follows the
//!   header; the value must be normalized before its size or payload is
//!   addressable. In this model the fetched payload is stored after the
//!   tag byte.
//!
//! In each sized layout the payload length is the decoded total minus the
//! header size. [`pg_detoast_datum`] is the normalization step: it turns
//! any recognized layout into the 4-byte uncompressed one, allocating a
//! fresh buffer in the current region unless the input was already direct,
//! in which case it returns the input itself.

use vstd::prelude::*;

use crate::pg_alloc::{MemPool, PgMemoryContext};
use crate::pg_datum::ConversionError;

verus! {

/// The largest total size (header included) a buffer value may have: the
/// 30 bits the 4-byte header can carry.
pub const VARLENA_MAX_SIZE: usize = 0x3FFF_FFFF;

/// A classified variable-length header, carrying the raw header word it was
/// read from.
#[derive(Clone, Copy, PartialEq, Eq, Structural, Debug)]
pub enum VarLenA {
    /// 4-byte header, uncompressed payload in place.
    VarAtt4bU(u32),
    /// 4-byte header, compressed payload.
    VarAtt4bC(u32),
    /// 1-byte header, short payload in place.
    VarAtt1b(u8),
    /// 1-byte header, out-of-line payload.
    VarAtt1bE(u8),
}

/// The first byte marks a 1-byte out-of-line header.
pub open spec fn is_1b_e(b: u8) -> bool {
    b == 0x01
}

/// The first byte marks a 1-byte short header (the out-of-line marker is
/// told apart first).
pub open spec fn is_1b(b: u8) -> bool {
    b & 0x01 == 0x01
}

/// The first byte marks a 4-byte uncompressed header.
pub open spec fn is_4b_u(b: u8) -> bool {
    b & 0x03 == 0x00
}

/// The first byte marks a 4-byte compressed header.
pub open spec fn is_4b_c(b: u8) -> bool {
    b & 0x03 == 0x02
}

/// The little-endian `u32` read at `off`.
pub open spec fn le32_at(bytes: Seq<u8>, off: int) -> u32
    recommends
        0 <= off,
        off + 4 <= bytes.len(),
{
    (bytes[off] as u32) | ((bytes[off + 1] as u32) << 8) | ((bytes[off + 2] as u32) << 16) | (
    (bytes[off + 3] as u32) << 24)
}

/// The classification of a buffer's header.
pub open spec fn layout_of(bytes: Seq<u8>) -> VarLenA
    recommends
        wf_varlena(bytes),
{
    let b = bytes[0];
    if is_1b_e(b) {
        VarLenA::VarAtt1bE(b)
    } else if is_1b(b) {
        VarLenA::VarAtt1b(b)
    } else if is_4b_c(b) {
        VarLenA::VarAtt4bC(le32_at(bytes, 0))
    } else {
        VarLenA::VarAtt4bU(le32_at(bytes, 0))
    }
}

/// Whether the payload is addressable in place, without normalization.
pub open spec fn is_direct(bytes: Seq<u8>) -> bool {
    is_4b_u(bytes[0]) || (is_1b(bytes[0]) && !is_1b_e(bytes[0]))
}

/// The header size in bytes of each layout; for the out-of-line layout the
/// tag byte counts as part of the header.
pub open spec fn header_size(bytes: Seq<u8>) -> int {
    let b = bytes[0];
    if is_1b_e(b) {
        2
    } else if is_1b(b) {
        1
    } else {
        4
    }
}

/// A buffer whose header is consistent with its storage: the decoded total
/// size equals the buffer's length for the sized layouts, the out-of-line
/// layout has its tag byte, and nothing exceeds the representable maximum.
pub open spec fn wf_varlena(bytes: Seq<u8>) -> bool {
    &&& bytes.len() >= 1
    &&& bytes.len() <= VARLENA_MAX_SIZE
    &&& {
        let b = bytes[0];
        if is_1b_e(b) {
            bytes.len() >= 2 && bytes.len() + 2 <= VARLENA_MAX_SIZE
        } else if is_1b(b) {
            ((b >> 1) & 0x7F) == bytes.len()
        } else {
            bytes.len() >= 4 && (((le32_at(bytes, 0) >> 2) & 0x3FFF_FFFF) == bytes.len())
        }
    }
}

/// The logical payload of a well-formed buffer: the bytes after the header.
/// For the compressed layout this model stores the decompressed payload in
/// place, so normalization preserves exactly this sequence.
pub open spec fn logical_payload(bytes: Seq<u8>) -> Seq<u8>
    recommends
        wf_varlena(bytes),
{
    bytes.subrange(header_size(bytes), bytes.len() as int)
}

impl VarLenA {
    /// What every sized layout promises about its header.
    pub open spec fn len_spec(self) -> Result<usize, ConversionError> {
        match self {
            VarLenA::VarAtt4bU(h) | VarLenA::VarAtt4bC(h) => {
                let total = (h >> 2) & 0x3FFF_FFFF;
                if total >= 4 {
                    Ok((total - 4) as usize)
                } else {
                    Err(ConversionError::InvalidEncoding)
                }
            },
            VarLenA::VarAtt1b(h) => {
                let total = (h >> 1) & 0x7F;
                if total >= 1 {
                    Ok((total - 1) as usize)
                } else {
                    Err(ConversionError::InvalidEncoding)
                }
            },
            VarLenA::VarAtt1bE(_) => Err(ConversionError::InvalidEncoding),
        }
    }

    /// Classify a buffer's header.
    pub fn from_varlena(bytes: &Vec<u8>) -> (r: VarLenA)
        requires
            wf_varlena(bytes@),
        ensures
            r == layout_of(bytes@),
    {
        let b = bytes[0];
        if b == 0x01 {
            VarLenA::VarAtt1bE(b)
        } else if b & 0x01 == 0x01 {
            VarLenA::VarAtt1b(b)
        } else {
            let h = read_le32(bytes, 0);
            if b & 0x03 == 0x02 {
                VarLenA::VarAtt4bC(h)
            } else {
                VarLenA::VarAtt4bU(h)
            }
        }
    }

    /// The payload length decoded from the header: the masked, shifted
    /// size field minus the header size. The out-of-line layout carries no
    /// size in its header, and a size field smaller than its own header is
    /// corrupt; both are unusable encodings.
    pub fn len(&self) -> (r: Result<usize, ConversionError>)
        ensures
            r == self.len_spec(),
    {
        match *self {
            VarLenA::VarAtt4bU(h) | VarLenA::VarAtt4bC(h) => {
                let total = (h >> 2) & 0x3FFF_FFFF;
                if total >= 4 {
                    Ok((total - 4) as usize)
                } else {
                    Err(ConversionError::InvalidEncoding)
                }
            },
            VarLenA::VarAtt1b(h) => {
                let total = (h >> 1) & 0x7F;
                if total >= 1 {
                    Ok((total as usize) - 1)
                } else {
                    Err(ConversionError::InvalidEncoding)
                }
            },
            VarLenA::VarAtt1bE(_) => Err(ConversionError::InvalidEncoding),
        }
    }

    /// The size in bytes of this layout's header word.
    pub fn size_of(&self) -> (r: usize)
        ensures
            (self matches VarLenA::VarAtt4bU(_) || self matches VarLenA::VarAtt4bC(_)) ==> r
                == 4,
            (self matches VarLenA::VarAtt1b(_) || self matches VarLenA::VarAtt1bE(_)) ==> r
                == 1,
    {
        match self {
            VarLenA::VarAtt4bU(_) | VarLenA::VarAtt4bC(_) => 4,
            VarLenA::VarAtt1b(_) | VarLenA::VarAtt1bE(_) => 1,
        }
    }
}

/// Read the little-endian `u32` at `off`.
pub fn read_le32(bytes: &Vec<u8>, off: usize) -> (r: u32)
    requires
        off + 4 <= bytes@.len(),
    ensures
        r == le32_at(bytes@, off as int),
{
    let n = bytes.len();
    proof {
        assert(off + 3 < n);
    }
    (bytes[off] as u32) | ((bytes[off + 1] as u32) << 8u32) | ((bytes[off + 2] as u32) << 16u32)
        | ((bytes[off + 3] as u32) << 24u32)
}

/// How the four header classes relate: the out-of-line marker is a special
/// odd byte, the two 4-byte classes are disjoint from the 1-byte ones, and
/// a short 1-byte header never decodes to a size below its own byte.
pub proof fn lemma_layout_cases(b: u8)
    ensures
        is_1b_e(b) ==> is_1b(b),
        is_4b_u(b) ==> !is_1b(b) && !is_1b_e(b) && !is_4b_c(b),
        is_4b_c(b) ==> !is_1b(b) && !is_1b_e(b) && !is_4b_u(b),
        !is_1b(b) ==> (is_4b_u(b) || is_4b_c(b)),
        (is_1b(b) && !is_1b_e(b)) ==> ((b >> 1) & 0x7F) >= 1,
{
    assert((b == 0x01 ==> b & 0x01 == 0x01) && (b & 0x03 == 0x00 ==> b & 0x01 != 0x01 && b
        != 0x01 && b & 0x03 != 0x02) && (b & 0x03 == 0x02 ==> b & 0x01 != 0x01 && b != 0x01 && b
        & 0x03 != 0x00) && (b & 0x01 != 0x01 ==> (b & 0x03 == 0x00 || b & 0x03 == 0x02)) && ((b
        & 0x01 == 0x01 && b != 0x01) ==> ((b >> 1) & 0x7F) >= 1)) by (bit_vector);
}

/// The 4-byte uncompressed encoding of a payload: the size word, then the
/// payload bytes.
pub open spec fn encode_4b_u(payload: Seq<u8>) -> Seq<u8>
    recommends
        payload.len() + 4 <= VARLENA_MAX_SIZE,
{
    let h = ((payload.len() + 4) as u32) << 2;
    Seq::new(
        payload.len() + 4,
        |i: int|
            if i == 0 {
                h as u8
            } else if i == 1 {
                (h >> 8) as u8
            } else if i == 2 {
                (h >> 16) as u8
            } else if i == 3 {
                (h >> 24) as u8
            } else {
                payload[i - 4]
            },
    )
}

/// A 4-byte uncompressed encoding is well-formed, direct, and carries its
/// payload after the header.
pub proof fn lemma_encode_4b_u(payload: Seq<u8>)
    requires
        payload.len() + 4 <= VARLENA_MAX_SIZE,
    ensures
        wf_varlena(encode_4b_u(payload)),
        is_direct(encode_4b_u(payload)),
        logical_payload(encode_4b_u(payload)) == payload,
        layout_of(encode_4b_u(payload)) matches VarLenA::VarAtt4bU(h) && h == (((payload.len()
            + 4) as u32) << 2),
{
    let total = (payload.len() + 4) as u32;
    let h = total << 2;
    let enc = encode_4b_u(payload);
    assert(enc.len() == payload.len() + 4);
    assert(h as u8 == enc[0]);
    assert((h as u8) & 0x03 == 0x00 && ((h as u8) & 0x01 != 0x01)) by (bit_vector)
        requires
            h == total << 2,
    ;
    assert(enc.len() == payload.len() + 4);
    assert(enc[1] == (h >> 8) as u8);
    assert(enc[2] == (h >> 16) as u8);
    assert(enc[3] == (h >> 24) as u8);
    let read = le32_at(enc, 0);
    assert(read == ((h as u8) as u32) | ((((h >> 8) as u8) as u32) << 8) | ((((h
        >> 16) as u8) as u32) << 16) | ((((h >> 24) as u8) as u32) << 24));
    assert((((h as u8) as u32) | ((((h >> 8) as u8) as u32) << 8) | ((((h >> 16) as u8) as u32)
        << 16) | ((((h >> 24) as u8) as u32) << 24)) == h) by (bit_vector);
    assert(read == h);
    lemma_layout_cases(h as u8);
    assert(((h >> 2) & 0x3FFF_FFFF) == total) by (bit_vector)
        requires
            h == total << 2,
            total <= 0x3FFF_FFFF,
    ;
    assert(logical_payload(enc) =~= payload);
}

/// Build a fresh 4-byte-uncompressed buffer value holding `payload` in the
/// current region, and return its chunk handle.
pub fn varlena_from_payload(pool: &mut MemPool, payload: &Vec<u8>) -> (h: usize)
    requires
        old(pool).wf(),
        payload@.len() + 4 <= VARLENA_MAX_SIZE,
    ensures
        final(pool).wf(),
        final(pool).mem_extends(*old(pool)),
        final(pool).chunks.len() == old(pool).chunks.len() + 1,
        h == old(pool).chunks.len(),
        final(pool).chunk_live(h as int),
        final(pool).chunk_region(h as int) == old(pool).current,
        final(pool).chunk_bytes(h as int) == encode_4b_u(payload@),
{
    let total = (payload.len() + 4) as u32;
    let hw = total << 2u32;
    let mut bytes: Vec<u8> = Vec::new();
    bytes.push(hw as u8);
    bytes.push((hw >> 8u32) as u8);
    bytes.push((hw >> 16u32) as u8);
    bytes.push((hw >> 24u32) as u8);
    let n = payload.len();
    let mut i: usize = 0;
    while i < n
        invariant
            i <= n,
            n == payload@.len(),
            bytes@.len() == 4 + i,
            forall|k: int| 0 <= k < 4 ==> bytes@[k] == encode_4b_u(payload@)[k],
            forall|k: int| 0 <= k < i ==> bytes@[4 + k] == payload@[k],
        decreases n - i,
    {
        bytes.push(payload[i]);
        i += 1;
    }
    proof {
        assert(bytes@ =~= encode_4b_u(payload@));
    }
    let ctx = PgMemoryContext::current(pool);
    let h = ctx.palloc(pool, 0);
    let region = pool.chunks[h].region;
    pool.chunks.set(h, crate::pg_alloc::MemChunk { region, data: Some(bytes) });
    h
}

/// Normalize (detoast) a buffer value: make its payload directly
/// addressable.
///
/// A value that is already direct is returned unchanged — the result is
/// then handle-identical to the input, and the caller must not free it
/// separately. Otherwise a fresh buffer in the 4-byte uncompressed layout,
/// holding the logical payload, is allocated in the current region.
///
/// The host's normalization routine can allocate and can signal an error;
/// in this model allocation always succeeds and the conversion is total,
/// so callers guard the call and no failure outcome is modeled here.
pub fn pg_detoast_datum(pool: &mut MemPool, ptr: usize) -> (r: usize)
    requires
        old(pool).wf(),
        old(pool).chunk_live(ptr as int),
        wf_varlena(old(pool).chunk_bytes(ptr as int)),
    ensures
        final(pool).wf(),
        final(pool).mem_extends(*old(pool)),
        final(pool).chunk_live(r as int),
        wf_varlena(final(pool).chunk_bytes(r as int)),
        is_direct(final(pool).chunk_bytes(r as int)),
        logical_payload(final(pool).chunk_bytes(r as int)) == logical_payload(
            old(pool).chunk_bytes(ptr as int),
        ),
        is_direct(old(pool).chunk_bytes(ptr as int)) ==> r == ptr && *final(pool) == *old(pool),
        !is_direct(old(pool).chunk_bytes(ptr as int)) ==> r == old(pool).chunks.len()
            && final(pool).chunks.len() == old(pool).chunks.len() + 1,
{
    let bytes = match &pool.chunks[ptr].data {
        Some(d) => d,
        None => unreached(),
    };
    let b0 = bytes[0];
    if (b0 & 0x03 == 0x00) || (b0 & 0x01 == 0x01 && b0 != 0x01) {
        proof {
            assert(is_direct(pool.chunk_bytes(ptr as int)));
        }
        return ptr;
    }
    // Compressed or out-of-line: copy the payload out into a fresh direct
    // buffer.
    let hsize: usize = if b0 == 0x01 {
        2
    } else {
        4
    };
    let n = bytes.len();
    let mut payload: Vec<u8> = Vec::new();
    let mut i: usize = hsize;
    while i < n
        invariant
            hsize <= i <= n,
            n == pool.chunks@[ptr as int].data.unwrap()@.len(),
            pool.chunk_live(ptr as int),
            payload@.len() == i - hsize,
            forall|k: int|
                0 <= k < i - hsize ==> payload@[k] == pool.chunks@[ptr as int].data.unwrap()@[
                    hsize + k],
        decreases n - i,
    {
        let bytes = match &pool.chunks[ptr].data {
            Some(d) => d,
            None => unreached(),
        };
        payload.push(bytes[i]);
        i += 1;
    }
    proof {
        assert(payload@ =~= logical_payload(old(pool).chunk_bytes(ptr as int)));
        lemma_encode_4b_u(payload@);
    }
    varlena_from_payload(pool, &payload)
}

/// Extract the payload of a direct buffer value (4-byte uncompressed or
/// 1-byte short). The compressed and out-of-line layouts must be
/// normalized first; handing them here is an encoding error.
pub fn varlena_payload(bytes: &Vec<u8>) -> (r: Result<Vec<u8>, ConversionError>)
    requires
        wf_varlena(bytes@),
    ensures
        is_direct(bytes@) ==> (r matches Ok(p) && p@ == logical_payload(bytes@)),
        !is_direct(bytes@) ==> r == Err::<Vec<u8>, ConversionError>(
            ConversionError::InvalidEncoding,
        ),
{
    let b0 = bytes[0];
    proof {
        lemma_layout_cases(b0);
    }
    if !((b0 & 0x03 == 0x00) || (b0 & 0x01 == 0x01 && b0 != 0x01)) {
        return Err(ConversionError::InvalidEncoding);
    }
    let hsize: usize = if b0 & 0x01 == 0x01 {
        1
    } else {
        4
    };
    let n = bytes.len();
    proof {
        assert(hsize == header_size(bytes@));
        assert(hsize <= n);
    }
    let mut payload: Vec<u8> = Vec::new();
    let mut i: usize = hsize;
    while i < n
        invariant
            hsize <= i <= n,
            n == bytes@.len(),
            payload@.len() == i - hsize,
            forall|k: int| 0 <= k < i - hsize ==> payload@[k] == bytes@[hsize + k],
        decreases n - i,
    {
        payload.push(bytes[i]);
        i += 1;
    }
    proof {
        assert(payload@ =~= logical_payload(bytes@));
    }
    Ok(payload)
}

} // verus!
