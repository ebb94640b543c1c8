//! Typed conversions between the host's opaque words and guest values.
//!
//! The host passes every value as a fixed-width machine word (a datum),
//! accompanied by an out-of-band null flag. A word either bit-encodes a
//! primitive directly or points into arena memory. [`PgDatum`] pairs the
//! word with the null flag; [`TryFromPgDatum`] decodes words into guest
//! types, and `From` impls on [`PgDatum`] encode guest values into words.
//!
//! Primitive numeric conversions are direct bit reinterpretations of the
//! word, not numeric casts. Buffer-backed and array conversions read arena
//! memory through the explicit [`MemPool`] and normalize variable-length
//! headers first.

use vstd::prelude::*;
use vstd::utf8::{decode_utf8, valid_utf8};

use crate::pg_alloc::{MemPool, PgAllocator, PgMemoryContext};
use crate::text::Text;
use crate::varlena;

verus! {

/// The host's opaque machine word. Wide enough for every primitive the
/// conversions below handle, 64-bit values included.
pub type Datum = u64;

/// Why a typed conversion from a word failed.
#[derive(Clone, Copy, PartialEq, Eq, Structural, Debug)]
pub enum ConversionError {
    /// The word was null-tagged but the target type is not optional.
    Null,
    /// A variable-length buffer had an unusable or corrupt header layout.
    InvalidEncoding,
    /// An array value had more than one dimension.
    UnsupportedDimensionality,
    /// Text bytes were not valid UTF-8.
    Utf8,
}

/// An opaque host word together with its null flag: `None` is the SQL null.
#[derive(Clone, Copy, PartialEq, Eq, Structural, Debug)]
pub struct PgDatum(pub Option<Datum>);

impl View for PgDatum {
    type V = Option<Datum>;

    open spec fn view(&self) -> Option<Datum> {
        self.0
    }
}

impl PgDatum {
    /// Pair a raw word with its null flag: a null-tagged word carries no
    /// value, whatever its bits.
    pub fn from_raw(datum: Datum, is_null: bool) -> (r: PgDatum)
        ensures
            r@ == if is_null {
                Option::<Datum>::None
            } else {
                Some(datum)
            },
    {
        if is_null {
            PgDatum(None)
        } else {
            PgDatum(Some(datum))
        }
    }

    /// Wrap an already-separated optional word.
    pub fn from_option(datum: Option<Datum>) -> (r: PgDatum)
        ensures
            r@ == datum,
    {
        PgDatum(datum)
    }

    /// True when this is the SQL null.
    ///
    /// This is called directly at the host boundary and must not fail.
    pub fn is_null(&self) -> (r: bool)
        ensures
            r == (self@ is None),
    {
        self.0.is_none()
    }

    /// The raw word for the host; a null becomes the zero word, and the
    /// caller passes the null flag out of band.
    ///
    /// This is called directly at the host boundary and must not fail.
    pub fn into_datum(self) -> (r: Datum)
        ensures
            self@ matches Some(d) ==> r == d,
            self@ is None ==> r == 0,
    {
        match self.0 {
            Some(datum) => datum,
            None => 0,
        }
    }
}

/// Conversions from a host word to a guest type.
///
/// Each implementation fixes exactly when the conversion succeeds
/// (`from_word_err` names the error, or `None` for success) and which
/// results are correct (`from_word_ok`, which pins the result's value — for
/// heap-backed types, its view — uniquely). A null-tagged word fails with
/// [`ConversionError::Null`] for every non-optional target type and
/// succeeds as the absent value for every optional one — that is the
/// `lemma_null_word` obligation, which every implementation must
/// discharge.
pub trait TryFromPgDatum: Sized {
    /// The error the conversion fails with, as a function of the memory
    /// state and the word; `None` means the conversion succeeds.
    spec fn from_word_err(pool: MemPool, datum: PgDatum) -> Option<ConversionError>;

    /// Whether `v` is the correct result of a successful conversion.
    spec fn from_word_ok(pool: MemPool, datum: PgDatum, v: Self) -> bool;

    /// What the conversion needs of the word: buffer-backed conversions may
    /// only dereference words that point at live, well-formed buffers.
    spec fn try_from_requires(pool: MemPool, datum: PgDatum) -> bool;

    /// Whether this target type treats a null word as an absent value
    /// rather than an error.
    spec fn spec_is_option() -> bool;

    /// Decode the word. Buffer-backed conversions may allocate and free
    /// scratch buffers, but leave every prior allocation untouched.
    fn try_from(pool: &mut MemPool, datum: PgDatum) -> (r: Result<Self, ConversionError>)
        requires
            old(pool).wf(),
            Self::try_from_requires(*old(pool), datum),
        ensures
            final(pool).wf(),
            final(pool).mem_extends(*old(pool)),
            r matches Ok(v) ==> Self::from_word_err(*old(pool), datum) is None
                && Self::from_word_ok(*old(pool), datum, v),
            r matches Err(e) ==> Self::from_word_err(*old(pool), datum) == Some(e),
    ;

    /// Null semantics: a null-tagged word fails non-optional targets with
    /// [`ConversionError::Null`] and succeeds optional ones.
    proof fn lemma_null_word(pool: MemPool, datum: PgDatum)
        requires
            datum@ is None,
        ensures
            !Self::spec_is_option() ==> Self::from_word_err(pool, datum) == Some(
                ConversionError::Null,
            ),
            Self::spec_is_option() ==> Self::from_word_err(pool, datum) is None,
    ;
}

/// The primitive types whose values travel as direct bit reinterpretations
/// of the word: the low bits of the word are the value's own bits.
pub trait PgPrimitiveDatum: Sized {
    /// The value whose bits are the low bits of `w`.
    spec fn decode_spec(w: u64) -> Self;

    /// The word holding the value's bits.
    spec fn encode_spec(self) -> u64;

    /// The value's width in bytes.
    spec fn elem_size_spec() -> usize;

    /// Reinterpret the low bits of a word.
    fn decode_word(w: u64) -> (r: Self)
        ensures
            r == Self::decode_spec(w),
    ;

    /// The value's width in bytes.
    fn elem_size() -> (n: usize)
        ensures
            n == Self::elem_size_spec(),
            1 <= n <= 8,
    ;
}

/// The bit pattern of a 32-bit float, kept as bits so that the marshaling
/// layer never interprets it numerically.
#[derive(Clone, Copy, PartialEq, Eq, Structural, Debug)]
pub struct Float4 {
    /// The IEEE-754 single-precision bits.
    pub bits: u32,
}

/// The bit pattern of a 64-bit float, kept as bits so that the marshaling
/// layer never interprets it numerically.
#[derive(Clone, Copy, PartialEq, Eq, Structural, Debug)]
pub struct Float8 {
    /// The IEEE-754 double-precision bits.
    pub bits: u64,
}

impl PgPrimitiveDatum for i16 {
    open spec fn decode_spec(w: u64) -> i16 {
        w as i16
    }

    open spec fn encode_spec(self) -> u64 {
        self as u64
    }

    open spec fn elem_size_spec() -> usize {
        2
    }

    fn decode_word(w: u64) -> (r: i16) {
        w as i16
    }

    fn elem_size() -> (n: usize) {
        2
    }
}

impl PgPrimitiveDatum for i32 {
    open spec fn decode_spec(w: u64) -> i32 {
        w as i32
    }

    open spec fn encode_spec(self) -> u64 {
        self as u64
    }

    open spec fn elem_size_spec() -> usize {
        4
    }

    fn decode_word(w: u64) -> (r: i32) {
        w as i32
    }

    fn elem_size() -> (n: usize) {
        4
    }
}

impl PgPrimitiveDatum for i64 {
    open spec fn decode_spec(w: u64) -> i64 {
        w as i64
    }

    open spec fn encode_spec(self) -> u64 {
        self as u64
    }

    open spec fn elem_size_spec() -> usize {
        8
    }

    fn decode_word(w: u64) -> (r: i64) {
        w as i64
    }

    fn elem_size() -> (n: usize) {
        8
    }
}

impl PgPrimitiveDatum for Float4 {
    open spec fn decode_spec(w: u64) -> Float4 {
        Float4 { bits: w as u32 }
    }

    open spec fn encode_spec(self) -> u64 {
        self.bits as u64
    }

    open spec fn elem_size_spec() -> usize {
        4
    }

    fn decode_word(w: u64) -> (r: Float4) {
        Float4 { bits: w as u32 }
    }

    fn elem_size() -> (n: usize) {
        4
    }
}

impl PgPrimitiveDatum for Float8 {
    open spec fn decode_spec(w: u64) -> Float8 {
        Float8 { bits: w }
    }

    open spec fn encode_spec(self) -> u64 {
        self.bits
    }

    open spec fn elem_size_spec() -> usize {
        8
    }

    fn decode_word(w: u64) -> (r: Float8) {
        Float8 { bits: w }
    }

    fn elem_size() -> (n: usize) {
        8
    }
}

impl TryFromPgDatum for i16 {
    open spec fn from_word_err(pool: MemPool, datum: PgDatum) -> Option<ConversionError> {
        match datum@ {
            None => Some(ConversionError::Null),
            Some(_) => None,
        }
    }

    open spec fn from_word_ok(pool: MemPool, datum: PgDatum, v: i16) -> bool {
        datum@ matches Some(w) && v == w as i16
    }

    open spec fn try_from_requires(pool: MemPool, datum: PgDatum) -> bool {
        true
    }

    open spec fn spec_is_option() -> bool {
        false
    }

    fn try_from(pool: &mut MemPool, datum: PgDatum) -> (r: Result<i16, ConversionError>) {
        match datum.0 {
            Some(w) => Ok(w as i16),
            None => Err(ConversionError::Null),
        }
    }

    proof fn lemma_null_word(pool: MemPool, datum: PgDatum) {
    }
}

impl TryFromPgDatum for i32 {
    open spec fn from_word_err(pool: MemPool, datum: PgDatum) -> Option<ConversionError> {
        match datum@ {
            None => Some(ConversionError::Null),
            Some(_) => None,
        }
    }

    open spec fn from_word_ok(pool: MemPool, datum: PgDatum, v: i32) -> bool {
        datum@ matches Some(w) && v == w as i32
    }

    open spec fn try_from_requires(pool: MemPool, datum: PgDatum) -> bool {
        true
    }

    open spec fn spec_is_option() -> bool {
        false
    }

    fn try_from(pool: &mut MemPool, datum: PgDatum) -> (r: Result<i32, ConversionError>) {
        match datum.0 {
            Some(w) => Ok(w as i32),
            None => Err(ConversionError::Null),
        }
    }

    proof fn lemma_null_word(pool: MemPool, datum: PgDatum) {
    }
}

impl TryFromPgDatum for i64 {
    open spec fn from_word_err(pool: MemPool, datum: PgDatum) -> Option<ConversionError> {
        match datum@ {
            None => Some(ConversionError::Null),
            Some(_) => None,
        }
    }

    open spec fn from_word_ok(pool: MemPool, datum: PgDatum, v: i64) -> bool {
        datum@ matches Some(w) && v == w as i64
    }

    open spec fn try_from_requires(pool: MemPool, datum: PgDatum) -> bool {
        true
    }

    open spec fn spec_is_option() -> bool {
        false
    }

    fn try_from(pool: &mut MemPool, datum: PgDatum) -> (r: Result<i64, ConversionError>) {
        match datum.0 {
            Some(w) => Ok(w as i64),
            None => Err(ConversionError::Null),
        }
    }

    proof fn lemma_null_word(pool: MemPool, datum: PgDatum) {
    }
}

impl TryFromPgDatum for Float4 {
    open spec fn from_word_err(pool: MemPool, datum: PgDatum) -> Option<ConversionError> {
        match datum@ {
            None => Some(ConversionError::Null),
            Some(_) => None,
        }
    }

    open spec fn from_word_ok(pool: MemPool, datum: PgDatum, v: Float4) -> bool {
        datum@ matches Some(w) && v == (Float4 { bits: w as u32 })
    }

    open spec fn try_from_requires(pool: MemPool, datum: PgDatum) -> bool {
        true
    }

    open spec fn spec_is_option() -> bool {
        false
    }

    fn try_from(pool: &mut MemPool, datum: PgDatum) -> (r: Result<Float4, ConversionError>) {
        match datum.0 {
            Some(w) => Ok(Float4 { bits: w as u32 }),
            None => Err(ConversionError::Null),
        }
    }

    proof fn lemma_null_word(pool: MemPool, datum: PgDatum) {
    }
}

impl TryFromPgDatum for Float8 {
    open spec fn from_word_err(pool: MemPool, datum: PgDatum) -> Option<ConversionError> {
        match datum@ {
            None => Some(ConversionError::Null),
            Some(_) => None,
        }
    }

    open spec fn from_word_ok(pool: MemPool, datum: PgDatum, v: Float8) -> bool {
        datum@ matches Some(w) && v == (Float8 { bits: w })
    }

    open spec fn try_from_requires(pool: MemPool, datum: PgDatum) -> bool {
        true
    }

    open spec fn spec_is_option() -> bool {
        false
    }

    fn try_from(pool: &mut MemPool, datum: PgDatum) -> (r: Result<Float8, ConversionError>) {
        match datum.0 {
            Some(w) => Ok(Float8 { bits: w }),
            None => Err(ConversionError::Null),
        }
    }

    proof fn lemma_null_word(pool: MemPool, datum: PgDatum) {
    }
}

impl<T: TryFromPgDatum> TryFromPgDatum for Option<T> {
    open spec fn from_word_err(pool: MemPool, datum: PgDatum) -> Option<ConversionError> {
        if datum@ is None {
            None
        } else {
            T::from_word_err(pool, datum)
        }
    }

    open spec fn from_word_ok(pool: MemPool, datum: PgDatum, v: Option<T>) -> bool {
        if datum@ is None {
            v is None
        } else {
            v matches Some(x) && T::from_word_ok(pool, datum, x)
        }
    }

    open spec fn try_from_requires(pool: MemPool, datum: PgDatum) -> bool {
        datum@ is Some ==> T::try_from_requires(pool, datum)
    }

    open spec fn spec_is_option() -> bool {
        true
    }

    fn try_from(pool: &mut MemPool, datum: PgDatum) -> (r: Result<Option<T>, ConversionError>) {
        if datum.is_null() {
            return Ok(None);
        }
        match T::try_from(pool, datum) {
            Ok(v) => Ok(Some(v)),
            Err(e) => Err(e),
        }
    }

    proof fn lemma_null_word(pool: MemPool, datum: PgDatum) {
    }
}

impl From<i16> for PgDatum {
    /// Bit-encode directly into a word (sign-extended, as the host's own
    /// accessor macros do).
    fn from(value: i16) -> (r: PgDatum) {
        PgDatum(Some(value as u64))
    }
}

impl vstd::std_specs::convert::FromSpecImpl<i16> for PgDatum {
    open spec fn obeys_from_spec() -> bool {
        true
    }

    open spec fn from_spec(v: i16) -> PgDatum {
        PgDatum(Some(v as u64))
    }
}

impl From<i32> for PgDatum {
    /// Bit-encode directly into a word.
    fn from(value: i32) -> (r: PgDatum) {
        PgDatum(Some(value as u64))
    }
}

impl vstd::std_specs::convert::FromSpecImpl<i32> for PgDatum {
    open spec fn obeys_from_spec() -> bool {
        true
    }

    open spec fn from_spec(v: i32) -> PgDatum {
        PgDatum(Some(v as u64))
    }
}

impl From<i64> for PgDatum {
    /// Bit-encode directly into a word; the word width accommodates the
    /// full 64 bits.
    fn from(value: i64) -> (r: PgDatum) {
        PgDatum(Some(value as u64))
    }
}

impl vstd::std_specs::convert::FromSpecImpl<i64> for PgDatum {
    open spec fn obeys_from_spec() -> bool {
        true
    }

    open spec fn from_spec(v: i64) -> PgDatum {
        PgDatum(Some(v as u64))
    }
}

impl From<Float4> for PgDatum {
    /// Bit-encode the float's bits into the low half of the word.
    fn from(value: Float4) -> (r: PgDatum) {
        PgDatum(Some(value.bits as u64))
    }
}

impl vstd::std_specs::convert::FromSpecImpl<Float4> for PgDatum {
    open spec fn obeys_from_spec() -> bool {
        true
    }

    open spec fn from_spec(v: Float4) -> PgDatum {
        PgDatum(Some(v.bits as u64))
    }
}

impl From<Float8> for PgDatum {
    /// Bit-encode the float's bits into the word.
    fn from(value: Float8) -> (r: PgDatum) {
        PgDatum(Some(value.bits))
    }
}

impl vstd::std_specs::convert::FromSpecImpl<Float8> for PgDatum {
    open spec fn obeys_from_spec() -> bool {
        true
    }

    open spec fn from_spec(v: Float8) -> PgDatum {
        PgDatum(Some(v.bits))
    }
}

impl From<()> for PgDatum {
    /// A void result has no word: it is the null.
    fn from(value: ()) -> (r: PgDatum) {
        PgDatum(None)
    }
}

impl vstd::std_specs::convert::FromSpecImpl<()> for PgDatum {
    open spec fn obeys_from_spec() -> bool {
        true
    }

    open spec fn from_spec(v: ()) -> PgDatum {
        PgDatum(None)
    }
}


/// Whether a word may be dereferenced as a variable-length buffer: either
/// it is null, or it points at a live chunk holding a well-formed buffer.
pub open spec fn datum_points_at_varlena(pool: MemPool, datum: PgDatum) -> bool {
    datum@ matches Some(w) ==> w < pool.chunks.len() && pool.chunk_live(w as int)
        && varlena::wf_varlena(pool.chunk_bytes(w as int))
}

/// Relies on `String::from_utf8`: it succeeds exactly on valid UTF-8 input
/// and decodes it.
#[verifier::external_body]
pub(crate) fn string_from_utf8(bytes: Vec<u8>) -> (r: Option<String>)
    ensures
        (r is Some) == valid_utf8(bytes@),
        r matches Some(s) ==> s@ == decode_utf8(bytes@),
{
    String::from_utf8(bytes).ok()
}

impl TryFromPgDatum for String {
    open spec fn from_word_err(pool: MemPool, datum: PgDatum) -> Option<ConversionError> {
        match datum@ {
            None => Some(ConversionError::Null),
            Some(w) => {
                if valid_utf8(varlena::logical_payload(pool.chunk_bytes(w as int))) {
                    None
                } else {
                    Some(ConversionError::Utf8)
                }
            },
        }
    }

    open spec fn from_word_ok(pool: MemPool, datum: PgDatum, v: String) -> bool {
        datum@ matches Some(w) && v@ == decode_utf8(
            varlena::logical_payload(pool.chunk_bytes(w as int)),
        )
    }

    open spec fn try_from_requires(pool: MemPool, datum: PgDatum) -> bool {
        datum_points_at_varlena(pool, datum)
    }

    open spec fn spec_is_option() -> bool {
        false
    }

    /// Normalize the buffer, copy the payload out, release the scratch
    /// buffer, and validate the bytes as UTF-8.
    fn try_from(pool: &mut MemPool, datum: PgDatum) -> (r: Result<String, ConversionError>) {
        let wd = match datum.0 {
            Some(wd) => wd,
            None => {
                return Err(ConversionError::Null);
            },
        };
        let h = wd as usize;
        let d = varlena::pg_detoast_datum(pool, h);
        let payload = {
            let bytes = match &pool.chunks[d].data {
                Some(b) => b,
                None => unreached(),
            };
            match varlena::varlena_payload(bytes) {
                Ok(p) => p,
                Err(_) => unreached(),
            }
        };
        if d != h {
            PgMemoryContext::pfree(pool, d);
        }
        match string_from_utf8(payload) {
            Some(s) => Ok(s),
            None => Err(ConversionError::Utf8),
        }
    }

    proof fn lemma_null_word(pool: MemPool, datum: PgDatum) {
    }
}

impl TryFromPgDatum for Text {
    open spec fn from_word_err(pool: MemPool, datum: PgDatum) -> Option<ConversionError> {
        match datum@ {
            None => Some(ConversionError::Null),
            Some(_) => None,
        }
    }

    open spec fn from_word_ok(pool: MemPool, datum: PgDatum, v: Text) -> bool {
        datum@ matches Some(w) && v.live() && v.addr() == w
    }

    open spec fn try_from_requires(pool: MemPool, datum: PgDatum) -> bool {
        datum@ matches Some(w) ==> w <= usize::MAX
    }

    open spec fn spec_is_option() -> bool {
        false
    }

    /// Adopt the word as a buffer pointer without normalizing it.
    fn try_from(pool: &mut MemPool, datum: PgDatum) -> (r: Result<Text, ConversionError>) {
        match datum.0 {
            Some(w) => {
                let alloc_handle = PgAllocator::current_context(pool);
                Ok(Text::from_raw(&alloc_handle, w as usize))
            },
            None => Err(ConversionError::Null),
        }
    }

    proof fn lemma_null_word(pool: MemPool, datum: PgDatum) {
    }
}

/// The little-endian `u64` read at `off`.
pub open spec fn le64_at(bytes: Seq<u8>, off: int) -> u64
    recommends
        0 <= off,
        off + 8 <= bytes.len(),
{
    (bytes[off] as u64) | ((bytes[off + 1] as u64) << 8) | ((bytes[off + 2] as u64) << 16) | (
    (bytes[off + 3] as u64) << 24) | ((bytes[off + 4] as u64) << 32) | ((bytes[off
        + 5] as u64) << 40) | ((bytes[off + 6] as u64) << 48) | ((bytes[off + 7] as u64) << 56)
}

/// Read the little-endian `u64` at `off`.
pub fn read_le64(bytes: &Vec<u8>, off: usize) -> (r: u64)
    requires
        off + 8 <= bytes@.len(),
    ensures
        r == le64_at(bytes@, off as int),
{
    let n = bytes.len();
    proof {
        assert(off + 7 < n);
    }
    (bytes[off] as u64) | ((bytes[off + 1] as u64) << 8u64) | ((bytes[off + 2] as u64) << 16u64)
        | ((bytes[off + 3] as u64) << 24u64) | ((bytes[off + 4] as u64) << 32u64) | ((bytes[off
        + 5] as u64) << 40u64) | ((bytes[off + 6] as u64) << 48u64) | ((bytes[off + 7] as u64)
        << 56u64)
}

/// The per-element storage width of the host types an array conversion
/// supports: 2-, 4- and 8-byte integers and 4- and 8-byte floats, named by
/// the host's type numbers.
pub open spec fn type_len_spec(elemtype: u32) -> Option<u16> {
    if elemtype == 21 {
        Some(2u16)
    } else if elemtype == 23 {
        Some(4u16)
    } else if elemtype == 20 {
        Some(8u16)
    } else if elemtype == 700 {
        Some(4u16)
    } else if elemtype == 701 {
        Some(8u16)
    } else {
        None
    }
}

/// The host's type-introspection routine: per-element width and
/// by-value-ness for an element type. The supported fixed-width primitives
/// are all passed by value; anything else is unknown here.
pub fn get_typlenbyvalalign(elemtype: u32) -> (r: Option<(u16, bool)>)
    ensures
        type_len_spec(elemtype) matches Some(n) ==> r == Some((n, true)),
        type_len_spec(elemtype) is None ==> r is None,
{
    if elemtype == 21 {
        Some((2, true))
    } else if elemtype == 23 {
        Some((4, true))
    } else if elemtype == 20 {
        Some((8, true))
    } else if elemtype == 700 {
        Some((4, true))
    } else if elemtype == 701 {
        Some((8, true))
    } else {
        None
    }
}

/// The element type number stored in an array payload.
pub open spec fn array_elemtype(p: Seq<u8>) -> u32 {
    varlena::le32_at(p, 0)
}

/// The dimensionality stored in an array payload.
pub open spec fn array_ndim(p: Seq<u8>) -> u32 {
    varlena::le32_at(p, 4)
}

/// The element count stored in an array payload.
pub open spec fn array_nelems(p: Seq<u8>) -> u32 {
    varlena::le32_at(p, 8)
}

/// An array payload of the expected shape: a 12-byte header, one 8-byte
/// word per element, and one null flag byte per element.
pub open spec fn array_header_ok(p: Seq<u8>) -> bool {
    p.len() >= 12 && p.len() == 12 + 9 * (array_nelems(p) as int)
}

/// The `i`-th element word of an array payload.
pub open spec fn array_elem_word(p: Seq<u8>, i: int) -> u64 {
    le64_at(p, 12 + 8 * i)
}

/// The `i`-th null flag of an array payload.
pub open spec fn array_elem_null(p: Seq<u8>, i: int) -> bool {
    p[12 + 8 * (array_nelems(p) as int) + i] != 0
}

/// The result of normalizing an array word, remembering the original so
/// that the normalization buffer — and only it — is released afterwards.
pub struct DetoastedArrayWrapper {
    /// The chunk the word pointed at.
    pub original_datum: usize,
    /// The normalized chunk; equal to `original_datum` when the input was
    /// already direct.
    pub arr_type: usize,
}

impl DetoastedArrayWrapper {
    /// Normalize the buffer at `datum`.
    pub fn detoasted(pool: &mut MemPool, datum: usize) -> (r: DetoastedArrayWrapper)
        requires
            old(pool).wf(),
            old(pool).chunk_live(datum as int),
            varlena::wf_varlena(old(pool).chunk_bytes(datum as int)),
        ensures
            final(pool).wf(),
            final(pool).mem_extends(*old(pool)),
            r.original_datum == datum,
            final(pool).chunk_live(r.arr_type as int),
            varlena::wf_varlena(final(pool).chunk_bytes(r.arr_type as int)),
            varlena::is_direct(final(pool).chunk_bytes(r.arr_type as int)),
            varlena::logical_payload(final(pool).chunk_bytes(r.arr_type as int))
                == varlena::logical_payload(old(pool).chunk_bytes(datum as int)),
            (r.arr_type == datum) == varlena::is_direct(old(pool).chunk_bytes(datum as int)),
            varlena::is_direct(old(pool).chunk_bytes(datum as int)) ==> *final(pool) == *old(
                pool,
            ),
            !varlena::is_direct(old(pool).chunk_bytes(datum as int)) ==> r.arr_type == old(
                pool,
            ).chunks.len(),
    {
        let arr = varlena::pg_detoast_datum(pool, datum);
        DetoastedArrayWrapper { original_datum: datum, arr_type: arr }
    }

    /// Release the normalization buffer on scope exit — unless it is
    /// handle-identical to the original input, which the normalization
    /// step returns unchanged for values that were already direct.
    pub fn release(self, pool: &mut MemPool)
        requires
            old(pool).wf(),
            self.arr_type != self.original_datum ==> old(pool).chunk_live(self.arr_type as int),
        ensures
            final(pool).wf(),
            final(pool).regions == old(pool).regions,
            final(pool).current == old(pool).current,
            final(pool).chunks.len() == old(pool).chunks.len(),
            forall|j: int|
                0 <= j < final(pool).chunks.len() && !(self.arr_type != self.original_datum && j
                    == self.arr_type) ==> final(pool).chunks[j] == #[trigger] old(pool).chunks[j],
            self.arr_type != self.original_datum ==> final(pool).chunks[self.arr_type as int].data
                is None,
    {
        if self.arr_type != self.original_datum {
            PgMemoryContext::pfree(pool, self.arr_type);
        }
    }
}

/// Appending scratch chunks and then freeing only chunks that lie beyond
/// `base`'s chunks still extends `base`.
proof fn lemma_extend_then_free(base: MemPool, mid: MemPool, fin: MemPool, arr: int)
    requires
        mid.mem_extends(base),
        fin.regions == mid.regions,
        fin.current == mid.current,
        fin.chunks.len() == mid.chunks.len(),
        forall|j: int|
            0 <= j < fin.chunks.len() && j != arr ==> fin.chunks[j] == #[trigger] mid.chunks[j],
        arr >= base.chunks.len() || fin.chunks[arr] == mid.chunks[arr],
    ensures
        fin.mem_extends(base),
{
}

impl<T: PgPrimitiveDatum> TryFromPgDatum for Vec<T> {
    open spec fn from_word_err(pool: MemPool, datum: PgDatum) -> Option<ConversionError> {
        match datum@ {
            None => Some(ConversionError::Null),
            Some(w) => {
                let p = varlena::logical_payload(pool.chunk_bytes(w as int));
                if p.len() < 12 {
                    Some(ConversionError::InvalidEncoding)
                } else if array_ndim(p) > 1 {
                    Some(ConversionError::UnsupportedDimensionality)
                } else if type_len_spec(array_elemtype(p)) is None {
                    Some(ConversionError::InvalidEncoding)
                } else if p.len() != 12 + 9 * (array_nelems(p) as int) {
                    Some(ConversionError::InvalidEncoding)
                } else if (8 * (array_nelems(p) as int)) % (T::elem_size_spec() as int) != 0 {
                    Some(ConversionError::InvalidEncoding)
                } else {
                    None
                }
            },
        }
    }

    open spec fn from_word_ok(pool: MemPool, datum: PgDatum, v: Vec<T>) -> bool {
        datum@ matches Some(w) && {
            let p = varlena::logical_payload(pool.chunk_bytes(w as int));
            v@ == Seq::new(
                array_nelems(p) as nat,
                |i: int| T::decode_spec(array_elem_word(p, i)),
            )
        }
    }

    open spec fn try_from_requires(pool: MemPool, datum: PgDatum) -> bool {
        datum_points_at_varlena(pool, datum)
    }

    open spec fn spec_is_option() -> bool {
        false
    }

    /// Normalize the word, check that the array is one-dimensional and of
    /// a supported fixed-width element type, deconstruct it into element
    /// words, and reinterpret each word. The per-element null flags are
    /// not consulted: a null element's word is the zero word, exactly as
    /// the host's deconstruction hands it out.
    fn try_from(pool: &mut MemPool, datum: PgDatum) -> (r: Result<Vec<T>, ConversionError>) {
        let wd = match datum.0 {
            Some(wd) => wd,
            None => {
                return Err(ConversionError::Null);
            },
        };
        let h = wd as usize;
        proof {
            assert(h == wd);
        }
        let wrapper = DetoastedArrayWrapper::detoasted(pool, h);
        let arr = wrapper.arr_type;
        let payload = {
            let bytes = match &pool.chunks[arr].data {
                Some(b) => b,
                None => unreached(),
            };
            match varlena::varlena_payload(bytes) {
                Ok(p) => p,
                Err(_) => unreached(),
            }
        };
        let ghost mid = *pool;
        proof {
            assert(payload@ == varlena::logical_payload(old(pool).chunk_bytes(wd as int)));
        }
        if payload.len() < 12 {
            wrapper.release(pool);
            proof {
                lemma_extend_then_free(*old(pool), mid, *pool, arr as int);
            }
            return Err(ConversionError::InvalidEncoding);
        }
        let ndim = varlena::read_le32(&payload, 4);
        if ndim > 1 {
            wrapper.release(pool);
            proof {
                lemma_extend_then_free(*old(pool), mid, *pool, arr as int);
            }
            return Err(ConversionError::UnsupportedDimensionality);
        }
        let elemtype = varlena::read_le32(&payload, 0);
        if get_typlenbyvalalign(elemtype).is_none() {
            wrapper.release(pool);
            proof {
                lemma_extend_then_free(*old(pool), mid, *pool, arr as int);
            }
            return Err(ConversionError::InvalidEncoding);
        }
        let nelems_word = varlena::read_le32(&payload, 8);
        let nelems = nelems_word as usize;
        if nelems > (varlena::VARLENA_MAX_SIZE - 12) / 9 || payload.len() != 12 + 9 * nelems {
            wrapper.release(pool);
            proof {
                lemma_extend_then_free(*old(pool), mid, *pool, arr as int);
            }
            return Err(ConversionError::InvalidEncoding);
        }
        let esize = T::elem_size();
        if (8 * nelems) % esize != 0 {
            wrapper.release(pool);
            proof {
                lemma_extend_then_free(*old(pool), mid, *pool, arr as int);
            }
            return Err(ConversionError::InvalidEncoding);
        }
        let mut out: Vec<T> = Vec::new();
        let mut i: usize = 0;
        while i < nelems
            invariant
                i <= nelems,
                nelems <= (varlena::VARLENA_MAX_SIZE - 12) / 9,
                payload@.len() == 12 + 9 * nelems,
                out@.len() == i,
                forall|k: int|
                    0 <= k < i ==> out@[k] == T::decode_spec(array_elem_word(payload@, k)),
            decreases nelems - i,
        {
            let word = read_le64(&payload, 12 + 8 * i);
            out.push(T::decode_word(word));
            i += 1;
        }
        wrapper.release(pool);
        proof {
            lemma_extend_then_free(*old(pool), mid, *pool, arr as int);
            assert(out@ =~= Seq::new(
                array_nelems(payload@) as nat,
                |i: int| T::decode_spec(array_elem_word(payload@, i)),
            ));
        }
        Ok(out)
    }

    proof fn lemma_null_word(pool: MemPool, datum: PgDatum) {
    }
}


/// The little-endian bytes of a `u32` reassemble to it.
proof fn lemma_le32_reassemble(x: u32)
    ensures
        (((x as u8) as u32) | ((((x >> 8) as u8) as u32) << 8) | ((((x >> 16) as u8) as u32)
            << 16) | ((((x >> 24) as u8) as u32) << 24)) == x,
{
    assert((((x as u8) as u32) | ((((x >> 8) as u8) as u32) << 8) | ((((x >> 16) as u8) as u32)
        << 16) | ((((x >> 24) as u8) as u32) << 24)) == x) by (bit_vector);
}

/// The little-endian bytes of a `u64` reassemble to it.
proof fn lemma_le64_reassemble(x: u64)
    ensures
        (((x as u8) as u64) | ((((x >> 8) as u8) as u64) << 8) | ((((x >> 16) as u8) as u64)
            << 16) | ((((x >> 24) as u8) as u64) << 24) | ((((x >> 32) as u8) as u64) << 32) | ((((x
            >> 40) as u8) as u64) << 40) | ((((x >> 48) as u8) as u64) << 48) | ((((x
            >> 56) as u8) as u64) << 56)) == x,
{
    assert((((x as u8) as u64) | ((((x >> 8) as u8) as u64) << 8) | ((((x >> 16) as u8) as u64)
        << 16) | ((((x >> 24) as u8) as u64) << 24) | ((((x >> 32) as u8) as u64) << 32) | ((((x
        >> 40) as u8) as u64) << 40) | ((((x >> 48) as u8) as u64) << 48) | ((((x
        >> 56) as u8) as u64) << 56)) == x) by (bit_vector);
}

/// Append the little-endian bytes of a `u32`.
fn push_le32(bytes: &mut Vec<u8>, x: u32)
    requires
        old(bytes)@.len() + 4 <= usize::MAX,
    ensures
        final(bytes)@.len() == old(bytes)@.len() + 4,
        forall|k: int| 0 <= k < old(bytes)@.len() ==> final(bytes)@[k] == #[trigger] old(
            bytes,
        )@[k],
        varlena::le32_at(final(bytes)@, old(bytes)@.len() as int) == x,
{
    bytes.push(x as u8);
    bytes.push((x >> 8u32) as u8);
    bytes.push((x >> 16u32) as u8);
    bytes.push((x >> 24u32) as u8);
    proof {
        lemma_le32_reassemble(x);
    }
}

/// Append the little-endian bytes of a `u64`.
fn push_le64(bytes: &mut Vec<u8>, x: u64)
    requires
        old(bytes)@.len() + 8 <= usize::MAX,
    ensures
        final(bytes)@.len() == old(bytes)@.len() + 8,
        forall|k: int| 0 <= k < old(bytes)@.len() ==> final(bytes)@[k] == #[trigger] old(
            bytes,
        )@[k],
        le64_at(final(bytes)@, old(bytes)@.len() as int) == x,
{
    bytes.push(x as u8);
    bytes.push((x >> 8u64) as u8);
    bytes.push((x >> 16u64) as u8);
    bytes.push((x >> 24u64) as u8);
    bytes.push((x >> 32u64) as u8);
    bytes.push((x >> 40u64) as u8);
    bytes.push((x >> 48u64) as u8);
    bytes.push((x >> 56u64) as u8);
    proof {
        lemma_le64_reassemble(x);
    }
}

/// An array payload carrying exactly this element type, dimensionality,
/// element words and null flags.
pub open spec fn array_payload_matches(
    p: Seq<u8>,
    elemtype: u32,
    ndim: u32,
    words: Seq<u64>,
    nulls: Seq<bool>,
) -> bool {
    &&& p.len() == 12 + 9 * words.len()
    &&& array_elemtype(p) == elemtype
    &&& array_ndim(p) == ndim
    &&& array_nelems(p) == words.len()
    &&& forall|i: int| 0 <= i < words.len() ==> #[trigger] array_elem_word(p, i) == words[i]
    &&& forall|i: int|
        0 <= i < nulls.len() ==> #[trigger] array_elem_null(p, i) == nulls[i]
}

/// Build a one-word array value in the current region: a buffer holding
/// the element type, the dimensionality, the element count, the element
/// words, and the per-element null flags, and return the word pointing at
/// it.
pub fn make_array_datum(
    pool: &mut MemPool,
    elemtype: u32,
    ndim: u32,
    words: &Vec<u64>,
    nulls: &Vec<bool>,
) -> (r: PgDatum)
    requires
        old(pool).wf(),
        words@.len() == nulls@.len(),
        16 + 9 * words@.len() <= varlena::VARLENA_MAX_SIZE,
    ensures
        final(pool).wf(),
        final(pool).mem_extends(*old(pool)),
        final(pool).chunks.len() == old(pool).chunks.len() + 1,
        r@ == Some(old(pool).chunks.len() as u64),
        datum_points_at_varlena(*final(pool), r),
        varlena::is_direct(final(pool).chunk_bytes(old(pool).chunks.len() as int)),
        array_payload_matches(
            varlena::logical_payload(final(pool).chunk_bytes(old(pool).chunks.len() as int)),
            elemtype,
            ndim,
            words@,
            nulls@,
        ),
{
    let n = words.len();
    let mut payload: Vec<u8> = Vec::new();
    push_le32(&mut payload, elemtype);
    push_le32(&mut payload, ndim);
    push_le32(&mut payload, n as u32);
    proof {
        lemma_le32_reassemble(n as u32);
        assert(n as u32 as u64 == n as u64) by (bit_vector)
            requires
                n <= 0x3FFF_FFFF,
        ;
    }
    let mut i: usize = 0;
    while i < n
        invariant
            i <= n,
            n == words@.len(),
            16 + 9 * n <= varlena::VARLENA_MAX_SIZE,
            payload@.len() == 12 + 8 * i,
            array_elemtype(payload@) == elemtype,
            array_ndim(payload@) == ndim,
            array_nelems(payload@) == n as u32,
            forall|j: int|
                0 <= j < i ==> #[trigger] le64_at(payload@, 12 + 8 * j) == words@[j],
        decreases n - i,
    {
        let ghost prev = payload@;
        push_le64(&mut payload, words[i]);
        proof {
            assert forall|jj: int| 0 <= jj < i implies #[trigger] le64_at(payload@, 12 + 8 * jj)
                == words@[jj] by {
                assert(le64_at(prev, 12 + 8 * jj) == words@[jj]);
                assert(forall|c: int| 0 <= c < prev.len() ==> payload@[c] == #[trigger] prev[c]);
            };
        }
        i += 1;
    }
    let mut j: usize = 0;
    while j < n
        invariant
            j <= n,
            n == words@.len(),
            n == nulls@.len(),
            16 + 9 * n <= varlena::VARLENA_MAX_SIZE,
            payload@.len() == 12 + 8 * n + j,
            array_elemtype(payload@) == elemtype,
            array_ndim(payload@) == ndim,
            array_nelems(payload@) == n as u32,
            forall|k: int|
                0 <= k < n ==> #[trigger] le64_at(payload@, 12 + 8 * k) == words@[k],
            forall|k: int|
                0 <= k < j ==> (payload@[12 + 8 * n + k] != 0) == nulls@[k],
        decreases n - j,
    {
        let ghost prev = payload@;
        payload.push(if nulls[j] {
            1
        } else {
            0
        });
        proof {
            assert forall|k: int| 0 <= k < n implies #[trigger] le64_at(payload@, 12 + 8 * k)
                == words@[k] by {
                assert(le64_at(prev, 12 + 8 * k) == words@[k]);
                assert(forall|c: int| 0 <= c < prev.len() ==> payload@[c] == #[trigger] prev[c]);
            };
        }
        j += 1;
    }
    proof {
        varlena::lemma_encode_4b_u(payload@);
    }
    let h = varlena::varlena_from_payload(pool, &payload);
    proof {
        assert(array_payload_matches(payload@, elemtype, ndim, words@, nulls@));
        assert(h as u64 as int == h as int) by (bit_vector)
            requires
                h <= u64::MAX,
        ;
    }
    PgDatum(Some(h as u64))
}

/// Every value of a primitive type round-trips: encoding it into a word
/// and decoding that word succeeds and gives exactly the value back,
/// whatever the memory state.
pub proof fn lemma_round_trip_i16(pool: MemPool, v: i16)
    ensures
        i16::from_word_err(pool, PgDatum(Some(v as u64))) is None,
        i16::from_word_ok(pool, PgDatum(Some(v as u64)), v),
        forall|w: i16| #[trigger] i16::from_word_ok(pool, PgDatum(Some(v as u64)), w) ==> w == v,
{
    assert((v as u64) as i16 == v) by (bit_vector);
}

/// Every `i32` round-trips through its word encoding.
pub proof fn lemma_round_trip_i32(pool: MemPool, v: i32)
    ensures
        i32::from_word_err(pool, PgDatum(Some(v as u64))) is None,
        i32::from_word_ok(pool, PgDatum(Some(v as u64)), v),
        forall|w: i32| #[trigger] i32::from_word_ok(pool, PgDatum(Some(v as u64)), w) ==> w == v,
{
    assert((v as u64) as i32 == v) by (bit_vector);
}

/// Every `i64` round-trips through its word encoding.
pub proof fn lemma_round_trip_i64(pool: MemPool, v: i64)
    ensures
        i64::from_word_err(pool, PgDatum(Some(v as u64))) is None,
        i64::from_word_ok(pool, PgDatum(Some(v as u64)), v),
        forall|w: i64| #[trigger] i64::from_word_ok(pool, PgDatum(Some(v as u64)), w) ==> w == v,
{
    assert((v as u64) as i64 == v) by (bit_vector);
}

/// Every 32-bit float bit pattern round-trips through its word encoding.
pub proof fn lemma_round_trip_float4(pool: MemPool, v: Float4)
    ensures
        Float4::from_word_err(pool, PgDatum(Some(v.bits as u64))) is None,
        Float4::from_word_ok(pool, PgDatum(Some(v.bits as u64)), v),
        forall|w: Float4| #[trigger] Float4::from_word_ok(pool, PgDatum(Some(v.bits as u64)), w) ==> w == v,
{
    let b = v.bits;
    assert((b as u64) as u32 == b) by (bit_vector);
}

/// Every 64-bit float bit pattern round-trips through its word encoding.
pub proof fn lemma_round_trip_float8(pool: MemPool, v: Float8)
    ensures
        Float8::from_word_err(pool, PgDatum(Some(v.bits))) is None,
        Float8::from_word_ok(pool, PgDatum(Some(v.bits)), v),
        forall|w: Float8| #[trigger] Float8::from_word_ok(pool, PgDatum(Some(v.bits)), w) ==> w == v,
{
}

} // verus!
