//! A verified model of a guest-extension runtime for a host relational
//! database engine.
//!
//! Guest code runs inside the host process and talks to it through three
//! low-level subsystems: an arena allocator bound to the host's hierarchical
//! memory regions ([`pg_alloc`]), a bridge between the host's non-local-exit
//! error mechanism and guest unwinding ([`pg_guard`]), and a typed
//! value-marshaling layer that converts opaque host words to and from rich
//! guest values ([`pg_datum`], [`varlena`]). On top of those sits the
//! foreign-table row protocol ([`pg_fdw`]).
//!
//! The host's process-wide mutable state (the current memory region, the
//! current exception target) is represented here as explicit values that are
//! threaded through every call, so that the resource discipline — every entry
//! point restores what it changed, on every exit path — can be stated as a
//! contract and machine-checked.

use vstd::prelude::*;

pub mod bytea;
pub mod pg_alloc;
pub mod pg_bool;
pub mod pg_datum;
pub mod pg_error;
pub mod pg_fdw;
pub mod pg_guard;
pub mod pg_type;
pub mod text;
pub mod varlena;

verus! {

/// The host's compiled limits, bit-exact in the load-time descriptor.
pub const FUNC_MAX_ARGS: i32 = 100;

/// The largest number of index keys the host supports.
pub const INDEX_MAX_KEYS: i32 = 32;

/// The largest identifier length the host supports.
pub const NAMEDATALEN: i32 = 64;

/// The load-time descriptor the host reads when the plugin is loaded.
///
/// Layout and field order are bit-exact and must match the host's compiled
/// expectation, or the plugin is rejected: the struct size, the protocol
/// version divided by 100, the argument and index-key limits, the
/// identifier length, and the float-by-value flags.
#[derive(Clone, Copy, PartialEq, Eq, Structural, Debug)]
pub struct PgMagicStruct {
    /// The size of this struct, for a first consistency check.
    pub len: i32,
    /// The host protocol version divided by 100.
    pub version: i32,
    /// The maximum number of function arguments.
    pub funcmaxargs: i32,
    /// The maximum number of index keys.
    pub indexmaxkeys: i32,
    /// The maximum identifier length.
    pub namedatalen: i32,
    /// Whether 4-byte floats travel by value.
    pub float4byval: bool,
    /// Whether 8-byte floats travel by value.
    pub float8byval: bool,
}

/// Build the load-time descriptor for a host protocol version (given as
/// the full version number, e.g. `110000`).
pub fn pg_magic(version: i32) -> (r: PgMagicStruct)
    requires
        version >= 0,
    ensures
        r.len == 28,
        r.version == version / 100,
        r.funcmaxargs == FUNC_MAX_ARGS,
        r.indexmaxkeys == INDEX_MAX_KEYS,
        r.namedatalen == NAMEDATALEN,
        r.float4byval,
        r.float8byval,
{
    PgMagicStruct {
        len: 28,
        version: version / 100,
        funcmaxargs: FUNC_MAX_ARGS,
        indexmaxkeys: INDEX_MAX_KEYS,
        namedatalen: NAMEDATALEN,
        float4byval: true,
        float8byval: true,
    }
}

/// Pair up a call-info record's argument words with its parallel null
/// flags, as the per-function wrapper glue does before marshaling each
/// argument.
pub fn get_args(values: &Vec<u64>, isnull: &Vec<bool>, nargs: usize) -> (r: Vec<
    crate::pg_datum::PgDatum,
>)
    requires
        nargs <= values@.len(),
        nargs <= isnull@.len(),
    ensures
        r@.len() == nargs,
        forall|i: int|
            0 <= i < nargs ==> (#[trigger] r@[i])@ == (if isnull@[i] {
                Option::<u64>::None
            } else {
                Some(values@[i])
            }),
{
    let mut out: Vec<crate::pg_datum::PgDatum> = Vec::new();
    let mut i: usize = 0;
    while i < nargs
        invariant
            i <= nargs,
            nargs <= values@.len(),
            nargs <= isnull@.len(),
            out@.len() == i,
            forall|k: int|
                0 <= k < i ==> (#[trigger] out@[k])@ == (if isnull@[k] {
                    Option::<u64>::None
                } else {
                    Some(values@[k])
                }),
        decreases nargs - i,
    {
        out.push(crate::pg_datum::PgDatum::from_raw(values[i], isnull[i]));
        i += 1;
    }
    out
}

} // verus!
