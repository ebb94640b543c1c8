//! Support for the host's boolean values.
//!
//! Depending on platform and host version, the host's C boolean reaches guest
//! code as `u8`, `i8` or `char`. This type provides checked conversions for
//! all of those raw encodings, where `1` encodes true and everything else
//! encodes false.

use vstd::prelude::*;

verus! {

/// A boolean as exchanged with the host, together with conversions for every
/// raw representation the host may use.
#[derive(Clone, Copy, PartialEq, Eq, Structural, Debug)]
pub struct Bool(pub bool);

impl Bool {
    /// Wrap a guest boolean.
    pub fn from_bool(b: bool) -> (r: Bool)
        ensures
            r.0 == b,
    {
        Bool(b)
    }

    /// Unwrap to a guest boolean.
    pub fn into_bool(self) -> (r: bool)
        ensures
            r == self.0,
    {
        self.0
    }

    /// Read a raw `u8` boolean, as handed over by hosts whose C boolean is a
    /// byte: exactly `1` is true.
    pub fn from_raw(i: u8) -> (r: Bool)
        ensures
            r.0 == (i == 1),
    {
        Bool(i == 1)
    }

    /// Encode for a host whose C boolean is a `u8`.
    pub fn to_u8(self) -> (r: u8)
        ensures
            r == if self.0 { 1u8 } else { 0u8 },
    {
        if self.0 {
            1
        } else {
            0
        }
    }

    /// Read a raw `i8` boolean: exactly `1` is true.
    pub fn from_i8(i: i8) -> (r: Bool)
        ensures
            r.0 == (i == 1),
    {
        Bool(i == 1)
    }

    /// Encode for a host whose C boolean is an `i8`.
    pub fn to_i8(self) -> (r: i8)
        ensures
            r == if self.0 { 1i8 } else { 0i8 },
    {
        if self.0 {
            1
        } else {
            0
        }
    }

    /// Read a raw `char` boolean: exactly `'\u{1}'` is true.
    pub fn from_char(i: char) -> (r: Bool)
        ensures
            r.0 == (i == '\u{1}'),
    {
        Bool(i == '\u{1}')
    }

    /// Encode for a host whose C boolean is a `char`.
    pub fn to_char(self) -> (r: char)
        ensures
            r == if self.0 { '\u{1}' } else { '\u{0}' },
    {
        if self.0 {
            '\u{1}'
        } else {
            '\u{0}'
        }
    }
}

} // verus!
