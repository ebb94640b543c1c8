//! The host's SQL type names, for declaring guest functions to the host.

use vstd::prelude::*;
use vstd::string::StringExecFns;
use vstd::utf8::{decode_utf8, encode_utf8, valid_utf8};

verus! {

/// The host types a guest function signature can name.
#[derive(Clone, Copy, PartialEq, Eq, Structural, Debug)]
pub enum PgType {
    /// absolute time
    AbsoluteTime,
    /// bigint (8-byte integer)
    BigInt,
    /// bigint under its short name
    Int8,
    /// boolean
    Boolean,
    /// rectangle
    GeoBox,
    /// variable-length byte array
    ByteA,
    /// single character
    Char,
    /// blank-padded character string
    Character,
    /// command identifier
    CommandId,
    /// calendar date
    Date,
    /// smallint (2-byte integer)
    SmallInt,
    /// smallint under its short name
    Int2,
    /// vector of 2-byte integers
    Int2Vector,
    /// integer (4-byte integer)
    Integer,
    /// integer under its short name
    Int4,
    /// real (4-byte float)
    Real,
    /// real under its short name
    Float4,
    /// double precision (8-byte float)
    DoublePrecision,
    /// double precision under its short name
    Float8,
    /// time interval
    Interval,
    /// line segment
    Lseg,
    /// identifier name
    Name,
    /// object identifier
    Oid,
    /// vector of object identifiers
    OidVector,
    /// geometric path
    Path,
    /// geometric point
    Point,
    /// registered procedure
    RegProc,
    /// relative time
    RelativeTime,
    /// variable-length character string
    Text,
    /// tuple identifier
    ItemPointer,
    /// time of day
    Time,
    /// time of day with time zone
    TimeWithTimeZone,
    /// date and time
    Timestamp,
    /// time interval pair
    TimeInterval,
    /// variable-length character string with limit
    VarChar,
    /// no value
    Void,
    /// transaction identifier
    TransactionId,
}

impl PgType {
    /// The SQL spelling of each type.
    pub open spec fn as_str_spec(self) -> Seq<char> {
        match self {
            PgType::AbsoluteTime => "abstime"@,
            PgType::BigInt => "bigint"@,
            PgType::Int8 => "int8"@,
            PgType::Boolean => "boolean"@,
            PgType::GeoBox => "box"@,
            PgType::ByteA => "bytea"@,
            PgType::Char => "char"@,
            PgType::Character => "character"@,
            PgType::CommandId => "cid"@,
            PgType::Date => "date"@,
            PgType::SmallInt => "smallint"@,
            PgType::Int2 => "int2"@,
            PgType::Int2Vector => "int2vector"@,
            PgType::Integer => "integer"@,
            PgType::Int4 => "int4"@,
            PgType::Real => "real"@,
            PgType::Float4 => "float4"@,
            PgType::DoublePrecision => "double precision"@,
            PgType::Float8 => "float8"@,
            PgType::Interval => "interval"@,
            PgType::Lseg => "lseg"@,
            PgType::Name => "name"@,
            PgType::Oid => "oid"@,
            PgType::OidVector => "oidvector"@,
            PgType::Path => "path"@,
            PgType::Point => "point"@,
            PgType::RegProc => "regproc"@,
            PgType::RelativeTime => "reltime"@,
            PgType::Text => "text"@,
            PgType::ItemPointer => "tid"@,
            PgType::Time => "time"@,
            PgType::TimeWithTimeZone => "time with time zone"@,
            PgType::Timestamp => "timestamp"@,
            PgType::TimeInterval => "tinterval"@,
            PgType::VarChar => "varchar"@,
            PgType::Void => "void"@,
            PgType::TransactionId => "xid"@,
        }
    }

    /// The host type that stands for a guest type.
    pub fn from_rust<T: PgTypeInfo>() -> (r: PgType)
        ensures
            r == T::pg_type_spec(),
    {
        T::pg_type()
    }

    /// The SQL spelling of this type.
    pub fn as_str(self) -> (r: &'static str)
        ensures
            r@ == self.as_str_spec(),
    {
        match self {
            PgType::AbsoluteTime => "abstime",
            PgType::BigInt => "bigint",
            PgType::Int8 => "int8",
            PgType::Boolean => "boolean",
            PgType::GeoBox => "box",
            PgType::ByteA => "bytea",
            PgType::Char => "char",
            PgType::Character => "character",
            PgType::CommandId => "cid",
            PgType::Date => "date",
            PgType::SmallInt => "smallint",
            PgType::Int2 => "int2",
            PgType::Int2Vector => "int2vector",
            PgType::Integer => "integer",
            PgType::Int4 => "int4",
            PgType::Real => "real",
            PgType::Float4 => "float4",
            PgType::DoublePrecision => "double precision",
            PgType::Float8 => "float8",
            PgType::Interval => "interval",
            PgType::Lseg => "lseg",
            PgType::Name => "name",
            PgType::Oid => "oid",
            PgType::OidVector => "oidvector",
            PgType::Path => "path",
            PgType::Point => "point",
            PgType::RegProc => "regproc",
            PgType::RelativeTime => "reltime",
            PgType::Text => "text",
            PgType::ItemPointer => "tid",
            PgType::Time => "time",
            PgType::TimeWithTimeZone => "time with time zone",
            PgType::Timestamp => "timestamp",
            PgType::TimeInterval => "tinterval",
            PgType::VarChar => "varchar",
            PgType::Void => "void",
            PgType::TransactionId => "xid",
        }
    }

    /// The RETURNS clause declaring this type as a function's result.
    pub fn return_stmt(self) -> (r: String)
        ensures
            r@ == "RETURNS "@ + self.as_str_spec(),
    {
        String::from_str("RETURNS ").concat(self.as_str())
    }
}

/// The host-type information carried by a guest type.
pub trait PgTypeInfo {
    /// The host type this guest type marshals as.
    spec fn pg_type_spec() -> PgType;

    /// Whether an absent value is accepted for this type (a null argument
    /// maps to `None` instead of failing).
    spec fn is_option_spec() -> bool;

    /// The host type this guest type marshals as.
    fn pg_type() -> (r: PgType)
        ensures
            r == Self::pg_type_spec(),
    ;

    /// Whether this guest type is nullable-optional.
    fn is_option() -> (r: bool)
        ensures
            r == Self::is_option_spec(),
    ;
}

impl PgTypeInfo for i16 {
    open spec fn pg_type_spec() -> PgType {
        PgType::Int2
    }

    open spec fn is_option_spec() -> bool {
        false
    }

    fn pg_type() -> (r: PgType) {
        PgType::Int2
    }

    fn is_option() -> (r: bool) {
        false
    }
}

impl PgTypeInfo for i32 {
    open spec fn pg_type_spec() -> PgType {
        PgType::Int4
    }

    open spec fn is_option_spec() -> bool {
        false
    }

    fn pg_type() -> (r: PgType) {
        PgType::Int4
    }

    fn is_option() -> (r: bool) {
        false
    }
}

impl PgTypeInfo for i64 {
    open spec fn pg_type_spec() -> PgType {
        PgType::Int8
    }

    open spec fn is_option_spec() -> bool {
        false
    }

    fn pg_type() -> (r: PgType) {
        PgType::Int8
    }

    fn is_option() -> (r: bool) {
        false
    }
}

impl PgTypeInfo for String {
    open spec fn pg_type_spec() -> PgType {
        PgType::Text
    }

    open spec fn is_option_spec() -> bool {
        false
    }

    fn pg_type() -> (r: PgType) {
        PgType::Text
    }

    fn is_option() -> (r: bool) {
        false
    }
}

impl PgTypeInfo for () {
    open spec fn pg_type_spec() -> PgType {
        PgType::Void
    }

    open spec fn is_option_spec() -> bool {
        false
    }

    fn pg_type() -> (r: PgType) {
        PgType::Void
    }

    fn is_option() -> (r: bool) {
        false
    }
}

impl<T: PgTypeInfo> PgTypeInfo for Option<T> {
    open spec fn pg_type_spec() -> PgType {
        T::pg_type_spec()
    }

    open spec fn is_option_spec() -> bool {
        true
    }

    fn pg_type() -> (r: PgType) {
        T::pg_type()
    }

    fn is_option() -> (r: bool) {
        true
    }
}


/// The ASCII byte of a decimal digit.
pub open spec fn digit_byte(d: nat) -> u8
    recommends
        d < 10,
{
    (48 + d) as u8
}

/// The ASCII decimal representation of a number, most significant digit
/// first.
pub open spec fn decimal_bytes(n: nat) -> Seq<u8>
    decreases n,
{
    if n < 10 {
        seq![digit_byte(n)]
    } else {
        decimal_bytes(n / 10).push(digit_byte(n % 10))
    }
}

/// The decimal representation as characters.
pub open spec fn decimal_chars(n: nat) -> Seq<char> {
    decimal_bytes(n).map_values(|b: u8| b as char)
}

/// Decimal representations are plain ASCII, and byte-for-byte the UTF-8
/// encoding of their own characters.
proof fn lemma_decimal_ascii(n: nat)
    ensures
        vstd::utf8::is_ascii_chars(decimal_chars(n)),
        encode_utf8(decimal_chars(n)) == decimal_bytes(n),
        valid_utf8(decimal_bytes(n)),
        decode_utf8(decimal_bytes(n)) == decimal_chars(n),
    decreases n,
{
    let chars = decimal_chars(n);
    assert forall|i: int| 0 <= i < chars.len() implies '\0' <= #[trigger] chars[i]
        <= '\u{7f}' by {
        let b = decimal_bytes(n)[i];
        lemma_decimal_byte_range(n, i);
        assert(chars[i] == b as char);
        assert(b < 128 ==> '\0' <= (b as char) <= '\u{7f}');
    }
    assert(vstd::utf8::is_ascii_chars(chars));
    vstd::utf8::is_ascii_chars_encode_utf8(chars);
    assert forall|i: int| 0 <= i < chars.len() implies encode_utf8(chars)[i] == decimal_bytes(
        n,
    )[i] by {
        let b = decimal_bytes(n)[i];
        lemma_decimal_byte_range(n, i);
        assert(chars[i] == b as char);
        assert(b < 128 ==> (b as char) as u8 == b);
    }
    assert(encode_utf8(chars) =~= decimal_bytes(n));
    vstd::utf8::encode_utf8_valid_utf8(chars);
    vstd::utf8::encode_utf8_decode_utf8(chars);
}

/// Every byte of a decimal representation is an ASCII digit.
proof fn lemma_decimal_byte_range(n: nat, i: int)
    requires
        0 <= i < decimal_bytes(n).len(),
    ensures
        48 <= decimal_bytes(n)[i] <= 57,
    decreases n,
{
    if n < 10 {
    } else if i < decimal_bytes(n / 10).len() {
        lemma_decimal_byte_range(n / 10, i);
    }
}

/// Append the decimal digits of `n`.
fn push_decimal(n: usize, out: &mut Vec<u8>)
    ensures
        final(out)@ == old(out)@ + decimal_bytes(n as nat),
    decreases n,
{
    if n >= 10 {
        push_decimal(n / 10, out);
    }
    out.push(48 + (n % 10) as u8);
    proof {
        assert(out@ =~= old(out)@ + decimal_bytes(n as nat));
    }
}

/// The decimal spelling of a number.
pub fn usize_to_string(n: usize) -> (s: String)
    ensures
        s@ == decimal_chars(n as nat),
{
    let mut bytes: Vec<u8> = Vec::new();
    push_decimal(n, &mut bytes);
    proof {
        assert(bytes@ =~= decimal_bytes(n as nat));
        lemma_decimal_ascii(n as nat);
    }
    match crate::pg_datum::string_from_utf8(bytes) {
        Some(s) => s,
        None => unreached(),
    }
}

/// The placeholder for one argument slot of a generated function
/// declaration.
pub open spec fn param_placeholder(i: nat) -> Seq<char> {
    "{sql_"@ + decimal_chars(i) + "}"@
}

/// The comma-joined placeholder list for `n` argument slots.
pub open spec fn param_list_spec(n: nat) -> Seq<char>
    decreases n,
{
    if n == 0 {
        Seq::empty()
    } else if n == 1 {
        param_placeholder(0)
    } else {
        param_list_spec((n - 1) as nat) + ","@ + param_placeholder((n - 1) as nat)
    }
}

/// The argument-slot placeholder list of a generated function declaration:
/// one numbered placeholder per argument, comma-separated, empty for a
/// function of no arguments.
pub fn sql_param_list(num_args: usize) -> (r: String)
    ensures
        r@ == param_list_spec(num_args as nat),
{
    let mut out = String::new();
    if num_args == 0 {
        return out;
    }
    let mut i: usize = 0;
    while i < num_args
        invariant
            i <= num_args,
            out@ == (if i == 0 {
                Seq::<char>::empty()
            } else {
                param_list_spec(i as nat)
            }),
        decreases num_args - i,
    {
        if i > 0 {
            out.append(",");
        }
        out.append("{sql_");
        let digits = usize_to_string(i);
        out.append(digits.as_str());
        out.append("}");
        proof {
            assert(out@ =~= param_list_spec((i + 1) as nat));
        }
        i += 1;
    }
    out
}

/// The language options for a generated function declaration: `STRICT` when
/// no declared argument is nullable-optional (the host then skips the call
/// on any null argument and assumes a null result), nothing when every
/// argument is nullable-optional, and a rejection when the two are mixed in
/// one signature.
pub fn sql_function_options(optional_args: &Vec<bool>) -> (r: Result<&'static str, &'static str>)
    ensures
        optional_args@.len() == 0 ==> r == Ok::<&'static str, &'static str>(""),
        (forall|i: int| 0 <= i < optional_args@.len() ==> optional_args@[i])
            ==> (r matches Ok(s) && s@ == ""@),
        (optional_args@.len() > 0 && (forall|i: int|
            0 <= i < optional_args@.len() ==> !optional_args@[i])) ==> (r matches Ok(s) && s@
            == " STRICT"@),
        ((exists|i: int| 0 <= i < optional_args@.len() && optional_args@[i]) && (exists|i: int|
            0 <= i < optional_args@.len() && !optional_args@[i])) ==> r is Err,
{
    let n = optional_args.len();
    if n == 0 {
        return Ok("");
    }
    let mut any_opt = false;
    let mut all_opt = true;
    let mut i: usize = 0;
    while i < n
        invariant
            i <= n,
            n == optional_args@.len(),
            any_opt == exists|k: int| 0 <= k < i && optional_args@[k],
            all_opt == forall|k: int| 0 <= k < i ==> optional_args@[k],
        decreases n - i,
    {
        if optional_args[i] {
            any_opt = true;
        } else {
            all_opt = false;
        }
        i += 1;
    }
    if all_opt {
        proof {
            assert(optional_args@[0]);
        }
        Ok("")
    } else if !any_opt {
        Ok(" STRICT")
    } else {
        Err("Cannot mix Option and non-Option arguments.")
    }
}

} // verus!
