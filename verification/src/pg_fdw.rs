//! The foreign-table row protocol: exposing a guest row-producing sequence,
//! and optional row-mutating operations, through the host's foreign-table
//! callback surface.
//!
//! A scan runs Planning → Scan-Begin → Iterate* → Re-scan? → Scan-End; a
//! parallel Modify path runs Modify-Begin → {Insert | Update | Delete}* →
//! Modify-End. The host drives the callbacks; the decision logic for each
//! callback lives here, over explicit values, and is verified against the
//! traits' contracts.

use vstd::prelude::*;
use vstd::string::StringExecFns;

use crate::pg_datum::PgDatum;
use crate::pg_error::{Level, LogSink};
use crate::pg_guard::JumpContext;
use crate::pg_type::PgType;

verus! {

/// The value stored under `name` in a name-keyed entry list; when a name
/// was inserted more than once, the latest entry wins.
pub open spec fn kv_lookup<V>(s: Seq<(String, V)>, name: Seq<char>) -> Option<V>
    decreases s.len(),
{
    if s.len() == 0 {
        None
    } else if s.last().0@ == name {
        Some(s.last().1)
    } else {
        kv_lookup(s.drop_last(), name)
    }
}

/// A name is found exactly when some entry carries it.
pub proof fn lemma_kv_lookup_some<V>(s: Seq<(String, V)>, name: Seq<char>)
    ensures
        (kv_lookup(s, name) is Some) == exists|i: int| 0 <= i < s.len() && s[i].0@ == name,
    decreases s.len(),
{
    if s.len() > 0 {
        lemma_kv_lookup_some(s.drop_last(), name);
        if s.last().0@ == name {
            assert(s[s.len() - 1].0@ == name);
        } else if kv_lookup(s.drop_last(), name) is Some {
            let i = choose|i: int| 0 <= i < s.drop_last().len() && s.drop_last()[i].0@ == name;
            assert(s[i].0@ == name);
        } else if exists|i: int| 0 <= i < s.len() && s[i].0@ == name {
            let i = choose|i: int| 0 <= i < s.len() && s[i].0@ == name;
            assert(s.drop_last()[i].0@ == name);
        }
    }
}

/// A map from column names to opaque values, as a row or a mutation hands
/// it over. Entry order carries no meaning; lookup is name-keyed and the
/// latest entry for a name wins, so reinserting a name overrides it.
pub struct Tuple {
    /// The entries, in insertion order.
    pub entries: Vec<(String, PgDatum)>,
}

impl Tuple {
    /// The value stored under `name`, if any.
    pub open spec fn lookup(self, name: Seq<char>) -> Option<PgDatum> {
        kv_lookup(self.entries@, name)
    }

    /// An empty tuple.
    pub fn new() -> (r: Tuple)
        ensures
            r.entries@.len() == 0,
    {
        Tuple { entries: Vec::new() }
    }

    /// Store `datum` under `name`, overriding any earlier entry.
    pub fn insert(&mut self, name: String, datum: PgDatum)
        ensures
            final(self).entries@ == old(self).entries@.push((name, datum)),
            final(self).lookup(name@) == Some(datum),
            forall|other: Seq<char>|
                other != name@ ==> #[trigger] final(self).lookup(other) == old(self).lookup(
                    other,
                ),
    {
        let ghost pre = self.entries@;
        self.entries.push((name, datum));
        proof {
            assert(self.entries@.drop_last() =~= pre);
        }
    }

    /// The value stored under `name`, if any.
    pub fn get(&self, name: &str) -> (r: Option<PgDatum>)
        ensures
            r == self.lookup(name@),
    {
        let key = String::from_str(name);
        let n = self.entries.len();
        proof {
            assert(self.entries@.take(n as int) =~= self.entries@);
        }
        let mut i: usize = n;
        while i > 0
            invariant
                i <= n,
                n == self.entries@.len(),
                key@ == name@,
                self.lookup(name@) == kv_lookup(self.entries@.take(i as int), name@),
            decreases i,
        {
            i -= 1;
            if self.entries[i].0 == key {
                proof {
                    assert(self.entries@.take(i + 1).last() == self.entries@[i as int]);
                }
                return Some(self.entries[i].1);
            }
            proof {
                assert(self.entries@.take(i + 1).drop_last() =~= self.entries@.take(i as int));
            }
        }
        None
    }

    /// An entry-for-entry copy.
    pub fn duplicate(&self) -> (r: Tuple)
        ensures
            r.entries@ == self.entries@,
    {
        let n = self.entries.len();
        let mut entries: Vec<(String, PgDatum)> = Vec::new();
        let mut i: usize = 0;
        while i < n
            invariant
                i <= n,
                n == self.entries@.len(),
                entries@.len() == i,
                forall|k: int| 0 <= k < i ==> entries@[k] == #[trigger] self.entries@[k],
            decreases n - i,
        {
            let name = self.entries[i].0.clone();
            let datum = self.entries[i].1;
            entries.push((name, datum));
            i += 1;
        }
        proof {
            assert(entries@ =~= self.entries@);
        }
        Tuple { entries }
    }
}

/// The options passed for a server or a table when the wrapper was
/// declared; a name-keyed list of string settings.
pub struct OptionMap {
    /// The entries, in insertion order.
    pub entries: Vec<(String, String)>,
}

impl OptionMap {
    /// The setting stored under `name`, if any.
    pub open spec fn lookup(self, name: Seq<char>) -> Option<String> {
        kv_lookup(self.entries@, name)
    }

    /// An empty option map.
    pub fn new() -> (r: OptionMap)
        ensures
            r.entries@.len() == 0,
    {
        OptionMap { entries: Vec::new() }
    }

    /// Store `value` under `name`, overriding any earlier entry.
    pub fn insert(&mut self, name: String, value: String)
        ensures
            final(self).entries@ == old(self).entries@.push((name, value)),
    {
        self.entries.push((name, value));
    }
}

/// How an exec-level field result relates to a row's field specification:
/// equal content, with the error message compared by view.
pub open spec fn field_matches(
    r: Result<Option<PgDatum>, String>,
    s: Result<Option<PgDatum>, Seq<char>>,
) -> bool {
    match (r, s) {
        (Ok(a), Ok(b)) => a == b,
        (Err(m), Err(e)) => m@ == e,
        _ => false,
    }
}

/// One produced row. Columns can be asked for in any order and by any
/// name; a row answers each name with a value, a null, or a lookup error.
pub trait ForeignRow {
    /// What asking for each field name yields.
    spec fn field_spec(&self, name: Seq<char>) -> Result<Option<PgDatum>, Seq<char>>;

    /// Produce the named field's value. `None` is the way to return a
    /// null. The type and options are advisory; the returned value should
    /// match the column's type, but this is not enforced.
    fn get_field(&self, name: &str, typ: PgType, opts: &OptionMap) -> (r: Result<
        Option<PgDatum>,
        String,
    >)
        ensures
            field_matches(r, self.field_spec(name@)),
    ;
}

/// A row-producing session over a foreign table, with optional mutating
/// operations.
///
/// The session exists for the lifetime of one query. The required
/// capabilities are beginning a session, yielding rows and declaring index
/// columns; the mutating capabilities default — through the provided
/// `*_rel` specifications — to rejecting the operation with a fixed
/// message, which the wrapper reports at error severity.
pub trait ForeignData: Sized {
    /// The row type this session produces.
    type Row: ForeignRow;

    /// The rows this session will still yield, in order.
    spec fn remaining(&self) -> Seq<Self::Row>;

    /// The rows a fresh session yields for these options and this table
    /// name. Two sessions begun alike scan alike.
    spec fn initial_rows_spec(
        server_opts: OptionMap,
        table_opts: OptionMap,
        table_name: String,
    ) -> Seq<Self::Row>;

    /// Which answers `index_columns` may give for these options and this
    /// table name. By default a wrapper declares no index columns.
    open spec fn index_columns_rel(
        server_opts: OptionMap,
        table_opts: OptionMap,
        table_name: String,
        r: Option<Vec<String>>,
    ) -> bool {
        r is None
    }

    /// Which results are correct for `update`. By default the operation is
    /// rejected with a fixed message.
    open spec fn update_rel(
        &self,
        new_row: Tuple,
        indices: Tuple,
        r: Result<Option<Self::Row>, String>,
    ) -> bool {
        r matches Err(m) && m@ == "Table does not support update"@
    }

    /// Which results are correct for `insert`. By default the operation is
    /// rejected with a fixed message.
    open spec fn insert_rel(
        &self,
        new_row: Tuple,
        r: Result<Option<Self::Row>, String>,
    ) -> bool {
        r matches Err(m) && m@ == "Table does not support insert"@
    }

    /// Which results are correct for `delete`. By default the operation is
    /// rejected with a fixed message.
    open spec fn delete_rel(&self, indices: Tuple, r: Result<Option<Self::Row>, String>) -> bool {
        r matches Err(m) && m@ == "Table does not support delete"@
    }

    /// Which statement lists `schema` may emit. By default none.
    open spec fn schema_rel(
        server_opts: OptionMap,
        server_name: String,
        remote_schema: String,
        local_schema: String,
        r: Option<Vec<String>>,
    ) -> bool {
        r is None
    }

    /// Begin a session. Heavy setup should wait for the first row request.
    fn begin(server_opts: OptionMap, table_opts: OptionMap, table_name: String) -> (s: Self)
        ensures
            s.remaining() == Self::initial_rows_spec(server_opts, table_opts, table_name),
    ;

    /// The columns that must always be present in the tuples handed to
    /// `update` and `delete`, whatever the statement's own column list.
    fn index_columns(server_opts: OptionMap, table_opts: OptionMap, table_name: String) -> (r:
        Option<Vec<String>>)
        ensures
            Self::index_columns_rel(server_opts, table_opts, table_name, r),
    ;

    /// Yield the next row, or nothing once the sequence is exhausted.
    fn next(&mut self) -> (r: Option<Self::Row>)
        ensures
            old(self).remaining().len() == 0 ==> r is None && final(self).remaining() == old(self).remaining(),
            old(self).remaining().len() > 0 ==> r == Some(old(self).remaining().first())
                && final(self).remaining() == old(self).remaining().drop_first(),
    ;

    /// Apply an update. `new_row` maps column names to new values;
    /// `indices` is restricted to the declared index columns, which are
    /// always present in it whether or not the statement named them.
    /// Returns the updated row, or `None` when no update occurred.
    fn update(&self, new_row: &Tuple, indices: &Tuple) -> (r: Result<Option<Self::Row>, String>)
        ensures
            self.update_rel(*new_row, *indices, r),
    ;

    /// Apply an insert. Returns the inserted row, or `None` when no insert
    /// occurred.
    fn insert(&self, new_row: &Tuple) -> (r: Result<Option<Self::Row>, String>)
        ensures
            self.insert_rel(*new_row, r),
    ;

    /// Apply a delete, keyed by the declared index columns. Returns the
    /// deleted row, or `None` when no row was deleted.
    fn delete(&self, indices: &Tuple) -> (r: Result<Option<Self::Row>, String>)
        ensures
            self.delete_rel(*indices, r),
    ;

    /// The statements a schema import should run, one statement per
    /// element.
    fn schema(
        server_opts: OptionMap,
        server_name: String,
        remote_schema: String,
        local_schema: String,
    ) -> (r: Option<Vec<String>>)
        ensures
            Self::schema_rel(server_opts, server_name, remote_schema, local_schema, r),
    ;
}

/// A row backed by an in-memory tuple: each stored entry answers its own
/// name, and any other name is a lookup error.
pub struct MemRow {
    /// The row's named fields.
    pub fields: Tuple,
}

impl ForeignRow for MemRow {
    open spec fn field_spec(&self, name: Seq<char>) -> Result<Option<PgDatum>, Seq<char>> {
        match kv_lookup(self.fields.entries@, name) {
            Some(d) => Ok(Some(d)),
            None => Err("no such column"@),
        }
    }

    fn get_field(&self, name: &str, typ: PgType, opts: &OptionMap) -> (r: Result<
        Option<PgDatum>,
        String,
    >) {
        match self.fields.get(name) {
            Some(d) => Ok(Some(d)),
            None => Err(String::from_str("no such column")),
        }
    }
}

/// A session over a fixed in-memory row list, keyed by a column named
/// `key`: the simplest complete foreign table. A fresh session starts
/// empty; tests and embedding code fill `rows` directly. Mutations are
/// accepted and echo the affected row without changing the session, since
/// the session only lives for one statement.
pub struct MemTable {
    /// The rows still to be yielded, front first.
    pub rows: Vec<MemRow>,
}

impl ForeignData for MemTable {
    type Row = MemRow;

    open spec fn remaining(&self) -> Seq<MemRow> {
        self.rows@
    }

    open spec fn initial_rows_spec(
        server_opts: OptionMap,
        table_opts: OptionMap,
        table_name: String,
    ) -> Seq<MemRow> {
        Seq::empty()
    }

    open spec fn index_columns_rel(
        server_opts: OptionMap,
        table_opts: OptionMap,
        table_name: String,
        r: Option<Vec<String>>,
    ) -> bool {
        r matches Some(v) && v@.len() == 1 && v@[0]@ == "key"@
    }

    open spec fn update_rel(
        &self,
        new_row: Tuple,
        indices: Tuple,
        r: Result<Option<MemRow>, String>,
    ) -> bool {
        r matches Ok(Some(row)) && row.fields.entries@ == new_row.entries@
    }

    open spec fn insert_rel(&self, new_row: Tuple, r: Result<Option<MemRow>, String>) -> bool {
        r matches Ok(Some(row)) && row.fields.entries@ == new_row.entries@
    }

    open spec fn delete_rel(&self, indices: Tuple, r: Result<Option<MemRow>, String>) -> bool {
        r matches Ok(Some(row)) && row.fields.entries@ == indices.entries@
    }

    fn begin(server_opts: OptionMap, table_opts: OptionMap, table_name: String) -> (s: MemTable) {
        MemTable { rows: Vec::new() }
    }

    fn index_columns(server_opts: OptionMap, table_opts: OptionMap, table_name: String) -> (r:
        Option<Vec<String>>) {
        let mut cols: Vec<String> = Vec::new();
        cols.push(String::from_str("key"));
        Some(cols)
    }

    fn next(&mut self) -> (r: Option<MemRow>) {
        if self.rows.len() == 0 {
            None
        } else {
            Some(self.rows.remove(0))
        }
    }

    fn update(&self, new_row: &Tuple, indices: &Tuple) -> (r: Result<Option<MemRow>, String>) {
        Ok(Some(MemRow { fields: new_row.duplicate() }))
    }

    fn insert(&self, new_row: &Tuple) -> (r: Result<Option<MemRow>, String>) {
        Ok(Some(MemRow { fields: new_row.duplicate() }))
    }

    fn delete(&self, indices: &Tuple) -> (r: Result<Option<MemRow>, String>) {
        Ok(Some(MemRow { fields: indices.duplicate() }))
    }

    fn schema(
        server_opts: OptionMap,
        server_name: String,
        remote_schema: String,
        local_schema: String,
    ) -> (r: Option<Vec<String>>) {
        None
    }
}


/// The length of the prefix before the first nul byte; the whole sequence
/// when no nul occurs.
pub open spec fn nul_prefix_len(bytes: Seq<u8>) -> int
    decreases bytes.len(),
{
    if bytes.len() == 0 {
        0
    } else if bytes[0] == 0 {
        0
    } else {
        1 + nul_prefix_len(bytes.drop_first())
    }
}

/// The prefix before the first nul byte.
pub open spec fn nul_prefix(bytes: Seq<u8>) -> Seq<u8> {
    bytes.take(nul_prefix_len(bytes))
}

/// The prefix ends exactly at the first nul byte.
proof fn lemma_nul_prefix_at(bytes: Seq<u8>, i: int)
    requires
        0 <= i <= bytes.len(),
        forall|k: int| 0 <= k < i ==> bytes[k] != 0,
        i == bytes.len() || bytes[i] == 0,
    ensures
        nul_prefix_len(bytes) == i,
    decreases bytes.len(),
{
    if bytes.len() > 0 && bytes[0] != 0 {
        let rest = bytes.drop_first();
        assert forall|k: int| 0 <= k < i - 1 implies rest[k] != 0 by {
            assert(rest[k] == bytes[k + 1]);
        }
        if i < bytes.len() {
            assert(rest[i - 1] == bytes[i]);
        }
        lemma_nul_prefix_at(rest, i - 1);
    }
}

/// Decode a fixed-width identifier as the host's catalogs store it: the
/// bytes before the first nul, read as UTF-8. An identifier that is not
/// valid UTF-8 is reported at error severity, which aborts the statement.
pub fn name_to_string(sink: &mut LogSink, attname: &Vec<u8>) -> (r: Result<String, JumpContext>)
    ensures
        final(sink).extends(*old(sink)),
        r matches Ok(s) ==> vstd::utf8::valid_utf8(nul_prefix(attname@)) && s@
            == vstd::utf8::decode_utf8(nul_prefix(attname@)),
        r is Err ==> !vstd::utf8::valid_utf8(nul_prefix(attname@))
            && final(sink).records@.len() > old(sink).records@.len()
            && final(sink).records@.last().level == Level::Error,
{
    let n = attname.len();
    let mut i: usize = 0;
    while i < n && attname[i] != 0
        invariant
            i <= n,
            n == attname@.len(),
            forall|k: int| 0 <= k < i ==> attname@[k] != 0,
        decreases n - i,
    {
        i += 1;
    }
    proof {
        lemma_nul_prefix_at(attname@, i as int);
    }
    let mut prefix: Vec<u8> = Vec::new();
    let mut j: usize = 0;
    while j < i
        invariant
            j <= i,
            i <= attname@.len(),
            prefix@.len() == j,
            forall|k: int| 0 <= k < j ==> prefix@[k] == attname@[k],
        decreases i - j,
    {
        prefix.push(attname[j]);
        j += 1;
    }
    proof {
        assert(prefix@ =~= nul_prefix(attname@));
    }
    match crate::pg_datum::string_from_utf8(prefix) {
        Some(s) => Ok(s),
        None => {
            let jump = crate::pg_error::log(
                sink,
                Level::Error,
                "pg_fdw",
                0,
                "name_to_string",
                "identifier is not valid UTF-8",
            );
            match jump {
                Some(j) => Err(j),
                None => unreached(),
            }
        },
    }
}

/// One output slot of a scan: cleared (the end-of-data signal) or holding
/// one value per column of the table's current attribute list.
pub enum TupleSlot {
    /// No row: the host treats this as end of scan.
    Cleared,
    /// One produced row, as per-column values; a null value stands where
    /// the row had no value for the column.
    Stored(Vec<PgDatum>),
}

impl View for TupleSlot {
    type V = Option<Seq<PgDatum>>;

    open spec fn view(&self) -> Option<Seq<PgDatum>> {
        match self {
            TupleSlot::Cleared => None,
            TupleSlot::Stored(vals) => Some(vals@),
        }
    }
}

/// The slot value a field answer produces: the value itself for a present
/// field, and a null for an absent field or a failed lookup.
pub open spec fn field_to_datum(f: Result<Option<PgDatum>, Seq<char>>) -> PgDatum {
    match f {
        Ok(Some(d)) => d,
        Ok(None) => PgDatum(None),
        Err(_) => PgDatum(None),
    }
}

/// The per-column slot values a row yields for an attribute list.
pub open spec fn slot_values_spec<R: ForeignRow>(row: R, attrs: Seq<String>) -> Seq<PgDatum> {
    Seq::new(attrs.len(), |i: int| field_to_datum(row.field_spec(attrs[i]@)))
}

/// The whole output of scanning a row sequence to the end: one stored slot
/// per row, then one cleared slot.
pub open spec fn scan_outputs<R: ForeignRow>(rows: Seq<R>, attrs: Seq<String>) -> Seq<
    Option<Seq<PgDatum>>,
>
    decreases rows.len(),
{
    if rows.len() == 0 {
        seq![Option::<Seq<PgDatum>>::None]
    } else {
        seq![Some(slot_values_spec(rows.first(), attrs))] + scan_outputs(rows.drop_first(), attrs)
    }
}

/// A scan over a finite sequence of N rows yields exactly N populated
/// slots and then one cleared slot, each populated slot one value per
/// attribute — and nothing else, whichever session produces it.
pub proof fn lemma_scan_outputs_shape<R: ForeignRow>(rows: Seq<R>, attrs: Seq<String>)
    ensures
        scan_outputs(rows, attrs).len() == rows.len() + 1,
        scan_outputs(rows, attrs).last() is None,
        forall|i: int|
            0 <= i < rows.len() ==> #[trigger] scan_outputs(rows, attrs)[i] == Some(
                slot_values_spec(rows[i], attrs),
            ),
    decreases rows.len(),
{
    if rows.len() > 0 {
        lemma_scan_outputs_shape(rows.drop_first(), attrs);
        assert forall|i: int| 0 <= i < rows.len() implies #[trigger] scan_outputs(rows, attrs)[i]
            == Some(slot_values_spec(rows[i], attrs)) by {
            if i > 0 {
                assert(scan_outputs(rows, attrs)[i] == scan_outputs(rows.drop_first(), attrs)[i
                    - 1]);
                assert(rows.drop_first()[i - 1] == rows[i]);
            }
        }
    }
}

/// A synthesized or original entry of a query's target list.
pub struct TargetEntry {
    /// The produced column's name.
    pub name: String,
    /// The entry's position in the target list, starting at 1.
    pub resno: usize,
    /// The referenced table column, starting at 1.
    pub col_idx: usize,
    /// True for entries that exist only for the executor's bookkeeping —
    /// such as injected key columns — and are not part of the visible
    /// result.
    pub junk: bool,
}

/// The parts of a parsed statement the key-column injection works on.
pub struct Query {
    /// The index of the statement's result relation.
    pub result_relation: u32,
    /// The statement's target list.
    pub target_list: Vec<TargetEntry>,
}

/// Whether a target list has an entry producing `name`.
pub open spec fn tl_has_name(tl: Seq<TargetEntry>, name: Seq<char>) -> bool {
    exists|i: int| 0 <= i < tl.len() && tl[i].name@ == name
}

/// Whether a name list contains `name`.
pub open spec fn names_have(names: Seq<String>, name: Seq<char>) -> bool {
    exists|i: int| 0 <= i < names.len() && names[i]@ == name
}

/// What a synthesized key-column entry must look like: hidden, carrying
/// its own 1-based position in the target list as `resno`, and referencing
/// (1-based, via `col_idx`) a table column that carries the entry's own
/// name — the column reference through which the host's executor fetches
/// the key's value into the plan slot.
pub open spec fn injected_entry_ok(e: TargetEntry, pos: int, attrs: Seq<String>) -> bool {
    &&& e.junk
    &&& e.resno == pos + 1
    &&& 1 <= e.col_idx <= attrs.len()
    &&& attrs[e.col_idx - 1]@ == e.name@
}

/// Find a name in a name list.
fn find_name(names: &Vec<String>, name: &String) -> (r: Option<usize>)
    ensures
        r matches Some(i) ==> i < names@.len() && names@[i as int]@ == name@,
        r is None ==> !names_have(names@, name@),
{
    let n = names.len();
    let mut i: usize = 0;
    while i < n
        invariant
            i <= n,
            n == names@.len(),
            forall|k: int| 0 <= k < i ==> names@[k]@ != name@,
        decreases n - i,
    {
        if names[i] == *name {
            return Some(i);
        }
        i += 1;
    }
    None
}

/// Find an entry producing `name` in a target list.
fn tl_find(tl: &Vec<TargetEntry>, name: &String) -> (r: Option<usize>)
    ensures
        r matches Some(i) ==> i < tl@.len() && tl@[i as int].name@ == name@,
        r is None ==> !tl_has_name(tl@, name@),
{
    let n = tl.len();
    let mut i: usize = 0;
    while i < n
        invariant
            i <= n,
            n == tl@.len(),
            forall|k: int| 0 <= k < tl@.len() && k < i ==> (#[trigger] tl@[k]).name@ != name@,
        decreases n - i,
    {
        if tl[i].name == *name {
            return Some(i);
        }
        i += 1;
    }
    None
}

/// Inject the declared key columns into a statement's target list: for
/// each declared column absent from the statement's existing projection, a
/// hidden (junk) entry referencing the table column is appended, so that
/// update and delete always receive key values whatever the statement's
/// original column list.
///
/// A declared column the table does not have is reported at error severity
/// and aborts the statement.
pub fn inject_key_columns(
    parsetree: &mut Query,
    target_attrs: &Vec<String>,
    keys: &Option<Vec<String>>,
    sink: &mut LogSink,
) -> (r: Result<(), JumpContext>)
    ensures
        final(sink).extends(*old(sink)),
        final(parsetree).result_relation == old(parsetree).result_relation,
        final(parsetree).target_list@.len() >= old(parsetree).target_list@.len(),
        forall|i: int|
            0 <= i < old(parsetree).target_list@.len() ==> final(parsetree).target_list@[i]
                == #[trigger] old(parsetree).target_list@[i],
        forall|i: int|
            old(parsetree).target_list@.len() <= i < final(parsetree).target_list@.len()
                ==> injected_entry_ok(
                #[trigger] final(parsetree).target_list@[i],
                i,
                target_attrs@,
            ),
        keys is None ==> r is Ok && final(parsetree).target_list@ == old(parsetree).target_list@,
        keys matches Some(ks) ==> ((r is Ok) == (forall|i: int|
            0 <= i < ks@.len() ==> names_have(target_attrs@, #[trigger] ks@[i]@))),
        keys matches Some(ks) ==> (r is Ok ==> forall|i: int|
            0 <= i < ks@.len() ==> tl_has_name(final(parsetree).target_list@, #[trigger] ks@[i]@)),
        r is Err ==> final(sink).records@.len() > old(sink).records@.len() && final(sink).records@.last().level == Level::Error,
{
    let ks = match keys {
        Some(ks) => ks,
        None => {
            return Ok(());
        },
    };
    let n = ks.len();
    let mut k: usize = 0;
    while k < n
        invariant
            keys matches Some(kv) && kv == ks,
            k <= n,
            n == ks@.len(),
            sink.extends(*old(sink)),
            parsetree.result_relation == old(parsetree).result_relation,
            parsetree.target_list@.len() >= old(parsetree).target_list@.len(),
            forall|i: int|
                0 <= i < old(parsetree).target_list@.len() ==> parsetree.target_list@[i]
                    == #[trigger] old(parsetree).target_list@[i],
            forall|i: int|
                old(parsetree).target_list@.len() <= i < parsetree.target_list@.len()
                    ==> injected_entry_ok(
                    #[trigger] parsetree.target_list@[i],
                    i,
                    target_attrs@,
                ),
            forall|i: int| 0 <= i < k ==> names_have(target_attrs@, #[trigger] ks@[i]@),
            forall|i: int|
                0 <= i < k ==> tl_has_name(parsetree.target_list@, #[trigger] ks@[i]@),
        decreases n - k,
    {
        let key = &ks[k];
        // Materialize the attribute count so the 1-indexed column
        // reference below is known to fit.
        let attr_count = target_attrs.len();
        let idx = match find_name(target_attrs, key) {
            Some(idx) => idx,
            None => {
                let ghost pre_sink = *sink;
                let jump = crate::pg_error::log(
                    sink,
                    Level::Error,
                    "pg_fdw",
                    0,
                    "inject_key_columns",
                    "Table has no such key",
                );
                proof {
                    crate::pg_error::lemma_extends_transitive(*old(sink), pre_sink, *sink);
                    assert(!names_have(target_attrs@, ks@[k as int]@));
                }
                let jump = match jump {
                    Some(j) => j,
                    None => unreached(),
                };
                return Err(jump);
            },
        };
        let ghost pre_tl = parsetree.target_list@;
        match tl_find(&parsetree.target_list, key) {
            Some(found) => {
                proof {
                    assert(parsetree.target_list@[found as int].name@ == key@);
                }
            },
            None => {
                let len = parsetree.target_list.len();
                // The position is 1-indexed. A list can never actually be
                // at the address-space maximum, but that is only known
                // once the push has gone through; until then the
                // increment is guarded rather than wrapped.
                let resno = if len < usize::MAX {
                    len + 1
                } else {
                    len
                };
                parsetree.target_list.push(
                    TargetEntry { name: key.clone(), resno, col_idx: idx + 1, junk: true },
                );
                let new_len = parsetree.target_list.len();
                proof {
                    assert(new_len == len + 1);
                    assert(resno == len + 1);
                    assert(parsetree.target_list@.last().name@ == key@);
                    assert(injected_entry_ok(
                        parsetree.target_list@.last(),
                        len as int,
                        target_attrs@,
                    ));
                }
            },
        }
        proof {
            assert(tl_has_name(parsetree.target_list@, key@));
            assert forall|i: int| 0 <= i < k + 1 implies tl_has_name(
                parsetree.target_list@,
                #[trigger] ks@[i]@,
            ) by {
                if i < k {
                    assert(tl_has_name(pre_tl, ks@[i]@));
                    let w = choose|w: int| 0 <= w < pre_tl.len() && pre_tl[w].name@ == ks@[i]@;
                    assert(parsetree.target_list@[w].name@ == ks@[i]@);
                }
            }
        }
        k += 1;
    }
    Ok(())
}

/// A value that lookup finds belongs to some entry carrying the name.
pub proof fn lemma_kv_lookup_found<V>(s: Seq<(String, V)>, name: Seq<char>)
    ensures
        kv_lookup(s, name) matches Some(v) ==> exists|j: int|
            0 <= j < s.len() && (#[trigger] s[j]).0@ == name && s[j].1 == v,
    decreases s.len(),
{
    if s.len() > 0 {
        if s.last().0@ == name {
            assert(s[s.len() - 1].0@ == name);
        } else {
            lemma_kv_lookup_found(s.drop_last(), name);
            if kv_lookup(s, name) is Some {
                let v = kv_lookup(s, name).unwrap();
                let j = choose|j: int|
                    0 <= j < s.drop_last().len() && (#[trigger] s.drop_last()[j]).0@ == name
                        && s.drop_last()[j].1 == v;
                assert(s[j].0@ == name && s[j].1 == v);
            }
        }
    }
}

/// Key values reach every mutation: when the (injected) target list has an
/// entry named after the key that references one of the key's table
/// columns, and the host populates the plan slot with one column per
/// target entry — named after the entry and valued from the table column
/// the entry references — then the tuple assembled from that slot binds
/// the key's name to a key column's value, whatever the statement's
/// original column list.
pub proof fn lemma_key_column_reaches_update(
    tl: Seq<TargetEntry>,
    attrs: Seq<String>,
    row: Seq<PgDatum>,
    entries: Seq<(String, PgDatum)>,
    key: Seq<char>,
)
    requires
        exists|i: int| 0 <= i < tl.len() && (#[trigger] tl[i]).name@ == key,
        forall|i: int|
            0 <= i < tl.len() && (#[trigger] tl[i]).name@ == key ==> 1 <= tl[i].col_idx
                <= attrs.len() && attrs[tl[i].col_idx - 1]@ == key,
        row.len() == attrs.len(),
        entries.len() == tl.len(),
        forall|i: int| 0 <= i < tl.len() ==> (#[trigger] entries[i]).0@ == tl[i].name@,
        forall|i: int|
            0 <= i < tl.len() && 1 <= tl[i].col_idx <= attrs.len() ==> (#[trigger] entries[
            i]).1 == row[tl[i].col_idx - 1],
    ensures
        exists|c: int|
            0 <= c < attrs.len() && (#[trigger] attrs[c])@ == key && kv_lookup(entries, key)
                == Some(row[c]),
{
    let i = choose|i: int| 0 <= i < tl.len() && (#[trigger] tl[i]).name@ == key;
    assert(entries[i].0@ == key);
    lemma_kv_lookup_some(entries, key);
    lemma_kv_lookup_found(entries, key);
    let v = kv_lookup(entries, key).unwrap();
    let j = choose|j: int|
        0 <= j < entries.len() && (#[trigger] entries[j]).0@ == key && entries[j].1 == v;
    assert(tl[j].name@ == key);
    let c = tl[j].col_idx - 1;
    assert(attrs[c]@ == key && entries[j].1 == row[c]);
}

/// The estimates and costs of planning a scan over a foreign table.
pub struct PathCosts {
    /// The estimated row count.
    pub rows: u64,
    /// The estimated startup cost, in the host's cost units.
    pub startup_cost: u64,
    /// The estimated total cost, in the host's cost units.
    pub total_cost: u64,
}

/// The scan plan assembled for the executor: which relation to scan, what
/// to produce, and which clauses to recheck.
pub struct ForeignScanPlan {
    /// The relation being scanned.
    pub scan_relid: u32,
    /// The plan's target list.
    pub tlist: Vec<TargetEntry>,
    /// The actual clauses, passed through for the executor.
    pub quals: Vec<u64>,
}

/// Which callback slots of the host's foreign-data-wrapper routine table
/// are populated. The host's struct is a fixed shape of function pointers;
/// here each slot is recorded as present or absent.
pub struct FdwRoutine {
    /// Relation-size estimation.
    pub get_foreign_rel_size: bool,
    /// Access-path creation.
    pub get_foreign_paths: bool,
    /// Plan-node creation.
    pub get_foreign_plan: bool,
    /// Scan start.
    pub begin_foreign_scan: bool,
    /// Row production.
    pub iterate_foreign_scan: bool,
    /// Scan restart.
    pub rescan_foreign_scan: bool,
    /// Scan teardown.
    pub end_foreign_scan: bool,
    /// Join pushdown.
    pub get_foreign_join_paths: bool,
    /// Upper-relation pushdown.
    pub get_foreign_upper_paths: bool,
    /// Key-column injection for updates and deletes.
    pub add_foreign_update_targets: bool,
    /// Modify planning.
    pub plan_foreign_modify: bool,
    /// Modify start.
    pub begin_foreign_modify: bool,
    /// Row insertion.
    pub exec_foreign_insert: bool,
    /// Row update.
    pub exec_foreign_update: bool,
    /// Row deletion.
    pub exec_foreign_delete: bool,
    /// Modify teardown.
    pub end_foreign_modify: bool,
    /// Updatability report.
    pub is_foreign_rel_updatable: bool,
    /// Direct-modify planning.
    pub plan_direct_modify: bool,
    /// Direct-modify start.
    pub begin_direct_modify: bool,
    /// Direct-modify row production.
    pub iterate_direct_modify: bool,
    /// Direct-modify teardown.
    pub end_direct_modify: bool,
    /// Row-mark selection.
    pub get_foreign_row_mark_type: bool,
    /// Row refetch.
    pub refetch_foreign_row: bool,
    /// Scan recheck.
    pub recheck_foreign_scan: bool,
    /// Scan explanation.
    pub explain_foreign_scan: bool,
    /// Modify explanation.
    pub explain_foreign_modify: bool,
    /// Direct-modify explanation.
    pub explain_direct_modify: bool,
    /// Table analysis.
    pub analyze_foreign_table: bool,
    /// Schema import.
    pub import_foreign_schema: bool,
    /// Parallel-safety report.
    pub is_foreign_scan_parallel_safe: bool,
    /// Parallel-scan size estimation.
    pub estimate_dsm_foreign_scan: bool,
    /// Parallel-scan state setup.
    pub initialize_dsm_foreign_scan: bool,
    /// Parallel-worker state setup.
    pub initialize_worker_foreign_scan: bool,
}

/// The low-level glue between one session type and the host's callback
/// surface. The host drives these methods; embedding code does not call
/// them directly.
pub struct ForeignWrapper<T: ForeignData> {
    /// The guest session state.
    pub state: T,
}

impl<T: ForeignData> ForeignWrapper<T> {
    /// The planner's relation-size estimate for a foreign table: no
    /// statistics exist, so the estimate is zero rows.
    pub fn get_foreign_rel_size() -> (rows: u64)
        ensures
            rows == 0,
    {
        0
    }

    /// The single access path offered for a scan, with its fixed cost
    /// estimates.
    pub fn get_foreign_paths(rows: u64) -> (r: PathCosts)
        ensures
            r.rows == rows,
            r.startup_cost == 10,
            r.total_cost == 0,
    {
        PathCosts { rows, startup_cost: 10, total_cost: 0 }
    }

    /// Assemble the scan plan node: the relation, the target list, and the
    /// actual clauses both as plan quals and as recheck quals.
    pub fn get_foreign_plan(scan_relid: u32, tlist: Vec<TargetEntry>, scan_clauses: Vec<u64>) -> (r:
        ForeignScanPlan)
        ensures
            r.scan_relid == scan_relid,
            r.tlist == tlist,
            r.quals == scan_clauses,
    {
        ForeignScanPlan { scan_relid, tlist, quals: scan_clauses }
    }

    /// Begin a scan: construct the session from the server options, the
    /// table options and the resolved table name.
    pub fn begin_foreign_scan(
        server_opts: OptionMap,
        table_opts: OptionMap,
        table_name: String,
    ) -> (r: ForeignWrapper<T>)
        ensures
            r.state.remaining() == T::initial_rows_spec(server_opts, table_opts, table_name),
    {
        ForeignWrapper { state: T::begin(server_opts, table_opts, table_name) }
    }

    /// Ask a row for one named column, with the advisory type and options
    /// the current callback surface supplies.
    pub fn get_field(attr_name: &str, row: &T::Row) -> (r: Result<Option<PgDatum>, String>)
        ensures
            field_matches(r, row.field_spec(attr_name@)),
    {
        let opts = OptionMap::new();
        row.get_field(attr_name, PgType::Text, &opts)
    }

    /// Assemble a name-keyed tuple from a populated slot: one entry per
    /// column the slot holds, in column order, so that a repeated column
    /// name keeps its last value.
    pub fn tts_to_hashmap(
        attrs: &Vec<String>,
        values: &Vec<u64>,
        isnull: &Vec<bool>,
        nvalid: usize,
    ) -> (r: Tuple)
        requires
            nvalid <= values@.len(),
            nvalid <= isnull@.len(),
            nvalid <= attrs@.len(),
        ensures
            r.entries@.len() == nvalid,
            forall|i: int|
                0 <= i < nvalid ==> (#[trigger] r.entries@[i]).0 == attrs@[i]
                    && r.entries@[i].1@ == (if isnull@[i] {
                    Option::<u64>::None
                } else {
                    Some(values@[i])
                }),
    {
        let mut t = Tuple::new();
        let mut i: usize = 0;
        while i < nvalid
            invariant
                i <= nvalid,
                nvalid <= values@.len(),
                nvalid <= isnull@.len(),
                nvalid <= attrs@.len(),
                t.entries@.len() == i,
                forall|k: int|
                    0 <= k < i ==> (#[trigger] t.entries@[k]).0 == attrs@[k]
                        && t.entries@[k].1@ == (if isnull@[k] {
                        Option::<u64>::None
                    } else {
                        Some(values@[k])
                    }),
            decreases nvalid - i,
        {
            let name = attrs[i].clone();
            let datum = PgDatum::from_raw(values[i], isnull[i]);
            t.insert(name, datum);
            i += 1;
        }
        t
    }

    /// Produce the next row into an output slot, or clear the slot to
    /// signal end of data.
    ///
    /// The attribute list is the table's current one, queried fresh for
    /// each call rather than cached, to tolerate schema lookups. Every
    /// column is asked of the row by name; a failed lookup is logged at
    /// warning severity and leaves that column null — it does not fail the
    /// row.
    pub fn iterate_foreign_scan(&mut self, attrs: &Vec<String>, sink: &mut LogSink) -> (slot:
        TupleSlot)
        ensures
            final(sink).extends(*old(sink)),
            forall|i: int|
                old(sink).records@.len() <= i < final(sink).records@.len()
                    ==> (#[trigger] final(sink).records@[i]).level == Level::Warning,
            old(self).state.remaining().len() == 0 ==> slot is Cleared && final(self).state.remaining() == old(self).state.remaining(),
            old(self).state.remaining().len() > 0 ==> slot@ == Some(
                slot_values_spec(old(self).state.remaining().first(), attrs@),
            ) && final(self).state.remaining() == old(self).state.remaining().drop_first(),
    {
        let row = match self.state.next() {
            Some(row) => row,
            None => {
                return TupleSlot::Cleared;
            },
        };
        let n = attrs.len();
        let mut vals: Vec<PgDatum> = Vec::new();
        let mut i: usize = 0;
        while i < n
            invariant
                i <= n,
                n == attrs@.len(),
                vals@.len() == i,
                sink.extends(*old(sink)),
                forall|k: int|
                    old(sink).records@.len() <= k < sink.records@.len()
                        ==> (#[trigger] sink.records@[k]).level == Level::Warning,
                forall|k: int|
                    0 <= k < i ==> vals@[k] == field_to_datum(
                        #[trigger] row.field_spec(attrs@[k]@),
                    ),
            decreases n - i,
        {
            match Self::get_field(attrs[i].as_str(), &row) {
                Ok(Some(d)) => {
                    vals.push(d);
                },
                Ok(None) => {
                    vals.push(PgDatum(None));
                },
                Err(err) => {
                    let ghost pre_sink = *sink;
                    crate::pg_error::log(
                        sink,
                        Level::Warning,
                        "pg_fdw",
                        0,
                        "get_field",
                        err.as_str(),
                    );
                    proof {
                        crate::pg_error::lemma_extends_transitive(*old(sink), pre_sink, *sink);
                        assert forall|k2: int|
                            old(sink).records@.len() <= k2 < sink.records@.len() implies (
                        #[trigger] sink.records@[k2]).level == Level::Warning by {
                            if k2 < pre_sink.records@.len() {
                                assert(sink.records@[k2] == pre_sink.records@[k2]);
                            } else {
                                assert(k2 == sink.records@.len() - 1);
                            }
                        }
                    }
                    vals.push(PgDatum(None));
                },
            }
            i += 1;
        }
        proof {
            assert(vals@ =~= slot_values_spec(old(self).state.remaining().first(), attrs@));
        }
        TupleSlot::Stored(vals)
    }

    /// Scan to the end: every remaining row as a stored slot, then the
    /// cleared slot. The whole output is a function of the session's
    /// remaining rows and the attribute list alone, so two sessions begun
    /// alike produce identical outputs.
    pub fn run_scan(&mut self, attrs: &Vec<String>, sink: &mut LogSink) -> (slots: Vec<TupleSlot>)
        ensures
            final(sink).extends(*old(sink)),
            slots@.map_values(|s: TupleSlot| s@) == scan_outputs(
                old(self).state.remaining(),
                attrs@,
            ),
            final(self).state.remaining().len() == 0,
    {
        let ghost orig = self.state.remaining();
        let mut slots: Vec<TupleSlot> = Vec::new();
        loop
            invariant
                orig == old(self).state.remaining(),
                sink.extends(*old(sink)),
                scan_outputs(orig, attrs@) == slots@.map_values(|s: TupleSlot| s@)
                    + scan_outputs(self.state.remaining(), attrs@),
                forall|i: int| 0 <= i < slots@.len() ==> (#[trigger] slots@[i])@ is Some,
            decreases self.state.remaining().len(),
        {
            let ghost pre_rem = self.state.remaining();
            let ghost pre_slots = slots@;
            let ghost pre_sink = *sink;
            let slot = self.iterate_foreign_scan(attrs, sink);
            proof {
                crate::pg_error::lemma_extends_transitive(*old(sink), pre_sink, *sink);
            }
            match slot {
                TupleSlot::Cleared => {
                    slots.push(TupleSlot::Cleared);
                    proof {
                        assert(slots@.map_values(|s: TupleSlot| s@) =~= pre_slots.map_values(
                            |s: TupleSlot| s@,
                        ).push(None));
                        assert(scan_outputs(pre_rem, attrs@) =~= seq![
                            Option::<Seq<PgDatum>>::None,
                        ]);
                        assert(scan_outputs(orig, attrs@) =~= slots@.map_values(
                            |s: TupleSlot| s@,
                        ));
                    }
                    return slots;
                },
                TupleSlot::Stored(vals) => {
                    slots.push(TupleSlot::Stored(vals));
                    proof {
                        assert(slots@.map_values(|s: TupleSlot| s@) =~= pre_slots.map_values(
                            |s: TupleSlot| s@,
                        ).push(slots@.last()@));
                        assert(scan_outputs(pre_rem, attrs@) =~= seq![
                            Some(slot_values_spec(pre_rem.first(), attrs@)),
                        ] + scan_outputs(self.state.remaining(), attrs@));
                        assert(scan_outputs(orig, attrs@) =~= slots@.map_values(|s: TupleSlot| s@)
                            + scan_outputs(self.state.remaining(), attrs@));
                    }
                },
            }
        }
    }

    /// Restart the scan from the beginning.
    ///
    /// Known gap, kept visible rather than silently papered over: this
    /// callback does not actually reset the iteration position, so a scan
    /// restarted through it continues where it stopped. An independent
    /// scan needs a freshly begun session.
    pub fn rescan_foreign_scan(&mut self)
        ensures
            *final(self) == *old(self),
    {
    }

    /// End the scan and release the session.
    pub fn end_foreign_scan(self) {
    }

    /// Register the declared key columns of the target table in the
    /// statement's target list, so that update and delete receive them.
    pub fn add_foreign_update_targets(
        parsetree: &mut Query,
        target_attrs: &Vec<String>,
        server_opts: OptionMap,
        table_opts: OptionMap,
        table_name: String,
        sink: &mut LogSink,
    ) -> (r: Result<(), JumpContext>)
        ensures
            final(sink).extends(*old(sink)),
            final(parsetree).result_relation == old(parsetree).result_relation,
            forall|i: int|
                0 <= i < old(parsetree).target_list@.len() ==> final(parsetree).target_list@[i]
                    == #[trigger] old(parsetree).target_list@[i],
            forall|i: int|
                old(parsetree).target_list@.len() <= i < final(parsetree).target_list@.len()
                    ==> injected_entry_ok(
                    #[trigger] final(parsetree).target_list@[i],
                    i,
                    target_attrs@,
                ),
            exists|keys: Option<Vec<String>>|
                {
                    &&& #[trigger] T::index_columns_rel(
                        server_opts,
                        table_opts,
                        table_name,
                        keys,
                    )
                    &&& (keys matches Some(ks) ==> (r is Ok ==> forall|i: int|
                        0 <= i < ks@.len() ==> tl_has_name(
                            final(parsetree).target_list@,
                            #[trigger] ks@[i]@,
                        )))
                    &&& (keys matches Some(ks) ==> ((r is Ok) == (forall|i: int|
                        0 <= i < ks@.len() ==> names_have(target_attrs@, #[trigger] ks@[i]@))))
                    &&& (keys is None ==> r is Ok)
                },
    {
        let keys = T::index_columns(server_opts, table_opts, table_name);
        inject_key_columns(parsetree, target_attrs, &keys, sink)
    }

    /// Begin a modify pass: the same session construction as a scan, keyed
    /// off the target relation.
    pub fn begin_foreign_modify(
        server_opts: OptionMap,
        table_opts: OptionMap,
        table_name: String,
    ) -> (r: ForeignWrapper<T>)
        ensures
            r.state.remaining() == T::initial_rows_spec(server_opts, table_opts, table_name),
    {
        ForeignWrapper { state: T::begin(server_opts, table_opts, table_name) }
    }

    /// Apply one update: the new row from the statement's slot, and the
    /// index tuple from the plan slot. A session that rejects updates has
    /// the rejection reported at error severity, which aborts the
    /// statement.
    pub fn exec_foreign_update(&self, new_row: &Tuple, indices: &Tuple, sink: &mut LogSink) -> (r:
        Result<Option<T::Row>, JumpContext>)
        ensures
            final(sink).extends(*old(sink)),
            r matches Ok(o) ==> self.state.update_rel(*new_row, *indices, Ok(o)),
            r is Err ==> (exists|m: String|
                self.state.update_rel(*new_row, *indices, Err(m)) && final(sink).records@.last().msg@ == m@) && final(sink).records@.last().level == Level::Error
                && final(sink).records@.len() > old(sink).records@.len(),
    {
        match self.state.update(new_row, indices) {
            Ok(o) => Ok(o),
            Err(m) => {
                let jump = crate::pg_error::log(
                    sink,
                    Level::Error,
                    "pg_fdw",
                    0,
                    "exec_foreign_update",
                    m.as_str(),
                );
                match jump {
                    Some(j) => Err(j),
                    None => unreached(),
                }
            },
        }
    }

    /// Apply one insert from the statement's slot.
    pub fn exec_foreign_insert(&self, new_row: &Tuple, sink: &mut LogSink) -> (r: Result<
        Option<T::Row>,
        JumpContext,
    >)
        ensures
            final(sink).extends(*old(sink)),
            r matches Ok(o) ==> self.state.insert_rel(*new_row, Ok(o)),
            r is Err ==> (exists|m: String|
                self.state.insert_rel(*new_row, Err(m)) && final(sink).records@.last().msg@
                    == m@) && final(sink).records@.last().level == Level::Error && final(sink).records@.len() > old(sink).records@.len(),
    {
        match self.state.insert(new_row) {
            Ok(o) => Ok(o),
            Err(m) => {
                let jump = crate::pg_error::log(
                    sink,
                    Level::Error,
                    "pg_fdw",
                    0,
                    "exec_foreign_insert",
                    m.as_str(),
                );
                match jump {
                    Some(j) => Err(j),
                    None => unreached(),
                }
            },
        }
    }

    /// Apply one delete, keyed by the index tuple from the plan slot.
    pub fn exec_foreign_delete(&self, indices: &Tuple, sink: &mut LogSink) -> (r: Result<
        Option<T::Row>,
        JumpContext,
    >)
        ensures
            final(sink).extends(*old(sink)),
            r matches Ok(o) ==> self.state.delete_rel(*indices, Ok(o)),
            r is Err ==> (exists|m: String|
                self.state.delete_rel(*indices, Err(m)) && final(sink).records@.last().msg@
                    == m@) && final(sink).records@.last().level == Level::Error && final(sink).records@.len() > old(sink).records@.len(),
    {
        match self.state.delete(indices) {
            Ok(o) => Ok(o),
            Err(m) => {
                let jump = crate::pg_error::log(
                    sink,
                    Level::Error,
                    "pg_fdw",
                    0,
                    "exec_foreign_delete",
                    m.as_str(),
                );
                match jump {
                    Some(j) => Err(j),
                    None => unreached(),
                }
            },
        }
    }

    /// The statements to run for a schema import, or nothing when the
    /// session declares none.
    pub fn import_foreign_schema(
        server_opts: OptionMap,
        server_name: String,
        remote_schema: String,
        local_schema: String,
    ) -> (r: Option<Vec<String>>)
        ensures
            T::schema_rel(server_opts, server_name, remote_schema, local_schema, r),
    {
        T::schema(server_opts, server_name, remote_schema, local_schema)
    }

    /// The routine table handed to the host: a fixed-shape record of which
    /// callbacks this wrapper populates. The host receives it as an opaque
    /// word from a dedicated handler function.
    pub fn into_datum() -> (r: FdwRoutine)
        ensures
            r.get_foreign_rel_size,
            r.get_foreign_paths,
            r.get_foreign_plan,
            r.begin_foreign_scan,
            r.iterate_foreign_scan,
            r.rescan_foreign_scan,
            r.end_foreign_scan,
            r.add_foreign_update_targets,
            r.begin_foreign_modify,
            r.exec_foreign_insert,
            r.exec_foreign_update,
            r.exec_foreign_delete,
            r.import_foreign_schema,
            !r.get_foreign_join_paths,
            !r.get_foreign_upper_paths,
            !r.plan_foreign_modify,
            !r.end_foreign_modify,
            !r.is_foreign_rel_updatable,
            !r.plan_direct_modify,
            !r.begin_direct_modify,
            !r.iterate_direct_modify,
            !r.end_direct_modify,
            !r.get_foreign_row_mark_type,
            !r.refetch_foreign_row,
            !r.recheck_foreign_scan,
            !r.explain_foreign_scan,
            !r.explain_foreign_modify,
            !r.explain_direct_modify,
            !r.analyze_foreign_table,
            !r.is_foreign_scan_parallel_safe,
            !r.estimate_dsm_foreign_scan,
            !r.initialize_dsm_foreign_scan,
            !r.initialize_worker_foreign_scan,
    {
        FdwRoutine {
            get_foreign_rel_size: true,
            get_foreign_paths: true,
            get_foreign_plan: true,
            begin_foreign_scan: true,
            iterate_foreign_scan: true,
            rescan_foreign_scan: true,
            end_foreign_scan: true,
            get_foreign_join_paths: false,
            get_foreign_upper_paths: false,
            add_foreign_update_targets: true,
            plan_foreign_modify: false,
            begin_foreign_modify: true,
            exec_foreign_insert: true,
            exec_foreign_update: true,
            exec_foreign_delete: true,
            end_foreign_modify: false,
            is_foreign_rel_updatable: false,
            plan_direct_modify: false,
            begin_direct_modify: false,
            iterate_direct_modify: false,
            end_direct_modify: false,
            get_foreign_row_mark_type: false,
            refetch_foreign_row: false,
            recheck_foreign_scan: false,
            explain_foreign_scan: false,
            explain_foreign_modify: false,
            explain_direct_modify: false,
            analyze_foreign_table: false,
            import_foreign_schema: true,
            is_foreign_scan_parallel_safe: false,
            estimate_dsm_foreign_scan: false,
            initialize_dsm_foreign_scan: false,
            initialize_worker_foreign_scan: false,
        }
    }
}

} // verus!
