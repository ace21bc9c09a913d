//! Queries against a Postgres source: what is sent, and how its answers are put
//! together.

use vstd::prelude::*;
use vstd::string::*;

use crate::strings::{decimal, same, write_decimal};

verus! {

/// A Postgres source.
#[derive(Debug)]
pub struct PostgresEngine {
    pub conn: String,
}

impl PostgresEngine {
    pub fn new(conn: &str) -> (r: PostgresEngine)
        ensures
            r.conn@ == conn@,
    {
        PostgresEngine { conn: conn.to_owned() }
    }
}

// ---- The schema ----

/// A column as the catalog lists it.
#[derive(Debug)]
pub struct ColumnRow {
    pub schema: String,
    pub table: String,
    pub column: String,
    pub data_type: String,
    pub is_nullable: Option<String>,
    pub comment: Option<String>,
}

/// A column of a primary key.
#[derive(Debug)]
pub struct PrimaryKeyRow {
    /// The name of the key, which its other columns share.
    pub constraint: String,
    pub schema: String,
    pub table: String,
    pub column: String,
}

/// A column of a foreign key, and the table that the key refers to.
#[derive(Debug)]
pub struct ForeignKeyRow {
    /// The name of the key, which its other columns share.
    pub constraint: String,
    pub schema: String,
    pub table: String,
    pub column: String,
    pub ref_schema: Option<String>,
    pub ref_table: Option<String>,
}

/// A column with what is known of its keys.
#[derive(Debug)]
pub struct SchemaColumn {
    pub schema: String,
    pub table: String,
    pub column: String,
    pub data_type: String,
    pub comment: Option<String>,
    pub is_primary_key: bool,
    pub is_foreign_key: bool,
    pub references_table: Option<String>,
    pub nullable: bool,
}

/// Where a column stands: its schema, its table and its name.
pub type Place = (Seq<char>, Seq<char>, Seq<char>);

/// What a [`ColumnRow`] holds.
pub struct ColumnRowView {
    pub place: Place,
    pub data_type: Seq<char>,
    pub is_nullable: Option<Seq<char>>,
    pub comment: Option<Seq<char>>,
}

/// What a [`PrimaryKeyRow`] holds: a column of a key.
pub struct KeyView {
    pub constraint: Seq<char>,
    pub place: Place,
}

/// What a [`ForeignKeyRow`] holds.
pub struct ForeignKeyView {
    pub key: KeyView,
    pub ref_schema: Option<Seq<char>>,
    pub ref_table: Option<Seq<char>>,
}

/// What a [`SchemaColumn`] holds.
pub struct SchemaColumnView {
    pub place: Place,
    pub data_type: Seq<char>,
    pub comment: Option<Seq<char>>,
    pub is_primary_key: bool,
    pub is_foreign_key: bool,
    pub references_table: Option<Seq<char>>,
    pub nullable: bool,
}

impl DeepView for ColumnRow {
    type V = ColumnRowView;

    open spec fn deep_view(&self) -> ColumnRowView {
        ColumnRowView {
            place: (self.schema@, self.table@, self.column@),
            data_type: self.data_type@,
            is_nullable: self.is_nullable.deep_view(),
            comment: self.comment.deep_view(),
        }
    }
}

impl DeepView for PrimaryKeyRow {
    type V = KeyView;

    open spec fn deep_view(&self) -> KeyView {
        KeyView {
            constraint: self.constraint@,
            place: (self.schema@, self.table@, self.column@),
        }
    }
}

impl DeepView for ForeignKeyRow {
    type V = ForeignKeyView;

    open spec fn deep_view(&self) -> ForeignKeyView {
        ForeignKeyView {
            key: KeyView {
                constraint: self.constraint@,
                place: (self.schema@, self.table@, self.column@),
            },
            ref_schema: self.ref_schema.deep_view(),
            ref_table: self.ref_table.deep_view(),
        }
    }
}

impl DeepView for SchemaColumn {
    type V = SchemaColumnView;

    open spec fn deep_view(&self) -> SchemaColumnView {
        SchemaColumnView {
            place: (self.schema@, self.table@, self.column@),
            data_type: self.data_type@,
            comment: self.comment.deep_view(),
            is_primary_key: self.is_primary_key,
            is_foreign_key: self.is_foreign_key,
            references_table: self.references_table.deep_view(),
            nullable: self.nullable,
        }
    }
}

/// Two columns of one key: keys are named within their table.
pub open spec fn of_one_key(a: KeyView, b: KeyView) -> bool {
    a.constraint == b.constraint && a.place.0 == b.place.0 && a.place.1 == b.place.1
}

/// The column is a key by itself: no other column belongs to the key. The columns
/// of a larger key identify nothing one by one, and count for none.
pub open spec fn alone(keys: Seq<KeyView>, k: KeyView) -> bool {
    forall|i: int|
        0 <= i < keys.len() && of_one_key(#[trigger] keys[i], k) ==> keys[i].place == k.place
}

pub open spec fn keys_of(fks: Seq<ForeignKeyView>) -> Seq<KeyView> {
    fks.map_values(|fk: ForeignKeyView| fk.key)
}

/// The column is a primary key by itself.
pub open spec fn is_key(pks: Seq<KeyView>, place: Place) -> bool {
    exists|i: int|
        0 <= i < pks.len() && (#[trigger] pks[i]).place == place && alone(pks, pks[i])
}

/// The foreign key that the column at a place is by itself, among the first `n`;
/// of several, the last.
pub open spec fn key_at(fks: Seq<ForeignKeyView>, place: Place, n: int) -> Option<ForeignKeyView>
    decreases n,
{
    if n <= 0 {
        None
    } else if fks[n - 1].key.place == place && alone(keys_of(fks), fks[n - 1].key) {
        Some(fks[n - 1])
    } else {
        key_at(fks, place, n - 1)
    }
}

/// The table that a foreign key refers to, where its schema is known too.
pub open spec fn target_of(fk: ForeignKeyView) -> Option<Seq<char>> {
    match (fk.ref_schema, fk.ref_table) {
        (Some(s), Some(t)) => Some(s + "."@ + t),
        _ => None,
    }
}

pub open spec fn described(
    c: ColumnRowView,
    pks: Seq<KeyView>,
    fks: Seq<ForeignKeyView>,
) -> SchemaColumnView {
    let fk = key_at(fks, c.place, fks.len() as int);
    SchemaColumnView {
        place: c.place,
        data_type: c.data_type,
        comment: c.comment,
        is_primary_key: is_key(pks, c.place),
        is_foreign_key: fk is Some,
        references_table: match fk {
            Some(k) => target_of(k),
            None => None,
        },
        nullable: c.is_nullable == Some("YES"@),
    }
}

/// No key is the column at this place alone: it belongs to none, or only to keys
/// of several columns.
pub open spec fn only_composite(keys: Seq<KeyView>, place: Place) -> bool {
    forall|i: int|
        0 <= i < keys.len() && (#[trigger] keys[i]).place == place ==> !alone(keys, keys[i])
}

/// Every column, in the order of the catalog, with its keys.
pub open spec fn schema_of(
    cols: Seq<ColumnRowView>,
    pks: Seq<KeyView>,
    fks: Seq<ForeignKeyView>,
) -> Seq<SchemaColumnView> {
    cols.map_values(|c: ColumnRowView| described(c, pks, fks))
}

fn stands_alone_as_primary(pks: &Vec<PrimaryKeyRow>, k: usize) -> (r: bool)
    requires
        k < pks@.len(),
    ensures
        r == alone(pks.deep_view(), pks.deep_view()[k as int]),
{
    let n: usize = pks.len();
    let ghost all = pks.deep_view();
    let ghost key = all[k as int];
    for i in 0..n
        invariant
            n == pks@.len(),
            k < n,
            all == pks.deep_view(),
            key == all[k as int],
            forall|j: int|
                0 <= j < i && of_one_key(#[trigger] all[j], key) ==> all[j].place == key.place,
    {
        if same(pks[i].constraint.as_str(), pks[k].constraint.as_str()) && same(
            pks[i].schema.as_str(),
            pks[k].schema.as_str(),
        ) && same(pks[i].table.as_str(), pks[k].table.as_str()) && !same(
            pks[i].column.as_str(),
            pks[k].column.as_str(),
        ) {
            assert(of_one_key(all[i as int], key));
            return false;
        }
    }
    true
}

fn stands_alone_as_foreign(fks: &Vec<ForeignKeyRow>, k: usize) -> (r: bool)
    requires
        k < fks@.len(),
    ensures
        r == alone(keys_of(fks.deep_view()), fks.deep_view()[k as int].key),
{
    let n: usize = fks.len();
    let ghost all = keys_of(fks.deep_view());
    let ghost key = all[k as int];
    for i in 0..n
        invariant
            n == fks@.len(),
            k < n,
            all == keys_of(fks.deep_view()),
            key == all[k as int],
            forall|j: int|
                0 <= j < i && of_one_key(#[trigger] all[j], key) ==> all[j].place == key.place,
    {
        if same(fks[i].constraint.as_str(), fks[k].constraint.as_str()) && same(
            fks[i].schema.as_str(),
            fks[k].schema.as_str(),
        ) && same(fks[i].table.as_str(), fks[k].table.as_str()) && !same(
            fks[i].column.as_str(),
            fks[k].column.as_str(),
        ) {
            assert(of_one_key(all[i as int], key));
            return false;
        }
    }
    true
}

fn is_primary(c: &ColumnRow, pks: &Vec<PrimaryKeyRow>) -> (r: bool)
    ensures
        r == is_key(pks.deep_view(), c.deep_view().place),
{
    let n: usize = pks.len();
    let ghost all = pks.deep_view();
    for i in 0..n
        invariant
            n == pks@.len(),
            all == pks.deep_view(),
            forall|j: int|
                0 <= j < i ==> !((#[trigger] all[j]).place == c.deep_view().place && alone(
                    all,
                    all[j],
                )),
    {
        if same(pks[i].schema.as_str(), c.schema.as_str()) && same(
            pks[i].table.as_str(),
            c.table.as_str(),
        ) && same(pks[i].column.as_str(), c.column.as_str()) && stands_alone_as_primary(pks, i) {
            assert(all[i as int].place == c.deep_view().place);
            return true;
        }
    }
    false
}

fn reference(fk: &ForeignKeyRow) -> (r: Option<String>)
    ensures
        r.deep_view() == target_of(fk.deep_view()),
{
    match (&fk.ref_schema, &fk.ref_table) {
        (Some(s), Some(t)) => {
            let mut out: String = s.clone();
            out.append(".");
            out.append(t.as_str());
            Some(out)
        },
        _ => None,
    }
}

fn foreign(c: &ColumnRow, fks: &Vec<ForeignKeyRow>) -> (r: (bool, Option<String>))
    ensures
        ({
            let fk = key_at(fks.deep_view(), c.deep_view().place, fks@.len() as int);
            &&& r.0 == (fk is Some)
            &&& r.1.deep_view() == match fk {
                Some(k) => target_of(k),
                None => None,
            }
        }),
{
    let ghost all = fks.deep_view();
    let ghost place = c.deep_view().place;
    let mut k: usize = fks.len();
    while k > 0
        invariant
            all == fks.deep_view(),
            place == c.deep_view().place,
            k <= fks@.len(),
            key_at(all, place, fks@.len() as int) == key_at(all, place, k as int),
        decreases k,
    {
        k = k - 1;
        if same(fks[k].schema.as_str(), c.schema.as_str()) && same(
            fks[k].table.as_str(),
            c.table.as_str(),
        ) && same(fks[k].column.as_str(), c.column.as_str()) && stands_alone_as_foreign(fks, k) {
            return (true, reference(&fks[k]));
        }
    }
    (false, None)
}

fn says_yes(s: &Option<String>) -> (r: bool)
    ensures
        r == (s.deep_view() == Some("YES"@)),
{
    match s {
        Some(t) => same(t.as_str(), "YES"),
        None => false,
    }
}

/// Puts the three answers of the catalog together: the columns, and the columns of
/// its primary and foreign keys. A column whose keys all have other columns too is
/// marked for none of them.
pub fn fetch_schema(
    cols: Vec<ColumnRow>,
    pks: &Vec<PrimaryKeyRow>,
    fks: &Vec<ForeignKeyRow>,
) -> (r: Vec<SchemaColumn>)
    ensures
        r.deep_view() == schema_of(cols.deep_view(), pks.deep_view(), fks.deep_view()),
        forall|i: int|
            0 <= i < r@.len() && only_composite(
                pks.deep_view(),
                (#[trigger] r.deep_view()[i]).place,
            ) ==> !r.deep_view()[i].is_primary_key,
        forall|i: int|
            0 <= i < r@.len() && only_composite(
                keys_of(fks.deep_view()),
                (#[trigger] r.deep_view()[i]).place,
            ) ==> !r.deep_view()[i].is_foreign_key && r.deep_view()[i].references_table is None,
{
    let ghost all = cols.deep_view();
    let ghost keys = pks.deep_view();
    let ghost refs = fks.deep_view();
    let mut out: Vec<SchemaColumn> = Vec::new();
    assert(out.deep_view() =~= Seq::empty());
    assert(schema_of(all.take(0), keys, refs) =~= Seq::empty());
    for c in it: cols
        invariant
            it.seq() == cols@,
            all == cols.deep_view(),
            keys == pks.deep_view(),
            refs == fks.deep_view(),
            out.deep_view() == schema_of(all.take(it.index() as int), keys, refs),
    {
        let ghost i = it.index() as int;
        let ghost sofar = out.deep_view();
        assert(c.deep_view() == all[i]);
        let is_primary_key: bool = is_primary(&c, pks);
        let (is_foreign_key, references_table) = foreign(&c, fks);
        let nullable: bool = says_yes(&c.is_nullable);
        let described_column = SchemaColumn {
            schema: c.schema,
            table: c.table,
            column: c.column,
            data_type: c.data_type,
            comment: c.comment,
            is_primary_key,
            is_foreign_key,
            references_table,
            nullable,
        };
        let ghost new = described_column.deep_view();
        assert(new == described(all[i], keys, refs));
        out.push(described_column);
        assert(out.deep_view() =~= sofar.push(new));
        assert(schema_of(all.take(i + 1), keys, refs) =~= sofar.push(new));
    }
    assert(all.take(cols@.len() as int) =~= all);
    proof {
        let got = out.deep_view();
        assert forall|i: int|
            0 <= i < got.len() && only_composite(keys, (#[trigger] got[i]).place) implies
            !got[i].is_primary_key by {
            law_members_of_larger_keys_are_unmarked(all[i], keys, refs);
        }
        assert forall|i: int|
            0 <= i < got.len() && only_composite(
                keys_of(refs),
                (#[trigger] got[i]).place,
            ) implies !got[i].is_foreign_key && got[i].references_table is None by {
            law_members_of_larger_keys_are_unmarked(all[i], keys, refs);
        }
    }
    out
}

// ---- A query ----

/// Sent before a query: the session only reads.
pub const READ_ONLY: &'static str = "SET default_transaction_read_only = on";

pub open spec fn timeout_text(secs: nat) -> Seq<char> {
    "SET statement_timeout = '"@ + decimal(secs) + "s'"@
}

pub open spec fn wrapped_text(sql: Seq<char>, limit: nat) -> Seq<char> {
    "SELECT row_to_json(_q)::text AS _j FROM ( "@ + sql + " ) AS _q LIMIT "@ + decimal(limit)
}

/// Sent before a query: it may not run longer than this.
pub fn statement_timeout(secs: u64) -> (r: String)
    ensures
        r@ == timeout_text(secs as nat),
{
    let mut out: String = "SET statement_timeout = '".to_owned();
    out.append(write_decimal(secs).as_str());
    out.append("s'");
    out
}

/// The query with one row more than the cap at most, each row as JSON text. The
/// row beyond the cap tells that there are more.
pub fn wrapped(sql: &str, cap: usize) -> (r: String)
    requires
        cap < usize::MAX,
    ensures
        r@ == wrapped_text(sql@, cap as nat + 1),
{
    let mut out: String = "SELECT row_to_json(_q)::text AS _j FROM ( ".to_owned();
    out.append(sql);
    out.append(" ) AS _q LIMIT ");
    out.append(write_decimal((cap + 1) as u64).as_str());
    out
}

#[derive(Debug)]
pub struct QueryResult {
    pub rows: Vec<String>,
    /// There were more rows than the cap.
    pub truncated: bool,
}

/// What a [`QueryResult`] holds.
pub struct ResultView {
    pub rows: Seq<Seq<char>>,
    pub truncated: bool,
}

impl DeepView for QueryResult {
    type V = ResultView;

    open spec fn deep_view(&self) -> ResultView {
        ResultView { rows: self.rows.deep_view(), truncated: self.truncated }
    }
}

/// A row that could not be read counts as an empty object.
pub open spec fn row_text(row: Option<Seq<char>>) -> Seq<char> {
    match row {
        Some(t) => t,
        None => "{}"@,
    }
}

/// How many rows are kept.
pub open spec fn kept(fetched: nat, cap: nat) -> nat {
    if fetched <= cap {
        fetched
    } else {
        cap
    }
}

pub open spec fn result_of(fetched: Seq<Option<Seq<char>>>, cap: nat) -> ResultView {
    ResultView {
        rows: Seq::new(kept(fetched.len(), cap), |i: int| row_text(fetched[i])),
        truncated: fetched.len() > cap,
    }
}

/// The first rows up to the cap, and whether there were more.
pub fn execute(fetched: &Vec<Option<String>>, cap: usize) -> (r: QueryResult)
    ensures
        r.deep_view() == result_of(fetched.deep_view(), cap as nat),
{
    let n: usize = if fetched.len() <= cap {
        fetched.len()
    } else {
        cap
    };
    let ghost all = result_of(fetched.deep_view(), cap as nat).rows;
    let mut rows: Vec<String> = Vec::new();
    assert(rows.deep_view() =~= Seq::empty());
    assert(all.take(0) =~= Seq::empty());
    for i in 0..n
        invariant
            n == kept(fetched@.len(), cap as nat),
            all == result_of(fetched.deep_view(), cap as nat).rows,
            rows.deep_view() == all.take(i as int),
    {
        let ghost sofar = rows.deep_view();
        let row: String = match &fetched[i] {
            Some(t) => t.clone(),
            None => "{}".to_owned(),
        };
        let ghost new = row@;
        assert(fetched.deep_view()[i as int] == fetched@[i as int].deep_view());
        assert(new == all[i as int]);
        rows.push(row);
        assert(rows.deep_view() =~= sofar.push(new));
        assert(all.take(i + 1) =~= sofar.push(new));
    }
    assert(all.take(n as int) =~= all);
    QueryResult { rows, truncated: fetched.len() > cap }
}

// ---- Laws ----

/// The catalog decides which columns there are: none is lost, none is added and
/// none moves, whatever the keys say.
pub proof fn law_keys_only_mark_columns(
    cols: Seq<ColumnRowView>,
    pks: Seq<KeyView>,
    fks: Seq<ForeignKeyView>,
)
    ensures
        schema_of(cols, pks, fks).len() == cols.len(),
        forall|i: int|
            0 <= i < cols.len() ==> (#[trigger] schema_of(cols, pks, fks)[i]).place
                == cols[i].place && schema_of(cols, pks, fks)[i].data_type == cols[i].data_type
                && schema_of(cols, pks, fks)[i].comment == cols[i].comment,
{
}

/// A column that belongs to no key, or only to keys of several columns, is marked
/// as none, and refers to no table.
pub proof fn law_members_of_larger_keys_are_unmarked(
    c: ColumnRowView,
    pks: Seq<KeyView>,
    fks: Seq<ForeignKeyView>,
)
    ensures
        only_composite(pks, c.place) ==> !described(c, pks, fks).is_primary_key,
        only_composite(keys_of(fks), c.place) ==> !described(c, pks, fks).is_foreign_key
            && described(c, pks, fks).references_table is None,
{
    if only_composite(keys_of(fks), c.place) {
        lemma_no_key_at(fks, c.place, fks.len() as int);
    }
}

proof fn lemma_no_key_at(fks: Seq<ForeignKeyView>, place: Place, n: int)
    requires
        0 <= n <= fks.len(),
        only_composite(keys_of(fks), place),
    ensures
        key_at(fks, place, n) is None,
    decreases n,
{
    if n > 0 {
        assert(keys_of(fks)[n - 1] == fks[n - 1].key);
        lemma_no_key_at(fks, place, n - 1);
    }
}

/// A column that is a key by itself is marked, whatever other keys it belongs to.
pub proof fn law_a_key_of_one_column_is_marked(
    c: ColumnRowView,
    pks: Seq<KeyView>,
    fks: Seq<ForeignKeyView>,
    i: int,
)
    ensures
        0 <= i < pks.len() && pks[i].place == c.place && alone(pks, pks[i]) ==> described(
            c,
            pks,
            fks,
        ).is_primary_key,
        0 <= i < fks.len() && fks[i].key.place == c.place && alone(keys_of(fks), fks[i].key)
            ==> described(c, pks, fks).is_foreign_key,
{
    if 0 <= i < fks.len() && fks[i].key.place == c.place && alone(keys_of(fks), fks[i].key) {
        lemma_key_at_found(fks, c.place, fks.len() as int, i);
    }
}

proof fn lemma_key_at_found(fks: Seq<ForeignKeyView>, place: Place, n: int, i: int)
    requires
        0 <= i < n <= fks.len(),
        fks[i].key.place == place,
        alone(keys_of(fks), fks[i].key),
    ensures
        key_at(fks, place, n) is Some,
    decreases n,
{
    if i < n - 1 {
        lemma_key_at_found(fks, place, n - 1, i);
    }
}

/// A result never has more rows than the cap, and says so where it was cut.
pub proof fn law_results_are_capped(fetched: Seq<Option<Seq<char>>>, cap: nat)
    ensures
        result_of(fetched, cap).rows.len() <= cap,
        !result_of(fetched, cap).truncated ==> result_of(fetched, cap).rows.len()
            == fetched.len(),
        result_of(fetched, cap).truncated ==> result_of(fetched, cap).rows.len() == cap,
{
}

} // verus!
