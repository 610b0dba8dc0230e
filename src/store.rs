//! The store writer: upserts records into the `books` table by their detail
//! URL, in batches that are each written in one transaction.

use vstd::prelude::*;
use crate::model::ItemRecord;

verus! {

#[verifier::external_type_specification]
#[verifier::external_body]
pub struct ExConnection(rusqlite::Connection);

#[verifier::external_type_specification]
#[verifier::external_body]
pub struct ExSqlError(rusqlite::Error);

pub const SCHEMA: &'static str = "CREATE TABLE IF NOT EXISTS books (id INTEGER PRIMARY KEY, title TEXT NOT NULL, price TEXT NOT NULL, link TEXT NOT NULL UNIQUE, description TEXT NOT NULL)";

pub const UPSERT: &'static str = "INSERT INTO books (title, price, link, description) VALUES (?1, ?2, ?3, ?4) ON CONFLICT(link) DO UPDATE SET title = excluded.title, price = excluded.price, description = excluded.description";

pub const SELECT_BY_LINK: &'static str = "SELECT title, price, link, description FROM books WHERE link = ?1";

pub const COUNT_ROWS: &'static str = "SELECT COUNT(*) FROM books";

/// Records per transaction.
pub const BATCH_SIZE: usize = 100;

/// A row of the `books` table.
pub struct StoredRow {
    pub title: String,
    pub price: String,
    pub link: String,
    pub description: String,
}

/// A statement against the store failed.
pub struct StorageError {}

/// The columns of a row other than its key, the link.
pub type RowFields = (Seq<char>, Seq<char>, Seq<char>);

/// The rows of the `books` table that the connection sees, keyed by link
/// (empty while the table does not exist).
pub uninterp spec fn books_of(c: rusqlite::Connection) -> Map<Seq<char>, RowFields>;

/// The rows of the `books` table as last committed.
pub uninterp spec fn saved_books_of(c: rusqlite::Connection) -> Map<Seq<char>, RowFields>;

/// Whether the connection has a transaction open.
pub uninterp spec fn in_transaction(c: rusqlite::Connection) -> bool;

pub open spec fn row_of(r: ItemRecord) -> RowFields {
    (r.title@, r.price@, r.description@)
}

pub open spec fn stored_view(r: StoredRow) -> RowFields {
    (r.title@, r.price@, r.description@)
}

/// Relies on rusqlite's `Connection::execute_batch` running
/// `CREATE TABLE IF NOT EXISTS`: an existing table keeps its rows, a new one
/// is empty.
#[verifier::external_body]
fn create_books_table(conn: &mut rusqlite::Connection) -> (r: Result<(), rusqlite::Error>)
    ensures
        r is Ok ==> books_of(*final(conn)) == books_of(*old(conn)),
        r is Ok ==> saved_books_of(*final(conn)) == saved_books_of(*old(conn)),
        r is Ok ==> in_transaction(*final(conn)) == in_transaction(*old(conn)),
{
    conn.execute_batch(SCHEMA)
}

/// Relies on rusqlite's `Connection::execute_batch` running `BEGIN`: it fails
/// inside an open transaction, so on success the connection saw the committed
/// rows, and still does; a failed `BEGIN` changes nothing.
#[verifier::external_body]
fn begin_transaction(conn: &mut rusqlite::Connection) -> (r: Result<(), rusqlite::Error>)
    ensures
        r is Ok ==> in_transaction(*final(conn)),
        r is Ok ==> books_of(*final(conn)) == books_of(*old(conn)),
        r is Ok ==> saved_books_of(*final(conn)) == saved_books_of(*old(conn)),
        r is Ok ==> books_of(*final(conn)) == saved_books_of(*final(conn)),
        r is Err ==> books_of(*final(conn)) == books_of(*old(conn)),
        r is Err ==> saved_books_of(*final(conn)) == saved_books_of(*old(conn)),
{
    conn.execute_batch("BEGIN")
}

/// Relies on rusqlite's `Connection::execute_batch` running `COMMIT`: on
/// success the rows seen become the committed rows and the transaction ends;
/// a failed commit commits nothing.
#[verifier::external_body]
fn commit_transaction(conn: &mut rusqlite::Connection) -> (r: Result<(), rusqlite::Error>)
    ensures
        r is Ok ==> !in_transaction(*final(conn)),
        r is Ok ==> books_of(*final(conn)) == books_of(*old(conn)),
        r is Ok ==> saved_books_of(*final(conn)) == books_of(*old(conn)),
        r is Err ==> saved_books_of(*final(conn)) == saved_books_of(*old(conn)),
{
    conn.execute_batch("COMMIT")
}

/// Relies on rusqlite's `Connection::execute_batch` running `ROLLBACK`: the
/// committed rows never change, and on success they are the rows seen again.
#[verifier::external_body]
fn rollback_transaction(conn: &mut rusqlite::Connection) -> (r: Result<(), rusqlite::Error>)
    ensures
        saved_books_of(*final(conn)) == saved_books_of(*old(conn)),
        r is Ok ==> !in_transaction(*final(conn)),
        r is Ok ==> books_of(*final(conn)) == saved_books_of(*old(conn)),
{
    conn.execute_batch("ROLLBACK")
}

/// Relies on rusqlite's `Connection::execute` running the upsert with four
/// text parameters: on success the row under `link` is the given one. Inside
/// a transaction nothing is committed, whatever the result.
#[verifier::external_body]
fn execute_upsert(
    conn: &mut rusqlite::Connection,
    title: &str,
    price: &str,
    link: &str,
    description: &str,
) -> (r: Result<usize, rusqlite::Error>)
    ensures
        r is Ok ==> books_of(*final(conn)) == books_of(*old(conn)).insert(
            link@,
            (title@, price@, description@),
        ),
        r is Ok ==> in_transaction(*final(conn)) == in_transaction(*old(conn)),
        in_transaction(*old(conn)) ==> saved_books_of(*final(conn)) == saved_books_of(*old(conn)),
{
    conn.execute(UPSERT, (title, price, link, description))
}

/// Relies on rusqlite's `Connection::query_row` selecting the row under
/// `link`; its "no rows" error means that no row has this link.
#[verifier::external_body]
fn query_by_link(conn: &rusqlite::Connection, link: &str) -> (r: Result<
    Option<StoredRow>,
    rusqlite::Error,
>)
    ensures
        r matches Ok(Some(row)) ==> row.link@ == link@ && books_of(*conn).contains_key(link@)
            && books_of(*conn)[link@] == stored_view(row),
        r matches Ok(None) ==> !books_of(*conn).contains_key(link@),
{
    let found = conn.query_row(SELECT_BY_LINK, (link,), |row| {
        Ok(
            StoredRow {
                title: row.get(0)?,
                price: row.get(1)?,
                link: row.get(2)?,
                description: row.get(3)?,
            },
        )
    });
    match found {
        Ok(r) => Ok(Some(r)),
        Err(rusqlite::Error::QueryReturnedNoRows) => Ok(None),
        Err(e) => Err(e),
    }
}

/// Relies on rusqlite's `Connection::query_row` reading `COUNT(*)`, which is
/// never negative.
#[verifier::external_body]
fn query_count(conn: &rusqlite::Connection) -> (r: Result<i64, rusqlite::Error>)
    ensures
        r matches Ok(n) ==> n >= 0,
{
    conn.query_row(COUNT_ROWS, (), |row| row.get(0))
}

/// Creates the `books` table if it is absent; existing rows are kept.
pub fn ensure_schema(conn: &mut rusqlite::Connection) -> (r: Result<(), StorageError>)
    ensures
        r is Ok ==> books_of(*final(conn)) == books_of(*old(conn)),
        r is Ok ==> saved_books_of(*final(conn)) == saved_books_of(*old(conn)),
{
    match create_books_table(conn) {
        Ok(()) => Ok(()),
        Err(_) => Err(StorageError {}),
    }
}

/// The row stored under `link`, if any.
pub fn find_by_link(conn: &rusqlite::Connection, link: &str) -> (r: Result<
    Option<StoredRow>,
    StorageError,
>)
    ensures
        r matches Ok(Some(row)) ==> row.link@ == link@ && books_of(*conn).contains_key(link@)
            && books_of(*conn)[link@] == stored_view(row),
        r matches Ok(None) ==> !books_of(*conn).contains_key(link@),
{
    match query_by_link(conn, link) {
        Ok(found) => Ok(found),
        Err(_) => Err(StorageError {}),
    }
}

/// The number of rows in the store.
pub fn row_count(conn: &rusqlite::Connection) -> (r: Result<i64, StorageError>)
    ensures
        r matches Ok(n) ==> n >= 0,
{
    match query_count(conn) {
        Ok(n) => Ok(n),
        Err(_) => Err(StorageError {}),
    }
}

/// The table after upserting `records[start..end]` into `t`, in order.
pub open spec fn upsert_range(
    t: Map<Seq<char>, RowFields>,
    records: Seq<ItemRecord>,
    start: int,
    end: int,
) -> Map<Seq<char>, RowFields>
    decreases end - start,
{
    if end <= start {
        t
    } else {
        upsert_range(t, records, start, end - 1).insert(
            records[end - 1].detail_url@,
            row_of(records[end - 1]),
        )
    }
}

/// Where batch `k` of `size` records ends among `n`.
pub open spec fn batch_end(n: int, size: int, k: int) -> int {
    if k * size + size < n {
        k * size + size
    } else {
        n
    }
}

/// Every record in `records[start..end]` carries a detail URL.
pub open spec fn range_keyed(records: Seq<ItemRecord>, start: int, end: int) -> bool {
    forall|j: int| start <= j < end ==> records[j].detail_url@.len() > 0
}

/// The committed table after the batches whose outcomes are `committed`
/// (true: written whole; false: not written at all), starting from `t`.
pub open spec fn saved_after(
    t: Map<Seq<char>, RowFields>,
    records: Seq<ItemRecord>,
    size: int,
    committed: Seq<bool>,
) -> Map<Seq<char>, RowFields>
    decreases committed.len(),
{
    if committed.len() == 0 {
        t
    } else {
        let k = committed.len() - 1;
        let prev = saved_after(t, records, size, committed.drop_last());
        if committed.last() {
            upsert_range(prev, records, k * size, batch_end(records.len() as int, size, k))
        } else {
            prev
        }
    }
}

/// The number of records in the batches that were committed.
pub open spec fn written_after(n: int, size: int, committed: Seq<bool>) -> int
    decreases committed.len(),
{
    if committed.len() == 0 {
        0
    } else {
        let k = committed.len() - 1;
        written_after(n, size, committed.drop_last()) + if committed.last() {
            batch_end(n, size, k) - k * size
        } else {
            0
        }
    }
}

/// Every committed batch holds only records that carry a detail URL.
pub open spec fn committed_keyed(records: Seq<ItemRecord>, size: int, committed: Seq<bool>) -> bool {
    forall|k: int|
        0 <= k < committed.len() && #[trigger] committed[k] ==> range_keyed(
            records,
            k * size,
            batch_end(records.len() as int, size, k),
        )
}

/// The records written by the batches whose outcomes are `committed`, for
/// `n` records in batches of `batch_size`.
pub fn tally(n: usize, batch_size: usize, committed: &Vec<bool>) -> (r: usize)
    requires
        batch_size > 0,
        committed@.len() * batch_size < n + batch_size,
    ensures
        r <= n,
        r == written_after(n as int, batch_size as int, committed@),
{
    let mut written: usize = 0;
    let mut k: usize = 0;
    let mut start: usize = 0;
    while k < committed.len()
        invariant
            k <= committed@.len(),
            batch_size > 0,
            committed@.len() * batch_size < n + batch_size,
            k < committed@.len() ==> start == k * batch_size,
            k < committed@.len() ==> written <= start,
            written <= n,
            written == written_after(n as int, batch_size as int, committed@.subrange(0, k as int)),
        decreases committed@.len() - k,
    {
        assert(start < n) by (nonlinear_arith)
            requires
                start == k * batch_size,
                k < committed@.len(),
                committed@.len() * batch_size < n + batch_size,
        ;
        assert(committed@.subrange(0, k + 1).drop_last() =~= committed@.subrange(0, k as int));
        let end: usize = if n - start > batch_size {
            start + batch_size
        } else {
            n
        };
        if committed[k] {
            written = written + (end - start);
        }
        assert((k + 1) * batch_size == k * batch_size + batch_size) by (nonlinear_arith);
        k = k + 1;
        if k < committed.len() {
            assert(start + batch_size < n) by (nonlinear_arith)
                requires
                    start + batch_size == k * batch_size,
                    k < committed@.len(),
                    committed@.len() * batch_size < n + batch_size,
            ;
            start = start + batch_size;
        }
    }
    assert(committed@.subrange(0, k as int) =~= committed@);
    written
}

/// Whether every record in `records[start..end]` carries a detail URL.
pub fn batch_is_keyed(records: &Vec<ItemRecord>, start: usize, end: usize) -> (r: bool)
    requires
        start <= end <= records@.len(),
    ensures
        r == range_keyed(records@, start as int, end as int),
{
    let mut k: usize = start;
    while k < end
        invariant
            start <= k <= end <= records@.len(),
            forall|j: int| start <= j < k ==> records@[j].detail_url@.len() > 0,
        decreases end - k,
    {
        if records[k].detail_url.as_str().is_empty() {
            return false;
        }
        k = k + 1;
    }
    true
}

/// How a call of `persist` went: the outcome of each batch in order (true:
/// committed whole), the records written and not written, and whether the
/// connection ended with no transaction left open by this call.
pub struct PersistReport {
    pub committed: Vec<bool>,
    pub written: usize,
    pub unwritten: usize,
    pub settled: bool,
}

/// Upserts `records[start..end]` in one transaction. Returns whether all of
/// them were committed (else none was), whether the connection is left with
/// no transaction open, and whether it was touched at all.
fn write_batch(
    conn: &mut rusqlite::Connection,
    records: &Vec<ItemRecord>,
    start: usize,
    end: usize,
) -> (r: (bool, bool, bool))
    requires
        start <= end <= records@.len(),
    ensures
        !r.2 ==> !r.0 && books_of(*final(conn)) == books_of(*old(conn)),
        r.0 ==> saved_books_of(*final(conn)) == upsert_range(
            saved_books_of(*old(conn)),
            records@,
            start as int,
            end as int,
        ),
        r.0 ==> books_of(*final(conn)) == saved_books_of(*final(conn)),
        !r.0 ==> saved_books_of(*final(conn)) == saved_books_of(*old(conn)),
        !r.0 && r.1 ==> books_of(*final(conn)) == saved_books_of(*final(conn)),
{
    if begin_transaction(conn).is_err() {
        return (false, false, false);
    }
    let ghost t0 = books_of(*conn);
    assert(t0 == saved_books_of(*conn));
    let mut k: usize = start;
    while k < end
        invariant
            start <= k <= end <= records@.len(),
            in_transaction(*conn),
            saved_books_of(*conn) == t0,
            t0 == saved_books_of(*old(conn)),
            books_of(*conn) == upsert_range(t0, records@, start as int, k as int),
        decreases end - k,
    {
        let rec = &records[k];
        let done = execute_upsert(
            conn,
            rec.title.as_str(),
            rec.price.as_str(),
            rec.detail_url.as_str(),
            rec.description.as_str(),
        );
        if done.is_err() {
            let closed = rollback_transaction(conn).is_ok();
            return (false, closed, true);
        }
        k = k + 1;
    }
    if commit_transaction(conn).is_ok() {
        (true, true, true)
    } else {
        let closed = rollback_transaction(conn).is_ok();
        (false, closed, true)
    }
}

/// Upserts `records` by detail URL, `batch_size` per transaction. A batch is
/// committed whole or not at all: one that holds a record without a detail
/// URL is refused, one whose statements fail is rolled back, and either way
/// the next batch is still tried. The committed table ends as the old one
/// updated by exactly the committed batches, and the records written are
/// exactly those of the committed batches.
pub fn persist(
    conn: &mut rusqlite::Connection,
    records: &Vec<ItemRecord>,
    batch_size: usize,
) -> (r: PersistReport)
    requires
        batch_size > 0,
    ensures
        r.committed@.len() * batch_size < records@.len() + batch_size,
        records@.len() <= r.committed@.len() * batch_size,
        committed_keyed(records@, batch_size as int, r.committed@),
        forall|k: int|
            0 <= k < r.committed@.len() && !range_keyed(
                records@,
                k * batch_size,
                batch_end(records@.len() as int, batch_size as int, k),
            ) ==> !#[trigger] r.committed@[k],
        r.written == written_after(records@.len() as int, batch_size as int, r.committed@),
        r.written + r.unwritten == records@.len(),
        saved_books_of(*final(conn)) == saved_after(
            saved_books_of(*old(conn)),
            records@,
            batch_size as int,
            r.committed@,
        ),
        r.settled ==> books_of(*final(conn)) == saved_books_of(*final(conn)),
{
    let n = records.len();
    let ghost t0 = saved_books_of(*conn);
    let mut committed: Vec<bool> = Vec::new();
    let mut settled = false;
    let mut start: usize = 0;
    while start < n
        invariant
            n == records@.len(),
            batch_size > 0,
            start <= n,
            start <= committed@.len() * batch_size,
            start < n ==> start == committed@.len() * batch_size,
            committed@.len() == 0 || (committed@.len() - 1) * batch_size < n,
            committed_keyed(records@, batch_size as int, committed@),
            forall|k: int|
                0 <= k < committed@.len() && !range_keyed(
                    records@,
                    k * batch_size,
                    batch_end(n as int, batch_size as int, k),
                ) ==> !#[trigger] committed@[k],
            saved_books_of(*conn) == saved_after(t0, records@, batch_size as int, committed@),
            settled ==> books_of(*conn) == saved_books_of(*conn),
        decreases n - start,
    {
        let ghost k = committed@.len() as int;
        let end: usize = if n - start > batch_size {
            start + batch_size
        } else {
            n
        };
        assert(end == batch_end(n as int, batch_size as int, k));
        let keyed = batch_is_keyed(records, start, end);
        let ok = if keyed {
            let (ok, closed, touched) = write_batch(conn, records, start, end);
            if closed {
                settled = true;
            } else if touched {
                settled = false;
            }
            ok
        } else {
            false
        };
        let ghost prev = committed@;
        committed.push(ok);
        assert(committed@.drop_last() =~= prev);
        assert forall|j: int|
            0 <= j < committed@.len() && #[trigger] committed@[j] implies range_keyed(
            records@,
            j * batch_size,
            batch_end(n as int, batch_size as int, j),
        ) by {
            if j < k {
                assert(prev[j]);
            }
        }
        assert forall|j: int|
            0 <= j < committed@.len() && !range_keyed(
                records@,
                j * batch_size,
                batch_end(n as int, batch_size as int, j),
            ) implies !#[trigger] committed@[j] by {
            if j < k {
                assert(committed@[j] == prev[j]);
            }
        }
        assert((k + 1) * batch_size == k * batch_size + batch_size) by (nonlinear_arith);
        start = end;
    }
    assert(n <= committed@.len() * batch_size);
    assert(committed@.len() * batch_size < n + batch_size) by (nonlinear_arith)
        requires
            committed@.len() == 0 || (committed@.len() - 1) * batch_size < n,
            batch_size > 0,
    {
    }
    let written = tally(n, batch_size, &committed);
    PersistReport { committed, written, unwritten: n - written, settled }
}

proof fn lemma_upsert_as_union(
    t: Map<Seq<char>, RowFields>,
    records: Seq<ItemRecord>,
    start: int,
    end: int,
)
    ensures
        upsert_range(t, records, start, end) == t.union_prefer_right(
            upsert_range(Map::empty(), records, start, end),
        ),
    decreases end - start,
{
    if end > start {
        lemma_upsert_as_union(t, records, start, end - 1);
        assert(upsert_range(t, records, start, end) =~= t.union_prefer_right(
            upsert_range(Map::empty(), records, start, end),
        ));
    } else {
        assert(t.union_prefer_right(Map::empty()) =~= t);
    }
}

/// Upserting the same records a second time leaves the table as the first
/// time left it: a link that is already present is replaced, never doubled.
pub proof fn lemma_upsert_idempotent(
    t: Map<Seq<char>, RowFields>,
    records: Seq<ItemRecord>,
    start: int,
    end: int,
)
    ensures
        upsert_range(upsert_range(t, records, start, end), records, start, end) == upsert_range(
            t,
            records,
            start,
            end,
        ),
        upsert_range(t, records, start, end).dom() == t.dom() + upsert_range(
            Map::empty(),
            records,
            start,
            end,
        ).dom(),
{
    let u = upsert_range(Map::empty(), records, start, end);
    lemma_upsert_as_union(t, records, start, end);
    lemma_upsert_as_union(t.union_prefer_right(u), records, start, end);
    assert(t.union_prefer_right(u).union_prefer_right(u) =~= t.union_prefer_right(u));
    assert(t.union_prefer_right(u).dom() =~= t.dom() + u.dom());
}

/// After an upsert, the row under a record's link holds that record's title,
/// price and description, unless a later record of the same run has the same
/// link.
pub proof fn lemma_round_trip(
    t: Map<Seq<char>, RowFields>,
    records: Seq<ItemRecord>,
    start: int,
    end: int,
    j: int,
)
    requires
        start <= j < end <= records.len(),
        forall|m: int| j < m < end ==> records[m].detail_url@ != records[j].detail_url@,
    ensures
        upsert_range(t, records, start, end).contains_key(records[j].detail_url@),
        upsert_range(t, records, start, end)[records[j].detail_url@] == row_of(records[j]),
    decreases end - start,
{
    if j < end - 1 {
        lemma_round_trip(t, records, start, end - 1, j);
    }
}

proof fn lemma_written_prefix(n: int, size: int, c: Seq<bool>)
    requires
        size > 0,
        n >= 0,
        forall|k: int| 0 <= k < c.len() ==> #[trigger] c[k],
        c.len() == 0 || (c.len() - 1) * size < n,
    ensures
        written_after(n, size, c) == if c.len() * size < n {
            c.len() * size
        } else {
            n
        },
    decreases c.len(),
{
    if c.len() > 0 {
        let k = c.len() - 1;
        assert(k == 0 || (k - 1) * size < k * size) by (nonlinear_arith)
            requires
                size > 0,
        ;
        assert(c.drop_last().len() == k);
        assert(c.last());
        lemma_written_prefix(n, size, c.drop_last());
        assert(k * size + size == c.len() * size) by (nonlinear_arith)
            requires
                k == c.len() - 1,
        ;
        assert(k * size >= 0) by (nonlinear_arith)
            requires
                k >= 0,
                size > 0,
        ;
    }
}

/// When every batch is committed, every record is written.
pub proof fn lemma_all_committed_writes_all(n: int, size: int, c: Seq<bool>)
    requires
        size > 0,
        n >= 0,
        c.len() * size < n + size,
        n <= c.len() * size,
        forall|k: int| 0 <= k < c.len() ==> #[trigger] c[k],
    ensures
        written_after(n, size, c) == n,
{
    assert(c.len() == 0 || (c.len() - 1) * size < n) by (nonlinear_arith)
        requires
            c.len() * size < n + size,
    ;
    lemma_written_prefix(n, size, c);
}

} // verus!
