//! The durable history store: an append-only SQLite table of completed focus
//! records, reached through `rusqlite`.
//!
//! The table's contents are modelled by the uninterpreted [`table_records`]:
//! the sequence of record models (task, duration, completion key, pomodoro
//! count) in insertion order, the empty sequence when the table does not
//! exist yet. The store is used by a single connection of a single process,
//! so the model is a function of the connection. The id column is a
//! surrogate key that SQLite assigns; it is not part of the model.

use vstd::multiset::Multiset;
use vstd::prelude::*;

use crate::history::FocusRecord;
use crate::history::RecModel;
use crate::history::sorted_desc_by_completed_at;
use crate::text::lex_leq;
use crate::text::lemma_lex_total;
use crate::text::lemma_lex_trans;
use crate::text::str_leq;

verus! {

broadcast use vstd::seq_lib::group_to_multiset_ensures;

/// The SQLite file name inside the application's data directory.
pub const DB_FILENAME: &'static str = "red_tomato.db";

#[verifier::external_type_specification]
#[verifier::external_body]
pub struct ExConnection(rusqlite::Connection);

#[verifier::external_type_specification]
#[verifier::external_body]
pub struct ExSqliteError(rusqlite::Error);

#[verifier::external_type_specification]
#[verifier::external_body]
pub struct ExPathBuf(std::path::PathBuf);

/// One loaded row of the `focus_records` table: the auto-assigned surrogate
/// key and the record fields.
#[derive(Debug)]
pub struct FocusRow {
    pub id: i64,
    pub task: String,
    pub duration_seconds: i64,
    pub completed_at: String,
    pub completed_pomodoros: u32,
}

impl FocusRow {
    /// The record content of a row; the surrogate key is not part of it.
    pub open spec fn model(self) -> RecModel {
        (self.task@, self.duration_seconds, self.completed_at@, self.completed_pomodoros)
    }
}

/// The models of a row sequence.
pub open spec fn row_models(s: Seq<FocusRow>) -> Seq<RecModel> {
    s.map_values(|r: FocusRow| r.model())
}

/// The rows of the `focus_records` table reachable through a connection, as
/// record models in insertion order; a database without the table reads as
/// the empty sequence.
pub uninterp spec fn table_records(conn: rusqlite::Connection) -> Seq<RecModel>;

/// Relies on dirs::data_local_dir: the platform's per-user local-data
/// directory, `None` where the platform defines none.
#[verifier::external_body]
fn data_local_dir() -> Option<std::path::PathBuf> {
    dirs::data_local_dir()
}

/// Relies on std's PathBuf::from.
#[verifier::external_body]
fn path_from_str(s: &str) -> std::path::PathBuf {
    std::path::PathBuf::from(s)
}

/// Relies on std's Path::join: appends one component to a path.
#[verifier::external_body]
fn path_join(base: &std::path::PathBuf, name: &str) -> std::path::PathBuf {
    base.join(name)
}

/// The application's data directory: the platform's local-data directory
/// (falling back to the current directory) with the application's own folder
/// appended. Copying this directory relocates the whole store.
pub fn data_dir() -> std::path::PathBuf {
    let base = match data_local_dir() {
        Some(d) => d,
        None => path_from_str("."),
    };
    path_join(&base, "red-tomato")
}

/// Where the history database lives: [`DB_FILENAME`] inside [`data_dir`].
pub fn db_path() -> std::path::PathBuf {
    let dir = data_dir();
    path_join(&dir, DB_FILENAME)
}

/// Relies on rusqlite::Connection::open: opens (creating the file if
/// missing) the SQLite database at `path`. What the table holds afterwards
/// is whatever the file already held, so nothing is promised of
/// [`table_records`].
#[verifier::external_body]
fn open_connection(path: &std::path::PathBuf) -> Result<rusqlite::Connection, rusqlite::Error> {
    rusqlite::Connection::open(path)
}

/// Relies on rusqlite::Connection::execute_batch running a single
/// `CREATE TABLE IF NOT EXISTS`: it creates the table only when absent (in
/// which case the model already read as empty) and never touches existing
/// rows, so the contents are unchanged on success.
#[verifier::external_body]
fn create_table_if_missing(conn: &mut rusqlite::Connection) -> (r: Result<(), rusqlite::Error>)
    ensures
        r is Ok ==> table_records(*final(conn)) == table_records(*old(conn)),
{
    conn.execute_batch(
        "CREATE TABLE IF NOT EXISTS focus_records (
            id INTEGER PRIMARY KEY AUTOINCREMENT,
            task TEXT NOT NULL,
            duration_secs INTEGER NOT NULL,
            completed_at TEXT NOT NULL,
            completed_pomodoros INTEGER NOT NULL
        );",
    )
}

/// Relies on rusqlite::Connection::execute running a single `INSERT`: on
/// success the table holds exactly one more row, with these fields, at the
/// end; a failed single INSERT leaves the table unchanged.
#[verifier::external_body]
fn insert_row(
    conn: &mut rusqlite::Connection,
    task: &str,
    duration_seconds: i64,
    completed_at: &str,
    completed_pomodoros: u32,
) -> (r: Result<(), rusqlite::Error>)
    ensures
        r is Ok ==> table_records(*final(conn)) == table_records(*old(conn)).push(
            (task@, duration_seconds, completed_at@, completed_pomodoros),
        ),
        r is Err ==> table_records(*final(conn)) == table_records(*old(conn)),
{
    let sql =
        "INSERT INTO focus_records (task, duration_secs, completed_at, completed_pomodoros) VALUES (?1, ?2, ?3, ?4)";
    match conn.execute(sql, (task, duration_seconds, completed_at, completed_pomodoros as i64)) {
        Ok(_) => Ok(()),
        Err(e) => Err(e),
    }
}

/// Relies on rusqlite prepare/query_map/collect over a `SELECT` of every
/// row: on success the returned rows are exactly the table's rows. SQLite
/// promises no walk order without `ORDER BY`, so only the multiset of rows
/// is stated.
#[verifier::external_body]
fn query_all_rows(conn: &rusqlite::Connection) -> (r: Result<Vec<FocusRow>, rusqlite::Error>)
    ensures
        r matches Ok(rows) ==> row_models(rows@).to_multiset() == table_records(
            *conn,
        ).to_multiset(),
{
    let sql =
        "SELECT id, task, duration_secs, completed_at, completed_pomodoros FROM focus_records";
    let mut stmt = conn.prepare(sql)?;
    let rows = stmt.query_map([], |row| {
        Ok(FocusRow {
            id: row.get(0)?,
            task: row.get(1)?,
            duration_seconds: row.get(2)?,
            completed_at: row.get(3)?,
            completed_pomodoros: row.get::<_, i64>(4)? as u32,
        })
    })?;
    rows.collect()
}

impl Clone for FocusRow {
    fn clone(&self) -> (r: FocusRow)
        ensures
            r.id == self.id,
            r.model() == self.model(),
    {
        FocusRow {
            id: self.id,
            task: self.task.clone(),
            duration_seconds: self.duration_seconds,
            completed_at: self.completed_at.clone(),
            completed_pomodoros: self.completed_pomodoros,
        }
    }
}

proof fn lemma_row_models_insert(s: Seq<FocusRow>, k: int, r: FocusRow)
    requires
        0 <= k <= s.len(),
    ensures
        row_models(s.insert(k, r)) =~= row_models(s).insert(k, r.model()),
{
}

proof fn lemma_row_models_push(s: Seq<FocusRow>, r: FocusRow)
    ensures
        row_models(s.push(r)) =~= row_models(s).push(r.model()),
{
}

/// A copy of `rows` sorted descending by completion time: the same rows (as
/// a multiset of models), newest first.
fn sort_rows_desc(rows: &Vec<FocusRow>) -> (r: Vec<FocusRow>)
    ensures
        r@.len() == rows@.len(),
        sorted_desc_by_completed_at(row_models(r@)),
        row_models(r@).to_multiset() == row_models(rows@).to_multiset(),
{
    let mut out: Vec<FocusRow> = Vec::new();
    let mut idx: usize = 0;
    proof {
        assert(rows@.take(0) =~= Seq::<FocusRow>::empty());
        assert(row_models(Seq::<FocusRow>::empty()) =~= Seq::<RecModel>::empty());
    }
    while idx < rows.len()
        invariant
            idx <= rows@.len(),
            out@.len() == idx,
            sorted_desc_by_completed_at(row_models(out@)),
            row_models(out@).to_multiset() == row_models(rows@.take(idx as int)).to_multiset(),
        decreases rows@.len() - idx,
    {
        let rec = rows[idx].clone();
        let mut k: usize = 0;
        while k < out.len() && str_leq(rec.completed_at.as_str(), out[k].completed_at.as_str())
            invariant
                k <= out@.len(),
                forall|j: int|
                    0 <= j < k ==> #[trigger] lex_leq(rec.model().2, row_models(out@)[j].2),
            decreases out@.len() - k,
        {
            k = k + 1;
        }
        proof {
            let ms = row_models(out@);
            let m = rec.model();
            if k < out@.len() {
                lemma_lex_total(m.2, ms[k as int].2);
            }
            assert forall|j: int| k <= j < ms.len() implies #[trigger] lex_leq(
                ms[j].2,
                m.2,
            ) by {
                if k < j {
                    assert(lex_leq(ms[j].2, ms[k as int].2));
                    lemma_lex_trans(ms[j].2, ms[k as int].2, m.2);
                }
            }
            lemma_row_models_insert(out@, k as int, rec);
            let inserted = ms.insert(k as int, m);
            assert forall|i: int, j: int| 0 <= i < j < inserted.len() implies #[trigger] lex_leq(
                inserted[j].2,
                inserted[i].2,
            ) by {
                if i < k && j > k {
                    assert(inserted[i] == ms[i]);
                    assert(inserted[j] == ms[j - 1]);
                }
            }
            assert(rows@.take(idx as int + 1) =~= rows@.take(idx as int).push(rows@[idx as int]));
            lemma_row_models_push(rows@.take(idx as int), rows@[idx as int]);
        }
        let ghost pre = out@;
        out.insert(k, rec);
        proof {
            let m = rec.model();
            assert(row_models(out@) =~= row_models(pre).insert(k as int, m));
            assert(row_models(pre).insert(k as int, m).to_multiset() == row_models(
                pre,
            ).to_multiset().insert(m));
            assert(row_models(rows@.take(idx as int)).push(
                rows@[idx as int].model(),
            ).to_multiset() == row_models(rows@.take(idx as int)).to_multiset().insert(
                rows@[idx as int].model(),
            ));
            assert(row_models(rows@.take(idx as int + 1)).to_multiset() == row_models(
                rows@.take(idx as int),
            ).to_multiset().insert(rows@[idx as int].model()));
        }
        idx = idx + 1;
    }
    proof {
        assert(rows@.take(idx as int) =~= rows@);
    }
    out
}

/// Load the stored focus records, newest first: every row when `limit` is 0,
/// otherwise the `limit` most recent ones — each record left out is then no
/// newer than any returned.
pub fn load_focus_records(conn: &rusqlite::Connection, limit: u32) -> (r: Result<
    Vec<FocusRow>,
    rusqlite::Error,
>)
    ensures
        r matches Ok(rows) ==> {
            &&& sorted_desc_by_completed_at(row_models(rows@))
            &&& (limit == 0 || table_records(*conn).len() <= limit ==> row_models(
                rows@,
            ).to_multiset() == table_records(*conn).to_multiset())
            &&& rows@.len() == (if limit == 0 || table_records(*conn).len() <= limit {
                table_records(*conn).len() as int
            } else {
                limit as int
            })
            &&& (forall|m: RecModel| #[trigger]
                table_records(*conn).to_multiset().sub(row_models(rows@).to_multiset()).count(m)
                    > 0 ==> rows@.len() > 0 && lex_leq(m.2, row_models(rows@).last().2))
        },
{
    let all = match query_all_rows(conn) {
        Ok(a) => a,
        Err(e) => {
            return Err(e);
        },
    };
    let ghost table = table_records(*conn);
    let mut sorted = sort_rows_desc(&all);
    proof {
        assert(row_models(sorted@).len() == sorted@.len());
        assert(row_models(sorted@).len() == row_models(sorted@).to_multiset().len());
        assert(table.len() == table.to_multiset().len());
        assert(sorted@.len() == table.len());
    }
    if limit == 0 || sorted.len() <= limit as usize {
        proof {
            assert forall|m: RecModel| #[trigger] table.to_multiset().sub(
                row_models(sorted@).to_multiset(),
            ).count(m) <= 0 by {
                assert(table.to_multiset().count(m) == row_models(
                    sorted@,
                ).to_multiset().count(m));
            }
        }
        return Ok(sorted);
    }
    let ghost full = row_models(sorted@);
    let k = limit as usize;
    sorted.truncate(k);
    proof {
        let kept = full.take(k as int);
        let cut = full.skip(k as int);
        assert(row_models(sorted@) =~= kept);
        assert(kept + cut =~= full);
        vstd::seq_lib::lemma_multiset_commutative(kept, cut);
        assert(table.to_multiset() == kept.to_multiset().add(cut.to_multiset()));
        assert forall|a: int, b: int| 0 <= a < b < kept.len() implies #[trigger] lex_leq(
            kept[b].2,
            kept[a].2,
        ) by {
            assert(kept[a] == full[a]);
            assert(kept[b] == full[b]);
            assert(lex_leq(full[b].2, full[a].2));
        }
        assert forall|m: RecModel| #[trigger] table.to_multiset().sub(
            kept.to_multiset(),
        ).count(m) > 0 implies lex_leq(m.2, kept.last().2) by {
            assert(cut.to_multiset().count(m) > 0);
            assert(cut.contains(m));
            let j = choose|j: int| 0 <= j < cut.len() && cut[j] == m;
            assert(full[k as int + j] == m);
            assert(kept.last() == full[k - 1]);
            assert(lex_leq(full[k as int + j].2, full[k - 1].2));
        }
    }
    Ok(sorted)
}

/// Make sure the `focus_records` table exists on an already opened
/// connection; existing rows are never touched.
pub fn init_schema(conn: &mut rusqlite::Connection) -> (r: Result<(), rusqlite::Error>)
    ensures
        r is Ok ==> table_records(*final(conn)) == table_records(*old(conn)),
{
    create_table_if_missing(conn)
}

/// The record content of a loaded row, shedding the surrogate key.
pub fn record_of_row(row: &FocusRow) -> (r: FocusRecord)
    ensures
        r.model() == row.model(),
{
    FocusRecord {
        task: row.task.clone(),
        duration_seconds: row.duration_seconds,
        completed_at: row.completed_at.clone(),
        completed_pomodoros: row.completed_pomodoros,
    }
}

/// Open the history database at `path` and make sure the `focus_records`
/// table exists. The caller creates the parent directory first (see
/// [`db_path`]); existing rows are never touched.
pub fn open_and_init(path: &std::path::PathBuf) -> Result<rusqlite::Connection, rusqlite::Error> {
    let mut conn = match open_connection(path) {
        Ok(c) => c,
        Err(e) => {
            return Err(e);
        },
    };
    match create_table_if_missing(&mut conn) {
        Ok(()) => Ok(conn),
        Err(e) => Err(e),
    }
}

/// Durably append one completed focus record. On success the table holds
/// exactly the old rows plus this one; on failure it is unchanged — the
/// caller may keep its in-memory cache either way, persistence being best
/// effort.
pub fn insert_focus_record(
    conn: &mut rusqlite::Connection,
    task: &str,
    duration_seconds: i64,
    completed_at: &str,
    completed_pomodoros: u32,
) -> (r: Result<(), rusqlite::Error>)
    ensures
        r is Ok ==> table_records(*final(conn)) == table_records(*old(conn)).push(
            (task@, duration_seconds, completed_at@, completed_pomodoros),
        ),
        r is Err ==> table_records(*final(conn)) == table_records(*old(conn)),
{
    insert_row(conn, task, duration_seconds, completed_at, completed_pomodoros)
}

} // verus!
