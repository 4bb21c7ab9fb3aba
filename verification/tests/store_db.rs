use red_tomato::store::init_schema;
use red_tomato::store::insert_focus_record;
use red_tomato::store::load_focus_records;
use red_tomato::store::record_of_row;

fn memory_store() -> rusqlite::Connection {
    let mut conn = rusqlite::Connection::open_in_memory().expect("open in-memory database");
    init_schema(&mut conn).expect("create table");
    conn
}

const T1: &str = "2024-03-01T09:00:00+08:00";
const T2: &str = "2024-03-01T12:30:00+08:00";
const T3: &str = "2024-03-02T08:00:00+08:00";

#[test]
fn insert_then_load_round_trips() {
    let mut conn = memory_store();
    insert_focus_record(&mut conn, "write tests", 1500, T1, 1).expect("insert");
    let rows = load_focus_records(&conn, 0).expect("load");
    assert_eq!(rows.len(), 1);
    assert_eq!(rows[0].task, "write tests");
    assert_eq!(rows[0].duration_seconds, 1500);
    assert_eq!(rows[0].completed_at, T1);
    assert_eq!(rows[0].completed_pomodoros, 1);
    let rec = record_of_row(&rows[0]);
    assert_eq!(rec.task, "write tests");
    assert_eq!(rec.completed_at, T1);
}

#[test]
fn load_orders_newest_first() {
    let mut conn = memory_store();
    insert_focus_record(&mut conn, "b", 60, T2, 2).expect("insert");
    insert_focus_record(&mut conn, "c", 60, T3, 3).expect("insert");
    insert_focus_record(&mut conn, "a", 60, T1, 1).expect("insert");
    let rows = load_focus_records(&conn, 0).expect("load");
    let keys: Vec<&str> = rows.iter().map(|r| r.completed_at.as_str()).collect();
    assert_eq!(keys, vec![T3, T2, T1]);
}

#[test]
fn load_with_limit_keeps_the_most_recent() {
    let mut conn = memory_store();
    insert_focus_record(&mut conn, "a", 60, T1, 1).expect("insert");
    insert_focus_record(&mut conn, "c", 60, T3, 3).expect("insert");
    insert_focus_record(&mut conn, "b", 60, T2, 2).expect("insert");
    let rows = load_focus_records(&conn, 2).expect("load");
    assert_eq!(rows.len(), 2);
    assert_eq!(rows[0].completed_at, T3);
    assert_eq!(rows[1].completed_at, T2);
    let all = load_focus_records(&conn, 5).expect("load");
    assert_eq!(all.len(), 3);
}

#[test]
fn init_schema_is_idempotent_and_keeps_rows() {
    let mut conn = memory_store();
    insert_focus_record(&mut conn, "a", 60, T1, 1).expect("insert");
    init_schema(&mut conn).expect("second init");
    let rows = load_focus_records(&conn, 0).expect("load");
    assert_eq!(rows.len(), 1);
    assert_eq!(rows[0].task, "a");
}

#[test]
fn missing_table_reports_errors() {
    // Without init_schema the table does not exist: both operations report
    // the failure instead of inventing rows.
    let mut conn = rusqlite::Connection::open_in_memory().expect("open in-memory database");
    assert!(load_focus_records(&conn, 0).is_err());
    assert!(insert_focus_record(&mut conn, "a", 60, T1, 1).is_err());
    // After the failed insert, initialising finds an empty table.
    init_schema(&mut conn).expect("create table");
    let rows = load_focus_records(&conn, 0).expect("load");
    assert!(rows.is_empty());
}

#[test]
fn database_path_is_inside_the_app_data_dir() {
    let path = red_tomato::store::db_path();
    assert_eq!(path.file_name().and_then(|n| n.to_str()), Some("red_tomato.db"));
    let dir = path.parent().expect("db path has a directory");
    assert_eq!(dir.file_name().and_then(|n| n.to_str()), Some("red-tomato"));
    assert_eq!(dir, red_tomato::store::data_dir());
}

#[test]
fn empty_table_loads_empty() {
    let conn = memory_store();
    let rows = load_focus_records(&conn, 0).expect("load");
    assert!(rows.is_empty());
    let limited = load_focus_records(&conn, 7).expect("load");
    assert!(limited.is_empty());
}
