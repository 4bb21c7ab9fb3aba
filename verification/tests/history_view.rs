use red_tomato::history::FocusRecord;
use red_tomato::history::focus_rows_sorted_with_cumulative_tomatoes;
use red_tomato::history::sort_by_completed_at_asc;

fn record(task: &str, completed_at: &str, pomodoros: u32) -> FocusRecord {
    FocusRecord {
        task: task.to_string(),
        duration_seconds: 1500,
        completed_at: completed_at.to_string(),
        completed_pomodoros: pomodoros,
    }
}

const T1: &str = "2024-01-01T09:00:00+08:00";
const T2: &str = "2024-01-01T10:00:00+08:00";
const T3: &str = "2024-01-01T11:00:00+08:00";
const T4: &str = "2024-01-02T08:30:00+08:00";

#[test]
fn cumulative_counts_rise_with_time_for_one_task() {
    // Three records of task "A" with counts 1, 1, 1 at t1 < t2 < t3: the
    // ascending pass assigns 1, 2, 3, and the newest-first list shows the
    // record at t3 with 3, not 1.
    let history = vec![record("A", T2, 1), record("A", T3, 1), record("A", T1, 1)];
    let rows = focus_rows_sorted_with_cumulative_tomatoes(&history);
    assert_eq!(rows.len(), 3);
    assert_eq!(rows[0].0.completed_at, T3);
    assert_eq!(rows[0].1, 3);
    assert_eq!(rows[1].0.completed_at, T2);
    assert_eq!(rows[1].1, 2);
    assert_eq!(rows[2].0.completed_at, T1);
    assert_eq!(rows[2].1, 1);
}

#[test]
fn zero_pomodoro_record_counts_as_one() {
    // A record with completed_pomodoros == 0 contributes 1, exactly like a
    // record with 1.
    let with_zero = vec![record("A", T1, 0), record("A", T2, 2)];
    let with_one = vec![record("A", T1, 1), record("A", T2, 2)];
    let rows_zero = focus_rows_sorted_with_cumulative_tomatoes(&with_zero);
    let rows_one = focus_rows_sorted_with_cumulative_tomatoes(&with_one);
    assert_eq!(rows_zero[1].1, 1);
    assert_eq!(rows_one[1].1, 1);
    assert_eq!(rows_zero[0].1, 3);
    assert_eq!(rows_one[0].1, 3);
}

#[test]
fn tasks_accumulate_independently() {
    let history = vec![
        record("write", T1, 1),
        record("read", T2, 2),
        record("write", T3, 3),
        record("", T4, 1),
    ];
    let rows = focus_rows_sorted_with_cumulative_tomatoes(&history);
    assert_eq!(rows.len(), 4);
    // Newest first: T4 (empty task), T3 (write), T2 (read), T1 (write).
    assert_eq!(rows[0].0.task, "");
    assert_eq!(rows[0].1, 1);
    assert_eq!(rows[1].0.task, "write");
    assert_eq!(rows[1].1, 4);
    assert_eq!(rows[2].0.task, "read");
    assert_eq!(rows[2].1, 2);
    assert_eq!(rows[3].0.task, "write");
    assert_eq!(rows[3].1, 1);
}

#[test]
fn empty_history_yields_empty_view() {
    let rows = focus_rows_sorted_with_cumulative_tomatoes(&Vec::new());
    assert!(rows.is_empty());
}

#[test]
fn ascending_sort_orders_by_completion_key() {
    let history = vec![record("A", T3, 1), record("B", T1, 1), record("C", T2, 1)];
    let asc = sort_by_completed_at_asc(&history);
    let keys: Vec<&str> = asc.iter().map(|r| r.completed_at.as_str()).collect();
    assert_eq!(keys, vec![T1, T2, T3]);
    assert_eq!(asc[0].task, "B");
    assert_eq!(asc[1].task, "C");
    assert_eq!(asc[2].task, "A");
}
