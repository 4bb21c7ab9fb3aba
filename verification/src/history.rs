//! Focus history: the record of one completed focus interval and the derived
//! per-task cumulative tomato counts that the statistics view displays.

use vstd::prelude::*;

use crate::text::lemma_lex_total;
use crate::text::lemma_lex_trans;
use crate::text::lex_leq;
use crate::text::str_leq;

verus! {

broadcast use vstd::seq_lib::group_to_multiset_ensures;

/// One completed focus interval: the task label it was spent on (free text,
/// possibly empty), the configured duration it ran for, the completion time
/// as ISO-8601 text (the sort and group key), and the engine's pomodoro
/// counter at the moment of completion.
#[derive(Debug)]
pub struct FocusRecord {
    pub task: String,
    pub duration_seconds: i64,
    pub completed_at: String,
    pub completed_pomodoros: u32,
}

/// The mathematical content of a record: task, duration, completion key,
/// pomodoro count.
pub type RecModel = (Seq<char>, i64, Seq<char>, u32);

impl FocusRecord {
    pub open spec fn model(self) -> RecModel {
        (self.task@, self.duration_seconds, self.completed_at@, self.completed_pomodoros)
    }
}

impl Clone for FocusRecord {
    fn clone(&self) -> (r: FocusRecord)
        ensures
            r.model() == self.model(),
    {
        FocusRecord {
            task: self.task.clone(),
            duration_seconds: self.duration_seconds,
            completed_at: self.completed_at.clone(),
            completed_pomodoros: self.completed_pomodoros,
        }
    }
}

/// The models of a record sequence.
pub open spec fn models(s: Seq<FocusRecord>) -> Seq<RecModel> {
    s.map_values(|r: FocusRecord| r.model())
}

/// Ascending by completion time.
pub open spec fn sorted_asc_by_completed_at(s: Seq<RecModel>) -> bool {
    forall|i: int, j: int| 0 <= i < j < s.len() ==> #[trigger] lex_leq(s[i].2, s[j].2)
}

/// Descending by completion time.
pub open spec fn sorted_desc_by_completed_at(s: Seq<RecModel>) -> bool {
    forall|i: int, j: int| 0 <= i < j < s.len() ==> #[trigger] lex_leq(s[j].2, s[i].2)
}

proof fn lemma_models_insert(s: Seq<FocusRecord>, k: int, r: FocusRecord)
    requires
        0 <= k <= s.len(),
    ensures
        models(s.insert(k, r)) =~= models(s).insert(k, r.model()),
{
}

proof fn lemma_models_push(s: Seq<FocusRecord>, r: FocusRecord)
    ensures
        models(s.push(r)) =~= models(s).push(r.model()),
{
}

/// A copy of `history` sorted ascending by completion time: the result holds
/// exactly the same records (as a multiset of models) in ascending order.
pub fn sort_by_completed_at_asc(history: &Vec<FocusRecord>) -> (r: Vec<FocusRecord>)
    ensures
        r@.len() == history@.len(),
        sorted_asc_by_completed_at(models(r@)),
        models(r@).to_multiset() == models(history@).to_multiset(),
{
    let mut out: Vec<FocusRecord> = Vec::new();
    let mut idx: usize = 0;
    proof {
        assert(history@.take(0) =~= Seq::<FocusRecord>::empty());
        assert(models(Seq::<FocusRecord>::empty()) =~= Seq::<RecModel>::empty());
    }
    while idx < history.len()
        invariant
            idx <= history@.len(),
            out@.len() == idx,
            sorted_asc_by_completed_at(models(out@)),
            models(out@).to_multiset() == models(history@.take(idx as int)).to_multiset(),
        decreases history@.len() - idx,
    {
        let rec = history[idx].clone();
        let mut k: usize = 0;
        while k < out.len() && str_leq(out[k].completed_at.as_str(), rec.completed_at.as_str())
            invariant
                k <= out@.len(),
                forall|j: int|
                    0 <= j < k ==> #[trigger] lex_leq(models(out@)[j].2, rec.model().2),
            decreases out@.len() - k,
        {
            k = k + 1;
        }
        proof {
            let ms = models(out@);
            let m = rec.model();
            if k < out@.len() {
                lemma_lex_total(ms[k as int].2, m.2);
            }
            assert forall|j: int| k <= j < ms.len() implies #[trigger] lex_leq(
                m.2,
                ms[j].2,
            ) by {
                if k < j {
                    assert(lex_leq(ms[k as int].2, ms[j].2));
                    lemma_lex_trans(m.2, ms[k as int].2, ms[j].2);
                }
            }
            lemma_models_insert(out@, k as int, rec);
            let inserted = ms.insert(k as int, m);
            assert forall|i: int, j: int| 0 <= i < j < inserted.len() implies #[trigger] lex_leq(
                inserted[i].2,
                inserted[j].2,
            ) by {
                if i < k && j > k {
                    assert(inserted[i] == ms[i]);
                    assert(inserted[j] == ms[j - 1]);
                }
            }
            assert(history@.take(idx as int + 1) =~= history@.take(idx as int).push(
                history@[idx as int],
            ));
            lemma_models_push(history@.take(idx as int), history@[idx as int]);
        }
        out.insert(k, rec);
        idx = idx + 1;
    }
    proof {
        assert(history@.take(idx as int) =~= history@);
    }
    out
}

/// What one record adds to its task's running tomato total: its pomodoro
/// count, floored at 1 so that legacy records with a zero count still count
/// as one tomato.
pub open spec fn tomato_contribution(p: u32) -> int {
    if p == 0 {
        1
    } else {
        p as int
    }
}

/// Total tomato contribution of the records of `task` among the first `upto`
/// records of `s`.
pub open spec fn task_tomatoes(s: Seq<RecModel>, task: Seq<char>, upto: int) -> int
    decreases upto,
{
    if upto <= 0 {
        0
    } else {
        task_tomatoes(s, task, upto - 1) + (if s[upto - 1].0 == task {
            tomato_contribution(s[upto - 1].3)
        } else {
            0
        })
    }
}

/// The cumulative tomato count displayed for record `i` of a time-ascending
/// list: the running total of its task up to and including itself.
pub open spec fn cumulative_at(s: Seq<RecModel>, i: int) -> int {
    task_tomatoes(s, s[i].0, i + 1)
}

pub open spec fn sat_u32(x: int) -> int {
    if x > u32::MAX {
        u32::MAX as int
    } else {
        x
    }
}

spec fn sat_u64(x: int) -> int {
    if x > u64::MAX {
        u64::MAX as int
    } else {
        x
    }
}

proof fn lemma_task_tomatoes_nonneg(s: Seq<RecModel>, task: Seq<char>, upto: int)
    ensures
        task_tomatoes(s, task, upto) >= 0,
    decreases upto,
{
    if upto > 0 {
        lemma_task_tomatoes_nonneg(s, task, upto - 1);
    }
}

proof fn lemma_task_tomatoes_monotone(s: Seq<RecModel>, task: Seq<char>, a: int, b: int)
    requires
        a <= b,
    ensures
        task_tomatoes(s, task, a) <= task_tomatoes(s, task, b),
    decreases b - a,
{
    if a < b {
        lemma_task_tomatoes_monotone(s, task, a, b - 1);
    }
}

/// Cumulative ordering: within one task, the running totals strictly
/// increase along the time-ascending list — a later record of the same task
/// always displays a larger count.
pub proof fn lemma_cumulative_strictly_increases(s: Seq<RecModel>, i: int, j: int)
    requires
        0 <= i < j < s.len(),
        s[i].0 == s[j].0,
    ensures
        cumulative_at(s, i) < cumulative_at(s, j),
{
    lemma_task_tomatoes_monotone(s, s[i].0, i + 1, j);
}

proof fn lemma_task_tomatoes_floor_update(
    s: Seq<RecModel>,
    i: int,
    task: Seq<char>,
    upto: int,
)
    requires
        0 <= i < s.len(),
        s[i].3 == 0,
        upto <= s.len(),
    ensures
        task_tomatoes(s.update(i, (s[i].0, s[i].1, s[i].2, 1u32)), task, upto) == task_tomatoes(
            s,
            task,
            upto,
        ),
    decreases upto,
{
    if upto > 0 {
        lemma_task_tomatoes_floor_update(s, i, task, upto - 1);
    }
}

/// Zero-pomodoro floor: a record whose stored pomodoro count is zero
/// contributes exactly 1, the same as a record with count 1 — replacing the
/// zero by a one changes no displayed running total.
pub proof fn lemma_zero_pomodoro_floor(s: Seq<RecModel>, i: int)
    requires
        0 <= i < s.len(),
        s[i].3 == 0,
    ensures
        tomato_contribution(s[i].3) == 1,
        tomato_contribution(1u32) == 1,
        forall|j: int|
            0 <= j < s.len() ==> #[trigger] cumulative_at(
                s.update(i, (s[i].0, s[i].1, s[i].2, 1u32)),
                j,
            ) == cumulative_at(s, j),
{
    let floored = s.update(i, (s[i].0, s[i].1, s[i].2, 1u32));
    assert forall|j: int| 0 <= j < s.len() implies #[trigger] cumulative_at(floored, j)
        == cumulative_at(s, j) by {
        assert(floored[j].0 == s[j].0);
        lemma_task_tomatoes_floor_update(s, i, s[j].0, j + 1);
    }
}

fn record_contribution(p: u32) -> (c: u64)
    ensures
        c == tomato_contribution(p),
{
    if p == 0 {
        1
    } else {
        p as u64
    }
}

/// The models of the records in a statistics row list.
pub open spec fn pair_models(s: Seq<(FocusRecord, u32)>) -> Seq<RecModel> {
    s.map_values(|p: (FocusRecord, u32)| p.0.model())
}

/// The statistics rows: the history ordered newest first, each record paired
/// with its task's cumulative tomato count. Counts are computed over the
/// time-ascending order — the reverse of the returned list — so the newest
/// record of a task shows the task's full total; they saturate at
/// `u32::MAX`.
pub fn focus_rows_sorted_with_cumulative_tomatoes(history: &Vec<FocusRecord>) -> (r: Vec<
    (FocusRecord, u32),
>)
    ensures
        r@.len() == history@.len(),
        sorted_desc_by_completed_at(pair_models(r@)),
        pair_models(r@).to_multiset() == models(history@).to_multiset(),
        forall|k: int|
            0 <= k < r@.len() ==> #[trigger] r@[k].1 == sat_u32(
                cumulative_at(pair_models(r@).reverse(), r@.len() - 1 - k),
            ),
{
    let asc = sort_by_completed_at_asc(history);
    let ghost ms = models(asc@);
    let n = asc.len();
    let mut out: Vec<(FocusRecord, u32)> = Vec::new();
    let mut i: usize = n;
    while i > 0
        invariant
            i <= n,
            n == asc@.len(),
            ms == models(asc@),
            out@.len() == n - i,
            forall|k: int|
                0 <= k < out@.len() ==> (#[trigger] out@[k].0.model()) == ms[n - 1 - k]
                    && out@[k].1 == sat_u32(cumulative_at(ms, n - 1 - k)),
        decreases i,
    {
        i = i - 1;
        let mut total: u64 = 0;
        let mut j: usize = 0;
        proof {
            lemma_task_tomatoes_nonneg(ms, ms[i as int].0, 0);
        }
        while j <= i
            invariant
                j <= i + 1,
                i < n,
                n == asc@.len(),
                ms == models(asc@),
                total == sat_u64(task_tomatoes(ms, ms[i as int].0, j as int)),
            decreases i + 1 - j,
        {
            proof {
                lemma_task_tomatoes_nonneg(ms, ms[i as int].0, j as int);
                assert(asc@[j as int].task@ == ms[j as int].0);
                assert(asc@[i as int].task@ == ms[i as int].0);
            }
            if asc[j].task == asc[i].task {
                let c = record_contribution(asc[j].completed_pomodoros);
                total = total.saturating_add(c);
            }
            j = j + 1;
        }
        let count: u32 = if total > u32::MAX as u64 {
            u32::MAX
        } else {
            total as u32
        };
        proof {
            lemma_task_tomatoes_nonneg(ms, ms[i as int].0, i + 1);
            assert(count == sat_u32(cumulative_at(ms, i as int)));
        }
        let rec = asc[i].clone();
        out.push((rec, count));
    }
    proof {
        assert(pair_models(out@).reverse() =~= ms);
        assert forall|a: int, b: int| 0 <= a < b < pair_models(out@).len() implies #[trigger]
            lex_leq(pair_models(out@)[b].2, pair_models(out@)[a].2) by {
            assert(pair_models(out@)[b] == ms[n - 1 - b]);
            assert(pair_models(out@)[a] == ms[n - 1 - a]);
            assert(lex_leq(ms[n - 1 - b].2, ms[n - 1 - a].2));
        }
        pair_models(out@).lemma_reverse_to_multiset();
    }
    out
}

} // verus!
