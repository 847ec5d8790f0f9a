//! Activity statistics and tasks: the values the dashboard shows, and the
//! logic that turns query results into them.
use vstd::prelude::*;
use crate::calendar::{
    chrono_next_minus, prev_day_text, prev_ymd, render_date, valid_date, law_prev_day_text_of_date,
    law_prev_is_previous_day,
};

verus! {

/// Number of events on one day.
pub struct DayCount {
    pub date: String,
    pub count: i64,
}

/// Number of events of one app.
pub struct AppCount {
    pub app: String,
    pub count: i64,
}

/// The dashboard's statistics.
pub struct Stats {
    pub today: i64,
    pub total: i64,
    pub streak: i64,
    pub heatmap: Vec<DayCount>,
    pub top_apps: Vec<AppCount>,
}

/// The texts of a list of strings.
pub open spec fn texts(v: Seq<String>) -> Seq<Seq<char>> {
    v.map_values(|s: String| s@)
}

/// The day `k` days before `start`, stepping back with the previous-day function.
pub open spec fn walk_back(start: Seq<char>, k: nat) -> Seq<char>
    decreases k,
{
    if k == 0 {
        start
    } else {
        prev_day_text(walk_back(start, (k - 1) as nat))
    }
}

/// `n` consecutive days back from `start` are active, and the next one is not.
pub open spec fn is_run(days: Seq<Seq<char>>, start: Seq<char>, n: nat) -> bool {
    &&& forall|j: nat| j < n ==> days.contains(#[trigger] walk_back(start, j))
    &&& !days.contains(walk_back(start, n))
}

/// Where the streak is counted from: the most recent active day, when that
/// is today or yesterday.
pub open spec fn streak_start(days: Seq<Seq<char>>, today: Seq<char>, yesterday: Seq<char>) -> Option<Seq<char>> {
    if days.len() > 0 && (days[0] == today || days[0] == yesterday) {
        Some(days[0])
    } else {
        None
    }
}

fn contains_text(days: &Vec<String>, s: &String) -> (b: bool)
    ensures
        b == texts(days@).contains(s@),
{
    let mut i: usize = 0;
    while i < days.len()
        invariant
            i <= days.len(),
            forall|j: int| 0 <= j < i ==> days@[j]@ != s@,
        decreases days.len() - i,
    {
        if days[i] == *s {
            assert(texts(days@)[i as int] == s@);
            return true;
        }
        i = i + 1;
    }
    proof {
        if texts(days@).contains(s@) {
            let j = choose|j: int| 0 <= j < texts(days@).len() && texts(days@)[j] == s@;
            assert(days@[j]@ == s@);
        }
    }
    false
}

proof fn lemma_walk_shift(start: Seq<char>, a: nat, b: nat, k: nat)
    requires
        walk_back(start, a) == walk_back(start, b),
    ensures
        walk_back(start, a + k) == walk_back(start, b + k),
    decreases k,
{
    if k > 0 {
        lemma_walk_shift(start, a, b, (k - 1) as nat);
        assert(walk_back(start, a + k) == prev_day_text(walk_back(start, (a + k - 1) as nat)));
        assert(walk_back(start, b + k) == prev_day_text(walk_back(start, (b + k - 1) as nat)));
    }
}

/// Once the walk returns to a day it has seen, it cycles through active
/// days forever.
proof fn lemma_walk_stays(days: Seq<Seq<char>>, start: Seq<char>, a: nat, b: nat, n: nat)
    requires
        a < b,
        forall|j: nat| j <= b ==> days.contains(#[trigger] walk_back(start, j)),
        walk_back(start, a) == walk_back(start, b),
    ensures
        days.contains(walk_back(start, n)),
    decreases n,
{
    if n > b {
        let k = (n - b) as nat;
        lemma_walk_shift(start, a, b, k);
        assert(b + k == n);
        lemma_walk_stays(days, start, a, b, (a + k) as nat);
    }
}

/// `days.len() + 1` steps of the walk inside `days` must repeat a day.
proof fn lemma_walk_repeats(days: Seq<Seq<char>>, start: Seq<char>)
    requires
        forall|j: nat| j <= days.len() ==> days.contains(#[trigger] walk_back(start, j)),
    ensures
        exists|a: nat, b: nat| a < b <= days.len() && walk_back(start, a) == walk_back(start, b),
{
    let len = days.len();
    let xs = vstd::set_lib::set_int_range(0, len + 1int);
    vstd::set_lib::lemma_int_range(0, len + 1int);
    let f = |j: int| walk_back(start, j as nat);
    let ys = xs.map(f);
    vstd::set_lib::lemma_map_size_bound(xs, ys, f);
    days.lemma_cardinality_of_set();
    assert(ys.subset_of(days.to_set())) by {
        assert forall|t: Seq<char>| ys.contains(t) implies days.to_set().contains(t) by {
            let j = choose|j: int| xs.contains(j) && f(j) == t;
            assert(days.contains(walk_back(start, j as nat)));
        }
    }
    vstd::set_lib::lemma_len_subset(ys, days.to_set());
    if vstd::relations::injective_on(f, xs) {
        vstd::set_lib::lemma_map_size(xs, ys, f);
        assert(false);
    }
    let (x1, x2) = choose|x1: int, x2: int| xs.contains(x1) && xs.contains(x2) && f(x1) == f(x2) && x1 != x2;
    if x1 < x2 {
        assert(walk_back(start, x1 as nat) == walk_back(start, x2 as nat));
    } else {
        assert(walk_back(start, x2 as nat) == walk_back(start, x1 as nat));
    }
}

/// Counts the streak: the number of consecutive active days walking back
/// from the most recent active day, provided that day is today or
/// yesterday (else 0). `active_days` are distinct days, most recent first.
/// Should the walk run in a cycle through active days, so that it never
/// leaves them, the count stops at the number of active days.
pub fn activity_streak(active_days: &Vec<String>, today: &String, yesterday: &String) -> (streak: i64)
    requires
        active_days.len() <= i64::MAX,
    ensures
        match streak_start(texts(active_days@), today@, yesterday@) {
            None => streak == 0,
            Some(start) => streak >= 0 && (is_run(texts(active_days@), start, streak as nat) || (
            streak == active_days.len() && forall|n: nat|
                texts(active_days@).contains(#[trigger] walk_back(start, n)))),
        },
{
    let ghost days = texts(active_days@);
    if active_days.len() == 0 {
        return 0;
    }
    let first = &active_days[0];
    if !(*first == *today || *first == *yesterday) {
        return 0;
    }
    let ghost start = first@;
    assert(days[0] == start);
    let mut cursor: String = if *first == *today {
        today.clone()
    } else {
        yesterday.clone()
    };
    let mut count: usize = 0;
    while count < active_days.len() && contains_text(active_days, &cursor)
        invariant
            days == texts(active_days@),
            days.len() == active_days.len(),
            count <= active_days.len(),
            cursor@ == walk_back(start, count as nat),
            forall|j: nat| j < count ==> days.contains(#[trigger] walk_back(start, j)),
        decreases active_days.len() - count,
    {
        count = count + 1;
        cursor = chrono_next_minus(&cursor);
    }
    proof {
        if count == active_days.len() && days.contains(cursor@) {
            assert forall|j: nat| j <= days.len() implies days.contains(#[trigger] walk_back(start, j)) by {
                if j == count {
                } else {
                    assert(j < count);
                }
            }
            lemma_walk_repeats(days, start);
            let (a, b) = choose|a: nat, b: nat| a < b <= days.len() && walk_back(start, a) == walk_back(start, b);
            assert forall|n: nat| days.contains(#[trigger] walk_back(start, n)) by {
                lemma_walk_stays(days, start, a, b, n);
            }
        }
    }
    count as i64
}

/// `(y, m, d)` stepped back `k` days.
pub open spec fn days_back(y: int, m: int, d: int, k: nat) -> (int, int, int)
    decreases k,
{
    if k == 0 {
        (y, m, d)
    } else {
        let p = days_back(y, m, d, (k - 1) as nat);
        prev_ymd(p.0, p.1, p.2)
    }
}

proof fn lemma_days_back_valid(y: int, m: int, d: int, k: nat)
    requires
        valid_date(y, m, d),
        0 <= y <= 9999,
        days_back(y, m, d, k).0 >= 0,
    ensures
        forall|j: nat| j <= k ==> {
            let p = #[trigger] days_back(y, m, d, j);
            valid_date(p.0, p.1, p.2) && 0 <= p.0 <= y
        },
    decreases k,
{
    if k > 0 {
        let q = days_back(y, m, d, (k - 1) as nat);
        lemma_days_back_monotone(y, m, d, (k - 1) as nat);
        lemma_days_back_valid(y, m, d, (k - 1) as nat);
        law_prev_is_previous_day(q.0, q.1, q.2);
    }
}

/// Years never grow when stepping back, and valid dates stay valid.
proof fn lemma_days_back_monotone(y: int, m: int, d: int, k: nat)
    requires
        valid_date(y, m, d),
    ensures
        valid_date(days_back(y, m, d, k).0, days_back(y, m, d, k).1, days_back(y, m, d, k).2),
        days_back(y, m, d, k).0 <= y,
        days_back(y, m, d, k + 1).0 <= days_back(y, m, d, k).0,
    decreases k,
{
    if k > 0 {
        lemma_days_back_monotone(y, m, d, (k - 1) as nat);
    }
    let q = days_back(y, m, d, k);
    law_prev_is_previous_day(q.0, q.1, q.2);
}

/// The streak walks back through calendar days: from a day as SQLite writes
/// it, the `k`-th step of the previous-day function is the day `k` calendar
/// days earlier (as long as the walk stays in year 0 or later).
pub proof fn law_walk_back_is_calendar(y: int, m: int, d: int, k: nat)
    requires
        valid_date(y, m, d),
        0 <= y <= 9999,
        k == 0 || days_back(y, m, d, (k - 1) as nat).0 >= 0,
    ensures
        walk_back(render_date(y, m, d), k) == ({
            let p = days_back(y, m, d, k);
            render_date(p.0, p.1, p.2)
        }),
    decreases k,
{
    if k > 0 {
        let km = (k - 1) as nat;
        lemma_days_back_valid(y, m, d, km);
        if km > 0 {
            lemma_days_back_monotone(y, m, d, (km - 1) as nat);
        }
        law_walk_back_is_calendar(y, m, d, km);
        let q = days_back(y, m, d, km);
        law_prev_day_text_of_date(q.0, q.1, q.2);
    }
}

/// A task row.
#[derive(Clone)]
pub struct Task {
    pub id: i64,
    pub title: String,
    pub notes: Option<String>,
    pub due_date: Option<String>,
    pub duration_min: Option<i64>,
    pub done: bool,
    pub created_ts: i64,
}

pub open spec fn opt_text(o: Option<&str>) -> Option<Seq<char>> {
    match o {
        Some(s) => Some(s@),
        None => None,
    }
}

pub open spec fn opt_string_text(o: Option<String>) -> Option<Seq<char>> {
    match o {
        Some(s) => Some(s@),
        None => None,
    }
}

fn owned_opt(o: Option<&str>) -> (r: Option<String>)
    ensures
        opt_string_text(r) == opt_text(o),
{
    match o {
        Some(s) => Some(String::from_str(s)),
        None => None,
    }
}

/// The task just inserted with row id `id`: open, created at `ts`.
pub fn new_task(
    id: i64,
    title: &str,
    notes: Option<&str>,
    due_date: Option<&str>,
    duration_min: Option<i64>,
    ts: i64,
) -> (t: Task)
    ensures
        t.id == id,
        t.title@ == title@,
        opt_string_text(t.notes) == opt_text(notes),
        opt_string_text(t.due_date) == opt_text(due_date),
        t.duration_min == duration_min,
        !t.done,
        t.created_ts == ts,
{
    Task {
        id,
        title: String::from_str(title),
        notes: owned_opt(notes),
        due_date: owned_opt(due_date),
        duration_min,
        done: false,
        created_ts: ts,
    }
}

/// A task from the columns of a `tasks` row; the stored `done` flag is
/// true when non-zero.
pub fn task_from_row(
    id: i64,
    title: String,
    notes: Option<String>,
    due_date: Option<String>,
    duration_min: Option<i64>,
    done: i64,
    created_ts: i64,
) -> (t: Task)
    ensures
        t == (Task { id, title, notes, due_date, duration_min, done: done != 0, created_ts }),
{
    Task { id, title, notes, due_date, duration_min, done: done != 0, created_ts }
}

/// Which tasks a listing asks for.
#[derive(Clone, PartialEq, Eq, Debug)]
pub enum TaskQuery {
    /// Open tasks scheduled for the day.
    Day(String),
    /// Open tasks without a due date.
    Unscheduled,
    /// Recently completed tasks, newest first.
    Recent,
    /// Every open task (dashboard preview).
    Open,
}

/// The listing filter chosen by the UI's `filter` and `day`: `"day"` needs a
/// day, `"unscheduled"` and `"recent"` are their own lists, anything else
/// lists every open task.
pub fn task_query(filter: &str, day: Option<&str>) -> (q: TaskQuery)
    ensures
        filter@ == "day"@ && day is Some ==> (q matches TaskQuery::Day(d) && d@ == day->0@),
        !(filter@ == "day"@ && day is Some) && filter@ == "unscheduled"@ ==> q == TaskQuery::Unscheduled,
        !(filter@ == "day"@ && day is Some) && filter@ != "unscheduled"@ && filter@ == "recent"@
            ==> q == TaskQuery::Recent,
        !(filter@ == "day"@ && day is Some) && filter@ != "unscheduled"@ && filter@ != "recent"@
            ==> q == TaskQuery::Open,
{
    if crate::text::str_eq(filter, "day") {
        if let Some(d) = day {
            return TaskQuery::Day(String::from_str(d));
        }
    }
    if crate::text::str_eq(filter, "unscheduled") {
        TaskQuery::Unscheduled
    } else if crate::text::str_eq(filter, "recent") {
        TaskQuery::Recent
    } else {
        TaskQuery::Open
    }
}

/// The stored `done` flag and completion time for marking a task done or open.
pub fn done_columns(done: bool, ts: i64) -> (cols: (i64, Option<i64>))
    ensures
        cols == (if done { (1i64, Some(ts)) } else { (0i64, None::<i64>) }),
{
    if done {
        (1, Some(ts))
    } else {
        (0, None)
    }
}

} // verus!
