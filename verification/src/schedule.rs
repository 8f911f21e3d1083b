//! Scheduling rules: which jobs may be added, how their timing is described, and the
//! messages that adding, removing and firing jobs give.
use vstd::prelude::*;

use crate::registry::{lemma_text_lt_irreflexive, lemma_text_lt_transitive, text_lt, text_lt_exec};
use crate::text::{append_chars, append_str, decimal, decimal_chars, join, join_strings, str_eq, string_from, string_of, to_chars};

verus! {

/// Whether a schedule job sends a static reminder or runs the agent.
#[derive(Debug, Clone, Copy, PartialEq, Eq, Structural)]
pub enum JobMode {
    Reminder,
    Agent,
}

impl JobMode {
    /// The lower-case name of the mode.
    pub fn label(&self) -> (r: String)
        ensures
            r@ == (match self {
                JobMode::Reminder => "reminder"@,
                JobMode::Agent => "agent"@,
            }),
    {
        match self {
            JobMode::Reminder => string_from("reminder"),
            JobMode::Agent => string_from("agent"),
        }
    }

    /// The mode named by a tool argument: `agent` gives agent mode, anything else a reminder.
    pub fn from_arg(arg: Option<&str>) -> (r: JobMode)
        ensures
            r == (if arg matches Some(a) && a@ == "agent"@ {
                JobMode::Agent
            } else {
                JobMode::Reminder
            }),
    {
        match arg {
            Some(a) => if crate::text::str_eq(a, "agent") {
                JobMode::Agent
            } else {
                JobMode::Reminder
            },
            None => JobMode::Reminder,
        }
    }
}

/// The whole seconds left until a one-shot job fires, `after` seconds after it was made,
/// when `elapsed_secs` seconds and `elapsed_nanos` nanoseconds have passed; zero once due.
pub open spec fn seconds_left(after: u64, elapsed_secs: u64, elapsed_nanos: u32) -> nat {
    if after < elapsed_secs || (after == elapsed_secs && elapsed_nanos > 0) {
        0
    } else if elapsed_nanos > 0 {
        (after - elapsed_secs - 1) as nat
    } else {
        (after - elapsed_secs) as nat
    }
}

/// How a job's timing is described.
pub open spec fn schedule_text(after: Option<u64>, interval: Option<u64>, elapsed_secs: u64, elapsed_nanos: u32) -> Seq<char> {
    match after {
        Some(a) => "once in "@ + decimal(seconds_left(a, elapsed_secs, elapsed_nanos)) + "s"@,
        None => match interval {
            Some(i) => "every "@ + decimal(i as nat) + "s"@,
            None => "unknown"@,
        },
    }
}

/// Human-readable description of when a job fires, given the time since it was made.
pub fn schedule_description(after: Option<u64>, interval: Option<u64>, elapsed_secs: u64, elapsed_nanos: u32) -> (r: String)
    ensures
        r@ == schedule_text(after, interval, elapsed_secs, elapsed_nanos),
{
    let mut v: Vec<char> = Vec::new();
    match after {
        Some(a) => {
            let left: u64 = if a < elapsed_secs || (a == elapsed_secs && elapsed_nanos > 0) {
                0
            } else if elapsed_nanos > 0 {
                a - elapsed_secs - 1
            } else {
                a - elapsed_secs
            };
            append_str(&mut v, "once in ");
            let d = decimal_chars(left);
            append_chars(&mut v, &d);
            append_str(&mut v, "s");
        },
        None => match interval {
            Some(i) => {
                append_str(&mut v, "every ");
                let d = decimal_chars(i);
                append_chars(&mut v, &d);
                append_str(&mut v, "s");
            },
            None => {
                append_str(&mut v, "unknown");
            },
        },
    }
    string_of(&v)
}

/// The error, if any, that refuses a new job: it needs a timing, and agent mode needs an
/// agent runner.
pub open spec fn add_refusal(after: Option<u64>, interval: Option<u64>, mode: JobMode, has_runner: bool) -> Option<Seq<char>> {
    if after is None && interval is None {
        Some("Error: must specify either 'after_seconds' or 'interval_seconds'"@)
    } else if mode == JobMode::Agent && !has_runner {
        Some("Error: agent mode requires an agent runner (not available in this channel)"@)
    } else {
        None
    }
}

/// Checks whether a job may be added; gives the error text when it may not.
pub fn check_add(after: Option<u64>, interval: Option<u64>, mode: JobMode, has_runner: bool) -> (r: Option<String>)
    ensures
        crate::config::opt_text(r) == add_refusal(after, interval, mode, has_runner),
{
    if after.is_none() && interval.is_none() {
        return Some(string_from("Error: must specify either 'after_seconds' or 'interval_seconds'"));
    }
    if mode == JobMode::Agent && !has_runner {
        return Some(
            string_from("Error: agent mode requires an agent runner (not available in this channel)"),
        );
    }
    None
}

/// The reply to a job that was scheduled.
pub fn scheduled_reply(id: &str, description: &str) -> (r: String)
    ensures
        r@ == "scheduled: "@ + id@ + " fires="@ + description@,
{
    let mut v: Vec<char> = Vec::new();
    append_str(&mut v, "scheduled: ");
    append_str(&mut v, id);
    append_str(&mut v, " fires=");
    append_str(&mut v, description);
    string_of(&v)
}

/// The reply to removing a job, given whether it existed.
pub fn removed_reply(id: &str, existed: bool) -> (r: String)
    ensures
        r@ == (if existed {
            "removed: "@ + id@
        } else {
            "Error: job not found: "@ + id@
        }),
{
    let mut v: Vec<char> = Vec::new();
    if existed {
        append_str(&mut v, "removed: ");
    } else {
        append_str(&mut v, "Error: job not found: ");
    }
    append_str(&mut v, id);
    string_of(&v)
}

/// The row that lists a job.
pub fn job_row(id: &str, mode: JobMode, description: &str, message: &str) -> (r: String)
    ensures
        r@ == id@ + " mode="@ + (match mode {
            JobMode::Reminder => "reminder"@,
            JobMode::Agent => "agent"@,
        }) + " schedule="@ + description@ + " msg="@ + message@,
{
    let mut v: Vec<char> = Vec::new();
    append_str(&mut v, id);
    append_str(&mut v, " mode=");
    let m = mode.label();
    append_str(&mut v, m.as_str());
    append_str(&mut v, " schedule=");
    append_str(&mut v, description);
    append_str(&mut v, " msg=");
    append_str(&mut v, message);
    string_of(&v)
}

/// The notification a reminder job sends.
pub fn reminder_text(id: &str, message: &str) -> (r: String)
    ensures
        r@ == "\u{23f0} [Reminder: "@ + id@ + "] "@ + message@,
{
    let mut v: Vec<char> = Vec::new();
    append_str(&mut v, "\u{23f0} [Reminder: ");
    append_str(&mut v, id);
    append_str(&mut v, "] ");
    append_str(&mut v, message);
    string_of(&v)
}

/// The notification sent when an agent job fails.
pub fn agent_failure_text(id: &str, error: &str) -> (r: String)
    ensures
        r@ == "\u{26a0} [Schedule "@ + id@ + "] Agent job failed: "@ + error@,
{
    let mut v: Vec<char> = Vec::new();
    append_str(&mut v, "\u{26a0} [Schedule ");
    append_str(&mut v, id);
    append_str(&mut v, "] Agent job failed: ");
    append_str(&mut v, error);
    string_of(&v)
}

/// A job kept by the scheduler: its id, message and mode, when it was made (seconds and
/// nanoseconds on the scheduler's clock), and its timing.
pub struct ScheduledJob {
    pub id: String,
    pub message: String,
    pub mode: JobMode,
    pub created: (u64, u32),
    pub after: Option<u64>,
    pub interval: Option<u64>,
}

/// The model of a job.
pub type JobView = (Seq<char>, Seq<char>, JobMode, (u64, u32), Option<u64>, Option<u64>);

/// The model of a job.
pub open spec fn job_view(j: ScheduledJob) -> JobView {
    (j.id@, j.message@, j.mode, j.created, j.after, j.interval)
}

/// The models of jobs.
pub open spec fn job_views(v: Seq<ScheduledJob>) -> Seq<JobView> {
    v.map_values(|j: ScheduledJob| job_view(j))
}

/// The jobs other than those with id `id`.
pub open spec fn without_job(jobs: Seq<JobView>, id: Seq<char>) -> Seq<JobView>
    decreases jobs.len(),
{
    if jobs.len() == 0 {
        Seq::empty()
    } else {
        let r = without_job(jobs.drop_last(), id);
        if jobs.last().0 == id {
            r
        } else {
            r.push(jobs.last())
        }
    }
}

/// Whether a job has id `id`.
pub open spec fn has_job(jobs: Seq<JobView>, id: Seq<char>) -> bool {
    exists|i: int| 0 <= i < jobs.len() && #[trigger] jobs[i].0 == id
}

/// The time from `created` to `now`, as seconds and nanoseconds; zero when `now` is
/// earlier.
pub open spec fn elapsed_of(created: (u64, u32), now: (u64, u32)) -> (u64, u32) {
    if now.0 < created.0 || (now.0 == created.0 && now.1 <= created.1) {
        (0, 0)
    } else if now.1 >= created.1 {
        ((now.0 - created.0) as u64, (now.1 - created.1) as u32)
    } else {
        ((now.0 - created.0 - 1) as u64, (now.1 + 1000000000 - created.1) as u32)
    }
}

/// The time from `created` to `now`.
pub fn elapsed(created: (u64, u32), now: (u64, u32)) -> (r: (u64, u32))
    requires
        created.1 < 1000000000,
        now.1 < 1000000000,
    ensures
        r == elapsed_of(created, now),
        r.1 < 1000000000,
{
    if now.0 < created.0 || (now.0 == created.0 && now.1 <= created.1) {
        (0, 0)
    } else if now.1 >= created.1 {
        (now.0 - created.0, now.1 - created.1)
    } else {
        (now.0 - created.0 - 1, now.1 + 1000000000 - created.1)
    }
}

/// The row that lists a job at time `now`.
pub open spec fn row_of(j: JobView, now: (u64, u32)) -> Seq<char> {
    j.0 + " mode="@ + (match j.2 {
        JobMode::Reminder => "reminder"@,
        JobMode::Agent => "agent"@,
    }) + " schedule="@ + schedule_text(j.4, j.5, elapsed_of(j.3, now).0, elapsed_of(j.3, now).1) + " msg="@
        + j.1
}

/// Whether texts are in order: none comes before one ahead of it.
pub open spec fn texts_sorted(r: Seq<Seq<char>>) -> bool {
    forall|i: int, j: int| 0 <= i < j < r.len() ==> !text_lt(#[trigger] r[j], #[trigger] r[i])
}

/// The scheduler's listing of `rows`: the rows in order, one per line; a note when there
/// are no jobs.
pub open spec fn listing_is(text: Seq<char>, rows: Seq<Seq<char>>) -> bool {
    if rows.len() == 0 {
        text == "(no scheduled jobs)"@
    } else {
        exists|sorted: Seq<Seq<char>>|
            texts_sorted(sorted) && sorted.to_multiset() == rows.to_multiset() && text == join(
                sorted,
                "\n"@,
            )
    }
}

/// An in-memory scheduler: the jobs that are waiting to fire. Timers are run around it.
pub struct SchedulerService {
    jobs: Vec<ScheduledJob>,
}

impl View for SchedulerService {
    type V = Seq<JobView>;

    closed spec fn view(&self) -> Seq<JobView> {
        job_views(self.jobs@)
    }
}

/// The texts of `rows` in order.
pub fn sort_texts(rows: Vec<String>) -> (r: Vec<String>)
    ensures
        texts_sorted(crate::command::texts(r@)),
        crate::command::texts(r@).to_multiset() == crate::command::texts(rows@).to_multiset(),
{
    let ghost all = crate::command::texts(rows@);
    let mut out: Vec<String> = Vec::new();
    let mut i: usize = 0;
    let n = rows.len();
    assert(crate::command::texts(out@).to_multiset() =~= all.take(0).to_multiset()) by {
        broadcast use vstd::seq_lib::group_to_multiset_ensures;
        assert(all.take(0) =~= Seq::<Seq<char>>::empty());
        assert(crate::command::texts(out@) =~= Seq::<Seq<char>>::empty());
    }
    while i < n
        invariant
            i <= n,
            n == rows@.len(),
            all == crate::command::texts(rows@),
            texts_sorted(crate::command::texts(out@)),
            crate::command::texts(out@).to_multiset() == all.take(i as int).to_multiset(),
        decreases n - i,
    {
        let row = rows[i].clone();
        assert(row@ == all[i as int]);
        proof {
            broadcast use vstd::seq_lib::group_to_multiset_ensures;
            assert(all.take(i + 1) =~= all.take(i as int).push(all[i as int]));
        }
        insert_sorted(&mut out, row);
        i += 1;
    }
    assert(all.take(n as int) =~= all);
    out
}

/// Inserts `x` into sorted texts at the first place whose text comes after it.
pub(crate) fn insert_sorted(out: &mut Vec<String>, x: String)
    requires
        texts_sorted(crate::command::texts(old(out)@)),
    ensures
        texts_sorted(crate::command::texts(final(out)@)),
        crate::command::texts(final(out)@).to_multiset() == crate::command::texts(old(out)@).to_multiset().insert(x@),
{
    let ghost t = crate::command::texts(out@);
    let xv = to_chars(x.as_str());
    let mut p: usize = 0;
    while p < out.len() && !text_lt_exec(&xv, &to_chars(out[p].as_str()))
        invariant
            p <= out.len(),
            t == crate::command::texts(out@),
            xv@ == x@,
            forall|k: int| 0 <= k < p ==> !text_lt(x@, #[trigger] t[k]),
        decreases out.len() - p,
    {
        assert(t[p as int] == out@[p as int]@);
        p += 1;
    }
    proof {
        if p < out.len() {
            assert(t[p as int] == out@[p as int]@);
        }
    }
    let ghost xs = x@;
    out.insert(p, x);
    let ghost t2 = crate::command::texts(out@);
    assert(t2 =~= t.insert(p as int, xs));
    proof {
        assert forall|i: int, j: int| 0 <= i < j < t2.len() implies !text_lt(#[trigger] t2[j], #[trigger] t2[i]) by {
            if j < p {
                assert(t2[i] == t[i] && t2[j] == t[j]);
            } else if j == p {
                assert(t2[j] == xs && t2[i] == t[i]);
            } else if i == p {
                assert(t2[i] == xs && t2[j] == t[j - 1]);
                if p < t.len() {
                    assert(text_lt(xs, t[p as int]));
                    if text_lt(t[j - 1], xs) {
                        lemma_text_lt_transitive(t[j - 1], xs, t[p as int]);
                        if j - 1 > p {
                            assert(!text_lt(t[j - 1], t[p as int]));
                        } else {
                            lemma_text_lt_irreflexive(t[p as int]);
                        }
                    }
                }
            } else if i < p {
                assert(t2[i] == t[i] && t2[j] == t[j - 1]);
                if text_lt(t[j - 1], t[i]) {
                    assert(i < j - 1);
                }
            } else {
                assert(t2[i] == t[i - 1] && t2[j] == t[j - 1]);
            }
        }
        broadcast use vstd::seq_lib::group_to_multiset_ensures;
        assert(t2.remove(p as int) =~= t);
        assert(t2[p as int] == xs);
        assert(t2.to_multiset().remove(xs) == t.to_multiset());
        assert(t2.to_multiset().count(xs) > 0);
        assert(t2.to_multiset() =~= t.to_multiset().insert(xs));
    }
}

impl SchedulerService {
    /// A scheduler without jobs.
    pub fn new() -> (r: SchedulerService)
        ensures
            r@ == Seq::<JobView>::empty(),
    {
        let r = SchedulerService { jobs: Vec::new() };
        assert(job_views(r.jobs@) =~= Seq::<JobView>::empty());
        r
    }

    /// The number of active jobs.
    pub fn active_count(&self) -> (r: usize)
        ensures
            r == self@.len(),
    {
        self.jobs.len()
    }

    /// Whether a job with id `id` is waiting: a timer fires only for such a job.
    pub fn is_active(&self, id: &str) -> (r: bool)
        ensures
            r == has_job(self@, id@),
    {
        let ghost v = job_views(self.jobs@);
        let mut i: usize = 0;
        while i < self.jobs.len()
            invariant
                i <= self.jobs.len(),
                v == job_views(self.jobs@),
                forall|k: int| 0 <= k < i ==> #[trigger] v[k].0 != id@,
            decreases self.jobs.len() - i,
        {
            assert(v[i as int] == job_view(self.jobs@[i as int]));
            if str_eq(self.jobs[i].id.as_str(), id) {
                assert(v[i as int].0 == id@);
                return true;
            }
            i += 1;
        }
        false
    }

    /// Drops the jobs with id `id`.
    fn drop_job(&mut self, id: &str)
        ensures
            final(self)@ == without_job(old(self)@, id@),
    {
        let ghost v = job_views(self.jobs@);
        let mut kept: Vec<ScheduledJob> = Vec::new();
        let mut jobs: Vec<ScheduledJob> = Vec::new();
        std::mem::swap(&mut jobs, &mut self.jobs);
        assert(job_views(jobs@) == v);
        let mut i: usize = 0;
        while i < jobs.len()
            invariant
                i <= jobs.len(),
                v == job_views(jobs@),
                job_views(kept@) == without_job(v.take(i as int), id@),
            decreases jobs.len() - i,
        {
            assert(v.take(i + 1).drop_last() =~= v.take(i as int));
            assert(v.take(i + 1).last() == job_view(jobs@[i as int]));
            let j = &jobs[i];
            if !str_eq(j.id.as_str(), id) {
                let c = ScheduledJob {
                    id: j.id.clone(),
                    message: j.message.clone(),
                    mode: j.mode,
                    created: j.created,
                    after: j.after,
                    interval: j.interval,
                };
                let ghost before = job_views(kept@);
                kept.push(c);
                assert(job_views(kept@) =~= before.push(job_view(c)));
            }
            i += 1;
        }
        assert(v.take(jobs.len() as int) =~= v);
        self.jobs = kept;
    }

    /// Adds a job unless it lacks a timing, or needs an agent runner that is missing; a
    /// job with the same id is replaced. `created` is when the job is made and `now` when
    /// its timing is described in the reply.
    pub fn add_job(
        &mut self,
        id: &str,
        message: &str,
        after_seconds: Option<u64>,
        interval_seconds: Option<u64>,
        mode: JobMode,
        has_runner: bool,
        created: (u64, u32),
        now: (u64, u32),
    ) -> (r: String)
        requires
            created.1 < 1000000000,
            now.1 < 1000000000,
        ensures
            match add_refusal(after_seconds, interval_seconds, mode, has_runner) {
                Some(e) => r@ == e && final(self)@ == old(self)@,
                None => {
                    &&& final(self)@ == without_job(old(self)@, id@).push(
                        (id@, message@, mode, created, after_seconds, interval_seconds),
                    )
                    &&& r@ == "scheduled: "@ + id@ + " fires="@ + schedule_text(
                        after_seconds,
                        interval_seconds,
                        elapsed_of(created, now).0,
                        elapsed_of(created, now).1,
                    )
                },
            },
    {
        match check_add(after_seconds, interval_seconds, mode, has_runner) {
            Some(e) => e,
            None => {
                self.drop_job(id);
                let job = ScheduledJob {
                    id: string_from(id),
                    message: string_from(message),
                    mode,
                    created,
                    after: after_seconds,
                    interval: interval_seconds,
                };
                let ghost before = job_views(self.jobs@);
                self.jobs.push(job);
                assert(job_views(self.jobs@) =~= before.push(job_view(job)));
                let e = elapsed(created, now);
                let d = schedule_description(after_seconds, interval_seconds, e.0, e.1);
                scheduled_reply(id, d.as_str())
            },
        }
    }

    /// Removes the job with id `id`; reports whether there was one.
    pub fn remove_job(&mut self, job_id: &str) -> (r: String)
        ensures
            final(self)@ == without_job(old(self)@, job_id@),
            r@ == (if has_job(old(self)@, job_id@) {
                "removed: "@ + job_id@
            } else {
                "Error: job not found: "@ + job_id@
            }),
    {
        let existed = self.is_active(job_id);
        self.drop_job(job_id);
        removed_reply(job_id, existed)
    }

    /// The listing of the jobs at time `now`: one row per job, in order.
    pub fn list_jobs(&self, now: (u64, u32)) -> (r: String)
        requires
            now.1 < 1000000000,
            forall|i: int| 0 <= i < self@.len() ==> (#[trigger] self@[i]).3.1 < 1000000000,
        ensures
            listing_is(r@, self@.map_values(|j: JobView| row_of(j, now))),
    {
        let ghost v = job_views(self.jobs@);
        let ghost rows = v.map_values(|j: JobView| row_of(j, now));
        assert(v == self@);
        if self.jobs.len() == 0 {
            return string_from("(no scheduled jobs)");
        }
        let mut out: Vec<String> = Vec::new();
        let mut i: usize = 0;
        assert(crate::command::texts(out@).to_multiset() =~= rows.take(0).to_multiset()) by {
            broadcast use vstd::seq_lib::group_to_multiset_ensures;
            assert(rows.take(0) =~= Seq::<Seq<char>>::empty());
            assert(crate::command::texts(out@) =~= Seq::<Seq<char>>::empty());
        }
        while i < self.jobs.len()
            invariant
                i <= self.jobs.len(),
                v == job_views(self.jobs@),
                rows == v.map_values(|j: JobView| row_of(j, now)),
                now.1 < 1000000000,
                forall|k: int| 0 <= k < v.len() ==> (#[trigger] v[k]).3.1 < 1000000000,
                texts_sorted(crate::command::texts(out@)),
                crate::command::texts(out@).to_multiset() == rows.take(i as int).to_multiset(),
            decreases self.jobs.len() - i,
        {
            let j = &self.jobs[i];
            assert(v[i as int] == job_view(self.jobs@[i as int]));
            let e = elapsed(j.created, now);
            let d = schedule_description(j.after, j.interval, e.0, e.1);
            let row = job_row(j.id.as_str(), j.mode, d.as_str(), j.message.as_str());
            assert(row@ == rows[i as int]);
            proof {
                broadcast use vstd::seq_lib::group_to_multiset_ensures;
                assert(rows.take(i + 1) =~= rows.take(i as int).push(rows[i as int]));
            }
            insert_sorted(&mut out, row);
            i += 1;
        }
        assert(rows.take(self.jobs.len() as int) =~= rows);
        let r = join_strings(&out, "\n");
        assert(texts_sorted(crate::command::texts(out@)) && crate::command::texts(out@).to_multiset()
            == rows.to_multiset() && r@ == join(crate::command::texts(out@), "\n"@));
        r
    }
}

/// After its removal no job with that id is waiting, and every other job still is.
pub proof fn law_removed_job_is_gone(jobs: Seq<JobView>, id: Seq<char>, other: Seq<char>)
    ensures
        !has_job(without_job(jobs, id), id),
        other != id ==> (has_job(without_job(jobs, id), other) == has_job(jobs, other)),
    decreases jobs.len(),
{
    if jobs.len() > 0 {
        law_removed_job_is_gone(jobs.drop_last(), id, other);
        let d = jobs.drop_last();
        let r = without_job(d, id);
        let l = jobs.last();
        let w = without_job(jobs, id);
        assert(w == if l.0 == id { r } else { r.push(l) });
        assert forall|k: int| 0 <= k < r.len() implies #[trigger] w[k] == r[k] by {}
        if other != id {
            if has_job(jobs, other) {
                let k = choose|k: int| 0 <= k < jobs.len() && #[trigger] jobs[k].0 == other;
                if k < jobs.len() - 1 {
                    assert(d[k].0 == other);
                    assert(has_job(d, other));
                    assert(has_job(r, other));
                    let k3 = choose|k3: int| 0 <= k3 < r.len() && #[trigger] r[k3].0 == other;
                    assert(w[k3].0 == other);
                } else {
                    assert(w[r.len() as int].0 == other);
                }
                assert(has_job(w, other));
            }
            if has_job(w, other) {
                let k = choose|k: int| 0 <= k < w.len() && #[trigger] w[k].0 == other;
                if k < r.len() {
                    assert(r[k].0 == other);
                    assert(has_job(r, other));
                    assert(has_job(d, other));
                    let k2 = choose|k2: int| 0 <= k2 < d.len() && #[trigger] d[k2].0 == other;
                    assert(jobs[k2].0 == other);
                } else {
                    assert(jobs[jobs.len() - 1].0 == other);
                }
                assert(has_job(jobs, other));
            }
        }
        if has_job(w, id) {
            let k = choose|k: int| 0 <= k < w.len() && #[trigger] w[k].0 == id;
            if k < r.len() {
                assert(r[k].0 == id);
                assert(has_job(r, id));
            }
        }
    }
}

/// Once added, a job is waiting under its id, and it is the only one with that id.
pub proof fn law_added_job_is_active(jobs: Seq<JobView>, j: JobView)
    ensures
        has_job(without_job(jobs, j.0).push(j), j.0),
        !has_job(without_job(jobs, j.0), j.0),
{
    let w = without_job(jobs, j.0);
    assert(w.push(j)[w.len() as int].0 == j.0);
    law_removed_job_is_gone(jobs, j.0, j.0);
}

} // verus!
