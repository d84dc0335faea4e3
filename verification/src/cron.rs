//! When jobs were last run and are next to be run, across restarts.

use crate::table::Table;
use crate::text;
use crate::time;
use crate::time::Instant;
use vstd::prelude::*;
use vstd::string::*;

verus! {

/// When a job was last run and is next to be run, as texts.
pub struct CronEntry {
    pub last_run_at: Option<String>,
    pub next_run_at: Option<String>,
}

/// The view of a [`CronEntry`].
pub struct CronEntryView {
    pub last_run_at: Option<Seq<char>>,
    pub next_run_at: Option<Seq<char>>,
}

impl View for CronEntry {
    type V = CronEntryView;

    open spec fn view(&self) -> CronEntryView {
        CronEntryView {
            last_run_at: text::opt_view(self.last_run_at),
            next_run_at: text::opt_view(self.next_run_at),
        }
    }
}

/// The state of all jobs, by the ids of the jobs.
pub struct CronStateFile {
    pub jobs: Table<CronEntry>,
}

impl View for CronStateFile {
    type V = Map<Seq<char>, CronEntryView>;

    open spec fn view(&self) -> Map<Seq<char>, CronEntryView> {
        Map::new(|k: Seq<char>| self.jobs@.dom().contains(k), |k: Seq<char>| self.jobs@[k]@)
    }
}

impl CronStateFile {
    /// No job has two states.
    pub open spec fn wf(self) -> bool {
        self.jobs.wf()
    }

    /// The state where no job has been run.
    pub fn new() -> (out: Self)
        ensures
            out.wf(),
            out@ == Map::<Seq<char>, CronEntryView>::empty(),
    {
        let out = CronStateFile { jobs: Table::new() };
        assert(out@ =~= Map::<Seq<char>, CronEntryView>::empty());
        out
    }

    /// The state that was read; where none could be read, that no job has been
    /// run.
    pub fn loaded(read: Option<CronStateFile>) -> (out: Self)
        requires
            read matches Some(s) ==> s.wf(),
        ensures
            out.wf(),
            match read {
                Some(s) => out == s,
                None => out@ == Map::<Seq<char>, CronEntryView>::empty(),
            },
    {
        match read {
            Some(s) => s,
            None => CronStateFile::new(),
        }
    }

    /// The state of a job.
    pub fn get(&self, job_id: &str) -> (r: Option<(Option<String>, Option<String>)>)
        requires
            self.wf(),
        ensures
            match r {
                Some(e) => self@.dom().contains(job_id@) && self@[job_id@] == (CronEntryView {
                    last_run_at: text::opt_view(e.0),
                    next_run_at: text::opt_view(e.1),
                }),
                None => !self@.dom().contains(job_id@),
            },
    {
        match self.jobs.get(job_id) {
            Some(e) => Some((text::copy_opt(&e.last_run_at), text::copy_opt(&e.next_run_at))),
            None => None,
        }
    }

    /// Sets the state of a job.
    pub fn upsert(&mut self, job_id: &str, last: Option<String>, next: Option<String>)
        requires
            old(self).wf(),
        ensures
            final(self).wf(),
            final(self)@ == old(self)@.insert(
                job_id@,
                CronEntryView {
                    last_run_at: text::opt_view(last),
                    next_run_at: text::opt_view(next),
                },
            ),
    {
        let ghost before = self@;
        let e = CronEntry { last_run_at: last, next_run_at: next };
        let ghost v = e@;
        self.jobs.insert(text::copy_str(job_id), e);
        assert(self@ =~= before.insert(job_id@, v));
    }

    /// Drops the state of a job; whether it had one.
    pub fn delete(&mut self, job_id: &str) -> (had: bool)
        requires
            old(self).wf(),
        ensures
            final(self).wf(),
            had == old(self)@.dom().contains(job_id@),
            final(self)@ == old(self)@.remove(job_id@),
    {
        let ghost before = self@;
        let had: bool = self.jobs.remove(job_id);
        assert(self@ =~= before.remove(job_id@));
        had
    }
}

/// When a job was last run and is next to be run. A text that denotes no point
/// in time counts as missing.
pub open spec fn restored(jobs: Map<Seq<char>, CronEntryView>, job_id: Seq<char>) -> Option<
    (Option<(i64, u32)>, Option<(i64, u32)>),
> {
    if jobs.dom().contains(job_id) {
        Some(
            (
                time::opt_instant(jobs[job_id].last_run_at),
                time::opt_instant(jobs[job_id].next_run_at),
            ),
        )
    } else {
        None
    }
}

/// The points in time of a job's state.
pub open spec fn run_parts(r: Option<(Option<Instant>, Option<Instant>)>) -> Option<
    (Option<(i64, u32)>, Option<(i64, u32)>),
> {
    match r {
        Some(p) => Some((time::opt_parts(p.0), time::opt_parts(p.1))),
        None => None,
    }
}

/// Keeps the state of jobs in a file.
pub struct CronPersistence {
    path: String,
}

impl CronPersistence {
    /// The path of the file.
    pub closed spec fn file(self) -> Seq<char> {
        self.path@
    }

    /// Keeps the state at a path.
    pub fn new(path: String) -> (out: Self)
        ensures
            out.file() == path@,
    {
        CronPersistence { path }
    }

    /// The path of the file.
    pub fn path(&self) -> (r: &str)
        ensures
            r@ == self.file(),
    {
        self.path.as_str()
    }

    /// When a job was last run and is next to be run, given what was read from
    /// the file.
    pub fn restore_state(&self, read: Result<CronStateFile, String>, job_id: &str) -> (r: Result<
        Option<(Option<Instant>, Option<Instant>)>,
        String,
    >)
        requires
            read matches Ok(s) ==> s.wf(),
        ensures
            match read {
                Ok(s) => r matches Ok(p) && run_parts(p) == restored(s@, job_id@),
                Err(e) => r matches Err(w) && w@ == "Failed to load cron state for "@ + job_id@
                    + ": "@ + e@,
            },
    {
        match read {
            Ok(s) => match s.get(job_id) {
                Some((last, next)) => Ok(Some((time::read_opt(&last), time::read_opt(&next)))),
                None => Ok(None),
            },
            Err(e) => Err(
                text::cat4("Failed to load cron state for ", job_id, ": ", e.as_str()),
            ),
        }
    }

    /// Sets when a job was last run and is next to be run. What is restored
    /// afterwards is what was saved, leap seconds among it, in the years from 0 to
    /// 9999; the other jobs are left alone.
    pub fn save_state(
        &self,
        state: &mut CronStateFile,
        job_id: &str,
        last_run: &Option<Instant>,
        next_run: &Option<Instant>,
    )
        requires
            old(state).wf(),
            *last_run matches Some(t) ==> t.valid(),
            *next_run matches Some(t) ==> t.valid(),
        ensures
            final(state).wf(),
            final(state)@ == old(state)@.insert(
                job_id@,
                CronEntryView {
                    last_run_at: time::opt_text(*last_run),
                    next_run_at: time::opt_text(*next_run),
                },
            ),
            (*last_run matches Some(t) ==> t.plain()) && (*next_run matches Some(t) ==> t.plain())
                ==> restored(final(state)@, job_id@) == Some(
                (time::opt_parts(*last_run), time::opt_parts(*next_run)),
            ),
    {
        let last = time::show_opt(last_run);
        let next = time::show_opt(next_run);
        state.upsert(job_id, last, next);
    }

    /// Forgets a job; whether there was one. Nothing is restored of it
    /// afterwards, and the other jobs are left alone.
    pub fn delete_state(&self, state: &mut CronStateFile, job_id: &str) -> (had: bool)
        requires
            old(state).wf(),
        ensures
            final(state).wf(),
            had == old(state)@.dom().contains(job_id@),
            final(state)@ == old(state)@.remove(job_id@),
            restored(final(state)@, job_id@) is None,
    {
        state.delete(job_id)
    }

    /// What is reported of forgetting a job, once the state was to be written.
    pub fn deleted(&self, job_id: &str, written: Result<(), String>) -> (r: Result<(), String>)
        ensures
            match written {
                Ok(_) => r is Ok,
                Err(e) => r matches Err(w) && w@ == "Failed to delete cron state for "@ + job_id@
                    + ": "@ + e@,
            },
    {
        match written {
            Ok(_) => Ok(()),
            Err(e) => Err(
                text::cat4("Failed to delete cron state for ", job_id, ": ", e.as_str()),
            ),
        }
    }
}

// ── laws ────────────────────────────────────────────────────────────────

/// Of a job that was never set, nothing is read.
pub proof fn law_nothing_is_read_at_first(job: Seq<char>)
    ensures
        restored(Map::empty(), job) is None,
{
}

/// A state that was set is the one that is read, for every job: the job that
/// was set has the new state, every other job keeps its own.
pub proof fn law_set_state_is_read(
    jobs: Map<Seq<char>, CronEntryView>,
    job: Seq<char>,
    e: CronEntryView,
    other: Seq<char>,
)
    ensures
        restored(jobs.insert(job, e), job) == Some(
            (time::opt_instant(e.last_run_at), time::opt_instant(e.next_run_at)),
        ),
        other != job ==> restored(jobs.insert(job, e), other) == restored(jobs, other),
{
}

/// A state that was dropped is gone, and only that one.
pub proof fn law_dropped_state_is_gone(
    jobs: Map<Seq<char>, CronEntryView>,
    job: Seq<char>,
    other: Seq<char>,
)
    ensures
        restored(jobs.remove(job), job) is None,
        other != job ==> restored(jobs.remove(job), other) == restored(jobs, other),
{
}

/// A job that was set has what was set, and no other job is touched by it.
pub proof fn law_set_job_is_found(
    s: &mut CronStateFile,
    job_id: &str,
    last: Option<String>,
    next: Option<String>,
    asked: &str,
    before: Option<(Option<String>, Option<String>)>,
    after: Option<(Option<String>, Option<String>)>,
)
    requires
        call_ensures(CronStateFile::get, (&*old(s), asked), before),
        call_ensures(CronStateFile::upsert, (s, job_id, last, next), ()),
        call_ensures(CronStateFile::get, (&*final(s), asked), after),
    ensures
        asked@ == job_id@ ==> (after matches Some(e) && text::opt_view(e.0) == text::opt_view(last)
            && text::opt_view(e.1) == text::opt_view(next)),
        asked@ != job_id@ ==> (after is Some <==> before is Some),
        asked@ != job_id@ ==> (after matches Some(e) ==> (before matches Some(f) && text::opt_view(
            e.0,
        ) == text::opt_view(f.0) && text::opt_view(e.1) == text::opt_view(f.1))),
{
}

/// A job that was dropped has no state, whether it had one is told, and no other job
/// is touched by it.
pub proof fn law_dropped_job_is_not_found(
    s: &mut CronStateFile,
    job_id: &str,
    had: bool,
    asked: &str,
    before: Option<(Option<String>, Option<String>)>,
    after: Option<(Option<String>, Option<String>)>,
)
    requires
        call_ensures(CronStateFile::get, (&*old(s), asked), before),
        call_ensures(CronStateFile::delete, (s, job_id), had),
        call_ensures(CronStateFile::get, (&*final(s), asked), after),
    ensures
        asked@ == job_id@ ==> after is None && (had <==> before is Some),
        asked@ != job_id@ ==> (after is Some <==> before is Some),
        asked@ != job_id@ ==> (after matches Some(e) ==> (before matches Some(f) && text::opt_view(
            e.0,
        ) == text::opt_view(f.0) && text::opt_view(e.1) == text::opt_view(f.1))),
{
}

/// Where nothing could be read, no job has a state; else the state is what was
/// read.
pub proof fn law_loaded_state_is_what_was_read(
    read: Option<CronStateFile>,
    s: CronStateFile,
    asked: &str,
    r: Option<(Option<String>, Option<String>)>,
)
    requires
        call_ensures(CronStateFile::loaded, (read,), s),
        call_ensures(CronStateFile::get, (&s, asked), r),
    ensures
        read matches Some(q) ==> s == q,
        read is None ==> r is None,
{
}

/// What is restored of a job is what was saved of it, when it was last run and when
/// it is next to be run, in the years from 0 to 9999. What is restored of another
/// job is what would have been restored before.
pub proof fn law_saved_state_is_restored(
    p: &CronPersistence,
    s: &mut CronStateFile,
    job_id: &str,
    last: &Option<Instant>,
    next: &Option<Instant>,
    asked: &str,
    before: Result<Option<(Option<Instant>, Option<Instant>)>, String>,
    after: Result<Option<(Option<Instant>, Option<Instant>)>, String>,
)
    requires
        *last matches Some(t) ==> t.valid() && t.plain(),
        *next matches Some(t) ==> t.valid() && t.plain(),
        call_ensures(CronPersistence::restore_state, (p, Ok(*old(s)), asked), before),
        call_ensures(CronPersistence::save_state, (p, s, job_id, last, next), ()),
        call_ensures(CronPersistence::restore_state, (p, Ok(*final(s)), asked), after),
    ensures
        asked@ == job_id@ ==> after == Ok::<_, String>(Some((*last, *next))),
        asked@ != job_id@ ==> after == before,
{
    let a = after->Ok_0;
    let b = before->Ok_0;
    if asked@ == job_id@ {
        assert(run_parts(a) == Some((time::opt_parts(*last), time::opt_parts(*next))));
        assert(a is Some);
        assert((a->0).0 == *last);
        assert((a->0).1 == *next);
    } else {
        assert(restored(final(s)@, asked@) == restored(old(s)@, asked@));
        assert(run_parts(a) == run_parts(b));
        if a is Some {
            assert((a->0).0 == (b->0).0);
            assert((a->0).1 == (b->0).1);
        }
    }
}

/// Nothing is restored of a job that was forgotten, and forgetting it leaves the
/// other jobs alone.
pub proof fn law_forgotten_state_is_not_restored(
    p: &CronPersistence,
    s: &mut CronStateFile,
    job_id: &str,
    had: bool,
    asked: &str,
    before: Result<Option<(Option<Instant>, Option<Instant>)>, String>,
    after: Result<Option<(Option<Instant>, Option<Instant>)>, String>,
)
    requires
        call_ensures(CronPersistence::restore_state, (p, Ok(*old(s)), asked), before),
        call_ensures(CronPersistence::delete_state, (p, s, job_id), had),
        call_ensures(CronPersistence::restore_state, (p, Ok(*final(s)), asked), after),
    ensures
        asked@ == job_id@ ==> (after matches Ok(r) && r is None),
        asked@ == job_id@ ==> (before matches Ok(r) && (had <==> r is Some)),
        asked@ != job_id@ ==> after == before,
{
    if asked@ != job_id@ {
        let a = after->Ok_0;
        let b = before->Ok_0;
        assert(restored(final(s)@, asked@) == restored(old(s)@, asked@));
        assert(run_parts(a) == run_parts(b));
        if a is Some {
            assert((a->0).0 == (b->0).0);
            assert((a->0).1 == (b->0).1);
        }
    }
}

/// Where the state could not be read, or not be written, the error names the job
/// and the cause; else there is none.
pub proof fn law_failure_names_the_job(
    p: &CronPersistence,
    job_id: &str,
    cause: String,
    read: Result<Option<(Option<Instant>, Option<Instant>)>, String>,
    written: Result<(), String>,
    r: Result<(), String>,
)
    requires
        call_ensures(CronPersistence::restore_state, (p, Err(cause), job_id), read),
        call_ensures(CronPersistence::deleted, (p, job_id, written), r),
    ensures
        read matches Err(w) && w@ == "Failed to load cron state for "@ + job_id@ + ": "@ + cause@,
        written is Ok <==> r is Ok,
        written matches Err(e) ==> (r matches Err(w) && w@ == "Failed to delete cron state for "@
            + job_id@ + ": "@ + e@),
{
}

/// The path of the file is the one that was given.
pub proof fn law_file_is_the_one_that_was_given(path: String, p: CronPersistence, r: &str)
    requires
        call_ensures(CronPersistence::new, (path,), p),
        call_ensures(CronPersistence::path, (&p,), r),
    ensures
        r@ == path@,
{
}

/// What is kept of a job is when it was last run, as such, and when it is next to be
/// run, as such: each as the text of the point in time.
pub proof fn law_saved_state_is_kept_as_texts(
    p: &CronPersistence,
    s: &mut CronStateFile,
    job_id: &str,
    last: &Option<Instant>,
    next: &Option<Instant>,
    r: Option<(Option<String>, Option<String>)>,
)
    requires
        call_ensures(CronPersistence::save_state, (p, s, job_id, last, next), ()),
        call_ensures(CronStateFile::get, (&*final(s), job_id), r),
    ensures
        r is Some,
        *last matches Some(t) ==> (r matches Some((Some(a), _)) && a@ == time::rfc3339_text(
            t.secs,
            t.nanos,
        )),
        *next matches Some(t) ==> (r matches Some((_, Some(b))) && b@ == time::rfc3339_text(
            t.secs,
            t.nanos,
        )),
        *last is None ==> (r matches Some((a, _)) && a is None),
        *next is None ==> (r matches Some((_, b)) && b is None),
{
}

/// What is restored of a job is read from what is kept: the first text is when it
/// was last run, the second when it is next to be run.
pub proof fn law_kept_texts_are_restored(
    p: &CronPersistence,
    s: CronStateFile,
    job_id: &str,
    r: Result<Option<(Option<Instant>, Option<Instant>)>, String>,
    e: Option<(Option<String>, Option<String>)>,
)
    requires
        call_ensures(CronPersistence::restore_state, (p, Ok(s), job_id), r),
        call_ensures(CronStateFile::get, (&s, job_id), e),
    ensures
        e is None ==> r == Ok::<_, String>(None::<(Option<Instant>, Option<Instant>)>),
        e matches Some((a, b)) ==> (r matches Ok(Some((x, y))) && time::opt_parts(x)
            == time::opt_instant(text::opt_view(a)) && time::opt_parts(y) == time::opt_instant(
            text::opt_view(b),
        )),
{
}

} // verus!
