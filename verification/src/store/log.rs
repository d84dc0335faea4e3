//! The numbers that events get, and what compacting a session leaves of it.

use crate::order;
use crate::store::event;
use crate::store::event::SessionEvent;
use crate::store::meta::{MetaView, SessionMeta};
use crate::time;
use crate::time::Instant;
use vstd::prelude::*;

verus! {

/// The larger of two numbers.
pub open spec fn larger(a: int, b: int) -> int {
    if a >= b {
        a
    } else {
        b
    }
}

/// The number behind the highest one of the events; the first event of a
/// session has number 0.
pub open spec fn behind(events: Seq<SessionEvent>) -> int {
    match event::top_sequence(events) {
        Some(m) => larger(m as int, -1) + 1,
        None => 0,
    }
}

/// The least number that the next event may get: that which is kept, and one
/// behind the watermark. A watermark of 0 is none.
pub open spec fn least(watermark: i64, next_sequence: i64) -> int {
    larger(
        next_sequence as int,
        if watermark > 0 {
            watermark + 1
        } else {
            0
        },
    )
}

/// The next number of a session, as its events and what is kept beside them
/// tell it.
pub open spec fn rebuilt(events: Seq<SessionEvent>, watermark: i64, next_sequence: i64) -> int {
    larger(behind(events), least(watermark, next_sequence))
}

/// The log of one session.
pub struct SessionLog {
    pub events: Vec<SessionEvent>,
    pub meta: SessionMeta,
    /// The next number, where it is known.
    pub next_seq: Option<i64>,
}

impl SessionLog {
    /// The next number: the one that is known or else follows from the events,
    /// and no less than may be given.
    pub open spec fn next(self) -> int {
        match self.next_seq {
            Some(n) => larger(n as int, least(self.meta.watermark, self.meta.next_sequence)),
            None => self.rebuilt_next(),
        }
    }

    /// The next number as the files of the session tell it.
    pub open spec fn rebuilt_next(self) -> int {
        rebuilt(self.events@, self.meta.watermark, self.meta.next_sequence)
    }

    /// Every number that is in use is below the next one.
    pub open spec fn wf(self) -> bool {
        self.next_seq matches Some(n) ==> forall|i: int|
            0 <= i < self.events@.len() ==> (#[trigger] self.events@[i]).sequence < n
    }

    /// What is kept is what the summary does not cover.
    pub open spec fn compacted(self) -> bool {
        self.meta.watermark > 0 ==> {
            &&& self.next() > self.meta.watermark
            &&& forall|i: int|
                0 <= i < self.events@.len() ==> (#[trigger] self.events@[i]).sequence
                    > self.meta.watermark
        }
    }

    /// The next number, where there is one left.
    pub fn next_number(&self) -> (r: Option<i64>)
        ensures
            match r {
                Some(n) => n == self.next(),
                None => self.next() > i64::MAX,
            },
    {
        let known: i64 = match self.next_seq {
            Some(n) => n,
            None => match event::max_sequence(&self.events) {
                Some(m) => if m == i64::MAX {
                    return None;
                } else if m < 0 {
                    0
                } else {
                    m + 1
                },
                None => 0,
            },
        };
        let past: i64 = if self.meta.watermark == i64::MAX {
            return None;
        } else if self.meta.watermark > 0 {
            self.meta.watermark + 1
        } else {
            0
        };
        let kept: i64 = self.meta.next_sequence;
        let floor: i64 = if kept >= past {
            kept
        } else {
            past
        };
        Some(
            if known >= floor {
                known
            } else {
                floor
            },
        )
    }

    /// The next number, from the events and what is kept beside them.
    pub fn rebuild_next_seq(&mut self) -> (n: i64)
        requires
            old(self).rebuilt_next() <= i64::MAX,
        ensures
            n == old(self).rebuilt_next(),
            *final(self) == (SessionLog { next_seq: Some(n), ..*old(self) }),
            final(self).wf(),
    {
        proof {
            event::lemma_top_sequence(self.events@);
        }
        self.next_seq = None;
        match self.next_number() {
            Some(n) => {
                self.next_seq = Some(n);
                n
            },
            None => {
                assert(false);
                0
            },
        }
    }

    /// The next number; where it is not known it is found out.
    pub fn cached_next_seq(&mut self) -> (n: i64)
        requires
            old(self).next() <= i64::MAX,
        ensures
            n == old(self).next(),
            *final(self) == (SessionLog { next_seq: Some(n), ..*old(self) }),
            old(self).wf() ==> final(self).wf(),
    {
        match self.next_number() {
            Some(n) => {
                proof {
                    event::lemma_top_sequence(self.events@);
                }
                self.next_seq = Some(n);
                n
            },
            None => {
                assert(false);
                0
            },
        }
    }

    /// Appends an event under the next number, whatever number it brings; the
    /// number that it got. No later event gets it again.
    pub fn append(&mut self, ev: SessionEvent, now: &Instant) -> (seq: i64)
        requires
            old(self).next() < i64::MAX,
            now.valid(),
        ensures
            seq == old(self).next(),
            final(self).events@ == old(self).events@.push(SessionEvent { sequence: seq, ..ev }),
            final(self).meta@ == old(self).meta@.touched(
                time::rfc3339_text(now.secs, now.nanos),
            ).numbered((seq + 1) as i64),
            final(self).next_seq == Some((seq + 1) as i64),
            old(self).wf() ==> final(self).wf(),
    {
        let seq: i64 = self.cached_next_seq();
        let mut ev = ev;
        ev.sequence = seq;
        self.events.push(ev);
        self.next_seq = Some(seq + 1);
        let at = time::to_rfc3339(now);
        self.meta.touch(at.as_str());
        self.meta.next_sequence = seq + 1;
        seq
    }

    /// Keeps a summary of the events up to `watermark`. The events themselves
    /// stay until they are deleted.
    pub fn save_summary(&mut self, content: &str, watermark: i64, now: &Instant)
        requires
            now.valid(),
        ensures
            final(self).events == old(self).events,
            final(self).next_seq == old(self).next_seq,
            final(self).meta@ == old(self).meta@.summarized(
                content@,
                watermark,
                time::rfc3339_text(now.secs, now.nanos),
            ),
    {
        let at = time::to_rfc3339(now);
        self.meta.save_summary(content, watermark, at.as_str());
    }

    /// Keeps a checkpoint.
    pub fn save_checkpoint(&mut self, target: i64, summary: &str, now: &Instant)
        requires
            now.valid(),
        ensures
            final(self).events == old(self).events,
            final(self).next_seq == old(self).next_seq,
            final(self).meta@ == old(self).meta@.checkpointed(
                target,
                summary@,
                time::rfc3339_text(now.secs, now.nanos),
            ),
    {
        let at = time::to_rfc3339(now);
        self.meta.save_checkpoint(target, summary, at.as_str());
    }

    /// Notes that compacting has begun.
    pub fn mark_compaction_started(&mut self, now: &Instant)
        requires
            now.valid(),
        ensures
            final(self).events == old(self).events,
            final(self).next_seq == old(self).next_seq,
            final(self).meta@ == (MetaView {
                compaction_in_progress: true,
                compaction_started_at: Some(time::rfc3339_text(now.secs, now.nanos)),
                ..old(self).meta@
            }),
    {
        let at = time::to_rfc3339(now);
        self.meta.mark_compaction_started(at.as_str());
    }

    /// Drops the events up to the number `target`; how many there were. The next
    /// number stays what it was, whatever is dropped.
    pub fn delete_events_upto(&mut self, target: i64) -> (deleted: u64)
        ensures
            final(self).events@ == event::newer(old(self).events@, target),
            deleted == old(self).events@.len() - final(self).events@.len(),
            if old(self).next() <= i64::MAX {
                &&& final(self).next() == old(self).next()
                &&& final(self).next_seq == Some(old(self).next() as i64)
                &&& final(self).meta@ == old(self).meta@.numbered(old(self).next() as i64)
            } else {
                &&& final(self).next() >= i64::MAX
                &&& final(self).next_seq == old(self).next_seq
                &&& final(self).meta@ == old(self).meta@.numbered(i64::MAX)
            },
            old(self).wf() ==> final(self).wf(),
    {
        match self.next_number() {
            Some(n) => {
                self.meta.next_sequence = n;
                self.next_seq = Some(n);
            },
            None => {
                self.meta.next_sequence = i64::MAX;
            },
        }
        proof {
            event::lemma_top_sequence(old(self).events@);
            lemma_kept(old(self).events@, target);
        }
        let mut events: Vec<SessionEvent> = Vec::new();
        events.append(&mut self.events);
        let (kept, deleted) = event::split_upto(events, target);
        self.events = kept;
        deleted
    }

    /// A session of which nothing is left.
    pub fn cleared() -> (out: Self)
        ensures
            out.events@.len() == 0,
            out.meta@ == MetaView::empty(),
            out.next_seq is None,
            out.wf(),
    {
        SessionLog { events: Vec::new(), meta: SessionMeta::empty(), next_seq: None }
    }
}

// ── laws ────────────────────────────────────────────────────────────────

/// The next number is above every number that is in use, so no event gets the
/// number of another one that is there, and above the watermark.
pub proof fn law_next_number_is_new(log: SessionLog)
    requires
        log.wf(),
    ensures
        forall|i: int|
            0 <= i < log.events@.len() ==> (#[trigger] log.events@[i]).sequence < log.next(),
        log.next() >= 0,
        log.meta.watermark > 0 ==> log.next() > log.meta.watermark,
{
    event::lemma_top_sequence(log.events@);
}

/// The first event of a session has number 0.
pub proof fn law_numbers_start_at_zero(log: SessionLog)
    requires
        log.events@.len() == 0,
        log.meta@ == MetaView::empty(),
        log.next_seq is None,
    ensures
        log.next() == 0,
{
}

proof fn lemma_kept(events: Seq<SessionEvent>, target: i64)
    ensures
        forall|i: int|
            0 <= i < event::newer(events, target).len() ==> (#[trigger] event::newer(
                events,
                target,
            )[i]).sequence > target && events.contains(event::newer(events, target)[i]),
        forall|i: int|
            0 <= i < events.len() && (#[trigger] events[i]).sequence > target ==> event::newer(
                events,
                target,
            ).contains(events[i]),
{
    let wanted = |e: SessionEvent| e.sequence > target;
    let kept = event::newer(events, target);
    assert forall|i: int| 0 <= i < kept.len() implies (#[trigger] kept[i]).sequence > target
        && events.contains(kept[i]) by {
        events.lemma_filter_pred(wanted, i);
        events.lemma_filter_contains_rev(wanted, kept[i]);
    }
    assert forall|i: int| 0 <= i < events.len() && (#[trigger] events[i]).sequence > target implies
        kept.contains(events[i]) by {
        events.lemma_filter_contains(wanted, i);
    }
}

/// A restart goes on where the numbers had come to: the number after an append
/// is the one that the files tell on their own.
pub proof fn law_restart_goes_on(before: SessionLog, after: SessionLog, ev: SessionEvent)
    requires
        before.wf(),
        before.next() < i64::MAX,
        ev.sequence == before.next(),
        after.events@ == before.events@.push(ev),
        after.meta.watermark == before.meta.watermark,
        after.meta.next_sequence == before.next() + 1,
        after.next_seq == Some((before.next() + 1) as i64),
    ensures
        after.next() == before.next() + 1,
        after.rebuilt_next() == after.next(),
{
    law_next_number_is_new(before);
    event::lemma_top_sequence(after.events@);
}

/// Dropping events never makes the numbers go back: the next event gets the
/// number that it would have got without, before and after a restart, whether
/// or not any event is left.
pub proof fn law_dropping_events_keeps_the_next_number(before: SessionLog, after: SessionLog, target: i64)
    requires
        before.wf(),
        before.next() <= i64::MAX,
        after.events@ == event::newer(before.events@, target),
        after.meta.watermark == before.meta.watermark,
        after.meta.next_sequence == before.next(),
        after.next_seq == Some(before.next() as i64),
    ensures
        after.next() == before.next(),
        after.rebuilt_next() == before.next(),
{
    law_next_number_is_new(before);
    lemma_kept(before.events@, target);
    event::lemma_top_sequence(after.events@);
    if let Some(m) = event::top_sequence(after.events@) {
        let i = choose|i: int| 0 <= i < after.events@.len() && (#[trigger] after.events@[i]).sequence
            == m;
        assert(before.events@.contains(after.events@[i]));
    }
}

/// An event was appended to a log.
pub open spec fn appended(before: SessionLog, after: SessionLog) -> bool {
    after.meta.next_sequence == before.next() + 1
}

/// One step in the life of a log: an event is appended; events are dropped; or
/// something is done that leaves the least next number alone, such as keeping or
/// dropping a summary, marking that it is being compacted, or a restart.
pub open spec fn step(before: SessionLog, after: SessionLog) -> bool {
    ||| appended(before, after)
    ||| after.meta.next_sequence == (if before.next() <= i64::MAX {
        before.next()
    } else {
        i64::MAX as int
    })
    ||| after.meta.next_sequence == before.meta.next_sequence
}

/// Numbers are never given twice nor go back: of two events that are appended in
/// the life of a log, whatever is done in between, the later one gets the higher
/// number.
pub proof fn law_numbers_are_never_reused(life: Seq<SessionLog>, i: int, j: int)
    requires
        0 <= i < j,
        j + 1 < life.len(),
        forall|k: int| 0 <= k < life.len() - 1 ==> step(#[trigger] life[k], life[k + 1]),
        appended(life[i], life[i + 1]),
        appended(life[j], life[j + 1]),
    ensures
        life[i].next() < life[j].next(),
{
    lemma_least_grows(life, i + 1, j);
}

proof fn lemma_least_grows(life: Seq<SessionLog>, i: int, j: int)
    requires
        0 <= i <= j < life.len(),
        forall|k: int| 0 <= k < life.len() - 1 ==> step(#[trigger] life[k], life[k + 1]),
    ensures
        life[i].meta.next_sequence <= life[j].meta.next_sequence,
    decreases j - i,
{
    if i < j {
        lemma_least_grows(life, i, j - 1);
        assert(step(life[j - 1], life[j - 1 + 1]));
    }
}

/// The history after events were dropped is what is left of the history before:
/// the events behind the number, in the same order.
pub proof fn law_history_keeps_its_tail(
    before: Seq<SessionEvent>,
    history: Seq<SessionEvent>,
    after: Seq<SessionEvent>,
    target: i64,
)
    requires
        order::stable_sort_of(history, before, event::by_sequence()),
        order::stable_sort_of(after, event::newer(before, target), event::by_sequence()),
    ensures
        after == event::newer(history, target),
{
    let wanted = |e: SessionEvent| e.sequence > target;
    assert(order::is_preorder(event::by_sequence()));
    order::lemma_filter_keeps_sorted(history, before, wanted, event::by_sequence());
    order::law_stable_sort_is_unique(
        after,
        event::newer(history, target),
        event::newer(before, target),
        event::by_sequence(),
    );
}

/// Compacting a session: after the summary up to a watermark above 0 has been
/// saved and the events up to it have been dropped, what is kept is exactly
/// what the summary does not cover, and every event to come is behind it.
pub proof fn law_compaction_keeps_what_is_newer(before: SessionLog, after: SessionLog, watermark: i64)
    requires
        watermark > 0,
        after.events@ == event::newer(before.events@, watermark),
        after.meta.watermark == watermark,
    ensures
        after.compacted(),
        after.next() > watermark,
        forall|i: int|
            0 <= i < before.events@.len() ==> ((#[trigger] before.events@[i]).sequence > watermark
                <==> after.events@.contains(before.events@[i])),
{
    lemma_kept(before.events@, watermark);
    let events = before.events@;
    let kept = after.events@;
    assert forall|i: int| 0 <= i < events.len() implies ((#[trigger] events[i]).sequence > watermark
        <==> kept.contains(events[i])) by {
        if kept.contains(events[i]) {
            let k = choose|k: int| 0 <= k < kept.len() && kept[k] == events[i];
            assert(kept[k].sequence > watermark);
        }
    }
}

/// Appending keeps a log compacted: the new event is behind the watermark too.
pub proof fn law_appending_keeps_it_compacted(before: SessionLog, after: SessionLog, ev: SessionEvent)
    requires
        before.compacted(),
        ev.sequence == before.next(),
        after.events@ == before.events@.push(ev),
        after.meta.watermark == before.meta.watermark,
    ensures
        after.compacted(),
{
    if before.meta.watermark > 0 {
        assert forall|i: int| 0 <= i < after.events@.len() implies (
        #[trigger] after.events@[i]).sequence > after.meta.watermark by {
            if i < before.events@.len() {
                assert(after.events@[i] == before.events@[i]);
            }
        }
    }
}

/// An event that is appended is the last of the log, as it was given but for its
/// number, which is above every number in use and goes up with each event; the
/// events before it stay.
pub proof fn law_appended_event_is_last(log: &mut SessionLog, ev: SessionEvent, now: &Instant, seq: i64)
    requires
        old(log).wf(),
        old(log).next() < i64::MAX,
        call_ensures(SessionLog::append, (log, ev, now), seq),
    ensures
        final(log).events@.len() == old(log).events@.len() + 1,
        final(log).events@.drop_last() == old(log).events@,
        final(log).events@.last().content@ == ev.content@,
        final(log).events@.last().id == ev.id,
        final(log).events@.last().session_key@ == ev.session_key@,
        final(log).events@.last().event_type == ev.event_type,
        final(log).events@.last().created_at == ev.created_at,
        final(log).events@.last().metadata@ == ev.metadata@,
        final(log).events@.last().sequence == seq,
        forall|i: int|
            0 <= i < old(log).events@.len() ==> (#[trigger] old(log).events@[i]).sequence < seq,
        final(log).next() > seq,
        final(log).rebuilt_next() == seq + 1,
{
    law_next_number_is_new(*old(log));
    assert(final(log).events@.drop_last() =~= old(log).events@);
    assert(final(log).meta@.watermark == old(log).meta@.watermark);
    assert(final(log).meta.next_sequence == seq + 1) by {
        assert(final(log).meta@.next_sequence == final(log).meta.next_sequence);
    }
    assert(final(log).meta.watermark == old(log).meta.watermark) by {
        assert(final(log).meta@.watermark == final(log).meta.watermark);
        assert(old(log).meta@.watermark == old(log).meta.watermark);
    }
    event::lemma_top_sequence(final(log).events@);
    let all = final(log).events@;
    assert(all[all.len() - 1].sequence == seq);
    assert forall|i: int| 0 <= i < all.len() implies (#[trigger] all[i]).sequence <= seq by {
        if i < all.len() - 1 {
            assert(all[i] == old(log).events@[i]);
        }
    }
}

/// Two events that are appended one after the other get numbers that follow each
/// other; the first of a session gets 0.
pub proof fn law_numbers_follow_each_other(log: &mut SessionLog, ev: SessionEvent, now: &Instant, seq: i64)
    requires
        old(log).next() < i64::MAX,
        call_ensures(SessionLog::append, (log, ev, now), seq),
    ensures
        final(log).next() == seq + 1,
        old(log).events@.len() == 0 && old(log).next_seq is None && old(log).meta.watermark <= 0
            && old(log).meta.next_sequence == 0 ==> seq == 0,
{
    assert(final(log).meta.next_sequence == seq + 1) by {
        assert(final(log).meta@.next_sequence == final(log).meta.next_sequence);
    }
    assert(final(log).meta.watermark == old(log).meta.watermark) by {
        assert(final(log).meta@.watermark == final(log).meta.watermark);
        assert(old(log).meta@.watermark == old(log).meta.watermark);
    }
}

/// Dropping events drops exactly those up to the number, tells how many there
/// were, keeps the rest in order, and never makes the numbers go back.
pub proof fn law_dropped_events_are_those_up_to_the_number(
    log: &mut SessionLog,
    target: i64,
    deleted: u64,
    e: SessionEvent,
)
    requires
        old(log).next() <= i64::MAX,
        call_ensures(SessionLog::delete_events_upto, (log, target), deleted),
    ensures
        final(log).events@.contains(e) <==> old(log).events@.contains(e) && e.sequence > target,
        deleted + final(log).events@.len() == old(log).events@.len(),
        final(log).next() == old(log).next(),
        final(log).meta.next_sequence == old(log).next(),
        final(log).meta@.summary == old(log).meta@.summary,
        final(log).meta@.watermark == old(log).meta@.watermark,
{
    let before = old(log).events@;
    let after = final(log).events@;
    lemma_kept(before, target);
    assert(final(log).meta@.next_sequence == final(log).meta.next_sequence);
    if after.contains(e) {
        let k = choose|k: int| 0 <= k < after.len() && after[k] == e;
        assert(after[k].sequence > target);
    }
    if before.contains(e) && e.sequence > target {
        let k = choose|k: int| 0 <= k < before.len() && before[k] == e;
        assert(before[k].sequence > target);
    }
}

/// A summary is kept with its watermark, when it was made is noted, and the
/// events stay until they are dropped.
pub proof fn law_summary_leaves_the_events(
    log: &mut SessionLog,
    content: &str,
    watermark: i64,
    now: &Instant,
)
    requires
        call_ensures(SessionLog::save_summary, (log, content, watermark, now), ()),
    ensures
        final(log).events@ == old(log).events@,
        final(log).meta.summary@ == content@,
        final(log).meta.watermark == watermark,
        final(log).meta@.checkpoints == old(log).meta@.checkpoints,
        watermark > 0 ==> final(log).next() > watermark,
        final(log).next_seq == old(log).next_seq,
{
    assert(final(log).meta@.watermark == final(log).meta.watermark);
}

/// A checkpoint is kept with its summary, and the events stay.
pub proof fn law_checkpoint_leaves_the_events(
    log: &mut SessionLog,
    target: i64,
    summary: &str,
    now: &Instant,
)
    requires
        call_ensures(SessionLog::save_checkpoint, (log, target, summary, now), ()),
    ensures
        final(log).events@ == old(log).events@,
        final(log).meta@.checkpoints.last().target_sequence == target,
        final(log).meta@.checkpoints.last().summary == summary@,
        final(log).meta@.summary == old(log).meta@.summary,
        final(log).meta@.watermark == old(log).meta@.watermark,
{
}

/// A session that was cleared has no events, no summary, and its numbers begin
/// anew.
pub proof fn law_cleared_session_begins_anew(log: SessionLog)
    requires
        call_ensures(SessionLog::cleared, (), log),
    ensures
        log.events@.len() == 0,
        log.meta@.summary.len() == 0,
        log.meta@.checkpoints.len() == 0,
        log.next() == 0,
{
    assert(log.meta@.watermark == log.meta.watermark);
    assert(log.meta@.next_sequence == log.meta.next_sequence);
}

/// Noting that compacting has begun changes nothing but the note, which has the
/// time.
pub proof fn law_compaction_is_noted(log: &mut SessionLog, now: &Instant)
    requires
        call_ensures(SessionLog::mark_compaction_started, (log, now), ()),
    ensures
        final(log).events@ == old(log).events@,
        final(log).next_seq == old(log).next_seq,
        final(log).meta@.compaction_in_progress,
        final(log).meta@.compaction_started_at == Some(time::rfc3339_text(now.secs, now.nanos)),
        final(log).meta@.summary == old(log).meta@.summary,
        final(log).meta@.watermark == old(log).meta@.watermark,
        final(log).meta@.checkpoints == old(log).meta@.checkpoints,
        final(log).meta@.next_sequence == old(log).meta@.next_sequence,
{
}

/// The number that an event would get is the one that is kept, or one that is found
/// out: above the number of every event and above all that was summarized, and no
/// higher than it has to be.
pub proof fn law_next_number_is_the_lowest_free_one(log: &SessionLog, r: Option<i64>, free: int)
    requires
        log.next_seq is None,
        call_ensures(SessionLog::next_number, (log,), r),
        free >= 0,
        free >= log.meta.next_sequence,
        log.meta.watermark <= 0 || free > log.meta.watermark,
        forall|i: int| 0 <= i < log.events@.len() ==> (#[trigger] log.events@[i]).sequence < free,
    ensures
        r matches Some(n) ==> n <= free,
        r is None ==> free > i64::MAX,
        r matches Some(n) ==> forall|i: int|
            0 <= i < log.events@.len() ==> (#[trigger] log.events@[i]).sequence < n,
        r matches Some(n) ==> n >= log.meta.next_sequence && n >= 0 && (log.meta.watermark > 0 ==> n
            > log.meta.watermark),
{
    event::lemma_top_sequence(log.events@);
}

} // verus!
