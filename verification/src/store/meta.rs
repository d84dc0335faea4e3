//! What is kept beside the events of a session: its summary, checkpoints, and
//! whether it is being compacted.

use crate::text;
use vstd::prelude::*;
use vstd::string::*;

verus! {

/// A summary of the events up to a number, made on the way.
pub struct Checkpoint {
    pub target_sequence: i64,
    pub summary: String,
    pub created_at: String,
}

/// The view of a [`Checkpoint`].
pub struct CheckpointView {
    pub target_sequence: i64,
    pub summary: Seq<char>,
    pub created_at: Seq<char>,
}

impl View for Checkpoint {
    type V = CheckpointView;

    open spec fn view(&self) -> CheckpointView {
        CheckpointView {
            target_sequence: self.target_sequence,
            summary: self.summary@,
            created_at: self.created_at@,
        }
    }
}

/// The views of checkpoints.
pub open spec fn checkpoint_views(list: Seq<Checkpoint>) -> Seq<CheckpointView> {
    Seq::new(list.len(), |i: int| list[i]@)
}

/// What is kept beside the events of a session.
pub struct SessionMeta {
    pub summary: String,
    /// The number of the last event that the summary covers; 0 where there is
    /// no summary.
    pub watermark: i64,
    pub created_at: String,
    pub updated_at: String,
    pub checkpoints: Vec<Checkpoint>,
    pub compaction_in_progress: bool,
    pub compaction_started_at: Option<String>,
    /// The least number that the next event may get. It outlives the events, so
    /// that no number is given twice.
    pub next_sequence: i64,
}

/// The view of a [`SessionMeta`].
pub struct MetaView {
    pub summary: Seq<char>,
    pub watermark: i64,
    pub created_at: Seq<char>,
    pub updated_at: Seq<char>,
    pub checkpoints: Seq<CheckpointView>,
    pub compaction_in_progress: bool,
    pub compaction_started_at: Option<Seq<char>>,
    pub next_sequence: i64,
}

impl View for SessionMeta {
    type V = MetaView;

    open spec fn view(&self) -> MetaView {
        MetaView {
            summary: self.summary@,
            watermark: self.watermark,
            created_at: self.created_at@,
            updated_at: self.updated_at@,
            checkpoints: checkpoint_views(self.checkpoints@),
            compaction_in_progress: self.compaction_in_progress,
            compaction_started_at: text::opt_view(self.compaction_started_at),
            next_sequence: self.next_sequence,
        }
    }
}

impl MetaView {
    /// A session of which nothing is kept.
    pub open spec fn empty() -> MetaView {
        MetaView {
            summary: Seq::empty(),
            watermark: 0,
            created_at: Seq::empty(),
            updated_at: Seq::empty(),
            checkpoints: Seq::empty(),
            compaction_in_progress: false,
            compaction_started_at: None,
            next_sequence: 0,
        }
    }

    /// The same after an event was appended.
    pub open spec fn touched(self, now: Seq<char>) -> MetaView {
        MetaView {
            created_at: if self.created_at.len() == 0 {
                now
            } else {
                self.created_at
            },
            updated_at: now,
            ..self
        }
    }

    /// The same where the next event gets the number `n` or a higher one.
    pub open spec fn numbered(self, n: i64) -> MetaView {
        MetaView { next_sequence: n, ..self }
    }

    /// The same with a summary.
    pub open spec fn summarized(self, content: Seq<char>, watermark: i64, now: Seq<char>) -> MetaView {
        MetaView { summary: content, watermark, updated_at: now, ..self }
    }

    /// The same without a summary.
    pub open spec fn unsummarized(self) -> MetaView {
        MetaView { summary: Seq::empty(), watermark: 0, ..self }
    }

    /// The summary and its watermark, where there is one.
    pub open spec fn loaded(self) -> Option<(Seq<char>, i64)> {
        if self.summary.len() == 0 && self.watermark == 0 {
            None
        } else {
            Some((self.summary, self.watermark))
        }
    }

    /// The same with a checkpoint, which takes the place of one for the same
    /// number.
    pub open spec fn checkpointed(self, target: i64, summary: Seq<char>, now: Seq<char>) -> MetaView {
        MetaView {
            checkpoints: self.checkpoints.filter(
                |c: CheckpointView| c.target_sequence != target,
            ).push(CheckpointView { target_sequence: target, summary, created_at: now }),
            ..self
        }
    }

    /// The summary of the checkpoint that reaches furthest; of several that
    /// reach as far, of the last.
    pub open spec fn latest_checkpoint(self) -> Seq<char> {
        match furthest(self.checkpoints) {
            Some(c) => c.summary,
            None => Seq::empty(),
        }
    }
}

/// The checkpoint that reaches furthest.
pub open spec fn furthest(list: Seq<CheckpointView>) -> Option<CheckpointView>
    decreases list.len(),
{
    if list.len() == 0 {
        None
    } else {
        match furthest(list.drop_last()) {
            Some(c) => if list.last().target_sequence >= c.target_sequence {
                Some(list.last())
            } else {
                Some(c)
            },
            None => Some(list.last()),
        }
    }
}

impl SessionMeta {
    /// What is kept of a session of which there is nothing to keep.
    pub fn empty() -> (out: Self)
        ensures
            out@ == MetaView::empty(),
    {
        let out = SessionMeta {
            summary: String::new(),
            watermark: 0,
            created_at: String::new(),
            updated_at: String::new(),
            checkpoints: Vec::new(),
            compaction_in_progress: false,
            compaction_started_at: None,
            next_sequence: 0,
        };
        assert(out.summary@ =~= Seq::empty());
        assert(out.created_at@ =~= Seq::empty());
        assert(out.updated_at@ =~= Seq::empty());
        assert(out@.checkpoints =~= Seq::empty());
        out
    }

    /// Notes that an event was appended at a time.
    pub fn touch(&mut self, now: &str)
        ensures
            final(self)@ == old(self)@.touched(now@),
    {
        if self.created_at.as_str().is_empty() {
            self.created_at = text::copy_str(now);
        }
        self.updated_at = text::copy_str(now);
    }

    /// Keeps a summary of the events up to `watermark`.
    pub fn save_summary(&mut self, content: &str, watermark: i64, now: &str)
        ensures
            final(self)@ == old(self)@.summarized(
                content@,
                watermark,
                now@,
            ),
    {
        self.summary = text::copy_str(content);
        self.watermark = watermark;
        self.updated_at = text::copy_str(now);
    }

    /// The summary and its watermark, where there is one.
    pub fn load_summary(&self) -> (r: Option<(String, i64)>)
        ensures
            match r {
                Some(s) => self@.loaded() == Some((s.0@, s.1)),
                None => self@.loaded() is None,
            },
    {
        if self.summary.as_str().is_empty() && self.watermark == 0 {
            None
        } else {
            Some((text::copy_str(self.summary.as_str()), self.watermark))
        }
    }

    /// Drops the summary; whether there was one to load.
    pub fn delete_summary(&mut self) -> (had: bool)
        ensures
            had == (old(self)@.loaded() is Some),
            final(self)@ == old(self)@.unsummarized(),
    {
        let had: bool = !(self.summary.as_str().is_empty() && self.watermark == 0);
        self.summary = String::new();
        assert(self.summary@ =~= Seq::empty());
        self.watermark = 0;
        had
    }

    /// The summary, that of the checkpoint that reaches furthest, and the
    /// watermark.
    pub fn load_summary_with_checkpoint(&self) -> (r: (String, String, i64))
        ensures
            r.0@ == self@.summary,
            r.1@ == self@.latest_checkpoint(),
            r.2 == self@.watermark,
    {
        let ghost all = checkpoint_views(self.checkpoints@);
        let mut best: Option<usize> = None;
        for i in 0..self.checkpoints.len()
            invariant
                all == checkpoint_views(self.checkpoints@),
                match best {
                    Some(k) => k < i && furthest(all.take(i as int)) == Some(all[k as int]),
                    None => furthest(all.take(i as int)) is None,
                },
        {
            assert(all.take(i + 1).drop_last() =~= all.take(i as int));
            assert(all.take(i + 1).last() == all[i as int]);
            best = match best {
                Some(k) => if self.checkpoints[i].target_sequence
                    >= self.checkpoints[k].target_sequence {
                    Some(i)
                } else {
                    Some(k)
                },
                None => Some(i),
            };
        }
        assert(all.take(all.len() as int) =~= all);
        let checkpoint: String = match best {
            Some(k) => text::copy_str(self.checkpoints[k].summary.as_str()),
            None => {
                let none = String::new();
                assert(none@ =~= Seq::empty());
                none
            },
        };
        (text::copy_str(self.summary.as_str()), checkpoint, self.watermark)
    }

    /// Keeps a checkpoint in place of one for the same number.
    pub fn save_checkpoint(&mut self, target: i64, summary: &str, now: &str)
        ensures
            final(self)@ == old(self)@.checkpointed(
                target,
                summary@,
                now@,
            ),
    {
        let ghost all = checkpoint_views(self.checkpoints@);
        let ghost given = self.checkpoints@;
        let ghost wanted = |c: CheckpointView| c.target_sequence != target;
        let ghost start = self@;
        let mut rest: Vec<Checkpoint> = Vec::new();
        rest.append(&mut self.checkpoints);
        let mut kept: Vec<Checkpoint> = Vec::new();
        let ghost mut i: int = 0;
        proof {
            reveal(Seq::filter);
            assert(rest@ =~= given);
            assert(all.take(0).filter(wanted) =~= Seq::empty());
            assert(checkpoint_views(kept@) =~= Seq::empty());
        }
        while rest.len() > 0
            invariant
                all == checkpoint_views(given),
                wanted == (|c: CheckpointView| c.target_sequence != target),
                0 <= i <= given.len(),
                rest@ == given.skip(i),
                checkpoint_views(kept@) == all.take(i).filter(wanted),
            decreases rest@.len(),
        {
            let c = rest.remove(0);
            let ghost before = kept@;
            let ghost view = c@;
            proof {
                assert(c == given[i]);
                assert(rest@ =~= given.skip(i + 1));
                assert(all.take(i + 1) =~= all.take(i).push(c@));
                all.take(i).lemma_filter_push(c@, wanted);
                i = i + 1;
            }
            if c.target_sequence != target {
                kept.push(c);
                assert(checkpoint_views(kept@) =~= checkpoint_views(before).push(view));
            }
        }
        assert(all.take(i) =~= all);
        let ghost before = kept@;
        kept.push(
            Checkpoint {
                target_sequence: target,
                summary: text::copy_str(summary),
                created_at: text::copy_str(now),
            },
        );
        assert(checkpoint_views(kept@) =~= checkpoint_views(before).push(
            CheckpointView {
                target_sequence: target,
                summary: summary@,
                created_at: now@,
            },
        ));
        self.checkpoints = kept;
    }

    /// Notes that compacting has begun.
    pub fn mark_compaction_started(&mut self, now: &str)
        ensures
            final(self)@ == (MetaView {
                compaction_in_progress: true,
                compaction_started_at: Some(now@),
                ..old(self)@
            }),
    {
        self.compaction_in_progress = true;
        self.compaction_started_at = Some(text::copy_str(now));
    }

    /// Notes that compacting is over.
    pub fn mark_compaction_finished(&mut self)
        ensures
            final(self)@ == (MetaView {
                compaction_in_progress: false,
                compaction_started_at: None,
                ..old(self)@
            }),
    {
        self.compaction_in_progress = false;
        self.compaction_started_at = None;
    }
}

// ── laws ────────────────────────────────────────────────────────────────

/// A summary that was saved is the one that is loaded. One that says nothing
/// of no event counts as none.
pub proof fn law_saved_summary_is_loaded(m: MetaView, content: Seq<char>, watermark: i64, now: Seq<char>)
    ensures
        m.summarized(content, watermark, now).loaded() == (if content.len() == 0 && watermark == 0 {
            None
        } else {
            Some((content, watermark))
        }),
{
}

/// A summary that was deleted is not loaded.
pub proof fn law_deleted_summary_is_gone(m: MetaView)
    ensures
        m.unsummarized().loaded() is None,
{
}

proof fn lemma_furthest_bound(list: Seq<CheckpointView>)
    ensures
        furthest(list) matches Some(c) ==> list.contains(c),
        list.len() > 0 ==> furthest(list) is Some,
    decreases list.len(),
{
    if list.len() > 0 {
        let head = list.drop_last();
        lemma_furthest_bound(head);
        let c = furthest(list)->0;
        if c == list.last() {
            assert(list[list.len() - 1] == c);
        } else {
            let i = choose|i: int| 0 <= i < head.len() && head[i] == c;
            assert(list[i] == c);
        }
    }
}

/// A checkpoint that reaches as far as every other is the one that is loaded
/// after it was saved.
pub proof fn law_furthest_checkpoint_is_loaded(
    m: MetaView,
    target: i64,
    summary: Seq<char>,
    now: Seq<char>,
)
    requires
        forall|i: int|
            0 <= i < m.checkpoints.len() ==> (#[trigger] m.checkpoints[i]).target_sequence <= target,
    ensures
        m.checkpointed(target, summary, now).latest_checkpoint() == summary,
{
    let wanted = |c: CheckpointView| c.target_sequence != target;
    let kept = m.checkpoints.filter(wanted);
    let list = m.checkpointed(target, summary, now).checkpoints;
    assert(list.drop_last() =~= kept);
    lemma_furthest_bound(kept);
    if let Some(c) = furthest(kept) {
        let i = choose|i: int| 0 <= i < kept.len() && kept[i] == c;
        m.checkpoints.lemma_filter_contains_rev(wanted, kept[i]);
        let k = choose|k: int| 0 <= k < m.checkpoints.len() && m.checkpoints[k] == c;
        assert(m.checkpoints[k].target_sequence <= target);
    }
}

/// Compacting that has begun and ended leaves nothing behind.
pub proof fn law_compaction_marks_cancel(m: MetaView, now: Seq<char>)
    requires
        !m.compaction_in_progress,
        m.compaction_started_at is None,
    ensures
        (MetaView {
            compaction_in_progress: false,
            compaction_started_at: None,
            ..MetaView {
                compaction_in_progress: true,
                compaction_started_at: Some(now),
                ..m
            }
        }) == m,
{
}

/// When a session was first touched is kept, and when it was last touched is
/// updated; nothing else changes.
pub proof fn law_first_touch_is_kept(m: &mut SessionMeta, now: &str)
    requires
        call_ensures(SessionMeta::touch, (m, now), ()),
    ensures
        final(m).updated_at@ == now@,
        old(m).created_at@.len() == 0 ==> final(m).created_at@ == now@,
        old(m).created_at@.len() > 0 ==> final(m).created_at@ == old(m).created_at@,
        final(m).summary@ == old(m).summary@,
        final(m).watermark == old(m).watermark,
        final(m).next_sequence == old(m).next_sequence,
        final(m)@.checkpoints == old(m)@.checkpoints,
{
    let a = old(m)@;
    let b = final(m)@;
    assert(b.watermark == final(m).watermark && a.watermark == old(m).watermark);
    assert(b.next_sequence == final(m).next_sequence && a.next_sequence == old(m).next_sequence);
}

/// A summary that is saved is loaded again with its watermark, and the
/// checkpoints, the numbers and the time of creation stay.
pub proof fn law_summary_is_loaded_as_saved(
    m: &mut SessionMeta,
    content: &str,
    watermark: i64,
    now: &str,
    later: &SessionMeta,
    r: Option<(String, i64)>,
)
    requires
        call_ensures(SessionMeta::save_summary, (m, content, watermark, now), ()),
        later@ == final(m)@,
        call_ensures(SessionMeta::load_summary, (later,), r),
    ensures
        content@.len() > 0 || watermark != 0 ==> (r matches Some(s) && s.0@ == content@ && s.1
            == watermark),
        content@.len() == 0 && watermark == 0 ==> r is None,
        final(m)@.checkpoints == old(m)@.checkpoints,
        final(m)@.created_at == old(m)@.created_at,
        final(m)@.updated_at == now@,
        final(m)@.next_sequence == old(m)@.next_sequence,
        final(m)@.compaction_in_progress == old(m)@.compaction_in_progress,
{
}

/// Deleting a summary tells whether one could be loaded; afterwards none can, and
/// everything else is left.
pub proof fn law_summary_is_deleted(
    m: &mut SessionMeta,
    had: bool,
    later: &SessionMeta,
    r: Option<(String, i64)>,
)
    requires
        call_ensures(SessionMeta::delete_summary, (m,), had),
        later@ == final(m)@,
        call_ensures(SessionMeta::load_summary, (later,), r),
    ensures
        r is None,
        had <==> old(m).summary@.len() > 0 || old(m).watermark != 0,
        final(m)@.checkpoints == old(m)@.checkpoints,
        final(m)@.next_sequence == old(m)@.next_sequence,
        final(m)@.created_at == old(m)@.created_at,
{
    assert(old(m)@.watermark == old(m).watermark);
}

/// A checkpoint that is saved is there with its summary, in place of any other
/// for the same number, and the checkpoints for other numbers stay.
pub proof fn law_checkpoint_is_kept(
    m: &mut SessionMeta,
    target: i64,
    summary: &str,
    now: &str,
    c: CheckpointView,
)
    requires
        call_ensures(SessionMeta::save_checkpoint, (m, target, summary, now), ()),
    ensures
        c.target_sequence == target ==> (final(m)@.checkpoints.contains(c) <==> c.summary
            == summary@ && c.created_at == now@),
        c.target_sequence != target ==> (final(m)@.checkpoints.contains(c) <==> old(
            m,
        )@.checkpoints.contains(c)),
        final(m)@.summary == old(m)@.summary,
        final(m)@.watermark == old(m)@.watermark,
{
    let before = old(m)@.checkpoints;
    let after = final(m)@.checkpoints;
    let wanted = |c: CheckpointView| c.target_sequence != target;
    let kept = before.filter(wanted);
    let new = CheckpointView { target_sequence: target, summary: summary@, created_at: now@ };
    assert(after == kept.push(new));
    assert(after[kept.len() as int] == new);
    if before.contains(c) && c.target_sequence != target {
        let k = choose|k: int| 0 <= k < before.len() && before[k] == c;
        before.lemma_filter_contains(wanted, k);
        let j = choose|j: int| 0 <= j < kept.len() && kept[j] == c;
        assert(after[j] == c);
    }
    if after.contains(c) {
        let j = choose|j: int| 0 <= j < after.len() && after[j] == c;
        if j < kept.len() {
            assert(kept[j] == c);
            before.lemma_filter_pred(wanted, j);
            before.lemma_filter_contains_rev(wanted, kept[j]);
        }
    }
}

/// The checkpoint that is loaded reaches at least as far as any other, and of
/// those that reach as far it is the last; without one its summary is empty.
pub proof fn law_loaded_checkpoint_reaches_furthest(m: &SessionMeta, r: (String, String, i64))
    requires
        call_ensures(SessionMeta::load_summary_with_checkpoint, (m,), r),
    ensures
        r.0@ == m.summary@,
        r.2 == m.watermark,
        m.checkpoints@.len() == 0 ==> r.1@.len() == 0,
        m.checkpoints@.len() > 0 ==> exists|k: int|
            0 <= k < m.checkpoints@.len() && r.1@ == (#[trigger] m.checkpoints@[k]).summary@
                && reaches_furthest(m@.checkpoints, k),
{
    let list = m@.checkpoints;
    assert(list.len() == m.checkpoints@.len());
    assert(m@.watermark == m.watermark);
    if list.len() > 0 {
        let k = lemma_furthest_place(list);
        assert(list[k] == m.checkpoints@[k]@);
        assert(r.1@ == m.checkpoints@[k].summary@);
    }
}

/// Whether the checkpoint at a place reaches as far as all before it, and further
/// than all behind it.
pub open spec fn reaches_furthest(list: Seq<CheckpointView>, k: int) -> bool {
    forall|i: int|
        0 <= i < list.len() ==> (i <= k ==> (#[trigger] list[i]).target_sequence
            <= list[k].target_sequence) && (i > k ==> list[i].target_sequence
            < list[k].target_sequence)
}

proof fn lemma_furthest_place(list: Seq<CheckpointView>) -> (k: int)
    requires
        list.len() > 0,
    ensures
        0 <= k < list.len(),
        furthest(list) == Some(list[k]),
        reaches_furthest(list, k),
    decreases list.len(),
{
    let head = list.drop_last();
    if head.len() == 0 {
        0
    } else {
        let k = lemma_furthest_place(head);
        let at = if list.last().target_sequence >= list[k].target_sequence {
            list.len() - 1
        } else {
            k
        };
        assert forall|i: int| 0 <= i < list.len() implies (i <= at ==> (
        #[trigger] list[i]).target_sequence <= list[at].target_sequence) && (i > at
            ==> list[i].target_sequence < list[at].target_sequence) by {
            if i < head.len() {
                assert(head[i] == list[i]);
            }
        }
        at
    }
}

/// While a session is being compacted that is told, with when it began; once it
/// is over nothing is left of it. What is kept of the session stays.
pub proof fn law_compaction_is_marked(m: &mut SessionMeta, now: &str)
    requires
        call_ensures(SessionMeta::mark_compaction_started, (m, now), ()),
    ensures
        final(m).compaction_in_progress,
        text::opt_view(final(m).compaction_started_at) == Some(now@),
        final(m)@.summary == old(m)@.summary,
        final(m)@.watermark == old(m)@.watermark,
        final(m)@.checkpoints == old(m)@.checkpoints,
        final(m)@.next_sequence == old(m)@.next_sequence,
{
    assert(final(m)@.compaction_in_progress == final(m).compaction_in_progress);
}

/// The mark is taken away once compacting is over.
pub proof fn law_compaction_mark_is_taken_away(m: &mut SessionMeta)
    requires
        call_ensures(SessionMeta::mark_compaction_finished, (m,), ()),
    ensures
        !final(m).compaction_in_progress,
        final(m).compaction_started_at is None,
        final(m)@.summary == old(m)@.summary,
        final(m)@.watermark == old(m)@.watermark,
        final(m)@.checkpoints == old(m)@.checkpoints,
        final(m)@.next_sequence == old(m)@.next_sequence,
{
    assert(final(m)@.compaction_in_progress == final(m).compaction_in_progress);
    assert(final(m)@.compaction_started_at == text::opt_view(final(m).compaction_started_at));
}

/// A session of which nothing is kept has no summary, no checkpoints, and its
/// numbers begin at zero.
pub proof fn law_new_session_has_nothing(m: SessionMeta)
    requires
        call_ensures(SessionMeta::empty, (), m),
    ensures
        m.summary@.len() == 0,
        m.watermark == 0,
        m.checkpoints@.len() == 0,
        m.next_sequence == 0,
        !m.compaction_in_progress,
{
    assert(m@.checkpoints.len() == m.checkpoints@.len());
    assert(m@.watermark == m.watermark);
    assert(m@.next_sequence == m.next_sequence);
    assert(m@.compaction_in_progress == m.compaction_in_progress);
}

} // verus!
