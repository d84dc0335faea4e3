//! Events, and questions that are answered from lists of them.

use crate::json::Json;
use crate::order;
use crate::path;
use crate::text;
use crate::time;
use crate::time::Instant;
use vstd::arithmetic::power::pow;
use vstd::prelude::*;
use vstd::string::*;

verus! {

/// What an event is.
pub enum EventType {
    UserMessage,
    AssistantMessage,
    /// A summary of events before it.
    Summary,
    /// Anything else, by its name.
    Other(String),
}

impl EventType {
    /// Whether it is a summary.
    pub fn is_summary(&self) -> (r: bool)
        ensures
            r == (*self is Summary),
    {
        match self {
            EventType::Summary => true,
            _ => false,
        }
    }

    /// Whether it is a message of the user or of the assistant.
    pub open spec fn message(self) -> bool {
        self is UserMessage || self is AssistantMessage
    }

    /// Whether it is a message of the user or of the assistant.
    pub fn is_message(&self) -> (r: bool)
        ensures
            r == self.message(),
    {
        match self {
            EventType::UserMessage => true,
            EventType::AssistantMessage => true,
            _ => false,
        }
    }
}

/// One event of a session.
pub struct SessionEvent {
    /// A UUID, as a number.
    pub id: u128,
    pub session_key: String,
    pub event_type: EventType,
    pub content: String,
    pub metadata: Json,
    pub created_at: Instant,
    /// Its number in the session.
    pub sequence: i64,
}

// ── ids ─────────────────────────────────────────────────────────────────

/// A hexadecimal digit.
pub open spec fn hex_digit(d: int) -> char {
    if d < 10 {
        ('0' as u32 + d) as char
    } else {
        ('a' as u32 + d - 10) as char
    }
}

/// The `k`-th of the 32 hexadecimal digits of an id.
pub open spec fn id_digit(id: u128, k: int) -> int {
    (id as int / pow(16, (31 - k) as nat)) % 16
}

/// An id as text: 32 digits in groups of 8, 4, 4, 4 and 12.
pub open spec fn id_text(id: u128) -> Seq<char> {
    Seq::new(
        36,
        |i: int|
            if i == 8 || i == 13 || i == 18 || i == 23 {
                '-'
            } else if i < 8 {
                hex_digit(id_digit(id, i))
            } else if i < 13 {
                hex_digit(id_digit(id, i - 1))
            } else if i < 18 {
                hex_digit(id_digit(id, i - 2))
            } else if i < 23 {
                hex_digit(id_digit(id, i - 3))
            } else {
                hex_digit(id_digit(id, i - 4))
            },
    )
}

/// `Display` of `Uuid` in `uuid`: the hexadecimal digits of the id, lower case,
/// with a hyphen between groups.
#[verifier::external_body]
fn show_id(id: u128) -> (out: String)
    ensures
        out@ == id_text(id),
{
    uuid::Uuid::from_u128(id).to_string()
}

// ── lists of events ─────────────────────────────────────────────────────

/// The events that `f` takes, in their order.
fn keep<F: Fn(&SessionEvent) -> bool>(
    events: Vec<SessionEvent>,
    f: &F,
    Ghost(wanted): Ghost<spec_fn(SessionEvent) -> bool>,
) -> (out: Vec<SessionEvent>)
    requires
        forall|e: &SessionEvent| f.requires((e,)),
        forall|e: &SessionEvent, r: bool| f.ensures((e,), r) ==> r == wanted(*e),
    ensures
        out@ == events@.filter(wanted),
{
    let ghost all = events@;
    let mut rest = events;
    let mut out: Vec<SessionEvent> = Vec::new();
    let ghost mut i: int = 0;
    proof {
        reveal(Seq::filter);
    }
    assert(all.take(0).filter(wanted) =~= Seq::empty());
    while rest.len() > 0
        invariant
            forall|e: &SessionEvent| f.requires((e,)),
            forall|e: &SessionEvent, r: bool| f.ensures((e,), r) ==> r == wanted(*e),
            0 <= i <= all.len(),
            rest@ == all.skip(i),
            out@ == all.take(i).filter(wanted),
        decreases rest@.len(),
    {
        let e = rest.remove(0);
        proof {
            assert(e == all[i]);
            assert(rest@ =~= all.skip(i + 1));
            assert(all.take(i + 1) =~= all.take(i).push(e));
            all.take(i).lemma_filter_push(e, wanted);
            i = i + 1;
        }
        if f(&e) {
            out.push(e);
        }
    }
    assert(all.take(i) =~= all);
    out
}

/// The order of events in a session.
pub open spec fn by_sequence() -> spec_fn(SessionEvent, SessionEvent) -> bool {
    |a: SessionEvent, b: SessionEvent| a.sequence <= b.sequence
}

fn sort_by_sequence(events: Vec<SessionEvent>) -> (out: Vec<SessionEvent>)
    ensures
        order::stable_sort_of(out@, events@, by_sequence()),
{
    let le = |a: &SessionEvent, b: &SessionEvent| -> (r: bool)
        ensures
            r == (a.sequence <= b.sequence),
        { a.sequence <= b.sequence };
    order::stable_sort(events, &le, Ghost(by_sequence()))
}

/// The events of a session in the order of their numbers.
pub fn get_session_history(events: Vec<SessionEvent>) -> (out: Vec<SessionEvent>)
    ensures
        order::stable_sort_of(out@, events@, by_sequence()),
{
    sort_by_sequence(events)
}

/// The events behind the number `after`, in order.
pub fn get_events_after_sequence(events: Vec<SessionEvent>, after: i64) -> (out: Vec<SessionEvent>)
    ensures
        order::stable_sort_of(
            out@,
            newer(events@, after),
            by_sequence(),
        ),
{
    let f = |e: &SessionEvent| -> (r: bool)
        ensures
            r == (e.sequence > after),
        { e.sequence > after };
    sort_by_sequence(keep(events, &f, Ghost(|e: SessionEvent| e.sequence > after)))
}

/// The events up to the number `target` that are no summaries, in order: what
/// a summary is made from.
pub fn get_events_up_to_sequence(events: Vec<SessionEvent>, target: i64) -> (out: Vec<SessionEvent>)
    ensures
        order::stable_sort_of(
            out@,
            events@.filter(
                |e: SessionEvent| e.sequence <= target && !(e.event_type is Summary),
            ),
            by_sequence(),
        ),
{
    let f = |e: &SessionEvent| -> (r: bool)
        ensures
            r == (e.sequence <= target && !(e.event_type is Summary)),
        { e.sequence <= target && !e.event_type.is_summary() };
    sort_by_sequence(
        keep(
            events,
            &f,
            Ghost(|e: SessionEvent| e.sequence <= target && !(e.event_type is Summary)),
        ),
    )
}

/// The highest number of a list of events.
pub open spec fn top_sequence(events: Seq<SessionEvent>) -> Option<i64>
    decreases events.len(),
{
    if events.len() == 0 {
        None
    } else {
        match top_sequence(events.drop_last()) {
            Some(m) => if events.last().sequence >= m {
                Some(events.last().sequence)
            } else {
                Some(m)
            },
            None => Some(events.last().sequence),
        }
    }
}

/// No event is above the highest number, and one has it.
pub proof fn lemma_top_sequence(events: Seq<SessionEvent>)
    ensures
        events.len() == 0 <==> top_sequence(events) is None,
        top_sequence(events) matches Some(m) ==> (forall|i: int|
            0 <= i < events.len() ==> (#[trigger] events[i]).sequence <= m) && (exists|i: int|
            0 <= i < events.len() && (#[trigger] events[i]).sequence == m),
    decreases events.len(),
{
    if events.len() > 0 {
        let head = events.drop_last();
        lemma_top_sequence(head);
        let m = top_sequence(events)->0;
        assert forall|i: int| 0 <= i < events.len() implies (#[trigger] events[i]).sequence
            <= m by {
            if i < events.len() - 1 {
                assert(events[i] == head[i]);
            }
        }
        if m == events.last().sequence {
            assert(events[events.len() - 1].sequence == m);
        } else {
            let i = choose|i: int| 0 <= i < head.len() && (#[trigger] head[i]).sequence == m;
            assert(events[i].sequence == m);
        }
    }
}

/// The highest number of a list of events.
pub fn max_sequence(events: &Vec<SessionEvent>) -> (r: Option<i64>)
    ensures
        r == top_sequence(events@),
{
    let mut top: Option<i64> = None;
    for i in 0..events.len()
        invariant
            top == top_sequence(events@.take(i as int)),
    {
        assert(events@.take(i + 1).drop_last() =~= events@.take(i as int));
        let n: i64 = events[i].sequence;
        top = match top {
            Some(m) => if n >= m {
                Some(n)
            } else {
                Some(m)
            },
            None => Some(n),
        };
    }
    assert(events@.take(events@.len() as int) =~= events@);
    top
}

/// The highest number of a session, 0 where it has no events.
pub fn get_max_sequence(events: &Vec<SessionEvent>) -> (n: i64)
    ensures
        n == (match top_sequence(events@) {
            Some(m) => m,
            None => 0,
        }),
{
    match max_sequence(events) {
        Some(m) => m,
        None => 0,
    }
}

/// The ids of the events up to the number `up_to`.
pub open spec fn ids_up_to(events: Seq<SessionEvent>, up_to: i64) -> Seq<Seq<char>>
    decreases events.len(),
{
    if events.len() == 0 {
        Seq::empty()
    } else {
        let before = ids_up_to(events.drop_last(), up_to);
        if events.last().sequence <= up_to {
            before.push(id_text(events.last().id))
        } else {
            before
        }
    }
}

/// The ids of the events up to the number `up_to`, as texts.
pub fn get_event_ids_up_to(events: &Vec<SessionEvent>, up_to: i64) -> (out: Vec<String>)
    ensures
        text::views(out@) == ids_up_to(events@, up_to),
{
    let mut out: Vec<String> = Vec::new();
    assert(text::views(out@) =~= Seq::empty());
    for i in 0..events.len()
        invariant
            text::views(out@) == ids_up_to(events@.take(i as int), up_to),
    {
        let ghost before = out@;
        assert(events@.take(i + 1).drop_last() =~= events@.take(i as int));
        if events[i].sequence <= up_to {
            out.push(show_id(events[i].id));
            assert(text::views(out@) =~= text::views(before).push(id_text(events@[i as int].id)));
        }
    }
    assert(events@.take(events@.len() as int) =~= events@);
    out
}

/// The events behind a number.
pub open spec fn newer(events: Seq<SessionEvent>, than: i64) -> Seq<SessionEvent> {
    events.filter(|e: SessionEvent| e.sequence > than)
}

/// The events up to a number are deleted: those that stay, and how many go.
pub fn split_upto(events: Vec<SessionEvent>, target: i64) -> (r: (Vec<SessionEvent>, u64))
    ensures
        r.0@ == newer(events@, target),
        r.1 == events@.len() - r.0@.len(),
{
    let n: usize = events.len();
    let f = |e: &SessionEvent| -> (r: bool)
        ensures
            r == (e.sequence > target),
        { e.sequence > target };
    let ghost wanted = |e: SessionEvent| e.sequence > target;
    let ghost all = events@;
    let kept = keep(events, &f, Ghost(wanted));
    proof {
        all.lemma_filter_len(wanted);
    }
    let gone: usize = n - kept.len();
    (kept, gone as u64)
}

// ── all sessions ────────────────────────────────────────────────────────

/// The order of events of several sessions: by session, then by number.
pub open spec fn by_session() -> spec_fn(SessionEvent, SessionEvent) -> bool {
    |a: SessionEvent, b: SessionEvent|
        {
            let x = path::text_key(a.session_key@);
            let y = path::text_key(b.session_key@);
            path::lex_leq(x, y) && (x == y ==> a.sequence <= b.sequence)
        }
}

proof fn lemma_by_session_is_a_preorder()
    ensures
        order::is_preorder(by_session()),
{
    let leq = by_session();
    assert forall|a: SessionEvent, b: SessionEvent| #[trigger] leq(a, b) || leq(b, a) by {
        let x = path::text_key(a.session_key@);
        let y = path::text_key(b.session_key@);
        path::lemma_lex_total(x, y);
    }
    assert forall|a: SessionEvent, b: SessionEvent, c: SessionEvent| #[trigger]
        leq(a, b) && #[trigger] leq(b, c) implies leq(a, c) by {
        let x = path::text_key(a.session_key@);
        let y = path::text_key(b.session_key@);
        let z = path::text_key(c.session_key@);
        path::lemma_lex_transitive(x, y, z);
        if x == z {
            path::lemma_lex_antisymmetric(x, y);
        }
    }
}

fn key_of_text(s: &str) -> (out: Vec<u32>)
    ensures
        out@ == path::text_key(s@),
{
    let chars = text::chars_of(s);
    let mut out: Vec<u32> = Vec::new();
    path::push_text_key(&mut out, &chars, 0, chars.len());
    assert(chars@.subrange(0, chars@.len() as int) =~= s@);
    assert(out@ =~= path::text_key(s@));
    out
}

fn session_le(a: &SessionEvent, b: &SessionEvent) -> (r: bool)
    ensures
        r == by_session()(*a, *b),
{
    let x = key_of_text(a.session_key.as_str());
    let y = key_of_text(b.session_key.as_str());
    if !path::lex_le(&x, &y) {
        false
    } else if path::lex_le(&y, &x) {
        proof {
            path::lemma_lex_antisymmetric(x@, y@);
        }
        a.sequence <= b.sequence
    } else {
        proof {
            path::lemma_lex_total(x@, x@);
        }
        true
    }
}

fn sort_by_session(events: Vec<SessionEvent>) -> (out: Vec<SessionEvent>)
    ensures
        order::stable_sort_of(out@, events@, by_session()),
{
    let le = |a: &SessionEvent, b: &SessionEvent| -> (r: bool)
        ensures
            r == by_session()(*a, *b),
        { session_le(a, b) };
    proof {
        lemma_by_session_is_a_preorder();
    }
    order::stable_sort(events, &le, Ghost(by_session()))
}

/// The events of all sessions, one session behind the other.
pub open spec fn joined(sessions: Seq<Vec<SessionEvent>>) -> Seq<SessionEvent>
    decreases sessions.len(),
{
    if sessions.len() == 0 {
        Seq::empty()
    } else {
        joined(sessions.drop_last()) + sessions.last()@
    }
}

fn join_sessions(sessions: Vec<Vec<SessionEvent>>) -> (out: Vec<SessionEvent>)
    ensures
        out@ == joined(sessions@),
{
    let ghost all = sessions@;
    let mut rest = sessions;
    let mut out: Vec<SessionEvent> = Vec::new();
    let ghost mut i: int = 0;
    while rest.len() > 0
        invariant
            0 <= i <= all.len(),
            rest@ == all.skip(i),
            out@ == joined(all.take(i)),
        decreases rest@.len(),
    {
        let mut events = rest.remove(0);
        proof {
            assert(events == all[i]);
            assert(rest@ =~= all.skip(i + 1));
            assert(all.take(i + 1).drop_last() =~= all.take(i));
            i = i + 1;
        }
        out.append(&mut events);
    }
    assert(all.take(i) =~= all);
    out
}

fn has_id(ids: &Vec<u128>, id: u128) -> (r: bool)
    ensures
        r == ids@.contains(id),
{
    for i in 0..ids.len()
        invariant
            forall|j: int| 0 <= j < i ==> ids@[j] != id,
    {
        if ids[i] == id {
            return true;
        }
    }
    false
}

/// The events with given ids, of all sessions, by session and number.
pub fn get_events_by_ids_global(sessions: Vec<Vec<SessionEvent>>, ids: &Vec<u128>) -> (out: Vec<
    SessionEvent,
>)
    ensures
        order::stable_sort_of(
            out@,
            joined(sessions@).filter(|e: SessionEvent| ids@.contains(e.id)),
            by_session(),
        ),
{
    let f = |e: &SessionEvent| -> (r: bool)
        ensures
            r == ids@.contains(e.id),
        { has_id(ids, e.id) };
    let all = join_sessions(sessions);
    sort_by_session(keep(all, &f, Ghost(|e: SessionEvent| ids@.contains(e.id))))
}

/// The messages of the user and the assistant among events.
pub open spec fn messages(events: Seq<SessionEvent>) -> Seq<SessionEvent> {
    events.filter(|e: SessionEvent| e.event_type.message())
}

/// The newest message first; of two that are as old the one with the higher
/// number.
pub open spec fn newest_first() -> spec_fn(SessionEvent, SessionEvent) -> bool {
    |a: SessionEvent, b: SessionEvent|
        a.created_at != b.created_at && b.created_at.at_or_before(a.created_at) || a.created_at
            == b.created_at && a.sequence >= b.sequence
}

fn newer_or_same(a: &SessionEvent, b: &SessionEvent) -> (r: bool)
    ensures
        r == newest_first()(*a, *b),
{
    if a.created_at == b.created_at {
        a.sequence >= b.sequence
    } else {
        time::is_at_or_before(&b.created_at, &a.created_at)
    }
}

/// Messages with the newest first.
pub fn sort_newest_first(events: Vec<SessionEvent>) -> (out: Vec<SessionEvent>)
    ensures
        order::stable_sort_of(out@, events@, newest_first()),
{
    let le = |a: &SessionEvent, b: &SessionEvent| -> (r: bool)
        ensures
            r == newest_first()(*a, *b),
        { newer_or_same(a, b) };
    order::stable_sort(events, &le, Ghost(newest_first()))
}

/// `out` holds the newest `limit` of the messages, by session and number; all
/// of them where the limit is 0 or there are no more.
pub open spec fn recent(out: Seq<SessionEvent>, messages: Seq<SessionEvent>, limit: int) -> bool {
    if limit == 0 || limit >= messages.len() {
        order::stable_sort_of(out, messages, by_session())
    } else {
        exists|newest: Seq<SessionEvent>| #[trigger]
            order::stable_sort_of(newest, messages, newest_first()) && order::stable_sort_of(
                out,
                newest.take(limit),
                by_session(),
            )
    }
}

/// The most recent messages of the user and the assistant, of all sessions, by
/// session and number. A limit of 0 is none.
pub fn get_recent_events(sessions: Vec<Vec<SessionEvent>>, limit: usize) -> (out: Vec<SessionEvent>)
    ensures
        recent(out@, messages(joined(sessions@)), limit as int),
{
    let f = |e: &SessionEvent| -> (r: bool)
        ensures
            r == e.event_type.message(),
        { e.event_type.is_message() };
    let all = join_sessions(sessions);
    let found = keep(all, &f, Ghost(|e: SessionEvent| e.event_type.message()));
    assert(found@ == messages(joined(sessions@)));
    if limit == 0 || limit >= found.len() {
        return sort_by_session(found);
    }
    let ghost given = found@;
    let mut newest = sort_newest_first(found);
    let ghost sorted = newest@;
    proof {
        order::lemma_sorted_len(sorted, given, newest_first());
    }
    newest.truncate(limit);
    assert(newest@ =~= sorted.take(limit as int));
    sort_by_session(newest)
}

/// No message that a limit leaves out is newer than one that is kept.
pub proof fn law_recent_are_the_newest(
    out: Seq<SessionEvent>,
    messages: Seq<SessionEvent>,
    limit: int,
    kept: SessionEvent,
    left: SessionEvent,
)
    requires
        limit >= 0,
        recent(out, messages, limit),
        out.contains(kept),
        messages.contains(left),
        !out.contains(left),
    ensures
        newest_first()(kept, left),
{
    let at = choose|i: int| 0 <= i < out.len() && out[i] == kept;
    if limit == 0 || limit >= messages.len() {
        order::lemma_item_is_sorted_in(out, messages, by_session(), left);
    } else {
        let newest = choose|newest: Seq<SessionEvent>| #[trigger]
            order::stable_sort_of(newest, messages, newest_first()) && order::stable_sort_of(
                out,
                newest.take(limit),
                by_session(),
            );
        let head = newest.take(limit);
        order::lemma_sorted_len(newest, messages, newest_first());
        order::lemma_sorted_item(out, head, by_session(), at);
        let i = choose|i: int| 0 <= i < head.len() && head[i] == kept;
        order::lemma_item_is_sorted_in(newest, messages, newest_first(), left);
        let j = choose|j: int| 0 <= j < newest.len() && newest[j] == left;
        if j < limit {
            assert(head[j] == left);
            order::lemma_item_is_sorted_in(out, head, by_session(), left);
        }
        assert(newest_first()(newest[i], newest[j]));
    }
}

/// A session with events: its key, how many events it has, and when it was last
/// updated. That is kept beside the events; where it is not, it is when the last
/// of them was made.
pub open spec fn activity(events: Seq<SessionEvent>, updated_at: Seq<char>) -> (
    Seq<char>,
    i64,
    Seq<char>,
) {
    (
        events[0].session_key@,
        events.len() as i64,
        if updated_at.len() > 0 {
            updated_at
        } else {
            time::rfc3339_text(events.last().created_at.secs, events.last().created_at.nanos)
        },
    )
}

/// The sessions with events.
pub open spec fn active(sessions: Seq<(Vec<SessionEvent>, String)>) -> Seq<
    (Seq<char>, i64, Seq<char>),
>
    decreases sessions.len(),
{
    if sessions.len() == 0 {
        Seq::empty()
    } else {
        let before = active(sessions.drop_last());
        if sessions.last().0@.len() == 0 {
            before
        } else {
            before.push(activity(sessions.last().0@, sessions.last().1@))
        }
    }
}

/// The views of sessions with events.
pub open spec fn activity_views(list: Seq<(String, i64, String)>) -> Seq<
    (Seq<char>, i64, Seq<char>),
> {
    Seq::new(list.len(), |i: int| (list[i].0@, list[i].1, list[i].2@))
}

/// Whether a session can be listed: its events can be counted, and where no time
/// is kept beside them the last was made at a time that the calendar has.
pub open spec fn listable(session: (Vec<SessionEvent>, String)) -> bool {
    session.0@.len() <= i64::MAX && (session.0@.len() > 0 && session.1@.len() == 0
        ==> session.0@.last().created_at.valid())
}

/// Lists the sessions that have events, given the events of each session and the
/// time of the last update that is kept beside them.
pub fn scan_active_sessions(sessions: &Vec<(Vec<SessionEvent>, String)>) -> (out: Vec<
    (String, i64, String),
>)
    requires
        forall|i: int| 0 <= i < sessions@.len() ==> listable(#[trigger] sessions@[i]),
    ensures
        activity_views(out@) == active(sessions@),
{
    let mut out: Vec<(String, i64, String)> = Vec::new();
    assert(activity_views(out@) =~= Seq::empty());
    for i in 0..sessions.len()
        invariant
            forall|i: int| 0 <= i < sessions@.len() ==> listable(#[trigger] sessions@[i]),
            activity_views(out@) == active(sessions@.take(i as int)),
    {
        let session = &sessions[i];
        let events = &session.0;
        let ghost before = out@;
        assert(sessions@.take(i + 1).drop_last() =~= sessions@.take(i as int));
        assert(sessions@.take(i + 1).last() == *session);
        if events.len() > 0 {
            let updated: String = if session.1.as_str().is_empty() {
                time::to_rfc3339(&events[events.len() - 1].created_at)
            } else {
                text::copy_str(session.1.as_str())
            };
            out.push((text::copy_str(events[0].session_key.as_str()), events.len() as i64, updated));
            assert(activity_views(out@) =~= activity_views(before).push(
                activity(events@, session.1@),
            ));
        }
    }
    assert(sessions@.take(sessions@.len() as int) =~= sessions@);
    out
}

// ── laws ────────────────────────────────────────────────────────────────

/// Whether events stand in the order of their numbers.
pub open spec fn in_order(list: Seq<SessionEvent>) -> bool {
    forall|i: int, j: int|
        0 <= i <= j < list.len() ==> (#[trigger] list[i]).sequence <= (#[trigger] list[j]).sequence
}

proof fn lemma_sorted_in_order(out: Seq<SessionEvent>, s: Seq<SessionEvent>, e: SessionEvent)
    requires
        order::stable_sort_of(out, s, by_sequence()),
    ensures
        in_order(out),
        out.contains(e) <==> s.contains(e),
        out.len() == s.len(),
{
    let leq = by_sequence();
    order::lemma_sorted_len(out, s, leq);
    assert forall|i: int, j: int| 0 <= i <= j < out.len() implies (#[trigger] out[i]).sequence <= (
    #[trigger] out[j]).sequence by {
        assert(leq(out[i], out[j]));
    }
    lemma_same_items(out, s, leq, e);
}

proof fn lemma_same_items(
    out: Seq<SessionEvent>,
    s: Seq<SessionEvent>,
    leq: spec_fn(SessionEvent, SessionEvent) -> bool,
    e: SessionEvent,
)
    requires
        order::stable_sort_of(out, s, leq),
    ensures
        out.contains(e) <==> s.contains(e),
{
    if s.contains(e) {
        order::lemma_item_is_sorted_in(out, s, leq, e);
    }
    if out.contains(e) {
        let i = choose|i: int| 0 <= i < out.len() && out[i] == e;
        order::lemma_sorted_item(out, s, leq, i);
    }
}

proof fn lemma_filtered(s: Seq<SessionEvent>, wanted: spec_fn(SessionEvent) -> bool, e: SessionEvent)
    ensures
        s.filter(wanted).contains(e) <==> s.contains(e) && wanted(e),
{
    if s.filter(wanted).contains(e) {
        let i = choose|i: int| 0 <= i < s.filter(wanted).len() && s.filter(wanted)[i] == e;
        s.lemma_filter_pred(wanted, i);
        s.lemma_filter_contains_rev(wanted, e);
    }
    if s.contains(e) && wanted(e) {
        let i = choose|i: int| 0 <= i < s.len() && s[i] == e;
        s.lemma_filter_contains(wanted, i);
    }
}

/// The history of a session is all of its events, in the order of their numbers.
pub proof fn law_history_is_all_in_order(events: Vec<SessionEvent>, out: Vec<SessionEvent>, e: SessionEvent)
    requires
        call_ensures(get_session_history, (events,), out),
    ensures
        in_order(out@),
        out@.contains(e) <==> events@.contains(e),
        out@.len() == events@.len(),
{
    lemma_sorted_in_order(out@, events@, e);
}

/// The events after a number are all those above it and no others, in order.
pub proof fn law_events_after_a_number(
    events: Vec<SessionEvent>,
    after: i64,
    out: Vec<SessionEvent>,
    e: SessionEvent,
)
    requires
        call_ensures(get_events_after_sequence, (events, after), out),
    ensures
        in_order(out@),
        out@.contains(e) <==> events@.contains(e) && e.sequence > after,
{
    lemma_sorted_in_order(out@, newer(events@, after), e);
    lemma_filtered(events@, |e: SessionEvent| e.sequence > after, e);
}

/// The events up to a number, from which a summary is made, are all those that
/// are not above it and are no summaries themselves, in order.
pub proof fn law_events_up_to_a_number(
    events: Vec<SessionEvent>,
    target: i64,
    out: Vec<SessionEvent>,
    e: SessionEvent,
)
    requires
        call_ensures(get_events_up_to_sequence, (events, target), out),
    ensures
        in_order(out@),
        out@.contains(e) <==> events@.contains(e) && e.sequence <= target && !(e.event_type
            is Summary),
{
    let wanted = |e: SessionEvent| e.sequence <= target && !(e.event_type is Summary);
    lemma_sorted_in_order(out@, events@.filter(wanted), e);
    lemma_filtered(events@, wanted, e);
}

/// Every event but a summary is on one side of a number: among those up to it, or
/// among those after it, and not on both.
pub proof fn law_number_divides_the_events(
    events: Vec<SessionEvent>,
    n: i64,
    up_to: Vec<SessionEvent>,
    after: Vec<SessionEvent>,
    e: SessionEvent,
)
    requires
        call_ensures(get_events_up_to_sequence, (events, n), up_to),
        call_ensures(get_events_after_sequence, (events, n), after),
        events@.contains(e),
        !(e.event_type is Summary),
    ensures
        up_to@.contains(e) <==> !after@.contains(e),
{
    law_events_up_to_a_number(events, n, up_to, e);
    law_events_after_a_number(events, n, after, e);
}

/// The highest number of a session is that of one of its events, and no event has
/// a higher one; a session without events has none, and 0 stands for it.
pub proof fn law_highest_number(events: &Vec<SessionEvent>, r: Option<i64>, n: i64)
    requires
        call_ensures(max_sequence, (events,), r),
        call_ensures(get_max_sequence, (events,), n),
    ensures
        events@.len() == 0 ==> r is None && n == 0,
        events@.len() > 0 ==> r == Some(n),
        forall|i: int| 0 <= i < events@.len() ==> (#[trigger] events@[i]).sequence <= n,
        events@.len() > 0 ==> exists|i: int|
            0 <= i < events@.len() && (#[trigger] events@[i]).sequence == n,
{
    lemma_top_sequence(events@);
}

/// The ids up to a number are those of the events up to it, in the order of the
/// events: one more event adds its id at the end, unless its number is higher.
pub proof fn law_ids_up_to_a_number(events: Seq<SessionEvent>, e: SessionEvent, up_to: i64)
    ensures
        ids_up_to(Seq::empty(), up_to).len() == 0,
        e.sequence <= up_to ==> ids_up_to(events.push(e), up_to) == ids_up_to(events, up_to).push(
            id_text(e.id),
        ),
        e.sequence > up_to ==> ids_up_to(events.push(e), up_to) == ids_up_to(events, up_to),
{
    assert(events.push(e).drop_last() =~= events);
}

/// What is deleted up to a number is what is not above it; the rest stays, and
/// how much is deleted is told.
pub proof fn law_split_keeps_what_is_newer(
    events: Vec<SessionEvent>,
    target: i64,
    r: (Vec<SessionEvent>, u64),
    e: SessionEvent,
)
    requires
        call_ensures(split_upto, (events, target), r),
    ensures
        r.0@.contains(e) <==> events@.contains(e) && e.sequence > target,
        r.0@.len() + r.1 == events@.len(),
{
    lemma_filtered(events@, |e: SessionEvent| e.sequence > target, e);
}

proof fn lemma_joined(sessions: Seq<Vec<SessionEvent>>, e: SessionEvent)
    ensures
        joined(sessions).contains(e) <==> exists|k: int|
            0 <= k < sessions.len() && (#[trigger] sessions[k])@.contains(e),
    decreases sessions.len(),
{
    if sessions.len() > 0 {
        let head = sessions.drop_last();
        let last = sessions.last()@;
        lemma_joined(head, e);
        let all = joined(sessions);
        let front = joined(head);
        if all.contains(e) {
            let i = choose|i: int| 0 <= i < all.len() && all[i] == e;
            if i < front.len() {
                assert(front[i] == e);
                let k = choose|k: int| 0 <= k < head.len() && (#[trigger] head[k])@.contains(e);
                assert(sessions[k] == head[k]);
            } else {
                assert(last[i - front.len()] == e);
                assert(sessions[sessions.len() - 1]@.contains(e));
            }
        }
        if exists|k: int| 0 <= k < sessions.len() && (#[trigger] sessions[k])@.contains(e) {
            let k = choose|k: int| 0 <= k < sessions.len() && (#[trigger] sessions[k])@.contains(e);
            if k < head.len() {
                assert(head[k] == sessions[k]);
                let i = choose|i: int| 0 <= i < front.len() && front[i] == e;
                assert(all[i] == e);
            } else {
                let i = choose|i: int| 0 <= i < last.len() && last[i] == e;
                assert(all[front.len() + i] == e);
            }
        }
    }
}

/// Whether events stand by session, the sessions by their keys, and within a
/// session by number.
pub open spec fn by_session_and_number(list: Seq<SessionEvent>) -> bool {
    forall|i: int, j: int|
        0 <= i <= j < list.len() ==> path::text_first(
            (#[trigger] list[i]).session_key@,
            (#[trigger] list[j]).session_key@,
        ) && (list[i].session_key@ == list[j].session_key@ ==> list[i].sequence <= list[j].sequence)
}

proof fn lemma_by_session(out: Seq<SessionEvent>, s: Seq<SessionEvent>)
    requires
        order::stable_sort_of(out, s, by_session()),
    ensures
        by_session_and_number(out),
{
    let leq = by_session();
    assert forall|i: int, j: int| 0 <= i <= j < out.len() implies path::text_first(
        (#[trigger] out[i]).session_key@,
        (#[trigger] out[j]).session_key@,
    ) && (out[i].session_key@ == out[j].session_key@ ==> out[i].sequence <= out[j].sequence) by {
        assert(leq(out[i], out[j]));
        path::law_texts_sort_by_their_characters(out[i].session_key@, out[j].session_key@);
    }
}

/// The events that are asked for by their ids are all that have one of them,
/// of whatever session, by session and number.
pub proof fn law_events_are_found_by_id(
    sessions: Vec<Vec<SessionEvent>>,
    ids: &Vec<u128>,
    out: Vec<SessionEvent>,
    e: SessionEvent,
)
    requires
        call_ensures(get_events_by_ids_global, (sessions, ids), out),
    ensures
        out@.contains(e) <==> ids@.contains(e.id) && exists|k: int|
            0 <= k < sessions@.len() && (#[trigger] sessions@[k])@.contains(e),
        by_session_and_number(out@),
{
    let wanted = |e: SessionEvent| ids@.contains(e.id);
    let all = joined(sessions@);
    lemma_same_items(out@, all.filter(wanted), by_session(), e);
    lemma_filtered(all, wanted, e);
    lemma_joined(sessions@, e);
    lemma_by_session(out@, all.filter(wanted));
}

/// Whether a message is at least as new as another: made later, or at the same
/// time with a number that is not lower.
pub open spec fn as_new(a: SessionEvent, b: SessionEvent) -> bool {
    ||| a.created_at.secs > b.created_at.secs
    ||| a.created_at.secs == b.created_at.secs && a.created_at.nanos > b.created_at.nanos
    ||| a.created_at.secs == b.created_at.secs && a.created_at.nanos == b.created_at.nanos
        && a.sequence >= b.sequence
}

/// The recent messages are of the user and the assistant, of all sessions, by
/// session and number; with a limit there are that many, and none that is left
/// out is newer than one that is there; with a limit of 0 none is left out.
pub proof fn law_recent_messages(
    sessions: Vec<Vec<SessionEvent>>,
    limit: usize,
    out: Vec<SessionEvent>,
    kept: SessionEvent,
    other: SessionEvent,
)
    requires
        call_ensures(get_recent_events, (sessions, limit), out),
    ensures
        by_session_and_number(out@),
        limit > 0 ==> out@.len() <= limit,
        out@.contains(kept) ==> (kept.event_type is UserMessage || kept.event_type
            is AssistantMessage) && exists|k: int|
            0 <= k < sessions@.len() && (#[trigger] sessions@[k])@.contains(kept),
        (other.event_type is UserMessage || other.event_type is AssistantMessage) && (exists|k: int|
            0 <= k < sessions@.len() && (#[trigger] sessions@[k])@.contains(other))
            && !out@.contains(other) ==> limit > 0 && out@.len() == limit && (out@.contains(kept)
            ==> as_new(kept, other)),
{
    let all = joined(sessions@);
    let found = messages(all);
    let wanted = |e: SessionEvent| e.event_type.message();
    let n = limit as int;
    lemma_filtered(all, wanted, kept);
    lemma_filtered(all, wanted, other);
    lemma_joined(sessions@, kept);
    lemma_joined(sessions@, other);
    if n == 0 || n >= found.len() {
        lemma_by_session(out@, found);
        lemma_same_items(out@, found, by_session(), kept);
        lemma_same_items(out@, found, by_session(), other);
        order::lemma_sorted_len(out@, found, by_session());
    } else {
        let newest = choose|newest: Seq<SessionEvent>| #[trigger]
            order::stable_sort_of(newest, found, newest_first()) && order::stable_sort_of(
                out@,
                newest.take(n),
                by_session(),
            );
        let head = newest.take(n);
        order::lemma_sorted_len(newest, found, newest_first());
        order::lemma_sorted_len(out@, head, by_session());
        lemma_by_session(out@, head);
        lemma_same_items(out@, head, by_session(), kept);
        if out@.contains(kept) {
            let i = choose|i: int| 0 <= i < head.len() && head[i] == kept;
            assert(newest[i] == kept);
            lemma_same_items(newest, found, newest_first(), kept);
        }
        if found.contains(other) && !out@.contains(other) && out@.contains(kept) {
            law_recent_are_the_newest(out@, found, n, kept, other);
        }
    }
}

/// A session with events is listed with its key, how many events it has, and when
/// it was last updated; one without events is not listed, and the sessions keep
/// their order.
pub proof fn law_sessions_with_events_are_listed(
    sessions: Seq<(Vec<SessionEvent>, String)>,
    s: (Vec<SessionEvent>, String),
)
    requires
        s.0@.len() <= i64::MAX,
    ensures
        active(Seq::empty()).len() == 0,
        s.0@.len() == 0 ==> active(sessions.push(s)) == active(sessions),
        s.0@.len() > 0 ==> ({
            let all = active(sessions.push(s));
            &&& all.len() == active(sessions).len() + 1
            &&& all.drop_last() == active(sessions)
            &&& all.last().0 == s.0@[0].session_key@
            &&& all.last().1 == s.0@.len()
            &&& s.1@.len() > 0 ==> all.last().2 == s.1@
            &&& s.1@.len() == 0 ==> all.last().2 == time::rfc3339_text(
                s.0@[s.0@.len() - 1].created_at.secs,
                s.0@[s.0@.len() - 1].created_at.nanos,
            )
        }),
{
    assert(sessions.push(s).drop_last() =~= sessions);
    if s.0@.len() > 0 {
        assert(active(sessions.push(s)).drop_last() =~= active(sessions));
    }
}

/// The messages are what the user and the assistant wrote, and a summary is one
/// where it says so.
pub proof fn law_kinds_of_events(t: &EventType, message: bool, summary: bool)
    requires
        call_ensures(EventType::is_message, (t,), message),
        call_ensures(EventType::is_summary, (t,), summary),
    ensures
        message <==> *t is UserMessage || *t is AssistantMessage,
        summary <==> *t is Summary,
{
}

} // verus!
