//! The tool that looks into past conversations.

use crate::json;
use crate::json::{Json, JsonView, NumberView};
use crate::order;
use crate::store::event;
use crate::store::event::{EventType, SessionEvent};
use crate::text;
use crate::time;
use vstd::prelude::*;
use vstd::string::*;

verus! {

/// How many messages are shown where nothing else is asked for.
pub const DEFAULT_LIMIT: usize = 20;

/// How many messages are shown at most.
pub const MAX_LIMIT: usize = 100;

/// How many characters of a message are shown.
pub const PREVIEW_CHARS: usize = 400;

/// What the tool is for.
pub const TOOL_DESCRIPTION: &'static str = "Query conversation history from the local store. Supports keyword search across all sessions. Works regardless of sandbox policies.";

/// The parameters of the tool, as a JSON schema.
pub open spec fn parameters_view() -> JsonView {
    JsonView::empty_object().with("type"@, JsonView::Str("object"@)).with(
        "properties"@,
        JsonView::empty_object().with(
            "keywords"@,
            JsonView::empty_object().with("type"@, JsonView::Str("string"@)).with(
                "description"@,
                JsonView::Str(
                    "Optional keywords to search for in message content (case-insensitive)"@,
                ),
            ),
        ).with(
            "limit"@,
            JsonView::empty_object().with("type"@, JsonView::Str("integer"@)).with(
                "description"@,
                JsonView::Str("Maximum number of messages to return"@),
            ).with("default"@, JsonView::Number(NumberView::Unsigned(20))),
        ),
    ).with("required"@, JsonView::Array(Seq::empty()))
}

/// A text in lower case.
pub uninterp spec fn lowercase(s: Seq<char>) -> Seq<char>;

/// `str::to_lowercase` of std: the text in lower case, as Unicode has it. What
/// becomes of a character is not stated beyond the name [`lowercase`].
#[verifier::external_body]
fn to_lowercase(s: &str) -> (out: String)
    ensures
        out@ == lowercase(s@),
{
    s.to_lowercase()
}

/// Whether a message is looked for: a message of the user or the assistant, in
/// which the keywords occur, upper and lower case being the same.
pub open spec fn is_hit(e: SessionEvent, keywords: Option<Seq<char>>) -> bool {
    e.event_type.message() && (keywords matches Some(k) ==> text::occurs(
        lowercase(k),
        lowercase(e.content@),
    ))
}

/// How many messages are shown.
pub open spec fn shown_limit(limit: Option<usize>) -> usize {
    match limit {
        Some(n) => if n <= MAX_LIMIT {
            n
        } else {
            MAX_LIMIT
        },
        None => DEFAULT_LIMIT,
    }
}

/// Who a message is from.
pub open spec fn role_of(t: EventType) -> Seq<char> {
    match t {
        EventType::UserMessage => "user"@,
        EventType::AssistantMessage => "assistant"@,
        _ => "unknown"@,
    }
}

/// A message as it is shown: when it was made, who it is from, and how it
/// begins.
pub open spec fn shown(when: Seq<char>, role: Seq<char>, content: Seq<char>) -> Seq<char> {
    "\n["@ + when + "] "@ + role + ":\n"@ + text::shortened(content, PREVIEW_CHARS as nat)
}

/// What is shown of a message.
pub struct Entry {
    pub when: String,
    pub role: &'static str,
    pub content: String,
}

/// The view of an [`Entry`].
pub struct EntryView {
    pub when: Seq<char>,
    pub role: Seq<char>,
    pub content: Seq<char>,
}

impl View for Entry {
    type V = EntryView;

    open spec fn view(&self) -> EntryView {
        EntryView { when: self.when@, role: self.role@, content: self.content@ }
    }
}

/// The views of entries.
pub open spec fn entry_views(list: Seq<Entry>) -> Seq<EntryView> {
    Seq::new(list.len(), |i: int| list[i]@)
}

/// What is shown of messages.
pub open spec fn entries_of(hits: Seq<SessionEvent>) -> Seq<EntryView> {
    Seq::new(
        hits.len(),
        |i: int|
            EntryView {
                when: time::rfc3339_text(hits[i].created_at.secs, hits[i].created_at.nanos),
                role: role_of(hits[i].event_type),
                content: hits[i].content@,
            },
    )
}

/// Messages as they are shown, one behind the other.
pub open spec fn all_shown(list: Seq<EntryView>) -> Seq<char>
    decreases list.len(),
{
    if list.len() == 0 {
        Seq::empty()
    } else {
        all_shown(list.drop_last()) + shown(list.last().when, list.last().role, list.last().content)
    }
}

/// The answer of the tool.
pub open spec fn report(list: Seq<EntryView>) -> Seq<char> {
    if list.len() == 0 {
        "No history found."@
    } else {
        "Conversation history ("@ + text::decimal(list.len()) + " messages):"@ + all_shown(list)
    }
}

/// The answer of the tool, given what is shown of the messages.
pub fn show_report(list: &Vec<Entry>) -> (out: String)
    ensures
        out@ == report(entry_views(list@)),
{
    let ghost all = entry_views(list@);
    if list.len() == 0 {
        return text::copy_str("No history found.");
    }
    let n = text::show_usize(list.len());
    let mut out = text::cat3("Conversation history (", n.as_str(), " messages):");
    let ghost title = out@;
    assert(all.take(0) =~= Seq::empty());
    assert(out@ =~= title + all_shown(all.take(0)));
    for i in 0..list.len()
        invariant
            all == entry_views(list@),
            out@ == title + all_shown(all.take(i as int)),
    {
        let e = &list[i];
        let preview = text::shorten(e.content.as_str(), PREVIEW_CHARS);
        let head = text::cat5("\n[", e.when.as_str(), "] ", e.role, ":\n");
        out.append(head.as_str());
        out.append(preview.as_str());
        assert(all.take(i + 1).drop_last() =~= all.take(i as int));
        assert(all.take(i + 1).last() == e@);
        assert(out@ =~= title + all_shown(all.take(i + 1)));
    }
    assert(all.take(all.len() as int) =~= all);
    out
}

/// The first of some messages.
pub open spec fn head(list: Seq<SessionEvent>, n: usize) -> Seq<SessionEvent> {
    if n < list.len() {
        list.take(n as int)
    } else {
        list
    }
}

/// The messages that are looked for.
pub open spec fn hits_of(events: Seq<SessionEvent>, keywords: Option<Seq<char>>) -> Seq<SessionEvent> {
    events.filter(|e: SessionEvent| is_hit(e, keywords))
}

fn entry_for(e: &SessionEvent) -> (out: Entry)
    requires
        e.created_at.valid(),
    ensures
        out@ == (EntryView {
            when: time::rfc3339_text(e.created_at.secs, e.created_at.nanos),
            role: role_of(e.event_type),
            content: e.content@,
        }),
{
    let role: &'static str = match e.event_type {
        EventType::UserMessage => "user",
        EventType::AssistantMessage => "assistant",
        _ => "unknown",
    };
    Entry {
        when: time::to_rfc3339(&e.created_at),
        role,
        content: text::copy_str(e.content.as_str()),
    }
}

/// Whether a text matches keywords, both in lower case; without keywords every
/// text does.
pub fn matches_keywords(content: &str, keywords: &Option<String>) -> (r: bool)
    ensures
        r == (text::opt_view(*keywords) matches Some(k) ==> text::occurs(k, content@)),
{
    match keywords {
        Some(k) => text::contains(content, k.as_str()),
        None => true,
    }
}

fn hit(e: &SessionEvent, keywords: &Option<String>, lower: &Option<String>) -> (r: bool)
    requires
        text::opt_view(*lower) == (match text::opt_view(*keywords) {
            Some(k) => Some(lowercase(k)),
            None => None,
        }),
    ensures
        r == is_hit(*e, text::opt_view(*keywords)),
{
    if !e.event_type.is_message() {
        return false;
    }
    let content = to_lowercase(e.content.as_str());
    matches_keywords(content.as_str(), lower)
}

fn find_hits(events: Vec<SessionEvent>, keywords: &Option<String>) -> (out: Vec<SessionEvent>)
    ensures
        out@ == hits_of(events@, text::opt_view(*keywords)),
{
    let ghost all = events@;
    let ghost words = text::opt_view(*keywords);
    let ghost wanted = |e: SessionEvent| is_hit(e, words);
    let lower: Option<String> = match keywords {
        Some(k) => Some(to_lowercase(k.as_str())),
        None => None,
    };
    let mut rest = events;
    let mut out: Vec<SessionEvent> = Vec::new();
    let ghost mut i: int = 0;
    proof {
        reveal(Seq::filter);
    }
    assert(all.take(0).filter(wanted) =~= Seq::empty());
    while rest.len() > 0
        invariant
            words == text::opt_view(*keywords),
            wanted == (|e: SessionEvent| is_hit(e, words)),
            text::opt_view(lower) == (match words {
                Some(k) => Some(lowercase(k)),
                None => None,
            }),
            0 <= i <= all.len(),
            rest@ == all.skip(i),
            out@ == all.take(i).filter(wanted),
        decreases rest@.len(),
    {
        let e = rest.remove(0);
        proof {
            assert(e == all[i]);
            assert(rest@ =~= all.skip(i + 1));
            assert(all.take(i + 1) =~= all.take(i).push(e));
            all.take(i).lemma_filter_push(e, wanted);
            i = i + 1;
        }
        if hit(&e, keywords, &lower) {
            out.push(e);
        }
    }
    assert(all.take(i) =~= all);
    out
}

/// The tool that looks into past conversations.
pub struct HistoryQueryTool;

impl HistoryQueryTool {
    /// The tool.
    pub fn new() -> (out: Self)
        ensures
            out == HistoryQueryTool,
    {
        HistoryQueryTool
    }

    /// The name of the tool.
    pub fn name(&self) -> (out: &'static str)
        ensures
            out@ == "query_history"@,
    {
        "query_history"
    }

    /// What the tool is for.
    pub fn description(&self) -> (out: &'static str)
        ensures
            out@ == TOOL_DESCRIPTION@,
    {
        TOOL_DESCRIPTION
    }

    /// The parameters of the tool, as a JSON schema.
    pub fn parameters(&self) -> (out: Json)
        ensures
            out@ == parameters_view(),
    {
        let keywords = Json::empty_object().with("type", Json::text("string")).with(
            "description",
            Json::text("Optional keywords to search for in message content (case-insensitive)"),
        );
        let limit = Json::empty_object().with("type", Json::text("integer")).with(
            "description",
            Json::text("Maximum number of messages to return"),
        ).with("default", Json::unsigned(20));
        let properties = Json::empty_object().with("keywords", keywords).with("limit", limit);
        let none: Vec<Json> = Vec::new();
        let required = Json::array(none);
        assert(required@->Array_0 =~= Seq::empty());
        Json::empty_object().with("type", Json::text("object")).with("properties", properties).with(
            "required",
            required,
        )
    }

    /// Looks for messages in `events` and shows the newest of them.
    pub fn execute(
        &self,
        events: Vec<SessionEvent>,
        keywords: &Option<String>,
        limit: Option<usize>,
    ) -> (out: String)
        requires
            forall|i: int| 0 <= i < events@.len() ==> (#[trigger] events@[i]).created_at.valid(),
        ensures
            exists|sorted: Seq<SessionEvent>| #[trigger]
                order::stable_sort_of(
                    sorted,
                    hits_of(events@, text::opt_view(*keywords)),
                    event::newest_first(),
                ) && out@ == report(entries_of(head(sorted, shown_limit(limit)))),
    {
        let limit: usize = match limit {
            Some(n) => if n <= MAX_LIMIT {
                n
            } else {
                MAX_LIMIT
            },
            None => DEFAULT_LIMIT,
        };
        let ghost all = events@;
        let ghost found = hits_of(all, text::opt_view(*keywords));
        let hits = find_hits(events, keywords);
        let mut hits = event::sort_newest_first(hits);
        let ghost sorted = hits@;
        proof {
            assert(order::stable_sort_of(sorted, found, event::newest_first()));
            lemma_hits_are_valid(all, text::opt_view(*keywords), sorted);
        }
        if limit < hits.len() {
            hits.truncate(limit);
        }
        assert(hits@ == head(sorted, limit));
        let mut list: Vec<Entry> = Vec::new();
        for i in 0..hits.len()
            invariant
                forall|i: int| 0 <= i < hits@.len() ==> (#[trigger] hits@[i]).created_at.valid(),
                list@.len() == i,
                forall|j: int| 0 <= j < i ==> (#[trigger] list@[j])@ == entries_of(hits@)[j],
        {
            list.push(entry_for(&hits[i]));
        }
        assert(entry_views(list@) =~= entries_of(hits@));
        show_report(&list)
    }
}

proof fn lemma_hits_are_valid(
    events: Seq<SessionEvent>,
    keywords: Option<Seq<char>>,
    sorted: Seq<SessionEvent>,
)
    requires
        forall|i: int| 0 <= i < events.len() ==> (#[trigger] events[i]).created_at.valid(),
        order::stable_sort_of(sorted, hits_of(events, keywords), event::newest_first()),
    ensures
        forall|i: int| 0 <= i < sorted.len() ==> (#[trigger] sorted[i]).created_at.valid(),
{
    broadcast use vstd::seq_lib::group_to_multiset_ensures;

    let hits = hits_of(events, keywords);
    let wanted = |e: SessionEvent| is_hit(e, keywords);
    assert forall|i: int| 0 <= i < sorted.len() implies (
    #[trigger] sorted[i]).created_at.valid() by {
        assert(sorted.contains(sorted[i]));
        assert(sorted.to_multiset().contains(sorted[i]));
        assert(hits.to_multiset().contains(sorted[i]));
        assert(hits.contains(sorted[i]));
        events.lemma_filter_contains_rev(wanted, sorted[i]);
        let k = choose|k: int| 0 <= k < events.len() && events[k] == sorted[i];
        assert(events[k].created_at.valid());
    }
}

/// However much is asked for, no more than a hundred messages are shown, and
/// no more than there are.
pub proof fn law_answer_is_bounded(list: Seq<SessionEvent>, limit: Option<usize>)
    ensures
        head(list, shown_limit(limit)).len() <= 100,
        head(list, shown_limit(limit)).len() <= list.len(),
        limit matches Some(n) ==> head(list, shown_limit(limit)).len() <= n,
{
}

/// Whether a message is at least as new as another: made later, or at the same
/// time with a number that is not lower.
pub open spec fn as_new_as(a: SessionEvent, b: SessionEvent) -> bool {
    ||| a.created_at.secs > b.created_at.secs
    ||| a.created_at.secs == b.created_at.secs && a.created_at.nanos > b.created_at.nanos
    ||| a.created_at.secs == b.created_at.secs && a.created_at.nanos == b.created_at.nanos
        && a.sequence >= b.sequence
}

/// Whether a message is asked for: the user or the assistant wrote it, and the
/// keywords, where there are any, occur in it, whatever the case of letters.
pub open spec fn asked_for(e: SessionEvent, keywords: Option<Seq<char>>) -> bool {
    &&& e.event_type is UserMessage || e.event_type is AssistantMessage
    &&& keywords matches Some(k) ==> exists|i: int|
        text::stands_at(lowercase(k), lowercase(e.content@), i)
}

/// Messages as they are to be shown, the first of them first: when each was made
/// and by whom, and its first 400 characters, with dots behind them where there
/// are more.
pub open spec fn transcript(list: Seq<SessionEvent>) -> Seq<char>
    decreases list.len(),
{
    if list.len() == 0 {
        Seq::empty()
    } else {
        let e = list[0];
        "\n["@ + time::rfc3339_text(e.created_at.secs, e.created_at.nanos) + "] "@ + (
        if e.event_type is UserMessage {
            "user"@
        } else {
            "assistant"@
        }) + ":\n"@ + (if e.content@.len() > 400 {
            e.content@.take(400) + "..."@
        } else {
            e.content@
        }) + transcript(list.drop_first())
    }
}

/// Whether an answer shows these messages and no others.
pub open spec fn answers_with(out: Seq<char>, list: Seq<SessionEvent>) -> bool {
    if list.len() == 0 {
        out == "No history found."@
    } else {
        out == "Conversation history ("@ + text::decimal(list.len()) + " messages):"@ + transcript(
            list,
        )
    }
}

/// How many messages are shown at most: 20, or as many as are asked for, up to
/// a hundred.
pub open spec fn at_most(limit: Option<usize>) -> int {
    match limit {
        None => 20,
        Some(n) => if n > 100 {
            100
        } else {
            n as int
        },
    }
}

proof fn lemma_all_shown_of_two(a: Seq<EntryView>, b: Seq<EntryView>)
    ensures
        all_shown(a + b) == all_shown(a) + all_shown(b),
    decreases b.len(),
{
    if b.len() == 0 {
        assert(a + b =~= a);
        assert(all_shown(a) + all_shown(b) =~= all_shown(a));
    } else {
        lemma_all_shown_of_two(a, b.drop_last());
        assert((a + b).drop_last() =~= a + b.drop_last());
        assert(all_shown(a + b) =~= all_shown(a) + all_shown(b));
    }
}

proof fn lemma_transcript(list: Seq<SessionEvent>)
    requires
        forall|i: int| 0 <= i < list.len() ==> (#[trigger] list[i]).event_type.message(),
    ensures
        all_shown(entries_of(list)) == transcript(list),
    decreases list.len(),
{
    if list.len() > 0 {
        let rest = list.drop_first();
        assert forall|i: int| 0 <= i < rest.len() implies (#[trigger] rest[i]).event_type.message() by {
            assert(rest[i] == list[i + 1]);
        }
        lemma_transcript(rest);
        assert(list[0].event_type.message());
        let all = entries_of(list);
        let first = seq![all[0]];
        assert(all =~= first + entries_of(rest));
        lemma_all_shown_of_two(first, entries_of(rest));
        assert(first.drop_last() =~= Seq::empty());
        assert(all_shown(first.drop_last()) =~= Seq::empty());
        assert(all_shown(first) =~= shown(all[0].when, all[0].role, all[0].content));
        assert(all_shown(entries_of(list)) =~= transcript(list));
    }
}

proof fn lemma_hit_is_asked_for(e: SessionEvent, keywords: Option<Seq<char>>)
    ensures
        is_hit(e, keywords) <==> asked_for(e, keywords),
{
    if let Some(k) = keywords {
        let needle = lowercase(k);
        let s = lowercase(e.content@);
        if text::occurs(needle, s) {
            let i = choose|i: int|
                0 <= i <= s.len() - needle.len() && #[trigger] s.subrange(i, i + needle.len())
                    == needle;
            assert forall|j: int| 0 <= j < needle.len() implies s[i + j] == #[trigger] needle[j] by {
                assert(s.subrange(i, i + needle.len())[j] == needle[j]);
            }
            assert(text::stands_at(needle, s, i));
        }
        if exists|i: int| text::stands_at(needle, s, i) {
            let i = choose|i: int| text::stands_at(needle, s, i);
            assert(s.subrange(i, i + needle.len()) =~= needle);
        }
    }
}

/// Whether messages are those that a query is to show: some of those that are
/// asked for, the newest of them first, none left out that is newer than one
/// that is shown, and none left out at all unless as many are shown as may be.
pub open spec fn newest_asked_for(
    list: Seq<SessionEvent>,
    events: Seq<SessionEvent>,
    keywords: Option<Seq<char>>,
    most: int,
) -> bool {
    &&& forall|i: int|
        0 <= i < list.len() ==> events.contains(#[trigger] list[i]) && asked_for(list[i], keywords)
    &&& forall|i: int, j: int| 0 <= i <= j < list.len() ==> as_new_as(#[trigger] list[i], #[trigger] list[j])
    &&& forall|k: int, i: int|
        0 <= k < events.len() && asked_for(#[trigger] events[k], keywords) && !list.contains(
            events[k],
        ) && 0 <= i < list.len() ==> as_new_as(#[trigger] list[i], events[k])
    &&& list.len() <= most
    &&& list.len() < most ==> forall|k: int|
        0 <= k < events.len() && asked_for(#[trigger] events[k], keywords) ==> list.contains(
            events[k],
        )
}

/// A query shows the newest of the messages that are asked for, the newest
/// first: every one that is shown is at least as new as every one that is left
/// out, and none is left out unless as many are shown as may be.
pub proof fn law_query_shows_the_newest(
    tool: &HistoryQueryTool,
    events: Vec<SessionEvent>,
    keywords: &Option<String>,
    limit: Option<usize>,
    out: String,
)
    requires
        call_ensures(HistoryQueryTool::execute, (tool, events, keywords, limit), out),
    ensures
        exists|list: Seq<SessionEvent>| #[trigger]
            answers_with(out@, list) && newest_asked_for(
                list,
                events@,
                text::opt_view(*keywords),
                at_most(limit),
            ),
{
    let words = text::opt_view(*keywords);
    let wanted = |e: SessionEvent| is_hit(e, words);
    let hits = hits_of(events@, words);
    let leq = event::newest_first();
    let sorted = choose|sorted: Seq<SessionEvent>| #[trigger]
        order::stable_sort_of(sorted, hits, leq) && out@ == report(
            entries_of(head(sorted, shown_limit(limit))),
        );
    let n = shown_limit(limit);
    let list = head(sorted, n);
    order::lemma_sorted_len(sorted, hits, leq);
    assert forall|i: int| 0 <= i < sorted.len() implies events@.contains(#[trigger] sorted[i])
        && asked_for(sorted[i], words) by {
        order::lemma_sorted_item(sorted, hits, leq, i);
        let k = choose|k: int| 0 <= k < hits.len() && hits[k] == sorted[i];
        events@.lemma_filter_pred(wanted, k);
        events@.lemma_filter_contains_rev(wanted, hits[k]);
        lemma_hit_is_asked_for(sorted[i], words);
    }
    assert forall|k: int| 0 <= k < events@.len() && asked_for(#[trigger] events@[k], words) implies
        sorted.contains(events@[k]) by {
        lemma_hit_is_asked_for(events@[k], words);
        events@.lemma_filter_contains(wanted, k);
        order::lemma_item_is_sorted_in(sorted, hits, leq, events@[k]);
    }
    assert forall|i: int| 0 <= i < list.len() implies list[i] == sorted[i] by {}
    assert forall|i: int| 0 <= i < list.len() implies (#[trigger] list[i]).event_type.message() by {
        assert(list[i] == sorted[i]);
        assert(asked_for(sorted[i], words));
    }
    lemma_transcript(list);
    assert forall|i: int, j: int| 0 <= i <= j < list.len() implies as_new_as(
        #[trigger] list[i],
        #[trigger] list[j],
    ) by {
        assert(leq(sorted[i], sorted[j]));
    }
    assert forall|k: int, i: int|
        0 <= k < events@.len() && asked_for(#[trigger] events@[k], words) && !list.contains(
            events@[k],
        ) && 0 <= i < list.len() implies as_new_as(#[trigger] list[i], events@[k]) by {
        let j = choose|j: int| 0 <= j < sorted.len() && sorted[j] == events@[k];
        if j < list.len() {
            assert(list[j] == events@[k]);
        }
        assert(leq(sorted[i], sorted[j]));
    }
    assert(entries_of(list).len() == list.len());
    assert(newest_asked_for(list, events@, words, at_most(limit)));
    assert(answers_with(out@, list));
}

/// A message is found by its own text, and by the same keywords in any case of
/// letters.
pub proof fn law_message_is_found_by_its_text(e: SessionEvent, keywords: Seq<char>)
    requires
        e.event_type is UserMessage || e.event_type is AssistantMessage,
    ensures
        is_hit(e, None),
        lowercase(keywords) == lowercase(e.content@) ==> is_hit(e, Some(keywords)),
{
    let s = lowercase(e.content@);
    if lowercase(keywords) == s {
        assert(s.subrange(0, 0 + s.len() as int) =~= s);
        assert(text::occurs(lowercase(keywords), s));
    }
}

/// The tool takes keywords as a text and a limit as an integer, twenty where none is
/// given, and needs neither.
pub proof fn law_parameters_of_the_tool(tool: &HistoryQueryTool, out: Json)
    requires
        call_ensures(HistoryQueryTool::parameters, (tool,), out),
    ensures
        out@.member("type"@) == Some(JsonView::Str("object"@)),
        out@.member("required"@) matches Some(JsonView::Array(list)) && list.len() == 0,
        out@.member("properties"@) matches Some(p) && (p.member("keywords"@) matches Some(k)
            && k.member("type"@) == Some(JsonView::Str("string"@))) && (p.member("limit"@) matches Some(
            n,
        ) && n.member("type"@) == Some(JsonView::Str("integer"@)) && n.member("default"@) == Some(
            JsonView::Number(NumberView::Unsigned(20)),
        )),
{
    reveal_strlit("type");
    reveal_strlit("properties");
    reveal_strlit("required");
    reveal_strlit("keywords");
    reveal_strlit("limit");
    reveal_strlit("description");
    reveal_strlit("default");
    assert("type"@.len() == 4 && "properties"@.len() == 10 && "required"@.len() == 8);
    assert("keywords"@.len() == 8 && "limit"@.len() == 5);
    assert("description"@.len() == 11 && "default"@.len() == 7);
    let none = JsonView::empty_object();
    let k0 = none.with("type"@, JsonView::Str("string"@));
    let k1 = k0.with(
        "description"@,
        JsonView::Str("Optional keywords to search for in message content (case-insensitive)"@),
    );
    json::lemma_with_member(none, "type"@, JsonView::Str("string"@));
    json::lemma_with_member(k0, "description"@, k1->Object_0.last().1);
    let n0 = none.with("type"@, JsonView::Str("integer"@));
    let n1 = n0.with("description"@, JsonView::Str("Maximum number of messages to return"@));
    let n2 = n1.with("default"@, JsonView::Number(NumberView::Unsigned(20)));
    json::lemma_with_member(none, "type"@, JsonView::Str("integer"@));
    json::lemma_with_member(
        n0,
        "description"@,
        JsonView::Str("Maximum number of messages to return"@),
    );
    json::lemma_with_member(n1, "default"@, JsonView::Number(NumberView::Unsigned(20)));
    let p0 = none.with("keywords"@, k1);
    let p1 = p0.with("limit"@, n2);
    json::lemma_with_member(none, "keywords"@, k1);
    json::lemma_with_member(p0, "limit"@, n2);
    let s0 = none.with("type"@, JsonView::Str("object"@));
    let s1 = s0.with("properties"@, p1);
    json::lemma_with_member(none, "type"@, JsonView::Str("object"@));
    json::lemma_with_member(s0, "properties"@, p1);
    json::lemma_with_member(s1, "required"@, JsonView::Array(Seq::empty()));
}

} // verus!
