//! The answers of the gateway's HTTP routes.

use crate::json;
use crate::json::{Json, JsonView};
use crate::text;
use vstd::prelude::*;
use vstd::string::*;

verus! {

/// The port that the gateway listens on.
pub const HTTP_PORT: u16 = 3000;

/// The route for the context of a session.
pub const CONTEXT_ROUTE: &'static str = "/api/sessions/{session_key}/context";

/// The route for compacting a session.
pub const COMPACT_ROUTE: &'static str = "/api/sessions/{session_key}/context/compact";

/// The route for the commands.
pub const COMMANDS_ROUTE: &'static str = "/api/commands";

/// How full the context of a session is. Figures are JSON values: some of them
/// are fractions.
pub struct SessionStats {
    pub token_budget: Json,
    pub compaction_threshold: Json,
    pub threshold_tokens: Json,
    pub current_tokens: Json,
    pub usage_percent: Json,
    pub is_compressing: bool,
}

/// How far a session has been compacted.
pub struct WatermarkInfo {
    pub watermark: Json,
    pub max_sequence: Json,
    pub uncompacted_count: Json,
    pub compacted_percent: Json,
}

/// An answer over HTTP.
pub struct HttpReply {
    pub status: u16,
    pub body: Json,
}

/// The view of an [`HttpReply`].
pub struct ReplyView {
    pub status: u16,
    pub body: JsonView,
}

impl View for HttpReply {
    type V = ReplyView;

    open spec fn view(&self) -> ReplyView {
        ReplyView { status: self.status, body: self.body@ }
    }
}

/// An object with one text member.
pub open spec fn note(key: Seq<char>, value: Seq<char>) -> JsonView {
    JsonView::empty_object().with(key, JsonView::Str(value))
}

/// The figures of a context, as an object.
pub open spec fn stats_json(s: SessionStats) -> JsonView {
    JsonView::empty_object().with("token_budget"@, s.token_budget@).with(
        "compaction_threshold"@,
        s.compaction_threshold@,
    ).with("threshold_tokens"@, s.threshold_tokens@).with(
        "current_tokens"@,
        s.current_tokens@,
    ).with("usage_percent"@, s.usage_percent@).with(
        "is_compressing"@,
        JsonView::Bool(s.is_compressing),
    )
}

/// The figures of a compaction, as an object.
pub open spec fn watermark_json(w: WatermarkInfo) -> JsonView {
    JsonView::empty_object().with("watermark"@, w.watermark@).with(
        "max_sequence"@,
        w.max_sequence@,
    ).with("uncompacted_count"@, w.uncompacted_count@).with(
        "compacted_percent"@,
        w.compacted_percent@,
    )
}

/// An object with the figures of a session behind what it has.
pub open spec fn with_figures(v: JsonView, s: SessionStats, w: WatermarkInfo) -> JsonView {
    v.with("context_stats"@, stats_json(s)).with("watermark_info"@, watermark_json(w))
}

/// What the route for the context of a session answers: that the key is no
/// key, the figures, or that there are none.
pub open spec fn context_reply(
    key_valid: bool,
    stats: Option<SessionStats>,
    watermark: Option<WatermarkInfo>,
) -> ReplyView {
    if !key_valid {
        ReplyView { status: 400, body: note("error"@, "Invalid session key"@) }
    } else {
        match (stats, watermark) {
            (Some(s), Some(w)) => ReplyView {
                status: 200,
                body: with_figures(JsonView::empty_object(), s, w),
            },
            _ => ReplyView {
                status: 404,
                body: note("error"@, "Session not found or no compactor available"@),
            },
        }
    }
}

/// What the route for compacting a session answers: a conflict where it could
/// not be compacted, and otherwise that it was, with the figures where there
/// are any.
pub open spec fn compact_reply(
    key_valid: bool,
    failure: Option<Seq<char>>,
    stats: Option<SessionStats>,
    watermark: Option<WatermarkInfo>,
) -> ReplyView {
    if !key_valid {
        ReplyView { status: 400, body: note("error"@, "Invalid session key"@) }
    } else {
        match failure {
            Some(e) => ReplyView { status: 409, body: note("error"@, e) },
            None => match (stats, watermark) {
                (Some(s), Some(w)) => ReplyView {
                    status: 200,
                    body: with_figures(note("status"@, "compaction_completed"@), s, w),
                },
                _ => ReplyView { status: 200, body: note("status"@, "compaction_completed"@) },
            },
        }
    }
}

fn one_note(key: &str, value: &str) -> (out: Json)
    ensures
        out@ == note(key@, value@),
{
    Json::empty_object().with(key, Json::text(value))
}

fn add_figures(v: Json, s: SessionStats, w: WatermarkInfo) -> (out: Json)
    ensures
        out@ == with_figures(v@, s, w),
{
    let stats = Json::empty_object().with("token_budget", s.token_budget).with(
        "compaction_threshold",
        s.compaction_threshold,
    ).with("threshold_tokens", s.threshold_tokens).with("current_tokens", s.current_tokens).with(
        "usage_percent",
        s.usage_percent,
    ).with("is_compressing", Json::Bool(s.is_compressing));
    let watermark = Json::empty_object().with("watermark", w.watermark).with(
        "max_sequence",
        w.max_sequence,
    ).with("uncompacted_count", w.uncompacted_count).with("compacted_percent", w.compacted_percent);
    v.with("context_stats", stats).with("watermark_info", watermark)
}

/// Answers the question for the context of a session.
pub fn handle_context_get(
    key_valid: bool,
    stats: Option<SessionStats>,
    watermark: Option<WatermarkInfo>,
) -> (r: HttpReply)
    ensures
        r@ == context_reply(key_valid, stats, watermark),
{
    if !key_valid {
        return HttpReply { status: 400, body: one_note("error", "Invalid session key") };
    }
    match (stats, watermark) {
        (Some(s), Some(w)) => HttpReply {
            status: 200,
            body: add_figures(Json::empty_object(), s, w),
        },
        _ => HttpReply {
            status: 404,
            body: one_note("error", "Session not found or no compactor available"),
        },
    }
}

/// Answers the request to compact a session, given why it could not be done
/// and the figures afterwards.
pub fn handle_context_compact(
    key_valid: bool,
    failure: &Option<String>,
    stats: Option<SessionStats>,
    watermark: Option<WatermarkInfo>,
) -> (r: HttpReply)
    ensures
        r@ == compact_reply(key_valid, text::opt_view(*failure), stats, watermark),
{
    if !key_valid {
        return HttpReply { status: 400, body: one_note("error", "Invalid session key") };
    }
    if let Some(e) = failure {
        return HttpReply { status: 409, body: one_note("error", e.as_str()) };
    }
    match (stats, watermark) {
        (Some(s), Some(w)) => HttpReply {
            status: 200,
            body: add_figures(one_note("status", "compaction_completed"), s, w),
        },
        _ => HttpReply { status: 200, body: one_note("status", "compaction_completed") },
    }
}

/// A slash command.
pub struct CommandInfo {
    pub name: String,
    pub description: String,
    pub aliases: Vec<String>,
}

/// Texts as a JSON array.
pub open spec fn texts_json(list: Seq<Seq<char>>) -> JsonView {
    JsonView::Array(Seq::new(list.len(), |i: int| JsonView::Str(list[i])))
}

/// A command as JSON.
pub open spec fn command_json(c: CommandInfo) -> JsonView {
    JsonView::empty_object().with("name"@, JsonView::Str(c.name@)).with(
        "description"@,
        JsonView::Str(c.description@),
    ).with("aliases"@, texts_json(text::views(c.aliases@)))
}

/// The commands that clients are offered: all but `exit`, which would end
/// nothing of theirs.
pub open spec fn offered(list: Seq<CommandInfo>) -> Seq<JsonView>
    decreases list.len(),
{
    if list.len() == 0 {
        Seq::empty()
    } else {
        let before = offered(list.drop_last());
        if list.last().name@ == "exit"@ {
            before
        } else {
            before.push(command_json(list.last()))
        }
    }
}

fn texts(list: &Vec<String>) -> (out: Json)
    ensures
        out@ == texts_json(text::views(list@)),
{
    let mut items: Vec<Json> = Vec::new();
    for i in 0..list.len()
        invariant
            items@.len() == i,
            forall|j: int| 0 <= j < i ==> (#[trigger] items@[j])@ == JsonView::Str(list@[j]@),
    {
        items.push(Json::text(list[i].as_str()));
    }
    assert(json::views_of(items@) =~= Seq::new(
        list@.len(),
        |i: int| JsonView::Str(text::views(list@)[i]),
    ));
    Json::array(items)
}

/// Answers the question for the commands.
pub fn handle_commands_list(list: &Vec<CommandInfo>) -> (r: HttpReply)
    ensures
        r@ == (ReplyView { status: 200, body: JsonView::Array(offered(list@)) }),
{
    let mut items: Vec<Json> = Vec::new();
    assert(json::views_of(items@) =~= offered(list@.take(0)));
    for i in 0..list.len()
        invariant
            json::views_of(items@) == offered(list@.take(i as int)),
    {
        let c = &list[i];
        let ghost before = items@;
        assert(list@.take(i + 1).drop_last() =~= list@.take(i as int));
        assert(list@.take(i + 1).last() == *c);
        if !text::same(c.name.as_str(), "exit") {
            let item = Json::empty_object().with("name", Json::text(c.name.as_str())).with(
                "description",
                Json::text(c.description.as_str()),
            ).with("aliases", texts(&c.aliases));
            let ghost v = item@;
            items.push(item);
            assert(json::views_of(items@) =~= json::views_of(before).push(v));
        }
    }
    assert(list@.take(list@.len() as int) =~= list@);
    HttpReply { status: 200, body: Json::array(items) }
}

/// No client is ever offered `exit`.
pub proof fn law_exit_is_not_offered(list: Seq<CommandInfo>)
    ensures
        offered(list).len() <= list.len(),
        forall|i: int|
            0 <= i < offered(list).len() ==> exists|k: int|
                0 <= k < list.len() && #[trigger] offered(list)[i] == command_json(
                    #[trigger] list[k],
                ) && list[k].name@ != "exit"@,
    decreases list.len(),
{
    if list.len() > 0 {
        let head = list.drop_last();
        law_exit_is_not_offered(head);
        assert forall|i: int| 0 <= i < offered(list).len() implies exists|k: int|
            0 <= k < list.len() && #[trigger] offered(list)[i] == command_json(#[trigger] list[k])
                && list[k].name@ != "exit"@ by {
            if i < offered(head).len() {
                let k = choose|k: int|
                    0 <= k < head.len() && offered(head)[i] == command_json(#[trigger] head[k])
                        && head[k].name@ != "exit"@;
                assert(offered(list)[i] == command_json(list[k]));
            } else {
                assert(offered(list)[i] == command_json(list[list.len() - 1]));
            }
        }
    }
}

proof fn lemma_note(key: Seq<char>, value: Seq<char>)
    ensures
        note(key, value) is Object,
        note(key, value).member(key) == Some(JsonView::Str(value)),
        forall|q: Seq<char>| q != key ==> #[trigger] note(key, value).member(q) is None,
{
    json::lemma_with_member(JsonView::empty_object(), key, JsonView::Str(value));
}

proof fn lemma_stats(s: SessionStats)
    ensures
        stats_json(s).member("token_budget"@) == Some(s.token_budget@),
        stats_json(s).member("compaction_threshold"@) == Some(s.compaction_threshold@),
        stats_json(s).member("threshold_tokens"@) == Some(s.threshold_tokens@),
        stats_json(s).member("current_tokens"@) == Some(s.current_tokens@),
        stats_json(s).member("usage_percent"@) == Some(s.usage_percent@),
        stats_json(s).member("is_compressing"@) == Some(JsonView::Bool(s.is_compressing)),
{
    reveal_strlit("token_budget");
    reveal_strlit("compaction_threshold");
    reveal_strlit("threshold_tokens");
    reveal_strlit("current_tokens");
    reveal_strlit("usage_percent");
    reveal_strlit("is_compressing");
    assert("token_budget"@.len() == 12);
    assert("compaction_threshold"@.len() == 20);
    assert("threshold_tokens"@.len() == 16);
    assert("current_tokens"@.len() == 14);
    assert("usage_percent"@.len() == 13);
    assert("is_compressing"@.len() == 14);
    assert("current_tokens"@[0] == 'c');
    assert("is_compressing"@[0] == 'i');
    let a = JsonView::empty_object();
    let b = a.with("token_budget"@, s.token_budget@);
    let c = b.with("compaction_threshold"@, s.compaction_threshold@);
    let d = c.with("threshold_tokens"@, s.threshold_tokens@);
    let e = d.with("current_tokens"@, s.current_tokens@);
    let f = e.with("usage_percent"@, s.usage_percent@);
    json::lemma_with_member(a, "token_budget"@, s.token_budget@);
    json::lemma_with_member(b, "compaction_threshold"@, s.compaction_threshold@);
    json::lemma_with_member(c, "threshold_tokens"@, s.threshold_tokens@);
    json::lemma_with_member(d, "current_tokens"@, s.current_tokens@);
    json::lemma_with_member(e, "usage_percent"@, s.usage_percent@);
    json::lemma_with_member(f, "is_compressing"@, JsonView::Bool(s.is_compressing));
}

proof fn lemma_watermark(w: WatermarkInfo)
    ensures
        watermark_json(w).member("watermark"@) == Some(w.watermark@),
        watermark_json(w).member("max_sequence"@) == Some(w.max_sequence@),
        watermark_json(w).member("uncompacted_count"@) == Some(w.uncompacted_count@),
        watermark_json(w).member("compacted_percent"@) == Some(w.compacted_percent@),
{
    reveal_strlit("watermark");
    reveal_strlit("max_sequence");
    reveal_strlit("uncompacted_count");
    reveal_strlit("compacted_percent");
    assert("watermark"@.len() == 9);
    assert("max_sequence"@.len() == 12);
    assert("uncompacted_count"@.len() == 17);
    assert("compacted_percent"@.len() == 17);
    assert("uncompacted_count"@[0] == 'u');
    assert("compacted_percent"@[0] == 'c');
    let a = JsonView::empty_object();
    let b = a.with("watermark"@, w.watermark@);
    let c = b.with("max_sequence"@, w.max_sequence@);
    let d = c.with("uncompacted_count"@, w.uncompacted_count@);
    json::lemma_with_member(a, "watermark"@, w.watermark@);
    json::lemma_with_member(b, "max_sequence"@, w.max_sequence@);
    json::lemma_with_member(c, "uncompacted_count"@, w.uncompacted_count@);
    json::lemma_with_member(d, "compacted_percent"@, w.compacted_percent@);
}

/// Whether an object has the figures of a session, each under its own name.
pub open spec fn has_figures(v: JsonView, s: SessionStats, w: WatermarkInfo) -> bool {
    &&& v.member("context_stats"@) matches Some(c) && c.member("token_budget"@) == Some(
        s.token_budget@,
    ) && c.member("compaction_threshold"@) == Some(s.compaction_threshold@) && c.member(
        "threshold_tokens"@,
    ) == Some(s.threshold_tokens@) && c.member("current_tokens"@) == Some(s.current_tokens@)
        && c.member("usage_percent"@) == Some(s.usage_percent@) && c.member("is_compressing"@)
        == Some(JsonView::Bool(s.is_compressing))
    &&& v.member("watermark_info"@) matches Some(c) && c.member("watermark"@) == Some(w.watermark@)
        && c.member("max_sequence"@) == Some(w.max_sequence@) && c.member("uncompacted_count"@)
        == Some(w.uncompacted_count@) && c.member("compacted_percent"@) == Some(
        w.compacted_percent@,
    )
}

proof fn lemma_figures(v: JsonView, s: SessionStats, w: WatermarkInfo)
    requires
        v is Object,
    ensures
        has_figures(with_figures(v, s, w), s, w),
        with_figures(v, s, w).member("status"@) == v.member("status"@),
{
    reveal_strlit("context_stats");
    reveal_strlit("watermark_info");
    reveal_strlit("status");
    assert("context_stats"@.len() == 13);
    assert("watermark_info"@.len() == 14);
    assert("status"@.len() == 6);
    let a = v.with("context_stats"@, stats_json(s));
    json::lemma_with_member(v, "context_stats"@, stats_json(s));
    json::lemma_with_member(a, "watermark_info"@, watermark_json(w));
    lemma_stats(s);
    lemma_watermark(w);
}

/// The context of a session is answered with its figures, each under its own
/// name; a key that is none is a bad request, and a session without figures is
/// not found.
pub proof fn law_context_is_answered(
    key_valid: bool,
    stats: Option<SessionStats>,
    watermark: Option<WatermarkInfo>,
    r: HttpReply,
)
    requires
        call_ensures(handle_context_get, (key_valid, stats, watermark), r),
    ensures
        !key_valid ==> r.status == 400 && r.body@.member("error"@) == Some(
            JsonView::Str("Invalid session key"@),
        ),
        key_valid && stats is Some && watermark is Some ==> r.status == 200 && has_figures(
            r.body@,
            stats->0,
            watermark->0,
        ),
        key_valid && (stats is None || watermark is None) ==> r.status == 404 && r.body@.member(
            "error"@,
        ) == Some(JsonView::Str("Session not found or no compactor available"@)),
{
    lemma_note("error"@, "Invalid session key"@);
    lemma_note("error"@, "Session not found or no compactor available"@);
    if stats is Some && watermark is Some {
        lemma_figures(JsonView::empty_object(), stats->0, watermark->0);
    }
    assert(r@.status == r.status);
}

/// A session that was compacted is answered with that, and with its figures where
/// there are any; one that could not be is a conflict, with the cause.
pub proof fn law_compaction_is_answered(
    key_valid: bool,
    failure: &Option<String>,
    stats: Option<SessionStats>,
    watermark: Option<WatermarkInfo>,
    r: HttpReply,
)
    requires
        call_ensures(handle_context_compact, (key_valid, failure, stats, watermark), r),
    ensures
        !key_valid ==> r.status == 400 && r.body@.member("error"@) == Some(
            JsonView::Str("Invalid session key"@),
        ),
        key_valid ==> (*failure matches Some(e) ==> r.status == 409 && r.body@.member("error"@)
            == Some(JsonView::Str(e@))),
        key_valid && *failure is None ==> r.status == 200 && r.body@.member("status"@) == Some(
            JsonView::Str("compaction_completed"@),
        ),
        key_valid && *failure is None && stats is Some && watermark is Some ==> has_figures(
            r.body@,
            stats->0,
            watermark->0,
        ),
        key_valid && *failure is None && (stats is None || watermark is None) ==> r.body@.member(
            "context_stats"@,
        ) is None && r.body@.member("watermark_info"@) is None,
{
    reveal_strlit("status");
    reveal_strlit("context_stats");
    reveal_strlit("watermark_info");
    assert("status"@.len() == 6 && "context_stats"@.len() == 13 && "watermark_info"@.len() == 14);
    lemma_note("error"@, "Invalid session key"@);
    lemma_note("status"@, "compaction_completed"@);
    if let Some(e) = *failure {
        lemma_note("error"@, e@);
    }
    if stats is Some && watermark is Some {
        lemma_figures(note("status"@, "compaction_completed"@), stats->0, watermark->0);
    }
    assert(r@.status == r.status);
}

/// A command as clients see it: its name, what it does, and its other names.
pub proof fn law_command_is_described(c: CommandInfo)
    ensures
        command_json(c).member("name"@) == Some(JsonView::Str(c.name@)),
        command_json(c).member("description"@) == Some(JsonView::Str(c.description@)),
        command_json(c).member("aliases"@) matches Some(JsonView::Array(list)) && list.len()
            == c.aliases@.len() && forall|i: int|
            0 <= i < list.len() ==> #[trigger] list[i] == JsonView::Str(c.aliases@[i]@),
{
    reveal_strlit("name");
    reveal_strlit("description");
    reveal_strlit("aliases");
    assert("name"@.len() == 4);
    assert("description"@.len() == 11);
    assert("aliases"@.len() == 7);
    let a = JsonView::empty_object();
    let b = a.with("name"@, JsonView::Str(c.name@));
    let d = b.with("description"@, JsonView::Str(c.description@));
    json::lemma_with_member(a, "name"@, JsonView::Str(c.name@));
    json::lemma_with_member(b, "description"@, JsonView::Str(c.description@));
    json::lemma_with_member(d, "aliases"@, texts_json(text::views(c.aliases@)));
}

/// Every command but `exit` is offered, in order: with one more command in the
/// list there is one more in the answer, at its end, unless it is `exit`.
pub proof fn law_other_commands_are_offered(list: Seq<CommandInfo>, c: CommandInfo)
    ensures
        offered(Seq::empty()).len() == 0,
        c.name@ == "exit"@ ==> offered(list.push(c)) == offered(list),
        c.name@ != "exit"@ ==> offered(list.push(c)) == offered(list).push(command_json(c)),
{
    assert(list.push(c).drop_last() =~= list);
}

/// The commands are answered as a list.
pub proof fn law_commands_are_answered(list: &Vec<CommandInfo>, r: HttpReply)
    requires
        call_ensures(handle_commands_list, (list,), r),
    ensures
        r.status == 200,
        r.body@ matches JsonView::Array(items) && items == offered(list@),
{
    assert(r@.status == r.status);
}

/// A session is compacted below the route of its context.
pub proof fn law_compaction_is_below_the_context()
    ensures
        COMPACT_ROUTE@ == CONTEXT_ROUTE@ + "/compact"@,
        CONTEXT_ROUTE@ == "/api/sessions/"@ + "{session_key}"@ + "/context"@,
        COMMANDS_ROUTE@ == "/api"@ + "/commands"@,
{
    reveal_strlit("/compact");
    reveal_strlit("/api/sessions/");
    reveal_strlit("{session_key}");
    reveal_strlit("/context");
    reveal_strlit("/api");
    reveal_strlit("/commands");
    reveal_strlit("/api/commands");
    reveal_strlit("/api/sessions/{session_key}/context");
    reveal_strlit("/api/sessions/{session_key}/context/compact");
    assert(COMPACT_ROUTE@ =~= CONTEXT_ROUTE@ + "/compact"@);
    assert(CONTEXT_ROUTE@ =~= "/api/sessions/"@ + "{session_key}"@ + "/context"@);
    assert(COMMANDS_ROUTE@ =~= "/api"@ + "/commands"@);
}

} // verus!
