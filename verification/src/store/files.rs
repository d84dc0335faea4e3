//! The files of a session: where they are, and how events are written in them.

use crate::path;
use crate::store::event::SessionEvent;
use crate::text;
use vstd::prelude::*;
use vstd::string::*;

verus! {

// ── names ───────────────────────────────────────────────────────────────

/// A session: a channel, and a chat on it.
pub struct SessionKey {
    pub channel: String,
    pub chat_id: String,
}

impl SessionKey {
    /// The key as a text.
    pub open spec fn text(self) -> Seq<char> {
        self.channel@ + ":"@ + self.chat_id@
    }

    /// The key as a text.
    pub fn to_text(&self) -> (out: String)
        ensures
            out@ == self.text(),
    {
        text::cat3(self.channel.as_str(), ":", self.chat_id.as_str())
    }

    /// The key that a text stands for: the channel before the first colon, and
    /// the chat behind it. A text without a colon is no key.
    pub fn parse(raw: &str) -> (r: Option<SessionKey>)
        ensures
            match r {
                Some(k) => text::halves(raw@, ':') == Some((k.channel@, k.chat_id@)),
                None => text::halves(raw@, ':') is None,
            },
    {
        match text::split_once(raw, ':') {
            Some((channel, chat_id)) => Some(SessionKey { channel, chat_id }),
            None => None,
        }
    }
}

/// A key is read back from its text, unless the name of its channel has a colon.
pub proof fn law_key_survives_its_text(k: SessionKey)
    requires
        !k.channel@.contains(':'),
    ensures
        text::halves(k.text(), ':') == Some((k.channel@, k.chat_id@)),
{
    let n = k.channel@.len() as int;
    let t = k.text();
    reveal_strlit(":");
    assert forall|i: int| 0 <= i < n implies t[i] != ':' by {
        assert(t[i] == k.channel@[i]);
    }
    assert(t[n] == ':');
    text::lemma_position_is(t, ':', n);
    assert(t.take(n) =~= k.channel@);
    assert(t.skip(n + 1) =~= k.chat_id@);
}

/// The session that an event belongs to: a text that is no key names a chat on
/// the command line.
pub fn session_of(raw: &str) -> (out: SessionKey)
    ensures
        match text::halves(raw@, ':') {
            Some((channel, chat)) => out.channel@ == channel && out.chat_id@ == chat,
            None => out.channel@ == "cli"@ && out.chat_id@ == raw@,
        },
{
    match SessionKey::parse(raw) {
        Some(k) => k,
        None => SessionKey { channel: text::copy_str("cli"), chat_id: text::copy_str(raw) },
    }
}

/// Whether a character cannot stand in the name of a file.
pub open spec fn forbidden(c: char) -> bool {
    c == '/' || c == '\\' || c == ':' || c == '\0' || c == '"' || c == '\n' || c == '\r'
}

/// A text as the name of a file: what cannot stand in one becomes an
/// underscore.
pub open spec fn file_name(s: Seq<char>) -> Seq<char> {
    Seq::new(
        s.len(),
        |i: int|
            if forbidden(s[i]) {
                '_'
            } else {
                s[i]
            },
    )
}

/// A text as the name of a file.
pub fn safe_name(s: &str) -> (out: String)
    ensures
        out@ == file_name(s@),
{
    let chars = text::chars_of(s);
    let mut out: String = String::new();
    for i in 0..chars.len()
        invariant
            chars@ == s@,
            out@ == file_name(s@).take(i as int),
    {
        let c: char = chars[i];
        if c == '/' || c == '\\' || c == ':' || c == '\0' || c == '"' || c == '\n' || c == '\r' {
            out.push('_');
        } else {
            out.push(c);
        }
        assert(out@ =~= file_name(s@).take(i + 1));
    }
    assert(out@ =~= file_name(s@));
    out
}

/// The directory of a channel.
pub open spec fn channel_path(base: Seq<char>, channel: Seq<char>) -> Seq<char> {
    path::below(path::below(base, "sessions"@), file_name(channel))
}

/// Whether a file holds events, by its name: it has a name, and the ending of
/// such files.
pub fn is_event_file(name: &str) -> (r: bool)
    ensures
        r == (name@.len() > ".jsonl"@.len() && ".jsonl"@.is_suffix_of(name@)),
{
    let x = text::chars_of(name);
    let p = text::chars_of(".jsonl");
    if x.len() <= p.len() {
        return false;
    }
    let at: usize = x.len() - p.len();
    let tail = text::string_of(&x, at, x.len());
    text::same(tail.as_str(), ".jsonl")
}

/// The directory of the configuration: `.gasket` in the home directory, or in
/// the working directory where no home is known.
pub fn config_dir(home: &Option<String>) -> (out: String)
    ensures
        out@ == path::below(
            match text::opt_view(*home) {
                Some(h) => h,
                None => "."@,
            },
            ".gasket"@,
        ),
{
    match home {
        Some(h) => path::join_path(h.as_str(), ".gasket"),
        None => path::join_path(".", ".gasket"),
    }
}

// ── lines ───────────────────────────────────────────────────────────────

/// Lines as they stand in a file: each with a line feed behind it.
pub open spec fn framed(lines: Seq<Seq<char>>) -> Seq<char>
    decreases lines.len(),
{
    if lines.len() == 0 {
        Seq::empty()
    } else {
        lines[0] + "\n"@ + framed(lines.drop_first())
    }
}

/// The lines of a text that are not blank.
pub open spec fn filled(lines: Seq<Seq<char>>) -> Seq<Seq<char>>
    decreases lines.len(),
{
    if lines.len() == 0 {
        Seq::empty()
    } else {
        let before = filled(lines.drop_last());
        if text::trimmed(lines.last()).len() == 0 {
            before
        } else {
            before.push(lines.last())
        }
    }
}

/// One event as it is appended to a file.
pub fn frame(line: &str) -> (out: String)
    ensures
        out@ == framed(seq![line@]),
{
    let out = text::cat2(line, "\n");
    assert(seq![line@].drop_first() =~= Seq::empty());
    assert(framed(seq![line@].drop_first()) =~= Seq::empty());
    assert(out@ =~= framed(seq![line@]));
    out
}

/// A file that is written anew.
pub fn frame_all(lines: &Vec<String>) -> (out: String)
    ensures
        out@ == framed(text::views(lines@)),
{
    let ghost all = text::views(lines@);
    let mut out: String = String::new();
    assert(all.skip(0) =~= all);
    assert(out@ + framed(all) =~= framed(all));
    for i in 0..lines.len()
        invariant
            all == text::views(lines@),
            out@ + framed(all.skip(i as int)) == framed(all),
    {
        let ghost before = out@;
        out.append(lines[i].as_str());
        out.push('\n');
        proof {
            reveal_strlit("\n");
            assert("\n"@ =~= seq!['\n']);
            assert(all.skip(i as int).drop_first() =~= all.skip(i + 1));
            assert(out@ + framed(all.skip(i + 1)) =~= before + (all[i as int] + "\n"@ + framed(
                all.skip(i + 1),
            )));
        }
    }
    assert(all.skip(all.len() as int) =~= Seq::empty());
    assert(out@ =~= framed(all));
    out
}

/// The lines of a file that hold events.
pub fn event_lines(file: &str) -> (out: Vec<String>)
    ensures
        text::views(out@) == filled(text::lines_of(file@)),
{
    let lines = text::lines(file);
    let ghost all = text::views(lines@);
    let mut out: Vec<String> = Vec::new();
    assert(text::views(out@) =~= Seq::empty());
    for i in 0..lines.len()
        invariant
            all == text::views(lines@),
            text::views(out@) == filled(all.take(i as int)),
    {
        let ghost before = out@;
        assert(all.take(i + 1).drop_last() =~= all.take(i as int));
        let t = text::trim(lines[i].as_str());
        if !t.as_str().is_empty() {
            out.push(text::copy_str(lines[i].as_str()));
            assert(text::views(out@) =~= text::views(before).push(all[i as int]));
        }
    }
    assert(all.take(all.len() as int) =~= all);
    out
}

/// The events that lines were read as; a line that is no event is skipped.
pub open spec fn read_events(parsed: Seq<Option<SessionEvent>>) -> Seq<SessionEvent>
    decreases parsed.len(),
{
    if parsed.len() == 0 {
        Seq::empty()
    } else {
        let before = read_events(parsed.drop_last());
        match parsed.last() {
            Some(e) => before.push(e),
            None => before,
        }
    }
}

/// The events that lines were read as.
pub fn collect_events(parsed: Vec<Option<SessionEvent>>) -> (out: Vec<SessionEvent>)
    ensures
        out@ == read_events(parsed@),
{
    let ghost all = parsed@;
    let mut rest = parsed;
    let mut out: Vec<SessionEvent> = Vec::new();
    let ghost mut i: int = 0;
    while rest.len() > 0
        invariant
            0 <= i <= all.len(),
            rest@ == all.skip(i),
            out@ == read_events(all.take(i)),
        decreases rest@.len(),
    {
        let next = rest.remove(0);
        proof {
            assert(next == all[i]);
            assert(rest@ =~= all.skip(i + 1));
            assert(all.take(i + 1).drop_last() =~= all.take(i));
            i = i + 1;
        }
        if let Some(e) = next {
            out.push(e);
        }
    }
    assert(all.take(i) =~= all);
    out
}

// ── laws ────────────────────────────────────────────────────────────────

/// The name of a file has nothing in it that would lead elsewhere, and is its
/// own name as a file.
pub proof fn law_file_names_are_safe(s: Seq<char>)
    ensures
        file_name(s).len() == s.len(),
        forall|i: int| 0 <= i < s.len() ==> !forbidden(#[trigger] file_name(s)[i]),
        file_name(file_name(s)) == file_name(s),
{
    assert(file_name(file_name(s)) =~= file_name(s));
}

/// A line that can be told from its surroundings: it is not blank, and has no
/// line ending in it.
pub open spec fn log_line(line: Seq<char>) -> bool {
    &&& text::trimmed(line).len() > 0
    &&& forall|i: int| 0 <= i < line.len() ==> #[trigger] line[i] != '\n' && line[i] != '\r'
}

/// What is written is read back: the lines of a file are those that were
/// written in it.
pub proof fn law_written_lines_are_read_back(lines: Seq<Seq<char>>)
    requires
        forall|i: int| 0 <= i < lines.len() ==> log_line(#[trigger] lines[i]),
    ensures
        filled(text::lines_of(framed(lines))) == lines,
{
    lemma_lines_of_framed(lines);
    lemma_filled_all(lines);
}

proof fn lemma_lines_of_framed(lines: Seq<Seq<char>>)
    requires
        forall|i: int| 0 <= i < lines.len() ==> log_line(#[trigger] lines[i]),
    ensures
        text::lines_of(framed(lines)) == lines,
    decreases lines.len(),
{
    reveal_strlit("\n");
    let file = framed(lines);
    if lines.len() == 0 {
        assert(text::lines_of(file) =~= lines);
    } else {
        let first = lines[0];
        let rest = lines.drop_first();
        assert forall|i: int| 0 <= i < rest.len() implies log_line(#[trigger] rest[i]) by {
            assert(rest[i] == lines[i + 1]);
        }
        lemma_lines_of_framed(rest);
        let n = first.len() as int;
        assert(log_line(first));
        assert forall|i: int| 0 <= i < n implies file[i] != '\n' by {
            assert(file[i] == first[i]);
        }
        assert(file[n] == '\n');
        text::lemma_position_is(file, '\n', n);
        assert(file.take(n) =~= first);
        assert(file.skip(n + 1) =~= framed(rest));
        assert(text::without_cr(first) =~= first);
        assert(text::lines_of(file) =~= seq![first] + text::lines_of(framed(rest)));
        assert(lines =~= seq![first] + rest);
    }
}

/// A write that was cut off costs only itself: the lines before it are read
/// back as they were written, whatever is left of the one behind them.
pub proof fn law_torn_line_costs_only_itself(lines: Seq<Seq<char>>, tail: Seq<char>)
    requires
        forall|i: int| 0 <= i < lines.len() ==> log_line(#[trigger] lines[i]),
        forall|i: int| 0 <= i < tail.len() ==> #[trigger] tail[i] != '\n',
    ensures
        filled(text::lines_of(framed(lines) + tail)) == (if text::trimmed(tail).len() == 0 {
            lines
        } else {
            lines.push(tail)
        }),
{
    lemma_lines_with_tail(lines, tail);
    lemma_filled_all(lines);
    if tail.len() > 0 {
        assert(lines.push(tail).drop_last() =~= lines);
    } else {
        assert(tail =~= Seq::empty());
        assert(text::trimmed(tail).len() == 0);
    }
}

proof fn lemma_lines_with_tail(lines: Seq<Seq<char>>, tail: Seq<char>)
    requires
        forall|i: int| 0 <= i < lines.len() ==> log_line(#[trigger] lines[i]),
        forall|i: int| 0 <= i < tail.len() ==> #[trigger] tail[i] != '\n',
    ensures
        text::lines_of(framed(lines) + tail) == (if tail.len() == 0 {
            lines
        } else {
            lines.push(tail)
        }),
    decreases lines.len(),
{
    reveal_strlit("\n");
    let file = framed(lines) + tail;
    if lines.len() == 0 {
        assert(file =~= tail);
        if tail.len() > 0 {
            text::lemma_position_is(tail, '\n', tail.len() as int);
            assert(text::lines_of(file) =~= lines.push(tail));
        } else {
            assert(text::lines_of(file) =~= lines);
        }
    } else {
        let first = lines[0];
        let rest = lines.drop_first();
        assert forall|i: int| 0 <= i < rest.len() implies log_line(#[trigger] rest[i]) by {
            assert(rest[i] == lines[i + 1]);
        }
        lemma_lines_with_tail(rest, tail);
        let n = first.len() as int;
        assert(log_line(first));
        assert(framed(lines) == first + "\n"@ + framed(rest));
        assert forall|i: int| 0 <= i < n implies file[i] != '\n' by {
            assert(file[i] == first[i]);
        }
        assert(file[n] == '\n');
        text::lemma_position_is(file, '\n', n);
        assert(file.take(n) =~= first);
        assert(file.skip(n + 1) =~= framed(rest) + tail);
        assert(text::without_cr(first) =~= first);
        assert(text::lines_of(file) =~= seq![first] + text::lines_of(framed(rest) + tail));
        assert(lines =~= seq![first] + rest);
        assert(lines.push(tail) =~= seq![first] + rest.push(tail));
    }
}

proof fn lemma_filled_all(lines: Seq<Seq<char>>)
    requires
        forall|i: int| 0 <= i < lines.len() ==> log_line(#[trigger] lines[i]),
    ensures
        filled(lines) == lines,
    decreases lines.len(),
{
    if lines.len() == 0 {
        assert(filled(lines) =~= lines);
    } else {
        let head = lines.drop_last();
        assert forall|i: int| 0 <= i < head.len() implies log_line(#[trigger] head[i]) by {
            assert(head[i] == lines[i]);
        }
        lemma_filled_all(head);
        assert(log_line(lines[lines.len() - 1]));
        assert(filled(lines) =~= lines);
    }
}

/// A session is read back from the text of its key, unless the name of its channel
/// has a colon: the same channel and the same chat.
pub proof fn law_session_survives_its_text(k: &SessionKey, t: String, raw: &str, r: Option<SessionKey>)
    requires
        call_ensures(SessionKey::to_text, (k,), t),
        raw@ == t@,
        call_ensures(SessionKey::parse, (raw,), r),
    ensures
        !k.channel@.contains(':') ==> (r matches Some(q) && q.channel@ == k.channel@ && q.chat_id@
            == k.chat_id@),
{
    if !k.channel@.contains(':') {
        law_key_survives_its_text(*k);
    }
}

/// A text is a key where it has a colon; the channel ends at the first one, and
/// the chat is all that follows.
pub proof fn law_key_is_divided_at_the_first_colon(raw: &str, r: Option<SessionKey>)
    requires
        call_ensures(SessionKey::parse, (raw,), r),
    ensures
        r is Some <==> raw@.contains(':'),
        r matches Some(k) ==> !k.channel@.contains(':') && raw@ == k.channel@ + seq![':'] + k.chat_id@,
{
    let i = text::position(raw@, ':');
    text::lemma_position(raw@, ':');
    if let Some(k) = r {
        assert(raw@[i] == ':');
        assert(raw@ =~= k.channel@ + seq![':'] + k.chat_id@);
    }
}

/// An event whose session is no key belongs to a chat on the command line.
pub proof fn law_text_without_colon_is_a_chat(raw: &str, out: SessionKey)
    requires
        call_ensures(session_of, (raw,), out),
    ensures
        !raw@.contains(':') ==> out.channel@ == "cli"@ && out.chat_id@ == raw@,
        raw@.contains(':') ==> !out.channel@.contains(':') && raw@ == out.channel@ + seq![':']
            + out.chat_id@,
{
    let i = text::position(raw@, ':');
    text::lemma_position(raw@, ':');
    if raw@.contains(':') {
        assert(raw@[i] == ':');
        assert(raw@ =~= out.channel@ + seq![':'] + out.chat_id@);
    }
}

/// Only what cannot stand in a name is replaced: separators, colons, quotes, line
/// ends and the zero character become underscores, and all else stays where it is.
pub proof fn law_other_characters_stay(s: &str, out: String, i: int)
    requires
        call_ensures(safe_name, (s,), out),
        0 <= i < s@.len(),
    ensures
        out@.len() == s@.len(),
        seq!['/', '\\', ':', '\0', '"', '\n', '\r'].contains(s@[i]) ==> out@[i] == '_',
        !seq!['/', '\\', ':', '\0', '"', '\n', '\r'].contains(s@[i]) ==> out@[i] == s@[i],
{
    let all = seq!['/', '\\', ':', '\0', '"', '\n', '\r'];
    assert(all[0] == '/' && all[1] == '\\' && all[2] == ':' && all[3] == '\0' && all[4] == '"'
        && all[5] == '\n' && all[6] == '\r');
    if all.contains(s@[i]) {
        let k = choose|k: int| 0 <= k < all.len() && all[k] == s@[i];
        assert(k == 0 || k == 1 || k == 2 || k == 3 || k == 4 || k == 5 || k == 6);
        assert(forbidden(s@[i]));
    } else if forbidden(s@[i]) {
        assert(all.contains(all[0]) && all.contains(all[1]) && all.contains(all[2])
            && all.contains(all[3]) && all.contains(all[4]) && all.contains(all[5])
            && all.contains(all[6]));
    }
}

/// A file holds events where its name is a name and `.jsonl` behind it.
pub proof fn law_event_files_by_their_ending(name: &str, r: bool, stem: Seq<char>)
    requires
        call_ensures(is_event_file, (name,), r),
    ensures
        stem.len() > 0 && name@ == stem + ".jsonl"@ ==> r,
        r ==> exists|n: int|
            0 < n < name@.len() && #[trigger] name@.take(n) + ".jsonl"@ == name@,
{
    reveal_strlit(".jsonl");
    if stem.len() > 0 && name@ == stem + ".jsonl"@ {
        assert(".jsonl"@.is_suffix_of(name@)) by {
            assert(name@.subrange(name@.len() - ".jsonl"@.len(), name@.len() as int) =~= ".jsonl"@);
        }
    }
    if r {
        let n = name@.len() - ".jsonl"@.len();
        assert(name@.take(n) + ".jsonl"@ =~= name@) by {
            assert(".jsonl"@ == name@.subrange(n as int, name@.len() as int));
        }
    }
}

/// The configuration stands in `.gasket` below the home directory.
pub proof fn law_configuration_is_at_home(home: &Option<String>, out: String)
    requires
        call_ensures(config_dir, (home,), out),
    ensures
        *home matches Some(h) ==> (h@.len() > 0 && h@.last() != '/' ==> out@ == h@ + "/.gasket"@),
        *home is None ==> out@ == "./.gasket"@,
{
    reveal_strlit("/");
    reveal_strlit(".");
    reveal_strlit(".gasket");
    reveal_strlit("/.gasket");
    reveal_strlit("./.gasket");
    match home {
        Some(h) => {
            if h@.len() > 0 && h@.last() != '/' {
                assert(out@ =~= h@ + "/.gasket"@);
            }
        },
        None => {
            assert(out@ =~= "./.gasket"@);
        },
    }
}

/// An event is appended as its line and a line feed.
pub proof fn law_event_is_a_line(line: &str, out: String)
    requires
        call_ensures(frame, (line,), out),
    ensures
        out@ == line@.push('\n'),
{
    reveal_strlit("\n");
    assert(seq![line@].drop_first() =~= Seq::empty());
    assert(framed(seq![line@].drop_first()) =~= Seq::empty());
    assert(out@ =~= line@.push('\n'));
}

proof fn lemma_framed_push(lines: Seq<Seq<char>>, line: Seq<char>)
    ensures
        framed(lines.push(line)) == framed(lines) + line.push('\n'),
    decreases lines.len(),
{
    reveal_strlit("\n");
    let all = lines.push(line);
    if lines.len() == 0 {
        assert(all.drop_first() =~= Seq::empty());
        assert(framed(all.drop_first()) =~= Seq::empty());
        assert(framed(all) =~= framed(lines) + line.push('\n'));
    } else {
        assert(all.drop_first() =~= lines.drop_first().push(line));
        lemma_framed_push(lines.drop_first(), line);
        assert(framed(all) =~= framed(lines) + line.push('\n'));
    }
}

/// To append an event to a file gives the same as to write the file anew with the
/// event behind the others.
pub proof fn law_appending_is_writing_one_more(
    lines: &Vec<String>,
    more: &Vec<String>,
    line: &str,
    file: String,
    added: String,
    whole: String,
)
    requires
        text::views(more@) == text::views(lines@).push(line@),
        call_ensures(frame_all, (lines,), file),
        call_ensures(frame, (line,), added),
        call_ensures(frame_all, (more,), whole),
    ensures
        whole@ == file@ + added@,
{
    law_event_is_a_line(line, added);
    lemma_framed_push(text::views(lines@), line@);
}

/// What was written to a file is read from it: the same lines, in the same order.
pub proof fn law_file_is_read_as_written(
    lines: &Vec<String>,
    file: String,
    read: &str,
    out: Vec<String>,
)
    requires
        forall|i: int| 0 <= i < lines@.len() ==> log_line((#[trigger] lines@[i])@),
        call_ensures(frame_all, (lines,), file),
        read@ == file@,
        call_ensures(event_lines, (read,), out),
    ensures
        out@.len() == lines@.len(),
        forall|i: int| 0 <= i < lines@.len() ==> (#[trigger] out@[i])@ == lines@[i]@,
{
    let all = text::views(lines@);
    assert forall|i: int| 0 <= i < all.len() implies log_line(#[trigger] all[i]) by {
        assert(log_line(lines@[i]@));
    }
    law_written_lines_are_read_back(all);
    assert forall|i: int| 0 <= i < lines@.len() implies (#[trigger] out@[i])@ == lines@[i]@ by {
        assert(text::views(out@)[i] == all[i]);
    }
}

/// A blank line is no event and costs none of the others.
pub proof fn law_blank_lines_are_skipped(lines: Seq<Seq<char>>, line: Seq<char>)
    ensures
        (forall|i: int| 0 <= i < line.len() ==> text::is_white(#[trigger] line[i])) ==> filled(
            lines.push(line),
        ) == filled(lines),
        (exists|i: int| 0 <= i < line.len() && !text::is_white(#[trigger] line[i])) ==> filled(
            lines.push(line),
        ) == filled(lines).push(line),
{
    assert(lines.push(line).drop_last() =~= lines);
    text::lemma_blank(line);
}

/// Events come in the order of their lines, and a line that is no event costs none
/// of the others.
pub proof fn law_unreadable_lines_are_skipped(parsed: Seq<Option<SessionEvent>>, e: SessionEvent)
    ensures
        read_events(Seq::empty()).len() == 0,
        read_events(parsed.push(Some(e))) == read_events(parsed).push(e),
        read_events(parsed.push(None)) == read_events(parsed),
{
    assert(parsed.push(Some(e)).drop_last() =~= parsed);
    assert(parsed.push(None).drop_last() =~= parsed);
}

} // verus!
