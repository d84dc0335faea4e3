//! All sessions of a store: where their files are, and which number comes next
//! in each.

use crate::path;
use crate::store::event::SessionEvent;
use crate::store::files;
use crate::store::files::SessionKey;
use crate::store::log::SessionLog;
use crate::store::meta::SessionMeta;
use crate::table::Table;
use crate::text;
use vstd::prelude::*;
use vstd::string::*;

verus! {

/// A store of sessions in files below a directory.
pub struct JsonStore {
    base: String,
    /// The next number of each session, where it is known.
    next_seq: Table<i64>,
}

impl JsonStore {
    /// The directory.
    pub closed spec fn base(self) -> Seq<char> {
        self.base@
    }

    /// The next numbers that are known, by the texts of session keys.
    pub closed spec fn next_numbers(self) -> Map<Seq<char>, i64> {
        self.next_seq@
    }

    /// No session has two next numbers.
    pub closed spec fn wf(self) -> bool {
        self.next_seq.wf()
    }

    /// A store below a directory.
    pub fn new(base: String) -> (out: Self)
        ensures
            out.wf(),
            out.base() == base@,
            out.next_numbers() == Map::<Seq<char>, i64>::empty(),
    {
        JsonStore { base, next_seq: Table::new() }
    }

    /// The directory of a channel.
    pub fn channel_dir(&self, key: &SessionKey) -> (out: String)
        ensures
            out@ == files::channel_path(self.base(), key.channel@),
    {
        let dir = path::join_path(self.base.as_str(), "sessions");
        let name = files::safe_name(key.channel.as_str());
        path::join_path(dir.as_str(), name.as_str())
    }

    /// The file with the events of a session.
    pub fn events_path(&self, key: &SessionKey) -> (out: String)
        ensures
            out@ == path::below(
                files::channel_path(self.base(), key.channel@),
                files::file_name(key.chat_id@) + ".jsonl"@,
            ),
    {
        let dir = self.channel_dir(key);
        let name = files::safe_name(key.chat_id.as_str());
        let file = text::cat2(name.as_str(), ".jsonl");
        path::join_path(dir.as_str(), file.as_str())
    }

    /// The file with what is kept beside them.
    pub fn meta_path(&self, key: &SessionKey) -> (out: String)
        ensures
            out@ == path::below(
                files::channel_path(self.base(), key.channel@),
                files::file_name(key.chat_id@) + ".meta.json"@,
            ),
    {
        let dir = self.channel_dir(key);
        let name = files::safe_name(key.chat_id.as_str());
        let file = text::cat2(name.as_str(), ".meta.json");
        path::join_path(dir.as_str(), file.as_str())
    }

    /// The directory that holds the directories of all channels.
    pub fn sessions_dir(&self) -> (out: String)
        ensures
            out@ == path::below(self.base(), "sessions"@),
    {
        path::join_path(self.base.as_str(), "sessions")
    }

    /// The log of a session, given what its files hold.
    pub fn open(&self, key: &SessionKey, events: Vec<SessionEvent>, meta: SessionMeta) -> (log:
        SessionLog)
        requires
            self.wf(),
        ensures
            log.events == events,
            log.meta == meta,
            log.next_seq == self.known_next(key.text()),
    {
        let k = key.to_text();
        let next_seq: Option<i64> = match self.next_seq.get(k.as_str()) {
            Some(n) => Some(*n),
            None => None,
        };
        SessionLog { events, meta, next_seq }
    }

    /// The next number of a session, where it is known.
    pub open spec fn known_next(self, key: Seq<char>) -> Option<i64> {
        if self.next_numbers().dom().contains(key) {
            Some(self.next_numbers()[key])
        } else {
            None
        }
    }

    /// Keeps what a log tells of the next number of its session. Other sessions
    /// are left alone.
    pub fn close(&mut self, key: &SessionKey, log: &SessionLog)
        requires
            old(self).wf(),
        ensures
            final(self).wf(),
            final(self).base() == old(self).base(),
            final(self).known_next(key.text()) == log.next_seq,
            forall|k: Seq<char>|
                k != key.text() ==> #[trigger] final(self).known_next(k) == old(self).known_next(k),
    {
        let k = key.to_text();
        match log.next_seq {
            Some(n) => {
                self.next_seq.insert(k, n);
            },
            None => {
                self.next_seq.remove(k.as_str());
            },
        }
    }
}

// ── laws ────────────────────────────────────────────────────────────────

proof fn lemma_directory(base: Seq<char>, channel: Seq<char>)
    requires
        base.len() > 0,
        base.last() != '/',
        channel.len() > 0,
    ensures
        files::channel_path(base, channel) == base + "/sessions/"@ + files::file_name(channel),
        files::channel_path(base, channel).last() != '/',
        path::below(base, "sessions"@) == base + "/sessions"@,
{
    reveal_strlit("/");
    reveal_strlit("sessions");
    reveal_strlit("/sessions/");
    reveal_strlit("/sessions");
    files::law_file_names_are_safe(channel);
    assert(!files::forbidden(files::file_name(channel)[0]));
    assert(!files::forbidden(files::file_name(channel)[channel.len() - 1]));
    let dir = path::below(base, "sessions"@);
    assert(dir =~= base + "/sessions"@);
    assert(dir.last() == 's');
    assert(files::channel_path(base, channel) =~= base + "/sessions/"@ + files::file_name(channel));
}

/// The files of a session stand below the directory of the store, in a directory
/// of their channel, under the name of the chat: the events, and what is kept
/// beside them.
pub proof fn law_files_of_a_session(
    s: &JsonStore,
    key: &SessionKey,
    all: String,
    dir: String,
    events: String,
    meta: String,
)
    requires
        s.base().len() > 0,
        s.base().last() != '/',
        key.channel@.len() > 0,
        call_ensures(JsonStore::sessions_dir, (s,), all),
        call_ensures(JsonStore::channel_dir, (s, key), dir),
        call_ensures(JsonStore::events_path, (s, key), events),
        call_ensures(JsonStore::meta_path, (s, key), meta),
    ensures
        all@ == s.base() + "/sessions"@,
        dir@ == all@.push('/') + files::file_name(key.channel@),
        events@ == dir@.push('/') + files::file_name(key.chat_id@) + ".jsonl"@,
        meta@ == dir@.push('/') + files::file_name(key.chat_id@) + ".meta.json"@,
{
    reveal_strlit("/");
    reveal_strlit("/sessions");
    reveal_strlit("/sessions/");
    reveal_strlit(".jsonl");
    reveal_strlit(".meta.json");
    lemma_directory(s.base(), key.channel@);
    assert(dir@ =~= all@.push('/') + files::file_name(key.channel@));
    let name = files::file_name(key.chat_id@);
    files::law_file_names_are_safe(key.chat_id@);
    if name.len() > 0 {
        assert(!files::forbidden(files::file_name(key.chat_id@)[0]));
        assert((name + ".jsonl"@)[0] == name[0]);
        assert((name + ".meta.json"@)[0] == name[0]);
    } else {
        assert((name + ".jsonl"@)[0] == '.');
        assert((name + ".meta.json"@)[0] == '.');
    }
    assert(events@ =~= dir@.push('/') + name + ".jsonl"@);
    assert(meta@ =~= dir@.push('/') + name + ".meta.json"@);
}

/// Of a new store no next number is known.
pub proof fn law_new_store_knows_nothing(base: String, s: JsonStore, key: Seq<char>)
    requires
        call_ensures(JsonStore::new, (base,), s),
    ensures
        s.base() == base@,
        s.known_next(key) is None,
{
}

/// A log has what the files of its session hold.
pub proof fn law_opened_log_is_what_was_read(
    s: &JsonStore,
    key: &SessionKey,
    events: Vec<SessionEvent>,
    meta: SessionMeta,
    log: SessionLog,
)
    requires
        call_ensures(JsonStore::open, (s, key, events, meta), log),
    ensures
        log.events == events,
        log.meta == meta,
{
}

/// The next number of a session is known again when its log is opened after it was
/// closed; the log of another session is opened as it would have been before.
pub proof fn law_next_number_is_kept(
    s: &mut JsonStore,
    key: &SessionKey,
    closed: &SessionLog,
    other: &SessionKey,
    events: Vec<SessionEvent>,
    meta: SessionMeta,
    before: SessionLog,
    after: SessionLog,
)
    requires
        call_ensures(JsonStore::open, (&*old(s), other, events, meta), before),
        call_ensures(JsonStore::close, (s, key, closed), ()),
        call_ensures(JsonStore::open, (&*final(s), other, events, meta), after),
    ensures
        final(s).base() == old(s).base(),
        other.channel@ == key.channel@ && other.chat_id@ == key.chat_id@ ==> after.next_seq
            == closed.next_seq,
        other.channel@ + ":"@ + other.chat_id@ != key.channel@ + ":"@ + key.chat_id@ ==> after.next_seq
            == before.next_seq,
{
}

} // verus!
