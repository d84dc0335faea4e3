//! A note for a model that makes the same tool call again and again.

use crate::text;
use vstd::prelude::*;
use vstd::string::*;

verus! {

/// A tool call, as far as the guard tells calls apart.
pub struct CallView {
    pub tool: Seq<char>,
    pub args: Seq<char>,
}

/// How many times the last call of a history was made without another call in
/// between.
pub open spec fn streak(calls: Seq<CallView>) -> nat
    decreases calls.len(),
{
    if calls.len() == 0 {
        0
    } else if calls.len() > 1 && calls[calls.len() - 2] == calls.last() {
        streak(calls.drop_last()) + 1
    } else {
        1
    }
}

/// Counts how often one call is made in a row. Only the call before is kept:
/// any other call starts anew.
pub struct RepeatGuard {
    last: Option<(String, String)>,
    count: u32,
}

impl RepeatGuard {
    /// The last call.
    pub closed spec fn last(self) -> Option<CallView> {
        match self.last {
            Some((tool, args)) => Some(CallView { tool: tool@, args: args@ }),
            None => None,
        }
    }

    /// How often it was made in a row.
    pub closed spec fn count(self) -> u32 {
        self.count
    }

    /// Whether the guard stands where these calls leave it.
    pub open spec fn follows(self, calls: Seq<CallView>) -> bool {
        &&& self.count() == streak(calls)
        &&& calls.len() == 0 ==> self.last() is None
        &&& calls.len() > 0 ==> self.last() == Some(calls.last())
    }

    /// A guard that has seen no call.
    pub fn new() -> (out: Self)
        ensures
            out.last() is None,
            out.count() == 0,
            out.follows(Seq::empty()),
    {
        RepeatGuard { last: None, count: 0 }
    }

    /// Takes a call into account; how often it has now been made in a row.
    pub fn observe(&mut self, tool: &str, args_key: &str) -> (count: u32)
        requires
            old(self).last() == Some(CallView { tool: tool@, args: args_key@ }) ==> old(
                self,
            ).count() < u32::MAX,
        ensures
            count == (if old(self).last() == Some(CallView { tool: tool@, args: args_key@ }) {
                old(self).count() + 1
            } else {
                1
            }),
            final(self).count() == count,
            final(self).last() == Some(CallView { tool: tool@, args: args_key@ }),
    {
        let same: bool = match &self.last {
            Some(pair) => text::same(pair.0.as_str(), tool) && text::same(
                pair.1.as_str(),
                args_key,
            ),
            None => false,
        };
        self.count = if same {
            self.count + 1
        } else {
            1
        };
        self.last = Some((text::copy_str(tool), text::copy_str(args_key)));
        self.count
    }
}

impl Default for RepeatGuard {
    fn default() -> (out: Self)
        ensures
            out.last() is None,
            out.count() == 0,
            out.follows(Seq::empty()),
    {
        RepeatGuard::new()
    }
}

/// The note that goes with a result.
pub open spec fn advisory(count: u32) -> Option<Seq<char>> {
    if count == 3 {
        Some(
            "note: this is the third identical call in a row — the result is unlikely to change. If it failed twice, change the arguments or approach."@,
        )
    } else {
        None
    }
}

/// The note for the third call in a row, and for no other.
pub fn repeat_advisory(count: u32) -> (r: Option<String>)
    ensures
        text::opt_view(r) == advisory(count),
{
    if count == 3 {
        Some(
            text::copy_str(
                "note: this is the third identical call in a row — the result is unlikely to change. If it failed twice, change the arguments or approach.",
            ),
        )
    } else {
        None
    }
}

/// Whatever calls were made before, the guard counts the streak that the next
/// call ends.
pub proof fn law_guard_counts_the_streak(before: RepeatGuard, after: RepeatGuard, calls: Seq<CallView>, call: CallView)
    requires
        before.follows(calls),
        after.count() == (if before.last() == Some(call) {
            before.count() + 1
        } else {
            1
        }),
        after.last() == Some(call),
    ensures
        after.follows(calls.push(call)),
{
    assert(calls.push(call).drop_last() =~= calls);
}

/// The note comes once in a streak, however long it gets: `calls` ends in a
/// streak, and the note goes with its third call only.
pub proof fn law_one_note_per_streak(calls: Seq<CallView>, call: CallView)
    requires
        streak(calls.push(call)) <= u32::MAX,
    ensures
        advisory(streak(calls.push(call)) as u32) is Some <==> streak(calls.push(call)) == 3,
        streak(calls.push(call)) > 3 ==> calls.len() > 0 && calls.last() == call && streak(calls)
            >= 3,
{
    assert(calls.push(call).drop_last() =~= calls);
}

/// The same call again counts one more; any other call, be it the tool or the
/// arguments that differ, and any call at first, counts one.
pub proof fn law_only_the_same_call_counts_on(g: &mut RepeatGuard, tool: &str, args: &str, count: u32)
    requires
        call_ensures(RepeatGuard::observe, (g, tool, args), count),
    ensures
        old(g).last() matches Some(c) ==> (c.tool == tool@ && c.args == args@ ==> count == old(
            g,
        ).count() + 1),
        old(g).last() matches Some(c) ==> (c.tool != tool@ || c.args != args@ ==> count == 1),
        old(g).last() is None ==> count == 1,
        final(g).count() == count,
        final(g).last() matches Some(c) && c.tool == tool@ && c.args == args@,
{
}

/// A streak is the calls at the end of a history that are all the same: as many
/// as it counts are, and the one before them, where there is one, is another.
pub proof fn law_streak_is_the_run_at_the_end(calls: Seq<CallView>)
    ensures
        streak(calls) <= calls.len(),
        calls.len() > 0 ==> streak(calls) > 0,
        forall|i: int|
            calls.len() - streak(calls) <= i < calls.len() ==> #[trigger] calls[i] == calls.last(),
        calls.len() > streak(calls) ==> calls[calls.len() - streak(calls) - 1] != calls.last(),
    decreases calls.len(),
{
    if calls.len() > 1 && calls[calls.len() - 2] == calls.last() {
        let head = calls.drop_last();
        law_streak_is_the_run_at_the_end(head);
        assert(head.last() == calls.last());
        assert forall|i: int| calls.len() - streak(calls) <= i < calls.len() implies
            #[trigger] calls[i] == calls.last() by {
            if i < head.len() {
                assert(calls[i] == head[i]);
            }
        }
    }
}

/// The third call in a row gets a note, and no other does.
pub proof fn law_third_call_gets_the_note(count: u32, r: Option<String>)
    requires
        call_ensures(repeat_advisory, (count,), r),
    ensures
        r is Some <==> count == 3,
{
}

/// The note says that the call was made for the third time, and what to do about it.
pub proof fn law_note_says_what_to_do(r: Option<String>)
    requires
        call_ensures(repeat_advisory, (3u32,), r),
    ensures
        r matches Some(t) && t@ == "note: this is the third identical call in a row"@
            + " — the result is unlikely to change."@
            + " If it failed twice, change the arguments or approach."@,
{
    reveal_strlit("note: this is the third identical call in a row");
    reveal_strlit(" — the result is unlikely to change.");
    reveal_strlit(" If it failed twice, change the arguments or approach.");
    reveal_strlit(
        "note: this is the third identical call in a row — the result is unlikely to change. If it failed twice, change the arguments or approach.",
    );
    assert(r->0@ =~= "note: this is the third identical call in a row"@
        + " — the result is unlikely to change."@
        + " If it failed twice, change the arguments or approach."@);
}

/// A guard that was just made has seen no call.
pub proof fn law_new_guard_has_seen_nothing(g: RepeatGuard)
    requires
        call_ensures(RepeatGuard::new, (), g),
    ensures
        g.count() == 0,
        g.last() is None,
{
}

} // verus!
