//! Messages that nobody sent: heartbeats and jobs that are due.

use crate::gateway::messages::{
    ChannelType, ChannelView, InboundMessage, InboundView, OutboundMessage, OutboundView,
};
use crate::json::{Json, JsonView};
use crate::path;
use crate::text;
use vstd::prelude::*;
use vstd::string::*;

verus! {

/// How often jobs are looked for, in seconds.
pub const CHECK_INTERVAL_SECS: u64 = 60;

/// The message of a heartbeat, which is a task for the agent.
pub fn heartbeat_message(task: String) -> (out: InboundMessage)
    ensures
        out@ == (InboundView {
            channel: ChannelView::Cli,
            sender_id: "heartbeat"@,
            chat_id: "heartbeat"@,
            content: task@,
        }),
{
    InboundMessage {
        channel: ChannelType::Cli,
        sender_id: text::copy_str("heartbeat"),
        chat_id: text::copy_str("heartbeat"),
        content: task,
    }
}

/// Where the state of jobs is kept, below the configuration directory.
pub fn cron_state_path(config_dir: &str) -> (out: String)
    ensures
        out@ == path::below(path::below(config_dir@, "state"@), "cron.json"@),
{
    let dir = path::join_path(config_dir, "state");
    path::join_path(dir.as_str(), "cron.json")
}

/// A job that is due.
pub struct CronJob {
    pub id: String,
    pub name: String,
    /// The channel that it names, where it names one that there is.
    pub channel: Option<ChannelType>,
    pub chat_id: Option<String>,
    pub message: String,
    /// A tool to run in place of asking the agent.
    pub tool: Option<String>,
    pub tool_args: Option<Json>,
}

/// Where the outcome of a job goes.
pub struct Target {
    pub channel: ChannelType,
    /// The chat; none is a broadcast.
    pub chat_id: Option<String>,
}

/// The channel of a job: the command line where it names none.
pub open spec fn job_channel(job: CronJob) -> ChannelView {
    match job.channel {
        Some(c) => c@,
        None => ChannelView::Cli,
    }
}

/// The chat of a job.
pub open spec fn job_chat(job: CronJob) -> Seq<char> {
    match text::opt_view(job.chat_id) {
        Some(c) => c,
        None => "cron"@,
    }
}

/// Whether the outcome of a job goes to all clients.
pub open spec fn is_broadcast(job: CronJob) -> bool {
    job_chat(job) == "*"@
}

/// The chat that the outcome of a job goes to.
pub open spec fn job_target(job: CronJob) -> Option<Seq<char>> {
    if is_broadcast(job) {
        None
    } else {
        Some(job_chat(job))
    }
}

/// What to do for a job.
pub enum CronAction {
    /// Run a tool and send what comes of it. The agent is not asked, which
    /// costs no tokens.
    RunTool { tool: String, args: Json, target: Target },
    /// Send a message.
    Send(OutboundMessage),
    /// Let the agent take a message.
    Ask(InboundMessage),
}

/// The view of a [`CronAction`].
pub enum CronActionView {
    RunTool {
        tool: Seq<char>,
        args: JsonView,
        channel: ChannelView,
        chat_id: Option<Seq<char>>,
    },
    Send(OutboundView),
    Ask(InboundView),
}

impl View for CronAction {
    type V = CronActionView;

    open spec fn view(&self) -> CronActionView {
        match self {
            CronAction::RunTool { tool, args, target } => CronActionView::RunTool {
                tool: tool@,
                args: args@,
                channel: target.channel@,
                chat_id: text::opt_view(target.chat_id),
            },
            CronAction::Send(m) => CronActionView::Send(m@),
            CronAction::Ask(m) => CronActionView::Ask(m@),
        }
    }
}

/// What to do for a job: its tool comes first, then a broadcast of its message,
/// and otherwise the agent gets the message.
pub open spec fn job_action(job: CronJob) -> CronActionView {
    match text::opt_view(job.tool) {
        Some(tool) => CronActionView::RunTool {
            tool,
            args: match job.tool_args {
                Some(a) => a@,
                None => JsonView::empty_object(),
            },
            channel: job_channel(job),
            chat_id: job_target(job),
        },
        None => if is_broadcast(job) {
            CronActionView::Send(
                OutboundView { channel: job_channel(job), chat_id: None, content: job.message@ },
            )
        } else {
            CronActionView::Ask(
                InboundView {
                    channel: job_channel(job),
                    sender_id: "cron"@,
                    chat_id: job_chat(job),
                    content: job.message@,
                },
            )
        },
    }
}

/// Decides what to do for a job that is due.
pub fn cron_action(job: CronJob) -> (r: CronAction)
    ensures
        r@ == job_action(job),
{
    let channel: ChannelType = match job.channel {
        Some(c) => c,
        None => ChannelType::Cli,
    };
    let chat_id: String = match job.chat_id {
        Some(c) => c,
        None => text::copy_str("cron"),
    };
    let broadcast: bool = text::same(chat_id.as_str(), "*");
    if let Some(tool) = job.tool {
        let args: Json = match job.tool_args {
            Some(a) => a,
            None => Json::empty_object(),
        };
        let target: Option<String> = if broadcast {
            None
        } else {
            Some(chat_id)
        };
        CronAction::RunTool { tool, args, target: Target { channel, chat_id: target } }
    } else if broadcast {
        CronAction::Send(OutboundMessage::broadcast(channel, job.message))
    } else {
        CronAction::Ask(
            InboundMessage {
                channel,
                sender_id: text::copy_str("cron"),
                chat_id,
                content: job.message,
            },
        )
    }
}

/// The message that tells what came of a job's tool.
pub open spec fn report_view(
    channel: ChannelView,
    chat_id: Option<Seq<char>>,
    outcome: Result<String, String>,
) -> OutboundView {
    OutboundView {
        channel,
        chat_id,
        content: match outcome {
            Ok(t) => t@,
            Err(e) => "Cron job error: "@ + e@,
        },
    }
}

/// The message that tells what came of a job's tool.
pub fn cron_report(target: Target, outcome: Result<String, String>) -> (out: OutboundMessage)
    ensures
        out@ == report_view(target.channel@, text::opt_view(target.chat_id), outcome),
{
    let content: String = match outcome {
        Ok(t) => t,
        Err(e) => text::cat2("Cron job error: ", e.as_str()),
    };
    OutboundMessage { channel: target.channel, chat_id: target.chat_id, content }
}

// ── a round ─────────────────────────────────────────────────────────────

/// What to do next in a round through the jobs that are due.
pub enum RoundAction {
    /// Run a tool.
    Run { tool: String, args: Json },
    /// Send a message.
    Send(OutboundMessage),
    /// Let the agent take a message.
    Ask(InboundMessage),
    /// Set when the job with this id is next due.
    Advance(String),
    /// Nothing: all jobs are done.
    Rest,
}

/// The view of a [`RoundAction`].
pub enum RoundView {
    Run { tool: Seq<char>, args: JsonView },
    Send(OutboundView),
    Ask(InboundView),
    Advance(Seq<char>),
    Rest,
}

impl View for RoundAction {
    type V = RoundView;

    open spec fn view(&self) -> RoundView {
        match self {
            RoundAction::Run { tool, args } => RoundView::Run { tool: tool@, args: args@ },
            RoundAction::Send(m) => RoundView::Send(m@),
            RoundAction::Ask(m) => RoundView::Ask(m@),
            RoundAction::Advance(id) => RoundView::Advance(id@),
            RoundAction::Rest => RoundView::Rest,
        }
    }
}

/// What came of an action.
pub enum RoundEvent {
    /// What the tool gave, or why it failed.
    Ran(Result<String, String>),
    /// The message was handed on, or could not be.
    HandedOn,
    /// The job was advanced, or could not be.
    Advanced,
}

/// What is awaited in a round.
pub enum Awaited {
    /// The outcome of the tool of a job.
    Tool { id: String, target: Target },
    /// That the message of a job is handed on.
    Message { id: String },
    /// That a job is advanced.
    Advance,
    /// Nothing.
    Nothing,
}

/// The view of [`Awaited`].
pub enum AwaitedView {
    Tool { id: Seq<char>, channel: ChannelView, chat_id: Option<Seq<char>> },
    Message { id: Seq<char> },
    Advance,
    Nothing,
}

impl View for Awaited {
    type V = AwaitedView;

    open spec fn view(&self) -> AwaitedView {
        match self {
            Awaited::Tool { id, target } => AwaitedView::Tool {
                id: id@,
                channel: target.channel@,
                chat_id: text::opt_view(target.chat_id),
            },
            Awaited::Message { id } => AwaitedView::Message { id: id@ },
            Awaited::Advance => AwaitedView::Advance,
            Awaited::Nothing => AwaitedView::Nothing,
        }
    }
}

/// How far a round has come.
pub struct RoundState {
    pub awaited: AwaitedView,
    /// The jobs behind the current one.
    pub left: Seq<CronJob>,
}

/// The beginning of the next job: the state then, and what to do.
pub open spec fn next_job(left: Seq<CronJob>) -> (RoundState, RoundView) {
    if left.len() == 0 {
        (RoundState { awaited: AwaitedView::Nothing, left }, RoundView::Rest)
    } else {
        let id = left[0].id@;
        let rest = left.drop_first();
        match job_action(left[0]) {
            CronActionView::RunTool { tool, args, channel, chat_id } => (
                RoundState { awaited: AwaitedView::Tool { id, channel, chat_id }, left: rest },
                RoundView::Run { tool, args },
            ),
            CronActionView::Send(m) => (
                RoundState { awaited: AwaitedView::Message { id }, left: rest },
                RoundView::Send(m),
            ),
            CronActionView::Ask(m) => (
                RoundState { awaited: AwaitedView::Message { id }, left: rest },
                RoundView::Ask(m),
            ),
        }
    }
}

/// Whether an event can happen where something is awaited.
pub open spec fn can_follow(awaited: AwaitedView, ev: RoundEvent) -> bool {
    match awaited {
        AwaitedView::Tool { .. } => ev is Ran,
        AwaitedView::Message { .. } => ev is HandedOn,
        AwaitedView::Advance => ev is Advanced,
        AwaitedView::Nothing => false,
    }
}

/// What follows an event. The outcome of a tool is reported; once the message of
/// a job is out of hand, whatever came of it, the job is advanced; and then it is
/// the turn of the next one, whatever came of that.
pub open spec fn round_step(state: RoundState, ev: RoundEvent) -> (RoundState, RoundView) {
    match (state.awaited, ev) {
        (AwaitedView::Tool { id, channel, chat_id }, RoundEvent::Ran(outcome)) => (
            RoundState { awaited: AwaitedView::Message { id }, left: state.left },
            RoundView::Send(report_view(channel, chat_id, outcome)),
        ),
        (AwaitedView::Message { id }, _) => (
            RoundState { awaited: AwaitedView::Advance, left: state.left },
            RoundView::Advance(id),
        ),
        _ => next_job(state.left),
    }
}

/// A round through the jobs that are due, one after the other.
pub struct CronRound {
    awaited: Awaited,
    left: Vec<CronJob>,
}

impl View for CronRound {
    type V = RoundState;

    closed spec fn view(&self) -> RoundState {
        RoundState { awaited: self.awaited@, left: self.left@ }
    }
}

impl CronRound {
    /// Begins a round: the round, and the first thing to do.
    pub fn begin(jobs: Vec<CronJob>) -> (r: (Self, RoundAction))
        ensures
            (r.0@, r.1@) == next_job(jobs@),
    {
        let mut round = CronRound { awaited: Awaited::Nothing, left: jobs };
        let action = round.take_job();
        (round, action)
    }

    fn take_job(&mut self) -> (action: RoundAction)
        ensures
            (final(self)@, action@) == next_job(old(self)@.left),
    {
        let ghost left = self.left@;
        if self.left.len() == 0 {
            self.awaited = Awaited::Nothing;
            return RoundAction::Rest;
        }
        let job = self.left.remove(0);
        assert(self.left@ =~= left.drop_first());
        let id = text::copy_str(job.id.as_str());
        match cron_action(job) {
            CronAction::RunTool { tool, args, target } => {
                self.awaited = Awaited::Tool { id, target };
                RoundAction::Run { tool, args }
            },
            CronAction::Send(m) => {
                self.awaited = Awaited::Message { id };
                RoundAction::Send(m)
            },
            CronAction::Ask(m) => {
                self.awaited = Awaited::Message { id };
                RoundAction::Ask(m)
            },
        }
    }

    /// Takes what came of the last action; what to do next.
    pub fn step(&mut self, ev: RoundEvent) -> (action: RoundAction)
        requires
            can_follow(old(self)@.awaited, ev),
        ensures
            (final(self)@, action@) == round_step(old(self)@, ev),
    {
        let mut awaited = Awaited::Nothing;
        std::mem::swap(&mut awaited, &mut self.awaited);
        match (awaited, ev) {
            (Awaited::Tool { id, target }, RoundEvent::Ran(outcome)) => {
                self.awaited = Awaited::Message { id };
                RoundAction::Send(cron_report(target, outcome))
            },
            (Awaited::Message { id }, _) => {
                self.awaited = Awaited::Advance;
                RoundAction::Advance(id)
            },
            _ => self.take_job(),
        }
    }
}

/// The actions that follow events, one after the other.
pub open spec fn actions_after(state: RoundState, events: Seq<RoundEvent>) -> Seq<RoundView>
    decreases events.len(),
{
    if events.len() == 0 {
        Seq::empty()
    } else {
        let (next, action) = round_step(state, events[0]);
        seq![action] + actions_after(next, events.drop_first())
    }
}

/// What happens in the course of a job, given what its tool gives, where it has
/// one.
pub open spec fn job_events(job: CronJob, outcome: Result<String, String>) -> Seq<RoundEvent> {
    if job.tool is Some {
        seq![RoundEvent::Ran(outcome), RoundEvent::HandedOn, RoundEvent::Advanced]
    } else {
        seq![RoundEvent::HandedOn, RoundEvent::Advanced]
    }
}

/// What is done for a job from its beginning to its end: its tool is run once
/// and the outcome sent, or its message is sent or given to the agent; and then
/// it is advanced.
pub open spec fn job_course(job: CronJob, outcome: Result<String, String>) -> Seq<RoundView> {
    match job_action(job) {
        CronActionView::RunTool { tool, args, channel, chat_id } => seq![
            RoundView::Run { tool, args },
            RoundView::Send(report_view(channel, chat_id, outcome)),
            RoundView::Advance(job.id@),
        ],
        CronActionView::Send(m) => seq![RoundView::Send(m), RoundView::Advance(job.id@)],
        CronActionView::Ask(m) => seq![RoundView::Ask(m), RoundView::Advance(job.id@)],
    }
}

/// What happens in the course of a round.
pub open spec fn round_events(jobs: Seq<CronJob>, outcomes: Seq<Result<String, String>>) -> Seq<
    RoundEvent,
>
    decreases jobs.len(),
{
    if jobs.len() == 0 {
        Seq::empty()
    } else {
        job_events(jobs[0], outcomes[0]) + round_events(jobs.drop_first(), outcomes.drop_first())
    }
}

/// What is done in a round: the jobs one after the other.
pub open spec fn round_course(jobs: Seq<CronJob>, outcomes: Seq<Result<String, String>>) -> Seq<
    RoundView,
>
    decreases jobs.len(),
{
    if jobs.len() == 0 {
        seq![RoundView::Rest]
    } else {
        job_course(jobs[0], outcomes[0]) + round_course(jobs.drop_first(), outcomes.drop_first())
    }
}

/// The ids of the jobs that actions advance, in order.
pub open spec fn advanced(actions: Seq<RoundView>) -> Seq<Seq<char>>
    decreases actions.len(),
{
    if actions.len() == 0 {
        Seq::empty()
    } else {
        let before = advanced(actions.drop_last());
        match actions.last() {
            RoundView::Advance(id) => before.push(id),
            _ => before,
        }
    }
}

/// The ids of jobs.
pub open spec fn job_ids(jobs: Seq<CronJob>) -> Seq<Seq<char>> {
    Seq::new(jobs.len(), |i: int| jobs[i].id@)
}

/// A round does for each job that is due, in order, what is to be done for it,
/// and ends: whatever the tools give, and whether or not messages can be handed
/// on and jobs advanced.
pub proof fn law_round_takes_its_course(jobs: Seq<CronJob>, outcomes: Seq<Result<String, String>>)
    requires
        outcomes.len() == jobs.len(),
    ensures
        seq![next_job(jobs).1] + actions_after(next_job(jobs).0, round_events(jobs, outcomes))
            == round_course(jobs, outcomes),
    decreases jobs.len(),
{
    let events = round_events(jobs, outcomes);
    let (state, action) = next_job(jobs);
    if jobs.len() == 0 {
        assert(seq![action] + actions_after(state, events) =~= seq![RoundView::Rest]);
    } else {
        let rest = jobs.drop_first();
        let more = round_events(rest, outcomes.drop_first());
        law_round_takes_its_course(rest, outcomes.drop_first());
        let tail = seq![next_job(rest).1] + actions_after(next_job(rest).0, more);
        let out = outcomes[0];
        if jobs[0].tool is Some {
            assert(events[0] == RoundEvent::Ran(out));
            assert(events[1] is HandedOn);
            assert(events[2] is Advanced);
            let sent = round_step(state, events[0]);
            let moved = round_step(sent.0, events[1]);
            let e1 = events.drop_first();
            let e2 = e1.drop_first();
            assert(e1[0] == events[1]);
            assert(e2[0] == events[2]);
            assert(e2.drop_first() =~= more);
            assert(round_step(moved.0, e2[0]) == next_job(rest));
            assert(actions_after(moved.0, e2) =~= tail);
            assert(actions_after(sent.0, e1) =~= seq![moved.1] + tail);
            assert(actions_after(state, events) =~= seq![sent.1] + (seq![moved.1] + tail));
        } else {
            assert(events[0] is HandedOn);
            assert(events[1] is Advanced);
            let moved = round_step(state, events[0]);
            let e1 = events.drop_first();
            assert(e1[0] == events[1]);
            assert(e1.drop_first() =~= more);
            assert(round_step(moved.0, e1[0]) == next_job(rest));
            assert(actions_after(moved.0, e1) =~= tail);
            assert(actions_after(state, events) =~= seq![moved.1] + tail);
        }
        assert(seq![action] + actions_after(state, events) =~= job_course(jobs[0], out) + tail);
    }
}

proof fn lemma_advanced_of_two(a: Seq<RoundView>, b: Seq<RoundView>)
    ensures
        advanced(a + b) == advanced(a) + advanced(b),
    decreases b.len(),
{
    if b.len() == 0 {
        assert(a + b =~= a);
        assert(advanced(a) + advanced(b) =~= advanced(a));
    } else {
        lemma_advanced_of_two(a, b.drop_last());
        assert((a + b).drop_last() =~= a + b.drop_last());
        assert(advanced(a + b) =~= advanced(a) + advanced(b));
    }
}

/// In a round every job that is due is advanced exactly once, in order, whatever
/// came of it.
pub proof fn law_every_job_is_advanced_once(
    jobs: Seq<CronJob>,
    outcomes: Seq<Result<String, String>>,
)
    ensures
        advanced(round_course(jobs, outcomes)) == job_ids(jobs),
    decreases jobs.len(),
{
    if jobs.len() == 0 {
        reveal_with_fuel(advanced, 2);
        assert(round_course(jobs, outcomes).drop_last() =~= Seq::empty());
        assert(job_ids(jobs) =~= Seq::empty());
    } else {
        let course = job_course(jobs[0], outcomes[0]);
        let rest = jobs.drop_first();
        law_every_job_is_advanced_once(rest, outcomes.drop_first());
        lemma_advanced_of_two(course, round_course(rest, outcomes.drop_first()));
        reveal_with_fuel(advanced, 4);
        let head = course.drop_last();
        assert(course.last() == RoundView::Advance(jobs[0].id@));
        if head.len() == 2 {
            assert(head.drop_last().drop_last() =~= Seq::empty());
        } else {
            assert(head.drop_last() =~= Seq::empty());
        }
        assert(advanced(head) =~= Seq::empty());
        assert(advanced(course) =~= seq![jobs[0].id@]);
        assert(job_ids(jobs) =~= seq![jobs[0].id@] + job_ids(rest));
    }
}

/// A job that has a tool never costs a turn of the agent.
pub proof fn law_tool_jobs_bypass_the_agent(job: CronJob)
    ensures
        job.tool is Some ==> !(job_action(job) is Ask),
        job_action(job) is Ask ==> !is_broadcast(job),
{
}

/// A heartbeat gives the agent its task, on the command line.
pub proof fn law_heartbeat_carries_the_task(task: String, out: InboundMessage)
    requires
        call_ensures(heartbeat_message, (task,), out),
    ensures
        out.content@ == task@,
        out.channel@ == ChannelView::Cli,
        out.sender_id@ == "heartbeat"@,
        out.chat_id@ == "heartbeat"@,
{
}

/// Whatever is done for a job is done on the channel that it names: the message
/// to the agent, the broadcast, and where the report of its tool goes. The
/// command line stands in only for a job that names none.
pub proof fn law_job_stays_on_its_channel(job: CronJob, r: CronAction)
    requires
        call_ensures(cron_action, (job,), r),
    ensures
        ({
            let channel = match r {
                CronAction::RunTool { target, .. } => target.channel@,
                CronAction::Send(m) => m.channel@,
                CronAction::Ask(m) => m.channel@,
            };
            &&& job.channel matches Some(c) ==> channel == c@
            &&& job.channel is None ==> channel == ChannelView::Cli
        }),
{
}

/// A job reaches the chat that it names, or the chat `cron` where it names none;
/// the chat `*` is all clients of the channel.
pub proof fn law_job_reaches_its_chat(job: CronJob, r: CronAction)
    requires
        call_ensures(cron_action, (job,), r),
    ensures
        ({
            let chat = match job.chat_id {
                Some(c) => c@,
                None => "cron"@,
            };
            match r {
                CronAction::RunTool { target, .. } => text::opt_view(target.chat_id) == (if chat
                    == "*"@ {
                    None
                } else {
                    Some(chat)
                }),
                CronAction::Send(m) => chat == "*"@ && m.chat_id is None,
                CronAction::Ask(m) => chat != "*"@ && m.chat_id@ == chat,
            }
        }),
{
}

/// A job with a tool has that tool run, with the arguments that it gives or with
/// none; any other job has its message passed on as it is.
pub proof fn law_job_does_what_it_says(job: CronJob, r: CronAction)
    requires
        call_ensures(cron_action, (job,), r),
    ensures
        r is RunTool <==> job.tool is Some,
        match r {
            CronAction::RunTool { tool, args, .. } => tool@ == job.tool->0@ && args@ == (
            match job.tool_args {
                Some(a) => a@,
                None => JsonView::Object(Seq::empty()),
            }),
            CronAction::Send(m) => m.content@ == job.message@,
            CronAction::Ask(m) => m.content@ == job.message@ && m.sender_id@ == "cron"@,
        },
{
}

/// The report of a tool goes where the job is meant to reach, and is what the
/// tool gave; a failure is told as one.
pub proof fn law_report_tells_the_outcome(
    target: Target,
    outcome: Result<String, String>,
    out: OutboundMessage,
)
    requires
        call_ensures(cron_report, (target, outcome), out),
    ensures
        out.channel@ == target.channel@,
        text::opt_view(out.chat_id) == text::opt_view(target.chat_id),
        outcome matches Ok(t) ==> out.content@ == t@,
        outcome matches Err(e) ==> out.content@ == "Cron job error: "@ + e@,
{
}

/// The course of a job, from its beginning to its end: a tool is run and what it
/// gave is sent on the job's channel before the job is advanced; a job without a
/// tool has its message passed on, and is then advanced.
pub proof fn law_course_of_a_job(job: CronJob, outcome: Result<String, String>)
    ensures
        job_course(job, outcome).last() == RoundView::Advance(job.id@),
        job.tool matches Some(tool) ==> {
            let course = job_course(job, outcome);
            &&& course.len() == 3
            &&& course[0] matches RoundView::Run { tool: t, args } && t == tool@ && args == (
            match job.tool_args {
                Some(a) => a@,
                None => JsonView::Object(Seq::empty()),
            })
            &&& course[1] matches RoundView::Send(m) && (job.channel matches Some(c)
                ==> m.channel == c@) && (job.channel is None ==> m.channel == ChannelView::Cli) && (
            outcome matches Ok(t) ==> m.content == t@) && (outcome matches Err(e) ==> m.content
                == "Cron job error: "@ + e@) && (job.chat_id matches Some(c) ==> m.chat_id == (
            if c@ == "*"@ {
                None
            } else {
                Some(c@)
            })) && (job.chat_id is None ==> m.chat_id == Some("cron"@))
        },
        job.tool is None ==> {
            let course = job_course(job, outcome);
            &&& course.len() == 2
            &&& match course[0] {
                RoundView::Send(m) => m.content == job.message@ && m.chat_id is None && (
                job.channel matches Some(c) ==> m.channel == c@) && (job.channel is None ==> m.channel
                    == ChannelView::Cli) && (job.chat_id matches Some(c) && c@ == "*"@),
                RoundView::Ask(m) => m.content == job.message@ && m.sender_id == "cron"@ && (
                job.channel matches Some(c) ==> m.channel == c@) && (job.channel is None ==> m.channel
                    == ChannelView::Cli) && (job.chat_id matches Some(c) ==> m.chat_id == c@) && (
                job.chat_id is None ==> m.chat_id == "cron"@),
                _ => false,
            }
        },
{
    reveal_strlit("cron");
    reveal_strlit("*");
    assert("cron"@.len() == 4 && "*"@.len() == 1);
}

/// A round begins with the first job that is due, and keeps the others for
/// later in their order; without a job there is nothing to do.
pub proof fn law_round_begins_with_the_first_job(jobs: Vec<CronJob>, r: (CronRound, RoundAction))
    requires
        call_ensures(CronRound::begin, (jobs,), r),
    ensures
        r.0@.left == (if jobs@.len() > 0 {
            jobs@.drop_first()
        } else {
            jobs@
        }),
        jobs@.len() == 0 <==> r.1 is Rest,
        jobs@.len() > 0 && jobs@[0].tool is Some ==> (r.1 matches RoundAction::Run { tool, .. }
            && tool@ == jobs@[0].tool->0@),
{
}

/// Every step of a round leaves the jobs behind the current one alone, or takes
/// up the first of them: none is lost, and none is taken twice. Once a message is
/// out of hand the job that it belongs to is advanced.
pub proof fn law_step_of_a_round(round: &mut CronRound, ev: RoundEvent, action: RoundAction)
    requires
        can_follow(old(round)@.awaited, ev),
        call_ensures(CronRound::step, (round, ev), action),
    ensures
        old(round)@.awaited matches AwaitedView::Tool { id, channel, chat_id } ==> {
            &&& final(round)@.left == old(round)@.left
            &&& final(round)@.awaited == AwaitedView::Message { id }
            &&& action matches RoundAction::Send(m) && m.channel@ == channel && text::opt_view(
                m.chat_id,
            ) == chat_id && (ev matches RoundEvent::Ran(Ok(t)) ==> m.content@ == t@)
        },
        old(round)@.awaited matches AwaitedView::Message { id } ==> {
            &&& final(round)@.left == old(round)@.left
            &&& final(round)@.awaited is Advance
            &&& action matches RoundAction::Advance(job) && job@ == id
        },
        old(round)@.awaited is Advance ==> final(round)@.left == (if old(round)@.left.len() > 0 {
            old(round)@.left.drop_first()
        } else {
            old(round)@.left
        }),
        old(round)@.awaited is Advance && old(round)@.left.len() == 0 ==> action is Rest,
{
}

/// The state of jobs stands below the configuration directory.
pub proof fn law_state_is_below_the_configuration(config_dir: &str, out: String)
    requires
        config_dir@.len() > 0,
        config_dir@.last() != '/',
        call_ensures(cron_state_path, (config_dir,), out),
    ensures
        out@ == config_dir@ + "/state/cron.json"@,
{
    reveal_strlit("/");
    reveal_strlit("state");
    reveal_strlit("cron.json");
    reveal_strlit("/state/cron.json");
    let dir = path::below(config_dir@, "state"@);
    assert(dir =~= config_dir@ + "/"@ + "state"@);
    assert(dir.last() == 'e');
    assert(out@ =~= config_dir@ + "/state/cron.json"@);
}

} // verus!
