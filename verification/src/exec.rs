//! One turn without a human: `conga exec`, for scripts and continuous
//! integration.

use crate::text;
use crate::wire::{EventView, OutgoingEvent};
use vstd::prelude::*;
use vstd::string::*;

verus! {

/// How much the agent may do without asking.
#[derive(Clone, Copy, Debug, PartialEq, Eq, Structural)]
pub enum Mode {
    Suggest,
    AutoEdit,
    FullAuto,
    Plan,
}

/// The mode with a name.
pub open spec fn mode_named(name: Seq<char>) -> Option<Mode> {
    if name == "suggest"@ {
        Some(Mode::Suggest)
    } else if name == "auto-edit"@ {
        Some(Mode::AutoEdit)
    } else if name == "full-auto"@ {
        Some(Mode::FullAuto)
    } else if name == "plan"@ {
        Some(Mode::Plan)
    } else {
        None
    }
}

impl Mode {
    /// The mode with a name.
    pub fn parse(name: &str) -> (r: Option<Mode>)
        ensures
            r == mode_named(name@),
    {
        if text::same(name, "suggest") {
            Some(Mode::Suggest)
        } else if text::same(name, "auto-edit") {
            Some(Mode::AutoEdit)
        } else if text::same(name, "full-auto") {
            Some(Mode::FullAuto)
        } else if text::same(name, "plan") {
            Some(Mode::Plan)
        } else {
            None
        }
    }
}

// ── arguments ───────────────────────────────────────────────────────────

/// The usage line, which every usage error ends with.
pub const USAGE: &'static str = "usage: conga exec [--json] [--mode=<suggest|auto-edit|full-auto|plan>] [--resume=<id|last>] [--ext-js=<script.js>] <task|->";

/// The arguments behind the word `exec`.
pub struct ExecArgs {
    /// The task; `-` stands for reading it from standard input.
    pub task: Option<String>,
    pub json: bool,
    /// Fully automatic where nothing else is asked for: nobody is there to
    /// answer a prompt.
    pub mode: Mode,
    /// The session to go on with.
    pub resume: Option<String>,
    /// Extension scripts.
    pub ext_js: Vec<String>,
}

/// The view of [`ExecArgs`].
pub struct ExecArgsView {
    pub task: Option<Seq<char>>,
    pub json: bool,
    pub mode: Mode,
    pub resume: Option<Seq<char>>,
    pub ext_js: Seq<Seq<char>>,
}

impl View for ExecArgs {
    type V = ExecArgsView;

    open spec fn view(&self) -> ExecArgsView {
        ExecArgsView {
            task: text::opt_view(self.task),
            json: self.json,
            mode: self.mode,
            resume: text::opt_view(self.resume),
            ext_js: text::views(self.ext_js@),
        }
    }
}

impl ExecArgsView {
    /// No argument at all.
    pub open spec fn none() -> ExecArgsView {
        ExecArgsView {
            task: None,
            json: false,
            mode: Mode::FullAuto,
            resume: None,
            ext_js: Seq::empty(),
        }
    }
}

/// A usage error: what is wrong, and the usage line.
pub open spec fn usage_error(what: Seq<char>, arg: Seq<char>) -> Seq<char> {
    what + arg + "\n"@ + USAGE@
}

/// What one more argument makes of those before it.
pub open spec fn with_arg(a: ExecArgsView, arg: Seq<char>) -> Result<ExecArgsView, Seq<char>> {
    if "--mode="@.is_prefix_of(arg) {
        let v = arg.skip("--mode="@.len() as int);
        match mode_named(v) {
            Some(mode) => Ok(ExecArgsView { mode, ..a }),
            None => Err(usage_error("unknown --mode: "@, v)),
        }
    } else if "--resume="@.is_prefix_of(arg) {
        Ok(ExecArgsView { resume: Some(arg.skip("--resume="@.len() as int)), ..a })
    } else if "--ext-js="@.is_prefix_of(arg) {
        Ok(ExecArgsView { ext_js: a.ext_js.push(arg.skip("--ext-js="@.len() as int)), ..a })
    } else if arg == "--json"@ {
        Ok(ExecArgsView { json: true, ..a })
    } else if "--"@.is_prefix_of(arg) {
        Err(usage_error("unknown flag: "@, arg))
    } else if a.task is None {
        Ok(ExecArgsView { task: Some(arg), ..a })
    } else {
        Err(usage_error("unexpected extra argument: "@, arg))
    }
}

/// What a list of arguments means, or the first thing that is wrong with it.
pub open spec fn parsed_args(args: Seq<Seq<char>>) -> Result<ExecArgsView, Seq<char>>
    decreases args.len(),
{
    if args.len() == 0 {
        Ok(ExecArgsView::none())
    } else {
        match parsed_args(args.drop_last()) {
            Ok(a) => with_arg(a, args.last()),
            Err(e) => Err(e),
        }
    }
}

/// The view of what came of parsing.
pub open spec fn parse_view(r: Result<ExecArgs, String>) -> Result<ExecArgsView, Seq<char>> {
    match r {
        Ok(a) => Ok(a@),
        Err(e) => Err(e@),
    }
}

fn add_arg(a: ExecArgs, arg: &String) -> (r: Result<ExecArgs, String>)
    ensures
        parse_view(r) == with_arg(a@, arg@),
{
    let mut a = a;
    if let Some(v) = text::strip_prefix(arg.as_str(), "--mode=") {
        match Mode::parse(v.as_str()) {
            Some(mode) => {
                a.mode = mode;
                Ok(a)
            },
            None => Err(text::cat4("unknown --mode: ", v.as_str(), "\n", USAGE)),
        }
    } else if let Some(v) = text::strip_prefix(arg.as_str(), "--resume=") {
        a.resume = Some(v);
        Ok(a)
    } else if let Some(v) = text::strip_prefix(arg.as_str(), "--ext-js=") {
        let ghost before = a.ext_js@;
        let ghost script = v@;
        a.ext_js.push(v);
        assert(text::views(a.ext_js@) =~= text::views(before).push(script));
        Ok(a)
    } else if text::same(arg.as_str(), "--json") {
        a.json = true;
        Ok(a)
    } else if text::starts_with(arg.as_str(), "--") {
        Err(text::cat4("unknown flag: ", arg.as_str(), "\n", USAGE))
    } else if a.task.is_none() {
        a.task = Some(arg.clone());
        Ok(a)
    } else {
        Err(text::cat4("unexpected extra argument: ", arg.as_str(), "\n", USAGE))
    }
}

/// Parses the arguments behind the word `exec`.
pub fn parse_args(args: &Vec<String>) -> (r: Result<ExecArgs, String>)
    ensures
        parse_view(r) == parsed_args(text::views(args@)),
{
    let mut out = ExecArgs {
        task: None,
        json: false,
        mode: Mode::FullAuto,
        resume: None,
        ext_js: Vec::new(),
    };
    let ghost all = text::views(args@);
    assert(text::views(out.ext_js@) =~= Seq::empty());
    for i in 0..args.len()
        invariant
            all == text::views(args@),
            parsed_args(all.take(i as int)) == Ok::<ExecArgsView, Seq<char>>(out@),
    {
        assert(all.take(i + 1).drop_last() =~= all.take(i as int));
        assert(all.take(i + 1).last() == args@[i as int]@);
        match add_arg(out, &args[i]) {
            Ok(a) => {
                out = a;
            },
            Err(e) => {
                proof {
                    lemma_error_stays(all, i + 1);
                }
                return Err(e);
            },
        }
    }
    assert(all.take(all.len() as int) =~= all);
    Ok(out)
}

proof fn lemma_error_stays(args: Seq<Seq<char>>, k: int)
    requires
        0 <= k <= args.len(),
        parsed_args(args.take(k)) is Err,
    ensures
        parsed_args(args) == parsed_args(args.take(k)),
    decreases args.len(),
{
    if k == args.len() {
        assert(args.take(k) =~= args);
    } else {
        assert(args.drop_last().take(k) =~= args.take(k));
        lemma_error_stays(args.drop_last(), k);
    }
}

/// The first wrong argument decides: whatever follows it, the error is the
/// same.
pub proof fn law_first_error_wins(args: Seq<Seq<char>>, more: Seq<Seq<char>>)
    requires
        parsed_args(args) is Err,
    ensures
        parsed_args(args + more) == parsed_args(args),
{
    assert((args + more).take(args.len() as int) =~= args);
    lemma_error_stays(args + more, args.len() as int);
}

// ── the run ─────────────────────────────────────────────────────────────

/// Why a turn was cancelled.
#[derive(Clone, Copy, Debug, PartialEq, Eq, Structural)]
pub enum CancelCause {
    User,
    Timeout,
}

/// How a turn ended.
pub enum TurnEndReason {
    Completed,
    Error { message: String },
    Aborted { cause: Option<CancelCause> },
}

/// The exit code for a turn: 0 where it was completed, 1 where it failed, and
/// 130, as for an interrupt, where it was aborted.
pub fn exit_code(reason: &TurnEndReason) -> (code: i32)
    ensures
        code == exit_status(*reason),
{
    match reason {
        TurnEndReason::Completed => 0,
        TurnEndReason::Error { .. } => 1,
        TurnEndReason::Aborted { .. } => 130,
    }
}

/// The exit code for a turn.
pub open spec fn exit_status(reason: TurnEndReason) -> i32 {
    match reason {
        TurnEndReason::Completed => 0,
        TurnEndReason::Error { .. } => 1,
        TurnEndReason::Aborted { .. } => 130,
    }
}

/// The exit code for errors in the arguments or the setup.
pub const SETUP_ERROR: i32 = 2;

/// What to do with the arguments.
pub enum Start {
    /// Print a message and exit.
    Exit { code: i32, message: String },
    /// Read the task from standard input, then run.
    ReadStdin { json: bool, mode: Mode, resume: Option<String>, ext_js: Vec<String> },
    /// Run.
    Run { task: String, json: bool, mode: Mode, resume: Option<String>, ext_js: Vec<String> },
}

/// The view of a [`Start`].
pub enum StartView {
    Exit { code: i32, message: Seq<char> },
    ReadStdin(ExecArgsView),
    Run { task: Seq<char>, args: ExecArgsView },
}

impl View for Start {
    type V = StartView;

    open spec fn view(&self) -> StartView {
        match self {
            Start::Exit { code, message } => StartView::Exit { code: *code, message: message@ },
            Start::ReadStdin { json, mode, resume, ext_js } => StartView::ReadStdin(
                ExecArgsView {
                    task: None,
                    json: *json,
                    mode: *mode,
                    resume: text::opt_view(*resume),
                    ext_js: text::views(ext_js@),
                },
            ),
            Start::Run { task, json, mode, resume, ext_js } => StartView::Run {
                task: task@,
                args: ExecArgsView {
                    task: None,
                    json: *json,
                    mode: *mode,
                    resume: text::opt_view(*resume),
                    ext_js: text::views(ext_js@),
                },
            },
        }
    }
}

/// How a run starts: a wrong or missing argument ends it, the task `-` is read
/// from standard input.
pub open spec fn start_of(args: Seq<Seq<char>>) -> StartView {
    match parsed_args(args) {
        Err(e) => StartView::Exit { code: SETUP_ERROR, message: e },
        Ok(a) => match a.task {
            None => StartView::Exit { code: SETUP_ERROR, message: USAGE@ },
            Some(t) => if t == "-"@ {
                StartView::ReadStdin(ExecArgsView { task: None, ..a })
            } else {
                StartView::Run { task: t, args: ExecArgsView { task: None, ..a } }
            },
        },
    }
}

/// Decides how a run starts.
pub fn start(args: &Vec<String>) -> (r: Start)
    ensures
        r@ == start_of(text::views(args@)),
{
    match parse_args(args) {
        Err(e) => Start::Exit { code: SETUP_ERROR, message: e },
        Ok(a) => match a.task {
            None => Start::Exit { code: SETUP_ERROR, message: text::copy_str(USAGE) },
            Some(t) => {
                if text::same(t.as_str(), "-") {
                    Start::ReadStdin {
                        json: a.json,
                        mode: a.mode,
                        resume: a.resume,
                        ext_js: a.ext_js,
                    }
                } else {
                    Start::Run {
                        task: t,
                        json: a.json,
                        mode: a.mode,
                        resume: a.resume,
                        ext_js: a.ext_js,
                    }
                }
            },
        },
    }
}

/// The task that was read from standard input, or the exit code and the message
/// where it could not be read.
pub fn task_from_stdin(read: Option<String>) -> (r: Result<String, (i32, String)>)
    ensures
        match read {
            Some(t) => r matches Ok(task) && task@ == t@,
            None => r matches Err(e) && e.0 == SETUP_ERROR && e.1@
                == "failed to read task from stdin"@,
        },
{
    match read {
        Some(t) => Ok(t),
        None => Err((SETUP_ERROR, text::copy_str("failed to read task from stdin"))),
    }
}

/// Answers a request for approval. Nobody is there to ask, so it is denied;
/// what to say of it comes back too.
pub fn headless_approval(tool: &str) -> (r: (bool, String))
    ensures
        !r.0,
        r.1@ == "[exec] approval for "@ + tool@ + " denied (headless)"@,
{
    (false, text::cat3("[exec] approval for ", tool, " denied (headless)"))
}

/// The tokens that an answer of the provider reports.
#[derive(Clone, Copy, Debug, PartialEq, Eq, Structural)]
pub struct Usage {
    pub input_tokens: u64,
    pub output_tokens: u64,
    pub cache_read_tokens: Option<u64>,
    pub cache_write_tokens: Option<u64>,
}

/// The tokens of all answers together. The sums wrap around.
#[derive(Clone, Copy, Debug, PartialEq, Eq, Structural)]
pub struct UsageTotals {
    pub input: u64,
    pub output: u64,
    pub cache_read: u64,
    pub cache_write: u64,
}

/// A number that may be missing, which counts as zero.
pub open spec fn or_zero(n: Option<u64>) -> u64 {
    match n {
        Some(k) => k,
        None => 0,
    }
}

/// The sum of numbers, modulo two to the 64th.
pub open spec fn wrapped_sum(s: Seq<u64>) -> int
    decreases s.len(),
{
    if s.len() == 0 {
        0
    } else {
        (wrapped_sum(s.drop_last()) + s.last()) % 0x1_0000_0000_0000_0000
    }
}

/// Whether totals are those of a list of reports.
pub open spec fn totals_of(t: UsageTotals, reports: Seq<Usage>) -> bool {
    &&& t.input == wrapped_sum(Seq::new(reports.len(), |i: int| reports[i].input_tokens))
    &&& t.output == wrapped_sum(Seq::new(reports.len(), |i: int| reports[i].output_tokens))
    &&& t.cache_read == wrapped_sum(
        Seq::new(reports.len(), |i: int| or_zero(reports[i].cache_read_tokens)),
    )
    &&& t.cache_write == wrapped_sum(
        Seq::new(reports.len(), |i: int| or_zero(reports[i].cache_write_tokens)),
    )
}

fn value_or_zero(n: Option<u64>) -> (k: u64)
    ensures
        k == or_zero(n),
{
    match n {
        Some(k) => k,
        None => 0,
    }
}

impl UsageTotals {
    /// Nothing used yet.
    pub fn new() -> (out: Self)
        ensures
            totals_of(out, Seq::empty()),
    {
        UsageTotals { input: 0, output: 0, cache_read: 0, cache_write: 0 }
    }

    /// Takes the report of one more answer.
    pub fn record(&mut self, u: &Usage)
        ensures
            final(self).input == (old(self).input + u.input_tokens) % 0x1_0000_0000_0000_0000,
            final(self).output == (old(self).output + u.output_tokens) % 0x1_0000_0000_0000_0000,
            final(self).cache_read == (old(self).cache_read + or_zero(u.cache_read_tokens))
                % 0x1_0000_0000_0000_0000,
            final(self).cache_write == (old(self).cache_write + or_zero(u.cache_write_tokens))
                % 0x1_0000_0000_0000_0000,
    {
        self.input = self.input.wrapping_add(u.input_tokens);
        self.output = self.output.wrapping_add(u.output_tokens);
        self.cache_read = self.cache_read.wrapping_add(value_or_zero(u.cache_read_tokens));
        self.cache_write = self.cache_write.wrapping_add(value_or_zero(u.cache_write_tokens));
    }
}

/// However many answers a turn takes, the totals are the sums of what they
/// report.
pub proof fn law_totals_are_sums(before: UsageTotals, after: UsageTotals, reports: Seq<Usage>, u: Usage)
    requires
        totals_of(before, reports),
        after.input == (before.input + u.input_tokens) % 0x1_0000_0000_0000_0000,
        after.output == (before.output + u.output_tokens) % 0x1_0000_0000_0000_0000,
        after.cache_read == (before.cache_read + or_zero(u.cache_read_tokens))
            % 0x1_0000_0000_0000_0000,
        after.cache_write == (before.cache_write + or_zero(u.cache_write_tokens))
            % 0x1_0000_0000_0000_0000,
    ensures
        totals_of(after, reports.push(u)),
{
    let all = reports.push(u);
    assert(Seq::new(all.len(), |i: int| all[i].input_tokens).drop_last() =~= Seq::new(
        reports.len(),
        |i: int| reports[i].input_tokens,
    ));
    assert(Seq::new(all.len(), |i: int| all[i].output_tokens).drop_last() =~= Seq::new(
        reports.len(),
        |i: int| reports[i].output_tokens,
    ));
    assert(Seq::new(all.len(), |i: int| or_zero(all[i].cache_read_tokens)).drop_last() =~= Seq::new(
        reports.len(),
        |i: int| or_zero(reports[i].cache_read_tokens),
    ));
    assert(Seq::new(all.len(), |i: int| or_zero(all[i].cache_write_tokens)).drop_last()
        =~= Seq::new(reports.len(), |i: int| or_zero(reports[i].cache_write_tokens)));
}

/// The events that end the stream of a turn: `done` with the summary of what was
/// used, and an `error` behind it where the turn could not be run.
pub open spec fn last_events(totals: UsageTotals, elapsed_ms: u64, failure: Option<Seq<char>>) -> Seq<
    EventView,
> {
    let done = EventView {
        usage_in: Some(totals.input),
        usage_out: Some(totals.output),
        usage_cache_read: Some(totals.cache_read),
        usage_cache_write: Some(totals.cache_write),
        elapsed_ms: Some(elapsed_ms),
        ..EventView::base("done"@)
    };
    match failure {
        None => seq![done],
        Some(e) => seq![
            done,
            EventView { content: Some(e), message: Some(e), ..EventView::base("error"@) },
        ],
    }
}

/// The views of events.
pub open spec fn event_views(events: Seq<OutgoingEvent>) -> Seq<EventView> {
    Seq::new(events.len(), |i: int| events[i]@)
}

/// The events that end the stream of a turn: `done` with the summary, also of a
/// turn that took no time, and an `error` where the turn could not be run.
pub fn closing_events(totals: &UsageTotals, elapsed_ms: u64, failure: &Option<String>) -> (out: Vec<
    OutgoingEvent,
>)
    ensures
        event_views(out@) == last_events(*totals, elapsed_ms, text::opt_view(*failure)),
{
    let done = OutgoingEvent::done_with_summary(
        totals.input,
        totals.output,
        totals.cache_read,
        totals.cache_write,
        elapsed_ms,
    );
    let mut out: Vec<OutgoingEvent> = Vec::new();
    out.push(done);
    if let Some(e) = failure {
        out.push(OutgoingEvent::error(text::copy_str(e.as_str())));
    }
    assert(event_views(out@) =~= last_events(*totals, elapsed_ms, text::opt_view(*failure)));
    out
}

/// The exit code of a run: that of the turn, or 1 where it could not be run.
pub fn run_code(outcome: &Result<TurnEndReason, String>) -> (code: i32)
    ensures
        code == (match *outcome {
            Ok(reason) => exit_status(reason),
            Err(_) => 1,
        }),
{
    match outcome {
        Ok(reason) => exit_code(reason),
        Err(_) => 1,
    }
}

/// A run that produced a stream of events never exits as a usage error does.
pub proof fn law_setup_errors_are_told_apart(reason: TurnEndReason)
    ensures
        exit_status(reason) != SETUP_ERROR,
        exit_status(reason) == 0 <==> reason is Completed,
{
}

/// What an argument of each form makes of those before it. Everything that the
/// argument does not speak of stays as it was.
pub open spec fn argument_means(
    before: ExecArgsView,
    arg: Seq<char>,
    value: Seq<char>,
    after: Result<ExecArgsView, Seq<char>>,
) -> bool {
    &&& arg == "--resume="@ + value ==> (after matches Ok(a) && a.resume == Some(value) && a.task
        == before.task && a.json == before.json && a.mode == before.mode && a.ext_js
        == before.ext_js)
    &&& arg == "--ext-js="@ + value ==> (after matches Ok(a) && a.ext_js == before.ext_js.push(
        value,
    ) && a.task == before.task && a.json == before.json && a.mode == before.mode && a.resume
        == before.resume)
    &&& arg == "--json"@ ==> (after matches Ok(a) && a.json && a.task == before.task && a.mode
        == before.mode && a.resume == before.resume && a.ext_js == before.ext_js)
    &&& arg == "--mode="@ + value ==> match after {
        Ok(a) => {
            &&& value == "suggest"@ && a.mode == Mode::Suggest || value == "auto-edit"@ && a.mode
                == Mode::AutoEdit || value == "full-auto"@ && a.mode == Mode::FullAuto || value
                == "plan"@ && a.mode == Mode::Plan
            &&& a.task == before.task && a.json == before.json && a.resume == before.resume
                && a.ext_js == before.ext_js
        },
        Err(e) => {
            &&& value != "suggest"@ && value != "auto-edit"@ && value != "full-auto"@ && value
                != "plan"@
            &&& e == "unknown --mode: "@ + value + "\n"@ + USAGE@
        },
    }
    &&& (arg.len() < 2 || arg[0] != '-' || arg[1] != '-') ==> match before.task {
        None => after matches Ok(a) && a.task == Some(arg) && a.json == before.json && a.mode
            == before.mode && a.resume == before.resume && a.ext_js == before.ext_js,
        Some(_) => after matches Err(e) && e == "unexpected extra argument: "@ + arg + "\n"@
            + USAGE@,
    }
}

proof fn lemma_flags_differ(value: Seq<char>)
    ensures
        !("--mode="@.is_prefix_of("--resume="@ + value)),
        !("--mode="@.is_prefix_of("--ext-js="@ + value)),
        !("--resume="@.is_prefix_of("--ext-js="@ + value)),
        !("--mode="@.is_prefix_of("--json"@)),
        !("--resume="@.is_prefix_of("--json"@)),
        !("--ext-js="@.is_prefix_of("--json"@)),
{
    reveal_strlit("--mode=");
    reveal_strlit("--resume=");
    reveal_strlit("--ext-js=");
    reveal_strlit("--json");
    let r = "--resume="@ + value;
    let x = "--ext-js="@ + value;
    assert(r[2] == 'r');
    assert(x[2] == 'e');
    assert("--mode="@[2] == 'm');
    assert("--resume="@[2] == 'r');
    assert("--ext-js="@[2] == 'e');
    assert("--json"@[2] == 'j');
    assert("--mode="@.is_prefix_of(r) ==> r.subrange(0, 7)[2] == 'm');
    assert("--mode="@.is_prefix_of(x) ==> x.subrange(0, 7)[2] == 'm');
    assert("--resume="@.is_prefix_of(x) ==> x.subrange(0, 9)[2] == 'r');
    assert("--json"@.len() == 6);
}

/// Every argument means what it says: a mode, a session to go on with, a script,
/// JSON output, or the task, of which there is one.
pub proof fn law_arguments_mean_what_they_say(args: Seq<Seq<char>>, arg: Seq<char>, value: Seq<char>)
    requires
        parsed_args(args) is Ok,
    ensures
        argument_means(parsed_args(args)->Ok_0, arg, value, parsed_args(args.push(arg))),
{
    let all = args.push(arg);
    let before = parsed_args(args)->Ok_0;
    assert(all.drop_last() =~= args);
    lemma_flags_differ(value);
    reveal_strlit("--mode=");
    reveal_strlit("--resume=");
    reveal_strlit("--ext-js=");
    reveal_strlit("--json");
    reveal_strlit("--");
    reveal_strlit("suggest");
    reveal_strlit("auto-edit");
    reveal_strlit("full-auto");
    reveal_strlit("plan");
    assert("suggest"@.len() == 7);
    assert("auto-edit"@.len() == 9);
    assert("full-auto"@.len() == 9);
    assert("auto-edit"@[0] == 'a');
    assert("full-auto"@[0] == 'f');
    assert("plan"@.len() == 4);
    if arg == "--resume="@ + value {
        assert(arg.subrange(0, 9) =~= "--resume="@);
        assert(arg.skip(9) =~= value);
    }
    if arg == "--ext-js="@ + value {
        assert(arg.subrange(0, 9) =~= "--ext-js="@);
        assert(arg.skip(9) =~= value);
    }
    if arg == "--mode="@ + value {
        assert(arg.subrange(0, 7) =~= "--mode="@);
        assert(arg.skip(7) =~= value);
    }
    if arg.len() < 2 || arg[0] != '-' || arg[1] != '-' {
        assert("--"@.is_prefix_of(arg) ==> arg.subrange(0, 2)[0] == '-' && arg.subrange(0, 2)[1]
            == '-');
        assert("--mode="@.is_prefix_of(arg) ==> arg.subrange(0, 7)[0] == '-' && arg.subrange(
            0,
            7,
        )[1] == '-');
        assert("--resume="@.is_prefix_of(arg) ==> arg.subrange(0, 9)[0] == '-' && arg.subrange(
            0,
            9,
        )[1] == '-');
        assert("--ext-js="@.is_prefix_of(arg) ==> arg.subrange(0, 9)[0] == '-' && arg.subrange(
            0,
            9,
        )[1] == '-');
        assert(arg == "--json"@ ==> arg[0] == '-' && arg[1] == '-');
        assert(arg != "--mode="@ + value) by {
            let m = "--mode="@ + value;
            assert(m[0] == '-' && m[1] == '-');
        }
        assert(arg != "--resume="@ + value) by {
            let m = "--resume="@ + value;
            assert(m[0] == '-' && m[1] == '-');
        }
        assert(arg != "--ext-js="@ + value) by {
            let m = "--ext-js="@ + value;
            assert(m[0] == '-' && m[1] == '-');
        }
    }
}

/// Without arguments nothing is asked for, and nothing is asked before acting.
pub proof fn law_no_arguments(args: &Vec<String>, r: Result<ExecArgs, String>)
    requires
        call_ensures(parse_args, (args,), r),
        args@.len() == 0,
    ensures
        r matches Ok(a) && a.task is None && !a.json && a.mode == Mode::FullAuto && a.resume is None
            && a.ext_js@.len() == 0,
{
    assert(parsed_args(text::views(args@)) == Ok::<ExecArgsView, Seq<char>>(ExecArgsView::none()));
    if let Ok(a) = r {
        assert(a@.ext_js.len() == a.ext_js@.len());
        assert(a@.task == text::opt_view(a.task));
        assert(a@.resume == text::opt_view(a.resume));
    }
}

/// A flag that is none of these is refused, whatever the arguments before it.
pub proof fn law_unknown_flags_are_refused(args: Seq<Seq<char>>, arg: Seq<char>)
    requires
        parsed_args(args) is Ok,
        "--"@.is_prefix_of(arg),
        !("--mode="@.is_prefix_of(arg)),
        !("--resume="@.is_prefix_of(arg)),
        !("--ext-js="@.is_prefix_of(arg)),
        arg != "--json"@,
    ensures
        parsed_args(args.push(arg)) == Err::<ExecArgsView, Seq<char>>(
            "unknown flag: "@ + arg + "\n"@ + USAGE@,
        ),
{
    assert(args.push(arg).drop_last() =~= args);
}

/// A run with a task runs that task, in the way that the arguments ask for; the
/// task `-` is read from standard input; and without a task, or with a wrong
/// argument, the run ends with code 2.
pub proof fn law_run_starts_as_asked(args: &Vec<String>, r: Start)
    requires
        call_ensures(start, (args,), r),
    ensures
        match parsed_args(text::views(args@)) {
            Err(e) => r matches Start::Exit { code, message } && code == 2 && message@ == e,
            Ok(a) => match a.task {
                None => r matches Start::Exit { code, message } && code == 2 && message@ == USAGE@,
                Some(t) => if t == "-"@ {
                    r matches Start::ReadStdin { json, mode, resume, ext_js } && json == a.json
                        && mode == a.mode && text::opt_view(resume) == a.resume && text::views(
                        ext_js@,
                    ) == a.ext_js
                } else {
                    r matches Start::Run { task, json, mode, resume, ext_js } && task@ == t && json
                        == a.json && mode == a.mode && text::opt_view(resume) == a.resume
                        && text::views(ext_js@) == a.ext_js
                },
            },
        },
{
}

/// The exit code tells how a turn ended: 0 where it was completed, 1 where it
/// failed or could not be run, and 130 where it was aborted.
pub proof fn law_exit_code_tells_the_end(outcome: &Result<TurnEndReason, String>, code: i32)
    requires
        call_ensures(run_code, (outcome,), code),
    ensures
        code == 0 <==> *outcome matches Ok(TurnEndReason::Completed),
        code == 130 <==> (*outcome matches Ok(TurnEndReason::Aborted { .. })),
        code == 1 <==> *outcome is Err || (*outcome matches Ok(TurnEndReason::Error { .. })),
{
}

/// The exit code of a turn by itself.
pub proof fn law_exit_code_of_a_turn(reason: &TurnEndReason, code: i32)
    requires
        call_ensures(exit_code, (reason,), code),
    ensures
        code == 0 <==> *reason is Completed,
        code == 1 <==> *reason is Error,
        code == 130 <==> *reason is Aborted,
{
}

/// A task that was read is the task; one that could not be read ends the run with
/// code 2.
pub proof fn law_task_is_what_was_read(read: Option<String>, r: Result<String, (i32, String)>)
    requires
        call_ensures(task_from_stdin, (read,), r),
    ensures
        read matches Some(t) ==> (r matches Ok(task) && task@ == t@),
        read is None ==> (r matches Err(e) && e.0 == 2),
{
}

/// Where nobody can be asked, nothing that needs approval is approved.
pub proof fn law_nothing_is_approved_unseen(tool: &str, r: (bool, String))
    requires
        call_ensures(headless_approval, (tool,), r),
    ensures
        !r.0,
        text::occurs(tool@, r.1@),
{
    let head = "[exec] approval for "@;
    let i = head.len() as int;
    assert(r.1@.subrange(i, i + tool@.len()) =~= tool@);
}

/// Each figure is added to its own total: what an answer reports of one kind of
/// token changes the total of that kind alone, by that much as long as the total
/// fits.
pub proof fn law_each_figure_has_its_total(t: &mut UsageTotals, u: &Usage)
    requires
        call_ensures(UsageTotals::record, (t, u), ()),
    ensures
        old(t).input + u.input_tokens <= u64::MAX ==> final(t).input == old(t).input
            + u.input_tokens,
        old(t).output + u.output_tokens <= u64::MAX ==> final(t).output == old(t).output
            + u.output_tokens,
        u.cache_read_tokens matches Some(n) ==> (old(t).cache_read + n <= u64::MAX ==> final(t).cache_read == old(t).cache_read + n),
        u.cache_write_tokens matches Some(n) ==> (old(t).cache_write + n <= u64::MAX ==> final(t).cache_write == old(t).cache_write + n),
        u.cache_read_tokens is None ==> final(t).cache_read == old(t).cache_read,
        u.cache_write_tokens is None ==> final(t).cache_write == old(t).cache_write,
{
}

/// Totals begin at zero.
pub proof fn law_totals_begin_at_zero(t: UsageTotals)
    requires
        call_ensures(UsageTotals::new, (), t),
    ensures
        t.input == 0 && t.output == 0 && t.cache_read == 0 && t.cache_write == 0,
{
}

/// The stream of a turn ends with `done`, which has the totals and the time; a
/// turn that could not be run has an `error` with the cause behind it.
pub proof fn law_stream_ends_with_the_summary(
    totals: &UsageTotals,
    elapsed_ms: u64,
    failure: &Option<String>,
    out: Vec<OutgoingEvent>,
)
    requires
        call_ensures(closing_events, (totals, elapsed_ms, failure), out),
    ensures
        out@.len() == (if *failure is Some {
            2int
        } else {
            1
        }),
        out@[0].event_type@ == "done"@,
        out@[0].usage_in == Some(totals.input),
        out@[0].usage_out == Some(totals.output),
        out@[0].usage_cache_read == Some(totals.cache_read),
        out@[0].usage_cache_write == Some(totals.cache_write),
        out@[0].elapsed_ms == Some(elapsed_ms),
        *failure matches Some(e) ==> out@[1].event_type@ == "error"@ && text::opt_view(
            out@[1].message,
        ) == Some(e@) && text::opt_view(out@[1].content) == Some(e@),
{
    let v = event_views(out@);
    assert(v.len() == out@.len());
    assert(v[0] == out@[0]@);
    if *failure is Some {
        assert(v[1] == out@[1]@);
    }
}

} // verus!
