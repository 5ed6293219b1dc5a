//! The decisions of a background `spcomp` check: what each event of the
//! check's life leads to, and how the compiler's output is read.
use vstd::prelude::*;
use crate::spcomp::{opt_view, spec_try_from_line, SpCompDiagnostic};
use crate::text::{push_char, push_str};

verus! {

/// When the checker is run.
#[derive(Copy, Clone, Debug, PartialEq, Eq, Structural)]
pub enum InvocationStrategy {
    Once,
    PerWorkspace,
}

impl Default for InvocationStrategy {
    fn default() -> (res: Self)
        ensures
            res == InvocationStrategy::PerWorkspace,
    {
        InvocationStrategy::PerWorkspace
    }
}

/// Where the checker is run: from a given root, or from the workspace.
#[derive(Clone, Debug)]
pub enum InvocationLocation {
    Root(String),
    Workspace,
}

impl Default for InvocationLocation {
    fn default() -> (res: Self)
        ensures
            res is Workspace,
    {
        InvocationLocation::Workspace
    }
}

/// The command that runs the checker, its extra arguments and the include
/// directories to pass to it.
#[derive(Clone, Debug)]
pub struct FlycheckConfig {
    pub command: String,
    pub args: Vec<String>,
    pub include_directories: Vec<String>,
}

impl FlycheckConfig {
    pub fn new(command: String, args: Vec<String>, include_directories: Vec<String>) -> (res: Self)
        ensures
            res.command == command,
            res.args == args,
            res.include_directories == include_directories,
    {
        FlycheckConfig { command, args, include_directories }
    }
}

/// Progress of a check, as reported to the client.
#[derive(Debug)]
pub enum Progress {
    DidStart,
    DidCheckCrate(String),
    /// The check ended; the error says why it failed.
    DidFinish(Result<(), String>),
    DidCancel,
    DidFailToRestart(String),
}

/// What a check sends to the client.
pub enum Message {
    /// Request adding a diagnostic to a file.
    AddDiagnostic { id: u32, workspace_root: String, diagnostic: SpCompDiagnostic },
    /// Request a check progress notification to the client.
    Progress { id: u32, progress: Progress },
}

/// A request to the check.
#[derive(Copy, Clone, Debug, PartialEq, Eq, Structural)]
pub enum StateChange {
    Restart,
    Cancel,
}

/// What the debounce window makes of the next request read within it, `None`
/// when the window closed with no request: a cancel ends it cancelled
/// (`Some(true)`), a closed window ends it not cancelled (`Some(false)`), a
/// restart keeps it open (`None`).
pub fn debounce_step(change: Option<StateChange>) -> (res: Option<bool>)
    ensures
        res == match change {
            Some(StateChange::Cancel) => Some(true),
            Some(StateChange::Restart) => None,
            None => Some(false),
        },
{
    match change {
        Some(StateChange::Cancel) => Some(true),
        Some(StateChange::Restart) => None,
        None => Some(false),
    }
}

/// What happens to a check.
pub enum Event {
    /// A request arrived.
    RequestStateChange(StateChange),
    /// The requests that followed a restart within the debounce window have
    /// been read; `cancelled` tells whether one of them was a cancel.
    Debounced { cancelled: bool },
    /// The checker was started, or failed to start with the given command
    /// line and error.
    Spawned(Result<(), (String, String)>),
    /// The running checker reported a diagnostic (`Some`) or finished (`None`).
    SpCompEvent(Option<SpCompDiagnostic>),
    /// The finished checker was joined with this outcome.
    Joined(Result<(), String>),
    /// No more requests can arrive.
    InboxClosed,
}

/// What the check does in answer to an event.
pub enum Action {
    /// Kill the running checker.
    KillProcess,
    /// Read the requests that arrive within the debounce window.
    Debounce,
    /// Start the checker.
    Spawn,
    /// Wait for the finished checker.
    Join,
    /// Send a message to the client.
    Send(Message),
    /// Stop handling events.
    Stop,
}

/// The state of a check: its id, the root it checks, and whether a checker
/// process is running.
pub struct FlycheckActor {
    pub id: u32,
    pub root: String,
    pub config: FlycheckConfig,
    pub running: bool,
}

/// The kind of each action, as plain values.
pub enum ActionKind {
    KillProcess,
    Debounce,
    Spawn,
    Join,
    SendDiagnostic,
    SendStart,
    SendFinish,
    SendCancel,
    SendFailToRestart,
    Stop,
}

pub open spec fn action_kind(a: Action) -> ActionKind {
    match a {
        Action::KillProcess => ActionKind::KillProcess,
        Action::Debounce => ActionKind::Debounce,
        Action::Spawn => ActionKind::Spawn,
        Action::Join => ActionKind::Join,
        Action::Send(Message::AddDiagnostic { .. }) => ActionKind::SendDiagnostic,
        Action::Send(Message::Progress { progress, .. }) => match progress {
            Progress::DidStart => ActionKind::SendStart,
            Progress::DidFinish(_) => ActionKind::SendFinish,
            Progress::DidCancel => ActionKind::SendCancel,
            Progress::DidFailToRestart(_) => ActionKind::SendFailToRestart,
            Progress::DidCheckCrate(_) => ActionKind::Stop,
        },
        Action::Stop => ActionKind::Stop,
    }
}

pub open spec fn kinds(actions: Seq<Action>) -> Seq<ActionKind> {
    actions.map_values(|a: Action| action_kind(a))
}

/// The actions that cancel a running checker: none when nothing runs.
pub open spec fn cancel_kinds(running: bool) -> Seq<ActionKind> {
    if running {
        seq![ActionKind::KillProcess, ActionKind::SendCancel]
    } else {
        seq![]
    }
}

/// The actions that cancel a running checker of check `id`.
pub open spec fn cancel_actions(id: u32, running: bool) -> Seq<Action> {
    if running {
        seq![Action::KillProcess, Action::Send(Message::Progress { id, progress: Progress::DidCancel })]
    } else {
        seq![]
    }
}

/// Whether `event` can happen in a check in state `running`: the checker
/// reports and is joined only while it runs.
pub open spec fn event_possible(running: bool, event: &Event) -> bool {
    match event {
        Event::SpCompEvent(_) => running,
        _ => true,
    }
}

/// The kinds of actions that `event` leads to in state `running`, and the
/// state after it.
pub open spec fn spec_step(running: bool, event: &Event) -> (Seq<ActionKind>, bool) {
    match event {
        Event::RequestStateChange(StateChange::Cancel) => (cancel_kinds(running), false),
        Event::RequestStateChange(StateChange::Restart) => (cancel_kinds(running) + seq![ActionKind::Debounce], false),
        Event::Debounced { cancelled } => if *cancelled {
            (seq![], running)
        } else {
            (seq![ActionKind::Spawn], running)
        },
        Event::Spawned(Ok(())) => (seq![ActionKind::SendStart], true),
        Event::Spawned(Err(_)) => (seq![ActionKind::SendFailToRestart], running),
        Event::SpCompEvent(Some(_)) => (seq![ActionKind::SendDiagnostic], running),
        Event::SpCompEvent(None) => (seq![ActionKind::Join], false),
        Event::Joined(_) => (seq![ActionKind::SendFinish], running),
        Event::InboxClosed => (cancel_kinds(running) + seq![ActionKind::Stop], false),
    }
}

/// The kinds of actions that the events `events` lead to, one after the other,
/// from state `running`, and the state after them.
pub open spec fn run_steps(running: bool, events: Seq<Event>) -> (Seq<ActionKind>, bool)
    decreases events.len(),
{
    if events.len() == 0 {
        (seq![], running)
    } else {
        let before = run_steps(running, events.drop_last());
        let last = spec_step(before.1, &events.last());
        (before.0 + last.0, last.1)
    }
}

/// How many times `k` occurs in `s`.
pub open spec fn count_kind(s: Seq<ActionKind>, k: ActionKind) -> nat
    decreases s.len(),
{
    if s.len() == 0 {
        0
    } else {
        count_kind(s.drop_last(), k) + if s.last() == k {
            1nat
        } else {
            0nat
        }
    }
}

/// How many of `events` report a diagnostic.
pub open spec fn diagnostic_events(events: Seq<Event>) -> nat
    decreases events.len(),
{
    if events.len() == 0 {
        0
    } else {
        diagnostic_events(events.drop_last()) + if events.last() matches Event::SpCompEvent(Some(_)) {
            1nat
        } else {
            0nat
        }
    }
}

/// Whether `event` stops a running check: a cancel, a restart, or the end of the requests.
pub open spec fn stops_check(event: Event) -> bool {
    event matches Event::RequestStateChange(_) || event matches Event::InboxClosed
}

/// How many of `events`, taken from state `running`, stop a check while one runs.
pub open spec fn cancelling_events(running: bool, events: Seq<Event>) -> nat
    decreases events.len(),
{
    if events.len() == 0 {
        0
    } else {
        cancelling_events(running, events.drop_last()) + if run_steps(running, events.drop_last()).1 && stops_check(
            events.last(),
        ) {
            1nat
        } else {
            0nat
        }
    }
}

proof fn lemma_count_kind_add(a: Seq<ActionKind>, b: Seq<ActionKind>, k: ActionKind)
    ensures
        count_kind(a + b, k) == count_kind(a, k) + count_kind(b, k),
    decreases b.len(),
{
    if b.len() > 0 {
        lemma_count_kind_add(a, b.drop_last(), k);
        assert((a + b).drop_last() =~= a + b.drop_last());
    } else {
        assert(a + b =~= a);
    }
}

/// Over any sequence of events, the check reports exactly one diagnostic per
/// diagnostic event, and says that it was cancelled exactly once per cancel,
/// restart or end of the requests that comes while a checker runs: never when
/// none runs.
pub proof fn law_run_reports(running: bool, events: Seq<Event>)
    ensures
        count_kind(run_steps(running, events).0, ActionKind::SendDiagnostic) == diagnostic_events(events),
        count_kind(run_steps(running, events).0, ActionKind::SendCancel) == cancelling_events(running, events),
    decreases events.len(),
{
    if events.len() > 0 {
        law_run_reports(running, events.drop_last());
        let before = run_steps(running, events.drop_last());
        let last = spec_step(before.1, &events.last());
        lemma_count_kind_add(before.0, last.0, ActionKind::SendDiagnostic);
        lemma_count_kind_add(before.0, last.0, ActionKind::SendCancel);
        reveal_with_fuel(count_kind, 4);
        let ck = cancel_kinds(before.1);
        lemma_count_kind_add(ck, seq![ActionKind::Debounce], ActionKind::SendDiagnostic);
        lemma_count_kind_add(ck, seq![ActionKind::Debounce], ActionKind::SendCancel);
        lemma_count_kind_add(ck, seq![ActionKind::Stop], ActionKind::SendDiagnostic);
        lemma_count_kind_add(ck, seq![ActionKind::Stop], ActionKind::SendCancel);
        if before.1 {
            assert(ck.drop_last() =~= seq![ActionKind::KillProcess]);
        }
    }
}

/// The message of a failed restart.
pub open spec fn fail_to_restart_message(command: Seq<char>, error: Seq<char>) -> Seq<char> {
    "Failed to run the following command: "@ + command + " error="@ + error
}

impl FlycheckActor {
    pub fn new(id: u32, config: FlycheckConfig, workspace_root: String) -> (res: Self)
        ensures
            res.id == id,
            res.root == workspace_root,
            res.config == config,
            !res.running,
    {
        FlycheckActor { id, root: workspace_root, config, running: false }
    }

    fn progress(&self, progress: Progress) -> (res: Action)
        ensures
            res == Action::Send(Message::Progress { id: self.id, progress }),
    {
        Action::Send(Message::Progress { id: self.id, progress })
    }

    /// Cancels the running checker, if any.
    fn cancel_check_process(&mut self, actions: &mut Vec<Action>)
        ensures
            final(actions)@ == old(actions)@ + cancel_actions(old(self).id, old(self).running),
            kinds(final(actions)@) == kinds(old(actions)@) + cancel_kinds(old(self).running),
            !final(self).running,
            final(self).id == old(self).id,
            final(self).root == old(self).root,
            final(self).config == old(self).config,
    {
        if self.running {
            let ghost a0 = actions@;
            actions.push(Action::KillProcess);
            let p = self.progress(Progress::DidCancel);
            actions.push(p);
            assert(actions@ =~= a0 + cancel_actions(self.id, true));
            assert(kinds(actions@) =~= kinds(a0) + seq![ActionKind::KillProcess, ActionKind::SendCancel]);
            self.running = false;
        } else {
            assert(actions@ =~= actions@ + cancel_actions(self.id, false));
            assert(kinds(actions@) =~= kinds(actions@) + seq![]);
        }
    }

    /// The actions that `event` leads to; the state is updated.
    pub fn step(&mut self, event: Event) -> (actions: Vec<Action>)
        requires
            event_possible(old(self).running, &event),
        ensures
            (kinds(actions@), final(self).running) == spec_step(old(self).running, &event),
            final(self).id == old(self).id,
            final(self).root == old(self).root,
            final(self).config == old(self).config,
            forall|k: int| 0 <= k < actions@.len() ==> match #[trigger] actions@[k] {
                Action::Send(Message::AddDiagnostic { id, workspace_root, diagnostic }) => id == old(self).id
                    && workspace_root@ == old(self).root@ && (event matches Event::SpCompEvent(Some(d)) && diagnostic == d),
                Action::Send(Message::Progress { id, progress }) => id == old(self).id && match progress {
                    Progress::DidFinish(r) => event matches Event::Joined(j) && r == j,
                    Progress::DidFailToRestart(msg) => event matches Event::Spawned(Err((c, e)))
                        && msg@ == fail_to_restart_message(c@, e@),
                    _ => true,
                },
                _ => true,
            },
    {
        let mut actions: Vec<Action> = Vec::new();
        let ghost id = self.id;
        match event {
            Event::RequestStateChange(StateChange::Cancel) => {
                self.cancel_check_process(&mut actions);
            },
            Event::RequestStateChange(StateChange::Restart) => {
                // Cancel the previously spawned process.
                self.cancel_check_process(&mut actions);
                let ghost a0 = actions@;
                actions.push(Action::Debounce);
                assert(kinds(actions@) =~= kinds(a0).push(ActionKind::Debounce));
            },
            Event::Debounced { cancelled } => {
                // A restart chained with a cancel is only a cancel.
                if !cancelled {
                    actions.push(Action::Spawn);
                    assert(kinds(actions@) =~= seq![ActionKind::Spawn]);
                } else {
                    assert(kinds(actions@) =~= seq![]);
                }
            },
            Event::Spawned(Ok(())) => {
                self.running = true;
                let p = self.progress(Progress::DidStart);
                actions.push(p);
                assert(kinds(actions@) =~= seq![ActionKind::SendStart]);
            },
            Event::Spawned(Err((command, error))) => {
                let mut msg = "Failed to run the following command: ".to_owned();
                push_str(&mut msg, command.as_str());
                push_str(&mut msg, " error=");
                push_str(&mut msg, error.as_str());
                let p = self.progress(Progress::DidFailToRestart(msg));
                actions.push(p);
                assert(kinds(actions@) =~= seq![ActionKind::SendFailToRestart]);
            },
            Event::SpCompEvent(Some(diagnostic)) => {
                let root = self.root.clone();
                actions.push(Action::Send(Message::AddDiagnostic { id: self.id, workspace_root: root, diagnostic }));
                assert(kinds(actions@) =~= seq![ActionKind::SendDiagnostic]);
            },
            Event::SpCompEvent(None) => {
                // The checker finished.
                self.running = false;
                actions.push(Action::Join);
                assert(kinds(actions@) =~= seq![ActionKind::Join]);
            },
            Event::Joined(res) => {
                let p = self.progress(Progress::DidFinish(res));
                actions.push(p);
                assert(kinds(actions@) =~= seq![ActionKind::SendFinish]);
            },
            Event::InboxClosed => {
                // Discard the results of a check that is still running.
                self.cancel_check_process(&mut actions);
                let ghost a0 = actions@;
                actions.push(Action::Stop);
                assert(kinds(actions@) =~= kinds(a0).push(ActionKind::Stop));
            },
        }
        actions
    }
}

/// What the reading of a checker's output has gathered so far: the lines of
/// each stream that were no diagnostic, and whether each stream gave one.
pub struct OutputReader {
    pub stdout_errors: String,
    pub stderr_errors: String,
    pub read_stdout_message: bool,
    pub read_stderr_message: bool,
}

/// Reads one output line: its diagnostic, or, when it reports none, the line
/// and a newline appended to `error`.
pub fn process_line(line: &str, error: &mut String) -> (res: Option<SpCompDiagnostic>)
    ensures
        spec_try_from_line(line@, true) is None ==> res is None,
        res is Some ==> opt_view(res) == spec_try_from_line(line@, true) && final(error)@ == old(error)@,
        res is None ==> final(error)@ == old(error)@ + line@ + seq!['\n'],
{
    match SpCompDiagnostic::try_from_line(line) {
        Some(d) => Some(d),
        None => {
            push_str(error, line);
            push_char(error, '\n');
            assert(error@ =~= old(error)@ + line@ + seq!['\n']);
            None
        },
    }
}

impl OutputReader {
    pub fn new() -> (res: Self)
        ensures
            res.stdout_errors@ == Seq::<char>::empty(),
            res.stderr_errors@ == Seq::<char>::empty(),
            !res.read_stdout_message,
            !res.read_stderr_message,
    {
        OutputReader {
            stdout_errors: String::new(),
            stderr_errors: String::new(),
            read_stdout_message: false,
            read_stderr_message: false,
        }
    }

    /// Reads a line of standard output.
    pub fn on_stdout_line(&mut self, line: &str) -> (res: Option<SpCompDiagnostic>)
        ensures
            spec_try_from_line(line@, true) is None ==> res is None,
            res is Some ==> opt_view(res) == spec_try_from_line(line@, true),
            final(self).read_stdout_message == (old(self).read_stdout_message || res is Some),
            final(self).stdout_errors@ == if res is Some {
                old(self).stdout_errors@
            } else {
                old(self).stdout_errors@ + line@ + seq!['\n']
            },
            final(self).read_stderr_message == old(self).read_stderr_message,
            final(self).stderr_errors == old(self).stderr_errors,
    {
        let res = process_line(line, &mut self.stdout_errors);
        if res.is_some() {
            self.read_stdout_message = true;
        }
        res
    }

    /// Reads a line of standard error.
    pub fn on_stderr_line(&mut self, line: &str) -> (res: Option<SpCompDiagnostic>)
        ensures
            spec_try_from_line(line@, true) is None ==> res is None,
            res is Some ==> opt_view(res) == spec_try_from_line(line@, true),
            final(self).read_stderr_message == (old(self).read_stderr_message || res is Some),
            final(self).stderr_errors@ == if res is Some {
                old(self).stderr_errors@
            } else {
                old(self).stderr_errors@ + line@ + seq!['\n']
            },
            final(self).read_stdout_message == old(self).read_stdout_message,
            final(self).stdout_errors == old(self).stdout_errors,
    {
        let res = process_line(line, &mut self.stderr_errors);
        if res.is_some() {
            self.read_stderr_message = true;
        }
        res
    }

    /// The outcome of the reading, once the streams are closed: whether any
    /// diagnostic was read, with the lines that were none; or, when reading
    /// failed with `io_error`, that error followed by those lines.
    pub fn finish(self, io_error: Option<String>) -> (res: Result<(bool, String), String>)
        ensures
            match (io_error, res) {
                (None, Ok((read, error))) => read == (self.read_stdout_message || self.read_stderr_message)
                    && error@ == self.stdout_errors@ + self.stderr_errors@,
                (Some(e), Err(msg)) => msg@ == e@ + ": "@ + self.stdout_errors@ + self.stderr_errors@,
                _ => false,
            },
    {
        let read = self.read_stdout_message || self.read_stderr_message;
        let mut error = self.stdout_errors;
        push_str(&mut error, self.stderr_errors.as_str());
        match io_error {
            None => Ok((read, error)),
            Some(e) => {
                let mut msg = e;
                push_str(&mut msg, ": ");
                push_str(&mut msg, error.as_str());
                Err(msg)
            },
        }
    }
}

/// The outcome of a finished check: success when it read at least one
/// diagnostic or the checker exited successfully; otherwise an error that
/// quotes the exit status and the output that was no diagnostic.
pub fn join_outcome(read_at_least_one_message: bool, exit_success: bool, exit_status: &str, error: &str) -> (res: Result<(), String>)
    ensures
        (read_at_least_one_message || exit_success) <==> res is Ok,
        res matches Err(msg) ==> msg@ == "Cargo watcher failed, the command produced no valid metadata (exit code: "@
            + exit_status@ + "):\n"@ + error@,
{
    if read_at_least_one_message || exit_success {
        Ok(())
    } else {
        let mut msg = "Cargo watcher failed, the command produced no valid metadata (exit code: ".to_owned();
        push_str(&mut msg, exit_status);
        push_str(&mut msg, "):\n");
        push_str(&mut msg, error);
        Err(msg)
    }
}


/// A cancel request stops the check: a running checker is killed and the
/// cancel is reported, an idle check does nothing; either way nothing runs after it.
pub proof fn law_cancel_stops(running: bool)
    ensures
        !spec_step(running, &Event::RequestStateChange(StateChange::Cancel)).1,
        spec_step(running, &Event::RequestStateChange(StateChange::Cancel)).0 == if running {
            seq![ActionKind::KillProcess, ActionKind::SendCancel]
        } else {
            seq![]
        },
{
}

/// Only a checker that was started makes an idle check run.
pub proof fn law_only_spawn_starts(event: Event)
    ensures
        spec_step(false, &event).1 ==> event matches Event::Spawned(Ok(())),
{
}

/// A restart request never starts the checker at once: it cancels what runs
/// and waits for the debounce window.
pub proof fn law_restart_debounces(running: bool)
    ensures
        !spec_step(running, &Event::RequestStateChange(StateChange::Restart)).1,
        spec_step(running, &Event::RequestStateChange(StateChange::Restart)).0 == cancel_kinds(running) + seq![
            ActionKind::Debounce,
        ],
{
}

} // verus!
