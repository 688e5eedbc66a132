//! The supervisor of the one kernel process.
//!
//! The supervisor decides; its caller acts. Every call of a command, and every
//! report about the child process, is an event. For each event the supervisor
//! moves to its next state and says what the caller has to do (spawn the
//! kernel, ask it to terminate, kill it) and what the command that is waiting
//! for an answer gets as its answer.
//!
//! `Starting` and `Stopping` are the two states in which a transition is under
//! way. A command that arrives in one of them is refused and changes nothing,
//! so at most one transition is under way at any time.

use crate::codec::{render_document, rendered};
use crate::json::{no_members, push_member, Json, JsonView, NumberView};
use vstd::prelude::*;

verus! {

/// The state of the kernel process as the supervisor knows it.
#[derive(Clone, Copy, Debug, PartialEq, Eq)]
pub enum KernelProcessState {
    Stopped,
    Starting,
    Running { pid: u32 },
    Stopping,
    Crashed { exit_code: i32 },
}

/// Why a command was refused or failed.
#[derive(Clone, Copy, Debug, PartialEq, Eq)]
pub enum SupervisorError {
    AlreadyRunning,
    SpawnFailed,
    ConfigMissing,
    NotRunning,
    TerminationFailed,
    TransitionInProgress,
}

/// The words for an error.
pub open spec fn supervisor_error_message(e: SupervisorError) -> Seq<char> {
    match e {
        SupervisorError::AlreadyRunning => "内核已在运行"@,
        SupervisorError::SpawnFailed => "启动内核失败"@,
        SupervisorError::ConfigMissing => "配置文件不存在"@,
        SupervisorError::NotRunning => "内核未在运行"@,
        SupervisorError::TerminationFailed => "停止内核失败"@,
        SupervisorError::TransitionInProgress => "内核正在启动或停止"@,
    }
}

impl SupervisorError {
    /// The reason in words.
    pub fn message(&self) -> (text: String)
        ensures
            text@ == supervisor_error_message(*self),
    {
        match self {
            SupervisorError::AlreadyRunning => "内核已在运行".to_owned(),
            SupervisorError::SpawnFailed => "启动内核失败".to_owned(),
            SupervisorError::ConfigMissing => "配置文件不存在".to_owned(),
            SupervisorError::NotRunning => "内核未在运行".to_owned(),
            SupervisorError::TerminationFailed => "停止内核失败".to_owned(),
            SupervisorError::TransitionInProgress => "内核正在启动或停止".to_owned(),
        }
    }
}

/// What happens to the supervisor: a command is called, or something is
/// reported about the child process.
#[derive(Clone, Copy, Debug, PartialEq, Eq)]
pub enum SupervisorEvent {
    /// `start` is called; `config_present` says whether the configuration file
    /// is there.
    Start { config_present: bool },
    /// `stop` is called.
    Stop,
    /// `restart` is called; `config_present` as for `Start`.
    Restart { config_present: bool },
    /// The spawned child is ready, or the time to wait for that is over.
    Started { pid: u32 },
    /// The child could not be spawned.
    SpawnFailed,
    /// The child has exited.
    Exited { exit_code: i32 },
    /// The child was asked to terminate and the grace period is over.
    GraceElapsed,
    /// The child could not be terminated.
    TerminationFailed,
}

/// What the caller has to do after an event.
#[derive(Clone, Copy, Debug, PartialEq, Eq)]
pub enum SupervisorAction {
    /// Nothing.
    Nothing,
    /// Spawn the kernel and report `Started` or `SpawnFailed`.
    Spawn,
    /// Ask the child to terminate, and report `Exited`, `GraceElapsed` or
    /// `TerminationFailed`.
    Terminate { pid: u32 },
    /// Kill the child, and report `Exited` or `TerminationFailed`.
    Kill { pid: u32 },
}

/// The answer that a command gets.
#[derive(Clone, Copy, Debug, PartialEq, Eq)]
pub enum Reply {
    /// No command is answered by this event.
    Pending,
    /// The command that was called or is under way has succeeded.
    Done,
    /// The command that was called or is under way has failed.
    Failed(SupervisorError),
}

/// What the supervisor says after an event.
#[derive(Clone, Copy, Debug, PartialEq, Eq)]
pub struct Reaction {
    pub action: SupervisorAction,
    pub reply: Reply,
}

/// What the supervisor knows.
pub struct SupervisorView {
    /// The state that `get_status` shows.
    pub state: KernelProcessState,
    /// The child that is being stopped, while the state is `Stopping`.
    pub child: Option<u32>,
    /// Whether the stop that is under way is the first half of a restart.
    pub restarting: bool,
}

/// Whether a transition is under way.
pub open spec fn in_transition(state: KernelProcessState) -> bool {
    state is Starting || state is Stopping
}

/// Whether a child process is, or is about to be, the supervised one.
pub open spec fn holds_child(state: KernelProcessState) -> bool {
    state is Starting || state is Running || state is Stopping
}

/// Whether an event is the call of a command.
pub open spec fn is_command(event: SupervisorEvent) -> bool {
    event is Start || event is Stop || event is Restart
}

/// A reaction that asks for nothing and answers nothing.
pub open spec fn ignore(s: SupervisorView) -> (SupervisorView, Reaction) {
    (s, Reaction { action: SupervisorAction::Nothing, reply: Reply::Pending })
}

/// A reaction that refuses a command and changes nothing.
pub open spec fn refuse(s: SupervisorView, e: SupervisorError) -> (SupervisorView, Reaction) {
    (s, Reaction { action: SupervisorAction::Nothing, reply: Reply::Failed(e) })
}

/// The supervisor in a state that holds no child, with no restart under way.
pub open spec fn settled(state: KernelProcessState) -> SupervisorView {
    SupervisorView { state, child: None, restarting: false }
}

/// The move to `Starting`, with the request to spawn.
pub open spec fn begin_start() -> (SupervisorView, Reaction) {
    (
        settled(KernelProcessState::Starting),
        Reaction { action: SupervisorAction::Spawn, reply: Reply::Pending },
    )
}

/// The move to `Stopping`, with the request to terminate the child.
pub open spec fn begin_stop(pid: u32, restarting: bool) -> (SupervisorView, Reaction) {
    (
        SupervisorView { state: KernelProcessState::Stopping, child: Some(pid), restarting },
        Reaction { action: SupervisorAction::Terminate { pid }, reply: Reply::Pending },
    )
}

/// The supervisor's transition function: the state after an event, and the
/// reaction to it.
pub open spec fn next(s: SupervisorView, event: SupervisorEvent) -> (SupervisorView, Reaction) {
    match event {
        SupervisorEvent::Start { config_present } => match s.state {
            KernelProcessState::Stopped | KernelProcessState::Crashed { .. } => if config_present {
                begin_start()
            } else {
                refuse(s, SupervisorError::ConfigMissing)
            },
            KernelProcessState::Running { .. } => refuse(s, SupervisorError::AlreadyRunning),
            _ => refuse(s, SupervisorError::TransitionInProgress),
        },
        SupervisorEvent::Stop => match s.state {
            KernelProcessState::Stopped => (
                s,
                Reaction { action: SupervisorAction::Nothing, reply: Reply::Done },
            ),
            KernelProcessState::Crashed { .. } => refuse(s, SupervisorError::NotRunning),
            KernelProcessState::Running { pid } => begin_stop(pid, false),
            _ => refuse(s, SupervisorError::TransitionInProgress),
        },
        SupervisorEvent::Restart { config_present } => match s.state {
            KernelProcessState::Starting | KernelProcessState::Stopping => refuse(
                s,
                SupervisorError::TransitionInProgress,
            ),
            KernelProcessState::Running { pid } => if config_present {
                begin_stop(pid, true)
            } else {
                refuse(s, SupervisorError::ConfigMissing)
            },
            _ => if config_present {
                begin_start()
            } else {
                refuse(s, SupervisorError::ConfigMissing)
            },
        },
        SupervisorEvent::Started { pid } => match s.state {
            KernelProcessState::Starting => (
                settled(KernelProcessState::Running { pid }),
                Reaction { action: SupervisorAction::Nothing, reply: Reply::Done },
            ),
            _ => ignore(s),
        },
        SupervisorEvent::SpawnFailed => match s.state {
            KernelProcessState::Starting => (
                settled(KernelProcessState::Stopped),
                Reaction {
                    action: SupervisorAction::Nothing,
                    reply: Reply::Failed(SupervisorError::SpawnFailed),
                },
            ),
            _ => ignore(s),
        },
        SupervisorEvent::Exited { exit_code } => match s.state {
            KernelProcessState::Running { .. } => (
                settled(KernelProcessState::Crashed { exit_code }),
                Reaction { action: SupervisorAction::Nothing, reply: Reply::Pending },
            ),
            KernelProcessState::Starting => (
                settled(KernelProcessState::Crashed { exit_code }),
                Reaction {
                    action: SupervisorAction::Nothing,
                    reply: Reply::Failed(SupervisorError::SpawnFailed),
                },
            ),
            KernelProcessState::Stopping => if s.restarting {
                begin_start()
            } else {
                (
                    settled(KernelProcessState::Stopped),
                    Reaction { action: SupervisorAction::Nothing, reply: Reply::Done },
                )
            },
            _ => ignore(s),
        },
        SupervisorEvent::GraceElapsed => match (s.state, s.child) {
            (KernelProcessState::Stopping, Some(pid)) => (
                s,
                Reaction { action: SupervisorAction::Kill { pid }, reply: Reply::Pending },
            ),
            _ => ignore(s),
        },
        SupervisorEvent::TerminationFailed => match (s.state, s.child) {
            (KernelProcessState::Stopping, Some(pid)) => (
                settled(KernelProcessState::Running { pid }),
                Reaction {
                    action: SupervisorAction::Nothing,
                    reply: Reply::Failed(SupervisorError::TerminationFailed),
                },
            ),
            _ => ignore(s),
        },
    }
}

/// A command that arrives while a transition is under way is refused with
/// `TransitionInProgress` and changes nothing.
pub proof fn lemma_one_transition_at_a_time(s: SupervisorView, event: SupervisorEvent)
    requires
        in_transition(s.state),
        is_command(event),
    ensures
        next(s, event) == refuse(s, SupervisorError::TransitionInProgress),
{
}

/// Of two calls of `start` in a row, the first asks for the one spawn and the
/// second is refused and changes nothing, whether it arrives before the child
/// is ready or after.
pub proof fn lemma_start_twice(s: SupervisorView, pid: u32)
    requires
        s.state is Stopped || s.state is Crashed,
    ensures
        ({
            let start = SupervisorEvent::Start { config_present: true };
            let (starting, first) = next(s, start);
            let (running, ready) = next(starting, SupervisorEvent::Started { pid });
            &&& first.action == SupervisorAction::Spawn
            &&& starting.state == KernelProcessState::Starting
            &&& next(starting, start) == refuse(starting, SupervisorError::TransitionInProgress)
            &&& running.state == KernelProcessState::Running { pid }
            &&& ready.reply == Reply::Done
            &&& next(running, start) == refuse(running, SupervisorError::AlreadyRunning)
        }),
{
}

/// A spawn is asked for only where no child is the supervised one, or where
/// the supervised child has just been reported as exited; the state is then
/// `Starting`. So there is never more than one supervised child.
pub proof fn lemma_one_child(s: SupervisorView, event: SupervisorEvent)
    requires
        next(s, event).1.action == SupervisorAction::Spawn,
    ensures
        !holds_child(s.state) || (s.state is Stopping && event is Exited),
        next(s, event).0.state == KernelProcessState::Starting,
{
}

/// `stop` on a stopped supervisor succeeds, asks for nothing and changes
/// nothing.
pub proof fn lemma_stop_when_stopped(s: SupervisorView)
    requires
        s.state is Stopped,
    ensures
        next(s, SupervisorEvent::Stop) == (
            s,
            Reaction { action: SupervisorAction::Nothing, reply: Reply::Done },
        ),
{
}

/// A restart of a running kernel asks for the new child only with the report
/// that the old one has exited, and then ends as a start does.
pub proof fn lemma_restart(s: SupervisorView, old_pid: u32, exit_code: i32, new_pid: u32)
    requires
        s.state == (KernelProcessState::Running { pid: old_pid }),
    ensures
        ({
            let (stopping, first) = next(s, SupervisorEvent::Restart { config_present: true });
            let (starting, second) = next(stopping, SupervisorEvent::Exited { exit_code });
            let (running, third) = next(starting, SupervisorEvent::Started { pid: new_pid });
            &&& stopping.state == KernelProcessState::Stopping
            &&& first == Reaction {
                action: SupervisorAction::Terminate { pid: old_pid },
                reply: Reply::Pending,
            }
            &&& starting.state == KernelProcessState::Starting
            &&& second == Reaction { action: SupervisorAction::Spawn, reply: Reply::Pending }
            &&& running.state == KernelProcessState::Running { pid: new_pid }
            &&& third == Reaction { action: SupervisorAction::Nothing, reply: Reply::Done }
        }),
{
}

/// Whether the supervisor knows the child that it is stopping.
pub open spec fn knows_child(s: SupervisorView) -> bool {
    s.state is Stopping ==> s.child is Some
}

/// From its beginning on the supervisor knows the child that it is stopping.
pub proof fn lemma_knows_child(s: SupervisorView, event: SupervisorEvent)
    requires
        knows_child(s),
    ensures
        knows_child(settled(KernelProcessState::Stopped)),
        knows_child(next(s, event).0),
{
}

/// A stop that outlasts the grace period is escalated: the supervisor asks for
/// the child to be killed, and stays in `Stopping` until the child has exited
/// or cannot be terminated.
pub proof fn lemma_grace_elapsed_kills(s: SupervisorView)
    requires
        knows_child(s),
        s.state is Stopping,
    ensures
        next(s, SupervisorEvent::GraceElapsed) == (
            s,
            Reaction { action: SupervisorAction::Kill { pid: s.child->0 }, reply: Reply::Pending },
        ),
{
}

/// The supervisor of the kernel process.
pub struct Supervisor {
    state: KernelProcessState,
    child: Option<u32>,
    restarting: bool,
}

impl View for Supervisor {
    type V = SupervisorView;

    closed spec fn view(&self) -> SupervisorView {
        SupervisorView { state: self.state, child: self.child, restarting: self.restarting }
    }
}

impl Supervisor {
    /// A supervisor whose kernel is stopped.
    pub fn new() -> (s: Supervisor)
        ensures
            s@ == settled(KernelProcessState::Stopped),
    {
        Supervisor { state: KernelProcessState::Stopped, child: None, restarting: false }
    }

    /// The last known state of the kernel process.
    pub fn get_status(&self) -> (state: KernelProcessState)
        ensures
            state == self@.state,
    {
        self.state
    }

    fn set(&mut self, state: KernelProcessState, child: Option<u32>, restarting: bool)
        ensures
            final(self)@ == (SupervisorView { state, child, restarting }),
    {
        self.state = state;
        self.child = child;
        self.restarting = restarting;
    }

    fn begin_start(&mut self) -> (r: Reaction)
        ensures
            (final(self)@, r) == begin_start(),
    {
        self.set(KernelProcessState::Starting, None, false);
        Reaction { action: SupervisorAction::Spawn, reply: Reply::Pending }
    }

    fn begin_stop(&mut self, pid: u32, restarting: bool) -> (r: Reaction)
        ensures
            (final(self)@, r) == begin_stop(pid, restarting),
    {
        self.set(KernelProcessState::Stopping, Some(pid), restarting);
        Reaction { action: SupervisorAction::Terminate { pid }, reply: Reply::Pending }
    }

    /// Takes an event: moves to the next state and says what to do.
    pub fn handle(&mut self, event: SupervisorEvent) -> (r: Reaction)
        ensures
            (final(self)@, r) == next(old(self)@, event),
    {
        let nothing = SupervisorAction::Nothing;
        match event {
            SupervisorEvent::Start { config_present } => match self.state {
                KernelProcessState::Stopped | KernelProcessState::Crashed { .. } => {
                    if config_present {
                        self.begin_start()
                    } else {
                        Reaction {
                            action: nothing,
                            reply: Reply::Failed(SupervisorError::ConfigMissing),
                        }
                    }
                },
                KernelProcessState::Running { .. } => Reaction {
                    action: nothing,
                    reply: Reply::Failed(SupervisorError::AlreadyRunning),
                },
                _ => Reaction {
                    action: nothing,
                    reply: Reply::Failed(SupervisorError::TransitionInProgress),
                },
            },
            SupervisorEvent::Stop => match self.state {
                KernelProcessState::Stopped => Reaction { action: nothing, reply: Reply::Done },
                KernelProcessState::Crashed { .. } => Reaction {
                    action: nothing,
                    reply: Reply::Failed(SupervisorError::NotRunning),
                },
                KernelProcessState::Running { pid } => self.begin_stop(pid, false),
                _ => Reaction {
                    action: nothing,
                    reply: Reply::Failed(SupervisorError::TransitionInProgress),
                },
            },
            SupervisorEvent::Restart { config_present } => match self.state {
                KernelProcessState::Starting | KernelProcessState::Stopping => Reaction {
                    action: nothing,
                    reply: Reply::Failed(SupervisorError::TransitionInProgress),
                },
                KernelProcessState::Running { pid } => {
                    if config_present {
                        self.begin_stop(pid, true)
                    } else {
                        Reaction {
                            action: nothing,
                            reply: Reply::Failed(SupervisorError::ConfigMissing),
                        }
                    }
                },
                _ => {
                    if config_present {
                        self.begin_start()
                    } else {
                        Reaction {
                            action: nothing,
                            reply: Reply::Failed(SupervisorError::ConfigMissing),
                        }
                    }
                },
            },
            SupervisorEvent::Started { pid } => match self.state {
                KernelProcessState::Starting => {
                    self.set(KernelProcessState::Running { pid }, None, false);
                    Reaction { action: nothing, reply: Reply::Done }
                },
                _ => Reaction { action: nothing, reply: Reply::Pending },
            },
            SupervisorEvent::SpawnFailed => match self.state {
                KernelProcessState::Starting => {
                    self.set(KernelProcessState::Stopped, None, false);
                    Reaction {
                        action: nothing,
                        reply: Reply::Failed(SupervisorError::SpawnFailed),
                    }
                },
                _ => Reaction { action: nothing, reply: Reply::Pending },
            },
            SupervisorEvent::Exited { exit_code } => match self.state {
                KernelProcessState::Running { .. } => {
                    self.set(KernelProcessState::Crashed { exit_code }, None, false);
                    Reaction { action: nothing, reply: Reply::Pending }
                },
                KernelProcessState::Starting => {
                    self.set(KernelProcessState::Crashed { exit_code }, None, false);
                    Reaction {
                        action: nothing,
                        reply: Reply::Failed(SupervisorError::SpawnFailed),
                    }
                },
                KernelProcessState::Stopping => {
                    if self.restarting {
                        self.begin_start()
                    } else {
                        self.set(KernelProcessState::Stopped, None, false);
                        Reaction { action: nothing, reply: Reply::Done }
                    }
                },
                _ => Reaction { action: nothing, reply: Reply::Pending },
            },
            SupervisorEvent::GraceElapsed => match (self.state, self.child) {
                (KernelProcessState::Stopping, Some(pid)) => Reaction {
                    action: SupervisorAction::Kill { pid },
                    reply: Reply::Pending,
                },
                _ => Reaction { action: nothing, reply: Reply::Pending },
            },
            SupervisorEvent::TerminationFailed => match (self.state, self.child) {
                (KernelProcessState::Stopping, Some(pid)) => {
                    self.set(KernelProcessState::Running { pid }, None, false);
                    Reaction {
                        action: nothing,
                        reply: Reply::Failed(SupervisorError::TerminationFailed),
                    }
                },
                _ => Reaction { action: nothing, reply: Reply::Pending },
            },
        }
    }
}

/// Calls `start` on the supervisor.
pub fn start_kernel(supervisor: &mut Supervisor, config_present: bool) -> (r: Reaction)
    ensures
        (final(supervisor)@, r) == next(
            old(supervisor)@,
            SupervisorEvent::Start { config_present },
        ),
{
    supervisor.handle(SupervisorEvent::Start { config_present })
}

/// Calls `stop` on the supervisor.
pub fn stop_kernel(supervisor: &mut Supervisor) -> (r: Reaction)
    ensures
        (final(supervisor)@, r) == next(old(supervisor)@, SupervisorEvent::Stop),
{
    supervisor.handle(SupervisorEvent::Stop)
}

/// Calls `restart` on the supervisor.
pub fn restart_kernel(supervisor: &mut Supervisor, config_present: bool) -> (r: Reaction)
    ensures
        (final(supervisor)@, r) == next(
            old(supervisor)@,
            SupervisorEvent::Restart { config_present },
        ),
{
    supervisor.handle(SupervisorEvent::Restart { config_present })
}

/// The state as the observer gets it: the name of a state without fields, and
/// for the others an object of one member, the name, over the fields.
pub open spec fn status_form(state: KernelProcessState) -> JsonView {
    match state {
        KernelProcessState::Stopped => JsonView::Text("Stopped"@),
        KernelProcessState::Starting => JsonView::Text("Starting"@),
        KernelProcessState::Stopping => JsonView::Text("Stopping"@),
        KernelProcessState::Running { pid } => JsonView::Object(
            Map::<Seq<char>, JsonView>::empty().insert(
                "Running"@,
                JsonView::Object(
                    Map::<Seq<char>, JsonView>::empty().insert(
                        "pid"@,
                        JsonView::Number(NumberView::Integer(pid as int)),
                    ),
                ),
            ),
        ),
        KernelProcessState::Crashed { exit_code } => JsonView::Object(
            Map::<Seq<char>, JsonView>::empty().insert(
                "Crashed"@,
                JsonView::Object(
                    Map::<Seq<char>, JsonView>::empty().insert(
                        "exit_code"@,
                        JsonView::Number(NumberView::Integer(exit_code as int)),
                    ),
                ),
            ),
        ),
    }
}

/// An object of one member.
fn single(key: &str, value: Json) -> (j: Json)
    ensures
        j@ == JsonView::Object(Map::<Seq<char>, JsonView>::empty().insert(key@, value@)),
{
    let mut members = no_members();
    push_member(&mut members, key, value);
    Json::Object(members)
}

/// Builds the state as the observer gets it.
pub fn status_json(state: KernelProcessState) -> (j: Json)
    ensures
        j@ == status_form(state),
{
    match state {
        KernelProcessState::Stopped => Json::text("Stopped"),
        KernelProcessState::Starting => Json::text("Starting"),
        KernelProcessState::Stopping => Json::text("Stopping"),
        KernelProcessState::Running { pid } => single(
            "Running",
            single("pid", Json::integer(pid as u64)),
        ),
        KernelProcessState::Crashed { exit_code } => single(
            "Crashed",
            single("exit_code", Json::signed(exit_code as i64)),
        ),
    }
}

/// The supervisor's last known state as JSON text.
pub fn get_process_status(supervisor: &Supervisor) -> (text: String)
    ensures
        text@ == rendered(status_form(supervisor@.state)),
{
    let status = status_json(supervisor.get_status());
    render_document(&status)
}

} // verus!
