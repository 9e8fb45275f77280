//! Subprocesses: what is run, how a crash is answered, and free ports.

use crate::text::{clone_texts, quoted, texts};
use crate::types::{ErrorView, LazyMountError, ProcessKind};
use vstd::arithmetic::power2::{
    lemma_pow2_pos, lemma_pow2_strictly_increases, lemma_pow2_unfold, pow2,
};
use vstd::prelude::*;

verus! {

/// Configuration of a managed subprocess.
#[derive(Debug, PartialEq)]
pub struct ProcessConfig {
    pub name: String,
    pub kind: ProcessKind,
    pub program: String,
    pub args: Vec<String>,
    pub restart_on_crash: bool,
    pub max_restart_delay_secs: u64,
    pub env_remove: Vec<String>,
}

/// The contents of a [`ProcessConfig`].
pub struct ProcessView {
    pub name: Seq<char>,
    pub kind: ProcessKind,
    pub program: Seq<char>,
    pub args: Seq<Seq<char>>,
    pub restart_on_crash: bool,
    pub max_restart_delay_secs: u64,
    pub env_remove: Seq<Seq<char>>,
}

impl View for ProcessConfig {
    type V = ProcessView;

    open spec fn view(&self) -> ProcessView {
        ProcessView {
            name: self.name@,
            kind: self.kind,
            program: self.program@,
            args: texts(self.args@),
            restart_on_crash: self.restart_on_crash,
            max_restart_delay_secs: self.max_restart_delay_secs,
            env_remove: texts(self.env_remove@),
        }
    }
}

impl Clone for ProcessConfig {
    fn clone(&self) -> (copy: Self)
        ensures
            copy@ == self@,
    {
        ProcessConfig {
            name: self.name.clone(),
            kind: self.kind,
            program: self.program.clone(),
            args: clone_texts(&self.args),
            restart_on_crash: self.restart_on_crash,
            max_restart_delay_secs: self.max_restart_delay_secs,
            env_remove: clone_texts(&self.env_remove),
        }
    }
}

/// The longest that a daemon waits before it restarts one of its processes.
pub const MAX_RESTART_DELAY_SECS: u64 = 60;

/// A process that a daemon keeps alive: it is restarted whenever it exits, and
/// inherits the whole environment.
pub open spec fn kept_alive(
    name: Seq<char>,
    kind: ProcessKind,
    program: Seq<char>,
    args: Seq<Seq<char>>,
) -> ProcessView {
    ProcessView {
        name,
        kind,
        program,
        args,
        restart_on_crash: true,
        max_restart_delay_secs: MAX_RESTART_DELAY_SECS,
        env_remove: Seq::empty(),
    }
}

/// Describes a process that a daemon keeps alive.
pub fn keep_alive(name: String, kind: ProcessKind, program: &str, args: Vec<String>) -> (config:
    ProcessConfig)
    ensures
        config@ == kept_alive(name@, kind, program@, texts(args@)),
{
    let config = ProcessConfig {
        name,
        kind,
        program: program.to_string(),
        args,
        restart_on_crash: true,
        max_restart_delay_secs: MAX_RESTART_DELAY_SECS,
        env_remove: Vec::new(),
    };
    assert(texts(config.env_remove@) =~= Seq::<Seq<char>>::empty());
    config
}

/// The error of a process that could not be started.
pub fn spawn_error(config: &ProcessConfig, reason: &str) -> (e: LazyMountError)
    ensures
        e@ == ErrorView::Process(
            "failed to spawn "@ + config@.name + " ("@ + config@.program + "): "@ + reason@,
        ),
{
    let mut t = quoted("failed to spawn ", config.name.as_str(), " (");
    t.append(config.program.as_str());
    t.append("): ");
    t.append(reason);
    LazyMountError::Process(t)
}

/// Events emitted by the process monitor.
#[derive(Debug, PartialEq)]
pub enum ProcessEvent {
    Started { name: String, kind: ProcessKind, pid: Option<u32> },
    Exited { name: String, kind: ProcessKind, exit_code: Option<i32> },
    Restarting { name: String, kind: ProcessKind, attempt: u32, delay_secs: u64 },
    RestartFailed { name: String, kind: ProcessKind, error: String },
}

/// The contents of a [`ProcessEvent`].
pub enum EventView {
    Started { name: Seq<char>, kind: ProcessKind, pid: Option<u32> },
    Exited { name: Seq<char>, kind: ProcessKind, exit_code: Option<i32> },
    Restarting { name: Seq<char>, kind: ProcessKind, attempt: u32, delay_secs: u64 },
    RestartFailed { name: Seq<char>, kind: ProcessKind, error: Seq<char> },
}

impl View for ProcessEvent {
    type V = EventView;

    open spec fn view(&self) -> EventView {
        match self {
            ProcessEvent::Started { name, kind, pid } => EventView::Started {
                name: name@,
                kind: *kind,
                pid: *pid,
            },
            ProcessEvent::Exited { name, kind, exit_code } => EventView::Exited {
                name: name@,
                kind: *kind,
                exit_code: *exit_code,
            },
            ProcessEvent::Restarting { name, kind, attempt, delay_secs } => EventView::Restarting {
                name: name@,
                kind: *kind,
                attempt: *attempt,
                delay_secs: *delay_secs,
            },
            ProcessEvent::RestartFailed { name, kind, error } => EventView::RestartFailed {
                name: name@,
                kind: *kind,
                error: error@,
            },
        }
    }
}

// ---------------------------------------------------------------------------
// Restart delays
// ---------------------------------------------------------------------------

/// The seconds to wait before restart number `attempt`: two to the power of
/// `attempt`, and at most `max_secs`.
pub open spec fn backoff(attempt: nat, max_secs: nat) -> nat {
    if pow2(attempt) <= max_secs {
        pow2(attempt)
    } else {
        max_secs
    }
}

/// The seconds to wait before a restart.
pub fn restart_delay(attempt: u32, max_secs: u64) -> (secs: u64)
    ensures
        secs == backoff(attempt as nat, max_secs as nat),
{
    let mut power: u64 = 1;
    let mut i: u32 = 0;
    assert(pow2(0) == 1) by {
        vstd::arithmetic::power2::lemma2_to64();
    }
    while i < attempt
        invariant
            i <= attempt,
            power == pow2(i as nat),
        decreases attempt - i,
    {
        proof {
            lemma_pow2_unfold((i + 1) as nat);
            if i + 1 < attempt {
                lemma_pow2_strictly_increases((i + 1) as nat, attempt as nat);
            }
        }
        if power > max_secs / 2 {
            return max_secs;
        }
        power = power * 2;
        i += 1;
    }
    if power <= max_secs {
        power
    } else {
        max_secs
    }
}

/// A later restart never waits less than an earlier one, and none waits longer
/// than the maximum.
pub proof fn backoff_grows(earlier: nat, later: nat, max_secs: nat)
    requires
        earlier <= later,
    ensures
        backoff(earlier, max_secs) <= backoff(later, max_secs) <= max_secs,
{
    if earlier < later {
        lemma_pow2_strictly_increases(earlier, later);
    }
}

/// While the maximum is not reached, each restart waits twice as long as the
/// one before, and the first waits two seconds.
pub proof fn backoff_doubles(attempt: nat, max_secs: nat)
    requires
        backoff(attempt + 1, max_secs) < max_secs,
    ensures
        backoff(attempt + 1, max_secs) == 2 * backoff(attempt, max_secs),
        backoff(1, max_secs) == 2,
{
    lemma_pow2_unfold(attempt + 1);
    lemma_pow2_pos(attempt);
    vstd::arithmetic::power2::lemma2_to64();
    if attempt + 1 > 1 {
        lemma_pow2_strictly_increases(1, attempt + 1);
    }
}

// ---------------------------------------------------------------------------
// The monitor of one process
// ---------------------------------------------------------------------------

/// What the monitor of a process is waiting for.
#[derive(Debug, Clone, Copy, PartialEq, Eq, Structural)]
pub enum MonitorPhase {
    /// For the process to exit, or for a shutdown.
    Watching,
    /// For the restart delay to pass, or for a shutdown.
    Delaying,
    /// For the process to be spawned again.
    Spawning,
    /// For nothing: the monitor has ended.
    Stopped,
}

/// What the monitor of a process is told.
#[derive(Debug, PartialEq)]
pub enum MonitorInput {
    Exited { exit_code: Option<i32> },
    DelayElapsed,
    Spawned { pid: Option<u32> },
    SpawnFailed { error: String },
    ShutdownRequested,
}

/// What is to be done next.
#[derive(Debug, Clone, Copy, PartialEq, Eq, Structural)]
pub enum MonitorAction {
    /// Wait for the process to exit or for a shutdown.
    Watch,
    /// Wait so many seconds or for a shutdown.
    Delay { secs: u64 },
    /// Spawn the process again.
    Spawn,
    /// Kill the process and end.
    Kill,
    /// End.
    Stop,
}

/// One step of a monitor: the events to emit, in order, and what to do then.
#[derive(Debug, PartialEq)]
pub struct MonitorStep {
    pub events: Vec<ProcessEvent>,
    pub action: MonitorAction,
}

/// The contents of a list of events.
pub open spec fn event_views(events: Seq<ProcessEvent>) -> Seq<EventView> {
    events.map_values(|e: ProcessEvent| e@)
}

/// The monitor of one process.
#[derive(Debug)]
pub struct Monitor {
    config: ProcessConfig,
    restart_count: u32,
    phase: MonitorPhase,
}

/// The state of a [`Monitor`].
pub struct MonitorView {
    pub config: ProcessView,
    pub restart_count: u32,
    pub phase: MonitorPhase,
}

impl View for Monitor {
    type V = MonitorView;

    closed spec fn view(&self) -> MonitorView {
        MonitorView {
            config: self.config@,
            restart_count: self.restart_count,
            phase: self.phase,
        }
    }
}

/// Whether an input answers what a monitor is waiting for. The count of
/// restarts is a machine integer.
pub open spec fn expects(m: MonitorView, input: MonitorInput) -> bool {
    match input {
        MonitorInput::Exited { exit_code } => m.phase == MonitorPhase::Watching && (
        m.config.restart_on_crash ==> m.restart_count < u32::MAX),
        MonitorInput::DelayElapsed => m.phase == MonitorPhase::Delaying,
        MonitorInput::Spawned { pid } => m.phase == MonitorPhase::Spawning,
        MonitorInput::SpawnFailed { error } => m.phase == MonitorPhase::Spawning,
        MonitorInput::ShutdownRequested => m.phase == MonitorPhase::Watching || m.phase
            == MonitorPhase::Delaying,
    }
}

/// The monitor after an input that it expects.
pub open spec fn next_monitor(m: MonitorView, input: MonitorInput) -> MonitorView {
    match input {
        MonitorInput::Exited { exit_code } => if m.config.restart_on_crash {
            MonitorView {
                config: m.config,
                restart_count: (m.restart_count + 1) as u32,
                phase: MonitorPhase::Delaying,
            }
        } else {
            MonitorView { phase: MonitorPhase::Stopped, ..m }
        },
        MonitorInput::DelayElapsed => MonitorView { phase: MonitorPhase::Spawning, ..m },
        MonitorInput::Spawned { pid } => MonitorView { phase: MonitorPhase::Watching, ..m },
        MonitorInput::SpawnFailed { error } => MonitorView { phase: MonitorPhase::Stopped, ..m },
        MonitorInput::ShutdownRequested => MonitorView { phase: MonitorPhase::Stopped, ..m },
    }
}

/// The seconds that a monitor waits after one more exit.
pub open spec fn next_delay(m: MonitorView) -> u64 {
    backoff((m.restart_count + 1) as nat, m.config.max_restart_delay_secs as nat) as u64
}

/// The events that an input gives rise to.
pub open spec fn step_events(m: MonitorView, input: MonitorInput) -> Seq<EventView> {
    let name = m.config.name;
    let kind = m.config.kind;
    match input {
        MonitorInput::Exited { exit_code } => {
            let exited = EventView::Exited { name, kind, exit_code };
            if m.config.restart_on_crash {
                seq![
                    exited,
                    EventView::Restarting {
                        name,
                        kind,
                        attempt: (m.restart_count + 1) as u32,
                        delay_secs: next_delay(m),
                    },
                ]
            } else {
                seq![exited]
            }
        },
        MonitorInput::DelayElapsed => Seq::empty(),
        MonitorInput::Spawned { pid } => seq![EventView::Started { name, kind, pid }],
        MonitorInput::SpawnFailed { error } => seq![
            EventView::RestartFailed { name, kind, error: error@ },
        ],
        MonitorInput::ShutdownRequested => Seq::empty(),
    }
}

/// What is to be done after an input. A shutdown kills the process if it runs.
pub open spec fn step_action(m: MonitorView, input: MonitorInput) -> MonitorAction {
    match input {
        MonitorInput::Exited { exit_code } => if m.config.restart_on_crash {
            MonitorAction::Delay { secs: next_delay(m) }
        } else {
            MonitorAction::Stop
        },
        MonitorInput::DelayElapsed => MonitorAction::Spawn,
        MonitorInput::Spawned { pid } => MonitorAction::Watch,
        MonitorInput::SpawnFailed { error } => MonitorAction::Stop,
        MonitorInput::ShutdownRequested => if m.phase == MonitorPhase::Watching {
            MonitorAction::Kill
        } else {
            MonitorAction::Stop
        },
    }
}

impl Monitor {
    /// The monitor of a process that has just been spawned, and its first event.
    pub fn start(config: ProcessConfig, pid: Option<u32>) -> (r: (Monitor, ProcessEvent))
        ensures
            r.0@ == (MonitorView {
                config: config@,
                restart_count: 0,
                phase: MonitorPhase::Watching,
            }),
            r.1@ == (EventView::Started { name: config.name@, kind: config.kind, pid }),
    {
        let event = ProcessEvent::Started { name: config.name.clone(), kind: config.kind, pid };
        (Monitor { config, restart_count: 0, phase: MonitorPhase::Watching }, event)
    }

    /// What the monitor is waiting for.
    pub fn phase(&self) -> (phase: MonitorPhase)
        ensures
            phase == self@.phase,
    {
        self.phase
    }

    /// How often the process has been restarted.
    pub fn restart_count(&self) -> (n: u32)
        ensures
            n == self@.restart_count,
    {
        self.restart_count
    }

    /// Takes one step.
    pub fn step(&mut self, input: MonitorInput) -> (step: MonitorStep)
        requires
            expects(old(self)@, input),
        ensures
            final(self)@ == next_monitor(old(self)@, input),
            event_views(step.events@) == step_events(old(self)@, input),
            step.action == step_action(old(self)@, input),
    {
        let ghost before = self@;
        let mut events: Vec<ProcessEvent> = Vec::new();
        let name = self.config.name.clone();
        let kind = self.config.kind;
        let action = match input {
            MonitorInput::Exited { exit_code } => {
                events.push(ProcessEvent::Exited { name: name.clone(), kind, exit_code });
                if self.config.restart_on_crash {
                    self.restart_count = self.restart_count + 1;
                    let secs = restart_delay(
                        self.restart_count,
                        self.config.max_restart_delay_secs,
                    );
                    events.push(
                        ProcessEvent::Restarting {
                            name,
                            kind,
                            attempt: self.restart_count,
                            delay_secs: secs,
                        },
                    );
                    self.phase = MonitorPhase::Delaying;
                    MonitorAction::Delay { secs }
                } else {
                    self.phase = MonitorPhase::Stopped;
                    MonitorAction::Stop
                }
            },
            MonitorInput::DelayElapsed => {
                self.phase = MonitorPhase::Spawning;
                MonitorAction::Spawn
            },
            MonitorInput::Spawned { pid } => {
                events.push(ProcessEvent::Started { name, kind, pid });
                self.phase = MonitorPhase::Watching;
                MonitorAction::Watch
            },
            MonitorInput::SpawnFailed { error } => {
                events.push(ProcessEvent::RestartFailed { name, kind, error });
                self.phase = MonitorPhase::Stopped;
                MonitorAction::Stop
            },
            MonitorInput::ShutdownRequested => {
                let running = match self.phase {
                    MonitorPhase::Watching => true,
                    _ => false,
                };
                self.phase = MonitorPhase::Stopped;
                if running {
                    MonitorAction::Kill
                } else {
                    MonitorAction::Stop
                }
            },
        };
        assert(event_views(events@) =~= step_events(before, input));
        MonitorStep { events, action }
    }
}

/// A stopped monitor expects nothing more, and whatever a monitor expects, its
/// process is the same afterwards and its count of restarts never falls.
pub proof fn monitor_is_steady(m: MonitorView, input: MonitorInput)
    ensures
        m.phase == MonitorPhase::Stopped ==> !expects(m, input),
        expects(m, input) ==> next_monitor(m, input).config == m.config,
        expects(m, input) ==> next_monitor(m, input).restart_count >= m.restart_count,
{
}

/// A shutdown stops a monitor whether its process runs or waits to be
/// restarted, without an event; the process is killed exactly if it runs.
pub proof fn shutdown_stops(m: MonitorView)
    requires
        m.phase == MonitorPhase::Watching || m.phase == MonitorPhase::Delaying,
    ensures
        expects(m, MonitorInput::ShutdownRequested),
        next_monitor(m, MonitorInput::ShutdownRequested).phase == MonitorPhase::Stopped,
        step_events(m, MonitorInput::ShutdownRequested).len() == 0,
        step_action(m, MonitorInput::ShutdownRequested) == (if m.phase == MonitorPhase::Watching {
            MonitorAction::Kill
        } else {
            MonitorAction::Stop
        }),
{
}

/// A process that crashes is back under watch after its delay and one more
/// spawn, with one more restart counted.
pub proof fn crash_then_restart(m: MonitorView, exit_code: Option<i32>, pid: Option<u32>)
    requires
        m.phase == MonitorPhase::Watching,
        m.config.restart_on_crash,
        m.restart_count < u32::MAX,
    ensures
        ({
            let a = next_monitor(m, MonitorInput::Exited { exit_code });
            let b = next_monitor(a, MonitorInput::DelayElapsed);
            let c = next_monitor(b, MonitorInput::Spawned { pid });
            &&& expects(m, MonitorInput::Exited { exit_code })
            &&& expects(a, MonitorInput::DelayElapsed)
            &&& expects(b, MonitorInput::Spawned { pid })
            &&& c == MonitorView { restart_count: (m.restart_count + 1) as u32, ..m }
            &&& step_action(m, MonitorInput::Exited { exit_code }) == (MonitorAction::Delay {
                secs: next_delay(m),
            })
            &&& next_delay(m) <= m.config.max_restart_delay_secs
        }),
{
}

/// A process that is kept alive and exits after `n` restarts is waited for two to the
/// power of `n + 1` seconds, or the longest delay where that is less. The wait and
/// the event that announces it are of the same seconds, and that restart is number
/// `n + 1`.
pub proof fn an_exit_is_answered_with_backoff(m: MonitorView, exit_code: Option<i32>)
    requires
        m.config.restart_on_crash,
        m.restart_count < u32::MAX,
    ensures
        ({
            let input = MonitorInput::Exited { exit_code };
            let power = pow2((m.restart_count + 1) as nat);
            let longest = m.config.max_restart_delay_secs;
            let events = step_events(m, input);
            &&& step_action(m, input) matches MonitorAction::Delay { secs } && {
                &&& secs == if power <= longest {
                    power as int
                } else {
                    longest as int
                }
                &&& events.len() == 2
                &&& events[0] == EventView::Exited {
                    name: m.config.name,
                    kind: m.config.kind,
                    exit_code,
                }
                &&& events[1] matches EventView::Restarting { name, kind, attempt, delay_secs }
                    && name == m.config.name && kind == m.config.kind && attempt
                    == m.restart_count + 1 && delay_secs == secs
            }
            &&& next_monitor(m, input).restart_count == m.restart_count + 1
            &&& next_monitor(m, input).phase == MonitorPhase::Delaying
            &&& next_monitor(m, input).config == m.config
        }),
{
}

/// The waits of a process that keeps crashing start with two seconds and double from
/// one to the next until the longest is reached, at which they stay.
pub proof fn waits_double_up_to_the_longest(
    m: MonitorView,
    exit_code: Option<i32>,
    pid: Option<u32>,
    again: Option<i32>,
)
    requires
        m.config.restart_on_crash,
        m.restart_count < u32::MAX - 1,
    ensures
        ({
            let first = MonitorInput::Exited { exit_code };
            let second = MonitorInput::Exited { exit_code: again };
            let n = next_monitor(
                next_monitor(next_monitor(m, first), MonitorInput::DelayElapsed),
                MonitorInput::Spawned { pid },
            );
            let longest = m.config.max_restart_delay_secs;
            match (step_action(m, first), step_action(n, second)) {
                (MonitorAction::Delay { secs: a }, MonitorAction::Delay { secs: b }) => {
                    &&& b == if 2 * a <= longest {
                        2 * a
                    } else {
                        longest as int
                    }
                    &&& m.restart_count == 0 ==> a == if 2 <= longest {
                        2int
                    } else {
                        longest as int
                    }
                },
                _ => false,
            }
        }),
{
    lemma_pow2_unfold((m.restart_count + 2) as nat);
    lemma_pow2_pos((m.restart_count + 1) as nat);
    vstd::arithmetic::power2::lemma2_to64();
}

/// A process that is not kept alive is left alone once it has exited.
pub proof fn an_exit_may_be_the_end(m: MonitorView, exit_code: Option<i32>)
    requires
        !m.config.restart_on_crash,
    ensures
        ({
            let input = MonitorInput::Exited { exit_code };
            &&& step_action(m, input) == MonitorAction::Stop
            &&& step_events(m, input).len() == 1
            &&& step_events(m, input)[0] == EventView::Exited {
                name: m.config.name,
                kind: m.config.kind,
                exit_code,
            }
            &&& next_monitor(m, input).phase == MonitorPhase::Stopped
            &&& next_monitor(m, input).restart_count == m.restart_count
            &&& next_monitor(m, input).config == m.config
        }),
{
}

/// After its delay a process is spawned again. Where that succeeds, its start is
/// announced with its new id and it is watched; where it fails, the failure is
/// announced with the reason and the monitor ends. Neither counts as a restart.
pub proof fn a_respawn_is_announced(m: MonitorView, pid: Option<u32>, error: String)
    ensures
        ({
            let elapsed = MonitorInput::DelayElapsed;
            let spawned = MonitorInput::Spawned { pid };
            let failed = MonitorInput::SpawnFailed { error };
            &&& step_action(m, elapsed) == MonitorAction::Spawn
            &&& step_events(m, elapsed).len() == 0
            &&& next_monitor(m, elapsed).phase == MonitorPhase::Spawning
            &&& next_monitor(m, elapsed).restart_count == m.restart_count
            &&& step_action(m, spawned) == MonitorAction::Watch
            &&& step_events(m, spawned).len() == 1
            &&& step_events(m, spawned)[0] == EventView::Started {
                name: m.config.name,
                kind: m.config.kind,
                pid,
            }
            &&& next_monitor(m, spawned).phase == MonitorPhase::Watching
            &&& next_monitor(m, spawned).restart_count == m.restart_count
            &&& step_action(m, failed) == MonitorAction::Stop
            &&& step_events(m, failed).len() == 1
            &&& step_events(m, failed)[0] == EventView::RestartFailed {
                name: m.config.name,
                kind: m.config.kind,
                error: error@,
            }
            &&& next_monitor(m, failed).phase == MonitorPhase::Stopped
            &&& next_monitor(m, failed).restart_count == m.restart_count
        }),
{
}

/// A monitor takes an exit and a shutdown while it watches, the end of its delay and
/// a shutdown while it waits, and the outcome of a spawn while it spawns.
pub proof fn each_phase_has_its_inputs(m: MonitorView, input: MonitorInput)
    requires
        m.restart_count < u32::MAX,
    ensures
        expects(m, input) == match m.phase {
            MonitorPhase::Watching => input is Exited || input is ShutdownRequested,
            MonitorPhase::Delaying => input is DelayElapsed || input is ShutdownRequested,
            MonitorPhase::Spawning => input is Spawned || input is SpawnFailed,
            MonitorPhase::Stopped => false,
        },
{
}

/// A process that a daemon keeps alive is run as described, is restarted whenever it
/// exits, is never waited for longer than a minute, and keeps its environment.
pub proof fn kept_processes_are_restarted(
    name: Seq<char>,
    kind: ProcessKind,
    program: Seq<char>,
    args: Seq<Seq<char>>,
)
    ensures
        kept_alive(name, kind, program, args).name == name,
        kept_alive(name, kind, program, args).kind == kind,
        kept_alive(name, kind, program, args).program == program,
        kept_alive(name, kind, program, args).args == args,
        kept_alive(name, kind, program, args).restart_on_crash,
        kept_alive(name, kind, program, args).max_restart_delay_secs == 60,
        kept_alive(name, kind, program, args).env_remove.len() == 0,
{
}

// ---------------------------------------------------------------------------
// Ports
// ---------------------------------------------------------------------------

/// How many ports after the first one are tried.
pub const PORT_SEARCH_SPAN: u16 = 100;

/// The last port that a search from `start` tries.
pub open spec fn last_port(start: u16) -> u16 {
    if start + PORT_SEARCH_SPAN <= u16::MAX {
        (start + PORT_SEARCH_SPAN) as u16
    } else {
        u16::MAX
    }
}

/// Whether a search from `start` ends at `port`: the first port in its range of
/// which the test said that it is available.
pub open spec fn first_available<F: Fn(u16) -> bool>(
    is_available: F,
    start: u16,
    port: u16,
) -> bool {
    &&& start <= port <= last_port(start)
    &&& call_ensures(is_available, (port,), true)
    &&& forall|q: u16| start <= q < port ==> call_ensures(is_available, (q,), false)
}

/// Whether a search from `start` finds no port in its range.
pub open spec fn none_available<F: Fn(u16) -> bool>(is_available: F, start: u16) -> bool {
    forall|q: u16| start <= q <= last_port(start) ==> call_ensures(is_available, (q,), false)
}

/// Whether the port after the one that a search from `start` ends at is a port
/// too.
pub open spec fn leaves_room<F: Fn(u16) -> bool>(is_available: F, start: u16) -> bool {
    forall|p: u16| #[trigger] first_available(is_available, start, p) ==> p < u16::MAX
}

/// Finds the next available port, starting from `start`.
pub fn find_available_port<F: Fn(u16) -> bool>(start: u16, is_available: F) -> (r: Result<
    u16,
    LazyMountError,
>)
    requires
        forall|p: u16| call_requires(is_available, (p,)),
    ensures
        match r {
            Ok(port) => first_available(is_available, start, port),
            Err(e) => {
                &&& e@ == ErrorView::PortConflict { port: start }
                &&& none_available(is_available, start)
            },
        },
{
    let last: u16 = start.saturating_add(PORT_SEARCH_SPAN);
    let mut port: u16 = start;
    loop
        invariant
            start <= port <= last,
            last == last_port(start),
            forall|p: u16| call_requires(is_available, (p,)),
            forall|q: u16| start <= q < port ==> call_ensures(is_available, (q,), false),
        decreases last - port,
    {
        if is_available(port) {
            return Ok(port);
        }
        if port == last {
            return Err(LazyMountError::PortConflict { port: start });
        }
        port += 1;
    }
}

/// A search tries a hundred and one ports, or those that there are.
pub proof fn a_search_tries_a_hundred_ports_more(start: u16)
    ensures
        last_port(start) as int == if start <= 65435 {
            start + 100
        } else {
            65535
        },
{
}

/// The port that a search finds is among those that it tries and is said to be
/// available, and every one before it is said not to be. A search that finds none was
/// told so of all that it tries.
pub proof fn a_search_finds_the_first_port<F: Fn(u16) -> bool>(
    is_available: F,
    start: u16,
    found: u16,
    port: u16,
)
    ensures
        first_available(is_available, start, found) ==> {
            &&& start <= found
            &&& found <= start + 100
            &&& call_ensures(is_available, (found,), true)
            &&& start <= port < found ==> call_ensures(is_available, (port,), false)
        },
        none_available(is_available, start) && start <= port <= start + 100 ==> call_ensures(
            is_available,
            (port,),
            false,
        ),
        leaves_room(is_available, start) && first_available(is_available, start, found) ==> found
            < 65535,
{
}

/// The contents of a process, of an event and of a list of events leave nothing out.
pub proof fn processes_are_viewed_whole(
    p: ProcessConfig,
    e: ProcessEvent,
    events: Seq<ProcessEvent>,
    i: int,
)
    ensures
        p@.name == p.name@,
        p@.kind == p.kind,
        p@.program == p.program@,
        p@.args.len() == p.args@.len(),
        0 <= i < p.args@.len() ==> p@.args[i] == p.args@[i]@,
        p@.restart_on_crash == p.restart_on_crash,
        p@.max_restart_delay_secs == p.max_restart_delay_secs,
        p@.env_remove.len() == p.env_remove@.len(),
        0 <= i < p.env_remove@.len() ==> p@.env_remove[i] == p.env_remove@[i]@,
        match e {
            ProcessEvent::Started { name, kind, pid } => e@ == (EventView::Started {
                name: name@,
                kind,
                pid,
            }),
            ProcessEvent::Exited { name, kind, exit_code } => e@ == (EventView::Exited {
                name: name@,
                kind,
                exit_code,
            }),
            ProcessEvent::Restarting { name, kind, attempt, delay_secs } => e@ == (
            EventView::Restarting { name: name@, kind, attempt, delay_secs }),
            ProcessEvent::RestartFailed { name, kind, error } => e@ == (EventView::RestartFailed {
                name: name@,
                kind,
                error: error@,
            }),
        },
        event_views(events).len() == events.len(),
        0 <= i < events.len() ==> event_views(events)[i] == events[i]@,
{
}

} // verus!
