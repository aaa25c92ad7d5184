//! The switch that gates scheduled rescans, and the scheduler's decisions.

use vstd::prelude::*;
use vstd::string::StringExecFns;
use crate::scanner::worker::ScanJob;

verus! {

/// Seconds the scheduler sleeps between two looks at the switch: five hours.
pub const RESCAN_INTERVAL_SECS: u64 = 18_000;

/// Seconds one probe of a rescan may take.
pub const RESCAN_TIMEOUT_SECS: u64 = 5;

/// Workers a rescan runs with.
pub const RESCAN_WORKERS: usize = 10;

/// Whether scheduled rescans run. A process starts out `Idle`.
#[derive(Debug, Clone, Copy, PartialEq, Eq, Structural)]
pub enum RescanStatus {
    Active,
    Idle,
}

impl RescanStatus {
    /// The other value of the switch.
    pub open spec fn flipped(self) -> RescanStatus {
        match self {
            RescanStatus::Active => RescanStatus::Idle,
            RescanStatus::Idle => RescanStatus::Active,
        }
    }

    /// The switch's value in words.
    pub open spec fn name(self) -> Seq<char> {
        match self {
            RescanStatus::Active => "Active"@,
            RescanStatus::Idle => "Idle"@,
        }
    }

    /// The switch's value in words.
    pub fn to_text(&self) -> (text: String)
        ensures
            text@ == self.name(),
    {
        match self {
            RescanStatus::Active => String::from_str("Active"),
            RescanStatus::Idle => String::from_str("Idle"),
        }
    }

    /// Flips the switch in place.
    pub fn toggle(&mut self)
        ensures
            *final(self) == old(self).flipped(),
    {
        let next = match *self {
            RescanStatus::Idle => RescanStatus::Active,
            RescanStatus::Active => RescanStatus::Idle,
        };
        *self = next;
    }
}

/// Flipping the switch twice gives back the value it started from.
pub proof fn toggle_twice_restores(status: RescanStatus)
    ensures
        status.flipped().flipped() == status,
{
}

impl Default for RescanStatus {
    fn default() -> (status: Self)
        ensures
            status == RescanStatus::Idle,
    {
        RescanStatus::Idle
    }
}

/// Where the scheduler's loop stands.
#[derive(Debug, Clone, Copy, PartialEq, Eq, Structural)]
pub enum SchedulerState {
    /// Asleep until the interval is over.
    Waiting,
    /// Awake, about to learn the switch's value.
    Checking,
    /// A rescan is being prepared or is running.
    Scanning,
}

/// What the scheduler is told.
pub enum SchedulerEvent {
    /// The sleep is over.
    Woke,
    /// The switch was read and has this value.
    Switch(RescanStatus),
    /// Storage was read; these are the targets of the rescan.
    Targets(Vec<String>),
    /// Storage could not be read.
    ReadFailed,
    /// The rescan job has run to its end.
    JobDone,
}

/// What the scheduler asks for next.
pub enum SchedulerAction {
    /// Sleep for this many seconds, then report `Woke`.
    Sleep(u64),
    /// Read the switch and report its value.
    ReadSwitch,
    /// Announce the rescan, read the known addresses from storage and report
    /// the targets chosen among them.
    ReadTargets,
    /// Run this job to its end, then report `JobDone`.
    Run(ScanJob),
    /// The event was not expected in this state: nothing is asked for.
    Ignore,
}

/// The state that follows `state` on `event`. From `Waiting` a wake-up leads
/// to `Checking`; from there an idle switch leads back to `Waiting` and an
/// active one on to `Scanning`, which is left for `Waiting` when the job is
/// done or storage could not be read. Any other event changes nothing.
pub open spec fn state_after(state: SchedulerState, event: SchedulerEvent) -> SchedulerState {
    match (state, event) {
        (SchedulerState::Waiting, SchedulerEvent::Woke) => SchedulerState::Checking,
        (SchedulerState::Checking, SchedulerEvent::Switch(RescanStatus::Idle)) => {
            SchedulerState::Waiting
        },
        (SchedulerState::Checking, SchedulerEvent::Switch(RescanStatus::Active)) => {
            SchedulerState::Scanning
        },
        (SchedulerState::Scanning, SchedulerEvent::ReadFailed) => SchedulerState::Waiting,
        (SchedulerState::Scanning, SchedulerEvent::JobDone) => SchedulerState::Waiting,
        _ => state,
    }
}

/// Whether the scheduler reads storage on `event` in `state`: only when it
/// has just learnt that the switch is active.
pub open spec fn reads_storage(state: SchedulerState, event: SchedulerEvent) -> bool {
    state == SchedulerState::Checking && (event matches SchedulerEvent::Switch(
        RescanStatus::Active,
    ))
}

/// Whether `job` is the rescan of `targets`: those targets, five seconds
/// per probe, ten workers.
pub open spec fn is_rescan_of(job: ScanJob, targets: Vec<String>) -> bool {
    &&& job.ips == targets
    &&& job.timeout == RESCAN_TIMEOUT_SECS
    &&& job.workers == RESCAN_WORKERS
}

/// Whether `action` is what the scheduler asks for on `event` in `state`.
pub open spec fn is_action_after(
    state: SchedulerState,
    event: SchedulerEvent,
    action: SchedulerAction,
) -> bool {
    match (state, event) {
        (SchedulerState::Waiting, SchedulerEvent::Woke) => action is ReadSwitch,
        (SchedulerState::Checking, SchedulerEvent::Switch(RescanStatus::Idle)) => action
            == SchedulerAction::Sleep(RESCAN_INTERVAL_SECS),
        (SchedulerState::Checking, SchedulerEvent::Switch(RescanStatus::Active)) => action
            is ReadTargets,
        (SchedulerState::Scanning, SchedulerEvent::Targets(targets)) => action
            matches SchedulerAction::Run(job) && is_rescan_of(job, targets),
        (SchedulerState::Scanning, SchedulerEvent::ReadFailed) => action == SchedulerAction::Sleep(
            RESCAN_INTERVAL_SECS,
        ),
        (SchedulerState::Scanning, SchedulerEvent::JobDone) => action == SchedulerAction::Sleep(
            RESCAN_INTERVAL_SECS,
        ),
        _ => action is Ignore,
    }
}

/// The job of a rescan: the given targets, five seconds per probe, ten
/// workers.
pub fn rescan_job(targets: Vec<String>) -> (job: ScanJob)
    ensures
        is_rescan_of(job, targets),
{
    ScanJob { ips: targets, timeout: RESCAN_TIMEOUT_SECS, workers: RESCAN_WORKERS }
}

/// What the scheduler asks for first, and the state it starts in: it sleeps
/// one interval before it looks at the switch.
pub fn start_thread() -> (start: (SchedulerState, SchedulerAction))
    ensures
        start.0 == SchedulerState::Waiting,
        start.1 == SchedulerAction::Sleep(RESCAN_INTERVAL_SECS),
{
    (SchedulerState::Waiting, SchedulerAction::Sleep(RESCAN_INTERVAL_SECS))
}

/// One step of the scheduler: the state that follows, and what to do next.
pub fn step(state: SchedulerState, event: SchedulerEvent) -> (next: (
    SchedulerState,
    SchedulerAction,
))
    ensures
        next.0 == state_after(state, event),
        is_action_after(state, event, next.1),
        next.1 is ReadTargets <==> reads_storage(state, event),
{
    match state {
        SchedulerState::Waiting => match event {
            SchedulerEvent::Woke => (SchedulerState::Checking, SchedulerAction::ReadSwitch),
            _ => (state, SchedulerAction::Ignore),
        },
        SchedulerState::Checking => match event {
            SchedulerEvent::Switch(RescanStatus::Idle) => (
                SchedulerState::Waiting,
                SchedulerAction::Sleep(RESCAN_INTERVAL_SECS),
            ),
            SchedulerEvent::Switch(RescanStatus::Active) => (
                SchedulerState::Scanning,
                SchedulerAction::ReadTargets,
            ),
            _ => (state, SchedulerAction::Ignore),
        },
        SchedulerState::Scanning => match event {
            SchedulerEvent::Targets(targets) => (
                SchedulerState::Scanning,
                SchedulerAction::Run(rescan_job(targets)),
            ),
            SchedulerEvent::ReadFailed => (
                SchedulerState::Waiting,
                SchedulerAction::Sleep(RESCAN_INTERVAL_SECS),
            ),
            SchedulerEvent::JobDone => (
                SchedulerState::Waiting,
                SchedulerAction::Sleep(RESCAN_INTERVAL_SECS),
            ),
            _ => (state, SchedulerAction::Ignore),
        },
    }
}

/// While the switch is idle the scheduler reads no storage: whatever state
/// it is in, an event that tells it the switch is idle, or that tells it
/// nothing of the switch while it waits or checks, asks for no read; and
/// the one thing it asks for on an idle switch is to sleep.
pub proof fn idle_reads_nothing(
    state: SchedulerState,
    event: SchedulerEvent,
    action: SchedulerAction,
)
    requires
        is_action_after(state, event, action),
        !(event matches SchedulerEvent::Switch(RescanStatus::Active)),
    ensures
        !(action is ReadTargets),
        !reads_storage(state, event),
        (state == SchedulerState::Checking && (event matches SchedulerEvent::Switch(
            RescanStatus::Idle,
        ))) ==> (action == SchedulerAction::Sleep(RESCAN_INTERVAL_SECS) && state_after(
            state,
            event,
        ) == SchedulerState::Waiting),
{
}

/// Rescans never overlap: while one is under way the scheduler asks for no
/// storage read and starts no second job but for the targets it was just
/// given, whatever it is told.
pub proof fn scanning_starts_nothing_new(event: SchedulerEvent, action: SchedulerAction)
    requires
        is_action_after(SchedulerState::Scanning, event, action),
    ensures
        !(action is ReadTargets),
        action is Run ==> event is Targets,
{
}

} // verus!
