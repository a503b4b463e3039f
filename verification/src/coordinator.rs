//! What the system coordinator decides about systems: their worker pools, how each
//! recovers from an error, and the health and events an error leads to.

use vstd::prelude::*;
use crate::error::{error_message, EngineError};
use crate::system_schedule::{contains_system, system_name, system_name_str, SystemDependencies, SystemId};
use vstd::string::StringSliceAdditionalSpecFns;
use vstd::string::StrSliceExecFns;

verus! {

/// How often a system must run.
#[derive(Debug, Clone, Copy, PartialEq, Eq, PartialOrd, Ord, Hash, Structural)]
pub enum SystemPriority {
    /// Runs every frame.
    Critical,
    /// Runs most frames.
    High,
    /// May skip frames.
    Normal,
    /// May run at a reduced rate.
    Low,
}

/// Worker pool a system runs on.
#[derive(Debug, Clone, Copy, PartialEq, Eq, Structural)]
pub enum PoolCategory {
    WorldGeneration,
    Physics,
    MeshBuilding,
    Lighting,
    Network,
    FileIO,
    Compute,
}

/// Run state of a system.
#[derive(Debug, Clone, Copy, PartialEq, Eq, Structural)]
pub enum SystemState {
    Stopped,
    Starting,
    Running,
    Paused,
    Stopping,
    Error,
}

/// What to do with a system that failed.
#[derive(Debug, Clone, Copy, PartialEq, Eq, Structural)]
pub enum RecoveryStrategy {
    Restart,
    Skip,
    FallbackMode,
    Shutdown,
}

/// What happened to a system.
#[derive(Debug, Clone, PartialEq, Eq, Hash)]
pub enum SystemEventType {
    SystemStarted(SystemId),
    SystemStopped(SystemId),
    SystemError(SystemId),
    ResourceAvailable(String),
    ResourceExhausted(String),
    PerformanceAlert(SystemId),
    Custom(String),
}

/// An event of the systems, with when it happened, in milliseconds of the coordinator's
/// clock.
#[derive(Debug, Clone)]
pub struct SystemEvent {
    pub event_type: SystemEventType,
    pub timestamp_ms: u64,
    pub data: Option<Vec<u8>>,
}

/// Receives the events of the systems.
pub trait SystemEventHandler {
    fn handle_event(&self, event: &SystemEvent);
}

/// What a frame did: the systems run with their times in microseconds, those that failed
/// with their messages, those skipped, and those over budget.
pub struct FrameExecutionReport {
    pub executed_systems: Vec<(SystemId, u64)>,
    pub failed_systems: Vec<(SystemId, String)>,
    pub skipped_systems: Vec<SystemId>,
    pub budget_exceeded_systems: Vec<SystemId>,
    pub total_frame_time_us: u64,
}

impl FrameExecutionReport {
    /// The report of a frame that has not run anything yet.
    pub fn new() -> (r: FrameExecutionReport)
        ensures
            r.executed_systems@.len() == 0,
            r.failed_systems@.len() == 0,
            r.skipped_systems@.len() == 0,
            r.budget_exceeded_systems@.len() == 0,
            r.total_frame_time_us == 0,
    {
        FrameExecutionReport {
            executed_systems: Vec::new(),
            failed_systems: Vec::new(),
            skipped_systems: Vec::new(),
            budget_exceeded_systems: Vec::new(),
            total_frame_time_us: 0,
        }
    }
}

/// The worker pool of a system.
pub open spec fn pool_of(system: SystemId) -> PoolCategory {
    match system {
        SystemId::WorldGeneration => PoolCategory::WorldGeneration,
        SystemId::Physics => PoolCategory::Physics,
        SystemId::Renderer => PoolCategory::MeshBuilding,
        SystemId::Lighting => PoolCategory::Lighting,
        SystemId::Network => PoolCategory::Network,
        SystemId::Persistence => PoolCategory::FileIO,
        _ => PoolCategory::Compute,
    }
}

/// The worker pool of a system.
pub fn get_pool_category(system: SystemId) -> (r: PoolCategory)
    ensures
        r == pool_of(system),
{
    match system {
        SystemId::WorldGeneration => PoolCategory::WorldGeneration,
        SystemId::Physics => PoolCategory::Physics,
        SystemId::Renderer => PoolCategory::MeshBuilding,
        SystemId::Lighting => PoolCategory::Lighting,
        SystemId::Network => PoolCategory::Network,
        SystemId::Persistence => PoolCategory::FileIO,
        _ => PoolCategory::Compute,
    }
}

/// How a system recovers from an error by default.
pub open spec fn default_strategy(system: SystemId) -> RecoveryStrategy {
    match system {
        SystemId::WorldGeneration => RecoveryStrategy::Restart,
        SystemId::Physics => RecoveryStrategy::Restart,
        SystemId::Renderer => RecoveryStrategy::FallbackMode,
        SystemId::Lighting => RecoveryStrategy::Skip,
        SystemId::Network => RecoveryStrategy::Restart,
        SystemId::Persistence => RecoveryStrategy::Shutdown,
        SystemId::Audio => RecoveryStrategy::Skip,
        SystemId::Input => RecoveryStrategy::Restart,
        SystemId::UI => RecoveryStrategy::FallbackMode,
        SystemId::Particles => RecoveryStrategy::Skip,
        SystemId::Weather => RecoveryStrategy::Skip,
    }
}

/// How a system recovers from an error by default.
pub fn default_recovery_strategy(system: SystemId) -> (r: RecoveryStrategy)
    ensures
        r == default_strategy(system),
{
    match system {
        SystemId::WorldGeneration => RecoveryStrategy::Restart,
        SystemId::Physics => RecoveryStrategy::Restart,
        SystemId::Renderer => RecoveryStrategy::FallbackMode,
        SystemId::Lighting => RecoveryStrategy::Skip,
        SystemId::Network => RecoveryStrategy::Restart,
        SystemId::Persistence => RecoveryStrategy::Shutdown,
        SystemId::Audio => RecoveryStrategy::Skip,
        SystemId::Input => RecoveryStrategy::Restart,
        SystemId::UI => RecoveryStrategy::FallbackMode,
        SystemId::Particles => RecoveryStrategy::Skip,
        SystemId::Weather => RecoveryStrategy::Skip,
    }
}

/// Number of errors after which a system no longer counts as healthy.
pub const MAX_HEALTHY_ERRORS: u32 = 5;

/// The health of a system as the coordinator tracks it.
#[derive(Debug, Clone, Copy, PartialEq, Eq, Structural)]
pub struct SystemHealthRecord {
    pub system_id: SystemId,
    pub state: SystemState,
    pub error_count: u32,
    pub is_healthy: bool,
}

impl SystemHealthRecord {
    /// A running system without errors.
    pub fn new(system_id: SystemId) -> (r: SystemHealthRecord)
        ensures
            r == (SystemHealthRecord {
                system_id,
                state: SystemState::Running,
                error_count: 0,
                is_healthy: true,
            }),
    {
        SystemHealthRecord { system_id, state: SystemState::Running, error_count: 0, is_healthy: true }
    }

    /// Records an error: the system is in the error state, its count goes up, and it stays
    /// healthy while fewer than five errors have been counted.
    pub fn record_error(&mut self)
        requires
            old(self).error_count < u32::MAX,
        ensures
            final(self).system_id == old(self).system_id,
            final(self).state == SystemState::Error,
            final(self).error_count == old(self).error_count + 1,
            final(self).is_healthy == (final(self).error_count < MAX_HEALTHY_ERRORS),
    {
        self.state = SystemState::Error;
        self.error_count = self.error_count + 1;
        self.is_healthy = self.error_count < MAX_HEALTHY_ERRORS;
    }
}

/// The event that reports an error of `system` at `timestamp_ms`, carrying the error's text
/// as UTF-8.
pub fn system_error_event(system: SystemId, error: &EngineError, timestamp_ms: u64) -> (r: SystemEvent)
    ensures
        r.event_type matches SystemEventType::SystemError(s) && s == system,
        r.timestamp_ms == timestamp_ms,
        r.data matches Some(bytes) && exists|text: &str|
            text@ == error_message(*error) && bytes@ == text.spec_bytes(),
{
    let text = error.to_string();
    let bytes = text.as_str().as_bytes_vec();
    SystemEvent {
        event_type: SystemEventType::SystemError(system),
        timestamp_ms,
        data: Some(bytes),
    }
}

/// Whether a system may run: it has a health record that is healthy and not in the
/// error state. A system without a record does not run.
pub open spec fn healthy(record: Option<SystemHealthRecord>) -> bool {
    record matches Some(h) && h.is_healthy && h.state != SystemState::Error
}

/// Whether a system may run this frame.
pub fn is_system_healthy(record: Option<SystemHealthRecord>) -> (r: bool)
    ensures
        r == healthy(record),
{
    match record {
        Some(h) => h.is_healthy && h.state != SystemState::Error,
        None => false,
    }
}

/// An element is in `q.push(x)` when it is `x` or in `q`.
proof fn lemma_push_contains<A>(q: Seq<A>, x: A, y: A)
    ensures
        q.push(x).contains(y) == (q.contains(y) || y == x),
{
    if q.contains(y) {
        let k = choose|k: int| 0 <= k < q.len() && q[k] == y;
        assert(q.push(x)[k] == y);
    }
    if y == x {
        assert(q.push(x)[q.len() as int] == y);
    }
    if q.push(x).contains(y) {
        let k = choose|k: int| 0 <= k < q.push(x).len() && q.push(x)[k] == y;
        if k < q.len() {
            assert(q[k] == y);
        }
    }
}

/// What the current frame has done so far: its number, the systems that completed and
/// those under way.
pub struct FrameProgress {
    pub current_frame: u64,
    pub systems_completed: Vec<SystemId>,
    pub systems_in_progress: Vec<SystemId>,
}

impl FrameProgress {
    /// Whether `s` completed in this frame.
    pub open spec fn completed(&self, s: SystemId) -> bool {
        self.systems_completed@.contains(s)
    }

    /// Whether `s` is under way.
    pub open spec fn running(&self, s: SystemId) -> bool {
        self.systems_in_progress@.contains(s)
    }

    /// Before the first frame: frame zero, nothing done, nothing under way.
    pub fn new() -> (r: FrameProgress)
        ensures
            r.current_frame == 0,
            forall|s: SystemId| !r.completed(s) && !r.running(s),
    {
        FrameProgress { current_frame: 0, systems_completed: Vec::new(), systems_in_progress: Vec::new() }
    }

    /// Starts the next frame: its number goes up and nothing is done or under way.
    pub fn begin_frame(&mut self)
        requires
            old(self).current_frame < u64::MAX,
        ensures
            final(self).current_frame == old(self).current_frame + 1,
            forall|s: SystemId| !final(self).completed(s) && !final(self).running(s),
    {
        self.current_frame = self.current_frame + 1;
        self.systems_completed.clear();
        self.systems_in_progress.clear();
    }

    /// Marks `system` as under way.
    pub fn start_system(&mut self, system: SystemId)
        ensures
            final(self).current_frame == old(self).current_frame,
            forall|s: SystemId| #[trigger] final(self).running(s) == (old(self).running(s) || s == system),
            forall|s: SystemId| #[trigger] final(self).completed(s) == old(self).completed(s),
    {
        if !contains_system(&self.systems_in_progress, system) {
            self.systems_in_progress.push(system);
            proof {
                assert forall|s: SystemId| #[trigger] self.running(s) == (old(self).running(s) || s == system) by {
                    lemma_push_contains(old(self).systems_in_progress@, system, s);
                }
            }
        }
    }

    /// `system` is no longer under way.
    pub fn finish_system(&mut self, system: SystemId)
        ensures
            final(self).current_frame == old(self).current_frame,
            forall|s: SystemId| #[trigger] final(self).running(s) == (old(self).running(s) && s != system),
            forall|s: SystemId| #[trigger] final(self).completed(s) == old(self).completed(s),
    {
        let mut kept: Vec<SystemId> = Vec::new();
        let mut i: usize = 0;
        while i < self.systems_in_progress.len()
            invariant
                i <= self.systems_in_progress@.len(),
                forall|s: SystemId| #[trigger] kept@.contains(s) == (
                    self.systems_in_progress@.subrange(0, i as int).contains(s) && s != system),
            decreases self.systems_in_progress@.len() - i,
        {
            let x = self.systems_in_progress[i];
            let ghost prev = kept@;
            let ghost before = self.systems_in_progress@.subrange(0, i as int);
            if x != system {
                kept.push(x);
            }
            proof {
                assert(self.systems_in_progress@.subrange(0, i + 1) =~= before.push(x));
                assert forall|s: SystemId| #[trigger] kept@.contains(s) == (before.push(x).contains(s)
                    && s != system) by {
                    lemma_push_contains(before, x, s);
                    assert(prev.contains(s) == (before.contains(s) && s != system));
                    if x != system {
                        lemma_push_contains(prev, x, s);
                    }
                }
            }
            i = i + 1;
        }
        proof {
            assert(self.systems_in_progress@.subrange(0, self.systems_in_progress@.len() as int)
                =~= self.systems_in_progress@);
        }
        self.systems_in_progress = kept;
    }

    /// `system` completed in this frame.
    pub fn complete_system(&mut self, system: SystemId)
        ensures
            final(self).current_frame == old(self).current_frame,
            forall|s: SystemId| #[trigger] final(self).completed(s) == (old(self).completed(s) || s == system),
            forall|s: SystemId| #[trigger] final(self).running(s) == old(self).running(s),
    {
        if !contains_system(&self.systems_completed, system) {
            self.systems_completed.push(system);
            proof {
                assert forall|s: SystemId| #[trigger] self.completed(s) == (old(self).completed(s) || s == system) by {
                    lemma_push_contains(old(self).systems_completed@, system, s);
                }
            }
        }
    }
}

/// Whether every system that `deps` waits for has completed in this frame.
pub open spec fn dependencies_complete(deps: &SystemDependencies, progress: &FrameProgress) -> bool {
    forall|i: int| 0 <= i < deps.depends_on@.len() ==> progress.completed(#[trigger] deps.depends_on@[i])
}

/// Whether every system that `deps` waits for has completed in this frame.
pub fn all_dependencies_complete(deps: &SystemDependencies, progress: &FrameProgress) -> (r: bool)
    ensures
        r == dependencies_complete(deps, progress),
{
    let mut i: usize = 0;
    while i < deps.depends_on.len()
        invariant
            i <= deps.depends_on@.len(),
            forall|k: int| 0 <= k < i ==> progress.completed(#[trigger] deps.depends_on@[k]),
        decreases deps.depends_on@.len() - i,
    {
        if !contains_system(&progress.systems_completed, deps.depends_on[i]) {
            return false;
        }
        i = i + 1;
    }
    true
}

/// Where waiting for a system's dependencies stands.
#[derive(Debug, Clone, Copy, PartialEq, Eq, Structural)]
pub enum DependencyWait {
    /// The system may run.
    Ready,
    /// Look again after a short pause.
    Wait,
    /// The longest wait its dependencies allow has passed.
    TimedOut,
}

/// Where waiting stands after `elapsed_ms` whole milliseconds: a system without
/// registered dependencies runs at once; otherwise the wait has timed out once
/// `max_wait_time_ms` have passed, and before that the system runs when all its
/// dependencies completed.
pub open spec fn wait_outcome(
    deps: Option<&SystemDependencies>,
    progress: &FrameProgress,
    elapsed_ms: u64,
) -> DependencyWait {
    match deps {
        None => DependencyWait::Ready,
        Some(d) => if elapsed_ms >= d.max_wait_time_ms {
            DependencyWait::TimedOut
        } else if dependencies_complete(d, progress) {
            DependencyWait::Ready
        } else {
            DependencyWait::Wait
        },
    }
}

/// One look at a system's dependencies, `elapsed_ms` whole milliseconds after the
/// wait began.
pub fn dependency_wait_step(
    deps: Option<&SystemDependencies>,
    progress: &FrameProgress,
    elapsed_ms: u64,
) -> (r: DependencyWait)
    ensures
        r == wait_outcome(deps, progress, elapsed_ms),
{
    match deps {
        None => DependencyWait::Ready,
        Some(d) => {
            if elapsed_ms >= d.max_wait_time_ms {
                DependencyWait::TimedOut
            } else if all_dependencies_complete(d, progress) {
                DependencyWait::Ready
            } else {
                DependencyWait::Wait
            }
        },
    }
}

/// The message of the error for a system whose dependencies did not complete in time.
pub open spec fn dependency_timeout_message(system: SystemId) -> Seq<char> {
    "Timeout waiting for dependencies of "@ + system_name(system)
}

/// The error for a system whose dependencies did not complete in time.
pub fn dependency_timeout_error(system: SystemId) -> (r: EngineError)
    ensures
        r matches EngineError::TimeoutError(m) && m@ == dependency_timeout_message(system),
{
    let mut m = String::from_str("Timeout waiting for dependencies of ");
    m.append(system_name_str(system));
    EngineError::TimeoutError(m)
}

/// What became of a system in a frame.
pub enum SystemOutcome {
    /// Not healthy enough to run.
    Unhealthy,
    /// Its dependencies did not complete in time.
    DependencyFailure(EngineError),
    /// Running it would overrun the frame budget.
    OverBudget,
    /// It ran, taking this many microseconds.
    Executed(u64),
    /// It ran and failed.
    Failed(EngineError),
}

impl FrameExecutionReport {
    /// Files `outcome` of `system` under its list: unhealthy systems are skipped,
    /// failures (of the run or of the wait) are listed with the error's text, systems
    /// over budget are listed as such, and runs with their time. Every other list and
    /// the frame time stay as they were.
    pub fn record(&mut self, system: SystemId, outcome: SystemOutcome)
        ensures
            final(self).total_frame_time_us == old(self).total_frame_time_us,
            match outcome {
                SystemOutcome::Unhealthy => final(self).skipped_systems@ == old(self).skipped_systems@.push(system),
                _ => final(self).skipped_systems@ == old(self).skipped_systems@,
            },
            match outcome {
                SystemOutcome::OverBudget => final(self).budget_exceeded_systems@
                    == old(self).budget_exceeded_systems@.push(system),
                _ => final(self).budget_exceeded_systems@ == old(self).budget_exceeded_systems@,
            },
            match outcome {
                SystemOutcome::Executed(us) => final(self).executed_systems@ == old(self).executed_systems@.push((system, us)),
                _ => final(self).executed_systems@ == old(self).executed_systems@,
            },
            match outcome {
                SystemOutcome::DependencyFailure(e) | SystemOutcome::Failed(e) => {
                    &&& final(self).failed_systems@.len() == old(self).failed_systems@.len() + 1
                    &&& final(self).failed_systems@.drop_last() == old(self).failed_systems@
                    &&& final(self).failed_systems@.last().0 == system
                    &&& final(self).failed_systems@.last().1@ == error_message(e)
                },
                _ => final(self).failed_systems@ == old(self).failed_systems@,
            },
    {
        match outcome {
            SystemOutcome::Unhealthy => self.skipped_systems.push(system),
            SystemOutcome::OverBudget => self.budget_exceeded_systems.push(system),
            SystemOutcome::Executed(us) => self.executed_systems.push((system, us)),
            SystemOutcome::DependencyFailure(e) => {
                let text = e.to_string();
                self.failed_systems.push((system, text));
                assert(self.failed_systems@.drop_last() =~= old(self).failed_systems@);
            },
            SystemOutcome::Failed(e) => {
                let text = e.to_string();
                self.failed_systems.push((system, text));
                assert(self.failed_systems@.drop_last() =~= old(self).failed_systems@);
            },
        }
    }
}

/// What the coordinator does when a system fails: its health record takes the error
/// (error state, one more error, healthy while under five), an error event carrying
/// the error's text is made, and the system's recovery strategy is looked up.
pub fn handle_system_error(health: &mut SystemHealthRecord, error: &EngineError, timestamp_ms: u64) -> (r: (
    SystemEvent,
    RecoveryStrategy,
))
    requires
        old(health).error_count < u32::MAX,
    ensures
        final(health).system_id == old(health).system_id,
        final(health).state == SystemState::Error,
        final(health).error_count == old(health).error_count + 1,
        final(health).is_healthy == (final(health).error_count < MAX_HEALTHY_ERRORS),
        r.0.event_type matches SystemEventType::SystemError(s) && s == old(health).system_id,
        r.0.timestamp_ms == timestamp_ms,
        r.0.data matches Some(bytes) && exists|text: &str|
            text@ == error_message(*error) && bytes@ == text.spec_bytes(),
        r.1 == default_strategy(old(health).system_id),
{
    health.record_error();
    let event = system_error_event(health.system_id, error, timestamp_ms);
    let strategy = default_recovery_strategy(health.system_id);
    (event, strategy)
}

/// A system is let run only once every system it depends on has completed in the
/// frame (or when it has no registered dependencies).
pub proof fn lemma_ready_only_after_dependencies(
    deps: Option<&SystemDependencies>,
    progress: &FrameProgress,
    elapsed_ms: u64,
)
    requires
        wait_outcome(deps, progress, elapsed_ms) == DependencyWait::Ready,
    ensures
        deps matches Some(d) ==> forall|i: int|
            0 <= i < d.depends_on@.len() ==> progress.completed(#[trigger] d.depends_on@[i]),
{
}

/// A system whose error has been handled (`handle_system_error` leaves its record in
/// the error state) is not let run again, whatever its error count.
pub proof fn lemma_failed_system_not_run(record: SystemHealthRecord)
    requires
        record.state == SystemState::Error,
    ensures
        !healthy(Some(record)),
{
}

} // verus!
