//! Long-running game processes (crafting, building, growth, ...): their categories and
//! priorities, the per-process arrays, and the scheduler that orders them for execution.

use vstd::prelude::*;
use crate::instance::InstanceId;

verus! {

/// Maximum number of processes.
pub const MAX_PROCESSES: usize = 65536;

/// What kind of work a process does.
#[derive(Debug, Clone, Copy, PartialEq, Eq, Hash, Structural)]
pub enum ProcessCategory {
    Crafting,
    Building,
    Growth,
    Training,
    Research,
    Repair,
    Upgrade,
    Custom,
}

impl ProcessCategory {
    /// The category's byte code.
    pub fn code(self) -> (r: u8)
        ensures
            r == match self {
                ProcessCategory::Crafting => 0u8,
                ProcessCategory::Building => 1u8,
                ProcessCategory::Growth => 2u8,
                ProcessCategory::Training => 3u8,
                ProcessCategory::Research => 4u8,
                ProcessCategory::Repair => 5u8,
                ProcessCategory::Upgrade => 6u8,
                ProcessCategory::Custom => 255u8,
            },
    {
        match self {
            ProcessCategory::Crafting => 0,
            ProcessCategory::Building => 1,
            ProcessCategory::Growth => 2,
            ProcessCategory::Training => 3,
            ProcessCategory::Research => 4,
            ProcessCategory::Repair => 5,
            ProcessCategory::Upgrade => 6,
            ProcessCategory::Custom => 255,
        }
    }
}

/// Priority of a process, lowest first.
#[derive(Debug, Clone, Copy, PartialEq, Eq, PartialOrd, Ord, Hash, Structural)]
pub enum ProcessPriority {
    Low,
    Normal,
    High,
    Critical,
}

/// The level of a priority: 0 for `Low` up to 3 for `Critical`.
pub open spec fn priority_level(p: ProcessPriority) -> int {
    match p {
        ProcessPriority::Low => 0,
        ProcessPriority::Normal => 1,
        ProcessPriority::High => 2,
        ProcessPriority::Critical => 3,
    }
}

impl ProcessPriority {
    /// The priority of the given level, where there is one.
    pub fn from_level(level: u8) -> (r: Option<ProcessPriority>)
        ensures
            match r {
                Some(p) => priority_level(p) == level,
                None => level > 3,
            },
    {
        match level {
            0 => Some(ProcessPriority::Low),
            1 => Some(ProcessPriority::Normal),
            2 => Some(ProcessPriority::High),
            3 => Some(ProcessPriority::Critical),
            _ => None,
        }
    }

    /// The level of the priority.
    pub fn level(self) -> (r: u8)
        ensures
            r == priority_level(self),
    {
        match self {
            ProcessPriority::Low => 0,
            ProcessPriority::Normal => 1,
            ProcessPriority::High => 2,
            ProcessPriority::Critical => 3,
        }
    }
}

/// Quality of a process's result, lowest first.
#[derive(Debug, Clone, Copy, PartialEq, Eq, PartialOrd, Ord, Hash, Structural)]
pub enum QualityLevel {
    Poor,
    Normal,
    Good,
    Excellent,
    Perfect,
}

/// Where a process stands.
#[derive(Debug, Clone, Copy, PartialEq, Eq, Hash, Structural)]
pub enum ProcessStatus {
    Pending,
    Active,
    Paused,
    Completed,
    Failed,
    Cancelled,
}

/// Identifier of a process.
#[derive(Debug, Clone, Copy, PartialEq, Eq, Hash, Structural)]
pub struct ProcessId(pub u64);

/// `rand::random::<u64>()`: a random number; nothing is claimed of it.
#[verifier::external_body]
pub(crate) fn random_u64() -> u64 {
    rand::random::<u64>()
}

impl ProcessId {
    /// A fresh random identifier.
    pub fn new() -> ProcessId {
        ProcessId(random_u64())
    }
}

/// Kind of a process, by the game's numbering.
#[derive(Debug, Clone, Copy, PartialEq, Eq, Hash, Structural)]
pub struct ProcessType(pub u32);

impl Default for ProcessType {
    fn default() -> (r: Self)
        ensures
            r == ProcessType(0),
    {
        ProcessType(0)
    }
}

/// The processes, one entry per process in each array.
pub struct ProcessData {
    pub ids: Vec<ProcessId>,
    pub types: Vec<ProcessType>,
    pub owners: Vec<InstanceId>,
    pub status: Vec<ProcessStatus>,
    pub priority: Vec<ProcessPriority>,
    pub active: Vec<bool>,
    pub durations: Vec<u64>,
    pub elapsed: Vec<u64>,
}

impl ProcessData {
    /// The arrays have one entry per process.
    pub open spec fn wf(&self) -> bool {
        &&& self.types@.len() == self.ids@.len()
        &&& self.owners@.len() == self.ids@.len()
        &&& self.status@.len() == self.ids@.len()
        &&& self.priority@.len() == self.ids@.len()
        &&& self.active@.len() == self.ids@.len()
        &&& self.durations@.len() == self.ids@.len()
        &&& self.elapsed@.len() == self.ids@.len()
    }

    /// No processes.
    pub fn new() -> (r: ProcessData)
        ensures
            r.wf(),
            r.ids@.len() == 0,
    {
        ProcessData {
            ids: Vec::new(),
            types: Vec::new(),
            owners: Vec::new(),
            status: Vec::new(),
            priority: Vec::new(),
            active: Vec::new(),
            durations: Vec::new(),
            elapsed: Vec::new(),
        }
    }

    /// Number of processes.
    pub fn len(&self) -> (r: usize)
        ensures
            r == self.ids@.len(),
    {
        self.ids.len()
    }

    /// Adds a pending, active process of normal priority lasting `duration_ticks` and
    /// returns its index.
    pub fn add(
        &mut self,
        id: ProcessId,
        process_type: ProcessType,
        owner: InstanceId,
        duration_ticks: u64,
    ) -> (r: usize)
        requires
            old(self).wf(),
        ensures
            final(self).wf(),
            r == old(self).ids@.len(),
            final(self).ids@ == old(self).ids@.push(id),
            final(self).types@ == old(self).types@.push(process_type),
            final(self).owners@ == old(self).owners@.push(owner),
            final(self).status@ == old(self).status@.push(ProcessStatus::Pending),
            final(self).priority@ == old(self).priority@.push(ProcessPriority::Normal),
            final(self).active@ == old(self).active@.push(true),
            final(self).durations@ == old(self).durations@.push(duration_ticks),
            final(self).elapsed@ == old(self).elapsed@.push(0),
    {
        let index = self.ids.len();
        self.ids.push(id);
        self.types.push(process_type);
        self.owners.push(owner);
        self.status.push(ProcessStatus::Pending);
        self.priority.push(ProcessPriority::Normal);
        self.active.push(true);
        self.durations.push(duration_ticks);
        self.elapsed.push(0);
        index
    }

    /// The index of the process `id`, where there is one.
    pub fn find_index(&self, id: ProcessId) -> (r: Option<usize>)
        ensures
            match r {
                Some(i) => i < self.ids@.len() && self.ids@[i as int] == id && forall|j: int|
                    0 <= j < i ==> self.ids@[j] != id,
                None => forall|j: int| 0 <= j < self.ids@.len() ==> self.ids@[j] != id,
            },
    {
        let mut i: usize = 0;
        while i < self.ids.len()
            invariant
                i <= self.ids@.len(),
                forall|j: int| 0 <= j < i ==> self.ids@[j] != id,
            decreases self.ids@.len() - i,
        {
            if self.ids[i] == id {
                return Some(i);
            }
            i += 1;
        }
        None
    }
}

/// Whether process `i` is ready to run at priority level `level`: its entries exist, it is
/// active, its status is `Active` and its priority has that level.
pub open spec fn ready_at(data: &ProcessData, i: int, level: int) -> bool {
    &&& i < data.active@.len() && i < data.status@.len() && i < data.priority@.len()
    &&& data.active@[i]
    &&& data.status@[i] == ProcessStatus::Active
    &&& priority_level(data.priority@[i]) == level
}

/// The processes among the first `k` that are ready at `level`, in index order.
pub open spec fn ready_processes(data: &ProcessData, level: int, k: int) -> Seq<usize>
    decreases k,
{
    if k <= 0 {
        Seq::empty()
    } else if ready_at(data, k - 1, level) {
        ready_processes(data, level, k - 1).push((k - 1) as usize)
    } else {
        ready_processes(data, level, k - 1)
    }
}

/// The execution order: the ready processes, highest priority first, by index within a
/// priority.
pub open spec fn schedule_order(data: &ProcessData) -> Seq<usize> {
    let n = data.ids@.len() as int;
    ready_processes(data, 3, n) + ready_processes(data, 2, n) + ready_processes(data, 1, n)
        + ready_processes(data, 0, n)
}

/// Orders the processes that are ready to run by priority.
pub struct ProcessScheduler {
    pub low: Vec<usize>,
    pub normal: Vec<usize>,
    pub high: Vec<usize>,
    pub critical: Vec<usize>,
}

impl ProcessScheduler {
    /// A scheduler with empty queues.
    pub fn new() -> (r: ProcessScheduler)
        ensures
            r.low@.len() == 0 && r.normal@.len() == 0 && r.high@.len() == 0 && r.critical@.len()
                == 0,
    {
        ProcessScheduler { low: Vec::new(), normal: Vec::new(), high: Vec::new(), critical: Vec::new() }
    }

    /// The ready processes in execution order: highest priority first, by index within a
    /// priority. The queues keep the processes of each priority.
    pub fn schedule(&mut self, data: &ProcessData) -> (r: Vec<usize>)
        ensures
            r@ == schedule_order(data),
            final(self).critical@ == ready_processes(data, 3, data.ids@.len() as int),
            final(self).high@ == ready_processes(data, 2, data.ids@.len() as int),
            final(self).normal@ == ready_processes(data, 1, data.ids@.len() as int),
            final(self).low@ == ready_processes(data, 0, data.ids@.len() as int),
    {
        self.low.clear();
        self.normal.clear();
        self.high.clear();
        self.critical.clear();
        let n = data.len();
        let mut i: usize = 0;
        while i < n
            invariant
                n == data.ids@.len(),
                i <= n,
                self.critical@ == ready_processes(data, 3, i as int),
                self.high@ == ready_processes(data, 2, i as int),
                self.normal@ == ready_processes(data, 1, i as int),
                self.low@ == ready_processes(data, 0, i as int),
            decreases n - i,
        {
            if i < data.active.len() && i < data.status.len() && i < data.priority.len() {
                if data.active[i] && data.status[i] == ProcessStatus::Active {
                    match data.priority[i] {
                        ProcessPriority::Low => self.low.push(i),
                        ProcessPriority::Normal => self.normal.push(i),
                        ProcessPriority::High => self.high.push(i),
                        ProcessPriority::Critical => self.critical.push(i),
                    }
                }
            }
            i += 1;
        }
        let mut order: Vec<usize> = Vec::new();
        let mut q = self.critical.clone();
        order.append(&mut q);
        let mut q = self.high.clone();
        order.append(&mut q);
        let mut q = self.normal.clone();
        order.append(&mut q);
        let mut q = self.low.clone();
        order.append(&mut q);
        order
    }
}

/// Data of the parallel process runner.
pub struct ParallelProcessorData;

/// A batch of processes to advance together; `F` is the scalar of elapsed time.
pub struct ProcessBatch<F> {
    pub indices: Vec<usize>,
    pub delta_ticks: Vec<F>,
}

/// Runs processes in parallel; there is nothing to run yet.
pub fn process_parallel() {
}

/// Data for the parallel process runner; making it always succeeds.
pub fn create_parallel_processor_data() -> (r: Result<ParallelProcessorData, String>)
    ensures
        r is Ok,
{
    Ok(ParallelProcessorData)
}

/// Hands a batch of processes to the GPU workers; the batch leaves the processes and state
/// machines as they are.
pub fn submit_process_batch_to_gpu<S, F>(
    parallel_data: &mut ParallelProcessorData,
    thread_pool: &crate::thread_pool::GpuThreadPoolData,
    processes: &mut ProcessData,
    state_machines: &mut Vec<S>,
    batch: ProcessBatch<F>,
)
    ensures
        *final(parallel_data) == *old(parallel_data),
        *final(processes) == *old(processes),
        final(state_machines)@ == old(state_machines)@,
{
}

/// Validates transform stages.
pub struct StageValidator;

/// Data of the transform stages.
pub struct TransformStageData;

/// What a stage produces.
#[derive(Debug, Clone, Copy, PartialEq, Eq, Structural)]
pub enum OutputType {
    Primary,
    Secondary,
    Item(u32),
}

/// An output of a stage.
pub struct StageOutput;

/// A requirement of a stage.
pub struct StageRequirement;

/// What a stage is validated against.
pub struct ValidationContext;

/// Outcome of validating a stage.
#[derive(Debug, Clone, Copy, PartialEq, Eq, Structural)]
pub enum ValidationResult {
    Valid,
    Invalid,
}

/// An item a stage needs.
pub struct ItemRequirement;

/// A tool a stage needs.
pub struct ToolRequirement;

/// Surroundings a stage needs.
pub struct EnvironmentRequirement;

/// Weather.
#[derive(Debug, Clone, Copy, PartialEq, Eq, Structural)]
pub enum WeatherType {
    Clear,
    Rain,
    Snow,
}

/// Data of the visual indicators of processes.
pub struct VisualIndicatorsData;

/// The visual state of a process.
pub struct ProcessVisual;

impl ProcessVisual {
    /// The visual of a new process.
    pub fn default() -> ProcessVisual {
        ProcessVisual
    }
}

/// A progress bar.
pub struct ProgressBar;

/// A status icon.
pub struct StatusIcon;

/// Colour of a progress bar.
#[derive(Debug, Clone, Copy, PartialEq, Eq, Structural)]
pub enum ProgressColor {
    Green,
    Yellow,
    Red,
}

/// Animation of a progress bar.
#[derive(Debug, Clone, Copy, PartialEq, Eq, Structural)]
pub enum BarAnimation {
    /// No animation.
    Steady,
    Pulse,
}

/// A text shown over a process.
pub struct TextOverlay;

/// Where a text overlay stands.
#[derive(Debug, Clone, Copy, PartialEq, Eq, Structural)]
pub enum TextPosition {
    Top,
    Bottom,
}

/// Style of a text overlay.
pub struct TextStyle;

/// A particle effect of a process.
pub struct ParticleEffect;

/// Kind of particles.
#[derive(Debug, Clone, Copy, PartialEq, Eq, Structural)]
pub enum ParticleType {
    Smoke,
    Sparkle,
}

/// Animation state of a visual.
#[derive(Debug, Clone, Copy, PartialEq, Eq, Structural)]
pub enum AnimationState {
    Idle,
    Active,
    Complete,
}

/// The processes ready at `level` among the first `k` are exactly those ready at that level,
/// in increasing order.
proof fn lemma_ready_members(data: &ProcessData, level: int, k: int)
    requires
        0 <= k <= usize::MAX,
    ensures
        forall|j: int|
            0 <= j < ready_processes(data, level, k).len() ==> ready_at(
                data,
                #[trigger] ready_processes(data, level, k)[j] as int,
                level,
            ) && (ready_processes(data, level, k)[j] as int) < k,
        forall|i: int|
            0 <= i < k && ready_at(data, i, level) ==> ready_processes(data, level, k).contains(
                i as usize,
            ),
    decreases k,
{
    if k > 0 {
        lemma_ready_members(data, level, k - 1);
        let prev = ready_processes(data, level, k - 1);
        if ready_at(data, k - 1, level) {
            let now = prev.push((k - 1) as usize);
            assert forall|j: int| 0 <= j < now.len() implies ready_at(
                data,
                #[trigger] now[j] as int,
                level,
            ) && (now[j] as int) < k by {
                if j < prev.len() {
                    assert(now[j] == prev[j]);
                }
            }
            assert forall|i: int| 0 <= i < k && ready_at(data, i, level) implies now.contains(
                i as usize,
            ) by {
                if i < k - 1 {
                    let j = choose|j: int| 0 <= j < prev.len() && prev[j] == i as usize;
                    assert(now[j] == prev[j]);
                } else {
                    assert(now[prev.len() as int] == (k - 1) as usize);
                }
            }
        }
    }
}

/// The scheduler runs exactly the running processes: every process it lists is active and
/// has status `Active` (so a pending, paused, finished, failed or cancelled process is
/// never run), each is listed once, and every active process with status `Active` is
/// listed.
pub proof fn lemma_schedule_runs_exactly_running(data: &ProcessData)
    ensures
        forall|j: int|
            0 <= j < schedule_order(data).len() ==> {
                let p = #[trigger] schedule_order(data)[j] as int;
                &&& 0 <= p < data.status@.len()
                &&& 0 <= p < data.active@.len()
                &&& data.status@[p] == ProcessStatus::Active
                &&& data.active@[p]
            },
        forall|p: int|
            0 <= p < data.ids@.len() && 0 <= p < data.status@.len() && data.status@[p]
                != ProcessStatus::Active ==> !schedule_order(data).contains(p as usize),
        forall|p: int|
            0 <= p < data.ids@.len() && 0 <= p < data.active@.len() && 0 <= p < data.status@.len()
                && 0 <= p < data.priority@.len() && data.active@[p] && data.status@[p]
                == ProcessStatus::Active ==> schedule_order(data).contains(p as usize),
{
    lemma_schedule_by_priority(data);
    assert(data.ids@.len() == data.ids.len());
    let s = schedule_order(data);
    assert forall|p: int|
        0 <= p < data.ids@.len() && 0 <= p < data.active@.len() && 0 <= p < data.status@.len()
            && 0 <= p < data.priority@.len() && data.active@[p] && data.status@[p]
            == ProcessStatus::Active implies s.contains(p as usize) by {
        assert(ready_at(data, p, priority_level(data.priority@[p])));
    }
    assert forall|j: int| 0 <= j < s.len() implies {
        let p = #[trigger] s[j] as int;
        &&& 0 <= p < data.status@.len()
        &&& 0 <= p < data.active@.len()
        &&& data.status@[p] == ProcessStatus::Active
        &&& data.active@[p]
    } by {
        let p = s[j] as int;
        assert(ready_at(data, p, priority_level(data.priority@[p])));
    }
    assert forall|p: int|
        0 <= p < data.ids@.len() && 0 <= p < data.status@.len() && data.status@[p]
            != ProcessStatus::Active implies !s.contains(p as usize) by {
        if s.contains(p as usize) {
            let j = choose|j: int| 0 <= j < s.len() && s[j] == p as usize;
            assert(s[j] as int == p);
            assert(ready_at(data, s[j] as int, priority_level(data.priority@[s[j] as int])));
        }
    }
}

/// The scheduler runs exactly the ready processes, each with the priority it is listed
/// under, and never a process before one of higher priority.
pub proof fn lemma_schedule_by_priority(data: &ProcessData)
    ensures
        forall|i: int, j: int|
            0 <= i < j < schedule_order(data).len() ==> priority_level(
                data.priority@[schedule_order(data)[i] as int],
            ) >= priority_level(data.priority@[schedule_order(data)[j] as int]),
        forall|j: int|
            0 <= j < schedule_order(data).len() ==> {
                let p = #[trigger] schedule_order(data)[j] as int;
                ready_at(data, p, priority_level(data.priority@[p]))
            },
        forall|p: int|
            0 <= p < data.ids@.len() && 0 <= p < data.priority@.len() && ready_at(
                data,
                p,
                priority_level(data.priority@[p]),
            ) ==> schedule_order(data).contains(p as usize),
{
    let n = data.ids@.len() as int;
    assert(n == data.ids.len());
    lemma_ready_members(data, 3, n);
    lemma_ready_members(data, 2, n);
    lemma_ready_members(data, 1, n);
    lemma_ready_members(data, 0, n);
    let r3 = ready_processes(data, 3, n);
    let r2 = ready_processes(data, 2, n);
    let r1 = ready_processes(data, 1, n);
    let r0 = ready_processes(data, 0, n);
    let all = schedule_order(data);
    assert(all == r3 + r2 + r1 + r0);
    assert forall|j: int| 0 <= j < all.len() implies {
        let p = #[trigger] all[j] as int;
        ready_at(data, p, priority_level(data.priority@[p])) && priority_level(
            data.priority@[p],
        ) == if j < r3.len() {
            3int
        } else if j < r3.len() + r2.len() {
            2int
        } else if j < r3.len() + r2.len() + r1.len() {
            1int
        } else {
            0int
        }
    } by {
        if j < r3.len() {
            assert(all[j] == r3[j]);
        } else if j < r3.len() + r2.len() {
            assert(all[j] == r2[j - r3.len()]);
        } else if j < r3.len() + r2.len() + r1.len() {
            assert(all[j] == r1[j - r3.len() - r2.len()]);
        } else {
            assert(all[j] == r0[j - r3.len() - r2.len() - r1.len()]);
        }
    }
    assert forall|p: int|
        0 <= p < data.ids@.len() && 0 <= p < data.priority@.len() && ready_at(
            data,
            p,
            priority_level(data.priority@[p]),
        ) implies all.contains(p as usize) by {
        let lv = priority_level(data.priority@[p]);
        if lv == 3 {
            let j = choose|j: int| 0 <= j < r3.len() && r3[j] == p as usize;
            assert(all[j] == r3[j]);
        } else if lv == 2 {
            let j = choose|j: int| 0 <= j < r2.len() && r2[j] == p as usize;
            assert(all[r3.len() + j] == r2[j]);
        } else if lv == 1 {
            let j = choose|j: int| 0 <= j < r1.len() && r1[j] == p as usize;
            assert(all[r3.len() + r2.len() + j] == r1[j]);
        } else {
            let j = choose|j: int| 0 <= j < r0.len() && r0[j] == p as usize;
            assert(all[r3.len() + r2.len() + r1.len() + j] == r0[j]);
        }
    }
}

} // verus!
