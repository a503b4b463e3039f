//! The optional game event queue: events, commands and messages that a
//! game hands to the engine, with bounded queueing and metrics.
//!
//! The queue state lives in an `Option<GameGatewayData>` slot owned by the
//! caller (`None` until the gateway is initialized); every operation takes
//! that slot.
//!
//! Each operation that changes the slot states its effect as one `gateway_step`; a
//! sequence of calls is a run (`is_run`). Over any run: the gateway is initialized exactly
//! after an initialization with no later shutdown (`lemma_initialized_after_run`); the
//! active block, configuration and messages are those the last calls left
//! (`lemma_active_block_after_run`, `lemma_config_after_run`, `lemma_messages_after_run`);
//! any number of posted messages drain in posting order, and a second drain gives nothing
//! (`lemma_drain_after_posts`); and without a configuration update the event queue stays
//! within its bound in every state (`lemma_queue_bounded_in_run`).

use vstd::prelude::*;
use std::collections::VecDeque;
use crate::world_types::{BlockId, VoxelPos};

verus! {

/// Game command - instructions from game to engine.
#[derive(Debug)]
pub enum GameCommand {
    LoadChunk { position: VoxelPos },
    UnloadChunk { position: VoxelPos },
    SaveWorld { path: String },
    LoadWorld { path: String },
    UpdateSettings { setting_name: String, value: String },
    Shutdown,
}

/// Block interaction types.
#[derive(Clone, Copy, Debug, PartialEq, Eq, Structural)]
pub enum InteractionType {
    LeftClick,
    RightClick,
    MiddleClick,
    Use,
    Activate,
}

/// Message types for game communication.
#[derive(Debug)]
pub enum MessageType {
    Info(String),
    Warning(String),
    Error(String),
    Success(String),
    Debug(String),
}

/// World info view for game read access.
#[derive(Clone, Copy, Debug)]
pub struct WorldInfoView {
    pub loaded_chunks: usize,
    pub active_entities: usize,
    pub world_seed: u32,
}

/// Gateway configuration.
#[derive(Clone, Copy, Debug)]
pub struct GatewayConfig {
    /// Maximum events in queue before dropping.
    pub max_queue_size: usize,
    /// Process events every N frames.
    pub process_interval: u32,
    /// Enable debug logging.
    pub debug_logging: bool,
    /// Enable event recording for replay.
    pub record_events: bool,
}

impl Default for GatewayConfig {
    fn default() -> (r: Self)
        ensures
            r.max_queue_size == 10000,
            r.process_interval == 1,
            !r.debug_logging,
            !r.record_events,
    {
        GatewayConfig { max_queue_size: 10000, process_interval: 1, debug_logging: false, record_events: false }
    }
}

/// Gateway counters for monitoring.
#[derive(Clone, Copy, Debug)]
pub struct GatewayMetrics {
    /// Total events processed.
    pub events_processed: u64,
    /// Total commands executed.
    pub commands_executed: u64,
    /// Events dropped because the queue was full.
    pub events_dropped: u64,
    /// Peak queue size.
    pub peak_queue_size: usize,
}

impl GatewayMetrics {
    /// All counters at zero.
    pub open spec fn zero_spec() -> GatewayMetrics {
        GatewayMetrics { events_processed: 0, commands_executed: 0, events_dropped: 0, peak_queue_size: 0 }
    }

    /// All counters at zero.
    pub fn zero() -> (r: Self)
        ensures
            r == Self::zero_spec(),
    {
        GatewayMetrics { events_processed: 0, commands_executed: 0, events_dropped: 0, peak_queue_size: 0 }
    }
}

/// Gateway state: the queues, configuration and counters. `E` is the
/// type of game events and `B` the type of block registrations.
pub struct GameGatewayData<E, B> {
    /// Pending events to process.
    pub pending_events: VecDeque<E>,
    /// Pending commands to execute.
    pub pending_commands: VecDeque<GameCommand>,
    /// Messages to display.
    pub messages: VecDeque<MessageType>,
    /// Gateway configuration.
    pub config: GatewayConfig,
    /// Gateway metrics.
    pub metrics: GatewayMetrics,
    /// Is gateway initialized.
    pub initialized: bool,
    /// Active block for placement.
    pub active_block: BlockId,
    /// Registered blocks.
    pub registered_blocks: Vec<B>,
}

/// A fresh gateway: empty queues, default configuration, zero counters,
/// not marked initialized, the first block active.
pub open spec fn is_fresh<E, B>(g: GameGatewayData<E, B>) -> bool {
    &&& g.pending_events@.len() == 0
    &&& g.pending_commands@.len() == 0
    &&& g.messages@.len() == 0
    &&& g.config.max_queue_size == 10000
    &&& g.config.process_interval == 1
    &&& !g.config.debug_logging
    &&& !g.config.record_events
    &&& g.metrics == GatewayMetrics::zero_spec()
    &&& !g.initialized
    &&& g.active_block == BlockId(1)
    &&& g.registered_blocks@.len() == 0
}

impl<E, B> GameGatewayData<E, B> {
    /// A fresh gateway.
    pub fn new_default() -> (r: Self)
        ensures
            is_fresh(r),
    {
        GameGatewayData {
            pending_events: VecDeque::new(),
            pending_commands: VecDeque::new(),
            messages: VecDeque::new(),
            config: GatewayConfig::default(),
            metrics: GatewayMetrics::zero(),
            initialized: false,
            active_block: BlockId(1),
            registered_blocks: Vec::new(),
        }
    }
}

/// `a` and `b` agree on everything but the event queue and the counters.
pub open spec fn same_besides_events_and_metrics<E, B>(a: GameGatewayData<E, B>, b: GameGatewayData<E, B>) -> bool {
    &&& a.pending_commands@ == b.pending_commands@
    &&& a.messages@ == b.messages@
    &&& a.config == b.config
    &&& a.initialized == b.initialized
    &&& a.active_block == b.active_block
    &&& a.registered_blocks@ == b.registered_blocks@
}

/// `g` is a gateway just initialized with `config`: marked initialized, empty queues,
/// zero counters, the first block active, no block registered.
pub open spec fn configured<E, B>(g: GameGatewayData<E, B>, config: GatewayConfig) -> bool {
    &&& g.config == config
    &&& g.initialized
    &&& g.pending_events@.len() == 0
    &&& g.pending_commands@.len() == 0
    &&& g.messages@.len() == 0
    &&& g.metrics == GatewayMetrics::zero_spec()
    &&& g.active_block == BlockId(1)
    &&& g.registered_blocks@.len() == 0
}

/// `a` and `b` agree on everything but the messages.
pub open spec fn same_besides_messages<E, B>(a: GameGatewayData<E, B>, b: GameGatewayData<E, B>) -> bool {
    &&& a.config == b.config
    &&& a.metrics == b.metrics
    &&& a.active_block == b.active_block
    &&& a.registered_blocks@ == b.registered_blocks@
    &&& a.pending_events@ == b.pending_events@
    &&& a.pending_commands@ == b.pending_commands@
    &&& a.initialized == b.initialized
}

/// An operation on the gateway slot, with its arguments.
pub enum GatewayOp<E, B> {
    Init,
    InitWithConfig(GatewayConfig),
    Shutdown,
    QueueEvent(E),
    QueueEvents(Seq<E>),
    ProcessUpdate,
    AddBlockRegistration(B),
    SetActiveBlock(BlockId),
    ResetMetrics,
    UpdateConfig(GatewayConfig),
    PostMessage(MessageType),
    DrainMessages,
}

/// What operation `op` does to a gateway `g0`, giving `g`.
pub open spec fn op_effect<E, B>(op: GatewayOp<E, B>, g0: GameGatewayData<E, B>, g: GameGatewayData<E, B>) -> bool {
    match op {
        GatewayOp::QueueEvent(e) => queued_one(g0, g, e),
        GatewayOp::QueueEvents(es) => queued_many(g0, g, es),
        GatewayOp::ProcessUpdate => updated(g0, g),
        GatewayOp::AddBlockRegistration(reg) => {
            &&& g.registered_blocks@ == g0.registered_blocks@.push(reg)
            &&& g.pending_events@ == g0.pending_events@
            &&& g.pending_commands@ == g0.pending_commands@
            &&& g.messages@ == g0.messages@
            &&& g.config == g0.config
            &&& g.metrics == g0.metrics
            &&& g.initialized == g0.initialized
            &&& g.active_block == g0.active_block
        },
        GatewayOp::SetActiveBlock(b) => {
            &&& g.active_block == b
            &&& g.registered_blocks@ == g0.registered_blocks@
            &&& g.pending_events@ == g0.pending_events@
            &&& g.pending_commands@ == g0.pending_commands@
            &&& g.messages@ == g0.messages@
            &&& g.config == g0.config
            &&& g.metrics == g0.metrics
            &&& g.initialized == g0.initialized
        },
        GatewayOp::ResetMetrics => {
            &&& g.metrics == GatewayMetrics::zero_spec()
            &&& g.active_block == g0.active_block
            &&& g.registered_blocks@ == g0.registered_blocks@
            &&& g.pending_events@ == g0.pending_events@
            &&& g.pending_commands@ == g0.pending_commands@
            &&& g.messages@ == g0.messages@
            &&& g.config == g0.config
            &&& g.initialized == g0.initialized
        },
        GatewayOp::UpdateConfig(c) => {
            &&& g.config == c
            &&& g.metrics == g0.metrics
            &&& g.active_block == g0.active_block
            &&& g.registered_blocks@ == g0.registered_blocks@
            &&& g.pending_events@ == g0.pending_events@
            &&& g.pending_commands@ == g0.pending_commands@
            &&& g.messages@ == g0.messages@
            &&& g.initialized == g0.initialized
        },
        GatewayOp::PostMessage(m) => g.messages@ == g0.messages@.push(m) && same_besides_messages(g0, g),
        GatewayOp::DrainMessages => g.messages@.len() == 0 && same_besides_messages(g0, g),
        _ => true,
    }
}

/// The slot goes from `a` to `b` by operation `op`: the initializations and the shutdown
/// set the slot; every other operation leaves an empty slot empty and changes a gateway
/// as `op_effect` says.
pub open spec fn gateway_step<E, B>(
    op: GatewayOp<E, B>,
    a: Option<GameGatewayData<E, B>>,
    b: Option<GameGatewayData<E, B>>,
) -> bool {
    match op {
        GatewayOp::Init => b matches Some(g) && is_fresh(g),
        GatewayOp::InitWithConfig(c) => b matches Some(g) && configured(g, c),
        GatewayOp::Shutdown => b is None,
        _ => {
            &&& a is None ==> b is None
            &&& a matches Some(g0) ==> b matches Some(g) && op_effect(op, g0, g)
        },
    }
}

/// Initializes the gateway with the default configuration. The gateway
/// holds fresh state (its `initialized` flag stays unset).
pub fn init_gateway<E, B>(gateway: &mut Option<GameGatewayData<E, B>>)
    ensures
        *final(gateway) matches Some(g) && is_fresh(g),
        gateway_step(GatewayOp::Init, *old(gateway), *final(gateway)),
{
    *gateway = Some(GameGatewayData::new_default());
}

/// Initializes the gateway with `config` and marks it initialized.
pub fn init_gateway_with_config<E, B>(gateway: &mut Option<GameGatewayData<E, B>>, config: GatewayConfig)
    ensures
        *final(gateway) matches Some(g) && configured(g, config),
        gateway_step(GatewayOp::InitWithConfig(config), *old(gateway), *final(gateway)),
{
    let mut g: GameGatewayData<E, B> = GameGatewayData::new_default();
    g.config = config;
    g.initialized = true;
    *gateway = Some(g);
}

/// Shuts the gateway down and clears all its state.
pub fn shutdown_gateway<E, B>(gateway: &mut Option<GameGatewayData<E, B>>)
    ensures
        *final(gateway) is None,
        gateway_step(GatewayOp::<E, B>::Shutdown, *old(gateway), *final(gateway)),
{
    *gateway = None;
}

/// Whether the gateway holds state.
pub fn is_gateway_initialized<E, B>(gateway: &Option<GameGatewayData<E, B>>) -> (r: bool)
    ensures
        r == gateway is Some,
{
    gateway.is_some()
}

/// `g` is `g0` after `event` was offered to its queue: a full queue drops it and counts the
/// drop; otherwise it is appended and the peak size follows the new length. Commands,
/// messages, configuration, flags, active block, registered blocks and the other counters
/// stay as they were.
pub open spec fn queued_one<E, B>(g0: GameGatewayData<E, B>, g: GameGatewayData<E, B>, event: E) -> bool {
    &&& same_besides_events_and_metrics(g0, g)
    &&& g.metrics.events_processed == g0.metrics.events_processed
    &&& g.metrics.commands_executed == g0.metrics.commands_executed
    &&& if g0.pending_events@.len() >= g0.config.max_queue_size {
        &&& g.pending_events@ == g0.pending_events@
        &&& g.metrics.events_dropped == g0.metrics.events_dropped + 1
        &&& g.metrics.peak_queue_size == g0.metrics.peak_queue_size
    } else {
        &&& g.pending_events@ == g0.pending_events@.push(event)
        &&& g.metrics.events_dropped == g0.metrics.events_dropped
        &&& g.metrics.peak_queue_size == if g.pending_events@.len() > g0.metrics.peak_queue_size {
            g.pending_events@.len() as int
        } else {
            g0.metrics.peak_queue_size as int
        }
    }
}

/// Queues one event. A full queue drops the event and counts the drop;
/// otherwise the event goes to the back and the peak size is updated.
/// Without a gateway nothing happens.
pub fn queue_event<E, B>(gateway: &mut Option<GameGatewayData<E, B>>, event: E)
    requires
        *old(gateway) matches Some(g) ==> g.metrics.events_dropped < u64::MAX,
    ensures
        *old(gateway) is None ==> *final(gateway) is None,
        *old(gateway) matches Some(g0) ==> *final(gateway) matches Some(g) && queued_one(g0, g, event),
        gateway_step(GatewayOp::QueueEvent(event), *old(gateway), *final(gateway)),
{
    if let Some(g) = gateway {
        if g.pending_events.len() >= g.config.max_queue_size {
            g.metrics.events_dropped = g.metrics.events_dropped + 1;
            return;
        }
        g.pending_events.push_back(event);
        if g.pending_events.len() > g.metrics.peak_queue_size {
            g.metrics.peak_queue_size = g.pending_events.len();
        }
    }
}

/// How many of `n` offered events fit into a queue of length `len`
/// bounded by `max`.
pub open spec fn accepted_count(len: int, max: int, n: int) -> int {
    if len >= max { 0 } else if n <= max - len { n } else { max - len }
}

/// `g` is `g0` after `events` were offered in order: the ones that fit are appended and the
/// rest dropped and counted; the peak size follows the new length; the rest stays.
pub open spec fn queued_many<E, B>(g0: GameGatewayData<E, B>, g: GameGatewayData<E, B>, events: Seq<E>) -> bool {
    let k = accepted_count(g0.pending_events@.len() as int, g0.config.max_queue_size as int, events.len() as int);
    &&& same_besides_events_and_metrics(g0, g)
    &&& g.metrics.events_processed == g0.metrics.events_processed
    &&& g.metrics.commands_executed == g0.metrics.commands_executed
    &&& g.pending_events@ == g0.pending_events@ + events.take(k)
    &&& g.metrics.events_dropped == g0.metrics.events_dropped + (events.len() - k)
    &&& g.metrics.peak_queue_size == if g.pending_events@.len() > g0.metrics.peak_queue_size {
        g.pending_events@.len() as int
    } else {
        g0.metrics.peak_queue_size as int
    }
}

/// `g` is `g0` after an update: both queues emptied and counted as processed; the rest
/// stays.
pub open spec fn updated<E, B>(g0: GameGatewayData<E, B>, g: GameGatewayData<E, B>) -> bool {
    &&& g.pending_events@.len() == 0
    &&& g.pending_commands@.len() == 0
    &&& g.messages@ == g0.messages@
    &&& g.config == g0.config
    &&& g.initialized == g0.initialized
    &&& g.active_block == g0.active_block
    &&& g.registered_blocks@ == g0.registered_blocks@
    &&& g.metrics.events_processed == g0.metrics.events_processed + g0.pending_events@.len()
    &&& g.metrics.commands_executed == g0.metrics.commands_executed + g0.pending_commands@.len()
    &&& g.metrics.events_dropped == g0.metrics.events_dropped
    &&& g.metrics.peak_queue_size == g0.metrics.peak_queue_size
}

/// Queues several events in order. Events that arrive while the queue
/// is full are dropped and counted; the peak size is updated once at the
/// end. Without a gateway nothing happens.
pub fn queue_events<E, B>(gateway: &mut Option<GameGatewayData<E, B>>, events: Vec<E>)
    requires
        *old(gateway) matches Some(g) ==> g.metrics.events_dropped + events@.len() <= u64::MAX,
    ensures
        *old(gateway) is None ==> *final(gateway) is None,
        *old(gateway) matches Some(g0) ==> *final(gateway) matches Some(g) && queued_many(g0, g, events@),
        gateway_step(GatewayOp::QueueEvents(events@), *old(gateway), *final(gateway)),
{
    if let Some(g) = gateway {
        let ghost g0_events = g.pending_events@;
        let ghost dropped0 = g.metrics.events_dropped;
        let ghost all = events@;
        let ghost max = g.config.max_queue_size as int;
        let ghost gs = *g;
        for event in it: events.into_iter()
            invariant
                it.seq() == all,
                same_besides_events_and_metrics(gs, *g),
                g.metrics.events_processed == gs.metrics.events_processed,
                g.metrics.commands_executed == gs.metrics.commands_executed,
                g.metrics.peak_queue_size == gs.metrics.peak_queue_size,
                g.config.max_queue_size == max,
                dropped0 + all.len() <= u64::MAX,
                g.pending_events@ == g0_events + all.take(
                    accepted_count(g0_events.len() as int, max, it.index() as int),
                ),
                g.metrics.events_dropped == dropped0 + (it.index() - accepted_count(
                    g0_events.len() as int, max, it.index() as int)),
        {
            if g.pending_events.len() >= g.config.max_queue_size {
                g.metrics.events_dropped = g.metrics.events_dropped + 1;
            } else {
                g.pending_events.push_back(event);
            }
        }
        if g.pending_events.len() > g.metrics.peak_queue_size {
            g.metrics.peak_queue_size = g.pending_events.len();
        }
    }
}

/// Processes every pending event, then every pending command, counting
/// them, and returns how many events were pending. Without a gateway
/// nothing happens and 0 is returned.
pub fn process_update<E, B>(gateway: &mut Option<GameGatewayData<E, B>>) -> (r: usize)
    requires
        *old(gateway) matches Some(g) ==> {
            &&& g.metrics.events_processed + g.pending_events@.len() <= u64::MAX
            &&& g.metrics.commands_executed + g.pending_commands@.len() <= u64::MAX
        },
    ensures
        *old(gateway) is None ==> *final(gateway) is None && r == 0,
        *old(gateway) matches Some(g0) ==> *final(gateway) matches Some(g) && r == g0.pending_events@.len()
            && updated(g0, g),
        gateway_step(GatewayOp::ProcessUpdate, *old(gateway), *final(gateway)),
{
    match gateway {
        Some(g) => {
            let ghost gs = *g;
            let event_count = g.pending_events.len();
            while g.pending_events.len() > 0
                invariant
                    g.messages@ == gs.messages@,
                    g.pending_commands@ == gs.pending_commands@,
                    g.config == gs.config,
                    g.initialized == gs.initialized,
                    g.active_block == gs.active_block,
                    g.registered_blocks@ == gs.registered_blocks@,
                    g.metrics.commands_executed == gs.metrics.commands_executed,
                    g.metrics.events_dropped == gs.metrics.events_dropped,
                    g.metrics.peak_queue_size == gs.metrics.peak_queue_size,
                    g.metrics.events_processed + g.pending_events@.len()
                        == gs.metrics.events_processed + gs.pending_events@.len(),
                    gs.metrics.events_processed + gs.pending_events@.len() <= u64::MAX,
                decreases g.pending_events@.len(),
            {
                let _event = g.pending_events.pop_front();
                g.metrics.events_processed = g.metrics.events_processed + 1;
            }
            while g.pending_commands.len() > 0
                invariant
                    g.pending_events@.len() == 0,
                    g.messages@ == gs.messages@,
                    g.config == gs.config,
                    g.initialized == gs.initialized,
                    g.active_block == gs.active_block,
                    g.registered_blocks@ == gs.registered_blocks@,
                    g.metrics.events_processed == gs.metrics.events_processed + gs.pending_events@.len(),
                    g.metrics.events_dropped == gs.metrics.events_dropped,
                    g.metrics.peak_queue_size == gs.metrics.peak_queue_size,
                    g.metrics.commands_executed + g.pending_commands@.len()
                        == gs.metrics.commands_executed + gs.pending_commands@.len(),
                    gs.metrics.commands_executed + gs.pending_commands@.len() <= u64::MAX,
                decreases g.pending_commands@.len(),
            {
                let _command = g.pending_commands.pop_front();
                g.metrics.commands_executed = g.metrics.commands_executed + 1;
            }
            event_count
        },
        None => 0,
    }
}

/// Appends a block registration. Without a gateway nothing happens.
pub fn add_block_registration<E, B>(gateway: &mut Option<GameGatewayData<E, B>>, registration: B)
    ensures
        *old(gateway) is None ==> *final(gateway) is None,
        *old(gateway) matches Some(g0) ==> *final(gateway) matches Some(g) && {
            &&& g.registered_blocks@ == g0.registered_blocks@.push(registration)
            &&& g.pending_events@ == g0.pending_events@
            &&& g.pending_commands@ == g0.pending_commands@
            &&& g.messages@ == g0.messages@
            &&& g.config == g0.config
            &&& g.metrics == g0.metrics
            &&& g.initialized == g0.initialized
            &&& g.active_block == g0.active_block
        },
        gateway_step(GatewayOp::AddBlockRegistration(registration), *old(gateway), *final(gateway)),
{
    if let Some(g) = gateway {
        g.registered_blocks.push(registration);
    }
}

/// A block that a game registers with the engine; `P` is the type of its properties.
#[derive(Clone, Debug)]
pub struct BlockRegistration<P> {
    pub id: BlockId,
    pub name: String,
    pub properties: P,
}

/// What a registration says: the block's identifier, name and properties.
pub open spec fn block_entry<P>(r: BlockRegistration<P>) -> (BlockId, Seq<char>, P) {
    (r.id, r.name@, r.properties)
}

/// The engine's block registry: the registered blocks, in registration order.
#[derive(Debug)]
pub struct BlockRegistry<P> {
    pub blocks: Vec<BlockRegistration<P>>,
}

impl<P> BlockRegistry<P> {
    /// An empty registry.
    pub fn new() -> (r: Self)
        ensures
            r.blocks@.len() == 0,
    {
        BlockRegistry { blocks: Vec::new() }
    }

    /// Number of registered blocks.
    pub fn len(&self) -> (r: usize)
        ensures
            r == self.blocks@.len(),
    {
        self.blocks.len()
    }
}

/// Registers the gateway's block registrations with the engine's block registry: each one,
/// in the order it was added, is appended with its identifier, name and properties; the
/// blocks registered before stay as they were. Without a gateway the registry is left as
/// it was. The gateway itself is only read.
pub fn register_blocks<E, P: Copy>(
    gateway: &Option<GameGatewayData<E, BlockRegistration<P>>>,
    registry: &mut BlockRegistry<P>,
)
    ensures
        gateway is None ==> final(registry).blocks@ == old(registry).blocks@,
        gateway matches Some(g) ==> {
            &&& final(registry).blocks@.len() == old(registry).blocks@.len() + g.registered_blocks@.len()
            &&& forall|i: int|
                0 <= i < old(registry).blocks@.len() ==> #[trigger] block_entry(final(registry).blocks@[i])
                    == block_entry(old(registry).blocks@[i])
            &&& forall|k: int|
                0 <= k < g.registered_blocks@.len() ==> block_entry(
                    final(registry).blocks@[old(registry).blocks@.len() + k],
                ) == block_entry(#[trigger] g.registered_blocks@[k])
        },
{
    if let Some(g) = gateway {
        let n0 = registry.blocks.len();
        let mut k: usize = 0;
        while k < g.registered_blocks.len()
            invariant
                k <= g.registered_blocks@.len(),
                n0 == old(registry).blocks@.len(),
                registry.blocks@.len() == n0 + k,
                forall|i: int|
                    0 <= i < n0 ==> #[trigger] block_entry(registry.blocks@[i]) == block_entry(
                        old(registry).blocks@[i],
                    ),
                forall|j: int|
                    0 <= j < k ==> block_entry(registry.blocks@[n0 + j]) == block_entry(
                        #[trigger] g.registered_blocks@[j],
                    ),
            decreases g.registered_blocks@.len() - k,
        {
            let r = &g.registered_blocks[k];
            let entry = BlockRegistration { id: r.id, name: r.name.clone(), properties: r.properties };
            let ghost before = registry.blocks@;
            registry.blocks.push(entry);
            proof {
                assert forall|i: int| 0 <= i < n0 implies #[trigger] block_entry(registry.blocks@[i]) == block_entry(
                    old(registry).blocks@[i],
                ) by {
                    assert(registry.blocks@[i] == before[i]);
                }
                assert forall|j: int| 0 <= j < k + 1 implies block_entry(registry.blocks@[n0 + j]) == block_entry(
                    #[trigger] g.registered_blocks@[j],
                ) by {
                    if j < k {
                        assert(registry.blocks@[n0 + j] == before[n0 + j]);
                    }
                }
            }
            k += 1;
        }
    }
}

/// The block chosen for placement; the first block without a gateway.
pub fn get_active_block<E, B>(gateway: &Option<GameGatewayData<E, B>>) -> (r: BlockId)
    ensures
        r == match *gateway {
            Some(g) => g.active_block,
            None => BlockId(1),
        },
{
    match gateway {
        Some(g) => g.active_block,
        None => BlockId(1),
    }
}

/// Chooses the block for placement. Without a gateway nothing happens.
pub fn set_active_block<E, B>(gateway: &mut Option<GameGatewayData<E, B>>, block_id: BlockId)
    ensures
        *old(gateway) is None ==> *final(gateway) is None,
        *old(gateway) matches Some(g0) ==> *final(gateway) matches Some(g) && {
            &&& g.active_block == block_id
            &&& g.registered_blocks@ == g0.registered_blocks@
            &&& g.pending_events@ == g0.pending_events@
            &&& g.pending_commands@ == g0.pending_commands@
            &&& g.messages@ == g0.messages@
            &&& g.config == g0.config
            &&& g.metrics == g0.metrics
            &&& g.initialized == g0.initialized
        },
        gateway_step(GatewayOp::SetActiveBlock(block_id), *old(gateway), *final(gateway)),
{
    if let Some(g) = gateway {
        g.active_block = block_id;
    }
}

/// Saves the game state to `path`; saving always succeeds.
pub fn save_game_state(path: &str) -> (r: Result<(), String>)
    ensures
        r is Ok,
{
    Ok(())
}

/// Loads the game state from `path`; loading always succeeds.
pub fn load_game_state(path: &str) -> (r: Result<(), String>)
    ensures
        r is Ok,
{
    Ok(())
}

/// The gateway counters; all zero without a gateway.
pub fn get_metrics<E, B>(gateway: &Option<GameGatewayData<E, B>>) -> (r: GatewayMetrics)
    ensures
        r == match *gateway {
            Some(g) => g.metrics,
            None => GatewayMetrics::zero_spec(),
        },
{
    match gateway {
        Some(g) => g.metrics,
        None => GatewayMetrics::zero(),
    }
}

/// Sets every counter back to zero. Without a gateway nothing happens.
pub fn reset_metrics<E, B>(gateway: &mut Option<GameGatewayData<E, B>>)
    ensures
        *old(gateway) is None ==> *final(gateway) is None,
        *old(gateway) matches Some(g0) ==> *final(gateway) matches Some(g) && {
            &&& g.metrics == GatewayMetrics::zero_spec()
            &&& g.active_block == g0.active_block
            &&& g.registered_blocks@ == g0.registered_blocks@
            &&& g.pending_events@ == g0.pending_events@
            &&& g.pending_commands@ == g0.pending_commands@
            &&& g.messages@ == g0.messages@
            &&& g.config == g0.config
            &&& g.initialized == g0.initialized
        },
        gateway_step(GatewayOp::<E, B>::ResetMetrics, *old(gateway), *final(gateway)),
{
    if let Some(g) = gateway {
        g.metrics = GatewayMetrics::zero();
    }
}

/// The gateway configuration, if there is a gateway.
pub fn get_gateway_config<E, B>(gateway: &Option<GameGatewayData<E, B>>) -> (r: Option<GatewayConfig>)
    ensures
        r == match *gateway {
            Some(g) => Some(g.config),
            None => None::<GatewayConfig>,
        },
{
    match gateway {
        Some(g) => Some(g.config),
        None => None,
    }
}

/// Replaces the gateway configuration. Without a gateway nothing happens.
pub fn update_gateway_config<E, B>(gateway: &mut Option<GameGatewayData<E, B>>, config: GatewayConfig)
    ensures
        *old(gateway) is None ==> *final(gateway) is None,
        *old(gateway) matches Some(g0) ==> *final(gateway) matches Some(g) && {
            &&& g.config == config
            &&& g.metrics == g0.metrics
            &&& g.active_block == g0.active_block
            &&& g.registered_blocks@ == g0.registered_blocks@
            &&& g.pending_events@ == g0.pending_events@
            &&& g.pending_commands@ == g0.pending_commands@
            &&& g.messages@ == g0.messages@
            &&& g.initialized == g0.initialized
        },
        gateway_step(GatewayOp::UpdateConfig(config), *old(gateway), *final(gateway)),
{
    if let Some(g) = gateway {
        g.config = config;
    }
}

/// Appends a message. Without a gateway nothing happens.
pub fn post_message<E, B>(gateway: &mut Option<GameGatewayData<E, B>>, message: MessageType)
    ensures
        *old(gateway) is None ==> *final(gateway) is None,
        *old(gateway) matches Some(g0) ==> *final(gateway) matches Some(g) && {
            &&& g.messages@ == g0.messages@.push(message)
            &&& g.config == g0.config
            &&& g.metrics == g0.metrics
            &&& g.active_block == g0.active_block
            &&& g.registered_blocks@ == g0.registered_blocks@
            &&& g.pending_events@ == g0.pending_events@
            &&& g.pending_commands@ == g0.pending_commands@
            &&& g.initialized == g0.initialized
        },
        gateway_step(GatewayOp::PostMessage(message), *old(gateway), *final(gateway)),
{
    if let Some(g) = gateway {
        g.messages.push_back(message);
    }
}

/// Takes every message, oldest first, leaving none behind; empty without
/// a gateway.
pub fn drain_messages<E, B>(gateway: &mut Option<GameGatewayData<E, B>>) -> (r: Vec<MessageType>)
    ensures
        *old(gateway) is None ==> *final(gateway) is None && r@.len() == 0,
        *old(gateway) matches Some(g0) ==> *final(gateway) matches Some(g) && {
            &&& r@ == g0.messages@
            &&& g.messages@.len() == 0
            &&& g.config == g0.config
            &&& g.metrics == g0.metrics
            &&& g.active_block == g0.active_block
            &&& g.registered_blocks@ == g0.registered_blocks@
            &&& g.pending_events@ == g0.pending_events@
            &&& g.pending_commands@ == g0.pending_commands@
            &&& g.initialized == g0.initialized
        },
        gateway_step(GatewayOp::<E, B>::DrainMessages, *old(gateway), *final(gateway)),
        r@ == messages_of(*old(gateway)),
{
    let mut out: Vec<MessageType> = Vec::new();
    match gateway {
        Some(g) => {
            let ghost gs = *g;
            while g.messages.len() > 0
                invariant
                    out@ + g.messages@ == gs.messages@,
                    g.config == gs.config,
                    g.metrics == gs.metrics,
                    g.active_block == gs.active_block,
                    g.registered_blocks@ == gs.registered_blocks@,
                    g.pending_events@ == gs.pending_events@,
                    g.pending_commands@ == gs.pending_commands@,
                    g.initialized == gs.initialized,
                decreases g.messages@.len(),
            {
                let ghost before = g.messages@;
                match g.messages.pop_front() {
                    Some(m) => {
                        out.push(m);
                        assert(out@ + g.messages@ =~= gs.messages@);
                    },
                    None => {},
                }
            }
            assert(out@ + g.messages@ =~= out@);
            out
        },
        None => out,
    }
}

/// The numbers of pending events and commands; zeros without a gateway.
pub fn get_queue_status<E, B>(gateway: &Option<GameGatewayData<E, B>>) -> (r: (usize, usize))
    ensures
        r == match *gateway {
            Some(g) => (g.pending_events@.len() as usize, g.pending_commands@.len() as usize),
            None => (0usize, 0usize),
        },
{
    match gateway {
        Some(g) => (g.pending_events.len(), g.pending_commands.len()),
        None => (0, 0),
    }
}


// ---------------------------------------------------------------------
// Runs of operations
// ---------------------------------------------------------------------

/// `states` is a run of `ops`: each state follows the one before it by the operation
/// between them.
pub open spec fn is_run<E, B>(ops: Seq<GatewayOp<E, B>>, states: Seq<Option<GameGatewayData<E, B>>>) -> bool {
    &&& states.len() == ops.len() + 1
    &&& forall|i: int| #![trigger ops[i]] 0 <= i < ops.len() ==> gateway_step(ops[i], states[i], states[i + 1])
}

/// A run of `ops` is a run of every prefix of them.
proof fn lemma_run_prefix<E, B>(ops: Seq<GatewayOp<E, B>>, states: Seq<Option<GameGatewayData<E, B>>>)
    requires
        is_run(ops, states),
        ops.len() > 0,
    ensures
        is_run(ops.drop_last(), states.drop_last()),
        gateway_step(ops.last(), states[ops.len() - 1], states.last()),
{
    assert forall|i: int| #![trigger ops.drop_last()[i]] 0 <= i < ops.drop_last().len() implies gateway_step(
        ops.drop_last()[i],
        states.drop_last()[i],
        states.drop_last()[i + 1],
    ) by {
        assert(ops.drop_last()[i] == ops[i]);
    }
    assert(ops.last() == ops[ops.len() - 1]);
}

/// Whether the slot holds a gateway after `ops`, from a slot that held one when `present`
/// holds: the last initialization or shutdown decides, and no other operation changes it.
pub open spec fn present_after<E, B>(present: bool, ops: Seq<GatewayOp<E, B>>) -> bool
    decreases ops.len(),
{
    if ops.len() == 0 {
        present
    } else {
        match ops.last() {
            GatewayOp::Init => true,
            GatewayOp::InitWithConfig(_) => true,
            GatewayOp::Shutdown => false,
            _ => present_after(present, ops.drop_last()),
        }
    }
}

/// The block `get_active_block` reports for a slot.
pub open spec fn active_block_of<E, B>(slot: Option<GameGatewayData<E, B>>) -> BlockId {
    match slot {
        Some(g) => g.active_block,
        None => BlockId(1),
    }
}

/// The active block after `ops`, from a slot whose presence is `present` and whose active
/// block is reported as `block`: the block of the last `SetActiveBlock` made on a gateway
/// since the last initialization, else the first block.
pub open spec fn active_after<E, B>(present: bool, block: BlockId, ops: Seq<GatewayOp<E, B>>) -> BlockId
    decreases ops.len(),
{
    if ops.len() == 0 {
        block
    } else {
        match ops.last() {
            GatewayOp::Init => BlockId(1),
            GatewayOp::InitWithConfig(_) => BlockId(1),
            GatewayOp::Shutdown => BlockId(1),
            GatewayOp::SetActiveBlock(b) => if present_after(present, ops.drop_last()) {
                b
            } else {
                BlockId(1)
            },
            _ => active_after(present, block, ops.drop_last()),
        }
    }
}

/// The configuration `get_gateway_config` reports for a slot.
pub open spec fn config_of<E, B>(slot: Option<GameGatewayData<E, B>>) -> Option<GatewayConfig> {
    match slot {
        Some(g) => Some(g.config),
        None => None,
    }
}

/// The default configuration.
pub open spec fn default_config() -> GatewayConfig {
    GatewayConfig { max_queue_size: 10000, process_interval: 1, debug_logging: false, record_events: false }
}

/// The configuration after `ops`, from `config`: that of the last initialization or update
/// made on a gateway; none after a shutdown.
pub open spec fn config_after<E, B>(config: Option<GatewayConfig>, ops: Seq<GatewayOp<E, B>>) -> Option<GatewayConfig>
    decreases ops.len(),
{
    if ops.len() == 0 {
        config
    } else {
        match ops.last() {
            GatewayOp::Init => Some(default_config()),
            GatewayOp::InitWithConfig(c) => Some(c),
            GatewayOp::Shutdown => None,
            GatewayOp::UpdateConfig(c) => match config_after(config, ops.drop_last()) {
                Some(_) => Some(c),
                None => None,
            },
            _ => config_after(config, ops.drop_last()),
        }
    }
}

/// The messages a slot holds: none without a gateway.
pub open spec fn messages_of<E, B>(slot: Option<GameGatewayData<E, B>>) -> Seq<MessageType> {
    match slot {
        Some(g) => g.messages@,
        None => Seq::empty(),
    }
}

/// The messages after `ops`, from a slot whose presence is `present` holding `messages`:
/// those posted to a gateway since it was initialized or last drained, in posting order.
pub open spec fn messages_after<E, B>(present: bool, messages: Seq<MessageType>, ops: Seq<GatewayOp<E, B>>) -> Seq<MessageType>
    decreases ops.len(),
{
    if ops.len() == 0 {
        messages
    } else {
        match ops.last() {
            GatewayOp::Init => Seq::empty(),
            GatewayOp::InitWithConfig(_) => Seq::empty(),
            GatewayOp::Shutdown => Seq::empty(),
            GatewayOp::DrainMessages => Seq::empty(),
            GatewayOp::PostMessage(m) => if present_after(present, ops.drop_last()) {
                messages_after(present, messages, ops.drop_last()).push(m)
            } else {
                Seq::empty()
            },
            _ => messages_after(present, messages, ops.drop_last()),
        }
    }
}

/// The event queue of a slot is within its configured bound.
pub open spec fn queue_within<E, B>(slot: Option<GameGatewayData<E, B>>) -> bool {
    match slot {
        Some(g) => g.pending_events@.len() <= g.config.max_queue_size,
        None => true,
    }
}

/// After any run of operations the gateway is initialized exactly when the last
/// initialization or shutdown was an initialization (or, with neither, when it was at the
/// start): no other operation, query or not, changes it.
pub proof fn lemma_initialized_after_run<E, B>(ops: Seq<GatewayOp<E, B>>, states: Seq<Option<GameGatewayData<E, B>>>)
    requires
        is_run(ops, states),
    ensures
        (states.last() is Some) == present_after(states[0] is Some, ops),
    decreases ops.len(),
{
    if ops.len() > 0 {
        lemma_run_prefix(ops, states);
        lemma_initialized_after_run(ops.drop_last(), states.drop_last());
        assert(states.drop_last()[0] == states[0]);
        assert(states.drop_last().last() == states[ops.len() - 1]);
    }
}

/// After any run, `get_active_block` reports the block of the last `set_active_block` made
/// on a gateway since the last initialization, the first block when there was none, and
/// the first block whenever no gateway is initialized.
pub proof fn lemma_active_block_after_run<E, B>(ops: Seq<GatewayOp<E, B>>, states: Seq<Option<GameGatewayData<E, B>>>)
    requires
        is_run(ops, states),
    ensures
        active_block_of(states.last()) == active_after(states[0] is Some, active_block_of(states[0]), ops),
    decreases ops.len(),
{
    if ops.len() > 0 {
        lemma_run_prefix(ops, states);
        lemma_active_block_after_run(ops.drop_last(), states.drop_last());
        lemma_initialized_after_run(ops.drop_last(), states.drop_last());
        assert(states.drop_last()[0] == states[0]);
        assert(states.drop_last().last() == states[ops.len() - 1]);
    }
}

/// After any run, `get_gateway_config` reports the configuration of the last
/// initialization or `update_gateway_config` made on a gateway, and nothing without a
/// gateway.
pub proof fn lemma_config_after_run<E, B>(ops: Seq<GatewayOp<E, B>>, states: Seq<Option<GameGatewayData<E, B>>>)
    requires
        is_run(ops, states),
    ensures
        config_of(states.last()) == config_after(config_of(states[0]), ops),
    decreases ops.len(),
{
    if ops.len() > 0 {
        lemma_run_prefix(ops, states);
        lemma_config_after_run(ops.drop_last(), states.drop_last());
        assert(states.drop_last()[0] == states[0]);
        assert(states.drop_last().last() == states[ops.len() - 1]);
    }
}

/// After any run, the gateway holds the messages posted to it since its initialization or
/// its last drain, in posting order; `drain_messages` hands out exactly these.
pub proof fn lemma_messages_after_run<E, B>(ops: Seq<GatewayOp<E, B>>, states: Seq<Option<GameGatewayData<E, B>>>)
    requires
        is_run(ops, states),
    ensures
        messages_of(states.last()) == messages_after(states[0] is Some, messages_of(states[0]), ops),
    decreases ops.len(),
{
    if ops.len() > 0 {
        lemma_run_prefix(ops, states);
        lemma_messages_after_run(ops.drop_last(), states.drop_last());
        lemma_initialized_after_run(ops.drop_last(), states.drop_last());
        assert(states.drop_last()[0] == states[0]);
        assert(states.drop_last().last() == states[ops.len() - 1]);
    }
}

/// Messages posted one after another to a gateway holding none are drained in posting
/// order, and a drain right after hands out nothing.
pub proof fn lemma_drain_after_posts<E, B>(
    posted: Seq<MessageType>,
    ops: Seq<GatewayOp<E, B>>,
    states: Seq<Option<GameGatewayData<E, B>>>,
    drained: Seq<MessageType>,
    after: Option<GameGatewayData<E, B>>,
    drained_again: Seq<MessageType>,
)
    requires
        is_run(ops, states),
        states[0] matches Some(g) && g.messages@.len() == 0,
        ops.len() == posted.len(),
        forall|i: int| 0 <= i < ops.len() ==> #[trigger] ops[i] == GatewayOp::<E, B>::PostMessage(posted[i]),
        drained == messages_of(states.last()),
        gateway_step(GatewayOp::<E, B>::DrainMessages, states.last(), after),
        drained_again == messages_of(after),
    ensures
        drained == posted,
        drained_again.len() == 0,
{
    lemma_posts_collect(posted, ops, states);
}

/// Posting messages one after another to a gateway holding none leaves exactly them, in
/// order.
proof fn lemma_posts_collect<E, B>(posted: Seq<MessageType>, ops: Seq<GatewayOp<E, B>>, states: Seq<Option<GameGatewayData<E, B>>>)
    requires
        is_run(ops, states),
        states[0] matches Some(g) && g.messages@.len() == 0,
        ops.len() == posted.len(),
        forall|i: int| 0 <= i < ops.len() ==> #[trigger] ops[i] == GatewayOp::<E, B>::PostMessage(posted[i]),
    ensures
        states.last() is Some,
        messages_of(states.last()) == posted,
    decreases ops.len(),
{
    if ops.len() > 0 {
        lemma_run_prefix(ops, states);
        let p = posted.drop_last();
        assert forall|i: int| 0 <= i < ops.drop_last().len() implies #[trigger] ops.drop_last()[i] == GatewayOp::<E, B>::PostMessage(p[i]) by {
            assert(ops.drop_last()[i] == ops[i]);
        }
        lemma_posts_collect(p, ops.drop_last(), states.drop_last());
        assert(states.drop_last().last() == states[ops.len() - 1]);
        assert(ops.last() == ops[ops.len() - 1]);
        assert(posted =~= p.push(posted.last()));
    } else {
        assert(messages_of(states.last()) =~= posted);
    }
}

/// Without a configuration update, every state of a run keeps its event queue within the
/// configured bound when the first one does: an event offered to a full queue is dropped,
/// never queued.
pub proof fn lemma_queue_bounded_in_run<E, B>(ops: Seq<GatewayOp<E, B>>, states: Seq<Option<GameGatewayData<E, B>>>)
    requires
        is_run(ops, states),
        queue_within(states[0]),
        forall|i: int| 0 <= i < ops.len() ==> !(#[trigger] ops[i] is UpdateConfig),
    ensures
        forall|i: int| 0 <= i < states.len() ==> #[trigger] queue_within(states[i]),
    decreases ops.len(),
{
    if ops.len() > 0 {
        lemma_run_prefix(ops, states);
        assert forall|i: int| 0 <= i < ops.drop_last().len() implies !(#[trigger] ops.drop_last()[i] is UpdateConfig) by {
            assert(ops.drop_last()[i] == ops[i]);
        }
        lemma_queue_bounded_in_run(ops.drop_last(), states.drop_last());
        let n = ops.len() as int;
        assert(states.drop_last()[0] == states[0]);
        assert(states.drop_last()[n - 1] == states[n - 1]);
        assert(ops.last() == ops[n - 1]);
        lemma_step_keeps_bound(ops.last(), states[n - 1], states[n]);
        assert forall|i: int| 0 <= i < states.len() implies #[trigger] queue_within(states[i]) by {
            if i < n {
                assert(states.drop_last()[i] == states[i]);
            }
        }
    }
}

/// One operation other than a configuration update keeps the event queue within its bound.
proof fn lemma_step_keeps_bound<E, B>(op: GatewayOp<E, B>, a: Option<GameGatewayData<E, B>>, b: Option<GameGatewayData<E, B>>)
    requires
        gateway_step(op, a, b),
        queue_within(a),
        !(op is UpdateConfig),
    ensures
        queue_within(b),
{
    match op {
        GatewayOp::QueueEvents(es) => {
            if let Some(g0) = a {
                let g = b->0;
                let k = accepted_count(g0.pending_events@.len() as int, g0.config.max_queue_size as int, es.len() as int);
                assert(g.pending_events@.len() == g0.pending_events@.len() + k);
            }
        },
        _ => {},
    }
}

} // verus!
