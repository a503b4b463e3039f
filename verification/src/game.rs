//! The game-facing interface: game events and the handlers that route
//! block interactions through the gateway queue.

use vstd::prelude::*;
use crate::gateway::{GameGatewayData, GatewayOp, InteractionType, gateway_step, get_active_block, is_gateway_initialized, queue_event, queued_one, register_blocks, block_entry, BlockRegistration, BlockRegistry};
use crate::world_types::{BlockId, VoxelPos};

verus! {

/// Game event - things that happen in the game world. `F` is the scalar
/// type of positions and forces.
#[derive(Debug)]
#[allow(inconsistent_fields)]
pub enum GameEvent<F> {
    /// Player breaks a block.
    BlockBreak { position: VoxelPos, block_id: BlockId, player_id: Option<u32> },
    /// Player places a block.
    BlockPlace { position: VoxelPos, block_id: BlockId, player_id: Option<u32> },
    /// Player interacts with a block.
    BlockInteract {
        position: VoxelPos,
        block_id: BlockId,
        interaction_type: InteractionType,
        player_id: Option<u32>,
    },
    /// Player moves.
    PlayerMove { player_id: u32, from_position: [F; 3], to_position: [F; 3] },
    /// Player joins game.
    PlayerJoin { player_id: u32, player_name: String },
    /// Player leaves game.
    PlayerLeave { player_id: u32 },
    /// Apply force to physics entity.
    ApplyForce { entity_id: u32, force: [F; 3] },
    /// Spawn particle effect.
    SpawnParticle { position: [F; 3], particle_type: u16, count: u32 },
    /// Custom game event.
    Custom { event_type: String, data: Vec<u8> },
}

/// Game data: any game state type the engine can carry.
pub trait GameData {}

/// Registers the gateway's blocks with `registry` when the gateway is initialized (as
/// `register_blocks` does); otherwise the registry is left as it was.
pub fn register_game_blocks<T: GameData, E, P: Copy>(
    _game: &mut T,
    gateway: &Option<GameGatewayData<E, BlockRegistration<P>>>,
    registry: &mut BlockRegistry<P>,
)
    ensures
        gateway is None ==> final(registry).blocks@ == old(registry).blocks@,
        gateway matches Some(g) ==> {
            &&& final(registry).blocks@.len() == old(registry).blocks@.len() + g.registered_blocks@.len()
            &&& forall|i: int|
                0 <= i < old(registry).blocks@.len() ==> #[trigger] block_entry(final(registry).blocks@[i])
                    == block_entry(old(registry).blocks@[i])
            &&& forall|k: int|
                0 <= k < g.registered_blocks@.len() ==> block_entry(
                    final(registry).blocks@[old(registry).blocks@.len() + k],
                ) == block_entry(#[trigger] g.registered_blocks@[k])
        },
{
    if is_gateway_initialized(gateway) {
        register_blocks(gateway, registry);
    }
}

/// Queues a block-break event for `pos` when the gateway is initialized;
/// otherwise nothing happens.
pub fn handle_block_break<T: GameData, F, B>(
    _game: &mut T,
    gateway: &mut Option<GameGatewayData<GameEvent<F>, B>>,
    pos: VoxelPos,
    block: BlockId,
)
    requires
        *old(gateway) matches Some(g) ==> g.metrics.events_dropped < u64::MAX,
    ensures
        *old(gateway) is None ==> *final(gateway) is None,
        *old(gateway) matches Some(g0) ==> *final(gateway) matches Some(g) && queued_one(
            g0,
            g,
            GameEvent::BlockBreak { position: pos, block_id: block, player_id: None },
        ),
        gateway_step(
            GatewayOp::QueueEvent(GameEvent::BlockBreak { position: pos, block_id: block, player_id: None }),
            *old(gateway),
            *final(gateway),
        ),
{
    if is_gateway_initialized(gateway) {
        queue_event(gateway, GameEvent::BlockBreak { position: pos, block_id: block, player_id: None });
    }
}

/// Queues a block-place event for `pos` when the gateway is initialized;
/// otherwise nothing happens.
pub fn handle_block_place<T: GameData, F, B>(
    _game: &mut T,
    gateway: &mut Option<GameGatewayData<GameEvent<F>, B>>,
    pos: VoxelPos,
    block: BlockId,
)
    requires
        *old(gateway) matches Some(g) ==> g.metrics.events_dropped < u64::MAX,
    ensures
        *old(gateway) is None ==> *final(gateway) is None,
        *old(gateway) matches Some(g0) ==> *final(gateway) matches Some(g) && queued_one(
            g0,
            g,
            GameEvent::BlockPlace { position: pos, block_id: block, player_id: None },
        ),
        gateway_step(
            GatewayOp::QueueEvent(GameEvent::BlockPlace { position: pos, block_id: block, player_id: None }),
            *old(gateway),
            *final(gateway),
        ),
{
    if is_gateway_initialized(gateway) {
        queue_event(gateway, GameEvent::BlockPlace { position: pos, block_id: block, player_id: None });
    }
}

/// Breaking the block at a position where `current` was read: where a block stands it is
/// replaced by air, and `Some(air)` is what to write there; already empty space is left
/// alone (`None`, reported as nothing broken).
pub fn break_block_dop(current: BlockId) -> (r: Option<BlockId>)
    ensures
        current != BlockId(0) ==> r == Some(BlockId(0)),
        current == BlockId(0) ==> r is None,
{
    if current != BlockId::air() {
        Some(BlockId::air())
    } else {
        None
    }
}

/// Placing `block_id` at a position where `current` was read: only empty space takes a
/// block, and `Some(block_id)` is what to write there; an occupied voxel is never
/// overwritten (`None`, reported as nothing placed).
pub fn place_block_dop(current: BlockId, block_id: BlockId) -> (r: Option<BlockId>)
    ensures
        current == BlockId(0) ==> r == Some(block_id),
        current != BlockId(0) ==> r is None,
{
    if current == BlockId::air() {
        Some(block_id)
    } else {
        None
    }
}

/// The block the game places: the gateway's active block, or grass
/// without a gateway.
pub fn get_active_block_from_game<T: GameData, E, B>(_game: &T, gateway: &Option<GameGatewayData<E, B>>) -> (r: BlockId)
    ensures
        r == match *gateway {
            Some(g) => g.active_block,
            None => BlockId(1),
        },
{
    if is_gateway_initialized(gateway) {
        get_active_block(gateway)
    } else {
        BlockId::grass()
    }
}

} // verus!
