use hearth_engine::game::{
    break_block_dop, get_active_block_from_game, handle_block_break, handle_block_place,
    place_block_dop, register_game_blocks, GameData, GameEvent,
};
use hearth_engine::gateway::{
    drain_messages, get_active_block, get_gateway_config, get_metrics, get_queue_status,
    init_gateway, init_gateway_with_config, is_gateway_initialized, post_message, process_update,
    queue_event, queue_events, register_blocks, set_active_block, shutdown_gateway,
    update_gateway_config, add_block_registration, BlockRegistration, BlockRegistry,
    GameGatewayData, GatewayConfig, MessageType,
};
use hearth_engine::world_types::{BlockId, VoxelPos};

struct Game;
impl GameData for Game {}

type Slot = Option<GameGatewayData<GameEvent<f32>, BlockRegistration<u8>>>;

fn small_config(max_queue_size: usize) -> GatewayConfig {
    GatewayConfig { max_queue_size, process_interval: 1, debug_logging: false, record_events: false }
}

fn text(m: &MessageType) -> String {
    match m {
        MessageType::Info(s)
        | MessageType::Warning(s)
        | MessageType::Error(s)
        | MessageType::Success(s)
        | MessageType::Debug(s) => s.clone(),
    }
}

#[test]
fn initialized_follows_the_last_init_or_shutdown() {
    let mut slot: Slot = None;
    assert!(!is_gateway_initialized(&slot));
    init_gateway(&mut slot);
    assert!(is_gateway_initialized(&slot));
    set_active_block(&mut slot, BlockId(5));
    post_message(&mut slot, MessageType::Info("a".to_string()));
    assert!(is_gateway_initialized(&slot));
    shutdown_gateway(&mut slot);
    assert!(!is_gateway_initialized(&slot));
    assert_eq!(get_queue_status(&slot), (0, 0));
    init_gateway_with_config(&mut slot, small_config(3));
    assert!(is_gateway_initialized(&slot));
}

#[test]
fn active_block_is_the_last_one_set_since_init() {
    let mut slot: Slot = None;
    set_active_block(&mut slot, BlockId(9));
    assert_eq!(get_active_block(&slot), BlockId(1));
    init_gateway(&mut slot);
    assert_eq!(get_active_block(&slot), BlockId(1));
    set_active_block(&mut slot, BlockId(4));
    set_active_block(&mut slot, BlockId(7));
    assert_eq!(get_active_block(&slot), BlockId(7));
    assert_eq!(get_active_block_from_game(&Game, &slot), BlockId(7));
    init_gateway(&mut slot);
    assert_eq!(get_active_block(&slot), BlockId(1));
    shutdown_gateway(&mut slot);
    assert_eq!(get_active_block(&slot), BlockId(1));
}

#[test]
fn config_is_the_last_one_given() {
    let mut slot: Slot = None;
    update_gateway_config(&mut slot, small_config(5));
    assert!(get_gateway_config(&slot).is_none());
    init_gateway_with_config(&mut slot, small_config(5));
    post_message(&mut slot, MessageType::Info("kept".to_string()));
    update_gateway_config(&mut slot, small_config(8));
    let cfg = get_gateway_config(&slot).expect("initialized");
    assert_eq!(cfg.max_queue_size, 8);
    assert_eq!(get_queue_status(&slot), (0, 0));
    let drained = drain_messages(&mut slot);
    assert_eq!(drained.len(), 1);
    init_gateway(&mut slot);
    assert_eq!(get_gateway_config(&slot).expect("initialized").max_queue_size, 10000);
}

#[test]
fn messages_drain_in_posting_order() {
    let mut slot: Slot = None;
    post_message(&mut slot, MessageType::Info("lost".to_string()));
    assert!(drain_messages(&mut slot).is_empty());
    init_gateway(&mut slot);
    post_message(&mut slot, MessageType::Info("one".to_string()));
    post_message(&mut slot, MessageType::Warning("two".to_string()));
    post_message(&mut slot, MessageType::Error("three".to_string()));
    let drained: Vec<String> = drain_messages(&mut slot).iter().map(text).collect();
    assert_eq!(drained, vec!["one", "two", "three"]);
    assert!(drain_messages(&mut slot).is_empty());
}

#[test]
fn a_full_queue_drops_events() {
    let mut slot: Slot = None;
    init_gateway_with_config(&mut slot, small_config(2));
    let pos = VoxelPos { x: 1, y: 2, z: 3 };
    for _ in 0..3 {
        queue_event(&mut slot, GameEvent::PlayerLeave { player_id: 1 });
    }
    assert_eq!(get_queue_status(&slot), (2, 0));
    let m = get_metrics(&slot);
    assert_eq!(m.events_dropped, 1);
    assert_eq!(m.peak_queue_size, 2);
    handle_block_break(&mut Game, &mut slot, pos, BlockId(3));
    assert_eq!(get_metrics(&slot).events_dropped, 2);
    assert_eq!(process_update(&mut slot), 2);
    queue_events(
        &mut slot,
        vec![
            GameEvent::PlayerLeave { player_id: 2 },
            GameEvent::PlayerLeave { player_id: 3 },
            GameEvent::PlayerLeave { player_id: 4 },
        ],
    );
    assert_eq!(get_queue_status(&slot), (2, 0));
    assert_eq!(get_metrics(&slot).events_dropped, 3);
}

#[test]
fn block_handlers_queue_their_events() {
    let mut slot: Slot = None;
    let pos = VoxelPos { x: 4, y: 5, z: 6 };
    handle_block_break(&mut Game, &mut slot, pos, BlockId(2));
    assert!(slot.is_none());
    init_gateway(&mut slot);
    handle_block_break(&mut Game, &mut slot, pos, BlockId(2));
    handle_block_place(&mut Game, &mut slot, pos, BlockId(8));
    assert_eq!(get_queue_status(&slot), (2, 0));
    assert_eq!(get_metrics(&slot).peak_queue_size, 2);
    let g = slot.as_ref().expect("initialized");
    assert!(matches!(
        g.pending_events[0],
        GameEvent::BlockBreak { block_id: BlockId(2), player_id: None, .. }
    ));
    assert!(matches!(
        g.pending_events[1],
        GameEvent::BlockPlace { block_id: BlockId(8), player_id: None, .. }
    ));
}

fn reg(id: u16, name: &str, properties: u8) -> BlockRegistration<u8> {
    BlockRegistration { id: BlockId(id), name: name.to_string(), properties }
}

#[test]
fn registered_blocks_reach_the_registry() {
    let mut slot: Slot = None;
    let mut registry: BlockRegistry<u8> = BlockRegistry::new();
    registry.blocks.push(reg(1, "grass", 0));
    register_game_blocks(&mut Game, &slot, &mut registry);
    assert_eq!(registry.len(), 1);
    init_gateway(&mut slot);
    add_block_registration(&mut slot, reg(20, "marble", 7));
    add_block_registration(&mut slot, reg(21, "glass", 9));
    register_game_blocks(&mut Game, &slot, &mut registry);
    assert_eq!(registry.len(), 3);
    assert_eq!(registry.blocks[0].name, "grass");
    assert_eq!((registry.blocks[1].id, registry.blocks[1].name.as_str(), registry.blocks[1].properties), (BlockId(20), "marble", 7));
    assert_eq!((registry.blocks[2].id, registry.blocks[2].name.as_str(), registry.blocks[2].properties), (BlockId(21), "glass", 9));
    assert_eq!(slot.as_ref().expect("initialized").registered_blocks.len(), 2);
    shutdown_gateway(&mut slot);
    register_blocks(&slot, &mut registry);
    assert_eq!(registry.len(), 3);
}

#[test]
fn block_decisions_respect_occupancy() {
    assert_eq!(break_block_dop(BlockId(3)), Some(BlockId(0)));
    assert_eq!(break_block_dop(BlockId(0)), None);
    assert_eq!(place_block_dop(BlockId(0), BlockId(5)), Some(BlockId(5)));
    assert_eq!(place_block_dop(BlockId(2), BlockId(5)), None);
}
