use hearth_engine::disconnect::{
    chunk_batch_operation, player_save_operation,
    chunk_of_block, get_chunks_around_player, ConnectionState, DisconnectConfig,
    DisconnectTracker,
};
use hearth_engine::world_types::ChunkPos;
use hearth_engine::persistence::{SaveOperation, SavePriority};

fn tracker(config: DisconnectConfig) -> DisconnectTracker<(f64, f64, f64)> {
    DisconnectTracker::new(config)
}

#[test]
fn test_disconnect_handler_creation() {
    let handler = tracker(DisconnectConfig::default());
    let stats = handler.get_stats().expect("Failed to get stats");
    assert_eq!(stats.players_disconnecting, 0);
    assert_eq!(stats.successful_saves, 0);
}

#[test]
fn test_handle_disconnect() {
    let mut handler = tracker(DisconnectConfig::default());
    let result = handler.handle_disconnect(
        "test_player".to_string(),
        "TestPlayer".to_string(),
        (100.0, 64.0, 200.0),
        100,
        200,
        0,
    );
    assert!(result.is_ok());
    assert!(handler.is_player_disconnecting("test_player"));
    let status = handler.get_disconnect_status("test_player");
    assert_eq!(status, Some(ConnectionState::Disconnecting));
}

#[test]
fn test_emergency_disconnect() {
    let mut handler = tracker(DisconnectConfig::default());
    let result = handler.handle_emergency_disconnect(0, 0);
    assert!(result.is_ok());
    let stats = handler.get_stats().expect("Failed to get stats");
    assert_eq!(stats.emergency_saves, 1);
}

#[test]
fn test_chunks_around_player() {
    let config = DisconnectConfig { chunk_save_radius: 1, ..Default::default() };
    let chunks = get_chunks_around_player(config.chunk_save_radius, 16, 16);
    assert_eq!(chunks.len(), 9); // 3x3 grid around player
    assert!(chunks.contains(&ChunkPos { x: 0, y: 0, z: 0 }));
    assert!(chunks.contains(&ChunkPos { x: 1, y: 0, z: 1 }));
    assert!(chunks.contains(&ChunkPos { x: -1, y: 0, z: -1 }));
}

#[test]
fn test_force_disconnect() {
    let mut handler = tracker(DisconnectConfig::default());
    handler
        .handle_disconnect("force_test".to_string(), "ForceTest".to_string(), (0.0, 64.0, 0.0), 0, 0, 0)
        .expect("Failed to handle disconnect");
    let result = handler.force_disconnect("force_test");
    assert!(result.is_ok());
    assert_eq!(result.expect("[Test] Force disconnect should succeed"), true);
    assert!(!handler.is_player_disconnecting("force_test"));
}

#[test]
fn force_disconnect_of_unknown_player_is_false() {
    let mut handler = tracker(DisconnectConfig::default());
    assert_eq!(handler.force_disconnect("nobody").ok(), Some(false));
}

#[test]
fn chunk_coordinates_round_down() {
    assert_eq!(chunk_of_block(0), 0);
    assert_eq!(chunk_of_block(49), 0);
    assert_eq!(chunk_of_block(50), 1);
    assert_eq!(chunk_of_block(-1), -1);
    assert_eq!(chunk_of_block(-50), -1);
    assert_eq!(chunk_of_block(-51), -2);
}

#[test]
fn save_area_of_radius_zero_is_the_players_chunk() {
    let chunks = get_chunks_around_player(0, 120, -10);
    assert_eq!(chunks, vec![ChunkPos { x: 2, y: 0, z: -1 }]);
}

#[test]
fn emergency_disconnect_can_be_disabled() {
    let mut handler = tracker(DisconnectConfig { emergency_save_enabled: false, ..Default::default() });
    assert!(matches!(handler.handle_emergency_disconnect(0, 0), Ok(None)));
    assert_eq!(handler.get_stats().unwrap().emergency_saves, 0);
}

#[test]
fn worker_tick_times_out_and_completes_saves() {
    let config = DisconnectConfig {
        max_save_timeout_ms: 1000,
        chunk_save_radius: 0,
        emergency_save_enabled: true,
        reconnect_grace_period_ms: 100,
    };
    let mut handler = tracker(config);
    handler.handle_disconnect("early".to_string(), "Early".to_string(), (0.0, 0.0, 0.0), 0, 0, 0).expect("disconnect");
    handler.handle_disconnect("late".to_string(), "Late".to_string(), (0.0, 0.0, 0.0), 0, 0, 900).expect("disconnect");
    assert!(handler.try_worker_tick(1050));
    assert!(!handler.is_player_disconnecting("early"));
    assert_eq!(handler.get_disconnect_status("late"), Some(ConnectionState::SaveComplete));
    let stats = handler.get_stats().expect("stats");
    assert_eq!(stats.force_disconnects, 1);
    assert_eq!(stats.successful_saves, 1);
}

#[test]
fn save_operations_for_a_disconnect() {
    let chunks = vec![ChunkPos { x: 1, y: 0, z: 2 }, ChunkPos { x: -1, y: 0, z: 3 }];
    match chunk_batch_operation::<f32>(&chunks) {
        Some(SaveOperation::ChunkBatch { chunks: keys, positions, priority }) => {
            assert_eq!(keys, vec![(1u64 << 42) | 2, (u64::MAX << 42) | 3]);
            assert_eq!(positions, vec![(1, 0, 2), (-1, 0, 3)]);
            assert!(matches!(priority, SavePriority::Critical));
        }
        _ => panic!("expected a chunk batch"),
    }
    assert!(chunk_batch_operation::<f32>(&Vec::new()).is_none());
    match player_save_operation("u-1".to_string(), [1.0f32, 2.0, 3.0]) {
        SaveOperation::Player { player_id, uuid, position, priority } => {
            assert_eq!((player_id, uuid.as_str(), position), (0, "u-1", [1.0, 2.0, 3.0]));
            assert!(matches!(priority, SavePriority::Critical));
        }
        _ => panic!("expected a player save"),
    }
}
