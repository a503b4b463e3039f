use hearth_engine::config::{
    chunk_memory_bytes, safe_chunk_count, view_distance_for_diameter, EngineConfig,
};

fn config(chunk_size: u32, render_distance: u32, w: u32, h: u32) -> EngineConfig {
    EngineConfig { chunk_size, render_distance, window_width: w, window_height: h, ..EngineConfig::default() }
}

const COMMON: &str = "Common safe configurations:\n  - chunk_size=50, view_distance=3 (163MB)\n  - chunk_size=50, view_distance=2 (59MB)\n  - chunk_size=64, view_distance=1 (64MB)";

#[test]
fn default_config_is_valid_with_enough_memory() {
    let c = EngineConfig::default();
    assert_eq!(c.window_title, "Hearth Engine");
    assert_eq!((c.window_width, c.window_height), (1280, 720));
    assert_eq!(c.chunk_size, 50);
    assert_eq!(c.render_distance, 8);
    assert_eq!(c.validate(8), Ok(()));
}

#[test]
fn validation_errors_come_in_order() {
    assert_eq!(config(0, 0, 1, 1).validate(10), Err("EngineConfig: chunk_size cannot be 0".to_string()));
    assert_eq!(
        config(300, 0, 1, 1).validate(10),
        Err("EngineConfig: chunk_size 300 exceeds maximum of 256".to_string())
    );
    assert_eq!(config(50, 0, 1, 1).validate(10), Err("EngineConfig: render_distance cannot be 0".to_string()));
    assert_eq!(
        config(50, 4, 100, 720).validate(10),
        Err("EngineConfig: Window dimensions too small (min 320x240)".to_string())
    );
    assert_eq!(
        config(50, 4, 1280, 20000).validate(10),
        Err("EngineConfig: Window dimensions too large (max 16384x16384)".to_string())
    );
}

#[test]
fn render_distance_over_memory_limit_gives_advice() {
    let err = config(64, 5, 1280, 720).validate(2).unwrap_err();
    let expected = format!(
        "EngineConfig: render_distance 5 exceeds GPU memory limit. Maximum safe render_distance for chunk_size 64 is 2. For chunk_size=64, maximum safe view_distance is 2\n{}",
        COMMON
    );
    assert_eq!(err, expected);
}

#[test]
fn suggestion_without_chunk_size_lists_common_configs() {
    assert_eq!(config(0, 1, 1280, 720).suggest_safe_config(99), COMMON);
}

#[test]
fn chunk_memory_and_budget() {
    assert_eq!(chunk_memory_bytes(50), 500_000);
    assert_eq!(chunk_memory_bytes(256), 67_108_864);
    assert_eq!(safe_chunk_count(50, 134_217_728), 268);
    assert_eq!(view_distance_for_diameter(0), 0);
    assert_eq!(view_distance_for_diameter(1), 0);
    assert_eq!(view_distance_for_diameter(6), 2);
    assert_eq!(view_distance_for_diameter(7), 3);
}
