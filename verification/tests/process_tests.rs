use hearth_engine::instance::InstanceId;
use hearth_engine::process::{
    ProcessCategory, ProcessData, ProcessId, ProcessPriority, ProcessScheduler, ProcessStatus,
    ProcessType,
};

#[test]
fn test_scheduler() {
    let mut scheduler = ProcessScheduler::new();
    let mut data = ProcessData::new();

    // Add processes with different priorities
    for i in 0..4 {
        let id = ProcessId::new();
        let owner = InstanceId::new();
        let index = data.add(id, ProcessType::default(), owner, 100);
        data.status[index] = ProcessStatus::Active;
        data.priority[index] = ProcessPriority::from_level(i as u8).unwrap();
    }

    let order = scheduler.schedule(&data);

    // Should be ordered by priority (highest first)
    assert_eq!(order, vec![3, 2, 1, 0]);
}

#[test]
fn scheduler_skips_inactive_and_keeps_index_order_within_a_priority() {
    let mut scheduler = ProcessScheduler::new();
    let mut data = ProcessData::new();
    for _ in 0..5 {
        let index = data.add(ProcessId(1), ProcessType(2), InstanceId(3), 10);
        data.status[index] = ProcessStatus::Active;
    }
    data.priority[1] = ProcessPriority::High;
    data.priority[3] = ProcessPriority::High;
    data.active[2] = false;
    data.status[4] = ProcessStatus::Paused;
    assert_eq!(scheduler.schedule(&data), vec![1, 3, 0]);
    assert_eq!(scheduler.high, vec![1, 3]);
}

#[test]
fn category_codes() {
    assert_eq!(ProcessCategory::Crafting.code(), 0);
    assert_eq!(ProcessCategory::Upgrade.code(), 6);
    assert_eq!(ProcessCategory::Custom.code(), 255);
    assert_eq!(ProcessPriority::from_level(4), None);
    assert_eq!(ProcessPriority::Critical.level(), 3);
}

#[test]
fn find_index_finds_the_first_process_with_the_id() {
    let mut data = ProcessData::new();
    data.add(ProcessId(7), ProcessType::default(), InstanceId(0), 5);
    data.add(ProcessId(9), ProcessType::default(), InstanceId(0), 5);
    assert_eq!(data.find_index(ProcessId(9)), Some(1));
    assert_eq!(data.find_index(ProcessId(8)), None);
    assert_eq!(data.len(), 2);
}
