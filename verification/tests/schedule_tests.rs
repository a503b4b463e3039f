use hearth_engine::system_schedule::{ExecutionPlan, SystemDependencies, SystemId};

#[test]
fn test_system_coordinator_creation() {
    let plan = ExecutionPlan::new();
    assert_eq!(plan.execution_order().len(), 0);
}

#[test]
fn test_dependency_ordering() {
    let mut plan = ExecutionPlan::new();

    // World generation depends on nothing
    plan.register_system(
        SystemId::WorldGeneration,
        SystemDependencies { depends_on: vec![], conflicts_with: vec![], max_wait_time_ms: 1000 },
    )
    .expect("Failed to register WorldGeneration system");

    // Physics depends on world generation
    plan.register_system(
        SystemId::Physics,
        SystemDependencies {
            depends_on: vec![SystemId::WorldGeneration],
            conflicts_with: vec![],
            max_wait_time_ms: 1000,
        },
    )
    .expect("Failed to register Physics system");

    // Renderer depends on physics
    plan.register_system(
        SystemId::Renderer,
        SystemDependencies {
            depends_on: vec![SystemId::Physics],
            conflicts_with: vec![],
            max_wait_time_ms: 1000,
        },
    )
    .expect("Failed to register Renderer system");

    let order = plan.execution_order();
    assert_eq!(order[0], SystemId::WorldGeneration);
    assert_eq!(order[1], SystemId::Physics);
    assert_eq!(order[2], SystemId::Renderer);
}

#[test]
fn test_circular_dependency_detection() {
    let mut plan = ExecutionPlan::new();

    // System A depends on B
    plan.register_system(
        SystemId::Physics,
        SystemDependencies {
            depends_on: vec![SystemId::Renderer],
            conflicts_with: vec![],
            max_wait_time_ms: 1000,
        },
    )
    .expect("Failed to register Physics system");

    // System B depends on A (circular)
    let result = plan.register_system(
        SystemId::Renderer,
        SystemDependencies {
            depends_on: vec![SystemId::Physics],
            conflicts_with: vec![],
            max_wait_time_ms: 1000,
        },
    );

    assert!(result.is_err());
}
