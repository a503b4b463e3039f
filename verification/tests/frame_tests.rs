use hearth_engine::coordinator::{
    dependency_timeout_error, dependency_wait_step, handle_system_error, is_system_healthy,
    DependencyWait, FrameExecutionReport, FrameProgress, RecoveryStrategy, SystemEventType,
    SystemHealthRecord, SystemOutcome, SystemState,
};
use hearth_engine::error::EngineError;
use hearth_engine::system_schedule::{ExecutionPlan, SystemDependencies, SystemId};

fn physics_deps(max_wait_time_ms: u64) -> SystemDependencies {
    SystemDependencies {
        depends_on: vec![SystemId::WorldGeneration, SystemId::Input],
        conflicts_with: vec![SystemId::Renderer],
        max_wait_time_ms,
    }
}

#[test]
fn frame_progress_tracks_running_and_completed() {
    let mut p = FrameProgress::new();
    p.begin_frame();
    assert_eq!(p.current_frame, 1);
    p.start_system(SystemId::Physics);
    p.start_system(SystemId::Physics);
    assert_eq!(p.systems_in_progress, vec![SystemId::Physics]);
    p.finish_system(SystemId::Physics);
    assert!(p.systems_in_progress.is_empty());
    p.complete_system(SystemId::Physics);
    p.complete_system(SystemId::Physics);
    assert_eq!(p.systems_completed, vec![SystemId::Physics]);
    p.begin_frame();
    assert_eq!(p.current_frame, 2);
    assert!(p.systems_completed.is_empty());
}

#[test]
fn dependency_wait_outcomes() {
    let deps = physics_deps(5);
    let mut p = FrameProgress::new();
    assert_eq!(dependency_wait_step(None, &p, 0), DependencyWait::Ready);
    assert_eq!(dependency_wait_step(Some(&deps), &p, 0), DependencyWait::Wait);
    p.complete_system(SystemId::WorldGeneration);
    assert_eq!(dependency_wait_step(Some(&deps), &p, 4), DependencyWait::Wait);
    p.complete_system(SystemId::Input);
    assert_eq!(dependency_wait_step(Some(&deps), &p, 4), DependencyWait::Ready);
    assert_eq!(dependency_wait_step(Some(&deps), &p, 5), DependencyWait::TimedOut);
    let no_wait = physics_deps(0);
    assert_eq!(dependency_wait_step(Some(&no_wait), &p, 0), DependencyWait::TimedOut);
}

#[test]
fn registered_dependencies_are_found() {
    let mut plan = ExecutionPlan::new();
    plan.register_system(SystemId::Physics, physics_deps(20)).expect("register");
    let found = plan.dependencies_of(SystemId::Physics).expect("registered");
    assert_eq!(found.depends_on, vec![SystemId::WorldGeneration, SystemId::Input]);
    assert_eq!(found.max_wait_time_ms, 20);
    assert!(plan.dependencies_of(SystemId::Audio).is_none());
}

#[test]
fn timeout_error_names_the_system() {
    let e = dependency_timeout_error(SystemId::Lighting);
    assert_eq!(e.to_string(), "Timeout error: Timeout waiting for dependencies of Lighting");
}

#[test]
fn report_files_each_outcome() {
    let mut r = FrameExecutionReport::new();
    r.record(SystemId::Audio, SystemOutcome::Unhealthy);
    r.record(SystemId::Physics, SystemOutcome::Executed(1500));
    r.record(SystemId::Renderer, SystemOutcome::OverBudget);
    r.record(SystemId::Lighting, SystemOutcome::DependencyFailure(dependency_timeout_error(SystemId::Lighting)));
    r.record(SystemId::UI, SystemOutcome::Failed(EngineError::SystemError { component: "ui".to_string(), error: "boom".to_string() }));
    assert_eq!(r.skipped_systems, vec![SystemId::Audio]);
    assert_eq!(r.executed_systems, vec![(SystemId::Physics, 1500)]);
    assert_eq!(r.budget_exceeded_systems, vec![SystemId::Renderer]);
    assert_eq!(r.failed_systems.len(), 2);
    assert_eq!(r.failed_systems[0].0, SystemId::Lighting);
    assert_eq!(r.failed_systems[0].1, "Timeout error: Timeout waiting for dependencies of Lighting");
    assert_eq!(r.failed_systems[1].0, SystemId::UI);
}

#[test]
fn health_decides_whether_a_system_runs() {
    assert!(!is_system_healthy(None));
    let mut h = SystemHealthRecord::new(SystemId::Physics);
    assert!(is_system_healthy(Some(h)));
    h.state = SystemState::Error;
    assert!(!is_system_healthy(Some(h)));
}

#[test]
fn failing_system_turns_unhealthy_after_five_errors() {
    let mut h = SystemHealthRecord::new(SystemId::Persistence);
    let err = EngineError::TimeoutError("slow".to_string());
    for n in 1..=4u32 {
        let (event, strategy) = handle_system_error(&mut h, &err, 77);
        assert_eq!(h.error_count, n);
        assert!(h.is_healthy);
        assert_eq!(h.state, SystemState::Error);
        assert_eq!(strategy, RecoveryStrategy::Shutdown);
        assert_eq!(event.timestamp_ms, 77);
        assert!(matches!(event.event_type, SystemEventType::SystemError(SystemId::Persistence)));
        assert_eq!(event.data, Some(b"Timeout error: slow".to_vec()));
        assert!(!is_system_healthy(Some(h)));
    }
    handle_system_error(&mut h, &err, 78);
    assert_eq!(h.error_count, 5);
    assert!(!h.is_healthy);
}
