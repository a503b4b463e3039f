use hearth_engine::gpu_errors::{GpuRecoveryError, GpuResultExt, OperationOutcome, RecoveryState};

#[test]
fn test_error_recovery_creation() {}

#[test]
fn recovery_messages() {
    assert_eq!(GpuRecoveryError::DeviceLost.to_string(), "GPU device lost");
    assert_eq!(
        GpuRecoveryError::TooManyErrors { count: 11 }.to_string(),
        "Too many GPU errors: 11"
    );
    assert_eq!(
        GpuRecoveryError::BufferSizeMismatch { expected: 64, actual: 32 }.to_string(),
        "Buffer size mismatch: expected 64, got 32"
    );
}

#[test]
fn gpu_context_prefixes_the_error() {
    let r: Result<u8, String> = Err("queue full".to_string());
    match r.gpu_context("submit") {
        Err(GpuRecoveryError::OperationFailed { message }) => {
            assert_eq!(message, "submit: queue full")
        }
        _ => panic!("expected a failed operation"),
    }
    let ok: Result<u8, String> = Ok(4);
    assert_eq!(ok.gpu_context("submit").ok(), Some(4));
}

#[test]
fn too_many_errors_marks_the_device_lost() {
    let mut state = RecoveryState::new();
    for _ in 0..11 {
        assert!(state.begin_operation().is_ok());
    }
    match state.begin_operation() {
        Err(GpuRecoveryError::TooManyErrors { count }) => assert_eq!(count, 11),
        _ => panic!("expected too many errors"),
    }
    assert!(state.is_device_lost());
    assert!(matches!(state.begin_operation(), Err(GpuRecoveryError::DeviceLost)));
}

#[test]
fn success_resets_the_counter_and_panic_loses_the_device() {
    let mut state = RecoveryState::new();
    assert!(state.begin_operation().is_ok());
    let r = state.finish_operation(OperationOutcome::Finished(Ok::<u32, GpuRecoveryError>(5)));
    assert_eq!(r.ok(), Some(5));
    assert_eq!(state.error_count, 0);
    assert!(state.begin_operation().is_ok());
    let r = state.finish_operation::<u32>(OperationOutcome::Panicked("boom".to_string()));
    match r {
        Err(GpuRecoveryError::Panic { message }) => assert_eq!(message, "boom"),
        _ => panic!("expected a panic error"),
    }
    assert!(state.is_device_lost());
}
