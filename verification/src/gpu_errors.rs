//! GPU errors and the bookkeeping of recovery from them: a device marked lost refuses
//! further work, and too many operations without a success mark it lost.

use vstd::prelude::*;
use crate::error::num;
use crate::text::append_u64;

verus! {

/// Manages GPU buffers.
pub struct BufferManager;

/// Errors of GPU buffer management.
#[derive(Debug)]
pub enum GpuError {
    DeviceLost,
    InvalidEncoder,
    TooManyErrors,
    GpuPanic,
    ShaderCompilation { message: String },
    Other(String),
}

/// Errors of GPU operations run under recovery.
#[derive(Debug)]
pub enum GpuRecoveryError {
    DeviceLost,
    TooManyErrors { count: u32 },
    Panic { message: String },
    InvalidEncoder,
    BufferSizeMismatch { expected: u64, actual: u64 },
    ShaderCompilationFailed { message: String },
    OperationFailed { message: String },
}

/// The text that describes a recovery error.
pub open spec fn recovery_error_message(e: GpuRecoveryError) -> Seq<char> {
    match e {
        GpuRecoveryError::DeviceLost => "GPU device lost"@,
        GpuRecoveryError::TooManyErrors { count } => "Too many GPU errors: "@ + num(count as nat),
        GpuRecoveryError::Panic { message } => "GPU operation panicked: "@ + message@,
        GpuRecoveryError::InvalidEncoder => "Invalid command encoder"@,
        GpuRecoveryError::BufferSizeMismatch { expected, actual } => "Buffer size mismatch: expected "@
            + num(expected as nat) + ", got "@ + num(actual as nat),
        GpuRecoveryError::ShaderCompilationFailed { message } => "Shader compilation failed: "@
            + message@,
        GpuRecoveryError::OperationFailed { message } => "GPU operation failed: "@ + message@,
    }
}

impl GpuRecoveryError {
    /// The text that describes this error.
    pub fn to_string(&self) -> (r: String)
        ensures
            r@ == recovery_error_message(*self),
    {
        match self {
            GpuRecoveryError::DeviceLost => String::from_str("GPU device lost"),
            GpuRecoveryError::TooManyErrors { count } => {
                let mut s = String::from_str("Too many GPU errors: ");
                append_u64(&mut s, *count as u64);
                s
            },
            GpuRecoveryError::Panic { message } => {
                let mut s = String::from_str("GPU operation panicked: ");
                s.append(message.as_str());
                s
            },
            GpuRecoveryError::InvalidEncoder => String::from_str("Invalid command encoder"),
            GpuRecoveryError::BufferSizeMismatch { expected, actual } => {
                let mut s = String::from_str("Buffer size mismatch: expected ");
                append_u64(&mut s, *expected);
                s.append(", got ");
                append_u64(&mut s, *actual);
                s
            },
            GpuRecoveryError::ShaderCompilationFailed { message } => {
                let mut s = String::from_str("Shader compilation failed: ");
                s.append(message.as_str());
                s
            },
            GpuRecoveryError::OperationFailed { message } => {
                let mut s = String::from_str("GPU operation failed: ");
                s.append(message.as_str());
                s
            },
        }
    }
}

/// Replacing an error by a failed GPU operation that names what was being done.
pub trait GpuResultExt<T>: Sized {
    fn gpu_context(self, context: &str) -> Result<T, GpuRecoveryError>;
}

impl<T, E: core::fmt::Display> GpuResultExt<T> for Result<T, E> {
    /// The value where there is one; otherwise a failed operation whose message is the
    /// context, a colon and the error's text.
    fn gpu_context(self, context: &str) -> (r: Result<T, GpuRecoveryError>)
        ensures
            match self {
                Ok(v) => r == Ok::<T, GpuRecoveryError>(v),
                Err(e) => (r matches Err(GpuRecoveryError::OperationFailed { message })
                    && exists|text: String|
                    vstd::string::to_string_from_display_ensures::<E>(&e, text) && message@
                        == context@ + ": "@ + text@),
            },
    {
        match self {
            Ok(v) => Ok(v),
            Err(e) => {
                let text = e.to_string();
                let mut message = String::from_str(context);
                message.append(": ");
                message.append(text.as_str());
                Err(GpuRecoveryError::OperationFailed { message })
            },
        }
    }
}

/// Default number of failed operations tolerated before the device is marked lost.
pub const DEFAULT_MAX_ERRORS: u32 = 10;

/// Recovery bookkeeping: whether the device is lost, and how many operations have started
/// since the last success.
pub struct RecoveryState {
    pub device_lost: bool,
    pub error_count: u32,
    pub max_errors: u32,
}

/// The counter after one more operation, wrapping at the top of `u32`.
pub open spec fn next_count(count: u32) -> u32 {
    if count == u32::MAX {
        0
    } else {
        (count + 1) as u32
    }
}

/// How a guarded operation ended: its result, or the message of the panic it raised.
pub enum OperationOutcome<R> {
    Finished(Result<R, GpuRecoveryError>),
    Panicked(String),
}

impl RecoveryState {
    /// A healthy device with no failures and the default tolerance.
    pub fn new() -> (r: RecoveryState)
        ensures
            !r.device_lost,
            r.error_count == 0,
            r.max_errors == DEFAULT_MAX_ERRORS,
    {
        RecoveryState { device_lost: false, error_count: 0, max_errors: DEFAULT_MAX_ERRORS }
    }

    /// Whether the device is lost.
    pub fn is_device_lost(&self) -> (r: bool)
        ensures
            r == self.device_lost,
    {
        self.device_lost
    }

    /// Admits an operation: refused where the device is lost; otherwise the counter goes up,
    /// and where it already stood above the tolerance the device is marked lost and the
    /// operation refused.
    pub fn begin_operation(&mut self) -> (r: Result<(), GpuRecoveryError>)
        ensures
            final(self).max_errors == old(self).max_errors,
            old(self).device_lost ==> {
                &&& r matches Err(GpuRecoveryError::DeviceLost)
                &&& final(self).device_lost
                &&& final(self).error_count == old(self).error_count
            },
            !old(self).device_lost ==> {
                &&& final(self).error_count == next_count(old(self).error_count)
                &&& if old(self).error_count > old(self).max_errors {
                    &&& final(self).device_lost
                    &&& r matches Err(GpuRecoveryError::TooManyErrors { count })
                    &&& count == old(self).error_count
                } else {
                    &&& !final(self).device_lost
                    &&& r is Ok
                }
            },
    {
        if self.device_lost {
            return Err(GpuRecoveryError::DeviceLost);
        }
        let count = self.error_count;
        self.error_count = if count == u32::MAX {
            0
        } else {
            count + 1
        };
        if count > self.max_errors {
            self.device_lost = true;
            return Err(GpuRecoveryError::TooManyErrors { count });
        }
        Ok(())
    }

    /// Settles an admitted operation: a success resets the counter, a failure is passed on,
    /// and a panic marks the device lost.
    pub fn finish_operation<R>(&mut self, outcome: OperationOutcome<R>) -> (r: Result<
        R,
        GpuRecoveryError,
    >)
        ensures
            final(self).max_errors == old(self).max_errors,
            match outcome {
                OperationOutcome::Finished(Ok(v)) => {
                    &&& r == Ok::<R, GpuRecoveryError>(v)
                    &&& final(self).error_count == 0
                    &&& final(self).device_lost == old(self).device_lost
                },
                OperationOutcome::Finished(Err(e)) => {
                    &&& r == Err::<R, GpuRecoveryError>(e)
                    &&& final(self).error_count == old(self).error_count
                    &&& final(self).device_lost == old(self).device_lost
                },
                OperationOutcome::Panicked(message) => {
                    &&& r == Err::<R, GpuRecoveryError>(GpuRecoveryError::Panic { message })
                    &&& final(self).error_count == old(self).error_count
                    &&& final(self).device_lost
                },
            },
    {
        match outcome {
            OperationOutcome::Finished(Ok(v)) => {
                self.error_count = 0;
                Ok(v)
            },
            OperationOutcome::Finished(Err(e)) => Err(e),
            OperationOutcome::Panicked(message) => {
                self.device_lost = true;
                Err(GpuRecoveryError::Panic { message })
            },
        }
    }
}

} // verus!
