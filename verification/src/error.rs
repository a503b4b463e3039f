//! The engine's error type and the helpers that produce it.

use vstd::prelude::*;
use crate::persistence::PersistenceError;
use crate::text::{
    append_triple, append_u64, append_i64, decimal_digits, parse_u32_or_zero, triple_text,
    u32_text_value,
};

verus! {

/// Main error type for the engine.
#[derive(Debug)]
#[allow(inconsistent_fields)]
pub enum EngineError {
    // Resource errors
    BufferAccess { index: usize, size: usize },
    TextureNotFound { id: String },
    ShaderCompilation { source: String, error: String },
    MeshGeneration { chunk_pos: (i32, i32, i32), error: String },
    // World errors
    ChunkNotLoaded { pos: (i32, i32, i32) },
    BlockOutOfBounds { pos: (i32, i32, i32), chunk_size: u32 },
    InvalidBlockType { id: u32 },
    BiomeNotFound { id: u32 },
    // Persistence errors
    SaveFailed { path: String, error: String },
    LoadFailed { path: String, error: String },
    CorruptedData { reason: String },
    VersionMismatch { expected: u32, found: u32 },
    // Network errors
    ConnectionFailed { addr: String, error: String },
    ProtocolError { message: String },
    PacketTooLarge { size: usize, max_size: usize },
    PlayerNotFound { id: u64 },
    // Threading errors
    LockPoisoned { resource: String },
    ChannelClosed { name: String },
    TaskJoinError { task: String },
    // GPU errors
    DeviceNotFound,
    BufferCreationFailed { size: u64, usage: String },
    BindGroupLayoutMismatch { expected: String, found: String },
    RenderPipelineError { error: String },
    // Memory errors
    AllocationFailed { size: usize, reason: String },
    OutOfMemory { requested: usize, available: usize },
    // Configuration errors
    InvalidConfig { field: String, value: String, reason: String },
    MissingConfig { field: String },
    // System errors
    InitializationError(String),
    IoError { path: String, error: String },
    Utf8Error { context: String },
    ParseError { value: String, expected_type: String },
    // Hot reload errors
    AssetWatchError { path: String, error: String },
    ShaderReloadFailed { name: String, error: String },
    // System errors (continued)
    SystemError { component: String, error: String },
    BufferError { operation: String, error: String },
    StateError { expected: String, actual: String },
    ResourceNotFound { resource_type: String, id: String },
    GpuOperationFailed { operation: String, error: String },
    SerializationError { context: String, error: String },
    DeserializationError { context: String, error: String },
    // Integration errors
    ValidationFailed(String),
    TimeoutError(String),
    ProcessingFailed(String),
    ResourceExhausted(String),
    FeatureDisabled(String),
    // Generic fallback
    Internal { message: String },
}

/// Results in the engine.
pub type EngineResult<T> = Result<T, EngineError>;

/// Decimal text of a natural number.
pub open spec fn num(n: nat) -> Seq<char> {
    decimal_digits(n)
}

/// The text that describes an error, as the error's `Display` writes it.
pub open spec fn error_message(e: EngineError) -> Seq<char> {
    match e {
        EngineError::BufferAccess { index, size } => "Buffer access out of bounds: index "@
            + num(index as nat) + " >= size "@ + num(size as nat),
        EngineError::TextureNotFound { id } => "Texture not found: "@ + id@,
        EngineError::ShaderCompilation { source, error } => "Shader compilation failed for "@
            + source@ + ": "@ + error@,
        EngineError::MeshGeneration { chunk_pos, error } => "Mesh generation failed for chunk "@
            + triple_text(chunk_pos) + ": "@ + error@,
        EngineError::ChunkNotLoaded { pos } => "Chunk not loaded at position "@ + triple_text(pos),
        EngineError::BlockOutOfBounds { pos, chunk_size } => "Block position "@ + triple_text(pos)
            + " out of bounds for chunk size "@ + num(chunk_size as nat),
        EngineError::InvalidBlockType { id } => "Invalid block type ID: "@ + num(id as nat),
        EngineError::BiomeNotFound { id } => "Biome not found: "@ + num(id as nat),
        EngineError::SaveFailed { path, error } => "Save failed for "@ + path@ + ": "@ + error@,
        EngineError::LoadFailed { path, error } => "Load failed for "@ + path@ + ": "@ + error@,
        EngineError::CorruptedData { reason } => "Data corrupted: "@ + reason@,
        EngineError::VersionMismatch { expected, found } => "Version mismatch: expected "@
            + num(expected as nat) + ", found "@ + num(found as nat),
        EngineError::ConnectionFailed { addr, error } => "Connection failed to "@ + addr@ + ": "@
            + error@,
        EngineError::ProtocolError { message } => "Protocol error: "@ + message@,
        EngineError::PacketTooLarge { size, max_size } => "Packet too large: "@ + num(size as nat)
            + " bytes (max: "@ + num(max_size as nat) + ")"@,
        EngineError::PlayerNotFound { id } => "Player not found: "@ + num(id as nat),
        EngineError::LockPoisoned { resource } => "Lock poisoned for resource: "@ + resource@,
        EngineError::ChannelClosed { name } => "Channel closed: "@ + name@,
        EngineError::TaskJoinError { task } => "Task join error: "@ + task@,
        EngineError::DeviceNotFound => "GPU device not found"@,
        EngineError::BufferCreationFailed { size, usage } => "Buffer creation failed: size="@
            + num(size as nat) + ", usage="@ + usage@,
        EngineError::BindGroupLayoutMismatch { expected, found } =>
            "Bind group layout mismatch: expected "@ + expected@ + ", found "@ + found@,
        EngineError::RenderPipelineError { error } => "Render pipeline error: "@ + error@,
        EngineError::AllocationFailed { size, reason } => "Allocation failed for "@
            + num(size as nat) + " bytes: "@ + reason@,
        EngineError::OutOfMemory { requested, available } => "Out of memory: requested "@
            + num(requested as nat) + " bytes, available "@ + num(available as nat),
        EngineError::InvalidConfig { field, value, reason } => "Invalid config: "@ + field@
            + " = "@ + value@ + " ("@ + reason@ + ")"@,
        EngineError::MissingConfig { field } => "Missing required config: "@ + field@,
        EngineError::InitializationError(msg) => "Initialization error: "@ + msg@,
        EngineError::IoError { path, error } => "IO error for "@ + path@ + ": "@ + error@,
        EngineError::Utf8Error { context } => "UTF-8 error in "@ + context@,
        EngineError::ParseError { value, expected_type } => "Parse error: '"@ + value@
            + "' is not a valid "@ + expected_type@,
        EngineError::AssetWatchError { path, error } => "Asset watch error for "@ + path@
            + ": "@ + error@,
        EngineError::ShaderReloadFailed { name, error } => "Shader reload failed for "@ + name@
            + ": "@ + error@,
        EngineError::SystemError { component, error } => "System error in "@ + component@
            + ": "@ + error@,
        EngineError::BufferError { operation, error } => "Buffer error during "@ + operation@
            + ": "@ + error@,
        EngineError::StateError { expected, actual } => "State error: expected "@ + expected@
            + ", actual "@ + actual@,
        EngineError::ResourceNotFound { resource_type, id } => "Resource not found: "@
            + resource_type@ + " '"@ + id@ + "'"@,
        EngineError::GpuOperationFailed { operation, error } => "GPU operation '"@ + operation@
            + "' failed: "@ + error@,
        EngineError::SerializationError { context, error } => "Serialization error in "@
            + context@ + ": "@ + error@,
        EngineError::DeserializationError { context, error } => "Deserialization error in "@
            + context@ + ": "@ + error@,
        EngineError::ValidationFailed(msg) => "Validation failed: "@ + msg@,
        EngineError::TimeoutError(msg) => "Timeout error: "@ + msg@,
        EngineError::ProcessingFailed(msg) => "Processing failed: "@ + msg@,
        EngineError::ResourceExhausted(msg) => "Resource exhausted: "@ + msg@,
        EngineError::FeatureDisabled(msg) => "Feature disabled: "@ + msg@,
        EngineError::Internal { message } => "Internal error: "@ + message@,
    }
}

/// `a` followed by `x`.
fn text1(a: &str, x: &str) -> (s: String)
    ensures
        s@ == a@ + x@,
{
    let mut s = String::from_str(a);
    s.append(x);
    s
}

/// `a`, `x`, `b`, `y` in turn.
fn text2(a: &str, x: &str, b: &str, y: &str) -> (s: String)
    ensures
        s@ == a@ + x@ + b@ + y@,
{
    let mut s = String::from_str(a);
    s.append(x);
    s.append(b);
    s.append(y);
    s
}

/// `a`, the decimal `x`, `b`, the decimal `y` in turn.
fn text_nums(a: &str, x: u64, b: &str, y: u64) -> (s: String)
    ensures
        s@ == a@ + num(x as nat) + b@ + num(y as nat),
{
    let mut s = String::from_str(a);
    append_u64(&mut s, x);
    s.append(b);
    append_u64(&mut s, y);
    s
}

/// `a` and the decimal `x`.
fn text_num(a: &str, x: u64) -> (s: String)
    ensures
        s@ == a@ + num(x as nat),
{
    let mut s = String::from_str(a);
    append_u64(&mut s, x);
    s
}

impl EngineError {
    /// The text that describes this error.
    pub fn to_string(&self) -> (s: String)
        ensures
            s@ == error_message(*self),
    {
        match self {
            EngineError::BufferAccess { index, size } => text_nums(
                "Buffer access out of bounds: index ",
                *index as u64,
                " >= size ",
                *size as u64,
            ),
            EngineError::TextureNotFound { id } => text1("Texture not found: ", id.as_str()),
            EngineError::ShaderCompilation { source, error } => text2(
                "Shader compilation failed for ",
                source.as_str(),
                ": ",
                error.as_str(),
            ),
            EngineError::MeshGeneration { chunk_pos, error } => {
                let mut s = String::from_str("Mesh generation failed for chunk ");
                append_triple(&mut s, *chunk_pos);
                s.append(": ");
                s.append(error.as_str());
                s
            },
            EngineError::ChunkNotLoaded { pos } => {
                let mut s = String::from_str("Chunk not loaded at position ");
                append_triple(&mut s, *pos);
                s
            },
            EngineError::BlockOutOfBounds { pos, chunk_size } => {
                let mut s = String::from_str("Block position ");
                append_triple(&mut s, *pos);
                s.append(" out of bounds for chunk size ");
                append_u64(&mut s, *chunk_size as u64);
                s
            },
            EngineError::InvalidBlockType { id } => text_num("Invalid block type ID: ", *id as u64),
            EngineError::BiomeNotFound { id } => text_num("Biome not found: ", *id as u64),
            EngineError::SaveFailed { path, error } => text2(
                "Save failed for ",
                path.as_str(),
                ": ",
                error.as_str(),
            ),
            EngineError::LoadFailed { path, error } => text2(
                "Load failed for ",
                path.as_str(),
                ": ",
                error.as_str(),
            ),
            EngineError::CorruptedData { reason } => text1("Data corrupted: ", reason.as_str()),
            EngineError::VersionMismatch { expected, found } => text_nums(
                "Version mismatch: expected ",
                *expected as u64,
                ", found ",
                *found as u64,
            ),
            EngineError::ConnectionFailed { addr, error } => text2(
                "Connection failed to ",
                addr.as_str(),
                ": ",
                error.as_str(),
            ),
            EngineError::ProtocolError { message } => text1("Protocol error: ", message.as_str()),
            EngineError::PacketTooLarge { size, max_size } => {
                let mut s = text_nums(
                    "Packet too large: ",
                    *size as u64,
                    " bytes (max: ",
                    *max_size as u64,
                );
                s.append(")");
                s
            },
            EngineError::PlayerNotFound { id } => text_num("Player not found: ", *id),
            EngineError::LockPoisoned { resource } => text1(
                "Lock poisoned for resource: ",
                resource.as_str(),
            ),
            EngineError::ChannelClosed { name } => text1("Channel closed: ", name.as_str()),
            EngineError::TaskJoinError { task } => text1("Task join error: ", task.as_str()),
            EngineError::DeviceNotFound => String::from_str("GPU device not found"),
            EngineError::BufferCreationFailed { size, usage } => {
                let mut s = text_num("Buffer creation failed: size=", *size);
                s.append(", usage=");
                s.append(usage.as_str());
                s
            },
            EngineError::BindGroupLayoutMismatch { expected, found } => text2(
                "Bind group layout mismatch: expected ",
                expected.as_str(),
                ", found ",
                found.as_str(),
            ),
            EngineError::RenderPipelineError { error } => text1(
                "Render pipeline error: ",
                error.as_str(),
            ),
            EngineError::AllocationFailed { size, reason } => {
                let mut s = text_num("Allocation failed for ", *size as u64);
                s.append(" bytes: ");
                s.append(reason.as_str());
                s
            },
            EngineError::OutOfMemory { requested, available } => text_nums(
                "Out of memory: requested ",
                *requested as u64,
                " bytes, available ",
                *available as u64,
            ),
            EngineError::InvalidConfig { field, value, reason } => {
                let mut s = text2("Invalid config: ", field.as_str(), " = ", value.as_str());
                s.append(" (");
                s.append(reason.as_str());
                s.append(")");
                s
            },
            EngineError::MissingConfig { field } => text1(
                "Missing required config: ",
                field.as_str(),
            ),
            EngineError::InitializationError(msg) => text1(
                "Initialization error: ",
                msg.as_str(),
            ),
            EngineError::IoError { path, error } => text2(
                "IO error for ",
                path.as_str(),
                ": ",
                error.as_str(),
            ),
            EngineError::Utf8Error { context } => text1("UTF-8 error in ", context.as_str()),
            EngineError::ParseError { value, expected_type } => text2(
                "Parse error: '",
                value.as_str(),
                "' is not a valid ",
                expected_type.as_str(),
            ),
            EngineError::AssetWatchError { path, error } => text2(
                "Asset watch error for ",
                path.as_str(),
                ": ",
                error.as_str(),
            ),
            EngineError::ShaderReloadFailed { name, error } => text2(
                "Shader reload failed for ",
                name.as_str(),
                ": ",
                error.as_str(),
            ),
            EngineError::SystemError { component, error } => text2(
                "System error in ",
                component.as_str(),
                ": ",
                error.as_str(),
            ),
            EngineError::BufferError { operation, error } => text2(
                "Buffer error during ",
                operation.as_str(),
                ": ",
                error.as_str(),
            ),
            EngineError::StateError { expected, actual } => text2(
                "State error: expected ",
                expected.as_str(),
                ", actual ",
                actual.as_str(),
            ),
            EngineError::ResourceNotFound { resource_type, id } => {
                let mut s = text2("Resource not found: ", resource_type.as_str(), " '", id.as_str());
                s.append("'");
                s
            },
            EngineError::GpuOperationFailed { operation, error } => text2(
                "GPU operation '",
                operation.as_str(),
                "' failed: ",
                error.as_str(),
            ),
            EngineError::SerializationError { context, error } => text2(
                "Serialization error in ",
                context.as_str(),
                ": ",
                error.as_str(),
            ),
            EngineError::DeserializationError { context, error } => text2(
                "Deserialization error in ",
                context.as_str(),
                ": ",
                error.as_str(),
            ),
            EngineError::ValidationFailed(msg) => text1("Validation failed: ", msg.as_str()),
            EngineError::TimeoutError(msg) => text1("Timeout error: ", msg.as_str()),
            EngineError::ProcessingFailed(msg) => text1("Processing failed: ", msg.as_str()),
            EngineError::ResourceExhausted(msg) => text1("Resource exhausted: ", msg.as_str()),
            EngineError::FeatureDisabled(msg) => text1("Feature disabled: ", msg.as_str()),
            EngineError::Internal { message } => text1("Internal error: ", message.as_str()),
        }
    }
}

/// Whether `r` is the engine error that the persistence error `err` becomes: the message moves
/// into the matching variant, a version text becomes its number (0 where it spells none), and
/// the kinds the engine has no variant for become `Internal` with a prefix naming the kind.
pub open spec fn persistence_conversion(err: PersistenceError, r: EngineError) -> bool {
    match err {
        PersistenceError::SaveFailed(e) => (r matches EngineError::SaveFailed { path, error }
            && path@.len() == 0 && error@ == e@),
        PersistenceError::IoError(e) => (r matches EngineError::IoError { path, error }
            && path@.len() == 0 && error@ == e@),
        PersistenceError::SerializationError(e) => (r matches EngineError::SerializationError {
            context,
            error,
        } && context@ == "persistence"@ && error@ == e@),
        PersistenceError::DeserializationError(e) => (
        r matches EngineError::DeserializationError { context, error } && context@
            == "persistence"@ && error@ == e@),
        PersistenceError::CompressionError(e) => (r matches EngineError::Internal { message }
            && message@ == "Compression error: "@ + e@),
        PersistenceError::VersionMismatch { expected, found } => r == EngineError::VersionMismatch {
            expected: text_or_zero(expected@),
            found: text_or_zero(found@),
        },
        PersistenceError::CorruptedData(e) => (r matches EngineError::CorruptedData { reason }
            && reason@ == e@),
        PersistenceError::MigrationError(e) => (r matches EngineError::Internal { message }
            && message@ == "Migration error: "@ + e@),
        PersistenceError::BackupError(e) => (r matches EngineError::Internal { message }
            && message@ == "Backup error: "@ + e@),
        PersistenceError::LockPoisoned(e) => (r matches EngineError::LockPoisoned { resource }
            && resource@ == e@),
        PersistenceError::PlayerNotFound(e) => (r matches EngineError::Internal { message }
            && message@ == "Player not found: "@ + e@),
        PersistenceError::CapacityExceeded(e) => (r matches EngineError::Internal { message }
            && message@ == "Capacity exceeded: "@ + e@),
    }
}

/// The number a version text spells, or 0.
pub open spec fn text_or_zero(s: Seq<char>) -> u32 {
    match u32_text_value(s) {
        Some(v) => v,
        None => 0u32,
    }
}

impl EngineError {
    /// The engine error that a persistence error becomes.
    pub fn from_persistence(err: PersistenceError) -> (r: EngineError)
        ensures
            persistence_conversion(err, r),
    {
        match err {
            PersistenceError::SaveFailed(e) => EngineError::SaveFailed { path: String::new(), error: e },
            PersistenceError::IoError(e) => EngineError::IoError { path: String::new(), error: e },
            PersistenceError::SerializationError(e) => EngineError::SerializationError {
                context: String::from_str("persistence"),
                error: e,
            },
            PersistenceError::DeserializationError(e) => EngineError::DeserializationError {
                context: String::from_str("persistence"),
                error: e,
            },
            PersistenceError::CompressionError(e) => EngineError::Internal {
                message: text1("Compression error: ", e.as_str()),
            },
            PersistenceError::VersionMismatch { expected, found } => EngineError::VersionMismatch {
                expected: parse_u32_or_zero(expected.as_str()),
                found: parse_u32_or_zero(found.as_str()),
            },
            PersistenceError::CorruptedData(e) => EngineError::CorruptedData { reason: e },
            PersistenceError::MigrationError(e) => EngineError::Internal {
                message: text1("Migration error: ", e.as_str()),
            },
            PersistenceError::BackupError(e) => EngineError::Internal {
                message: text1("Backup error: ", e.as_str()),
            },
            PersistenceError::LockPoisoned(e) => EngineError::LockPoisoned { resource: e },
            PersistenceError::PlayerNotFound(e) => EngineError::Internal {
                message: text1("Player not found: ", e.as_str()),
            },
            PersistenceError::CapacityExceeded(e) => EngineError::Internal {
                message: text1("Capacity exceeded: ", e.as_str()),
            },
        }
    }
}

impl From<PersistenceError> for EngineError {
    fn from(err: PersistenceError) -> (r: EngineError)
        ensures
            persistence_conversion(err, r),
    {
        EngineError::from_persistence(err)
    }
}

impl vstd::std_specs::convert::FromSpecImpl<PersistenceError> for EngineError {
    /// A `String` is not determined by its text, so no single value is promised here;
    /// `persistence_conversion` states what `from` returns.
    open spec fn obeys_from_spec() -> bool {
        false
    }

    open spec fn from_spec(v: PersistenceError) -> EngineError {
        choose|r: EngineError| persistence_conversion(v, r)
    }
}

/// Turning an absent value into an engine error.
pub trait OptionExt<T>: Sized {
    fn ok_or_engine<F: FnOnce() -> EngineError>(self, f: F) -> EngineResult<T>
        requires
            f.requires(()),
    ;
}

impl<T> OptionExt<T> for Option<T> {
    /// The value where there is one; otherwise the error that `f` makes.
    fn ok_or_engine<F: FnOnce() -> EngineError>(self, f: F) -> (r: EngineResult<T>)
        ensures
            match self {
                Some(v) => r == Ok::<T, EngineError>(v),
                None => (r matches Err(e) && f.ensures((), e)),
            },
    {
        match self {
            Some(v) => Ok(v),
            None => Err(f()),
        }
    }
}

/// Replacing an error by an engine error that says what was being done.
pub trait ErrorContext<T>: Sized {
    fn context(self, msg: &str) -> EngineResult<T>;

    fn with_context<F: FnOnce() -> String>(self, f: F) -> EngineResult<T>
        requires
            f.requires(()),
    ;
}

impl<T, E> ErrorContext<T> for Result<T, E> {
    /// The value where there is one; otherwise an `Internal` error whose message is `msg`.
    fn context(self, msg: &str) -> (r: EngineResult<T>)
        ensures
            match self {
                Ok(v) => r == Ok::<T, EngineError>(v),
                Err(_) => (r matches Err(EngineError::Internal { message }) && message@ == msg@),
            },
    {
        match self {
            Ok(v) => Ok(v),
            Err(_) => Err(EngineError::Internal { message: String::from_str(msg) }),
        }
    }

    /// The value where there is one; otherwise an `Internal` error whose message `f` makes.
    fn with_context<F: FnOnce() -> String>(self, f: F) -> (r: EngineResult<T>)
        ensures
            match self {
                Ok(v) => r == Ok::<T, EngineError>(v),
                Err(_) => (r matches Err(EngineError::Internal { message }) && f.ensures((), message)),
            },
    {
        match self {
            Ok(v) => Ok(v),
            Err(_) => Err(EngineError::Internal { message: f() }),
        }
    }
}

} // verus!