//! Persistence errors, save priorities and the save-operation queue.

use vstd::prelude::*;

verus! {

/// Errors of the persistence layer.
#[derive(Debug)]
pub enum PersistenceError {
    SaveFailed(String),
    IoError(String),
    SerializationError(String),
    DeserializationError(String),
    CompressionError(String),
    VersionMismatch { expected: String, found: String },
    CorruptedData(String),
    MigrationError(String),
    BackupError(String),
    LockPoisoned(String),
    PlayerNotFound(String),
    CapacityExceeded(String),
}

/// Results of the persistence layer.
pub type PersistenceResult<T> = Result<T, PersistenceError>;

/// Priority of a save operation.
#[derive(Clone, Copy, Debug, PartialEq, Eq, Structural)]
pub enum SavePriority {
    Critical,
    High,
    Normal,
    Low,
}

/// A save operation; `F` is the scalar type of player positions.
pub enum SaveOperation<F> {
    Save,
    Load,
    Player { player_id: u32, uuid: String, position: [F; 3], priority: SavePriority },
    ChunkBatch { chunks: Vec<u64>, positions: Vec<(i32, i32, i32)>, priority: SavePriority },
}

/// Handle to the atomic save machinery.
pub struct AtomicSaveData;

impl AtomicSaveData {
    /// Queues a save operation; queueing always succeeds.
    pub fn queue_operation<F>(&self, _op: SaveOperation<F>) -> (r: PersistenceResult<()>)
        ensures
            r is Ok,
    {
        Ok(())
    }
}

/// Queues a save operation on any save target; queueing always succeeds.
pub fn queue_operation<T, F>(_data: &T, _op: SaveOperation<F>) -> (r: PersistenceResult<()>)
    ensures
        r is Ok,
{
    Ok(())
}

} // verus!
