//! Shared engine state buffers: chunks, world modifications, physics flags, network queues
//! and render statistics.

use vstd::prelude::*;
use std::collections::VecDeque;
use crate::world_types::{BlockId, ChunkPos, VoxelPos};

verus! {

/// State flags of a chunk.
#[derive(Debug, Clone, Copy, PartialEq, Eq, Structural)]
pub struct ChunkFlags {
    pub is_generated: bool,
    pub is_meshed: bool,
    pub is_dirty: bool,
    pub is_empty: bool,
}

impl Default for ChunkFlags {
    /// A chunk not generated, not meshed, clean and empty.
    fn default() -> (r: Self)
        ensures
            r == (ChunkFlags { is_generated: false, is_meshed: false, is_dirty: false, is_empty: true }),
    {
        ChunkFlags { is_generated: false, is_meshed: false, is_dirty: false, is_empty: true }
    }
}

/// The blocks and light of one chunk.
#[derive(Clone)]
pub struct ChunkBuffer {
    pub position: ChunkPos,
    pub blocks: Vec<BlockId>,
    pub light_levels: Vec<u8>,
    pub flags: ChunkFlags,
    pub last_modified: u64,
}

/// A change of one block.
#[derive(Debug, Clone, Copy, PartialEq, Eq, Structural)]
pub struct WorldModification {
    pub position: VoxelPos,
    pub old_block: BlockId,
    pub new_block: BlockId,
    pub timestamp: u64,
}

/// Physics flags of an entity.
#[derive(Debug, Clone, Copy, PartialEq, Eq, Structural)]
pub struct PhysicsFlags {
    pub is_static: bool,
    pub is_kinematic: bool,
    pub is_dynamic: bool,
    pub has_gravity: bool,
    pub is_grounded: bool,
}

impl Default for PhysicsFlags {
    /// A dynamic entity under gravity, not on the ground.
    fn default() -> (r: Self)
        ensures
            r == (PhysicsFlags {
                is_static: false,
                is_kinematic: false,
                is_dynamic: true,
                has_gravity: true,
                is_grounded: false,
            }),
    {
        PhysicsFlags {
            is_static: false,
            is_kinematic: false,
            is_dynamic: true,
            has_gravity: true,
            is_grounded: false,
        }
    }
}

/// A network packet.
#[derive(Debug, Clone)]
pub struct NetworkPacket {
    pub client_id: u32,
    pub packet_type: u16,
    pub data: Vec<u8>,
    pub timestamp: u64,
}

/// Network traffic counters.
#[derive(Debug, Clone, Copy, PartialEq, Eq, Structural)]
pub struct NetworkStats {
    pub bytes_sent: u64,
    pub bytes_received: u64,
    pub packets_sent: u64,
    pub packets_received: u64,
    pub packets_dropped: u64,
}

impl Default for NetworkStats {
    /// No traffic.
    fn default() -> (r: Self)
        ensures
            r == (NetworkStats {
                bytes_sent: 0,
                bytes_received: 0,
                packets_sent: 0,
                packets_received: 0,
                packets_dropped: 0,
            }),
    {
        NetworkStats {
            bytes_sent: 0,
            bytes_received: 0,
            packets_sent: 0,
            packets_received: 0,
            packets_dropped: 0,
        }
    }
}

/// Network queues of the engine.
#[derive(Clone)]
pub struct NetworkBuffers {
    pub client_count: u32,
    pub inbound_packets: VecDeque<NetworkPacket>,
    pub outbound_packets: VecDeque<NetworkPacket>,
    pub stats: NetworkStats,
}

impl NetworkBuffers {
    /// No clients, empty queues and no traffic.
    pub fn new() -> (r: NetworkBuffers)
        ensures
            r.client_count == 0,
            r.inbound_packets@.len() == 0,
            r.outbound_packets@.len() == 0,
            r.stats.bytes_sent == 0 && r.stats.bytes_received == 0 && r.stats.packets_sent == 0,
            r.stats.packets_received == 0 && r.stats.packets_dropped == 0,
    {
        NetworkBuffers {
            client_count: 0,
            inbound_packets: VecDeque::new(),
            outbound_packets: VecDeque::new(),
            stats: NetworkStats::default(),
        }
    }
}

} // verus!
