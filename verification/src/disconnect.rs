//! Player disconnect handling: the players whose data is being saved, the
//! chunks saved around them, the counters, and the decisions of the
//! periodic worker (time-outs and completed saves).
//!
//! Times are milliseconds on the caller's monotonic clock.

use vstd::prelude::*;
use crate::persistence::{PersistenceResult, SaveOperation, SavePriority};
use crate::world_types::ChunkPos;

verus! {

/// Player connection state.
#[derive(Debug, Clone, Copy, PartialEq, Eq, Structural)]
pub enum ConnectionState {
    Connected,
    Disconnecting,
    Disconnected,
    SaveComplete,
}

/// Reason for player disconnection.
#[derive(Debug, Clone, Copy, PartialEq, Eq, Structural)]
pub enum DisconnectReason {
    ClientQuit,
    Timeout,
    Kicked,
    Error,
}

/// Configuration for disconnect handling.
#[derive(Debug, Clone, Copy)]
pub struct DisconnectConfig {
    /// Maximum time to wait for save completion before force disconnect (ms).
    pub max_save_timeout_ms: u64,
    /// Radius around player to save chunks.
    pub chunk_save_radius: i32,
    /// Enable emergency save mode for critical failures.
    pub emergency_save_enabled: bool,
    /// Grace period for reconnection before save (ms).
    pub reconnect_grace_period_ms: u64,
}

impl Default for DisconnectConfig {
    fn default() -> (r: Self)
        ensures
            r.max_save_timeout_ms == 30000,
            r.chunk_save_radius == 3,
            r.emergency_save_enabled,
            r.reconnect_grace_period_ms == 5000,
    {
        DisconnectConfig {
            max_save_timeout_ms: 30000,
            chunk_save_radius: 3,
            emergency_save_enabled: true,
            reconnect_grace_period_ms: 5000,
        }
    }
}

/// Statistics for disconnect handling.
#[derive(Debug, Clone, Copy)]
pub struct DisconnectStats {
    pub players_disconnecting: usize,
    pub successful_saves: u64,
    pub failed_saves: u64,
    pub emergency_saves: u64,
    /// Average save time (ms).
    pub average_save_time_ms: u64,
    pub force_disconnects: u64,
}

impl DisconnectStats {
    /// All counters at zero.
    pub open spec fn zero_spec() -> DisconnectStats {
        DisconnectStats {
            players_disconnecting: 0,
            successful_saves: 0,
            failed_saves: 0,
            emergency_saves: 0,
            average_save_time_ms: 0,
            force_disconnects: 0,
        }
    }

    /// All counters at zero.
    pub fn zero() -> (r: Self)
        ensures
            r == Self::zero_spec(),
    {
        DisconnectStats {
            players_disconnecting: 0,
            successful_saves: 0,
            failed_saves: 0,
            emergency_saves: 0,
            average_save_time_ms: 0,
            force_disconnects: 0,
        }
    }
}

/// Edge length of a chunk, in blocks: the engine's chunk size, which puts a player at block
/// (16, 16) in chunk (0, 0) so that a radius of one saves chunks -1 to 1 around it.
pub const CHUNK_EDGE: i32 = 50;

/// The chunk coordinate of a block coordinate (rounding down).
pub open spec fn chunk_coord(b: int) -> int {
    b / 50
}

/// `p` is one of the chunks within `radius` (in x and z, at height 0) of
/// the chunk holding block column (`bx`, `bz`).
pub open spec fn in_save_area(p: ChunkPos, radius: int, bx: int, bz: int) -> bool {
    &&& p.y == 0
    &&& chunk_coord(bx) - radius <= p.x <= chunk_coord(bx) + radius
    &&& chunk_coord(bz) - radius <= p.z <= chunk_coord(bz) + radius
}

/// Number of chunks along one side of the save area.
pub open spec fn save_side(radius: int) -> int {
    if radius >= 0 { 2 * radius + 1 } else { 0 }
}

/// The chunk coordinate of a block coordinate (rounding down).
pub fn chunk_of_block(b: i32) -> (r: i32)
    ensures
        r == chunk_coord(b as int),
{
    if b >= 0 {
        b / CHUNK_EDGE
    } else {
        -((-(b as i64) - 1) / 50) as i32 - 1
    }
}

/// The chunks to save around a player standing in block column (`bx`,
/// `bz`): every chunk at height 0 within `radius` chunks in x and z.
pub fn get_chunks_around_player(radius: i32, bx: i32, bz: i32) -> (r: Vec<ChunkPos>)
    requires
        radius > i32::MIN,
        radius <= 2_000_000_000,
        save_side(radius as int) * save_side(radius as int) <= usize::MAX,
    ensures
        r@.no_duplicates(),
        r@.len() == save_side(radius as int) * save_side(radius as int),
        forall|p: ChunkPos| r@.contains(p) <==> in_save_area(p, radius as int, bx as int, bz as int),
{
    let chunk_x = chunk_of_block(bx);
    let chunk_z = chunk_of_block(bz);
    let mut chunks: Vec<ChunkPos> = Vec::new();
    let ghost side = save_side(radius as int);
    let r64 = radius as i64;
    let mut dx: i64 = -r64;
    assert((dx + r64) * side == 0) by (nonlinear_arith)
        requires
            dx + r64 == 0;
    while dx <= r64
        invariant
            -r64 <= dx,
            r64 >= 0 ==> dx <= r64 + 1,
            r64 < 0 ==> dx == -r64,
            chunk_x == chunk_coord(bx as int),
            chunk_z == chunk_coord(bz as int),
            -50_000_000 <= chunk_x <= 50_000_000,
            -50_000_000 <= chunk_z <= 50_000_000,
            r64 == radius,
            radius <= 2_000_000_000,
            side == save_side(radius as int),
            side * side <= usize::MAX,
            chunks@.no_duplicates(),
            r64 >= 0 ==> chunks@.len() == (dx + r64) * side,
            forall|p: ChunkPos| chunks@.contains(p) <==> (in_save_area(p, radius as int, bx as int, bz as int)
                && p.x < chunk_x + dx),
        decreases r64 + 1 - dx,
    {
        let mut dz: i64 = -r64;
        let ghost row_start = chunks@;
        assert((dx + r64) * side + side <= side * side) by (nonlinear_arith)
            requires
                -r64 <= dx <= r64,
                side == 2 * r64 + 1;
        while dz <= r64
            invariant
                -r64 <= dx <= r64,
                -r64 <= dz <= r64 + 1,
                chunk_x == chunk_coord(bx as int),
                chunk_z == chunk_coord(bz as int),
                -50_000_000 <= chunk_x <= 50_000_000,
                -50_000_000 <= chunk_z <= 50_000_000,
                r64 == radius,
                radius <= 2_000_000_000,
                side == save_side(radius as int),
                side * side <= usize::MAX,
                (dx + r64) * side + side <= side * side,
                row_start.no_duplicates(),
                forall|p: ChunkPos| row_start.contains(p) ==> p.x < chunk_x + dx,
                chunks@.len() == row_start.len() + (dz + r64),
                chunks@.subrange(0, row_start.len() as int) == row_start,
                chunks@.no_duplicates(),
                forall|p: ChunkPos| chunks@.contains(p) <==> (row_start.contains(p)
                    || (p.y == 0 && p.x == chunk_x + dx && chunk_z - r64 <= p.z < chunk_z + dz)),
            decreases r64 + 1 - dz,
        {
            let p = ChunkPos { x: (chunk_x as i64 + dx) as i32, y: 0, z: (chunk_z as i64 + dz) as i32 };
            proof {
                assert(p.x == chunk_x + dx);
                assert(p.z == chunk_z + dz);
                if chunks@.contains(p) {
                    if row_start.contains(p) {
                        assert(p.x < chunk_x + dx);
                    } else {
                        assert(p.z < chunk_z + dz);
                    }
                }
            }
            let ghost before = chunks@;
            chunks.push(p);
            proof {
                assert forall|q: ChunkPos| chunks@.contains(q) <==> (row_start.contains(q)
                    || (q.y == 0 && q.x == chunk_x + dx && chunk_z - r64 <= q.z < chunk_z + dz + 1)) by {
                    if chunks@.contains(q) && q != p {
                        let w = choose|w: int| 0 <= w < chunks@.len() && chunks@[w] == q;
                        assert(before[w] == q);
                    }
                    if q == p {
                        assert(chunks@[chunks@.len() - 1] == p);
                    }
                    if before.contains(q) {
                        let w = choose|w: int| 0 <= w < before.len() && before[w] == q;
                        assert(chunks@[w] == q);
                    }
                }
                assert(chunks@.subrange(0, row_start.len() as int) =~= before.subrange(0, row_start.len() as int));
            }
            dz = dz + 1;
        }
        proof {
            assert((dx + r64) * side + side == (dx + 1 + r64) * side) by (nonlinear_arith);
            assert forall|q: ChunkPos| chunks@.contains(q) <==> (in_save_area(q, radius as int, bx as int, bz as int)
                && q.x < chunk_x + dx + 1) by {
                if row_start.contains(q) {
                }
            }
        }
        dx = dx + 1;
    }
    proof {
        if r64 < 0 {
            assert(chunks@.len() == 0) by {
                if chunks@.len() > 0 {
                    assert(chunks@.contains(chunks@[0]));
                }
            }
        }
    }
    chunks
}

/// Time elapsed from `since_ms` to `now_ms` (zero if the clock reads
/// earlier).
pub open spec fn elapsed_ms(now_ms: u64, since_ms: u64) -> int {
    if now_ms >= since_ms { now_ms - since_ms } else { 0 }
}

/// The player has waited longer than the save time-out.
pub open spec fn is_timed_out<P>(cfg: DisconnectConfig, now_ms: u64, p: DisconnectingPlayer<P>) -> bool {
    elapsed_ms(now_ms, p.disconnect_time_ms) > cfg.max_save_timeout_ms
}

/// The player's saves count as complete: the grace period has passed
/// and the time-out has not.
pub open spec fn is_save_done<P>(cfg: DisconnectConfig, now_ms: u64, p: DisconnectingPlayer<P>) -> bool {
    !is_timed_out(cfg, now_ms, p) && elapsed_ms(now_ms, p.disconnect_time_ms) > cfg.reconnect_grace_period_ms
}

/// The players that remain after one worker pass: timed-out players are
/// gone; players whose saves are done are marked `SaveComplete`.
pub open spec fn tick_players<P>(
    cfg: DisconnectConfig,
    now_ms: u64,
    ps: Seq<DisconnectingPlayer<P>>,
) -> Seq<DisconnectingPlayer<P>>
    decreases ps.len(),
{
    if ps.len() == 0 {
        ps
    } else {
        let rest = tick_players(cfg, now_ms, ps.drop_last());
        let p = ps.last();
        if is_timed_out(cfg, now_ms, p) {
            rest
        } else if is_save_done(cfg, now_ms, p) {
            rest.push(DisconnectingPlayer { state: ConnectionState::SaveComplete, ..p })
        } else {
            rest.push(p)
        }
    }
}

/// One subtraction of a player from the count, not below zero.
pub open spec fn count_down(n: usize) -> usize {
    if n > 0 { (n - 1) as usize } else { 0 }
}

/// Every player left after a worker pass was there before.
proof fn lemma_tick_players_from<P>(cfg: DisconnectConfig, now_ms: u64, ps: Seq<DisconnectingPlayer<P>>)
    ensures
        forall|k: int| 0 <= k < tick_players(cfg, now_ms, ps).len() ==>
            exists|m: int| 0 <= m < ps.len() && #[trigger] tick_players(cfg, now_ms, ps)[k].uuid@ == ps[m].uuid@,
    decreases ps.len(),
{
    if ps.len() > 0 {
        lemma_tick_players_from(cfg, now_ms, ps.drop_last());
        let rest = tick_players(cfg, now_ms, ps.drop_last());
        let res = tick_players(cfg, now_ms, ps);
        assert forall|k: int| 0 <= k < res.len() implies
            exists|m: int| 0 <= m < ps.len() && #[trigger] res[k].uuid@ == ps[m].uuid@ by {
            if k < rest.len() {
                assert(res[k] == rest[k]);
                let m = choose|m: int| 0 <= m < ps.drop_last().len() && rest[k].uuid@ == ps.drop_last()[m].uuid@;
                assert(ps.drop_last()[m] == ps[m]);
            } else {
                assert(res[k].uuid@ == ps[ps.len() - 1].uuid@);
            }
        }
    }
}

/// A worker pass keeps the players' UUIDs distinct.
proof fn lemma_tick_players_distinct<P>(cfg: DisconnectConfig, now_ms: u64, ps: Seq<DisconnectingPlayer<P>>)
    requires
        forall|i: int, j: int| 0 <= i < ps.len() && 0 <= j < ps.len() && i != j ==> ps[i].uuid@ != ps[j].uuid@,
    ensures
        forall|i: int, j: int|
            0 <= i < tick_players(cfg, now_ms, ps).len() && 0 <= j < tick_players(cfg, now_ms, ps).len() && i != j
                ==> tick_players(cfg, now_ms, ps)[i].uuid@ != tick_players(cfg, now_ms, ps)[j].uuid@,
    decreases ps.len(),
{
    if ps.len() > 0 {
        let pre = ps.drop_last();
        assert forall|i: int, j: int| 0 <= i < pre.len() && 0 <= j < pre.len() && i != j implies pre[i].uuid@ != pre[j].uuid@ by {
            assert(pre[i] == ps[i] && pre[j] == ps[j]);
        }
        lemma_tick_players_distinct(cfg, now_ms, pre);
        lemma_tick_players_from(cfg, now_ms, pre);
        let rest = tick_players(cfg, now_ms, pre);
        let res = tick_players(cfg, now_ms, ps);
        assert forall|i: int, j: int| 0 <= i < res.len() && 0 <= j < res.len() && i != j implies res[i].uuid@ != res[j].uuid@ by {
            if i < rest.len() && j < rest.len() {
                assert(res[i] == rest[i] && res[j] == rest[j]);
            } else if i < rest.len() {
                assert(res[i] == rest[i]);
                let m = choose|m: int| 0 <= m < pre.len() && rest[i].uuid@ == pre[m].uuid@;
                assert(pre[m] == ps[m]);
                assert(res[j].uuid@ == ps[ps.len() - 1].uuid@);
            } else {
                assert(res[j] == rest[j]);
                let m = choose|m: int| 0 <= m < pre.len() && rest[j].uuid@ == pre[m].uuid@;
                assert(pre[m] == ps[m]);
                assert(res[i].uuid@ == ps[ps.len() - 1].uuid@);
            }
        }
    }
}

/// The counters after the worker has handled player `p`.
pub open spec fn tick_one<P>(cfg: DisconnectConfig, now_ms: u64, st: DisconnectStats, p: DisconnectingPlayer<P>) -> DisconnectStats {
    if is_timed_out(cfg, now_ms, p) {
        DisconnectStats {
            force_disconnects: (st.force_disconnects + 1) as u64,
            players_disconnecting: count_down(st.players_disconnecting),
            ..st
        }
    } else if is_save_done(cfg, now_ms, p) {
        let successful = st.successful_saves + 1;
        let total = successful + st.failed_saves;
        DisconnectStats {
            successful_saves: successful as u64,
            players_disconnecting: count_down(st.players_disconnecting),
            average_save_time_ms: ((st.average_save_time_ms * (total - 1) + elapsed_ms(now_ms, p.disconnect_time_ms))
                / total) as u64,
            ..st
        }
    } else {
        st
    }
}

/// The counters after the worker has handled the players `ps` in order.
pub open spec fn tick_stats<P>(
    cfg: DisconnectConfig,
    now_ms: u64,
    st: DisconnectStats,
    ps: Seq<DisconnectingPlayer<P>>,
) -> DisconnectStats
    decreases ps.len(),
{
    if ps.len() == 0 {
        st
    } else {
        tick_one(cfg, now_ms, tick_stats(cfg, now_ms, st, ps.drop_last()), ps.last())
    }
}

/// The worker's arithmetic for player `p` stays within `u64` from the counters `st`: the
/// forced-disconnect count for a timed-out player; for a completed save the save counts
/// and the running total of save times that the new average is taken from.
pub open spec fn step_fits<P>(cfg: DisconnectConfig, now_ms: u64, st: DisconnectStats, p: DisconnectingPlayer<P>) -> bool {
    if is_timed_out(cfg, now_ms, p) {
        st.force_disconnects + 1 <= u64::MAX
    } else if is_save_done(cfg, now_ms, p) {
        &&& st.successful_saves + 1 + st.failed_saves <= u64::MAX
        &&& st.average_save_time_ms * (st.successful_saves + st.failed_saves) + elapsed_ms(
            now_ms,
            p.disconnect_time_ms,
        ) <= u64::MAX
    } else {
        true
    }
}

/// The worker's arithmetic stays within `u64` at every player of `ps`, handled in order
/// from the counters `st`.
pub open spec fn tick_fits<P>(cfg: DisconnectConfig, now_ms: u64, st: DisconnectStats, ps: Seq<DisconnectingPlayer<P>>) -> bool
    decreases ps.len(),
{
    if ps.len() == 0 {
        true
    } else {
        tick_fits(cfg, now_ms, st, ps.drop_last()) && step_fits(
            cfg,
            now_ms,
            tick_stats(cfg, now_ms, st, ps.drop_last()),
            ps.last(),
        )
    }
}

/// A pass that fits fits on every prefix of the players.
proof fn lemma_tick_fits_prefix<P>(cfg: DisconnectConfig, now_ms: u64, st: DisconnectStats, ps: Seq<DisconnectingPlayer<P>>, k: int)
    requires
        tick_fits(cfg, now_ms, st, ps),
        0 <= k <= ps.len(),
    ensures
        tick_fits(cfg, now_ms, st, ps.take(k)),
    decreases ps.len(),
{
    if k == ps.len() {
        assert(ps.take(k) =~= ps);
    } else {
        assert(ps.drop_last().take(k) =~= ps.take(k));
        lemma_tick_fits_prefix(cfg, now_ms, st, ps.drop_last(), k);
    }
}

/// Information about a disconnecting player; `P` is the type of the
/// player's position.
pub struct DisconnectingPlayer<P> {
    pub uuid: String,
    pub username: String,
    pub position: P,
    pub chunks_to_save: Vec<ChunkPos>,
    /// When the disconnect began (ms).
    pub disconnect_time_ms: u64,
    pub state: ConnectionState,
}

/// The players that are disconnecting, keyed by UUID, with the
/// configuration and the counters.
pub struct DisconnectTracker<P> {
    players: Vec<DisconnectingPlayer<P>>,
    config: DisconnectConfig,
    stats: DisconnectStats,
}

/// Whether `a` and `b` hold the same text.
fn same_text(a: &String, b: &str) -> (r: bool)
    ensures
        r == (a@ == b@),
{
    let bs = String::from_str(b);
    *a == bs
}

impl<P> DisconnectTracker<P> {
    /// The disconnecting players, in insertion order.
    pub closed spec fn players(&self) -> Seq<DisconnectingPlayer<P>> {
        self.players@
    }

    /// The configuration.
    pub closed spec fn config(&self) -> DisconnectConfig {
        self.config
    }

    /// The counters.
    pub closed spec fn stats(&self) -> DisconnectStats {
        self.stats
    }

    /// No two players share a UUID.
    pub closed spec fn wf(&self) -> bool {
        &&& forall|i: int, j: int|
            0 <= i < self.players@.len() && 0 <= j < self.players@.len() && i != j
                ==> self.players@[i].uuid@ != self.players@[j].uuid@
        &&& self.stats.average_save_time_ms <= self.config.max_save_timeout_ms
    }

    /// A player with UUID `u` is disconnecting.
    pub open spec fn has_player(&self, u: Seq<char>) -> bool {
        exists|i: int| 0 <= i < self.players().len() && self.players()[i].uuid@ == u
    }

    /// The disconnecting player with UUID `u`.
    pub open spec fn player(&self, u: Seq<char>) -> DisconnectingPlayer<P> {
        let i = choose|i: int| 0 <= i < self.players().len() && self.players()[i].uuid@ == u;
        self.players()[i]
    }

    /// A tracker with no player and zero counters.
    pub fn new(config: DisconnectConfig) -> (r: Self)
        ensures
            r.wf(),
            r.players().len() == 0,
            r.config() == config,
            r.stats() == DisconnectStats::zero_spec(),
    {
        DisconnectTracker { players: Vec::new(), config, stats: DisconnectStats::zero() }
    }

    /// The configuration.
    pub fn get_config(&self) -> (r: DisconnectConfig)
        ensures
            r == self.config(),
    {
        self.config
    }

    /// The index of the player with UUID `u`, if any.
    fn find(&self, u: &str) -> (r: Option<usize>)
        requires
            self.wf(),
        ensures
            r matches Some(i) ==> i < self.players().len() && self.players()[i as int].uuid@ == u@
                && self.has_player(u@) && self.player(u@) == self.players()[i as int],
            r is None ==> !self.has_player(u@),
    {
        let mut i: usize = 0;
        while i < self.players.len()
            invariant
                0 <= i <= self.players.len(),
                self.wf(),
                forall|k: int| 0 <= k < i ==> self.players@[k].uuid@ != u@,
            decreases self.players.len() - i,
        {
            if same_text(&self.players[i].uuid, u) {
                proof {
                    assert(self.players@[i as int].uuid@ == u@);
                    assert(self.has_player(u@));
                    let c = choose|c: int| 0 <= c < self.players().len() && self.players()[c].uuid@ == u@;
                    if c != i {
                        assert(self.players@[c].uuid@ != self.players@[i as int].uuid@);
                    }
                }
                return Some(i);
            }
            i = i + 1;
        }
        None
    }

    /// Starts the disconnect of a player standing in block column (`bx`,
    /// `bz`): the player is recorded (replacing an earlier record with
    /// the same UUID) as disconnecting since `now_ms`, with the chunks to
    /// save around it, and counted. Returns the chunks to save.
    pub fn handle_disconnect(
        &mut self,
        player_uuid: String,
        username: String,
        position: P,
        bx: i32,
        bz: i32,
        now_ms: u64,
    ) -> (r: PersistenceResult<Vec<ChunkPos>>)
        requires
            old(self).wf(),
            old(self).stats().players_disconnecting < usize::MAX,
            old(self).config().chunk_save_radius > i32::MIN,
            old(self).config().chunk_save_radius <= 2_000_000_000,
            save_side(old(self).config().chunk_save_radius as int) * save_side(
                old(self).config().chunk_save_radius as int,
            ) <= usize::MAX,
        ensures
            final(self).wf(),
            final(self).config() == old(self).config(),
            r matches Ok(chunks) && {
                let p = final(self).player(player_uuid@);
                &&& final(self).has_player(player_uuid@)
                &&& p.uuid@ == player_uuid@
                &&& p.username@ == username@
                &&& p.position == position
                &&& p.disconnect_time_ms == now_ms
                &&& p.state == ConnectionState::Disconnecting
                &&& p.chunks_to_save@ == chunks@
                &&& forall|c: ChunkPos| chunks@.contains(c) <==> in_save_area(
                    c,
                    old(self).config().chunk_save_radius as int,
                    bx as int,
                    bz as int,
                )
            },
            forall|u: Seq<char>| u != player_uuid@ ==> (final(self).has_player(u) == old(self).has_player(u))
                && (old(self).has_player(u) ==> final(self).player(u) == old(self).player(u)),
            final(self).stats() == (DisconnectStats {
                players_disconnecting: (old(self).stats().players_disconnecting + 1) as usize,
                ..old(self).stats()
            }),
    {
        let chunks_to_save = get_chunks_around_player(self.config.chunk_save_radius, bx, bz);
        let ghost chunks = chunks_to_save@;
        let mut chunks_out: Vec<ChunkPos> = Vec::new();
        let mut k: usize = 0;
        while k < chunks_to_save.len()
            invariant
                0 <= k <= chunks_to_save.len(),
                chunks_out@ == chunks_to_save@.take(k as int),
            decreases chunks_to_save.len() - k,
        {
            chunks_out.push(chunks_to_save[k]);
            assert(chunks_out@ =~= chunks_to_save@.take(k + 1));
            k = k + 1;
        }
        assert(chunks_out@ =~= chunks_to_save@);
        let ghost uuid = player_uuid@;
        let found = self.find(player_uuid.as_str());
        let record = DisconnectingPlayer {
            uuid: player_uuid,
            username,
            position,
            chunks_to_save,
            disconnect_time_ms: now_ms,
            state: ConnectionState::Disconnecting,
        };
        let ghost old_players = self.players@;
        match found {
            Some(i) => {
                self.players.set(i, record);
                proof {
                    assert forall|a: int, b: int|
                        0 <= a < self.players@.len() && 0 <= b < self.players@.len() && a != b
                            implies self.players@[a].uuid@ != self.players@[b].uuid@ by {
                        if a != i && b != i {
                            assert(self.players@[a] == old_players[a]);
                            assert(self.players@[b] == old_players[b]);
                        } else if a == i {
                            assert(self.players@[b] == old_players[b]);
                        } else {
                            assert(self.players@[a] == old_players[a]);
                        }
                    }
                    assert(self.players@[i as int].uuid@ == uuid);
                    assert(self.has_player(uuid));
                    let c = choose|c: int| 0 <= c < self.players().len() && self.players()[c].uuid@ == uuid;
                    if c != i {
                        assert(self.players@[c].uuid@ != self.players@[i as int].uuid@);
                    }
                    assert forall|u: Seq<char>| u != uuid implies (self.has_player(u) == old(self).has_player(u))
                        && (old(self).has_player(u) ==> self.player(u) == old(self).player(u)) by {
                        if old(self).has_player(u) {
                            let w = choose|w: int| 0 <= w < old_players.len() && old_players[w].uuid@ == u;
                            assert(self.players@[w] == old_players[w]);
                            let w2 = choose|w2: int| 0 <= w2 < self.players().len() && self.players()[w2].uuid@ == u;
                            assert(w2 == w);
                        }
                        if self.has_player(u) {
                            let w = choose|w: int| 0 <= w < self.players().len() && self.players()[w].uuid@ == u;
                            assert(self.players@[w] == old_players[w]);
                        }
                    }
                }
            },
            None => {
                self.players.push(record);
                proof {
                    assert forall|a: int, b: int|
                        0 <= a < self.players@.len() && 0 <= b < self.players@.len() && a != b
                            implies self.players@[a].uuid@ != self.players@[b].uuid@ by {
                        if a < old_players.len() && b < old_players.len() {
                            assert(self.players@[a] == old_players[a]);
                            assert(self.players@[b] == old_players[b]);
                        } else if a < old_players.len() {
                            assert(self.players@[a] == old_players[a]);
                            assert(old(self).players()[a].uuid@ != uuid);
                        } else {
                            assert(self.players@[b] == old_players[b]);
                            assert(old(self).players()[b].uuid@ != uuid);
                        }
                    }
                    let last = self.players@.len() - 1;
                    assert(self.players@[last].uuid@ == uuid);
                    assert(self.has_player(uuid));
                    let c = choose|c: int| 0 <= c < self.players().len() && self.players()[c].uuid@ == uuid;
                    if c != last {
                        assert(self.players@[c].uuid@ != self.players@[last].uuid@);
                    }
                    assert forall|u: Seq<char>| u != uuid implies (self.has_player(u) == old(self).has_player(u))
                        && (old(self).has_player(u) ==> self.player(u) == old(self).player(u)) by {
                        if old(self).has_player(u) {
                            let w = choose|w: int| 0 <= w < old_players.len() && old_players[w].uuid@ == u;
                            assert(self.players@[w] == old_players[w]);
                            let w2 = choose|w2: int| 0 <= w2 < self.players().len() && self.players()[w2].uuid@ == u;
                            assert(w2 == w);
                        }
                        if self.has_player(u) {
                            let w = choose|w: int| 0 <= w < self.players().len() && self.players()[w].uuid@ == u;
                            if w < old_players.len() {
                                assert(self.players@[w] == old_players[w]);
                            }
                        }
                    }
                }
            },
        }
        self.stats.players_disconnecting = self.stats.players_disconnecting + 1;
        Ok(chunks_out)
    }

    /// Whether a player with this UUID is disconnecting.
    pub fn is_player_disconnecting(&self, player_uuid: &str) -> (r: bool)
        requires
            self.wf(),
        ensures
            r == self.has_player(player_uuid@),
    {
        self.find(player_uuid).is_some()
    }

    /// The connection state of the disconnecting player with this UUID.
    pub fn get_disconnect_status(&self, player_uuid: &str) -> (r: Option<ConnectionState>)
        requires
            self.wf(),
        ensures
            r == if self.has_player(player_uuid@) {
                Some(self.player(player_uuid@).state)
            } else {
                None::<ConnectionState>
            },
    {
        match self.find(player_uuid) {
            Some(i) => Some(self.players[i].state),
            None => None,
        }
    }

    /// Removes the player with this UUID at once. Returns whether there
    /// was one; a removal is counted as a forced disconnect.
    pub fn force_disconnect(&mut self, player_uuid: &str) -> (r: PersistenceResult<bool>)
        requires
            old(self).wf(),
            old(self).has_player(player_uuid@) ==> old(self).stats().force_disconnects < u64::MAX,
        ensures
            final(self).wf(),
            final(self).config() == old(self).config(),
            r == Ok::<bool, crate::persistence::PersistenceError>(old(self).has_player(player_uuid@)),
            !final(self).has_player(player_uuid@),
            forall|u: Seq<char>| u != player_uuid@ ==> (final(self).has_player(u) == old(self).has_player(u))
                && (old(self).has_player(u) ==> final(self).player(u) == old(self).player(u)),
            old(self).has_player(player_uuid@) ==> final(self).stats() == (DisconnectStats {
                force_disconnects: (old(self).stats().force_disconnects + 1) as u64,
                players_disconnecting: if old(self).stats().players_disconnecting > 0 {
                    (old(self).stats().players_disconnecting - 1) as usize
                } else {
                    0usize
                },
                ..old(self).stats()
            }),
            !old(self).has_player(player_uuid@) ==> final(self).stats() == old(self).stats(),
    {
        match self.find(player_uuid) {
            Some(i) => {
                let ghost old_players = self.players@;
                let _player = self.players.remove(i);
                proof {
                    assert forall|a: int, b: int|
                        0 <= a < self.players@.len() && 0 <= b < self.players@.len() && a != b
                            implies self.players@[a].uuid@ != self.players@[b].uuid@ by {
                        let a2 = if a < i { a } else { a + 1 };
                        let b2 = if b < i { b } else { b + 1 };
                        assert(self.players@[a] == old_players[a2]);
                        assert(self.players@[b] == old_players[b2]);
                    }
                    if self.has_player(player_uuid@) {
                        let w = choose|w: int| 0 <= w < self.players().len() && self.players()[w].uuid@ == player_uuid@;
                        let w2 = if w < i { w } else { w + 1 };
                        assert(self.players@[w] == old_players[w2]);
                    }
                    assert forall|u: Seq<char>| u != player_uuid@ implies (self.has_player(u) == old(self).has_player(u))
                        && (old(self).has_player(u) ==> self.player(u) == old(self).player(u)) by {
                        if old(self).has_player(u) {
                            let w = choose|w: int| 0 <= w < old_players.len() && old_players[w].uuid@ == u;
                            assert(w != i);
                            let w2 = if w < i { w } else { w - 1 };
                            assert(self.players@[w2] == old_players[w]);
                            let w3 = choose|w3: int| 0 <= w3 < self.players().len() && self.players()[w3].uuid@ == u;
                            if w3 != w2 {
                                assert(self.players@[w3].uuid@ != self.players@[w2].uuid@);
                            }
                        }
                        if self.has_player(u) {
                            let w = choose|w: int| 0 <= w < self.players().len() && self.players()[w].uuid@ == u;
                            let w2 = if w < i { w } else { w + 1 };
                            assert(self.players@[w] == old_players[w2]);
                        }
                    }
                }
                self.stats.force_disconnects = self.stats.force_disconnects + 1;
                self.stats.players_disconnecting = self.stats.players_disconnecting.saturating_sub(1);
                Ok(true)
            },
            None => Ok(false),
        }
    }

    /// Removes every disconnecting player and returns how many there were.
    pub fn clear_all_disconnecting(&mut self) -> (r: PersistenceResult<usize>)
        requires
            old(self).wf(),
        ensures
            final(self).wf(),
            final(self).config() == old(self).config(),
            r == Ok::<usize, crate::persistence::PersistenceError>(old(self).players().len() as usize),
            final(self).players().len() == 0,
            final(self).stats() == (DisconnectStats { players_disconnecting: 0, ..old(self).stats() }),
    {
        let count = self.players.len();
        self.players.clear();
        self.stats.players_disconnecting = 0;
        Ok(count)
    }

    /// The counters.
    pub fn get_stats(&self) -> (r: PersistenceResult<DisconnectStats>)
        ensures
            r == Ok::<DisconnectStats, crate::persistence::PersistenceError>(self.stats()),
    {
        Ok(self.stats)
    }

    /// Handles a crashed connection of a player standing in block column
    /// (`bx`, `bz`). With emergency saves disabled nothing happens and no
    /// chunk is returned; otherwise the emergency save is counted and the
    /// chunks to save are returned. The player is not recorded.
    pub fn handle_emergency_disconnect(&mut self, bx: i32, bz: i32) -> (r: PersistenceResult<Option<Vec<ChunkPos>>>)
        requires
            old(self).wf(),
            old(self).config().emergency_save_enabled ==> old(self).stats().emergency_saves < u64::MAX,
            old(self).config().chunk_save_radius > i32::MIN,
            old(self).config().chunk_save_radius <= 2_000_000_000,
            save_side(old(self).config().chunk_save_radius as int) * save_side(
                old(self).config().chunk_save_radius as int,
            ) <= usize::MAX,
        ensures
            final(self).wf(),
            final(self).config() == old(self).config(),
            final(self).players() == old(self).players(),
            !old(self).config().emergency_save_enabled ==> (r matches Ok(None) && final(self).stats() == old(self).stats()),
            old(self).config().emergency_save_enabled ==> (r matches Ok(Some(chunks)) && {
                &&& forall|c: ChunkPos| chunks@.contains(c) <==> in_save_area(
                    c,
                    old(self).config().chunk_save_radius as int,
                    bx as int,
                    bz as int,
                )
                &&& final(self).stats() == (DisconnectStats {
                    emergency_saves: (old(self).stats().emergency_saves + 1) as u64,
                    ..old(self).stats()
                })
            }),
    {
        if !self.config.emergency_save_enabled {
            return Ok(None);
        }
        let chunks = get_chunks_around_player(self.config.chunk_save_radius, bx, bz);
        self.stats.emergency_saves = self.stats.emergency_saves + 1;
        Ok(Some(chunks))
    }

    /// One pass of the background worker at time `now_ms`: each player
    /// whose save time-out has passed is removed and counted as a forced
    /// disconnect; each player past the grace period is marked
    /// `SaveComplete`, counted as a successful save and folded into the
    /// average save time.
    pub fn worker_tick(&mut self, now_ms: u64)
        requires
            old(self).wf(),
            tick_fits(old(self).config(), now_ms, old(self).stats(), old(self).players()),
        ensures
            final(self).wf(),
            final(self).config() == old(self).config(),
            final(self).players() == tick_players(old(self).config(), now_ms, old(self).players()),
            final(self).stats() == tick_stats(old(self).config(), now_ms, old(self).stats(), old(self).players()),
    {
        let ghost ps = self.players@;
        let ghost cfg = self.config;
        let ghost st0 = self.stats;
        let mut old_players: Vec<DisconnectingPlayer<P>> = Vec::new();
        std::mem::swap(&mut old_players, &mut self.players);
        assert(old_players@ == ps);
        let mut kept: Vec<DisconnectingPlayer<P>> = Vec::new();
        for player in it: old_players.into_iter()
            invariant
                it.seq() == ps,
                self.config == cfg,
                self.stats.average_save_time_ms <= cfg.max_save_timeout_ms,
                tick_fits(cfg, now_ms, st0, ps),
                kept@ == tick_players(cfg, now_ms, ps.take(it.index() as int)),
                self.stats == tick_stats(cfg, now_ms, st0, ps.take(it.index() as int)),
        {
            let ghost idx = it.index() as int;
            assert(ps.take(idx + 1).drop_last() =~= ps.take(idx));
            assert(ps.take(idx + 1).last() == ps[idx]);
            proof {
                lemma_tick_fits_prefix(cfg, now_ms, st0, ps, idx + 1);
            }
            assert(step_fits(cfg, now_ms, self.stats, ps[idx]));
            let elapsed: u64 = if now_ms >= player.disconnect_time_ms { now_ms - player.disconnect_time_ms } else { 0 };
            if elapsed > self.config.max_save_timeout_ms {
                self.stats.force_disconnects = self.stats.force_disconnects + 1;
                self.stats.players_disconnecting = self.stats.players_disconnecting.saturating_sub(1);
            } else if elapsed > self.config.reconnect_grace_period_ms {
                let mut p = player;
                p.state = ConnectionState::SaveComplete;
                kept.push(p);
                self.stats.successful_saves = self.stats.successful_saves + 1;
                self.stats.players_disconnecting = self.stats.players_disconnecting.saturating_sub(1);
                let total_saves = self.stats.successful_saves + self.stats.failed_saves;
                if total_saves > 0 {
                    let avg = self.stats.average_save_time_ms;
                    let m = self.config.max_save_timeout_ms;
                    let total_time = avg * (total_saves - 1) + elapsed;
                    proof {
                        assert(total_time <= m * total_saves) by (nonlinear_arith)
                            requires
                                avg <= m,
                                elapsed <= m,
                                total_saves >= 1,
                                total_time == avg * (total_saves - 1) + elapsed;
                        assert(total_time / total_saves <= m) by (nonlinear_arith)
                            requires
                                total_time <= m * total_saves,
                                total_saves >= 1;
                    }
                    self.stats.average_save_time_ms = total_time / total_saves;
                }
            } else {
                kept.push(player);
            }
        }
        assert(ps.take(ps.len() as int) =~= ps);
        self.players = kept;
        proof {
            lemma_tick_players_distinct(cfg, now_ms, ps);
        }
    }

    /// One pass of the background worker at time `now_ms`, when its arithmetic stays within
    /// `u64` (`tick_fits`): then it does what `worker_tick` does and returns `true`;
    /// otherwise it leaves the tracker as it is and returns `false`.
    pub fn try_worker_tick(&mut self, now_ms: u64) -> (r: bool)
        requires
            old(self).wf(),
        ensures
            final(self).wf(),
            final(self).config() == old(self).config(),
            r == tick_fits(old(self).config(), now_ms, old(self).stats(), old(self).players()),
            r ==> final(self).players() == tick_players(old(self).config(), now_ms, old(self).players()),
            r ==> final(self).stats() == tick_stats(old(self).config(), now_ms, old(self).stats(), old(self).players()),
            !r ==> final(self).players() == old(self).players() && final(self).stats() == old(self).stats(),
    {
        let ghost ps = self.players@;
        let ghost cfg = self.config;
        let ghost st0 = self.stats;
        let mut st = self.stats;
        let mut i: usize = 0;
        while i < self.players.len()
            invariant
                self.wf(),
                ps == self.players@,
                cfg == self.config,
                st0 == self.stats,
                i <= ps.len(),
                tick_fits(cfg, now_ms, st0, ps.take(i as int)),
                st == tick_stats(cfg, now_ms, st0, ps.take(i as int)),
            decreases ps.len() - i,
        {
            let ghost idx = i as int;
            assert(ps.take(idx + 1).drop_last() =~= ps.take(idx));
            assert(ps.take(idx + 1).last() == ps[idx]);
            let t = self.players[i].disconnect_time_ms;
            let elapsed: u64 = if now_ms >= t { now_ms - t } else { 0 };
            if elapsed > self.config.max_save_timeout_ms {
                if st.force_disconnects == u64::MAX {
                    proof {
                        if tick_fits(cfg, now_ms, st0, ps) {
                            lemma_tick_fits_prefix(cfg, now_ms, st0, ps, idx + 1);
                        }
                    }
                    return false;
                }
                st.force_disconnects = st.force_disconnects + 1;
                st.players_disconnecting = st.players_disconnecting.saturating_sub(1);
            } else if elapsed > self.config.reconnect_grace_period_ms {
                let before = st.successful_saves as u128 + st.failed_saves as u128;
                let fits = if before + 1 > u64::MAX as u128 {
                    false
                } else {
                    let avg = st.average_save_time_ms as u128;
                    proof {
                        assert(avg * before <= 0xffff_ffff_ffff_ffffu128 * 0xffff_ffff_ffff_ffffu128) by (nonlinear_arith)
                            requires
                                avg <= 0xffff_ffff_ffff_ffffu128,
                                before <= 0xffff_ffff_ffff_ffffu128;
                        assert(0xffff_ffff_ffff_ffffu128 * 0xffff_ffff_ffff_ffffu128 < 0xffff_ffff_ffff_ffff_0000_0000_0000_0000u128) by (nonlinear_arith);
                    }
                    avg * before + elapsed as u128 <= u64::MAX as u128
                };
                if !fits {
                    proof {
                        if tick_fits(cfg, now_ms, st0, ps) {
                            lemma_tick_fits_prefix(cfg, now_ms, st0, ps, idx + 1);
                        }
                    }
                    return false;
                }
                st.successful_saves = st.successful_saves + 1;
                st.players_disconnecting = st.players_disconnecting.saturating_sub(1);
                let total_saves = st.successful_saves + st.failed_saves;
                let total_time = st.average_save_time_ms * (total_saves - 1) + elapsed;
                st.average_save_time_ms = total_time / total_saves;
            }
            i += 1;
        }
        assert(ps.take(ps.len() as int) =~= ps);
        self.worker_tick(now_ms);
        true
    }
}

/// The 64-bit key of a chunk in a save batch: the coordinates' two's-complement bits
/// combined as `(x << 42) | (y << 21) | z`.
pub open spec fn chunk_save_key(p: ChunkPos) -> u64 {
    ((p.x as u64) << 42u64) | ((p.y as u64) << 21u64) | (p.z as u64)
}

/// The save of a disconnecting player's data, at critical priority; the player number is
/// not known here and is 0.
pub fn player_save_operation<F>(uuid: String, position: [F; 3]) -> (r: SaveOperation<F>)
    ensures
        r == (SaveOperation::Player { player_id: 0, uuid, position, priority: SavePriority::Critical }),
{
    SaveOperation::Player { player_id: 0, uuid, position, priority: SavePriority::Critical }
}

/// The save of the chunks around a disconnecting player, at critical priority: each chunk's
/// key and coordinates, in order; nothing to save when there are no chunks.
pub fn chunk_batch_operation<F>(chunks: &Vec<ChunkPos>) -> (r: Option<SaveOperation<F>>)
    ensures
        chunks@.len() == 0 <==> r is None,
        r matches Some(op) ==> op matches SaveOperation::ChunkBatch { chunks: keys, positions, priority } && {
            &&& priority == SavePriority::Critical
            &&& keys@.len() == chunks@.len()
            &&& positions@.len() == chunks@.len()
            &&& forall|i: int| 0 <= i < chunks@.len() ==> #[trigger] keys@[i] == chunk_save_key(chunks@[i])
            &&& forall|i: int| 0 <= i < chunks@.len() ==> #[trigger] positions@[i] == (
                chunks@[i].x,
                chunks@[i].y,
                chunks@[i].z,
            )
        },
{
    if chunks.len() == 0 {
        return None;
    }
    let mut keys: Vec<u64> = Vec::new();
    let mut positions: Vec<(i32, i32, i32)> = Vec::new();
    let mut i: usize = 0;
    while i < chunks.len()
        invariant
            i <= chunks@.len(),
            keys@.len() == i,
            positions@.len() == i,
            forall|k: int| 0 <= k < i ==> #[trigger] keys@[k] == chunk_save_key(chunks@[k]),
            forall|k: int| 0 <= k < i ==> #[trigger] positions@[k] == (chunks@[k].x, chunks@[k].y, chunks@[k].z),
        decreases chunks@.len() - i,
    {
        let p = chunks[i];
        keys.push(((p.x as u64) << 42u64) | ((p.y as u64) << 21u64) | (p.z as u64));
        positions.push((p.x, p.y, p.z));
        i += 1;
    }
    Some(SaveOperation::ChunkBatch { chunks: keys, positions, priority: SavePriority::Critical })
}

} // verus!
