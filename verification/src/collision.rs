//! Collision pairs and their contacts, kept as a structure of arrays.
//!
//! Contact points and the scalars of impulses and material coefficients are generic: `C` is
//! a contact point and `S` a scalar, whose zero the storage is made with.

use vstd::prelude::*;

verus! {

/// Identifier of a physics entity.
pub type EntityId = u32;

/// Maximum number of collision pairs per frame.
pub const MAX_COLLISION_PAIRS: usize = 16384;

/// Two entities in contact, the smaller identifier first.
#[derive(Clone, Copy, Debug, PartialEq, Eq, Hash, Structural)]
pub struct ContactPair {
    pub entity_a: EntityId,
    pub entity_b: EntityId,
}

/// The pair of `a` and `b`, the smaller identifier first.
pub open spec fn pair_of(a: EntityId, b: EntityId) -> ContactPair {
    if a < b {
        ContactPair { entity_a: a, entity_b: b }
    } else {
        ContactPair { entity_a: b, entity_b: a }
    }
}

impl ContactPair {
    /// The pair of `a` and `b`, the smaller identifier first.
    pub fn new(a: EntityId, b: EntityId) -> (r: ContactPair)
        ensures
            r == pair_of(a, b),
    {
        if a < b {
            ContactPair { entity_a: a, entity_b: b }
        } else {
            ContactPair { entity_a: b, entity_b: a }
        }
    }

    /// Whether `entity` is one of the two.
    pub fn contains(&self, entity: EntityId) -> (r: bool)
        ensures
            r == (self.entity_a == entity || self.entity_b == entity),
    {
        self.entity_a == entity || self.entity_b == entity
    }
}

/// The first position of `p` in `pairs`.
pub open spec fn first_index(pairs: Seq<ContactPair>, p: ContactPair) -> Option<int> {
    if exists|i: int| 0 <= i < pairs.len() && pairs[i] == p {
        Some(
            choose|i: int|
                0 <= i < pairs.len() && pairs[i] == p && forall|j: int| 0 <= j < i ==> pairs[j] != p,
        )
    } else {
        None
    }
}

/// The first position of `p` in `pairs`, found by a scan.
fn find_pair(pairs: &Vec<ContactPair>, p: ContactPair) -> (r: Option<usize>)
    ensures
        match r {
            Some(i) => first_index(pairs@, p) == Some(i as int),
            None => first_index(pairs@, p) is None,
        },
{
    let mut i: usize = 0;
    while i < pairs.len()
        invariant
            i <= pairs.len(),
            forall|j: int| 0 <= j < i ==> pairs@[j] != p,
        decreases pairs.len() - i,
    {
        if pairs[i] == p {
            let ghost k = i as int;
            assert(0 <= k < pairs@.len() && pairs@[k] == p && forall|j: int|
                0 <= j < k ==> pairs@[j] != p);
            let ghost c = choose|c: int|
                0 <= c < pairs@.len() && pairs@[c] == p && forall|j: int|
                    0 <= j < c ==> pairs@[j] != p;
            assert(c == k) by {
                if c < k {
                    assert(pairs@[c] != p);
                } else if c > k {
                    assert(pairs@[k] != p);
                }
            }
            return Some(i);
        }
        i += 1;
    }
    None
}

/// The sum of the first `k` counts.
pub open spec fn count_prefix(counts: Seq<u32>, k: int) -> int
    decreases k,
{
    if k <= 0 {
        0
    } else {
        count_prefix(counts, k - 1) + counts[k - 1]
    }
}

/// The prefix sums grow with `k`.
proof fn lemma_count_prefix_mono(counts: Seq<u32>, j: int, k: int)
    requires
        0 <= j <= k,
    ensures
        count_prefix(counts, j) <= count_prefix(counts, k),
    decreases k - j,
{
    if j < k {
        lemma_count_prefix_mono(counts, j, k - 1);
    }
}

/// Collision data of one frame, with the previous frame's pairs and impulses kept for warm
/// starting.
pub struct CollisionData<C, S> {
    pub pair_count: u32,
    pub contact_pairs: Vec<ContactPair>,
    pub contact_points: Vec<C>,
    pub contact_counts: Vec<u32>,
    /// The pair index of each contact point, in the order the contacts came.
    pub contact_owners: Vec<u32>,
    pub normal_impulses: Vec<S>,
    pub tangent_impulses: Vec<[S; 2]>,
    pub relative_velocities: Vec<[S; 3]>,
    pub combined_restitutions: Vec<S>,
    pub combined_frictions: Vec<S>,
    pub previous_pairs: Vec<ContactPair>,
    pub previous_impulses: Vec<S>,
    pub zero: S,
}

/// The contacts among the first `n` points whose pair index is `pair`, in the order they came.
pub open spec fn contacts_of<C>(points: Seq<C>, owners: Seq<u32>, pair: int, n: int) -> Seq<C>
    decreases n,
{
    if n <= 0 {
        Seq::empty()
    } else if owners[n - 1] == pair {
        contacts_of(points, owners, pair, n - 1).push(points[n - 1])
    } else {
        contacts_of(points, owners, pair, n - 1)
    }
}

/// The contacts of pair `pair`, in the order they were added.
pub open spec fn pair_contacts<C, S>(data: CollisionData<C, S>, pair: int) -> Seq<C> {
    contacts_of(data.contact_points@, data.contact_owners@, pair, data.contact_points@.len() as int)
}

/// The impulse a new contact of `pair` starts with: the previous frame's impulse at the
/// pair's previous position, where there is one, else zero.
pub open spec fn warm_start<C, S>(data: CollisionData<C, S>, pair: ContactPair) -> S {
    match first_index(data.previous_pairs@, pair) {
        Some(p) => if p < data.previous_impulses@.len() {
            data.previous_impulses@[p]
        } else {
            data.zero
        },
        None => data.zero,
    }
}

impl<C: Copy, S: Copy> CollisionData<C, S> {
    /// The arrays agree: one count, velocity, restitution and friction per pair, one impulse
    /// and one pair index per contact, each pair's count is the number of its contacts, the
    /// counts add up to the contacts, and no pair occurs twice.
    pub open spec fn wf(&self) -> bool {
        &&& self.pair_count == self.contact_pairs@.len()
        &&& self.contact_counts@.len() == self.contact_pairs@.len()
        &&& self.relative_velocities@.len() == self.contact_pairs@.len()
        &&& self.combined_restitutions@.len() == self.contact_pairs@.len()
        &&& self.combined_frictions@.len() == self.contact_pairs@.len()
        &&& self.normal_impulses@.len() == self.contact_points@.len()
        &&& self.tangent_impulses@.len() == self.contact_points@.len()
        &&& self.contact_owners@.len() == self.contact_points@.len()
        &&& forall|k: int|
            0 <= k < self.contact_owners@.len() ==> #[trigger] self.contact_owners@[k]
                < self.contact_pairs@.len()
        &&& forall|i: int|
            0 <= i < self.contact_counts@.len() ==> #[trigger] self.contact_counts@[i]
                == contacts_of(self.contact_points@, self.contact_owners@, i, self.contact_points@.len() as int).len()
        &&& count_prefix(self.contact_counts@, self.contact_counts@.len() as int)
            == self.contact_points@.len()
        &&& forall|i: int, j: int|
            0 <= i < j < self.contact_pairs@.len() ==> self.contact_pairs@[i]
                != self.contact_pairs@[j]
    }

    /// Empty storage whose scalars start at `zero`; `max_pairs` is a capacity hint.
    pub fn new(max_pairs: usize, zero: S) -> (r: Self)
        ensures
            r.wf(),
            r.zero == zero,
            r.contact_pairs@.len() == 0,
            r.contact_points@.len() == 0,
            r.previous_pairs@.len() == 0,
            r.previous_impulses@.len() == 0,
    {
        CollisionData {
            pair_count: 0,
            contact_pairs: Vec::with_capacity(max_pairs),
            contact_points: Vec::new(),
            contact_counts: Vec::with_capacity(max_pairs),
            contact_owners: Vec::new(),
            normal_impulses: Vec::new(),
            tangent_impulses: Vec::new(),
            relative_velocities: Vec::with_capacity(max_pairs),
            combined_restitutions: Vec::with_capacity(max_pairs),
            combined_frictions: Vec::with_capacity(max_pairs),
            previous_pairs: Vec::with_capacity(max_pairs),
            previous_impulses: Vec::new(),
            zero,
        }
    }

    /// Starts a new frame: the current pairs and normal impulses become the previous ones and
    /// everything else is emptied.
    pub fn clear(&mut self)
        ensures
            final(self).wf(),
            final(self).zero == old(self).zero,
            final(self).previous_pairs@ == old(self).contact_pairs@,
            final(self).previous_impulses@ == old(self).normal_impulses@,
            final(self).contact_pairs@.len() == 0,
            final(self).contact_points@.len() == 0,
    {
        let mut prev_pairs: Vec<ContactPair> = Vec::new();
        let mut i: usize = 0;
        while i < self.contact_pairs.len()
            invariant
                i <= self.contact_pairs@.len(),
                prev_pairs@ == self.contact_pairs@.take(i as int),
            decreases self.contact_pairs@.len() - i,
        {
            prev_pairs.push(self.contact_pairs[i]);
            i += 1;
            assert(prev_pairs@ =~= self.contact_pairs@.take(i as int));
        }
        assert(prev_pairs@ =~= self.contact_pairs@);
        let mut prev_impulses: Vec<S> = Vec::new();
        let mut k: usize = 0;
        while k < self.normal_impulses.len()
            invariant
                k <= self.normal_impulses@.len(),
                prev_impulses@ == self.normal_impulses@.take(k as int),
            decreases self.normal_impulses@.len() - k,
        {
            prev_impulses.push(self.normal_impulses[k]);
            k += 1;
            assert(prev_impulses@ =~= self.normal_impulses@.take(k as int));
        }
        assert(prev_impulses@ =~= self.normal_impulses@);
        self.previous_pairs = prev_pairs;
        self.previous_impulses = prev_impulses;
        self.contact_pairs.clear();
        self.contact_points.clear();
        self.contact_counts.clear();
        self.contact_owners.clear();
        self.normal_impulses.clear();
        self.tangent_impulses.clear();
        self.relative_velocities.clear();
        self.combined_restitutions.clear();
        self.combined_frictions.clear();
        self.pair_count = 0;
    }

    /// Records a contact between `entity_a` and `entity_b` and returns the index of their
    /// pair. A pair already recorded this frame gains a contact; a new pair is appended with
    /// its restitution and friction. The contact's normal impulse starts from the previous
    /// frame's impulse of the pair where there is one.
    pub fn add_collision(
        &mut self,
        entity_a: EntityId,
        entity_b: EntityId,
        contact: C,
        restitution: S,
        friction: S,
    ) -> (r: usize)
        requires
            old(self).wf(),
            old(self).contact_points@.len() < u32::MAX,
            old(self).contact_pairs@.len() < u32::MAX,
        ensures
            final(self).wf(),
            final(self).zero == old(self).zero,
            final(self).previous_pairs == old(self).previous_pairs,
            final(self).previous_impulses == old(self).previous_impulses,
            final(self).contact_points@ == old(self).contact_points@.push(contact),
            final(self).contact_owners@ == old(self).contact_owners@.push(r as u32),
            final(self).normal_impulses@ == old(self).normal_impulses@.push(
                warm_start(*old(self), pair_of(entity_a, entity_b)),
            ),
            final(self).tangent_impulses@ == old(self).tangent_impulses@.push(
                [old(self).zero, old(self).zero],
            ),
            match first_index(old(self).contact_pairs@, pair_of(entity_a, entity_b)) {
                Some(idx) => {
                    &&& r == idx
                    &&& final(self).contact_pairs@ == old(self).contact_pairs@
                    &&& final(self).contact_counts@ == old(self).contact_counts@.update(
                        idx,
                        (old(self).contact_counts@[idx] + 1) as u32,
                    )
                    &&& final(self).relative_velocities@ == old(self).relative_velocities@
                    &&& final(self).combined_restitutions@ == old(self).combined_restitutions@
                    &&& final(self).combined_frictions@ == old(self).combined_frictions@
                },
                None => {
                    &&& r == old(self).contact_pairs@.len()
                    &&& final(self).contact_pairs@ == old(self).contact_pairs@.push(
                        pair_of(entity_a, entity_b),
                    )
                    &&& final(self).contact_counts@ == old(self).contact_counts@.push(1)
                    &&& final(self).relative_velocities@ == old(self).relative_velocities@.push(
                        [old(self).zero, old(self).zero, old(self).zero],
                    )
                    &&& final(self).combined_restitutions@
                        == old(self).combined_restitutions@.push(restitution)
                    &&& final(self).combined_frictions@ == old(self).combined_frictions@.push(
                        friction,
                    )
                },
            },
    {
        let pair = ContactPair::new(entity_a, entity_b);
        let warm = match find_pair(&self.previous_pairs, pair) {
            Some(prev_idx) => if prev_idx < self.previous_impulses.len() {
                self.previous_impulses[prev_idx]
            } else {
                self.zero
            },
            None => self.zero,
        };
        let zero = self.zero;
        let ghost counts = self.contact_counts@;
        let ghost points0 = self.contact_points@;
        let ghost owners0 = self.contact_owners@;
        match find_pair(&self.contact_pairs, pair) {
            Some(idx) => {
                proof {
                    lemma_count_prefix_split(counts, idx as int);
                }
                let c = self.contact_counts[idx];
                self.contact_points.push(contact);
                self.contact_counts.set(idx, c + 1);
                self.contact_owners.push(idx as u32);
                self.normal_impulses.push(warm);
                self.tangent_impulses.push([zero, zero]);
                proof {
                    assert forall|i: int| 0 <= i < self.contact_counts@.len() implies #[trigger] self.contact_counts@[i]
                        == contacts_of(self.contact_points@, self.contact_owners@, i, self.contact_points@.len() as int).len() by {
                        lemma_add_contact_to_pair(points0, owners0, idx as u32, contact, i);
                    }
                    lemma_count_prefix_update(counts, idx as int);
                    assert(self.contact_counts@ =~= counts.update(idx as int, (counts[idx as int] + 1) as u32));
                    assert(count_prefix(self.contact_counts@, self.contact_counts@.len() as int)
                        == self.contact_points@.len());
                }
                idx
            },
            None => {
                let idx = self.pair_count as usize;
                proof {
                    assert forall|i: int, j: int|
                        0 <= i < j < self.contact_pairs@.len() + 1 implies self.contact_pairs@.push(
                        pair,
                    )[i] != self.contact_pairs@.push(pair)[j] by {
                        if j == self.contact_pairs@.len() {
                            assert(self.contact_pairs@[i] != pair);
                        }
                    }
                    assert(counts.push(1).take(counts.len() as int) =~= counts);
                    lemma_count_prefix_take(counts.push(1), counts.len() as int);
                }
                self.pair_count = self.pair_count + 1;
                self.contact_pairs.push(pair);
                self.contact_points.push(contact);
                self.contact_counts.push(1);
                self.contact_owners.push(idx as u32);
                self.normal_impulses.push(warm);
                self.tangent_impulses.push([zero, zero]);
                self.relative_velocities.push([zero, zero, zero]);
                self.combined_restitutions.push(restitution);
                self.combined_frictions.push(friction);
                proof {
                    assert forall|i: int| 0 <= i < self.contact_counts@.len() implies #[trigger] self.contact_counts@[i]
                        == contacts_of(self.contact_points@, self.contact_owners@, i, self.contact_points@.len() as int).len() by {
                        lemma_add_contact_to_pair(points0, owners0, idx as u32, contact, i);
                        if i == idx {
                            lemma_contacts_of_absent(points0, owners0, i, points0.len() as int);
                        }
                    }
                    assert(self.contact_counts@ =~= counts.push(1));
                    assert(count_prefix(counts.push(1), counts.len() as int) == count_prefix(counts, counts.len() as int));
                    assert(count_prefix(self.contact_counts@, self.contact_counts@.len() as int)
                        == self.contact_points@.len());
                }
                idx
            },
        }
    }

    /// Number of collision pairs.
    pub fn pair_count(&self) -> (r: usize)
        requires
            self.wf(),
        ensures
            r == self.contact_pairs@.len(),
    {
        self.pair_count as usize
    }

    /// The contact points of the pair at `pair_idx`, in the order they were added; nothing
    /// for an index past the pairs.
    pub fn get_contacts_for_pair(&self, pair_idx: usize) -> (r: Vec<C>)
        requires
            self.wf(),
        ensures
            r@ == pair_contacts(*self, pair_idx as int),
            pair_idx < self.contact_counts@.len() ==> r@.len() == self.contact_counts@[pair_idx as int],
            pair_idx >= self.contact_pairs@.len() ==> r@.len() == 0,
    {
        let mut r: Vec<C> = Vec::new();
        let mut k: usize = 0;
        while k < self.contact_points.len()
            invariant
                self.wf(),
                k <= self.contact_points@.len(),
                r@ == contacts_of(self.contact_points@, self.contact_owners@, pair_idx as int, k as int),
                pair_idx >= self.contact_pairs@.len() ==> r@.len() == 0,
            decreases self.contact_points@.len() - k,
        {
            if self.contact_owners[k] as usize == pair_idx {
                r.push(self.contact_points[k]);
            }
            k += 1;
        }
        r
    }

    /// Index ranges of the pairs in batches of `batch_size`, in order; the last batch may be
    /// shorter.
    pub fn prepare_parallel_batches(&self, batch_size: usize) -> (r: Vec<(usize, usize)>)
        requires
            self.wf(),
            batch_size > 0,
        ensures
            r@ == batches_from(0, self.contact_pairs@.len() as int, batch_size as int),
    {
        let count = self.pair_count();
        let mut batches: Vec<(usize, usize)> = Vec::new();
        let mut start: usize = 0;
        while start < count
            invariant
                batch_size > 0,
                batches@ + batches_from(start as int, count as int, batch_size as int)
                    == batches_from(0, count as int, batch_size as int),
            decreases count - start,
        {
            let end = if batch_size >= count - start {
                count
            } else {
                start + batch_size
            };
            let ghost old_batches = batches@;
            batches.push((start, end));
            proof {
                assert(batches@ + batches_from(end as int, count as int, batch_size as int)
                    =~= old_batches + batches_from(start as int, count as int, batch_size as int));
            }
            start = end;
        }
        assert(batches@ =~= batches@ + batches_from(start as int, count as int, batch_size as int));
        batches
    }
}

/// The index ranges from `start` to `count` in batches of `batch_size`.
pub open spec fn batches_from(start: int, count: int, batch_size: int) -> Seq<(usize, usize)>
    decreases count - start,
{
    if start >= count || batch_size <= 0 {
        Seq::empty()
    } else {
        let end = if start + batch_size < count { start + batch_size } else { count };
        seq![(start as usize, end as usize)] + batches_from(end, count, batch_size)
    }
}

/// A prefix sum splits at any point before the end.
proof fn lemma_count_prefix_split(counts: Seq<u32>, k: int)
    requires
        0 <= k < counts.len(),
    ensures
        0 <= count_prefix(counts, k),
        count_prefix(counts, k) + counts[k] <= count_prefix(counts, counts.len() as int),
{
    lemma_count_prefix_mono(counts, 0, k);
    lemma_count_prefix_mono(counts, k + 1, counts.len() as int);
}

/// The prefix sums of a prefix are those of the whole.
proof fn lemma_count_prefix_take(counts: Seq<u32>, k: int)
    requires
        0 <= k <= counts.len(),
    ensures
        forall|j: int| 0 <= j <= k ==> count_prefix(counts.take(k), j) == count_prefix(counts, j),
    decreases k,
{
    assert forall|j: int| 0 <= j <= k implies count_prefix(counts.take(k), j) == count_prefix(
        counts,
        j,
    ) by {
        lemma_count_prefix_take_at(counts, k, j);
    }
}

proof fn lemma_count_prefix_take_at(counts: Seq<u32>, k: int, j: int)
    requires
        0 <= j <= k <= counts.len(),
    ensures
        count_prefix(counts.take(k), j) == count_prefix(counts, j),
    decreases j,
{
    if j > 0 {
        lemma_count_prefix_take_at(counts, k, j - 1);
    }
}

/// Raising one count by one raises the total by one.
proof fn lemma_count_prefix_update(counts: Seq<u32>, idx: int)
    requires
        0 <= idx < counts.len(),
        counts[idx] < u32::MAX,
    ensures
        count_prefix(counts.update(idx, (counts[idx] + 1) as u32), counts.len() as int)
            == count_prefix(counts, counts.len() as int) + 1,
{
    lemma_count_prefix_update_at(counts, idx, counts.len() as int);
}

proof fn lemma_count_prefix_update_at(counts: Seq<u32>, idx: int, k: int)
    requires
        0 <= idx < counts.len(),
        0 <= k <= counts.len(),
        counts[idx] < u32::MAX,
    ensures
        count_prefix(counts.update(idx, (counts[idx] + 1) as u32), k) == count_prefix(counts, k)
            + if idx < k {
            1int
        } else {
            0int
        },
    decreases k,
{
    if k > 0 {
        lemma_count_prefix_update_at(counts, idx, k - 1);
    }
}

/// Adding a contact for the pair at `idx` appends it to that pair's contacts and leaves the
/// contacts of every other pair as they were.
pub proof fn lemma_add_contact_to_pair<C>(points: Seq<C>, owners: Seq<u32>, idx: u32, c: C, pair: int)
    requires
        owners.len() == points.len(),
    ensures
        contacts_of(points.push(c), owners.push(idx), pair, points.len() + 1int) == if pair == idx {
            contacts_of(points, owners, pair, points.len() as int).push(c)
        } else {
            contacts_of(points, owners, pair, points.len() as int)
        },
{
    lemma_contacts_of_prefix(points, owners, c, idx, pair, points.len() as int);
}

/// A pair that no contact belongs to has no contacts.
proof fn lemma_contacts_of_absent<C>(points: Seq<C>, owners: Seq<u32>, pair: int, n: int)
    requires
        0 <= n <= owners.len(),
        forall|k: int| 0 <= k < n ==> #[trigger] owners[k] != pair,
    ensures
        contacts_of(points, owners, pair, n).len() == 0,
    decreases n,
{
    if n > 0 {
        lemma_contacts_of_absent(points, owners, pair, n - 1);
    }
}

proof fn lemma_contacts_of_prefix<C>(points: Seq<C>, owners: Seq<u32>, c: C, idx: u32, pair: int, n: int)
    requires
        0 <= n <= points.len(),
        owners.len() == points.len(),
    ensures
        contacts_of(points.push(c), owners.push(idx), pair, n) == contacts_of(points, owners, pair, n),
    decreases n,
{
    if n > 0 {
        lemma_contacts_of_prefix(points, owners, c, idx, pair, n - 1);
    }
}

/// Collision statistics of one frame.
#[derive(Debug)]
pub struct CollisionStats {
    pub broad_phase_pairs: usize,
    pub narrow_phase_pairs: usize,
    pub contact_points: usize,
    pub cache_hits: usize,
    pub broad_phase_time_us: u64,
    pub narrow_phase_time_us: u64,
    pub solver_time_us: u64,
}

impl CollisionStats {
    /// Whether every count and time is zero.
    pub open spec fn is_zero(&self) -> bool {
        &&& self.broad_phase_pairs == 0
        &&& self.narrow_phase_pairs == 0
        &&& self.contact_points == 0
        &&& self.cache_hits == 0
        &&& self.broad_phase_time_us == 0
        &&& self.narrow_phase_time_us == 0
        &&& self.solver_time_us == 0
    }

    /// Sets every count and time back to zero.
    pub fn reset(&mut self)
        ensures
            final(self).is_zero(),
    {
        *self = CollisionStats::default();
    }

    /// The time of the three phases together.
    pub fn total_time_us(&self) -> (r: u64)
        requires
            self.broad_phase_time_us + self.narrow_phase_time_us + self.solver_time_us <= u64::MAX,
        ensures
            r == self.broad_phase_time_us + self.narrow_phase_time_us + self.solver_time_us,
    {
        self.broad_phase_time_us + self.narrow_phase_time_us + self.solver_time_us
    }
}

impl Default for CollisionStats {
    fn default() -> (r: Self)
        ensures
            r.is_zero(),
    {
        CollisionStats {
            broad_phase_pairs: 0,
            narrow_phase_pairs: 0,
            contact_points: 0,
            cache_hits: 0,
            broad_phase_time_us: 0,
            narrow_phase_time_us: 0,
            solver_time_us: 0,
        }
    }
}

/// The pair of two entities does not depend on their order, and holds the smaller
/// identifier first.
pub proof fn lemma_pair_symmetric(a: EntityId, b: EntityId)
    ensures
        pair_of(a, b) == pair_of(b, a),
        pair_of(a, b).entity_a <= pair_of(a, b).entity_b,
{
}

/// Recording a contact for a pair twice gives the same pair index: after the first
/// recording the pair sits at the index it returned.
pub proof fn lemma_repeat_pair_same_index(pairs: Seq<ContactPair>, pair: ContactPair)
    ensures
        ({
            let after = match first_index(pairs, pair) {
                Some(_) => pairs,
                None => pairs.push(pair),
            };
            let index = match first_index(pairs, pair) {
                Some(i) => i,
                None => pairs.len() as int,
            };
            first_index(after, pair) == Some(index)
        }),
{
    match first_index(pairs, pair) {
        Some(i) => {},
        None => {
            let after = pairs.push(pair);
            let n = pairs.len() as int;
            assert(after[n] == pair);
            assert forall|j: int| 0 <= j < n implies after[j] != pair by {
                assert(after[j] == pairs[j]);
            }
            let c = choose|c: int|
                0 <= c < after.len() && after[c] == pair && forall|j: int| 0 <= j < c ==> after[j] != pair;
            assert(0 <= n < after.len() && after[n] == pair && forall|j: int| 0 <= j < n ==> after[j] != pair);
            if c < n {
                assert(after[c] == pairs[c]);
            }
        },
    }
}

} // verus!
