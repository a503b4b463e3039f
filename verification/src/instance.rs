//! Instance tables (structure of arrays) and queries over them: filter
//! trees evaluated into a bit set, and prebuilt indices by type, activity
//! and creator.

use vstd::prelude::*;
use bit_vec::BitVec;
use std::time::Instant;
use crate::error::EngineError;

verus! {

/// Unique identifier of an instance.
#[derive(Debug, Clone, Copy, PartialEq, Eq, Hash, Structural)]
pub struct InstanceId(pub u64);

impl InstanceId {
    /// The nil identifier.
    pub fn nil() -> (r: InstanceId)
        ensures
            r == InstanceId(0),
    {
        InstanceId(0)
    }

    /// A fresh random identifier.
    pub fn new() -> InstanceId {
        InstanceId(crate::process::random_u64())
    }
}

/// Instance categories.
#[derive(Debug, Clone, Copy, PartialEq, Eq, Hash, Structural)]
pub enum InstanceType {
    Static,
    Dynamic,
}

/// Instance table: one row per instance, one column per attribute.
pub struct InstanceData {
    pub ids: Vec<InstanceId>,
    pub types: Vec<InstanceType>,
    pub active: Vec<bool>,
    pub created_at: Vec<u64>,
    pub created_by: Vec<InstanceId>,
}

/// Instance table of the instance manager.
pub struct InstanceManagerData {
    pub ids: Vec<InstanceId>,
    pub types: Vec<InstanceType>,
    pub active: Vec<bool>,
    pub created_at: Vec<u64>,
    pub created_by: Vec<InstanceId>,
}

impl InstanceManagerData {
    /// No column is longer than the identifiers; a shorter column leaves the instances past
    /// its end without that attribute.
    pub open spec fn wf(&self) -> bool {
        &&& self.types@.len() <= self.ids@.len()
        &&& self.active@.len() <= self.ids@.len()
        &&& self.created_at@.len() <= self.ids@.len()
        &&& self.created_by@.len() <= self.ids@.len()
    }
}

// ---------------------------------------------------------------------
// The bit set of the `bit-vec` crate
// ---------------------------------------------------------------------

#[verifier::external_type_specification]
#[verifier::external_body]
#[verifier::reject_recursive_types(B)]
pub struct ExBitVec<B>(BitVec<B>);

/// The bits a `BitVec` holds, first to last.
pub uninterp spec fn bits(b: BitVec) -> Seq<bool>;

/// `BitVec::from_elem`: `nbits` bits, each equal to `bit`.
#[verifier::external_body]
fn bitvec_from_elem(nbits: usize, bit: bool) -> (r: BitVec)
    ensures
        bits(r) == Seq::new(nbits as nat, |i: int| bit),
{
    BitVec::from_elem(nbits, bit)
}

/// `BitVec::len`: the number of bits.
#[verifier::external_body]
fn bitvec_len(b: &BitVec) -> (r: usize)
    ensures
        r == bits(*b).len(),
{
    b.len()
}

/// Indexing a `BitVec` (`b[i]`): the bit at `i`; it panics past the end.
#[verifier::external_body]
fn bitvec_index(b: &BitVec, i: usize) -> (r: bool)
    requires
        i < bits(*b).len(),
    ensures
        r == bits(*b)[i as int],
{
    b[i]
}

/// `BitVec::set`: the bit at `i` becomes `x`; it panics past the end.
#[verifier::external_body]
fn bitvec_set(b: &mut BitVec, i: usize, x: bool)
    requires
        i < bits(*old(b)).len(),
    ensures
        bits(*final(b)) == bits(*old(b)).update(i as int, x),
{
    b.set(i, x)
}

/// `BitVec::clone`: a copy with the same bits.
#[verifier::external_body]
fn bitvec_clone(b: &BitVec) -> (r: BitVec)
    ensures
        bits(r) == bits(*b),
{
    b.clone()
}

// ---------------------------------------------------------------------
// The clock
// ---------------------------------------------------------------------

#[verifier::external_type_specification]
#[verifier::external_body]
pub struct ExInstant(Instant);

/// `Instant::now`: the current time; nothing is known of it.
#[verifier::external_body]
fn clock_now() -> Instant {
    Instant::now()
}

/// `Instant::elapsed`: whole microseconds since `start`, as a `u64`;
/// nothing is known of it.
#[verifier::external_body]
fn micros_since(start: &Instant) -> u64 {
    start.elapsed().as_micros() as u64
}

// ---------------------------------------------------------------------
// Metadata
// ---------------------------------------------------------------------

/// A metadata value.
#[derive(Debug)]
pub enum MetadataValue {
    Bool(bool),
    I32(i32),
    I64(i64),
    String(String),
}

/// Two metadata values are the same value.
pub open spec fn same_value(a: MetadataValue, b: MetadataValue) -> bool {
    match (a, b) {
        (MetadataValue::Bool(x), MetadataValue::Bool(y)) => x == y,
        (MetadataValue::I32(x), MetadataValue::I32(y)) => x == y,
        (MetadataValue::I64(x), MetadataValue::I64(y)) => x == y,
        (MetadataValue::String(x), MetadataValue::String(y)) => x@ == y@,
        _ => false,
    }
}

/// Whether two metadata values are the same value.
pub fn values_equal(a: &MetadataValue, b: &MetadataValue) -> (r: bool)
    ensures
        r == same_value(*a, *b),
{
    match (a, b) {
        (MetadataValue::Bool(x), MetadataValue::Bool(y)) => *x == *y,
        (MetadataValue::I32(x), MetadataValue::I32(y)) => *x == *y,
        (MetadataValue::I64(x), MetadataValue::I64(y)) => *x == *y,
        (MetadataValue::String(x), MetadataValue::String(y)) => *x == *y,
        _ => false,
    }
}

/// Metadata per instance and key.
pub struct MetadataStore {
    entries: Vec<(InstanceId, String, MetadataValue)>,
}

/// Whether `a` and `b` hold the same text.
fn text_equals(a: &String, b: &str) -> (r: bool)
    ensures
        r == (a@ == b@),
{
    let bs = String::from_str(b);
    *a == bs
}

impl MetadataStore {
    /// The entries, oldest first.
    pub closed spec fn entries(&self) -> Seq<(InstanceId, String, MetadataValue)> {
        self.entries@
    }

    /// The value stored for `id` under `key`: the first matching entry.
    pub open spec fn lookup(&self, id: InstanceId, key: Seq<char>) -> Option<MetadataValue> {
        if exists|i: int| 0 <= i < self.entries().len() && self.entries()[i].0 == id && self.entries()[i].1@ == key {
            let i = choose|i: int|
                0 <= i < self.entries().len() && self.entries()[i].0 == id && self.entries()[i].1@ == key
                    && forall|j: int| 0 <= j < i ==> !(self.entries()[j].0 == id && self.entries()[j].1@ == key);
            Some(self.entries()[i].2)
        } else {
            None
        }
    }

    /// An empty store.
    pub fn new() -> (r: Self)
        ensures
            r.entries().len() == 0,
    {
        MetadataStore { entries: Vec::new() }
    }

    /// Stores `value` for `id` under `key`: the entry already stored for them is
    /// overwritten in place, or a new entry is appended. Setting never fails. Afterwards
    /// the value is what `get` gives for `id` and `key`, and every other lookup is as it
    /// was.
    pub fn set(&mut self, id: InstanceId, key: &str, value: MetadataValue) -> (r: Result<(), EngineError>)
        ensures
            r is Ok,
            final(self).lookup(id, key@) == Some(value),
            forall|id2: InstanceId, k2: Seq<char>|
                !(id2 == id && k2 == key@) ==> #[trigger] final(self).lookup(id2, k2) == old(self).lookup(id2, k2),
    {
        let found = self.position(id, key);
        let k = String::from_str(key);
        let ghost before = *self;
        let ghost x = (id, k, value);
        match found {
            Some(i) => {
                self.entries.set(i, (id, k, value));
                proof {
                    lemma_lookup_first(self, id, key@, i as int);
                    lemma_overwrite_others(&before, self, i as int, x);
                }
            },
            None => {
                self.entries.push((id, k, value));
                proof {
                    lemma_lookup_first(self, id, key@, before.entries().len() as int);
                    lemma_append_others(&before, self, x);
                }
            },
        }
        Ok(())
    }

    /// The position of the first entry stored for `id` under `key`, if any.
    fn position(&self, id: InstanceId, key: &str) -> (r: Option<usize>)
        ensures
            match r {
                Some(i) => {
                    &&& i < self.entries().len()
                    &&& self.entries()[i as int].0 == id && self.entries()[i as int].1@ == key@
                    &&& forall|j: int| 0 <= j < i ==> !(self.entries()[j].0 == id && self.entries()[j].1@ == key@)
                },
                None => forall|j: int|
                    0 <= j < self.entries().len() ==> !(self.entries()[j].0 == id && self.entries()[j].1@ == key@),
            },
    {
        let mut i: usize = 0;
        while i < self.entries.len()
            invariant
                0 <= i <= self.entries.len(),
                forall|j: int| 0 <= j < i ==> !(self.entries@[j].0 == id && self.entries@[j].1@ == key@),
            decreases self.entries.len() - i,
        {
            if self.entries[i].0 == id && text_equals(&self.entries[i].1, key) {
                return Some(i);
            }
            i = i + 1;
        }
        None
    }

    /// The value stored for `id` under `key`.
    pub fn get(&self, id: &InstanceId, key: &str) -> (r: Option<&MetadataValue>)
        ensures
            match r {
                Some(v) => self.lookup(*id, key@) == Some(*v),
                None => self.lookup(*id, key@) is None,
            },
    {
        let mut i: usize = 0;
        while i < self.entries.len()
            invariant
                0 <= i <= self.entries.len(),
                forall|j: int| 0 <= j < i ==> !(self.entries@[j].0 == *id && self.entries@[j].1@ == key@),
            decreases self.entries.len() - i,
        {
            if self.entries[i].0 == *id && text_equals(&self.entries[i].1, key) {
                proof {
                    let c = choose|c: int|
                        0 <= c < self.entries().len() && self.entries()[c].0 == *id && self.entries()[c].1@ == key@
                            && forall|j: int| 0 <= j < c ==> !(self.entries()[j].0 == *id && self.entries()[j].1@ == key@);
                    if c < i {
                    } else if c > i {
                        assert(!(self.entries()[i as int].0 == *id && self.entries()[i as int].1@ == key@));
                    }
                }
                return Some(&self.entries[i].2);
            }
            i = i + 1;
        }
        None
    }
}

/// The lookup of `id` and `key` finds the entry at `i` when it is the first one stored for
/// them.
proof fn lemma_lookup_first(m: &MetadataStore, id: InstanceId, key: Seq<char>, i: int)
    requires
        0 <= i < m.entries().len(),
        m.entries()[i].0 == id && m.entries()[i].1@ == key,
        forall|j: int| 0 <= j < i ==> !(m.entries()[j].0 == id && m.entries()[j].1@ == key),
    ensures
        m.lookup(id, key) == Some(m.entries()[i].2),
{
    let e = m.entries();
    let c = choose|c: int|
        0 <= c < e.len() && e[c].0 == id && e[c].1@ == key && forall|j: int| 0 <= j < c ==> !(e[j].0 == id && e[j].1@ == key);
    if c < i {
    } else if c > i {
        assert(!(e[i].0 == id && e[i].1@ == key));
    }
}

/// Two stores whose entries agree wherever either matches `id` and `key`, and match in
/// the same places, give the same lookup for them.
proof fn lemma_lookup_agree(a: &MetadataStore, b: &MetadataStore, id: InstanceId, key: Seq<char>)
    requires
        a.entries().len() == b.entries().len(),
        forall|j: int| 0 <= j < a.entries().len() ==> ((a.entries()[j].0 == id && a.entries()[j].1@ == key)
            <==> (b.entries()[j].0 == id && b.entries()[j].1@ == key)),
        forall|j: int| 0 <= j < a.entries().len() && a.entries()[j].0 == id && a.entries()[j].1@ == key
            ==> a.entries()[j].2 == b.entries()[j].2,
    ensures
        a.lookup(id, key) == b.lookup(id, key),
{
    let e = a.entries();
    if exists|i: int| 0 <= i < e.len() && e[i].0 == id && e[i].1@ == key {
        let w = choose|i: int| 0 <= i < e.len() && e[i].0 == id && e[i].1@ == key;
        let f = lemma_first_match(a, id, key, w);
        lemma_lookup_first(a, id, key, f);
        lemma_lookup_first(b, id, key, f);
    } else {
        assert forall|i: int| 0 <= i < b.entries().len() implies !(b.entries()[i].0 == id && b.entries()[i].1@ == key) by {
            assert(!(e[i].0 == id && e[i].1@ == key));
        }
    }
}

/// Where some entry matches `id` and `key`, there is a first one.
proof fn lemma_first_match(m: &MetadataStore, id: InstanceId, key: Seq<char>, w: int) -> (f: int)
    requires
        0 <= w < m.entries().len(),
        m.entries()[w].0 == id && m.entries()[w].1@ == key,
    ensures
        0 <= f <= w,
        m.entries()[f].0 == id && m.entries()[f].1@ == key,
        forall|j: int| 0 <= j < f ==> !(m.entries()[j].0 == id && m.entries()[j].1@ == key),
    decreases w,
{
    if exists|j: int| 0 <= j < w && m.entries()[j].0 == id && m.entries()[j].1@ == key {
        let j = choose|j: int| 0 <= j < w && m.entries()[j].0 == id && m.entries()[j].1@ == key;
        lemma_first_match(m, id, key, j)
    } else {
        w
    }
}

/// Appending an entry of another key leaves the lookup of `id` and `key` alone.
proof fn lemma_lookup_extended(a: &MetadataStore, b: &MetadataStore, id: InstanceId, key: Seq<char>)
    requires
        b.entries().len() == a.entries().len() + 1,
        forall|j: int| 0 <= j < a.entries().len() ==> a.entries()[j] == b.entries()[j],
        !(b.entries()[a.entries().len() as int].0 == id && b.entries()[a.entries().len() as int].1@ == key),
    ensures
        a.lookup(id, key) == b.lookup(id, key),
{
    let e = a.entries();
    if exists|i: int| 0 <= i < e.len() && e[i].0 == id && e[i].1@ == key {
        let w = choose|i: int| 0 <= i < e.len() && e[i].0 == id && e[i].1@ == key;
        let f = lemma_first_match(a, id, key, w);
        lemma_lookup_first(a, id, key, f);
        lemma_lookup_first(b, id, key, f);
    } else {
        assert forall|i: int| 0 <= i < b.entries().len() implies !(b.entries()[i].0 == id && b.entries()[i].1@ == key) by {
            if i < e.len() {
                assert(!(e[i].0 == id && e[i].1@ == key));
            }
        }
    }
}

/// Overwriting the entry at `i` with `x` of the same instance and key leaves the lookups
/// of every other instance and key alone.
proof fn lemma_overwrite_others(a: &MetadataStore, b: &MetadataStore, i: int, x: (InstanceId, String, MetadataValue))
    requires
        0 <= i < a.entries().len(),
        b.entries() == a.entries().update(i, x),
        x.0 == a.entries()[i].0,
        x.1@ == a.entries()[i].1@,
    ensures
        forall|id2: InstanceId, k2: Seq<char>|
            !(id2 == x.0 && k2 == x.1@) ==> #[trigger] b.lookup(id2, k2) == a.lookup(id2, k2),
{
    assert forall|id2: InstanceId, k2: Seq<char>| !(id2 == x.0 && k2 == x.1@) implies #[trigger] b.lookup(id2, k2) == a.lookup(id2, k2) by {
        assert forall|j: int| 0 <= j < a.entries().len() implies ((a.entries()[j].0 == id2 && a.entries()[j].1@ == k2)
            <==> (b.entries()[j].0 == id2 && b.entries()[j].1@ == k2)) by {
            if j != i {
                assert(b.entries()[j] == a.entries()[j]);
            }
        }
        assert forall|j: int| 0 <= j < a.entries().len() && a.entries()[j].0 == id2 && a.entries()[j].1@ == k2
            implies a.entries()[j].2 == b.entries()[j].2 by {
            assert(j != i);
            assert(b.entries()[j] == a.entries()[j]);
        }
        lemma_lookup_agree(a, b, id2, k2);
    }
}

/// Appending `x` leaves the lookups of every other instance and key alone.
proof fn lemma_append_others(a: &MetadataStore, b: &MetadataStore, x: (InstanceId, String, MetadataValue))
    requires
        b.entries() == a.entries().push(x),
    ensures
        forall|id2: InstanceId, k2: Seq<char>|
            !(id2 == x.0 && k2 == x.1@) ==> #[trigger] b.lookup(id2, k2) == a.lookup(id2, k2),
{
    assert forall|id2: InstanceId, k2: Seq<char>| !(id2 == x.0 && k2 == x.1@) implies #[trigger] b.lookup(id2, k2) == a.lookup(id2, k2) by {
        assert forall|j: int| 0 <= j < a.entries().len() implies a.entries()[j] == b.entries()[j] by {}
        lemma_lookup_extended(a, b, id2, k2);
    }
}

// ---------------------------------------------------------------------
// Query filters
// ---------------------------------------------------------------------

/// Query filter conditions.
#[derive(Debug)]
pub enum QueryFilter {
    /// Filter by instance type.
    Type(InstanceType),
    /// Filter by multiple types.
    TypeIn(Vec<InstanceType>),
    /// Filter by active status.
    Active(bool),
    /// Filter by creation time range (inclusive).
    CreatedBetween(u64, u64),
    /// Filter by creator.
    CreatedBy(InstanceId),
    /// Filter by metadata existence.
    HasMetadata(&'static str),
    /// Filter by metadata value.
    MetadataEquals(&'static str, MetadataValue),
    /// Combine filters with AND.
    And(Box<QueryFilter>, Box<QueryFilter>),
    /// Combine filters with OR.
    Or(Box<QueryFilter>, Box<QueryFilter>),
    /// Negate a filter.
    Not(Box<QueryFilter>),
}

/// Instance `i` of `data` satisfies filter `f`. A filter on a column holds of the instances
/// past that column's end, which it never looks at.
pub open spec fn filter_holds(f: QueryFilter, data: &InstanceManagerData, meta: &MetadataStore, i: int) -> bool
    decreases f,
{
    match f {
        QueryFilter::Type(t) => i < data.types@.len() ==> data.types@[i] == t,
        QueryFilter::TypeIn(ts) => i < data.types@.len() ==> ts@.contains(data.types@[i]),
        QueryFilter::Active(a) => i < data.active@.len() ==> data.active@[i] == a,
        QueryFilter::CreatedBetween(start, end) => i < data.created_at@.len() ==> start <= data.created_at@[i] <= end,
        QueryFilter::CreatedBy(c) => i < data.created_by@.len() ==> data.created_by@[i] == c,
        QueryFilter::HasMetadata(key) => meta.lookup(data.ids@[i], key@) is Some,
        QueryFilter::MetadataEquals(key, v) => match meta.lookup(data.ids@[i], key@) {
            Some(w) => same_value(w, v),
            None => false,
        },
        QueryFilter::And(a, b) => filter_holds(*a, data, meta, i) && filter_holds(*b, data, meta, i),
        QueryFilter::Or(a, b) => filter_holds(*a, data, meta, i) || filter_holds(*b, data, meta, i),
        QueryFilter::Not(a) => !filter_holds(*a, data, meta, i),
    }
}

/// Instance `i` is selected by the optional filter `f`.
pub open spec fn selected(f: Option<&QueryFilter>, data: &InstanceManagerData, meta: &MetadataStore, i: int) -> bool {
    match f {
        Some(g) => filter_holds(*g, data, meta, i),
        None => true,
    }
}

/// The indices below `n` that satisfy `p`, in increasing order.
pub open spec fn indices_where(n: int, p: spec_fn(int) -> bool) -> Seq<usize>
    decreases n,
{
    if n <= 0 {
        Seq::empty()
    } else if p(n - 1) {
        indices_where(n - 1, p).push((n - 1) as usize)
    } else {
        indices_where(n - 1, p)
    }
}

/// Every index that `indices_where` lists lies below `n`.
proof fn lemma_indices_where_below(n: int, p: spec_fn(int) -> bool)
    requires
        n <= usize::MAX + 1,
    ensures
        forall|k: int| 0 <= k < indices_where(n, p).len() ==> (#[trigger] indices_where(n, p)[k] as int) < n,
    decreases n,
{
    if n > 0 {
        lemma_indices_where_below(n - 1, p);
        let s = indices_where(n, p);
        let prev = indices_where(n - 1, p);
        assert forall|k: int| 0 <= k < s.len() implies (#[trigger] s[k] as int) < n by {
            if k < prev.len() {
                assert(s[k] == prev[k]);
            } else {
                assert(s[k] == (n - 1) as usize);
            }
        }
    }
}

/// An index below `n` is listed by `indices_where` exactly when it satisfies `p`.
pub proof fn lemma_indices_where_member(n: int, p: spec_fn(int) -> bool, i: int)
    requires
        0 <= i < n,
        n <= usize::MAX + 1,
    ensures
        indices_where(n, p).contains(i as usize) == p(i),
    decreases n,
{
    let s = indices_where(n, p);
    let prev = indices_where(n - 1, p);
    lemma_indices_where_below(n - 1, p);
    if i < n - 1 {
        lemma_indices_where_member(n - 1, p, i);
        if p(n - 1) {
            if prev.contains(i as usize) {
                let k = choose|k: int| 0 <= k < prev.len() && prev[k] == i as usize;
                assert(s[k] == prev[k]);
            }
            if s.contains(i as usize) {
                let k = choose|k: int| 0 <= k < s.len() && s[k] == i as usize;
                if k < prev.len() {
                    assert(s[k] == prev[k]);
                }
            }
        }
    } else {
        if p(n - 1) {
            assert(s[prev.len() as int] == i as usize);
        } else {
            if prev.contains(i as usize) {
                let k = choose|k: int| 0 <= k < prev.len() && prev[k] == i as usize;
                assert((prev[k] as int) < n - 1);
            }
        }
    }
}

/// The indices that a query with `filter` selects from `data`, as `QueryExecutor::execute`
/// returns them.
pub open spec fn query_indices(filter: QueryFilter, data: &InstanceManagerData, meta: &MetadataStore) -> Seq<usize> {
    indices_where(data.ids@.len() as int, |k: int| selected(Some(&filter), data, meta, k))
}

/// Queries combine as their names say: an instance is selected by `Or(a, b)` exactly when
/// `a` or `b` selects it, by `And(a, b)` exactly when both select it, and by `Not(a)`
/// exactly when `a` does not.
pub proof fn lemma_query_combinators(
    a: QueryFilter,
    b: QueryFilter,
    data: &InstanceManagerData,
    meta: &MetadataStore,
    i: int,
)
    requires
        0 <= i < data.ids@.len(),
    ensures
        query_indices(QueryFilter::Or(Box::new(a), Box::new(b)), data, meta).contains(i as usize)
            == (query_indices(a, data, meta).contains(i as usize) || query_indices(b, data, meta).contains(i as usize)),
        query_indices(QueryFilter::And(Box::new(a), Box::new(b)), data, meta).contains(i as usize)
            == (query_indices(a, data, meta).contains(i as usize) && query_indices(b, data, meta).contains(i as usize)),
        query_indices(QueryFilter::Not(Box::new(a)), data, meta).contains(i as usize)
            == !query_indices(a, data, meta).contains(i as usize),
{
    let n = data.ids@.len() as int;
    assert(data.ids@.len() == data.ids.len());
    let or_f = QueryFilter::Or(Box::new(a), Box::new(b));
    let and_f = QueryFilter::And(Box::new(a), Box::new(b));
    let not_f = QueryFilter::Not(Box::new(a));
    lemma_indices_where_member(n, |k: int| selected(Some(&or_f), data, meta, k), i);
    lemma_indices_where_member(n, |k: int| selected(Some(&and_f), data, meta, k), i);
    lemma_indices_where_member(n, |k: int| selected(Some(&not_f), data, meta, k), i);
    lemma_indices_where_member(n, |k: int| selected(Some(&a), data, meta, k), i);
    lemma_indices_where_member(n, |k: int| selected(Some(&b), data, meta, k), i);
}

/// The simple filters select by the instance's own entries: its type (equal to `t`, or
/// among `ts`), its activity, its creation time (between `start` and `end`, inclusive), its
/// creator, and its metadata under `key` (present, or equal to `v`). An instance past the
/// end of a column is kept by a filter on that column.
pub proof fn lemma_query_leaves(
    data: &InstanceManagerData,
    meta: &MetadataStore,
    i: int,
    t: InstanceType,
    ts: Vec<InstanceType>,
    active: bool,
    start: u64,
    end: u64,
    creator: InstanceId,
    key: &'static str,
    v: MetadataValue,
)
    requires
        0 <= i < data.ids@.len(),
    ensures
        query_indices(QueryFilter::Type(t), data, meta).contains(i as usize)
            == (i < data.types@.len() ==> data.types@[i] == t),
        query_indices(QueryFilter::TypeIn(ts), data, meta).contains(i as usize)
            == (i < data.types@.len() ==> ts@.contains(data.types@[i])),
        query_indices(QueryFilter::Active(active), data, meta).contains(i as usize)
            == (i < data.active@.len() ==> data.active@[i] == active),
        query_indices(QueryFilter::CreatedBetween(start, end), data, meta).contains(i as usize)
            == (i < data.created_at@.len() ==> start <= data.created_at@[i] && data.created_at@[i] <= end),
        query_indices(QueryFilter::CreatedBy(creator), data, meta).contains(i as usize)
            == (i < data.created_by@.len() ==> data.created_by@[i] == creator),
        query_indices(QueryFilter::HasMetadata(key), data, meta).contains(i as usize)
            == meta.lookup(data.ids@[i], key@) is Some,
        query_indices(QueryFilter::MetadataEquals(key, v), data, meta).contains(i as usize)
            == (meta.lookup(data.ids@[i], key@) matches Some(w) && same_value(w, v)),
{
    let n = data.ids@.len() as int;
    assert(data.ids@.len() == data.ids.len());
    let f1 = QueryFilter::Type(t);
    let f2 = QueryFilter::TypeIn(ts);
    let f3 = QueryFilter::Active(active);
    let f4 = QueryFilter::CreatedBetween(start, end);
    let f5 = QueryFilter::CreatedBy(creator);
    let f6 = QueryFilter::HasMetadata(key);
    let f7 = QueryFilter::MetadataEquals(key, v);
    lemma_indices_where_member(n, |k: int| selected(Some(&f1), data, meta, k), i);
    lemma_indices_where_member(n, |k: int| selected(Some(&f2), data, meta, k), i);
    lemma_indices_where_member(n, |k: int| selected(Some(&f3), data, meta, k), i);
    lemma_indices_where_member(n, |k: int| selected(Some(&f4), data, meta, k), i);
    lemma_indices_where_member(n, |k: int| selected(Some(&f5), data, meta, k), i);
    lemma_indices_where_member(n, |k: int| selected(Some(&f6), data, meta, k), i);
    lemma_indices_where_member(n, |k: int| selected(Some(&f7), data, meta, k), i);
}

/// Whether `ts` holds `t`.
fn contains_type(ts: &Vec<InstanceType>, t: InstanceType) -> (r: bool)
    ensures
        r == ts@.contains(t),
{
    let mut i: usize = 0;
    while i < ts.len()
        invariant
            0 <= i <= ts.len(),
            forall|k: int| 0 <= k < i ==> ts@[k] != t,
        decreases ts.len() - i,
    {
        if ts[i] == t {
            return true;
        }
        i = i + 1;
    }
    false
}

/// Query result with indices.
pub struct QueryResult {
    /// Matching instance indices.
    pub indices: Vec<usize>,
    /// Total instances checked.
    pub total_checked: usize,
    /// Query execution time (microseconds).
    pub execution_time_us: u64,
}

/// Query executor over an instance table and its metadata.
pub struct QueryExecutor<'a> {
    data: &'a InstanceManagerData,
    metadata: &'a MetadataStore,
}

impl<'a> QueryExecutor<'a> {
    /// The instance table.
    pub closed spec fn data(&self) -> &'a InstanceManagerData {
        self.data
    }

    /// The metadata store.
    pub closed spec fn metadata(&self) -> &'a MetadataStore {
        self.metadata
    }

    /// An executor over `data` and `metadata`.
    pub fn new(data: &'a InstanceManagerData, metadata: &'a MetadataStore) -> (r: Self)
        ensures
            r.data() == data,
            r.metadata() == metadata,
    {
        QueryExecutor { data, metadata }
    }

    /// Clears, in `matches`, every instance that does not satisfy `filter`.
    fn apply_filter(&self, filter: &QueryFilter, matches: &mut BitVec)
        requires
            self.data().wf(),
            bits(*old(matches)).len() == self.data().ids@.len(),
        ensures
            bits(*final(matches)).len() == bits(*old(matches)).len(),
            forall|i: int| 0 <= i < bits(*final(matches)).len() ==> #[trigger] bits(*final(matches))[i]
                == (bits(*old(matches))[i] && filter_holds(*filter, self.data(), self.metadata(), i)),
        decreases filter,
    {
        let n = self.data.ids.len();
        let ghost m0 = bits(*matches);
        match filter {
            QueryFilter::Type(t) => {
                let mut i: usize = 0;
                while i < self.data.types.len()
                    invariant
                        0 <= i <= self.data.types.len(),
                        self.data().wf(),
                        n == self.data.ids@.len(),
                        bits(*matches).len() == n,
                        forall|k: int| 0 <= k < n ==> #[trigger] bits(*matches)[k]
                            == (m0[k] && (k < i ==> self.data.types@[k] == *t)),
                    decreases self.data.types.len() - i,
                {
                    if self.data.types[i] != *t {
                        bitvec_set(matches, i, false);
                    }
                    i = i + 1;
                }
            },
            QueryFilter::TypeIn(types) => {
                let mut i: usize = 0;
                while i < self.data.types.len()
                    invariant
                        0 <= i <= self.data.types.len(),
                        self.data().wf(),
                        n == self.data.ids@.len(),
                        bits(*matches).len() == n,
                        forall|k: int| 0 <= k < n ==> #[trigger] bits(*matches)[k]
                            == (m0[k] && (k < i ==> types@.contains(self.data.types@[k]))),
                    decreases self.data.types.len() - i,
                {
                    if !contains_type(types, self.data.types[i]) {
                        bitvec_set(matches, i, false);
                    }
                    i = i + 1;
                }
            },
            QueryFilter::Active(active) => {
                let mut i: usize = 0;
                while i < self.data.active.len()
                    invariant
                        0 <= i <= self.data.active.len(),
                        self.data().wf(),
                        n == self.data.ids@.len(),
                        bits(*matches).len() == n,
                        forall|k: int| 0 <= k < n ==> #[trigger] bits(*matches)[k]
                            == (m0[k] && (k < i ==> self.data.active@[k] == *active)),
                    decreases self.data.active.len() - i,
                {
                    if self.data.active[i] != *active {
                        bitvec_set(matches, i, false);
                    }
                    i = i + 1;
                }
            },
            QueryFilter::CreatedBetween(start, end) => {
                let mut i: usize = 0;
                while i < self.data.created_at.len()
                    invariant
                        0 <= i <= self.data.created_at.len(),
                        self.data().wf(),
                        n == self.data.ids@.len(),
                        bits(*matches).len() == n,
                        forall|k: int| 0 <= k < n ==> #[trigger] bits(*matches)[k]
                            == (m0[k] && (k < i ==> *start <= self.data.created_at@[k] <= *end)),
                    decreases self.data.created_at.len() - i,
                {
                    let created = self.data.created_at[i];
                    if created < *start || created > *end {
                        bitvec_set(matches, i, false);
                    }
                    i = i + 1;
                }
            },
            QueryFilter::CreatedBy(creator) => {
                let mut i: usize = 0;
                while i < self.data.created_by.len()
                    invariant
                        0 <= i <= self.data.created_by.len(),
                        self.data().wf(),
                        n == self.data.ids@.len(),
                        bits(*matches).len() == n,
                        forall|k: int| 0 <= k < n ==> #[trigger] bits(*matches)[k]
                            == (m0[k] && (k < i ==> self.data.created_by@[k] == *creator)),
                    decreases self.data.created_by.len() - i,
                {
                    if self.data.created_by[i] != *creator {
                        bitvec_set(matches, i, false);
                    }
                    i = i + 1;
                }
            },
            QueryFilter::HasMetadata(key) => {
                let mut i: usize = 0;
                while i < n
                    invariant
                        0 <= i <= n,
                        self.data().wf(),
                        n == self.data.ids@.len(),
                        bits(*matches).len() == n,
                        forall|k: int| 0 <= k < n ==> #[trigger] bits(*matches)[k]
                            == (m0[k] && (k < i ==> self.metadata().lookup(self.data.ids@[k], key@) is Some)),
                    decreases n - i,
                {
                    if bitvec_index(matches, i) {
                        let id = &self.data.ids[i];
                        if self.metadata.get(id, key).is_none() {
                            bitvec_set(matches, i, false);
                        }
                    }
                    i = i + 1;
                }
            },
            QueryFilter::MetadataEquals(key, value) => {
                let mut i: usize = 0;
                while i < n
                    invariant
                        0 <= i <= n,
                        self.data().wf(),
                        n == self.data.ids@.len(),
                        bits(*matches).len() == n,
                        forall|k: int| 0 <= k < n ==> #[trigger] bits(*matches)[k]
                            == (m0[k] && (k < i ==> match self.metadata().lookup(self.data.ids@[k], key@) {
                                Some(w) => same_value(w, *value),
                                None => false,
                            })),
                    decreases n - i,
                {
                    if bitvec_index(matches, i) {
                        let id = &self.data.ids[i];
                        match self.metadata.get(id, key) {
                            Some(v) => {
                                if !values_equal(v, value) {
                                    bitvec_set(matches, i, false);
                                }
                            },
                            None => {
                                bitvec_set(matches, i, false);
                            },
                        }
                    }
                    i = i + 1;
                }
            },
            QueryFilter::And(a, b) => {
                self.apply_filter(a, matches);
                self.apply_filter(b, matches);
            },
            QueryFilter::Or(a, b) => {
                let mut matches_a = bitvec_clone(matches);
                let mut matches_b = bitvec_clone(matches);
                self.apply_filter(a, &mut matches_a);
                self.apply_filter(b, &mut matches_b);
                let len = bitvec_len(matches);
                let mut i: usize = 0;
                while i < len
                    invariant
                        0 <= i <= len,
                        len == n,
                        bits(*matches).len() == n,
                        bits(matches_a).len() == n,
                        bits(matches_b).len() == n,
                        forall|k: int| 0 <= k < n ==> #[trigger] bits(*matches)[k]
                            == if k < i { bits(matches_a)[k] || bits(matches_b)[k] } else { m0[k] },
                    decreases len - i,
                {
                    let x = bitvec_index(&matches_a, i) || bitvec_index(&matches_b, i);
                    bitvec_set(matches, i, x);
                    i = i + 1;
                }
            },
            QueryFilter::Not(f) => {
                let len = bitvec_len(matches);
                let mut inverted = bitvec_from_elem(len, true);
                self.apply_filter(f, &mut inverted);
                let mut i: usize = 0;
                while i < len
                    invariant
                        0 <= i <= len,
                        len == n,
                        bits(*matches).len() == n,
                        bits(inverted).len() == n,
                        forall|k: int| 0 <= k < n ==> #[trigger] bits(*matches)[k]
                            == if k < i { m0[k] && !bits(inverted)[k] } else { m0[k] },
                    decreases len - i,
                {
                    let x = bitvec_index(matches, i) && !bitvec_index(&inverted, i);
                    bitvec_set(matches, i, x);
                    i = i + 1;
                }
            },
        }
    }

    /// Runs a query: the indices of the instances that satisfy `filter`
    /// (all of them without a filter), in increasing order, and how many
    /// instances were checked.
    pub fn execute(&self, filter: Option<&QueryFilter>) -> (r: QueryResult)
        requires
            self.data().wf(),
        ensures
            r.total_checked == self.data().ids@.len(),
            r.indices@ == indices_where(
                self.data().ids@.len() as int,
                |i: int| selected(filter, self.data(), self.metadata(), i),
            ),
    {
        let start = clock_now();
        let total = self.data.ids.len();
        let mut matches = bitvec_from_elem(total, true);
        if let Some(f) = filter {
            self.apply_filter(f, &mut matches);
        }
        let ghost p = |i: int| selected(filter, self.data(), self.metadata(), i);
        let mut indices: Vec<usize> = Vec::new();
        let mut i: usize = 0;
        while i < total
            invariant
                0 <= i <= total,
                total == self.data().ids@.len(),
                bits(matches).len() == total,
                forall|k: int| 0 <= k < total ==> #[trigger] bits(matches)[k] == p(k),
                indices@ == indices_where(i as int, p),
            decreases total - i,
        {
            if bitvec_index(&matches, i) {
                indices.push(i);
            }
            i = i + 1;
        }
        QueryResult { indices, total_checked: total, execution_time_us: micros_since(&start) }
    }

    /// How many instances satisfy `filter` (all of them without a filter).
    pub fn count(&self, filter: Option<&QueryFilter>) -> (r: usize)
        requires
            self.data().wf(),
        ensures
            r == indices_where(
                self.data().ids@.len() as int,
                |i: int| selected(filter, self.data(), self.metadata(), i),
            ).len(),
    {
        let total = self.data.ids.len();
        let mut matches = bitvec_from_elem(total, true);
        if let Some(f) = filter {
            self.apply_filter(f, &mut matches);
        }
        let ghost p = |i: int| selected(filter, self.data(), self.metadata(), i);
        let mut n: usize = 0;
        let mut i: usize = 0;
        while i < total
            invariant
                0 <= i <= total,
                total == self.data().ids@.len(),
                bits(matches).len() == total,
                forall|k: int| 0 <= k < total ==> #[trigger] bits(matches)[k] == p(k),
                n == indices_where(i as int, p).len(),
                n <= i,
            decreases total - i,
        {
            if bitvec_index(&matches, i) {
                n = n + 1;
            }
            i = i + 1;
        }
        n
    }
}

// ---------------------------------------------------------------------
// Query builder
// ---------------------------------------------------------------------

/// The conjunction of `fs`, combined from the left.
pub open spec fn combine_and(fs: Seq<QueryFilter>) -> Option<QueryFilter>
    decreases fs.len(),
{
    if fs.len() == 0 {
        None
    } else if fs.len() == 1 {
        Some(fs[0])
    } else {
        Some(QueryFilter::And(Box::new(combine_and(fs.drop_last())->0), Box::new(fs.last())))
    }
}

/// Query builder for a fluent API.
pub struct InstanceQuery {
    filters: Vec<QueryFilter>,
}

impl InstanceQuery {
    /// The filters added so far, in order.
    pub closed spec fn filters(&self) -> Seq<QueryFilter> {
        self.filters@
    }

    /// A query without filters.
    pub fn new() -> (r: Self)
        ensures
            r.filters().len() == 0,
    {
        InstanceQuery { filters: Vec::new() }
    }

    /// Adds a filter by type.
    pub fn with_type(self, instance_type: InstanceType) -> (r: Self)
        ensures
            r.filters() == self.filters().push(QueryFilter::Type(instance_type)),
    {
        let mut q = self;
        q.filters.push(QueryFilter::Type(instance_type));
        q
    }

    /// Adds a filter by several types.
    pub fn with_types(self, types: Vec<InstanceType>) -> (r: Self)
        ensures
            r.filters() == self.filters().push(QueryFilter::TypeIn(types)),
    {
        let mut q = self;
        q.filters.push(QueryFilter::TypeIn(types));
        q
    }

    /// Adds a filter that keeps active instances only.
    pub fn active(self) -> (r: Self)
        ensures
            r.filters() == self.filters().push(QueryFilter::Active(true)),
    {
        let mut q = self;
        q.filters.push(QueryFilter::Active(true));
        q
    }

    /// Adds a filter that keeps inactive instances only.
    pub fn inactive(self) -> (r: Self)
        ensures
            r.filters() == self.filters().push(QueryFilter::Active(false)),
    {
        let mut q = self;
        q.filters.push(QueryFilter::Active(false));
        q
    }

    /// Adds a filter by creation time (inclusive range).
    pub fn created_between(self, start: u64, end: u64) -> (r: Self)
        ensures
            r.filters() == self.filters().push(QueryFilter::CreatedBetween(start, end)),
    {
        let mut q = self;
        q.filters.push(QueryFilter::CreatedBetween(start, end));
        q
    }

    /// Adds a filter by creator.
    pub fn created_by(self, creator: InstanceId) -> (r: Self)
        ensures
            r.filters() == self.filters().push(QueryFilter::CreatedBy(creator)),
    {
        let mut q = self;
        q.filters.push(QueryFilter::CreatedBy(creator));
        q
    }

    /// Adds a filter by metadata key.
    pub fn has_metadata(self, key: &'static str) -> (r: Self)
        ensures
            r.filters() == self.filters().push(QueryFilter::HasMetadata(key)),
    {
        let mut q = self;
        q.filters.push(QueryFilter::HasMetadata(key));
        q
    }

    /// Adds a filter by metadata value.
    pub fn metadata_equals(self, key: &'static str, value: MetadataValue) -> (r: Self)
        ensures
            r.filters() == self.filters().push(QueryFilter::MetadataEquals(key, value)),
    {
        let mut q = self;
        q.filters.push(QueryFilter::MetadataEquals(key, value));
        q
    }

    /// The final filter: none without filters, the filter itself for one,
    /// and the conjunction of all of them, from the left, otherwise.
    pub fn build(self) -> (r: Option<QueryFilter>)
        ensures
            r == combine_and(self.filters()),
    {
        let ghost fs = self.filters@;
        let mut acc: Option<QueryFilter> = None;
        for f in it: self.filters.into_iter()
            invariant
                it.seq() == fs,
                acc == combine_and(fs.take(it.index() as int)),
        {
            let ghost k = it.index() as int;
            assert(fs.take(k + 1).drop_last() =~= fs.take(k));
            assert(fs.take(k + 1).last() == fs[k]);
            acc = match acc {
                None => Some(f),
                Some(a) => Some(QueryFilter::And(Box::new(a), Box::new(f))),
            };
            proof {
                if k == 0 {
                    assert(fs.take(1)[0] == fs[0]);
                }
            }
        }
        assert(fs.take(fs.len() as int) =~= fs);
        acc
    }
}

// ---------------------------------------------------------------------
// Prebuilt indices
// ---------------------------------------------------------------------

/// The positions listed under `key` in `entries` (none if `key` has no
/// entry).
pub open spec fn type_lookup(entries: Seq<(InstanceType, Vec<usize>)>, key: InstanceType) -> Seq<usize> {
    if exists|k: int| 0 <= k < entries.len() && entries[k].0 == key {
        let k = choose|k: int| 0 <= k < entries.len() && entries[k].0 == key;
        entries[k].1@
    } else {
        Seq::empty()
    }
}

/// No key has two entries.
pub open spec fn type_keys_unique(entries: Seq<(InstanceType, Vec<usize>)>) -> bool {
    forall|a: int, b: int| 0 <= a < entries.len() && 0 <= b < entries.len() && a != b ==> entries[a].0 != entries[b].0
}

/// Appends position `i` to the list of `key`, creating the entry if needed.
fn type_index_push(entries: &mut Vec<(InstanceType, Vec<usize>)>, key: InstanceType, i: usize)
    requires
        type_keys_unique(old(entries)@),
    ensures
        type_keys_unique(final(entries)@),
        forall|t: InstanceType| #[trigger] type_lookup(final(entries)@, t)
            == if t == key { type_lookup(old(entries)@, t).push(i) } else { type_lookup(old(entries)@, t) },
{
    let ghost e0 = entries@;
    let mut k: usize = 0;
    while k < entries.len()
        invariant
            0 <= k <= entries.len(),
            entries@ == e0,
            e0 == old(entries)@,
            type_keys_unique(e0),
            forall|j: int| 0 <= j < k ==> e0[j].0 != key,
        decreases entries.len() - k,
    {
        if entries[k].0 == key {
            let (t0, mut v) = entries.remove(k);
            let ghost v0 = v@;
            v.push(i);
            entries.insert(k, (t0, v));
            proof {
                assert(entries@ =~= e0.update(k as int, entries@[k as int]));
                assert(entries@[k as int].1@ == e0[k as int].1@.push(i));
                assert forall|t: InstanceType| #[trigger] type_lookup(entries@, t)
                    == if t == key { type_lookup(e0, t).push(i) } else { type_lookup(e0, t) } by {
                    if exists|j: int| 0 <= j < e0.len() && e0[j].0 == t {
                        let j = choose|j: int| 0 <= j < e0.len() && e0[j].0 == t;
                        assert(entries@[j].0 == t);
                        let j2 = choose|j2: int| 0 <= j2 < entries@.len() && entries@[j2].0 == t;
                        if j2 != j {
                            assert(entries@[j2] == e0[j2]);
                        }
                        if t == key {
                            assert(j == k);
                        } else {
                            assert(entries@[j] == e0[j]);
                        }
                    } else {
                        if exists|j: int| 0 <= j < entries@.len() && entries@[j].0 == t {
                            let j = choose|j: int| 0 <= j < entries@.len() && entries@[j].0 == t;
                            assert(e0[j].0 == t);
                        }
                    }
                }
                assert forall|a: int, b: int| 0 <= a < entries@.len() && 0 <= b < entries@.len() && a != b
                    implies entries@[a].0 != entries@[b].0 by {
                    assert(entries@[a].0 == e0[a].0);
                    assert(entries@[b].0 == e0[b].0);
                }
            }
            return;
        }
        k = k + 1;
    }
    let mut v: Vec<usize> = Vec::new();
    v.push(i);
    entries.push((key, v));
    proof {
        assert forall|t: InstanceType| #[trigger] type_lookup(entries@, t)
            == if t == key { type_lookup(e0, t).push(i) } else { type_lookup(e0, t) } by {
            let last = entries@.len() - 1;
            if t == key {
                assert(entries@[last].0 == key);
                let j2 = choose|j2: int| 0 <= j2 < entries@.len() && entries@[j2].0 == t;
                if j2 != last {
                    assert(entries@[j2] == e0[j2]);
                }
                assert(type_lookup(e0, t) =~= Seq::<usize>::empty());
                assert(entries@[last].1@ =~= Seq::<usize>::empty().push(i));
            } else {
                if exists|j: int| 0 <= j < e0.len() && e0[j].0 == t {
                    let j = choose|j: int| 0 <= j < e0.len() && e0[j].0 == t;
                    assert(entries@[j] == e0[j]);
                    let j2 = choose|j2: int| 0 <= j2 < entries@.len() && entries@[j2].0 == t;
                    if j2 < e0.len() {
                        assert(entries@[j2] == e0[j2]);
                    }
                }
                if exists|j: int| 0 <= j < entries@.len() && entries@[j].0 == t {
                    let j = choose|j: int| 0 <= j < entries@.len() && entries@[j].0 == t;
                    assert(j < e0.len());
                    assert(entries@[j] == e0[j]);
                }
            }
        }
        assert forall|a: int, b: int| 0 <= a < entries@.len() && 0 <= b < entries@.len() && a != b
            implies entries@[a].0 != entries@[b].0 by {
            if a < e0.len() {
                assert(entries@[a] == e0[a]);
            }
            if b < e0.len() {
                assert(entries@[b] == e0[b]);
            }
        }
    }
}

/// The positions listed under `key` in `entries` (none if `key` has no
/// entry).
pub open spec fn creator_lookup(entries: Seq<(InstanceId, Vec<usize>)>, key: InstanceId) -> Seq<usize> {
    if exists|k: int| 0 <= k < entries.len() && entries[k].0 == key {
        let k = choose|k: int| 0 <= k < entries.len() && entries[k].0 == key;
        entries[k].1@
    } else {
        Seq::empty()
    }
}

/// No key has two entries.
pub open spec fn creator_keys_unique(entries: Seq<(InstanceId, Vec<usize>)>) -> bool {
    forall|a: int, b: int| 0 <= a < entries.len() && 0 <= b < entries.len() && a != b ==> entries[a].0 != entries[b].0
}

/// Appends position `i` to the list of `key`, creating the entry if needed.
fn creator_index_push(entries: &mut Vec<(InstanceId, Vec<usize>)>, key: InstanceId, i: usize)
    requires
        creator_keys_unique(old(entries)@),
    ensures
        creator_keys_unique(final(entries)@),
        forall|t: InstanceId| #[trigger] creator_lookup(final(entries)@, t)
            == if t == key { creator_lookup(old(entries)@, t).push(i) } else { creator_lookup(old(entries)@, t) },
{
    let ghost e0 = entries@;
    let mut k: usize = 0;
    while k < entries.len()
        invariant
            0 <= k <= entries.len(),
            entries@ == e0,
            e0 == old(entries)@,
            creator_keys_unique(e0),
            forall|j: int| 0 <= j < k ==> e0[j].0 != key,
        decreases entries.len() - k,
    {
        if entries[k].0 == key {
            let (t0, mut v) = entries.remove(k);
            let ghost v0 = v@;
            v.push(i);
            entries.insert(k, (t0, v));
            proof {
                assert(entries@ =~= e0.update(k as int, entries@[k as int]));
                assert(entries@[k as int].1@ == e0[k as int].1@.push(i));
                assert forall|t: InstanceId| #[trigger] creator_lookup(entries@, t)
                    == if t == key { creator_lookup(e0, t).push(i) } else { creator_lookup(e0, t) } by {
                    if exists|j: int| 0 <= j < e0.len() && e0[j].0 == t {
                        let j = choose|j: int| 0 <= j < e0.len() && e0[j].0 == t;
                        assert(entries@[j].0 == t);
                        let j2 = choose|j2: int| 0 <= j2 < entries@.len() && entries@[j2].0 == t;
                        if j2 != j {
                            assert(entries@[j2] == e0[j2]);
                        }
                        if t == key {
                            assert(j == k);
                        } else {
                            assert(entries@[j] == e0[j]);
                        }
                    } else {
                        if exists|j: int| 0 <= j < entries@.len() && entries@[j].0 == t {
                            let j = choose|j: int| 0 <= j < entries@.len() && entries@[j].0 == t;
                            assert(e0[j].0 == t);
                        }
                    }
                }
                assert forall|a: int, b: int| 0 <= a < entries@.len() && 0 <= b < entries@.len() && a != b
                    implies entries@[a].0 != entries@[b].0 by {
                    assert(entries@[a].0 == e0[a].0);
                    assert(entries@[b].0 == e0[b].0);
                }
            }
            return;
        }
        k = k + 1;
    }
    let mut v: Vec<usize> = Vec::new();
    v.push(i);
    entries.push((key, v));
    proof {
        assert forall|t: InstanceId| #[trigger] creator_lookup(entries@, t)
            == if t == key { creator_lookup(e0, t).push(i) } else { creator_lookup(e0, t) } by {
            let last = entries@.len() - 1;
            if t == key {
                assert(entries@[last].0 == key);
                let j2 = choose|j2: int| 0 <= j2 < entries@.len() && entries@[j2].0 == t;
                if j2 != last {
                    assert(entries@[j2] == e0[j2]);
                }
                assert(creator_lookup(e0, t) =~= Seq::<usize>::empty());
                assert(entries@[last].1@ =~= Seq::<usize>::empty().push(i));
            } else {
                if exists|j: int| 0 <= j < e0.len() && e0[j].0 == t {
                    let j = choose|j: int| 0 <= j < e0.len() && e0[j].0 == t;
                    assert(entries@[j] == e0[j]);
                    let j2 = choose|j2: int| 0 <= j2 < entries@.len() && entries@[j2].0 == t;
                    if j2 < e0.len() {
                        assert(entries@[j2] == e0[j2]);
                    }
                }
                if exists|j: int| 0 <= j < entries@.len() && entries@[j].0 == t {
                    let j = choose|j: int| 0 <= j < entries@.len() && entries@[j].0 == t;
                    assert(j < e0.len());
                    assert(entries@[j] == e0[j]);
                }
            }
        }
        assert forall|a: int, b: int| 0 <= a < entries@.len() && 0 <= b < entries@.len() && a != b
            implies entries@[a].0 != entries@[b].0 by {
            if a < e0.len() {
                assert(entries@[a] == e0[a]);
            }
            if b < e0.len() {
                assert(entries@[b] == e0[b]);
            }
        }
    }
}

/// Pre-built indices for common queries.
pub struct QueryIndices {
    /// Instances by type, one entry per type that occurs.
    by_type: Vec<(InstanceType, Vec<usize>)>,
    /// Active instances.
    active: Vec<usize>,
    /// Instances by creator, one entry per creator that occurs.
    by_creator: Vec<(InstanceId, Vec<usize>)>,
}

impl InstanceData {
    /// Every column has one entry per instance.
    pub open spec fn wf(&self) -> bool {
        &&& self.types@.len() >= self.ids@.len()
        &&& self.active@.len() >= self.ids@.len()
        &&& self.created_by@.len() >= self.ids@.len()
    }
}

impl QueryIndices {
    /// The indices of instances of type `t`.
    pub closed spec fn type_index(&self, t: InstanceType) -> Seq<usize> {
        type_lookup(self.by_type@, t)
    }

    /// No type or creator has two entries.
    pub closed spec fn wf(&self) -> bool {
        type_keys_unique(self.by_type@) && creator_keys_unique(self.by_creator@)
    }

    /// The indices of active instances.
    pub closed spec fn active_index(&self) -> Seq<usize> {
        self.active@
    }

    /// The indices of instances created by `c`.
    pub closed spec fn creator_index(&self, c: InstanceId) -> Seq<usize> {
        creator_lookup(self.by_creator@, c)
    }

    /// Builds the indices of `data`: for each type, each creator, and for
    /// activity, the positions of the matching instances in increasing
    /// order.
    pub fn build(data: &InstanceData) -> (r: Self)
        requires
            data.wf(),
        ensures
            r.wf(),
            forall|t: InstanceType| #[trigger] r.type_index(t)
                == indices_where(data.ids@.len() as int, |k: int| data.types@[k] == t),
            r.active_index() == indices_where(data.ids@.len() as int, |k: int| data.active@[k]),
            forall|c: InstanceId| #[trigger] r.creator_index(c)
                == indices_where(data.ids@.len() as int, |k: int| data.created_by@[k] == c),
    {
        let mut by_type: Vec<(InstanceType, Vec<usize>)> = Vec::new();
        let mut active: Vec<usize> = Vec::new();
        let mut by_creator: Vec<(InstanceId, Vec<usize>)> = Vec::new();
        let n = data.ids.len();
        let mut i: usize = 0;
        while i < n
            invariant
                0 <= i <= n,
                n == data.ids@.len(),
                data.wf(),
                type_keys_unique(by_type@),
                creator_keys_unique(by_creator@),
                forall|t: InstanceType| #[trigger] type_lookup(by_type@, t)
                    == indices_where(i as int, |k: int| data.types@[k] == t),
                active@ == indices_where(i as int, |k: int| data.active@[k]),
                forall|c: InstanceId| #[trigger] creator_lookup(by_creator@, c)
                    == indices_where(i as int, |k: int| data.created_by@[k] == c),
            decreases n - i,
        {
            type_index_push(&mut by_type, data.types[i], i);
            if data.active[i] {
                active.push(i);
            }
            creator_index_push(&mut by_creator, data.created_by[i], i);
            proof {
                assert forall|t: InstanceType| #[trigger] type_lookup(by_type@, t)
                    == indices_where(i + 1, |k: int| data.types@[k] == t) by {
                    assert(type_lookup(by_type@, t) == type_lookup(by_type@, t));
                }
                assert forall|c: InstanceId| #[trigger] creator_lookup(by_creator@, c)
                    == indices_where(i + 1, |k: int| data.created_by@[k] == c) by {
                    assert(creator_lookup(by_creator@, c) == creator_lookup(by_creator@, c));
                }
            }
            i = i + 1;
        }
        QueryIndices { by_type, active, by_creator }
    }

    /// The positions of instances of type `t`.
    pub fn get_by_type(&self, t: InstanceType) -> (r: &[usize])
        requires
            self.wf(),
        ensures
            r@ == self.type_index(t),
    {
        let mut k: usize = 0;
        while k < self.by_type.len()
            invariant
                0 <= k <= self.by_type.len(),
                self.wf(),
                forall|j: int| 0 <= j < k ==> self.by_type@[j].0 != t,
            decreases self.by_type.len() - k,
        {
            if self.by_type[k].0 == t {
                proof {
                    let j = choose|j: int| 0 <= j < self.by_type@.len() && self.by_type@[j].0 == t;
                    if j != k {
                        assert(self.by_type@[j].0 != self.by_type@[k as int].0);
                    }
                }
                return self.by_type[k].1.as_slice();
            }
            k = k + 1;
        }
        &[]
    }

    /// The positions of active instances.
    pub fn get_active(&self) -> (r: &[usize])
        ensures
            r@ == self.active_index(),
    {
        self.active.as_slice()
    }

    /// The positions of instances created by `creator`.
    pub fn get_by_creator(&self, creator: &InstanceId) -> (r: &[usize])
        requires
            self.wf(),
        ensures
            r@ == self.creator_index(*creator),
    {
        let mut k: usize = 0;
        while k < self.by_creator.len()
            invariant
                0 <= k <= self.by_creator.len(),
                self.wf(),
                forall|j: int| 0 <= j < k ==> self.by_creator@[j].0 != *creator,
            decreases self.by_creator.len() - k,
        {
            if self.by_creator[k].0 == *creator {
                proof {
                    let j = choose|j: int| 0 <= j < self.by_creator@.len() && self.by_creator@[j].0 == *creator;
                    if j != k {
                        assert(self.by_creator@[j].0 != self.by_creator@[k as int].0);
                    }
                }
                return self.by_creator[k].1.as_slice();
            }
            k = k + 1;
        }
        &[]
    }
}

} // verus!
