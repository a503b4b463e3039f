//! System identifiers and the dependency-driven execution order of engine
//! systems.
//!
//! Systems are registered with the systems they depend on; the execution
//! order is recomputed on every registration by a depth-first traversal
//! that places every dependency before the systems that need it and
//! refuses circular dependencies.

use vstd::prelude::*;
use crate::error::{EngineError, EngineResult};

verus! {

/// System identifier.
#[derive(Debug, Clone, Copy, PartialEq, Eq, Hash, Structural)]
pub enum SystemId {
    WorldGeneration,
    Physics,
    Renderer,
    Lighting,
    Network,
    Persistence,
    Audio,
    Input,
    UI,
    Particles,
    Weather,
}

/// Position of a system in the declaration order of `SystemId`.
pub open spec fn system_index(s: SystemId) -> int {
    match s {
        SystemId::WorldGeneration => 0,
        SystemId::Physics => 1,
        SystemId::Renderer => 2,
        SystemId::Lighting => 3,
        SystemId::Network => 4,
        SystemId::Persistence => 5,
        SystemId::Audio => 6,
        SystemId::Input => 7,
        SystemId::UI => 8,
        SystemId::Particles => 9,
        SystemId::Weather => 10,
    }
}

/// The name under which a system is shown (its `Debug` text).
pub open spec fn system_name(s: SystemId) -> Seq<char> {
    match s {
        SystemId::WorldGeneration => "WorldGeneration"@,
        SystemId::Physics => "Physics"@,
        SystemId::Renderer => "Renderer"@,
        SystemId::Lighting => "Lighting"@,
        SystemId::Network => "Network"@,
        SystemId::Persistence => "Persistence"@,
        SystemId::Audio => "Audio"@,
        SystemId::Input => "Input"@,
        SystemId::UI => "UI"@,
        SystemId::Particles => "Particles"@,
        SystemId::Weather => "Weather"@,
    }
}

/// The name under which a system is shown.
pub fn system_name_str(s: SystemId) -> (r: &'static str)
    ensures
        r@ == system_name(s),
{
    match s {
        SystemId::WorldGeneration => "WorldGeneration",
        SystemId::Physics => "Physics",
        SystemId::Renderer => "Renderer",
        SystemId::Lighting => "Lighting",
        SystemId::Network => "Network",
        SystemId::Persistence => "Persistence",
        SystemId::Audio => "Audio",
        SystemId::Input => "Input",
        SystemId::UI => "UI",
        SystemId::Particles => "Particles",
        SystemId::Weather => "Weather",
    }
}

/// A sequence of distinct systems has at most as many elements as there
/// are systems.
proof fn lemma_distinct_systems_bounded(s: Seq<SystemId>)
    requires
        s.no_duplicates(),
    ensures
        s.len() <= 11,
{
    let f = |x: SystemId| system_index(x);
    let m = s.map_values(f);
    assert forall|i: int, j: int| 0 <= i < m.len() && 0 <= j < m.len() && i != j implies m[i] != m[j] by {
        assert(s[i] != s[j]);
    }
    assert(m.no_duplicates());
    m.unique_seq_to_set();
    vstd::seq_lib::seq_to_set_is_finite(m);
    vstd::set_lib::lemma_int_range(0, 11);
    assert forall|x: int| m.to_set().contains(x) implies vstd::set_lib::set_int_range(0, 11).contains(x) by {
        let k = choose|k: int| 0 <= k < m.len() && m[k] == x;
        assert(m[k] == system_index(s[k]));
    }
    vstd::set_lib::lemma_len_subset(m.to_set(), vstd::set_lib::set_int_range(0, 11));
}

/// System dependencies specification.
#[derive(Debug, Clone)]
pub struct SystemDependencies {
    /// Systems that must complete before this system runs.
    pub depends_on: Vec<SystemId>,
    /// Systems that cannot run concurrently with this system.
    pub conflicts_with: Vec<SystemId>,
    /// Maximum time to wait for dependencies (ms).
    pub max_wait_time_ms: u64,
}

/// The registered dependencies and the execution order derived from them.
pub struct ExecutionPlan {
    /// One entry per registered system, in registration order.
    dependencies: Vec<(SystemId, SystemDependencies)>,
    /// Execution order: every dependency comes before its dependents.
    execution_order: Vec<SystemId>,
}

/// `order` lists distinct systems, each after all the systems that it
/// depends on.
pub open spec fn is_dependency_order(plan: &ExecutionPlan, order: Seq<SystemId>) -> bool {
    &&& order.no_duplicates()
    &&& forall|i: int, d: SystemId|
        0 <= i < order.len() && #[trigger] plan.depends(order[i], d) ==>
            exists|j: int| 0 <= j < i && order[j] == d
}

impl ExecutionPlan {
    /// The registered entries: each system with the systems it depends on.
    pub closed spec fn entries(&self) -> Seq<(SystemId, Seq<SystemId>)> {
        self.dependencies@.map_values(|e: (SystemId, SystemDependencies)| (e.0, e.1.depends_on@))
    }

    /// The registered records in full: each system with the systems it depends on, the
    /// systems it conflicts with, and its longest wait in milliseconds.
    pub closed spec fn records(&self) -> Seq<(SystemId, Seq<SystemId>, Seq<SystemId>, u64)> {
        self.dependencies@.map_values(
            |e: (SystemId, SystemDependencies)|
                (e.0, e.1.depends_on@, e.1.conflicts_with@, e.1.max_wait_time_ms),
        )
    }

    /// The current execution order.
    pub closed spec fn order(&self) -> Seq<SystemId> {
        self.execution_order@
    }

    /// Each system is registered at most once.
    pub closed spec fn wf(&self) -> bool {
        forall|i: int, j: int|
            0 <= i < self.dependencies@.len() && 0 <= j < self.dependencies@.len() && i != j
                ==> self.dependencies@[i].0 != self.dependencies@[j].0
    }

    /// `a` is registered.
    pub open spec fn is_registered(&self, a: SystemId) -> bool {
        exists|i: int| 0 <= i < self.entries().len() && self.entries()[i].0 == a
    }

    /// `a` is registered and must run after `b`.
    pub open spec fn depends(&self, a: SystemId, b: SystemId) -> bool {
        exists|i: int| 0 <= i < self.entries().len() && self.entries()[i].0 == a
            && #[trigger] self.entries()[i].1.contains(b)
    }

    /// `p` is a closed chain of dependencies.
    pub open spec fn is_cycle(&self, p: Seq<SystemId>) -> bool {
        &&& p.len() >= 2
        &&& p[0] == p[p.len() - 1]
        &&& forall|k: int| 0 <= k < p.len() - 1 ==> #[trigger] self.depends(p[k], p[k + 1])
    }

    /// Some systems depend on each other in a circle.
    pub open spec fn has_cycle(&self) -> bool {
        exists|p: Seq<SystemId>| self.is_cycle(p)
    }

    /// `s` is registered or is a dependency of a registered system.
    pub open spec fn is_known(&self, s: SystemId) -> bool {
        self.is_registered(s) || exists|a: SystemId| self.depends(a, s)
    }

    /// The systems of `p` follow each other along dependencies.
    pub open spec fn is_chain(&self, p: Seq<SystemId>) -> bool {
        forall|k: int| 0 <= k < p.len() - 1 ==> #[trigger] self.depends(p[k], p[k + 1])
    }

    /// A plan with no system registered and an empty execution order.
    pub fn new() -> (r: Self)
        ensures
            r.wf(),
            r.entries() == Seq::<(SystemId, Seq<SystemId>)>::empty(),
            r.records().len() == 0,
            r.order() == Seq::<SystemId>::empty(),
    {
        let r = ExecutionPlan { dependencies: Vec::new(), execution_order: Vec::new() };
        assert(r.entries() =~= Seq::<(SystemId, Seq<SystemId>)>::empty());
        r
    }

    /// The current execution order.
    pub fn execution_order(&self) -> (r: &Vec<SystemId>)
        ensures
            r@ == self.order(),
    {
        &self.execution_order
    }

    /// The number of registered systems.
    pub fn len(&self) -> (r: usize)
        ensures
            r == self.entries().len(),
    {
        self.dependencies.len()
    }

    /// The dependencies registered for `id`, or `None` when `id` is not registered.
    pub fn dependencies_of(&self, id: SystemId) -> (r: Option<&SystemDependencies>)
        ensures
            r is None <==> !self.is_registered(id),
            r matches Some(d) ==> exists|i: int|
                0 <= i < self.entries().len() && #[trigger] self.entries()[i] == (
                    id,
                    d.depends_on@,
                ) && self.records()[i] == (
                    id,
                    d.depends_on@,
                    d.conflicts_with@,
                    d.max_wait_time_ms,
                ),
    {
        match self.find_entry(id) {
            Some(i) => {
                assert(self.entries()[i as int] == (id, self.dependencies@[i as int].1.depends_on@));
                assert(self.records()[i as int] == (
                    id,
                    self.dependencies@[i as int].1.depends_on@,
                    self.dependencies@[i as int].1.conflicts_with@,
                    self.dependencies@[i as int].1.max_wait_time_ms,
                ));
                Some(&self.dependencies[i].1)
            },
            None => None,
        }
    }
}


/// `order` is a complete execution order for `plan`: dependencies first,
/// every registered system present, and nothing but registered systems
/// and their dependencies.
pub open spec fn is_complete_order(plan: &ExecutionPlan, order: Seq<SystemId>) -> bool {
    &&& is_dependency_order(plan, order)
    &&& forall|s: SystemId| plan.is_registered(s) ==> order.contains(s)
    &&& forall|s: SystemId| order.contains(s) ==> plan.is_known(s)
}

/// Plans with the same entries agree on every dependency fact.
proof fn lemma_same_entries(a: &ExecutionPlan, b: &ExecutionPlan, o: Seq<SystemId>)
    requires
        a.entries() == b.entries(),
    ensures
        is_complete_order(a, o) == is_complete_order(b, o),
        a.has_cycle() == b.has_cycle(),
{
    assert forall|x: SystemId, y: SystemId| a.depends(x, y) == b.depends(x, y) by {}
    assert forall|x: SystemId| a.is_registered(x) == b.is_registered(x) by {}
    assert forall|x: SystemId| a.is_known(x) == b.is_known(x) by {}
    assert forall|p: Seq<SystemId>| a.is_cycle(p) == b.is_cycle(p) by {}
}

/// `entries` after registering `id` with dependencies `deps`: an existing
/// entry for `id` is replaced in place, otherwise the entry is appended.
pub open spec fn with_entry(
    entries: Seq<(SystemId, Seq<SystemId>)>,
    id: SystemId,
    deps: Seq<SystemId>,
) -> Seq<(SystemId, Seq<SystemId>)> {
    if exists|i: int| 0 <= i < entries.len() && entries[i].0 == id {
        let i = choose|i: int| 0 <= i < entries.len() && entries[i].0 == id;
        entries.update(i, (id, deps))
    } else {
        entries.push((id, deps))
    }
}

/// `records` after registering the record `rec`: an existing record of the same system is
/// replaced in place, otherwise the record is appended.
pub open spec fn with_record(
    records: Seq<(SystemId, Seq<SystemId>, Seq<SystemId>, u64)>,
    rec: (SystemId, Seq<SystemId>, Seq<SystemId>, u64),
) -> Seq<(SystemId, Seq<SystemId>, Seq<SystemId>, u64)> {
    if exists|i: int| 0 <= i < records.len() && records[i].0 == rec.0 {
        let i = choose|i: int| 0 <= i < records.len() && records[i].0 == rec.0;
        records.update(i, rec)
    } else {
        records.push(rec)
    }
}

/// Reading back a registration gives the record that was registered: after `with_record`,
/// the record stands in the sequence, and it is the only one of its system where no system
/// stood twice before.
pub proof fn lemma_registered_record_read_back(
    records: Seq<(SystemId, Seq<SystemId>, Seq<SystemId>, u64)>,
    rec: (SystemId, Seq<SystemId>, Seq<SystemId>, u64),
)
    requires
        forall|i: int, j: int|
            0 <= i < records.len() && 0 <= j < records.len() && i != j ==> records[i].0
                != records[j].0,
    ensures
        exists|i: int|
            0 <= i < with_record(records, rec).len() && #[trigger] with_record(records, rec)[i]
                == rec,
        forall|i: int|
            0 <= i < with_record(records, rec).len() && #[trigger] with_record(records, rec)[i].0
                == rec.0 ==> with_record(records, rec)[i] == rec,
{
    let after = with_record(records, rec);
    if exists|i: int| 0 <= i < records.len() && records[i].0 == rec.0 {
        let k = choose|i: int| 0 <= i < records.len() && records[i].0 == rec.0;
        assert(after[k] == rec);
    } else {
        assert(after[records.len() as int] == rec);
    }
}

/// The message of the error that reports a circular dependency.
pub open spec fn circular_message(id: SystemId) -> Seq<char> {
    "Circular dependency detected involving "@ + system_name(id)
}

/// `r` reports a circular dependency through some system.
pub open spec fn is_circular_error(r: EngineError) -> bool {
    r matches EngineError::ValidationFailed(m) && exists|id: SystemId| m@ == circular_message(id)
}

/// Whether `v` holds `s`.
pub(crate) fn contains_system(v: &Vec<SystemId>, s: SystemId) -> (r: bool)
    ensures
        r == v@.contains(s),
{
    let mut i: usize = 0;
    while i < v.len()
        invariant
            0 <= i <= v.len(),
            forall|k: int| 0 <= k < i ==> v@[k] != s,
        decreases v.len() - i,
    {
        if v[i] == s {
            return true;
        }
        i = i + 1;
    }
    false
}

/// The error that reports a circular dependency through `id`.
fn circular_error(id: SystemId) -> (r: EngineError)
    ensures
        r matches EngineError::ValidationFailed(m) && m@ == circular_message(id),
{
    let mut m = String::from_str("Circular dependency detected involving ");
    m.append(system_name_str(id));
    EngineError::ValidationFailed(m)
}

/// Along a chain that starts at position `i0` of a dependency order, every
/// later system stands before position `i0`.
proof fn lemma_chain_descends(plan: &ExecutionPlan, order: Seq<SystemId>, p: Seq<SystemId>, i0: int, k: int)
    requires
        is_dependency_order(plan, order),
        plan.is_chain(p),
        0 <= i0 < order.len(),
        order[i0] == p[0],
        1 <= k < p.len(),
    ensures
        exists|j: int| 0 <= j < i0 && order[j] == p[k],
    decreases k,
{
    let kk = k - 1;
    assert(plan.depends(p[kk], p[kk + 1]));
    if k == 1 {
        assert(plan.depends(order[i0], p[1]));
    } else {
        lemma_chain_descends(plan, order, p, i0, k - 1);
        let j = choose|j: int| 0 <= j < i0 && order[j] == p[k - 1];
        assert(plan.depends(order[j], p[k]));
        let j2 = choose|j2: int| 0 <= j2 < j && order[j2] == p[k];
        assert(0 <= j2 < i0 && order[j2] == p[k]);
    }
}

/// A dependency order that holds every registered system leaves no room
/// for a circular dependency.
proof fn lemma_order_excludes_cycle(plan: &ExecutionPlan, order: Seq<SystemId>, p: Seq<SystemId>)
    requires
        is_dependency_order(plan, order),
        forall|s: SystemId| plan.is_registered(s) ==> order.contains(s),
    ensures
        !plan.is_cycle(p),
{
    if plan.is_cycle(p) {
        let z: int = 0;
        assert(plan.depends(p[z], p[z + 1]));
        assert(plan.is_registered(p[0]));
        let i0 = choose|i: int| 0 <= i < order.len() && order[i] == p[0];
        lemma_chain_descends(plan, order, p, i0, p.len() - 1);
        let j = choose|j: int| 0 <= j < i0 && order[j] == p[p.len() - 1];
        assert(order[j] == order[i0]);
    }
}

impl ExecutionPlan {
    /// The index of the entry registered for `id`, if any.
    fn find_entry(&self, id: SystemId) -> (r: Option<usize>)
        ensures
            r matches Some(i) ==> i < self.entries().len() && self.entries()[i as int].0 == id,
            r is None ==> !self.is_registered(id),
    {
        let mut i: usize = 0;
        while i < self.dependencies.len()
            invariant
                0 <= i <= self.dependencies.len(),
                forall|k: int| 0 <= k < i ==> self.dependencies@[k].0 != id,
            decreases self.dependencies.len() - i,
        {
            if self.dependencies[i].0 == id {
                return Some(i);
            }
            i = i + 1;
        }
        proof {
            assert forall|k: int| 0 <= k < self.entries().len() implies self.entries()[k].0 != id by {
                assert(self.entries()[k].0 == self.dependencies@[k].0);
            }
        }
        None
    }

    /// Depth-first visit of `system_id`: places its dependencies, then
    /// itself, at the end of `order`; `visiting` holds the systems whose
    /// visit is under way.
    fn visit_system(
        &self,
        system_id: SystemId,
        visited: &mut Vec<SystemId>,
        visiting: &mut Vec<SystemId>,
        order: &mut Vec<SystemId>,
    ) -> (r: EngineResult<()>)
        requires
            self.wf(),
            old(visiting)@.no_duplicates(),
            self.is_chain(old(visiting)@),
            old(visiting)@.len() > 0 ==> self.depends(old(visiting)@.last(), system_id),
            old(visited)@ == old(order)@,
            is_dependency_order(self, old(order)@),
            forall|s: SystemId| old(visiting)@.contains(s) ==> !old(order)@.contains(s),
            forall|s: SystemId| old(order)@.contains(s) ==> self.is_known(s),
            self.is_known(system_id),
        ensures
            r is Ok ==> {
                &&& final(visiting)@ == old(visiting)@
                &&& final(visited)@ == final(order)@
                &&& is_dependency_order(self, final(order)@)
                &&& final(order)@.contains(system_id)
                &&& final(order)@.subrange(0, old(order)@.len() as int) == old(order)@
                &&& old(order)@.len() <= final(order)@.len()
                &&& forall|s: SystemId| old(visiting)@.contains(s) ==> !final(order)@.contains(s)
                &&& forall|s: SystemId| final(order)@.contains(s) ==> self.is_known(s)
            },
            r matches Err(e) ==> self.has_cycle() && is_circular_error(e),
        decreases 11 - old(visiting)@.len(),
    {
        let ghost stack = visiting@;
        if contains_system(visiting, system_id) {
            proof {
                let j = choose|j: int| 0 <= j < stack.len() && stack[j] == system_id;
                let p = stack.subrange(j, stack.len() as int).push(system_id);
                assert forall|k: int| 0 <= k < p.len() - 1 implies #[trigger] self.depends(p[k], p[k + 1]) by {
                    if k < p.len() - 2 {
                        assert(self.depends(stack[j + k], stack[j + k + 1]));
                    } else {
                        assert(p[k] == stack.last());
                    }
                }
                assert(self.is_cycle(p));
            }
            return Err(circular_error(system_id));
        }
        if contains_system(visited, system_id) {
            assert(order@.subrange(0, order@.len() as int) =~= order@);
            return Ok(());
        }
        visiting.push(system_id);
        proof {
            lemma_distinct_systems_bounded(visiting@);
            assert forall|k: int| 0 <= k < visiting@.len() - 1 implies #[trigger] self.depends(visiting@[k], visiting@[k + 1]) by {
                if k < stack.len() - 1 {
                    assert(self.depends(stack[k], stack[k + 1]));
                }
            }
        }
        let ghost order0 = order@;
        match self.find_entry(system_id) {
            Some(idx) => {
                let deps = &self.dependencies[idx].1.depends_on;
                assert(self.entries()[idx as int].1 == deps@);
                let mut k: usize = 0;
                while k < deps.len()
                    invariant
                        0 <= k <= deps.len(),
                        self.wf(),
                        idx < self.entries().len(),
                        self.entries()[idx as int] == (system_id, deps@),
                        visiting@ == stack.push(system_id),
                        stack == old(visiting)@,
                        visiting@.no_duplicates(),
                        visiting@.len() <= 11,
                        self.is_chain(visiting@),
                        visited@ == order@,
                        is_dependency_order(self, order@),
                        forall|s: SystemId| visiting@.contains(s) ==> !order@.contains(s),
                        forall|s: SystemId| order@.contains(s) ==> self.is_known(s),
                        order0.len() <= order@.len(),
                        order@.subrange(0, order0.len() as int) == order0,
                        forall|m: int| 0 <= m < k ==> order@.contains(#[trigger] deps@[m]),
                    decreases deps.len() - k,
                {
                    let dep = deps[k];
                    proof {
                        assert(self.entries()[idx as int].1.contains(dep));
                        assert(self.depends(system_id, dep));
                        assert(self.is_known(dep));
                    }
                    let ghost before = order@;
                    match self.visit_system(dep, visited, visiting, order) {
                        Ok(()) => {},
                        Err(e) => {
                            return Err(e);
                        },
                    }
                    proof {
                        assert forall|m: int| 0 <= m < k + 1 implies order@.contains(#[trigger] deps@[m]) by {
                            if m < k {
                                let w = choose|w: int| 0 <= w < before.len() && before[w] == deps@[m];
                                assert(order@.subrange(0, before.len() as int)[w] == before[w]);
                            }
                        }
                        assert(order@.subrange(0, order0.len() as int) =~= before.subrange(0, order0.len() as int));
                    }
                    k = k + 1;
                }
            },
            None => {},
        }
        let ghost mid = order@;
        visiting.pop();
        assert(visiting@ =~= stack);
        visited.push(system_id);
        order.push(system_id);
        proof {
            assert(!mid.contains(system_id));
            assert forall|i: int, d: SystemId|
                0 <= i < order@.len() && #[trigger] self.depends(order@[i], d) implies
                    exists|j: int| 0 <= j < i && order@[j] == d by {
                if i < mid.len() {
                    assert(order@[i] == mid[i]);
                    let j = choose|j: int| 0 <= j < i && mid[j] == d;
                    assert(order@[j] == d);
                } else {
                    let e = choose|e: int| 0 <= e < self.entries().len() && self.entries()[e].0 == system_id
                        && self.entries()[e].1.contains(d);
                    let idx = choose|e: int| 0 <= e < self.entries().len() && self.entries()[e].0 == system_id;
                    assert(self.entries()[e].0 == self.dependencies@[e].0);
                    assert(self.entries()[idx].0 == self.dependencies@[idx].0);
                    let m = choose|m: int| 0 <= m < self.entries()[e].1.len() && self.entries()[e].1[m] == d;
                    assert(mid.contains(d));
                    let j = choose|j: int| 0 <= j < mid.len() && mid[j] == d;
                    assert(order@[j] == d);
                }
            }
            assert(order@.subrange(0, order0.len() as int) =~= mid.subrange(0, order0.len() as int));
            assert forall|s: SystemId| order@.contains(s) implies self.is_known(s) by {
                if s != system_id {
                    let w = choose|w: int| 0 <= w < order@.len() && order@[w] == s;
                    assert(mid[w] == s);
                }
            }
            assert(order@[order@.len() - 1] == system_id);
            assert forall|s: SystemId| stack.contains(s) implies !order@.contains(s) by {
                assert(stack.push(system_id).contains(s));
                if order@.contains(s) {
                    let w = choose|w: int| 0 <= w < order@.len() && order@[w] == s;
                    if w < mid.len() {
                        assert(mid[w] == s);
                    }
                }
            }
        }
        Ok(())
    }

    /// Recomputes the execution order from the registered dependencies,
    /// visiting the systems in registration order. On a circular
    /// dependency the previous order is kept and the error is returned.
    fn update_execution_order(&mut self) -> (r: EngineResult<()>)
        requires
            old(self).wf(),
        ensures
            final(self).wf(),
            final(self).records() == old(self).records(),
            final(self).entries() == old(self).entries(),
            r is Ok <==> !final(self).has_cycle(),
            r is Ok ==> is_complete_order(final(self), final(self).order()),
            r matches Err(e) ==> final(self).order() == old(self).order() && is_circular_error(e),
    {
        let ghost pre = *self;
        let mut order: Vec<SystemId> = Vec::new();
        let mut visited: Vec<SystemId> = Vec::new();
        let mut visiting: Vec<SystemId> = Vec::new();
        let mut i: usize = 0;
        while i < self.dependencies.len()
            invariant
                0 <= i <= self.dependencies.len(),
                self.wf(),
                visiting@ == Seq::<SystemId>::empty(),
                visited@ == order@,
                is_dependency_order(self, order@),
                forall|s: SystemId| order@.contains(s) ==> self.is_known(s),
                forall|k: int| 0 <= k < i ==> order@.contains(#[trigger] self.entries()[k].0),
            decreases self.dependencies.len() - i,
        {
            let system_id = self.dependencies[i].0;
            assert(self.entries()[i as int].0 == system_id);
            let ghost before = order@;
            if !contains_system(&visited, system_id) {
                match self.visit_system(system_id, &mut visited, &mut visiting, &mut order) {
                    Ok(()) => {},
                    Err(e) => {
                        return Err(e);
                    },
                }
                proof {
                    assert forall|k: int| 0 <= k < i implies order@.contains(#[trigger] self.entries()[k].0) by {
                        let w = choose|w: int| 0 <= w < before.len() && before[w] == self.entries()[k].0;
                        assert(order@.subrange(0, before.len() as int)[w] == before[w]);
                    }
                }
            }
            i = i + 1;
        }
        proof {
            assert forall|s: SystemId| self.is_registered(s) implies order@.contains(s) by {
                let k = choose|k: int| 0 <= k < self.entries().len() && self.entries()[k].0 == s;
                assert(order@.contains(self.entries()[k].0));
            }
            assert forall|p: Seq<SystemId>| !self.is_cycle(p) by {
                lemma_order_excludes_cycle(self, order@, p);
            }
        }
        let ghost o = order@;
        self.execution_order = order;
        proof {
            lemma_same_entries(&pre, self, o);
        }
        Ok(())
    }

    /// Registers `system_id` with its dependencies (replacing an earlier
    /// registration of the same system) and recomputes the execution
    /// order. A circular dependency is refused with an error; the
    /// registration itself is kept and the previous order stays.
    pub fn register_system(&mut self, system_id: SystemId, dependencies: SystemDependencies) -> (r: EngineResult<()>)
        requires
            old(self).wf(),
        ensures
            final(self).wf(),
            final(self).entries() == with_entry(old(self).entries(), system_id, dependencies.depends_on@),
            final(self).records() == with_record(
                old(self).records(),
                (
                    system_id,
                    dependencies.depends_on@,
                    dependencies.conflicts_with@,
                    dependencies.max_wait_time_ms,
                ),
            ),
            r is Ok <==> !final(self).has_cycle(),
            r is Ok ==> is_complete_order(final(self), final(self).order()),
            r matches Err(e) ==> final(self).order() == old(self).order() && is_circular_error(e),
    {
        let ghost old_entries = self.entries();
        let ghost old_records = self.records();
        let ghost deps = dependencies.depends_on@;
        let ghost rec = (
            system_id,
            dependencies.depends_on@,
            dependencies.conflicts_with@,
            dependencies.max_wait_time_ms,
        );
        match self.find_entry(system_id) {
            Some(i) => {
                self.dependencies.set(i, (system_id, dependencies));
                proof {
                    let c = choose|c: int| 0 <= c < old_entries.len() && old_entries[c].0 == system_id;
                    assert(c == i);
                    assert(self.entries() =~= old_entries.update(i as int, (system_id, deps)));
                    assert(old_records[i as int].0 == system_id);
                    let d = choose|d: int| 0 <= d < old_records.len() && old_records[d].0 == system_id;
                    assert(old_records[d].0 == old(self).dependencies@[d].0);
                    assert(d == i);
                    assert(self.records() =~= old_records.update(i as int, rec));
                }
            },
            None => {
                self.dependencies.push((system_id, dependencies));
                proof {
                    assert forall|c: int| 0 <= c < old_entries.len() implies old_entries[c].0 != system_id by {
                        assert(old_entries[c].0 == old(self).dependencies@[c].0);
                    }
                    assert(self.entries() =~= old_entries.push((system_id, deps)));
                    assert forall|c: int| 0 <= c < old_records.len() implies old_records[c].0 != system_id by {
                        assert(old_entries[c].0 == old(self).dependencies@[c].0);
                        assert(old_records[c].0 == old(self).dependencies@[c].0);
                    }
                    assert(self.records() =~= old_records.push(rec));
                }
            },
        }
        assert(self.wf()) by {
            assert forall|a: int, b: int|
                0 <= a < self.dependencies@.len() && 0 <= b < self.dependencies@.len() && a != b
                    implies self.dependencies@[a].0 != self.dependencies@[b].0 by {
                assert(self.entries()[a].0 == self.dependencies@[a].0);
                assert(self.entries()[b].0 == self.dependencies@[b].0);
                if a < old_entries.len() && b < old_entries.len() && old_entries[a].0 != system_id
                    && old_entries[b].0 != system_id {
                    assert(old_entries[a].0 == old(self).dependencies@[a].0);
                    assert(old_entries[b].0 == old(self).dependencies@[b].0);
                }
                if a < old_entries.len() {
                    assert(old_entries[a].0 == old(self).dependencies@[a].0);
                }
                if b < old_entries.len() {
                    assert(old_entries[b].0 == old(self).dependencies@[b].0);
                }
            }
        }
        self.update_execution_order()
    }
}

} // verus!
