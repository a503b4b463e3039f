//! Automatic GPU binding indices: each group hands out indices 0, 1, 2, ... to the
//! bindings registered in it, and the registry writes their WGSL declarations.

use vstd::prelude::*;
use crate::error::num;
use crate::text::{
    append_u64, contains_text, lowercase_of, replace_spaces, spaces_to_underscores,
    text_contains, to_lowercase,
};

verus! {

/// Shader stages a binding is visible to, as a bit set.
#[derive(Clone, Copy, Debug, PartialEq, Eq, Hash, Structural)]
pub struct ShaderStages(pub u32);

impl ShaderStages {
    /// The vertex stage.
    pub fn vertex() -> (r: ShaderStages)
        ensures
            r == ShaderStages(1),
    {
        ShaderStages(1)
    }

    /// The fragment stage.
    pub fn fragment() -> (r: ShaderStages)
        ensures
            r == ShaderStages(2),
    {
        ShaderStages(2)
    }

    /// The compute stage.
    pub fn compute() -> (r: ShaderStages)
        ensures
            r == ShaderStages(4),
    {
        ShaderStages(4)
    }

    /// The stages of both sets.
    pub fn union(self, other: ShaderStages) -> (r: ShaderStages)
        ensures
            r == ShaderStages(self.0 | other.0),
    {
        ShaderStages(self.0 | other.0)
    }
}

/// What a binding holds.
#[derive(Clone, Copy, Debug, PartialEq, Eq, Hash, Structural)]
pub enum BindingKind {
    /// A uniform buffer.
    UniformBuffer,
    /// A storage buffer.
    StorageBuffer { read_only: bool },
    /// A sampled texture.
    Texture,
    /// A sampler.
    Sampler,
    /// Any other binding, such as a storage texture.
    Other,
}

/// A binding's identity: its group, its name and the stages it serves.
#[derive(Clone, Debug)]
pub struct BindingKey {
    pub group: u32,
    pub name: String,
    pub stage: ShaderStages,
}

/// A registered binding.
#[derive(Clone, Copy, Debug, PartialEq, Eq, Structural)]
pub struct BindingInfo {
    pub binding: u32,
    pub ty: BindingKind,
    pub visibility: ShaderStages,
}

/// Registry of the bindings, in registration order, and of the next index of each group.
pub struct BindingRegistry {
    pub bindings: Vec<(BindingKey, BindingInfo)>,
    pub next_binding: Vec<(u32, u32)>,
}

/// Whether `key` is the key of group `group`, name `name` and stages `stage`.
pub open spec fn key_is(key: BindingKey, group: u32, name: Seq<char>, stage: ShaderStages) -> bool {
    key.group == group && key.name@ == name && key.stage == stage
}

/// The next index of `group`: what the registry holds for it, else 0.
pub open spec fn next_index(next: Seq<(u32, u32)>, group: u32) -> u32
    decreases next.len(),
{
    if next.len() == 0 {
        0
    } else if next.last().0 == group {
        next.last().1
    } else {
        next_index(next.drop_last(), group)
    }
}

/// The position of the binding with the given key, where there is one.
pub open spec fn key_position(
    entries: Seq<(BindingKey, BindingInfo)>,
    group: u32,
    name: Seq<char>,
    stage: ShaderStages,
) -> Option<int> {
    if exists|i: int| 0 <= i < entries.len() && key_is(entries[i].0, group, name, stage) {
        Some(choose|i: int| 0 <= i < entries.len() && key_is(entries[i].0, group, name, stage))
    } else {
        None
    }
}

impl BindingRegistry {
    /// No key is registered twice, and within a group the indices grow in registration
    /// order and stay below the group's next index.
    pub open spec fn wf(&self) -> bool {
        &&& forall|i: int, j: int|
            0 <= i < j < self.bindings@.len() ==> !key_is(
                self.bindings@[i].0,
                self.bindings@[j].0.group,
                self.bindings@[j].0.name@,
                self.bindings@[j].0.stage,
            )
        &&& forall|i: int, j: int|
            0 <= i < j < self.bindings@.len() && self.bindings@[i].0.group
                == self.bindings@[j].0.group ==> self.bindings@[i].1.binding
                < self.bindings@[j].1.binding
        &&& forall|i: int|
            0 <= i < self.bindings@.len() ==> self.bindings@[i].1.binding < next_index(
                self.next_binding@,
                self.bindings@[i].0.group,
            )
    }

    /// An empty registry.
    pub fn new() -> (r: BindingRegistry)
        ensures
            r.wf(),
            r.bindings@.len() == 0,
            r.next_binding@.len() == 0,
    {
        BindingRegistry { bindings: Vec::new(), next_binding: Vec::new() }
    }

    /// The index the next new binding of `group` gets.
    pub fn next_binding_index(&self, group: u32) -> (r: u32)
        ensures
            r == next_index(self.next_binding@, group),
    {
        let mut i = self.next_binding.len();
        assert(self.next_binding@.take(i as int) =~= self.next_binding@);
        while i > 0
            invariant
                i <= self.next_binding@.len(),
                next_index(self.next_binding@, group) == next_index(
                    self.next_binding@.take(i as int),
                    group,
                ),
            decreases i,
        {
            let (g, n) = self.next_binding[i - 1];
            proof {
                assert(self.next_binding@.take(i - 1) =~= self.next_binding@.take(
                    i as int,
                ).drop_last());
            }
            if g == group {
                return n;
            }
            i -= 1;
        }
        0
    }

    /// The position of the binding with the given key, where there is one.
    pub fn find_binding(&self, group: u32, name: &String, stage: ShaderStages) -> (r: Option<usize>)
        ensures
            match r {
                Some(i) => i < self.bindings@.len() && key_is(
                    self.bindings@[i as int].0,
                    group,
                    name@,
                    stage,
                ),
                None => key_position(self.bindings@, group, name@, stage) is None,
            },
    {
        let mut i: usize = 0;
        while i < self.bindings.len()
            invariant
                i <= self.bindings@.len(),
                forall|j: int|
                    0 <= j < i ==> !key_is(#[trigger] self.bindings@[j].0, group, name@, stage),
            decreases self.bindings@.len() - i,
        {
            let key = &self.bindings[i].0;
            if key.group == group && key.name == *name && key.stage == stage {
                return Some(i);
            }
            i += 1;
        }
        None
    }

    /// Registers a binding and returns its index: the index it already has where the key is
    /// registered, else the group's next index.
    pub fn register_binding(
        &mut self,
        group: u32,
        name: String,
        ty: BindingKind,
        visibility: ShaderStages,
    ) -> (r: u32)
        requires
            old(self).wf(),
            key_position(old(self).bindings@, group, name@, visibility) is None ==> next_index(
                old(self).next_binding@,
                group,
            ) < u32::MAX,
        ensures
            final(self).wf(),
            match key_position(old(self).bindings@, group, name@, visibility) {
                Some(i) => {
                    &&& r == old(self).bindings@[i].1.binding
                    &&& final(self).bindings@ == old(self).bindings@
                    &&& final(self).next_binding@ == old(self).next_binding@
                },
                None => {
                    &&& r == next_index(old(self).next_binding@, group)
                    &&& final(self).bindings@.len() == old(self).bindings@.len() + 1
                    &&& final(self).bindings@.drop_last() == old(self).bindings@
                    &&& key_is(final(self).bindings@.last().0, group, name@, visibility)
                    &&& final(self).bindings@.last().1 == BindingInfo { binding: r, ty, visibility }
                    &&& forall|g: u32|
                        next_index(final(self).next_binding@, g) == if g == group {
                            (r + 1) as u32
                        } else {
                            next_index(old(self).next_binding@, g)
                        }
                },
            },
    {
        match self.find_binding(group, &name, visibility) {
            Some(i) => {
                proof {
                    let k = choose|k: int|
                        0 <= k < self.bindings@.len() && key_is(
                            self.bindings@[k].0,
                            group,
                            name@,
                            visibility,
                        );
                    if k != i {
                        if k < i {
                            assert(!key_is(
                                self.bindings@[k].0,
                                self.bindings@[i as int].0.group,
                                self.bindings@[i as int].0.name@,
                                self.bindings@[i as int].0.stage,
                            ));
                        } else {
                            assert(!key_is(
                                self.bindings@[i as int].0,
                                self.bindings@[k].0.group,
                                self.bindings@[k].0.name@,
                                self.bindings@[k].0.stage,
                            ));
                        }
                    }
                }
                self.bindings[i].1.binding
            },
            None => {
                let binding = self.next_binding_index(group);
                let ghost old_next = self.next_binding@;
                let ghost old_bindings = self.bindings@;
                self.next_binding.push((group, binding + 1));
                let key = BindingKey { group, name, stage: visibility };
                self.bindings.push((key, BindingInfo { binding, ty, visibility }));
                proof {
                    assert(self.next_binding@.drop_last() =~= old_next);
                    assert(self.bindings@.drop_last() =~= old_bindings);
                    assert forall|i: int|
                        0 <= i < self.bindings@.len() implies self.bindings@[i].1.binding
                        < next_index(self.next_binding@, self.bindings@[i].0.group) by {
                        if i < old_bindings.len() {
                            assert(self.bindings@[i] == old_bindings[i]);
                        }
                    }
                    assert forall|i: int, j: int|
                        0 <= i < j < self.bindings@.len() implies !key_is(
                        self.bindings@[i].0,
                        self.bindings@[j].0.group,
                        self.bindings@[j].0.name@,
                        self.bindings@[j].0.stage,
                    ) by {
                        if j == old_bindings.len() {
                            if key_is(self.bindings@[i].0, group, self.bindings@[j].0.name@, visibility) {
                                assert(key_position(old_bindings, group, self.bindings@[j].0.name@, visibility) is Some);
                            }
                        } else {
                            assert(self.bindings@[i] == old_bindings[i]);
                            assert(self.bindings@[j] == old_bindings[j]);
                        }
                    }
                    assert forall|i: int, j: int|
                        0 <= i < j < self.bindings@.len() && self.bindings@[i].0.group
                            == self.bindings@[j].0.group implies self.bindings@[i].1.binding
                        < self.bindings@[j].1.binding by {
                        if j == old_bindings.len() {
                            assert(self.bindings@[i] == old_bindings[i]);
                        } else {
                            assert(self.bindings@[i] == old_bindings[i]);
                            assert(self.bindings@[j] == old_bindings[j]);
                        }
                    }
                }
                binding
            },
        }
    }

    /// The bindings of `group`, in order of their indices.
    pub fn get_group_bindings(&self, group: u32) -> (r: Vec<BindingInfo>)
        requires
            self.wf(),
        ensures
            r@ == group_infos(self.bindings@, group),
            forall|i: int, j: int| 0 <= i < j < r@.len() ==> r@[i].binding < r@[j].binding,
    {
        let mut out: Vec<BindingInfo> = Vec::new();
        let mut i: usize = 0;
        while i < self.bindings.len()
            invariant
                self.wf(),
                i <= self.bindings@.len(),
                out@ == group_infos(self.bindings@.take(i as int), group),
            decreases self.bindings@.len() - i,
        {
            let ghost prev = out@;
            if self.bindings[i].0.group == group {
                out.push(self.bindings[i].1);
            }
            proof {
                assert(self.bindings@.take(i + 1).drop_last() =~= self.bindings@.take(i as int));
            }
            i += 1;
        }
        proof {
            assert(self.bindings@.take(self.bindings@.len() as int) =~= self.bindings@);
            lemma_group_infos_sorted(self.bindings@, group);
        }
        out
    }

    /// The WGSL declarations of the bindings of `group`, one line each, in order of their
    /// indices.
    pub fn generate_wgsl_bindings(&self, group: u32) -> (r: String)
        requires
            self.wf(),
        ensures
            r@ == group_wgsl(self.bindings@, group),
    {
        let mut wgsl = String::new();
        let mut i: usize = 0;
        while i < self.bindings.len()
            invariant
                i <= self.bindings@.len(),
                wgsl@ == group_wgsl(self.bindings@.take(i as int), group),
            decreases self.bindings@.len() - i,
        {
            let (key, info) = (&self.bindings[i].0, self.bindings[i].1);
            let ghost prev = wgsl@;
            if key.group == group {
                let line = binding_declaration(group, key, info);
                wgsl.append(line.as_str());
            }
            proof {
                assert(self.bindings@.take(i + 1).drop_last() =~= self.bindings@.take(i as int));
            }
            i += 1;
        }
        proof {
            assert(self.bindings@.take(self.bindings@.len() as int) =~= self.bindings@);
        }
        wgsl
    }
}

/// The infos of the bindings of `group`, in registration order.
pub open spec fn group_infos(entries: Seq<(BindingKey, BindingInfo)>, group: u32) -> Seq<BindingInfo>
    decreases entries.len(),
{
    if entries.len() == 0 {
        Seq::empty()
    } else if entries.last().0.group == group {
        group_infos(entries.drop_last(), group).push(entries.last().1)
    } else {
        group_infos(entries.drop_last(), group)
    }
}

/// Where every binding of `group` is below `bound`, so are the group's infos.
proof fn lemma_group_infos_below(entries: Seq<(BindingKey, BindingInfo)>, group: u32, bound: u32)
    requires
        forall|k: int|
            0 <= k < entries.len() && (#[trigger] entries[k]).0.group == group
                ==> entries[k].1.binding < bound,
    ensures
        forall|i: int|
            0 <= i < group_infos(entries, group).len() ==> (#[trigger] group_infos(
                entries,
                group,
            )[i]).binding < bound,
    decreases entries.len(),
{
    if entries.len() > 0 {
        let rest = entries.drop_last();
        assert forall|k: int|
            0 <= k < rest.len() && (#[trigger] rest[k]).0.group == group implies rest[k].1.binding
            < bound by {
            assert(rest[k] == entries[k]);
        }
        lemma_group_infos_below(rest, group, bound);
        assert(entries[entries.len() - 1] == entries.last());
    }
}

/// Within a group the indices grow in registration order, so the group's infos are sorted.
proof fn lemma_group_infos_sorted(entries: Seq<(BindingKey, BindingInfo)>, group: u32)
    requires
        forall|i: int, j: int|
            0 <= i < j < entries.len() && entries[i].0.group == entries[j].0.group
                ==> entries[i].1.binding < entries[j].1.binding,
    ensures
        forall|i: int, j: int|
            0 <= i < j < group_infos(entries, group).len() ==> group_infos(entries, group)[i].binding
                < group_infos(entries, group)[j].binding,
    decreases entries.len(),
{
    if entries.len() > 0 {
        let rest = entries.drop_last();
        assert forall|i: int, j: int|
            0 <= i < j < rest.len() && rest[i].0.group == rest[j].0.group implies rest[i].1.binding
            < rest[j].1.binding by {
            assert(rest[i] == entries[i]);
            assert(rest[j] == entries[j]);
        }
        lemma_group_infos_sorted(rest, group);
        let last = entries.last();
        if last.0.group == group {
            assert forall|k: int|
                0 <= k < rest.len() && (#[trigger] rest[k]).0.group == group implies rest[k].1.binding
                < last.1.binding by {
                assert(rest[k] == entries[k]);
                assert(entries[entries.len() - 1] == last);
            }
            lemma_group_infos_below(rest, group, last.1.binding);
        }
    }
}

/// The storage qualifier of a binding's declaration.
pub open spec fn qualifier_text(ty: BindingKind) -> Seq<char> {
    match ty {
        BindingKind::StorageBuffer { read_only } => if read_only {
            "<storage, read>"@
        } else {
            "<storage, read_write>"@
        },
        _ => ""@,
    }
}

/// The storage qualifier of a binding's declaration.
pub fn binding_type_to_wgsl_qualifier(ty: BindingKind) -> (r: &'static str)
    ensures
        r@ == qualifier_text(ty),
{
    match ty {
        BindingKind::StorageBuffer { read_only } => if read_only {
            "<storage, read>"
        } else {
            "<storage, read_write>"
        },
        _ => "",
    }
}

/// The WGSL type of a binding: buffers by what their name mentions, textures and samplers
/// by kind.
pub open spec fn type_text(name: Seq<char>, ty: BindingKind) -> Seq<char> {
    match ty {
        BindingKind::UniformBuffer | BindingKind::StorageBuffer { .. } => if contains_text(
            name,
            "camera"@,
        ) {
            "CameraUniform"@
        } else if contains_text(name, "instance"@) {
            "array<InstanceData>"@
        } else if contains_text(name, "world"@) {
            "array<u32>"@
        } else {
            "array<vec4<f32>>"@
        },
        BindingKind::Texture => "texture_2d<f32>"@,
        BindingKind::Sampler => "sampler"@,
        BindingKind::Other => "unknown"@,
    }
}

/// The WGSL type of a binding.
pub fn binding_type_to_wgsl_type(name: &str, ty: BindingKind) -> (r: &'static str)
    ensures
        r@ == type_text(name@, ty),
{
    match ty {
        BindingKind::UniformBuffer | BindingKind::StorageBuffer { .. } => {
            if text_contains(name, "camera") {
                "CameraUniform"
            } else if text_contains(name, "instance") {
                "array<InstanceData>"
            } else if text_contains(name, "world") {
                "array<u32>"
            } else {
                "array<vec4<f32>>"
            }
        },
        BindingKind::Texture => "texture_2d<f32>",
        BindingKind::Sampler => "sampler",
        BindingKind::Other => "unknown",
    }
}

/// The declaration of one binding of `group`: its group and index, its qualifier, its name
/// lowercased with spaces as underscores, and its type.
pub open spec fn declaration_text(group: u32, key: BindingKey, info: BindingInfo) -> Seq<char> {
    "@group("@ + num(group as nat) + ") @binding("@ + num(info.binding as nat) + ") var"@
        + qualifier_text(info.ty) + " "@ + spaces_to_underscores(lowercase_of(key.name@)) + ": "@
        + type_text(key.name@, info.ty) + ";\n"@
}

/// The declarations of the bindings of `group`, in registration order.
pub open spec fn group_wgsl(entries: Seq<(BindingKey, BindingInfo)>, group: u32) -> Seq<char>
    decreases entries.len(),
{
    if entries.len() == 0 {
        Seq::empty()
    } else if entries.last().0.group == group {
        group_wgsl(entries.drop_last(), group) + declaration_text(
            group,
            entries.last().0,
            entries.last().1,
        )
    } else {
        group_wgsl(entries.drop_last(), group)
    }
}

/// The declaration of one binding.
fn binding_declaration(group: u32, key: &BindingKey, info: BindingInfo) -> (r: String)
    ensures
        r@ == declaration_text(group, *key, info),
{
    let mut s = String::from_str("@group(");
    append_u64(&mut s, group as u64);
    s.append(") @binding(");
    append_u64(&mut s, info.binding as u64);
    s.append(") var");
    s.append(binding_type_to_wgsl_qualifier(info.ty));
    s.append(" ");
    let lower = to_lowercase(key.name.as_str());
    let ident = replace_spaces(lower.as_str());
    s.append(ident.as_str());
    s.append(": ");
    s.append(binding_type_to_wgsl_type(key.name.as_str(), info.ty));
    s.append(";\n");
    s
}

/// The WGSL declarations of the bindings of `group` in `registry`.
pub fn generate_group_wgsl(registry: &BindingRegistry, group: u32) -> (r: String)
    requires
        registry.wf(),
    ensures
        r@ == group_wgsl(registry.bindings@, group),
{
    registry.generate_wgsl_bindings(group)
}

/// Registering a key that was not registered puts it at the end, so registering it again
/// finds it there and returns the index it was given.
pub proof fn lemma_reregister_finds_key(
    entries: Seq<(BindingKey, BindingInfo)>,
    group: u32,
    name: Seq<char>,
    stage: ShaderStages,
    added: (BindingKey, BindingInfo),
)
    requires
        key_position(entries, group, name, stage) is None,
        key_is(added.0, group, name, stage),
    ensures
        key_position(entries.push(added), group, name, stage) == Some(entries.len() as int),
        entries.push(added)[entries.len() as int].1 == added.1,
{
    let after = entries.push(added);
    let n = entries.len() as int;
    assert(key_is(after[n].0, group, name, stage));
    let c = choose|c: int| 0 <= c < after.len() && key_is(after[c].0, group, name, stage);
    if c < n {
        assert(after[c] == entries[c]);
        assert(key_position(entries, group, name, stage) is Some);
    }
}

/// In a well-formed registry no two bindings of one group share an index.
pub proof fn lemma_no_binding_conflicts(registry: &BindingRegistry)
    requires
        registry.wf(),
    ensures
        forall|i: int, j: int|
            0 <= i < registry.bindings@.len() && 0 <= j < registry.bindings@.len() && i != j
                && registry.bindings@[i].0.group == registry.bindings@[j].0.group
                ==> registry.bindings@[i].1.binding != registry.bindings@[j].1.binding,
{
    assert forall|i: int, j: int|
        0 <= i < registry.bindings@.len() && 0 <= j < registry.bindings@.len() && i != j
            && registry.bindings@[i].0.group == registry.bindings@[j].0.group implies registry.bindings@[i].1.binding
        != registry.bindings@[j].1.binding by {
        if i < j {
        } else {
        }
    }
}

} // verus!
