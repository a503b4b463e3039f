//! Registry of GPU types: their WGSL definitions, memory layouts and binding slots, and
//! the WGSL and constants generated from them.
//!
//! Types are kept in registration order, one per Rust type name.

use vstd::prelude::*;
use crate::error::num;
use crate::text::{
    append_u64, contains_text, lowercase_of, text_contains, text_eq, to_lowercase,
    to_uppercase, uppercase_of,
};

verus! {

/// How a shader accesses a binding.
#[derive(Clone, Copy, Debug, PartialEq, Eq, Structural)]
pub enum BindingAccess {
    ReadOnly,
    ReadWrite,
    Uniform,
}

/// A binding slot where a type is used.
#[derive(Clone, Debug)]
pub struct BindingSlotInfo {
    pub shader: String,
    pub group: u32,
    pub binding: u32,
    pub access: BindingAccess,
}

/// A field of a type's memory layout.
#[derive(Clone, Debug)]
pub struct FieldOffset {
    pub name: String,
    pub offset: u64,
    pub size: u64,
    pub ty: String,
}

/// Memory layout of a type.
#[derive(Clone, Debug)]
pub struct LayoutInfo {
    pub size: u64,
    pub alignment: u64,
    pub stride: u64,
    pub fields: Vec<FieldOffset>,
}

/// Everything known of a GPU type.
#[derive(Clone, Debug)]
pub struct GpuTypeInfo {
    pub rust_name: String,
    pub wgsl_name: String,
    pub wgsl_definition: String,
    pub layout: LayoutInfo,
    pub bindings: Vec<BindingSlotInfo>,
}

/// The GPU type registry.
pub struct UnifiedGpuSystem {
    pub types: Vec<GpuTypeInfo>,
}

/// The position of the type named `name`, where there is one.
pub open spec fn type_position(types: Seq<GpuTypeInfo>, name: Seq<char>) -> Option<int> {
    if exists|i: int| 0 <= i < types.len() && types[i].rust_name@ == name {
        Some(choose|i: int| 0 <= i < types.len() && types[i].rust_name@ == name)
    } else {
        None
    }
}

impl UnifiedGpuSystem {
    /// No Rust type name is registered twice.
    pub open spec fn wf(&self) -> bool {
        forall|i: int, j: int|
            0 <= i < j < self.types@.len() ==> self.types@[i].rust_name@ != self.types@[j].rust_name@
    }

    /// An empty registry.
    pub fn new() -> (r: UnifiedGpuSystem)
        ensures
            r.wf(),
            r.types@.len() == 0,
    {
        UnifiedGpuSystem { types: Vec::new() }
    }

    /// Registers a type, replacing what was registered under the same Rust type name.
    pub fn register_type(&mut self, info: GpuTypeInfo)
        requires
            old(self).wf(),
        ensures
            final(self).wf(),
            match type_position(old(self).types@, info.rust_name@) {
                Some(i) => final(self).types@ == old(self).types@.update(i, info),
                None => final(self).types@ == old(self).types@.push(info),
            },
    {
        let mut i: usize = 0;
        while i < self.types.len()
            invariant
                self.wf(),
                self.types@ == old(self).types@,
                i <= self.types@.len(),
                forall|j: int| 0 <= j < i ==> self.types@[j].rust_name@ != info.rust_name@,
            decreases self.types@.len() - i,
        {
            if text_eq(self.types[i].rust_name.as_str(), info.rust_name.as_str()) {
                let ghost before = self.types@;
                proof {
                    let k = choose|k: int|
                        0 <= k < before.len() && before[k].rust_name@ == info.rust_name@;
                    if k != i {
                        assert(k > i);
                        assert(before[k].rust_name@ != before[i as int].rust_name@);
                    }
                }
                self.types.set(i, info);
                proof {
                    assert forall|a: int, b: int|
                        0 <= a < b < self.types@.len() implies self.types@[a].rust_name@
                        != self.types@[b].rust_name@ by {
                        if a != i && b != i {
                            assert(self.types@[a] == before[a] && self.types@[b] == before[b]);
                        } else if a == i {
                            assert(self.types@[b] == before[b]);
                            assert(before[b].rust_name@ != before[a].rust_name@);
                        } else {
                            assert(self.types@[a] == before[a]);
                        }
                    }
                }
                return;
            }
            i += 1;
        }
        let ghost before = self.types@;
        self.types.push(info);
        proof {
            assert forall|a: int, b: int|
                0 <= a < b < self.types@.len() implies self.types@[a].rust_name@
                != self.types@[b].rust_name@ by {
                if b == before.len() {
                    assert(self.types@[a] == before[a]);
                } else {
                    assert(self.types@[a] == before[a] && self.types@[b] == before[b]);
                }
            }
        }
    }

    /// Checks that no field of a type starts before the end of the field before it; the
    /// error lists a message for each field that does, type by type.
    pub fn validate_all(&self) -> (r: Result<(), Vec<String>>)
        requires
            forall|t: int, f: int|
                0 <= t < self.types@.len() && 0 <= f < self.types@[t].layout.fields@.len()
                    ==> #[trigger] self.types@[t].layout.fields@[f].offset
                    + self.types@[t].layout.fields@[f].size <= u64::MAX,
        ensures
            match r {
                Ok(()) => all_overlaps(self.types@, self.types@.len() as int).len() == 0,
                Err(errors) => {
                    &&& all_overlaps(self.types@, self.types@.len() as int).len() > 0
                    &&& errors@.map_values(|e: String| e@) == all_overlaps(
                        self.types@,
                        self.types@.len() as int,
                    )
                },
            },
    {
        let mut errors: Vec<String> = Vec::new();
        let mut t: usize = 0;
        while t < self.types.len()
            invariant
                t <= self.types@.len(),
                forall|tt: int, f: int|
                    0 <= tt < self.types@.len() && 0 <= f < self.types@[tt].layout.fields@.len()
                        ==> #[trigger] self.types@[tt].layout.fields@[f].offset
                        + self.types@[tt].layout.fields@[f].size <= u64::MAX,
                errors@.map_values(|e: String| e@) == all_overlaps(self.types@, t as int),
            decreases self.types@.len() - t,
        {
            let info = &self.types[t];
            let fields = &info.layout.fields;
            let ghost before = errors@.map_values(|e: String| e@);
            let mut last_offset: u64 = 0;
            let mut f: usize = 0;
            while f < fields.len()
                invariant
                    f <= fields@.len(),
                    *info == self.types@[t as int],
                    fields == &info.layout.fields,
                    forall|g: int|
                        0 <= g < fields@.len() ==> #[trigger] fields@[g].offset + fields@[g].size
                            <= u64::MAX,
                    last_offset == field_end(fields@, f as int),
                    errors@.map_values(|e: String| e@) == before + overlap_messages(
                        info.rust_name@,
                        fields@,
                        f as int,
                    ),
                decreases fields@.len() - f,
            {
                let field = &fields[f];
                assert(fields@[f as int].offset + fields@[f as int].size <= u64::MAX);
                let ghost prev = errors@;
                if field.offset < last_offset {
                    let msg = overlap_message(info.rust_name.as_str(), field, last_offset);
                    errors.push(msg);
                    proof {
                        assert(errors@.map_values(|e: String| e@) =~= prev.map_values(
                            |e: String| e@,
                        ).push(msg@));
                    }
                } else {
                    proof {
                        assert(errors@.map_values(|e: String| e@) =~= prev.map_values(
                            |e: String| e@,
                        ));
                    }
                }
                last_offset = field.offset + field.size;
                f += 1;
            }
            proof {
                assert(all_overlaps(self.types@, t + 1) == all_overlaps(self.types@, t as int)
                    + overlap_messages(
                    self.types@[t as int].rust_name@,
                    self.types@[t as int].layout.fields@,
                    self.types@[t as int].layout.fields@.len() as int,
                ));
            }
            t += 1;
        }
        if errors.len() == 0 {
            Ok(())
        } else {
            Err(errors)
        }
    }
}

/// Where the field before position `k` ends (0 before the first field).
pub open spec fn field_end(fields: Seq<FieldOffset>, k: int) -> int {
    if k <= 0 {
        0
    } else {
        fields[k - 1].offset + fields[k - 1].size
    }
}

/// The message for a field of type `owner` that starts before `last_offset`.
pub open spec fn overlap_text(owner: Seq<char>, field: FieldOffset, last_offset: int) -> Seq<
    char,
> {
    "Type "@ + owner + ": field "@ + field.name@ + " overlaps previous field (offset: "@
        + num(field.offset as nat) + ", last_offset: "@ + num(last_offset as nat) + ")"@
}

/// The messages for the overlapping fields among the first `k` fields of a type.
pub open spec fn overlap_messages(owner: Seq<char>, fields: Seq<FieldOffset>, k: int) -> Seq<
    Seq<char>,
>
    decreases k,
{
    if k <= 0 {
        Seq::empty()
    } else if fields[k - 1].offset < field_end(fields, k - 1) {
        overlap_messages(owner, fields, k - 1).push(
            overlap_text(owner, fields[k - 1], field_end(fields, k - 1)),
        )
    } else {
        overlap_messages(owner, fields, k - 1)
    }
}

/// The messages for the overlapping fields of the first `t` types, type by type.
pub open spec fn all_overlaps(types: Seq<GpuTypeInfo>, t: int) -> Seq<Seq<char>>
    decreases t,
{
    if t <= 0 {
        Seq::empty()
    } else {
        all_overlaps(types, t - 1) + overlap_messages(
            types[t - 1].rust_name@,
            types[t - 1].layout.fields@,
            types[t - 1].layout.fields@.len() as int,
        )
    }
}

/// The message for a field that starts before `last_offset`.
fn overlap_message(owner: &str, field: &FieldOffset, last_offset: u64) -> (r: String)
    ensures
        r@ == overlap_text(owner@, *field, last_offset as int),
{
    let mut s = String::from_str("Type ");
    s.append(owner);
    s.append(": field ");
    s.append(field.name.as_str());
    s.append(" overlaps previous field (offset: ");
    append_u64(&mut s, field.offset);
    s.append(", last_offset: ");
    append_u64(&mut s, last_offset);
    s.append(")");
    s
}

/// The WGSL type of a Rust type, by the Rust type's name.
pub open spec fn wgsl_for_rust(name: Seq<char>) -> Seq<char> {
    if name == "u32"@ {
        "u32"@
    } else if name == "i32"@ {
        "i32"@
    } else if name == "f32"@ {
        "f32"@
    } else if name == "[f32; 2]"@ {
        "vec2<f32>"@
    } else if name == "[f32; 3]"@ {
        "vec3<f32>"@
    } else if name == "[f32; 4]"@ {
        "vec4<f32>"@
    } else if name == "[u32; 2]"@ {
        "vec2<u32>"@
    } else if name == "[u32; 3]"@ {
        "vec3<u32>"@
    } else if name == "[u32; 4]"@ {
        "vec4<u32>"@
    } else {
        "unknown"@
    }
}

/// The WGSL type of a Rust type, by the Rust type's name.
pub fn wgsl_type_for_rust_name(name: &str) -> (r: &'static str)
    ensures
        r@ == wgsl_for_rust(name@),
{
    if text_eq(name, "u32") {
        "u32"
    } else if text_eq(name, "i32") {
        "i32"
    } else if text_eq(name, "f32") {
        "f32"
    } else if text_eq(name, "[f32; 2]") {
        "vec2<f32>"
    } else if text_eq(name, "[f32; 3]") {
        "vec3<f32>"
    } else if text_eq(name, "[f32; 4]") {
        "vec4<f32>"
    } else if text_eq(name, "[u32; 2]") {
        "vec2<u32>"
    } else if text_eq(name, "[u32; 3]") {
        "vec3<u32>"
    } else if text_eq(name, "[u32; 4]") {
        "vec4<u32>"
    } else {
        "unknown"
    }
}

/// The constant of one field's offset.
pub open spec fn field_constant_text(f: FieldOffset) -> Seq<char> {
    "    pub const "@ + uppercase_of(f.name@) + ": u64 = "@ + num(f.offset as nat) + "; // "@
        + f.ty@ + "\n"@
}

/// The constants of the offsets of `fields`.
pub open spec fn field_constants_text(fields: Seq<FieldOffset>) -> Seq<char>
    decreases fields.len(),
{
    if fields.len() == 0 {
        Seq::empty()
    } else {
        field_constants_text(fields.drop_last()) + field_constant_text(fields.last())
    }
}

/// The layout constants of one type: its size, alignment and stride, then a module of its
/// field offsets where it has fields.
pub open spec fn type_constants_text(t: GpuTypeInfo) -> Seq<char> {
    let prefix = uppercase_of(t.wgsl_name@);
    let head = "// "@ + t.rust_name@ + "\n"@ + "pub const "@ + prefix + "_SIZE: u64 = "@ + num(
        t.layout.size as nat,
    ) + ";\n"@ + "pub const "@ + prefix + "_ALIGNMENT: u64 = "@ + num(t.layout.alignment as nat)
        + ";\n"@ + "pub const "@ + prefix + "_STRIDE: u64 = "@ + num(t.layout.stride as nat)
        + ";\n"@;
    let offsets = if t.layout.fields@.len() > 0 {
        "\npub mod "@ + lowercase_of(t.wgsl_name@) + "_offsets {\n"@ + field_constants_text(
            t.layout.fields@,
        ) + "}\n"@
    } else {
        Seq::empty()
    };
    head + offsets + "\n"@
}

/// The layout constants of the first `k` types, after a header line.
pub open spec fn layout_constants_text(types: Seq<GpuTypeInfo>, k: int) -> Seq<char>
    decreases k,
{
    if k <= 0 {
        "// AUTO-GENERATED MEMORY LAYOUT CONSTANTS\n\n"@
    } else {
        layout_constants_text(types, k - 1) + type_constants_text(types[k - 1])
    }
}

/// The constant of one field's offset.
fn field_constant(f: &FieldOffset) -> (r: String)
    ensures
        r@ == field_constant_text(*f),
{
    let mut s = String::from_str("    pub const ");
    let upper = to_uppercase(f.name.as_str());
    s.append(upper.as_str());
    s.append(": u64 = ");
    append_u64(&mut s, f.offset);
    s.append("; // ");
    s.append(f.ty.as_str());
    s.append("\n");
    s
}

/// The layout constants of one type.
fn type_constants(t: &GpuTypeInfo) -> (r: String)
    ensures
        r@ == type_constants_text(*t),
{
    let prefix = to_uppercase(t.wgsl_name.as_str());
    let mut s = String::from_str("// ");
    s.append(t.rust_name.as_str());
    s.append("\n");
    s.append("pub const ");
    s.append(prefix.as_str());
    s.append("_SIZE: u64 = ");
    append_u64(&mut s, t.layout.size);
    s.append(";\n");
    s.append("pub const ");
    s.append(prefix.as_str());
    s.append("_ALIGNMENT: u64 = ");
    append_u64(&mut s, t.layout.alignment);
    s.append(";\n");
    s.append("pub const ");
    s.append(prefix.as_str());
    s.append("_STRIDE: u64 = ");
    append_u64(&mut s, t.layout.stride);
    s.append(";\n");
    let ghost head = s@;
    if t.layout.fields.len() > 0 {
        let lower = to_lowercase(t.wgsl_name.as_str());
        let mut m = String::from_str("\npub mod ");
        m.append(lower.as_str());
        m.append("_offsets {\n");
        let mut f: usize = 0;
        while f < t.layout.fields.len()
            invariant
                f <= t.layout.fields@.len(),
                m@ == "\npub mod "@ + lowercase_of(t.wgsl_name@) + "_offsets {\n"@
                    + field_constants_text(t.layout.fields@.take(f as int)),
            decreases t.layout.fields@.len() - f,
        {
            let line = field_constant(&t.layout.fields[f]);
            m.append(line.as_str());
            proof {
                assert(t.layout.fields@.take(f + 1).drop_last() =~= t.layout.fields@.take(f as int));
            }
            f += 1;
        }
        assert(t.layout.fields@.take(t.layout.fields@.len() as int) =~= t.layout.fields@);
        m.append("}\n");
        s.append(m.as_str());
    } else {
        assert(s@ =~= head + Seq::<char>::empty());
    }
    s.append("\n");
    s
}

impl UnifiedGpuSystem {
    /// The memory layout constants of every type, in registration order.
    pub fn generate_layout_constants(&self) -> (r: String)
        ensures
            r@ == layout_constants_text(self.types@, self.types@.len() as int),
    {
        let mut constants = String::from_str("// AUTO-GENERATED MEMORY LAYOUT CONSTANTS\n\n");
        let mut t: usize = 0;
        while t < self.types.len()
            invariant
                t <= self.types@.len(),
                constants@ == layout_constants_text(self.types@, t as int),
            decreases self.types@.len() - t,
        {
            let block = type_constants(&self.types[t]);
            constants.append(block.as_str());
            t += 1;
        }
        constants
    }
}

/// A binding slot of a shader, as the generated declarations see it.
pub type SlotKey = (u32, u32, BindingAccess);

/// Whether `a` comes no later than `b` by group, then binding.
pub open spec fn slot_le(a: SlotKey, b: SlotKey) -> bool {
    a.0 < b.0 || (a.0 == b.0 && a.1 <= b.1)
}

/// Whether the slots are in order of group, then binding.
pub open spec fn slots_sorted(s: Seq<SlotKey>) -> bool {
    forall|i: int, j: int| 0 <= i < j < s.len() ==> slot_le(s[i], s[j])
}

/// The slots of `bindings` that belong to the shader `shader`, in order.
pub open spec fn slots_of(bindings: Seq<BindingSlotInfo>, shader: Seq<char>) -> Seq<SlotKey>
    decreases bindings.len(),
{
    if bindings.len() == 0 {
        Seq::empty()
    } else if bindings.last().shader@ == shader {
        slots_of(bindings.drop_last(), shader).push(
            (bindings.last().group, bindings.last().binding, bindings.last().access),
        )
    } else {
        slots_of(bindings.drop_last(), shader)
    }
}

/// The slots of the shader `shader` over the first `k` types, type by type.
pub open spec fn shader_slots(types: Seq<GpuTypeInfo>, shader: Seq<char>, k: int) -> Seq<SlotKey>
    decreases k,
{
    if k <= 0 {
        Seq::empty()
    } else {
        shader_slots(types, shader, k - 1) + slots_of(types[k - 1].bindings@, shader)
    }
}

/// Whether a type uses the slot at `group` and `binding`, in any shader.
pub open spec fn uses_slot(t: GpuTypeInfo, group: u32, binding: u32) -> bool {
    exists|i: int|
        0 <= i < t.bindings@.len() && (#[trigger] t.bindings@[i]).group == group
            && t.bindings@[i].binding == binding
}

/// The first type from position `start` on that uses the slot at `group` and `binding`,
/// where one does.
pub open spec fn slot_owner_from(types: Seq<GpuTypeInfo>, group: u32, binding: u32, start: int) -> Option<
    int,
>
    decreases types.len() - start,
{
    if start < 0 || start >= types.len() {
        None
    } else if uses_slot(types[start], group, binding) {
        Some(start)
    } else {
        slot_owner_from(types, group, binding, start + 1)
    }
}

/// The first type that uses the slot at `group` and `binding`, where one does.
pub open spec fn slot_owner(types: Seq<GpuTypeInfo>, group: u32, binding: u32) -> Option<int> {
    slot_owner_from(types, group, binding, 0)
}

/// The storage qualifier of an access mode.
pub open spec fn access_text(a: BindingAccess) -> Seq<char> {
    match a {
        BindingAccess::ReadOnly => "<storage, read>"@,
        BindingAccess::ReadWrite => "<storage, read_write>"@,
        BindingAccess::Uniform => "<uniform>"@,
    }
}

/// The declaration of a slot, named and typed after the first type that uses the slot; none
/// where no type does.
pub open spec fn slot_declaration(types: Seq<GpuTypeInfo>, slot: SlotKey) -> Seq<char> {
    match slot_owner(types, slot.0, slot.1) {
        Some(t) => "@group("@ + num(slot.0 as nat) + ") @binding("@ + num(slot.1 as nat)
            + ") var"@ + access_text(slot.2) + " "@ + lowercase_of(types[t].wgsl_name@) + ": "@
            + types[t].wgsl_name@ + ";\n"@,
        None => Seq::empty(),
    }
}

/// The declarations of the slots, in their order.
pub open spec fn slot_declarations(types: Seq<GpuTypeInfo>, slots: Seq<SlotKey>) -> Seq<char>
    decreases slots.len(),
{
    if slots.len() == 0 {
        Seq::empty()
    } else {
        slot_declarations(types, slots.drop_last()) + slot_declaration(types, slots.last())
    }
}

/// The fixed declarations of the shaders whose bindings are written out by name; `None` for
/// the others.
pub open spec fn fixed_bindings(shader: Seq<char>) -> Option<Seq<char>> {
    if shader == "terrain_generation_soa"@ {
        Some(
            "@group(0) @binding(0) var<storage, read_write> world_data: array<u32>;\n"@
                + "@group(0) @binding(1) var<storage, read_write> metadata: array<ChunkMetadata>;\n"@
                + "@group(0) @binding(2) var<storage, read> params: TerrainParamsSOA;\n"@,
        )
    } else if shader == "chunk_modification"@ {
        Some(
            "@group(0) @binding(0) var<storage, read_write> world_data: array<u32>;\n"@
                + "@group(0) @binding(1) var<storage, read_write> metadata: array<ChunkMetadata>;\n"@
                + "@group(0) @binding(2) var<storage, read> commands: array<ModificationCommand>;\n"@,
        )
    } else if shader == "hierarchical_physics"@ {
        Some(Seq::empty())
    } else if shader == "ambient_occlusion"@ {
        Some(
            "@group(0) @binding(0) var<storage, read> world_data: array<u32>;\n"@
                + "@group(0) @binding(1) var<storage, read_write> ao_data: array<f32>;\n"@,
        )
    } else if shader == "weather_compute"@ {
        Some(
            "@group(0) @binding(0) var<storage, read_write> weather_data: WeatherData;\n"@
                + "@group(0) @binding(1) var<storage, read_write> particles: array<PrecipitationParticle>;\n"@,
        )
    } else {
        None
    }
}

/// Inserts `x` after every slot that comes no later than it.
fn insert_slot(sorted: &mut Vec<SlotKey>, x: SlotKey)
    requires
        slots_sorted(old(sorted)@),
    ensures
        slots_sorted(final(sorted)@),
        final(sorted)@.to_multiset() == old(sorted)@.to_multiset().insert(x),
{
    let mut p: usize = 0;
    while p < sorted.len()
        invariant
            p <= sorted@.len(),
            forall|j: int| 0 <= j < p ==> slot_le(#[trigger] sorted@[j], x),
        ensures
            p <= sorted@.len(),
            forall|j: int| 0 <= j < p ==> slot_le(#[trigger] sorted@[j], x),
            p < sorted@.len() ==> slot_le(x, sorted@[p as int]),
        decreases sorted@.len() - p,
    {
        let y = sorted[p];
        if x.0 < y.0 || (x.0 == y.0 && x.1 < y.1) {
            break;
        }
        p += 1;
    }
    let ghost before = sorted@;
    proof {
        vstd::seq_lib::to_multiset_insert(before, p as int, x);
    }
    sorted.insert(p, x);
    proof {
        assert(sorted@ =~= before.insert(p as int, x));
        assert forall|i: int, j: int| 0 <= i < j < sorted@.len() implies slot_le(
            sorted@[i],
            sorted@[j],
        ) by {
            if j < p {
                assert(sorted@[i] == before[i] && sorted@[j] == before[j]);
            } else if j == p {
                assert(sorted@[i] == before[i]);
                assert(slot_le(before[i], x));
            } else {
                assert(sorted@[j] == before[j - 1]);
                assert(slot_le(before[p as int], before[j - 1]) || p == j - 1);
                assert(slot_le(x, before[j - 1]));
                if i < p {
                    assert(sorted@[i] == before[i]);
                    assert(slot_le(before[i], x));
                } else if i > p {
                    assert(sorted@[i] == before[i - 1]);
                }
            }
        }
    }
}

impl UnifiedGpuSystem {
    /// The first type that uses the slot at `group` and `binding`.
    fn find_slot_owner(&self, group: u32, binding: u32) -> (r: Option<usize>)
        ensures
            match r {
                Some(t) => t < self.types@.len() && slot_owner(self.types@, group, binding) == Some(
                    t as int,
                ),
                None => slot_owner(self.types@, group, binding) is None,
            },
    {
        let mut t: usize = 0;
        while t < self.types.len()
            invariant
                t <= self.types@.len(),
                slot_owner(self.types@, group, binding) == slot_owner_from(
                    self.types@,
                    group,
                    binding,
                    t as int,
                ),
            decreases self.types@.len() - t,
        {
            let bindings = &self.types[t].bindings;
            assert(bindings@ == self.types@[t as int].bindings@);
            let mut i: usize = 0;
            while i < bindings.len()
                invariant
                    t < self.types@.len(),
                    bindings@ == self.types@[t as int].bindings@,
                    slot_owner(self.types@, group, binding) == slot_owner_from(
                        self.types@,
                        group,
                        binding,
                        t as int,
                    ),
                    i <= bindings@.len(),
                    forall|k: int|
                        0 <= k < i ==> !((#[trigger] bindings@[k]).group == group
                            && bindings@[k].binding == binding),
                decreases bindings@.len() - i,
            {
                if bindings[i].group == group && bindings[i].binding == binding {
                    assert(bindings@[i as int].group == group);
                    assert(uses_slot(self.types@[t as int], group, binding));
                    return Some(t);
                }
                i += 1;
            }
            t += 1;
        }
        None
    }

    /// The WGSL binding declarations of a shader, after a comment naming it: written out for
    /// the shaders known by name, else one per slot the registered types give the shader, in
    /// order of group and binding.
    pub fn generate_shader_bindings(&self, shader_name: &str) -> (r: String)
        ensures
            match fixed_bindings(shader_name@) {
                Some(lines) => r@ == "// Bindings for shader: "@ + shader_name@ + "\n"@ + lines,
                None => exists|sorted: Seq<SlotKey>|
                    {
                        &&& slots_sorted(sorted)
                        &&& sorted.to_multiset() == shader_slots(
                            self.types@,
                            shader_name@,
                            self.types@.len() as int,
                        ).to_multiset()
                        &&& r@ == "// Bindings for shader: "@ + shader_name@ + "\n"@
                            + slot_declarations(self.types@, sorted)
                    },
            },
    {
        let mut wgsl = String::from_str("// Bindings for shader: ");
        wgsl.append(shader_name);
        wgsl.append("\n");
        if text_eq(shader_name, "terrain_generation_soa") {
            wgsl.append("@group(0) @binding(0) var<storage, read_write> world_data: array<u32>;\n");
            wgsl.append("@group(0) @binding(1) var<storage, read_write> metadata: array<ChunkMetadata>;\n");
            wgsl.append("@group(0) @binding(2) var<storage, read> params: TerrainParamsSOA;\n");
        } else if text_eq(shader_name, "chunk_modification") {
            wgsl.append("@group(0) @binding(0) var<storage, read_write> world_data: array<u32>;\n");
            wgsl.append("@group(0) @binding(1) var<storage, read_write> metadata: array<ChunkMetadata>;\n");
            wgsl.append("@group(0) @binding(2) var<storage, read> commands: array<ModificationCommand>;\n");
        } else if text_eq(shader_name, "hierarchical_physics") {
            assert(wgsl@ =~= wgsl@ + Seq::<char>::empty());
        } else if text_eq(shader_name, "ambient_occlusion") {
            wgsl.append("@group(0) @binding(0) var<storage, read> world_data: array<u32>;\n");
            wgsl.append("@group(0) @binding(1) var<storage, read_write> ao_data: array<f32>;\n");
        } else if text_eq(shader_name, "weather_compute") {
            wgsl.append("@group(0) @binding(0) var<storage, read_write> weather_data: WeatherData;\n");
            wgsl.append("@group(0) @binding(1) var<storage, read_write> particles: array<PrecipitationParticle>;\n");
        } else {
            let ghost head = wgsl@;
            let mut sorted: Vec<SlotKey> = Vec::new();
            let mut t: usize = 0;
            while t < self.types.len()
                invariant
                    t <= self.types@.len(),
                    slots_sorted(sorted@),
                    sorted@.to_multiset() == shader_slots(self.types@, shader_name@, t as int).to_multiset(),
                decreases self.types@.len() - t,
            {
                let bindings = &self.types[t].bindings;
                assert(bindings@ == self.types@[t as int].bindings@);
                let ghost base = shader_slots(self.types@, shader_name@, t as int);
                let mut i: usize = 0;
                while i < bindings.len()
                    invariant
                        i <= bindings@.len(),
                        bindings@ == self.types@[t as int].bindings@,
                        slots_sorted(sorted@),
                        sorted@.to_multiset() == (base + slots_of(bindings@.take(i as int), shader_name@)).to_multiset(),
                    decreases bindings@.len() - i,
                {
                    let b = &bindings[i];
                    let ghost acc = base + slots_of(bindings@.take(i as int), shader_name@);
                    proof {
                        assert(bindings@.take(i + 1).drop_last() =~= bindings@.take(i as int));
                    }
                    if text_eq(b.shader.as_str(), shader_name) {
                        insert_slot(&mut sorted, (b.group, b.binding, b.access));
                        proof {
                            let item = (b.group, b.binding, b.access);
                            assert(base + slots_of(bindings@.take(i + 1), shader_name@) =~= acc.push(item));
                            vstd::seq_lib::to_multiset_build(acc, item);
                        }
                    } else {
                        assert(base + slots_of(bindings@.take(i + 1), shader_name@) =~= acc);
                    }
                    i += 1;
                }
                proof {
                    assert(bindings@.take(bindings@.len() as int) =~= bindings@);
                }
                t += 1;
            }
            let mut k: usize = 0;
            while k < sorted.len()
                invariant
                    k <= sorted@.len(),
                    wgsl@ == head + slot_declarations(self.types@, sorted@.take(k as int)),
                decreases sorted@.len() - k,
            {
                let (group, binding, access) = sorted[k];
                proof {
                    assert(sorted@.take(k + 1).drop_last() =~= sorted@.take(k as int));
                }
                match self.find_slot_owner(group, binding) {
                    Some(owner) => {
                        let info = &self.types[owner];
                        let line = slot_line(group, binding, access, info.wgsl_name.as_str());
                        wgsl.append(line.as_str());
                    },
                    None => {
                        assert(slot_declaration(self.types@, sorted@[k as int]) =~= Seq::<char>::empty());
                    },
                }
                k += 1;
            }
            proof {
                assert(sorted@.take(sorted@.len() as int) =~= sorted@);
            }
        }
        wgsl
    }
}

/// The declaration of a slot named and typed after the WGSL type `wgsl_name`.
fn slot_line(group: u32, binding: u32, access: BindingAccess, wgsl_name: &str) -> (r: String)
    ensures
        r@ == "@group("@ + num(group as nat) + ") @binding("@ + num(binding as nat) + ") var"@
            + access_text(access) + " "@ + lowercase_of(wgsl_name@) + ": "@ + wgsl_name@ + ";\n"@,
{
    let mut s = String::from_str("@group(");
    append_u64(&mut s, group as u64);
    s.append(") @binding(");
    append_u64(&mut s, binding as u64);
    s.append(") var");
    s.append(
        match access {
            BindingAccess::ReadOnly => "<storage, read>",
            BindingAccess::ReadWrite => "<storage, read_write>",
            BindingAccess::Uniform => "<uniform>",
        },
    );
    s.append(" ");
    let lower = to_lowercase(wgsl_name);
    s.append(lower.as_str());
    s.append(": ");
    s.append(wgsl_name);
    s.append(";\n");
    s
}

/// Whether a WGSL definition refers to the type named `name`: as a field's type, as a type
/// argument, or as an array's element.
pub open spec fn references(def: Seq<char>, name: Seq<char>) -> bool {
    contains_text(def, ": "@ + name) || contains_text(def, "<"@ + name + ">"@) || contains_text(
        def,
        "array<"@ + name,
    )
}

/// Whether the type at `a` depends on the other type at `b`.
pub open spec fn depends_on(types: Seq<GpuTypeInfo>, a: int, b: int) -> bool {
    &&& 0 <= a < types.len()
    &&& 0 <= b < types.len()
    &&& a != b
    &&& references(types[a].wgsl_definition@, types[b].wgsl_name@)
}

/// Whether the dependencies have a knot: a nonempty set of types each of which depends on
/// another type of the set, which no order can respect.
pub open spec fn has_knot(types: Seq<GpuTypeInfo>) -> bool {
    exists|set: Seq<bool>|
        {
            &&& set.len() == types.len()
            &&& exists|v: int| 0 <= v < set.len() && set[v]
            &&& forall|v: int|
                0 <= v < set.len() && #[trigger] set[v] ==> exists|b: int|
                    0 <= b < set.len() && set[b] && depends_on(types, v, b)
        }
}

/// Whether `order` lists every type index exactly once.
pub open spec fn is_index_order(order: Seq<usize>, n: int) -> bool {
    &&& order.len() == n
    &&& forall|i: int| 0 <= i < n ==> (#[trigger] order[i] as int) < n
    &&& forall|i: int, j: int| 0 <= i < j < n ==> order[i] != order[j]
}

/// Whether every type comes after the types it depends on.
pub open spec fn respects_dependencies(types: Seq<GpuTypeInfo>, order: Seq<usize>) -> bool {
    forall|i: int, j: int|
        0 <= i < j < order.len() ==> !depends_on(types, order[i] as int, order[j] as int)
}

/// What sorting the types by dependency gives: an order in which every type follows its
/// dependencies, or, where the dependencies have a knot, registration order.
pub open spec fn dependency_sorted(types: Seq<GpuTypeInfo>, order: Seq<usize>) -> bool {
    &&& is_index_order(order, types.len() as int)
    &&& {
        ||| respects_dependencies(types, order)
        ||| (has_knot(types) && order == Seq::new(types.len(), |i: int| i as usize))
    }
}

/// A type whose WGSL definition names another registered type's WGSL name as a field type
/// (`: N`), as a type argument (`<N>`) or as an array element (`array<N`) comes after that
/// type in every order that sorting by dependency produces, unless the dependencies have a
/// knot.
pub proof fn lemma_referenced_type_comes_first(
    types: Seq<GpuTypeInfo>,
    order: Seq<usize>,
    a: int,
    b: int,
    pa: int,
    pb: int,
)
    requires
        dependency_sorted(types, order),
        !has_knot(types),
        0 <= a < types.len(),
        0 <= b < types.len(),
        a != b,
        contains_text(types[a].wgsl_definition@, ": "@ + types[b].wgsl_name@) || contains_text(
            types[a].wgsl_definition@,
            "<"@ + types[b].wgsl_name@ + ">"@,
        ) || contains_text(types[a].wgsl_definition@, "array<"@ + types[b].wgsl_name@),
        0 <= pa < order.len(),
        0 <= pb < order.len(),
        order[pa] as int == a,
        order[pb] as int == b,
    ensures
        pb < pa,
{
    assert(depends_on(types, a, b));
    if pa < pb {
        assert(!depends_on(types, order[pa] as int, order[pb] as int));
    }
}

/// The number of types below `m` that the type at `a` depends on and that are not among the
/// first `head` of the queue.
pub open spec fn pending_deps(
    types: Seq<GpuTypeInfo>,
    pos: Seq<int>,
    head: int,
    a: int,
    m: int,
) -> nat
    decreases m,
{
    if m <= 0 {
        0
    } else {
        pending_deps(types, pos, head, a, m - 1) + if depends_on(types, a, m - 1) && !(0 <= pos[m
            - 1] < head) {
            1nat
        } else {
            0nat
        }
    }
}

/// The number of types below `m` that have entered the queue.
pub open spec fn queued_count(pos: Seq<int>, m: int) -> nat
    decreases m,
{
    if m <= 0 {
        0
    } else {
        queued_count(pos, m - 1) + if pos[m - 1] >= 0 {
            1nat
        } else {
            0nat
        }
    }
}

proof fn lemma_pending_zero(types: Seq<GpuTypeInfo>, pos: Seq<int>, head: int, a: int, m: int)
    requires
        pending_deps(types, pos, head, a, m) == 0,
    ensures
        forall|b: int| 0 <= b < m && depends_on(types, a, b) ==> 0 <= pos[b] < head,
    decreases m,
{
    if m > 0 {
        lemma_pending_zero(types, pos, head, a, m - 1);
    }
}

proof fn lemma_pending_positive(types: Seq<GpuTypeInfo>, pos: Seq<int>, head: int, a: int, m: int)
    requires
        pending_deps(types, pos, head, a, m) > 0,
    ensures
        exists|b: int| 0 <= b < m && depends_on(types, a, b) && !(0 <= pos[b] < head),
    decreases m,
{
    if m > 0 {
        if pending_deps(types, pos, head, a, m - 1) > 0 {
            lemma_pending_positive(types, pos, head, a, m - 1);
        } else {
            assert(depends_on(types, a, m - 1) && !(0 <= pos[m - 1] < head));
        }
    }
}

/// Taking the type at queue position `head` off the queue lowers the pending count of each
/// type that depends on it by one.
proof fn lemma_pending_step(
    types: Seq<GpuTypeInfo>,
    pos: Seq<int>,
    head: int,
    cur: int,
    a: int,
    m: int,
)
    requires
        0 <= cur < pos.len(),
        0 <= head,
        pos[cur] == head,
        forall|v: int| 0 <= v < pos.len() && v != cur ==> pos[v] != head,
        m <= pos.len(),
    ensures
        pending_deps(types, pos, head, a, m) as int == pending_deps(types, pos, head + 1, a, m)
            as int + if 0 <= cur < m && depends_on(types, a, cur) {
            1int
        } else {
            0int
        },
    decreases m,
{
    if m > 0 {
        lemma_pending_step(types, pos, head, cur, a, m - 1);
    }
}

/// Entering the queue does not change pending counts, which depend only on what has left it.
proof fn lemma_pending_enqueue(
    types: Seq<GpuTypeInfo>,
    pos: Seq<int>,
    head: int,
    v: int,
    p: int,
    a: int,
    m: int,
)
    requires
        0 <= v < pos.len(),
        pos[v] < 0,
        p >= head,
        m <= pos.len(),
    ensures
        pending_deps(types, pos.update(v, p), head, a, m) == pending_deps(types, pos, head, a, m),
    decreases m,
{
    if m > 0 {
        lemma_pending_enqueue(types, pos, head, v, p, a, m - 1);
    }
}

proof fn lemma_queued_enqueue(pos: Seq<int>, v: int, p: int, m: int)
    requires
        0 <= v < pos.len(),
        pos[v] < 0,
        p >= 0,
        m <= pos.len(),
    ensures
        queued_count(pos.update(v, p), m) == queued_count(pos, m) + if v < m {
            1nat
        } else {
            0nat
        },
    decreases m,
{
    if m > 0 {
        lemma_queued_enqueue(pos, v, p, m - 1);
    }
}

proof fn lemma_queued_none(pos: Seq<int>, m: int)
    requires
        0 <= m <= pos.len(),
        forall|v: int| 0 <= v < m ==> pos[v] < 0,
    ensures
        queued_count(pos, m) == 0,
    decreases m,
{
    if m > 0 {
        lemma_queued_none(pos, m - 1);
    }
}

proof fn lemma_queued_all(pos: Seq<int>, m: int)
    requires
        0 <= m <= pos.len(),
        queued_count(pos, m) == m,
    ensures
        forall|v: int| 0 <= v < m ==> pos[v] >= 0,
    decreases m,
{
    if m > 0 {
        lemma_queued_bound(pos, m - 1);
        lemma_queued_all(pos, m - 1);
    }
}

proof fn lemma_queued_bound(pos: Seq<int>, m: int)
    requires
        0 <= m <= pos.len(),
    ensures
        queued_count(pos, m) <= m,
    decreases m,
{
    if m > 0 {
        lemma_queued_bound(pos, m - 1);
    }
}

proof fn lemma_queued_missing(pos: Seq<int>, m: int)
    requires
        0 <= m <= pos.len(),
        queued_count(pos, m) < m,
    ensures
        exists|v: int| 0 <= v < m && pos[v] < 0,
    decreases m,
{
    if m > 0 {
        if pos[m - 1] < 0 {
        } else {
            lemma_queued_missing(pos, m - 1);
        }
    }
}

/// Whether the WGSL definition at `a` refers to the type at `b`, read from the texts.
fn refers_to(a: &GpuTypeInfo, b: &GpuTypeInfo) -> (r: bool)
    ensures
        r == references(a.wgsl_definition@, b.wgsl_name@),
{
    let mut field = String::from_str(": ");
    field.append(b.wgsl_name.as_str());
    let mut argument = String::from_str("<");
    argument.append(b.wgsl_name.as_str());
    argument.append(">");
    let mut element = String::from_str("array<");
    element.append(b.wgsl_name.as_str());
    let def = a.wgsl_definition.as_str();
    text_contains(def, field.as_str()) || text_contains(def, argument.as_str()) || text_contains(
        def,
        element.as_str(),
    )
}

impl UnifiedGpuSystem {
    /// The dependency matrix: row `a` says which types the type at `a` depends on.
    fn dependency_matrix(&self) -> (r: Vec<Vec<bool>>)
        ensures
            r@.len() == self.types@.len(),
            forall|a: int| 0 <= a < r@.len() ==> (#[trigger] r@[a])@.len() == self.types@.len(),
            forall|a: int, b: int|
                0 <= a < r@.len() && 0 <= b < r@.len() ==> (#[trigger] r@[a]@[b]) == depends_on(
                    self.types@,
                    a,
                    b,
                ),
    {
        let n = self.types.len();
        let mut matrix: Vec<Vec<bool>> = Vec::new();
        let mut a: usize = 0;
        while a < n
            invariant
                n == self.types@.len(),
                a <= n,
                matrix@.len() == a,
                forall|i: int| 0 <= i < a ==> (#[trigger] matrix@[i])@.len() == n,
                forall|i: int, b: int|
                    0 <= i < a && 0 <= b < n ==> (#[trigger] matrix@[i]@[b]) == depends_on(
                        self.types@,
                        i,
                        b,
                    ),
            decreases n - a,
        {
            let mut row: Vec<bool> = Vec::new();
            let mut b: usize = 0;
            while b < n
                invariant
                    n == self.types@.len(),
                    a < n,
                    b <= n,
                    row@.len() == b,
                    forall|j: int| 0 <= j < b ==> row@[j] == depends_on(self.types@, a as int, j),
                decreases n - b,
            {
                let dep = a != b && refers_to(&self.types[a], &self.types[b]);
                row.push(dep);
                b += 1;
            }
            matrix.push(row);
            a += 1;
        }
        matrix
    }

    /// The type indices ordered so that every type follows the types it depends on (Kahn's
    /// algorithm); registration order where the dependencies have a knot.
    #[verifier::rlimit(60)]
    pub fn topological_order(&self) -> (r: Vec<usize>)
        ensures
            dependency_sorted(self.types@, r@),
    {
        let n = self.types.len();
        let ghost types = self.types@;
        let dep = self.dependency_matrix();
        let mut in_degree: Vec<usize> = Vec::new();
        let mut a: usize = 0;
        while a < n
            invariant
                n == types.len(),
                types == self.types@,
                dep@.len() == n,
                forall|i: int| 0 <= i < n ==> (#[trigger] dep@[i])@.len() == n,
                forall|i: int, j: int|
                    0 <= i < n && 0 <= j < n ==> (#[trigger] dep@[i]@[j]) == depends_on(types, i, j),
                a <= n,
                in_degree@.len() == a,
                forall|i: int|
                    0 <= i < a ==> #[trigger] in_degree@[i] == pending_deps(
                        types,
                        Seq::new(n as nat, |v: int| -1int),
                        0,
                        i,
                        n as int,
                    ),
            decreases n - a,
        {
            let mut count: usize = 0;
            let mut b: usize = 0;
            while b < n
                invariant
                    n == types.len(),
                    dep@.len() == n,
                    forall|i: int| 0 <= i < n ==> (#[trigger] dep@[i])@.len() == n,
                    forall|i: int, j: int|
                        0 <= i < n && 0 <= j < n ==> (#[trigger] dep@[i]@[j]) == depends_on(
                            types,
                            i,
                            j,
                        ),
                    a < n,
                    b <= n,
                    count == pending_deps(types, Seq::new(n as nat, |v: int| -1int), 0, a as int, b as int),
                    count <= b,
                decreases n - b,
            {
                if dep[a][b] {
                    count += 1;
                }
                b += 1;
            }
            in_degree.push(count);
            a += 1;
        }
        let ghost mut pos: Seq<int> = Seq::new(n as nat, |v: int| -1int);
        proof {
            lemma_queued_none(pos, n as int);
        }
        let mut queue: Vec<usize> = Vec::new();
        let mut v: usize = 0;
        while v < n
            invariant
                n == types.len(),
                dep@.len() == n,
                forall|i: int| 0 <= i < n ==> (#[trigger] dep@[i])@.len() == n,
                forall|i: int, j: int|
                    0 <= i < n && 0 <= j < n ==> (#[trigger] dep@[i]@[j]) == depends_on(types, i, j),
                in_degree@.len() == n,
                v <= n,
                pos.len() == n,
                forall|i: int|
                    0 <= i < n ==> #[trigger] in_degree@[i] == pending_deps(types, pos, 0, i, n as int),
                forall|i: int| 0 <= i < n ==> -1 <= #[trigger] pos[i] < queue@.len(),
                forall|i: int| 0 <= i < n && #[trigger] pos[i] >= 0 ==> queue@[pos[i]] == i,
                forall|k: int|
                    0 <= k < queue@.len() ==> (#[trigger] queue@[k] as int) < n && pos[queue@[k] as int]
                        == k,
                forall|i: int| 0 <= i < n && #[trigger] pos[i] >= 0 ==> i < v,
                forall|i: int| 0 <= i < v ==> (#[trigger] pos[i] >= 0 <==> in_degree@[i] == 0),
                forall|i: int| v <= i < n ==> #[trigger] pos[i] == -1,
                queued_count(pos, n as int) == queue@.len(),
                forall|k: int, b: int|
                    0 <= k < queue@.len() && #[trigger] depends_on(types, queue@[k] as int, b) ==> 0
                        <= pos[b] < k,
            decreases n - v,
        {
            if in_degree[v] == 0 {
                proof {
                    lemma_pending_zero(types, pos, 0, v as int, n as int);
                    let p = queue@.len() as int;
                    assert forall|i: int| 0 <= i < n implies in_degree@[i] == pending_deps(
                        types,
                        pos.update(v as int, p),
                        0,
                        i,
                        n as int,
                    ) by {
                        lemma_pending_enqueue(types, pos, 0, v as int, p, i, n as int);
                    }
                    lemma_queued_enqueue(pos, v as int, p, n as int);
                    pos = pos.update(v as int, p);
                }
                queue.push(v);
            }
            v += 1;
        }
        proof {
            lemma_queued_bound(pos, n as int);
        }
        let mut head: usize = 0;
        while head < queue.len()
            invariant
                n == types.len(),
                dep@.len() == n,
                forall|i: int| 0 <= i < n ==> (#[trigger] dep@[i])@.len() == n,
                forall|i: int, j: int|
                    0 <= i < n && 0 <= j < n ==> (#[trigger] dep@[i]@[j]) == depends_on(types, i, j),
                in_degree@.len() == n,
                pos.len() == n,
                head <= queue@.len(),
                queue@.len() <= n,
                forall|i: int|
                    0 <= i < n ==> #[trigger] in_degree@[i] == pending_deps(
                        types,
                        pos,
                        head as int,
                        i,
                        n as int,
                    ),
                forall|i: int| 0 <= i < n ==> -1 <= #[trigger] pos[i] < queue@.len(),
                forall|i: int| 0 <= i < n && #[trigger] pos[i] >= 0 ==> queue@[pos[i]] == i,
                forall|k: int|
                    0 <= k < queue@.len() ==> (#[trigger] queue@[k] as int) < n && pos[queue@[k] as int]
                        == k,
                forall|i: int| 0 <= i < n ==> (#[trigger] pos[i] >= 0 <==> in_degree@[i] == 0),
                queued_count(pos, n as int) == queue@.len(),
                forall|k: int, b: int|
                    0 <= k < queue@.len() && #[trigger] depends_on(types, queue@[k] as int, b) ==> 0
                        <= pos[b] < k,
            decreases n - head,
        {
            let cur = queue[head];
            proof {
                lemma_queued_bound(pos, n as int);
            }
            let ghost old_head = head as int;
            head += 1;
            let mut a: usize = 0;
            while a < n
                invariant
                    n == types.len(),
                    dep@.len() == n,
                    forall|i: int| 0 <= i < n ==> (#[trigger] dep@[i])@.len() == n,
                    forall|i: int, j: int|
                        0 <= i < n && 0 <= j < n ==> (#[trigger] dep@[i]@[j]) == depends_on(
                            types,
                            i,
                            j,
                        ),
                    in_degree@.len() == n,
                    pos.len() == n,
                    (cur as int) < n,
                    0 <= old_head < queue@.len(),
                    queue@[old_head] == cur,
                    head == old_head + 1,
                    pos[cur as int] == old_head,
                    head <= queue@.len(),
                    queue@.len() <= n,
                    a <= n,
                    forall|i: int|
                        0 <= i < a ==> #[trigger] in_degree@[i] == pending_deps(
                            types,
                            pos,
                            head as int,
                            i,
                            n as int,
                        ),
                    forall|i: int|
                        a <= i < n ==> #[trigger] in_degree@[i] == pending_deps(
                            types,
                            pos,
                            old_head,
                            i,
                            n as int,
                        ),
                    forall|i: int| 0 <= i < n ==> -1 <= #[trigger] pos[i] < queue@.len(),
                    forall|i: int| 0 <= i < n && #[trigger] pos[i] >= 0 ==> queue@[pos[i]] == i,
                forall|i: int| 0 <= i < n && #[trigger] pos[i] >= 0 ==> queue@[pos[i]] == i,
                    forall|k: int|
                        0 <= k < queue@.len() ==> (#[trigger] queue@[k] as int) < n && pos[queue@[k] as int]
                            == k,
                    forall|i: int| 0 <= i < n ==> (#[trigger] pos[i] >= 0 <==> in_degree@[i] == 0),
                    queued_count(pos, n as int) == queue@.len(),
                    forall|k: int, b: int|
                        0 <= k < queue@.len() && #[trigger] depends_on(types, queue@[k] as int, b)
                            ==> 0 <= pos[b] < k,
                decreases n - a,
            {
                proof {
                    assert forall|w: int| 0 <= w < n && w != cur implies pos[w] != old_head by {
                        if pos[w] == old_head {
                            assert(queue@[old_head] == cur);
                        }
                    }
                    lemma_pending_step(types, pos, old_head, cur as int, a as int, n as int);
                }
                if dep[a][cur] {
                    let d = in_degree[a] - 1;
                    in_degree.set(a, d);
                    if d == 0 {
                        proof {
                            lemma_pending_zero(types, pos, head as int, a as int, n as int);
                            let p = queue@.len() as int;
                            assert forall|i: int| 0 <= i < n implies in_degree@[i] == if i < a + 1 {
                                pending_deps(types, pos.update(a as int, p), head as int, i, n as int)
                            } else {
                                pending_deps(types, pos.update(a as int, p), old_head, i, n as int)
                            } by {
                                lemma_pending_enqueue(types, pos, head as int, a as int, p, i, n as int);
                                lemma_pending_enqueue(types, pos, old_head, a as int, p, i, n as int);
                            }
                            lemma_queued_enqueue(pos, a as int, p, n as int);
                            pos = pos.update(a as int, p);
                            lemma_queued_bound(pos, n as int);
                        }
                        queue.push(a);
                    }
                }
                a += 1;
            }
        }
        proof {
            lemma_queued_bound(pos, n as int);
        }
        if queue.len() == n {
            proof {
                lemma_queued_all(pos, n as int);
                assert forall|i: int, j: int| 0 <= i < j < n implies queue@[i] != queue@[j] by {
                    assert(pos[queue@[i] as int] == i);
                }
                assert forall|i: int, j: int| 0 <= i < j < queue@.len() implies !depends_on(
                    types,
                    queue@[i] as int,
                    queue@[j] as int,
                ) by {
                    if depends_on(types, queue@[i] as int, queue@[j] as int) {
                        assert(pos[queue@[j] as int] == j);
                    }
                }
            }
            queue
        } else {
            proof {
                lemma_queued_missing(pos, n as int);
                let set = Seq::new(n as nat, |w: int| pos[w] < 0);
                assert forall|w: int| 0 <= w < set.len() && #[trigger] set[w] implies exists|b: int|
                    0 <= b < set.len() && set[b] && depends_on(types, w, b) by {
                    lemma_pending_positive(types, pos, head as int, w, n as int);
                    let b = choose|b: int|
                        0 <= b < n && depends_on(types, w, b) && !(0 <= pos[b] < head);
                    assert(set[b]);
                }
                let w0 = choose|w: int| 0 <= w < n && pos[w] < 0;
                assert(set[w0]);
                assert(has_knot(types));
            }
            let mut order: Vec<usize> = Vec::new();
            let mut i: usize = 0;
            while i < n
                invariant
                    i <= n,
                    order@ == Seq::new(i as nat, |k: int| k as usize),
                decreases n - i,
            {
                order.push(i);
                i += 1;
                assert(order@ =~= Seq::new(i as nat, |k: int| k as usize));
            }
            order
        }
    }
}

/// The WGSL of all types in `order`: a header, then each definition followed by a blank
/// line.
pub open spec fn all_wgsl_text(types: Seq<GpuTypeInfo>, order: Seq<usize>) -> Seq<char>
    decreases order.len(),
{
    if order.len() == 0 {
        "// AUTO-GENERATED GPU TYPES - SINGLE SOURCE OF TRUTH\n"@
            + "// Generated from Rust type definitions\n\n"@
    } else {
        all_wgsl_text(types, order.drop_last()) + types[order.last() as int].wgsl_definition@
            + "\n\n"@
    }
}

impl UnifiedGpuSystem {
    /// The Rust type names in dependency order: every type after the types it depends on, or
    /// registration order where the dependencies have a knot.
    pub fn topological_sort_types(&self) -> (r: Vec<String>)
        ensures
            exists|order: Seq<usize>|
                {
                    &&& dependency_sorted(self.types@, order)
                    &&& r@.len() == order.len()
                    &&& forall|i: int|
                        0 <= i < order.len() ==> (#[trigger] r@[i])@ == self.types@[order[i] as int].rust_name@
                },
    {
        let order = self.topological_order();
        let mut names: Vec<String> = Vec::new();
        let mut i: usize = 0;
        while i < order.len()
            invariant
                dependency_sorted(self.types@, order@),
                i <= order@.len(),
                names@.len() == i,
                forall|k: int|
                    0 <= k < i ==> (#[trigger] names@[k])@ == self.types@[order@[k] as int].rust_name@,
            decreases order@.len() - i,
        {
            let t = order[i];
            names.push(self.types[t].rust_name.clone());
            i += 1;
        }
        names
    }

    /// The WGSL definitions of all types in dependency order, after a header.
    pub fn generate_all_wgsl(&self) -> (r: String)
        ensures
            exists|order: Seq<usize>|
                dependency_sorted(self.types@, order) && r@ == all_wgsl_text(self.types@, order),
    {
        let order = self.topological_order();
        let mut wgsl = String::from_str("// AUTO-GENERATED GPU TYPES - SINGLE SOURCE OF TRUTH\n");
        wgsl.append("// Generated from Rust type definitions\n\n");
        let mut i: usize = 0;
        while i < order.len()
            invariant
                dependency_sorted(self.types@, order@),
                i <= order@.len(),
                wgsl@ == all_wgsl_text(self.types@, order@.take(i as int)),
            decreases order@.len() - i,
        {
            let t = order[i];
            wgsl.append(self.types[t].wgsl_definition.as_str());
            wgsl.append("\n\n");
            proof {
                assert(order@.take(i + 1).drop_last() =~= order@.take(i as int));
            }
            i += 1;
        }
        proof {
            assert(order@.take(order@.len() as int) =~= order@);
        }
        wgsl
    }
}

/// What the `regex` crate's `Regex::new(pattern)` and `captures_iter(text)` give: for each
/// match, in order, the text of capture group 1 where that group took part; `None` where
/// the pattern does not compile.
pub uninterp spec fn regex_group_one(pattern: Seq<char>, text: Seq<char>) -> Option<Seq<Option<Seq<char>>>>;

/// Compiles `pattern` with `regex::Regex::new` and runs `captures_iter` over `text`,
/// converting each match's group 1 (`Captures::get(1)`) to a `String`. The contract claims
/// only that the result is a function of the pattern and the text, named
/// `regex_group_one`, and that a pattern that does not compile gives `None`.
#[verifier::external_body]
fn regex_captures(pattern: &str, text: &str) -> (r: Option<Vec<Option<String>>>)
    ensures
        match r {
            None => regex_group_one(pattern@, text@) is None,
            Some(v) => regex_group_one(pattern@, text@) matches Some(c) && v@.len() == c.len()
                && forall|i: int| 0 <= i < v@.len() ==> match #[trigger] v@[i] {
                    Some(x) => c[i] == Some(x@),
                    None => c[i] is None,
                },
        },
{
    match regex::Regex::new(pattern) {
        Ok(re) => Some(
            re.captures_iter(text).map(|capture| capture.get(1).map(|m| m.as_str().to_string())).collect(),
        ),
        Err(_) => None,
    }
}

/// The pattern of a shader entry point: the name after a `@vertex`, `@fragment` or
/// `@compute` attribute followed by `fn`.
pub open spec fn entry_point_pattern() -> Seq<char> {
    "@(?:vertex|fragment|compute)\\s+fn\\s+(\\w+)"@
}

/// The names among `caps` that are there, in order.
pub open spec fn present_names(caps: Seq<Option<Seq<char>>>) -> Seq<Seq<char>>
    decreases caps.len(),
{
    if caps.len() == 0 {
        Seq::empty()
    } else {
        match caps.last() {
            Some(n) => present_names(caps.drop_last()).push(n),
            None => present_names(caps.drop_last()),
        }
    }
}

/// The entry points found in a shader's code: the names that the entry-point pattern
/// captures, in order (none should the pattern not compile).
pub open spec fn shader_entry_points(code: Seq<char>) -> Seq<Seq<char>> {
    match regex_group_one(entry_point_pattern(), code) {
        Some(c) => present_names(c),
        None => Seq::empty(),
    }
}

/// The entry point names from the captures of the entry-point pattern: each captured name
/// in order; nothing when the pattern did not compile.
pub fn entry_points_from_captures(caps: Option<Vec<Option<String>>>) -> (r: Vec<String>)
    ensures
        match caps {
            None => r@.len() == 0,
            Some(v) => ({
                let names = present_names(v@.map_values(|o: Option<String>| match o {
                    Some(x) => Some(x@),
                    None => None,
                }));
                &&& r@.len() == names.len()
                &&& forall|i: int| 0 <= i < r@.len() ==> #[trigger] r@[i]@ == names[i]
            }),
        },
{
    let mut out: Vec<String> = Vec::new();
    match caps {
        None => out,
        Some(v) => {
            let ghost views = v@.map_values(|o: Option<String>| match o {
                Some(x) => Some(x@),
                None => None,
            });
            let mut k: usize = 0;
            while k < v.len()
                invariant
                    k <= v@.len(),
                    views == v@.map_values(|o: Option<String>| match o {
                        Some(x) => Some(x@),
                        None => None,
                    }),
                    out@.len() == present_names(views.take(k as int)).len(),
                    forall|i: int| 0 <= i < out@.len() ==> #[trigger] out@[i]@ == present_names(views.take(k as int))[i],
                decreases v@.len() - k,
            {
                assert(views.take(k + 1).drop_last() =~= views.take(k as int));
                match &v[k] {
                    Some(name) => {
                        out.push(name.clone());
                    },
                    None => {},
                }
                k += 1;
            }
            assert(views.take(v@.len() as int) =~= views);
            out
        },
    }
}

/// A binding of a shader, as the shader's metadata lists it.
pub struct BindingMetadata {
    pub group: u32,
    pub binding: u32,
    pub name: String,
    pub ty: String,
}

/// The bindings of `shader` among `slots` of the type named `wgsl_name`, in order, as
/// (group, binding, type name).
pub open spec fn slot_bindings(
    slots: Seq<BindingSlotInfo>,
    shader: Seq<char>,
    wgsl_name: Seq<char>,
) -> Seq<(u32, u32, Seq<char>)>
    decreases slots.len(),
{
    if slots.len() == 0 {
        Seq::empty()
    } else {
        let rest = slot_bindings(slots.drop_last(), shader, wgsl_name);
        if slots.last().shader@ == shader {
            rest.push((slots.last().group, slots.last().binding, wgsl_name))
        } else {
            rest
        }
    }
}

/// The bindings of `shader` over all types in registration order, each type's slots
/// in their order.
pub open spec fn shader_binding_list(types: Seq<GpuTypeInfo>, shader: Seq<char>) -> Seq<
    (u32, u32, Seq<char>),
>
    decreases types.len(),
{
    if types.len() == 0 {
        Seq::empty()
    } else {
        shader_binding_list(types.drop_last(), shader) + slot_bindings(
            types.last().bindings@,
            shader,
            types.last().wgsl_name@,
        )
    }
}

/// The (group, binding, name) of a binding's metadata.
pub open spec fn metadata_entry(b: BindingMetadata) -> (u32, u32, Seq<char>) {
    (b.group, b.binding, b.name@)
}

/// Whether `r` lists exactly `list`, each binding's type named as the binding.
pub open spec fn lists_bindings(r: Seq<BindingMetadata>, list: Seq<(u32, u32, Seq<char>)>) -> bool {
    &&& r.len() == list.len()
    &&& forall|k: int| 0 <= k < r.len() ==> #[trigger] metadata_entry(r[k]) == list[k]
    &&& forall|k: int| 0 <= k < r.len() ==> (#[trigger] r[k]).ty@ == r[k].name@
}

/// The metadata of a shader: its entry points and its bindings.
pub struct ShaderMetadata {
    pub entry_points: Vec<String>,
    pub bindings: Vec<BindingMetadata>,
}

impl UnifiedGpuSystem {
    /// The bindings that the types register for `shader_name`: type by type in
    /// registration order, each type's slots in order, named by the type's WGSL name.
    pub fn extract_bindings_from_system(&self, shader_name: &str) -> (r: Vec<BindingMetadata>)
        ensures
            lists_bindings(r@, shader_binding_list(self.types@, shader_name@)),
    {
        let mut r: Vec<BindingMetadata> = Vec::new();
        let mut i: usize = 0;
        while i < self.types.len()
            invariant
                i <= self.types@.len(),
                lists_bindings(r@, shader_binding_list(self.types@.take(i as int), shader_name@)),
            decreases self.types@.len() - i,
        {
            let info = &self.types[i];
            let ghost before = shader_binding_list(self.types@.take(i as int), shader_name@);
            let mut j: usize = 0;
            while j < info.bindings.len()
                invariant
                    j <= info.bindings@.len(),
                    lists_bindings(
                        r@,
                        before + slot_bindings(info.bindings@.take(j as int), shader_name@, info.wgsl_name@),
                    ),
                decreases info.bindings@.len() - j,
            {
                let slot = &info.bindings[j];
                proof {
                    assert(info.bindings@.take(j + 1).drop_last() =~= info.bindings@.take(j as int));
                    assert(info.bindings@.take(j + 1).last() == info.bindings@[j as int]);
                }
                if text_eq(slot.shader.as_str(), shader_name) {
                    let ghost prev = r@;
                    r.push(BindingMetadata {
                        group: slot.group,
                        binding: slot.binding,
                        name: info.wgsl_name.clone(),
                        ty: info.wgsl_name.clone(),
                    });
                    proof {
                        let list = before + slot_bindings(info.bindings@.take(j + 1), shader_name@, info.wgsl_name@);
                        let old_list = before + slot_bindings(info.bindings@.take(j as int), shader_name@, info.wgsl_name@);
                        assert(list =~= old_list.push((slot.group, slot.binding, info.wgsl_name@)));
                        assert forall|k: int| 0 <= k < r@.len() implies #[trigger] metadata_entry(r@[k]) == list[k] by {
                            if k < prev.len() {
                                assert(r@[k] == prev[k]);
                            }
                        }
                        assert forall|k: int| 0 <= k < r@.len() implies (#[trigger] r@[k]).ty@ == r@[k].name@ by {
                            if k < prev.len() {
                                assert(r@[k] == prev[k]);
                            }
                        }
                    }
                } else {
                    proof {
                        let list = before + slot_bindings(info.bindings@.take(j + 1), shader_name@, info.wgsl_name@);
                        let old_list = before + slot_bindings(info.bindings@.take(j as int), shader_name@, info.wgsl_name@);
                        assert(list =~= old_list);
                    }
                }
                j += 1;
            }
            proof {
                assert(info.bindings@.take(info.bindings@.len() as int) =~= info.bindings@);
                assert(self.types@.take(i + 1).drop_last() =~= self.types@.take(i as int));
                assert(self.types@.take(i + 1).last() == self.types@[i as int]);
            }
            i += 1;
        }
        proof {
            assert(self.types@.take(self.types@.len() as int) =~= self.types@);
        }
        r
    }

    /// The metadata of shader `shader_name` whose entry points are `entry_points`: those
    /// entry points and the bindings registered for the shader.
    pub fn shader_metadata_with(&self, shader_name: &str, entry_points: Vec<String>) -> (r: ShaderMetadata)
        ensures
            r.entry_points@ == entry_points@,
            lists_bindings(r.bindings@, shader_binding_list(self.types@, shader_name@)),
    {
        let bindings = self.extract_bindings_from_system(shader_name);
        ShaderMetadata { entry_points, bindings }
    }

    /// The metadata of shader `shader_name` from its processed code: the entry points
    /// found in the code and the bindings registered for the shader.
    pub fn shader_metadata(&self, shader_name: &str, processed_shader: &str) -> (r: ShaderMetadata)
        ensures
            r.entry_points@.len() == shader_entry_points(processed_shader@).len(),
            forall|i: int| 0 <= i < r.entry_points@.len() ==> #[trigger] r.entry_points@[i]@
                == shader_entry_points(processed_shader@)[i],
            lists_bindings(r.bindings@, shader_binding_list(self.types@, shader_name@)),
    {
        let pattern = "@(?:vertex|fragment|compute)\\s+fn\\s+(\\w+)";
        let caps = regex_captures(pattern, processed_shader);
        let ghost caps0 = caps;
        let entry_points = entry_points_from_captures(caps);
        proof {
            match caps0 {
                Some(v) => {
                    let c = regex_group_one(pattern@, processed_shader@)->0;
                    assert(v@.map_values(|o: Option<String>| match o {
                        Some(x) => Some(x@),
                        None => None,
                    }) =~= c);
                },
                None => {},
            }
        }
        self.shader_metadata_with(shader_name, entry_points)
    }
}

} // verus!
