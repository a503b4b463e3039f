use hearth_engine::unified_system::{
    entry_points_from_captures,    wgsl_type_for_rust_name, BindingAccess, BindingSlotInfo, FieldOffset, GpuTypeInfo,
    LayoutInfo, UnifiedGpuSystem,
};

fn field(name: &str, offset: u64, size: u64, ty: &str) -> FieldOffset {
    FieldOffset { name: name.to_string(), offset, size, ty: ty.to_string() }
}

fn type_info(rust: &str, wgsl: &str, def: &str, fields: Vec<FieldOffset>, bindings: Vec<BindingSlotInfo>) -> GpuTypeInfo {
    GpuTypeInfo {
        rust_name: rust.to_string(),
        wgsl_name: wgsl.to_string(),
        wgsl_definition: def.to_string(),
        layout: LayoutInfo { size: 32, alignment: 16, stride: 32, fields },
        bindings,
    }
}

fn unified_vertex() -> GpuTypeInfo {
    type_info(
        "tests::UnifiedVertex",
        "UnifiedVertex",
        "struct UnifiedVertex {\n    position: vec3<f32>,\n    normal: vec3<f32>,\n    uv: vec2<f32>,\n}\n",
        vec![
            field("position", 0, 12, "[f32; 3]"),
            field("normal", 16, 12, "[f32; 3]"),
            field("uv", 32, 8, "[f32; 2]"),
        ],
        vec![],
    )
}

#[test]
fn test_unified_system() {
    let mut system = UnifiedGpuSystem::new();
    system.register_type(unified_vertex());
    let wgsl = system.generate_all_wgsl();
    assert!(wgsl.contains("struct UnifiedVertex"));
    let constants = system.generate_layout_constants();
    assert!(constants.contains("UNIFIEDVERTEX_SIZE"));
    assert!(system.validate_all().is_ok());
}

#[test]
fn dependencies_come_first() {
    let mut system = UnifiedGpuSystem::new();
    system.register_type(type_info("a::Mesh", "Mesh", "struct Mesh {\n    v: array<Vertex, 4>,\n}\n", vec![], vec![]));
    system.register_type(type_info("a::Vertex", "Vertex", "struct Vertex {\n    p: vec3<f32>,\n}\n", vec![], vec![]));
    assert_eq!(system.topological_sort_types(), vec!["a::Vertex".to_string(), "a::Mesh".to_string()]);
    let wgsl = system.generate_all_wgsl();
    assert!(wgsl.find("struct Vertex").unwrap() < wgsl.find("struct Mesh").unwrap());
}

#[test]
fn a_dependency_cycle_keeps_registration_order() {
    let mut system = UnifiedGpuSystem::new();
    system.register_type(type_info("a::A", "A", "struct A { b: B }", vec![], vec![]));
    system.register_type(type_info("a::B", "B", "struct B { a: A }", vec![], vec![]));
    assert_eq!(system.topological_sort_types(), vec!["a::A".to_string(), "a::B".to_string()]);
}

#[test]
fn overlapping_fields_are_reported() {
    let mut system = UnifiedGpuSystem::new();
    system.register_type(type_info(
        "a::Bad",
        "Bad",
        "",
        vec![field("x", 0, 8, "u64"), field("y", 4, 4, "u32")],
        vec![],
    ));
    let errors = system.validate_all().unwrap_err();
    assert_eq!(
        errors,
        vec!["Type a::Bad: field y overlaps previous field (offset: 4, last_offset: 8)".to_string()]
    );
}

#[test]
fn layout_constants_text() {
    let mut system = UnifiedGpuSystem::new();
    system.register_type(type_info("a::Cam", "Cam", "", vec![field("fov", 0, 4, "f32")], vec![]));
    assert_eq!(
        system.generate_layout_constants(),
        "// AUTO-GENERATED MEMORY LAYOUT CONSTANTS\n\n\
         // a::Cam\n\
         pub const CAM_SIZE: u64 = 32;\n\
         pub const CAM_ALIGNMENT: u64 = 16;\n\
         pub const CAM_STRIDE: u64 = 32;\n\
         \npub mod cam_offsets {\n    pub const FOV: u64 = 0; // f32\n}\n\n"
    );
}

#[test]
fn shader_bindings_named_and_generic() {
    let mut system = UnifiedGpuSystem::new();
    assert_eq!(
        system.generate_shader_bindings("ambient_occlusion"),
        "// Bindings for shader: ambient_occlusion\n\
         @group(0) @binding(0) var<storage, read> world_data: array<u32>;\n\
         @group(0) @binding(1) var<storage, read_write> ao_data: array<f32>;\n"
    );
    assert_eq!(
        system.generate_shader_bindings("hierarchical_physics"),
        "// Bindings for shader: hierarchical_physics\n"
    );
    let slot = |g: u32, b: u32, access: BindingAccess| BindingSlotInfo {
        shader: "lights".to_string(),
        group: g,
        binding: b,
        access,
    };
    system.register_type(type_info("a::Light", "Light", "", vec![], vec![slot(1, 0, BindingAccess::ReadOnly)]));
    system.register_type(type_info("a::Params", "Params", "", vec![], vec![slot(0, 2, BindingAccess::Uniform)]));
    assert_eq!(
        system.generate_shader_bindings("lights"),
        "// Bindings for shader: lights\n\
         @group(0) @binding(2) var<uniform> params: Params;\n\
         @group(1) @binding(0) var<storage, read> light: Light;\n"
    );
}

#[test]
fn rust_scalar_names_map_to_wgsl() {
    assert_eq!(wgsl_type_for_rust_name("[f32; 3]"), "vec3<f32>");
    assert_eq!(wgsl_type_for_rust_name("u32"), "u32");
    assert_eq!(wgsl_type_for_rust_name("f64"), "unknown");
}

fn slot(shader: &str, group: u32, binding: u32) -> BindingSlotInfo {
    BindingSlotInfo { shader: shader.to_string(), group, binding, access: BindingAccess::ReadOnly }
}

#[test]
fn shader_metadata_lists_entry_points_and_bindings() {
    let mut system = UnifiedGpuSystem::new();
    system.register_type(type_info("a::Camera", "Camera", "struct Camera {}", vec![], vec![slot("render", 0, 0), slot("cull", 1, 0)]));
    system.register_type(type_info("a::Light", "Light", "struct Light {}", vec![], vec![slot("render", 0, 2)]));
    let code = "@vertex fn vs_main() {}\n@fragment\n  fn fs_main() {}\nfn helper() {}\n@compute fn cs_main() {}";
    let meta = system.shader_metadata("render", code);
    assert_eq!(meta.entry_points, vec!["vs_main".to_string(), "fs_main".to_string(), "cs_main".to_string()]);
    assert_eq!(meta.bindings.len(), 2);
    assert_eq!((meta.bindings[0].group, meta.bindings[0].binding), (0, 0));
    assert_eq!(meta.bindings[0].name, "Camera");
    assert_eq!(meta.bindings[0].ty, "Camera");
    assert_eq!((meta.bindings[1].group, meta.bindings[1].binding), (0, 2));
    assert_eq!(meta.bindings[1].name, "Light");
    let cull = system.extract_bindings_from_system("cull");
    assert_eq!(cull.len(), 1);
    assert_eq!((cull[0].group, cull[0].binding), (1, 0));
    assert!(system.shader_metadata("none", "fn main() {}").entry_points.is_empty());
}

#[test]
fn entry_points_keep_the_captured_names_in_order() {
    assert!(entry_points_from_captures(None).is_empty());
    let caps = Some(vec![Some("vs_main".to_string()), None, Some("fs_main".to_string())]);
    assert_eq!(entry_points_from_captures(caps), vec!["vs_main".to_string(), "fs_main".to_string()]);
}
