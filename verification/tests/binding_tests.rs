use hearth_engine::binding_manager::{
    generate_group_wgsl, BindingKind, BindingRegistry, ShaderStages,
};

#[test]
fn test_binding_registration() {
    let mut registry = BindingRegistry::new();

    let binding1 = registry.register_binding(
        0,
        "camera".to_string(),
        BindingKind::UniformBuffer,
        ShaderStages::vertex().union(ShaderStages::fragment()),
    );
    let binding2 = registry.register_binding(
        0,
        "instances".to_string(),
        BindingKind::StorageBuffer { read_only: true },
        ShaderStages::vertex(),
    );

    // Bindings should be sequential
    assert_eq!(binding1, 0);
    assert_eq!(binding2, 1);

    // Re-registering should return same index
    let binding1_again = registry.register_binding(
        0,
        "camera".to_string(),
        BindingKind::UniformBuffer,
        ShaderStages::vertex().union(ShaderStages::fragment()),
    );
    assert_eq!(binding1_again, binding1);
}

#[test]
fn test_wgsl_generation() {
    let mut registry = BindingRegistry::new();
    registry.register_binding(
        0,
        "world_data".to_string(),
        BindingKind::StorageBuffer { read_only: false },
        ShaderStages::compute(),
    );
    let wgsl = registry.generate_wgsl_bindings(0);
    assert!(wgsl.contains("@group(0) @binding(0)"));
    assert!(wgsl.contains("var<storage, read_write>"));
    assert!(wgsl.contains("world_data"));
}

#[test]
fn declarations_are_exact_and_per_group() {
    let mut registry = BindingRegistry::new();
    registry.register_binding(1, "Main Camera".to_string(), BindingKind::UniformBuffer, ShaderStages::vertex());
    registry.register_binding(0, "atlas".to_string(), BindingKind::Texture, ShaderStages::fragment());
    registry.register_binding(1, "instance data".to_string(), BindingKind::StorageBuffer { read_only: true }, ShaderStages::vertex());
    registry.register_binding(1, "smp".to_string(), BindingKind::Sampler, ShaderStages::fragment());
    assert_eq!(
        generate_group_wgsl(&registry, 1),
        "@group(1) @binding(0) var main_camera: array<vec4<f32>>;\n\
         @group(1) @binding(1) var<storage, read> instance_data: array<InstanceData>;\n\
         @group(1) @binding(2) var smp: sampler;\n"
    );
    assert_eq!(
        registry.generate_wgsl_bindings(0),
        "@group(0) @binding(0) var atlas: texture_2d<f32>;\n"
    );
    assert_eq!(registry.generate_wgsl_bindings(5), "");
    let infos = registry.get_group_bindings(1);
    assert_eq!(infos.iter().map(|i| i.binding).collect::<Vec<_>>(), vec![0, 1, 2]);
}

#[test]
fn same_name_in_other_stage_is_another_binding() {
    let mut registry = BindingRegistry::new();
    let a = registry.register_binding(2, "camera".to_string(), BindingKind::UniformBuffer, ShaderStages::vertex());
    let b = registry.register_binding(2, "camera".to_string(), BindingKind::UniformBuffer, ShaderStages::fragment());
    let c = registry.register_binding(3, "camera".to_string(), BindingKind::UniformBuffer, ShaderStages::vertex());
    assert_eq!((a, b, c), (0, 1, 0));
    assert!(registry.generate_wgsl_bindings(2).contains("camera: CameraUniform;"));
}
