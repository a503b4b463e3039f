use hearth_engine::instance::{
    InstanceId, InstanceManagerData, InstanceQuery, InstanceType, MetadataStore, MetadataValue,
    QueryExecutor, QueryFilter,
};

#[test]
fn test_query_builder() {
    let query = InstanceQuery::new()
        .with_type(InstanceType::Static)
        .active()
        .has_metadata("name")
        .build();
    assert!(query.is_some());
}

#[test]
fn test_query_execution() {
    let creator = InstanceId::new();
    let id1 = InstanceId::new();
    let id2 = InstanceId::new();
    let data = InstanceManagerData {
        ids: vec![id1, id2],
        types: vec![InstanceType::Static, InstanceType::Dynamic],
        active: vec![true, true],
        created_at: vec![0, 0],
        created_by: vec![creator, creator],
    };
    let mut metadata = MetadataStore::new();
    metadata
        .set(id1, "name", MetadataValue::String("Sword".to_string()))
        .expect("Failed to set metadata");

    let executor = QueryExecutor::new(&data, &metadata);
    let filter = QueryFilter::And(
        Box::new(QueryFilter::Type(InstanceType::Static)),
        Box::new(QueryFilter::HasMetadata("name")),
    );
    let result = executor.execute(Some(&filter));
    assert_eq!(result.indices.len(), 1);
    assert_eq!(result.indices[0], 0);
}

#[test]
fn empty_query_builds_nothing_and_selects_all() {
    assert!(InstanceQuery::new().build().is_none());
    let data = InstanceManagerData {
        ids: vec![InstanceId(1), InstanceId(2), InstanceId(3)],
        types: vec![InstanceType::Static; 3],
        active: vec![true, false, true],
        created_at: vec![5, 10, 15],
        created_by: vec![InstanceId(9); 3],
    };
    let metadata = MetadataStore::new();
    let executor = QueryExecutor::new(&data, &metadata);
    assert_eq!(executor.execute(None).indices, vec![0, 1, 2]);
    let filter = QueryFilter::Not(Box::new(QueryFilter::Active(true)));
    assert_eq!(executor.execute(Some(&filter)).indices, vec![1]);
    let filter = QueryFilter::CreatedBetween(6, 15);
    assert_eq!(executor.count(Some(&filter)), 2);
}

#[test]
fn metadata_set_overwrites_the_value_of_its_key() {
    let mut metadata = MetadataStore::new();
    let a = InstanceId(1);
    let b = InstanceId(2);
    assert!(metadata.get(&a, "hp").is_none());
    metadata.set(a, "hp", MetadataValue::I32(10)).expect("set");
    metadata.set(b, "hp", MetadataValue::I32(7)).expect("set");
    metadata.set(a, "name", MetadataValue::String("Axe".to_string())).expect("set");
    metadata.set(a, "hp", MetadataValue::I32(3)).expect("set");
    assert!(matches!(metadata.get(&a, "hp"), Some(MetadataValue::I32(3))));
    assert!(matches!(metadata.get(&b, "hp"), Some(MetadataValue::I32(7))));
    assert!(matches!(metadata.get(&a, "name"), Some(MetadataValue::String(s)) if s == "Axe"));
    assert!(metadata.get(&b, "name").is_none());
}

#[test]
fn a_short_column_leaves_later_instances_unfiltered() {
    let data = InstanceManagerData {
        ids: vec![InstanceId(1), InstanceId(2), InstanceId(3)],
        types: vec![InstanceType::Static],
        active: vec![true, false, true],
        created_at: vec![5, 10, 15],
        created_by: vec![InstanceId(9); 3],
    };
    let metadata = MetadataStore::new();
    let executor = QueryExecutor::new(&data, &metadata);
    let by_type = executor.execute(Some(&QueryFilter::Type(InstanceType::Dynamic)));
    assert_eq!(by_type.indices, vec![1, 2]);
    let active = executor.execute(Some(&QueryFilter::Active(true)));
    assert_eq!(active.indices, vec![0, 2]);
}
