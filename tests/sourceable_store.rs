use graph_core::store::{
    BlockPtr, EntitySubgraphOperation, EntityWithType, MockSourcableStore, Value,
};
use graph_core::triggers::{SubgraphFilter, TriggersAdapterWrapper};

fn user(id: &str, name: &str, age: i32, vid: i64) -> EntityWithType {
    EntityWithType {
        entity_type: "User".to_string(),
        entity: vec![
            ("id".to_string(), Value::String(id.to_string())),
            ("name".to_string(), Value::String(name.to_string())),
            ("age".to_string(), Value::Int(age)),
        ],
        entity_op: EntitySubgraphOperation::Create,
        vid,
    }
}

fn store() -> MockSourcableStore {
    MockSourcableStore::new(
        vec![(1, vec![user("user1", "Alice", 30, 1)]), (2, vec![user("user2", "Bob", 25, 2)])],
        Some(BlockPtr { hash: vec![0u8; 32], number: 0 }),
    )
}

fn keys(r: &[(i32, Vec<EntityWithType>)]) -> Vec<(i32, Vec<i64>)> {
    r.iter().map(|(b, es)| (*b, es.iter().map(|e| e.vid).collect())).collect()
}

#[test]
fn test_triggers_adapter_with_entities() {
    let wrapper = TriggersAdapterWrapper::new(vec![("test_deployment".to_string(), store())]);
    let filter = SubgraphFilter {
        subgraph: "test_deployment".to_string(),
        start_block: 0,
        entities: vec!["User".to_string()],
    };
    let blocks = wrapper.blocks_with_subgraph_triggers(&filter, 1, 2);
    assert!(!blocks.is_empty(), "Should have found blocks with triggers");
    let got: Vec<(i32, Vec<i64>)> =
        blocks.iter().map(|b| (b.number, b.triggers.iter().map(|e| e.vid).collect())).collect();
    assert_eq!(got, vec![(1, vec![1]), (2, vec![2])]);
    assert_eq!(blocks[0].triggers[0].entity[0].1, Value::String("user1".to_string()));
}

#[test]
fn wrapper_filters_by_type_start_block_and_deployment() {
    let wrapper = TriggersAdapterWrapper::new(vec![("test_deployment".to_string(), store())]);
    let mut filter = SubgraphFilter {
        subgraph: "test_deployment".to_string(),
        start_block: 2,
        entities: vec!["User".to_string()],
    };
    let blocks = wrapper.blocks_with_subgraph_triggers(&filter, 1, 2);
    assert_eq!(blocks.len(), 1);
    assert_eq!(blocks[0].number, 2);
    filter.start_block = 0;
    filter.entities = vec!["Post".to_string()];
    assert!(wrapper.blocks_with_subgraph_triggers(&filter, 1, 2).is_empty());
    filter.entities = vec!["User".to_string()];
    assert!(wrapper.blocks_with_subgraph_triggers(&filter, 2, 1).is_empty());
    filter.subgraph = "other".to_string();
    assert!(wrapper.blocks_with_subgraph_triggers(&filter, 1, 2).is_empty());
}

#[test]
fn get_range_returns_both_users() {
    let s = store();
    let blocks = s.get_range(1, 3);
    assert!(!blocks.is_empty(), "Should have found blocks with triggers");
    assert_eq!(keys(&blocks), vec![(1, vec![1]), (2, vec![2])]);
    assert_eq!(blocks[0].1[0].entity[1].1, Value::String("Alice".to_string()));
    assert_eq!(blocks[1].1[0].entity[2].1, Value::Int(25));
}

#[test]
fn get_range_is_half_open() {
    let s = store();
    assert_eq!(keys(&s.get_range(1, 2)), vec![(1, vec![1])]);
    assert_eq!(keys(&s.get_range(2, 2)), vec![]);
    assert_eq!(keys(&s.get_range(5, 1)), vec![]);
}

#[test]
fn sub_range_is_restriction_of_range() {
    let s = store();
    let wide = s.get_range(0, 10);
    let narrow = s.get_range(2, 3);
    let cut: Vec<(i32, Vec<i64>)> =
        keys(&wide).into_iter().filter(|(b, _)| *b >= 2 && *b < 3).collect();
    assert_eq!(keys(&narrow), cut);
}

#[test]
fn block_ptr_can_be_set_and_cleared() {
    let mut s = store();
    s.set_block_ptr(BlockPtr { hash: vec![1], number: 7 });
    assert_eq!(s.block_ptr, Some(BlockPtr { hash: vec![1], number: 7 }));
    s.clear_block_ptr();
    assert_eq!(s.block_ptr, None);
}
