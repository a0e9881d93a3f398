//! The repository operations against the in-memory conditional-write store.

use template::db::DynamoDbOperations;
use template::db::OperationResult;
use template::db::Repository;
use template::item::Item;

fn item(id: &str, name: &str, age: u32) -> Item {
    Item {
        id: id.to_string(),
        name: name.to_string(),
        age,
        deleted_at: None,
        deleted_by: None,
    }
}

fn repo() -> Repository<Item> {
    Repository::new(2)
}

#[test]
fn test_get_item() {
    let mut db = repo();
    let created = db.create(item("test_id", "test_name", 30));
    assert!(matches!(created, OperationResult::Success(None)));
    let result = db.get_item("test_id".to_string());
    match result {
        OperationResult::Success(Some(found)) => assert_eq!(found.name, "test_name"),
        _ => panic!("Expected Success with item"),
    }
}

#[test]
fn test_get_item_not_found() {
    let db = repo();
    let result = db.get_item("non_existing_id".to_string());
    assert!(matches!(result, OperationResult::ItemNotFound));
}

#[test]
fn test_create_item() {
    let mut db = repo();
    let result = db.create(item("new_id", "new_name", 25));
    assert!(matches!(result, OperationResult::Success(None)));
}

#[test]
fn test_create_item_fail() {
    let mut db = repo();
    let first = db.create(item("existing_id", "existing_name", 40));
    assert!(matches!(first, OperationResult::Success(None)));
    let result = db.create(item("existing_id", "existing_name", 40));
    assert!(matches!(result, OperationResult::ItemAlreadyExists));
}

#[test]
fn test_update_item() {
    let mut db = repo();
    let created = db.create(item("update_id", "old_name", 34));
    assert!(matches!(created, OperationResult::Success(None)));
    let result = db.update(item("update_id", "updated_name", 35));
    assert!(matches!(result, OperationResult::Success(None)));
    match db.get_item("update_id".to_string()) {
        OperationResult::Success(Some(found)) => {
            assert_eq!(found.name, "updated_name");
            assert_eq!(found.age, 35);
        }
        _ => panic!("Expected Success with item"),
    }
}

#[test]
fn test_delete_item() {
    let mut db = repo();
    let created = db.create(item("delete_id", "doomed", 20));
    assert!(matches!(created, OperationResult::Success(None)));
    let result = db.delete("delete_id".to_string());
    assert!(matches!(result, OperationResult::Success(None)));
    assert!(matches!(
        db.get_item("delete_id".to_string()),
        OperationResult::ItemNotFound
    ));
}

#[test]
fn test_soft_delete_item() {
    let mut db = repo();
    let created = db.create(item("soft_delete_id", "fading", 20));
    assert!(matches!(created, OperationResult::Success(None)));
    let result = db.soft_delete(
        "soft_delete_id".to_string(),
        "user_123".to_string(),
        "2023-06-01".to_string(),
    );
    assert!(matches!(result, OperationResult::Success(None)));
}

#[test]
fn test_scan_items() {
    let mut db = repo();
    db.create(item("id1", "name1", 30));
    db.create(item("id2", "name2", 40));
    let result = db.scan();
    match result {
        OperationResult::Success(Some(items)) => {
            assert_eq!(items.len(), 2);
            assert_eq!(items[0].name, "name1");
            assert_eq!(items[1].name, "name2");
        }
        _ => panic!("Expected Success with items"),
    }
}

#[test]
fn test_get_deleted_items_by_user() {
    let mut db = repo();
    db.create(item("del_id1", "del_name1", 50));
    db.create(item("del_id2", "del_name2", 60));
    db.soft_delete(
        "del_id1".to_string(),
        "user_456".to_string(),
        "2023-05-01".to_string(),
    );
    db.soft_delete(
        "del_id2".to_string(),
        "user_456".to_string(),
        "2023-05-02".to_string(),
    );
    let result = db.get_deleted_items_by_user("user_456".to_string());
    match result {
        OperationResult::Success(Some(items)) => {
            assert_eq!(items.len(), 2);
            assert_eq!(items[0].deleted_by, Some("user_456".to_string()));
            assert_eq!(items[1].deleted_by, Some("user_456".to_string()));
        }
        _ => panic!("Expected Success with items"),
    }
}

#[test]
fn test_get_deleted_items() {
    let mut db = repo();
    db.create(item("del_id1", "del_name1", 50));
    db.create(item("del_id2", "del_name2", 60));
    db.soft_delete(
        "del_id1".to_string(),
        "user_123".to_string(),
        "2023-05-01".to_string(),
    );
    db.soft_delete(
        "del_id2".to_string(),
        "user_456".to_string(),
        "2023-05-02".to_string(),
    );
    let result = db.get_deleted_items();
    match result {
        OperationResult::Success(Some(items)) => {
            assert_eq!(items.len(), 2);
            assert!(items[0].deleted_at.is_some());
            assert!(items[1].deleted_at.is_some());
        }
        _ => panic!("Expected Success with items"),
    }
}

#[test]
fn test_create_item_already_exists() {
    let mut db = repo();
    db.create(item("existing_id", "existing_name", 40));
    let result = db.create(item("existing_id", "existing_name", 40));
    assert!(matches!(result, OperationResult::ItemAlreadyExists));
}

#[test]
fn test_soft_delete_item_already_deleted() {
    let mut db = repo();
    db.create(item("soft_delete_id", "deleted_name", 35));
    let first = db.soft_delete(
        "soft_delete_id".to_string(),
        "user_123".to_string(),
        "2023-06-01".to_string(),
    );
    assert!(matches!(first, OperationResult::Success(None)));
    let second = db.soft_delete(
        "soft_delete_id".to_string(),
        "user_123".to_string(),
        "2023-06-02".to_string(),
    );
    assert!(matches!(second, OperationResult::ItemNotFound));
    match db.get_deleted_items() {
        OperationResult::Success(Some(items)) => {
            assert_eq!(items.len(), 1);
            assert_eq!(items[0].deleted_by, Some("user_123".to_string()));
            assert_eq!(items[0].deleted_at, Some("2023-06-01".to_string()));
        }
        _ => panic!("Expected Success with item"),
    }
}

#[test]
fn test_scan_items_empty() {
    let db = repo();
    match db.scan() {
        OperationResult::Success(Some(items)) => assert!(items.is_empty()),
        _ => panic!("Expected Success with empty items"),
    }
}

#[test]
fn test_get_deleted_items_by_user_empty() {
    let db = repo();
    match db.get_deleted_items_by_user("user_456".to_string()) {
        OperationResult::Success(Some(items)) => assert!(items.is_empty()),
        _ => panic!("Expected Success with empty items"),
    }
}

#[test]
fn test_get_deleted_items_empty() {
    let db = repo();
    match db.get_deleted_items() {
        OperationResult::Success(Some(items)) => assert!(items.is_empty()),
        _ => panic!("Expected Success with empty items"),
    }
}

#[test]
fn test_scan_spans_pages() {
    let mut db: Repository<Item> = Repository::new(2);
    for i in 0..5u32 {
        let created = db.create(item(&format!("page_id{}", i), &format!("page_name{}", i), i));
        assert!(matches!(created, OperationResult::Success(None)));
    }
    db.soft_delete(
        "page_id3".to_string(),
        "sweeper".to_string(),
        "2023-07-01".to_string(),
    );
    match db.scan() {
        OperationResult::Success(Some(items)) => {
            let mut ids: Vec<String> = items.iter().map(|t| t.id.clone()).collect();
            assert_eq!(ids.len(), 4);
            ids.sort();
            ids.dedup();
            assert_eq!(ids, vec!["page_id0", "page_id1", "page_id2", "page_id4"]);
        }
        _ => panic!("Expected Success with items"),
    }
}

#[test]
fn test_update_nonexistent_returns_not_found() {
    let mut db = repo();
    let result = db.update(item("ghost", "nobody", 1));
    assert!(matches!(result, OperationResult::ItemNotFound));
}

#[test]
fn test_update_tombstoned_returns_not_found() {
    let mut db = repo();
    db.create(item("gone", "was_here", 9));
    db.soft_delete(
        "gone".to_string(),
        "user_9".to_string(),
        "2023-08-01".to_string(),
    );
    let result = db.update(item("gone", "still_here", 10));
    assert!(matches!(result, OperationResult::ItemNotFound));
}

#[test]
fn test_delete_absent_key_is_idempotent() {
    let mut db = repo();
    let result = db.delete("never_there".to_string());
    assert!(matches!(result, OperationResult::Success(None)));
}
