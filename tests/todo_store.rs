use web_samples::todo::{
    IdentifyableTodoItem, Pagination, TodoItem, TodoStore, TodoStoreError, UpdateTodoItem,
};

fn item(title: &str) -> TodoItem {
    TodoItem {
        title: title.to_string(),
        notes: format!("notes of {title}"),
        assigned_to: "Rainer".to_string(),
        completed: false,
    }
}

fn store_with(n: usize) -> TodoStore {
    let mut store = TodoStore::default();
    for i in 0..n {
        store.add_todo(item(&format!("todo {i}")));
    }
    store
}

#[test]
fn add_assigns_increasing_ids() {
    let mut store = TodoStore::new();
    let a = store.add_todo(item("a"));
    let b = store.add_todo(item("b"));
    assert_eq!(a.id, 0);
    assert_eq!(b.id, 1);
    assert_eq!(b.item, item("b"));
    assert_eq!(store.next_id(), 2);
    assert_eq!(store.len(), 2);
}

#[test]
fn ids_are_not_reused_after_removal() {
    let mut store = store_with(2);
    assert!(store.remove_todo(1).is_some());
    let c = store.add_todo(item("c"));
    assert_eq!(c.id, 2);
}

#[test]
fn get_todo_finds_by_id() {
    let store = store_with(3);
    let found = store.get_todo(1).unwrap();
    assert_eq!(found, &IdentifyableTodoItem::new(1, item("todo 1")));
    assert!(store.get_todo(3).is_none());
}

#[test]
fn get_todos_without_pagination_lists_all_in_id_order() {
    let store = store_with(4);
    let all = store.get_todos(Pagination::default());
    let ids: Vec<usize> = all.iter().map(|t| t.id).collect();
    assert_eq!(ids, vec![0, 1, 2, 3]);
}

#[test]
fn get_todos_applies_offset_and_limit() {
    let store = store_with(5);
    let ids: Vec<usize> =
        store.get_todos(Pagination::new(Some(1), Some(2))).iter().map(|t| t.id).collect();
    assert_eq!(ids, vec![1, 2]);
    let ids: Vec<usize> = store.get_todos(Pagination::new(Some(3), None)).iter().map(|t| t.id).collect();
    assert_eq!(ids, vec![3, 4]);
    let ids: Vec<usize> = store.get_todos(Pagination::new(None, Some(1))).iter().map(|t| t.id).collect();
    assert_eq!(ids, vec![0]);
}

#[test]
fn get_todos_past_the_end_is_empty() {
    let store = store_with(3);
    assert!(store.get_todos(Pagination::new(Some(3), None)).is_empty());
    assert!(store.get_todos(Pagination::new(Some(usize::MAX), Some(usize::MAX))).is_empty());
    assert!(store.get_todos(Pagination::new(Some(0), Some(0))).is_empty());
    assert_eq!(store.get_todos(Pagination::new(Some(2), Some(usize::MAX))).len(), 1);
}

#[test]
fn get_todos_on_empty_store() {
    let store = TodoStore::default();
    assert!(store.get_todos(Pagination::new(Some(1), Some(1))).is_empty());
}

#[test]
fn remove_todo_returns_the_entry() {
    let mut store = store_with(3);
    let removed = store.remove_todo(1).unwrap();
    assert_eq!(removed, IdentifyableTodoItem::new(1, item("todo 1")));
    assert!(store.get_todo(1).is_none());
    assert_eq!(store.len(), 2);
    assert!(store.remove_todo(1).is_none());
    assert_eq!(store.len(), 2);
}

#[test]
fn update_todo_replaces_present_fields_only() {
    let mut store = store_with(2);
    let update = UpdateTodoItem {
        title: Some("new title".to_string()),
        notes: None,
        assigned_to: Some("Someone".to_string()),
        completed: Some(true),
    };
    let updated = store.update_todo(&1, update).unwrap().clone();
    assert_eq!(updated.id, 1);
    assert_eq!(updated.item.title, "new title");
    assert_eq!(updated.item.notes, "notes of todo 1");
    assert_eq!(updated.item.assigned_to, "Someone");
    assert!(updated.item.completed);
    assert_eq!(store.get_todo(1).unwrap(), &updated);
    assert_eq!(store.get_todo(0).unwrap().item, item("todo 0"));
}

#[test]
fn update_todo_with_nothing_keeps_entry() {
    let mut store = store_with(1);
    let update = UpdateTodoItem { title: None, notes: None, assigned_to: None, completed: None };
    let updated = store.update_todo(&0, update).unwrap().clone();
    assert_eq!(updated.item, item("todo 0"));
}

#[test]
fn update_todo_of_missing_id() {
    let mut store = store_with(1);
    let update = UpdateTodoItem { title: Some("x".to_string()), notes: None, assigned_to: None, completed: None };
    assert!(store.update_todo(&7, update).is_none());
    assert_eq!(store.get_todo(0).unwrap().item, item("todo 0"));
}

#[test]
fn store_error_messages() {
    let io = TodoStoreError::from(std::io::Error::new(std::io::ErrorKind::Other, "disk full"));
    assert_eq!(io.description(), "persistent data store error");
    assert_eq!(io.response_message(), "Error while writing to file");
    let json = TodoStoreError::from(serde_json::from_str::<u8>("x").unwrap_err());
    assert_eq!(json.description(), "serialization error");
    assert_eq!(json.response_message(), "Error during serialization");
}

#[test]
fn from_items_orders_by_id_and_keeps_last_duplicate() {
    let items = vec![
        IdentifyableTodoItem::new(3, item("a")),
        IdentifyableTodoItem::new(1, item("b")),
        IdentifyableTodoItem::new(3, item("c")),
    ];
    let mut store = TodoStore::from_items(items).unwrap();
    let listed = store.get_todos(Pagination::default());
    assert_eq!(listed, vec![IdentifyableTodoItem::new(1, item("b")), IdentifyableTodoItem::new(3, item("c"))]);
    assert_eq!(store.next_id(), 4);
    assert_eq!(store.add_todo(item("d")).id, 4);
}

#[test]
fn from_items_empty() {
    let store = TodoStore::from_items(Vec::new()).unwrap();
    assert_eq!(store.len(), 0);
    assert_eq!(store.next_id(), 0);
}

#[test]
fn from_items_with_largest_id() {
    let items = vec![IdentifyableTodoItem::new(usize::MAX, item("a"))];
    assert!(TodoStore::from_items(items).is_none());
    let items = vec![IdentifyableTodoItem::new(usize::MAX - 1, item("a"))];
    assert_eq!(TodoStore::from_items(items).unwrap().next_id(), usize::MAX);
}
