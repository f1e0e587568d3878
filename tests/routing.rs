use web_samples::routing::{
    add_todo, delete_todo, get_todo, get_todos, parse_pagination, respond, route, todo_id, Method,
    Reply, Route,
};
use web_samples::text::{parse_usize, split_at_char, trim_text};
use web_samples::todo::{Pagination, TodoItem, TodoStore};

#[test]
fn routes_of_the_collection() {
    assert_eq!(route(Method::Get, "/todos"), Route::ListTodos);
    assert_eq!(route(Method::Get, "/todos/"), Route::ListTodos);
    assert_eq!(route(Method::Post, "/api/todos"), Route::AddTodo);
    assert_eq!(route(Method::Delete, "/todos"), Route::MethodNotAllowed);
}

#[test]
fn routes_of_an_entry() {
    assert_eq!(route(Method::Get, "/todos/42"), Route::GetTodo(42));
    assert_eq!(route(Method::Delete, "/todos/7"), Route::DeleteTodo(7));
    assert_eq!(route(Method::Patch, "/todos/7"), Route::MethodNotAllowed);
    assert_eq!(route(Method::Get, "/todos/abc"), Route::InvalidId);
    assert_eq!(route(Method::Get, "/todos/99999999999999999999999"), Route::InvalidId);
}

#[test]
fn routes_elsewhere() {
    assert_eq!(route(Method::Get, "/"), Route::NotFound);
    assert_eq!(route(Method::Get, "/heroes"), Route::NotFound);
    assert_eq!(route(Method::Get, ""), Route::NotFound);
}

#[test]
fn todo_id_takes_leftmost_digits() {
    assert_eq!(todo_id("/todos/12"), Some(12));
    assert_eq!(todo_id("/todos/12/notes"), Some(12));
    assert_eq!(todo_id("/todos/x/todos/5"), Some(5));
    assert_eq!(todo_id("/todos/"), None);
    assert_eq!(todo_id("/todo/3"), None);
}

#[test]
fn pagination_from_query() {
    assert_eq!(parse_pagination(""), Some(Pagination::new(None, None)));
    assert_eq!(parse_pagination("offset=10&limit=5"), Some(Pagination::new(Some(10), Some(5))));
    assert_eq!(parse_pagination("limit=3&&other=x"), Some(Pagination::new(None, Some(3))));
    assert_eq!(parse_pagination("offset=1&offset=2"), Some(Pagination::new(Some(2), None)));
    assert_eq!(parse_pagination("offset=1&offset=x"), Some(Pagination::new(None, None)));
    assert_eq!(parse_pagination("offset=1=2"), Some(Pagination::new(Some(1), None)));
}

#[test]
fn pagination_pair_without_value() {
    assert_eq!(parse_pagination("offset"), None);
    assert_eq!(parse_pagination("limit=1&x"), None);
}

#[test]
fn parse_usize_follows_std() {
    for text in ["0", "7", "+7", "007", "18446744073709551615", "", "+", "-1", " 1", "1a", "18446744073709551616"] {
        assert_eq!(parse_usize(text), text.parse::<usize>().ok(), "{text}");
    }
}

#[test]
fn split_follows_std() {
    for text in ["", "a", "a&b", "&", "a&&b&", "&x"] {
        let expected: Vec<&str> = text.split('&').collect();
        assert_eq!(split_at_char(text, '&'), expected);
    }
}

#[test]
fn trim_follows_std() {
    for text in ["", "  ", " a ", "a b", "\t\n x\u{3000}", "\u{a0}y\u{2029}", "z"] {
        assert_eq!(trim_text(text), text.trim());
    }
}

#[test]
fn handlers_on_a_store() {
    let mut store = TodoStore::new();
    let todo = TodoItem {
        title: "t".to_string(),
        notes: String::new(),
        assigned_to: String::new(),
        completed: false,
    };
    let added = add_todo(todo.clone(), &mut store);
    assert_eq!(added.id, 0);
    assert_eq!(get_todos(Pagination::default(), &store), vec![added.clone()]);
    assert_eq!(get_todo(0, &store), Some(&added));
    assert_eq!(delete_todo(0, &mut store), Some(added));
    assert_eq!(get_todo(0, &store), None);
    assert_eq!(delete_todo(0, &mut store), None);
}

fn sample(title: &str) -> TodoItem {
    TodoItem { title: title.to_string(), notes: String::new(), assigned_to: String::new(), completed: false }
}

#[test]
fn respond_adds_lists_gets_and_deletes() {
    let mut db = TodoStore::new();
    let added = respond(Route::AddTodo, Pagination::default(), Some(sample("a")), &mut db);
    assert_eq!(added.status, 200);
    assert!(added.save_store);
    let first = match added.reply {
        Reply::Item(x) => x,
        other => panic!("unexpected {other:?}"),
    };
    assert_eq!(first.id, 0);
    respond(Route::AddTodo, Pagination::default(), Some(sample("b")), &mut db);

    let listed = respond(Route::ListTodos, Pagination::new(Some(1), None), None, &mut db);
    assert_eq!(listed.status, 200);
    assert!(!listed.save_store);
    match listed.reply {
        Reply::Items(v) => assert_eq!(v.iter().map(|t| t.id).collect::<Vec<_>>(), vec![1]),
        other => panic!("unexpected {other:?}"),
    }

    let got = respond(Route::GetTodo(0), Pagination::default(), None, &mut db);
    assert_eq!(got.status, 200);
    assert_eq!(got.reply, Reply::Item(first));
    let missing = respond(Route::GetTodo(9), Pagination::default(), None, &mut db);
    assert_eq!((missing.status, missing.reply), (404, Reply::Empty));

    let deleted = respond(Route::DeleteTodo(0), Pagination::default(), None, &mut db);
    assert_eq!((deleted.status, deleted.save_store), (204, true));
    let again = respond(Route::DeleteTodo(0), Pagination::default(), None, &mut db);
    assert_eq!((again.status, again.save_store), (404, true));
    assert_eq!(db.len(), 1);
}

#[test]
fn respond_to_bad_requests() {
    let mut db = TodoStore::new();
    assert_eq!(respond(Route::AddTodo, Pagination::default(), None, &mut db).status, 400);
    assert_eq!(respond(Route::MethodNotAllowed, Pagination::default(), None, &mut db).status, 405);
    assert_eq!(respond(Route::InvalidId, Pagination::default(), None, &mut db).status, 400);
    assert_eq!(respond(Route::NotFound, Pagination::default(), None, &mut db).status, 404);
    assert_eq!(db.len(), 0);
}
