use vstd::prelude::*;

use crate::text::{
    find_run, first_run, parse_usize, parsed_usize, same_text, split, split_at_char, ends_with,
    starts_with, text_ends_with, text_starts_with, CharClass,
};
use crate::todo::{page, has_id, IdentifyableTodoItem, Pagination, TodoItem, TodoStore};

verus! {

/// The request methods that the todo routes tell apart.
#[derive(Debug, PartialEq, Eq, Clone, Copy)]
pub enum Method {
    Get,
    Post,
    Put,
    Patch,
    Delete,
    Other,
}

/// What a request to the todo service asks for.
#[derive(Debug, PartialEq, Eq, Clone, Copy)]
pub enum Route {
    ListTodos,
    AddTodo,
    GetTodo(usize),
    DeleteTodo(usize),
    /// The path names a resource that does not take the method.
    MethodNotAllowed,
    /// The path names an entry, but holds no identifier that fits in a `usize`.
    InvalidId,
    NotFound,
}

pub open spec fn todos_path() -> Seq<char> {
    seq!['/', 't', 'o', 'd', 'o', 's']
}

pub open spec fn todos_prefix() -> Seq<char> {
    seq!['/', 't', 'o', 'd', 'o', 's', '/']
}

/// The identifier in a path: the digits after the leftmost `/todos/` that digits follow.
pub open spec fn path_id(p: Seq<char>) -> Option<usize> {
    match first_run(p, todos_prefix(), CharClass::Digit) {
        Some(d) => parsed_usize(d),
        None => None,
    }
}

pub open spec fn route_of(m: Method, p: Seq<char>) -> Route {
    if ends_with(p, todos_path()) || ends_with(p, todos_prefix()) {
        match m {
            Method::Get => Route::ListTodos,
            Method::Post => Route::AddTodo,
            _ => Route::MethodNotAllowed,
        }
    } else if starts_with(p, todos_prefix()) {
        match path_id(p) {
            None => Route::InvalidId,
            Some(id) => match m {
                Method::Get => Route::GetTodo(id),
                Method::Delete => Route::DeleteTodo(id),
                _ => Route::MethodNotAllowed,
            },
        }
    } else {
        Route::NotFound
    }
}

/// The identifier that a path such as `/todos/42` names.
pub fn todo_id(path: &str) -> (r: Option<usize>)
    ensures
        r == path_id(path@),
{
    let tag = "/todos/";
    proof {
        reveal_strlit("/todos/");
    }
    assert(tag@ =~= todos_prefix());
    match find_run(path, tag, CharClass::Digit) {
        Some((a, b)) => {
            let digits = path.substring_char(a, b);
            parse_usize(digits)
        },
        None => None,
    }
}

/// Decides what a request with `method` on `path` asks for.
pub fn route(method: Method, path: &str) -> (r: Route)
    ensures
        r == route_of(method, path@),
{
    let plain = "/todos";
    let prefix = "/todos/";
    proof {
        reveal_strlit("/todos");
        reveal_strlit("/todos/");
    }
    assert(plain@ =~= todos_path());
    assert(prefix@ =~= todos_prefix());
    if text_ends_with(path, plain) || text_ends_with(path, prefix) {
        match method {
            Method::Get => Route::ListTodos,
            Method::Post => Route::AddTodo,
            _ => Route::MethodNotAllowed,
        }
    } else if text_starts_with(path, prefix) {
        match todo_id(path) {
            None => Route::InvalidId,
            Some(id) => match method {
                Method::Get => Route::GetTodo(id),
                Method::Delete => Route::DeleteTodo(id),
                _ => Route::MethodNotAllowed,
            },
        }
    } else {
        Route::NotFound
    }
}

pub open spec fn offset_key() -> Seq<char> {
    seq!['o', 'f', 'f', 's', 'e', 't']
}

pub open spec fn limit_key() -> Seq<char> {
    seq!['l', 'i', 'm', 'i', 't']
}

/// The effect of one `key=value` pair of a query string on `acc`; `None` when a non-empty
/// pair has no `=`. A value that does not read as a number clears the field.
pub open spec fn with_pair(acc: Pagination, pair: Seq<char>) -> Option<Pagination> {
    if pair.len() == 0 {
        Some(acc)
    } else {
        let parts = split(pair, '=');
        if parts.len() < 2 {
            None
        } else if parts[0] == offset_key() {
            Some(Pagination { offset: parsed_usize(parts[1]), limit: acc.limit })
        } else if parts[0] == limit_key() {
            Some(Pagination { offset: acc.offset, limit: parsed_usize(parts[1]) })
        } else {
            Some(acc)
        }
    }
}

pub open spec fn with_pairs(acc: Pagination, pairs: Seq<Seq<char>>) -> Option<Pagination>
    decreases pairs.len(),
{
    if pairs.len() == 0 {
        Some(acc)
    } else {
        match with_pair(acc, pairs[0]) {
            Some(next) => with_pairs(next, pairs.drop_first()),
            None => None,
        }
    }
}

/// The paging window that a query string such as `offset=10&limit=5` asks for: the pairs
/// apply from left to right, so a later pair wins.
pub open spec fn query_pagination(q: Seq<char>) -> Option<Pagination> {
    with_pairs(Pagination { offset: None, limit: None }, split(q, '&'))
}

/// Reads the paging window from a query string. `None` when a non-empty pair has no `=`.
pub fn parse_pagination(query: &str) -> (r: Option<Pagination>)
    ensures
        r == query_pagination(query@),
{
    let offset_name = "offset";
    let limit_name = "limit";
    proof {
        reveal_strlit("offset");
        reveal_strlit("limit");
    }
    assert(offset_name@ =~= offset_key());
    assert(limit_name@ =~= limit_key());
    let pairs = split_at_char(query, '&');
    let ghost all = split(query@, '&');
    let mut acc = Pagination { offset: None, limit: None };
    let mut i: usize = 0;
    assert(all.subrange(0, all.len() as int) =~= all);
    while i < pairs.len()
        invariant
            i <= pairs@.len(),
            pairs@.len() == all.len(),
            all == split(query@, '&'),
            forall|j: int| 0 <= j < pairs@.len() ==> (#[trigger] pairs@[j])@ == all[j],
            offset_name@ == offset_key(),
            limit_name@ == limit_key(),
            query_pagination(query@) == with_pairs(acc, all.subrange(i as int, all.len() as int)),
        decreases pairs@.len() - i,
    {
        let pair: &str = pairs[i];
        let ghost rest = all.subrange(i as int, all.len() as int);
        assert(rest[0] == pair@);
        assert(rest.drop_first() =~= all.subrange(i + 1, all.len() as int));
        if pair.unicode_len() > 0 {
            let parts = split_at_char(pair, '=');
            if parts.len() < 2 {
                return None;
            }
            let key: &str = parts[0];
            let value: &str = parts[1];
            if same_text(key, offset_name) {
                acc = Pagination { offset: parse_usize(value), limit: acc.limit };
            } else if same_text(key, limit_name) {
                acc = Pagination { offset: acc.offset, limit: parse_usize(value) };
            }
        }
        i = i + 1;
    }
    Some(acc)
}

/// The entries of `todos` that `pagination` selects.
pub fn get_todos(pagination: Pagination, todos: &TodoStore) -> (r: Vec<IdentifyableTodoItem>)
    ensures
        r@ == page(todos@, pagination),
{
    todos.get_todos(pagination)
}

/// Stores `todo` in `todos` under the next identifier.
pub fn add_todo(todo: TodoItem, todos: &mut TodoStore) -> (r: IdentifyableTodoItem)
    requires
        old(todos).wf(),
        old(todos).spec_next_id() < usize::MAX,
    ensures
        final(todos).wf(),
        r.id == old(todos).spec_next_id(),
        r.item == todo,
        final(todos)@ == old(todos)@.push(r),
        final(todos).spec_next_id() == old(todos).spec_next_id() + 1,
{
    todos.add_todo(todo)
}

/// Removes the entry with identifier `id` from `todos`, if there is one.
pub fn delete_todo(id: usize, todos: &mut TodoStore) -> (r: Option<IdentifyableTodoItem>)
    requires
        old(todos).wf(),
    ensures
        final(todos).wf(),
        final(todos).spec_next_id() == old(todos).spec_next_id(),
        match r {
            Some(x) => exists|i: int|
                0 <= i < old(todos)@.len() && old(todos)@[i] == x && x.id == id && final(todos)@
                    == old(todos)@.remove(i),
            None => !has_id(old(todos)@, id) && final(todos)@ == old(todos)@,
        },
{
    todos.remove_todo(id)
}

/// The entry of `todos` with identifier `id`, if there is one.
pub fn get_todo(id: usize, todos: &TodoStore) -> (r: Option<&IdentifyableTodoItem>)
    ensures
        r is Some <==> has_id(todos@, id),
        r matches Some(x) ==> x.id == id && todos@.contains(*x),
{
    todos.get_todo(id)
}

/// The body of an answer.
#[derive(Debug, PartialEq, Eq, Clone)]
pub enum Reply {
    Empty,
    Items(Vec<IdentifyableTodoItem>),
    Item(IdentifyableTodoItem),
}

/// How the todo service answers a request.
#[derive(Debug, PartialEq, Eq, Clone)]
pub struct Answer {
    pub status: u16,
    pub reply: Reply,
    /// The store is to be written back to where it came from.
    pub save_store: bool,
}

pub const OK: u16 = 200;

pub const NO_CONTENT: u16 = 204;

pub const BAD_REQUEST: u16 = 400;

pub const NOT_FOUND: u16 = 404;

pub const METHOD_NOT_ALLOWED: u16 = 405;

pub const INTERNAL_SERVER_ERROR: u16 = 500;

/// Carries out a request on `db` and decides the answer. `pagination` applies to a listing,
/// and `todo` is the entry that the request body holds, where the route adds one.
pub fn respond(
    route: Route,
    pagination: Pagination,
    todo: Option<TodoItem>,
    db: &mut TodoStore,
) -> (r: Answer)
    requires
        old(db).wf(),
    ensures
        final(db).wf(),
        match route {
            Route::ListTodos => {
                &&& r.status == OK
                &&& r.reply matches Reply::Items(v) && v@ == page(old(db)@, pagination)
                &&& !r.save_store
                &&& *final(db) == *old(db)
            },
            Route::AddTodo => match todo {
                Some(t) => if old(db).spec_next_id() < usize::MAX {
                    &&& r.status == OK
                    &&& r.reply matches Reply::Item(x) && x.id == old(db).spec_next_id()
                        && x.item == t && final(db)@ == old(db)@.push(x)
                    &&& final(db).spec_next_id() == old(db).spec_next_id() + 1
                    &&& r.save_store
                } else {
                    &&& r.status == INTERNAL_SERVER_ERROR
                    &&& r.reply is Empty
                    &&& !r.save_store
                    &&& *final(db) == *old(db)
                },
                None => {
                    &&& r.status == BAD_REQUEST
                    &&& r.reply is Empty
                    &&& !r.save_store
                    &&& *final(db) == *old(db)
                },
            },
            Route::GetTodo(id) => {
                &&& *final(db) == *old(db)
                &&& !r.save_store
                &&& if has_id(old(db)@, id) {
                    &&& r.status == OK
                    &&& r.reply matches Reply::Item(x) && x.id == id && old(db)@.contains(x)
                } else {
                    r.status == NOT_FOUND && r.reply is Empty
                }
            },
            Route::DeleteTodo(id) => {
                &&& r.reply is Empty
                &&& r.save_store
                &&& final(db).spec_next_id() == old(db).spec_next_id()
                &&& if has_id(old(db)@, id) {
                    &&& r.status == NO_CONTENT
                    &&& exists|i: int|
                        0 <= i < old(db)@.len() && old(db)@[i].id == id && final(db)@
                            == old(db)@.remove(i)
                } else {
                    r.status == NOT_FOUND && final(db)@ == old(db)@
                }
            },
            Route::MethodNotAllowed => {
                &&& r.status == METHOD_NOT_ALLOWED
                &&& r.reply is Empty
                &&& !r.save_store
                &&& *final(db) == *old(db)
            },
            Route::InvalidId => {
                &&& r.status == BAD_REQUEST
                &&& r.reply is Empty
                &&& !r.save_store
                &&& *final(db) == *old(db)
            },
            Route::NotFound => {
                &&& r.status == NOT_FOUND
                &&& r.reply is Empty
                &&& !r.save_store
                &&& *final(db) == *old(db)
            },
        },
{
    match route {
        Route::ListTodos => {
            let items = get_todos(pagination, db);
            Answer { status: OK, reply: Reply::Items(items), save_store: false }
        },
        Route::AddTodo => match todo {
            Some(t) => if db.next_id() < usize::MAX {
                let x = add_todo(t, db);
                Answer { status: OK, reply: Reply::Item(x), save_store: true }
            } else {
                Answer { status: INTERNAL_SERVER_ERROR, reply: Reply::Empty, save_store: false }
            },
            None => Answer { status: BAD_REQUEST, reply: Reply::Empty, save_store: false },
        },
        Route::GetTodo(id) => match get_todo(id, db) {
            Some(x) => Answer { status: OK, reply: Reply::Item(x.clone()), save_store: false },
            None => Answer { status: NOT_FOUND, reply: Reply::Empty, save_store: false },
        },
        Route::DeleteTodo(id) => match delete_todo(id, db) {
            Some(_) => Answer { status: NO_CONTENT, reply: Reply::Empty, save_store: true },
            None => Answer { status: NOT_FOUND, reply: Reply::Empty, save_store: true },
        },
        Route::MethodNotAllowed => {
            Answer { status: METHOD_NOT_ALLOWED, reply: Reply::Empty, save_store: false }
        },
        Route::InvalidId => Answer { status: BAD_REQUEST, reply: Reply::Empty, save_store: false },
        Route::NotFound => Answer { status: NOT_FOUND, reply: Reply::Empty, save_store: false },
    }
}

} // verus!
