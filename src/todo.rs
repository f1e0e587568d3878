use vstd::prelude::*;

verus! {

/// A todo entry as clients create it.
#[derive(Debug, PartialEq, Eq)]
pub struct TodoItem {
    pub title: String,
    pub notes: String,
    pub assigned_to: String,
    pub completed: bool,
}

impl Clone for TodoItem {
    fn clone(&self) -> (r: Self)
        ensures
            r == *self,
    {
        TodoItem {
            title: self.title.clone(),
            notes: self.notes.clone(),
            assigned_to: self.assigned_to.clone(),
            completed: self.completed,
        }
    }
}

/// A partial change of a todo entry: each field that is present replaces the stored one.
#[derive(Debug, PartialEq, Eq)]
pub struct UpdateTodoItem {
    pub title: Option<String>,
    pub notes: Option<String>,
    pub assigned_to: Option<String>,
    pub completed: Option<bool>,
}

impl Clone for UpdateTodoItem {
    fn clone(&self) -> (r: Self)
        ensures
            r == *self,
    {
        UpdateTodoItem {
            title: match &self.title {
                Some(t) => Some(t.clone()),
                None => None,
            },
            notes: match &self.notes {
                Some(t) => Some(t.clone()),
                None => None,
            },
            assigned_to: match &self.assigned_to {
                Some(t) => Some(t.clone()),
                None => None,
            },
            completed: self.completed,
        }
    }
}

/// The entry that results from applying `upd` to `item`.
pub open spec fn applied(item: TodoItem, upd: UpdateTodoItem) -> TodoItem {
    TodoItem {
        title: match upd.title {
            Some(t) => t,
            None => item.title,
        },
        notes: match upd.notes {
            Some(t) => t,
            None => item.notes,
        },
        assigned_to: match upd.assigned_to {
            Some(t) => t,
            None => item.assigned_to,
        },
        completed: match upd.completed {
            Some(c) => c,
            None => item.completed,
        },
    }
}

/// A stored todo entry together with the identifier the store gave it.
#[derive(Debug, PartialEq, Eq)]
pub struct IdentifyableTodoItem {
    pub id: usize,
    pub item: TodoItem,
}

impl Clone for IdentifyableTodoItem {
    fn clone(&self) -> (r: Self)
        ensures
            r == *self,
    {
        IdentifyableTodoItem { id: self.id, item: self.item.clone() }
    }
}

impl IdentifyableTodoItem {
    pub fn new(id: usize, item: TodoItem) -> (r: IdentifyableTodoItem)
        ensures
            r.id == id,
            r.item == item,
    {
        IdentifyableTodoItem { id, item }
    }
}

/// Paging window applied to an ordered listing: skip `offset` entries (none when absent),
/// then keep at most `limit` (all when absent).
#[derive(Debug, PartialEq, Eq, Clone, Copy)]
pub struct Pagination {
    pub offset: Option<usize>,
    pub limit: Option<usize>,
}

impl Pagination {
    pub fn new(offset: Option<usize>, limit: Option<usize>) -> (r: Pagination)
        ensures
            r.offset == offset,
            r.limit == limit,
    {
        Pagination { offset, limit }
    }
}

impl Default for Pagination {
    fn default() -> (r: Pagination)
        ensures
            r.offset is None,
            r.limit is None,
    {
        Pagination { offset: None, limit: None }
    }
}

pub open spec fn min_int(a: int, b: int) -> int {
    if a <= b {
        a
    } else {
        b
    }
}

/// The window of `s` that `p` selects.
pub open spec fn page<T>(s: Seq<T>, p: Pagination) -> Seq<T> {
    let offset = match p.offset {
        Some(o) => o as int,
        None => 0,
    };
    let limit = match p.limit {
        Some(l) => l as int,
        None => usize::MAX as int,
    };
    s.subrange(min_int(offset, s.len() as int), min_int(offset + limit, s.len() as int))
}

/// Identifiers strictly increase along `s`, so each occurs at most once.
pub open spec fn ids_increasing(s: Seq<IdentifyableTodoItem>) -> bool {
    forall|i: int, j: int| 0 <= i < j < s.len() ==> s[i].id < s[j].id
}

pub open spec fn has_id(s: Seq<IdentifyableTodoItem>, id: usize) -> bool {
    exists|i: int| 0 <= i < s.len() && s[i].id == id
}

/// In-memory collection of todo entries, listed in the order of their identifiers.
/// Identifiers come from a counter that only grows.
pub struct TodoStore {
    items: Vec<IdentifyableTodoItem>,
    next_id: usize,
}

impl View for TodoStore {
    type V = Seq<IdentifyableTodoItem>;

    closed spec fn view(&self) -> Seq<IdentifyableTodoItem> {
        self.items@
    }
}

impl TodoStore {
    /// The identifier that the next added entry receives.
    pub closed spec fn spec_next_id(&self) -> usize {
        self.next_id
    }

    pub open spec fn wf(&self) -> bool {
        &&& ids_increasing(self@)
        &&& forall|i: int| 0 <= i < self@.len() ==> #[trigger] self@[i].id < self.spec_next_id()
    }

    pub fn new() -> (r: TodoStore)
        ensures
            r.wf(),
            r@ == Seq::<IdentifyableTodoItem>::empty(),
            r.spec_next_id() == 0,
    {
        TodoStore { items: Vec::new(), next_id: 0 }
    }

    pub fn next_id(&self) -> (r: usize)
        ensures
            r == self.spec_next_id(),
    {
        self.next_id
    }

    pub fn len(&self) -> (r: usize)
        ensures
            r == self@.len(),
    {
        self.items.len()
    }

    /// The entries that `pagination` selects, in the order of their identifiers.
    pub fn get_todos(&self, pagination: Pagination) -> (r: Vec<IdentifyableTodoItem>)
        ensures
            r@ == page(self@, pagination),
    {
        let n = self.items.len();
        let start: usize = match pagination.offset {
            Some(o) => if o < n {
                o
            } else {
                n
            },
            None => 0,
        };
        let limit: usize = match pagination.limit {
            Some(l) => l,
            None => usize::MAX,
        };
        let end: usize = if limit < n - start {
            start + limit
        } else {
            n
        };
        let mut r: Vec<IdentifyableTodoItem> = Vec::new();
        let mut i: usize = start;
        while i < end
            invariant
                start <= i <= end <= n,
                n == self@.len(),
                r@ == self@.subrange(start as int, i as int),
            decreases end - i,
        {
            r.push(self.items[i].clone());
            i = i + 1;
        }
        assert(r@ =~= page(self@, pagination));
        r
    }

    /// Position of the entry with identifier `id`, if there is one.
    fn position(&self, id: usize) -> (r: Option<usize>)
        ensures
            match r {
                Some(i) => i < self@.len() && self@[i as int].id == id,
                None => !has_id(self@, id),
            },
    {
        let mut i: usize = 0;
        while i < self.items.len()
            invariant
                i <= self@.len(),
                forall|j: int| 0 <= j < i ==> self@[j].id != id,
            decreases self@.len() - i,
        {
            if self.items[i].id == id {
                return Some(i);
            }
            i = i + 1;
        }
        None
    }

    pub fn get_todo(&self, id: usize) -> (r: Option<&IdentifyableTodoItem>)
        ensures
            r is Some <==> has_id(self@, id),
            r matches Some(x) ==> x.id == id && self@.contains(*x),
    {
        match self.position(id) {
            Some(i) => Some(&self.items[i]),
            None => None,
        }
    }

    /// Stores `todo` under the next identifier and returns the stored entry.
    pub fn add_todo(&mut self, todo: TodoItem) -> (r: IdentifyableTodoItem)
        requires
            old(self).wf(),
            old(self).spec_next_id() < usize::MAX,
        ensures
            final(self).wf(),
            r.id == old(self).spec_next_id(),
            r.item == todo,
            final(self)@ == old(self)@.push(r),
            final(self).spec_next_id() == old(self).spec_next_id() + 1,
    {
        let id = self.next_id;
        self.next_id = id + 1;
        let new_item = IdentifyableTodoItem::new(id, todo);
        self.items.push(new_item.clone());
        new_item
    }

    /// Takes the entry with identifier `id` out of the store, if there is one.
    pub fn remove_todo(&mut self, id: usize) -> (r: Option<IdentifyableTodoItem>)
        requires
            old(self).wf(),
        ensures
            final(self).wf(),
            final(self).spec_next_id() == old(self).spec_next_id(),
            match r {
                Some(x) => exists|i: int|
                    0 <= i < old(self)@.len() && old(self)@[i] == x && x.id == id && final(self)@
                        == old(self)@.remove(i),
                None => !has_id(old(self)@, id) && final(self)@ == old(self)@,
            },
    {
        match self.position(id) {
            Some(i) => {
                let x = self.items.remove(i);
                proof {
                    let s = old(self)@;
                    assert forall|a: int, b: int|
                        0 <= a < b < self@.len() implies self@[a].id < self@[b].id by {
                        if a >= i {
                            assert(self@[a] == s[a + 1]);
                        }
                        if b >= i {
                            assert(self@[b] == s[b + 1]);
                        }
                    }
                    assert forall|a: int| 0 <= a < self@.len() implies #[trigger] self@[a].id
                        < self.next_id by {
                        if a >= i {
                            assert(self@[a] == s[a + 1]);
                        }
                    }
                }
                Some(x)
            },
            None => None,
        }
    }

    /// Applies `todo` to the entry with identifier `id`, if there is one, and returns the
    /// entry as it now stands.
    pub fn update_todo(&mut self, id: &usize, todo: UpdateTodoItem) -> (r: Option<
        &IdentifyableTodoItem,
    >)
        requires
            old(self).wf(),
        ensures
            final(self).wf(),
            final(self).spec_next_id() == old(self).spec_next_id(),
            match r {
                Some(x) => {
                    &&& x.id == *id
                    &&& has_id(old(self)@, *id)
                    &&& forall|i: int|
                        0 <= i < old(self)@.len() && #[trigger] old(self)@[i].id == *id ==> {
                            &&& x.item == applied(old(self)@[i].item, todo)
                            &&& final(self)@ == old(self)@.update(i, *x)
                        }
                },
                None => !has_id(old(self)@, *id) && final(self)@ == old(self)@,
            },
    {
        match self.position(*id) {
            Some(i) => {
                let ghost upd = todo;
                let mut entry = self.items[i].clone();
                if let Some(title) = todo.title {
                    entry.item.title = title;
                }
                if let Some(notes) = todo.notes {
                    entry.item.notes = notes;
                }
                if let Some(assigned_to) = todo.assigned_to {
                    entry.item.assigned_to = assigned_to;
                }
                if let Some(completed) = todo.completed {
                    entry.item.completed = completed;
                }
                self.items.set(i, entry.clone());
                proof {
                    let s = old(self)@;
                    assert forall|a: int| 0 <= a < self@.len() implies #[trigger] self@[a].id
                        == s[a].id by {}
                    assert(entry.item == applied(s[i as int].item, upd));
                    assert(self@ =~= s.update(i as int, entry));
                    assert forall|j: int|
                        0 <= j < s.len() && #[trigger] s[j].id == *id implies j == i by {
                        if j < i {
                            assert(s[j].id < s[i as int].id);
                        } else if j > i {
                            assert(s[i as int].id < s[j].id);
                        }
                    }
                }
                Some(&self.items[i])
            },
            None => None,
        }
    }
}

/// The entries of `items` by identifier; where an identifier occurs more than once, the last
/// entry with it counts.
pub open spec fn keyed(items: Seq<IdentifyableTodoItem>) -> Map<usize, IdentifyableTodoItem>
    decreases items.len(),
{
    if items.len() == 0 {
        Map::empty()
    } else {
        keyed(items.drop_last()).insert(items.last().id, items.last())
    }
}

proof fn lemma_keyed_dom(s: Seq<IdentifyableTodoItem>, k: usize)
    requires
        keyed(s).contains_key(k),
    ensures
        has_id(s, k),
    decreases s.len(),
{
    if s.len() > 0 && s.last().id != k {
        lemma_keyed_dom(s.drop_last(), k);
        let i = choose|i: int| 0 <= i < s.drop_last().len() && s.drop_last()[i].id == k;
        assert(s[i].id == k);
    } else if s.len() > 0 {
        assert(s[s.len() - 1].id == k);
    }
}

proof fn lemma_keyed_unique(s: Seq<IdentifyableTodoItem>)
    requires
        ids_increasing(s),
    ensures
        forall|i: int|
            0 <= i < s.len() ==> keyed(s).contains_key(#[trigger] s[i].id) && keyed(s)[s[i].id]
                == s[i],
    decreases s.len(),
{
    if s.len() > 0 {
        let t = s.drop_last();
        lemma_keyed_unique(t);
        assert forall|i: int| 0 <= i < s.len() implies keyed(s).contains_key(#[trigger] s[i].id)
            && keyed(s)[s[i].id] == s[i] by {
            if i < s.len() - 1 {
                assert(t[i] == s[i]);
                assert(s[i].id < s.last().id);
            }
        }
    }
}

/// Keyed views of two identifier-ordered sequences agree when each entry of either is the
/// other's entry under its identifier.
proof fn lemma_keyed_ext(s: Seq<IdentifyableTodoItem>, m: Map<usize, IdentifyableTodoItem>)
    requires
        ids_increasing(s),
        forall|k: usize| m.contains_key(k) ==> has_id(s, k),
        forall|i: int|
            0 <= i < s.len() ==> m.contains_key(#[trigger] s[i].id) && m[s[i].id] == s[i],
    ensures
        keyed(s) == m,
{
    lemma_keyed_unique(s);
    assert forall|k: usize| #[trigger] keyed(s).contains_key(k) implies m.contains_key(k)
        && keyed(s)[k] == m[k] by {
        lemma_keyed_dom(s, k);
        let i = choose|i: int| 0 <= i < s.len() && s[i].id == k;
        assert(m.contains_key(s[i].id));
    }
    assert forall|k: usize| m.contains_key(k) implies #[trigger] keyed(s).contains_key(k) by {
        assert(has_id(s, k));
        let i = choose|i: int| 0 <= i < s.len() && s[i].id == k;
        assert(keyed(s).contains_key(s[i].id));
    }
    assert(keyed(s) =~= m);
}

/// Puts `x` into the identifier-ordered `items`, in place of an entry with its identifier.
fn insert_ordered(items: &mut Vec<IdentifyableTodoItem>, x: IdentifyableTodoItem)
    requires
        ids_increasing(old(items)@),
    ensures
        ids_increasing(final(items)@),
        keyed(final(items)@) == keyed(old(items)@).insert(x.id, x),
{
    let ghost s = items@;
    let mut p: usize = 0;
    while p < items.len() && items[p].id < x.id
        invariant
            p <= items@.len(),
            items@ == s,
            forall|j: int| 0 <= j < p ==> items@[j].id < x.id,
        decreases items@.len() - p,
    {
        p = p + 1;
    }
    proof {
        lemma_keyed_unique(s);
    }
    let ghost m = keyed(s).insert(x.id, x);
    if p < items.len() && items[p].id == x.id {
        items.set(p, x);
        let ghost t = items@;
        assert forall|a: int, b: int| 0 <= a < b < t.len() implies t[a].id < t[b].id by {
            assert(s[a].id < s[b].id);
        }
        assert forall|k: usize| m.contains_key(k) implies has_id(t, k) by {
            if k != x.id {
                lemma_keyed_dom(s, k);
                let i = choose|i: int| 0 <= i < s.len() && s[i].id == k;
                assert(t[i].id == k);
            } else {
                assert(t[p as int].id == k);
            }
        }
        assert forall|i: int| 0 <= i < t.len() implies m.contains_key(#[trigger] t[i].id)
            && m[t[i].id] == t[i] by {
            if i != p {
                assert(t[i] == s[i]);
                if i < p {
                    assert(s[i].id < s[p as int].id);
                } else {
                    assert(s[p as int].id < s[i].id);
                }
            }
        }
        proof {
            lemma_keyed_ext(t, m);
        }
    } else {
        items.insert(p, x);
        let ghost t = items@;
        assert forall|i: int| 0 <= i < t.len() && i != p implies #[trigger] t[i] == (if i < p {
            s[i]
        } else {
            s[i - 1]
        }) by {}
        assert forall|j: int| p <= j < s.len() implies x.id < #[trigger] s[j].id by {
            if j > p {
                assert(s[p as int].id < s[j].id);
            }
        }
        assert forall|a: int, b: int| 0 <= a < b < t.len() implies t[a].id < t[b].id by {
            if a != p && b != p {
                let sa = if a < p {
                    a
                } else {
                    a - 1
                };
                let sb = if b < p {
                    b
                } else {
                    b - 1
                };
                assert(s[sa].id < s[sb].id);
            } else if a == p {
                assert(t[b] == s[b - 1]);
            } else {
                assert(t[a] == s[a]);
            }
        }
        assert forall|k: usize| m.contains_key(k) implies has_id(t, k) by {
            if k != x.id {
                lemma_keyed_dom(s, k);
                let i = choose|i: int| 0 <= i < s.len() && s[i].id == k;
                if i < p {
                    assert(t[i].id == k);
                } else {
                    assert(t[i + 1].id == k);
                }
            } else {
                assert(t[p as int].id == k);
            }
        }
        assert forall|i: int| 0 <= i < t.len() implies m.contains_key(#[trigger] t[i].id)
            && m[t[i].id] == t[i] by {
            if i < p {
                assert(t[i] == s[i]);
            } else if i > p {
                assert(t[i] == s[i - 1]);
            }
        }
        proof {
            lemma_keyed_ext(t, m);
        }
    }
}

impl TodoStore {
    /// A store that holds the entries of `items`, each under its own identifier (the last
    /// entry for an identifier that occurs twice), with identifiers to come after the largest.
    /// `None` when an entry holds the largest `usize`, after which no identifier is left.
    pub fn from_items(items: Vec<IdentifyableTodoItem>) -> (r: Option<TodoStore>)
        ensures
            r is None <==> has_id(items@, usize::MAX),
            r matches Some(st) ==> {
                &&& st.wf()
                &&& keyed(st@) == keyed(items@)
                &&& st@.len() == 0 ==> st.spec_next_id() == 0
                &&& st@.len() > 0 ==> st.spec_next_id() == st@.last().id + 1
            },
    {
        let mut sorted: Vec<IdentifyableTodoItem> = Vec::new();
        let mut i: usize = 0;
        while i < items.len()
            invariant
                i <= items@.len(),
                ids_increasing(sorted@),
                keyed(sorted@) == keyed(items@.subrange(0, i as int)),
            decreases items@.len() - i,
        {
            let ghost before = items@.subrange(0, i as int);
            let ghost after = items@.subrange(0, i + 1);
            assert(after.drop_last() =~= before);
            insert_ordered(&mut sorted, items[i].clone());
            i = i + 1;
        }
        assert(items@.subrange(0, items@.len() as int) =~= items@);
        proof {
            lemma_keyed_unique(sorted@);
            if has_id(items@, usize::MAX) {
                let j = choose|j: int| 0 <= j < items@.len() && items@[j].id == usize::MAX;
                lemma_keyed_contains(items@, j);
                lemma_keyed_dom(sorted@, usize::MAX);
            }
        }
        let n = sorted.len();
        if n == 0 {
            return Some(TodoStore { items: sorted, next_id: 0 });
        }
        let last = sorted[n - 1].id;
        if last == usize::MAX {
            proof {
                assert(keyed(sorted@).contains_key(sorted@[n - 1].id));
                lemma_keyed_dom(items@, usize::MAX);
            }
            return None;
        }
        proof {
            assert forall|a: int| 0 <= a < sorted@.len() implies #[trigger] sorted@[a].id
                < last + 1 by {
                if a < n - 1 {
                    assert(sorted@[a].id < sorted@[n - 1].id);
                }
            }
            if has_id(items@, usize::MAX) {
                let k = choose|k: int| 0 <= k < sorted@.len() && sorted@[k].id == usize::MAX;
                assert(sorted@[k].id < last + 1);
            }
        }
        Some(TodoStore { items: sorted, next_id: last + 1 })
    }
}

/// Every identifier of `s` stands in its keyed view.
proof fn lemma_keyed_contains(s: Seq<IdentifyableTodoItem>, j: int)
    requires
        0 <= j < s.len(),
    ensures
        keyed(s).contains_key(s[j].id),
    decreases s.len(),
{
    if j < s.len() - 1 {
        lemma_keyed_contains(s.drop_last(), j);
    }
}

impl Default for TodoStore {
    fn default() -> (r: TodoStore)
        ensures
            r.wf(),
            r@ == Seq::<IdentifyableTodoItem>::empty(),
            r.spec_next_id() == 0,
    {
        TodoStore::new()
    }
}

/// Declares `std::io::Error`, which a failed write of the store reports.
#[verifier::external_type_specification]
#[verifier::external_body]
pub struct ExIoError(std::io::Error);

/// Declares `serde_json::Error`, which a failed encoding of the store reports.
#[verifier::external_type_specification]
#[verifier::external_body]
pub struct ExJsonError(serde_json::Error);

/// Why writing the store to a file failed.
#[derive(Debug)]
pub enum TodoStoreError {
    FileAccessError(std::io::Error),
    SerializationError(serde_json::Error),
}

impl TodoStoreError {
    /// A short description of the kind of failure.
    pub fn description(&self) -> (r: &'static str)
        ensures
            r@ == match self {
                TodoStoreError::FileAccessError(_) => seq![
                    'p', 'e', 'r', 's', 'i', 's', 't', 'e', 'n', 't', ' ', 'd', 'a', 't', 'a', ' ',
                    's', 't', 'o', 'r', 'e', ' ', 'e', 'r', 'r', 'o', 'r',
                ],
                TodoStoreError::SerializationError(_) => seq![
                    's', 'e', 'r', 'i', 'a', 'l', 'i', 'z', 'a', 't', 'i', 'o', 'n', ' ', 'e', 'r',
                    'r', 'o', 'r',
                ],
            },
    {
        proof {
            reveal_strlit("persistent data store error");
            reveal_strlit("serialization error");
        }
        match self {
            TodoStoreError::FileAccessError(_) => "persistent data store error",
            TodoStoreError::SerializationError(_) => "serialization error",
        }
    }

    /// The message that a client receives when persisting failed this way.
    pub fn response_message(&self) -> (r: &'static str)
        ensures
            r@ == match self {
                TodoStoreError::FileAccessError(_) => seq![
                    'E', 'r', 'r', 'o', 'r', ' ', 'w', 'h', 'i', 'l', 'e', ' ', 'w', 'r', 'i', 't',
                    'i', 'n', 'g', ' ', 't', 'o', ' ', 'f', 'i', 'l', 'e',
                ],
                TodoStoreError::SerializationError(_) => seq![
                    'E', 'r', 'r', 'o', 'r', ' ', 'd', 'u', 'r', 'i', 'n', 'g', ' ', 's', 'e', 'r',
                    'i', 'a', 'l', 'i', 'z', 'a', 't', 'i', 'o', 'n',
                ],
            },
    {
        proof {
            reveal_strlit("Error while writing to file");
            reveal_strlit("Error during serialization");
        }
        match self {
            TodoStoreError::FileAccessError(_) => "Error while writing to file",
            TodoStoreError::SerializationError(_) => "Error during serialization",
        }
    }
}

impl From<std::io::Error> for TodoStoreError {
    fn from(e: std::io::Error) -> (r: TodoStoreError)
        ensures
            r == TodoStoreError::FileAccessError(e),
    {
        TodoStoreError::FileAccessError(e)
    }
}

impl vstd::std_specs::convert::FromSpecImpl<std::io::Error> for TodoStoreError {
    open spec fn obeys_from_spec() -> bool {
        true
    }

    open spec fn from_spec(e: std::io::Error) -> TodoStoreError {
        TodoStoreError::FileAccessError(e)
    }
}

impl From<serde_json::Error> for TodoStoreError {
    fn from(e: serde_json::Error) -> (r: TodoStoreError)
        ensures
            r == TodoStoreError::SerializationError(e),
    {
        TodoStoreError::SerializationError(e)
    }
}

impl vstd::std_specs::convert::FromSpecImpl<serde_json::Error> for TodoStoreError {
    open spec fn obeys_from_spec() -> bool {
        true
    }

    open spec fn from_spec(e: serde_json::Error) -> TodoStoreError {
        TodoStoreError::SerializationError(e)
    }
}

} // verus!
