//! The in-memory todo store: a collection of records with pairwise
//! distinct identifiers, offering creation, listing, partial update and
//! deletion. Update and delete on an unknown identifier signal not-found
//! by returning `None` or `false` and leave the store unchanged.

use vstd::prelude::*;

use crate::gen::{fresh_uuid, now_rfc3339};
use crate::todo::{Todo, TodoView};

verus! {

/// True when some record in `s` carries the identifier `id`.
pub open spec fn contains_id(s: Seq<TodoView>, id: Seq<char>) -> bool {
    exists|i: int| 0 <= i < s.len() && s[i].id == id
}

/// The position of the record carrying `id`; meaningful only when
/// `contains_id(s, id)` holds.
pub open spec fn index_of_id(s: Seq<TodoView>, id: Seq<char>) -> int {
    choose|i: int| 0 <= i < s.len() && s[i].id == id
}

/// All identifiers in `s` are pairwise distinct.
pub open spec fn unique_ids(s: Seq<TodoView>) -> bool {
    forall|i: int, j: int| 0 <= i < j < s.len() ==> s[i].id != s[j].id
}

/// The view of an optional string argument of a partial update.
pub open spec fn opt_view(o: Option<String>) -> Option<Seq<char>> {
    match o {
        Some(s) => Some(s@),
        None => None,
    }
}

/// The record `t` after a partial update: a supplied field replaces the
/// old one, an absent field is left unchanged, and the identifier and the
/// creation timestamp are never touched.
pub open spec fn apply_update(
    t: TodoView,
    title: Option<Seq<char>>,
    completed: Option<bool>,
) -> TodoView {
    TodoView {
        id: t.id,
        title: match title {
            Some(x) => x,
            None => t.title,
        },
        completed: match completed {
            Some(b) => b,
            None => t.completed,
        },
        created_at: t.created_at,
    }
}

/// An in-memory mapping from identifier to todo record. Insertion order
/// of the underlying vector is an implementation detail: no operation
/// promises any particular order of the records.
pub struct TodoStore {
    todos: Vec<Todo>,
}

impl View for TodoStore {
    type V = Seq<TodoView>;

    closed spec fn view(&self) -> Seq<TodoView> {
        self.todos@.map_values(|t: Todo| t@)
    }
}

impl TodoStore {
    /// The store's invariant: no two records share an identifier.
    pub open spec fn wf(&self) -> bool {
        unique_ids(self@)
    }

    /// An empty store.
    pub fn new() -> (s: TodoStore)
        ensures
            s@ == Seq::<TodoView>::empty(),
            s.wf(),
    {
        let s = TodoStore { todos: Vec::new() };
        proof {
            assert(s@ =~= Seq::<TodoView>::empty());
        }
        s
    }

    /// The position of the record carrying `id`, or `None` when no record
    /// does.
    fn find_index(&self, id: &str) -> (r: Option<usize>)
        ensures
            match r {
                Some(i) => i < self@.len() && self@[i as int].id == id@,
                None => !contains_id(self@, id@),
            },
    {
        let key: String = id.to_owned();
        let mut i: usize = 0;
        while i < self.todos.len()
            invariant
                i <= self.todos.len(),
                key@ == id@,
                forall|j: int| 0 <= j < i ==> self@[j].id != id@,
            decreases self.todos.len() - i,
        {
            if self.todos[i].id == key {
                return Some(i);
            }
            i += 1;
        }
        None
    }

    /// Whether some record carries `id`.
    fn contains(&self, id: &str) -> (r: bool)
        ensures
            r == contains_id(self@, id@),
    {
        self.find_index(id).is_some()
    }

    /// An identifier strictly longer than the identifier of every record
    /// in the store, hence carried by none of them. Used only in the
    /// vanishingly unlikely case that a freshly drawn UUID collides with a
    /// stored identifier, so that creation stays total.
    fn fresh_id_fallback(&self) -> (r: String)
        ensures
            !contains_id(self@, r@),
    {
        let mut candidate = String::from_str("x");
        proof {
            reveal_strlit("x");
        }
        let mut i: usize = 0;
        while i < self.todos.len()
            invariant
                i <= self.todos.len(),
                candidate@.len() >= 1,
                forall|j: int| 0 <= j < i ==> candidate@.len() > self@[j].id.len(),
            decreases self.todos.len() - i,
        {
            candidate.append(self.todos[i].id.as_str());
            i += 1;
        }
        proof {
            assert forall|j: int| 0 <= j < self@.len() implies self@[j].id != candidate@ by {
                assert(candidate@.len() > self@[j].id.len());
            }
        }
        candidate
    }

    /// Creates a record with the given title, a generated identifier that
    /// no present record carries, the current timestamp, and
    /// `completed = false`; appends it to the store and returns an owned
    /// copy. Never fails.
    pub fn add_todo(&mut self, title: String) -> (r: Todo)
        requires
            old(self).wf(),
        ensures
            final(self).wf(),
            r@.title == title@,
            r@.completed == false,
            !contains_id(old(self)@, r@.id),
            final(self)@ == old(self)@.push(r@),
    {
        let created_at = now_rfc3339();
        let drawn = fresh_uuid();
        let id = if self.contains(drawn.as_str()) {
            self.fresh_id_fallback()
        } else {
            drawn
        };
        let todo = Todo { id, title, completed: false, created_at };
        let r = todo.clone();
        self.todos.push(todo);
        proof {
            assert(self@ =~= old(self)@.push(r@));
            lemma_create_keeps_ids_unique(old(self)@, r@);
        }
        r
    }

    /// An owned snapshot of every record now in the store, one copy per
    /// record. No order is promised.
    pub fn get_all_todos(&self) -> (r: Vec<Todo>)
        ensures
            r@.len() == self@.len(),
            forall|i: int| 0 <= i < r@.len() ==> r@[i]@ == self@[i],
    {
        let mut r: Vec<Todo> = Vec::new();
        let mut i: usize = 0;
        while i < self.todos.len()
            invariant
                i <= self.todos.len(),
                r@.len() == i,
                forall|j: int| 0 <= j < i ==> r@[j]@ == self@[j],
            decreases self.todos.len() - i,
        {
            let t = self.todos[i].clone();
            r.push(t);
            i += 1;
        }
        r
    }

    /// Looks up `id`. When absent, returns `None` and changes nothing.
    /// When present, replaces the title and the flag with whichever of the
    /// two arguments is supplied, leaves the rest of the record unchanged,
    /// and returns an owned copy of the record after the change.
    pub fn update_todo(
        &mut self,
        id: &str,
        title: Option<String>,
        completed: Option<bool>,
    ) -> (r: Option<Todo>)
        requires
            old(self).wf(),
        ensures
            final(self).wf(),
            match r {
                Some(t) => {
                    &&& contains_id(old(self)@, id@)
                    &&& t@.id == id@
                    &&& t@ == apply_update(
                        old(self)@[index_of_id(old(self)@, id@)],
                        opt_view(title),
                        completed,
                    )
                    &&& final(self)@ == old(self)@.update(index_of_id(old(self)@, id@), t@)
                },
                None => {
                    &&& !contains_id(old(self)@, id@)
                    &&& final(self)@ == old(self)@
                },
            },
    {
        match self.find_index(id) {
            Some(i) => {
                proof {
                    lemma_index_of_id_agrees(self@, id@, i as int);
                }
                let mut t = self.todos[i].clone();
                match title {
                    Some(x) => {
                        t.title = x;
                    },
                    None => {},
                }
                match completed {
                    Some(b) => {
                        t.completed = b;
                    },
                    None => {},
                }
                let r = t.clone();
                self.todos.set(i, t);
                proof {
                    assert(self@ =~= old(self)@.update(i as int, r@));
                    assert forall|p: int, q: int|
                        0 <= p < q < self@.len() implies self@[p].id != self@[q].id by {
                        assert(old(self)@[p].id != old(self)@[q].id);
                    }
                }
                Some(r)
            },
            None => None,
        }
    }

    /// Removes the record carrying `id` when one is present, returning
    /// whether a record was removed. Exactly that one record leaves the
    /// store; on `false` nothing changes.
    pub fn delete_todo(&mut self, id: &str) -> (r: bool)
        requires
            old(self).wf(),
        ensures
            final(self).wf(),
            r == contains_id(old(self)@, id@),
            r ==> final(self)@ == old(self)@.remove(index_of_id(old(self)@, id@)),
            r ==> !contains_id(final(self)@, id@),
            r ==> final(self)@.len() == old(self)@.len() - 1,
            !r ==> final(self)@ == old(self)@,
    {
        match self.find_index(id) {
            Some(i) => {
                proof {
                    lemma_index_of_id_agrees(self@, id@, i as int);
                }
                self.todos.remove(i);
                proof {
                    assert(self@ =~= old(self)@.remove(i as int));
                    lemma_delete_removes_exactly_one(old(self)@, i as int, id@);
                }
                true
            },
            None => false,
        }
    }
}

/// When identifiers are pairwise distinct, the position of an identifier
/// is the one index that carries it.
proof fn lemma_index_of_id_agrees(s: Seq<TodoView>, id: Seq<char>, i: int)
    requires
        unique_ids(s),
        0 <= i < s.len(),
        s[i].id == id,
    ensures
        contains_id(s, id),
        index_of_id(s, id) == i,
{
    assert(contains_id(s, id));
    let j = index_of_id(s, id);
    assert(0 <= j < s.len() && s[j].id == id);
    if j < i {
        assert(s[j].id != s[i].id);
    } else if i < j {
        assert(s[i].id != s[j].id);
    }
}

/// Law of uniqueness: a store whose identifiers are pairwise distinct
/// stays that way when a record with a fresh identifier is appended, and
/// the fresh identifier differs from that of every record already there.
/// A new store is empty, and every creation appends such a record, so the
/// identifiers returned by any sequence of creations are pairwise
/// distinct.
pub proof fn lemma_create_keeps_ids_unique(pre: Seq<TodoView>, r: TodoView)
    requires
        unique_ids(pre),
        !contains_id(pre, r.id),
    ensures
        unique_ids(pre.push(r)),
        forall|i: int| 0 <= i < pre.len() ==> pre[i].id != r.id,
{
    assert forall|i: int| 0 <= i < pre.len() implies pre[i].id != r.id by {
        if pre[i].id == r.id {
            assert(contains_id(pre, r.id));
        }
    }
}

/// Law of the round trip: a record just appended by a creation is among
/// the records of the store afterwards, so the next listing carries a
/// record with the created identifier, the given title and
/// `completed = false`.
pub proof fn lemma_created_record_listed(pre: Seq<TodoView>, r: TodoView)
    ensures
        pre.push(r).contains(r),
        contains_id(pre.push(r), r.id),
        pre.push(r)[pre.len() as int] == r,
{
    assert(pre.push(r)[pre.len() as int] == r);
}

/// Law of partial-update independence: supplying only a title changes
/// only the title, and supplying only the flag changes only the flag; the
/// identifier and the creation timestamp never change.
pub proof fn lemma_partial_update_independence(t: TodoView, x: Seq<char>, b: bool)
    ensures
        apply_update(t, Some(x), None) == (TodoView { title: x, ..t }),
        apply_update(t, None, Some(b)) == (TodoView { completed: b, ..t }),
{
}

/// Law of the no-op update: an update that supplies neither field returns
/// the record unchanged and leaves the store as it was.
pub proof fn lemma_noop_update(s: Seq<TodoView>, i: int)
    requires
        0 <= i < s.len(),
    ensures
        apply_update(s[i], None, None) == s[i],
        s.update(i, apply_update(s[i], None, None)) == s,
{
    assert(s.update(i, s[i]) =~= s);
}

/// Law of deletion: removing the one record that carries `id` from a
/// store with pairwise distinct identifiers leaves a store that is one
/// record shorter, carries `id` nowhere, keeps every other record, and
/// still has pairwise distinct identifiers.
pub proof fn lemma_delete_removes_exactly_one(s: Seq<TodoView>, i: int, id: Seq<char>)
    requires
        unique_ids(s),
        0 <= i < s.len(),
        s[i].id == id,
    ensures
        s.remove(i).len() == s.len() - 1,
        !contains_id(s.remove(i), id),
        unique_ids(s.remove(i)),
        forall|j: int| 0 <= j < i ==> s.remove(i)[j] == s[j],
        forall|j: int| i <= j < s.len() - 1 ==> s.remove(i)[j] == s[j + 1],
{
    let t = s.remove(i);
    assert forall|j: int| 0 <= j < t.len() implies t[j].id != id by {
        if j < i {
            assert(t[j] == s[j]);
            assert(s[j].id != s[i].id);
        } else {
            assert(t[j] == s[j + 1]);
            assert(s[i].id != s[j + 1].id);
        }
    }
    assert forall|p: int, q: int| 0 <= p < q < t.len() implies t[p].id != t[q].id by {
        let p0: int = if p < i { p } else { p + 1 };
        let q0: int = if q < i { q } else { q + 1 };
        assert(t[p] == s[p0]);
        assert(t[q] == s[q0]);
        assert(s[p0].id != s[q0].id);
    }
}

} // verus!
