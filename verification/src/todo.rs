//! The todo record: a pure value with an identifier, a title, a completion
//! flag and a creation timestamp.

use vstd::prelude::*;

verus! {

/// Mathematical model of a todo record: each string field as its
/// sequence of characters.
pub struct TodoView {
    pub id: Seq<char>,
    pub title: Seq<char>,
    pub completed: bool,
    pub created_at: Seq<char>,
}

/// A single todo record. The identifier is generated by the store and
/// never supplied by a caller; the timestamp is set once at creation.
pub struct Todo {
    pub id: String,
    pub title: String,
    pub completed: bool,
    pub created_at: String,
}

impl View for Todo {
    type V = TodoView;

    open spec fn view(&self) -> TodoView {
        TodoView {
            id: self.id@,
            title: self.title@,
            completed: self.completed,
            created_at: self.created_at@,
        }
    }
}

impl Clone for Todo {
    fn clone(&self) -> (r: Todo)
        ensures
            r@ == self@,
    {
        Todo {
            id: self.id.clone(),
            title: self.title.clone(),
            completed: self.completed,
            created_at: self.created_at.clone(),
        }
    }
}

} // verus!
