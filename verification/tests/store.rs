use todo_store::store::TodoStore;
use todo_store::todo::Todo;

fn find<'a>(all: &'a [Todo], id: &str) -> Option<&'a Todo> {
    all.iter().find(|t| t.id == id)
}

#[test]
fn create_returns_record_with_title_and_defaults() {
    let mut s = TodoStore::new();
    let t = s.add_todo(String::from("buy milk"));
    assert_eq!(t.title, "buy milk");
    assert!(!t.completed);
    assert!(!t.id.is_empty());
}

#[test]
fn create_accepts_empty_title() {
    let mut s = TodoStore::new();
    let t = s.add_todo(String::new());
    assert_eq!(t.title, "");
    assert!(!t.completed);
    let all = s.get_all_todos();
    assert_eq!(all.len(), 1);
    assert_eq!(all[0].title, "");
}

#[test]
fn created_ids_are_pairwise_distinct() {
    let mut s = TodoStore::new();
    let mut ids: Vec<String> = Vec::new();
    for i in 0..50 {
        let t = s.add_todo(format!("task {}", i));
        ids.push(t.id);
    }
    for a in 0..ids.len() {
        for b in (a + 1)..ids.len() {
            assert_ne!(ids[a], ids[b]);
        }
    }
}

#[test]
fn create_then_list_round_trip() {
    let mut s = TodoStore::new();
    let t = s.add_todo(String::from("water the plants"));
    let all = s.get_all_todos();
    let got = find(&all, &t.id).expect("created record must be listed");
    assert_eq!(got.title, "water the plants");
    assert!(!got.completed);
    assert_eq!(got.id, t.id);
    assert_eq!(got.created_at, t.created_at);
}

#[test]
fn update_title_leaves_completed_alone() {
    let mut s = TodoStore::new();
    let t = s.add_todo(String::from("old title"));
    let done = s
        .update_todo(&t.id, None, Some(true))
        .expect("record exists");
    assert!(done.completed);
    let u = s
        .update_todo(&t.id, Some(String::from("x")), None)
        .expect("record exists");
    assert_eq!(u.title, "x");
    assert!(u.completed, "completed must keep its prior value");
    assert_eq!(u.id, t.id);
    assert_eq!(u.created_at, t.created_at);
}

#[test]
fn update_completed_leaves_title_alone() {
    let mut s = TodoStore::new();
    let t = s.add_todo(String::from("keep me"));
    let u = s
        .update_todo(&t.id, None, Some(true))
        .expect("record exists");
    assert_eq!(u.title, "keep me", "title must keep its prior value");
    assert!(u.completed);
    assert_eq!(u.id, t.id);
    assert_eq!(u.created_at, t.created_at);
}

#[test]
fn update_can_set_empty_title() {
    let mut s = TodoStore::new();
    let t = s.add_todo(String::from("something"));
    let u = s
        .update_todo(&t.id, Some(String::new()), None)
        .expect("record exists");
    assert_eq!(u.title, "");
    let all = s.get_all_todos();
    assert_eq!(find(&all, &t.id).unwrap().title, "");
}

#[test]
fn noop_update_returns_record_unchanged() {
    let mut s = TodoStore::new();
    let t = s.add_todo(String::from("as is"));
    let u = s.update_todo(&t.id, None, None).expect("record exists");
    assert_eq!(u.id, t.id);
    assert_eq!(u.title, t.title);
    assert_eq!(u.completed, t.completed);
    assert_eq!(u.created_at, t.created_at);
    let all = s.get_all_todos();
    assert_eq!(all.len(), 1);
}

#[test]
fn update_unknown_id_is_not_found_and_changes_nothing() {
    let mut s = TodoStore::new();
    let t = s.add_todo(String::from("only one"));
    let before: Vec<Todo> = s.get_all_todos();
    let r = s.update_todo("nonexistent", Some(String::from("x")), Some(true));
    assert!(r.is_none());
    let after = s.get_all_todos();
    assert_eq!(after.len(), before.len());
    let got = find(&after, &t.id).unwrap();
    assert_eq!(got.title, "only one");
    assert!(!got.completed);
}

#[test]
fn delete_unknown_id_is_not_found_and_changes_nothing() {
    let mut s = TodoStore::new();
    let t = s.add_todo(String::from("still here"));
    let removed = s.delete_todo("nonexistent");
    assert!(!removed);
    let after = s.get_all_todos();
    assert_eq!(after.len(), 1);
    assert!(find(&after, &t.id).is_some());
}

#[test]
fn delete_removes_exactly_one() {
    let mut s = TodoStore::new();
    let a = s.add_todo(String::from("first"));
    let b = s.add_todo(String::from("second"));
    let c = s.add_todo(String::from("third"));
    assert!(s.delete_todo(&b.id));
    let after = s.get_all_todos();
    assert_eq!(after.len(), 2);
    assert!(find(&after, &b.id).is_none());
    assert!(find(&after, &a.id).is_some());
    assert!(find(&after, &c.id).is_some());
    assert!(s.update_todo(&b.id, None, Some(true)).is_none());
    assert!(!s.delete_todo(&b.id));
}

#[test]
fn full_scenario() {
    let mut s = TodoStore::new();
    let t = s.add_todo(String::from("buy milk"));
    assert_eq!(t.title, "buy milk");
    assert!(!t.completed);
    let stamp = t.created_at.clone();

    let u = s
        .update_todo(&t.id, None, Some(true))
        .expect("record exists");
    assert_eq!(u.id, t.id);
    assert_eq!(u.title, "buy milk");
    assert!(u.completed);
    assert_eq!(u.created_at, stamp);

    let all = s.get_all_todos();
    assert_eq!(all.len(), 1);
    assert_eq!(all[0].id, t.id);
    assert_eq!(all[0].title, "buy milk");
    assert!(all[0].completed);
    assert_eq!(all[0].created_at, stamp);

    assert!(s.delete_todo(&t.id));
    assert!(s.get_all_todos().is_empty());
    assert!(!s.delete_todo(&t.id));
}

#[test]
fn new_store_lists_nothing() {
    let s = TodoStore::new();
    assert!(s.get_all_todos().is_empty());
}

#[test]
fn snapshots_are_owned_copies() {
    let mut s = TodoStore::new();
    let t = s.add_todo(String::from("snapshot"));
    let mut all = s.get_all_todos();
    all[0].title = String::from("scribbled on");
    all[0].completed = true;
    let again = s.get_all_todos();
    let got = find(&again, &t.id).unwrap();
    assert_eq!(got.title, "snapshot");
    assert!(!got.completed);
}
