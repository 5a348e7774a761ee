use todo_shell::store::{AccessError, NewUser, Store};

/// A store seeded with the superuser, the way a deployed instance starts.
fn seeded() -> Store {
    let mut store = Store::new();
    let admin = store
        .insert_user(NewUser { username: "admin".to_string(), password: "root".to_string() })
        .unwrap();
    assert_eq!(admin.id, 1);
    store
}

#[test]
fn superuser_only_user_creation() {
    let mut store = seeded();
    // Any requester but user 1 is refused before the store is touched.
    assert_eq!(
        store.create_new_user(2, "mallory", "pw"),
        Err(AccessError::Authorization)
    );
    assert_eq!(store.authenticate_user("mallory", "pw"), Err(AccessError::Authentication));
    // The superuser may create users.
    let alice = store.create_new_user(1, "alice", "secret").unwrap();
    assert_eq!(alice.id, 2);
    assert_eq!(store.authenticate_user("alice", "secret"), Ok(2));
}

#[test]
fn duplicate_username_is_a_store_error() {
    let mut store = seeded();
    store.create_new_user(1, "alice", "secret").unwrap();
    assert_eq!(store.create_new_user(1, "alice", "other"), Err(AccessError::Store));
    // The original credentials still work.
    assert_eq!(store.authenticate_user("alice", "secret"), Ok(2));
}

#[test]
fn authenticate_requires_exact_username_and_password_match() {
    let mut store = seeded();
    store.create_new_user(1, "alice", "secret").unwrap();
    assert_eq!(store.authenticate_user("alice", "secret"), Ok(2));
    // A wrong password and an unknown username fail with the same error.
    assert_eq!(store.authenticate_user("alice", "wrong"), Err(AccessError::Authentication));
    assert_eq!(store.authenticate_user("bob", "secret"), Err(AccessError::Authentication));
    // Matching is case-sensitive.
    assert_eq!(store.authenticate_user("Alice", "secret"), Err(AccessError::Authentication));
}

#[test]
fn get_username_looks_up_by_id() {
    let mut store = seeded();
    store.create_new_user(1, "alice", "secret").unwrap();
    assert_eq!(store.get_username_for_user_id(2), Ok("alice".to_string()));
    assert_eq!(store.get_username_for_user_id(9), Err(AccessError::NotFound));
}

#[test]
fn change_password_needs_the_old_password_and_the_own_id() {
    let mut store = seeded();
    store.create_new_user(1, "alice", "secret").unwrap();
    // Wrong old password: nothing changes.
    assert_eq!(store.change_user_password(2, "wrong", "next"), Err(AccessError::NotFound));
    assert_eq!(store.authenticate_user("alice", "secret"), Ok(2));
    // Another user's (id, password) pair does not match the requester.
    assert_eq!(store.change_user_password(2, "root", "next"), Err(AccessError::NotFound));
    // The right pair changes exactly the requester's password.
    assert_eq!(store.change_user_password(2, "secret", "next"), Ok(()));
    assert_eq!(store.authenticate_user("alice", "next"), Ok(2));
    assert_eq!(store.authenticate_user("alice", "secret"), Err(AccessError::Authentication));
    assert_eq!(store.authenticate_user("admin", "root"), Ok(1));
}

#[test]
fn ownership_isolation_between_two_users() {
    let mut store = seeded();
    let alice = store.create_new_user(1, "alice", "a").unwrap().id;
    let bob = store.create_new_user(1, "bob", "b").unwrap().id;
    let todo = store.create_new_todo(alice, "alice's plan").unwrap();

    // Bob's listings and searches never show Alice's row.
    assert_eq!(store.get_all_todos_for_user(bob).unwrap().len(), 0);
    assert_eq!(store.get_all_pending_todos_for_user(bob).unwrap().len(), 0);
    assert_eq!(store.search_todo_by_description(bob, "plan").unwrap().len(), 0);

    // Bob's writes against Alice's id fail like a missing row and mutate
    // nothing.
    assert_eq!(store.delete_todo(bob, todo.id), Err(AccessError::NotFound));
    assert_eq!(store.update_todo(bob, todo.id, "hijacked"), Err(AccessError::NotFound));
    assert_eq!(store.mark_todo_done(bob, todo.id), Err(AccessError::NotFound));

    let alices = store.get_all_todos_for_user(alice).unwrap();
    assert_eq!(alices.len(), 1);
    assert_eq!(alices[0].description, "alice's plan");
    assert!(!alices[0].completed);
}

#[test]
fn create_list_mark_round_trip() {
    let mut store = seeded();
    let u = store.create_new_user(1, "alice", "a").unwrap().id;
    let todo = store.create_new_todo(u, "buy milk").unwrap();
    assert!(!todo.completed);

    let all = store.get_all_todos_for_user(u).unwrap();
    assert_eq!(all.len(), 1);
    assert_eq!(all[0].id, todo.id);
    assert_eq!(all[0].description, "buy milk");
    assert!(!all[0].completed);

    assert_eq!(store.mark_todo_done(u, todo.id), Ok(()));
    let pending = store.get_all_pending_todos_for_user(u).unwrap();
    assert!(pending.iter().all(|t| t.id != todo.id));
    assert_eq!(pending.len(), 0);
    let all = store.get_all_todos_for_user(u).unwrap();
    assert_eq!(all.len(), 1);
    assert_eq!(all[0].id, todo.id);
    assert!(all[0].completed);
}

#[test]
fn update_todo_replaces_the_description_in_place() {
    let mut store = seeded();
    let u = store.create_new_user(1, "alice", "a").unwrap().id;
    let first = store.create_new_todo(u, "one").unwrap();
    let second = store.create_new_todo(u, "two").unwrap();
    assert_eq!(store.update_todo(u, first.id, "one, revised"), Ok(()));
    let all = store.get_all_todos_for_user(u).unwrap();
    assert_eq!(all.len(), 2);
    assert_eq!(all[0].description, "one, revised");
    assert_eq!(all[1].description, "two");
    assert_eq!(all[1].id, second.id);
    assert_eq!(store.update_todo(u, 99, "nothing"), Err(AccessError::NotFound));
}

#[test]
fn delete_todo_removes_exactly_the_named_row() {
    let mut store = seeded();
    let u = store.create_new_user(1, "alice", "a").unwrap().id;
    let first = store.create_new_todo(u, "one").unwrap();
    let second = store.create_new_todo(u, "two").unwrap();
    assert_eq!(store.delete_todo(u, first.id), Ok(()));
    let all = store.get_all_todos_for_user(u).unwrap();
    assert_eq!(all.len(), 1);
    assert_eq!(all[0].id, second.id);
    // Deleting again: the row is gone.
    assert_eq!(store.delete_todo(u, first.id), Err(AccessError::NotFound));
}

#[test]
fn search_is_case_sensitive_substring_match() {
    let mut store = seeded();
    let u = store.create_new_user(1, "alice", "a").unwrap().id;
    store.create_new_todo(u, "buy milk").unwrap();
    store.create_new_todo(u, "make tea").unwrap();
    store.create_new_todo(u, "buy more milk").unwrap();

    let hits = store.search_todo_by_description(u, "milk").unwrap();
    assert_eq!(hits.len(), 2);
    assert_eq!(hits[0].description, "buy milk");
    assert_eq!(hits[1].description, "buy more milk");

    assert_eq!(store.search_todo_by_description(u, "Milk").unwrap().len(), 0);
    // The empty needle matches every row, like an unanchored pattern.
    assert_eq!(store.search_todo_by_description(u, "").unwrap().len(), 3);
    assert_eq!(store.search_todo_by_description(u, "coffee").unwrap().len(), 0);
}

#[test]
fn listing_keeps_store_assigned_id_order() {
    let mut store = seeded();
    let u = store.create_new_user(1, "alice", "a").unwrap().id;
    let a = store.create_new_todo(u, "first").unwrap();
    let b = store.create_new_todo(u, "second").unwrap();
    let c = store.create_new_todo(u, "third").unwrap();
    assert!(a.id < b.id && b.id < c.id);
    let all = store.get_all_todos_for_user(u).unwrap();
    let ids: Vec<i32> = all.iter().map(|t| t.id).collect();
    assert_eq!(ids, vec![a.id, b.id, c.id]);
}
