use todo_shell::command::parse_repl_command;
use todo_shell::session::{execute_command, StepOutcome};
use todo_shell::store::{AccessError, NewUser, Store};

/// Parses one line and dispatches it, the way the session loop does.
fn run(store: &mut Store, user_id: i32, line: &str) -> StepOutcome {
    let cmd = parse_repl_command(line).unwrap();
    execute_command(store, user_id, &cmd)
}

#[test]
fn end_to_end_scenario() {
    // The deployed store starts with the superuser in place.
    let mut store = Store::new();
    store
        .insert_user(NewUser { username: "admin".to_string(), password: "root".to_string() })
        .unwrap();

    // Authenticate as user 1 and create alice.
    let admin = store.authenticate_user("admin", "root").unwrap();
    assert_eq!(admin, 1);
    assert!(matches!(run(&mut store, admin, "create-user alice secret"), StepOutcome::UserCreated(2)));

    // Authenticate as alice and create one todo.
    let alice = store.authenticate_user("alice", "secret").unwrap();
    assert!(matches!(
        run(&mut store, alice, "create-todo \"write report\""),
        StepOutcome::TodoCreated(1)
    ));

    // The unfiltered listing shows one pending item.
    match run(&mut store, alice, "list-all-todos") {
        StepOutcome::TodoList(v) => {
            assert_eq!(v.len(), 1);
            assert_eq!(v[0].description, "write report");
            assert!(!v[0].completed);
        },
        other => panic!("expected a listing, got {:?}", other),
    }

    // Mark it done; the pending listing is then empty.
    assert!(matches!(run(&mut store, alice, "mark-todo-as-done 1"), StepOutcome::TodoMarkedDone));
    match run(&mut store, alice, "list-all-pending-todos") {
        StepOutcome::TodoList(v) => assert_eq!(v.len(), 0),
        other => panic!("expected a listing, got {:?}", other),
    }
}

#[test]
fn dispatch_outcomes_for_the_stateless_commands() {
    let mut store = Store::new();
    store
        .insert_user(NewUser { username: "admin".to_string(), password: "root".to_string() })
        .unwrap();
    assert!(matches!(run(&mut store, 1, "help"), StepOutcome::ShowHelp));
    assert!(matches!(run(&mut store, 1, "exit"), StepOutcome::ExitRequested));
    // The grammar only validates the password change; the loop prompts for
    // the passwords afterwards.
    assert!(matches!(run(&mut store, 1, "change-password now"), StepOutcome::PasswordPromptNeeded));
}

#[test]
fn dispatch_surfaces_access_errors_and_continues() {
    let mut store = Store::new();
    store
        .insert_user(NewUser { username: "admin".to_string(), password: "root".to_string() })
        .unwrap();
    let alice = match run(&mut store, 1, "create-user alice secret") {
        StepOutcome::UserCreated(id) => id,
        other => panic!("expected a created user, got {:?}", other),
    };
    assert!(matches!(
        run(&mut store, alice, "create-user eve pw"),
        StepOutcome::Failed(AccessError::Authorization)
    ));
    assert!(matches!(
        run(&mut store, alice, "delete-todo 1"),
        StepOutcome::Failed(AccessError::NotFound)
    ));
    assert!(matches!(
        run(&mut store, alice, "edit-todo 1 text"),
        StepOutcome::Failed(AccessError::NotFound)
    ));
}
