//! The session's dispatch step: one parsed command, executed against the
//! store under the session's authenticated user id. The surrounding loop —
//! prompting, rendering, masked password input — stays outside the library;
//! this function is the decision it runs on each turn.

use crate::command::{ReplCommand, SpecCommand};
use crate::store::{
    completed_todo, matching_todos_of, pending_todos_of, todo_matches, todo_slot, todos_of,
    username_taken, with_description, with_password, AccessError, SpecStore, SpecTodo, SpecUser,
    Store, Todo,
};
use crate::SUPERUSER_ID;
use vstd::prelude::*;

verus! {

/// What one dispatched command produced, for the loop to render.
#[derive(Debug)]
pub enum StepOutcome {
    /// The user was created, with this id.
    UserCreated(i32),
    /// The command is a password change: the loop must prompt (masked) for
    /// the old and the new password and call the store's password change.
    PasswordPromptNeeded,
    /// The todo was created, with this id.
    TodoCreated(i32),
    /// A listing or search result, in stored order.
    TodoList(Vec<Todo>),
    /// The description was replaced.
    TodoEdited,
    /// The row was deleted.
    TodoDeleted,
    /// The row was marked done.
    TodoMarkedDone,
    /// Render the command summary.
    ShowHelp,
    /// Leave the session loop.
    ExitRequested,
    /// The operation failed; the session continues.
    Failed(AccessError),
}

/// What dispatching a command does: how the store after the step and the
/// outcome relate to the store before it, for each command.
pub open spec fn step_spec(
    pre: SpecStore,
    post: SpecStore,
    uid: int,
    c: SpecCommand,
    r: StepOutcome,
) -> bool {
    match c {
        SpecCommand::CreateUser(name, pw) => {
            &&& post.todos == pre.todos
            &&& post.next_todo_id == pre.next_todo_id
            &&& uid != SUPERUSER_ID as int ==> r == StepOutcome::Failed(AccessError::Authorization)
                && post == pre
            &&& (r matches StepOutcome::UserCreated(id) <==> uid == SUPERUSER_ID as int
                && !username_taken(pre.users, name) && pre.next_user_id < i32::MAX)
            &&& r matches StepOutcome::UserCreated(id) ==> id == pre.next_user_id && post.users
                == pre.users.push(
                SpecUser { id: pre.next_user_id, username: name, password: pw },
            ) && post.next_user_id == pre.next_user_id + 1
            &&& uid == SUPERUSER_ID as int && !(r matches StepOutcome::UserCreated(_)) ==> r
                == StepOutcome::Failed(AccessError::Store) && post == pre
        },
        SpecCommand::ChangePassword => r == StepOutcome::PasswordPromptNeeded && post == pre,
        SpecCommand::CreateTodo(d) => {
            &&& post.users == pre.users
            &&& post.next_user_id == pre.next_user_id
            &&& (r matches StepOutcome::TodoCreated(id) <==> pre.next_todo_id < i32::MAX)
            &&& r matches StepOutcome::TodoCreated(id) ==> id == pre.next_todo_id && post.todos
                == pre.todos.push(
                SpecTodo { id: pre.next_todo_id, description: d, completed: false, user_id: uid },
            ) && post.next_todo_id == pre.next_todo_id + 1
            &&& !(r matches StepOutcome::TodoCreated(_)) ==> r == StepOutcome::Failed(
                AccessError::Store,
            ) && post == pre
        },
        SpecCommand::SearchTodo(d) => post == pre && (r matches StepOutcome::TodoList(v)
            && v@.map_values(|t: Todo| t@) == matching_todos_of(pre.todos, uid, d)),
        SpecCommand::EditTodo(id, d) => {
            &&& post.users == pre.users
            &&& post.next_user_id == pre.next_user_id
            &&& post.next_todo_id == pre.next_todo_id
            &&& (r == StepOutcome::TodoEdited <==> todo_slot(pre.todos, id, uid))
            &&& !todo_slot(pre.todos, id, uid) ==> r == StepOutcome::Failed(AccessError::NotFound)
                && post == pre
            &&& todo_slot(pre.todos, id, uid) ==> exists|i: int|
                0 <= i < pre.todos.len() && todo_matches(#[trigger] pre.todos[i], id, uid)
                    && post.todos == pre.todos.update(i, with_description(pre.todos[i], d))
        },
        SpecCommand::DeleteTodo(id) => {
            &&& post.users == pre.users
            &&& post.next_user_id == pre.next_user_id
            &&& post.next_todo_id == pre.next_todo_id
            &&& (r == StepOutcome::TodoDeleted <==> todo_slot(pre.todos, id, uid))
            &&& !todo_slot(pre.todos, id, uid) ==> r == StepOutcome::Failed(AccessError::NotFound)
                && post == pre
            &&& todo_slot(pre.todos, id, uid) ==> exists|i: int|
                0 <= i < pre.todos.len() && todo_matches(#[trigger] pre.todos[i], id, uid)
                    && post.todos == pre.todos.remove(i)
        },
        SpecCommand::MarkTodoAsDone(id) => {
            &&& post.users == pre.users
            &&& post.next_user_id == pre.next_user_id
            &&& post.next_todo_id == pre.next_todo_id
            &&& (r == StepOutcome::TodoMarkedDone <==> todo_slot(pre.todos, id, uid))
            &&& !todo_slot(pre.todos, id, uid) ==> r == StepOutcome::Failed(AccessError::NotFound)
                && post == pre
            &&& todo_slot(pre.todos, id, uid) ==> exists|i: int|
                0 <= i < pre.todos.len() && todo_matches(#[trigger] pre.todos[i], id, uid)
                    && post.todos == pre.todos.update(i, completed_todo(pre.todos[i]))
        },
        SpecCommand::ListAllTodos => post == pre && (r matches StepOutcome::TodoList(v)
            && v@.map_values(|t: Todo| t@) == todos_of(pre.todos, uid)),
        SpecCommand::ListAllPendingTodos => post == pre && (r matches StepOutcome::TodoList(v)
            && v@.map_values(|t: Todo| t@) == pending_todos_of(pre.todos, uid)),
        SpecCommand::Help => r == StepOutcome::ShowHelp && post == pre,
        SpecCommand::Exit => r == StepOutcome::ExitRequested && post == pre,
    }
}

/// Executes one parsed command against the store on behalf of the
/// authenticated user, returning what the loop should render. Exactly
/// [`step_spec`] relates the store before and after to the outcome.
pub fn execute_command(store: &mut Store, user_id: i32, cmd: &ReplCommand) -> (r: StepOutcome)
    requires
        old(store).wf(),
    ensures
        final(store).wf(),
        step_spec(old(store)@, final(store)@, user_id as int, cmd@, r),
{
    match cmd {
        ReplCommand::CreateUser(username, password) => {
            match store.create_new_user(user_id, username.as_str(), password.as_str()) {
                Ok(u) => StepOutcome::UserCreated(u.id),
                Err(e) => StepOutcome::Failed(e),
            }
        },
        ReplCommand::ChangePassword => StepOutcome::PasswordPromptNeeded,
        ReplCommand::CreateTodo(description) => {
            match store.create_new_todo(user_id, description.as_str()) {
                Ok(t) => StepOutcome::TodoCreated(t.id),
                Err(e) => StepOutcome::Failed(e),
            }
        },
        ReplCommand::SearchTodo(description) => {
            match store.search_todo_by_description(user_id, description.as_str()) {
                Ok(v) => StepOutcome::TodoList(v),
                Err(e) => StepOutcome::Failed(e),
            }
        },
        ReplCommand::EditTodo(id, description) => {
            match store.update_todo(user_id, *id, description.as_str()) {
                Ok(()) => StepOutcome::TodoEdited,
                Err(e) => StepOutcome::Failed(e),
            }
        },
        ReplCommand::DeleteTodo(id) => {
            match store.delete_todo(user_id, *id) {
                Ok(()) => StepOutcome::TodoDeleted,
                Err(e) => StepOutcome::Failed(e),
            }
        },
        ReplCommand::MarkTodoAsDone(id) => {
            match store.mark_todo_done(user_id, *id) {
                Ok(()) => StepOutcome::TodoMarkedDone,
                Err(e) => StepOutcome::Failed(e),
            }
        },
        ReplCommand::ListAllTodos => {
            match store.get_all_todos_for_user(user_id) {
                Ok(v) => StepOutcome::TodoList(v),
                Err(e) => StepOutcome::Failed(e),
            }
        },
        ReplCommand::ListAllPendingTodos => {
            match store.get_all_pending_todos_for_user(user_id) {
                Ok(v) => StepOutcome::TodoList(v),
                Err(e) => StepOutcome::Failed(e),
            }
        },
        ReplCommand::Help => StepOutcome::ShowHelp,
        ReplCommand::Exit => StepOutcome::ExitRequested,
    }
}

} // verus!
