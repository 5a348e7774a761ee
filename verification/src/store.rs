//! The ownership-scoped access layer over the todo store. The store holds
//! the two relations — users and todos — with store-assigned increasing ids.
//! Every todo operation is filtered by the session's authenticated user id:
//! a row owned by someone else behaves exactly like a missing row. Only the
//! superuser may create users; username uniqueness is a store-level
//! constraint enforced at insertion.

use crate::text::{contains_seq, str_contains, str_eq};
use crate::SUPERUSER_ID;
use vstd::prelude::*;
use vstd::seq_lib::*;
use vstd::string::*;

verus! {

/// A stored user row.
#[derive(Debug, PartialEq, Eq)]
pub struct User {
    pub id: i32,
    pub username: String,
    pub password: String,
}

/// The mathematical image of a user row.
pub struct SpecUser {
    pub id: int,
    pub username: Seq<char>,
    pub password: Seq<char>,
}

impl View for User {
    type V = SpecUser;

    open spec fn view(&self) -> SpecUser {
        SpecUser { id: self.id as int, username: self.username@, password: self.password@ }
    }
}

/// A stored todo row.
#[derive(Debug, PartialEq, Eq)]
pub struct Todo {
    pub id: i32,
    pub description: String,
    pub completed: bool,
    pub user_id: i32,
}

/// The mathematical image of a todo row.
pub struct SpecTodo {
    pub id: int,
    pub description: Seq<char>,
    pub completed: bool,
    pub user_id: int,
}

impl View for Todo {
    type V = SpecTodo;

    open spec fn view(&self) -> SpecTodo {
        SpecTodo {
            id: self.id as int,
            description: self.description@,
            completed: self.completed,
            user_id: self.user_id as int,
        }
    }
}

/// The payload of a user insertion; the store assigns the id.
pub struct NewUser {
    pub username: String,
    pub password: String,
}

/// The payload of a todo insertion; the store assigns the id and the new
/// row starts out pending.
pub struct NewTodo {
    pub description: String,
    pub user_id: i32,
}

/// Why an access-layer operation failed.
#[derive(Clone, Copy, PartialEq, Eq, Structural, Debug)]
pub enum AccessError {
    /// A non-superuser attempted a superuser-only operation.
    Authorization,
    /// No user matches the supplied credentials.
    Authentication,
    /// No row with the given id is owned by the requester; whether the id
    /// exists under another owner is deliberately not revealed.
    NotFound,
    /// The store refused a write: a duplicate username, or no id left.
    Store,
}

/// The mathematical image of the whole store.
pub struct SpecStore {
    pub users: Seq<SpecUser>,
    pub todos: Seq<SpecTodo>,
    pub next_user_id: int,
    pub next_todo_id: int,
}

/// Some user already holds this username.
pub open spec fn username_taken(users: Seq<SpecUser>, name: Seq<char>) -> bool {
    exists|i: int| 0 <= i < users.len() && (#[trigger] users[i]).username == name
}

/// The user matches the supplied credentials exactly.
pub open spec fn cred_match(u: SpecUser, name: Seq<char>, pw: Seq<char>) -> bool {
    u.username == name && u.password == pw
}

/// Some user has this id.
pub open spec fn has_user_id(users: Seq<SpecUser>, id: int) -> bool {
    exists|i: int| 0 <= i < users.len() && (#[trigger] users[i]).id == id
}

/// The user is the one with this id and knows this password.
pub open spec fn pw_matches(u: SpecUser, id: int, old_pw: Seq<char>) -> bool {
    u.id == id && u.password == old_pw
}

/// Some user row matches (id, old password).
pub open spec fn pw_slot(users: Seq<SpecUser>, id: int, old_pw: Seq<char>) -> bool {
    exists|i: int| 0 <= i < users.len() && pw_matches(#[trigger] users[i], id, old_pw)
}

/// The same user with the password replaced.
pub open spec fn with_password(u: SpecUser, pw: Seq<char>) -> SpecUser {
    SpecUser { password: pw, ..u }
}

/// The todo is the row with this id owned by this user.
pub open spec fn todo_matches(t: SpecTodo, id: int, owner: int) -> bool {
    t.id == id && t.user_id == owner
}

/// Some todo row matches (id, owner): the condition under which the
/// owner-scoped write operations find their row.
pub open spec fn todo_slot(todos: Seq<SpecTodo>, id: int, owner: int) -> bool {
    exists|i: int| 0 <= i < todos.len() && todo_matches(#[trigger] todos[i], id, owner)
}

/// The same todo with the description replaced.
pub open spec fn with_description(t: SpecTodo, d: Seq<char>) -> SpecTodo {
    SpecTodo { description: d, ..t }
}

/// The same todo, marked done.
pub open spec fn completed_todo(t: SpecTodo) -> SpecTodo {
    SpecTodo { completed: true, ..t }
}

/// The rows a user's unfiltered listing selects.
pub open spec fn owned_pred(owner: int) -> spec_fn(SpecTodo) -> bool {
    |t: SpecTodo| t.user_id == owner
}

/// The rows a user's pending listing selects.
pub open spec fn pending_pred(owner: int) -> spec_fn(SpecTodo) -> bool {
    |t: SpecTodo| t.user_id == owner && !t.completed
}

/// The rows a user's substring search selects.
pub open spec fn matching_pred(owner: int, needle: Seq<char>) -> spec_fn(SpecTodo) -> bool {
    |t: SpecTodo| t.user_id == owner && contains_seq(t.description, needle)
}

/// A user's todos, in stored (id-ascending) order.
pub open spec fn todos_of(todos: Seq<SpecTodo>, owner: int) -> Seq<SpecTodo> {
    todos.filter(owned_pred(owner))
}

/// A user's pending todos, in stored order.
pub open spec fn pending_todos_of(todos: Seq<SpecTodo>, owner: int) -> Seq<SpecTodo> {
    todos.filter(pending_pred(owner))
}

/// A user's todos whose description contains the needle, in stored order.
pub open spec fn matching_todos_of(todos: Seq<SpecTodo>, owner: int, needle: Seq<char>) -> Seq<
    SpecTodo,
> {
    todos.filter(matching_pred(owner, needle))
}

/// Filtering distributes over appending one element.
proof fn lemma_filter_push<A>(s: Seq<A>, pred: spec_fn(A) -> bool, x: A)
    ensures
        pred(x) ==> (s.push(x)).filter(pred) == s.filter(pred).push(x),
        !pred(x) ==> (s.push(x)).filter(pred) == s.filter(pred),
{
    reveal(Seq::filter);
    assert((s.push(x)).drop_last() =~= s);
}

/// Every element of a filtered sequence is an element of the original.
proof fn lemma_filter_elements<A>(s: Seq<A>, pred: spec_fn(A) -> bool, k: int)
    requires
        0 <= k < s.filter(pred).len(),
    ensures
        exists|j: int| 0 <= j < s.len() && #[trigger] s[j] == s.filter(pred)[k],
    decreases s.len(),
{
    reveal(Seq::filter);
    if s.len() > 0 {
        let prefix = s.drop_last();
        if k < prefix.filter(pred).len() {
            lemma_filter_elements(prefix, pred, k);
            let j = choose|j: int| 0 <= j < prefix.len() && #[trigger] prefix[j] == prefix.filter(
                pred,
            )[k];
            assert(s[j] == s.filter(pred)[k]);
        } else {
            assert(s[s.len() - 1] == s.filter(pred)[k]);
        }
    }
}

/// The authenticated, ownership-scoped todo store: the two relations and
/// the ids the next insertions will be assigned.
pub struct Store {
    users: Vec<User>,
    todos: Vec<Todo>,
    next_user_id: i32,
    next_todo_id: i32,
}

impl View for Store {
    type V = SpecStore;

    closed spec fn view(&self) -> SpecStore {
        SpecStore {
            users: self.users@.map_values(|u: User| u@),
            todos: self.todos@.map_values(|t: Todo| t@),
            next_user_id: self.next_user_id as int,
            next_todo_id: self.next_todo_id as int,
        }
    }
}

impl Store {
    /// Well-formedness: ids are positive, unique, below the next id and
    /// increase along each relation (so stored order is id-ascending
    /// insertion order), and usernames are unique.
    pub open spec fn wf(&self) -> bool {
        &&& forall|i: int|
            0 <= i < self@.users.len() ==> 0 < (#[trigger] self@.users[i]).id
                < self@.next_user_id
        &&& forall|i: int, j: int|
            0 <= i < j < self@.users.len() ==> (#[trigger] self@.users[i]).id < (
            #[trigger] self@.users[j]).id
        &&& forall|i: int, j: int|
            0 <= i < self@.users.len() && 0 <= j < self@.users.len() && i != j ==> (
            #[trigger] self@.users[i]).username != (#[trigger] self@.users[j]).username
        &&& forall|i: int|
            0 <= i < self@.todos.len() ==> 0 < (#[trigger] self@.todos[i]).id
                < self@.next_todo_id
        &&& forall|i: int, j: int|
            0 <= i < j < self@.todos.len() ==> (#[trigger] self@.todos[i]).id < (
            #[trigger] self@.todos[j]).id
        &&& 0 < self@.next_user_id <= i32::MAX
        &&& 0 < self@.next_todo_id <= i32::MAX
    }

    /// An empty store; the first user and todo will get id 1.
    pub fn new() -> (r: Store)
        ensures
            r.wf(),
            r@.users == Seq::<SpecUser>::empty(),
            r@.todos == Seq::<SpecTodo>::empty(),
            r@.next_user_id == 1,
            r@.next_todo_id == 1,
    {
        let s = Store { users: Vec::new(), todos: Vec::new(), next_user_id: 1, next_todo_id: 1 };
        proof {
            assert(s@.users =~= Seq::<SpecUser>::empty());
            assert(s@.todos =~= Seq::<SpecTodo>::empty());
        }
        s
    }

    /// Whether some stored user already holds this username.
    #[verifier::loop_isolation(false)]
    fn username_exists(&self, name: &str) -> (r: bool)
        ensures
            r == username_taken(self@.users, name@),
    {
        let mut i: usize = 0;
        while i < self.users.len()
            invariant
                i <= self.users.len(),
                forall|k: int| 0 <= k < i ==> (#[trigger] self@.users[k]).username != name@,
            decreases self.users.len() - i,
        {
            if str_eq(self.users[i].username.as_str(), name) {
                proof {
                    assert((self@.users[i as int]).username == name@);
                }
                return true;
            }
            i = i + 1;
        }
        false
    }

    /// Inserts a user row, enforcing the store-level username-uniqueness
    /// constraint, and returns the stored row with its assigned id.
    ///
    /// This models the persistence handle's insert-one-returning request:
    /// it checks no authorization. The access-layer entry point for user
    /// creation is [`Store::create_new_user`].
    pub fn insert_user(&mut self, new_user: NewUser) -> (r: Result<User, AccessError>)
        requires
            old(self).wf(),
        ensures
            final(self).wf(),
            final(self)@.todos == old(self)@.todos,
            final(self)@.next_todo_id == old(self)@.next_todo_id,
            r is Ok <==> !username_taken(old(self)@.users, new_user.username@) && old(
                self,
            )@.next_user_id < i32::MAX,
            r is Err ==> r == Err::<User, AccessError>(AccessError::Store) && final(self)@ == old(
                self,
            )@,
            r matches Ok(u) ==> u@.id == old(self)@.next_user_id && u@.username
                == new_user.username@ && u@.password == new_user.password@ && final(self)@.users
                == old(self)@.users.push(u@) && final(self)@.next_user_id == old(
                self,
            )@.next_user_id + 1,
    {
        if self.username_exists(new_user.username.as_str()) {
            return Err(AccessError::Store);
        }
        if self.next_user_id == i32::MAX {
            return Err(AccessError::Store);
        }
        let id = self.next_user_id;
        self.next_user_id = self.next_user_id + 1;
        let ghost prev = self@.users;
        let stored = User {
            id,
            username: new_user.username.clone(),
            password: new_user.password.clone(),
        };
        let ghost stored_view = stored@;
        self.users.push(stored);
        proof {
            assert(self@.users =~= prev.push(stored_view));
            let newu = self@.users;
            let next = self@.next_user_id;
            assert forall|k: int| 0 <= k < newu.len() implies 0 < (#[trigger] newu[k]).id
                < next by {
                if k < prev.len() {
                    assert(newu[k] == prev[k]);
                } else {
                    assert(newu[k] == stored_view);
                }
            }
            assert forall|a: int, b: int| 0 <= a < b < newu.len() implies (#[trigger] newu[a]).id
                < (#[trigger] newu[b]).id by {
                assert(newu[a] == prev[a]);
                if b < prev.len() {
                    assert(newu[b] == prev[b]);
                } else {
                    assert(newu[b] == stored_view);
                }
            }
            assert forall|a: int, b: int|
                0 <= a < newu.len() && 0 <= b < newu.len() && a != b implies (
            #[trigger] newu[a]).username != (#[trigger] newu[b]).username by {
                if a < prev.len() && b < prev.len() {
                    assert(newu[a] == prev[a] && newu[b] == prev[b]);
                } else if a < prev.len() {
                    assert(newu[b] == stored_view && newu[a] == prev[a]);
                } else {
                    assert(newu[a] == stored_view && newu[b] == prev[b]);
                }
            }
            assert(self@.todos == old(self)@.todos);
            assert forall|k: int| 0 <= k < self@.todos.len() implies 0 < (
            #[trigger] self@.todos[k]).id < self@.next_todo_id by {
                assert(self@.todos[k] == old(self)@.todos[k]);
            }
            assert forall|a: int, b: int| 0 <= a < b < self@.todos.len() implies (
            #[trigger] self@.todos[a]).id < (#[trigger] self@.todos[b]).id by {
                assert(self@.todos[a] == old(self)@.todos[a]);
                assert(self@.todos[b] == old(self)@.todos[b]);
            }
        }
        Ok(User { id, username: new_user.username, password: new_user.password })
    }

    /// Creates a user on behalf of `user_id`: only the superuser may, and
    /// any other requester fails with an authorization error before the
    /// store is touched.
    pub fn create_new_user(&mut self, user_id: i32, username: &str, password: &str) -> (r: Result<
        User,
        AccessError,
    >)
        requires
            old(self).wf(),
        ensures
            final(self).wf(),
            final(self)@.todos == old(self)@.todos,
            final(self)@.next_todo_id == old(self)@.next_todo_id,
            user_id != SUPERUSER_ID ==> r == Err::<User, AccessError>(AccessError::Authorization)
                && final(self)@ == old(self)@,
            r is Ok <==> user_id == SUPERUSER_ID && !username_taken(old(self)@.users, username@)
                && old(self)@.next_user_id < i32::MAX,
            user_id == SUPERUSER_ID && !(r is Ok) ==> r == Err::<User, AccessError>(
                AccessError::Store,
            ) && final(self)@ == old(self)@,
            r matches Ok(u) ==> u@.id == old(self)@.next_user_id && u@.username == username@
                && u@.password == password@ && final(self)@.users == old(self)@.users.push(u@)
                && final(self)@.next_user_id == old(self)@.next_user_id + 1,
    {
        if user_id != SUPERUSER_ID {
            return Err(AccessError::Authorization);
        }
        self.insert_user(
            NewUser { username: String::from_str(username), password: String::from_str(password) },
        )
    }

    /// Looks a user up by exact username and password match and returns the
    /// id; a miss is one undifferentiated credentials error, whether the
    /// username exists or not.
    #[verifier::loop_isolation(false)]
    pub fn authenticate_user(&self, username: &str, password: &str) -> (r: Result<
        i32,
        AccessError,
    >)
        ensures
            r is Ok <==> exists|i: int|
                0 <= i < self@.users.len() && cred_match(
                    #[trigger] self@.users[i],
                    username@,
                    password@,
                ),
            r matches Ok(id) ==> exists|i: int|
                0 <= i < self@.users.len() && cred_match(
                    #[trigger] self@.users[i],
                    username@,
                    password@,
                ) && self@.users[i].id == id as int,
            r is Err ==> r == Err::<i32, AccessError>(AccessError::Authentication),
    {
        let mut i: usize = 0;
        while i < self.users.len()
            invariant
                i <= self.users.len(),
                forall|k: int|
                    0 <= k < i ==> !cred_match(#[trigger] self@.users[k], username@, password@),
            decreases self.users.len() - i,
        {
            let u = &self.users[i];
            if str_eq(u.username.as_str(), username) && str_eq(u.password.as_str(), password) {
                proof {
                    assert(cred_match(self@.users[i as int], username@, password@));
                }
                return Ok(u.id);
            }
            i = i + 1;
        }
        Err(AccessError::Authentication)
    }

    /// The username of the user with this id, or a not-found error.
    #[verifier::loop_isolation(false)]
    pub fn get_username_for_user_id(&self, user_id: i32) -> (r: Result<String, AccessError>)
        ensures
            r is Ok <==> has_user_id(self@.users, user_id as int),
            r matches Ok(name) ==> exists|i: int|
                0 <= i < self@.users.len() && (#[trigger] self@.users[i]).id == user_id as int
                    && self@.users[i].username == name@,
            r is Err ==> r == Err::<String, AccessError>(AccessError::NotFound),
    {
        let mut i: usize = 0;
        while i < self.users.len()
            invariant
                i <= self.users.len(),
                forall|k: int| 0 <= k < i ==> (#[trigger] self@.users[k]).id != user_id as int,
            decreases self.users.len() - i,
        {
            if self.users[i].id == user_id {
                proof {
                    assert((self@.users[i as int]).id == user_id as int);
                }
                return Ok(self.users[i].username.clone());
            }
            i = i + 1;
        }
        Err(AccessError::NotFound)
    }

    /// Changes the requesting user's password after finding that user's row
    /// by (id, old password); a miss is a not-found error and changes
    /// nothing.
    ///
    /// The store-level update predicate admits the looked-up row's id when
    /// it equals the requester's id or the superuser's; since the looked-up
    /// row is the requester's own, exactly that one row changes either way.
    #[verifier::loop_isolation(false)]
    pub fn change_user_password(
        &mut self,
        user_id: i32,
        old_password: &str,
        new_password: &str,
    ) -> (r: Result<(), AccessError>)
        requires
            old(self).wf(),
        ensures
            final(self).wf(),
            final(self)@.todos == old(self)@.todos,
            final(self)@.next_user_id == old(self)@.next_user_id,
            final(self)@.next_todo_id == old(self)@.next_todo_id,
            r is Ok <==> pw_slot(old(self)@.users, user_id as int, old_password@),
            r is Err ==> r == Err::<(), AccessError>(AccessError::NotFound) && final(self)@ == old(
                self,
            )@,
            r is Ok ==> exists|i: int|
                0 <= i < old(self)@.users.len() && pw_matches(
                    #[trigger] old(self)@.users[i],
                    user_id as int,
                    old_password@,
                ) && final(self)@.users == old(self)@.users.update(
                    i,
                    with_password(old(self)@.users[i], new_password@),
                ),
    {
        let mut i: usize = 0;
        while i < self.users.len()
            invariant
                i <= self.users.len(),
                *self == *old(self),
                forall|k: int|
                    0 <= k < i ==> !pw_matches(#[trigger] self@.users[k], user_id as int,
                    old_password@),
            decreases self.users.len() - i,
        {
            if self.users[i].id == user_id && str_eq(
                self.users[i].password.as_str(),
                old_password,
            ) {
                // The update targets the found row; the requester's id (or
                // the superuser's) is re-admitted by the predicate, which
                // cannot widen the match beyond this row.
                let ghost prev = self@.users;
                let ghost idx = i as int;
                self.users[i].password = String::from_str(new_password);
                proof {
                    assert(self@.users =~= prev.update(
                        idx,
                        with_password(prev[idx], new_password@),
                    ));
                    let newu = self@.users;
                    assert forall|k: int| 0 <= k < newu.len() implies (#[trigger] newu[k]).id
                        == prev[k].id && newu[k].username == prev[k].username by {
                        if k != idx {
                            assert(newu[k] == prev[k]);
                        }
                    }
                    assert forall|a: int, b: int|
                        0 <= a < newu.len() && 0 <= b < newu.len() && a != b implies (
                    #[trigger] newu[a]).username != (#[trigger] newu[b]).username by {
                        assert(newu[a].username == prev[a].username);
                        assert(newu[b].username == prev[b].username);
                    }
                    assert(self@.todos == old(self)@.todos);
                    assert forall|k: int| 0 <= k < self@.todos.len() implies 0 < (
                    #[trigger] self@.todos[k]).id < self@.next_todo_id by {
                        assert(self@.todos[k] == old(self)@.todos[k]);
                    }
                    assert forall|a: int, b: int| 0 <= a < b < self@.todos.len() implies (
                    #[trigger] self@.todos[a]).id < (#[trigger] self@.todos[b]).id by {
                        assert(self@.todos[a] == old(self)@.todos[a]);
                        assert(self@.todos[b] == old(self)@.todos[b]);
                    }
                    assert(pw_matches(prev[idx], user_id as int, old_password@));
                }
                return Ok(());
            }
            i = i + 1;
        }
        Err(AccessError::NotFound)
    }

    /// Inserts a todo row: the store assigns the id and the row starts out
    /// pending. Models the persistence handle's insert-one-returning
    /// request for the todo relation.
    pub fn insert_todo(&mut self, new_todo: NewTodo) -> (r: Result<Todo, AccessError>)
        requires
            old(self).wf(),
        ensures
            final(self).wf(),
            final(self)@.users == old(self)@.users,
            final(self)@.next_user_id == old(self)@.next_user_id,
            r is Ok <==> old(self)@.next_todo_id < i32::MAX,
            r is Err ==> r == Err::<Todo, AccessError>(AccessError::Store) && final(self)@ == old(
                self,
            )@,
            r matches Ok(t) ==> t@.id == old(self)@.next_todo_id && t@.description
                == new_todo.description@ && t@.completed == false && t@.user_id
                == new_todo.user_id as int && final(self)@.todos == old(self)@.todos.push(t@)
                && final(self)@.next_todo_id == old(self)@.next_todo_id + 1,
    {
        if self.next_todo_id == i32::MAX {
            return Err(AccessError::Store);
        }
        let id = self.next_todo_id;
        self.next_todo_id = self.next_todo_id + 1;
        let ghost prev = self@.todos;
        let stored = Todo {
            id,
            description: new_todo.description.clone(),
            completed: false,
            user_id: new_todo.user_id,
        };
        let ghost stored_view = stored@;
        self.todos.push(stored);
        proof {
            assert(prev == old(self)@.todos);
            assert(self@.todos =~= prev.push(stored_view));
            let newt = self@.todos;
            let next = self@.next_todo_id;
            assert(next == old(self)@.next_todo_id + 1);
            assert forall|k: int| 0 <= k < newt.len() implies 0 < (#[trigger] newt[k]).id
                < next by {
                if k < prev.len() {
                    assert(newt[k] == prev[k]);
                } else {
                    assert(newt[k] == stored_view);
                }
            }
            assert forall|a: int, b: int| 0 <= a < b < newt.len() implies (#[trigger] newt[a]).id
                < (#[trigger] newt[b]).id by {
                assert(newt[a] == prev[a]);
                if b < prev.len() {
                    assert(newt[b] == prev[b]);
                } else {
                    assert(newt[b] == stored_view);
                }
            }
            assert(self@.users == old(self)@.users);
            assert forall|k: int| 0 <= k < self@.users.len() implies 0 < (
            #[trigger] self@.users[k]).id < self@.next_user_id by {
                assert(self@.users[k] == old(self)@.users[k]);
            }
            assert forall|a: int, b: int| 0 <= a < b < self@.users.len() implies (
            #[trigger] self@.users[a]).id < (#[trigger] self@.users[b]).id by {
                assert(self@.users[a] == old(self)@.users[a]);
                assert(self@.users[b] == old(self)@.users[b]);
            }
            assert forall|a: int, b: int|
                0 <= a < self@.users.len() && 0 <= b < self@.users.len() && a != b implies (
            #[trigger] self@.users[a]).username != (#[trigger] self@.users[b]).username by {
                assert(self@.users[a] == old(self)@.users[a]);
                assert(self@.users[b] == old(self)@.users[b]);
            }
        }
        Ok(Todo {
            id,
            description: new_todo.description,
            completed: false,
            user_id: new_todo.user_id,
        })
    }

    /// Creates a todo owned by `user_id`, pending, with a store-assigned
    /// id, and returns the stored row.
    pub fn create_new_todo(&mut self, user_id: i32, description: &str) -> (r: Result<
        Todo,
        AccessError,
    >)
        requires
            old(self).wf(),
        ensures
            final(self).wf(),
            final(self)@.users == old(self)@.users,
            final(self)@.next_user_id == old(self)@.next_user_id,
            r is Ok <==> old(self)@.next_todo_id < i32::MAX,
            r is Err ==> r == Err::<Todo, AccessError>(AccessError::Store) && final(self)@ == old(
                self,
            )@,
            r matches Ok(t) ==> t@.id == old(self)@.next_todo_id && t@.description == description@
                && t@.completed == false && t@.user_id == user_id as int && final(self)@.todos
                == old(self)@.todos.push(t@) && final(self)@.next_todo_id == old(
                self,
            )@.next_todo_id + 1,
    {
        self.insert_todo(NewTodo { description: String::from_str(description), user_id })
    }

    /// The index of the row with this id owned by this user, if any: the
    /// shared owner-scoped lookup of the write operations.
    #[verifier::loop_isolation(false)]
    fn find_todo_index(&self, id: i32, user_id: i32) -> (r: Option<usize>)
        ensures
            r matches Some(i) ==> i < self@.todos.len() && todo_matches(
                self@.todos[i as int],
                id as int,
                user_id as int,
            ),
            r is None ==> !todo_slot(self@.todos, id as int, user_id as int),
    {
        let mut i: usize = 0;
        while i < self.todos.len()
            invariant
                i <= self.todos.len(),
                forall|k: int|
                    0 <= k < i ==> !todo_matches(#[trigger] self@.todos[k], id as int,
                    user_id as int),
            decreases self.todos.len() - i,
        {
            if self.todos[i].id == id && self.todos[i].user_id == user_id {
                proof {
                    assert(todo_matches(self@.todos[i as int], id as int, user_id as int));
                }
                return Some(i);
            }
            i = i + 1;
        }
        None
    }

    /// Re-establishes well-formedness and the user-side frame after a todo
    /// mutation that kept every remaining id one of the old ids, in order.
    proof fn lemma_todo_mutation_wf(&self, prev: &Store)
        requires
            prev.wf(),
            self@.users == prev@.users,
            self@.next_user_id == prev@.next_user_id,
            self@.next_todo_id == prev@.next_todo_id,
            forall|k: int|
                0 <= k < self@.todos.len() ==> exists|j: int|
                    0 <= j < prev@.todos.len() && (#[trigger] self@.todos[k]).id == (
                    #[trigger] prev@.todos[j]).id,
            forall|a: int, b: int|
                0 <= a < b < self@.todos.len() ==> (#[trigger] self@.todos[a]).id < (
                #[trigger] self@.todos[b]).id,
        ensures
            self.wf(),
    {
        assert forall|k: int| 0 <= k < self@.users.len() implies 0 < (
        #[trigger] self@.users[k]).id < self@.next_user_id by {
            assert(self@.users[k] == prev@.users[k]);
        }
        assert forall|a: int, b: int| 0 <= a < b < self@.users.len() implies (
        #[trigger] self@.users[a]).id < (#[trigger] self@.users[b]).id by {
            assert(self@.users[a] == prev@.users[a]);
            assert(self@.users[b] == prev@.users[b]);
        }
        assert forall|a: int, b: int|
            0 <= a < self@.users.len() && 0 <= b < self@.users.len() && a != b implies (
        #[trigger] self@.users[a]).username != (#[trigger] self@.users[b]).username by {
            assert(self@.users[a] == prev@.users[a]);
            assert(self@.users[b] == prev@.users[b]);
        }
        assert forall|k: int| 0 <= k < self@.todos.len() implies 0 < (
        #[trigger] self@.todos[k]).id < self@.next_todo_id by {
            let j = choose|j: int|
                0 <= j < prev@.todos.len() && (self@.todos[k]).id == (#[trigger] prev@.todos[j]).id;
            assert(0 < prev@.todos[j].id < prev@.next_todo_id);
        }
    }

    /// Deletes the row with this id owned by this user; a miss — the id
    /// missing or owned by someone else, indistinguishably — is a
    /// not-found error and changes nothing.
    pub fn delete_todo(&mut self, user_id: i32, id: i32) -> (r: Result<(), AccessError>)
        requires
            old(self).wf(),
        ensures
            final(self).wf(),
            final(self)@.users == old(self)@.users,
            final(self)@.next_user_id == old(self)@.next_user_id,
            final(self)@.next_todo_id == old(self)@.next_todo_id,
            r is Ok <==> todo_slot(old(self)@.todos, id as int, user_id as int),
            r is Err ==> r == Err::<(), AccessError>(AccessError::NotFound) && final(self)@ == old(
                self,
            )@,
            r is Ok ==> exists|i: int|
                0 <= i < old(self)@.todos.len() && todo_matches(
                    #[trigger] old(self)@.todos[i],
                    id as int,
                    user_id as int,
                ) && final(self)@.todos == old(self)@.todos.remove(i),
    {
        match self.find_todo_index(id, user_id) {
            None => Err(AccessError::NotFound),
            Some(i) => {
                let ghost prev_store = *self;
                let ghost prev = self@.todos;
                let ghost idx = i as int;
                self.todos.remove(i);
                proof {
                    prev.remove_ensures(idx);
                    assert(self@.todos =~= prev.remove(idx));
                    assert forall|a: int, b: int| 0 <= a < b < self@.todos.len() implies (
                    #[trigger] self@.todos[a]).id < (#[trigger] self@.todos[b]).id by {
                        if a < idx {
                            assert(self@.todos[a] == prev[a]);
                        } else {
                            assert(self@.todos[a] == prev[a + 1]);
                        }
                        if b < idx {
                            assert(self@.todos[b] == prev[b]);
                        } else {
                            assert(self@.todos[b] == prev[b + 1]);
                        }
                    }
                    assert forall|k: int| 0 <= k < self@.todos.len() implies exists|j: int|
                        0 <= j < prev_store@.todos.len() && (#[trigger] self@.todos[k]).id == (
                        #[trigger] prev_store@.todos[j]).id by {
                        if k < idx {
                            assert(self@.todos[k].id == prev_store@.todos[k].id);
                        } else {
                            assert(self@.todos[k].id == prev_store@.todos[k + 1].id);
                        }
                    }
                    self.lemma_todo_mutation_wf(&prev_store);
                }
                Ok(())
            },
        }
    }

    /// Replaces the description of the row with this id owned by this user;
    /// the same not-found behaviour as deletion on a miss.
    pub fn update_todo(&mut self, user_id: i32, id: i32, description: &str) -> (r: Result<
        (),
        AccessError,
    >)
        requires
            old(self).wf(),
        ensures
            final(self).wf(),
            final(self)@.users == old(self)@.users,
            final(self)@.next_user_id == old(self)@.next_user_id,
            final(self)@.next_todo_id == old(self)@.next_todo_id,
            r is Ok <==> todo_slot(old(self)@.todos, id as int, user_id as int),
            r is Err ==> r == Err::<(), AccessError>(AccessError::NotFound) && final(self)@ == old(
                self,
            )@,
            r is Ok ==> exists|i: int|
                0 <= i < old(self)@.todos.len() && todo_matches(
                    #[trigger] old(self)@.todos[i],
                    id as int,
                    user_id as int,
                ) && final(self)@.todos == old(self)@.todos.update(
                    i,
                    with_description(old(self)@.todos[i], description@),
                ),
    {
        match self.find_todo_index(id, user_id) {
            None => Err(AccessError::NotFound),
            Some(i) => {
                let ghost prev_store = *self;
                let ghost prev = self@.todos;
                let ghost idx = i as int;
                self.todos[i].description = String::from_str(description);
                proof {
                    assert(self@.todos =~= prev.update(
                        idx,
                        with_description(prev[idx], description@),
                    ));
                    assert forall|k: int| 0 <= k < self@.todos.len() implies (
                    #[trigger] self@.todos[k]).id == prev[k].id by {
                        if k != idx {
                            assert(self@.todos[k] == prev[k]);
                        }
                    }
                    assert forall|k: int| 0 <= k < self@.todos.len() implies exists|j: int|
                        0 <= j < prev_store@.todos.len() && (#[trigger] self@.todos[k]).id == (
                        #[trigger] prev_store@.todos[j]).id by {
                        assert(self@.todos[k].id == prev_store@.todos[k].id);
                    }
                    self.lemma_todo_mutation_wf(&prev_store);
                }
                Ok(())
            },
        }
    }

    /// Marks the row with this id owned by this user as done; the same
    /// not-found behaviour as deletion on a miss.
    pub fn mark_todo_done(&mut self, user_id: i32, id: i32) -> (r: Result<(), AccessError>)
        requires
            old(self).wf(),
        ensures
            final(self).wf(),
            final(self)@.users == old(self)@.users,
            final(self)@.next_user_id == old(self)@.next_user_id,
            final(self)@.next_todo_id == old(self)@.next_todo_id,
            r is Ok <==> todo_slot(old(self)@.todos, id as int, user_id as int),
            r is Err ==> r == Err::<(), AccessError>(AccessError::NotFound) && final(self)@ == old(
                self,
            )@,
            r is Ok ==> exists|i: int|
                0 <= i < old(self)@.todos.len() && todo_matches(
                    #[trigger] old(self)@.todos[i],
                    id as int,
                    user_id as int,
                ) && final(self)@.todos == old(self)@.todos.update(
                    i,
                    completed_todo(old(self)@.todos[i]),
                ),
    {
        match self.find_todo_index(id, user_id) {
            None => Err(AccessError::NotFound),
            Some(i) => {
                let ghost prev_store = *self;
                let ghost prev = self@.todos;
                let ghost idx = i as int;
                self.todos[i].completed = true;
                proof {
                    assert(self@.todos =~= prev.update(idx, completed_todo(prev[idx])));
                    assert forall|k: int| 0 <= k < self@.todos.len() implies (
                    #[trigger] self@.todos[k]).id == prev[k].id by {
                        if k != idx {
                            assert(self@.todos[k] == prev[k]);
                        }
                    }
                    assert forall|k: int| 0 <= k < self@.todos.len() implies exists|j: int|
                        0 <= j < prev_store@.todos.len() && (#[trigger] self@.todos[k]).id == (
                        #[trigger] prev_store@.todos[j]).id by {
                        assert(self@.todos[k].id == prev_store@.todos[k].id);
                    }
                    self.lemma_todo_mutation_wf(&prev_store);
                }
                Ok(())
            },
        }
    }

    /// All of this user's todos, in stored order; other users' rows never
    /// appear.
    #[verifier::loop_isolation(false)]
    pub fn get_all_todos_for_user(&self, user_id: i32) -> (r: Result<Vec<Todo>, AccessError>)
        ensures
            r matches Ok(v) && v@.map_values(|t: Todo| t@) == todos_of(
                self@.todos,
                user_id as int,
            ),
    {
        let ghost owner = user_id as int;
        let mut out: Vec<Todo> = Vec::new();
        let mut i: usize = 0;
        proof {
            reveal(Seq::filter);
            assert(self@.todos.subrange(0, 0) =~= Seq::<SpecTodo>::empty());
            assert(out@.map_values(|t: Todo| t@) =~= Seq::<SpecTodo>::empty());
        }
        while i < self.todos.len()
            invariant
                i <= self.todos.len(),
                out@.map_values(|t: Todo| t@) == todos_of(
                    self@.todos.subrange(0, i as int),
                    owner,
                ),
            decreases self.todos.len() - i,
        {
            let ghost prefix = self@.todos.subrange(0, i as int);
            let ghost prev_out = out@.map_values(|t: Todo| t@);
            proof {
                assert(self@.todos.subrange(0, i as int + 1) =~= prefix.push(
                    self@.todos[i as int],
                ));
                lemma_filter_push(prefix, owned_pred(owner), self@.todos[i as int]);
            }
            let t = &self.todos[i];
            if t.user_id == user_id {
                out.push(
                    Todo {
                        id: t.id,
                        description: t.description.clone(),
                        completed: t.completed,
                        user_id: t.user_id,
                    },
                );
                proof {
                    assert(out@.map_values(|t: Todo| t@) =~= prev_out.push(self@.todos[i as int]));
                }
            }
            i = i + 1;
        }
        proof {
            assert(self@.todos.subrange(0, self@.todos.len() as int) =~= self@.todos);
        }
        Ok(out)
    }

    /// This user's pending todos, in stored order.
    #[verifier::loop_isolation(false)]
    pub fn get_all_pending_todos_for_user(&self, user_id: i32) -> (r: Result<
        Vec<Todo>,
        AccessError,
    >)
        ensures
            r matches Ok(v) && v@.map_values(|t: Todo| t@) == pending_todos_of(
                self@.todos,
                user_id as int,
            ),
    {
        let ghost owner = user_id as int;
        let mut out: Vec<Todo> = Vec::new();
        let mut i: usize = 0;
        proof {
            reveal(Seq::filter);
            assert(self@.todos.subrange(0, 0) =~= Seq::<SpecTodo>::empty());
            assert(out@.map_values(|t: Todo| t@) =~= Seq::<SpecTodo>::empty());
        }
        while i < self.todos.len()
            invariant
                i <= self.todos.len(),
                out@.map_values(|t: Todo| t@) == pending_todos_of(
                    self@.todos.subrange(0, i as int),
                    owner,
                ),
            decreases self.todos.len() - i,
        {
            let ghost prefix = self@.todos.subrange(0, i as int);
            let ghost prev_out = out@.map_values(|t: Todo| t@);
            proof {
                assert(self@.todos.subrange(0, i as int + 1) =~= prefix.push(
                    self@.todos[i as int],
                ));
                lemma_filter_push(prefix, pending_pred(owner), self@.todos[i as int]);
            }
            let t = &self.todos[i];
            if t.user_id == user_id && !t.completed {
                out.push(
                    Todo {
                        id: t.id,
                        description: t.description.clone(),
                        completed: t.completed,
                        user_id: t.user_id,
                    },
                );
                proof {
                    assert(out@.map_values(|t: Todo| t@) =~= prev_out.push(self@.todos[i as int]));
                }
            }
            i = i + 1;
        }
        proof {
            assert(self@.todos.subrange(0, self@.todos.len() as int) =~= self@.todos);
        }
        Ok(out)
    }

    /// This user's todos whose description contains the given text,
    /// case-sensitively, in stored order; an empty result is no error.
    #[verifier::loop_isolation(false)]
    pub fn search_todo_by_description(&self, user_id: i32, description: &str) -> (r: Result<
        Vec<Todo>,
        AccessError,
    >)
        ensures
            r matches Ok(v) && v@.map_values(|t: Todo| t@) == matching_todos_of(
                self@.todos,
                user_id as int,
                description@,
            ),
    {
        let ghost owner = user_id as int;
        let ghost needle = description@;
        let mut out: Vec<Todo> = Vec::new();
        let mut i: usize = 0;
        proof {
            reveal(Seq::filter);
            assert(self@.todos.subrange(0, 0) =~= Seq::<SpecTodo>::empty());
            assert(out@.map_values(|t: Todo| t@) =~= Seq::<SpecTodo>::empty());
        }
        while i < self.todos.len()
            invariant
                i <= self.todos.len(),
                out@.map_values(|t: Todo| t@) == matching_todos_of(
                    self@.todos.subrange(0, i as int),
                    owner,
                    needle,
                ),
            decreases self.todos.len() - i,
        {
            let ghost prefix = self@.todos.subrange(0, i as int);
            let ghost prev_out = out@.map_values(|t: Todo| t@);
            proof {
                assert(self@.todos.subrange(0, i as int + 1) =~= prefix.push(
                    self@.todos[i as int],
                ));
                lemma_filter_push(prefix, matching_pred(owner, needle), self@.todos[i as int]);
            }
            let t = &self.todos[i];
            if t.user_id == user_id && str_contains(t.description.as_str(), description) {
                out.push(
                    Todo {
                        id: t.id,
                        description: t.description.clone(),
                        completed: t.completed,
                        user_id: t.user_id,
                    },
                );
                proof {
                    assert(out@.map_values(|t: Todo| t@) =~= prev_out.push(self@.todos[i as int]));
                }
            }
            i = i + 1;
        }
        proof {
            assert(self@.todos.subrange(0, self@.todos.len() as int) =~= self@.todos);
        }
        Ok(out)
    }
}

/// Ownership isolation for reads: a row owned by one user never appears in
/// another user's unfiltered listing, pending listing or search, whatever
/// its description.
pub proof fn lemma_ownership_isolation_reads(
    todos: Seq<SpecTodo>,
    owner: int,
    other: SpecTodo,
    needle: Seq<char>,
)
    requires
        other.user_id != owner,
    ensures
        !todos_of(todos, owner).contains(other),
        !pending_todos_of(todos, owner).contains(other),
        !matching_todos_of(todos, owner, needle).contains(other),
{
    if todos_of(todos, owner).contains(other) {
        let k = choose|k: int|
            0 <= k < todos_of(todos, owner).len() && todos_of(todos, owner)[k] == other;
        todos.lemma_filter_pred(owned_pred(owner), k);
    }
    if pending_todos_of(todos, owner).contains(other) {
        let k = choose|k: int|
            0 <= k < pending_todos_of(todos, owner).len() && pending_todos_of(todos, owner)[k]
                == other;
        todos.lemma_filter_pred(pending_pred(owner), k);
    }
    if matching_todos_of(todos, owner, needle).contains(other) {
        let k = choose|k: int|
            0 <= k < matching_todos_of(todos, owner, needle).len() && matching_todos_of(
                todos,
                owner,
                needle,
            )[k] == other;
        todos.lemma_filter_pred(matching_pred(owner, needle), k);
    }
}

/// Ownership isolation for writes: when every row with a given id belongs
/// to one other user, no (id, owner) slot exists for anyone else, so the
/// owner-scoped delete, edit and mark-done all fail with the not-found
/// error and, by their contracts, leave the store unchanged.
pub proof fn lemma_ownership_isolation_writes(
    todos: Seq<SpecTodo>,
    id: int,
    owner: int,
    other: int,
)
    requires
        other != owner,
        forall|i: int|
            0 <= i < todos.len() && (#[trigger] todos[i]).id == id ==> todos[i].user_id == other,
    ensures
        !todo_slot(todos, id, owner),
{
}

/// A freshly created pending todo is listed: pushing it extends its owner's
/// unfiltered and pending listings by exactly that row, and leaves every
/// other user's listings unchanged.
pub proof fn lemma_created_todo_listed(todos: Seq<SpecTodo>, t: SpecTodo, other: int)
    requires
        !t.completed,
        other != t.user_id,
    ensures
        todos_of(todos.push(t), t.user_id) == todos_of(todos, t.user_id).push(t),
        pending_todos_of(todos.push(t), t.user_id) == pending_todos_of(todos, t.user_id).push(t),
        todos_of(todos.push(t), t.user_id).contains(t),
        todos_of(todos.push(t), other) == todos_of(todos, other),
        pending_todos_of(todos.push(t), other) == pending_todos_of(todos, other),
{
    lemma_filter_push(todos, owned_pred(t.user_id), t);
    lemma_filter_push(todos, pending_pred(t.user_id), t);
    lemma_filter_push(todos, owned_pred(other), t);
    lemma_filter_push(todos, pending_pred(other), t);
    let l = todos_of(todos, t.user_id).len() as int;
    assert(todos_of(todos.push(t), t.user_id)[l] == t);
}

/// Marking a todo done takes its id out of the owner's pending listing and
/// keeps the row, now completed, in the unfiltered one.
pub proof fn lemma_marked_done_listed(todos: Seq<SpecTodo>, i: int)
    requires
        0 <= i < todos.len(),
        forall|j: int| 0 <= j < todos.len() && j != i ==> (#[trigger] todos[j]).id != todos[i].id,
    ensures
        todos_of(todos.update(i, completed_todo(todos[i])), todos[i].user_id).contains(
            completed_todo(todos[i]),
        ),
        forall|k: int|
            0 <= k < pending_todos_of(todos.update(i, completed_todo(todos[i])),
            todos[i].user_id).len() ==> (#[trigger] pending_todos_of(
                todos.update(i, completed_todo(todos[i])),
                todos[i].user_id,
            )[k]).id != todos[i].id,
{
    let owner = todos[i].user_id;
    let upd = todos.update(i, completed_todo(todos[i]));
    upd.lemma_filter_contains(owned_pred(owner), i);
    assert forall|k: int| 0 <= k < pending_todos_of(upd, owner).len() implies (
    #[trigger] pending_todos_of(upd, owner)[k]).id != todos[i].id by {
        upd.lemma_filter_pred(pending_pred(owner), k);
        lemma_filter_elements(upd, pending_pred(owner), k);
        let j = choose|j: int|
            0 <= j < upd.len() && #[trigger] upd[j] == pending_todos_of(upd, owner)[k];
        if j == i {
            assert(upd[j] == completed_todo(todos[i]));
        } else {
            assert(upd[j] == todos[j]);
        }
    }
}

} // verus!
