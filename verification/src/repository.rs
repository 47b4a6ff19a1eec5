//! Persistence boundaries for user and todo records, and the verified
//! in-memory implementations used for testing the services without a live
//! database. A production implementation backed by a database sits outside
//! the verified library and implements the same traits.
use crate::domain::Role;
use crate::domain::Todo;
use crate::domain::TodoView;
use crate::domain::User;
use crate::domain::UserView;
use crate::errors::RepoError;
use vstd::prelude::*;
use vstd::string::StringExecFns;

verus! {

/// The first stored user carrying `email`, if any.
pub open spec fn find_user(users: Seq<UserView>, email: Seq<char>) -> Option<UserView>
    decreases users.len(),
{
    if users.len() == 0 {
        None
    } else if users[0].email == email {
        Some(users[0])
    } else {
        find_user(users.drop_first(), email)
    }
}

pub open spec fn contains_email(users: Seq<UserView>, email: Seq<char>) -> bool {
    exists|i: int| 0 <= i < users.len() && (#[trigger] users[i]).email == email
}

/// A lookup hit at the first matching position is what `find_user` returns.
pub proof fn lemma_find_user_at(users: Seq<UserView>, email: Seq<char>, k: int)
    requires
        0 <= k < users.len(),
        users[k].email == email,
        forall|j: int| 0 <= j < k ==> (#[trigger] users[j]).email != email,
    ensures
        find_user(users, email) == Some(users[k]),
    decreases users.len(),
{
    if k > 0 {
        lemma_find_user_at(users.drop_first(), email, k - 1);
    }
}

/// Without a matching email there is nothing to find.
pub proof fn lemma_find_user_none(users: Seq<UserView>, email: Seq<char>)
    requires
        !contains_email(users, email),
    ensures
        find_user(users, email) is None,
    decreases users.len(),
{
    if users.len() > 0 {
        assert(users[0].email != email);
        assert(!contains_email(users.drop_first(), email)) by {
            if contains_email(users.drop_first(), email) {
                let i = choose|i: int|
                    0 <= i < users.drop_first().len() && (#[trigger] users.drop_first()[i]).email
                        == email;
                assert(users[i + 1].email == email);
            }
        }
        lemma_find_user_none(users.drop_first(), email);
    }
}

/// Appending a user with a fresh email makes that user findable.
pub proof fn lemma_find_user_push(users: Seq<UserView>, email: Seq<char>, u: UserView)
    requires
        !contains_email(users, email),
        u.email == email,
    ensures
        find_user(users.push(u), email) == Some(u),
{
    let k = users.len() as int;
    assert(users.push(u)[k] == u);
    assert(forall|j: int| 0 <= j < k ==> (#[trigger] users.push(u)[j]).email != email) by {
        assert(forall|j: int| 0 <= j < k ==> users.push(u)[j] == (#[trigger] users[j]));
    }
    lemma_find_user_at(users.push(u), email, k);
}

/// Persistence boundary for user records.
pub trait UserRepository: Sized {
    /// The stored records, oldest first.
    spec fn users(&self) -> Seq<UserView>;

    /// The implementation's internal well-formedness.
    spec fn wf(&self) -> bool;

    /// Persists a new user with role `user` and a storage-assigned id that
    /// no stored record carries. Reports `Duplicate` only on a uniqueness
    /// violation of the email; any failure leaves the store unchanged.
    fn create_user(&mut self, email: String, password_hash: String) -> (r: Result<
        User,
        RepoError,
    >)
        requires
            old(self).wf(),
        ensures
            final(self).wf(),
            r is Ok ==> ({
                &&& !contains_email(old(self).users(), email@)
                &&& final(self).users() == old(self).users().push(r->Ok_0@)
                &&& r->Ok_0@.email == email@
                &&& r->Ok_0@.password_hash == password_hash@
                &&& r->Ok_0@.role == Role::User
                &&& forall|i: int|
                    0 <= i < old(self).users().len() ==> (#[trigger] old(self).users()[i]).id
                        != r->Ok_0@.id
            }),
            r is Err ==> final(self).users() == old(self).users(),
            r == Err::<User, RepoError>(RepoError::Duplicate) ==> contains_email(
                old(self).users(),
                email@,
            );

    /// Looks a user up by email; on success the result is exactly what the
    /// store holds.
    fn find_by_email(&self, email: String) -> (r: Result<Option<User>, String>)
        requires
            self.wf(),
        ensures
            r is Ok ==> ({
                &&& (r->Ok_0 matches Some(u) ==> find_user(self.users(), email@) == Some(u@))
                &&& (r->Ok_0 is None ==> find_user(self.users(), email@) is None)
            });
}

/// Persistence boundary for todo records.
pub trait TodoRepository: Sized {
    /// The stored records, oldest first.
    spec fn todos(&self) -> Seq<TodoView>;

    /// The implementation's internal well-formedness.
    spec fn wf(&self) -> bool;

    /// All stored records.
    fn get_all_todos(&self) -> (r: Result<Vec<Todo>, String>)
        requires
            self.wf(),
        ensures
            r is Ok ==> r->Ok_0@.map_values(|t: Todo| t@) == self.todos();

    /// Persists a new record: not completed, both timestamps `now`, and a
    /// storage-assigned id that no stored record carries. Any failure
    /// leaves the store unchanged.
    fn create_todo(&mut self, title: String, now: u64) -> (r: Result<Todo, String>)
        requires
            old(self).wf(),
        ensures
            final(self).wf(),
            r is Ok ==> ({
                &&& final(self).todos() == old(self).todos().push(r->Ok_0@)
                &&& r->Ok_0@.title == title@
                &&& !r->Ok_0@.completed
                &&& r->Ok_0@.created_at == now
                &&& r->Ok_0@.updated_at == now
                &&& forall|i: int|
                    0 <= i < old(self).todos().len() ==> (#[trigger] old(self).todos()[i]).id
                        != r->Ok_0@.id
            }),
            r is Err ==> final(self).todos() == old(self).todos();

    /// Looks a record up by id; `None` only when no stored record has it.
    fn get_todo_by_id(&self, id: u64) -> (r: Result<Option<Todo>, String>)
        requires
            self.wf(),
        ensures
            r is Ok ==> ({
                &&& (r->Ok_0 matches Some(t) ==> t@.id == id && self.todos().contains(t@))
                &&& (r->Ok_0 is None ==> forall|i: int|
                    0 <= i < self.todos().len() ==> (#[trigger] self.todos()[i]).id != id)
            });
}

/// In-memory user store: a sequence of records and the next id to hand out.
pub struct InMemoryUserRepository {
    users: Vec<User>,
    next_id: u64,
}

impl InMemoryUserRepository {
    pub fn new() -> (r: Self)
        ensures
            r.wf(),
            r.users() =~= Seq::<UserView>::empty(),
    {
        InMemoryUserRepository { users: Vec::new(), next_id: 1 }
    }
}

impl UserRepository for InMemoryUserRepository {
    closed spec fn users(&self) -> Seq<UserView> {
        self.users@.map_values(|u: User| u@)
    }

    closed spec fn wf(&self) -> bool {
        forall|i: int| 0 <= i < self.users@.len() ==> (#[trigger] self.users@[i])@.id
            < self.next_id
    }

    fn create_user(&mut self, email: String, password_hash: String) -> (r: Result<
        User,
        RepoError,
    >) {
        let n = self.users.len();
        let mut i: usize = 0;
        while i < n
            invariant
                self.wf(),
                i <= n,
                n == self.users@.len(),
                forall|j: int| 0 <= j < i ==> (#[trigger] self.users@[j])@.email != email@,
            decreases n - i,
        {
            if self.users[i].email == email {
                proof {
                    assert(self.users()[i as int].email == email@);
                }
                return Err(RepoError::Duplicate);
            }
            i += 1;
        }
        proof {
            assert(!contains_email(self.users(), email@)) by {
                if contains_email(self.users(), email@) {
                    let k = choose|k: int|
                        0 <= k < self.users().len() && (#[trigger] self.users()[k]).email
                            == email@;
                    assert(self.users@[k]@.email == email@);
                }
            }
        }
        if self.next_id == u64::MAX {
            return Err(RepoError::Other(String::from_str("user store is full")));
        }
        let id = self.next_id;
        let stored = User {
            id,
            email: email.clone(),
            password_hash: password_hash.clone(),
            role: Role::User,
        };
        let returned = User { id, email, password_hash, role: Role::User };
        let ghost before = self.users();
        self.users.push(stored);
        self.next_id = id + 1;
        proof {
            assert(self.users() =~= before.push(returned@));
        }
        Ok(returned)
    }

    fn find_by_email(&self, email: String) -> (r: Result<Option<User>, String>) {
        let n = self.users.len();
        let mut i: usize = 0;
        while i < n
            invariant
                i <= n,
                n == self.users@.len(),
                forall|j: int| 0 <= j < i ==> (#[trigger] self.users@[j])@.email != email@,
            decreases n - i,
        {
            if self.users[i].email == email {
                let u = &self.users[i];
                let found = User {
                    id: u.id,
                    email: u.email.clone(),
                    password_hash: u.password_hash.clone(),
                    role: u.role,
                };
                proof {
                    assert(forall|j: int|
                        0 <= j < i ==> (#[trigger] self.users()[j]).email != email@);
                    lemma_find_user_at(self.users(), email@, i as int);
                }
                return Ok(Some(found));
            }
            i += 1;
        }
        proof {
            assert(!contains_email(self.users(), email@)) by {
                if contains_email(self.users(), email@) {
                    let k = choose|k: int|
                        0 <= k < self.users().len() && (#[trigger] self.users()[k]).email
                            == email@;
                    assert(self.users@[k]@.email == email@);
                }
            }
            lemma_find_user_none(self.users(), email@);
        }
        Ok(None)
    }
}

/// In-memory todo store: a sequence of records and the next id to hand out.
pub struct InMemoryTodoRepository {
    items: Vec<Todo>,
    next_id: u64,
}

impl InMemoryTodoRepository {
    pub fn new() -> (r: Self)
        ensures
            r.wf(),
            r.todos() =~= Seq::<TodoView>::empty(),
    {
        InMemoryTodoRepository { items: Vec::new(), next_id: 1 }
    }
}

impl TodoRepository for InMemoryTodoRepository {
    closed spec fn todos(&self) -> Seq<TodoView> {
        self.items@.map_values(|t: Todo| t@)
    }

    closed spec fn wf(&self) -> bool {
        forall|i: int| 0 <= i < self.items@.len() ==> (#[trigger] self.items@[i])@.id
            < self.next_id
    }

    fn get_all_todos(&self) -> (r: Result<Vec<Todo>, String>) {
        let n = self.items.len();
        let mut out: Vec<Todo> = Vec::new();
        let mut i: usize = 0;
        while i < n
            invariant
                i <= n,
                n == self.items@.len(),
                out@.len() == i,
                forall|j: int| 0 <= j < i ==> (#[trigger] out@[j])@ == self.items@[j]@,
            decreases n - i,
        {
            let t = &self.items[i];
            out.push(
                Todo {
                    id: t.id,
                    title: t.title.clone(),
                    completed: t.completed,
                    created_at: t.created_at,
                    updated_at: t.updated_at,
                },
            );
            i += 1;
        }
        proof {
            assert(out@.map_values(|t: Todo| t@) =~= self.todos());
        }
        Ok(out)
    }

    fn create_todo(&mut self, title: String, now: u64) -> (r: Result<Todo, String>) {
        if self.next_id == u64::MAX {
            return Err(String::from_str("todo store is full"));
        }
        let id = self.next_id;
        let stored = Todo {
            id,
            title: title.clone(),
            completed: false,
            created_at: now,
            updated_at: now,
        };
        let returned = Todo { id, title, completed: false, created_at: now, updated_at: now };
        let ghost before = self.todos();
        self.items.push(stored);
        self.next_id = id + 1;
        proof {
            assert(self.todos() =~= before.push(returned@));
        }
        Ok(returned)
    }

    fn get_todo_by_id(&self, id: u64) -> (r: Result<Option<Todo>, String>) {
        let n = self.items.len();
        let mut i: usize = 0;
        while i < n
            invariant
                i <= n,
                n == self.items@.len(),
                forall|j: int| 0 <= j < i ==> (#[trigger] self.items@[j])@.id != id,
            decreases n - i,
        {
            if self.items[i].id == id {
                let t = &self.items[i];
                let found = Todo {
                    id: t.id,
                    title: t.title.clone(),
                    completed: t.completed,
                    created_at: t.created_at,
                    updated_at: t.updated_at,
                };
                proof {
                    assert(self.todos()[i as int] == found@);
                }
                return Ok(Some(found));
            }
            i += 1;
        }
        proof {
            assert(forall|j: int|
                0 <= j < self.todos().len() ==> (#[trigger] self.todos()[j]).id != id);
        }
        Ok(None)
    }
}

} // verus!
