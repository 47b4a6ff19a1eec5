//! Business services over the repository boundaries: todo validation and
//! lookup, and the auth service orchestrating registration (hash, then
//! persist) and login (look up, verify, then issue a token).
use crate::domain::AuthDTO;
use crate::domain::Claims;
use crate::domain::Config;
use crate::domain::HASH_COST;
use crate::domain::MIN_TITLE_CHARS;
use crate::domain::Role;
use crate::domain::Todo;
use crate::domain::TodoCreateDTO;
use crate::domain::TodoView;
use crate::domain::TOKEN_TTL_SECS;
use crate::domain::User;
use crate::domain::UserView;
use crate::errors::AuthError;
use crate::errors::RepoError;
use crate::errors::TodoError;
use crate::hashing::bcrypt_verifies;
use crate::hashing::hash_password;
use crate::hashing::verify_password;
use crate::repository::contains_email;
use crate::repository::find_user;
use crate::repository::lemma_find_user_push;
use crate::repository::TodoRepository;
use crate::repository::UserRepository;
use crate::token::issue_token;
use crate::token::token_of;
use crate::token::token_shape_ok;
use vstd::prelude::*;
use vstd::string::StrSliceExecFns;

verus! {

/// The todo business rules: a minimum title length on creation, and
/// lookups that never invent a record.
pub trait TodoService: Sized {
    spec fn todos(&self) -> Seq<TodoView>;

    spec fn wf(&self) -> bool;

    /// All stored todos, in storage order.
    fn get_all(&self) -> (r: Result<Vec<Todo>, TodoError>)
        requires
            self.wf(),
        ensures
            r is Ok ==> r->Ok_0@.map_values(|t: Todo| t@) == self.todos(),
            r is Err ==> r->Err_0 matches TodoError::Repository(_);

    /// Creates a todo: rejected as a validation failure exactly when the
    /// title is shorter than the minimum; otherwise stored not completed
    /// with both timestamps `now`.
    fn create(&mut self, dto: TodoCreateDTO, now: u64) -> (r: Result<Todo, TodoError>)
        requires
            old(self).wf(),
        ensures
            final(self).wf(),
            (r == Err::<Todo, TodoError>(TodoError::Validation)) <==> dto.title@.len()
                < MIN_TITLE_CHARS,
            r is Ok ==> ({
                &&& final(self).todos() == old(self).todos().push(r->Ok_0@)
                &&& r->Ok_0@.title == dto.title@
                &&& !r->Ok_0@.completed
                &&& r->Ok_0@.created_at == now
                &&& r->Ok_0@.updated_at == now
            }),
            r is Err ==> final(self).todos() == old(self).todos(),
            r is Err ==> (r->Err_0 == TodoError::Validation || r->Err_0 matches
                TodoError::Repository(_));

    /// Looks a todo up by id: the stored record itself, and a not-found
    /// failure only when no stored record has the id.
    fn get_by_id(&self, id: u64) -> (r: Result<Todo, TodoError>)
        requires
            self.wf(),
        ensures
            r is Ok ==> r->Ok_0@.id == id && self.todos().contains(r->Ok_0@),
            r == Err::<Todo, TodoError>(TodoError::NotFound) ==> forall|i: int|
                0 <= i < self.todos().len() ==> (#[trigger] self.todos()[i]).id != id,
            r is Err ==> (r->Err_0 == TodoError::NotFound || r->Err_0 matches
                TodoError::Repository(_));
}

pub struct TodoServiceImpl<R: TodoRepository> {
    repo: R,
}

impl<R: TodoRepository> TodoServiceImpl<R> {
    pub fn new(repo: R) -> (r: Self)
        ensures
            r.todos() == repo.todos(),
            r.wf() == repo.wf(),
    {
        TodoServiceImpl { repo }
    }
}

impl<R: TodoRepository> TodoService for TodoServiceImpl<R> {
    closed spec fn todos(&self) -> Seq<TodoView> {
        self.repo.todos()
    }

    closed spec fn wf(&self) -> bool {
        self.repo.wf()
    }

    fn get_all(&self) -> (r: Result<Vec<Todo>, TodoError>) {
        match self.repo.get_all_todos() {
            Ok(items) => Ok(items),
            Err(m) => Err(TodoError::Repository(m)),
        }
    }

    fn create(&mut self, dto: TodoCreateDTO, now: u64) -> (r: Result<Todo, TodoError>) {
        if dto.title.as_str().unicode_len() < MIN_TITLE_CHARS {
            return Err(TodoError::Validation);
        }
        match self.repo.create_todo(dto.title, now) {
            Ok(t) => Ok(t),
            Err(m) => Err(TodoError::Repository(m)),
        }
    }

    fn get_by_id(&self, id: u64) -> (r: Result<Todo, TodoError>) {
        match self.repo.get_todo_by_id(id) {
            Ok(Some(t)) => Ok(t),
            Ok(None) => Err(TodoError::NotFound),
            Err(m) => Err(TodoError::Repository(m)),
        }
    }
}

/// Registration and login. Registration hashes and persists; login looks
/// the user up, verifies the password against the stored hash, and issues
/// a token carrying the stored id and role with a fixed time to live.
pub trait AuthService: Sized {
    spec fn users(&self) -> Seq<UserView>;

    spec fn wf(&self) -> bool;

    /// The signing secret the service issues tokens under.
    spec fn secret(&self) -> Seq<char>;

    /// Registers a new user with role `user` whose stored hash verifies
    /// against the given password; a duplicate-email failure only when the
    /// email is already stored, and no state change on any failure.
    fn register(&mut self, dto: AuthDTO) -> (r: Result<User, AuthError>)
        requires
            old(self).wf(),
        ensures
            final(self).wf(),
            final(self).secret() == old(self).secret(),
            r is Ok ==> ({
                &&& !contains_email(old(self).users(), dto.email@)
                &&& final(self).users() == old(self).users().push(r->Ok_0@)
                &&& r->Ok_0@.email == dto.email@
                &&& r->Ok_0@.role == Role::User
                &&& bcrypt_verifies(dto.password@, r->Ok_0@.password_hash)
            }),
            r == Err::<User, AuthError>(AuthError::DuplicateEmail) ==> contains_email(
                old(self).users(),
                dto.email@,
            ),
            r is Err ==> final(self).users() == old(self).users(),
            r is Err ==> (r->Err_0 == AuthError::DuplicateEmail || r->Err_0
                == AuthError::HashingError || r->Err_0 matches AuthError::Repository(_));

    /// Logs a user in: not-found exactly on a missing email, bad
    /// credentials exactly on a failed password check, and on success a
    /// token carrying the stored id and role, expiring `TOKEN_TTL_SECS`
    /// after `now`.
    fn login(&self, dto: AuthDTO, now: u64) -> (r: Result<String, AuthError>)
        requires
            self.wf(),
            now <= u64::MAX - TOKEN_TTL_SECS,
        ensures
            r == Err::<String, AuthError>(AuthError::UserNotFound) ==> find_user(
                self.users(),
                dto.email@,
            ) is None,
            r == Err::<String, AuthError>(AuthError::BadCredentials) ==> (find_user(
                self.users(),
                dto.email@,
            ) matches Some(u) && !bcrypt_verifies(dto.password@, u.password_hash)),
            r is Ok ==> (find_user(self.users(), dto.email@) matches Some(u) && ({
                &&& bcrypt_verifies(dto.password@, u.password_hash)
                &&& r->Ok_0@ == token_of(
                    Claims { user_id: u.id, role: u.role, exp: (now + TOKEN_TTL_SECS) as u64 },
                    self.secret(),
                )
                &&& token_shape_ok(
                    Claims { user_id: u.id, role: u.role, exp: (now + TOKEN_TTL_SECS) as u64 },
                    self.secret(),
                )
            })),
            r == Err::<String, AuthError>(AuthError::TokenIssuance) ==> (find_user(
                self.users(),
                dto.email@,
            ) matches Some(u) && bcrypt_verifies(dto.password@, u.password_hash)),
            r is Err ==> (r->Err_0 == AuthError::UserNotFound || r->Err_0
                == AuthError::BadCredentials || r->Err_0 == AuthError::TokenIssuance || r->Err_0
                matches AuthError::Repository(_));
}

pub struct AuthServiceImpl<R: UserRepository> {
    repo: R,
    config: Config,
}

impl<R: UserRepository> AuthServiceImpl<R> {
    pub fn new(repo: R, config: Config) -> (r: Self)
        ensures
            r.users() == repo.users(),
            r.wf() == repo.wf(),
            r.secret() == config.jwt_secret@,
    {
        AuthServiceImpl { repo, config }
    }
}

impl<R: UserRepository> AuthService for AuthServiceImpl<R> {
    closed spec fn users(&self) -> Seq<UserView> {
        self.repo.users()
    }

    closed spec fn wf(&self) -> bool {
        self.repo.wf()
    }

    closed spec fn secret(&self) -> Seq<char> {
        self.config.jwt_secret@
    }

    fn register(&mut self, dto: AuthDTO) -> (r: Result<User, AuthError>) {
        let hashed = match hash_password(dto.password.as_str(), HASH_COST) {
            Some(h) => h,
            None => {
                return Err(AuthError::HashingError);
            },
        };
        match self.repo.create_user(dto.email, hashed) {
            Ok(u) => Ok(u),
            Err(RepoError::Duplicate) => Err(AuthError::DuplicateEmail),
            Err(RepoError::Other(m)) => Err(AuthError::Repository(m)),
        }
    }

    fn login(&self, dto: AuthDTO, now: u64) -> (r: Result<String, AuthError>) {
        let user = match self.repo.find_by_email(dto.email.clone()) {
            Err(m) => {
                return Err(AuthError::Repository(m));
            },
            Ok(None) => {
                return Err(AuthError::UserNotFound);
            },
            Ok(Some(u)) => u,
        };
        if !verify_password(dto.password.as_str(), user.password_hash.as_str()) {
            return Err(AuthError::BadCredentials);
        }
        let claims = Claims { user_id: user.id, role: user.role, exp: now + TOKEN_TTL_SECS };
        match issue_token(&claims, self.config.jwt_secret.as_str()) {
            Ok(t) => Ok(t),
            Err(_) => Err(AuthError::TokenIssuance),
        }
    }
}

/// What every request handler receives: the configuration and the two
/// services, wired once at startup.
pub struct AppState<T, A> {
    pub config: Config,
    pub todo_service: T,
    pub auth_service: A,
}

/// Registration followed by login with the same credentials: the state
/// registration leaves behind makes the login lookup find exactly the
/// record registration stored, whose hash verifies against the same
/// password and whose role is `user` — so the token login then issues
/// embeds the role `user`.
pub proof fn lemma_register_then_login(users: Seq<UserView>, u: UserView, password: Seq<char>)
    requires
        !contains_email(users, u.email),
        u.role == Role::User,
        bcrypt_verifies(password, u.password_hash),
    ensures
        find_user(users.push(u), u.email) == Some(u),
        ({
            let found = find_user(users.push(u), u.email)->Some_0;
            &&& found.role == Role::User
            &&& bcrypt_verifies(password, found.password_hash)
        }),
{
    lemma_find_user_push(users, u.email, u);
}

} // verus!
