//! Core data model: roles, identity claims, user and todo records with
//! their views, the transient request payloads, and the process
//! configuration.
use vstd::prelude::*;

verus! {

/// How long an issued token stays valid, in seconds (72 hours).
pub const TOKEN_TTL_SECS: u64 = 259200;

/// The bcrypt work factor used when hashing a new password.
pub const HASH_COST: u32 = 12;

/// The minimum accepted length of a todo title, in characters.
pub const MIN_TITLE_CHARS: usize = 3;

/// The flat two-role system; roles are compared exactly, with no hierarchy.
#[derive(Clone, Copy, Debug, PartialEq, Eq, Structural)]
pub enum Role {
    User,
    Admin,
}

/// The decoded, verified payload of a token: user id, role, and the
/// absolute expiry as seconds since the epoch. Trustworthy only when it
/// came out of successful token verification.
#[derive(Clone, Copy, Debug, PartialEq, Eq, Structural)]
pub struct Claims {
    pub user_id: u64,
    pub role: Role,
    pub exp: u64,
}

/// Process-wide configuration, constructed once at startup and passed into
/// every component that needs it.
#[derive(Clone, Debug)]
pub struct Config {
    pub database_url: String,
    pub jwt_secret: String,
    pub server_port: String,
}

/// A stored user record; the password is kept only as a one-way hash.
#[derive(Clone, Debug)]
pub struct User {
    pub id: u64,
    pub email: String,
    pub password_hash: String,
    pub role: Role,
}

/// The mathematical shadow of a `User`.
pub struct UserView {
    pub id: u64,
    pub email: Seq<char>,
    pub password_hash: Seq<char>,
    pub role: Role,
}

impl View for User {
    type V = UserView;

    open spec fn view(&self) -> UserView {
        UserView {
            id: self.id,
            email: self.email@,
            password_hash: self.password_hash@,
            role: self.role,
        }
    }
}

/// A todo record; timestamps are seconds since the epoch, set at creation.
#[derive(Clone, Debug)]
pub struct Todo {
    pub id: u64,
    pub title: String,
    pub completed: bool,
    pub created_at: u64,
    pub updated_at: u64,
}

/// The mathematical shadow of a `Todo`.
pub struct TodoView {
    pub id: u64,
    pub title: Seq<char>,
    pub completed: bool,
    pub created_at: u64,
    pub updated_at: u64,
}

impl View for Todo {
    type V = TodoView;

    open spec fn view(&self) -> TodoView {
        TodoView {
            id: self.id,
            title: self.title@,
            completed: self.completed,
            created_at: self.created_at,
            updated_at: self.updated_at,
        }
    }
}

/// The request payload of todo creation.
pub struct TodoCreateDTO {
    pub title: String,
}

/// The transient credentials of registration and login; never persisted.
pub struct AuthDTO {
    pub email: String,
    pub password: String,
}

} // verus!
