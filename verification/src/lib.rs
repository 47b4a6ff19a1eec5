//! Verified core of a small authenticated todo backend: credential hashing,
//! signed time-bounded identity tokens, registration and login, request
//! authentication and role authorization decisions, and todo business rules,
//! layered over repository interfaces with verified in-memory implementations.
pub mod codec;
pub mod domain;
pub mod errors;
pub mod hashing;
pub mod middleware;
pub mod repository;
pub mod service;
pub mod token;

pub use domain::AuthDTO;
pub use domain::Claims;
pub use domain::Config;
pub use domain::Role;
pub use domain::Todo;
pub use domain::TodoCreateDTO;
pub use domain::User;
pub use errors::AuthError;
pub use errors::GateError;
pub use errors::RepoError;
pub use errors::TodoError;
pub use errors::TokenError;
pub use middleware::authenticate_request;
pub use middleware::authorize_role;
pub use repository::InMemoryTodoRepository;
pub use repository::InMemoryUserRepository;
pub use repository::TodoRepository;
pub use repository::UserRepository;
pub use service::AppState;
pub use service::AuthService;
pub use service::AuthServiceImpl;
pub use service::TodoService;
pub use service::TodoServiceImpl;
pub use token::issue_token;
pub use token::verify_token;
