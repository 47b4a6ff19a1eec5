use todo_auth::domain::TodoCreateDTO;
use todo_auth::errors::GateError;
use todo_auth::errors::TodoError;
use todo_auth::repository::InMemoryTodoRepository;
use todo_auth::service::TodoService;
use todo_auth::service::TodoServiceImpl;

const NOW: u64 = 1700000000;

fn service() -> TodoServiceImpl<InMemoryTodoRepository> {
    TodoServiceImpl::new(InMemoryTodoRepository::new())
}

fn dto(title: &str) -> TodoCreateDTO {
    TodoCreateDTO { title: String::from(title) }
}

#[test]
fn two_character_title_fails_validation() {
    let mut svc = service();
    let r = svc.create(dto("ab"), NOW);
    assert_eq!(r.unwrap_err(), TodoError::Validation);
    assert_eq!(svc.get_all().unwrap().len(), 0);
}

#[test]
fn three_character_title_is_accepted() {
    let mut svc = service();
    let todo = svc.create(dto("abc"), NOW).unwrap();
    assert_eq!(todo.title, "abc");
    assert_eq!(todo.id, 1);
    assert!(!todo.completed);
    assert_eq!(todo.created_at, NOW);
    assert_eq!(todo.updated_at, NOW);
}

#[test]
fn empty_title_fails_validation() {
    let mut svc = service();
    assert_eq!(svc.create(dto(""), NOW).unwrap_err(), TodoError::Validation);
}

#[test]
fn get_all_returns_every_stored_record_in_order() {
    let mut svc = service();
    assert_eq!(svc.get_all().unwrap().len(), 0);
    svc.create(dto("first item"), NOW).unwrap();
    svc.create(dto("second item"), NOW + 5).unwrap();
    let all = svc.get_all().unwrap();
    assert_eq!(all.len(), 2);
    assert_eq!(all[0].title, "first item");
    assert_eq!(all[1].title, "second item");
    assert_eq!(all[0].id, 1);
    assert_eq!(all[1].id, 2);
}

#[test]
fn missing_id_is_not_found_never_a_default_record() {
    let svc = service();
    assert_eq!(svc.get_by_id(1).unwrap_err(), TodoError::NotFound);
    let mut svc = service();
    svc.create(dto("abc"), NOW).unwrap();
    assert_eq!(svc.get_by_id(99).unwrap_err(), TodoError::NotFound);
    let found = svc.get_by_id(1).unwrap();
    assert_eq!(found.title, "abc");
    assert_eq!(found.id, 1);
}

#[test]
fn error_kinds_map_to_their_http_statuses() {
    assert_eq!(TodoError::Validation.http_status(), 400);
    assert_eq!(TodoError::NotFound.http_status(), 404);
    assert_eq!(TodoError::Repository(String::from("down")).http_status(), 500);
    assert_eq!(GateError::Unauthenticated.http_status(), 401);
    assert_eq!(GateError::Forbidden.http_status(), 403);
}
