use todo_app::model::ContentError;
use todo_app::model::Todo;
use todo_app::model::TodoContent;
use todo_app::model::TodoId;
use todo_app::model::UserId;
use todo_app::repository::TodoRepository;
use todo_app::routes::create_todo;
use todo_app::routes::delete_todo;
use todo_app::routes::get_all_user_todos;
use todo_app::routes::update_todo;
use todo_app::routes::CreateTodoError;
use todo_app::routes::NewTodo;
use todo_app::routes::TodoUpdate;
use todo_app::store::StoreError;

fn user(name: &str) -> UserId {
    UserId::from(String::from(name))
}

fn todo_of(content: &str, owner: &str) -> Todo {
    Todo::new(
        TodoContent::try_from(String::from(content)).unwrap(),
        user(owner),
    )
}

#[test]
fn create_then_lookup_round_trip() {
    let mut repo = TodoRepository::new();
    let t = todo_of("Buy milk", "u1");
    let id = t.id();
    repo.create(t).unwrap();

    let found = repo.get_one_for_user(&user("u1"), id).unwrap();
    assert_eq!(found.content(), "Buy milk");
    assert!(!found.is_done());
    assert_eq!(found.created_by().as_str(), "u1");
}

#[test]
fn lookup_of_absent_id_is_none_not_error() {
    let mut repo = TodoRepository::new();
    repo.create(todo_of("a", "u1")).unwrap();
    assert!(repo.get_one_for_user(&user("u1"), TodoId::new()).is_none());
}

#[test]
fn lookup_is_scoped_to_the_partition() {
    let mut repo = TodoRepository::new();
    let t = todo_of("a", "u1");
    let id = t.id();
    repo.create(t).unwrap();
    assert!(repo.get_one_for_user(&user("u2"), id).is_none());
}

#[test]
fn partition_isolation_in_listing() {
    let mut repo = TodoRepository::new();
    repo.create(todo_of("a1", "alice")).unwrap();
    repo.create(todo_of("b1", "bob")).unwrap();
    repo.create(todo_of("a2", "alice")).unwrap();

    let alice_todos = repo.get_all_for_user(&user("alice"));
    assert_eq!(alice_todos.len(), 2);
    for t in &alice_todos {
        assert_eq!(t.created_by().as_str(), "alice");
    }
    assert_eq!(alice_todos[0].content(), "a1");
    assert_eq!(alice_todos[1].content(), "a2");

    let bob_todos = repo.get_all_for_user(&user("bob"));
    assert_eq!(bob_todos.len(), 1);
    assert_eq!(bob_todos[0].content(), "b1");
}

#[test]
fn create_only_insert_refuses_an_existing_id() {
    let mut repo = TodoRepository::new();
    let id = TodoId::new();
    let content = TodoContent::try_from(String::from("first")).unwrap();
    let first = Todo::from_parts(id, content, false, user("u1"), 7);
    repo.create(first).unwrap();

    let content = TodoContent::try_from(String::from("second")).unwrap();
    let second = Todo::from_parts(id, content, false, user("u1"), 8);
    assert_eq!(repo.create(second), Err(StoreError::AlreadyExists));
    assert_eq!(repo.len(), 1);
    let stored = repo.get_one_for_user(&user("u1"), id).unwrap();
    assert_eq!(stored.content(), "first");
}

#[test]
fn same_id_in_another_partition_is_no_conflict() {
    let mut repo = TodoRepository::new();
    let id = TodoId::new();
    let c1 = TodoContent::try_from(String::from("mine")).unwrap();
    let c2 = TodoContent::try_from(String::from("yours")).unwrap();
    repo.create(Todo::from_parts(id, c1, false, user("u1"), 1))
        .unwrap();
    repo.create(Todo::from_parts(id, c2, false, user("u2"), 2))
        .unwrap();
    assert_eq!(repo.len(), 2);
}

#[test]
fn save_is_an_upsert_and_last_write_wins() {
    let mut repo = TodoRepository::new();
    let t = todo_of("task", "u1");
    let id = t.id();
    repo.create(t).unwrap();

    let mut stored = repo.get_one_for_user(&user("u1"), id).unwrap();
    stored.mark_as_done();
    repo.save(stored).unwrap();

    assert_eq!(repo.len(), 1);
    let after = repo.get_one_for_user(&user("u1"), id).unwrap();
    assert!(after.is_done());
    assert_eq!(after.content(), "task");
}

#[test]
fn delete_removes_the_record() {
    let mut repo = TodoRepository::new();
    let t = todo_of("gone soon", "u1");
    let id = t.id();
    repo.create(t).unwrap();
    repo.delete_for_user_by_id(&user("u1"), id).unwrap();
    assert_eq!(repo.len(), 0);
    assert!(repo.get_one_for_user(&user("u1"), id).is_none());
}

#[test]
fn delete_of_absent_id_succeeds_and_changes_nothing() {
    let mut repo = TodoRepository::new();
    let t = todo_of("stays", "u1");
    let id = t.id();
    repo.create(t).unwrap();

    repo.delete_for_user_by_id(&user("u1"), TodoId::new())
        .unwrap();

    assert_eq!(repo.len(), 1);
    let kept = repo.get_one_for_user(&user("u1"), id).unwrap();
    assert_eq!(kept.content(), "stays");
    assert!(!kept.is_done());
}

#[test]
fn delete_is_scoped_to_the_partition() {
    let mut repo = TodoRepository::new();
    let t = todo_of("alices", "alice");
    let id = t.id();
    repo.create(t).unwrap();

    repo.delete_for_user_by_id(&user("bob"), id).unwrap();
    assert_eq!(repo.len(), 1);
}

#[test]
fn create_route_stores_trimmed_content() {
    let mut repo = TodoRepository::new();
    let created = create_todo(
        &mut repo,
        user("u1"),
        NewTodo { content: String::from("  Buy milk  ") },
    )
    .unwrap();
    assert_eq!(created.content(), "Buy milk");
    assert!(!created.is_done());
    assert_eq!(created.created_by().as_str(), "u1");

    let listed = get_all_user_todos(&repo, &user("u1")).unwrap();
    assert_eq!(listed.len(), 1);
    assert_eq!(listed[0].content(), "Buy milk");
}

#[test]
fn create_route_rejects_blank_content_without_side_effects() {
    let mut repo = TodoRepository::new();
    let e = create_todo(&mut repo, user("u1"), NewTodo { content: String::from("   ") })
        .unwrap_err();
    assert_eq!(e, CreateTodoError::ValidationError(ContentError::Blank));
    assert_eq!(e.status_code(), 400);
    assert_eq!(repo.len(), 0);
}

#[test]
fn create_route_rejects_overlong_content_without_side_effects() {
    let mut repo = TodoRepository::new();
    let e = create_todo(&mut repo, user("u1"), NewTodo { content: "y".repeat(501) }).unwrap_err();
    assert_eq!(e, CreateTodoError::ValidationError(ContentError::TooLong));
    assert_eq!(e.status_code(), 400);
    assert_eq!(repo.len(), 0);
}

#[test]
fn update_route_sets_the_done_flag() {
    let mut repo = TodoRepository::new();
    let t = todo_of("task", "u1");
    let id = t.id();
    repo.create(t).unwrap();

    let updated = update_todo(&mut repo, &user("u1"), id, TodoUpdate { done: true })
        .unwrap()
        .unwrap();
    assert!(updated.is_done());

    let after = repo.get_one_for_user(&user("u1"), id).unwrap();
    assert!(after.is_done());
    assert_eq!(after.content(), "task");

    update_todo(&mut repo, &user("u1"), id, TodoUpdate { done: false }).unwrap();
    assert!(!repo.get_one_for_user(&user("u1"), id).unwrap().is_done());
}

#[test]
fn update_route_on_absent_id_writes_nothing() {
    let mut repo = TodoRepository::new();
    repo.create(todo_of("task", "u1")).unwrap();
    let r = update_todo(&mut repo, &user("u1"), TodoId::new(), TodoUpdate { done: true }).unwrap();
    assert!(r.is_none());
    let listed = repo.get_all_for_user(&user("u1"));
    assert_eq!(listed.len(), 1);
    assert!(!listed[0].is_done());
}

#[test]
fn delete_route_on_absent_id_is_a_successful_no_op() {
    let mut repo = TodoRepository::new();
    let t = todo_of("keep me", "u1");
    let id = t.id();
    repo.create(t).unwrap();

    delete_todo(&mut repo, &user("u1"), TodoId::new()).unwrap();

    assert_eq!(repo.len(), 1);
    let kept = repo.get_one_for_user(&user("u1"), id).unwrap();
    assert_eq!(kept.content(), "keep me");
}

#[test]
fn store_error_message_names_the_conflict() {
    assert_eq!(
        StoreError::AlreadyExists.message(),
        "a document with this id already exists in the partition"
    );
}
