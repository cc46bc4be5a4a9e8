//! The request-handling core of each route: validation, the state change it
//! asks of the repository, and the error it reports. The HTTP shell around
//! these functions — extractors, responses, rendering — lives outside the
//! library.

use vstd::prelude::*;

use crate::model::ContentError;
use crate::model::MAX_CONTENT_LEN;
use crate::model::Todo;
use crate::model::TodoContent;
use crate::model::TodoId;
use crate::model::UserId;
use crate::model::marked_done;
use crate::model::marked_unfinished;
use crate::model::trimmed;
use crate::repository::TodoRepository;
use crate::store::StoreError;
use crate::store::doc_matches;
use crate::store::find_doc;
use crate::store::matching_docs;
use crate::store::remaining_docs;
use crate::store::upserted;

verus! {

/// The body of a create request: the raw, not yet validated content.
pub struct NewTodo {
    pub content: String,
}

/// The body of an update request: the desired done flag.
#[derive(Debug, PartialEq, Eq, Structural, Clone, Copy)]
pub struct TodoUpdate {
    pub done: bool,
}

/// Why a create request failed.
#[derive(Debug, PartialEq, Eq, Structural, Clone, Copy)]
pub enum CreateTodoError {
    /// The submitted content failed validation; the request had no effect.
    ValidationError(ContentError),
    /// The store refused the write.
    UnexpectedError(StoreError),
}

impl CreateTodoError {
    /// The HTTP status code the error is reported with.
    pub fn status_code(&self) -> (r: u16)
        ensures
            *self matches CreateTodoError::ValidationError(_) ==> r == 400,
            *self matches CreateTodoError::UnexpectedError(_) ==> r == 500,
    {
        match self {
            CreateTodoError::ValidationError(_) => 400,
            CreateTodoError::UnexpectedError(_) => 500,
        }
    }
}

/// Why an update request failed.
#[derive(Debug, PartialEq, Eq, Structural, Clone, Copy)]
pub enum UpdateTodoError {
    /// The updated record failed validation; nothing was written.
    ValidationError(ContentError),
    /// The store refused the write.
    UnexpectedError(StoreError),
}

impl UpdateTodoError {
    /// The HTTP status code the error is reported with.
    pub fn status_code(&self) -> (r: u16)
        ensures
            *self matches UpdateTodoError::ValidationError(_) ==> r == 400,
            *self matches UpdateTodoError::UnexpectedError(_) ==> r == 500,
    {
        match self {
            UpdateTodoError::ValidationError(_) => 400,
            UpdateTodoError::UnexpectedError(_) => 500,
        }
    }
}

/// Why a delete request failed.
#[derive(Debug, PartialEq, Eq, Structural, Clone, Copy)]
pub enum DeleteTodoError {
    /// The store refused the delete.
    UnexpectedError(StoreError),
}

impl DeleteTodoError {
    /// The HTTP status code the error is reported with.
    pub fn status_code(&self) -> (r: u16)
        ensures
            r == 500,
    {
        match self {
            DeleteTodoError::UnexpectedError(_) => 500,
        }
    }
}

/// Why a listing request failed.
#[derive(Debug, PartialEq, Eq, Structural, Clone, Copy)]
pub enum GetAllUserTodosError {
    /// The store refused the query.
    UnexpectedError(StoreError),
}

impl GetAllUserTodosError {
    /// The HTTP status code the error is reported with.
    pub fn status_code(&self) -> (r: u16)
        ensures
            r == 500,
    {
        match self {
            GetAllUserTodosError::UnexpectedError(_) => 500,
        }
    }
}

/// Creates a todo for the authenticated user: validates the submitted
/// content, builds a fresh record owned by that user, and inserts it
/// create-only. Invalid content is rejected with the validation reason and no
/// side effect; on success the stored record — returned to the caller — holds
/// the trimmed content, is not done, and is owned by the user.
pub fn create_todo(repo: &mut TodoRepository, user_id: UserId, new_todo: NewTodo) -> (r: Result<
    Todo,
    CreateTodoError,
>)
    requires
        old(repo).wf(),
    ensures
        final (repo).wf(),
        trimmed(new_todo.content@).len() == 0 ==> r == Err::<Todo, CreateTodoError>(
            CreateTodoError::ValidationError(ContentError::Blank),
        ) && final (repo)@ == old(repo)@,
        trimmed(new_todo.content@).len() > MAX_CONTENT_LEN ==> r == Err::<Todo, CreateTodoError>(
            CreateTodoError::ValidationError(ContentError::TooLong),
        ) && final (repo)@ == old(repo)@,
        1 <= trimmed(new_todo.content@).len() <= MAX_CONTENT_LEN ==> r is Ok || r == Err::<
            Todo,
            CreateTodoError,
        >(CreateTodoError::UnexpectedError(StoreError::AlreadyExists)),
        r matches Ok(t) ==> final (repo)@ == old(repo)@.push(t) && t@.content == trimmed(
            new_todo.content@,
        ) && t@.done == false && t@.created_by == user_id@,
        r is Err ==> final (repo)@ == old(repo)@,
{
    let content = match TodoContent::try_from(new_todo.content) {
        Ok(c) => c,
        Err(e) => return Err(CreateTodoError::ValidationError(e)),
    };
    let todo = Todo::new(content, user_id);
    let created = todo.duplicate();
    match repo.create(todo) {
        Ok(_) => Ok(created),
        Err(e) => Err(CreateTodoError::UnexpectedError(e)),
    }
}

/// Applies an update request to a record: sets or clears the done flag and
/// keeps every other field.
pub fn update_todo_object(current_todo: Todo, todo_update: TodoUpdate) -> (r: Result<
    Todo,
    ContentError,
>)
    ensures
        r is Ok,
        todo_update.done ==> r.unwrap()@ == marked_done(current_todo@),
        !todo_update.done ==> r.unwrap()@ == marked_unfinished(current_todo@),
{
    let mut updated = current_todo;
    if todo_update.done {
        updated.mark_as_done();
    } else {
        updated.mark_as_unfinished();
    }
    Ok(updated)
}

/// Updates one todo in the authenticated user's partition: looks the record
/// up by id, applies the done flag, and saves the result as an upsert. When
/// the id is absent from the partition nothing is written, which is not an
/// error; the updated record, if any, is returned to the caller.
pub fn update_todo(
    repo: &mut TodoRepository,
    user_id: &UserId,
    todo_id: TodoId,
    todo_update: TodoUpdate,
) -> (r: Result<Option<Todo>, UpdateTodoError>)
    requires
        old(repo).wf(),
    ensures
        final (repo).wf(),
        r is Ok,
        find_doc(old(repo)@, user_id@, todo_id@) is None ==> r == Ok::<
            Option<Todo>,
            UpdateTodoError,
        >(None) && final (repo)@ == old(repo)@,
        find_doc(old(repo)@, user_id@, todo_id@) is Some ==> (r matches Ok(Some(t))
            && final (repo)@ == upserted(old(repo)@, t) && t@ == (if todo_update.done {
            marked_done(find_doc(old(repo)@, user_id@, todo_id@).unwrap()@)
        } else {
            marked_unfinished(find_doc(old(repo)@, user_id@, todo_id@).unwrap()@)
        })),
{
    let current = match repo.get_one_for_user(user_id, todo_id) {
        Some(t) => t,
        None => return Ok(None),
    };
    let updated = match update_todo_object(current, todo_update) {
        Ok(t) => t,
        Err(e) => return Err(UpdateTodoError::ValidationError(e)),
    };
    let written = updated.duplicate();
    match repo.save(updated) {
        Ok(_) => Ok(Some(written)),
        Err(e) => Err(UpdateTodoError::UnexpectedError(e)),
    }
}

/// Deletes one todo from the authenticated user's partition by id. An id with
/// no matching record is a successful no-op that changes nothing.
pub fn delete_todo(repo: &mut TodoRepository, user_id: &UserId, todo_id: TodoId) -> (r: Result<
    (),
    DeleteTodoError,
>)
    requires
        old(repo).wf(),
    ensures
        final (repo).wf(),
        r is Ok,
        final (repo)@ == remaining_docs(old(repo)@, user_id@, Some(todo_id@)),
{
    match repo.delete_for_user_by_id(user_id, todo_id) {
        Ok(_) => Ok(()),
        Err(e) => Err(DeleteTodoError::UnexpectedError(e)),
    }
}

/// Lists every todo of the authenticated user's partition, in stored order.
/// The listing never yields a record created by another user.
pub fn get_all_user_todos(repo: &TodoRepository, user_id: &UserId) -> (r: Result<
    Vec<Todo>,
    GetAllUserTodosError,
>)
    ensures
        r is Ok,
        r.unwrap()@ == matching_docs(repo@, user_id@, None::<u128>),
        forall|i: int|
            0 <= i < r.unwrap()@.len() ==> (#[trigger] r.unwrap()@[i])@.created_by == user_id@,
{
    Ok(repo.get_all_for_user(user_id))
}

} // verus!
