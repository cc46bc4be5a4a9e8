//! The todo repository: user-scoped listing, point lookup, create-only
//! insert, upsert and scoped delete over a document store of `Todo` records,
//! all partitioned by the owning user.

use vstd::prelude::*;

use crate::model::Todo;
use crate::model::TodoId;
use crate::model::UserId;
use crate::store::DocumentStore;
use crate::store::StoreError;
use crate::store::Document;
use crate::store::doc_matches;
use crate::store::find_doc;
use crate::store::has_doc_key;
use crate::store::matching_docs;
use crate::store::remaining_docs;
use crate::store::upserted;
use crate::store::lemma_find_after_push;
use crate::store::lemma_find_after_upsert;
use crate::store::lemma_find_doc_is_match;
use crate::store::lemma_matching_all_match;
use crate::store::lemma_matching_complete;
use crate::store::lemma_remaining_no_match;
use crate::store::lemma_remaining_unchanged;

verus! {

/// A `Todo` is stored in the `todos` collection, keyed by its id, in the
/// partition of the user who created it.
impl Document for Todo {
    open spec fn doc_id(&self) -> u128 {
        self@.id
    }

    open spec fn doc_partition(&self) -> Seq<char> {
        self@.created_by
    }

    open spec fn collection_name() -> Seq<char> {
        "todos"@
    }

    fn id_value(&self) -> u128 {
        self.id().value()
    }

    fn partition_value(&self) -> &str {
        self.created_by_str()
    }

    fn collection() -> &'static str {
        "todos"
    }

    fn duplicate(&self) -> Todo {
        Todo::duplicate(self)
    }
}

/// The todo repository: every operation is scoped to one user's partition.
pub struct TodoRepository {
    store: DocumentStore<Todo>,
}

impl View for TodoRepository {
    type V = Seq<Todo>;

    closed spec fn view(&self) -> Seq<Todo> {
        self.store@
    }
}

impl TodoRepository {
    /// No two stored records share an id within a partition.
    pub closed spec fn wf(&self) -> bool {
        self.store.wf()
    }

    /// An empty repository.
    pub fn new() -> (r: TodoRepository)
        ensures
            r@ == Seq::<Todo>::empty(),
            r.wf(),
    {
        TodoRepository { store: DocumentStore::new() }
    }

    /// How many records the repository holds, over all partitions.
    pub fn len(&self) -> (r: usize)
        ensures
            r == self@.len(),
    {
        self.store.len()
    }

    /// Every record of the user's partition, in stored order. The query is
    /// scoped to that single partition: no record created by another user is
    /// ever yielded.
    pub fn get_all_for_user(&self, user_id: &UserId) -> (r: Vec<Todo>)
        ensures
            r@ == matching_docs(self@, user_id@, None::<u128>),
            forall|i: int| 0 <= i < r@.len() ==> (#[trigger] r@[i])@.created_by == user_id@,
    {
        let r = self.store.query(user_id.as_str(), None);
        proof {
            lemma_matching_all_match(self@, user_id@, None::<u128>);
        }
        r
    }

    /// Point lookup of one record by id within the user's partition; absence
    /// is a normal outcome, not an error.
    pub fn get_one_for_user(&self, user_id: &UserId, todo_id: TodoId) -> (r: Option<Todo>)
        ensures
            r is Some <==> find_doc(self@, user_id@, todo_id@) is Some,
            r matches Some(t) ==> t == find_doc(self@, user_id@, todo_id@).unwrap()
                && t@.created_by == user_id@ && t@.id == todo_id@,
            r is None ==> forall|k: int|
                0 <= k < self@.len() ==> !doc_matches(self@[k], user_id@, Some(todo_id@)),
    {
        proof {
            lemma_find_doc_is_match(self@, user_id@, todo_id@);
        }
        match self.store.get_by_id(todo_id.value(), user_id.as_str()) {
            Some(d) => Some(Todo::duplicate(d)),
            None => None,
        }
    }

    /// Create-only insert: fails, changing nothing, when a record with the
    /// same id already exists in the user's partition; otherwise appends
    /// exactly this record.
    pub fn create(&mut self, todo: Todo) -> (r: Result<(), StoreError>)
        requires
            old(self).wf(),
        ensures
            final (self).wf(),
            has_doc_key(old(self)@, todo) ==> r == Err::<(), StoreError>(StoreError::AlreadyExists)
                && final (self)@ == old(self)@,
            !has_doc_key(old(self)@, todo) ==> r is Ok && final (self)@ == old(self)@.push(todo),
    {
        self.store.save(todo, false)
    }

    /// Upsert: replaces the stored record with this record's current field
    /// values, or appends it when absent. No concurrency token is checked:
    /// the last write wins.
    pub fn save(&mut self, todo: Todo) -> (r: Result<(), StoreError>)
        requires
            old(self).wf(),
        ensures
            final (self).wf(),
            r is Ok,
            final (self)@ == upserted(old(self)@, todo),
    {
        self.store.save(todo, true)
    }

    /// Looks up every record matching both the user's partition and the id,
    /// then deletes each record found. Zero matches is a successful no-op:
    /// the repository is left exactly as it was.
    pub fn delete_for_user_by_id(&mut self, user_id: &UserId, todo_id: TodoId) -> (r: Result<
        (),
        StoreError,
    >)
        requires
            old(self).wf(),
        ensures
            final (self).wf(),
            r is Ok,
            final (self)@ == remaining_docs(old(self)@, user_id@, Some(todo_id@)),
    {
        let found = self.store.query(user_id.as_str(), Some(todo_id.value()));
        proof {
            lemma_matching_all_match(old(self)@, user_id@, Some(todo_id@));
        }
        let n = found.len();
        let mut i: usize = 0;
        while i < n
            invariant
                0 <= i <= n,
                old(self).wf(),
                self.wf(),
                n == found@.len(),
                found@ == matching_docs(old(self)@, user_id@, Some(todo_id@)),
                forall|k: int|
                    0 <= k < n ==> doc_matches(#[trigger] found@[k], user_id@, Some(todo_id@)),
                i == 0 ==> self@ == old(self)@,
                i > 0 ==> self@ == remaining_docs(old(self)@, user_id@, Some(todo_id@)),
            decreases n - i,
        {
            let d = &found[i];
            proof {
                if i > 0 {
                    lemma_remaining_no_match(old(self)@, user_id@, Some(todo_id@));
                    lemma_remaining_unchanged(self@, user_id@, Some(todo_id@));
                }
            }
            self.store.delete(d.id_value(), d.partition_value());
            i = i + 1;
        }
        if n == 0 {
            proof {
                lemma_matching_complete(old(self)@, user_id@, Some(todo_id@));
                assert forall|k: int| 0 <= k < old(self)@.len() implies !doc_matches(
                    #[trigger] old(self)@[k],
                    user_id@,
                    Some(todo_id@),
                ) by {
                    if doc_matches(old(self)@[k], user_id@, Some(todo_id@)) {
                        assert(matching_docs(old(self)@, user_id@, Some(todo_id@)).contains(
                            old(self)@[k],
                        ));
                    }
                }
                lemma_remaining_unchanged(old(self)@, user_id@, Some(todo_id@));
            }
        }
        Ok(())
    }
}

/// Round trip: after a record is created in a repository whose partition did
/// not yet hold its id, a point lookup by that id within that partition finds
/// exactly the created record, with its content, done flag and owner intact.
pub proof fn lemma_create_then_lookup(s: Seq<Todo>, t: Todo)
    requires
        !has_doc_key(s, t),
    ensures
        find_doc(s.push(t), t@.created_by, t@.id) == Some(t),
{
    lemma_find_after_push(s, t);
}

/// Update visibility: after a record is saved as an upsert, a point lookup
/// by its id within its partition finds exactly the saved record, so a
/// lookup that follows an update sees the updated field values.
pub proof fn lemma_save_then_lookup(s: Seq<Todo>, t: Todo)
    ensures
        find_doc(upserted(s, t), t@.created_by, t@.id) == Some(t),
{
    lemma_find_after_upsert(s, t);
}

/// Partition isolation: for two distinct users, the listing of one user's
/// partition never yields a record created by the other.
pub proof fn lemma_partition_isolation(s: Seq<Todo>, user_a: Seq<char>, user_b: Seq<char>)
    requires
        user_a != user_b,
    ensures
        forall|i: int|
            0 <= i < matching_docs(s, user_a, None::<u128>).len() ==> (#[trigger] matching_docs(
                s,
                user_a,
                None::<u128>,
            )[i])@.created_by != user_b,
{
    lemma_matching_all_match(s, user_a, None::<u128>);
}

/// Delete on absent: when no record of the user's partition carries the id,
/// the scoped delete leaves every stored record exactly in place.
pub proof fn lemma_delete_absent(s: Seq<Todo>, user: Seq<char>, id: u128)
    requires
        forall|i: int|
            0 <= i < s.len() ==> !((#[trigger] s[i])@.created_by == user && s[i]@.id == id),
    ensures
        remaining_docs(s, user, Some(id)) == s,
{
    assert forall|i: int| 0 <= i < s.len() implies !doc_matches(
        #[trigger] s[i],
        user,
        Some(id),
    ) by {
        assert(!(s[i]@.created_by == user && s[i]@.id == id));
    }
    lemma_remaining_unchanged(s, user, Some(id));
}

} // verus!
