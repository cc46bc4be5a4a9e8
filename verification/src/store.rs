//! A partitioned document collection and the generic repository operations
//! over it: point lookup, create/upsert, partition-scoped filtered query and
//! delete. An entity type is bound to its collection name, identifier and
//! partition key at definition time through the `Document` trait.

use vstd::prelude::*;

verus! {

/// The compile-time binding of an entity type to a document collection: its
/// collection name, its 128-bit identifier and its partition key.
pub trait Document: Sized {
    /// The identifier of this document.
    spec fn doc_id(&self) -> u128;

    /// The partition key under which this document is stored.
    spec fn doc_partition(&self) -> Seq<char>;

    /// The name of the collection that holds documents of this type.
    spec fn collection_name() -> Seq<char>;

    /// The identifier, as an executable value.
    fn id_value(&self) -> (r: u128)
        ensures
            r == self.doc_id(),
    ;

    /// The partition key, as an executable value.
    fn partition_value(&self) -> (r: &str)
        ensures
            r@ == self.doc_partition(),
    ;

    /// The collection name, as an executable value.
    fn collection() -> (r: &'static str)
        ensures
            r@ == Self::collection_name(),
    ;

    /// A copy of the document, equal to the original.
    fn duplicate(&self) -> (r: Self)
        ensures
            r == *self,
    ;
}

/// Relies on `str`'s `PartialEq`: two string slices are equal exactly when
/// they hold the same characters.
#[verifier::external_body]
fn str_eq(a: &str, b: &str) -> (r: bool)
    ensures
        r == (a@ == b@),
{
    a == b
}

/// Whether a document lies in the given partition and, when an identifier is
/// given, carries that identifier. This is the only filter shape the store is
/// ever asked to evaluate: a mandatory partition-key equality composed with
/// an optional identifier equality, both on bound values.
pub open spec fn doc_matches<T: Document>(d: T, pk: Seq<char>, id: Option<u128>) -> bool {
    d.doc_partition() == pk && match id {
        Some(i) => d.doc_id() == i,
        None => true,
    }
}

/// Whether two documents share a storage key (identifier and partition).
pub open spec fn same_key<T: Document>(a: T, b: T) -> bool {
    a.doc_id() == b.doc_id() && a.doc_partition() == b.doc_partition()
}

/// Whether some document of the sequence shares its storage key with `d`.
pub open spec fn has_doc_key<T: Document>(s: Seq<T>, d: T) -> bool {
    exists|i: int| 0 <= i < s.len() && same_key(s[i], d)
}

/// The subsequence of documents that match the filter, in stored order.
pub open spec fn matching_docs<T: Document>(s: Seq<T>, pk: Seq<char>, id: Option<u128>) -> Seq<T>
    decreases s.len(),
{
    if s.len() == 0 {
        Seq::empty()
    } else {
        let rest = matching_docs(s.drop_last(), pk, id);
        if doc_matches(s.last(), pk, id) {
            rest.push(s.last())
        } else {
            rest
        }
    }
}

/// The subsequence of documents that do not match the filter, in stored
/// order: what a delete of everything matching leaves behind.
pub open spec fn remaining_docs<T: Document>(s: Seq<T>, pk: Seq<char>, id: Option<u128>) -> Seq<T>
    decreases s.len(),
{
    if s.len() == 0 {
        Seq::empty()
    } else {
        let rest = remaining_docs(s.drop_last(), pk, id);
        if doc_matches(s.last(), pk, id) {
            rest
        } else {
            rest.push(s.last())
        }
    }
}

/// The first document of the sequence that lies in partition `pk` with
/// identifier `id`, if any.
pub open spec fn find_doc<T: Document>(s: Seq<T>, pk: Seq<char>, id: u128) -> Option<T>
    decreases s.len(),
{
    if s.len() == 0 {
        None
    } else if doc_matches(s.first(), pk, Some(id)) {
        Some(s.first())
    } else {
        find_doc(s.drop_first(), pk, id)
    }
}

/// The sequence with the first document sharing `d`'s key replaced by `d`,
/// or with `d` appended when no document shares its key.
pub open spec fn upserted<T: Document>(s: Seq<T>, d: T) -> Seq<T>
    decreases s.len(),
{
    if s.len() == 0 {
        seq![d]
    } else if same_key(s.first(), d) {
        seq![d] + s.drop_first()
    } else {
        seq![s.first()] + upserted(s.drop_first(), d)
    }
}

/// Why a store write was refused.
#[derive(Debug, PartialEq, Eq, Structural, Clone, Copy)]
pub enum StoreError {
    /// A create-only write found a document with the same identifier already
    /// present in the partition.
    AlreadyExists,
}

impl StoreError {
    /// A human-readable reason for the failure.
    pub fn message(&self) -> (r: String)
        ensures
            r@ == "a document with this id already exists in the partition"@,
    {
        String::from_str("a document with this id already exists in the partition")
    }
}

/// An in-memory document collection with the store's contract: documents are
/// keyed by identifier within a partition, and every operation is scoped to
/// exactly one partition. Well-formed collections never hold two documents
/// with the same key.
pub struct DocumentStore<T: Document> {
    docs: Vec<T>,
}

impl<T: Document> View for DocumentStore<T> {
    type V = Seq<T>;

    closed spec fn view(&self) -> Seq<T> {
        self.docs@
    }
}

impl<T: Document> DocumentStore<T> {
    /// No two documents share a storage key.
    pub open spec fn wf(&self) -> bool {
        forall|i: int, j: int|
            0 <= i < j < self@.len() ==> !(#[trigger] same_key(self@[i], self@[j]))
    }

    /// An empty collection for the entity type's collection name.
    pub fn new() -> (r: DocumentStore<T>)
        ensures
            r@ == Seq::<T>::empty(),
            r.wf(),
    {
        DocumentStore { docs: Vec::new() }
    }

    /// The name of the collection this store holds, fixed by the entity type.
    pub fn collection_name(&self) -> (r: &'static str)
        ensures
            r@ == T::collection_name(),
    {
        T::collection()
    }

    /// How many documents the collection holds.
    pub fn len(&self) -> (r: usize)
        ensures
            r == self@.len(),
    {
        self.docs.len()
    }

    /// Point lookup of one document by identifier within one partition.
    /// Absence is a normal outcome, not an error.
    pub fn get_by_id(&self, id: u128, partition_key: &str) -> (r: Option<&T>)
        ensures
            r is Some <==> find_doc(self@, partition_key@, id) is Some,
            r matches Some(d) ==> *d == find_doc(self@, partition_key@, id).unwrap(),
            r is None ==> forall|k: int|
                0 <= k < self@.len() ==> !doc_matches(self@[k], partition_key@, Some(id)),
    {
        let n = self.docs.len();
        let mut i: usize = 0;
        proof {
            assert(self@.skip(0) =~= self@);
        }
        while i < n
            invariant
                0 <= i <= n,
                n == self@.len(),
                forall|k: int| 0 <= k < i ==> !doc_matches(self@[k], partition_key@, Some(id)),
                find_doc(self@, partition_key@, id) == find_doc(
                    self@.skip(i as int),
                    partition_key@,
                    id,
                ),
            decreases n - i,
        {
            let d = &self.docs[i];
            let is_match = d.id_value() == id && str_eq(d.partition_value(), partition_key);
            proof {
                assert(self@.skip(i as int).first() == self@[i as int]);
                assert(self@.skip(i as int).drop_first() =~= self@.skip(i as int + 1));
            }
            if is_match {
                return Some(d);
            }
            i = i + 1;
        }
        proof {
            assert(self@.skip(n as int) =~= Seq::<T>::empty());
        }
        None
    }

    /// Writes one document. With `is_upsert` false the write is create-only:
    /// it fails, changing nothing, when a document with the same identifier
    /// already exists in the partition. With `is_upsert` true it replaces any
    /// such document.
    pub fn save(&mut self, doc: T, is_upsert: bool) -> (r: Result<(), StoreError>)
        requires
            old(self).wf(),
        ensures
            final (self).wf(),
            is_upsert ==> r is Ok && final (self)@ == upserted(old(self)@, doc),
            !is_upsert && has_doc_key(old(self)@, doc) ==> r == Err::<(), StoreError>(
                StoreError::AlreadyExists,
            ) && final (self)@ == old(self)@,
            !is_upsert && !has_doc_key(old(self)@, doc) ==> r is Ok && final (self)@ == old(
                self,
            )@.push(doc),
    {
        let did = doc.id_value();
        let dpk = doc.partition_value().to_owned();
        let n = self.docs.len();
        let mut i: usize = 0;
        while i < n
            invariant
                0 <= i <= n,
                n == self@.len(),
                self@ == old(self)@,
                old(self).wf(),
                did == doc.doc_id(),
                dpk@ == doc.doc_partition(),
                forall|k: int| 0 <= k < i ==> !(#[trigger] same_key(self@[k], doc)),
            decreases n - i,
        {
            let d = &self.docs[i];
            if d.id_value() == did && str_eq(d.partition_value(), dpk.as_str()) {
                assert(same_key(self@[i as int], doc));
                if is_upsert {
                    proof {
                        lemma_upserted_at(self@, doc, i as int);
                    }
                    let _ = self.docs.remove(i);
                    self.docs.insert(i, doc);
                    proof {
                        assert(self@ =~= old(self)@.update(i as int, doc));
                        lemma_wf_update(old(self)@, doc, i as int);
                    }
                    return Ok(());
                } else {
                    return Err(StoreError::AlreadyExists);
                }
            }
            i = i + 1;
        }
        proof {
            if is_upsert {
                lemma_upserted_push(self@, doc);
            }
        }
        self.docs.push(doc);
        proof {
            assert forall|a: int, b: int| 0 <= a < b < self@.len() implies !(#[trigger] same_key(
                self@[a],
                self@[b],
            )) by {
                if b == self@.len() - 1 {
                    assert(!same_key(old(self)@[a], doc));
                } else {
                    assert(!same_key(old(self)@[a], old(self)@[b]));
                }
            }
        }
        Ok(())
    }

    /// Single-partition query: every document of partition `pk` and, when an
    /// identifier is given, with that identifier, as copies in stored order.
    pub fn query(&self, pk: &str, id: Option<u128>) -> (r: Vec<T>)
        ensures
            r@ == matching_docs(self@, pk@, id),
    {
        let n = self.docs.len();
        let mut out: Vec<T> = Vec::new();
        let mut i: usize = 0;
        while i < n
            invariant
                0 <= i <= n,
                n == self@.len(),
                out@ == matching_docs(self@.take(i as int), pk@, id),
            decreases n - i,
        {
            let d = &self.docs[i];
            let id_ok = match id {
                Some(v) => d.id_value() == v,
                None => true,
            };
            proof {
                assert(self@.take(i as int + 1).drop_last() =~= self@.take(i as int));
                assert(self@.take(i as int + 1).last() == self@[i as int]);
            }
            if id_ok && str_eq(d.partition_value(), pk) {
                out.push(d.duplicate());
            }
            i = i + 1;
        }
        proof {
            assert(self@.take(n as int) =~= self@);
        }
        out
    }

    /// Deletes the document with the given identifier from the given
    /// partition. Deleting an absent identifier changes nothing and is not an
    /// error.
    pub fn delete(&mut self, id: u128, partition_key: &str)
        ensures
            final (self)@ == remaining_docs(old(self)@, partition_key@, Some(id)),
            old(self).wf() ==> final (self).wf(),
    {
        let n = self.docs.len();
        let mut kept: Vec<T> = Vec::new();
        let mut i: usize = 0;
        while i < n
            invariant
                0 <= i <= n,
                n == self@.len(),
                self@ == old(self)@,
                kept@ == remaining_docs(self@.take(i as int), partition_key@, Some(id)),
            decreases n - i,
        {
            let d = &self.docs[i];
            proof {
                assert(self@.take(i as int + 1).drop_last() =~= self@.take(i as int));
                assert(self@.take(i as int + 1).last() == self@[i as int]);
            }
            if !(d.id_value() == id && str_eq(d.partition_value(), partition_key)) {
                kept.push(d.duplicate());
            }
            i = i + 1;
        }
        proof {
            assert(self@.take(n as int) =~= self@);
        }
        self.docs = kept;
        proof {
            lemma_remaining_sub(old(self)@, partition_key@, Some(id));
            if old(self).wf() {
                assert forall|a: int, b: int| 0 <= a < b < self@.len() implies !(
                #[trigger] same_key(self@[a], self@[b])) by {
                    let s = old(self)@;
                    let r = self@;
                    let ia = choose|ia: int|
                        0 <= ia < s.len() && s[ia] == r[a] && exists|ib: int|
                            ia < ib < s.len() && s[ib] == r[b];
                    let ib = choose|ib: int| ia < ib < s.len() && s[ib] == r[b];
                    assert(!same_key(s[ia], s[ib]));
                }
            }
        }
    }
}

/// Every document selected by a query matches the query's filter; in
/// particular, a partition-scoped query never yields a document of another
/// partition.
pub proof fn lemma_matching_all_match<T: Document>(s: Seq<T>, pk: Seq<char>, id: Option<u128>)
    ensures
        forall|i: int|
            0 <= i < matching_docs(s, pk, id).len() ==> doc_matches(
                #[trigger] matching_docs(s, pk, id)[i],
                pk,
                id,
            ),
    decreases s.len(),
{
    if s.len() > 0 {
        lemma_matching_all_match(s.drop_last(), pk, id);
        let m = matching_docs(s, pk, id);
        let md = matching_docs(s.drop_last(), pk, id);
        assert forall|i: int| 0 <= i < m.len() implies doc_matches(#[trigger] m[i], pk, id) by {
            if i < md.len() {
                assert(m[i] == md[i]);
            } else {
                assert(m[i] == s.last());
            }
        }
    }
}

/// A query selects every document that matches its filter: nothing in the
/// partition is passed over.
pub proof fn lemma_matching_complete<T: Document>(s: Seq<T>, pk: Seq<char>, id: Option<u128>)
    ensures
        forall|i: int|
            0 <= i < s.len() && doc_matches(#[trigger] s[i], pk, id) ==> matching_docs(
                s,
                pk,
                id,
            ).contains(s[i]),
        forall|i: int|
            0 <= i < matching_docs(s, pk, id).len() ==> s.contains(
                #[trigger] matching_docs(s, pk, id)[i],
            ),
    decreases s.len(),
{
    if s.len() > 0 {
        lemma_matching_complete(s.drop_last(), pk, id);
        assert forall|i: int|
            0 <= i < s.len() && doc_matches(#[trigger] s[i], pk, id) implies matching_docs(
            s,
            pk,
            id,
        ).contains(s[i]) by {
            if i < s.len() - 1 {
                assert(s.drop_last()[i] == s[i]);
                let m = matching_docs(s.drop_last(), pk, id);
                let k = choose|k: int| 0 <= k < m.len() && m[k] == s[i];
                assert(matching_docs(s, pk, id)[k] == s[i]);
            } else {
                let m = matching_docs(s, pk, id);
                assert(m[m.len() - 1] == s[i]);
            }
        }
        assert forall|i: int| 0 <= i < matching_docs(s, pk, id).len() implies s.contains(
            #[trigger] matching_docs(s, pk, id)[i],
        ) by {
            let m = matching_docs(s, pk, id);
            let md = matching_docs(s.drop_last(), pk, id);
            if i < md.len() {
                let k = choose|k: int| 0 <= k < s.drop_last().len() && s.drop_last()[k] == md[i];
                assert(s[k] == m[i]);
            } else {
                assert(s[s.len() - 1] == m[i]);
            }
        }
    }
}

/// When nothing in the sequence matches the filter, deleting everything that
/// matches leaves the sequence exactly as it was.
pub proof fn lemma_remaining_unchanged<T: Document>(s: Seq<T>, pk: Seq<char>, id: Option<u128>)
    requires
        forall|i: int| 0 <= i < s.len() ==> !doc_matches(#[trigger] s[i], pk, id),
    ensures
        remaining_docs(s, pk, id) =~= s,
    decreases s.len(),
{
    if s.len() > 0 {
        lemma_remaining_unchanged(s.drop_last(), pk, id);
    }
}

/// What a delete leaves behind never matches the filter that drove it.
pub proof fn lemma_remaining_no_match<T: Document>(s: Seq<T>, pk: Seq<char>, id: Option<u128>)
    ensures
        forall|i: int|
            0 <= i < remaining_docs(s, pk, id).len() ==> !doc_matches(
                #[trigger] remaining_docs(s, pk, id)[i],
                pk,
                id,
            ),
    decreases s.len(),
{
    if s.len() > 0 {
        lemma_remaining_no_match(s.drop_last(), pk, id);
        let r = remaining_docs(s, pk, id);
        let rd = remaining_docs(s.drop_last(), pk, id);
        assert forall|i: int| 0 <= i < r.len() implies !doc_matches(#[trigger] r[i], pk, id) by {
            if i < rd.len() {
                assert(r[i] == rd[i]);
            } else {
                assert(r[i] == s.last());
            }
        }
    }
}

/// Whether `x` and `y` stand somewhere in `s`, in this order.
spec fn ordered_pair_in<T>(s: Seq<T>, x: T, y: T) -> bool {
    exists|ia: int, ib: int| 0 <= ia < ib < s.len() && (#[trigger] s[ia]) == x && (#[trigger] s[ib]) == y
}

/// Every document a delete leaves behind was present before it, in order.
proof fn lemma_remaining_sub<T: Document>(s: Seq<T>, pk: Seq<char>, id: Option<u128>)
    ensures
        forall|a: int, b: int|
            #![trigger remaining_docs(s, pk, id)[a], remaining_docs(s, pk, id)[b]]
            0 <= a < b < remaining_docs(s, pk, id).len() ==> ordered_pair_in(
                s,
                remaining_docs(s, pk, id)[a],
                remaining_docs(s, pk, id)[b],
            ),
        forall|a: int|
            0 <= a < remaining_docs(s, pk, id).len() ==> s.contains(
                #[trigger] remaining_docs(s, pk, id)[a],
            ),
    decreases s.len(),
{
    if s.len() > 0 {
        lemma_remaining_sub(s.drop_last(), pk, id);
        let sd = s.drop_last();
        let r = remaining_docs(s, pk, id);
        let rd = remaining_docs(sd, pk, id);
        assert forall|a: int| 0 <= a < r.len() implies s.contains(#[trigger] r[a]) by {
            if a < rd.len() {
                let ia = choose|ia: int| 0 <= ia < sd.len() && sd[ia] == rd[a];
                assert(s[ia] == r[a]);
            } else {
                assert(s[s.len() - 1] == r[a]);
            }
        }
        assert forall|a: int, b: int|
            #![trigger r[a], r[b]]
            0 <= a < b < r.len() implies ordered_pair_in(s, r[a], r[b]) by {
            if b < rd.len() {
                assert(ordered_pair_in(sd, rd[a], rd[b]));
                let (ia, ib) = choose|ia: int, ib: int|
                    0 <= ia < ib < sd.len() && (#[trigger] sd[ia]) == rd[a] && (#[trigger] sd[ib])
                        == rd[b];
                assert(s[ia] == r[a] && s[ib] == r[b]);
            } else {
                let ia = choose|ia: int| 0 <= ia < sd.len() && sd[ia] == rd[a];
                assert(s[ia] == r[a] && s[s.len() - 1] == r[b]);
            }
        }
    }
}

/// A create-only write that succeeded found the key absent, so the unique
/// match for that key afterwards is the created document itself.
pub proof fn lemma_find_after_push<T: Document>(s: Seq<T>, d: T)
    requires
        !has_doc_key(s, d),
    ensures
        find_doc(s.push(d), d.doc_partition(), d.doc_id()) == Some(d),
    decreases s.len(),
{
    if s.len() == 0 {
        assert(s.push(d).first() == d);
    } else {
        assert(!same_key(s[0], d));
        assert(s.push(d).first() == s[0]);
        assert(s.push(d).drop_first() =~= s.drop_first().push(d));
        assert forall|i: int| 0 <= i < s.drop_first().len() implies !(#[trigger] same_key(
            s.drop_first()[i],
            d,
        )) by {
            assert(!same_key(s[i + 1], d));
        }
        lemma_find_after_push(s.drop_first(), d);
    }
}

/// Whatever `find_doc` returns lies in the sequence and matches the key.
pub proof fn lemma_find_doc_is_match<T: Document>(s: Seq<T>, pk: Seq<char>, id: u128)
    ensures
        find_doc(s, pk, id) matches Some(d) ==> s.contains(d) && doc_matches(d, pk, Some(id)),
    decreases s.len(),
{
    if s.len() > 0 && !doc_matches(s.first(), pk, Some(id)) {
        lemma_find_doc_is_match(s.drop_first(), pk, id);
        let f = find_doc(s.drop_first(), pk, id);
        if f is Some {
            let d = f.unwrap();
            let i = choose|i: int| 0 <= i < s.drop_first().len() && s.drop_first()[i] == d;
            assert(s[i + 1] == d);
        }
    }
}

/// After an upsert, a point lookup by the written document's own key finds
/// exactly that document.
pub proof fn lemma_find_after_upsert<T: Document>(s: Seq<T>, d: T)
    ensures
        find_doc(upserted(s, d), d.doc_partition(), d.doc_id()) == Some(d),
    decreases s.len(),
{
    if s.len() == 0 {
        assert(upserted(s, d).first() == d);
    } else if same_key(s.first(), d) {
        assert((seq![d] + s.drop_first()).first() == d);
    } else {
        let u = upserted(s, d);
        assert(u.first() == s.first());
        assert(!doc_matches(u.first(), d.doc_partition(), Some(d.doc_id())));
        assert(u.drop_first() =~= upserted(s.drop_first(), d));
        lemma_find_after_upsert(s.drop_first(), d);
    }
}

proof fn lemma_upserted_at<T: Document>(s: Seq<T>, d: T, i: int)
    requires
        0 <= i < s.len(),
        same_key(s[i], d),
        forall|k: int| 0 <= k < i ==> !(#[trigger] same_key(s[k], d)),
    ensures
        upserted(s, d) =~= s.update(i, d),
    decreases i,
{
    if i == 0 {
        assert(upserted(s, d) == seq![d] + s.drop_first());
        assert(seq![d] + s.drop_first() =~= s.update(0, d));
    } else {
        assert(!same_key(s.first(), d));
        assert forall|k: int| 0 <= k < i - 1 implies !(#[trigger] same_key(
            s.drop_first()[k],
            d,
        )) by {
            assert(!same_key(s[k + 1], d));
        }
        assert(s.drop_first()[i - 1] == s[i]);
        lemma_upserted_at(s.drop_first(), d, i - 1);
        assert(seq![s.first()] + s.drop_first().update(i - 1, d) =~= s.update(i, d));
    }
}

proof fn lemma_upserted_push<T: Document>(s: Seq<T>, d: T)
    requires
        forall|k: int| 0 <= k < s.len() ==> !(#[trigger] same_key(s[k], d)),
    ensures
        upserted(s, d) =~= s.push(d),
    decreases s.len(),
{
    if s.len() == 0 {
        assert(upserted(s, d) == seq![d]);
        assert(seq![d] =~= s.push(d));
    } else {
        assert forall|k: int| 0 <= k < s.drop_first().len() implies !(#[trigger] same_key(
            s.drop_first()[k],
            d,
        )) by {
            assert(!same_key(s[k + 1], d));
        }
        lemma_upserted_push(s.drop_first(), d);
        assert(seq![s.first()] + s.drop_first().push(d) =~= s.push(d));
    }
}

proof fn lemma_wf_update<T: Document>(s: Seq<T>, d: T, i: int)
    requires
        0 <= i < s.len(),
        same_key(s[i], d),
        forall|a: int, b: int| 0 <= a < b < s.len() ==> !(#[trigger] same_key(s[a], s[b])),
    ensures
        forall|a: int, b: int|
            0 <= a < b < s.update(i, d).len() ==> !(#[trigger] same_key(
                s.update(i, d)[a],
                s.update(i, d)[b],
            )),
{
    let t = s.update(i, d);
    assert forall|a: int, b: int| 0 <= a < b < t.len() implies !(#[trigger] same_key(
        t[a],
        t[b],
    )) by {
        if a == i {
            assert(!same_key(s[a], s[b]));
        } else if b == i {
            assert(!same_key(s[a], s[b]));
        } else {
            assert(!same_key(s[a], s[b]));
        }
    }
}

} // verus!
