//! The collection a resource's documents live in, with the operations
//! the CRUD service needs: find by filter, insert one, update one by
//! merge, delete one. Every stored document carries a unique identifier
//! under the `_id` field.

use vstd::prelude::*;

use crate::doc::{
    doc_get_v, doc_set, doc_set_v, lemma_doc_get_skip, lemma_get_set_other, lemma_get_set_same,
    unique_keys_v, value_eq, DocV, Document, Value, ValueV,
};
use crate::filter::{doc_matches, doc_matches_v, Filter, FilterV};
use crate::oid::ObjectId;

verus! {

/// The identifier stored in a document, if any.
pub open spec fn doc_id_v(d: DocV) -> Option<ValueV> {
    doc_get_v(d, "_id"@)
}

/// Whether a document is well-keyed: its `_id` is a 12-byte identifier.
pub open spec fn is_id_doc_v(d: DocV) -> bool {
    match doc_id_v(d) {
        Some(v) => match v {
            ValueV::Oid(b) => b.len() == 12,
            _ => false,
        },
        None => false,
    }
}

/// The document with the identifier `b` prepended.
pub open spec fn with_id_v(d: DocV, b: Seq<u8>) -> DocV {
    seq![("_id"@, ValueV::Oid(b))] + d
}

/// Whether some document of `docs` carries the identifier `b`.
pub open spec fn contains_id_v(docs: Seq<DocV>, b: Seq<u8>) -> bool {
    exists|i: int| 0 <= i < docs.len() && doc_id_v(#[trigger] docs[i]) == Some(ValueV::Oid(b))
}

/// A key absent from every entry is absent from the lookup.
pub proof fn lemma_doc_get_absent(d: DocV, k: Seq<char>)
    requires
        forall|j: int| 0 <= j < d.len() ==> (#[trigger] d[j]).0 != k,
    ensures
        doc_get_v(d, k) is None,
{
    lemma_doc_get_skip(d, k, d.len() as int);
    assert(d.skip(d.len() as int) =~= Seq::<(Seq<char>, ValueV)>::empty());
}

/// With unique keys, looking up the key of any entry gives that
/// entry's value.
pub proof fn lemma_unique_get(d: DocV, i: int)
    requires
        unique_keys_v(d),
        0 <= i < d.len(),
    ensures
        doc_get_v(d, d[i].0) == Some(d[i].1),
    decreases i,
{
    if i == 0 {
    } else {
        assert(d[0].0 != d[i].0);
        assert(unique_keys_v(d.drop_first())) by {
            assert forall|x: int, y: int|
                0 <= x < y < d.drop_first().len() implies (#[trigger] d.drop_first()[x]).0 != (
            #[trigger] d.drop_first()[y]).0 by {
                assert(d.drop_first()[x] == d[x + 1]);
                assert(d.drop_first()[y] == d[y + 1]);
            }
        }
        lemma_unique_get(d.drop_first(), i - 1);
        assert(d.drop_first()[i - 1] == d[i]);
    }
}

/// The document with the fields of `s` merged in, one after the other:
/// each assignment replaces the first occurrence of its key, or appends
/// the field.
pub open spec fn apply_set_v(d: DocV, s: DocV) -> DocV
    decreases s.len(),
{
    if s.len() == 0 {
        d
    } else {
        apply_set_v(doc_set_v(d, s[0].0, s[0].1), s.drop_first())
    }
}

/// A merge with unique keys reads back like a two-layer lookup: a key
/// the merge set has its new value, any other key keeps its old value.
pub proof fn lemma_apply_set_get(d: DocV, s: DocV, k: Seq<char>)
    requires
        unique_keys_v(s),
    ensures
        doc_get_v(apply_set_v(d, s), k) == (match doc_get_v(s, k) {
            Some(v) => Some(v),
            None => doc_get_v(d, k),
        }),
    decreases s.len(),
{
    if s.len() == 0 {
    } else {
        let d1 = doc_set_v(d, s[0].0, s[0].1);
        assert(unique_keys_v(s.drop_first())) by {
            assert forall|x: int, y: int|
                0 <= x < y < s.drop_first().len() implies (#[trigger] s.drop_first()[x]).0 != (
            #[trigger] s.drop_first()[y]).0 by {
                assert(s.drop_first()[x] == s[x + 1]);
                assert(s.drop_first()[y] == s[y + 1]);
            }
        }
        lemma_apply_set_get(d1, s.drop_first(), k);
        if k == s[0].0 {
            assert(doc_get_v(s, k) == Some(s[0].1));
            assert forall|j: int|
                0 <= j < s.drop_first().len() implies (#[trigger] s.drop_first()[j]).0 != k by {
                assert(s.drop_first()[j] == s[j + 1]);
            }
            lemma_doc_get_absent(s.drop_first(), k);
            lemma_get_set_same(d, k, s[0].1);
        } else {
            assert(doc_get_v(s, k) == doc_get_v(s.drop_first(), k));
            if doc_get_v(s.drop_first(), k) is None {
                lemma_get_set_other(d, s[0].0, s[0].1, k);
            }
        }
    }
}

/// Setting a key to the value it already has leaves the document as it
/// stands.
pub proof fn lemma_set_noop(d: DocV, k: Seq<char>, v: ValueV)
    requires
        doc_get_v(d, k) == Some(v),
    ensures
        doc_set_v(d, k, v) == d,
    decreases d.len(),
{
    if d.len() == 0 {
    } else if d[0].0 == k {
        assert(d[0] == (k, v));
        assert(doc_set_v(d, k, v) =~= d);
    } else {
        lemma_set_noop(d.drop_first(), k, v);
        assert(doc_set_v(d, k, v) =~= d);
    }
}

/// A merge whose every assignment is already in place changes nothing.
pub proof fn lemma_apply_set_noop(d: DocV, s: DocV)
    requires
        forall|i: int| 0 <= i < s.len() ==> doc_get_v(d, (#[trigger] s[i]).0) == Some(s[i].1),
    ensures
        apply_set_v(d, s) == d,
    decreases s.len(),
{
    if s.len() > 0 {
        lemma_set_noop(d, s[0].0, s[0].1);
        assert forall|i: int|
            0 <= i < s.drop_first().len() implies doc_get_v(
            doc_set_v(d, s[0].0, s[0].1),
            (#[trigger] s.drop_first()[i]).0,
        ) == Some(s.drop_first()[i].1) by {
            assert(s.drop_first()[i] == s[i + 1]);
        }
        lemma_apply_set_noop(doc_set_v(d, s[0].0, s[0].1), s.drop_first());
    }
}

/// Merging the same unique-keyed assignments twice gives the same
/// document as merging them once.
pub proof fn lemma_apply_set_idempotent(d: DocV, s: DocV)
    requires
        unique_keys_v(s),
    ensures
        apply_set_v(apply_set_v(d, s), s) == apply_set_v(d, s),
{
    let d1 = apply_set_v(d, s);
    assert forall|i: int|
        0 <= i < s.len() implies doc_get_v(d1, (#[trigger] s[i]).0) == Some(s[i].1) by {
        lemma_unique_get(s, i);
        lemma_apply_set_get(d, s, s[i].0);
    }
    lemma_apply_set_noop(d1, s);
}

/// A merge that does not reassign `_id` (or reassigns it to the value
/// already stored) keeps the document's identifier.
pub proof fn lemma_apply_set_keeps_id(d: DocV, s: DocV)
    requires
        unique_keys_v(s),
        !set_changes_id_v(d, s),
    ensures
        doc_id_v(apply_set_v(d, s)) == doc_id_v(d),
{
    lemma_apply_set_get(d, s, "_id"@);
}

/// Whether merging `s` into `d` would give `d` a different identifier.
pub open spec fn set_changes_id_v(d: DocV, s: DocV) -> bool {
    match doc_get_v(s, "_id"@) {
        Some(v) => doc_get_v(d, "_id"@) != Some(v),
        None => false,
    }
}

/// The documents of `docs` that match the filter, in storage order.
pub open spec fn matching_docs_v(docs: Seq<DocV>, f: FilterV) -> Seq<DocV>
    decreases docs.len(),
{
    if docs.len() == 0 {
        Seq::<DocV>::empty()
    } else if doc_matches_v(docs[0], f) {
        seq![docs[0]] + matching_docs_v(docs.drop_first(), f)
    } else {
        matching_docs_v(docs.drop_first(), f)
    }
}

/// The position of the first document matching the filter, if any.
pub open spec fn first_match_v(docs: Seq<DocV>, f: FilterV) -> Option<int>
    decreases docs.len(),
{
    if docs.len() == 0 {
        None
    } else if doc_matches_v(docs[0], f) {
        Some(0)
    } else {
        match first_match_v(docs.drop_first(), f) {
            Some(i) => Some(i + 1),
            None => None,
        }
    }
}

/// Appending a document extends the matches by that document exactly
/// when it matches.
pub proof fn lemma_matching_push(docs: Seq<DocV>, d: DocV, f: FilterV)
    ensures
        matching_docs_v(docs.push(d), f) == matching_docs_v(docs, f) + (if doc_matches_v(d, f) {
            seq![d]
        } else {
            Seq::<DocV>::empty()
        }),
    decreases docs.len(),
{
    let tail = if doc_matches_v(d, f) {
        seq![d]
    } else {
        Seq::<DocV>::empty()
    };
    if docs.len() == 0 {
        assert(docs.push(d) =~= seq![d]);
        assert(seq![d].drop_first() =~= Seq::<DocV>::empty());
        assert(matching_docs_v(seq![d].drop_first(), f) =~= Seq::<DocV>::empty());
        assert(matching_docs_v(docs, f) + tail =~= tail);
        assert(matching_docs_v(seq![d], f) =~= tail);
    } else {
        assert(docs.push(d).drop_first() =~= docs.drop_first().push(d));
        lemma_matching_push(docs.drop_first(), d, f);
        assert(docs.push(d)[0] == docs[0]);
        if doc_matches_v(docs[0], f) {
            assert(matching_docs_v(docs.push(d), f) == seq![docs[0]] + (matching_docs_v(
                docs.drop_first(),
                f,
            ) + tail));
            assert(seq![docs[0]] + (matching_docs_v(docs.drop_first(), f) + tail) =~= (seq![docs[0]]
                + matching_docs_v(docs.drop_first(), f)) + tail);
        }
    }
}

/// Where no document matches, the matches are empty.
pub proof fn lemma_matching_none(docs: Seq<DocV>, f: FilterV)
    requires
        forall|j: int| 0 <= j < docs.len() ==> !doc_matches_v(#[trigger] docs[j], f),
    ensures
        matching_docs_v(docs, f) == Seq::<DocV>::empty(),
    decreases docs.len(),
{
    if docs.len() > 0 {
        assert forall|j: int|
            0 <= j < docs.drop_first().len() implies !doc_matches_v(
            #[trigger] docs.drop_first()[j],
            f,
        ) by {
            assert(docs.drop_first()[j] == docs[j + 1]);
        }
        lemma_matching_none(docs.drop_first(), f);
    }
}

/// What the position of the first match means: the document there
/// matches and no earlier one does; where there is none, nothing
/// matches.
pub proof fn lemma_first_match_props(docs: Seq<DocV>, f: FilterV)
    ensures
        match first_match_v(docs, f) {
            Some(i) => 0 <= i < docs.len() && doc_matches_v(docs[i], f) && (forall|j: int|
                0 <= j < i ==> !doc_matches_v(#[trigger] docs[j], f)),
            None => forall|j: int| 0 <= j < docs.len() ==> !doc_matches_v(#[trigger] docs[j], f),
        },
    decreases docs.len(),
{
    if docs.len() > 0 {
        lemma_first_match_props(docs.drop_first(), f);
        if !doc_matches_v(docs[0], f) {
            match first_match_v(docs.drop_first(), f) {
                Some(m) => {
                    assert(docs[m + 1] == docs.drop_first()[m]);
                    assert forall|j: int| 0 <= j < m + 1 implies !doc_matches_v(
                        #[trigger] docs[j],
                        f,
                    ) by {
                        if j > 0 {
                            assert(docs[j] == docs.drop_first()[j - 1]);
                        }
                    }
                },
                None => {
                    assert forall|j: int| 0 <= j < docs.len() implies !doc_matches_v(
                        #[trigger] docs[j],
                        f,
                    ) by {
                        if j > 0 {
                            assert(docs[j] == docs.drop_first()[j - 1]);
                        }
                    }
                },
            }
        }
    }
}

/// A search skips over a prefix with no match.
pub proof fn lemma_first_match_skip(docs: Seq<DocV>, f: FilterV, i: int)
    requires
        0 <= i <= docs.len(),
        forall|j: int| 0 <= j < i ==> !doc_matches_v(#[trigger] docs[j], f),
    ensures
        first_match_v(docs, f) == (match first_match_v(docs.skip(i), f) {
            Some(m) => Some(m + i),
            None => None::<int>,
        }),
    decreases i,
{
    if i > 0 {
        assert(!doc_matches_v(docs[0], f));
        lemma_first_match_skip(docs.drop_first(), f, i - 1);
        assert(docs.drop_first().skip(i - 1) =~= docs.skip(i));
    } else {
        assert(docs.skip(0) =~= docs);
    }
}

/// The view of a list of documents.
pub open spec fn docs_v(s: Seq<Document>) -> Seq<DocV> {
    s.map_values(|d: Document| d@)
}

/// A storage-layer failure. The CRUD service wraps each of these into
/// an internal error at its boundary.
#[derive(Debug)]
pub enum StoreError {
    /// Inserting a document whose identifier is already taken.
    DuplicateKey,
    /// Inserting a document whose `_id` field does not hold an
    /// identifier.
    InvalidId,
    /// An update that would change a stored document's identifier.
    ImmutableId,
}

/// A named collection of documents, each carrying a unique `_id`.
#[derive(Debug)]
pub struct Collection {
    pub docs: Vec<Document>,
}

impl View for Collection {
    type V = Seq<DocV>;

    open spec fn view(&self) -> Seq<DocV> {
        docs_v(self.docs@)
    }
}

impl Collection {
    /// Every stored document carries an identifier, and no identifier
    /// repeats.
    pub open spec fn inv(&self) -> bool {
        (forall|i: int| 0 <= i < self@.len() ==> is_id_doc_v(#[trigger] self@[i])) && (forall|
            i: int,
            j: int,
        |
            0 <= i < j < self@.len() ==> doc_id_v(#[trigger] self@[i]) != doc_id_v(
                #[trigger] self@[j],
            ))
    }

    /// An empty collection.
    pub fn new() -> (r: Collection)
        ensures
            r@ == Seq::<DocV>::empty(),
            r.inv(),
    {
        let r = Collection { docs: Vec::new() };
        proof {
            assert(r@ =~= Seq::<DocV>::empty());
        }
        r
    }

    /// The number of stored documents.
    pub fn count(&self) -> (r: usize)
        ensures
            r == self@.len(),
    {
        self.docs.len()
    }

    /// Whether some stored document carries the identifier `oid`.
    pub fn contains_id(&self, oid: &ObjectId) -> (r: bool)
        ensures
            r == contains_id_v(self@, oid@),
    {
        let key = "_id".to_owned();
        let n = self.docs.len();
        let mut i: usize = 0;
        while i < n
            invariant
                n == self.docs.len(),
                i <= n,
                key@ == "_id"@,
                forall|j: int| 0 <= j < i ==> doc_id_v(#[trigger] self@[j]) != Some(
                    ValueV::Oid(oid@),
                ),
            decreases n - i,
        {
            proof {
                assert(self@[i as int] == self.docs@[i as int]@);
            }
            let found = match self.docs[i].get(&key) {
                Some(v) => match v {
                    Value::Oid(o) => o.equals(oid),
                    _ => false,
                },
                None => false,
            };
            if found {
                return true;
            }
            i = i + 1;
        }
        false
    }

    /// Every stored document that matches the filter, in storage order.
    pub fn find(&self, filter: &Filter) -> (r: Vec<Document>)
        ensures
            docs_v(r@) == matching_docs_v(self@, filter@),
    {
        let mut found: Vec<Document> = Vec::new();
        let n = self.docs.len();
        let mut i: usize = 0;
        proof {
            assert(self@.skip(0) =~= self@);
            assert(docs_v(found@) =~= Seq::<DocV>::empty());
            assert(Seq::<DocV>::empty() + matching_docs_v(self@, filter@) =~= matching_docs_v(
                self@,
                filter@,
            ));
        }
        while i < n
            invariant
                n == self.docs.len(),
                i <= n,
                matching_docs_v(self@, filter@) == docs_v(found@) + matching_docs_v(
                    self@.skip(i as int),
                    filter@,
                ),
            decreases n - i,
        {
            proof {
                assert(self@.skip(i as int)[0] == self@[i as int]);
                assert(self@.skip(i as int).drop_first() =~= self@.skip(i as int + 1));
                assert(self@[i as int] == self.docs@[i as int]@);
            }
            if doc_matches(&self.docs[i], filter) {
                let ghost before = docs_v(found@);
                let d = self.docs[i].clone();
                found.push(d);
                proof {
                    assert(docs_v(found@) =~= before.push(self@[i as int]));
                    assert(before.push(self@[i as int]) =~= before + seq![self@[i as int]]);
                    assert((before + seq![self@[i as int]]) + matching_docs_v(
                        self@.skip(i as int + 1),
                        filter@,
                    ) =~= before + (seq![self@[i as int]] + matching_docs_v(
                        self@.skip(i as int + 1),
                        filter@,
                    )));
                }
            }
            i = i + 1;
        }
        proof {
            assert(self@.skip(n as int) =~= Seq::<DocV>::empty());
            assert(docs_v(found@) + matching_docs_v(self@.skip(n as int), filter@) =~= docs_v(
                found@,
            ));
        }
        found
    }

    /// The position of the first stored document matching the filter.
    fn find_first(&self, filter: &Filter) -> (r: Option<usize>)
        ensures
            match r {
                Some(i) => i < self@.len() && first_match_v(self@, filter@) == Some(i as int),
                None => first_match_v(self@, filter@) is None,
            },
    {
        let n = self.docs.len();
        let mut i: usize = 0;
        while i < n
            invariant
                n == self.docs.len(),
                i <= n,
                forall|j: int| 0 <= j < i ==> !doc_matches_v(#[trigger] self@[j], filter@),
            decreases n - i,
        {
            proof {
                assert(self@[i as int] == self.docs@[i as int]@);
            }
            if doc_matches(&self.docs[i], filter) {
                proof {
                    lemma_first_match_skip(self@, filter@, i as int);
                    assert(self@.skip(i as int)[0] == self@[i as int]);
                }
                return Some(i);
            }
            i = i + 1;
        }
        proof {
            lemma_first_match_skip(self@, filter@, n as int);
            assert(self@.skip(n as int) =~= Seq::<DocV>::empty());
        }
        None
    }

    /// Stores one document. A document without an `_id` gets `fresh` as
    /// its identifier; one with an `_id` keeps it. Fails if the
    /// identifier is already taken, or if the document's `_id` field
    /// holds something other than an identifier.
    pub fn insert_one(&mut self, d: Document, fresh: ObjectId) -> (r: Result<
        ObjectId,
        StoreError,
    >)
        requires
            old(self).inv(),
        ensures
            final(self).inv(),
            ({
                let dv = d@;
                let docs = old(self)@;
                match doc_id_v(dv) {
                    None => if contains_id_v(docs, fresh@) {
                        r matches Err(e) && e is DuplicateKey && final(self)@ == docs
                    } else {
                        r matches Ok(oid) && oid@ == fresh@ && final(self)@ == docs.push(
                            with_id_v(dv, fresh@),
                        )
                    },
                    Some(v) => match v {
                        ValueV::Oid(b) => if contains_id_v(docs, b) {
                            r matches Err(e) && e is DuplicateKey && final(self)@ == docs
                        } else {
                            r matches Ok(oid) && oid@ == b && final(self)@ == docs.push(dv)
                        },
                        _ => r matches Err(e) && e is InvalidId && final(self)@ == docs,
                    },
                }
            }),
    {
        let key = "_id".to_owned();
        let stored_id: Option<Value> = match d.get(&key) {
            Some(v) => Some(v.clone()),
            None => None,
        };
        match stored_id {
            None => {
                if self.contains_id(&fresh) {
                    Err(StoreError::DuplicateKey)
                } else {
                    proof {
                        use_type_invariant(&fresh);
                    }
                    let mut d2 = d;
                    d2.entries.insert(0, (key, Value::Oid(fresh.clone())));
                    proof {
                        assert(d2@ =~= with_id_v(d@, fresh@));
                    }
                    let ghost docs0 = self@;
                    self.docs.push(d2);
                    proof {
                        assert(final(self)@ =~= docs0.push(with_id_v(d@, fresh@)));
                        self.lemma_push_keeps_inv(docs0, with_id_v(d@, fresh@), fresh@);
                    }
                    Ok(fresh)
                }
            },
            Some(v) => match v {
                Value::Oid(o) => {
                    if self.contains_id(&o) {
                        Err(StoreError::DuplicateKey)
                    } else {
                        proof {
                            use_type_invariant(&o);
                        }
                        let ghost docs0 = self@;
                        let ghost dv = d@;
                        self.docs.push(d);
                        proof {
                            assert(final(self)@ =~= docs0.push(dv));
                            self.lemma_push_keeps_inv(docs0, dv, o@);
                        }
                        Ok(o)
                    }
                },
                _ => Err(StoreError::InvalidId),
            },
        }
    }

    /// Pushing a document with a fresh, well-formed identifier keeps
    /// the collection invariant.
    proof fn lemma_push_keeps_inv(&self, docs: Seq<DocV>, dv: DocV, b: Seq<u8>)
        requires
            self@ == docs.push(dv),
            doc_id_v(dv) == Some(ValueV::Oid(b)),
            b.len() == 12,
            !contains_id_v(docs, b),
            forall|i: int| 0 <= i < docs.len() ==> is_id_doc_v(#[trigger] docs[i]),
            forall|i: int, j: int|
                0 <= i < j < docs.len() ==> doc_id_v(#[trigger] docs[i]) != doc_id_v(
                    #[trigger] docs[j],
                ),
        ensures
            self.inv(),
    {
        assert forall|i: int| 0 <= i < self@.len() implies is_id_doc_v(#[trigger] self@[i]) by {
            if i < docs.len() {
                assert(self@[i] == docs[i]);
            } else {
                assert(self@[i] == dv);
            }
        }
        assert forall|i: int, j: int|
            0 <= i < j < self@.len() implies doc_id_v(#[trigger] self@[i]) != doc_id_v(
            #[trigger] self@[j],
        ) by {
            if j < docs.len() {
                assert(self@[i] == docs[i]);
                assert(self@[j] == docs[j]);
            } else {
                assert(self@[j] == dv);
                assert(self@[i] == docs[i]);
                assert(doc_id_v(docs[i]) != Some(ValueV::Oid(b)));
            }
        }
    }

    /// Merges the update's fields into the first document matching the
    /// filter. Returns how many documents were modified: one if a
    /// document matched, zero otherwise. Fails without modifying
    /// anything if the merge would change the matched document's
    /// identifier.
    pub fn update_one(&mut self, filter: &Filter, update: &Document) -> (r: Result<
        i64,
        StoreError,
    >)
        requires
            old(self).inv(),
            unique_keys_v(update@),
        ensures
            final(self).inv(),
            ({
                let docs = old(self)@;
                match first_match_v(docs, filter@) {
                    None => r matches Ok(n) && n == 0 && final(self)@ == docs,
                    Some(i) => if set_changes_id_v(docs[i], update@) {
                        r matches Err(e) && e is ImmutableId && final(self)@ == docs
                    } else {
                        r matches Ok(n) && n == 1 && final(self)@ == docs.update(
                            i,
                            apply_set_v(docs[i], update@),
                        )
                    },
                }
            }),
    {
        let idx = self.find_first(filter);
        match idx {
            None => Ok(0),
            Some(i) => {
                let key = "_id".to_owned();
                let changes = match update.get(&key) {
                    Some(uv) => match self.docs[i].get(&key) {
                        Some(dv) => !value_eq(dv, uv),
                        None => true,
                    },
                    None => false,
                };
                proof {
                    assert(self@[i as int] == self.docs@[i as int]@);
                    assert(changes == set_changes_id_v(self@[i as int], update@));
                }
                if changes {
                    return Err(StoreError::ImmutableId);
                }
                let nd = apply_set_doc(&self.docs[i], update);
                let ghost docs0 = self@;
                self.docs[i] = nd;
                proof {
                    assert(final(self)@ =~= docs0.update(
                        i as int,
                        apply_set_v(docs0[i as int], update@),
                    ));
                    lemma_apply_set_keeps_id(docs0[i as int], update@);
                    let docs1 = final(self)@;
                    assert forall|x: int| 0 <= x < docs1.len() implies is_id_doc_v(
                        #[trigger] docs1[x],
                    ) by {
                        if x != i as int {
                            assert(docs1[x] == docs0[x]);
                        }
                    }
                    assert forall|x: int, y: int|
                        0 <= x < y < docs1.len() implies doc_id_v(#[trigger] docs1[x]) != doc_id_v(
                        #[trigger] docs1[y],
                    ) by {
                        assert(doc_id_v(docs1[x]) == doc_id_v(docs0[x]));
                        assert(doc_id_v(docs1[y]) == doc_id_v(docs0[y]));
                    }
                }
                Ok(1)
            },
        }
    }

    /// Removes the first document matching the filter. Returns how many
    /// documents were removed: one if a document matched, zero if none
    /// did — a miss is not an error.
    pub fn delete_one(&mut self, filter: &Filter) -> (r: i64)
        requires
            old(self).inv(),
        ensures
            final(self).inv(),
            ({
                let docs = old(self)@;
                match first_match_v(docs, filter@) {
                    None => r == 0 && final(self)@ == docs,
                    Some(i) => r == 1 && final(self)@ == docs.remove(i),
                }
            }),
    {
        let idx = self.find_first(filter);
        match idx {
            None => 0,
            Some(i) => {
                let ghost docs0 = self@;
                self.docs.remove(i);
                proof {
                    assert(final(self)@ =~= docs0.remove(i as int));
                    let docs1 = final(self)@;
                    assert forall|x: int| 0 <= x < docs1.len() implies is_id_doc_v(
                        #[trigger] docs1[x],
                    ) by {
                        if x < i as int {
                            assert(docs1[x] == docs0[x]);
                        } else {
                            assert(docs1[x] == docs0[x + 1]);
                        }
                    }
                    assert forall|x: int, y: int|
                        0 <= x < y < docs1.len() implies doc_id_v(#[trigger] docs1[x]) != doc_id_v(
                        #[trigger] docs1[y],
                    ) by {
                        let x0 = if x < i as int {
                            x
                        } else {
                            x + 1
                        };
                        let y0 = if y < i as int {
                            y
                        } else {
                            y + 1
                        };
                        assert(docs1[x] == docs0[x0]);
                        assert(docs1[y] == docs0[y0]);
                    }
                }
                1
            },
        }
    }
}

/// The document with the update's fields merged in.
fn apply_set_doc(d: &Document, s: &Document) -> (r: Document)
    ensures
        r@ == apply_set_v(d@, s@),
{
    let mut nd = d.clone();
    let n = s.entries.len();
    let mut j: usize = 0;
    proof {
        assert(s@.skip(0) =~= s@);
    }
    while j < n
        invariant
            n == s.entries.len(),
            j <= n,
            apply_set_v(d@, s@) == apply_set_v(nd@, s@.skip(j as int)),
        decreases n - j,
    {
        proof {
            assert(s@.skip(j as int)[0] == s@[j as int]);
            assert(s@.skip(j as int).drop_first() =~= s@.skip(j as int + 1));
            assert(s@[j as int] == (s.entries@[j as int].0@, s.entries@[j as int].1@));
        }
        let k = s.entries[j].0.clone();
        let v = s.entries[j].1.clone();
        doc_set(&mut nd, k, v);
        j = j + 1;
    }
    proof {
        assert(s@.skip(n as int) =~= Seq::<(Seq<char>, ValueV)>::empty());
    }
    nd
}

} // verus!
