//! The generic CRUD service: list by filter, save, update by
//! identifier, delete by identifier, shared by every record type that
//! binds itself to a collection through the document mapper. Storage
//! failures are wrapped into internal errors at this boundary.

use vstd::prelude::*;

use crate::common::BusinessError;
use crate::doc::{
    doc_get_v, lemma_strip_unique, strip_nulls, strip_nulls_v, DocV, Document,
    DocumentRecord, Value, ValueV,
};
use crate::filter::{doc_matches_v, Cond, CondV, Filter, FilterV};
use crate::oid::{hex_of, ObjectId};
use crate::store::{
    apply_set_v, contains_id_v, doc_id_v, first_match_v, lemma_apply_set_idempotent,
    lemma_apply_set_keeps_id, lemma_first_match_props, lemma_first_match_skip, matching_docs_v,
    set_changes_id_v, with_id_v, Collection, StoreError,
};

verus! {

/// Serializes a record and strips its null fields, giving the document
/// that an insert or update will carry. Nothing here can fail, so the
/// result is always present.
pub fn struct_into_document<T: DocumentRecord>(t: &T) -> (r: Option<Document>)
    ensures
        match r {
            Some(d) => d@ == strip_nulls_v(T::doc_of(t@)),
            None => false,
        },
{
    Some(strip_nulls(t.to_document()))
}

/// Wraps a storage-layer failure into the uniform internal error. The
/// cause stays server-side.
pub fn store_error_to_business(e: StoreError) -> (r: BusinessError)
    ensures
        r is InternalError,
{
    let cause = match e {
        StoreError::DuplicateKey => "storage: duplicate key".to_owned(),
        StoreError::InvalidId => "storage: document id is not an object id".to_owned(),
        StoreError::ImmutableId => "storage: update would change a document id".to_owned(),
    };
    BusinessError::InternalError { cause }
}

/// The filter that matches exactly the document with identifier `b`.
pub open spec fn id_filter_v(b: Seq<u8>) -> FilterV {
    FilterV {
        fields: seq![("_id"@, CondV::Eq(ValueV::Oid(b)))],
        or_groups: Seq::<Seq<(Seq<char>, CondV)>>::empty(),
    }
}

/// Builds the filter that matches exactly the document with this
/// identifier.
pub fn id_filter(oid: &ObjectId) -> (r: Filter)
    ensures
        r@ == id_filter_v(oid@),
{
    let mut fields: Vec<(String, Cond)> = Vec::new();
    fields.push(("_id".to_owned(), Cond::Eq(Value::Oid(oid.clone()))));
    let r = Filter { fields, or_groups: Vec::new() };
    proof {
        assert(r@.fields =~= id_filter_v(oid@).fields);
        assert(r@.or_groups =~= id_filter_v(oid@).or_groups);
    }
    r
}

/// A document satisfies the identifier filter exactly when it carries
/// that identifier.
pub proof fn lemma_id_filter_matches(d: DocV, b: Seq<u8>)
    ensures
        doc_matches_v(d, id_filter_v(b)) <==> doc_id_v(d) == Some(ValueV::Oid(b)),
{
    let f = id_filter_v(b);
    assert(f.fields.len() == 1);
    assert(f.fields[0] == ("_id"@, CondV::Eq(ValueV::Oid(b))));
    assert(f.or_groups.len() == 0);
    if doc_matches_v(d, f) {
        assert(crate::filter::cond_ok_v(d, f.fields[0]));
    }
    if doc_id_v(d) == Some(ValueV::Oid(b)) {
        assert(crate::filter::cond_ok_v(d, f.fields[0]));
    }
}

/// Applying the same update by identifier twice leaves the collection
/// exactly as one application left it, whatever the outcomes were: the
/// merge is idempotent, a miss changes nothing, and a refused merge
/// changes nothing.
pub proof fn lemma_update_by_oid_idempotent<T: DocumentRecord>(
    docs0: Seq<DocV>,
    docs1: Seq<DocV>,
    docs2: Seq<DocV>,
    b: Seq<u8>,
    v: T::V,
    r1: Result<i64, BusinessError>,
    r2: Result<i64, BusinessError>,
)
    requires
        update_post::<T>(docs0, docs1, b, v, r1),
        update_post::<T>(docs1, docs2, b, v, r2),
    ensures
        docs2 == docs1,
{
    let u = strip_nulls_v(T::doc_of(v));
    T::lemma_doc_of_unique(v);
    lemma_strip_unique(T::doc_of(v));
    let f = id_filter_v(b);
    lemma_first_match_props(docs0, f);
    match first_match_v(docs0, f) {
        None => {},
        Some(i) => {
            if set_changes_id_v(docs0[i], u) {
            } else {
                let d1 = apply_set_v(docs0[i], u);
                lemma_apply_set_keeps_id(docs0[i], u);
                lemma_id_filter_matches(docs0[i], b);
                lemma_id_filter_matches(d1, b);
                assert(doc_matches_v(d1, f));
                assert(docs1 == docs0.update(i, d1));
                assert forall|j: int| 0 <= j < i implies !doc_matches_v(#[trigger] docs1[j], f) by {
                    assert(docs1[j] == docs0[j]);
                }
                lemma_first_match_skip(docs1, f, i);
                assert(docs1.skip(i)[0] == d1);
                assert(first_match_v(docs1.skip(i), f) == Some(0int));
                assert(first_match_v(docs1, f) == Some(i));
                assert(!set_changes_id_v(d1, u)) by {
                    match doc_get_v(u, "_id"@) {
                        Some(w) => {
                            assert(doc_get_v(docs0[i], "_id"@) == Some(w));
                            assert(doc_get_v(d1, "_id"@) == Some(w));
                        },
                        None => {},
                    }
                }
                lemma_apply_set_idempotent(docs0[i], u);
                assert(docs2 == docs1.update(i, apply_set_v(d1, u)));
                assert(apply_set_v(d1, u) == d1);
                assert(docs1.update(i, d1) =~= docs1);
            }
        },
    }
}

/// The records the given documents deserialize to, in order; a document
/// the mapper rejects contributes nothing.
pub open spec fn parse_docs_v<T: DocumentRecord>(docs: Seq<DocV>) -> Seq<T::V>
    decreases docs.len(),
{
    if docs.len() == 0 {
        Seq::<T::V>::empty()
    } else {
        match T::of_doc(docs[0]) {
            Some(v) => seq![v] + parse_docs_v::<T>(docs.drop_first()),
            None => parse_docs_v::<T>(docs.drop_first()),
        }
    }
}

/// What a list operation returns: the matching documents, in storage
/// order, each mapped back through the document mapper.
pub open spec fn list_post<T: DocumentRecord>(docs: Seq<DocV>, f: FilterV, r: Seq<T::V>) -> bool {
    r == parse_docs_v::<T>(matching_docs_v(docs, f))
}

/// What a save operation does: the record's null-stripped document is
/// stored under a fresh identifier (or under its own, when it carries
/// one), and the identifier comes back as a hex string; a taken
/// identifier or a malformed `_id` field is an internal error and
/// changes nothing.
pub open spec fn save_post<T: DocumentRecord>(
    docs0: Seq<DocV>,
    docs1: Seq<DocV>,
    v: T::V,
    fresh: Seq<u8>,
    r: Result<String, BusinessError>,
) -> bool {
    let dv = strip_nulls_v(T::doc_of(v));
    match doc_id_v(dv) {
        None => if contains_id_v(docs0, fresh) {
            r matches Err(e) && e is InternalError && docs1 == docs0
        } else {
            r matches Ok(s) && s@ == hex_of(fresh) && docs1 == docs0.push(with_id_v(dv, fresh))
        },
        Some(idv) => match idv {
            ValueV::Oid(b) => if contains_id_v(docs0, b) {
                r matches Err(e) && e is InternalError && docs1 == docs0
            } else {
                r matches Ok(s) && s@ == hex_of(b) && docs1 == docs0.push(dv)
            },
            _ => r matches Err(e) && e is InternalError && docs1 == docs0,
        },
    }
}

/// What an update-by-identifier does: the record's null-stripped
/// fields are merged into the matched document; no match modifies
/// nothing and counts zero; a merge that would change the stored
/// identifier is an internal error and changes nothing.
pub open spec fn update_post<T: DocumentRecord>(
    docs0: Seq<DocV>,
    docs1: Seq<DocV>,
    b: Seq<u8>,
    v: T::V,
    r: Result<i64, BusinessError>,
) -> bool {
    let u = strip_nulls_v(T::doc_of(v));
    match first_match_v(docs0, id_filter_v(b)) {
        None => r matches Ok(n) && n == 0 && docs1 == docs0,
        Some(i) => if set_changes_id_v(docs0[i], u) {
            r matches Err(e) && e is InternalError && docs1 == docs0
        } else {
            r matches Ok(n) && n == 1 && docs1 == docs0.update(i, apply_set_v(docs0[i], u))
        },
    }
}

/// What a delete-by-identifier does: the matched document is removed
/// and counts one; no match removes nothing and counts zero, which is
/// not an error.
pub open spec fn remove_post(
    docs0: Seq<DocV>,
    docs1: Seq<DocV>,
    b: Seq<u8>,
    r: Result<i64, BusinessError>,
) -> bool {
    match first_match_v(docs0, id_filter_v(b)) {
        None => r matches Ok(n) && n == 0 && docs1 == docs0,
        Some(i) => r matches Ok(n) && n == 1 && docs1 == docs0.remove(i),
    }
}

/// Finds every document matching the filter and maps each back into a
/// typed record, keeping storage order.
pub fn list_with_filter<T: DocumentRecord>(col: &Collection, filter: &Filter) -> (r: Vec<T>)
    ensures
        list_post::<T>(col@, filter@, r@.map_values(|t: T| t@)),
{
    let found = col.find(filter);
    let ghost ms = matching_docs_v(col@, filter@);
    let mut records: Vec<T> = Vec::new();
    let n = found.len();
    let mut i: usize = 0;
    proof {
        assert(ms.skip(0) =~= ms);
        assert(records@.map_values(|t: T| t@) =~= Seq::<T::V>::empty());
        assert(Seq::<T::V>::empty() + parse_docs_v::<T>(ms) =~= parse_docs_v::<T>(ms));
    }
    while i < n
        invariant
            n == found.len(),
            i <= n,
            found@.map_values(|d: Document| d@) == ms,
            parse_docs_v::<T>(ms) == records@.map_values(|t: T| t@) + parse_docs_v::<T>(
                ms.skip(i as int),
            ),
        decreases n - i,
    {
        proof {
            assert(ms.skip(i as int)[0] == ms[i as int]);
            assert(ms.skip(i as int).drop_first() =~= ms.skip(i as int + 1));
            assert(ms[i as int] == found@[i as int]@);
        }
        let parsed = T::from_document(&found[i]);
        match parsed {
            Some(record) => {
                let ghost before = records@.map_values(|t: T| t@);
                let ghost rv = record@;
                records.push(record);
                proof {
                    assert(records@.map_values(|t: T| t@) =~= before.push(rv));
                    assert(before.push(rv) =~= before + seq![rv]);
                    assert((before + seq![rv]) + parse_docs_v::<T>(ms.skip(i as int + 1)) =~= before
                        + (seq![rv] + parse_docs_v::<T>(ms.skip(i as int + 1))));
                }
            },
            None => {},
        }
        i = i + 1;
    }
    proof {
        assert(ms.skip(n as int) =~= Seq::<DocV>::empty());
        assert(records@.map_values(|t: T| t@) + parse_docs_v::<T>(ms.skip(n as int))
            =~= records@.map_values(|t: T| t@));
    }
    records
}

/// Maps the record to its null-stripped document, stores it, and
/// returns the assigned identifier as a hex string. The fresh
/// identifier is used when the record carries none.
pub fn save<T: DocumentRecord>(col: &mut Collection, record: &T, fresh: ObjectId) -> (r: Result<
    String,
    BusinessError,
>)
    requires
        old(col).inv(),
    ensures
        final(col).inv(),
        save_post::<T>(old(col)@, final(col)@, record@, fresh@, r),
{
    let d = match struct_into_document(record) {
        Some(d) => d,
        None => {
            return Err(
                BusinessError::InternalError {
                    cause: "failed to convert struct into document".to_owned(),
                },
            );
        },
    };
    match col.insert_one(d, fresh) {
        Ok(oid) => Ok(oid.to_hex()),
        Err(e) => Err(store_error_to_business(e)),
    }
}

/// Merges the record's null-stripped fields into the document with
/// this identifier and returns how many documents were modified (zero
/// when none carries the identifier).
pub fn update_by_oid<T: DocumentRecord>(col: &mut Collection, oid: ObjectId, record: &T) -> (r:
    Result<i64, BusinessError>)
    requires
        old(col).inv(),
    ensures
        final(col).inv(),
        update_post::<T>(old(col)@, final(col)@, oid@, record@, r),
{
    let filter = id_filter(&oid);
    let d = match struct_into_document(record) {
        Some(d) => d,
        None => {
            return Err(
                BusinessError::InternalError {
                    cause: "failed to convert struct into document".to_owned(),
                },
            );
        },
    };
    proof {
        T::lemma_doc_of_unique(record@);
        lemma_strip_unique(T::doc_of(record@));
    }
    match col.update_one(&filter, &d) {
        Ok(n) => Ok(n),
        Err(e) => Err(store_error_to_business(e)),
    }
}

/// Deletes the document with this identifier and returns how many
/// documents were removed (zero when none carries it, which is not an
/// error).
pub fn remove_by_oid(col: &mut Collection, oid: ObjectId) -> (r: Result<i64, BusinessError>)
    requires
        old(col).inv(),
    ensures
        final(col).inv(),
        remove_post(old(col)@, final(col)@, oid@, r),
{
    let filter = id_filter(&oid);
    let n = col.delete_one(&filter);
    Ok(n)
}

/// Binds a record type to a collection: any type that can name its
/// collection shares the list, save, update and delete semantics
/// above.
pub trait MongodbCrudService<T: DocumentRecord> {
    /// The documents of the service's collection.
    spec fn table_v(&self) -> Seq<DocV>;

    /// The collection's well-formedness: unique identifiers throughout.
    spec fn table_wf(&self) -> bool;

    /// Every matching record, in storage order.
    fn list_with_filter(&self, filter: &Filter) -> (r: Vec<T>)
        requires
            self.table_wf(),
        ensures
            list_post::<T>(self.table_v(), filter@, r@.map_values(|t: T| t@)),
    ;

    /// Stores the record; returns the inserted identifier as a hex
    /// string.
    fn save(&mut self, record: &T, fresh: ObjectId) -> (r: Result<String, BusinessError>)
        requires
            old(self).table_wf(),
        ensures
            final(self).table_wf(),
            save_post::<T>(old(self).table_v(), final(self).table_v(), record@, fresh@, r),
    ;

    /// Merges the record's fields into the identified document; returns
    /// the modified count.
    fn update_by_oid(&mut self, oid: ObjectId, record: &T) -> (r: Result<i64, BusinessError>)
        requires
            old(self).table_wf(),
        ensures
            final(self).table_wf(),
            update_post::<T>(old(self).table_v(), final(self).table_v(), oid@, record@, r),
    ;

    /// Deletes the identified document; returns the deleted count.
    fn remove_by_oid(&mut self, oid: ObjectId) -> (r: Result<i64, BusinessError>)
        requires
            old(self).table_wf(),
        ensures
            final(self).table_wf(),
            remove_post(old(self).table_v(), final(self).table_v(), oid@, r),
    ;
}

} // verus!
