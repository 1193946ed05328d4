//! The request handlers' decision cores: parse and validate what the
//! route carries, build the query filter, run the CRUD operation, and
//! wrap the outcome in the response envelope. The HTTP layer around
//! them only moves JSON in and out.

use vstd::prelude::*;

use crate::article::service::ArticleService;
use crate::article::{lemma_saved_doc_parses, Article, ArticleQuery, ArticleV, QueryV};
use crate::common::service::{
    id_filter_v, lemma_id_filter_matches, list_post, parse_docs_v, save_post, update_post,
    remove_post, MongodbCrudService,
};
use crate::common::{BusinessError, Resp, RespResult};
use crate::doc::{strip_nulls_v, doc_get_v, DocV, DocumentRecord, Value, ValueV};
use crate::filter::{
    doc_matches_v, str_contains, Cond, CondV, Filter, FilterV, lemma_empty_filter_matches_all,
};
use crate::oid::{bytes_of_hex, is_oid_hex, ObjectId};
use crate::store::{
    contains_id_v, doc_id_v, lemma_matching_none, lemma_matching_push, matching_docs_v, with_id_v,
};

verus! {

/// The filter a list query denotes: the exact identifier when one is
/// given, and — for a non-empty keyword — an OR-group matching the
/// keyword case-insensitively against title, author and content. An
/// empty keyword adds no group at all.
pub open spec fn article_filter_v(q: QueryV) -> FilterV {
    FilterV {
        fields: match q.id {
            Some(b) => seq![("_id"@, CondV::Eq(ValueV::Oid(b)))],
            None => Seq::<(Seq<char>, CondV)>::empty(),
        },
        or_groups: if q.keyword.len() == 0 {
            Seq::<Seq<(Seq<char>, CondV)>>::empty()
        } else {
            seq![
                seq![
                    ("title"@, CondV::Regex { pattern: q.keyword, options: "i"@ }),
                    ("author"@, CondV::Regex { pattern: q.keyword, options: "i"@ }),
                    ("content"@, CondV::Regex { pattern: q.keyword, options: "i"@ }),
                ],
            ]
        },
    }
}

/// Builds the filter for a list query.
pub fn build_filter(query: &ArticleQuery) -> (r: Filter)
    ensures
        r@ == article_filter_v(query@),
{
    let mut fields: Vec<(String, Cond)> = Vec::new();
    match &query._id {
        Some(oid) => {
            fields.push(("_id".to_owned(), Cond::Eq(Value::Oid(oid.clone()))));
        },
        None => {},
    }
    let mut or_groups: Vec<Vec<(String, Cond)>> = Vec::new();
    if !query.keyword.as_str().is_empty() {
        let mut group: Vec<(String, Cond)> = Vec::new();
        group.push(
            (
                "title".to_owned(),
                Cond::Regex { pattern: query.keyword.clone(), options: "i".to_owned() },
            ),
        );
        group.push(
            (
                "author".to_owned(),
                Cond::Regex { pattern: query.keyword.clone(), options: "i".to_owned() },
            ),
        );
        group.push(
            (
                "content".to_owned(),
                Cond::Regex { pattern: query.keyword.clone(), options: "i".to_owned() },
            ),
        );
        or_groups.push(group);
    }
    let r = Filter { fields, or_groups };
    proof {
        assert(r@.fields =~= article_filter_v(query@).fields);
        assert forall|g: int| 0 <= g < r@.or_groups.len() implies r@.or_groups[g]
            =~= article_filter_v(query@).or_groups[g] by {}
        assert(r@.or_groups =~= article_filter_v(query@).or_groups);
    }
    r
}

/// Saves a new article and answers with the assigned identifier as a
/// hex string in a success envelope.
pub fn save_article(service: &mut ArticleService, article: Article, fresh: ObjectId) -> (r:
    RespResult<String>)
    requires
        old(service).table_wf(),
    ensures
        final(service).table_wf(),
        match r {
            Ok(resp) => resp.code == 0 && resp.message@ == "ok"@ && (resp.data matches Some(s)
                && save_post::<Article>(
                old(service).table_v(),
                final(service).table_v(),
                article@,
                fresh@,
                Ok(s),
            )),
            Err(e) => save_post::<Article>(
                old(service).table_v(),
                final(service).table_v(),
                article@,
                fresh@,
                Err(e),
            ),
        },
{
    match service.save(&article, fresh) {
        Ok(id) => Ok(Resp::ok(id)),
        Err(e) => Err(e),
    }
}

/// Lists the articles matching the query's filter, in storage order,
/// in a success envelope.
pub fn list_article(service: &ArticleService, query: ArticleQuery) -> (r: RespResult<Vec<Article>>)
    requires
        service.table_wf(),
    ensures
        match r {
            Ok(resp) => resp.code == 0 && resp.message@ == "ok"@ && (resp.data matches Some(list)
                && list_post::<Article>(
                service.table_v(),
                article_filter_v(query@),
                list@.map_values(|t: Article| t@),
            )),
            Err(e) => false,
        },
{
    let filter = build_filter(&query);
    let list = service.list_with_filter(&filter);
    Ok(Resp::ok(list))
}

/// Updates the article with the path identifier by merging the body's
/// non-null fields, and answers with the modified count. A path
/// identifier that does not parse is a validation error on the field
/// `id`, and no storage operation is attempted.
pub fn update_article(service: &mut ArticleService, id: &str, article: Article) -> (r: RespResult<
    i64,
>)
    requires
        old(service).table_wf(),
    ensures
        final(service).table_wf(),
        !is_oid_hex(id@) ==> (r matches Err(e) && e matches BusinessError::ValidationError { field }
            && field@ == "id"@) && final(service).table_v() == old(service).table_v(),
        is_oid_hex(id@) ==> match r {
            Ok(resp) => resp.code == 0 && resp.message@ == "ok"@ && (resp.data matches Some(n)
                && update_post::<Article>(
                old(service).table_v(),
                final(service).table_v(),
                bytes_of_hex(id@),
                article@,
                Ok(n),
            )),
            Err(e) => update_post::<Article>(
                old(service).table_v(),
                final(service).table_v(),
                bytes_of_hex(id@),
                article@,
                Err(e),
            ),
        },
{
    match ObjectId::with_string(id) {
        None => Err(BusinessError::ValidationError { field: "id".to_owned() }),
        Some(oid) => match service.update_by_oid(oid, &article) {
            Ok(n) => Ok(Resp::ok(n)),
            Err(e) => Err(e),
        },
    }
}

/// Removes the article with the path identifier and answers with the
/// deleted count — zero when nothing carried it, which is not an
/// error. A path identifier that is empty or does not parse is a
/// validation error on the field `id`, and no storage operation is
/// attempted.
pub fn remove_article(service: &mut ArticleService, id: &str) -> (r: RespResult<i64>)
    requires
        old(service).table_wf(),
    ensures
        final(service).table_wf(),
        !is_oid_hex(id@) ==> (r matches Err(e) && e matches BusinessError::ValidationError { field }
            && field@ == "id"@) && final(service).table_v() == old(service).table_v(),
        is_oid_hex(id@) ==> match r {
            Ok(resp) => resp.code == 0 && resp.message@ == "ok"@ && (resp.data matches Some(n)
                && remove_post(
                old(service).table_v(),
                final(service).table_v(),
                bytes_of_hex(id@),
                Ok(n),
            )),
            Err(e) => remove_post(
                old(service).table_v(),
                final(service).table_v(),
                bytes_of_hex(id@),
                Err(e),
            ),
        },
{
    if id.is_empty() {
        return Err(BusinessError::ValidationError { field: "id".to_owned() });
    }
    match ObjectId::with_string(id) {
        None => Err(BusinessError::ValidationError { field: "id".to_owned() }),
        Some(oid) => match service.remove_by_oid(oid) {
            Ok(n) => Ok(Resp::ok(n)),
            Err(e) => Err(e),
        },
    }
}

/// The saved-then-listed roundtrip: after saving a new article (one
/// without an identifier) under a fresh identifier, listing with the
/// query id set to that identifier yields exactly one record — the
/// saved article with its identifier filled in.
pub proof fn lemma_save_then_list(docs0: Seq<DocV>, v: ArticleV, fresh: Seq<u8>)
    requires
        v.id is None,
        !contains_id_v(docs0, fresh),
    ensures
        ({
            let dv = with_id_v(strip_nulls_v(Article::doc_of(v)), fresh);
            let docs1 = docs0.push(dv);
            let q = QueryV { id: Some(fresh), keyword: Seq::<char>::empty() };
            parse_docs_v::<Article>(matching_docs_v(docs1, article_filter_v(q))) == seq![
                ArticleV { id: Some(fresh), title: v.title, author: v.author, content: v.content },
            ]
        }),
{
    let dv = with_id_v(strip_nulls_v(Article::doc_of(v)), fresh);
    let docs1 = docs0.push(dv);
    let q = QueryV { id: Some(fresh), keyword: Seq::<char>::empty() };
    let f = article_filter_v(q);
    assert(f.fields =~= id_filter_v(fresh).fields);
    assert(f.or_groups =~= id_filter_v(fresh).or_groups);
    assert(f == id_filter_v(fresh));
    lemma_saved_doc_parses(v, fresh);
    lemma_id_filter_matches(dv, fresh);
    assert(doc_matches_v(dv, f));
    assert forall|j: int| 0 <= j < docs0.len() implies !doc_matches_v(#[trigger] docs0[j], f) by {
        lemma_id_filter_matches(docs0[j], fresh);
        assert(doc_id_v(docs0[j]) != Some(ValueV::Oid(fresh)));
    }
    lemma_matching_none(docs0, f);
    lemma_matching_push(docs0, dv, f);
    assert(matching_docs_v(docs1, f) =~= seq![dv]);
    let av = ArticleV { id: Some(fresh), title: v.title, author: v.author, content: v.content };
    assert(Article::of_doc(dv) == Some(av));
    assert(seq![dv].drop_first() =~= Seq::<DocV>::empty());
    assert(parse_docs_v::<Article>(seq![dv].drop_first()) =~= Seq::<ArticleV>::empty());
    assert(parse_docs_v::<Article>(seq![dv]) =~= seq![av]);
}

/// What a field holding a string that contains the keyword
/// case-insensitively looks like.
pub open spec fn field_contains_ci(d: DocV, k: Seq<char>, p: Seq<char>) -> bool {
    match doc_get_v(d, k) {
        Some(w) => match w {
            ValueV::Str(s) => str_contains(s, p, true),
            _ => false,
        },
        None => false,
    }
}

/// What the list filter means: the document carries the queried
/// identifier (when one is given), and — unless the keyword is empty —
/// the keyword occurs case-insensitively in its title, author or
/// content.
pub proof fn lemma_article_filter_semantics(d: DocV, q: QueryV)
    ensures
        doc_matches_v(d, article_filter_v(q)) <==> ((match q.id {
            Some(b) => doc_get_v(d, "_id"@) == Some(ValueV::Oid(b)),
            None => true,
        }) && (q.keyword.len() == 0 || field_contains_ci(d, "title"@, q.keyword)
            || field_contains_ci(d, "author"@, q.keyword) || field_contains_ci(
            d,
            "content"@,
            q.keyword,
        ))),
{
    broadcast use vstd::string::group_string_axioms;

    reveal_strlit("i");
    assert("i"@.contains('i')) by {
        assert("i"@[0] == 'i');
    }
    let f = article_filter_v(q);
    if doc_matches_v(d, f) {
        match q.id {
            Some(b) => {
                assert(crate::filter::cond_ok_v(d, f.fields[0]));
            },
            None => {},
        }
        if q.keyword.len() > 0 {
            let g = f.or_groups[0];
            assert(crate::filter::group_matches_v(d, g));
            let i = choose|i: int| 0 <= i < g.len() && crate::filter::cond_ok_v(d, #[trigger] g[i]);
            if i == 0 {
                assert(field_contains_ci(d, "title"@, q.keyword));
            } else if i == 1 {
                assert(field_contains_ci(d, "author"@, q.keyword));
            } else {
                assert(field_contains_ci(d, "content"@, q.keyword));
            }
        }
    }
    let rhs = (match q.id {
        Some(b) => doc_get_v(d, "_id"@) == Some(ValueV::Oid(b)),
        None => true,
    }) && (q.keyword.len() == 0 || field_contains_ci(d, "title"@, q.keyword) || field_contains_ci(
        d,
        "author"@,
        q.keyword,
    ) || field_contains_ci(d, "content"@, q.keyword));
    if rhs {
        assert forall|i: int| 0 <= i < f.fields.len() implies crate::filter::cond_ok_v(
            d,
            #[trigger] f.fields[i],
        ) by {}
        if q.keyword.len() > 0 {
            let g = f.or_groups[0];
            if field_contains_ci(d, "title"@, q.keyword) {
                assert(crate::filter::cond_ok_v(d, g[0]));
            } else if field_contains_ci(d, "author"@, q.keyword) {
                assert(crate::filter::cond_ok_v(d, g[1]));
            } else {
                assert(crate::filter::cond_ok_v(d, g[2]));
            }
            assert(crate::filter::group_matches_v(d, g));
        }
        assert(doc_matches_v(d, f));
    }
}

/// A query with no identifier and an empty keyword denotes the empty
/// filter, which matches every document.
pub proof fn lemma_empty_query_matches_all(d: DocV, q: QueryV)
    requires
        q.id is None,
        q.keyword.len() == 0,
    ensures
        article_filter_v(q).fields.len() == 0,
        article_filter_v(q).or_groups.len() == 0,
        doc_matches_v(d, article_filter_v(q)),
{
    lemma_empty_filter_matches_all(d, article_filter_v(q));
}

} // verus!
