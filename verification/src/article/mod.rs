//! The one concrete record type: an article with an optional
//! identifier, a title, an author and a content body, and the query
//! shape a list request carries.

pub mod handler;
pub mod service;

use vstd::prelude::*;

use crate::doc::{
    doc_get_v, strip_nulls_v, unique_keys_v, DocV, Document, DocumentRecord, Value, ValueV,
};
use crate::oid::ObjectId;
use crate::store::{doc_id_v, with_id_v};

verus! {

/// The mathematical model of an article.
pub struct ArticleV {
    pub id: Option<Seq<u8>>,
    pub title: Seq<char>,
    pub author: Seq<char>,
    pub content: Seq<char>,
}

/// An article: the identifier is absent until the record is persisted,
/// and immutable afterwards.
#[derive(Debug)]
pub struct Article {
    pub _id: Option<ObjectId>,
    pub title: String,
    pub author: String,
    pub content: String,
}

impl View for Article {
    type V = ArticleV;

    open spec fn view(&self) -> ArticleV {
        ArticleV {
            id: match self._id {
                Some(o) => Some(o@),
                None => None,
            },
            title: self.title@,
            author: self.author@,
            content: self.content@,
        }
    }
}

/// The mathematical model of a list query.
pub struct QueryV {
    pub id: Option<Seq<u8>>,
    pub keyword: Seq<char>,
}

/// What a list request filters by: an optional exact identifier and a
/// keyword (empty means no keyword filtering).
#[derive(Debug)]
pub struct ArticleQuery {
    pub _id: Option<ObjectId>,
    pub keyword: String,
}

impl View for ArticleQuery {
    type V = QueryV;

    open spec fn view(&self) -> QueryV {
        QueryV {
            id: match self._id {
                Some(o) => Some(o@),
                None => None,
            },
            keyword: self.keyword@,
        }
    }
}

impl DocumentRecord for Article {
    open spec fn doc_of(v: ArticleV) -> DocV {
        seq![
            ("_id"@, match v.id {
                Some(b) => ValueV::Oid(b),
                None => ValueV::Null,
            }),
            ("title"@, ValueV::Str(v.title)),
            ("author"@, ValueV::Str(v.author)),
            ("content"@, ValueV::Str(v.content)),
        ]
    }

    open spec fn of_doc(d: DocV) -> Option<ArticleV> {
        match doc_get_v(d, "title"@) {
            Some(tv) => match tv {
                ValueV::Str(t) => match doc_get_v(d, "author"@) {
                    Some(av) => match av {
                        ValueV::Str(a) => match doc_get_v(d, "content"@) {
                            Some(cv) => match cv {
                                ValueV::Str(c) => match doc_get_v(d, "_id"@) {
                                    None => Some(
                                        ArticleV { id: None, title: t, author: a, content: c },
                                    ),
                                    Some(iv) => match iv {
                                        ValueV::Oid(b) => Some(
                                            ArticleV {
                                                id: Some(b),
                                                title: t,
                                                author: a,
                                                content: c,
                                            },
                                        ),
                                        ValueV::Null => Some(
                                            ArticleV { id: None, title: t, author: a, content: c },
                                        ),
                                        ValueV::Str(_) => None,
                                    },
                                },
                                _ => None,
                            },
                            None => None,
                        },
                        _ => None,
                    },
                    None => None,
                },
                _ => None,
            },
            None => None,
        }
    }

    fn to_document(&self) -> (r: Document) {
        let mut d = Document::new();
        let idv = match &self._id {
            Some(o) => Value::Oid(o.clone()),
            None => Value::Null,
        };
        d.push("_id".to_owned(), idv);
        d.push("title".to_owned(), Value::Str(self.title.clone()));
        d.push("author".to_owned(), Value::Str(self.author.clone()));
        d.push("content".to_owned(), Value::Str(self.content.clone()));
        proof {
            assert(d@ =~= Self::doc_of(self@));
        }
        d
    }

    fn from_document(d: &Document) -> (r: Option<Article>) {
        let title_key = "title".to_owned();
        let t = match d.get(&title_key) {
            Some(v) => match v {
                Value::Str(s) => s.clone(),
                _ => {
                    return None;
                },
            },
            None => {
                return None;
            },
        };
        let author_key = "author".to_owned();
        let a = match d.get(&author_key) {
            Some(v) => match v {
                Value::Str(s) => s.clone(),
                _ => {
                    return None;
                },
            },
            None => {
                return None;
            },
        };
        let content_key = "content".to_owned();
        let c = match d.get(&content_key) {
            Some(v) => match v {
                Value::Str(s) => s.clone(),
                _ => {
                    return None;
                },
            },
            None => {
                return None;
            },
        };
        let id_key = "_id".to_owned();
        let id = match d.get(&id_key) {
            None => None,
            Some(v) => match v {
                Value::Null => None,
                Value::Oid(o) => Some(o.clone()),
                Value::Str(_) => {
                    return None;
                },
            },
        };
        Some(Article { _id: id, title: t, author: a, content: c })
    }

    proof fn lemma_doc_of_unique(v: ArticleV) {
        broadcast use vstd::string::group_string_axioms;

        reveal_strlit("_id");
        reveal_strlit("title");
        reveal_strlit("author");
        reveal_strlit("content");
        let d = Self::doc_of(v);
        assert(d.len() == 4);
        assert(d[0].0.len() == 3);
        assert(d[1].0.len() == 5);
        assert(d[2].0.len() == 6);
        assert(d[3].0.len() == 7);
        assert forall|i: int, j: int|
            0 <= i < j < d.len() implies (#[trigger] d[i]).0 != (#[trigger] d[j]).0 by {
            assert(d[i].0.len() != d[j].0.len());
        }
    }
}

/// The article keys, as one stripped document when the identifier is
/// absent: the null identifier field is gone and the three string
/// fields stay, in order.
proof fn lemma_strip_article_doc(v: ArticleV)
    requires
        v.id is None,
    ensures
        strip_nulls_v(Article::doc_of(v)) == seq![
            ("title"@, ValueV::Str(v.title)),
            ("author"@, ValueV::Str(v.author)),
            ("content"@, ValueV::Str(v.content)),
        ],
{
    let d = Article::doc_of(v);
    let d3 = seq![
        ("title"@, ValueV::Str(v.title)),
        ("author"@, ValueV::Str(v.author)),
        ("content"@, ValueV::Str(v.content)),
    ];
    let d2 = seq![("author"@, ValueV::Str(v.author)), ("content"@, ValueV::Str(v.content))];
    let d1 = seq![("content"@, ValueV::Str(v.content))];
    assert(d.drop_first() =~= d3);
    assert(d3.drop_first() =~= d2);
    assert(d2.drop_first() =~= d1);
    assert(d1.drop_first() =~= Seq::<(Seq<char>, ValueV)>::empty());
    assert(strip_nulls_v(d1.drop_first()) =~= Seq::<(Seq<char>, ValueV)>::empty());
    assert(strip_nulls_v(d1) =~= d1);
    assert(strip_nulls_v(d2) =~= seq![d2[0]] + strip_nulls_v(d1));
    assert(strip_nulls_v(d2) =~= d2);
    assert(strip_nulls_v(d3) =~= seq![d3[0]] + strip_nulls_v(d2));
    assert(strip_nulls_v(d3) =~= d3);
    assert(d[0].1 is Null);
    assert(strip_nulls_v(d) == strip_nulls_v(d3));
}

/// Reading the three string fields and the identifier out of the
/// stripped article document, when the identifier was absent.
proof fn lemma_parse_stripped_doc(v: ArticleV)
    requires
        v.id is None,
    ensures
        Article::of_doc(strip_nulls_v(Article::doc_of(v))) == Some(
            ArticleV { id: None, title: v.title, author: v.author, content: v.content },
        ),
{
    broadcast use vstd::string::group_string_axioms;

    reveal_strlit("_id");
    reveal_strlit("title");
    reveal_strlit("author");
    reveal_strlit("content");
    assert("_id"@.len() == 3);
    assert("title"@.len() == 5);
    assert("author"@.len() == 6);
    assert("content"@.len() == 7);
    lemma_strip_article_doc(v);
    let s = strip_nulls_v(Article::doc_of(v));
    let d2 = seq![("author"@, ValueV::Str(v.author)), ("content"@, ValueV::Str(v.content))];
    let d1 = seq![("content"@, ValueV::Str(v.content))];
    assert(s.drop_first() =~= d2);
    assert(d2.drop_first() =~= d1);
    assert(d1.drop_first() =~= Seq::<(Seq<char>, ValueV)>::empty());
    assert(doc_get_v(s, "title"@) == Some(ValueV::Str(v.title)));
    assert(doc_get_v(s, "author"@) == doc_get_v(d2, "author"@));
    assert(doc_get_v(d2, "author"@) == Some(ValueV::Str(v.author)));
    assert(doc_get_v(s, "content"@) == doc_get_v(d2, "content"@));
    assert(doc_get_v(d2, "content"@) == doc_get_v(d1, "content"@));
    assert(doc_get_v(d1, "content"@) == Some(ValueV::Str(v.content)));
    assert(doc_get_v(d1.drop_first(), "_id"@) is None);
    assert(doc_get_v(d1, "_id"@) is None);
    assert(doc_get_v(s, "_id"@) == doc_get_v(d2, "_id"@));
    assert(doc_get_v(d2, "_id"@) == doc_get_v(d1, "_id"@));
    assert(doc_get_v(s, "_id"@) is None);
}

/// The mapper roundtrip: serializing a record and stripping its null
/// fields, then deserializing, recovers the record exactly — the
/// identifier included when it was present, and still absent when it
/// was not.
pub proof fn lemma_mapper_roundtrip(v: ArticleV)
    ensures
        Article::of_doc(strip_nulls_v(Article::doc_of(v))) == Some(v),
{
    broadcast use vstd::string::group_string_axioms;

    reveal_strlit("_id");
    reveal_strlit("title");
    reveal_strlit("author");
    reveal_strlit("content");
    assert("_id"@.len() == 3);
    assert("title"@.len() == 5);
    assert("author"@.len() == 6);
    assert("content"@.len() == 7);
    let d = Article::doc_of(v);
    match v.id {
        None => {
            lemma_parse_stripped_doc(v);
            assert(v == ArticleV { id: None, title: v.title, author: v.author, content: v.content });
        },
        Some(b) => {
            let d3 = seq![
                ("title"@, ValueV::Str(v.title)),
                ("author"@, ValueV::Str(v.author)),
                ("content"@, ValueV::Str(v.content)),
            ];
            let d2 = seq![("author"@, ValueV::Str(v.author)), ("content"@, ValueV::Str(v.content))];
            let d1 = seq![("content"@, ValueV::Str(v.content))];
            assert(d.drop_first() =~= d3);
            assert(d3.drop_first() =~= d2);
            assert(d2.drop_first() =~= d1);
            assert(d1.drop_first() =~= Seq::<(Seq<char>, ValueV)>::empty());
            assert(strip_nulls_v(d1.drop_first()) =~= Seq::<(Seq<char>, ValueV)>::empty());
            assert(strip_nulls_v(d1) =~= d1);
            assert(strip_nulls_v(d2) =~= seq![d2[0]] + strip_nulls_v(d1));
            assert(strip_nulls_v(d2) =~= d2);
            assert(strip_nulls_v(d3) =~= seq![d3[0]] + strip_nulls_v(d2));
            assert(strip_nulls_v(d3) =~= d3);
            assert(!(d[0].1 is Null));
            let s = strip_nulls_v(d);
            assert(s =~= seq![d[0]] + strip_nulls_v(d3));
            assert(s =~= d);
            assert(s.drop_first() =~= d3);
            assert(doc_get_v(s, "_id"@) == Some(ValueV::Oid(b)));
            assert(doc_get_v(s, "title"@) == doc_get_v(d3, "title"@));
            assert(doc_get_v(d3, "title"@) == Some(ValueV::Str(v.title)));
            assert(doc_get_v(s, "author"@) == doc_get_v(d3, "author"@));
            assert(doc_get_v(d3, "author"@) == doc_get_v(d2, "author"@));
            assert(doc_get_v(d2, "author"@) == Some(ValueV::Str(v.author)));
            assert(doc_get_v(s, "content"@) == doc_get_v(d3, "content"@));
            assert(doc_get_v(d3, "content"@) == doc_get_v(d2, "content"@));
            assert(doc_get_v(d2, "content"@) == doc_get_v(d1, "content"@));
            assert(doc_get_v(d1, "content"@) == Some(ValueV::Str(v.content)));
            assert(Article::of_doc(s) == Some(
                ArticleV { id: Some(b), title: v.title, author: v.author, content: v.content },
            ));
            assert(v == ArticleV {
                id: Some(b),
                title: v.title,
                author: v.author,
                content: v.content,
            });
        },
    }
}

/// What a stored article document looks like right after a save of a
/// record without an identifier: the fresh identifier in front, then
/// the three string fields — and it deserializes to the record with the
/// identifier filled in.
pub proof fn lemma_saved_doc_parses(v: ArticleV, b: Seq<u8>)
    requires
        v.id is None,
    ensures
        ({
            let dv = with_id_v(strip_nulls_v(Article::doc_of(v)), b);
            Article::of_doc(dv) == Some(
                ArticleV { id: Some(b), title: v.title, author: v.author, content: v.content },
            ) && doc_id_v(dv) == Some(ValueV::Oid(b))
        }),
{
    broadcast use vstd::string::group_string_axioms;

    reveal_strlit("_id");
    reveal_strlit("title");
    reveal_strlit("author");
    reveal_strlit("content");
    assert("_id"@.len() == 3);
    assert("title"@.len() == 5);
    assert("author"@.len() == 6);
    assert("content"@.len() == 7);
    lemma_strip_article_doc(v);
    let dv = with_id_v(strip_nulls_v(Article::doc_of(v)), b);
    let d3 = seq![
        ("title"@, ValueV::Str(v.title)),
        ("author"@, ValueV::Str(v.author)),
        ("content"@, ValueV::Str(v.content)),
    ];
    let d2 = seq![("author"@, ValueV::Str(v.author)), ("content"@, ValueV::Str(v.content))];
    let d1 = seq![("content"@, ValueV::Str(v.content))];
    assert(dv =~= seq![("_id"@, ValueV::Oid(b))] + d3);
    assert(dv.drop_first() =~= d3);
    assert(d3.drop_first() =~= d2);
    assert(d2.drop_first() =~= d1);
    assert(d1.drop_first() =~= Seq::<(Seq<char>, ValueV)>::empty());
    assert(doc_get_v(dv, "_id"@) == Some(ValueV::Oid(b)));
    assert(doc_get_v(dv, "title"@) == doc_get_v(d3, "title"@));
    assert(doc_get_v(d3, "title"@) == Some(ValueV::Str(v.title)));
    assert(doc_get_v(dv, "author"@) == doc_get_v(d3, "author"@));
    assert(doc_get_v(d3, "author"@) == doc_get_v(d2, "author"@));
    assert(doc_get_v(d2, "author"@) == Some(ValueV::Str(v.author)));
    assert(doc_get_v(dv, "content"@) == doc_get_v(d3, "content"@));
    assert(doc_get_v(d3, "content"@) == doc_get_v(d2, "content"@));
    assert(doc_get_v(d2, "content"@) == doc_get_v(d1, "content"@));
    assert(doc_get_v(d1, "content"@) == Some(ValueV::Str(v.content)));
}

} // verus!
