//! The article resource's service: the article record bound to its own
//! collection through the generic CRUD service.

use vstd::prelude::*;

use crate::article::Article;
use crate::common::service::MongodbCrudService;
use crate::common::BusinessError;
use crate::doc::DocV;
use crate::filter::Filter;
use crate::oid::ObjectId;
use crate::store::Collection;

verus! {

/// The name of the collection the articles live in.
pub fn table_name() -> (r: &'static str)
    ensures
        r@ == "article"@,
{
    "article"
}

/// Holds the article collection and carries the shared CRUD semantics
/// for it.
#[derive(Debug)]
pub struct ArticleService {
    pub table: Collection,
}

impl ArticleService {
    /// A service over an empty collection.
    pub fn new() -> (r: ArticleService)
        ensures
            r.table@ == Seq::<DocV>::empty(),
            r.table.inv(),
    {
        ArticleService { table: Collection::new() }
    }
}

impl MongodbCrudService<Article> for ArticleService {
    open spec fn table_v(&self) -> Seq<DocV> {
        self.table@
    }

    open spec fn table_wf(&self) -> bool {
        self.table.inv()
    }

    fn list_with_filter(&self, filter: &Filter) -> (r: Vec<Article>) {
        crate::common::service::list_with_filter::<Article>(&self.table, filter)
    }

    fn save(&mut self, record: &Article, fresh: ObjectId) -> (r: Result<String, BusinessError>) {
        crate::common::service::save::<Article>(&mut self.table, record, fresh)
    }

    fn update_by_oid(&mut self, oid: ObjectId, record: &Article) -> (r: Result<
        i64,
        BusinessError,
    >) {
        crate::common::service::update_by_oid::<Article>(&mut self.table, oid, record)
    }

    fn remove_by_oid(&mut self, oid: ObjectId) -> (r: Result<i64, BusinessError>) {
        crate::common::service::remove_by_oid(&mut self.table, oid)
    }
}

} // verus!
