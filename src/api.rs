use vstd::prelude::*;

use crate::book::Book;
use crate::details::BookDetails;
use crate::error::CatalogError;
use crate::openlibrary::SearchResult;
use crate::store::{book_with_id, drafts_of, query_usable, upsert_all, Catalog};

verus! {

/// The answer to a preflight request on the query endpoint.
pub fn index() -> (r: &'static str)
    ensures
        r@ == "Hello world!"@,
{
    "Hello world!"
}

/// The read operations of the catalog.
pub struct QueryRoot;

impl QueryRoot {
    /// The books in the system.
    pub fn books(&self, catalog: &Catalog) -> (r: Vec<Book>)
        requires
            catalog.wf(),
        ensures
            r@ == catalog.book_list(),
    {
        Book::list(catalog)
    }

    /// The book with id `id`, if there is one.
    pub fn book(&self, catalog: &Catalog, id: i32) -> (r: Option<Book>)
        requires
            catalog.wf(),
        ensures
            r == book_with_id(catalog.book_list(), id as i64),
    {
        Book::get_by_id(catalog, id)
    }
}

/// The write operations of the catalog.
pub struct Mutation;

impl Mutation {
    /// Searches by title and/or author and reconciles what the external search
    /// returned (`hits`) into the store; see `BookDetails::search`.
    pub fn find_book(
        &self,
        catalog: &mut Catalog,
        title: Option<String>,
        author: Option<String>,
        hits: &Vec<SearchResult>,
    ) -> (r: Result<Vec<BookDetails>, CatalogError>)
        requires
            old(catalog).wf(),
        ensures
            final(catalog).wf(),
            ({
                let t = match title {
                    Some(s) => Some(s@),
                    None => None::<Seq<char>>,
                };
                let a = match author {
                    Some(s) => Some(s@),
                    None => None::<Seq<char>>,
                };
                let usable = (t matches Some(x) && x.len() > 0) || (a matches Some(x) && x.len() > 0);
                &&& !usable ==> r == Err::<Vec<BookDetails>, CatalogError>(CatalogError::InvalidQuery)
                    && final(catalog).table() == old(catalog).table()
                &&& usable ==> exists|times: Seq<i64>, drafts: Seq<BookDetails>|
                    {
                        &&& times.len() == hits@.len()
                        &&& drafts_of(hits@, times, drafts)
                        &&& final(catalog).table() == upsert_all(old(catalog).table(), drafts).0
                        &&& match r {
                            Ok(v) => upsert_all(old(catalog).table(), drafts).1
                                == Ok::<Seq<BookDetails>, CatalogError>(v@),
                            Err(e) => upsert_all(old(catalog).table(), drafts).1
                                == Err::<Seq<BookDetails>, CatalogError>(e),
                        }
                    }
            }),
            final(catalog).book_list() == old(catalog).book_list(),
    {
        let t = match &title {
            Some(s) => Some(s.as_str()),
            None => None,
        };
        let a = match &author {
            Some(s) => Some(s.as_str()),
            None => None,
        };
        BookDetails::search(catalog, t, a, hits)
    }

    /// Creates a book that may refer to a metadata record; see `Book::insert`.
    pub fn add_book(
        &self,
        catalog: &mut Catalog,
        title: Option<String>,
        author: Option<String>,
        book_details_id: Option<i64>,
    ) -> (r: Result<Book, CatalogError>)
        requires
            old(catalog).wf(),
        ensures
            final(catalog).wf(),
            final(catalog).table() == old(catalog).table(),
            old(catalog).next_book() < i64::MAX ==> {
                let stored = Book { id: Some(old(catalog).next_book() as i64), title, author, book_details_id };
                &&& r == Ok::<Book, CatalogError>(stored)
                &&& final(catalog).book_list() == old(catalog).book_list().push(stored)
            },
            old(catalog).next_book() == i64::MAX ==> r == Err::<Book, CatalogError>(CatalogError::StoreUnavailable)
                && final(catalog).book_list() == old(catalog).book_list(),
    {
        Book::insert(catalog, Book { id: None, title, author, book_details_id })
    }
}

} // verus!
