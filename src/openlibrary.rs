use vstd::prelude::*;

use crate::error::CatalogError;

verus! {

/// One raw hit of the external bibliographic search.
#[derive(Clone, Debug)]
pub struct SearchResult {
    /// The hit's key, of the form `<namespace>/<id>`.
    pub key: String,
    pub title: String,
    pub first_publish_year: Option<i32>,
    pub isbn: Option<Vec<String>>,
    pub author_key: Option<Vec<String>>,
    pub author_name: Option<Vec<String>>,
    pub number_of_pages_median: Option<i32>,
    pub cover_i: Option<i64>,
}

/// One page of hits as the external search returns it.
#[derive(Clone, Debug)]
pub struct SearchResults {
    pub num_found: i32,
    pub offset: Option<i32>,
    pub docs: Vec<SearchResult>,
}

/// The external bibliographic search service.
pub struct OpenLibrary;

/// The address that `reqwest::Url::parse_with_params` makes of `base` with
/// the query pairs `params` appended, or `None` where `base` is no absolute URL.
pub uninterp spec fn url_with_params(base: Seq<char>, params: Seq<(Seq<char>, Seq<char>)>) -> Option<Seq<char>>;

/// The text of each query pair.
pub open spec fn pairs_view(params: Seq<(String, String)>) -> Seq<(Seq<char>, Seq<char>)> {
    params.map_values(|p: (String, String)| (p.0@, p.1@))
}

/// Relies on `reqwest::Url::parse_with_params` (the `url` crate's): parses
/// `base` and appends `params`, form-encoded, to its query.
#[verifier::external_body]
fn parse_with_params(base: &str, params: &Vec<(String, String)>) -> (r: Option<String>)
    ensures
        match r {
            Some(u) => url_with_params(base@, pairs_view(params@)) == Some(u@),
            None => url_with_params(base@, pairs_view(params@)) is None,
        },
{
    reqwest::Url::parse_with_params(base, params.iter()).ok().map(String::from)
}

/// The search endpoint.
pub const SEARCH_URL: &'static str = "https://openlibrary.org/search.json";

/// The value sent for a filter: the filter, or an empty quoted string.
pub open spec fn filter_value(filter: Option<&str>) -> Seq<char> {
    match filter {
        Some(f) => f@,
        None => "\"\""@,
    }
}

/// The query pairs of a search.
pub open spec fn search_pairs(title: Option<&str>, author: Option<&str>) -> Seq<(Seq<char>, Seq<char>)> {
    seq![("title"@, filter_value(title)), ("author"@, filter_value(author))]
}

impl OpenLibrary {
    /// The query pairs of a search by `title` and `author`; a missing filter
    /// is sent as an empty quoted string.
    pub fn search_params(title: Option<&str>, author: Option<&str>) -> (r: Vec<(String, String)>)
        ensures
            pairs_view(r@) == search_pairs(title, author),
    {
        let t = match title {
            Some(t) => t.to_owned(),
            None => "\"\"".to_owned(),
        };
        let a = match author {
            Some(a) => a.to_owned(),
            None => "\"\"".to_owned(),
        };
        let r = vec![("title".to_owned(), t), ("author".to_owned(), a)];
        assert(pairs_view(r@) =~= search_pairs(title, author));
        r
    }

    /// The address of a search by `title` and `author`; fails with
    /// `UpstreamUnavailable` where no address can be made.
    pub fn search_url(title: Option<&str>, author: Option<&str>) -> (r: Result<String, CatalogError>)
        ensures
            match r {
                Ok(u) => url_with_params(SEARCH_URL@, search_pairs(title, author)) == Some(u@),
                Err(e) => e == CatalogError::UpstreamUnavailable
                    && url_with_params(SEARCH_URL@, search_pairs(title, author)) is None,
            },
    {
        let params = OpenLibrary::search_params(title, author);
        match parse_with_params(SEARCH_URL, &params) {
            Some(u) => Ok(u),
            None => Err(CatalogError::UpstreamUnavailable),
        }
    }
}

} // verus!
