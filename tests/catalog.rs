use book_catalog::api::{index, Mutation, QueryRoot};
use book_catalog::book::Book;
use book_catalog::details::{after_conflict, BookDetails, MergeOutcome};
use book_catalog::openlibrary::OpenLibrary;
use book_catalog::error::CatalogError;
use book_catalog::openlibrary::SearchResult;
use book_catalog::store::{check_filters, normalize_all, Catalog};
use book_catalog::text::{external_id, first_of, select_isbn13};

fn strings(items: &[&str]) -> Vec<String> {
    items.iter().map(|s| s.to_string()).collect()
}

fn hit(key: &str, title: &str) -> SearchResult {
    SearchResult {
        key: key.to_string(),
        title: title.to_string(),
        first_publish_year: None,
        isbn: None,
        author_key: None,
        author_name: None,
        number_of_pages_median: None,
        cover_i: None,
    }
}

fn draft(key: &str, at: i64) -> BookDetails {
    BookDetails {
        id: None,
        open_library_id: key.to_string(),
        isbn: None,
        title: None,
        author: None,
        author_key: None,
        publish_year: None,
        page_count: None,
        last_updated: at,
    }
}

fn same(a: &BookDetails, b: &BookDetails) -> bool {
    a.id == b.id
        && a.open_library_id == b.open_library_id
        && a.isbn == b.isbn
        && a.title == b.title
        && a.author == b.author
        && a.author_key == b.author_key
        && a.publish_year == b.publish_year
        && a.page_count == b.page_count
        && a.last_updated == b.last_updated
}

#[test]
fn key_extraction_takes_text_after_last_slash() {
    assert_eq!(external_id("authors/OL12345A"), Some("OL12345A".to_string()));
    assert_eq!(external_id("a/b/c"), Some("c".to_string()));
    assert_eq!(external_id("works/"), Some(String::new()));
    assert_eq!(external_id("OL12345A"), None);
    assert_eq!(external_id(""), None);
}

#[test]
fn key_without_slash_is_malformed() {
    let r = BookDetails::normalize(&hit("OL12345A", "T"), 5);
    assert_eq!(r.err(), Some(CatalogError::MalformedExternalKey));
}

#[test]
fn isbn_selection_takes_first_thirteen_character_candidate() {
    let c = strings(&["0000000000", "9780000000001", "9780000000002"]);
    assert_eq!(select_isbn13(&c), Some("9780000000001".to_string()));
    assert_eq!(select_isbn13(&strings(&["0000000000", "123"])), None);
    assert_eq!(select_isbn13(&Vec::new()), None);
}

#[test]
fn first_of_handles_missing_and_empty_lists() {
    assert_eq!(first_of(&None), None);
    assert_eq!(first_of(&Some(Vec::new())), None);
    assert_eq!(first_of(&Some(strings(&["Frank Herbert", "X"]))), Some("Frank Herbert".to_string()));
}

#[test]
fn normalize_fills_every_field() {
    let mut h = hit("works/OL1W", "Dune");
    h.first_publish_year = Some(1965);
    h.isbn = Some(strings(&["0441013597", "9780441013593"]));
    h.author_name = Some(strings(&["Frank Herbert"]));
    h.author_key = Some(strings(&["OL79034A", "OL2A"]));
    h.number_of_pages_median = Some(604);
    let d = BookDetails::normalize(&h, 42).unwrap();
    assert_eq!(d.id, None);
    assert_eq!(d.open_library_id, "OL1W");
    assert_eq!(d.isbn, Some("9780441013593".to_string()));
    assert_eq!(d.title, Some("Dune".to_string()));
    assert_eq!(d.author, Some("Frank Herbert".to_string()));
    assert_eq!(d.author_key, Some("OL79034A".to_string()));
    assert_eq!(d.publish_year, Some(1965));
    assert_eq!(d.page_count, Some(604));
    assert_eq!(d.last_updated, 42);
}

#[test]
fn normalize_with_clock_stamps_current_time() {
    let d = BookDetails::from_search_result(&hit("works/OL9W", "T")).unwrap();
    assert_eq!(d.open_library_id, "OL9W");
    // any time after 2020-01-01
    assert!(d.last_updated > 1_577_836_800_000_000);
}

#[test]
fn reconcile_twice_is_idempotent() {
    let mut c = Catalog::new();
    let mut d = draft("OL1W", 10);
    d.title = Some("Dune".to_string());
    let first = BookDetails::upsert(&mut c, d.duplicate()).unwrap();
    let second = BookDetails::upsert(&mut c, d.duplicate()).unwrap();
    assert!(same(&first, &second));
    assert_eq!(second.last_updated, 10);
    assert_eq!(first.id, Some(1));
    let stored = BookDetails::get_by_id(&c, 1).unwrap();
    assert!(same(&stored, &first));
}

#[test]
fn newer_draft_coalesces_fields() {
    let mut c = Catalog::new();
    let mut d1 = draft("OL1W", 1);
    d1.isbn = Some("9780000000001".to_string());
    BookDetails::upsert(&mut c, d1).unwrap();
    let mut d2 = draft("OL1W", 2);
    d2.page_count = Some(300);
    let r = BookDetails::upsert(&mut c, d2).unwrap();
    assert_eq!(r.isbn, Some("9780000000001".to_string()));
    assert_eq!(r.page_count, Some(300));
    assert_eq!(r.last_updated, 2);
    assert_eq!(r.id, Some(1));
}

#[test]
fn older_draft_changes_nothing() {
    let mut c = Catalog::new();
    let mut d1 = draft("OL1W", 5);
    d1.title = Some("A".to_string());
    let stored = BookDetails::upsert(&mut c, d1).unwrap();
    let mut old = draft("OL1W", 4);
    old.title = Some("B".to_string());
    old.isbn = Some("9780000000001".to_string());
    old.page_count = Some(1);
    let r = BookDetails::upsert(&mut c, old).unwrap();
    assert!(same(&r, &stored));
    let mut tie = draft("OL1W", 5);
    tie.title = Some("C".to_string());
    let r = BookDetails::upsert(&mut c, tie).unwrap();
    assert!(same(&r, &stored));
}

#[test]
fn newer_draft_without_fields_changes_nothing() {
    let mut c = Catalog::new();
    let mut d1 = draft("OL1W", 5);
    d1.title = Some("A".to_string());
    let stored = BookDetails::upsert(&mut c, d1).unwrap();
    let r = BookDetails::upsert(&mut c, draft("OL1W", 9)).unwrap();
    assert!(same(&r, &stored));
}

#[test]
fn batch_later_newer_draft_wins() {
    let mut c = Catalog::new();
    let mut a = draft("OL1W", 1);
    a.title = Some("A".to_string());
    let mut b = draft("OL1W", 2);
    b.title = Some("B".to_string());
    let out = BookDetails::upsert_batch(&mut c, &vec![a, b]).unwrap();
    assert_eq!(out.len(), 2);
    assert_eq!(out[0].title, Some("A".to_string()));
    assert_eq!(out[1].title, Some("B".to_string()));
    let stored = BookDetails::get_by_id(&c, 1).unwrap();
    assert_eq!(stored.title, Some("B".to_string()));
    assert_eq!(BookDetails::get_by_id(&c, 2).map(|d| d.id), None);
}

#[test]
fn search_at_orders_duplicate_hits() {
    let mut c = Catalog::new();
    let hits = vec![hit("works/OL1W", "A"), hit("works/OL1W", "B")];
    let out = BookDetails::search_at(&mut c, Some("x"), None, &hits, &vec![1, 2]).unwrap();
    assert_eq!(out.len(), 2);
    assert_eq!(BookDetails::get_by_id(&c, 1).unwrap().title, Some("B".to_string()));
}

#[test]
fn end_to_end_search_dune() {
    let mut c = Catalog::new();
    let mut h = hit("works/OL1W", "Dune");
    h.isbn = Some(strings(&["9780441013593"]));
    let out = BookDetails::search(&mut c, Some("Dune"), None, &vec![h]).unwrap();
    assert_eq!(out.len(), 1);
    let r = &out[0];
    assert_eq!(r.id, Some(1));
    assert_eq!(r.open_library_id, "OL1W");
    assert_eq!(r.title, Some("Dune".to_string()));
    assert_eq!(r.isbn, Some("9780441013593".to_string()));
    assert_eq!(r.author, None);
    assert!(same(&BookDetails::get_by_id(&c, 1).unwrap(), r));
}

#[test]
fn find_book_through_mutation() {
    let mut c = Catalog::new();
    let out = Mutation.find_book(&mut c, None, Some("Herbert".to_string()), &vec![hit("works/OL1W", "Dune")]).unwrap();
    assert_eq!(out.len(), 1);
    let err = Mutation.find_book(&mut c, None, None, &vec![hit("works/OL2W", "X")]);
    assert_eq!(err.err(), Some(CatalogError::InvalidQuery));
    assert_eq!(BookDetails::get_by_id(&c, 2).map(|d| d.id), None);
}

#[test]
fn search_without_usable_filter_is_invalid() {
    let mut c = Catalog::new();
    let hits = vec![hit("works/OL1W", "Dune")];
    assert_eq!(BookDetails::search(&mut c, None, None, &hits).err(), Some(CatalogError::InvalidQuery));
    assert_eq!(BookDetails::search(&mut c, Some(""), Some(""), &hits).err(), Some(CatalogError::InvalidQuery));
    assert!(BookDetails::get_by_id(&c, 1).is_none());
    assert_eq!(check_filters(Some(""), Some("a")), Ok(()));
    assert_eq!(check_filters(None, None), Err(CatalogError::InvalidQuery));
}

#[test]
fn search_skips_malformed_hits() {
    let mut c = Catalog::new();
    let hits = vec![hit("broken", "X"), hit("works/OL2W", "Y")];
    let out = BookDetails::search_at(&mut c, Some("y"), None, &hits, &vec![1, 2]).unwrap();
    assert_eq!(out.len(), 1);
    assert_eq!(out[0].open_library_id, "OL2W");
    let drafts = normalize_all(&hits, &vec![7, 8]);
    assert_eq!(drafts.len(), 1);
    assert_eq!(drafts[0].last_updated, 8);
}

#[test]
fn plan_upsert_names_each_outcome() {
    let mut d = draft("OL1W", 3);
    d.id = Some(99);
    d.title = Some("T".to_string());
    match BookDetails::plan_upsert(None, &d) {
        MergeOutcome::Insert(r) => assert_eq!(r.id, None),
        other => panic!("expected an insert, got {:?}", other),
    }
    let mut stored = draft("OL1W", 2);
    stored.id = Some(4);
    stored.author = Some("A".to_string());
    match BookDetails::plan_upsert(Some(&stored), &d) {
        MergeOutcome::Update(r) => {
            assert_eq!(r.id, Some(4));
            assert_eq!(r.title, Some("T".to_string()));
            assert_eq!(r.author, Some("A".to_string()));
            assert_eq!(r.last_updated, 3);
        }
        other => panic!("expected an update, got {:?}", other),
    }
    stored.last_updated = 3;
    match BookDetails::plan_upsert(Some(&stored), &d) {
        MergeOutcome::Keep(r) => assert!(same(&r, &stored)),
        other => panic!("expected a keep, got {:?}", other),
    }
}

#[test]
fn books_are_numbered_and_listed() {
    let mut c = Catalog::new();
    let b1 = Mutation.add_book(&mut c, Some("Dune".to_string()), None, Some(7)).unwrap();
    let b2 = Book::insert(&mut c, Book { id: Some(50), title: None, author: Some("X".to_string()), book_details_id: None }).unwrap();
    assert_eq!(b1.id, Some(1));
    assert_eq!(b2.id, Some(2));
    let all = QueryRoot.books(&c);
    assert_eq!(all.len(), 2);
    assert_eq!(all[0].title, Some("Dune".to_string()));
    assert_eq!(all[1].author, Some("X".to_string()));
    assert_eq!(QueryRoot.book(&c, 2).unwrap().author, Some("X".to_string()));
    assert!(Book::get_by_id(&c, 3).is_none());
    assert_eq!(Book::list(&c).len(), 2);
}

#[test]
fn dangling_metadata_reference_resolves_to_none() {
    let mut c = Catalog::new();
    let book = Book::insert(&mut c, Book { id: None, title: None, author: None, book_details_id: Some(7) }).unwrap();
    assert!(book.book_details(&c).is_none());
    let unlinked = Book::insert(&mut c, Book { id: None, title: None, author: None, book_details_id: None }).unwrap();
    assert!(unlinked.book_details(&c).is_none());
    let rec = BookDetails::upsert(&mut c, draft("OL1W", 1)).unwrap();
    let linked = Book::insert(&mut c, Book { id: None, title: None, author: None, book_details_id: rec.id }).unwrap();
    assert_eq!(linked.book_details(&c).unwrap().open_library_id, "OL1W");
}

#[test]
fn preflight_answer() {
    assert_eq!(index(), "Hello world!");
}

#[test]
fn search_params_fill_missing_filters() {
    let p = OpenLibrary::search_params(Some("Dune"), None);
    assert_eq!(p, vec![("title".to_string(), "Dune".to_string()), ("author".to_string(), "\"\"".to_string())]);
}

#[test]
fn search_url_encodes_filters() {
    let u = OpenLibrary::search_url(Some("Dune"), None).unwrap();
    assert_eq!(u, "https://openlibrary.org/search.json?title=Dune&author=%22%22");
    let u = OpenLibrary::search_url(Some("The Hobbit"), Some("Tolkien")).unwrap();
    assert_eq!(u, "https://openlibrary.org/search.json?title=The+Hobbit&author=Tolkien");
}

#[test]
fn conflict_is_retried_once() {
    assert_eq!(after_conflict(1), Ok(()));
    assert_eq!(after_conflict(2), Err(CatalogError::ConstraintViolation));
}
