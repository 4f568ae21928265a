use vstd::prelude::*;

use crate::book::Book;
use crate::details::{copy_text, BookDetails};
use crate::clock::now_micros;
use crate::error::CatalogError;
use crate::openlibrary::SearchResult;
use crate::text::external_id_of;

verus! {

/// The metadata records of a store and the next surrogate id it hands out.
pub struct RecordTable {
    pub records: Seq<BookDetails>,
    pub next_id: int,
}

/// The position of the record whose external id is `key`, if any.
pub open spec fn key_index(records: Seq<BookDetails>, key: Seq<char>) -> Option<int> {
    if exists|i: int| 0 <= i < records.len() && records[i].open_library_id@ == key {
        Some(choose|i: int| 0 <= i < records.len() && records[i].open_library_id@ == key)
    } else {
        None
    }
}

/// Records are numbered from one in insertion order, below `next_id`, and no
/// two share an external id.
pub open spec fn table_wf(t: RecordTable) -> bool {
    &&& 1 <= t.next_id <= i64::MAX
    &&& forall|i: int| 0 <= i < t.records.len() ==> (#[trigger] t.records[i]).id is Some
    &&& forall|i: int| 0 <= i < t.records.len() ==> 1 <= (#[trigger] t.records[i]).id->0 < t.next_id
    &&& forall|i: int, j: int|
        0 <= i < j < t.records.len() ==> (#[trigger] t.records[i]).id->0 < (#[trigger] t.records[j]).id->0
    &&& forall|i: int, j: int|
        0 <= i < t.records.len() && 0 <= j < t.records.len() && i != j
            ==> (#[trigger] t.records[i]).open_library_id@ != (#[trigger] t.records[j]).open_library_id@
}

/// The table and the result after one reconciliation of `draft`: a record
/// with the same external id is merged with it; otherwise the draft goes in
/// under the next id, unless the ids are used up.
pub open spec fn upsert_step(t: RecordTable, draft: BookDetails) -> (RecordTable, Result<BookDetails, CatalogError>) {
    match key_index(t.records, draft.open_library_id@) {
        Some(i) => {
            let r = t.records[i].merged_with(draft);
            (RecordTable { records: t.records.update(i, r), next_id: t.next_id }, Ok(r))
        },
        None => if t.next_id < i64::MAX {
            let r = BookDetails { id: Some(t.next_id as i64), ..draft };
            (RecordTable { records: t.records.push(r), next_id: t.next_id + 1 }, Ok(r))
        } else {
            (t, Err(CatalogError::StoreUnavailable))
        },
    }
}

/// The table and the results after reconciling `drafts` one after the other,
/// stopping at the first failure.
pub open spec fn upsert_all(t: RecordTable, drafts: Seq<BookDetails>) -> (RecordTable, Result<Seq<BookDetails>, CatalogError>)
    decreases drafts.len(),
{
    if drafts.len() == 0 {
        (t, Ok(Seq::empty()))
    } else {
        let (t1, done) = upsert_all(t, drafts.drop_last());
        match done {
            Err(e) => (t1, Err(e)),
            Ok(rs) => {
                let (t2, r) = upsert_step(t1, drafts.last());
                match r {
                    Ok(x) => (t2, Ok(rs.push(x))),
                    Err(e) => (t2, Err(e)),
                }
            },
        }
    }
}

/// Once a prefix of `drafts` fails, the whole batch ends as that prefix did.
proof fn lemma_failure_stops(t: RecordTable, drafts: Seq<BookDetails>, k: int)
    requires
        0 <= k <= drafts.len(),
        upsert_all(t, drafts.take(k)).1 is Err,
    ensures
        upsert_all(t, drafts) == upsert_all(t, drafts.take(k)),
    decreases drafts.len() - k,
{
    if k < drafts.len() {
        assert(drafts.take(k + 1).drop_last() =~= drafts.take(k));
        lemma_failure_stops(t, drafts, k + 1);
    } else {
        assert(drafts.take(k) =~= drafts);
    }
}

/// `drafts` are, in order, the drafts of those `hits` whose key yields an
/// external id, the hit at position `i` stamped with `times[i]`.
pub open spec fn drafts_of(hits: Seq<SearchResult>, times: Seq<i64>, drafts: Seq<BookDetails>) -> bool
    decreases hits.len(),
{
    if hits.len() == 0 {
        drafts.len() == 0
    } else if external_id_of(hits.last().key@) is None {
        drafts_of(hits.drop_last(), times.drop_last(), drafts)
    } else {
        &&& drafts.len() > 0
        &&& drafts.last().is_draft_of(hits.last(), times.last())
        &&& drafts_of(hits.drop_last(), times.drop_last(), drafts.drop_last())
    }
}

/// The filter is given and not empty.
pub open spec fn filter_given(filter: Option<&str>) -> bool {
    match filter {
        Some(f) => f@.len() > 0,
        None => false,
    }
}

/// At least one of the two search filters is given.
pub open spec fn query_usable(title: Option<&str>, author: Option<&str>) -> bool {
    filter_given(title) || filter_given(author)
}

/// Checks that a search names a title or an author: fails with
/// `InvalidQuery` exactly when neither filter is given and non-empty.
pub fn check_filters(title: Option<&str>, author: Option<&str>) -> (r: Result<(), CatalogError>)
    ensures
        r is Ok <==> query_usable(title, author),
        r matches Err(e) ==> e == CatalogError::InvalidQuery,
{
    let title_given = match title {
        Some(t) => !t.is_empty(),
        None => false,
    };
    let author_given = match author {
        Some(a) => !a.is_empty(),
        None => false,
    };
    if title_given || author_given {
        Ok(())
    } else {
        Err(CatalogError::InvalidQuery)
    }
}

/// Normalizes each hit at its own time; hits whose key yields no external id
/// are skipped.
pub fn normalize_all(hits: &Vec<SearchResult>, times: &Vec<i64>) -> (drafts: Vec<BookDetails>)
    requires
        times.len() == hits.len(),
    ensures
        drafts_of(hits@, times@, drafts@),
{
    let mut drafts: Vec<BookDetails> = Vec::new();
    let mut i: usize = 0;
    assert(drafts_of(hits@.take(0), times@.take(0), drafts@));
    while i < hits.len()
        invariant
            times.len() == hits.len(),
            i <= hits.len(),
            drafts_of(hits@.take(i as int), times@.take(i as int), drafts@),
        decreases hits.len() - i,
    {
        let ghost before = drafts@;
        let r = BookDetails::normalize(&hits[i], times[i]);
        assert(hits@.take(i + 1).drop_last() =~= hits@.take(i as int));
        assert(times@.take(i + 1).drop_last() =~= times@.take(i as int));
        match r {
            Ok(d) => {
                drafts.push(d);
                assert(drafts@.drop_last() =~= before);
            },
            Err(_) => {},
        }
        i = i + 1;
    }
    assert(hits@.take(i as int) =~= hits@);
    assert(times@.take(i as int) =~= times@);
    drafts
}

/// The record whose surrogate id is `id`, if any.
pub open spec fn record_with_id(records: Seq<BookDetails>, id: i64) -> Option<BookDetails> {
    if exists|i: int| 0 <= i < records.len() && records[i].id == Some(id) {
        Some(records[choose|i: int| 0 <= i < records.len() && records[i].id == Some(id)])
    } else {
        None
    }
}

/// The book whose id is `id`, if any.
pub open spec fn book_with_id(books: Seq<Book>, id: i64) -> Option<Book> {
    if exists|i: int| 0 <= i < books.len() && books[i].id == Some(id) {
        Some(books[choose|i: int| 0 <= i < books.len() && books[i].id == Some(id)])
    } else {
        None
    }
}

/// An in-memory store of metadata records and books.
pub struct Catalog {
    records: Vec<BookDetails>,
    next_record_id: i64,
    books: Vec<Book>,
    next_book_id: i64,
}

impl Catalog {
    /// The metadata records and the next record id.
    pub closed spec fn table(&self) -> RecordTable {
        RecordTable { records: self.records@, next_id: self.next_record_id as int }
    }

    /// The books, in the order they were created.
    pub closed spec fn book_list(&self) -> Seq<Book> {
        self.books@
    }

    /// The id the next book gets.
    pub closed spec fn next_book(&self) -> int {
        self.next_book_id as int
    }

    pub open spec fn wf(&self) -> bool {
        &&& table_wf(self.table())
        &&& 1 <= self.next_book() <= i64::MAX
        &&& forall|i: int| 0 <= i < self.book_list().len() ==> (#[trigger] self.book_list()[i]).id is Some
        &&& forall|i: int| 0 <= i < self.book_list().len()
            ==> 1 <= (#[trigger] self.book_list()[i]).id->0 < self.next_book()
        &&& forall|i: int, j: int| 0 <= i < j < self.book_list().len()
            ==> (#[trigger] self.book_list()[i]).id->0 < (#[trigger] self.book_list()[j]).id->0
    }

    /// An empty store.
    pub fn new() -> (r: Catalog)
        ensures
            r.wf(),
            r.table().records.len() == 0,
            r.table().next_id == 1,
            r.book_list().len() == 0,
            r.next_book() == 1,
    {
        Catalog { records: Vec::new(), next_record_id: 1, books: Vec::new(), next_book_id: 1 }
    }

    /// The record with surrogate id `id`.
    fn record_by_id(&self, id: i64) -> (r: Option<BookDetails>)
        requires
            self.wf(),
        ensures
            r == record_with_id(self.table().records, id),
    {
        let mut i: usize = 0;
        while i < self.records.len()
            invariant
                self.wf(),
                i <= self.records@.len(),
                forall|j: int| 0 <= j < i ==> self.records@[j].id != Some(id),
            decreases self.records.len() - i,
        {
            if self.records[i].id == Some(id) {
                proof {
                    let rs = self.records@;
                    assert(self.table().records == rs);
                    let c = choose|c: int| 0 <= c < rs.len() && rs[c].id == Some(id);
                    assert(c == i) by {
                        if c < i {
                            assert(rs[c].id->0 < rs[i as int].id->0);
                        } else if c > i {
                            assert(rs[i as int].id->0 < rs[c].id->0);
                        }
                    }
                }
                return Some(self.records[i].duplicate());
            }
            i = i + 1;
        }
        None
    }

    /// The book with id `id`.
    fn book_by_id(&self, id: i64) -> (r: Option<Book>)
        requires
            self.wf(),
        ensures
            r == book_with_id(self.book_list(), id),
    {
        let mut i: usize = 0;
        while i < self.books.len()
            invariant
                self.wf(),
                i <= self.books@.len(),
                forall|j: int| 0 <= j < i ==> self.books@[j].id != Some(id),
            decreases self.books.len() - i,
        {
            if self.books[i].id == Some(id) {
                proof {
                    let bs = self.books@;
                    assert(self.book_list() == bs);
                    let c = choose|c: int| 0 <= c < bs.len() && bs[c].id == Some(id);
                    assert(c == i) by {
                        if c < i {
                            assert(bs[c].id->0 < bs[i as int].id->0);
                        } else if c > i {
                            assert(bs[i as int].id->0 < bs[c].id->0);
                        }
                    }
                }
                return Some(self.books[i].duplicate());
            }
            i = i + 1;
        }
        None
    }

    /// The position of the record with external id `key`.
    fn find_key(&self, key: &String) -> (r: Option<usize>)
        requires
            self.wf(),
        ensures
            match r {
                Some(i) => key_index(self.table().records, key@) == Some(i as int),
                None => key_index(self.table().records, key@) is None,
            },
    {
        let mut i: usize = 0;
        while i < self.records.len()
            invariant
                self.wf(),
                i <= self.records@.len(),
                forall|j: int| 0 <= j < i ==> self.records@[j].open_library_id@ != key@,
            decreases self.records.len() - i,
        {
            if self.records[i].open_library_id == *key {
                proof {
                    let rs = self.records@;
                    assert(self.table().records == rs);
                    assert(rs[i as int].open_library_id@ == key@);
                    let c = choose|c: int| 0 <= c < rs.len() && rs[c].open_library_id@ == key@;
                    assert(c == i) by {
                        if c != i {
                            assert(rs[c].open_library_id@ != rs[i as int].open_library_id@);
                        }
                    }
                }
                return Some(i);
            }
            i = i + 1;
        }
        None
    }
}

impl Book {
    /// All books, in the order they were created.
    pub fn list(catalog: &Catalog) -> (r: Vec<Book>)
        requires
            catalog.wf(),
        ensures
            r@ == catalog.book_list(),
    {
        let mut out: Vec<Book> = Vec::new();
        let mut i: usize = 0;
        while i < catalog.books.len()
            invariant
                i <= catalog.books@.len(),
                out@ == catalog.books@.take(i as int),
            decreases catalog.books.len() - i,
        {
            out.push(catalog.books[i].duplicate());
            assert(out@ =~= catalog.books@.take(i + 1));
            i = i + 1;
        }
        assert(catalog.books@.take(i as int) =~= catalog.books@);
        out
    }

    /// The book with id `id`, if there is one.
    pub fn get_by_id(catalog: &Catalog, id: i32) -> (r: Option<Book>)
        requires
            catalog.wf(),
        ensures
            r == book_with_id(catalog.book_list(), id as i64),
    {
        catalog.book_by_id(id as i64)
    }

    /// Stores `book` under the next id (the id it carries is ignored) and
    /// returns it as stored; fails with `StoreUnavailable` once the ids are
    /// used up. Its metadata reference is not checked.
    pub fn insert(catalog: &mut Catalog, book: Book) -> (r: Result<Book, CatalogError>)
        requires
            old(catalog).wf(),
        ensures
            final(catalog).wf(),
            final(catalog).table() == old(catalog).table(),
            old(catalog).next_book() < i64::MAX ==> {
                let stored = Book { id: Some(old(catalog).next_book() as i64), ..book };
                &&& r == Ok::<Book, CatalogError>(stored)
                &&& final(catalog).book_list() == old(catalog).book_list().push(stored)
                &&& final(catalog).next_book() == old(catalog).next_book() + 1
            },
            old(catalog).next_book() == i64::MAX ==> r == Err::<Book, CatalogError>(CatalogError::StoreUnavailable)
                && final(catalog).book_list() == old(catalog).book_list()
                && final(catalog).next_book() == old(catalog).next_book(),
    {
        if catalog.next_book_id == i64::MAX {
            return Err(CatalogError::StoreUnavailable);
        }
        let mut stored = book;
        stored.id = Some(catalog.next_book_id);
        let out = stored.duplicate();
        catalog.books.push(stored);
        catalog.next_book_id = catalog.next_book_id + 1;
        proof {
            assert(catalog.book_list() =~= old(catalog).book_list().push(out));
        }
        Ok(out)
    }

    /// The metadata record this book refers to; `None` where it refers to
    /// none, or to an id that no record has.
    pub fn book_details(&self, catalog: &Catalog) -> (r: Option<BookDetails>)
        requires
            catalog.wf(),
        ensures
            r == match self.book_details_id {
                Some(id) => record_with_id(catalog.table().records, id),
                None => None,
            },
    {
        match self.book_details_id {
            Some(id) => BookDetails::get_by_id(catalog, id),
            None => None,
        }
    }
}

impl BookDetails {
    /// The record with surrogate id `id`, if there is one.
    pub fn get_by_id(catalog: &Catalog, id: i64) -> (r: Option<BookDetails>)
        requires
            catalog.wf(),
        ensures
            r == record_with_id(catalog.table().records, id),
    {
        catalog.record_by_id(id)
    }

    /// Reconciles `draft` with the store: inserts it under a fresh id where no
    /// record has its external id, else merges it into that record under the
    /// recency gate. Returns the record the store then holds.
    pub fn upsert(catalog: &mut Catalog, draft: BookDetails) -> (r: Result<BookDetails, CatalogError>)
        requires
            old(catalog).wf(),
        ensures
            final(catalog).wf(),
            (final(catalog).table(), r) == upsert_step(old(catalog).table(), draft),
            final(catalog).book_list() == old(catalog).book_list(),
            final(catalog).next_book() == old(catalog).next_book(),
    {
        let found = catalog.find_key(&draft.open_library_id);
        match found {
            Some(i) => {
                let merged = catalog.records[i].merge(&draft);
                let out = merged.duplicate();
                catalog.records[i] = merged;
                proof {
                    let t = old(catalog).table();
                    assert(catalog.table().records =~= t.records.update(i as int, out));
                    assert forall|a: int, b: int|
                        0 <= a < catalog.table().records.len() && 0 <= b < catalog.table().records.len() && a != b
                        implies (#[trigger] catalog.table().records[a]).open_library_id@
                            != (#[trigger] catalog.table().records[b]).open_library_id@ by {
                        assert(t.records[a].open_library_id@ != t.records[b].open_library_id@);
                    }
                }
                Ok(out)
            },
            None => {
                if catalog.next_record_id < i64::MAX {
                    let mut rec = draft;
                    rec.id = Some(catalog.next_record_id);
                    let out = rec.duplicate();
                    catalog.records.push(rec);
                    catalog.next_record_id = catalog.next_record_id + 1;
                    proof {
                        let t = old(catalog).table();
                        assert(catalog.table().records =~= t.records.push(out));
                        assert forall|a: int, b: int|
                            0 <= a < catalog.table().records.len() && 0 <= b < catalog.table().records.len() && a != b
                            implies (#[trigger] catalog.table().records[a]).open_library_id@
                                != (#[trigger] catalog.table().records[b]).open_library_id@ by {
                            if a < t.records.len() && b < t.records.len() {
                                assert(t.records[a].open_library_id@ != t.records[b].open_library_id@);
                            } else if a < t.records.len() {
                                assert(t.records[a].open_library_id@ != out.open_library_id@);
                            } else {
                                assert(t.records[b].open_library_id@ != out.open_library_id@);
                            }
                        }
                    }
                    Ok(out)
                } else {
                    Err(CatalogError::StoreUnavailable)
                }
            },
        }
    }

    /// Reconciles `drafts` one after the other, each seeing the effects of
    /// those before it; the first failure ends the batch and is returned.
    pub fn upsert_batch(catalog: &mut Catalog, drafts: &Vec<BookDetails>) -> (r: Result<Vec<BookDetails>, CatalogError>)
        requires
            old(catalog).wf(),
        ensures
            final(catalog).wf(),
            final(catalog).table() == upsert_all(old(catalog).table(), drafts@).0,
            match r {
                Ok(v) => upsert_all(old(catalog).table(), drafts@).1 == Ok::<Seq<BookDetails>, CatalogError>(v@),
                Err(e) => upsert_all(old(catalog).table(), drafts@).1 == Err::<Seq<BookDetails>, CatalogError>(e),
            },
            final(catalog).book_list() == old(catalog).book_list(),
            final(catalog).next_book() == old(catalog).next_book(),
    {
        let ghost t0 = catalog.table();
        let mut out: Vec<BookDetails> = Vec::new();
        let mut i: usize = 0;
        assert(drafts@.take(0) =~= Seq::<BookDetails>::empty());
        while i < drafts.len()
            invariant
                catalog.wf(),
                i <= drafts.len(),
                catalog.table() == upsert_all(t0, drafts@.take(i as int)).0,
                upsert_all(t0, drafts@.take(i as int)).1 == Ok::<Seq<BookDetails>, CatalogError>(out@),
                catalog.book_list() == old(catalog).book_list(),
                catalog.next_book() == old(catalog).next_book(),
                t0 == old(catalog).table(),
            decreases drafts.len() - i,
        {
            let d = drafts[i].duplicate();
            let r = BookDetails::upsert(catalog, d);
            assert(drafts@.take(i + 1).drop_last() =~= drafts@.take(i as int));
            assert(drafts@.take(i + 1).last() == drafts@[i as int]);
            match r {
                Ok(x) => {
                    out.push(x);
                },
                Err(e) => {
                    proof {
                        lemma_failure_stops(t0, drafts@, i + 1);
                    }
                    return Err(e);
                },
            }
            i = i + 1;
        }
        assert(drafts@.take(i as int) =~= drafts@);
        Ok(out)
    }

    /// Searches with the given filters and the hits that the external search
    /// returned, hit `i` normalized at `times[i]`: fails with `InvalidQuery`
    /// and touches nothing where no filter is usable; otherwise reconciles
    /// the drafts of the well-formed hits in order (see `upsert_batch`).
    pub fn search_at(
        catalog: &mut Catalog,
        title: Option<&str>,
        author: Option<&str>,
        hits: &Vec<SearchResult>,
        times: &Vec<i64>,
    ) -> (r: Result<Vec<BookDetails>, CatalogError>)
        requires
            old(catalog).wf(),
            times.len() == hits.len(),
        ensures
            final(catalog).wf(),
            !query_usable(title, author) ==> r == Err::<Vec<BookDetails>, CatalogError>(CatalogError::InvalidQuery)
                && final(catalog).table() == old(catalog).table(),
            query_usable(title, author) ==> exists|drafts: Seq<BookDetails>|
                {
                    &&& drafts_of(hits@, times@, drafts)
                    &&& final(catalog).table() == upsert_all(old(catalog).table(), drafts).0
                    &&& match r {
                        Ok(v) => upsert_all(old(catalog).table(), drafts).1 == Ok::<Seq<BookDetails>, CatalogError>(v@),
                        Err(e) => upsert_all(old(catalog).table(), drafts).1 == Err::<Seq<BookDetails>, CatalogError>(e),
                    }
                },
            final(catalog).book_list() == old(catalog).book_list(),
            final(catalog).next_book() == old(catalog).next_book(),
    {
        match check_filters(title, author) {
            Ok(()) => {},
            Err(e) => return Err(e),
        }
        let drafts = normalize_all(hits, times);
        let r = BookDetails::upsert_batch(catalog, &drafts);
        r
    }

    /// As `search_at`, each hit normalized at the current time.
    pub fn search(catalog: &mut Catalog, title: Option<&str>, author: Option<&str>, hits: &Vec<SearchResult>) -> (r: Result<Vec<BookDetails>, CatalogError>)
        requires
            old(catalog).wf(),
        ensures
            final(catalog).wf(),
            !query_usable(title, author) ==> r == Err::<Vec<BookDetails>, CatalogError>(CatalogError::InvalidQuery)
                && final(catalog).table() == old(catalog).table(),
            query_usable(title, author) ==> exists|times: Seq<i64>, drafts: Seq<BookDetails>|
                {
                    &&& times.len() == hits@.len()
                    &&& drafts_of(hits@, times, drafts)
                    &&& final(catalog).table() == upsert_all(old(catalog).table(), drafts).0
                    &&& match r {
                        Ok(v) => upsert_all(old(catalog).table(), drafts).1 == Ok::<Seq<BookDetails>, CatalogError>(v@),
                        Err(e) => upsert_all(old(catalog).table(), drafts).1 == Err::<Seq<BookDetails>, CatalogError>(e),
                    }
                },
            final(catalog).book_list() == old(catalog).book_list(),
            final(catalog).next_book() == old(catalog).next_book(),
    {
        let mut times: Vec<i64> = Vec::new();
        let mut i: usize = 0;
        while i < hits.len()
            invariant
                i <= hits.len(),
                times.len() == i,
            decreases hits.len() - i,
        {
            times.push(now_micros());
            i = i + 1;
        }
        BookDetails::search_at(catalog, title, author, hits, &times)
    }
}

} // verus!
