use vstd::prelude::*;

use crate::clock::now_micros;
use crate::error::CatalogError;
use crate::openlibrary::SearchResult;
use crate::text::{external_id, external_id_of, first_entry, first_isbn13, first_of, select_isbn13};

verus! {

/// Canonical bibliographic facts about one work.
///
/// `id` is `None` for a draft and `Some` once the store has taken the record.
/// `last_updated` counts microseconds since the Unix epoch, in UTC.
#[derive(Clone, Debug)]
pub struct BookDetails {
    pub id: Option<i64>,
    pub open_library_id: String,
    pub isbn: Option<String>,
    pub title: Option<String>,
    pub author: Option<String>,
    pub author_key: Option<String>,
    pub publish_year: Option<i64>,
    pub page_count: Option<i64>,
    pub last_updated: i64,
}

/// The incoming value where it is set, else the kept one.
pub open spec fn coalesce<T>(incoming: Option<T>, kept: Option<T>) -> Option<T> {
    match incoming {
        Some(v) => Some(v),
        None => kept,
    }
}

/// A number of the search result, widened.
pub open spec fn widened(n: Option<i32>) -> Option<i64> {
    match n {
        Some(v) => Some(v as i64),
        None => None,
    }
}

/// The ISBN-13 that a hit offers, if any.
pub open spec fn isbn_of(candidates: Option<Vec<String>>) -> Option<String> {
    match candidates {
        Some(v) => first_isbn13(v@),
        None => None,
    }
}

/// What a merge into the store does with a draft.
#[derive(Debug)]
pub enum MergeOutcome {
    /// No record has the draft's external id: the draft goes in as a new record.
    Insert(BookDetails),
    /// The stored record is replaced by this merged record.
    Update(BookDetails),
    /// The stored record stays as it is.
    Keep(BookDetails),
}

impl MergeOutcome {
    /// The record that the store holds after the merge.
    pub open spec fn record(self) -> BookDetails {
        match self {
            MergeOutcome::Insert(r) => r,
            MergeOutcome::Update(r) => r,
            MergeOutcome::Keep(r) => r,
        }
    }
}

pub(crate) fn copy_text(o: &Option<String>) -> (r: Option<String>)
    ensures
        r == *o,
{
    match o {
        Some(s) => Some(s.clone()),
        None => None,
    }
}

/// How many times a write is tried when a unique-key insert loses a race:
/// once, and once more as an update, since the row then exists.
pub const WRITE_ATTEMPTS: u32 = 2;

/// Decides after a lost unique-key race, `attempts` writes made so far:
/// try again while attempts remain, else report `ConstraintViolation`.
pub fn after_conflict(attempts: u32) -> (r: Result<(), CatalogError>)
    ensures
        r is Ok <==> attempts < WRITE_ATTEMPTS,
        r matches Err(e) ==> e == CatalogError::ConstraintViolation,
{
    if attempts < WRITE_ATTEMPTS {
        Ok(())
    } else {
        Err(CatalogError::ConstraintViolation)
    }
}

impl BookDetails {
    /// At least one of the optional fields is set.
    pub open spec fn has_some_field(self) -> bool {
        ||| self.isbn is Some
        ||| self.title is Some
        ||| self.author is Some
        ||| self.author_key is Some
        ||| self.publish_year is Some
        ||| self.page_count is Some
    }

    /// A merge of `draft` into `self` overwrites something: the draft is
    /// strictly newer and carries at least one field.
    pub open spec fn is_superseded_by(self, draft: BookDetails) -> bool {
        draft.last_updated > self.last_updated && draft.has_some_field()
    }

    /// The stored record `self` after a merge of `draft`: each field the draft
    /// sets replaces the stored one, the others are kept, and the timestamp
    /// becomes the draft's; or, where the draft supersedes nothing, `self`.
    pub open spec fn merged_with(self, draft: BookDetails) -> BookDetails {
        if self.is_superseded_by(draft) {
            BookDetails {
                id: self.id,
                open_library_id: self.open_library_id,
                isbn: coalesce(draft.isbn, self.isbn),
                title: coalesce(draft.title, self.title),
                author: coalesce(draft.author, self.author),
                author_key: coalesce(draft.author_key, self.author_key),
                publish_year: coalesce(draft.publish_year, self.publish_year),
                page_count: coalesce(draft.page_count, self.page_count),
                last_updated: draft.last_updated,
            }
        } else {
            self
        }
    }

    /// `self` is the draft that normalizing `hit` at time `now` gives.
    pub open spec fn is_draft_of(self, hit: SearchResult, now: i64) -> bool {
        &&& self.id is None
        &&& external_id_of(hit.key@) == Some(self.open_library_id@)
        &&& self.isbn == isbn_of(hit.isbn)
        &&& self.title == Some(hit.title)
        &&& self.author == first_entry(hit.author_name)
        &&& self.author_key == first_entry(hit.author_key)
        &&& self.publish_year == widened(hit.first_publish_year)
        &&& self.page_count == widened(hit.number_of_pages_median)
        &&& self.last_updated == now
    }

    /// Turns one search hit into a draft stamped `now`. Fails with
    /// `MalformedExternalKey` exactly when the hit's key holds no `/`.
    pub fn normalize(hit: &SearchResult, now: i64) -> (r: Result<BookDetails, CatalogError>)
        ensures
            r is Ok <==> external_id_of(hit.key@) is Some,
            match r {
                Ok(d) => d.is_draft_of(*hit, now),
                Err(e) => e == CatalogError::MalformedExternalKey,
            },
    {
        let open_library_id = match external_id(hit.key.as_str()) {
            Some(id) => id,
            None => return Err(CatalogError::MalformedExternalKey),
        };
        let isbn = match &hit.isbn {
            Some(candidates) => select_isbn13(candidates),
            None => None,
        };
        let publish_year: Option<i64> = match hit.first_publish_year {
            Some(y) => Some(y as i64),
            None => None,
        };
        let page_count: Option<i64> = match hit.number_of_pages_median {
            Some(p) => Some(p as i64),
            None => None,
        };
        Ok(BookDetails {
            id: None,
            open_library_id,
            isbn,
            title: Some(hit.title.clone()),
            author: first_of(&hit.author_name),
            author_key: first_of(&hit.author_key),
            publish_year,
            page_count,
            last_updated: now,
        })
    }

    /// Turns one search hit into a draft stamped with the current time.
    pub fn from_search_result(hit: &SearchResult) -> (r: Result<BookDetails, CatalogError>)
        ensures
            r is Ok <==> external_id_of(hit.key@) is Some,
            match r {
                Ok(d) => d.is_draft_of(*hit, d.last_updated) && d.last_updated >= 0,
                Err(e) => e == CatalogError::MalformedExternalKey,
            },
    {
        let now = now_micros();
        BookDetails::normalize(hit, now)
    }

    /// A field-for-field copy.
    pub fn duplicate(&self) -> (r: BookDetails)
        ensures
            r == *self,
    {
        BookDetails {
            id: self.id,
            open_library_id: self.open_library_id.clone(),
            isbn: copy_text(&self.isbn),
            title: copy_text(&self.title),
            author: copy_text(&self.author),
            author_key: copy_text(&self.author_key),
            publish_year: self.publish_year,
            page_count: self.page_count,
            last_updated: self.last_updated,
        }
    }

    pub fn has_any_field(&self) -> (r: bool)
        ensures
            r == self.has_some_field(),
    {
        self.isbn.is_some() || self.title.is_some() || self.author.is_some()
            || self.author_key.is_some() || self.publish_year.is_some()
            || self.page_count.is_some()
    }

    /// Merges `draft` into the stored record `self` (see `merged_with`).
    pub fn merge(&self, draft: &BookDetails) -> (r: BookDetails)
        ensures
            r == self.merged_with(*draft),
    {
        if draft.last_updated > self.last_updated && draft.has_any_field() {
            BookDetails {
                id: self.id,
                open_library_id: self.open_library_id.clone(),
                isbn: if draft.isbn.is_some() { copy_text(&draft.isbn) } else { copy_text(&self.isbn) },
                title: if draft.title.is_some() { copy_text(&draft.title) } else { copy_text(&self.title) },
                author: if draft.author.is_some() { copy_text(&draft.author) } else { copy_text(&self.author) },
                author_key: if draft.author_key.is_some() {
                    copy_text(&draft.author_key)
                } else {
                    copy_text(&self.author_key)
                },
                publish_year: if draft.publish_year.is_some() { draft.publish_year } else { self.publish_year },
                page_count: if draft.page_count.is_some() { draft.page_count } else { self.page_count },
                last_updated: draft.last_updated,
            }
        } else {
            self.duplicate()
        }
    }

    /// Decides how `draft` enters a store whose record with the same external
    /// id is `stored`, if there is one.
    pub fn plan_upsert(stored: Option<&BookDetails>, draft: &BookDetails) -> (r: MergeOutcome)
        ensures
            match stored {
                None => r == MergeOutcome::Insert(BookDetails { id: None, ..*draft }),
                Some(s) => if s.is_superseded_by(*draft) {
                    r == MergeOutcome::Update(s.merged_with(*draft))
                } else {
                    r == MergeOutcome::Keep(*s)
                },
            },
    {
        match stored {
            None => {
                let mut d = draft.duplicate();
                d.id = None;
                MergeOutcome::Insert(d)
            },
            Some(s) => {
                if draft.last_updated > s.last_updated && draft.has_any_field() {
                    MergeOutcome::Update(s.merge(draft))
                } else {
                    MergeOutcome::Keep(s.duplicate())
                }
            },
        }
    }
}

} // verus!
