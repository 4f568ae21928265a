use vstd::prelude::*;

use crate::details::copy_text;

verus! {

/// A catalog entry created by a user. `id` is `None` until the entry is
/// stored; `book_details_id` is a weak reference to a metadata record and may
/// point to nothing.
#[derive(Clone, Debug)]
pub struct Book {
    pub id: Option<i64>,
    pub title: Option<String>,
    pub author: Option<String>,
    pub book_details_id: Option<i64>,
}

impl Book {
    /// A field-for-field copy.
    pub fn duplicate(&self) -> (r: Book)
        ensures
            r == *self,
    {
        Book {
            id: self.id,
            title: copy_text(&self.title),
            author: copy_text(&self.author),
            book_details_id: self.book_details_id,
        }
    }
}

} // verus!
