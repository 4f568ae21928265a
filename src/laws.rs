use vstd::prelude::*;

use crate::details::{coalesce, BookDetails};
use crate::error::CatalogError;
use crate::store::{key_index, table_wf, upsert_all, upsert_step, RecordTable};

verus! {

/// Where external ids are unique, the record holding `key` is found.
proof fn lemma_key_found(records: Seq<BookDetails>, key: Seq<char>, i: int)
    requires
        0 <= i < records.len(),
        records[i].open_library_id@ == key,
        forall|a: int, b: int|
            0 <= a < records.len() && 0 <= b < records.len() && a != b
                ==> (#[trigger] records[a]).open_library_id@ != (#[trigger] records[b]).open_library_id@,
    ensures
        key_index(records, key) == Some(i),
{
    let c = choose|c: int| 0 <= c < records.len() && records[c].open_library_id@ == key;
    if c != i {
        assert(records[c].open_library_id@ != records[i].open_library_id@);
    }
}

/// One reconciliation keeps the table well formed, and the record it returns
/// is the one the table then holds under the draft's external id: either
/// stamped with the draft's time, or the record that was there, untouched.
proof fn lemma_step(t: RecordTable, d: BookDetails)
    requires
        table_wf(t),
    ensures
        table_wf(upsert_step(t, d).0),
        match upsert_step(t, d).1 {
            Ok(x) => {
                let t1 = upsert_step(t, d).0;
                exists|k: int|
                    {
                        &&& key_index(t1.records, d.open_library_id@) == Some(k)
                        &&& 0 <= k < t1.records.len()
                        &&& t1.records[k] == x
                        &&& (x.last_updated == d.last_updated || (key_index(t.records, d.open_library_id@)
                            == Some(k) && x == t.records[k]))
                    }
            },
            Err(_) => upsert_step(t, d).0 == t && t.next_id == i64::MAX,
        },
{
    let key = d.open_library_id@;
    let (t1, r) = upsert_step(t, d);
    match key_index(t.records, key) {
        Some(i) => {
            let s = t.records[i];
            let m = s.merged_with(d);
            assert(m.id == s.id && m.open_library_id == s.open_library_id);
            assert forall|a: int, b: int|
                0 <= a < t1.records.len() && 0 <= b < t1.records.len() && a != b
                    implies (#[trigger] t1.records[a]).open_library_id@ != (#[trigger] t1.records[b]).open_library_id@ by {
                assert(t.records[a].open_library_id@ != t.records[b].open_library_id@);
            }
            assert forall|a: int, b: int| 0 <= a < b < t1.records.len()
                implies (#[trigger] t1.records[a]).id->0 < (#[trigger] t1.records[b]).id->0 by {
                assert(t.records[a].id->0 < t.records[b].id->0);
            }
            assert forall|a: int| 0 <= a < t1.records.len()
                implies (#[trigger] t1.records[a]).id is Some && 1 <= t1.records[a].id->0 < t1.next_id by {
                assert(t.records[a].id is Some);
            }
            lemma_key_found(t1.records, key, i);
        },
        None => {
            if t.next_id < i64::MAX {
                let x = BookDetails { id: Some(t.next_id as i64), ..d };
                let n = t.records.len() as int;
                assert forall|a: int, b: int|
                    0 <= a < t1.records.len() && 0 <= b < t1.records.len() && a != b
                        implies (#[trigger] t1.records[a]).open_library_id@
                        != (#[trigger] t1.records[b]).open_library_id@ by {
                    if a < n && b < n {
                        assert(t.records[a].open_library_id@ != t.records[b].open_library_id@);
                    } else if a < n {
                        assert(t.records[a].open_library_id@ != key);
                    } else {
                        assert(t.records[b].open_library_id@ != key);
                    }
                }
                assert forall|a: int, b: int| 0 <= a < b < t1.records.len()
                    implies (#[trigger] t1.records[a]).id->0 < (#[trigger] t1.records[b]).id->0 by {
                    if b < n {
                        assert(t.records[a].id->0 < t.records[b].id->0);
                    } else {
                        assert(t.records[a].id->0 < t.next_id);
                    }
                }
                assert forall|a: int| 0 <= a < t1.records.len()
                    implies (#[trigger] t1.records[a]).id is Some && 1 <= t1.records[a].id->0 < t1.next_id by {
                    if a < n {
                        assert(t.records[a].id is Some);
                    }
                }
                assert(t1.records[n] == x);
                lemma_key_found(t1.records, key, n);
            }
        },
    }
}

/// Merging the same draft into a stored record a second time changes
/// nothing.
pub proof fn merge_is_idempotent(stored: BookDetails, d: BookDetails)
    ensures
        stored.merged_with(d).merged_with(d) == stored.merged_with(d),
{
}

/// Reconciling the same draft a second time changes nothing: the table and
/// the returned record are those of the first time.
pub proof fn reconcile_is_idempotent(t: RecordTable, d: BookDetails)
    requires
        table_wf(t),
    ensures
        upsert_step(t, d).1 is Ok ==> upsert_step(upsert_step(t, d).0, d) == upsert_step(t, d),
{
    let (t1, r) = upsert_step(t, d);
    lemma_step(t, d);
    if let Ok(x) = r {
        let k = choose|k: int|
            {
                &&& key_index(t1.records, d.open_library_id@) == Some(k)
                &&& 0 <= k < t1.records.len()
                &&& t1.records[k] == x
                &&& (x.last_updated == d.last_updated || (key_index(t.records, d.open_library_id@)
                    == Some(k) && x == t.records[k]))
            };
        if x.last_updated != d.last_updated {
            let s = t.records[k];
            assert(!s.is_superseded_by(d) || s.merged_with(d).last_updated == d.last_updated);
        }
        assert(x.merged_with(d) == x);
        assert(t1.records.update(k, x) =~= t1.records);
    }
}

/// A draft no newer than the stored record with its external id changes
/// nothing, whatever fields it carries, and the stored record is returned.
pub proof fn older_draft_changes_nothing(t: RecordTable, d: BookDetails, i: int)
    requires
        table_wf(t),
        0 <= i < t.records.len(),
        t.records[i].open_library_id@ == d.open_library_id@,
        d.last_updated <= t.records[i].last_updated,
    ensures
        upsert_step(t, d) == (t, Ok::<BookDetails, CatalogError>(t.records[i])),
{
    lemma_key_found(t.records, d.open_library_id@, i);
    assert(t.records.update(i, t.records[i]) =~= t.records);
}

/// A strictly newer draft that carries a field overwrites exactly the fields
/// it sets; the others keep their stored values, and the record takes the
/// draft's timestamp.
pub proof fn newer_draft_coalesces(t: RecordTable, d: BookDetails, i: int)
    requires
        table_wf(t),
        0 <= i < t.records.len(),
        t.records[i].open_library_id@ == d.open_library_id@,
        d.last_updated > t.records[i].last_updated,
        d.has_some_field(),
    ensures
        ({
            let s = t.records[i];
            upsert_step(t, d).1 matches Ok(r) && {
                &&& r.id == s.id
                &&& r.open_library_id == s.open_library_id
                &&& r.isbn == coalesce(d.isbn, s.isbn)
                &&& r.title == coalesce(d.title, s.title)
                &&& r.author == coalesce(d.author, s.author)
                &&& r.author_key == coalesce(d.author_key, s.author_key)
                &&& r.publish_year == coalesce(d.publish_year, s.publish_year)
                &&& r.page_count == coalesce(d.page_count, s.page_count)
                &&& r.last_updated == d.last_updated
                &&& upsert_step(t, d).0.records[i] == r
            }
        }),
{
    lemma_key_found(t.records, d.open_library_id@, i);
}

/// In a batch, a later draft for the same external id that is newer than the
/// earlier one, and than any stored record with that id, decides the title.
pub proof fn later_newer_draft_wins(t: RecordTable, d1: BookDetails, d2: BookDetails)
    requires
        table_wf(t),
        d1.open_library_id@ == d2.open_library_id@,
        d1.last_updated < d2.last_updated,
        d2.title is Some,
        forall|i: int|
            0 <= i < t.records.len() && (#[trigger] t.records[i]).open_library_id@ == d2.open_library_id@
                ==> t.records[i].last_updated < d2.last_updated,
    ensures
        ({
            let (t2, r) = upsert_all(t, seq![d1, d2]);
            match r {
                Ok(rs) => {
                    &&& rs.len() == 2
                    &&& rs[1].title == d2.title
                    &&& key_index(t2.records, d2.open_library_id@) matches Some(k) && 0 <= k
                        < t2.records.len() && t2.records[k] == rs[1]
                },
                Err(_) => t.next_id == i64::MAX,
            }
        }),
{
    let ds = seq![d1, d2];
    assert(ds.drop_last() =~= seq![d1]);
    assert(seq![d1].drop_last() =~= Seq::<BookDetails>::empty());
    let (t1, r1) = upsert_step(t, d1);
    lemma_step(t, d1);
    assert(upsert_all(t, Seq::<BookDetails>::empty()) == (t, Ok::<Seq<BookDetails>, CatalogError>(Seq::empty())));
    assert(seq![d1].last() == d1);
    assert(ds.last() == d2);
    if let Ok(x1) = r1 {
        assert(upsert_all(t, seq![d1]) == (t1, Ok::<Seq<BookDetails>, CatalogError>(seq![x1])));
        let k = choose|k: int|
            {
                &&& key_index(t1.records, d1.open_library_id@) == Some(k)
                &&& 0 <= k < t1.records.len()
                &&& t1.records[k] == x1
                &&& (x1.last_updated == d1.last_updated || (key_index(t.records, d1.open_library_id@)
                    == Some(k) && x1 == t.records[k]))
            };
        if x1.last_updated != d1.last_updated {
            assert(t.records[k].open_library_id@ == d2.open_library_id@);
        }
        assert(x1.last_updated < d2.last_updated);
        assert(x1.is_superseded_by(d2));
        let (t2, r2) = upsert_step(t1, d2);
        lemma_step(t1, d2);
        assert(key_index(t1.records, d2.open_library_id@) == Some(k));
        let x2 = x1.merged_with(d2);
        assert(r2 == Ok::<BookDetails, CatalogError>(x2));
        assert(t2.records[k] == x2);
        assert(upsert_all(t, ds) == (t2, Ok::<Seq<BookDetails>, CatalogError>(seq![x1].push(x2))));
        assert(seq![x1].push(x2)[1] == x2);
        assert(x2.title == d2.title);
        assert(t2.records[k].open_library_id@ == d2.open_library_id@);
        lemma_key_found(t2.records, d2.open_library_id@, k);
        assert(key_index(t2.records, d2.open_library_id@) == Some(k) && 0 <= k < t2.records.len()
            && t2.records[k] == seq![x1].push(x2)[1]);
    } else {
        assert(t1 == t);
        assert(upsert_all(t, seq![d1]).1 is Err);
        assert(upsert_all(t, ds).1 is Err);
        assert(t.next_id == i64::MAX);
    }
}

} // verus!
