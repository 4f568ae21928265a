use vstd::prelude::*;
use vstd::string::StrSliceExecFns;

verus! {

/// `i` is the position of the last `/` in `key`.
pub open spec fn is_last_slash(key: Seq<char>, i: int) -> bool {
    &&& 0 <= i < key.len()
    &&& key[i] == '/'
    &&& forall|j: int| i < j < key.len() ==> key[j] != '/'
}

/// The part of an external key after its last `/`, or `None` where the key
/// holds no `/`.
pub open spec fn external_id_of(key: Seq<char>) -> Option<Seq<char>> {
    if exists|i: int| is_last_slash(key, i) {
        let i = choose|i: int| is_last_slash(key, i);
        Some(key.subrange(i + 1, key.len() as int))
    } else {
        None
    }
}

/// The first candidate of exactly thirteen characters, if any.
pub open spec fn first_isbn13(candidates: Seq<String>) -> Option<String>
    decreases candidates.len(),
{
    if candidates.len() == 0 {
        None
    } else if candidates[0]@.len() == 13 {
        Some(candidates[0])
    } else {
        first_isbn13(candidates.drop_first())
    }
}

/// The first entry of an optional list, if there is one.
pub open spec fn first_entry(list: Option<Vec<String>>) -> Option<String> {
    match list {
        Some(v) => if v@.len() > 0 {
            Some(v@[0])
        } else {
            None
        },
        None => None,
    }
}

/// Takes the external id out of a key of the form `<namespace>/<id>`: the
/// text after the last `/`.
pub fn external_id(key: &str) -> (r: Option<String>)
    ensures
        match r {
            Some(id) => external_id_of(key@) == Some(id@),
            None => external_id_of(key@) is None,
        },
{
    let n = key.unicode_len();
    let mut i: usize = n;
    while i > 0
        invariant
            i <= n,
            n == key@.len(),
            forall|j: int| i <= j < n ==> key@[j] != '/',
        decreases i,
    {
        if key.get_char(i - 1) == '/' {
            let tail = key.substring_char(i, n);
            proof {
                let k = i - 1;
                assert(is_last_slash(key@, k));
                let c = choose|c: int| is_last_slash(key@, c);
                assert(c == k) by {
                    if c < k {
                        assert(key@[k] != '/');
                    } else if c > k {
                        assert(key@[c] != '/');
                    }
                }
            }
            return Some(tail.to_owned());
        }
        i = i - 1;
    }
    proof {
        assert(!exists|c: int| is_last_slash(key@, c));
    }
    None
}

/// Picks the first candidate of exactly thirteen characters (an ISBN-13);
/// shorter or longer ones, ISBN-10s among them, are passed over.
pub fn select_isbn13(candidates: &Vec<String>) -> (r: Option<String>)
    ensures
        r == first_isbn13(candidates@),
{
    let mut i: usize = 0;
    assert(candidates@.subrange(0, candidates@.len() as int) =~= candidates@);
    while i < candidates.len()
        invariant
            i <= candidates@.len(),
            first_isbn13(candidates@) == first_isbn13(candidates@.subrange(i as int, candidates@.len() as int)),
        decreases candidates.len() - i,
    {
        let rest = Ghost(candidates@.subrange(i as int, candidates@.len() as int));
        assert(rest@[0] == candidates@[i as int]);
        if candidates[i].as_str().unicode_len() == 13 {
            return Some(candidates[i].clone());
        }
        assert(rest@.drop_first() =~= candidates@.subrange(i + 1, candidates@.len() as int));
        i = i + 1;
    }
    assert(candidates@.subrange(i as int, candidates@.len() as int).len() == 0);
    None
}

/// The first entry of an optional list, if there is one.
pub fn first_of(list: &Option<Vec<String>>) -> (r: Option<String>)
    ensures
        r == first_entry(*list),
{
    match list {
        Some(v) => if v.len() > 0 {
            Some(v[0].clone())
        } else {
            None
        },
        None => None,
    }
}

} // verus!
