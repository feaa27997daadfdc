//! Derived id collections kept beside the primary records: per-owner id
//! lists, the global creation-ordered id list, and paging over them.
use vstd::prelude::*;
use crate::common::{bytes_eq, copy_bytes};

verus! {

/// The byte-string contents of a list of ids.
pub open spec fn ids_view(s: Seq<Vec<u8>>) -> Seq<Seq<u8>> {
    s.map_values(|v: Vec<u8>| v@)
}

/// The part of `s` that a page starting at `skip` and holding at most
/// `limit` items covers: empty once `skip` reaches the end.
pub open spec fn page<T>(s: Seq<T>, skip: int, limit: int) -> Seq<T> {
    if skip >= s.len() {
        Seq::empty()
    } else if skip + limit > s.len() {
        s.subrange(skip, s.len() as int)
    } else {
        s.subrange(skip, skip + limit)
    }
}

/// A page holds `min(limit, len - skip)` items when `skip` is inside the
/// sequence, and none otherwise.
pub proof fn lemma_page_len<T>(s: Seq<T>, skip: int, limit: int)
    requires
        skip >= 0,
        limit >= 0,
    ensures
        skip < s.len() ==> page(s, skip, limit).len() == if limit < s.len() - skip {
            limit
        } else {
            s.len() - skip
        },
        skip >= s.len() ==> page(s, skip, limit).len() == 0,
{
}

/// Position of the first id equal to `id`, if any.
pub fn find_id(list: &Vec<Vec<u8>>, id: &Vec<u8>) -> (r: Option<usize>)
    ensures
        match r {
            Some(i) => {
                &&& i < list@.len()
                &&& list@[i as int]@ == id@
                &&& forall|j: int| 0 <= j < i ==> list@[j]@ != id@
            },
            None => !ids_view(list@).contains(id@),
        },
{
    let mut i: usize = 0;
    while i < list.len()
        invariant
            0 <= i <= list@.len(),
            forall|j: int| 0 <= j < i ==> list@[j]@ != id@,
        decreases list@.len() - i,
    {
        if bytes_eq(&list[i], id) {
            return Some(i);
        }
        i = i + 1;
    }
    proof {
        if ids_view(list@).contains(id@) {
            let k = choose|k: int| 0 <= k < ids_view(list@).len() && ids_view(list@)[k] == id@;
            assert(list@[k]@ == id@);
        }
    }
    None
}

/// Adds `id` at the end of the list unless it is already there.
pub fn add_id(list: &mut Vec<Vec<u8>>, id: &Vec<u8>)
    ensures
        ids_view(old(list)@).contains(id@) ==> final(list)@ == old(list)@,
        !ids_view(old(list)@).contains(id@) ==> ids_view(final(list)@) == ids_view(
            old(list)@,
        ).push(id@),
{
    match find_id(list, id) {
        Some(i) => {
            assert(ids_view(old(list)@)[i as int] == id@);
        },
        None => {
            list.push(copy_bytes(id));
            assert(ids_view(list@) =~= ids_view(old(list)@).push(id@));
        },
    }
}

/// Removes the first occurrence of `id`, if there is one.
pub fn remove_id(list: &mut Vec<Vec<u8>>, id: &Vec<u8>)
    ensures
        !ids_view(old(list)@).contains(id@) ==> final(list)@ == old(list)@,
        ids_view(old(list)@).contains(id@) ==> exists|i: int|
            {
                &&& 0 <= i < old(list)@.len()
                &&& old(list)@[i]@ == id@
                &&& forall|j: int| 0 <= j < i ==> old(list)@[j]@ != id@
                &&& final(list)@ == old(list)@.remove(i)
            },
{
    match find_id(list, id) {
        Some(i) => {
            assert(ids_view(old(list)@)[i as int] == id@);
            list.remove(i);
        },
        None => {},
    }
}

/// The ids on one page of `set`.
pub fn paginate_ids(set: &Vec<Vec<u8>>, skip: u32, limit: u32) -> (r: Vec<Vec<u8>>)
    ensures
        ids_view(r@) == page(ids_view(set@), skip as int, limit as int),
{
    let mut r: Vec<Vec<u8>> = Vec::new();
    let len = set.len();
    if (skip as usize) < len {
        let end: usize = if (skip as u64) + (limit as u64) > len as u64 {
            len
        } else {
            skip as usize + limit as usize
        };
        let mut i: usize = skip as usize;
        while i < end
            invariant
                skip <= i <= end <= len == set@.len(),
                ids_view(r@) == ids_view(set@).subrange(skip as int, i as int),
            decreases end - i,
        {
            let c = copy_bytes(&set[i]);
            let ghost before = r@;
            r.push(c);
            assert(ids_view(r@) =~= ids_view(before).push(c@));
            assert(ids_view(r@) =~= ids_view(set@).subrange(skip as int, i + 1));
            i = i + 1;
        }
    }
    assert(ids_view(r@) =~= page(ids_view(set@), skip as int, limit as int));
    r
}

} // verus!
