use vstd::prelude::*;
use indexmap::IndexMap;

verus! {

/// Declares indexmap's insertion-ordered map so that it can stand in
/// signatures and fields; its contents are only reached through the wrappers
/// below.
#[verifier::external_type_specification]
#[verifier::external_body]
#[verifier::reject_recursive_types(K)]
#[verifier::reject_recursive_types(V)]
#[verifier::reject_recursive_types(S)]
pub struct ExIndexMap<K, V, S>(IndexMap<K, V, S>);

/// The entries of an insertion-ordered string map, as (key, value) pairs in
/// the map's own order.
pub uninterp spec fn im_entries(m: IndexMap<String, String>) -> Seq<(Seq<char>, Seq<char>)>;

/// Index of the first entry with key `k`, or -1.
pub open spec fn find_key(s: Seq<(Seq<char>, Seq<char>)>, k: Seq<char>) -> int
    decreases s.len(),
{
    if s.len() == 0 {
        -1
    } else if s[0].0 == k {
        0
    } else if find_key(s.drop_first(), k) == -1 {
        -1
    } else {
        1 + find_key(s.drop_first(), k)
    }
}

pub open spec fn has_key(s: Seq<(Seq<char>, Seq<char>)>, k: Seq<char>) -> bool {
    find_key(s, k) != -1
}

/// The entries after removing index `i` by swapping it with the last entry.
pub open spec fn swap_removed(s: Seq<(Seq<char>, Seq<char>)>, i: int) -> Seq<(Seq<char>, Seq<char>)> {
    s.update(i, s[s.len() - 1]).drop_last()
}

/// The entries after an insert: an existing key keeps its position and takes
/// the new value; a new key is appended last.
pub open spec fn inserted(
    s: Seq<(Seq<char>, Seq<char>)>,
    k: Seq<char>,
    v: Seq<char>,
) -> Seq<(Seq<char>, Seq<char>)> {
    if has_key(s, k) {
        s.update(find_key(s, k), (k, v))
    } else {
        s.push((k, v))
    }
}

/// No two entries share a key.
pub open spec fn distinct_keys(s: Seq<(Seq<char>, Seq<char>)>) -> bool {
    forall|i: int, j: int| 0 <= i < j < s.len() ==> s[i].0 != s[j].0
}

/// Relies on IndexMap::new: makes an empty map.
#[verifier::external_body]
pub fn im_new() -> (r: IndexMap<String, String>)
    ensures
        im_entries(r) == Seq::<(Seq<char>, Seq<char>)>::empty(),
{
    IndexMap::new()
}

/// Relies on IndexMap::insert: if an equivalent key already exists it keeps
/// its place in the order and its value is replaced, the older value coming
/// back; otherwise the pair goes in last and `None` comes back.
#[verifier::external_body]
pub fn im_insert(m: &mut IndexMap<String, String>, k: String, v: String) -> (r: Option<String>)
    ensures
        im_entries(*final(m)) == inserted(im_entries(*old(m)), k@, v@),
        has_key(im_entries(*old(m)), k@) ==> (r matches Some(s) && s@ == im_entries(
            *old(m),
        )[find_key(im_entries(*old(m)), k@)].1),
        !has_key(im_entries(*old(m)), k@) ==> r is None,
{
    m.insert(k, v)
}

/// Relies on IndexMap::swap_remove: the entry leaves by swapping places with
/// the last entry, which is then popped off; its value comes back.
#[verifier::external_body]
pub fn im_swap_remove(m: &mut IndexMap<String, String>, k: &str) -> (r: Option<String>)
    ensures
        has_key(im_entries(*old(m)), k@) ==> im_entries(*final(m)) == swap_removed(
            im_entries(*old(m)),
            find_key(im_entries(*old(m)), k@),
        ),
        has_key(im_entries(*old(m)), k@) ==> (r matches Some(s) && s@ == im_entries(
            *old(m),
        )[find_key(im_entries(*old(m)), k@)].1),
        !has_key(im_entries(*old(m)), k@) ==> im_entries(*final(m)) == im_entries(*old(m)) && r
            is None,
{
    m.swap_remove(k)
}

/// Relies on IndexMap::len: the number of entries.
#[verifier::external_body]
pub fn im_len(m: &IndexMap<String, String>) -> (r: usize)
    ensures
        r == im_entries(*m).len(),
{
    m.len()
}

/// Relies on IndexMap::iter: the entries in the map's own order. Each pair is
/// cloned into plain strings.
#[verifier::external_body]
pub fn im_pairs(m: &IndexMap<String, String>) -> (r: Vec<(String, String)>)
    ensures
        r@.len() == im_entries(*m).len(),
        forall|i: int|
            0 <= i < r@.len() ==> r@[i].0@ == im_entries(*m)[i].0 && r@[i].1@ == im_entries(
                *m,
            )[i].1,
{
    m.iter().map(|(k, v)| (k.clone(), v.clone())).collect()
}

} // verus!
