//! Lists of numbers under integer keys, in the order in which the keys came in.
//!
//! The map itself is `indexmap::IndexMap`. Its contents are a sequence of keys with their lists;
//! the functions that call it say how they change that sequence.

use vstd::prelude::*;
use indexmap::IndexMap;

verus! {

#[verifier::external_type_specification]
#[verifier::external_body]
#[verifier::reject_recursive_types(K)]
#[verifier::reject_recursive_types(V)]
#[verifier::reject_recursive_types(S)]
pub struct ExIndexMap<K, V, S>(IndexMap<K, V, S>);

/// What a map holds, in its order.
pub uninterp spec fn entries_of(m: IndexMap<i32, Vec<usize>>) -> Seq<(i32, Seq<usize>)>;

/// The place of a key.
pub open spec fn place_of(entries: Seq<(i32, Seq<usize>)>, key: i32) -> Option<int>
    decreases entries.len(),
{
    if entries.len() == 0 {
        None
    } else if entries[0].0 == key {
        Some(0)
    } else {
        match place_of(entries.skip(1), key) {
            Some(i) => Some(i + 1),
            None => None,
        }
    }
}

/// The list under a key.
pub open spec fn values_under(entries: Seq<(i32, Seq<usize>)>, key: i32) -> Option<Seq<usize>> {
    match place_of(entries, key) {
        Some(i) => Some(entries[i].1),
        None => None,
    }
}

/// The contents once a key is there; a new one comes last, with an empty list.
pub open spec fn with_key(entries: Seq<(i32, Seq<usize>)>, key: i32) -> Seq<(i32, Seq<usize>)> {
    match place_of(entries, key) {
        Some(_) => entries,
        None => entries.push((key, Seq::empty())),
    }
}

/// The contents with one more number under a key; a new key comes last.
pub open spec fn with_value(
    entries: Seq<(i32, Seq<usize>)>,
    key: i32,
    value: usize,
) -> Seq<(i32, Seq<usize>)> {
    match place_of(entries, key) {
        Some(i) => entries.update(i, (key, entries[i].1.push(value))),
        None => entries.push((key, seq![value])),
    }
}

/// The contents without a key; the order of the others stays.
pub open spec fn without_key(entries: Seq<(i32, Seq<usize>)>, key: i32) -> Seq<
    (i32, Seq<usize>),
> {
    match place_of(entries, key) {
        Some(i) => entries.remove(i),
        None => entries,
    }
}

/// `IndexMap::new`: the map is empty.
#[verifier::external_body]
pub(crate) fn new_map() -> (r: IndexMap<i32, Vec<usize>>)
    ensures
        entries_of(r) == Seq::<(i32, Seq<usize>)>::empty(),
{
    IndexMap::new()
}

/// `IndexMap::len`: how many keys there are.
#[verifier::external_body]
pub(crate) fn map_len(m: &IndexMap<i32, Vec<usize>>) -> (r: usize)
    ensures
        r == entries_of(*m).len(),
{
    m.len()
}

/// `IndexMap::get_index`: the key and the list at a place.
#[verifier::external_body]
pub(crate) fn entry_at(m: &IndexMap<i32, Vec<usize>>, i: usize) -> (r: (i32, &Vec<usize>))
    requires
        i < entries_of(*m).len(),
    ensures
        r.0 == entries_of(*m)[i as int].0,
        r.1@ == entries_of(*m)[i as int].1,
{
    let (key, values) = m.get_index(i).unwrap();
    (*key, values)
}

/// `IndexMap::get`: the list under a key, where the key is there.
#[verifier::external_body]
pub(crate) fn list_under(m: &IndexMap<i32, Vec<usize>>, key: i32) -> (r: Option<&Vec<usize>>)
    ensures
        match r {
            Some(v) => values_under(entries_of(*m), key) == Some(v@),
            None => values_under(entries_of(*m), key) is None,
        },
{
    m.get(&key)
}

/// The contents with a list under a key; a new key comes last.
pub open spec fn with_list(
    entries: Seq<(i32, Seq<usize>)>,
    key: i32,
    list: Seq<usize>,
) -> Seq<(i32, Seq<usize>)> {
    match place_of(entries, key) {
        Some(i) => entries.update(i, (key, list)),
        None => entries.push((key, list)),
    }
}

/// `IndexMap::entry` with `Entry::or_default`: the list under a key, to be changed. A key that was
/// not there comes last, with an empty list.
#[verifier::external_body]
pub(crate) fn list_entry(m: &mut IndexMap<i32, Vec<usize>>, key: i32) -> (r: &mut Vec<usize>)
    ensures
        match values_under(entries_of(*old(m)), key) {
            Some(list) => r@ == list,
            None => r@.len() == 0,
        },
        entries_of(*final(m)) == with_list(entries_of(*old(m)), key, final(r)@),
{
    m.entry(key).or_default()
}

/// Puts a number behind the others of a key.
pub(crate) fn push_value(m: &mut IndexMap<i32, Vec<usize>>, key: i32, value: usize)
    ensures
        entries_of(*final(m)) == with_value(entries_of(*old(m)), key, value),
{
    let ghost before = entries_of(*old(m));
    let list = list_entry(m, key);
    let ghost held = list@;
    list.push(value);
    proof {
        assert(place_of(before, key) is None ==> held.push(value) =~= seq![value]);
    }
}

/// Puts a key in.
pub(crate) fn put_key(m: &mut IndexMap<i32, Vec<usize>>, key: i32)
    ensures
        entries_of(*final(m)) == with_key(entries_of(*old(m)), key),
{
    let ghost before = entries_of(*old(m));
    proof {
        lemma_place(before, key);
    }
    let list = list_entry(m, key);
    proof {
        assert(place_of(before, key) is None ==> list@ =~= Seq::empty());
        assert(with_list(before, key, list@) =~= with_key(before, key));
    }
}

/// `IndexMap::get_index_mut`: the list at a place, to be changed.
#[verifier::external_body]
pub(crate) fn list_at(m: &mut IndexMap<i32, Vec<usize>>, i: usize) -> (r: &mut Vec<usize>)
    requires
        i < entries_of(*old(m)).len(),
    ensures
        r@ == entries_of(*old(m))[i as int].1,
        entries_of(*final(m)) == entries_of(*old(m)).update(
            i as int,
            (entries_of(*old(m))[i as int].0, final(r)@),
        ),
{
    m.get_index_mut(i).unwrap().1
}

/// Replaces the list at a place.
pub(crate) fn set_list_at(m: &mut IndexMap<i32, Vec<usize>>, i: usize, values: Vec<usize>)
    requires
        i < entries_of(*old(m)).len(),
    ensures
        entries_of(*final(m)) == entries_of(*old(m)).update(
            i as int,
            (entries_of(*old(m))[i as int].0, values@),
        ),
{
    let list = list_at(m, i);
    *list = values;
}

/// `IndexMap::shift_remove`: the key and its list are gone, the others keep their order.
#[verifier::external_body]
pub(crate) fn remove_entry(m: &mut IndexMap<i32, Vec<usize>>, key: i32)
    ensures
        entries_of(*final(m)) == without_key(entries_of(*old(m)), key),
{
    m.shift_remove(&key);
}

/// Whether an entry is kept: its key is the given one, or its list holds something.
pub open spec fn is_kept(entry: (i32, Seq<usize>), key: i32) -> bool {
    entry.0 == key || entry.1.len() > 0
}

pub(crate) fn check_kept(k: i32, values: &Vec<usize>, key: i32) -> (r: bool)
    ensures
        r == is_kept((k, values@), key),
{
    k == key || values.len() > 0
}

/// The contents without the empty lists under other keys than the given one.
pub open spec fn kept(entries: Seq<(i32, Seq<usize>)>, key: i32) -> Seq<(i32, Seq<usize>)>
    decreases entries.len(),
{
    if entries.len() == 0 {
        Seq::empty()
    } else {
        let before = kept(entries.drop_last(), key);
        if is_kept(entries.last(), key) {
            before.push(entries.last())
        } else {
            before
        }
    }
}

/// `IndexMap::retain`: the entries that `check_kept` accepts stay, in their order.
#[verifier::external_body]
pub(crate) fn keep_filled(m: &mut IndexMap<i32, Vec<usize>>, key: i32)
    ensures
        entries_of(*final(m)) == kept(entries_of(*old(m)), key),
{
    m.retain(|k, values| check_kept(*k, values, key));
}

/// A key is at its place, and before it is another.
pub proof fn lemma_place(entries: Seq<(i32, Seq<usize>)>, key: i32)
    ensures
        match place_of(entries, key) {
            Some(i) => 0 <= i < entries.len() && entries[i].0 == key && forall|k: int|
                0 <= k < i ==> (#[trigger] entries[k]).0 != key,
            None => forall|k: int| 0 <= k < entries.len() ==> (#[trigger] entries[k]).0 != key,
        },
    decreases entries.len(),
{
    if entries.len() > 0 && entries[0].0 != key {
        let rest = entries.skip(1);
        lemma_place(rest, key);
        assert forall|k: int| 1 <= k < entries.len() implies (#[trigger] entries[k]) == rest[k
            - 1] by {}
    }
}

} // verus!
