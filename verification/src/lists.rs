//! Searching lists of identifiers, zones and texts.

use vstd::prelude::*;
use crate::text::{eq_ignore_case, same_ignoring_case, text_eq};
use crate::types::{CardId, PlayerId, ZoneType};

verus! {

pub fn has_card(v: &Vec<CardId>, id: CardId) -> (r: bool)
    ensures
        r == v@.contains(id),
{
    let mut i: usize = 0;
    while i < v.len()
        invariant
            i <= v@.len(),
            forall|k: int| 0 <= k < i ==> v@[k] != id,
        decreases v@.len() - i,
    {
        if v[i] == id {
            assert(v@[i as int] == id);
            return true;
        }
        i = i + 1;
    }
    false
}

pub fn has_player(v: &Vec<PlayerId>, id: PlayerId) -> (r: bool)
    ensures
        r == v@.contains(id),
{
    let mut i: usize = 0;
    while i < v.len()
        invariant
            i <= v@.len(),
            forall|k: int| 0 <= k < i ==> v@[k] != id,
        decreases v@.len() - i,
    {
        if v[i] == id {
            assert(v@[i as int] == id);
            return true;
        }
        i = i + 1;
    }
    false
}

pub fn has_zone(v: &Vec<ZoneType>, zone: ZoneType) -> (r: bool)
    ensures
        r == v@.contains(zone),
{
    let mut i: usize = 0;
    while i < v.len()
        invariant
            i <= v@.len(),
            forall|k: int| 0 <= k < i ==> v@[k] != zone,
        decreases v@.len() - i,
    {
        if v[i] == zone {
            assert(v@[i as int] == zone);
            return true;
        }
        i = i + 1;
    }
    false
}

pub fn has_number(v: &Vec<i32>, n: i32) -> (r: bool)
    ensures
        r == v@.contains(n),
{
    let mut i: usize = 0;
    while i < v.len()
        invariant
            i <= v@.len(),
            forall|k: int| 0 <= k < i ==> v@[k] != n,
        decreases v@.len() - i,
    {
        if v[i] == n {
            assert(v@[i as int] == n);
            return true;
        }
        i = i + 1;
    }
    false
}

/// Whether a list of texts holds a text.
pub open spec fn texts_have(v: Seq<String>, text: Seq<char>) -> bool {
    exists|i: int| 0 <= i < v.len() && (#[trigger] v[i])@ == text
}

pub fn has_text(v: &Vec<String>, text: &str) -> (r: bool)
    ensures
        r == texts_have(v@, text@),
{
    let mut i: usize = 0;
    while i < v.len()
        invariant
            i <= v@.len(),
            forall|k: int| 0 <= k < i ==> (#[trigger] v@[k])@ != text@,
        decreases v@.len() - i,
    {
        if text_eq(v[i].as_str(), text) {
            assert(v@[i as int]@ == text@);
            return true;
        }
        i = i + 1;
    }
    false
}

/// Whether a list of texts holds a text up to case.
pub open spec fn texts_have_ignoring_case(v: Seq<String>, text: Seq<char>) -> bool {
    exists|i: int| 0 <= i < v.len() && same_ignoring_case((#[trigger] v[i])@, text)
}

pub fn has_text_ignoring_case(v: &Vec<String>, text: &str) -> (r: bool)
    ensures
        r == texts_have_ignoring_case(v@, text@),
{
    let mut i: usize = 0;
    while i < v.len()
        invariant
            i <= v@.len(),
            forall|k: int| 0 <= k < i ==> !same_ignoring_case((#[trigger] v@[k])@, text@),
        decreases v@.len() - i,
    {
        if eq_ignore_case(v[i].as_str(), text) {
            assert(same_ignoring_case(v@[i as int]@, text@));
            return true;
        }
        i = i + 1;
    }
    false
}

/// A copy of a list of cards.
pub fn copy_cards(v: &Vec<CardId>) -> (r: Vec<CardId>)
    ensures
        r@ == v@,
{
    let mut out: Vec<CardId> = Vec::new();
    let mut i: usize = 0;
    while i < v.len()
        invariant
            i <= v@.len(),
            out@ == v@.take(i as int),
        decreases v@.len() - i,
    {
        out.push(v[i]);
        i = i + 1;
        assert(out@ =~= v@.take(i as int));
    }
    assert(v@.take(i as int) =~= v@);
    out
}

pub fn copy_players(v: &Vec<PlayerId>) -> (r: Vec<PlayerId>)
    ensures
        r@ == v@,
{
    let mut out: Vec<PlayerId> = Vec::new();
    let mut i: usize = 0;
    while i < v.len()
        invariant
            i <= v@.len(),
            out@ == v@.take(i as int),
        decreases v@.len() - i,
    {
        out.push(v[i]);
        i = i + 1;
        assert(out@ =~= v@.take(i as int));
    }
    assert(v@.take(i as int) =~= v@);
    out
}

/// Appends a list of cards.
pub fn extend_cards(v: &mut Vec<CardId>, more: &Vec<CardId>)
    ensures
        final(v)@ == old(v)@ + more@,
{
    let ghost start = v@;
    let mut i: usize = 0;
    assert(start + more@.take(0) =~= start);
    while i < more.len()
        invariant
            i <= more@.len(),
            v@ == start + more@.take(i as int),
        decreases more@.len() - i,
    {
        v.push(more[i]);
        i = i + 1;
        assert(v@ =~= start + more@.take(i as int));
    }
    assert(more@.take(i as int) =~= more@);
}

/// The list of at most one card.
pub open spec fn option_cards(v: Option<CardId>) -> Seq<CardId> {
    match v {
        Some(c) => seq![c],
        None => Seq::empty(),
    }
}

pub fn cards_of_option(v: Option<CardId>) -> (r: Vec<CardId>)
    ensures
        r@ == option_cards(v),
{
    let mut out: Vec<CardId> = Vec::new();
    if let Some(c) = v {
        out.push(c);
    }
    assert(out@ =~= option_cards(v));
    out
}

pub fn same_cards(a: &Vec<CardId>, b: &Vec<CardId>) -> (r: bool)
    ensures
        r == (a@ == b@),
{
    if a.len() != b.len() {
        return false;
    }
    let mut i: usize = 0;
    while i < a.len()
        invariant
            i <= a@.len(),
            a@.len() == b@.len(),
            forall|k: int| 0 <= k < i ==> a@[k] == b@[k],
        decreases a@.len() - i,
    {
        if a[i] != b[i] {
            assert(a@[i as int] != b@[i as int]);
            return false;
        }
        i = i + 1;
    }
    assert(a@ =~= b@);
    true
}

} // verus!
