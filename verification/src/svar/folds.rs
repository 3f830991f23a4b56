//! Folding lists of numbers and cards to one number.

use vstd::prelude::*;
use crate::game::{all_counters, count_all, count_of_kind, counters_of, Card, GameState};
use crate::lists::{has_number, has_text, has_text_ignoring_case, texts_have, texts_have_ignoring_case};
use crate::text::{
    eq_ignore_case, has_prefix, same_ignoring_case, string_views, strip_prefix, text_eq,
};
use crate::types::{CardId, PlayerId, ZoneType};

verus! {

pub open spec fn total(values: Seq<i32>) -> i32
    decreases values.len(),
{
    if values.len() == 0 {
        0
    } else {
        total(values.drop_last()).wrapping_add(values.last())
    }
}

pub fn add_up(values: &Vec<i32>) -> (r: i32)
    ensures
        r == total(values@),
{
    let mut sum: i32 = 0;
    let mut i: usize = 0;
    while i < values.len()
        invariant
            i <= values@.len(),
            sum == total(values@.take(i as int)),
        decreases values@.len() - i,
    {
        assert(values@.take(i + 1).drop_last() =~= values@.take(i as int));
        sum = sum.wrapping_add(values[i]);
        i = i + 1;
    }
    assert(values@.take(i as int) =~= values@);
    sum
}

/// The sum of values, whatever its size.
pub open spec fn exact_total(values: Seq<i32>) -> int
    decreases values.len(),
{
    if values.len() == 0 {
        0
    } else {
        exact_total(values.drop_last()) + values.last()
    }
}

proof fn lemma_total_wraps(values: Seq<i32>) -> (k: int)
    ensures
        total(values) == exact_total(values) + k * 0x1_0000_0000,
    decreases values.len(),
{
    if values.len() == 0 {
        0
    } else {
        let k = lemma_total_wraps(values.drop_last());
        let sum = total(values.drop_last()) + values.last();
        if sum > i32::MAX {
            k - 1
        } else if sum < i32::MIN {
            k + 1
        } else {
            k
        }
    }
}

/// A sum that is in range is exact.
pub proof fn lemma_total_exact(values: Seq<i32>)
    requires
        i32::MIN <= exact_total(values) <= i32::MAX,
    ensures
        total(values) == exact_total(values),
{
    let k = lemma_total_wraps(values);
}

/// The least and the greatest value are among the values and bound all of them, and so often the
/// one and the other bound the sum.
pub proof fn lemma_bounds(values: Seq<i32>)
    requires
        values.len() > 0,
    ensures
        values.contains(least(values, 0)),
        values.contains(greatest(values, 0)),
        forall|i: int|
            0 <= i < values.len() ==> least(values, 0) <= #[trigger] values[i] <= greatest(
                values,
                0,
            ),
        least(values, 0) <= greatest(values, 0),
        values.len() * least(values, 0) <= exact_total(values) <= values.len() * greatest(
            values,
            0,
        ),
    decreases values.len(),
{
    if values.len() == 1 {
        assert(values[0] == values.last());
        assert(exact_total(values.drop_last()) == 0);
    } else {
        let before = values.drop_last();
        lemma_bounds(before);
        let (lo, hi) = (least(values, 0), greatest(values, 0));
        let n = before.len() as int;
        let last = values.last();
        assert(values[values.len() - 1] == last);
        let i = choose|i: int| 0 <= i < before.len() && before[i] == least(before, 0);
        assert(values[i] == least(before, 0));
        let j = choose|j: int| 0 <= j < before.len() && before[j] == greatest(before, 0);
        assert(values[j] == greatest(before, 0));
        assert forall|k: int| 0 <= k < values.len() implies lo <= #[trigger] values[k] <= hi by {
            if k < before.len() {
                assert(before[k] == values[k]);
            }
        }
        assert(n * lo <= n * least(before, 0)) by (nonlinear_arith)
            requires
                n >= 0,
                lo <= least(before, 0),
        ;
        assert(n * greatest(before, 0) <= n * hi) by (nonlinear_arith)
            requires
                n >= 0,
                greatest(before, 0) <= hi,
        ;
        assert((n + 1) * lo == n * lo + lo) by (nonlinear_arith);
        assert((n + 1) * hi == n * hi + hi) by (nonlinear_arith);
    }
}

/// The greatest value, or a default where there is none.
pub open spec fn greatest(values: Seq<i32>, none: i32) -> i32
    decreases values.len(),
{
    if values.len() == 0 {
        none
    } else if values.len() == 1 {
        values[0]
    } else {
        let before = greatest(values.drop_last(), none);
        if values.last() > before {
            values.last()
        } else {
            before
        }
    }
}

pub fn max_or(values: &Vec<i32>, none: i32) -> (r: i32)
    ensures
        r == greatest(values@, none),
{
    if values.len() == 0 {
        return none;
    }
    let mut best: i32 = values[0];
    let mut i: usize = 1;
    assert(values@.take(1).len() == 1);
    while i < values.len()
        invariant
            1 <= i <= values@.len(),
            best == greatest(values@.take(i as int), none),
        decreases values@.len() - i,
    {
        assert(values@.take(i + 1).drop_last() =~= values@.take(i as int));
        if values[i] > best {
            best = values[i];
        }
        i = i + 1;
    }
    assert(values@.take(i as int) =~= values@);
    best
}

/// The least value, or a default where there is none.
pub open spec fn least(values: Seq<i32>, none: i32) -> i32
    decreases values.len(),
{
    if values.len() == 0 {
        none
    } else if values.len() == 1 {
        values[0]
    } else {
        let before = least(values.drop_last(), none);
        if values.last() < before {
            values.last()
        } else {
            before
        }
    }
}

pub fn min_or(values: &Vec<i32>, none: i32) -> (r: i32)
    ensures
        r == least(values@, none),
{
    if values.len() == 0 {
        return none;
    }
    let mut best: i32 = values[0];
    let mut i: usize = 1;
    assert(values@.take(1).len() == 1);
    while i < values.len()
        invariant
            1 <= i <= values@.len(),
            best == least(values@.take(i as int), none),
        decreases values@.len() - i,
    {
        assert(values@.take(i + 1).drop_last() =~= values@.take(i as int));
        if values[i] < best {
            best = values[i];
        }
        i = i + 1;
    }
    assert(values@.take(i as int) =~= values@);
    best
}

/// The values without repetitions, in the order of their first places.
pub open spec fn distinct(values: Seq<i32>) -> Seq<i32>
    decreases values.len(),
{
    if values.len() == 0 {
        Seq::empty()
    } else {
        let before = distinct(values.drop_last());
        if before.contains(values.last()) {
            before
        } else {
            before.push(values.last())
        }
    }
}

pub fn count_distinct(values: &Vec<i32>) -> (r: i32)
    ensures
        r == distinct(values@).len() as i32,
{
    let mut seen: Vec<i32> = Vec::new();
    let mut i: usize = 0;
    while i < values.len()
        invariant
            i <= values@.len(),
            seen@ == distinct(values@.take(i as int)),
        decreases values@.len() - i,
    {
        assert(values@.take(i + 1).drop_last() =~= values@.take(i as int));
        if !has_number(&seen, values[i]) {
            seen.push(values[i]);
        }
        i = i + 1;
    }
    assert(values@.take(i as int) =~= values@);
    seen.len() as i32
}

/// How a list property folds its values.
#[derive(Debug, Clone, Copy, PartialEq, Eq, Structural)]
pub enum ListFold {
    Least,
    Greatest,
    Different,
    Sum,
}

/// The fold that a property asks for, and the property of each item.
pub open spec fn fold_of(property: Seq<char>) -> (ListFold, Seq<char>) {
    if has_prefix(property, "Least"@) {
        (ListFold::Least, property.skip("Least"@.len() as int))
    } else if has_prefix(property, "Greatest"@) {
        (ListFold::Greatest, property.skip("Greatest"@.len() as int))
    } else if has_prefix(property, "Different"@) {
        (ListFold::Different, property.skip("Different"@.len() as int))
    } else {
        (ListFold::Sum, property)
    }
}

pub fn list_property_fold(property: &str) -> (r: (ListFold, &str))
    ensures
        (r.0, r.1@) == fold_of(property@),
{
    if let Some(rest) = strip_prefix(property, "Least") {
        (ListFold::Least, rest)
    } else if let Some(rest) = strip_prefix(property, "Greatest") {
        (ListFold::Greatest, rest)
    } else if let Some(rest) = strip_prefix(property, "Different") {
        (ListFold::Different, rest)
    } else {
        (ListFold::Sum, property)
    }
}

pub open spec fn folded(fold: ListFold, values: Seq<i32>) -> i32 {
    match fold {
        ListFold::Least => least(values, 0),
        ListFold::Greatest => greatest(values, 0),
        ListFold::Different => distinct(values).len() as i32,
        ListFold::Sum => total(values),
    }
}

pub fn fold_values(fold: ListFold, values: &Vec<i32>) -> (r: i32)
    ensures
        r == folded(fold, values@),
{
    match fold {
        ListFold::Least => min_or(values, 0),
        ListFold::Greatest => max_or(values, 0),
        ListFold::Different => count_distinct(values),
        ListFold::Sum => add_up(values),
    }
}

// ---- texts ----

/// The texts of `more` that `seen` does not hold, added in order.
pub open spec fn merged(seen: Seq<Seq<char>>, more: Seq<Seq<char>>) -> Seq<Seq<char>>
    decreases more.len(),
{
    if more.len() == 0 {
        seen
    } else {
        let before = merged(seen, more.drop_last());
        if before.contains(more.last()) {
            before
        } else {
            before.push(more.last())
        }
    }
}

proof fn lemma_contains_text(v: Seq<String>, t: Seq<char>)
    ensures
        texts_have(v, t) == string_views(v).contains(t),
{
    if texts_have(v, t) {
        let i = choose|i: int| 0 <= i < v.len() && (#[trigger] v[i])@ == t;
        assert(string_views(v)[i] == t);
    }
    if string_views(v).contains(t) {
        let i = choose|i: int| 0 <= i < string_views(v).len() && string_views(v)[i] == t;
        assert(v[i]@ == t);
    }
}

pub fn merge_text(seen: &mut Vec<String>, text: &str)
    ensures
        string_views(final(seen)@) == merged(string_views(old(seen)@), seq![text@]),
{
    let ghost before = string_views(seen@);
    proof {
        lemma_contains_text(seen@, text@);
        assert(seq![text@].drop_last() =~= Seq::<Seq<char>>::empty());
        assert(merged(before, seq![text@].drop_last()) == before);
    }
    if !has_text(seen, text) {
        seen.push(text.to_owned());
        assert(string_views(seen@) =~= before.push(text@));
    }
}

// ---- cards ----

/// A property of each card in a list; a card that is not there counts nothing.
pub open spec fn card_numbers(game: GameState, ids: Seq<CardId>, f: spec_fn(Card) -> i32) -> Seq<
    i32,
> {
    ids.map_values(
        |id: CardId|
            match game.card_at(id) {
                Some(c) => f(c),
                None => 0i32,
            },
    )
}

pub open spec fn or_colors(game: GameState, ids: Seq<CardId>) -> u8
    decreases ids.len(),
{
    if ids.len() == 0 {
        0
    } else {
        let before = or_colors(game, ids.drop_last());
        match game.card_at(ids.last()) {
            Some(c) => before | c.color,
            None => before,
        }
    }
}

pub open spec fn bit_count(mask: u8) -> i32 {
    let b = |m: u8| if mask & m != 0 { 1int } else { 0int };
    (b(1) + b(2) + b(4) + b(8) + b(16) + b(32) + b(64) + b(128)) as i32
}

fn one_bit(mask: u8, m: u8) -> (r: i32)
    ensures
        r == (if mask & m != 0 { 1int } else { 0int }),
{
    if mask & m != 0 {
        1
    } else {
        0
    }
}

pub fn count_bits(mask: u8) -> (r: i32)
    ensures
        r == bit_count(mask),
{
    one_bit(mask, 1) + one_bit(mask, 2) + one_bit(mask, 4) + one_bit(mask, 8) + one_bit(mask, 16)
        + one_bit(mask, 32) + one_bit(mask, 64) + one_bit(mask, 128)
}

/// The bits of the card types that a card has.
pub open spec fn type_bits(c: Card, permanent_only: bool) -> u8 {
    (if c.types.creature { 1u8 } else { 0 }) | (if c.types.land { 2u8 } else { 0 })
        | (if c.types.artifact { 4u8 } else { 0 }) | (if c.types.enchantment { 8u8 } else { 0 })
        | (if c.types.planeswalker { 16u8 } else { 0 }) | (if c.types.battle { 32u8 } else { 0 })
        | (if c.types.instant && !permanent_only { 64u8 } else { 0 })
        | (if c.types.sorcery && !permanent_only { 128u8 } else { 0 })
}

pub open spec fn or_types(game: GameState, ids: Seq<CardId>, permanent_only: bool) -> u8
    decreases ids.len(),
{
    if ids.len() == 0 {
        0
    } else {
        let before = or_types(game, ids.drop_last(), permanent_only);
        match game.card_at(ids.last()) {
            Some(c) => before | type_bits(c, permanent_only),
            None => before,
        }
    }
}

/// Whether a card of the list is of the kindred type.
pub open spec fn any_kindred(game: GameState, ids: Seq<CardId>) -> bool {
    exists|i: int|
        0 <= i < ids.len() && (game.card_at(#[trigger] ids[i]) matches Some(c) && c.types.kindred)
}

pub open spec fn creature_types_of(game: GameState, subtypes: Seq<String>) -> Seq<Seq<char>>
    decreases subtypes.len(),
{
    if subtypes.len() == 0 {
        Seq::empty()
    } else {
        let before = creature_types_of(game, subtypes.drop_last());
        if texts_have_ignoring_case(game.facts.creature_types@, subtypes.last()@) {
            before.push(subtypes.last()@)
        } else {
            before
        }
    }
}

/// The creature types among a list of cards, each once.
pub open spec fn creature_types_among(game: GameState, ids: Seq<CardId>) -> Seq<Seq<char>>
    decreases ids.len(),
{
    if ids.len() == 0 {
        Seq::empty()
    } else {
        let before = creature_types_among(game, ids.drop_last());
        match game.card_at(ids.last()) {
            Some(c) => merged(before, creature_types_of(game, c.types.subtypes@)),
            None => before,
        }
    }
}

/// The names among a list of cards that are face up, each once.
pub open spec fn names_among(game: GameState, ids: Seq<CardId>) -> Seq<Seq<char>>
    decreases ids.len(),
{
    if ids.len() == 0 {
        Seq::empty()
    } else {
        let before = names_among(game, ids.drop_last());
        match game.card_at(ids.last()) {
            Some(c) if !c.face_down => merged(before, seq![c.card_name@]),
            _ => before,
        }
    }
}

/// A number of a card that lists can fold.
pub open spec fn list_number(c: Card, property: Seq<char>) -> Option<i32> {
    if property == "CardPower"@ {
        Some(c.power)
    } else if property == "CardToughness"@ {
        Some(c.toughness)
    } else if property == "CardSumPT"@ {
        Some(c.power.wrapping_add(c.toughness))
    } else if property == "CardManaCost"@ {
        Some(c.mana_value)
    } else if has_prefix(property, "CardCounters."@) {
        let kind = property.skip("CardCounters."@.len() as int);
        Some(
            if same_ignoring_case(kind, "ALL"@) {
                all_counters(c.counters@)
            } else {
                counters_of(c.counters@, kind)
            },
        )
    } else {
        None
    }
}

pub open spec fn list_numbers(game: GameState, ids: Seq<CardId>, property: Seq<char>) -> Option<
    Seq<i32>,
>
    decreases ids.len(),
{
    if ids.len() == 0 {
        Some(Seq::empty())
    } else {
        match list_numbers(game, ids.drop_last(), property) {
            Some(before) => match game.card_at(ids.last()) {
                Some(c) => match list_number(c, property) {
                    Some(n) => Some(before.push(n)),
                    None => None,
                },
                None => Some(before),
            },
            None => None,
        }
    }
}

/// What an aggregate says of a list of cards.
pub open spec fn aggregated(game: GameState, ids: Seq<CardId>, what: Seq<char>) -> i32 {
    if what.len() == 0 || what == "Amount"@ {
        ids.len() as i32
    } else if what == "GreatestCardManaCost"@ {
        greatest(card_numbers(game, ids, |c: Card| c.cmc), 0)
    } else if what == "CardTypes"@ {
        (bit_count(or_types(game, ids, false)) + if any_kindred(game, ids) { 1int } else { 0 }) as i32
    } else if what == "CardTypesPermanent"@ {
        bit_count(or_types(game, ids, true))
    } else if what == "Colors"@ {
        bit_count(or_colors(game, ids))
    } else if what == "CreatureType"@ {
        creature_types_among(game, ids).len() as i32
    } else if what == "DifferentCardNames"@ {
        names_among(game, ids).len() as i32
    } else {
        let (fold, property) = fold_of(what);
        match list_numbers(game, ids, property) {
            Some(values) => folded(fold, values),
            None => 0,
        }
    }
}

fn card_list_number(c: &Card, property: &str) -> (r: Option<i32>)
    ensures
        r == list_number(*c, property@),
{
    if text_eq(property, "CardPower") {
        Some(c.power)
    } else if text_eq(property, "CardToughness") {
        Some(c.toughness)
    } else if text_eq(property, "CardSumPT") {
        Some(c.power.wrapping_add(c.toughness))
    } else if text_eq(property, "CardManaCost") {
        Some(c.mana_value)
    } else if let Some(kind) = strip_prefix(property, "CardCounters.") {
        Some(
            if eq_ignore_case(kind, "ALL") {
                count_all(&c.counters)
            } else {
                count_of_kind(&c.counters, kind)
            },
        )
    } else {
        None
    }
}

fn numbers_of_list(game: &GameState, ids: &Vec<CardId>, property: &str) -> (r: Option<Vec<i32>>)
    ensures
        r is Some == list_numbers(*game, ids@, property@) is Some,
        r matches Some(v) ==> list_numbers(*game, ids@, property@) == Some(v@),
{
    let mut out: Vec<i32> = Vec::new();
    let mut failed = false;
    let mut i: usize = 0;
    while i < ids.len()
        invariant
            i <= ids@.len(),
            failed == (list_numbers(*game, ids@.take(i as int), property@) is None),
            !failed ==> list_numbers(*game, ids@.take(i as int), property@) == Some(out@),
        decreases ids@.len() - i,
    {
        assert(ids@.take(i + 1).drop_last() =~= ids@.take(i as int));
        if let Some(c) = game.card(ids[i]) {
            match card_list_number(c, property) {
                Some(n) => {
                    out.push(n);
                },
                None => {
                    failed = true;
                },
            }
        }
        i = i + 1;
    }
    assert(ids@.take(i as int) =~= ids@);
    if failed {
        None
    } else {
        Some(out)
    }
}

fn type_mask(c: &Card, permanent_only: bool) -> (r: u8)
    ensures
        r == type_bits(*c, permanent_only),
{
    (if c.types.creature { 1u8 } else { 0 }) | (if c.types.land { 2u8 } else { 0 })
        | (if c.types.artifact { 4u8 } else { 0 }) | (if c.types.enchantment { 8u8 } else { 0 })
        | (if c.types.planeswalker { 16u8 } else { 0 }) | (if c.types.battle { 32u8 } else { 0 })
        | (if c.types.instant && !permanent_only { 64u8 } else { 0 })
        | (if c.types.sorcery && !permanent_only { 128u8 } else { 0 })
}

fn count_card_types(game: &GameState, ids: &Vec<CardId>, permanent_only: bool) -> (r: i32)
    ensures
        permanent_only ==> r == bit_count(or_types(*game, ids@, true)),
        !permanent_only ==> r == (bit_count(or_types(*game, ids@, false)) + if any_kindred(
            *game,
            ids@,
        ) { 1int } else { 0 }) as i32,
{
    let mut mask: u8 = 0;
    let mut kindred = false;
    let mut i: usize = 0;
    while i < ids.len()
        invariant
            i <= ids@.len(),
            mask == or_types(*game, ids@.take(i as int), permanent_only),
            kindred == any_kindred(*game, ids@.take(i as int)),
        decreases ids@.len() - i,
    {
        let ghost before = ids@.take(i as int);
        let ghost after = ids@.take(i + 1);
        assert(after.drop_last() =~= before);
        assert(after.last() == ids@[i as int]);
        if let Some(c) = game.card(ids[i]) {
            mask = mask | type_mask(c, permanent_only);
            if c.types.kindred {
                kindred = true;
            }
        }
        proof {
            if any_kindred(*game, before) {
                let j = choose|j: int|
                    0 <= j < before.len() && (game.card_at(#[trigger] before[j]) matches Some(c)
                        && c.types.kindred);
                assert(after[j] == before[j]);
            }
            if any_kindred(*game, after) {
                let j = choose|j: int|
                    0 <= j < after.len() && (game.card_at(#[trigger] after[j]) matches Some(c)
                        && c.types.kindred);
                if j < before.len() {
                    assert(before[j] == after[j]);
                }
            }
            if kindred && !any_kindred(*game, before) {
                assert(after[i as int] == ids@[i as int]);
            }
        }
        i = i + 1;
    }
    assert(ids@.take(i as int) =~= ids@);
    let n: i32 = count_bits(mask);
    if kindred && !permanent_only {
        n + 1
    } else {
        n
    }
}

fn merge_creature_types(game: &GameState, seen: &mut Vec<String>, subtypes: &Vec<String>)
    ensures
        string_views(final(seen)@) == merged(
            string_views(old(seen)@),
            creature_types_of(*game, subtypes@),
        ),
{
    let ghost start = string_views(seen@);
    let mut i: usize = 0;
    while i < subtypes.len()
        invariant
            i <= subtypes@.len(),
            string_views(seen@) == merged(
                start,
                creature_types_of(*game, subtypes@.take(i as int)),
            ),
        decreases subtypes@.len() - i,
    {
        let ghost shown = string_views(seen@);
        let ghost so_far = creature_types_of(*game, subtypes@.take(i as int));
        assert(subtypes@.take(i + 1).drop_last() =~= subtypes@.take(i as int));
        if has_text_ignoring_case(&game.facts.creature_types, subtypes[i].as_str()) {
            merge_text(seen, subtypes[i].as_str());
            proof {
                let t = subtypes@[i as int]@;
                assert(so_far.push(t).drop_last() =~= so_far);
                assert(seq![t].drop_last() =~= Seq::<Seq<char>>::empty());
                assert(merged(shown, seq![t].drop_last()) == shown);
            }
        }
        i = i + 1;
    }
    assert(subtypes@.take(i as int) =~= subtypes@);
}

/// Evaluates an aggregate over a list of cards.
pub fn count_valid_aggregate(game: &GameState, ids: &Vec<CardId>, what: &str) -> (r: i32)
    ensures
        r == aggregated(*game, ids@, what@),
{
    if what.unicode_len() == 0 || text_eq(what, "Amount") {
        return ids.len() as i32;
    }
    if text_eq(what, "GreatestCardManaCost") {
        let mut costs: Vec<i32> = Vec::new();
        let ghost f = |c: Card| c.cmc;
        let mut i: usize = 0;
        while i < ids.len()
            invariant
                i <= ids@.len(),
                f == |c: Card| c.cmc,
                costs@ == card_numbers(*game, ids@.take(i as int), f),
            decreases ids@.len() - i,
        {
            costs.push(
                match game.card(ids[i]) {
                    Some(c) => c.cmc,
                    None => 0,
                },
            );
            i = i + 1;
            assert(costs@ =~= card_numbers(*game, ids@.take(i as int), f));
        }
        assert(ids@.take(i as int) =~= ids@);
        return max_or(&costs, 0);
    }
    if text_eq(what, "CardTypes") {
        return count_card_types(game, ids, false);
    }
    if text_eq(what, "CardTypesPermanent") {
        return count_card_types(game, ids, true);
    }
    if text_eq(what, "Colors") {
        let mut mask: u8 = 0;
        let mut i: usize = 0;
        while i < ids.len()
            invariant
                i <= ids@.len(),
                mask == or_colors(*game, ids@.take(i as int)),
            decreases ids@.len() - i,
        {
            assert(ids@.take(i + 1).drop_last() =~= ids@.take(i as int));
            if let Some(c) = game.card(ids[i]) {
                mask = mask | c.color;
            }
            i = i + 1;
        }
        assert(ids@.take(i as int) =~= ids@);
        return count_bits(mask);
    }
    if text_eq(what, "CreatureType") {
        let mut seen: Vec<String> = Vec::new();
        let mut i: usize = 0;
        assert(string_views(seen@) =~= creature_types_among(*game, ids@.take(0)));
        while i < ids.len()
            invariant
                i <= ids@.len(),
                string_views(seen@) == creature_types_among(*game, ids@.take(i as int)),
            decreases ids@.len() - i,
        {
            assert(ids@.take(i + 1).drop_last() =~= ids@.take(i as int));
            if let Some(c) = game.card(ids[i]) {
                merge_creature_types(game, &mut seen, &c.types.subtypes);
            }
            i = i + 1;
        }
        assert(ids@.take(i as int) =~= ids@);
        assert(string_views(seen@).len() == seen@.len());
        return seen.len() as i32;
    }
    if text_eq(what, "DifferentCardNames") {
        let mut seen: Vec<String> = Vec::new();
        let mut i: usize = 0;
        assert(string_views(seen@) =~= names_among(*game, ids@.take(0)));
        while i < ids.len()
            invariant
                i <= ids@.len(),
                string_views(seen@) == names_among(*game, ids@.take(i as int)),
            decreases ids@.len() - i,
        {
            assert(ids@.take(i + 1).drop_last() =~= ids@.take(i as int));
            if let Some(c) = game.card(ids[i]) {
                if !c.face_down {
                    merge_text(&mut seen, c.card_name.as_str());
                }
            }
            i = i + 1;
        }
        assert(ids@.take(i as int) =~= ids@);
        assert(string_views(seen@).len() == seen@.len());
        return seen.len() as i32;
    }
    let (fold, property) = list_property_fold(what);
    match numbers_of_list(game, ids, property) {
        Some(values) => fold_values(fold, &values),
        None => 0,
    }
}

// ---- choosing cards ----

/// The cards of a list that match a selector.
pub open spec fn matching(
    game: GameState,
    ids: Seq<CardId>,
    selector: Seq<char>,
    source: CardId,
    you: PlayerId,
) -> Seq<CardId>
    decreases ids.len(),
{
    if ids.len() == 0 {
        Seq::empty()
    } else {
        let before = matching(game, ids.drop_last(), selector, source, you);
        if game.facts.matches_card(selector, source, you, ids.last()) {
            before.push(ids.last())
        } else {
            before
        }
    }
}

pub fn cards_matching(
    game: &GameState,
    ids: &Vec<CardId>,
    selector: &str,
    source: CardId,
    you: PlayerId,
) -> (r: Vec<CardId>)
    ensures
        r@ == matching(*game, ids@, selector@, source, you),
{
    let mut out: Vec<CardId> = Vec::new();
    let mut i: usize = 0;
    while i < ids.len()
        invariant
            i <= ids@.len(),
            out@ == matching(*game, ids@.take(i as int), selector@, source, you),
        decreases ids@.len() - i,
    {
        assert(ids@.take(i + 1).drop_last() =~= ids@.take(i as int));
        if game.facts.card_matches_selector(selector, source, you, ids[i]) {
            out.push(ids[i]);
        }
        i = i + 1;
    }
    assert(ids@.take(i as int) =~= ids@);
    out
}

/// Which cards a count looks at.
pub open spec fn in_scope(c: Card, zones: Seq<ZoneType>) -> bool {
    zones.contains(c.zone)
}

/// The cards in some zones, in the order of their identifiers.
pub open spec fn cards_in_zones(cards: Seq<Card>, zones: Seq<ZoneType>) -> Seq<CardId>
    decreases cards.len(),
{
    if cards.len() == 0 {
        Seq::empty()
    } else {
        let before = cards_in_zones(cards.drop_last(), zones);
        if in_scope(cards.last(), zones) {
            before.push(CardId((cards.len() - 1) as u32))
        } else {
            before
        }
    }
}

pub fn list_cards_in_zones(game: &GameState, zones: &Vec<ZoneType>) -> (r: Vec<CardId>)
    ensures
        r@ == cards_in_zones(game.cards@, zones@),
{
    let mut out: Vec<CardId> = Vec::new();
    let mut i: usize = 0;
    while i < game.cards.len()
        invariant
            i <= game.cards@.len(),
            out@ == cards_in_zones(game.cards@.take(i as int), zones@),
        decreases game.cards@.len() - i,
    {
        assert(game.cards@.take(i + 1).drop_last() =~= game.cards@.take(i as int));
        if crate::lists::has_zone(zones, game.cards[i].zone) {
            out.push(CardId(i as u32));
        }
        i = i + 1;
    }
    assert(game.cards@.take(i as int) =~= game.cards@);
    out
}

/// The creatures of a player that attacked this turn.
pub open spec fn attackers_of(cards: Seq<Card>, player: PlayerId) -> Seq<CardId>
    decreases cards.len(),
{
    if cards.len() == 0 {
        Seq::empty()
    } else {
        let before = attackers_of(cards.drop_last(), player);
        let c = cards.last();
        if c.controller == player && c.attacked_this_turn && c.types.creature {
            before.push(CardId((cards.len() - 1) as u32))
        } else {
            before
        }
    }
}

pub fn list_attackers(game: &GameState, player: PlayerId) -> (r: Vec<CardId>)
    ensures
        r@ == attackers_of(game.cards@, player),
{
    let mut out: Vec<CardId> = Vec::new();
    let mut i: usize = 0;
    while i < game.cards.len()
        invariant
            i <= game.cards@.len(),
            out@ == attackers_of(game.cards@.take(i as int), player),
        decreases game.cards@.len() - i,
    {
        assert(game.cards@.take(i + 1).drop_last() =~= game.cards@.take(i as int));
        let c = &game.cards[i];
        if c.controller == player && c.attacked_this_turn && c.types.creature {
            out.push(CardId(i as u32));
        }
        i = i + 1;
    }
    assert(game.cards@.take(i as int) =~= game.cards@);
    out
}

// ---- laws ----

/// Whether all cards of a list are there.
pub open spec fn all_there(game: GameState, ids: Seq<CardId>) -> bool {
    forall|i: int| 0 <= i < ids.len() ==> game.card_at(#[trigger] ids[i]) is Some
}

proof fn lemma_list_numbers(game: GameState, ids: Seq<CardId>, p: Seq<char>)
    requires
        all_there(game, ids),
        p == "CardPower"@ || p == "CardToughness"@ || p == "CardManaCost"@,
    ensures
        list_numbers(game, ids, p) matches Some(v) && v.len() == ids.len() && forall|i: int|
            0 <= i < v.len() ==> #[trigger] v[i] == list_number(game.card_at(ids[i])->0, p)->0,
    decreases ids.len(),
{
    if ids.len() > 0 {
        let less = ids.drop_last();
        assert forall|i: int| 0 <= i < less.len() implies game.card_at(#[trigger] less[i]) is Some by {
            assert(less[i] == ids[i]);
        }
        lemma_list_numbers(game, less, p);
        assert(game.card_at(ids[ids.len() - 1]) is Some);
    }
}

/// What the greatest of a property is taken over: the mana cost of cards counts as it is printed.
pub open spec fn greatest_number(c: Card, p: Seq<char>) -> i32 {
    if p == "CardManaCost"@ {
        c.cmc
    } else {
        list_number(c, p)->0
    }
}

proof fn lemma_bits(mask: u8)
    ensures
        bit_count(0) == 0,
        mask <= 31 ==> 0 <= bit_count(mask) <= 5,
{
    assert(0u8 & 1 == 0 && 0u8 & 2 == 0 && 0u8 & 4 == 0 && 0u8 & 8 == 0 && 0u8 & 16 == 0 && 0u8 & 32
        == 0 && 0u8 & 64 == 0 && 0u8 & 128 == 0) by (bit_vector);
    assert(mask <= 31 ==> mask & 32 == 0 && mask & 64 == 0 && mask & 128 == 0) by (bit_vector);
}

proof fn lemma_five_colors(game: GameState, ids: Seq<CardId>)
    requires
        forall|i: int|
            0 <= i < ids.len() ==> (game.card_at(#[trigger] ids[i]) matches Some(c) ==> c.color
                <= 31),
    ensures
        or_colors(game, ids) <= 31,
    decreases ids.len(),
{
    if ids.len() > 0 {
        let less = ids.drop_last();
        assert forall|i: int| 0 <= i < less.len() implies (game.card_at(
            #[trigger] less[i],
        ) matches Some(c) ==> c.color <= 31) by {
            assert(less[i] == ids[i]);
        }
        lemma_five_colors(game, less);
        if let Some(c) = game.card_at(ids[ids.len() - 1]) {
            let a = or_colors(game, less);
            let b = c.color;
            assert(a <= 31 && b <= 31 ==> a | b <= 31) by (bit_vector);
        }
    }
}

proof fn lemma_names(game: GameState, ids: Seq<CardId>)
    ensures
        names_among(game, ids).len() <= ids.len(),
    decreases ids.len(),
{
    if ids.len() > 0 {
        lemma_names(game, ids.drop_last());
        if let Some(c) = game.card_at(ids.last()) {
            let before = names_among(game, ids.drop_last());
            let one = seq![c.card_name@];
            assert(one.drop_last() =~= Seq::empty());
            assert(merged(before, one.drop_last()) == before);
            assert(merged(before, one).len() <= before.len() + 1);
        }
    }
}

/// Over no cards every aggregate is nothing.
pub proof fn law_nothing_adds_up_to_nothing(game: GameState, what: Seq<char>)
    ensures
        aggregated(game, Seq::empty(), what) == 0,
{
    lemma_bits(0);
    let none = Seq::<CardId>::empty();
    assert(or_colors(game, none) == 0);
    assert(card_numbers(game, none, |c: Card| c.cmc).len() == 0);
}

/// An amount is how many cards there are, and there are no more names than cards. There are at most
/// five colors among cards whose colors are of the five.
pub proof fn law_amounts(game: GameState, ids: Seq<CardId>)
    requires
        ids.len() <= i32::MAX,
    ensures
        aggregated(game, ids, ""@) == ids.len(),
        aggregated(game, ids, "Amount"@) == ids.len(),
        0 <= aggregated(game, ids, "DifferentCardNames"@) <= ids.len(),
        (forall|i: int|
            0 <= i < ids.len() ==> (game.card_at(#[trigger] ids[i]) matches Some(c) ==> c.color
                <= 31)) ==> 0 <= aggregated(game, ids, "Colors"@) <= 5,
{
    reveal_strlit("");
    reveal_strlit("Amount");
    reveal_strlit("GreatestCardManaCost");
    reveal_strlit("CardTypes");
    reveal_strlit("CardTypesPermanent");
    reveal_strlit("Colors");
    reveal_strlit("CreatureType");
    reveal_strlit("DifferentCardNames");
    let names = "DifferentCardNames"@;
    assert(names[0] == 'D');
    assert("Colors"@[1] == 'o');
    assert("Colors"@.len() == 6);
    lemma_names(game, ids);
    if forall|i: int|
        0 <= i < ids.len() ==> (game.card_at(#[trigger] ids[i]) matches Some(c) ==> c.color <= 31) {
        lemma_five_colors(game, ids);
        lemma_bits(or_colors(game, ids));
    }
}

/// The least and the greatest of a property over cards are those of some of the cards, and no card
/// lies beyond them.
pub proof fn law_least_and_greatest(game: GameState, ids: Seq<CardId>, p: Seq<char>)
    requires
        ids.len() > 0,
        all_there(game, ids),
        p == "CardPower"@ || p == "CardToughness"@ || p == "CardManaCost"@,
    ensures
        exists|i: int|
            0 <= i < ids.len() && aggregated(game, ids, "Least"@ + p) == list_number(
                game.card_at(#[trigger] ids[i])->0,
                p,
            )->0,
        exists|i: int|
            0 <= i < ids.len() && aggregated(game, ids, "Greatest"@ + p) == greatest_number(
                game.card_at(#[trigger] ids[i])->0,
                p,
            ),
        forall|i: int|
            0 <= i < ids.len() ==> aggregated(game, ids, "Least"@ + p) <= list_number(
                game.card_at(#[trigger] ids[i])->0,
                p,
            )->0,
        forall|i: int|
            0 <= i < ids.len() ==> greatest_number(game.card_at(#[trigger] ids[i])->0, p)
                <= aggregated(game, ids, "Greatest"@ + p),
{
    lemma_list_numbers(game, ids, p);
    let v = list_numbers(game, ids, p)->0;
    lemma_bounds(v);
    lemma_fold_names(p);
    let a = choose|i: int| 0 <= i < v.len() && v[i] == least(v, 0);
    assert(aggregated(game, ids, "Least"@ + p) == list_number(game.card_at(ids[a])->0, p)->0);
    assert forall|i: int| 0 <= i < ids.len() implies aggregated(game, ids, "Least"@ + p)
        <= list_number(game.card_at(#[trigger] ids[i])->0, p)->0 by {
        assert(v[i] >= least(v, 0));
    }
    let w = if p == "CardManaCost"@ {
        card_numbers(game, ids, |c: Card| c.cmc)
    } else {
        v
    };
    assert(w.len() == ids.len());
    assert forall|i: int| 0 <= i < ids.len() implies #[trigger] w[i] == greatest_number(
        game.card_at(ids[i])->0,
        p,
    ) by {
        assert(game.card_at(ids[i]) is Some);
    }
    lemma_bounds(w);
    let b = choose|i: int| 0 <= i < w.len() && w[i] == greatest(w, 0);
    assert(aggregated(game, ids, "Greatest"@ + p) == greatest(w, 0));
    assert(aggregated(game, ids, "Greatest"@ + p) == greatest_number(game.card_at(ids[b])->0, p));
    assert forall|i: int| 0 <= i < ids.len() implies greatest_number(
        game.card_at(#[trigger] ids[i])->0,
        p,
    ) <= aggregated(game, ids, "Greatest"@ + p) by {
        assert(w[i] <= greatest(w, 0));
    }
}

proof fn lemma_fold_names(p: Seq<char>)
    requires
        p == "CardPower"@ || p == "CardToughness"@ || p == "CardManaCost"@,
    ensures
        fold_of("Least"@ + p) == (ListFold::Least, p),
        fold_of("Greatest"@ + p) == (ListFold::Greatest, p),
        forall|game: GameState, ids: Seq<CardId>|
            #![trigger aggregated(game, ids, "Least"@ + p)]
            aggregated(game, ids, "Least"@ + p) == match list_numbers(game, ids, p) {
                Some(v) => least(v, 0),
                None => 0,
            },
        forall|game: GameState, ids: Seq<CardId>|
            #![trigger aggregated(game, ids, "Greatest"@ + p)]
            aggregated(game, ids, "Greatest"@ + p) == if p == "CardManaCost"@ {
                greatest(card_numbers(game, ids, |c: Card| c.cmc), 0)
            } else {
                match list_numbers(game, ids, p) {
                    Some(v) => greatest(v, 0),
                    None => 0,
                }
            },
{
    reveal_strlit("Least");
    reveal_strlit("Greatest");
    reveal_strlit("Different");
    reveal_strlit("CardPower");
    reveal_strlit("CardToughness");
    reveal_strlit("CardManaCost");
    reveal_strlit("Amount");
    reveal_strlit("GreatestCardManaCost");
    reveal_strlit("CardTypes");
    reveal_strlit("CardTypesPermanent");
    reveal_strlit("Colors");
    reveal_strlit("CreatureType");
    reveal_strlit("DifferentCardNames");
    let low = "Least"@ + p;
    let high = "Greatest"@ + p;
    assert(low[0] == 'L');
    assert(high[0] == 'G');
    assert(low.subrange(0, 5) =~= "Least"@);
    assert(low.skip(5) =~= p);
    assert(high.subrange(0, 8) =~= "Greatest"@);
    assert(high.skip(8) =~= p);
    assert(!has_prefix(high, "Least"@)) by {
        if has_prefix(high, "Least"@) {
            assert(high.subrange(0, 5)[0] == 'L');
        }
    }
    if p == "CardManaCost"@ {
        assert(high =~= "GreatestCardManaCost"@);
    } else {
        assert(high != "GreatestCardManaCost"@) by {
            assert(high[12] == p[4]);
        }
    }
}

} // verus!
