//! Amounts that static abilities add to costs, and filters on single cards.

use vstd::prelude::*;
use crate::game::{
    all_counters, count_all, count_of_kind, counters_of, svar_value, Card, GameState,
};
use crate::svar::eval::{bare_scene, counted, resolve_count_svar};
use crate::svar::folds::{
    aggregated, cards_in_zones, cards_matching, count_valid_aggregate, list_cards_in_zones, matching,
};
use crate::svar::simple::{compare_expr, compared_with};
use crate::text::{
    after_mark, before_mark, contains, eq_ignore_case, has_part, has_prefix, int_value, number_or,
    parse_i32, parse_or, pieces, same_ignoring_case, split, split_once, split_or_all, starts_with,
    strip_prefix, text_eq, trim, trimmed, views,
};
use crate::types::{CardId, PlayerId, ZoneType};

verus! {

/// The spells that a player cast this turn.
pub open spec fn spells_cast_by(game: GameState, player: PlayerId) -> i32 {
    match game.player_at(player) {
        Some(p) => p.spells_cast_this_turn,
        None => 0,
    }
}

fn count_spells_cast(game: &GameState, player: PlayerId) -> (r: i32)
    ensures
        r == spells_cast_by(*game, player),
{
    match game.player(player) {
        Some(p) => p.spells_cast_this_turn,
        None => 0,
    }
}

/// The counts that costs read in a way of their own; none for every other text.
pub open spec fn cost_count(
    game: GameState,
    source: Card,
    t: Seq<char>,
    caster: PlayerId,
) -> Option<i32> {
    if t == "Count$xPaid"@ || t == "Count$XPaid"@ {
        Some(
            match svar_value(source.svars@, "XPaid"@) {
                Some(v) => number_or(v, 0),
                None => 0,
            },
        )
    } else if has_prefix(t, "Count$CardCounters."@) {
        let kind = t.skip("Count$CardCounters."@.len() as int);
        Some(
            if kind == "ALL"@ {
                all_counters(source.counters@)
            } else {
                counters_of(source.counters@, kind)
            },
        )
    } else if has_prefix(t, "Count$ThisTurnCast_"@) {
        let rest = t.skip("Count$ThisTurnCast_"@.len() as int);
        Some(
            if has_part(rest, "YouCtrl"@) || has_part(rest, "YouOwn"@) {
                spells_cast_by(game, source.controller)
            } else {
                spells_cast_by(game, caster)
            },
        )
    } else if t == "Count$YourLifeTotal"@ {
        Some(
            match game.player_at(source.controller) {
                Some(p) => p.life,
                None => 0,
            },
        )
    } else if has_prefix(t, "Count$Valid "@) {
        let rest = t.skip("Count$Valid "@.len() as int);
        Some(
            aggregated(
                game,
                matching(
                    game,
                    cards_in_zones(game.cards@, seq![ZoneType::Battlefield]),
                    before_mark(rest, "$"@),
                    source.id,
                    source.controller,
                ),
                after_mark(rest, "$"@),
            ),
        )
    } else if has_prefix(t, "Count$"@) && int_value(t.skip("Count$"@.len() as int)) is Some {
        Some(int_value(t.skip("Count$"@.len() as int))->0 as i32)
    } else {
        None
    }
}

fn evaluate_cost_amount_count_expr(
    game: &GameState,
    source: &Card,
    t: &str,
    caster: PlayerId,
) -> (r: i32)
    ensures
        match cost_count(*game, *source, t@, caster) {
            Some(n) => r == n,
            None => r == counted(bare_scene(*game, source.id, source.controller), t@),
        },
{
    if text_eq(t, "Count$xPaid") || text_eq(t, "Count$XPaid") {
        return match source.get_s_var("XPaid") {
            Some(v) => parse_or(v, 0),
            None => 0,
        };
    }
    if let Some(kind) = strip_prefix(t, "Count$CardCounters.") {
        return if text_eq(kind, "ALL") {
            count_all(&source.counters)
        } else {
            count_of_kind(&source.counters, kind)
        };
    }
    if let Some(rest) = strip_prefix(t, "Count$ThisTurnCast_") {
        return if contains(rest, "YouCtrl") || contains(rest, "YouOwn") {
            count_spells_cast(game, source.controller)
        } else {
            count_spells_cast(game, caster)
        };
    }
    if text_eq(t, "Count$YourLifeTotal") {
        return match game.player(source.controller) {
            Some(p) => p.life,
            None => 0,
        };
    }
    if let Some(rest) = strip_prefix(t, "Count$Valid ") {
        let (filter, what) = split_or_all(rest, "$");
        let mut field: Vec<ZoneType> = Vec::new();
        field.push(ZoneType::Battlefield);
        assert(field@ =~= seq![ZoneType::Battlefield]);
        let ids = list_cards_in_zones(game, &field);
        let found = cards_matching(game, &ids, filter, source.id, source.controller);
        return count_valid_aggregate(game, &found, what);
    }
    if let Some(rest) = strip_prefix(t, "Count$") {
        if let Some(n) = parse_i32(rest) {
            return n;
        }
    }
    resolve_count_svar(t, game, source.id, source.controller)
}

/// The amount that a cost adjustment names: a number, or a script variable of its source.
pub fn resolve_cost_amount_svar(game: &GameState, source: &Card, name: &str, caster: PlayerId) -> (r:
    i32)
    ensures
        match int_value(name@) {
            Some(n) => r == n,
            None => match svar_value(source.svars@, name@) {
                None => r == 0,
                Some(t) => match cost_count(*game, *source, t, caster) {
                    Some(n) => r == n,
                    None => r == counted(bare_scene(*game, source.id, source.controller), t),
                },
            },
        },
{
    if let Some(n) = parse_i32(name) {
        return n;
    }
    match source.get_s_var(name) {
        Some(t) => evaluate_cost_amount_count_expr(game, source, t, caster),
        None => 0,
    }
}

// ---- filters on a single card ----

/// Whether a card has the counters that `counters_<condition>_<kind>` asks for.
pub open spec fn counter_qualified(card: Card, qualifier: Seq<char>) -> bool {
    let rest = qualifier.skip("counters_"@.len() as int);
    if has_prefix(qualifier, "counters_"@) && has_part(rest, "_"@) {
        compared_with(counters_of(card.counters@, after_mark(rest, "_"@)), before_mark(rest, "_"@))
    } else {
        true
    }
}

pub fn check_counter_qualifier(card: &Card, qualifier: &str) -> (r: bool)
    ensures
        r == counter_qualified(*card, qualifier@),
{
    if let Some(rest) = strip_prefix(qualifier, "counters_") {
        if let Some((condition, kind)) = split_once(rest, "_") {
            return compare_expr(count_of_kind(&card.counters, kind), condition);
        }
    }
    true
}

/// Whether a card is of the base type of a filter.
pub open spec fn of_base_type(card: Card, base: Seq<char>) -> bool {
    if base == "Creature"@ {
        card.types.creature
    } else if base == "Land"@ {
        card.types.land
    } else if base == "Artifact"@ {
        card.types.artifact
    } else if base == "Enchantment"@ {
        card.types.enchantment
    } else if base == "Planeswalker"@ {
        card.types.planeswalker
    } else if base == "Permanent"@ || base == "Card"@ {
        true
    } else {
        card.types.is_subtype(base)
    }
}

fn is_of_base_type(card: &Card, base: &str) -> (r: bool)
    ensures
        r == of_base_type(*card, base@),
{
    if text_eq(base, "Creature") {
        card.types.creature
    } else if text_eq(base, "Land") {
        card.types.land
    } else if text_eq(base, "Artifact") {
        card.types.artifact
    } else if text_eq(base, "Enchantment") {
        card.types.enchantment
    } else if text_eq(base, "Planeswalker") {
        card.types.planeswalker
    } else if text_eq(base, "Permanent") || text_eq(base, "Card") {
        true
    } else {
        card.types.has_subtype(base)
    }
}

/// Whether a card meets one qualifier of a filter; unknown qualifiers are met.
pub open spec fn qualified(
    card: Card,
    q: Seq<char>,
    controller: PlayerId,
    source: CardId,
    chosen: Option<Seq<char>>,
) -> bool {
    if same_ignoring_case(q, "YouCtrl"@) || same_ignoring_case(q, "YouControl"@) {
        card.controller == controller
    } else if same_ignoring_case(q, "Self"@) {
        card.id == source
    } else if same_ignoring_case(q, "Other"@) {
        card.id != source
    } else if same_ignoring_case(q, "ChosenType"@) {
        match chosen {
            Some(t) => card.types.is_subtype(t) || card.keyword("Changeling"@),
            None => false,
        }
    } else if has_prefix(q, "counters_"@) {
        counter_qualified(card, q)
    } else {
        true
    }
}

fn meets_qualifier(
    card: &Card,
    q: &str,
    controller: PlayerId,
    source: CardId,
    chosen: Option<&str>,
) -> (r: bool)
    ensures
        r == qualified(*card, q@, controller, source, crate::parsing::params::text_of(chosen)),
{
    if eq_ignore_case(q, "YouCtrl") || eq_ignore_case(q, "YouControl") {
        card.controller == controller
    } else if eq_ignore_case(q, "Self") {
        card.id == source
    } else if eq_ignore_case(q, "Other") {
        card.id != source
    } else if eq_ignore_case(q, "ChosenType") {
        match chosen {
            Some(t) => card.types.has_subtype(t) || card.has_keyword("Changeling"),
            None => false,
        }
    } else if starts_with(q, "counters_") {
        check_counter_qualifier(card, q)
    } else {
        true
    }
}

/// Whether a card meets all qualifiers between plus signs.
pub open spec fn all_qualified(
    card: Card,
    group: Seq<char>,
    controller: PlayerId,
    source: CardId,
    chosen: Option<Seq<char>>,
) -> bool {
    forall|i: int|
        0 <= i < pieces(group, "+"@).len() ==> qualified(
            card,
            trimmed(#[trigger] pieces(group, "+"@)[i]),
            controller,
            source,
            chosen,
        )
}

/// Whether a card matches `<type>[.<qualifier>[+<qualifier>]]...`.
pub open spec fn filter_matches(
    card: Card,
    filter: Seq<char>,
    controller: PlayerId,
    source: CardId,
    chosen: Option<Seq<char>>,
) -> bool {
    let parts = pieces(filter, "."@);
    &&& of_base_type(card, parts[0])
    &&& forall|i: int|
        1 <= i < parts.len() ==> all_qualified(
            card,
            #[trigger] parts[i],
            controller,
            source,
            chosen,
        )
}

fn meets_all_qualifiers(
    card: &Card,
    group: &str,
    controller: PlayerId,
    source: CardId,
    chosen: Option<&str>,
) -> (r: bool)
    ensures
        r == all_qualified(
            *card,
            group@,
            controller,
            source,
            crate::parsing::params::text_of(chosen),
        ),
{
    proof {
        reveal_strlit("+");
    }
    let qualifiers = split(group, "+");
    let ghost all = pieces(group@, "+"@);
    let mut i: usize = 0;
    while i < qualifiers.len()
        invariant
            i <= qualifiers@.len(),
            views(qualifiers@) == all,
            all == pieces(group@, "+"@),
            forall|k: int|
                0 <= k < i ==> qualified(
                    *card,
                    trimmed(#[trigger] all[k]),
                    controller,
                    source,
                    crate::parsing::params::text_of(chosen),
                ),
        decreases qualifiers@.len() - i,
    {
        assert(all[i as int] == qualifiers@[i as int]@);
        if !meets_qualifier(card, trim(qualifiers[i]), controller, source, chosen) {
            return false;
        }
        i = i + 1;
    }
    true
}

/// Checks a card against a filter such as `Forest.YouCtrl`.
pub fn valid_card_matches_with_source(
    filter: &str,
    card: &Card,
    controller: PlayerId,
    source: CardId,
    chosen_type: Option<&str>,
) -> (r: bool)
    ensures
        r == filter_matches(
            *card,
            filter@,
            controller,
            source,
            crate::parsing::params::text_of(chosen_type),
        ),
{
    proof {
        reveal_strlit(".");
    }
    let parts = split(filter, ".");
    let ghost all = pieces(filter@, "."@);
    assert(all[0] == parts@[0]@);
    if !is_of_base_type(card, parts[0]) {
        return false;
    }
    let mut i: usize = 1;
    while i < parts.len()
        invariant
            1 <= i <= parts@.len(),
            views(parts@) == all,
            all == pieces(filter@, "."@),
            forall|k: int|
                1 <= k < i ==> all_qualified(
                    *card,
                    #[trigger] all[k],
                    controller,
                    source,
                    crate::parsing::params::text_of(chosen_type),
                ),
        decreases parts@.len() - i,
    {
        assert(all[i as int] == parts@[i as int]@);
        if !meets_all_qualifiers(card, parts[i], controller, source, chosen_type) {
            return false;
        }
        i = i + 1;
    }
    true
}

} // verus!
