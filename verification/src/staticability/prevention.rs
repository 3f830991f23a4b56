//! Damage that cannot be prevented.

use vstd::prelude::*;
use crate::game::{Card, Facts, GameState, StaticAbility, StaticMode};
use crate::parsing::params::string_of;
use crate::replacement::collect::is_static_source;
use crate::staticability::common::{
    is_static_ability_source, matches_valid_card_selector_opt, takes_card, works,
};
use crate::types::CardId;

verus! {

/// Whether a static ability speaks of damage from a source.
pub open spec fn speaks_of(
    facts: Facts,
    st: StaticAbility,
    source: CardId,
    host: Card,
    is_combat: bool,
) -> bool {
    (st.is_combat matches Some(required) ==> required == is_combat) && takes_card(
        facts,
        string_of(st.valid_source),
        host,
        source,
    )
}

pub fn apply_cant_prevent_damage(
    facts: &Facts,
    st_ab: &StaticAbility,
    damage_source: CardId,
    host: &Card,
    is_combat: bool,
) -> (r: bool)
    ensures
        r == speaks_of(*facts, *st_ab, damage_source, *host, is_combat),
{
    if let Some(required) = st_ab.is_combat {
        if required != is_combat {
            return false;
        }
    }
    matches_valid_card_selector_opt(facts, &st_ab.valid_source, host, damage_source)
}

/// Whether a static ability of a card keeps damage from being prevented.
pub open spec fn keeps_damage(game: GameState, host: Card, source: CardId, is_combat: bool) -> bool {
    (is_static_source(host.zone) || host.id == source) && exists|k: int|
        0 <= k < host.static_abilities@.len() && works(
            #[trigger] host.static_abilities@[k],
            StaticMode::CantPreventDamage,
        ) && speaks_of(game.facts, host.static_abilities@[k], source, host, is_combat)
}

fn check_keeps_damage(game: &GameState, host: &Card, source: CardId, is_combat: bool) -> (r: bool)
    ensures
        r == keeps_damage(*game, *host, source, is_combat),
{
    if !is_static_ability_source(host.zone) && host.id != source {
        return false;
    }
    let mut k: usize = 0;
    while k < host.static_abilities.len()
        invariant
            k <= host.static_abilities@.len(),
            is_static_source(host.zone) || host.id == source,
            forall|j: int|
                0 <= j < k ==> !(works(
                    #[trigger] host.static_abilities@[j],
                    StaticMode::CantPreventDamage,
                ) && speaks_of(game.facts, host.static_abilities@[j], source, *host, is_combat)),
        decreases host.static_abilities@.len() - k,
    {
        let st = &host.static_abilities[k];
        if st.check_conditions_full(StaticMode::CantPreventDamage) && apply_cant_prevent_damage(
            &game.facts,
            st,
            source,
            host,
            is_combat,
        ) {
            assert(works(host.static_abilities@[k as int], StaticMode::CantPreventDamage));
            return true;
        }
        k = k + 1;
    }
    false
}

/// Whether damage from a source cannot be prevented.
pub open spec fn is_unpreventable(game: GameState, source: CardId, is_combat: bool) -> bool {
    exists|i: int|
        0 <= i < game.cards@.len() && keeps_damage(
            game,
            #[trigger] game.cards@[i],
            source,
            is_combat,
        )
}

pub fn cant_prevent_damage(game: &GameState, source_id: CardId, is_combat: bool) -> (r: bool)
    ensures
        r == is_unpreventable(*game, source_id, is_combat),
{
    let mut i: usize = 0;
    while i < game.cards.len()
        invariant
            i <= game.cards@.len(),
            forall|j: int|
                0 <= j < i ==> !keeps_damage(
                    *game,
                    #[trigger] game.cards@[j],
                    source_id,
                    is_combat,
                ),
        decreases game.cards@.len() - i,
    {
        if check_keeps_damage(game, &game.cards[i], source_id, is_combat) {
            assert(keeps_damage(*game, game.cards@[i as int], source_id, is_combat));
            return true;
        }
        i = i + 1;
    }
    false
}

} // verus!
