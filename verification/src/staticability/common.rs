//! What all static abilities have in common.

use vstd::prelude::*;
use crate::game::{Card, Facts, StaticAbility, StaticMode};
use crate::parsing::params::string_of;
use crate::replacement::collect::is_static_source;
use crate::spell::SpellAbility;
use crate::types::{CardId, PlayerId, ZoneType};

verus! {

pub fn is_static_ability_source(zone: ZoneType) -> (r: bool)
    ensures
        r == is_static_source(zone),
{
    match zone {
        ZoneType::Battlefield => true,
        ZoneType::Graveyard => true,
        ZoneType::Exile => true,
        ZoneType::Command => true,
        ZoneType::Stack => true,
        _ => false,
    }
}

/// Whether a static ability works in a mode.
pub open spec fn works(st: StaticAbility, mode: StaticMode) -> bool {
    st.mode == mode && st.conditions_met
}

impl StaticAbility {
    /// Whether the ability is of a mode and its conditions hold.
    pub fn check_conditions_full(&self, mode: StaticMode) -> (r: bool)
        ensures
            r == works(*self, mode),
    {
        self.mode == mode && self.conditions_met
    }
}

/// Whether an optional selector of a host takes a card.
pub open spec fn takes_card(facts: Facts, selector: Option<Seq<char>>, host: Card, card: CardId) -> bool {
    match selector {
        Some(t) => facts.matches_card(t, host.id, host.controller, card),
        None => true,
    }
}

pub fn matches_valid_card_selector_opt(
    facts: &Facts,
    selector: &Option<String>,
    host: &Card,
    card: CardId,
) -> (r: bool)
    ensures
        r == takes_card(*facts, string_of(*selector), *host, card),
{
    match selector {
        Some(t) => facts.card_matches_selector(t.as_str(), host.id, host.controller, card),
        None => true,
    }
}

/// Whether an optional selector of a host takes a player.
pub open spec fn takes_player(
    facts: Facts,
    selector: Option<Seq<char>>,
    host: Card,
    player: PlayerId,
) -> bool {
    match selector {
        Some(t) => facts.matches_player(t, host.id, host.controller, player),
        None => true,
    }
}

pub fn matches_valid_player_selector_opt(
    facts: &Facts,
    selector: &Option<String>,
    host: &Card,
    player: PlayerId,
) -> (r: bool)
    ensures
        r == takes_player(*facts, string_of(*selector), *host, player),
{
    match selector {
        Some(t) => facts.player_matches_selector(t.as_str(), host.id, host.controller, player),
        None => true,
    }
}

/// Whether an optional filter of a host takes a spell ability.
pub open spec fn takes_ability(
    facts: Facts,
    filter: Option<Seq<char>>,
    ability: u32,
    host: CardId,
) -> bool {
    match filter {
        Some(t) => facts.matches_ability(t, ability, host),
        None => true,
    }
}

pub fn matches_valid_sa_opt(
    facts: &Facts,
    filter: &Option<String>,
    sa: &SpellAbility,
    host: CardId,
) -> (r: bool)
    ensures
        r == takes_ability(*facts, string_of(*filter), sa.id, host),
{
    match filter {
        Some(t) => facts.ability_matches_filter(t.as_str(), sa.id, host),
        None => true,
    }
}

} // verus!
