//! Replacement of explored cards.

use vstd::prelude::*;
use crate::game::{svar_value, Card, GameState};
use crate::parsing::params::string_of;
use crate::replacement::effect::ReplacementEffect;
use crate::replacement::event::{ReplacementEvent, ReplacementResult, ReplacementType};
use crate::replacement::kinds::{Begun, BegunView};
use crate::replacement::replace_moved::find_ability_script;
use crate::replacement::rules::{allows_card, card_allowed};
use crate::types::CardId;

verus! {

/// Whether an effect on exploring applies.
pub open spec fn explore_replaceable(
    e: ReplacementEffect,
    event: ReplacementEvent,
    game: GameState,
    host: Card,
) -> bool {
    match event {
        ReplacementEvent::Explore { card } => e.event == ReplacementType::Explore
            && if e.valid_explorer is Some {
            card_allowed(game.facts, string_of(e.valid_explorer), host, card)
        } else {
            card_allowed(game.facts, string_of(e.valid_card), host, card)
        },
        _ => false,
    }
}

/// Checks whether an effect on exploring applies.
pub fn can_replace(
    e: &ReplacementEffect,
    event: &ReplacementEvent,
    game: &GameState,
    host: &Card,
) -> (r: bool)
    ensures
        r == explore_replaceable(*e, *event, *game, *host),
{
    match e.event {
        ReplacementType::Explore => {},
        _ => {
            return false;
        },
    }
    match event {
        ReplacementEvent::Explore { card } => if e.valid_explorer.is_some() {
            allows_card(&game.facts, &e.valid_explorer, host, *card)
        } else {
            allows_card(&game.facts, &e.valid_card, host, *card)
        },
        _ => false,
    }
}

/// How an effect begins that lets an ability happen instead of the event.
pub open spec fn instead_begun(e: ReplacementEffect, host: Option<Card>) -> BegunView {
    if e.prevents || e.skips {
        BegunView::Over(ReplacementResult::Skipped)
    } else {
        let script = match string_of(e.replace_with) {
            Some(name) => match host {
                Some(h) => e.script(h, name),
                None => svar_value(e.svars@, name),
            },
            None => None,
        };
        match script {
            Some(raw) => BegunView::Ability(raw),
            None => BegunView::Over(ReplacementResult::Replaced),
        }
    }
}

/// Begins an effect that lets an ability happen instead of the event.
pub fn execute(e: &ReplacementEffect, game: &GameState, source: CardId) -> (r: Begun)
    ensures
        r@ == instead_begun(*e, game.card_at(source)),
{
    if e.prevents || e.skips {
        return Begun::Over(ReplacementResult::Skipped);
    }
    if let Some(name) = &e.replace_with {
        if let Some(raw) = find_ability_script(e, game, source, name.as_str()) {
            return Begun::Ability(raw.to_string());
        }
    }
    Begun::Over(ReplacementResult::Replaced)
}

} // verus!
