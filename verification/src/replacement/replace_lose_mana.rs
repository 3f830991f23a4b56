//! Replacement of the loss of mana.

use vstd::prelude::*;
use crate::game::{svar_value, Card, GameState};
use crate::parsing::params::{found, params_of, string_of, Params};
use crate::replacement::effect::ReplacementEffect;
use crate::replacement::event::{ReplacementEvent, ReplacementResult, ReplacementType};
use crate::replacement::rules::{allows_player, player_allowed};
use crate::mana::atoms::{atom_from_name, atom_named};
use crate::text::{lowered, to_lower};
use crate::types::CardId;

verus! {

/// Whether an effect on lost mana applies.
pub open spec fn lose_mana_replaceable(
    e: ReplacementEffect,
    event: ReplacementEvent,
    game: GameState,
    host: Card,
) -> bool {
    match event {
        ReplacementEvent::LoseMana { player, .. } => e.event == ReplacementType::LoseMana
            && player_allowed(game.facts, string_of(e.valid_player), host, player),
        _ => false,
    }
}

/// Checks whether an effect on lost mana applies.
pub fn can_replace(
    e: &ReplacementEffect,
    event: &ReplacementEvent,
    game: &GameState,
    host: &Card,
) -> (r: bool)
    ensures
        r == lose_mana_replaceable(*e, *event, *game, *host),
{
    match e.event {
        ReplacementType::LoseMana => {},
        _ => {
            return false;
        },
    }
    match event {
        ReplacementEvent::LoseMana { player, .. } => allows_player(
            &game.facts,
            &e.valid_player,
            host,
            *player,
        ),
        _ => false,
    }
}

/// The mana into which lost mana turns, where the script of an effect names one.
pub open spec fn mana_instead(e: ReplacementEffect, host: Option<Card>) -> Option<u16> {
    match (string_of(e.replace_with), host) {
        (Some(name), Some(h)) => match svar_value(h.svars@, name) {
            Some(raw) => match found(params_of(raw), "ReplaceType"@) {
                Some(t) => Some(atom_named(lowered(t))),
                None => None,
            },
            None => None,
        },
        _ => None,
    }
}

/// What an effect does to lost mana.
pub open spec fn lose_mana_done(
    e: ReplacementEffect,
    host: Option<Card>,
    before: ReplacementEvent,
) -> (ReplacementEvent, ReplacementResult) {
    if e.prevents || e.skips {
        (before, ReplacementResult::Skipped)
    } else {
        (
            match (mana_instead(e, host), before) {
                (
                    Some(mana),
                    ReplacementEvent::LoseMana { player, .. },
                ) => ReplacementEvent::LoseMana { player, mana },
                _ => before,
            },
            ReplacementResult::Replaced,
        )
    }
}

/// Carries an effect on lost mana out.
pub fn execute(
    e: &ReplacementEffect,
    event: &mut ReplacementEvent,
    game: &GameState,
    source: CardId,
) -> (r: ReplacementResult)
    ensures
        (*final(event), r) == lose_mana_done(*e, game.card_at(source), *old(event)),
{
    if e.prevents || e.skips {
        return ReplacementResult::Skipped;
    }
    if let Some(name) = &e.replace_with {
        if let Some(h) = game.card(source) {
            if let Some(raw) = h.get_s_var(name.as_str()) {
                let p = Params::from_raw(raw);
                if let Some(t) = p.get("ReplaceType") {
                    let lower = to_lower(t);
                    let atom: u16 = atom_from_name(lower.as_str());
                    if let ReplacementEvent::LoseMana { mana, .. } = event {
                        *mana = atom;
                    }
                }
            }
        }
    }
    ReplacementResult::Replaced
}

} // verus!
