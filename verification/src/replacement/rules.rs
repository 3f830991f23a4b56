//! What the rules of replacement share: whom they allow, and what a chain of values does.

use vstd::prelude::*;
use crate::game::{Card, Facts, GameState};
use crate::parsing::params::string_of;
use crate::replacement::effect::{
    chain_reads, chain_script, more_links, resolve_replace_with_chain, ReplacementChainIr,
    ReplacementEffect,
};
use crate::replacement::event::{ReplacementEvent, ReplacementResult};
use crate::replacement::value::{chain_done, execute_replace_effect_ir};
use crate::text::text_eq;
use crate::types::{CardId, PlayerId};

verus! {

/// Whether a card is what a selector of an effect asks for, where there is one.
pub open spec fn card_allowed(
    facts: Facts,
    selector: Option<Seq<char>>,
    host: Card,
    card: CardId,
) -> bool {
    match selector {
        Some(t) => facts.matches_card(t, host.id, host.controller, card),
        None => true,
    }
}

pub fn allows_card(facts: &Facts, selector: &Option<String>, host: &Card, card: CardId) -> (r: bool)
    ensures
        r == card_allowed(*facts, string_of(*selector), *host, card),
{
    match selector {
        Some(t) => facts.card_matches_selector(t.as_str(), host.id, host.controller, card),
        None => true,
    }
}

pub open spec fn player_allowed(
    facts: Facts,
    selector: Option<Seq<char>>,
    host: Card,
    player: PlayerId,
) -> bool {
    match selector {
        Some(t) => facts.matches_player(t, host.id, host.controller, player),
        None => true,
    }
}

pub fn allows_player(
    facts: &Facts,
    selector: &Option<String>,
    host: &Card,
    player: PlayerId,
) -> (r: bool)
    ensures
        r == player_allowed(*facts, string_of(*selector), *host, player),
{
    match selector {
        Some(t) => facts.player_matches_selector(t.as_str(), host.id, host.controller, player),
        None => true,
    }
}

/// The result that a parameter names.
pub open spec fn result_named(name: Option<Seq<char>>) -> Option<ReplacementResult> {
    if name == Some("Updated"@) {
        Some(ReplacementResult::Updated)
    } else if name == Some("NotReplaced"@) {
        Some(ReplacementResult::NotReplaced)
    } else if name == Some("Prevented"@) {
        Some(ReplacementResult::Prevented)
    } else if name == Some("Skipped"@) {
        Some(ReplacementResult::Skipped)
    } else if name == Some("Replaced"@) {
        Some(ReplacementResult::Replaced)
    } else {
        None
    }
}

pub fn read_result(name: &Option<String>) -> (r: Option<ReplacementResult>)
    ensures
        r == result_named(string_of(*name)),
{
    match name {
        Some(n) => {
            let t = n.as_str();
            if text_eq(t, "Updated") {
                Some(ReplacementResult::Updated)
            } else if text_eq(t, "NotReplaced") {
                Some(ReplacementResult::NotReplaced)
            } else if text_eq(t, "Prevented") {
                Some(ReplacementResult::Prevented)
            } else if text_eq(t, "Skipped") {
                Some(ReplacementResult::Skipped)
            } else if text_eq(t, "Replaced") {
                Some(ReplacementResult::Replaced)
            } else {
                None
            }
        },
        None => None,
    }
}

/// What the chain of an effect does to an event; nothing where it names none.
pub open spec fn chain_applied(
    e: ReplacementEffect,
    game: GameState,
    source: CardId,
    before: ReplacementEvent,
    after: ReplacementEvent,
    updated: bool,
) -> bool {
    match game.card_at(source) {
        Some(host) => match chain_script(e, host) {
            Some(raw) => exists|c: ReplacementChainIr|
                chain_reads(c, e, host, raw, more_links(e, host)) && #[trigger] chain_done(
                    c,
                    game,
                    source,
                    None,
                    before,
                    after,
                    updated,
                ),
            None => !updated && after == before,
        },
        None => !updated && after == before,
    }
}

pub fn apply_chain(
    e: &ReplacementEffect,
    game: &GameState,
    source: CardId,
    event: &mut ReplacementEvent,
) -> (updated: bool)
    ensures
        chain_applied(*e, *game, source, *old(event), *final(event), updated),
{
    match game.card(source) {
        Some(host) => match resolve_replace_with_chain(e, host) {
            Some(c) => {
                let r = execute_replace_effect_ir(&c, event, game, source, None);
                r.is_some()
            },
            None => false,
        },
        None => false,
    }
}

} // verus!
