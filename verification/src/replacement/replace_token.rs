//! Replacement of the creation of tokens.

use vstd::prelude::*;
use crate::game::{svar_value, Card, Facts, GameState};
use crate::parsing::params::{found, params_of, string_of, Params};
use crate::replacement::effect::ReplacementEffect;
use crate::replacement::event::{
    ReplacementEvent, ReplacementResult, ReplacementType, TokenCreateTable, TokenEntry,
};
use crate::replacement::kinds::{Begun, BegunView};
use crate::replacement::replace_moved::find_ability_script;
use crate::replacement::rules::{allows_card, allows_player, card_allowed, player_allowed};
use crate::text::text_eq;
use crate::types::CardId;

verus! {

/// How many of the tokens in a table an effect is about.
pub open spec fn tokens_counted(
    entries: Seq<TokenEntry>,
    e: ReplacementEffect,
    facts: Facts,
    host: Card,
) -> nat
    decreases entries.len(),
{
    if entries.len() == 0 {
        0
    } else {
        let before = tokens_counted(entries.drop_last(), e, facts, host);
        let t = entries.last();
        if player_allowed(facts, string_of(e.valid_player), host, t.player) && card_allowed(
            facts,
            string_of(e.valid_token),
            host,
            t.token,
        ) {
            before + t.amount as nat
        } else {
            before
        }
    }
}

/// Counts the tokens that an effect is about; at most `u64::MAX` of them.
pub fn filter_amount(e: &ReplacementEffect, table: &TokenCreateTable, facts: &Facts, host: &Card) -> (r:
    u64)
    ensures
        r == tokens_counted(table.entries@, *e, *facts, *host) || (r == u64::MAX
            && tokens_counted(table.entries@, *e, *facts, *host) > u64::MAX),
        r > 0 <==> tokens_counted(table.entries@, *e, *facts, *host) > 0,
{
    let ghost all = table.entries@;
    let mut n: u64 = 0;
    let mut i: usize = 0;
    while i < table.entries.len()
        invariant
            i <= all.len(),
            all == table.entries@,
            n == tokens_counted(all.take(i as int), *e, *facts, *host) || (n == u64::MAX
                && tokens_counted(all.take(i as int), *e, *facts, *host) > u64::MAX),
        decreases all.len() - i,
    {
        assert(all.take(i + 1).drop_last() =~= all.take(i as int));
        let t = &table.entries[i];
        if allows_player(facts, &e.valid_player, host, t.player) && allows_card(
            facts,
            &e.valid_token,
            host,
            t.token,
        ) {
            n = n.saturating_add(t.amount as u64);
        }
        i = i + 1;
    }
    assert(all.take(i as int) =~= all);
    n
}

/// Whether an effect on tokens applies.
pub open spec fn token_replaceable(
    e: ReplacementEffect,
    event: ReplacementEvent,
    game: GameState,
    host: Card,
) -> bool {
    match event {
        ReplacementEvent::CreateToken { player, token_table, is_effect } => {
            &&& e.event == ReplacementType::CreateToken
            &&& e.effect_only ==> is_effect
            &&& player_allowed(game.facts, string_of(e.valid_player), host, player)
            &&& tokens_counted(token_table.entries@, e, game.facts, host) > 0
        },
        _ => false,
    }
}

/// Checks whether an effect on tokens applies.
pub fn can_replace(
    e: &ReplacementEffect,
    event: &ReplacementEvent,
    game: &GameState,
    host: &Card,
) -> (r: bool)
    ensures
        r == token_replaceable(*e, *event, *game, *host),
{
    match e.event {
        ReplacementType::CreateToken => {},
        _ => {
            return false;
        },
    }
    match event {
        ReplacementEvent::CreateToken { player, token_table, is_effect } => {
            if e.effect_only && !*is_effect {
                return false;
            }
            if !allows_player(&game.facts, &e.valid_player, host, *player) {
                return false;
            }
            filter_amount(e, token_table, &game.facts, host) > 0
        },
        _ => false,
    }
}

/// How an effect on tokens begins: a token script happens, any other effect replaces the event.
pub open spec fn token_begun(
    e: ReplacementEffect,
    host: Option<Card>,
    event: ReplacementEvent,
) -> BegunView {
    if event is CreateToken {
        let script = match string_of(e.replace_with) {
            Some(name) => match host {
                Some(h) => e.script(h, name),
                None => svar_value(e.svars@, name),
            },
            None => None,
        };
        match script {
            Some(raw) if found(params_of(raw), "DB"@) == Some("ReplaceToken"@) => BegunView::Ability(
                raw,
            ),
            _ => BegunView::Over(ReplacementResult::Replaced),
        }
    } else {
        BegunView::Over(ReplacementResult::NotReplaced)
    }
}

/// Begins an effect on tokens.
pub fn execute(
    e: &ReplacementEffect,
    event: &ReplacementEvent,
    game: &GameState,
    source: CardId,
) -> (r: Begun)
    ensures
        r@ == token_begun(*e, game.card_at(source), *event),
{
    match event {
        ReplacementEvent::CreateToken { .. } => {},
        _ => {
            return Begun::Over(ReplacementResult::NotReplaced);
        },
    }
    if let Some(name) = &e.replace_with {
        if let Some(raw) = find_ability_script(e, game, source, name.as_str()) {
            let p = Params::from_raw(raw);
            if let Some(db) = p.get("DB") {
                if text_eq(db, "ReplaceToken") {
                    return Begun::Ability(raw.to_string());
                }
            }
        }
    }
    Begun::Over(ReplacementResult::Replaced)
}

} // verus!
