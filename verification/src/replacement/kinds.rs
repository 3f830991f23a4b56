//! The common rule of events without one of their own, and which rule an effect goes by.

use vstd::prelude::*;
use crate::game::{Card, GameState, Player};
use crate::parsing::params::string_of;
use crate::replacement::{
    replace_damage, replace_explore, replace_lose_mana, replace_moved, replace_token,
};
use crate::replacement::effect::ReplacementEffect;
use crate::replacement::event::{
    event_amount, event_kind, event_subject, kind_of_event, subject_of_event, ReplacementEvent,
    ReplacementResult, ReplacementType,
};
use crate::replacement::replace_damage::{damage_executed, damage_replaceable};
use crate::replacement::replace_explore::{explore_replaceable, instead_begun};
use crate::replacement::replace_lose_mana::{lose_mana_done, lose_mana_replaceable};
use crate::replacement::replace_moved::{
    exile_linked, exiling_card, links_exile, move_begun, move_replaceable, move_result, moving_card,
    read_move_result, ExileLink,
};
use crate::replacement::replace_token::{token_begun, token_replaceable};
use crate::replacement::rules::{
    allows_card, allows_player, apply_chain, card_allowed, chain_applied, player_allowed,
    read_result, result_named,
};
use crate::spell::GameEntity;
use crate::types::CardId;

verus! {

/// What is left to do once an effect has begun: nothing, or to let an ability happen.
pub enum Begun {
    Over(ReplacementResult),
    Ability(String),
}

/// The same over texts.
pub enum BegunView {
    Over(ReplacementResult),
    Ability(Seq<char>),
}

impl View for Begun {
    type V = BegunView;

    open spec fn view(&self) -> BegunView {
        match self {
            Begun::Over(r) => BegunView::Over(*r),
            Begun::Ability(t) => BegunView::Ability(t@),
        }
    }
}

// ---- all other events ----

/// Whether an effect on any other event applies: it is about that kind of event, and the player or
/// card is the one that it asks for.
pub open spec fn plainly_replaceable(
    e: ReplacementEffect,
    event: ReplacementEvent,
    game: GameState,
    host: Card,
) -> bool {
    &&& e.event == event_kind(event)
    &&& match event_subject(event) {
        GameEntity::Player(p) => player_allowed(game.facts, string_of(e.valid_player), host, p),
        GameEntity::Card(c) => card_allowed(game.facts, string_of(e.valid_card), host, c),
    }
    &&& match event {
        ReplacementEvent::RollDice { sides, .. } => e.valid_sides matches Some(n) ==> n == sides,
        ReplacementEvent::BeginPhase { phase, .. } => e.works_during(phase),
        _ => true,
    }
}

fn plainly_can_replace(
    e: &ReplacementEffect,
    event: &ReplacementEvent,
    game: &GameState,
    host: &Card,
) -> (r: bool)
    ensures
        r == plainly_replaceable(*e, *event, *game, *host),
{
    let kind = kind_of_event(event);
    if e.event != kind {
        return false;
    }
    let allowed = match subject_of_event(event) {
        GameEntity::Player(p) => allows_player(&game.facts, &e.valid_player, host, p),
        GameEntity::Card(c) => allows_card(&game.facts, &e.valid_card, host, c),
    };
    if !allowed {
        return false;
    }
    match event {
        ReplacementEvent::RollDice { sides, .. } => match e.valid_sides {
            Some(n) => n == *sides,
            None => true,
        },
        ReplacementEvent::BeginPhase { phase, .. } => e.matches_phase(*phase),
        _ => true,
    }
}

/// What an effect on any other event does: it skips the event, changes its values or replaces it.
pub open spec fn plainly_executed(
    e: ReplacementEffect,
    game: GameState,
    source: CardId,
    before: ReplacementEvent,
    after: ReplacementEvent,
    result: ReplacementResult,
) -> bool {
    if e.prevents || e.skips {
        after == before && result == ReplacementResult::Skipped
    } else {
        exists|updated: bool|
            #[trigger] chain_applied(e, game, source, before, after, updated) && result
                == match result_named(string_of(e.replacement_result)) {
                Some(r) => r,
                None => if updated {
                    ReplacementResult::Updated
                } else {
                    ReplacementResult::Replaced
                },
            }
    }
}

fn plainly_execute(
    e: &ReplacementEffect,
    event: &mut ReplacementEvent,
    game: &GameState,
    source: CardId,
) -> (r: ReplacementResult)
    ensures
        plainly_executed(*e, *game, source, *old(event), *final(event), r),
{
    if e.prevents || e.skips {
        return ReplacementResult::Skipped;
    }
    let updated = apply_chain(e, game, source, event);
    match read_result(&e.replacement_result) {
        Some(r) => r,
        None => if updated {
            ReplacementResult::Updated
        } else {
            ReplacementResult::Replaced
        },
    }
}

// ---- which rule ----

/// Whether an effect applies to an event, by the rule of its kind.
pub open spec fn replaceable(
    e: ReplacementEffect,
    event: ReplacementEvent,
    game: GameState,
    host: Card,
) -> bool {
    match e.event {
        ReplacementType::DamageDone => damage_replaceable(e, event, game, host),
        ReplacementType::Moved => move_replaceable(e, event, game, host),
        ReplacementType::CreateToken => token_replaceable(e, event, game, host),
        ReplacementType::Explore => explore_replaceable(e, event, game, host),
        ReplacementType::LoseMana => lose_mana_replaceable(e, event, game, host),
        ReplacementType::Other => false,
        _ => plainly_replaceable(e, event, game, host),
    }
}

pub fn can_replace(
    e: &ReplacementEffect,
    event: &ReplacementEvent,
    game: &GameState,
    host: &Card,
) -> (r: bool)
    ensures
        r == replaceable(*e, *event, *game, *host),
{
    match e.event {
        ReplacementType::DamageDone => replace_damage::can_replace(e, event, game, host),
        ReplacementType::Moved => replace_moved::can_replace(e, event, game, host),
        ReplacementType::CreateToken => replace_token::can_replace(e, event, game, host),
        ReplacementType::Explore => replace_explore::can_replace(e, event, game, host),
        ReplacementType::LoseMana => replace_lose_mana::can_replace(e, event, game, host),
        ReplacementType::Other => false,
        _ => plainly_can_replace(e, event, game, host),
    }
}

/// Whether effects of a kind let an ability happen instead of the event.
pub open spec fn happens_instead(kind: ReplacementType) -> bool {
    kind == ReplacementType::Explore || kind == ReplacementType::Connive || kind
        == ReplacementType::Transform || kind == ReplacementType::TurnFaceUp
}

/// How an effect begins, by the rule of its kind.
pub open spec fn effect_begun(
    e: ReplacementEffect,
    game: GameState,
    source: CardId,
    before: ReplacementEvent,
    after: ReplacementEvent,
    begun: BegunView,
) -> bool {
    match e.event {
        ReplacementType::DamageDone => begun matches BegunView::Over(r) && damage_executed(
            e,
            game,
            source,
            before,
            after,
            r,
        ),
        ReplacementType::Moved => (after, begun) == move_begun(e, game.card_at(source), before),
        ReplacementType::CreateToken => after == before && begun == token_begun(
            e,
            game.card_at(source),
            before,
        ),
        ReplacementType::LoseMana => begun matches BegunView::Over(r) && (after, r)
            == lose_mana_done(e, game.card_at(source), before),
        ReplacementType::Other => after == before && begun == BegunView::Over(
            ReplacementResult::NotReplaced,
        ),
        _ => if happens_instead(e.event) {
            after == before && begun == instead_begun(e, game.card_at(source))
        } else {
            begun matches BegunView::Over(r) && plainly_executed(
                e,
                game,
                source,
                before,
                after,
                r,
            )
        },
    }
}

/// What an effect that begins does to the game: an exiled card is linked, all else stays.
pub open spec fn effect_left_game(
    e: ReplacementEffect,
    source: CardId,
    event: ReplacementEvent,
    before: GameState,
    after: GameState,
) -> bool {
    match effect_link(e, source, event, before) {
        Some(link) => exile_linked(before, after, link.moving, link.exiler),
        None => after == before,
    }
}

/// The cards that an effect links as it begins.
pub open spec fn effect_link(
    e: ReplacementEffect,
    source: CardId,
    event: ReplacementEvent,
    game: GameState,
) -> Option<ExileLink> {
    if e.event == ReplacementType::Moved && links_exile(e, event) {
        Some(ExileLink { moving: moving_card(event), exiler: exiling_card(game, source) })
    } else {
        None
    }
}

/// Begins an effect, and says which cards are to be linked.
pub fn begin_effect(
    e: &ReplacementEffect,
    event: &mut ReplacementEvent,
    game: &GameState,
    source: CardId,
) -> (r: (Begun, Option<ExileLink>))
    ensures
        effect_begun(*e, *game, source, *old(event), *final(event), r.0@),
        r.1 == effect_link(*e, source, *old(event), *game),
{
    match e.event {
        ReplacementType::DamageDone => (Begun::Over(replace_damage::execute(e, event, game, source)), None),
        ReplacementType::Moved => replace_moved::execute(e, event, game, source),
        ReplacementType::CreateToken => (replace_token::execute(e, event, game, source), None),
        ReplacementType::LoseMana => (Begun::Over(replace_lose_mana::execute(e, event, game, source)), None),
        ReplacementType::Other => (Begun::Over(ReplacementResult::NotReplaced), None),
        ReplacementType::Explore => (replace_explore::execute(e, game, source), None),
        ReplacementType::Connive => (replace_explore::execute(e, game, source), None),
        ReplacementType::Transform => (replace_explore::execute(e, game, source), None),
        ReplacementType::TurnFaceUp => (replace_explore::execute(e, game, source), None),
        _ => (Begun::Over(plainly_execute(e, event, game, source)), None),
    }
}

/// The result of an effect after its ability happened, or could not.
pub open spec fn ability_result(e: ReplacementEffect, succeeded: bool) -> ReplacementResult {
    match e.event {
        ReplacementType::Moved => if succeeded {
            move_result(e)
        } else {
            ReplacementResult::NotReplaced
        },
        ReplacementType::CreateToken => if succeeded {
            ReplacementResult::Updated
        } else {
            ReplacementResult::NotReplaced
        },
        _ => ReplacementResult::Replaced,
    }
}

pub fn result_after_ability(e: &ReplacementEffect, succeeded: bool) -> (r: ReplacementResult)
    ensures
        r == ability_result(*e, succeeded),
{
    match e.event {
        ReplacementType::Moved => if succeeded {
            read_move_result(e)
        } else {
            ReplacementResult::NotReplaced
        },
        ReplacementType::CreateToken => if succeeded {
            ReplacementResult::Updated
        } else {
            ReplacementResult::NotReplaced
        },
        _ => ReplacementResult::Replaced,
    }
}

/// Preventing damage leaves none of it.
pub proof fn law_prevention_leaves_no_damage(
    e: ReplacementEffect,
    game: GameState,
    source: CardId,
    before: ReplacementEvent,
    after: ReplacementEvent,
    begun: BegunView,
)
    requires
        e.event == ReplacementType::DamageDone,
        e.prevents,
        event_kind(before) == ReplacementType::DamageDone,
        effect_begun(e, game, source, before, after, begun),
    ensures
        begun == BegunView::Over(ReplacementResult::Prevented),
        crate::replacement::event::event_amount(after) == Some(0i32),
        event_subject(after) == event_subject(before),
{
}

/// No effect on damage applies where no damage is dealt.
pub proof fn law_no_damage_is_not_replaced(
    e: ReplacementEffect,
    event: ReplacementEvent,
    game: GameState,
    host: Card,
)
    requires
        event_kind(event) == ReplacementType::DamageDone,
        crate::replacement::event::event_amount(event) matches Some(n) && n <= 0,
    ensures
        !replaceable(e, event, game, host),
{
}

} // verus!
