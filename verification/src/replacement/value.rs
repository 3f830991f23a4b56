//! Values that replacement effects compute, and what they write into an event.

use vstd::prelude::*;
use crate::game::{svar_value, GameState};
use crate::parsing::params::string_of;
use crate::replacement::effect::ReplacementChainIr;
use crate::replacement::event::{
    event_amount, event_kind, face_named, not_negative, replacement_event_amount,
    set_replacement_event_affected,
    set_replacement_event_amount, with_affected, with_amount, IgnoredDice, PlanarDieFace,
    ReplacementEvent, ReplacementResult,
};
use crate::spell::{GameEntity, SpellAbility};
use crate::svar::count::{find_first_opponent, first_opponent};
use crate::svar::eval::{after_math, bare_scene, do_x_math, MAX_SVAR_RESOLUTION_DEPTH};
use crate::svar::scene::Scene;
use crate::text::{
    after_mark, before_mark, has_prefix, int_value, parse_i32, split_or_all, strip_prefix, text_eq,
    trim, trimmed,
};
use crate::types::{CardId, PlayerId};

verus! {

/// How many values in a row may name script variables of a card: as many as it has. Only values
/// that name themselves go further.
pub open spec fn value_depth(game: GameState, source: CardId) -> nat {
    match game.card_at(source) {
        Some(c) => c.svars@.len(),
        None => 0,
    }
}

/// What a value that an effect computes from an event comes to.
pub open spec fn replace_number(
    expr: Seq<char>,
    game: GameState,
    source: CardId,
    event: ReplacementEvent,
) -> Option<i32> {
    replace_value(expr, game, source, event, value_depth(game, source))
}

/// The number of an event that `ReplaceCount$` names.
pub open spec fn replaced_number(field: Seq<char>, event: ReplacementEvent) -> Option<i32> {
    if field == "DamageAmount"@ || field == "LifeGained"@ || field == "Amount"@ || field
        == "Number"@ || field == "TokenNum"@ || field == "CounterNum"@ || field == "Num"@ {
        event_amount(event)
    } else if field == "Ignore"@ {
        match event {
            ReplacementEvent::RollDice { ignore, .. } => Some(ignore),
            ReplacementEvent::RollPlanarDice { ignore, .. } => Some(ignore),
            _ => None,
        }
    } else {
        None
    }
}

fn read_replaced_number(field: &str, event: &ReplacementEvent) -> (r: Option<i32>)
    ensures
        r == replaced_number(field@, *event),
{
    if text_eq(field, "DamageAmount") || text_eq(field, "LifeGained") || text_eq(field, "Amount")
        || text_eq(field, "Number") || text_eq(field, "TokenNum") || text_eq(field, "CounterNum")
        || text_eq(field, "Num") {
        return replacement_event_amount(event);
    }
    if text_eq(field, "Ignore") {
        return match event {
            ReplacementEvent::RollDice { ignore, .. } => Some(*ignore),
            ReplacementEvent::RollPlanarDice { ignore, .. } => Some(*ignore),
            _ => None,
        };
    }
    None
}

/// A number, a script variable of the source, or a number of the event with an operator.
pub open spec fn replace_value(
    expr: Seq<char>,
    game: GameState,
    source: CardId,
    event: ReplacementEvent,
    depth: nat,
) -> Option<i32>
    decreases depth,
{
    let t = trimmed(expr);
    match int_value(t) {
        Some(n) => Some(n as i32),
        None => match game.card_at(source) {
            None => None,
            Some(host) => match svar_value(host.svars@, t) {
                Some(raw) => if depth == 0 {
                    None
                } else {
                    replace_value(raw, game, source, event, (depth - 1) as nat)
                },
                None => if has_prefix(t, "ReplaceCount$"@) {
                    let rest = t.skip("ReplaceCount$"@.len() as int);
                    match replaced_number(before_mark(rest, "/"@), event) {
                        Some(base) => Some(
                            after_math(
                                bare_scene(game, source, host.controller),
                                MAX_SVAR_RESOLUTION_DEPTH,
                                base,
                                after_mark(rest, "/"@),
                            ),
                        ),
                        None => None,
                    }
                } else {
                    None
                },
            },
        },
    }
}

fn replace_value_at(
    expr: &str,
    game: &GameState,
    source: CardId,
    event: &ReplacementEvent,
    depth: usize,
) -> (r: Option<i32>)
    ensures
        r == replace_value(expr@, *game, source, *event, depth as nat),
    decreases depth,
{
    let t = trim(expr);
    if let Some(n) = parse_i32(t) {
        return Some(n);
    }
    let host = match game.card(source) {
        Some(c) => c,
        None => {
            return None;
        },
    };
    if let Some(raw) = host.get_s_var(t) {
        return if depth == 0 {
            None
        } else {
            replace_value_at(raw, game, source, event, depth - 1)
        };
    }
    if let Some(rest) = strip_prefix(t, "ReplaceCount$") {
        let (field, operators) = split_or_all(rest, "/");
        if let Some(base) = read_replaced_number(field, event) {
            let sa = SpellAbility::new_empty(Some(source), host.controller);
            let s = Scene { game, source, you: host.controller, sa: &sa };
            assert(s@ == bare_scene(*game, source, host.controller));
            return Some(do_x_math(s, MAX_SVAR_RESOLUTION_DEPTH, base, operators));
        }
    }
    None
}

/// Evaluates a value that an effect computes from an event.
pub fn resolve_replace_value(
    expr: &str,
    game: &GameState,
    source: CardId,
    event: &ReplacementEvent,
) -> (r: Option<i32>)
    ensures
        r == replace_number(expr@, *game, source, *event),
{
    let depth: usize = match game.card(source) {
        Some(c) => c.svars.len(),
        None => 0,
    };
    replace_value_at(expr, game, source, event, depth)
}

/// The player that a key names.
pub open spec fn keyed_player(
    expr: Seq<char>,
    game: GameState,
    source: CardId,
    event: ReplacementEvent,
) -> Option<PlayerId> {
    let t = trimmed(expr);
    let controller_of = |id: CardId|
        match game.card_at(id) {
            Some(c) => Some(c.controller),
            None => None,
        };
    if t == "You"@ {
        controller_of(source)
    } else if t == "Affected"@ {
        match event {
            ReplacementEvent::RollDice { player, .. } => Some(player),
            _ => None,
        }
    } else if t == "Opponent"@ {
        match controller_of(source) {
            Some(you) => first_opponent(game, game.player_order@, you),
            None => None,
        }
    } else if t == "ReplacedSourceController"@ {
        match event {
            ReplacementEvent::DamageToCard { source: Some(id), .. } => controller_of(id),
            ReplacementEvent::DamageToPlayer { source: Some(id), .. } => controller_of(id),
            _ => None,
        }
    } else if t == "ReplacedTargetController"@ {
        match event {
            ReplacementEvent::DamageToCard { target, .. } => controller_of(target),
            _ => None,
        }
    } else {
        None
    }
}

fn controller_of(game: &GameState, id: CardId) -> (r: Option<PlayerId>)
    ensures
        r == (match game.card_at(id) {
            Some(c) => Some(c.controller),
            None => None,
        }),
{
    match game.card(id) {
        Some(c) => Some(c.controller),
        None => None,
    }
}

fn resolve_replace_player_key(
    expr: &str,
    game: &GameState,
    source: CardId,
    event: &ReplacementEvent,
) -> (r: Option<PlayerId>)
    ensures
        r == keyed_player(expr@, *game, source, *event),
{
    let t = trim(expr);
    if text_eq(t, "You") {
        return controller_of(game, source);
    }
    if text_eq(t, "Affected") {
        return match event {
            ReplacementEvent::RollDice { player, .. } => Some(*player),
            _ => None,
        };
    }
    if text_eq(t, "Opponent") {
        return match controller_of(game, source) {
            Some(you) => find_first_opponent(game, you),
            None => None,
        };
    }
    if text_eq(t, "ReplacedSourceController") {
        return match event {
            ReplacementEvent::DamageToCard { source: Some(id), .. } => controller_of(game, *id),
            ReplacementEvent::DamageToPlayer { source: Some(id), .. } => controller_of(game, *id),
            _ => None,
        };
    }
    if text_eq(t, "ReplacedTargetController") {
        return match event {
            ReplacementEvent::DamageToCard { target, .. } => controller_of(game, *target),
            _ => None,
        };
    }
    None
}

/// The card that a key names.
pub open spec fn keyed_card(expr: Seq<char>, source: CardId) -> Option<CardId> {
    if trimmed(expr) == "Self"@ {
        Some(source)
    } else {
        None
    }
}

fn resolve_replace_card_key(expr: &str, source: CardId) -> (r: Option<CardId>)
    ensures
        r == keyed_card(expr@, source),
{
    if text_eq(trim(expr), "Self") {
        Some(source)
    } else {
        None
    }
}

// ---- writing values ----

/// How many dice each player may ignore.
pub open spec fn ignored(v: Seq<IgnoredDice>) -> Map<PlayerId, i32>
    decreases v.len(),
{
    if v.len() == 0 {
        Map::empty()
    } else {
        ignored(v.drop_last()).insert(v.last().player, v.last().amount)
    }
}

/// How many dice a player may ignore, where that is set.
pub fn ignored_by(v: &Vec<IgnoredDice>, player: PlayerId) -> (r: Option<i32>)
    ensures
        r is Some == ignored(v@).dom().contains(player),
        r matches Some(n) ==> ignored(v@)[player] == n,
{
    let ghost all = v@;
    let mut i: usize = v.len();
    assert(all.take(i as int) =~= all);
    while i > 0
        invariant
            i <= all.len(),
            all == v@,
            ignored(all).dom().contains(player) == ignored(all.take(i as int)).dom().contains(
                player,
            ),
            ignored(all).dom().contains(player) ==> ignored(all)[player] == ignored(
                all.take(i as int),
            )[player],
        decreases i,
    {
        assert(all.take(i as int).drop_last() =~= all.take(i - 1));
        assert(all.take(i as int).last() == all[i - 1]);
        if v[i - 1].player == player {
            return Some(v[i - 1].amount);
        }
        i = i - 1;
    }
    None
}

/// The event with another number of ignored dice.
pub open spec fn with_ignore(event: ReplacementEvent, value: i32) -> ReplacementEvent {
    match event {
        ReplacementEvent::RollDice {
            player,
            sides,
            number,
            ignore_chosen,
            dice_pt_exchanges,
            ..
        } => ReplacementEvent::RollDice {
            player,
            sides,
            number,
            ignore: value,
            ignore_chosen,
            dice_pt_exchanges,
        },
        ReplacementEvent::RollPlanarDice { player, number, .. } => ReplacementEvent::RollPlanarDice {
            player,
            number,
            ignore: value,
        },
        _ => event,
    }
}

pub open spec fn has_ignore(event: ReplacementEvent) -> bool {
    event is RollDice || event is RollPlanarDice
}

/// Whether an event differs in one player's ignored dice alone.
pub open spec fn ignores_for(
    before: ReplacementEvent,
    after: ReplacementEvent,
    chooser: PlayerId,
    value: i32,
) -> bool {
    match (before, after) {
        (
            ReplacementEvent::RollDice {
                player,
                sides,
                number,
                ignore,
                ignore_chosen,
                dice_pt_exchanges,
            },
            ReplacementEvent::RollDice { ignore_chosen: chosen_after, .. },
        ) => {
            &&& ignored(chosen_after@) == ignored(ignore_chosen@).insert(chooser, value)
            &&& after == (ReplacementEvent::RollDice {
                player,
                sides,
                number,
                ignore,
                ignore_chosen: chosen_after,
                dice_pt_exchanges,
            })
        },
        _ => false,
    }
}

/// Whether an event differs in one more card of a die exchange alone.
pub open spec fn exchanges_with(
    before: ReplacementEvent,
    after: ReplacementEvent,
    card: CardId,
) -> bool {
    match (before, after) {
        (
            ReplacementEvent::RollDice {
                player,
                sides,
                number,
                ignore,
                ignore_chosen,
                dice_pt_exchanges,
            },
            ReplacementEvent::RollDice { dice_pt_exchanges: cards_after, .. },
        ) => {
            &&& cards_after@ == if dice_pt_exchanges@.contains(card) {
                dice_pt_exchanges@
            } else {
                dice_pt_exchanges@.push(card)
            }
            &&& after == (ReplacementEvent::RollDice {
                player,
                sides,
                number,
                ignore,
                ignore_chosen,
                dice_pt_exchanges: cards_after,
            })
        },
        _ => false,
    }
}

/// The card or player to whom damage is redirected.
pub open spec fn redirected_to(
    kind: Option<Seq<char>>,
    value: Option<Seq<char>>,
    game: GameState,
    source: CardId,
    event: ReplacementEvent,
) -> Option<GameEntity> {
    match (kind, value) {
        (Some(k), Some(v)) => if k == "Card"@ {
            let cards = game.facts.cards_defined(v, source);
            if cards.len() > 0 {
                Some(GameEntity::Card(cards[0]))
            } else {
                None
            }
        } else if k == "Player"@ {
            match keyed_player(v, game, source, event) {
                Some(p) => Some(GameEntity::Player(p)),
                None => None,
            }
        } else {
            None
        },
        _ => None,
    }
}

/// What a link that sets a variable does to an event; `updated` says whether it did anything.
pub open spec fn variable_set(
    name: Seq<char>,
    kind: Option<Seq<char>>,
    key: Option<Seq<char>>,
    value: Option<Seq<char>>,
    game: GameState,
    source: CardId,
    before: ReplacementEvent,
    after: ReplacementEvent,
    updated: bool,
) -> bool {
    let number = match value {
        Some(v) => replace_number(v, game, source, before),
        None => None,
    };
    if name == "DicePTExchanges"@ {
        match value {
            Some(v) if kind == Some("CardSet"@) && keyed_card(v, source) is Some
                && before is RollDice => updated && exchanges_with(
                before,
                after,
                keyed_card(v, source)->0,
            ),
            _ => !updated && after == before,
        }
    } else if name == "Result"@ {
        match (value, before) {
            (Some(v), ReplacementEvent::PlanarDiceResult { player, .. }) if face_named(
                v,
            ) is Some => updated && after == (ReplacementEvent::PlanarDiceResult {
                player,
                result: face_named(v)->0,
            }),
            _ => !updated && after == before,
        }
    } else if name == "Affected"@ {
        updated && after == match redirected_to(kind, value, game, source, before) {
            Some(entity) => with_affected(before, entity),
            None => before,
        }
    } else if name == "Ignore"@ {
        match number {
            Some(n) if has_ignore(before) => updated && after == with_ignore(
                before,
                not_negative(n),
            ),
            _ => !updated && after == before,
        }
    } else if name == "IgnoreChosen"@ {
        match (number, key) {
            (Some(n), Some(k)) if kind == Some("Map"@) && before is RollDice && keyed_player(
                k,
                game,
                source,
                before,
            ) is Some => updated && ignores_for(
                before,
                after,
                keyed_player(k, game, source, before)->0,
                not_negative(n),
            ),
            _ => !updated && after == before,
        }
    } else {
        match number {
            Some(n) if event_amount(before) is Some => updated && after == with_amount(
                before,
                not_negative(n),
            ),
            _ => !updated && after == before,
        }
    }
}

fn option_is(v: Option<&str>, t: &str) -> (r: bool)
    ensures
        r == (crate::parsing::params::text_of(v) == Some(t@)),
{
    match v {
        Some(x) => text_eq(x, t),
        None => false,
    }
}

fn set_variable(
    name: &str,
    kind: Option<&str>,
    key: Option<&str>,
    value: Option<&str>,
    game: &GameState,
    source: CardId,
    event: &mut ReplacementEvent,
) -> (updated: bool)
    ensures
        variable_set(
            name@,
            crate::parsing::params::text_of(kind),
            crate::parsing::params::text_of(key),
            crate::parsing::params::text_of(value),
            *game,
            source,
            *old(event),
            *final(event),
            updated,
        ),
{
    if text_eq(name, "DicePTExchanges") {
        if option_is(kind, "CardSet") {
            if let Some(v) = value {
                if let Some(card) = resolve_replace_card_key(v, source) {
                    if let ReplacementEvent::RollDice { dice_pt_exchanges, .. } = event {
                        if !crate::lists::has_card(dice_pt_exchanges, card) {
                            dice_pt_exchanges.push(card);
                        }
                        return true;
                    }
                }
            }
        }
        return false;
    }
    if text_eq(name, "Result") {
        if let Some(v) = value {
            if let Some(face) = PlanarDieFace::parse(v) {
                if let ReplacementEvent::PlanarDiceResult { result, .. } = event {
                    *result = face;
                    return true;
                }
            }
        }
        return false;
    }
    if text_eq(name, "Affected") {
        let mut entity: Option<GameEntity> = None;
        if let Some(v) = value {
            if option_is(kind, "Card") {
                let cards = game.facts.get_defined_cards(v, source);
                if cards.len() > 0 {
                    entity = Some(GameEntity::Card(cards[0]));
                }
            } else if option_is(kind, "Player") {
                if let Some(p) = resolve_replace_player_key(v, game, source, event) {
                    entity = Some(GameEntity::Player(p));
                }
            }
        }
        if let Some(e) = entity {
            set_replacement_event_affected(event, e);
        }
        return true;
    }
    let number: Option<i32> = match value {
        Some(v) => resolve_replace_value(v, game, source, event),
        None => None,
    };
    if let Some(n) = number {
        let v: i32 = if n < 0 {
            0
        } else {
            n
        };
        if text_eq(name, "Ignore") {
            match event {
                ReplacementEvent::RollDice { ignore, .. } => {
                    *ignore = v;
                    return true;
                },
                ReplacementEvent::RollPlanarDice { ignore, .. } => {
                    *ignore = v;
                    return true;
                },
                _ => {
                    return false;
                },
            }
        }
        if text_eq(name, "IgnoreChosen") {
            if option_is(kind, "Map") {
                if let Some(k) = key {
                    if let Some(player) = resolve_replace_player_key(k, game, source, event) {
                        if let ReplacementEvent::RollDice { ignore_chosen, .. } = event {
                            let ghost before = ignore_chosen@;
                            ignore_chosen.push(IgnoredDice { player, amount: v });
                            assert(ignore_chosen@.drop_last() =~= before);
                            return true;
                        }
                    }
                }
            }
            return false;
        }
        return set_replacement_event_amount(event, n);
    }
    false
}

/// What a chain does to an event. A required variable restricts the first link alone.
pub open spec fn chain_done(
    chain: ReplacementChainIr,
    game: GameState,
    source: CardId,
    required: Option<Seq<char>>,
    before: ReplacementEvent,
    after: ReplacementEvent,
    updated: bool,
) -> bool
    decreases chain,
{
    match chain {
        ReplacementChainIr::ReplaceCounter { amount } => {
            let value = replace_number(amount@, game, source, before);
            match value {
                Some(n) if event_amount(before) is Some => updated && after == with_amount(
                    before,
                    not_negative(n),
                ),
                _ => !updated && after == before,
            }
        },
        ReplacementChainIr::ReplaceEffect { var_name, var_type, var_key, var_value, sub_ability } => {
            exists|mid: ReplacementEvent, first: bool, rest: bool|
                #![trigger passes_on(mid, first, rest)]
                {
                    &&& passes_on(mid, first, rest) == updated
                    &&& match string_of(var_name) {
                        Some(name) if required is None || required == Some(name) => variable_set(
                            name,
                            string_of(var_type),
                            string_of(var_key),
                            string_of(var_value),
                            game,
                            source,
                            before,
                            mid,
                            first,
                        ),
                        _ => !first && mid == before,
                    }
                    &&& match sub_ability {
                        Some(sub) => chain_done(
                            *sub,
                            game,
                            source,
                            None,
                            mid,
                            after,
                            rest,
                        ),
                        None => !rest && after == mid,
                    }
                }
        },
    }
}

/// Whether a link or the links behind it did anything, with the event between them.
pub open spec fn passes_on(mid: ReplacementEvent, first: bool, rest: bool) -> bool {
    first || rest
}

/// Lets a chain write its values into an event.
pub fn execute_replace_effect_ir(
    chain: &ReplacementChainIr,
    event: &mut ReplacementEvent,
    game: &GameState,
    source: CardId,
    required: Option<&str>,
) -> (r: Option<ReplacementResult>)
    ensures
        chain_done(
            *chain,
            *game,
            source,
            crate::parsing::params::text_of(required),
            *old(event),
            *final(event),
            r is Some,
        ),
        r is Some ==> r == Some(ReplacementResult::Updated),
    decreases chain,
{
    match chain {
        ReplacementChainIr::ReplaceCounter { amount } => {
            if replacement_event_amount(event).is_none() {
                return None;
            }
            match resolve_replace_value(amount.as_str(), game, source, event) {
                Some(n) => {
                    set_replacement_event_amount(event, n);
                    Some(ReplacementResult::Updated)
                },
                None => None,
            }
        },
        ReplacementChainIr::ReplaceEffect { var_name, var_type, var_key, var_value, sub_ability } => {
            let mut updated = false;
            if let Some(name) = var_name {
                let wanted = match required {
                    Some(t) => text_eq(t, name.as_str()),
                    None => true,
                };
                if wanted {
                    updated = set_variable(
                        name.as_str(),
                        text_in(var_type),
                        text_in(var_key),
                        text_in(var_value),
                        game,
                        source,
                        event,
                    );
                }
            }
            let ghost mid = *event;
            let ghost first = updated;
            let mut rest = false;
            if let Some(sub) = sub_ability {
                rest = execute_replace_effect_ir(sub, event, game, source, None).is_some();
            }
            assert(passes_on(mid, first, rest) == (updated || rest));
            if updated || rest {
                Some(ReplacementResult::Updated)
            } else {
                None
            }
        },
    }
}

fn text_in(v: &Option<String>) -> (r: Option<&str>)
    ensures
        crate::parsing::params::text_of(r) == string_of(*v),
{
    match v {
        Some(t) => Some(t.as_str()),
        None => None,
    }
}

proof fn lemma_variable_keeps_kind(
    name: Seq<char>,
    kind: Option<Seq<char>>,
    key: Option<Seq<char>>,
    value: Option<Seq<char>>,
    game: GameState,
    source: CardId,
    before: ReplacementEvent,
    after: ReplacementEvent,
    updated: bool,
)
    requires
        variable_set(name, kind, key, value, game, source, before, after, updated),
    ensures
        event_kind(after) == event_kind(before),
        !updated ==> after == before,
{
}

/// What a chain writes into an event leaves its kind as it was: damage stays damage, a die roll
/// stays a die roll. A chain that wrote nothing left the event alone.
pub proof fn law_chain_keeps_the_kind(
    chain: ReplacementChainIr,
    game: GameState,
    source: CardId,
    required: Option<Seq<char>>,
    before: ReplacementEvent,
    after: ReplacementEvent,
    updated: bool,
)
    requires
        chain_done(chain, game, source, required, before, after, updated),
    ensures
        event_kind(after) == event_kind(before),
        !updated ==> after == before,
    decreases chain,
{
    if let ReplacementChainIr::ReplaceEffect { var_name, var_type, var_key, var_value, sub_ability } =
        chain {
        let (mid, first, rest) = choose|mid: ReplacementEvent, first: bool, rest: bool|
            #![trigger passes_on(mid, first, rest)]
            {
                &&& passes_on(mid, first, rest) == updated
                &&& match string_of(var_name) {
                    Some(name) if required is None || required == Some(name) => variable_set(
                        name,
                        string_of(var_type),
                        string_of(var_key),
                        string_of(var_value),
                        game,
                        source,
                        before,
                        mid,
                        first,
                    ),
                    _ => !first && mid == before,
                }
                &&& match sub_ability {
                    Some(sub) => chain_done(*sub, game, source, None, mid, after, rest),
                    None => !rest && after == mid,
                }
            };
        match string_of(var_name) {
            Some(name) if required is None || required == Some(name) => {
                lemma_variable_keeps_kind(
                    name,
                    string_of(var_type),
                    string_of(var_key),
                    string_of(var_value),
                    game,
                    source,
                    before,
                    mid,
                    first,
                );
            },
            _ => {},
        }
        if let Some(sub) = sub_ability {
            law_chain_keeps_the_kind(*sub, game, source, None, mid, after, rest);
        }
    }
}

} // verus!
