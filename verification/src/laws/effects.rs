//! What replacement effects make of events.

use vstd::prelude::*;
use crate::game::{svar_value, Card, EffectKey, GameState, PhaseType};
use crate::parsing::params::string_of;
use crate::replacement::collect::{
    applies, card_effects, card_skips_phase, card_skips_turn, effect_named, effects_of, layer_at, seen,
};
use crate::replacement::effect::ReplacementEffect;
use crate::replacement::event::{
    event_subject, player_of_entity, ReplacementEvent, ReplacementLayer, ReplacementResult,
    ReplacementType,
};
use crate::replacement::handler::{
    back, decider, eligible, follow, seek, settled, stepped, without, Frame, ReplacementHandler,
    ReplacementReply, ReplacementStep, RunState, Stop, Waiting,
};
use crate::replacement::kinds::{ability_result, effect_begun, replaceable, BegunView};
use crate::replacement::value::replace_number;
use crate::spell::GameEntity;
use crate::text::{law_number_is_read, number_text, trimmed};
use crate::types::{CardId, PlayerId, ZoneType};

verus! {

/// Whether an event is damage of an amount to someone, from a source, in combat or not.
pub open spec fn is_damage(
    event: ReplacementEvent,
    target: GameEntity,
    amount: int,
    source: Option<CardId>,
    is_combat: bool,
) -> bool {
    match (event, target) {
        (
            ReplacementEvent::DamageToPlayer { target: p, amount: n, source: s, is_combat: c },
            GameEntity::Player(q),
        ) => p == q && n == amount && s == source && c == is_combat,
        (
            ReplacementEvent::DamageToCard { target: p, amount: n, source: s, is_combat: c },
            GameEntity::Card(q),
        ) => p == q && n == amount && s == source && c == is_combat,
        _ => false,
    }
}

/// Whether an effect on damage names one of the built-in ways to change it.
pub open spec fn damage_mode(e: ReplacementEffect, mode: Seq<char>) -> bool {
    e.event == ReplacementType::DamageDone && !e.prevents && string_of(e.replace_with) == Some(mode)
}

proof fn lemma_modes()
    ensures
        "DmgTwice"@.len() == 8 && "DoubleDamage"@.len() == 12 && "DmgHalf"@.len() == 7
            && "HalfDamage"@.len() == 10 && "DmgPlus1"@.len() == 8 && "DmgPlus2"@.len() == 8,
        "DmgTwice"@[3] == 'T' && "DmgPlus1"@[3] == 'P' && "DmgPlus2"@[3] == 'P',
        "DmgPlus1"@[7] == '1' && "DmgPlus2"@[7] == '2',
{
    reveal_strlit("DmgTwice");
    reveal_strlit("DoubleDamage");
    reveal_strlit("DmgHalf");
    reveal_strlit("HalfDamage");
    reveal_strlit("DmgPlus1");
    reveal_strlit("DmgPlus2");
}

/// Doubled damage is the damage and the damage again, to the same one from the same source.
pub proof fn law_doubled_damage(
    e: ReplacementEffect,
    game: GameState,
    host: CardId,
    before: ReplacementEvent,
    after: ReplacementEvent,
    begun: BegunView,
    target: GameEntity,
    amount: i32,
    source: Option<CardId>,
    is_combat: bool,
)
    requires
        damage_mode(e, "DmgTwice"@) || damage_mode(e, "DoubleDamage"@),
        is_damage(before, target, amount as int, source, is_combat),
        i32::MIN <= amount + amount <= i32::MAX,
        effect_begun(e, game, host, before, after, begun),
    ensures
        is_damage(after, target, amount + amount, source, is_combat),
        begun == BegunView::Over(ReplacementResult::Updated),
{
    lemma_modes();
}

/// Half of damage, rounded up: twice the half is the damage, or one more where it was odd.
pub proof fn law_halved_damage(
    e: ReplacementEffect,
    game: GameState,
    host: CardId,
    before: ReplacementEvent,
    after: ReplacementEvent,
    begun: BegunView,
    target: GameEntity,
    amount: i32,
    source: Option<CardId>,
    is_combat: bool,
)
    requires
        damage_mode(e, "DmgHalf"@) || damage_mode(e, "HalfDamage"@),
        is_damage(before, target, amount as int, source, is_combat),
        0 <= amount < i32::MAX,
        effect_begun(e, game, host, before, after, begun),
    ensures
        exists|h: int|
            #[trigger] is_damage(after, target, h, source, is_combat) && amount <= h + h <= amount
                + 1,
        begun == BegunView::Over(ReplacementResult::Updated),
{
    lemma_modes();
    let h = (amount + 1) / 2;
    assert(is_damage(after, target, h as int, source, is_combat));
}

/// Halving doubled damage gives the damage again.
pub proof fn law_half_undoes_double(
    double: ReplacementEffect,
    half: ReplacementEffect,
    game: GameState,
    host: CardId,
    before: ReplacementEvent,
    mid: ReplacementEvent,
    after: ReplacementEvent,
    first: BegunView,
    second: BegunView,
    target: GameEntity,
    amount: i32,
    source: Option<CardId>,
    is_combat: bool,
)
    requires
        damage_mode(double, "DmgTwice"@) || damage_mode(double, "DoubleDamage"@),
        damage_mode(half, "DmgHalf"@) || damage_mode(half, "HalfDamage"@),
        is_damage(before, target, amount as int, source, is_combat),
        0 <= amount,
        amount + amount < i32::MAX,
        effect_begun(double, game, host, before, mid, first),
        effect_begun(half, game, host, mid, after, second),
    ensures
        after == before,
{
    law_doubled_damage(
        double,
        game,
        host,
        before,
        mid,
        first,
        target,
        amount,
        source,
        is_combat,
    );
    law_halved_damage(
        half,
        game,
        host,
        mid,
        after,
        second,
        target,
        (amount + amount) as i32,
        source,
        is_combat,
    );
    let h = choose|h: int|
        #[trigger] is_damage(after, target, h, source, is_combat) && amount + amount <= h + h
            <= amount + amount + 1;
    assert(h == amount);
}

/// Damage plus one or two is so much more.
pub proof fn law_more_damage(
    e: ReplacementEffect,
    game: GameState,
    host: CardId,
    before: ReplacementEvent,
    after: ReplacementEvent,
    begun: BegunView,
    target: GameEntity,
    amount: i32,
    source: Option<CardId>,
    is_combat: bool,
    more: int,
)
    requires
        (more == 1 && damage_mode(e, "DmgPlus1"@)) || (more == 2 && damage_mode(e, "DmgPlus2"@)),
        is_damage(before, target, amount as int, source, is_combat),
        amount + more <= i32::MAX,
        effect_begun(e, game, host, before, after, begun),
    ensures
        is_damage(after, target, amount + more, source, is_combat),
        begun == BegunView::Over(ReplacementResult::Updated),
{
    lemma_modes();
}

/// Prevented damage is none, and to nobody else.
pub proof fn law_prevented_damage(
    e: ReplacementEffect,
    game: GameState,
    host: CardId,
    before: ReplacementEvent,
    after: ReplacementEvent,
    begun: BegunView,
    target: GameEntity,
    amount: i32,
    source: Option<CardId>,
    is_combat: bool,
)
    requires
        e.event == ReplacementType::DamageDone,
        e.prevents,
        is_damage(before, target, amount as int, source, is_combat),
        effect_begun(e, game, host, before, after, begun),
    ensures
        is_damage(after, target, 0, source, is_combat),
        begun == BegunView::Over(ReplacementResult::Prevented),
{
}

/// An effect on damage applies only to damage that there is, of the kind and from the source and to
/// the target that it names; and one that names nothing applies to all damage that there is.
pub proof fn law_which_damage_is_replaced(
    e: ReplacementEffect,
    event: ReplacementEvent,
    game: GameState,
    host: Card,
    target: GameEntity,
    amount: i32,
    source: Option<CardId>,
    is_combat: bool,
)
    requires
        e.event == ReplacementType::DamageDone,
        is_damage(event, target, amount as int, source, is_combat),
    ensures
        replaceable(e, event, game, host) ==> {
            &&& amount > 0
            &&& e.is_combat matches Some(b) ==> b == is_combat
            &&& e.valid_source matches Some(t) ==> (source matches Some(s)
                && game.facts.matches_card(t@, host.id, host.controller, s))
            &&& e.valid_target matches Some(t) ==> match target {
                GameEntity::Player(p) => game.facts.matches_player(
                    t@,
                    host.id,
                    host.controller,
                    p,
                ),
                GameEntity::Card(c) => game.facts.matches_card(t@, host.id, host.controller, c),
            }
        },
        amount > 0 && e.is_combat is None && e.valid_source is None && e.valid_target is None
            && e.max_speed is None && e.damage_amount is None && e.damage_target is None
            ==> replaceable(e, event, game, host),
        amount > 0 && e.is_combat == Some(is_combat) && e.valid_source is None
            && e.valid_target is None && e.max_speed is None && e.damage_amount is None
            && e.damage_target is None ==> replaceable(e, event, game, host),
{
}

/// An effect on damage that asks for the greatest speed applies exactly where the player of its card
/// has it, and one that asks for its absence where they have not.
pub proof fn law_speed_of_damage_effects(
    e: ReplacementEffect,
    event: ReplacementEvent,
    game: GameState,
    host: Card,
    wanted: bool,
)
    requires
        e.event == ReplacementType::DamageDone,
        e.max_speed == Some(wanted),
        replaceable(e, event, game, host),
        game.player_at(host.controller) is Some,
    ensures
        wanted <==> game.player_at(host.controller)->0.speed == 4,
{
}

// ---- moves ----

/// Whether an event moves a card from a zone to another.
pub open spec fn is_move(
    event: ReplacementEvent,
    id: CardId,
    from: ZoneType,
    to: ZoneType,
) -> bool {
    event matches ReplacementEvent::Moved { card, origin, destination, .. } && card == id && origin
        == from && destination == to
}

/// The zones that a card can be sent to instead.
pub open spec fn new_zones() -> Seq<(Seq<char>, ZoneType)> {
    seq![
        ("Exile"@, ZoneType::Exile),
        ("Graveyard"@, ZoneType::Graveyard),
        ("Hand"@, ZoneType::Hand),
        ("Library"@, ZoneType::Library),
        ("Battlefield"@, ZoneType::Battlefield),
        ("Command"@, ZoneType::Command),
    ]
}

proof fn lemma_zone_names()
    ensures
        "Exile"@.len() == 5 && "Graveyard"@.len() == 9 && "Hand"@.len() == 4 && "Library"@.len() == 7
            && "Battlefield"@.len() == 11 && "Command"@.len() == 7,
        "Library"@[0] == 'L' && "Command"@[0] == 'C',
{
    reveal_strlit("Exile");
    reveal_strlit("Graveyard");
    reveal_strlit("Hand");
    reveal_strlit("Library");
    reveal_strlit("Battlefield");
    reveal_strlit("Command");
}

/// An effect that names a new destination sends the card there from where it was; it is the same
/// card, and the move was updated.
pub proof fn law_new_destination(
    e: ReplacementEffect,
    game: GameState,
    host: CardId,
    before: ReplacementEvent,
    after: ReplacementEvent,
    begun: BegunView,
    id: CardId,
    from: ZoneType,
    to: ZoneType,
    i: int,
)
    requires
        e.event == ReplacementType::Moved,
        0 <= i < 6,
        e.new_destination matches Some(t) && trimmed(t@) == new_zones()[i].0,
        is_move(before, id, from, to),
        effect_begun(e, game, host, before, after, begun),
    ensures
        is_move(after, id, from, new_zones()[i].1),
        begun == BegunView::Over(ReplacementResult::Updated),
        after->is_discard == before->is_discard,
        after->Moved_fizzle == before->Moved_fizzle,
        after->Moved_counter_map == before->Moved_counter_map,
{
    lemma_zone_names();
}

/// An effect that names no new destination leaves the move as it is. Where it names an ability and
/// there is one, that happens; where there is none, nothing is replaced.
pub proof fn law_ability_instead_of_a_move(
    e: ReplacementEffect,
    game: GameState,
    host: CardId,
    before: ReplacementEvent,
    after: ReplacementEvent,
    begun: BegunView,
    name: Seq<char>,
)
    requires
        e.event == ReplacementType::Moved,
        before is Moved,
        e.new_destination is None,
        string_of(e.replace_with) == Some(name),
        game.card_at(host) is Some,
        effect_begun(e, game, host, before, after, begun),
    ensures
        after == before,
        svar_value(e.svars@, name) matches Some(raw) ==> begun == BegunView::Ability(raw),
        svar_value(e.svars@, name) is None ==> match svar_value(
            game.card_at(host)->0.svars@,
            name,
        ) {
            Some(raw) => begun == BegunView::Ability(raw),
            None => begun == BegunView::Over(ReplacementResult::NotReplaced),
        },
{
}

/// An effect on moves applies only to what it names: discards, zones that cards come from and go
/// to, cards; and one that names nothing applies to every move that does not enter, and to one that
/// enters where that is allowed.
pub proof fn law_which_moves_are_replaced(
    e: ReplacementEffect,
    event: ReplacementEvent,
    game: GameState,
    host: Card,
    id: CardId,
    from: ZoneType,
    to: ZoneType,
)
    requires
        e.event == ReplacementType::Moved,
        is_move(event, id, from, to),
    ensures
        replaceable(e, event, game, host) ==> {
            &&& e.discard matches Some(b) ==> b == event->is_discard
            &&& e.valid_card matches Some(t) ==> game.facts.matches_card(
                t@,
                host.id,
                host.controller,
                id,
            )
            &&& e.fizzle is Some ==> event->Moved_fizzle == e.fizzle
            &&& to == ZoneType::Battlefield ==> e.enters_allowed
            &&& e.flashback_cast && game.card_at(id) is Some
                ==> game.card_at(id)->0.cast_with_flashback
            &&& e.harmonize_cast && game.card_at(id) is Some
                ==> game.card_at(id)->0.cast_with_harmonize
            &&& e.valid_stack_sa matches Some(t) ==> (event->stack_sa matches Some(sa)
                && game.facts.matches_ability(t@, sa.id, host.id))
        },
        e.discard is None && e.destination is None && e.exclude_destination is None && e.origin
            is None && e.valid_card is None && !e.flashback_cast && !e.harmonize_cast && e.valid_lki
            is None && e.valid_stack_sa is None && e.fizzle is None && (e.enters_allowed || to
            != ZoneType::Battlefield) ==> replaceable(e, event, game, host),
{
}

// ---- other events ----

/// An effect on other events is of the kind of the event, and speaks of the player or the card that
/// it happens to.
pub proof fn law_which_events_are_replaced(
    e: ReplacementEffect,
    event: ReplacementEvent,
    game: GameState,
    host: Card,
    player: PlayerId,
)
    requires
        replaceable(e, event, game, host),
    ensures
        event matches ReplacementEvent::GainLife { player, .. } ==> e.event
            == ReplacementType::GainLife && (e.valid_player matches Some(t)
            ==> game.facts.matches_player(t@, host.id, host.controller, player)),
        event matches ReplacementEvent::Draw { player, .. } ==> e.event == ReplacementType::Draw && (
        e.valid_player matches Some(t) ==> game.facts.matches_player(
            t@,
            host.id,
            host.controller,
            player,
        )),
        event matches ReplacementEvent::Destroy { target } ==> e.event == ReplacementType::Destroy
            && (e.valid_card matches Some(t) ==> game.facts.matches_card(
            t@,
            host.id,
            host.controller,
            target,
        )),
        event matches ReplacementEvent::RollDice { sides, .. } ==> (e.valid_sides matches Some(n)
            ==> n == sides),
        event matches ReplacementEvent::CreateToken { is_effect, player, .. } ==> (e.effect_only
            ==> is_effect) && (e.valid_player matches Some(t) ==> game.facts.matches_player(
            t@,
            host.id,
            host.controller,
            player,
        )),
        event matches ReplacementEvent::Explore { card } ==> (e.valid_explorer matches Some(t)
            ==> game.facts.matches_card(t@, host.id, host.controller, card)),
        event matches ReplacementEvent::LoseMana { player, .. } ==> (e.valid_player matches Some(t)
            ==> game.facts.matches_player(t@, host.id, host.controller, player)),
        event matches ReplacementEvent::BeginPhase { phase, .. } ==> (e.active_phases matches Some(v)
            ==> v@.contains(phase)),
{
}

/// What is prevented or skipped does not happen, and is left as it was.
pub proof fn law_skipped_events(
    e: ReplacementEffect,
    game: GameState,
    host: CardId,
    before: ReplacementEvent,
    after: ReplacementEvent,
    begun: BegunView,
)
    requires
        e.prevents || e.skips,
        e.event != ReplacementType::DamageDone,
        e.event != ReplacementType::Moved,
        e.event != ReplacementType::CreateToken,
        e.event != ReplacementType::Other,
        effect_begun(e, game, host, before, after, begun),
    ensures
        after == before,
        begun == BegunView::Over(ReplacementResult::Skipped),
{
}

/// An ability that does not happen in place of a move or a token leaves the event unreplaced; one
/// that does replaces a move, unless the effect says what it does, and updates what tokens are made.
pub proof fn law_results_of_abilities(e: ReplacementEffect)
    ensures
        e.event == ReplacementType::Moved || e.event == ReplacementType::CreateToken
            ==> ability_result(e, false) == ReplacementResult::NotReplaced,
        e.event == ReplacementType::Moved && e.replacement_result is None ==> ability_result(e, true)
            == ReplacementResult::Replaced,
        e.event == ReplacementType::CreateToken ==> ability_result(e, true)
            == ReplacementResult::Updated,
        e.event == ReplacementType::Moved && string_of(e.replacement_result) == Some("Updated"@)
            ==> ability_result(e, true) == ReplacementResult::Updated,
        e.event == ReplacementType::Moved && string_of(e.replacement_result) == Some("Skipped"@)
            ==> ability_result(e, true) == ReplacementResult::Skipped,
        e.event == ReplacementType::Moved && string_of(e.replacement_result) == Some("Prevented"@)
            ==> ability_result(e, true) == ReplacementResult::Prevented,
{
    reveal_strlit("Updated");
    reveal_strlit("NotReplaced");
    reveal_strlit("Prevented");
    reveal_strlit("Skipped");
    reveal_strlit("Replaced");
    assert("Updated"@[0] == 'U');
    assert("Skipped"@[0] == 'S');
    assert("Updated"@.len() == 7 && "NotReplaced"@.len() == 11 && "Prevented"@.len() == 9);
}

// ---- whom an event happens to ----

/// An event happens to the player that it names, or to the player who controls its card.
pub proof fn law_who_is_affected(game: GameState, event: ReplacementEvent)
    ensures
        event matches ReplacementEvent::DamageToPlayer { target, .. } ==> player_of_entity(
            event_subject(event),
            game,
        ) == Some(target),
        event matches ReplacementEvent::GainLife { player, .. } ==> player_of_entity(
            event_subject(event),
            game,
        ) == Some(player),
        event matches ReplacementEvent::Draw { player, .. } ==> player_of_entity(
            event_subject(event),
            game,
        ) == Some(player),
        event matches ReplacementEvent::CreateToken { player, .. } ==> player_of_entity(
            event_subject(event),
            game,
        ) == Some(player),
        event matches ReplacementEvent::ProduceMana { activator, .. } ==> player_of_entity(
            event_subject(event),
            game,
        ) == Some(activator),
        event matches ReplacementEvent::DamageToCard { target, .. } ==> (game.card_at(target) matches Some(
            c,
        ) ==> player_of_entity(event_subject(event), game) == Some(c.controller)),
        event matches ReplacementEvent::Moved { card, .. } ==> (game.card_at(card) matches Some(c)
            ==> player_of_entity(event_subject(event), game) == Some(c.controller)),
        event matches ReplacementEvent::Destroy { target } ==> (game.card_at(target) matches Some(c)
            ==> player_of_entity(event_subject(event), game) == Some(c.controller)),
        event matches ReplacementEvent::AddCounter { target, .. } ==> event_subject(event)
            == target,
        event matches ReplacementEvent::RollDice { player, .. } ==> player_of_entity(
            event_subject(event),
            game,
        ) == Some(player),
        event matches ReplacementEvent::LoseMana { player, .. } ==> player_of_entity(
            event_subject(event),
            game,
        ) == Some(player),
{
}

/// Who may turn an effect down: the player that it names, and without a name the one that the event
/// happens to.
pub proof fn law_who_decides(
    e: ReplacementEffect,
    game: GameState,
    host: CardId,
    event: ReplacementEvent,
)
    requires
        game.card_at(host) is Some,
    ensures
        e.optional_decider is None ==> decider(e, game, host, event) == player_of_entity(
            event_subject(event),
            game,
        ),
        e.optional_decider matches Some(t) && trimmed(t@) == "You"@ ==> decider(
            e,
            game,
            host,
            event,
        ) == Some(game.card_at(host)->0.controller),
        e.optional_decider matches Some(t) && trimmed(t@) == "Controller"@ ==> decider(
            e,
            game,
            host,
            event,
        ) == Some(game.card_at(host)->0.controller),
        e.optional_decider matches Some(t) && trimmed(t@) == "Owner"@ ==> decider(
            e,
            game,
            host,
            event,
        ) == Some(game.card_at(host)->0.owner),
{
    reveal_strlit("You");
    reveal_strlit("Controller");
    reveal_strlit("Owner");
    assert("You"@.len() == 3 && "Controller"@.len() == 10 && "Owner"@.len() == 5);
}

// ---- which effects apply ----

proof fn lemma_card_effects(
    game: GameState,
    event: ReplacementEvent,
    layer: ReplacementLayer,
    card: Card,
    zone: ZoneType,
    id: CardId,
    of_rules: bool,
    n: nat,
    key: EffectKey,
)
    requires
        n <= crate::replacement::collect::effects_in(card, of_rules).len() <= usize::MAX,
    ensures
        card_effects(game, event, layer, card, zone, id, of_rules, n).contains(key) <==> {
            let all = crate::replacement::collect::effects_in(card, of_rules);
            &&& key.card == id
            &&& key.of_rules == of_rules
            &&& key.index < n
            &&& key.id == all[key.index as int].id
            &&& applies(all[key.index as int], event, layer, game, card, zone, id)
        },
    decreases n,
{
    let v = card_effects(game, event, layer, card, zone, id, of_rules, n);
    if n > 0 {
        let before = card_effects(game, event, layer, card, zone, id, of_rules, (n - 1) as nat);
        lemma_card_effects(
            game,
            event,
            layer,
            card,
            zone,
            id,
            of_rules,
            (n - 1) as nat,
            key,
        );
        if v.contains(key) {
            let i = choose|i: int| 0 <= i < v.len() && v[i] == key;
            if i < before.len() {
                assert(before[i] == key);
                assert(before.contains(key));
            }
        }
        if before.contains(key) {
            let i = choose|i: int| 0 <= i < before.len() && before[i] == key;
            assert(v[i] == key);
        }
        if v.len() > before.len() {
            assert(v[before.len() as int] == v.last());
        }
    }
}

/// Which effects of cards apply to damage, life, and all events but moves in a layer: those of that
/// layer whose requirements are met, that work in the zone of their card and speak of the event. All
/// of them are found, and no others.
pub proof fn law_which_effects_apply(
    game: GameState,
    event: ReplacementEvent,
    layer: ReplacementLayer,
    n: nat,
    key: EffectKey,
)
    requires
        n <= game.cards@.len() <= u32::MAX,
        !(event is Moved),
        !key.of_rules,
    ensures
        effects_of(game, event, layer, None, n).contains(key) <==> {
            let c = game.cards@[key.card.0 as int];
            let e = c.replacement_effects@[key.index as int];
            &&& key.card.0 < n
            &&& key.index < c.replacement_effects@.len()
            &&& key.id == e.id
            &&& e.layer == layer
            &&& e.requirements_met
            &&& e.active_zones matches Some(zones) ==> zones@.contains(c.zone)
            &&& replaceable(e, event, game, c)
        },
    decreases n,
{
    let v = effects_of(game, event, layer, None, n);
    if n > 0 {
        law_which_effects_apply(game, event, layer, (n - 1) as nat, key);
        let before = effects_of(game, event, layer, None, (n - 1) as nat);
        let c = game.cards@[n - 1];
        let id = CardId((n - 1) as u32);
        let own = card_effects(
            game,
            event,
            layer,
            c,
            c.zone,
            id,
            false,
            c.replacement_effects@.len(),
        );
        let rules = card_effects(
            game,
            event,
            layer,
            c,
            c.zone,
            id,
            true,
            c.rules_replacement_effects@.len(),
        );
        assert(c.replacement_effects.len() <= usize::MAX);
        assert(c.rules_replacement_effects.len() <= usize::MAX);
        lemma_card_effects(
            game,
            event,
            layer,
            c,
            c.zone,
            id,
            false,
            c.replacement_effects@.len(),
            key,
        );
        lemma_card_effects(
            game,
            event,
            layer,
            c,
            c.zone,
            id,
            true,
            c.rules_replacement_effects@.len(),
            key,
        );
        lemma_in_either(own, rules, key);
        lemma_in_either(before, own, key);
        lemma_in_either(before, own + rules, key);
    }
}

proof fn lemma_in_either(a: Seq<EffectKey>, b: Seq<EffectKey>, key: EffectKey)
    ensures
        (a + b).contains(key) <==> a.contains(key) || b.contains(key),
{
    if a.contains(key) {
        let i = choose|i: int| 0 <= i < a.len() && a[i] == key;
        assert((a + b)[i] == key);
    }
    if b.contains(key) {
        let i = choose|i: int| 0 <= i < b.len() && b[i] == key;
        assert((a + b)[a.len() + i] == key);
    }
    if (a + b).contains(key) {
        let i = choose|i: int| 0 <= i < (a + b).len() && (a + b)[i] == key;
        if i < a.len() {
            assert(a[i] == key);
        } else {
            assert(b[i - a.len()] == key);
        }
    }
}

/// The layers: what cannot happen first, then control, copies, transformations, and the rest.
pub proof fn law_order_of_layers()
    ensures
        layer_at(0) == ReplacementLayer::CantHappen,
        layer_at(1) == ReplacementLayer::Control,
        layer_at(2) == ReplacementLayer::Copy,
        layer_at(3) == ReplacementLayer::Transform,
        layer_at(4) == ReplacementLayer::Other,
{
}

/// A player is asked to choose exactly where players are asked at all, more than one effect may be
/// chosen, and the event is not one that cannot happen; and it is the player it happens to.
pub proof fn law_who_is_asked(
    h: ReplacementHandler,
    running: Seq<EffectKey>,
    game: GameState,
    event: ReplacementEvent,
    end: RunState,
    keys: Seq<EffectKey>,
    step: ReplacementStep,
)
    requires
        settled(h, running, game, event, end, Stop::Found(keys), step),
    ensures
        step matches ReplacementStep::Choose { player, effects, ask } && effects@ == keys && (ask
            <==> h.asks && keys.len() > 1 && end.layer != 0) && player == player_of_entity(
            event_subject(event),
            game,
        ),
{
}

/// What a player who is asked may turn down is asked of the one who decides, and nothing has changed
/// by then.
pub proof fn law_optional_effects_are_confirmed(
    h0: ReplacementHandler,
    running0: Seq<EffectKey>,
    game0: GameState,
    event0: ReplacementEvent,
    pre: Option<Card>,
    i: usize,
    h: ReplacementHandler,
    running: Seq<EffectKey>,
    game: GameState,
    event: ReplacementEvent,
    step: ReplacementStep,
    e: ReplacementEffect,
)
    requires
        stepped(
            h0,
            running0,
            game0,
            event0,
            pre,
            ReplacementReply::Chosen(i),
            h,
            running,
            game,
            event,
            step,
        ),
        h0.waiting matches Waiting::Choice(v) && i < v@.len()
            && effect_named(game0, event0, pre, v@[i as int]) == Some(e),
        h0.asks,
        e.optional,
    ensures
        step matches ReplacementStep::Confirm { player, effect } && effect == h0.waiting->Choice_0@[
            i as int
        ] && player == decider(e, game0, effect.card, event0),
        game == game0,
        event == event0,
{
}

// ---- phases and turns ----

/// A phase is skipped for a player by an effect on the battlefield that is on phases, in the layer of
/// control or of what cannot happen, and speaks of that phase and that player; by no other.
pub proof fn law_skipped_phases(
    c: Card,
    game: GameState,
    player: PlayerId,
    phase: PhaseType,
    e: ReplacementEffect,
)
    requires
        c.replacement_effects@ == seq![e],
    ensures
        card_skips_phase(c, game, player, phase) <==> {
            &&& c.zone == ZoneType::Battlefield
            &&& e.event == ReplacementType::BeginPhase
            &&& e.layer == ReplacementLayer::Control || e.layer == ReplacementLayer::CantHappen
            &&& e.active_phases matches Some(v) ==> v@.contains(phase)
            &&& e.valid_player matches Some(t) ==> game.facts.matches_player(
                t@,
                c.id,
                c.controller,
                player,
            )
        },
        card_skips_turn(c, game, player) <==> {
            &&& c.zone == ZoneType::Battlefield
            &&& e.event == ReplacementType::BeginTurn
            &&& e.layer == ReplacementLayer::Other || e.layer == ReplacementLayer::CantHappen
            &&& e.valid_player matches Some(t) ==> game.facts.matches_player(
                t@,
                c.id,
                c.controller,
                player,
            )
        },
{
    assert(c.replacement_effects@[0] == e);
}

/// A value that is written as a number is that number.
pub proof fn law_numbers_in_effects(
    n: i32,
    game: GameState,
    source: CardId,
    event: ReplacementEvent,
)
    ensures
        replace_number(number_text(n as int), game, source, event) == Some(n),
{
    law_number_is_read(n);
    crate::laws::numbers::lemma_number_chars(number_text(n as int), ' ');
}

// ---- a run of effects ----

/// An effect that doubles damage and is chosen doubles it.
pub proof fn law_chosen_effect_doubles(
    h0: ReplacementHandler,
    running0: Seq<EffectKey>,
    game0: GameState,
    event0: ReplacementEvent,
    pre: Option<Card>,
    i: usize,
    h: ReplacementHandler,
    running: Seq<EffectKey>,
    game: GameState,
    event: ReplacementEvent,
    step: ReplacementStep,
    e: ReplacementEffect,
    target: GameEntity,
    amount: i32,
    source: Option<CardId>,
    is_combat: bool,
)
    requires
        stepped(
            h0,
            running0,
            game0,
            event0,
            pre,
            ReplacementReply::Chosen(i),
            h,
            running,
            game,
            event,
            step,
        ),
        h0.waiting matches Waiting::Choice(v) && i < v@.len() && effect_named(
            game0,
            event0,
            pre,
            v@[i as int],
        ) == Some(e),
        !(h0.asks && e.optional),
        damage_mode(e, "DmgTwice"@) || damage_mode(e, "DoubleDamage"@),
        is_damage(event0, target, amount as int, source, is_combat),
        i32::MIN <= amount + amount <= i32::MAX,
    ensures
        is_damage(event, target, amount + amount, source, is_combat),
{
    let key = h0.waiting->Choice_0@[i as int];
    let begun = choose|begun: BegunView| #[trigger]
        effect_begun(e, game0, key.card, event0, event, begun);
    law_doubled_damage(
        e,
        game0,
        key.card,
        event0,
        event,
        begun,
        target,
        amount,
        source,
        is_combat,
    );
}

/// An effect that is turned down leaves the event and the game as they were.
pub proof fn law_turned_down(
    h0: ReplacementHandler,
    running0: Seq<EffectKey>,
    game0: GameState,
    event0: ReplacementEvent,
    pre: Option<Card>,
    h: ReplacementHandler,
    running: Seq<EffectKey>,
    game: GameState,
    event: ReplacementEvent,
    step: ReplacementStep,
)
    requires
        stepped(
            h0,
            running0,
            game0,
            event0,
            pre,
            ReplacementReply::Confirmed(false),
            h,
            running,
            game,
            event,
            step,
        ),
    ensures
        game == game0,
        event == event0,
{
}

proof fn lemma_nothing_left(
    game: GameState,
    event: ReplacementEvent,
    pre: Option<Card>,
    st: RunState,
)
    requires
        0 <= st.layer <= 5,
        forall|l: int|
            st.layer <= l < 5 ==> (#[trigger] eligible(
                game,
                event,
                pre,
                RunState { layer: l, ..st },
            )).len() == 0,
    ensures
        seek(game, event, pre, st) == back(
            game,
            event,
            pre,
            RunState { layer: 5, ..st },
            ReplacementResult::NotReplaced,
        ),
    decreases 5 - st.layer,
{
    if st.layer < 5 {
        assert(RunState { layer: st.layer, ..st } == st);
        assert(eligible(game, event, pre, RunState { layer: st.layer, ..st }).len() == 0);
        let next = RunState { layer: st.layer + 1, ..st };
        assert forall|l: int| next.layer <= l < 5 implies (#[trigger] eligible(
            game,
            event,
            pre,
            RunState { layer: l, ..next },
        )).len() == 0 by {
            assert(RunState { layer: l, ..next } == RunState { layer: l, ..st });
        }
        lemma_nothing_left(game, event, pre, next);
        assert(RunState { layer: 5, ..next } == RunState { layer: 5, ..st });
    } else {
        assert(RunState { layer: 5, ..st } == st);
    }
}

proof fn lemma_last_back(
    game: GameState,
    event: ReplacementEvent,
    pre: Option<Card>,
    st: RunState,
    result: ReplacementResult,
)
    requires
        st.frames.len() == 1,
        st.pass is None,
        st.frames[0].updated || result != ReplacementResult::NotReplaced,
    ensures
        back(game, event, pre, st, result).1 == Stop::Over(
            if st.frames[0].updated && result == ReplacementResult::NotReplaced {
                ReplacementResult::Updated
            } else {
                result
            },
        ),
{
    let f = st.frames.last();
    let popped = RunState {
        frames: st.frames.drop_last(),
        running: if f.newly_running {
            without(st.running, f.key)
        } else {
            st.running
        },
        ..st
    };
    let combined = if f.updated && result == ReplacementResult::NotReplaced {
        ReplacementResult::Updated
    } else {
        result
    };
    assert(back(game, event, pre, popped, combined) == (popped, Stop::Over(combined)));
    assert(back(game, event, pre, st, result) == back(game, event, pre, popped, combined));
}

/// A run whose one effect has updated the event, in a layer.
pub open spec fn once_updated(st: RunState, layer: int) -> RunState {
    let f = st.frames[0];
    RunState {
        frames: seq![
            Frame { key: f.key, layer: f.layer, newly_running: f.newly_running, updated: true },
        ],
        layer,
        ..st
    }
}

/// The result of an effect is that of the whole run: what was replaced, prevented or skipped is over at
/// once, and what was updated is over once no other effect is left.
pub proof fn law_results_of_runs(
    game: GameState,
    event: ReplacementEvent,
    pre: Option<Card>,
    st: RunState,
    result: ReplacementResult,
    several: bool,
)
    requires
        st.frames.len() == 1,
        !st.frames[0].updated,
        st.pass is None,
    ensures
        result == ReplacementResult::Replaced || result == ReplacementResult::Prevented || result
            == ReplacementResult::Skipped ==> follow(game, event, pre, st, result, several).1
            == Stop::Over(result),
        result == ReplacementResult::Updated && (forall|l: int|
            0 <= l < 5 ==> eligible(game, event, pre, #[trigger] once_updated(st, l)).len() == 0)
            ==> follow(game, event, pre, st, result, several).1 == Stop::Over(
            ReplacementResult::Updated,
        ),
{
    let f = Frame { updated: true, ..st.frames[0] };
    let frames = seq![f];
    assert(st.frames.update(0, f) =~= frames);
    let next = RunState { frames, layer: 0, ..st };
    if result == ReplacementResult::Updated && (forall|l: int|
        0 <= l < 5 ==> eligible(game, event, pre, #[trigger] once_updated(st, l)).len() == 0) {
        assert forall|l: int| next.layer <= l < 5 implies (#[trigger] eligible(
            game,
            event,
            pre,
            RunState { layer: l, ..next },
        )).len() == 0 by {
            assert(RunState { layer: l, ..next } == once_updated(st, l));
        }
        lemma_nothing_left(game, event, pre, next);
        let end = RunState { layer: 5, ..next };
        lemma_last_back(game, event, pre, end, ReplacementResult::NotReplaced);
    } else if result != ReplacementResult::NotReplaced {
        lemma_last_back(game, event, pre, st, result);
    }
}

/// Whose effects count when a card moves: one that came into play with it does not, and one that left
/// play with it still does, as if it were there.
pub proof fn law_who_sees_a_move(
    game: GameState,
    event: ReplacementEvent,
    i: int,
    last: Seq<CardId>,
)
    requires
        event is Moved,
        0 <= i < game.cards@.len() <= u32::MAX,
        game.replacement_last_state_battlefield matches Some(v) && v@ == last,
    ensures
        game.cards@[i].zone == ZoneType::Battlefield && !last.contains(CardId(i as u32)) ==> seen(
            game,
            event,
            None,
            i,
        ) is None,
        game.cards@[i].zone != ZoneType::Battlefield && last.contains(CardId(i as u32)) ==> (seen(
            game,
            event,
            None,
            i,
        ) matches Some((_, zone)) && zone == ZoneType::Battlefield),
        (game.cards@[i].zone == ZoneType::Battlefield) == last.contains(CardId(i as u32)) ==> seen(
            game,
            event,
            None,
            i,
        ) == Some((game.cards@[i], game.cards@[i].zone)),
{
}

/// Which effects that the rules give cards apply: to damage, in the last layer, those whose requirements
/// are met, that work in the zone of their card and speak of the damage; and to no other event that does
/// not move a card.
pub proof fn law_which_rules_apply(
    game: GameState,
    event: ReplacementEvent,
    layer: ReplacementLayer,
    n: nat,
    key: EffectKey,
)
    requires
        n <= game.cards@.len() <= u32::MAX,
        !(event is Moved),
        key.of_rules,
    ensures
        effects_of(game, event, layer, None, n).contains(key) <==> {
            let c = game.cards@[key.card.0 as int];
            let e = c.rules_replacement_effects@[key.index as int];
            &&& layer == ReplacementLayer::Other
            &&& event is DamageToCard || event is DamageToPlayer
            &&& key.card.0 < n
            &&& key.index < c.rules_replacement_effects@.len()
            &&& key.id == e.id
            &&& e.layer == layer
            &&& e.requirements_met
            &&& e.active_zones matches Some(zones) ==> zones@.contains(c.zone)
            &&& replaceable(e, event, game, c)
        },
    decreases n,
{
    if n > 0 {
        law_which_rules_apply(game, event, layer, (n - 1) as nat, key);
        let before = effects_of(game, event, layer, None, (n - 1) as nat);
        let c = game.cards@[n - 1];
        let id = CardId((n - 1) as u32);
        let own = card_effects(
            game,
            event,
            layer,
            c,
            c.zone,
            id,
            false,
            c.replacement_effects@.len(),
        );
        let rules = card_effects(
            game,
            event,
            layer,
            c,
            c.zone,
            id,
            true,
            c.rules_replacement_effects@.len(),
        );
        assert(c.replacement_effects.len() <= usize::MAX);
        assert(c.rules_replacement_effects.len() <= usize::MAX);
        lemma_card_effects(
            game,
            event,
            layer,
            c,
            c.zone,
            id,
            false,
            c.replacement_effects@.len(),
            key,
        );
        lemma_card_effects(
            game,
            event,
            layer,
            c,
            c.zone,
            id,
            true,
            c.rules_replacement_effects@.len(),
            key,
        );
        lemma_in_either(own, rules, key);
        lemma_in_either(before, own, key);
        lemma_in_either(before, own + rules, key);
    }
}

} // verus!
