//! When triggers fire, and what they hand on.

use vstd::prelude::*;
use crate::game::{Facts, GameState, ZoneEntry};
use crate::parsing::params::string_of;
use crate::replacement::damage_map::DamageEntry;
use crate::text::number_text;
use crate::trigger::cast::{mode_named, TriggerSpellAbilityCastOrCopy};
use crate::trigger::combat::{TriggerAttached, TriggerAttackerBlockedByCreature, TriggerAttacks};
use crate::trigger::common::{
    one_passes, passes, passing, RunParams, Trigger, TriggerBehavior, TriggerType, Untapped, ValueView,
};
use crate::trigger::damage::{
    amount_from, sources_from, TriggerDamageDone, TriggerDamageDoneOnce, TriggerExcessDamageAll,
};
use crate::trigger::players::{TriggerPlanarDice, TriggerRingTemptsYou, TriggerScry};
use crate::trigger::taps::{
    passing_players, TriggerManaAdded, TriggerTapAll, TriggerTaps, TriggerUntapAll,
};
use crate::trigger::zones::{
    moved_cards, moves_of, TriggerChangesZoneAll, TriggerDiscardedAll, TriggerLandPlayed,
    TriggerMilledOnce, TriggerTurnFaceUp,
};
use crate::types::{AbilityKey, CardId, PlayerId, ZoneType};

verus! {

/// Whether a trigger that names the cards it is about is about a card; without a name it is about
/// every card, and where there is none too.
pub open spec fn is_about(
    facts: Facts,
    t: Trigger,
    named: Option<String>,
    card: Option<CardId>,
) -> bool {
    named matches Some(f) ==> (card matches Some(c) && facts.matches_card(
        f@,
        t.host,
        t.controller,
        c,
    ))
}

/// Whether a trigger that names the players it is about is about a player.
pub open spec fn is_about_player(
    facts: Facts,
    t: Trigger,
    named: Option<String>,
    player: Option<PlayerId>,
) -> bool {
    named matches Some(f) ==> (player matches Some(p) && facts.matches_player(
        f@,
        t.host,
        t.controller,
        p,
    ))
}

/// Whether a trigger is about one of the cards of a list.
pub open spec fn is_about_one(
    facts: Facts,
    t: Trigger,
    named: Option<String>,
    cards: Seq<CardId>,
) -> bool {
    exists|i: int| 0 <= i < cards.len() && is_about(facts, t, named, Some(#[trigger] cards[i]))
}

/// Whether a move goes from and to the zones that a trigger names, where it names them.
pub open spec fn is_such_a_move(
    origin: Option<ZoneType>,
    destination: Option<ZoneType>,
    e: ZoneEntry,
) -> bool {
    (origin is Some ==> e.origin == origin->0) && (destination is Some ==> e.destination
        == destination->0)
}

/// Whether a card moved so.
pub open spec fn has_such_a_move(
    moves: Seq<ZoneEntry>,
    origin: Option<ZoneType>,
    destination: Option<ZoneType>,
    id: CardId,
) -> bool {
    exists|k: int|
        0 <= k < moves.len() && (#[trigger] moves[k]).card == id && is_such_a_move(
            origin,
            destination,
            moves[k],
        )
}

proof fn lemma_moved(
    facts: Facts,
    t: Trigger,
    origin: Option<ZoneType>,
    destination: Option<ZoneType>,
    named: Option<String>,
    moves: Seq<ZoneEntry>,
)
    ensures
        ({
            let v = moved_cards(facts, t, origin, destination, string_of(named), moves);
            &&& v.len() <= moves.len()
            &&& forall|i: int|
                0 <= i < v.len() ==> has_such_a_move(moves, origin, destination, #[trigger] v[i])
                    && is_about(facts, t, named, Some(v[i]))
            &&& forall|k: int|
                0 <= k < moves.len() && is_such_a_move(origin, destination, #[trigger] moves[k])
                    && is_about(facts, t, named, Some(moves[k].card)) ==> v.contains(moves[k].card)
        }),
    decreases moves.len(),
{
    let v = moved_cards(facts, t, origin, destination, string_of(named), moves);
    if moves.len() > 0 {
        let short = moves.drop_last();
        let w = moved_cards(facts, t, origin, destination, string_of(named), short);
        lemma_moved(facts, t, origin, destination, named, short);
        assert(moves[moves.len() - 1] == moves.last());
        assert forall|i: int| 0 <= i < v.len() implies has_such_a_move(
            moves,
            origin,
            destination,
            #[trigger] v[i],
        ) && is_about(facts, t, named, Some(v[i])) by {
            if i < w.len() {
                assert(v[i] == w[i]);
                let k = choose|k: int|
                    0 <= k < short.len() && (#[trigger] short[k]).card == w[i] && is_such_a_move(
                        origin,
                        destination,
                        short[k],
                    );
                assert(moves[k] == short[k]);
            } else {
                assert(moves[moves.len() - 1].card == v[i]);
            }
        }
        assert forall|k: int|
            0 <= k < moves.len() && is_such_a_move(origin, destination, #[trigger] moves[k])
                && is_about(facts, t, named, Some(moves[k].card)) implies v.contains(
            moves[k].card,
        ) by {
            if k < short.len() {
                assert(short[k] == moves[k]);
                let j = choose|j: int| 0 <= j < w.len() && w[j] == moves[k].card;
                assert(v[j] == moves[k].card);
            } else {
                assert(v[w.len() as int] == moves[k].card);
            }
        }
    }
}

/// Every card that a trigger of zone changes is about is that of a move of the event that went from
/// the zone the trigger names and to the zone it names, and is a card of the kind it names; and the
/// card of every such move is among them.
pub proof fn law_cards_that_moved(x: TriggerChangesZoneAll, game: GameState, t: Trigger, p: RunParams)
    ensures
        ({
            let v = x.matching(game, t, p);
            let moves = moves_of(p);
            &&& v.len() <= moves.len()
            &&& forall|i: int|
                0 <= i < v.len() ==> has_such_a_move(
                    moves,
                    x.origin,
                    x.destination,
                    #[trigger] v[i],
                ) && is_about(game.facts, t, x.valid_card, Some(v[i]))
            &&& forall|k: int|
                0 <= k < moves.len() && is_such_a_move(x.origin, x.destination, #[trigger] moves[k])
                    && is_about(game.facts, t, x.valid_card, Some(moves[k].card)) ==> v.contains(
                    moves[k].card,
                )
        }),
{
    lemma_moved(game.facts, t, x.origin, x.destination, x.valid_card, moves_of(p));
}

/// The moves of an event are those of its table, and without one those of its changes.
pub proof fn law_moves_of_an_event(p: RunParams)
    ensures
        p.zone_table matches Some(v) ==> moves_of(p) == v@,
        p.zone_table is None ==> (p.zone_changes matches Some(v) ==> moves_of(p) == v@),
        p.zone_table is None && p.zone_changes is None ==> moves_of(p).len() == 0,
{
}

/// A trigger that names a destination or an origin does not fire where no move goes there or comes
/// from there; one that asks for nothing else fires wherever a move is as it asks.
pub proof fn law_when_zone_changes_fire(
    x: TriggerChangesZoneAll,
    game: GameState,
    t: Trigger,
    p: RunParams,
)
    ensures
        x.fires(t, p, game) ==> {
            &&& is_about(game.facts, t, x.valid_cause, p.cause_card)
            &&& exists|k: int|
                0 <= k < moves_of(p).len() && is_such_a_move(
                    x.origin,
                    x.destination,
                    #[trigger] moves_of(p)[k],
                ) && is_about(game.facts, t, x.valid_card, Some(moves_of(p)[k].card))
        },
        x.destination is Some && (forall|k: int|
            0 <= k < moves_of(p).len() ==> (#[trigger] moves_of(p)[k]).destination
                != x.destination->0) ==> !x.fires(t, p, game),
        x.origin is Some && (forall|k: int|
            0 <= k < moves_of(p).len() ==> (#[trigger] moves_of(p)[k]).origin != x.origin->0)
            ==> !x.fires(t, p, game),
        x.valid_amount is None && !x.first_time_only && is_about(
            game.facts,
            t,
            x.valid_cause,
            p.cause_card,
        ) && (exists|k: int|
            0 <= k < moves_of(p).len() && is_such_a_move(
                x.origin,
                x.destination,
                #[trigger] moves_of(p)[k],
            ) && is_about(game.facts, t, x.valid_card, Some(moves_of(p)[k].card))) ==> x.fires(
            t,
            p,
            game,
        ),
{
    law_cards_that_moved(x, game, t, p);
    let v = x.matching(game, t, p);
    if v.len() > 0 {
        let k = choose|k: int|
            0 <= k < moves_of(p).len() && (#[trigger] moves_of(p)[k]).card == v[0]
                && is_such_a_move(x.origin, x.destination, moves_of(p)[k]);
        assert(moves_of(p)[k].card == v[0]);
    }
}

/// What a trigger of zone changes hands on: the cards that moved as it asks, and how many they are.
pub proof fn law_zone_changes_hand_on(
    x: TriggerChangesZoneAll,
    game: GameState,
    t: Trigger,
    p: RunParams,
    m: Map<AbilityKey, ValueView>,
)
    ensures
        ({
            let after = x.with_objects(t, p, game, m);
            &&& after.dom().contains(AbilityKey::Cards) && after.dom().contains(AbilityKey::Amount)
            &&& after[AbilityKey::Cards] matches ValueView::Cards(v) && after[AbilityKey::Amount]
                == ValueView::Text(number_text(v.len() as int)) && forall|i: int|
                0 <= i < v.len() ==> has_such_a_move(
                    moves_of(p),
                    x.origin,
                    x.destination,
                    #[trigger] v[i],
                )
            &&& forall|key: AbilityKey|
                key != AbilityKey::Cards && key != AbilityKey::Amount && m.dom().contains(key)
                    ==> #[trigger] after[key] == m[key]
        }),
{
    law_cards_that_moved(x, game, t, p);
    let after = x.with_objects(t, p, game, m);
    assert(after[AbilityKey::Cards] == ValueView::Cards(x.matching(game, t, p)));
}

/// A trigger that fires only the first time does not where another such card came to the same zone of
/// the same player earlier in the turn.
pub proof fn law_only_the_first_time(
    x: TriggerChangesZoneAll,
    game: GameState,
    t: Trigger,
    p: RunParams,
    i: int,
    j: int,
)
    requires
        x.first_time_only,
        p.zone_table is None,
        0 <= i < x.matching(game, t, p).len(),
        0 <= j < game.entered_this_turn@.len(),
        game.card_at(x.matching(game, t, p)[i]) is Some,
        ({
            let c = game.card_at(x.matching(game, t, p)[i])->0;
            let e = game.entered_this_turn@[j];
            &&& e.destination == c.zone
            &&& e.player == (if c.zone == ZoneType::Battlefield {
                c.controller
            } else {
                c.owner
            })
            &&& !x.matching(game, t, p).contains(e.card)
            &&& x.origin is Some ==> e.origin == x.origin->0
            &&& is_about(game.facts, t, x.valid_card, Some(e.card))
        }),
    ensures
        !x.fires(t, p, game),
{
    let v = x.matching(game, t, p);
    let c = game.card_at(v[i])->0;
    assert(x.came_before(
        game,
        t,
        v,
        c.zone,
        crate::trigger::zones::zone_owner(game, v[i], c.zone),
        game.entered_this_turn@[j],
    ));
    assert(x.seen_before(game, t, v, v[i]));
}

// ---- lists ----

proof fn lemma_passing(facts: Facts, t: Trigger, named: Option<String>, cards: Seq<CardId>)
    ensures
        ({
            let v = passing(facts, t, string_of(named), cards);
            &&& forall|i: int|
                0 <= i < v.len() ==> cards.contains(#[trigger] v[i]) && is_about(
                    facts,
                    t,
                    named,
                    Some(v[i]),
                )
            &&& forall|i: int|
                0 <= i < cards.len() && is_about(facts, t, named, Some(#[trigger] cards[i]))
                    ==> v.contains(cards[i])
            &&& v.len() <= cards.len()
        }),
    decreases cards.len(),
{
    let v = passing(facts, t, string_of(named), cards);
    if cards.len() > 0 {
        let short = cards.drop_last();
        let w = passing(facts, t, string_of(named), short);
        lemma_passing(facts, t, named, short);
        assert forall|i: int| 0 <= i < v.len() implies cards.contains(#[trigger] v[i]) && is_about(
            facts,
            t,
            named,
            Some(v[i]),
        ) by {
            if i < w.len() {
                assert(v[i] == w[i]);
                let k = choose|k: int| 0 <= k < short.len() && short[k] == w[i];
                assert(cards[k] == v[i]);
            } else {
                assert(cards[cards.len() - 1] == v[i]);
            }
        }
        assert forall|i: int|
            0 <= i < cards.len() && is_about(facts, t, named, Some(#[trigger] cards[i])) implies v.contains(
        cards[i]) by {
            if i < short.len() {
                assert(short[i] == cards[i]);
                let k = choose|k: int| 0 <= k < w.len() && w[k] == cards[i];
                assert(v[k] == cards[i]);
            } else {
                assert(v[w.len() as int] == cards[i]);
            }
        }
    }
}

proof fn lemma_one(facts: Facts, t: Trigger, named: Option<String>, cards: Seq<CardId>)
    ensures
        one_passes(facts, t, string_of(named), cards) <==> is_about_one(facts, t, named, cards),
{
    if one_passes(facts, t, string_of(named), cards) {
        let i = choose|i: int|
            0 <= i < cards.len() && passes(facts, t, string_of(named), Some(#[trigger] cards[i]));
        assert(is_about(facts, t, named, Some(cards[i])));
    }
    if is_about_one(facts, t, named, cards) {
        let i = choose|i: int|
            0 <= i < cards.len() && is_about(facts, t, named, Some(#[trigger] cards[i]));
        assert(passes(facts, t, string_of(named), Some(cards[i])));
    }
}

/// Triggers of cards that are discarded, milled, tapped or dealt too much damage together fire
/// exactly where the event tells of cards, one of them is as the trigger asks, and so is the player.
pub proof fn law_batches_fire(
    discarded: TriggerDiscardedAll,
    milled: TriggerMilledOnce,
    tapped: TriggerTapAll,
    damaged: TriggerExcessDamageAll,
    game: GameState,
    t: Trigger,
    p: RunParams,
)
    requires
        p.cards is Some,
    ensures
        discarded.fires(t, p, game) <==> is_about_one(
            game.facts,
            t,
            discarded.valid_card,
            p.cards->0@,
        ) && is_about_player(game.facts, t, discarded.valid_player, p.player),
        milled.fires(t, p, game) <==> is_about_one(game.facts, t, milled.valid_card, p.cards->0@)
            && is_about_player(game.facts, t, milled.valid_player, p.player),
        tapped.fires(t, p, game) <==> is_about_one(game.facts, t, tapped.valid_card, p.cards->0@),
        damaged.fires(t, p, game) <==> is_about_one(
            game.facts,
            t,
            damaged.valid_target,
            p.cards->0@,
        ) && (damaged.combat_damage is Some ==> p.is_combat_damage == damaged.combat_damage),
{
    let v = p.cards->0@;
    lemma_one(game.facts, t, discarded.valid_card, v);
    lemma_one(game.facts, t, milled.valid_card, v);
    lemma_one(game.facts, t, tapped.valid_card, v);
    lemma_one(game.facts, t, damaged.valid_target, v);
}

/// Without cards, nothing was milled, tapped or damaged; a discard is still one where the trigger
/// names no cards.
pub proof fn law_batches_without_cards(
    discarded: TriggerDiscardedAll,
    milled: TriggerMilledOnce,
    tapped: TriggerTapAll,
    damaged: TriggerExcessDamageAll,
    game: GameState,
    t: Trigger,
    p: RunParams,
)
    requires
        p.cards is None,
    ensures
        discarded.fires(t, p, game) <==> discarded.valid_card is None && is_about_player(
            game.facts,
            t,
            discarded.valid_player,
            p.player,
        ),
        !milled.fires(t, p, game),
        !tapped.fires(t, p, game),
        !damaged.fires(t, p, game),
{
}

/// The cards that were discarded or tapped together are handed on where the trigger is about them,
/// all of them and no others; of milled and damaged ones all are.
pub proof fn law_batches_hand_on(
    discarded: TriggerDiscardedAll,
    milled: TriggerMilledOnce,
    tapped: TriggerTapAll,
    damaged: TriggerExcessDamageAll,
    game: GameState,
    t: Trigger,
    p: RunParams,
    m: Map<AbilityKey, ValueView>,
)
    requires
        p.cards is Some,
    ensures
        discarded.with_objects(t, p, game, m)[AbilityKey::Cards] matches ValueView::Cards(v) && (
        forall|i: int|
            0 <= i < v.len() ==> p.cards->0@.contains(#[trigger] v[i]) && is_about(
                game.facts,
                t,
                discarded.valid_card,
                Some(v[i]),
            )) && (forall|i: int|
            0 <= i < p.cards->0@.len() && is_about(
                game.facts,
                t,
                discarded.valid_card,
                Some(#[trigger] p.cards->0@[i]),
            ) ==> v.contains(p.cards->0@[i])) && discarded.with_objects(t, p, game, m)[AbilityKey::Amount]
            == ValueView::Text(number_text(v.len() as int)),
        tapped.with_objects(t, p, game, m)[AbilityKey::Cards] matches ValueView::Cards(v) && (
        forall|i: int|
            0 <= i < v.len() ==> p.cards->0@.contains(#[trigger] v[i]) && is_about(
                game.facts,
                t,
                tapped.valid_card,
                Some(v[i]),
            )) && (forall|i: int|
            0 <= i < p.cards->0@.len() && is_about(
                game.facts,
                t,
                tapped.valid_card,
                Some(#[trigger] p.cards->0@[i]),
            ) ==> v.contains(p.cards->0@[i])),
        milled.with_objects(t, p, game, m)[AbilityKey::Cards] == ValueView::Cards(p.cards->0@),
        milled.with_objects(t, p, game, m)[AbilityKey::Amount] == ValueView::Text(
            number_text(p.cards->0@.len() as int),
        ),
        damaged.with_objects(t, p, game, m)[AbilityKey::Targets] == ValueView::Cards(p.cards->0@),
        p.player matches Some(q) ==> discarded.with_objects(t, p, game, m)[AbilityKey::Player]
            == ValueView::Player(q) && milled.with_objects(t, p, game, m)[AbilityKey::Player]
            == ValueView::Player(q),
{
    let v = p.cards->0@;
    lemma_passing(game.facts, t, discarded.valid_card, v);
    lemma_passing(game.facts, t, tapped.valid_card, v);
    let w = passing(game.facts, t, string_of(discarded.valid_card), v);
    let d = discarded.with_objects(t, p, game, m);
    assert(d[AbilityKey::Cards] == ValueView::Cards(w));
    assert(d[AbilityKey::Amount] == ValueView::Text(number_text(w.len() as int)));
    let x = passing(game.facts, t, string_of(tapped.valid_card), v);
    assert(tapped.with_objects(t, p, game, m)[AbilityKey::Cards] == ValueView::Cards(x));
}

proof fn lemma_untapped(
    facts: Facts,
    t: Trigger,
    players: Option<String>,
    cards: Option<String>,
    all: Seq<Untapped>,
)
    ensures
        ({
            let v = passing_players(facts, t, string_of(players), string_of(cards), all);
            v.len() > 0 <==> exists|i: int|
                0 <= i < all.len() && is_about_player(
                    facts,
                    t,
                    players,
                    Some((#[trigger] all[i]).player),
                ) && cards is Some && is_about_one(facts, t, cards, all[i].cards@)
        }),
    decreases all.len(),
{
    let v = passing_players(facts, t, string_of(players), string_of(cards), all);
    if all.len() > 0 {
        let short = all.drop_last();
        lemma_untapped(facts, t, players, cards, short);
        let own = passing(facts, t, string_of(cards), all.last().cards@);
        lemma_passing(facts, t, cards, all.last().cards@);
        if own.len() > 0 {
            let c = own[0];
            let k = choose|k: int| 0 <= k < all.last().cards@.len() && all.last().cards@[k] == c;
            assert(is_about(facts, t, cards, Some(all.last().cards@[k])));
        }
        assert(all[all.len() - 1] == all.last());
        if v.len() > 0 && passing_players(facts, t, string_of(players), string_of(cards), short).len()
            > 0 {
            let i = choose|i: int|
                0 <= i < short.len() && is_about_player(
                    facts,
                    t,
                    players,
                    Some((#[trigger] short[i]).player),
                ) && cards is Some && is_about_one(facts, t, cards, short[i].cards@);
            assert(all[i] == short[i]);
        }
        if exists|i: int|
            0 <= i < all.len() && is_about_player(
                facts,
                t,
                players,
                Some((#[trigger] all[i]).player),
            ) && cards is Some && is_about_one(facts, t, cards, all[i].cards@) {
            let i = choose|i: int|
                0 <= i < all.len() && is_about_player(
                    facts,
                    t,
                    players,
                    Some((#[trigger] all[i]).player),
                ) && cards is Some && is_about_one(facts, t, cards, all[i].cards@);
            if i < short.len() {
                assert(short[i] == all[i]);
            }
        }
    }
}

/// A trigger of cards that untap together fires exactly where it names cards and a player that it is
/// about untapped one of them.
pub proof fn law_untapping_fires(x: TriggerUntapAll, game: GameState, t: Trigger, p: RunParams)
    ensures
        x.fires(t, p, game) <==> exists|i: int|
            0 <= i < p.untapped@.len() && is_about_player(
                game.facts,
                t,
                x.valid_player,
                Some((#[trigger] p.untapped@[i]).player),
            ) && x.valid_cards is Some && is_about_one(
                game.facts,
                t,
                x.valid_cards,
                p.untapped@[i].cards@,
            ),
{
    lemma_untapped(game.facts, t, x.valid_player, x.valid_cards, p.untapped@);
}

// ---- single events ----

/// A trigger of attacks fires only for the attacker and what it attacks as it asks; one of lone
/// attacks only for one attacker, and one of first attacks only for the first of the turn.
pub proof fn law_attacks_fire(x: TriggerAttacks, game: GameState, t: Trigger, p: RunParams)
    ensures
        x.fires(t, p, game) <==> {
            &&& x.alone ==> p.num_attackers == Some(1i32)
            &&& x.first_attack ==> (p.attacker is Some && game.card_at(p.attacker->0) is Some
                ==> game.card_at(p.attacker->0)->0.attacks_this_turn <= 1)
            &&& is_about(game.facts, t, x.valid_card, p.attacker)
            &&& p.attacked_player is Some ==> is_about_player(
                game.facts,
                t,
                x.attacked,
                p.attacked_player,
            )
            &&& p.attacked_player is None ==> is_about(game.facts, t, x.attacked, p.attacked_card)
        },
{
}

/// A trigger of blocks needs an attacker and a blocker. It may ask for one that is weaker than the
/// other, and neither is where they are equally strong.
pub proof fn law_blocks_fire(
    x: TriggerAttackerBlockedByCreature,
    game: GameState,
    t: Trigger,
    p: RunParams,
)
    ensures
        x.fires(t, p, game) ==> p.attacker is Some && p.blocker is Some,
        p.attacker is Some && p.blocker is Some && game.card_at(p.attacker->0) is Some
            && game.card_at(p.blocker->0) is Some ==> {
            let a = game.card_at(p.attacker->0)->0;
            let b = game.card_at(p.blocker->0)->0;
            &&& string_of(x.valid_card) == Some("LessPowerThanBlocker"@) && x.valid_blocker is None
                ==> (x.fires(t, p, game) <==> a.power < b.power)
            &&& string_of(x.valid_blocker) == Some("LessPowerThanAttacker"@) && x.valid_card is None
                ==> (x.fires(t, p, game) <==> b.power < a.power)
            &&& x.valid_card is None && x.valid_blocker is None ==> x.fires(t, p, game)
            &&& x.fires(t, p, game) && string_of(x.valid_card) != Some("LessPowerThanBlocker"@)
                ==> is_about(game.facts, t, x.valid_card, p.attacker)
            &&& x.fires(t, p, game) && string_of(x.valid_blocker) != Some("LessPowerThanAttacker"@)
                ==> is_about(game.facts, t, x.valid_blocker, p.blocker)
        },
{
}

/// A trigger of damage fires exactly for damage in combat or not as it asks, from a source and to a
/// card or player as it asks.
pub proof fn law_damage_fires(x: TriggerDamageDone, game: GameState, t: Trigger, p: RunParams)
    ensures
        x.fires(t, p, game) <==> {
            &&& x.combat_damage == Some(true) ==> p.is_combat_damage == Some(true)
            &&& x.combat_damage == Some(false) ==> p.is_combat_damage != Some(true)
            &&& is_about(game.facts, t, x.valid_source, p.damage_source)
            &&& p.damage_target_card is Some ==> is_about(
                game.facts,
                t,
                x.valid_target,
                p.damage_target_card,
            )
            &&& p.damage_target_card is None ==> is_about_player(
                game.facts,
                t,
                x.valid_target,
                p.damage_target_player,
            )
        },
{
}

/// A trigger of damage that is dealt at once fires only where there is some, of the kind and to the
/// target that it asks for.
pub proof fn law_damage_at_once_fires(
    x: TriggerDamageDoneOnce,
    game: GameState,
    t: Trigger,
    p: RunParams,
)
    requires
        p.damage_map is None,
        x.damage_amount_text is None,
    ensures
        x.fires(t, p, game) <==> {
            &&& x.combat_damage == Some(true) ==> p.is_combat_damage == Some(true)
            &&& x.combat_damage == Some(false) ==> p.is_combat_damage != Some(true)
            &&& is_about(game.facts, t, x.valid_source, p.damage_source)
            &&& p.damage_amount is Some && p.damage_amount->0 > 0
            &&& p.damage_target_card is Some ==> is_about(
                game.facts,
                t,
                x.valid_target,
                p.damage_target_card,
            )
            &&& p.damage_target_card is None ==> is_about_player(
                game.facts,
                t,
                x.valid_target,
                p.damage_target_player,
            )
        },
{
}

/// Damage of more sources adds up, where the trigger is about them; each source is named once.
pub proof fn law_damage_at_once_adds_up(
    facts: Facts,
    t: Trigger,
    named: Option<String>,
    entries: Seq<DamageEntry>,
    e: DamageEntry,
)
    requires
        i32::MIN <= amount_from(facts, t, string_of(named), entries) + e.amount <= i32::MAX,
    ensures
        amount_from(facts, t, string_of(named), Seq::empty()) == 0,
        amount_from(facts, t, string_of(named), entries.push(e)) == amount_from(
            facts,
            t,
            string_of(named),
            entries,
        ) + (if is_about(facts, t, named, Some(e.source)) {
            e.amount as int
        } else {
            0
        }),
        sources_from(facts, t, string_of(named), entries.push(e)).contains(e.source) <==> is_about(
            facts,
            t,
            named,
            Some(e.source),
        ),
    decreases entries.len(),
{
    assert(entries.push(e).drop_last() =~= entries);
    lemma_sources(facts, t, named, entries);
    let v = sources_from(facts, t, string_of(named), entries);
    let w = sources_from(facts, t, string_of(named), entries.push(e));
    if is_about(facts, t, named, Some(e.source)) && !v.contains(e.source) {
        assert(w[v.len() as int] == e.source);
    }
    if w.contains(e.source) && w == v {
        let i = choose|i: int| 0 <= i < v.len() && v[i] == e.source;
        assert(is_about(facts, t, named, Some(v[i])));
    }
}

proof fn lemma_sources(facts: Facts, t: Trigger, named: Option<String>, entries: Seq<DamageEntry>)
    ensures
        forall|i: int|
            0 <= i < sources_from(facts, t, string_of(named), entries).len() ==> is_about(
                facts,
                t,
                named,
                Some(#[trigger] sources_from(facts, t, string_of(named), entries)[i]),
            ),
    decreases entries.len(),
{
    if entries.len() > 0 {
        lemma_sources(facts, t, named, entries.drop_last());
        let v = sources_from(facts, t, string_of(named), entries.drop_last());
        let w = sources_from(facts, t, string_of(named), entries);
        assert forall|i: int| 0 <= i < w.len() implies is_about(
            facts,
            t,
            named,
            Some(#[trigger] w[i]),
        ) by {
            if i < v.len() {
                assert(w[i] == v[i]);
            }
        }
    }
}

/// Triggers of one card or one player fire exactly where these are as they ask.
pub proof fn law_single_events_fire(
    attached: TriggerAttached,
    faced: TriggerTurnFaceUp,
    dice: TriggerPlanarDice,
    ring: TriggerRingTemptsYou,
    scry: TriggerScry,
    game: GameState,
    t: Trigger,
    p: RunParams,
)
    ensures
        attached.fires(t, p, game) <==> is_about(game.facts, t, attached.valid_source, p.source_card)
            && is_about(game.facts, t, attached.valid_target, p.card),
        faced.fires(t, p, game) <==> is_about(game.facts, t, faced.valid_card, p.card),
        dice.fires(t, p, game) <==> is_about_player(game.facts, t, dice.valid_player, p.player) && (
        dice.result is Some ==> string_of(p.mode) == string_of(dice.result)),
        ring.fires(t, p, game) <==> is_about_player(game.facts, t, ring.valid_player, p.player)
            && is_about(game.facts, t, ring.valid_card, p.card),
        scry.fires(t, p, game) <==> is_about_player(game.facts, t, scry.valid_player, p.player),
{
}

/// A trigger of lands that are played fires where the land is as it asks and comes from a zone that it
/// names; with any zone, or none named, it may come from everywhere.
pub proof fn law_lands_fire(x: TriggerLandPlayed, game: GameState, t: Trigger, p: RunParams)
    ensures
        x.fires(t, p, game) ==> is_about(game.facts, t, x.valid_card, p.card),
        x.origin is None || string_of(x.origin) == Some("Any"@) ==> (x.fires(t, p, game) <==> is_about(
            game.facts,
            t,
            x.valid_card,
            p.card,
        )),
        x.origin is Some && string_of(x.origin) != Some("Any"@) && p.origin is None ==> !x.fires(
            t,
            p,
            game,
        ),
{
}

/// A trigger of tapping fires where the card, its cause and the player are as it asks; it may ask for
/// attackers, or for others, and for the first time in a turn. Teamwork never is.
pub proof fn law_taps_fire(x: TriggerTaps, game: GameState, t: Trigger, p: RunParams)
    ensures
        x.require_teamwork ==> !x.fires(t, p, game),
        !x.require_teamwork && !x.require_first_time ==> (x.fires(t, p, game) <==> {
            &&& is_about(game.facts, t, x.valid_card, p.card)
            &&& is_about(game.facts, t, x.valid_cause, p.cause_card)
            &&& is_about_player(game.facts, t, x.valid_player, p.player)
            &&& x.attacker == Some(true) ==> p.attacker is Some
            &&& x.attacker == Some(false) ==> p.attacker is None
        }),
        x.require_first_time && x.fires(t, p, game) ==> p.first_time == Some(true) || (p.first_time
            is None && p.card is Some && game.card_at(p.card->0) is Some && game.card_at(
            p.card->0,
        )->0.tapped_this_turn == 1),
        x.require_first_time && x.valid_card is None && x.valid_cause is None && x.valid_player
            is None && x.attacker is None && !x.require_teamwork && p.first_time == Some(true)
            ==> x.fires(t, p, game),
        x.require_first_time && x.valid_card is None && x.valid_cause is None && x.valid_player
            is None && x.attacker is None && !x.require_teamwork && p.first_time is None && p.card
            is Some && game.card_at(p.card->0) is Some && game.card_at(p.card->0)->0.tapped_this_turn
            == 1 ==> x.fires(t, p, game),
{
}

/// A trigger of mana fires where the source, the ability and the player are as it asks, and the mana
/// holds what it asks for.
pub proof fn law_mana_fires(x: TriggerManaAdded, game: GameState, t: Trigger, p: RunParams)
    ensures
        x.produced is None ==> (x.fires(t, p, game) <==> {
            &&& is_about(game.facts, t, x.valid_source, p.card)
            &&& is_about_player(game.facts, t, x.player, p.player)
            &&& x.valid_sa is Some ==> p.ability_mana is Some && game.facts.matches_ability(
                x.valid_sa->0@,
                p.ability_mana->0,
                t.host,
            )
        }),
        x.produced is Some && p.produced is None ==> !x.fires(t, p, game),
        x.fires(t, p, game) ==> is_about(game.facts, t, x.valid_source, p.card) && is_about_player(
            game.facts,
            t,
            x.player,
            p.player,
        ),
{
}

/// A trigger of casting fires where the spell, the ability and the player are as it asks. The player
/// is the one who activates it, and where nobody does the one who controls it.
pub proof fn law_casting_fires(
    x: TriggerSpellAbilityCastOrCopy,
    game: GameState,
    t: Trigger,
    p: RunParams,
)
    ensures
        x.fires(t, p, game) ==> {
            &&& is_about(game.facts, t, x.valid_card, p.spell_card)
            &&& p.activator is Some ==> is_about_player(
                game.facts,
                t,
                x.valid_activating_player,
                p.activator,
            )
            &&& p.activator is None ==> is_about_player(
                game.facts,
                t,
                x.valid_activating_player,
                p.spell_controller,
            )
            &&& x.valid_sa is Some ==> p.spell_ability is Some && game.facts.matches_ability(
                x.valid_sa->0@,
                p.spell_ability->0,
                t.host,
            )
        },
        x.valid_sa is None && x.valid_sa_on_card is None && is_about(
            game.facts,
            t,
            x.valid_card,
            p.spell_card,
        ) && is_about_player(
            game.facts,
            t,
            x.valid_activating_player,
            if p.activator is Some {
                p.activator
            } else {
                p.spell_controller
            },
        ) ==> x.fires(t, p, game),
{
}

/// What triggers of single events hand on is what the event tells.
pub proof fn law_single_events_hand_on(
    damage: TriggerDamageDone,
    attacks: TriggerAttacks,
    blocks: TriggerAttackerBlockedByCreature,
    attached: TriggerAttached,
    cast: TriggerSpellAbilityCastOrCopy,
    mana: TriggerManaAdded,
    scry: TriggerScry,
    game: GameState,
    t: Trigger,
    p: RunParams,
    m: Map<AbilityKey, ValueView>,
)
    ensures
        p.damage_source matches Some(c) ==> damage.with_objects(t, p, game, m)[AbilityKey::Source]
            == ValueView::Card(c),
        p.damage_amount matches Some(n) ==> damage.with_objects(t, p, game, m)[AbilityKey::DamageAmount]
            == ValueView::Text(number_text(n as int)),
        p.damage_target_card matches Some(c) ==> damage.with_objects(t, p, game, m)[AbilityKey::Target]
            == ValueView::Card(c) && damage.with_objects(t, p, game, m)[AbilityKey::TargetCard]
            == ValueView::Card(c),
        p.damage_target_card is None ==> (p.damage_target_player matches Some(q)
            ==> damage.with_objects(t, p, game, m)[AbilityKey::Target] == ValueView::Player(q)
            && damage.with_objects(t, p, game, m)[AbilityKey::TargetPlayer] == ValueView::Player(q)),
        p.defending_player matches Some(q) ==> damage.with_objects(t, p, game, m)[AbilityKey::DefendingPlayer]
            == ValueView::Player(q) && attacks.with_objects(t, p, game, m)[AbilityKey::DefendingPlayer]
            == ValueView::Player(q),
        p.attacker matches Some(c) ==> attacks.with_objects(t, p, game, m)[AbilityKey::Attacker]
            == ValueView::Card(c) && blocks.with_objects(t, p, game, m)[AbilityKey::Attacker]
            == ValueView::Card(c),
        p.attacked_player matches Some(q) ==> attacks.with_objects(t, p, game, m)[AbilityKey::Defender]
            == ValueView::Player(q),
        p.attacked_player is None ==> (p.attacked_card matches Some(c) ==> attacks.with_objects(
            t,
            p,
            game,
            m,
        )[AbilityKey::Defender] == ValueView::Card(c)),
        p.blocker matches Some(c) ==> blocks.with_objects(t, p, game, m)[AbilityKey::Blocker]
            == ValueView::Card(c),
        p.source_card matches Some(c) ==> attached.with_objects(t, p, game, m)[AbilityKey::Source]
            == ValueView::Card(c),
        p.card matches Some(c) ==> attached.with_objects(t, p, game, m)[AbilityKey::Target]
            == ValueView::Card(c) && mana.with_objects(t, p, game, m)[AbilityKey::Card]
            == ValueView::Card(c),
        p.spell_card matches Some(c) ==> cast.with_objects(t, p, game, m)[AbilityKey::Card]
            == ValueView::Card(c),
        p.activator matches Some(q) ==> cast.with_objects(t, p, game, m)[AbilityKey::Activator]
            == ValueView::Player(q),
        p.player matches Some(q) ==> mana.with_objects(t, p, game, m)[AbilityKey::Player]
            == ValueView::Player(q) && scry.with_objects(t, p, game, m)[AbilityKey::Player]
            == ValueView::Player(q),
        p.produced matches Some(s) ==> mana.with_objects(t, p, game, m)[AbilityKey::Produced]
            == ValueView::Text(s@),
        p.num matches Some(n) ==> scry.with_objects(t, p, game, m)[AbilityKey::ScryNum]
            == ValueView::Text(number_text(n as int)),
{
}

/// The modes of casting triggers are told apart.
pub proof fn law_modes_of_casting()
    ensures
        mode_named("SpellCast"@) == Some(TriggerType::SpellCast),
        mode_named("AbilityCast"@) == Some(TriggerType::AbilityCast),
        mode_named("SpellAbilityCast"@) == Some(TriggerType::SpellAbilityCast),
        mode_named("SpellCastOrCopy"@) == Some(TriggerType::SpellCastOrCopy),
        mode_named("SpellCopied"@) == Some(TriggerType::SpellCopied),
        mode_named("SpellAbilityCopy"@) == Some(TriggerType::SpellAbilityCopy),
        mode_named("SpellCopy"@) == Some(TriggerType::SpellCopy),
        mode_named("SpellCastAll"@) == Some(TriggerType::SpellCastAll),
        mode_named("SpellCastOnce"@) == Some(TriggerType::SpellCastOnce),
        mode_named("SpellCastOfType"@) == Some(TriggerType::SpellCastOfType),
{
    reveal_strlit("SpellCast");
    reveal_strlit("AbilityCast");
    reveal_strlit("SpellAbilityCast");
    reveal_strlit("SpellCastOrCopy");
    reveal_strlit("SpellCopied");
    reveal_strlit("SpellAbilityCopy");
    reveal_strlit("SpellCopy");
    reveal_strlit("SpellCastAll");
    reveal_strlit("SpellCastOnce");
    reveal_strlit("SpellCastOfType");
    assert("SpellCast"@[6] == 'a' && "SpellCopy"@[6] == 'o');
    assert("SpellAbilityCast"@[13] == 'a' && "SpellAbilityCopy"@[13] == 'o');
    assert("AbilityCast"@[0] == 'A' && "SpellCopied"@[0] == 'S');
    assert("SpellCastOfType"@[10] == 'f' && "SpellCastOrCopy"@[10] == 'r');
    assert("SpellCast"@.len() == 9 && "AbilityCast"@.len() == 11 && "SpellAbilityCast"@.len() == 16);
    assert("SpellCastOrCopy"@.len() == 15 && "SpellCopied"@.len() == 11);
    assert("SpellAbilityCopy"@.len() == 16 && "SpellCopy"@.len() == 9);
    assert("SpellCastAll"@.len() == 12 && "SpellCastOnce"@.len() == 13);
    assert("SpellCastOfType"@.len() == 15);
}

} // verus!
