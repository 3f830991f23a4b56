//! What is counted of a turn, of players and of cards.

use vstd::prelude::*;
use crate::game::{Card, Counter, GameState, Player, ZoneEntry};
use crate::laws::counting::once;
use crate::laws::numbers::{lemma_parts_from, lemma_starts};
use crate::svar::count::{adamant, remembered_size, x_paid, CountPlan};
use crate::svar::count_body::{is_main, times_kicked, was_cast_from};
use crate::svar::defined::{defined_cards, sacrificed, sacrificed_number, values_cards};
use crate::svar::facts::{
    attacked_by, creatures_among, merged_players, net_power, net_toughness, player_counters,
    player_number, top_cost,
};
use crate::svar::lists::{
    changelings, combat_damages, counter_kinds, entered, kinds_of, matches_any, occurrences,
    opponent_lives, opponent_losses, sources_matching, symbols_meeting, unlocked_doors,
};
use crate::svar::eval::{card_list_property, card_properties};
use crate::svar::folds::{distinct, greatest, least, merged, total};
use crate::svar::scene::SceneView;
use crate::svar::simple::{discarded_value, lives};
use crate::spell::{AbilityValue, AbilityView};
use crate::mana::atoms::atom_named;
use crate::text::{has_prefix, lemma_pieces_joined, lowered, number_or, pieces};
use crate::game::svar_value;
use crate::types::{CardId, PlayerId, ZoneType};

verus! {

// ---- the turn ----

/// The cards that came to a zone, from a zone or from anywhere: one more counts exactly where it went
/// there, and came from there where that is asked.
pub proof fn law_cards_that_entered(
    entries: Seq<ZoneEntry>,
    e: ZoneEntry,
    destination: ZoneType,
    origin: Option<ZoneType>,
)
    ensures
        entered(Seq::empty(), destination, origin).len() == 0,
        e.destination == destination && origin is None ==> entered(
            entries.push(e),
            destination,
            origin,
        ) == entered(entries, destination, origin).push(e.card),
        e.destination == destination && origin == Some(e.origin) ==> entered(
            entries.push(e),
            destination,
            origin,
        ) == entered(entries, destination, origin).push(e.card),
        e.destination != destination || (origin is Some && origin != Some(e.origin)) ==> entered(
            entries.push(e),
            destination,
            origin,
        ) == entered(entries, destination, origin),
{
    assert(entries.push(e).drop_last() =~= entries);
}

/// How often a spell was kicked: as often as was counted, else once for each kicker that was paid; an
/// ability that has nothing to do with the casting knows of none.
pub proof fn law_times_kicked(s: SceneView, host: Card)
    ensures
        s.sa.unlinked_from_cast ==> times_kicked(s, host) == 0,
        host.cast_record is None ==> times_kicked(s, host) == 0,
        !s.sa.unlinked_from_cast ==> (host.cast_record matches Some(r) ==> ({
            &&& r.kick_count > 0 ==> times_kicked(s, host) == r.kick_count as i32
            &&& r.kick_count == 0 && r.kicker1 && r.kicker2 ==> times_kicked(s, host) == 2
            &&& r.kick_count == 0 && r.kicker1 != r.kicker2 ==> times_kicked(s, host) == 1
            &&& r.kick_count == 0 && !r.kicker1 && !r.kicker2 ==> times_kicked(s, host) == 0
        })),
{
}

/// A card was cast from a zone only where it was cast, and from that zone; from a zone of the player only
/// where they own it, and by the player only where they cast it.
pub proof fn law_cast_from(s: SceneView, host: Card, head: Seq<char>)
    requires
        was_cast_from(s, host, head),
    ensures
        host.cast_from is Some,
        crate::text::has_part(head, "Your"@) ==> host.owner == s.you,
        crate::text::has_part(head, "ByYou"@) ==> (host.cast_record matches Some(r)
            && r.activating_player == s.you),
{
}

/// What was paid for X: what the ability knows, and else, for one that is about entering, what the card
/// recorded.
pub proof fn law_x_of_a_card(s: SceneView, host: Card)
    ensures
        s.sa.x_mana_cost_paid != 0 ==> x_paid(s, host) == s.sa.x_mana_cost_paid as i32,
        s.sa.x_mana_cost_paid == 0 && s.sa.etb ==> x_paid(s, host) == (match svar_value(
            host.svars@,
            "XPaid"@,
        ) {
            Some(v) => number_or(v, 0),
            None => 0,
        }),
{
}

/// A main phase is the first or the second.
pub proof fn law_main_phases(phase: crate::game::PhaseType)
    ensures
        is_main(phase) <==> phase == crate::game::PhaseType::Main1 || phase
            == crate::game::PhaseType::Main2,
{
}

/// All that a card remembers counts together.
pub proof fn law_remembered_things(host: Card)
    requires
        host.remembered_cards@.len() + host.remembered_players@.len()
            + host.remembered_numbers@.len() + host.remembered_counters@.len() <= i32::MAX,
    ensures
        remembered_size(host) == host.remembered_cards@.len() + host.remembered_players@.len()
            + host.remembered_numbers@.len() + host.remembered_counters@.len(),
{
}

// ---- lists ----

/// A card counts for a list of restrictions exactly where it meets one of them.
pub proof fn law_one_restriction(
    game: GameState,
    restrictions: Seq<Seq<char>>,
    source: CardId,
    you: PlayerId,
    ids: Seq<CardId>,
    id: CardId,
)
    ensures
        matches_any(game, restrictions, source, you, id) <==> exists|i: int|
            0 <= i < restrictions.len() && game.facts.matches_card(
                #[trigger] restrictions[i],
                source,
                you,
                id,
            ),
        sources_matching(game, ids.push(id), restrictions, source, you).len() == sources_matching(
            game,
            ids,
            restrictions,
            source,
            you,
        ).len() + once(matches_any(game, restrictions, source, you, id)),
{
    assert(ids.push(id).drop_last() =~= ids);
}

/// The lives and losses of opponents: one more player counts exactly where they are on another side.
pub proof fn law_opponents_in_numbers(
    game: GameState,
    ids: Seq<PlayerId>,
    id: PlayerId,
    you: PlayerId,
)
    requires
        game.player_at(id) is Some,
        game.player_at(you) is Some,
    ensures
        ({
            let p = game.player_at(id)->0;
            let other = p.team != game.player_at(you)->0.team;
            &&& other ==> opponent_lives(game, ids.push(id), you) == opponent_lives(
                game,
                ids,
                you,
            ).push(p.life)
            &&& !other ==> opponent_lives(game, ids.push(id), you) == opponent_lives(game, ids, you)
            &&& other ==> opponent_losses(game, ids.push(id), you) == opponent_losses(
                game,
                ids,
                you,
            ).push(p.life_lost_this_turn)
            &&& !other ==> opponent_losses(game, ids.push(id), you) == opponent_losses(
                game,
                ids,
                you,
            )
        }),
{
    assert(ids.push(id).drop_last() =~= ids);
}

/// The lives of players, and the combat damage that was dealt to each.
pub proof fn law_numbers_of_each_player(game: GameState, ids: Seq<PlayerId>, i: int)
    ensures
        lives(game, ids).len() == ids.len(),
        0 <= i < ids.len() ==> (game.player_at(ids[i]) matches Some(p) ==> lives(game, ids)[i]
            == p.life),
        combat_damages(game).len() == game.players@.len(),
        0 <= i < game.players@.len() ==> combat_damages(game)[i]
            == game.players@[i].combat_damage_received_this_turn,
{
}

/// Doors of rooms that are open add up; cards that are no rooms have none.
pub proof fn law_open_doors(game: GameState, ids: Seq<CardId>, id: CardId)
    requires
        game.card_at(id) is Some,
        i32::MIN <= unlocked_doors(game, ids) + game.card_at(id)->0.unlocked_rooms <= i32::MAX,
    ensures
        unlocked_doors(game, ids.push(id)) == unlocked_doors(game, ids) + if game.card_at(
            id,
        )->0.types.is_subtype("Room"@) {
            game.card_at(id)->0.unlocked_rooms as int
        } else {
            0
        },
{
    assert(ids.push(id).drop_last() =~= ids);
}

/// The kinds of counters on cards, each counted once; one of which there are none left does not count.
pub proof fn law_kinds_of_counters(counters: Seq<Counter>, c: Counter, game: GameState, id: CardId)
    requires
        game.card_at(id) is Some,
    ensures
        c.count > 0 ==> kinds_of(counters.push(c)) == kinds_of(counters).push(c.kind@),
        c.count <= 0 ==> kinds_of(counters.push(c)) == kinds_of(counters),
        counter_kinds(game, seq![id]) == merged(
            Seq::empty(),
            kinds_of(game.card_at(id)->0.counters@),
        ),
{
    assert(counters.push(c).drop_last() =~= counters);
    let one = seq![id];
    assert(one.drop_last() =~= Seq::<CardId>::empty());
    assert(counter_kinds(game, one.drop_last()) =~= Seq::<Seq<char>>::empty());
}

/// Of texts that are put together, each counts once.
pub proof fn law_merging(seen: Seq<Seq<char>>, more: Seq<Seq<char>>, t: Seq<char>)
    ensures
        merged(seen, Seq::empty()) == seen,
        merged(seen, more).contains(t) ==> merged(seen, more.push(t)) == merged(seen, more),
        !merged(seen, more).contains(t) ==> merged(seen, more.push(t)) == merged(seen, more).push(t),
{
    assert(more.push(t).drop_last() =~= more);
}

/// How often a text occurs among texts: once more for each that is it.
pub proof fn law_occurrences(texts: Seq<Seq<char>>, u: Seq<char>, t: Seq<char>)
    requires
        occurrences(texts, t) < i32::MAX,
    ensures
        occurrences(Seq::empty(), t) == 0,
        occurrences(texts.push(u), t) == occurrences(texts, t) + once(u == t),
{
    assert(texts.push(u).drop_last() =~= texts);
}

/// Cards that are of every type add up.
pub proof fn law_changelings(game: GameState, ids: Seq<CardId>, id: CardId)
    requires
        game.card_at(id) is Some,
        changelings(game, ids) < i32::MAX,
    ensures
        changelings(game, ids.push(id)) == changelings(game, ids) + once(
            game.card_at(id)->0.keyword("Changeling"@),
        ),
{
    assert(ids.push(id).drop_last() =~= ids);
}

/// The creatures of a list: one more counts exactly where it is one.
pub proof fn law_creatures_of_a_list(game: GameState, ids: Seq<CardId>, id: CardId)
    requires
        game.card_at(id) is Some,
    ensures
        creatures_among(game, ids.push(id)).len() == creatures_among(game, ids).len() + once(
            game.card_at(id)->0.types.creature,
        ),
        creatures_among(game, Seq::empty()).len() == 0,
{
    assert(ids.push(id).drop_last() =~= ids);
}

/// The players that the cards of a player attacked, each once; cards of others do not count.
pub proof fn law_players_that_were_attacked(cards: Seq<Card>, c: Card, player: PlayerId)
    ensures
        c.controller == player ==> attacked_by(cards.push(c), player) == merged_players(
            attacked_by(cards, player),
            c.attacked_players_this_turn@,
        ),
        c.controller != player ==> attacked_by(cards.push(c), player) == attacked_by(cards, player),
        attacked_by(Seq::empty(), player).len() == 0,
{
    assert(cards.push(c).drop_last() =~= cards);
}

/// Of players that are put together, each counts once.
pub proof fn law_merging_players(seen: Seq<PlayerId>, more: Seq<PlayerId>, p: PlayerId)
    ensures
        merged_players(seen, Seq::empty()) == seen,
        merged_players(seen, more).contains(p) ==> merged_players(seen, more.push(p))
            == merged_players(seen, more),
        !merged_players(seen, more).contains(p) ==> merged_players(seen, more.push(p))
            == merged_players(seen, more).push(p),
{
    assert(more.push(p).drop_last() =~= more);
}

/// The top of a library is its last card.
pub proof fn law_top_of_the_library(game: GameState, player: PlayerId)
    ensures
        game.in_zone(ZoneType::Library, player).len() == 0 ==> top_cost(game, player) == 0,
        game.in_zone(ZoneType::Library, player).len() > 0 ==> (game.card_at(
            game.in_zone(ZoneType::Library, player).last(),
        ) matches Some(c) ==> top_cost(game, player) == c.mana_value),
{
}

// ---- cards and players ----

/// The power and toughness of a card: on the battlefield as they are, elsewhere as they were last.
pub proof fn law_power_as_it_was(c: Card)
    ensures
        c.zone == ZoneType::Battlefield ==> net_power(c) == c.power && net_toughness(c)
            == c.toughness,
        c.zone != ZoneType::Battlefield && c.lki_power is Some ==> net_power(c) == c.lki_power->0,
        c.zone != ZoneType::Battlefield && c.lki_power is None ==> net_power(c) == c.power,
        c.zone != ZoneType::Battlefield && c.lki_toughness is Some ==> net_toughness(c)
            == c.lki_toughness->0,
        c.zone != ZoneType::Battlefield && c.lki_toughness is None ==> net_toughness(c)
            == c.toughness,
{
}

/// A card that was sacrificed: its power and toughness as they were last, and else as they are by
/// themselves, and its cost.
pub proof fn law_sacrificed_cards(game: GameState, sa: AbilityView, id: CardId)
    requires
        sacrificed(game, sa) == Some(id),
        game.card_at(id) is Some,
    ensures
        ({
            let c = game.card_at(id)->0;
            &&& c.lki_power is Some ==> sacrificed_number(game, sa, "CardPower"@) == c.lki_power->0
            &&& c.lki_power is None && c.base_power is Some ==> sacrificed_number(
                game,
                sa,
                "CardPower"@,
            ) == c.base_power->0
            &&& c.lki_toughness is Some ==> sacrificed_number(game, sa, "CardToughness"@)
                == c.lki_toughness->0
            &&& sacrificed_number(game, sa, "CardManaCost"@) == c.cmc
        }),
{
    reveal_strlit("CardPower");
    reveal_strlit("CardToughness");
    reveal_strlit("CardManaCost");
    assert("CardPower"@.len() == 9 && "CardToughness"@.len() == 13 && "CardManaCost"@.len() == 12);
}

/// The counters of a player, by their kinds.
pub proof fn law_counters_of_players(p: Player, kind: Seq<char>)
    ensures
        crate::text::same_ignoring_case(kind, "POISON"@) ==> player_counters(p, kind)
            == p.poison_counters,
        crate::text::same_ignoring_case(kind, "ENERGY"@) ==> player_counters(p, kind)
            == p.energy_counters,
        crate::text::same_ignoring_case(kind, "RADIATION"@) ==> player_counters(p, kind)
            == p.radiation_counters,
        i32::MIN <= p.poison_counters + p.energy_counters <= i32::MAX && i32::MIN
            <= p.poison_counters + p.energy_counters + p.radiation_counters <= i32::MAX
            && crate::text::same_ignoring_case(kind, "ALL"@) ==> player_counters(p, kind)
            == p.poison_counters + p.energy_counters + p.radiation_counters,
{
    reveal_strlit("ALL");
    reveal_strlit("POISON");
    reveal_strlit("ENERGY");
    reveal_strlit("RADIATION");
    assert(crate::text::lowered("ALL"@).len() == 3);
    assert(crate::text::lowered("POISON"@).len() == 6);
    assert(crate::text::lowered("ENERGY"@).len() == 6);
    assert(crate::text::lowered("RADIATION"@).len() == 9);
    assert(crate::text::lowered("POISON"@)[0] == 'p');
    assert(crate::text::lowered("ENERGY"@)[0] == 'e');
}

/// The cards that values of an ability stand for: a card alone, a list of cards, and none for others.
pub proof fn law_cards_of_values(values: Seq<AbilityValue>, v: AbilityValue)
    ensures
        values_cards(Seq::empty()).len() == 0,
        v matches AbilityValue::Card(c) ==> values_cards(values.push(v)) == values_cards(values)
            + seq![c],
        v matches AbilityValue::Cards(l) ==> values_cards(values.push(v)) == values_cards(values)
            + l@,
        v matches AbilityValue::Player(_) ==> values_cards(values.push(v)) == values_cards(values),
{
    assert(values.push(v).drop_last() =~= values);
    if v is Player {
        assert(values_cards(values.push(v)) =~= values_cards(values));
    }
}

/// A discard counts so many times, where a card was discarded; where a card that is no land is asked
/// for, only where one was.
pub proof fn law_discards(game: GameState, ids: Seq<CardId>, filter: Seq<char>, times: i32)
    ensures
        ids.len() == 0 ==> discarded_value(game, ids, filter, times) == 0,
        ids.len() > 0 && !crate::text::has_part(filter, "nonLand"@) ==> discarded_value(
            game,
            ids,
            filter,
            times,
        ) == times,
        crate::text::has_part(filter, "nonLand"@) && (forall|i: int|
            0 <= i < ids.len() ==> (game.card_at(#[trigger] ids[i]) matches Some(c) && c.types.land))
            ==> discarded_value(game, ids, filter, times) == 0,
{
    if ids.len() > 0 && !crate::text::has_part(filter, "nonLand"@) {
        let i = 0int;
        assert(game.card_at(ids[i]) == game.card_at(ids[i]));
    }
}

/// More numbers that can be asked of a player, by their names.
pub proof fn law_more_numbers_of_players(
    game: GameState,
    id: PlayerId,
    source: CardId,
    you: PlayerId,
)
    requires
        game.player_at(id) is Some,
    ensures
        player_number(game, id, "ManaExpendedThisTurn"@, source, you) == game.player_at(id)->0.mana_expended_this_turn,
        player_number(game, id, "RingTemptedYou"@, source, you) == game.player_at(id)->0.ring_level,
        i32::MIN <= game.player_at(id)->0.assigned_damage_this_turn - game.player_at(
            id,
        )->0.assigned_combat_damage_this_turn <= i32::MAX ==> player_number(game, id, "NonCombatDamageDealtThisTurn"@, source, you) == game.player_at(id)->0.assigned_damage_this_turn - game.player_at(
            id,
        )->0.assigned_combat_damage_this_turn,
        player_number(game, id, "OpponentsAttackedThisCombat"@, source, you) == game.player_at(id)->0.attacked_players_this_combat@.len() as i32,
        player_number(game, id, "BeenDealtCombatDamageSinceLastTurn"@, source, you) == once(
            game.player_at(id)->0.been_dealt_combat_damage_since_last_turn,
        ),
{
    lemma_more_0(game, id, source, you);
    lemma_more_1(game, id, source, you);
    lemma_more_2(game, id, source, you);
    lemma_more_3(game, id, source, you);
    lemma_more_4(game, id, source, you);
}

proof fn lemma_more_0(
    game: GameState,
    id: PlayerId,
    source: CardId,
    you: PlayerId,
)
    requires
        game.player_at(id) is Some,
    ensures
        player_number(game, id, "ManaExpendedThisTurn"@, source, you) == game.player_at(id)->0.mana_expended_this_turn,
{
    let t = "ManaExpendedThisTurn"@;
    reveal_strlit("ManaExpendedThisTurn");
    reveal_strlit("SacrificedThisTurn");
    lemma_parts_from(t, "SacrificedThisTurn"@, 0);
    reveal_strlit("Valid");
    lemma_parts_from(t, "Valid"@, 0);
    reveal_strlit("CardsInHand");
    lemma_parts_from(t, "CardsInHand"@, 0);
    reveal_strlit("CardsInLibrary");
    lemma_parts_from(t, "CardsInLibrary"@, 0);
    reveal_strlit("CardsInGraveyard");
    lemma_parts_from(t, "CardsInGraveyard"@, 0);
    reveal_strlit("CardsInPlay");
    lemma_parts_from(t, "CardsInPlay"@, 0);
    reveal_strlit("CreaturesInPlay");
    lemma_parts_from(t, "CreaturesInPlay"@, 0);
    reveal_strlit("StartingLife");
    lemma_parts_from(t, "StartingLife"@, 0);
    reveal_strlit("LifeTotal");
    lemma_parts_from(t, "LifeTotal"@, 0);
    reveal_strlit("LifeLostThisTurn");
    lemma_parts_from(t, "LifeLostThisTurn"@, 0);
    reveal_strlit("LifeLostLastTurn");
    lemma_parts_from(t, "LifeLostLastTurn"@, 0);
    reveal_strlit("LifeGainedThisTurn");
    lemma_parts_from(t, "LifeGainedThisTurn"@, 0);
    reveal_strlit("LifeGainedByTeamThisTurn");
    lemma_parts_from(t, "LifeGainedByTeamThisTurn"@, 0);
    reveal_strlit("LifeStartedThisTurnWith");
    lemma_parts_from(t, "LifeStartedThisTurnWith"@, 0);
    reveal_strlit("Speed");
    lemma_parts_from(t, "Speed"@, 0);
    reveal_strlit("LandsPlayed");
    lemma_parts_from(t, "LandsPlayed"@, 0);
    reveal_strlit("SpellsCastThisTurn");
    lemma_parts_from(t, "SpellsCastThisTurn"@, 0);
    reveal_strlit("CardsDrawn");
    lemma_parts_from(t, "CardsDrawn"@, 0);
    reveal_strlit("CardsDiscardedThisTurn");
    lemma_parts_from(t, "CardsDiscardedThisTurn"@, 0);
    reveal_strlit("ExploredThisTurn");
    lemma_parts_from(t, "ExploredThisTurn"@, 0);
    reveal_strlit("DamageToOppsThisTurn");
    lemma_parts_from(t, "DamageToOppsThisTurn"@, 0);
    reveal_strlit("PoisonCounters");
    lemma_parts_from(t, "PoisonCounters"@, 0);
    reveal_strlit("EnergyCounters");
    lemma_parts_from(t, "EnergyCounters"@, 0);
}

proof fn lemma_more_1(
    game: GameState,
    id: PlayerId,
    source: CardId,
    you: PlayerId,
)
    requires
        game.player_at(id) is Some,
    ensures
        player_number(game, id, "RingTemptedYou"@, source, you) == game.player_at(id)->0.ring_level,
{
    let t = "RingTemptedYou"@;
    reveal_strlit("RingTemptedYou");
    reveal_strlit("SacrificedThisTurn");
    lemma_parts_from(t, "SacrificedThisTurn"@, 0);
    reveal_strlit("Valid");
    lemma_parts_from(t, "Valid"@, 0);
    reveal_strlit("CardsInHand");
    lemma_parts_from(t, "CardsInHand"@, 0);
    reveal_strlit("CardsInLibrary");
    lemma_parts_from(t, "CardsInLibrary"@, 0);
    reveal_strlit("CardsInGraveyard");
    lemma_parts_from(t, "CardsInGraveyard"@, 0);
    reveal_strlit("CardsInPlay");
    lemma_parts_from(t, "CardsInPlay"@, 0);
    reveal_strlit("CreaturesInPlay");
    lemma_parts_from(t, "CreaturesInPlay"@, 0);
    reveal_strlit("StartingLife");
    lemma_parts_from(t, "StartingLife"@, 0);
    reveal_strlit("LifeTotal");
    lemma_parts_from(t, "LifeTotal"@, 0);
    reveal_strlit("LifeLostThisTurn");
    lemma_parts_from(t, "LifeLostThisTurn"@, 0);
    reveal_strlit("LifeLostLastTurn");
    lemma_parts_from(t, "LifeLostLastTurn"@, 0);
    reveal_strlit("LifeGainedThisTurn");
    lemma_parts_from(t, "LifeGainedThisTurn"@, 0);
    reveal_strlit("LifeGainedByTeamThisTurn");
    lemma_parts_from(t, "LifeGainedByTeamThisTurn"@, 0);
    reveal_strlit("LifeStartedThisTurnWith");
    lemma_parts_from(t, "LifeStartedThisTurnWith"@, 0);
    reveal_strlit("Speed");
    lemma_parts_from(t, "Speed"@, 0);
    reveal_strlit("LandsPlayed");
    lemma_parts_from(t, "LandsPlayed"@, 0);
    reveal_strlit("SpellsCastThisTurn");
    lemma_parts_from(t, "SpellsCastThisTurn"@, 0);
    reveal_strlit("CardsDrawn");
    lemma_parts_from(t, "CardsDrawn"@, 0);
    reveal_strlit("CardsDiscardedThisTurn");
    lemma_parts_from(t, "CardsDiscardedThisTurn"@, 0);
    reveal_strlit("ExploredThisTurn");
    lemma_parts_from(t, "ExploredThisTurn"@, 0);
    reveal_strlit("DamageToOppsThisTurn");
    lemma_parts_from(t, "DamageToOppsThisTurn"@, 0);
    reveal_strlit("PoisonCounters");
    lemma_parts_from(t, "PoisonCounters"@, 0);
    reveal_strlit("EnergyCounters");
    lemma_parts_from(t, "EnergyCounters"@, 0);
    reveal_strlit("ManaExpendedThisTurn");
    lemma_parts_from(t, "ManaExpendedThisTurn"@, 0);
}

proof fn lemma_more_2(
    game: GameState,
    id: PlayerId,
    source: CardId,
    you: PlayerId,
)
    requires
        game.player_at(id) is Some,
    ensures
        i32::MIN <= game.player_at(id)->0.assigned_damage_this_turn - game.player_at(
            id,
        )->0.assigned_combat_damage_this_turn <= i32::MAX ==> player_number(game, id, "NonCombatDamageDealtThisTurn"@, source, you) == game.player_at(id)->0.assigned_damage_this_turn - game.player_at(
            id,
        )->0.assigned_combat_damage_this_turn,
{
    let t = "NonCombatDamageDealtThisTurn"@;
    reveal_strlit("NonCombatDamageDealtThisTurn");
    reveal_strlit("SacrificedThisTurn");
    lemma_parts_from(t, "SacrificedThisTurn"@, 0);
    reveal_strlit("Valid");
    lemma_parts_from(t, "Valid"@, 0);
    reveal_strlit("CardsInHand");
    lemma_parts_from(t, "CardsInHand"@, 0);
    reveal_strlit("CardsInLibrary");
    lemma_parts_from(t, "CardsInLibrary"@, 0);
    reveal_strlit("CardsInGraveyard");
    lemma_parts_from(t, "CardsInGraveyard"@, 0);
    reveal_strlit("CardsInPlay");
    lemma_parts_from(t, "CardsInPlay"@, 0);
    reveal_strlit("CreaturesInPlay");
    lemma_parts_from(t, "CreaturesInPlay"@, 0);
    reveal_strlit("StartingLife");
    lemma_parts_from(t, "StartingLife"@, 0);
    reveal_strlit("LifeTotal");
    lemma_parts_from(t, "LifeTotal"@, 0);
    reveal_strlit("LifeLostThisTurn");
    lemma_parts_from(t, "LifeLostThisTurn"@, 0);
    reveal_strlit("LifeLostLastTurn");
    lemma_parts_from(t, "LifeLostLastTurn"@, 0);
    reveal_strlit("LifeGainedThisTurn");
    lemma_parts_from(t, "LifeGainedThisTurn"@, 0);
    reveal_strlit("LifeGainedByTeamThisTurn");
    lemma_parts_from(t, "LifeGainedByTeamThisTurn"@, 0);
    reveal_strlit("LifeStartedThisTurnWith");
    lemma_parts_from(t, "LifeStartedThisTurnWith"@, 0);
    reveal_strlit("Speed");
    lemma_parts_from(t, "Speed"@, 0);
    reveal_strlit("LandsPlayed");
    lemma_parts_from(t, "LandsPlayed"@, 0);
    reveal_strlit("SpellsCastThisTurn");
    lemma_parts_from(t, "SpellsCastThisTurn"@, 0);
    reveal_strlit("CardsDrawn");
    lemma_parts_from(t, "CardsDrawn"@, 0);
    reveal_strlit("CardsDiscardedThisTurn");
    lemma_parts_from(t, "CardsDiscardedThisTurn"@, 0);
    reveal_strlit("ExploredThisTurn");
    lemma_parts_from(t, "ExploredThisTurn"@, 0);
    reveal_strlit("DamageToOppsThisTurn");
    lemma_parts_from(t, "DamageToOppsThisTurn"@, 0);
    reveal_strlit("PoisonCounters");
    lemma_parts_from(t, "PoisonCounters"@, 0);
    reveal_strlit("EnergyCounters");
    lemma_parts_from(t, "EnergyCounters"@, 0);
    reveal_strlit("ManaExpendedThisTurn");
    lemma_parts_from(t, "ManaExpendedThisTurn"@, 0);
    reveal_strlit("RingTemptedYou");
    lemma_parts_from(t, "RingTemptedYou"@, 0);
    reveal_strlit("AttractionsVisitedThisTurn");
    lemma_parts_from(t, "AttractionsVisitedThisTurn"@, 0);
    reveal_strlit("TopOfLibraryCMC");
    lemma_parts_from(t, "TopOfLibraryCMC"@, 0);
    reveal_strlit("AttackersDeclared");
    lemma_parts_from(t, "AttackersDeclared"@, 0);
}

proof fn lemma_more_3(
    game: GameState,
    id: PlayerId,
    source: CardId,
    you: PlayerId,
)
    requires
        game.player_at(id) is Some,
    ensures
        player_number(game, id, "OpponentsAttackedThisCombat"@, source, you) == game.player_at(id)->0.attacked_players_this_combat@.len() as i32,
{
    let t = "OpponentsAttackedThisCombat"@;
    reveal_strlit("OpponentsAttackedThisCombat");
    reveal_strlit("SacrificedThisTurn");
    lemma_parts_from(t, "SacrificedThisTurn"@, 0);
    reveal_strlit("Valid");
    lemma_parts_from(t, "Valid"@, 0);
    reveal_strlit("CardsInHand");
    lemma_parts_from(t, "CardsInHand"@, 0);
    reveal_strlit("CardsInLibrary");
    lemma_parts_from(t, "CardsInLibrary"@, 0);
    reveal_strlit("CardsInGraveyard");
    lemma_parts_from(t, "CardsInGraveyard"@, 0);
    reveal_strlit("CardsInPlay");
    lemma_parts_from(t, "CardsInPlay"@, 0);
    reveal_strlit("CreaturesInPlay");
    lemma_parts_from(t, "CreaturesInPlay"@, 0);
    reveal_strlit("StartingLife");
    lemma_parts_from(t, "StartingLife"@, 0);
    reveal_strlit("LifeTotal");
    lemma_parts_from(t, "LifeTotal"@, 0);
    reveal_strlit("LifeLostThisTurn");
    lemma_parts_from(t, "LifeLostThisTurn"@, 0);
    reveal_strlit("LifeLostLastTurn");
    lemma_parts_from(t, "LifeLostLastTurn"@, 0);
    reveal_strlit("LifeGainedThisTurn");
    lemma_parts_from(t, "LifeGainedThisTurn"@, 0);
    reveal_strlit("LifeGainedByTeamThisTurn");
    lemma_parts_from(t, "LifeGainedByTeamThisTurn"@, 0);
    reveal_strlit("LifeStartedThisTurnWith");
    lemma_parts_from(t, "LifeStartedThisTurnWith"@, 0);
    reveal_strlit("Speed");
    lemma_parts_from(t, "Speed"@, 0);
    reveal_strlit("LandsPlayed");
    lemma_parts_from(t, "LandsPlayed"@, 0);
    reveal_strlit("SpellsCastThisTurn");
    lemma_parts_from(t, "SpellsCastThisTurn"@, 0);
    reveal_strlit("CardsDrawn");
    lemma_parts_from(t, "CardsDrawn"@, 0);
    reveal_strlit("CardsDiscardedThisTurn");
    lemma_parts_from(t, "CardsDiscardedThisTurn"@, 0);
    reveal_strlit("ExploredThisTurn");
    lemma_parts_from(t, "ExploredThisTurn"@, 0);
    reveal_strlit("DamageToOppsThisTurn");
    lemma_parts_from(t, "DamageToOppsThisTurn"@, 0);
    reveal_strlit("PoisonCounters");
    lemma_parts_from(t, "PoisonCounters"@, 0);
    reveal_strlit("EnergyCounters");
    lemma_parts_from(t, "EnergyCounters"@, 0);
    reveal_strlit("ManaExpendedThisTurn");
    lemma_parts_from(t, "ManaExpendedThisTurn"@, 0);
    reveal_strlit("RingTemptedYou");
    lemma_parts_from(t, "RingTemptedYou"@, 0);
    reveal_strlit("AttractionsVisitedThisTurn");
    lemma_parts_from(t, "AttractionsVisitedThisTurn"@, 0);
    reveal_strlit("TopOfLibraryCMC");
    lemma_parts_from(t, "TopOfLibraryCMC"@, 0);
    reveal_strlit("AttackersDeclared");
    lemma_parts_from(t, "AttackersDeclared"@, 0);
    reveal_strlit("NonCombatDamageDealtThisTurn");
    lemma_parts_from(t, "NonCombatDamageDealtThisTurn"@, 0);
    reveal_strlit("OpponentsAttackedThisTurn");
    lemma_parts_from(t, "OpponentsAttackedThisTurn"@, 21);
}

proof fn lemma_more_4(
    game: GameState,
    id: PlayerId,
    source: CardId,
    you: PlayerId,
)
    requires
        game.player_at(id) is Some,
    ensures
        player_number(game, id, "BeenDealtCombatDamageSinceLastTurn"@, source, you) == once(
            game.player_at(id)->0.been_dealt_combat_damage_since_last_turn,
        ),
{
    let t = "BeenDealtCombatDamageSinceLastTurn"@;
    reveal_strlit("BeenDealtCombatDamageSinceLastTurn");
    reveal_strlit("SacrificedThisTurn");
    lemma_parts_from(t, "SacrificedThisTurn"@, 0);
    reveal_strlit("Valid");
    lemma_parts_from(t, "Valid"@, 0);
    reveal_strlit("CardsInHand");
    lemma_parts_from(t, "CardsInHand"@, 0);
    reveal_strlit("CardsInLibrary");
    lemma_parts_from(t, "CardsInLibrary"@, 0);
    reveal_strlit("CardsInGraveyard");
    lemma_parts_from(t, "CardsInGraveyard"@, 0);
    reveal_strlit("CardsInPlay");
    lemma_parts_from(t, "CardsInPlay"@, 0);
    reveal_strlit("CreaturesInPlay");
    lemma_parts_from(t, "CreaturesInPlay"@, 0);
    reveal_strlit("StartingLife");
    lemma_parts_from(t, "StartingLife"@, 0);
    reveal_strlit("LifeTotal");
    lemma_parts_from(t, "LifeTotal"@, 0);
    reveal_strlit("LifeLostThisTurn");
    lemma_parts_from(t, "LifeLostThisTurn"@, 0);
    reveal_strlit("LifeLostLastTurn");
    lemma_parts_from(t, "LifeLostLastTurn"@, 0);
    reveal_strlit("LifeGainedThisTurn");
    lemma_parts_from(t, "LifeGainedThisTurn"@, 0);
    reveal_strlit("LifeGainedByTeamThisTurn");
    lemma_parts_from(t, "LifeGainedByTeamThisTurn"@, 0);
    reveal_strlit("LifeStartedThisTurnWith");
    lemma_parts_from(t, "LifeStartedThisTurnWith"@, 0);
    reveal_strlit("Speed");
    lemma_parts_from(t, "Speed"@, 0);
    reveal_strlit("LandsPlayed");
    lemma_parts_from(t, "LandsPlayed"@, 0);
    reveal_strlit("SpellsCastThisTurn");
    lemma_parts_from(t, "SpellsCastThisTurn"@, 0);
    reveal_strlit("CardsDrawn");
    lemma_parts_from(t, "CardsDrawn"@, 0);
    reveal_strlit("CardsDiscardedThisTurn");
    lemma_parts_from(t, "CardsDiscardedThisTurn"@, 0);
    reveal_strlit("ExploredThisTurn");
    lemma_parts_from(t, "ExploredThisTurn"@, 0);
    reveal_strlit("DamageToOppsThisTurn");
    lemma_parts_from(t, "DamageToOppsThisTurn"@, 0);
    reveal_strlit("PoisonCounters");
    lemma_parts_from(t, "PoisonCounters"@, 0);
    reveal_strlit("EnergyCounters");
    lemma_parts_from(t, "EnergyCounters"@, 0);
    reveal_strlit("ManaExpendedThisTurn");
    lemma_parts_from(t, "ManaExpendedThisTurn"@, 0);
    reveal_strlit("RingTemptedYou");
    lemma_parts_from(t, "RingTemptedYou"@, 0);
    reveal_strlit("AttractionsVisitedThisTurn");
    lemma_parts_from(t, "AttractionsVisitedThisTurn"@, 0);
    reveal_strlit("TopOfLibraryCMC");
    lemma_parts_from(t, "TopOfLibraryCMC"@, 0);
    reveal_strlit("AttackersDeclared");
    lemma_parts_from(t, "AttackersDeclared"@, 0);
    reveal_strlit("NonCombatDamageDealtThisTurn");
    lemma_parts_from(t, "NonCombatDamageDealtThisTurn"@, 0);
    reveal_strlit("OpponentsAttackedThisTurn");
    lemma_parts_from(t, "OpponentsAttackedThisTurn"@, 0);
    reveal_strlit("OpponentsAttackedThisCombat");
    lemma_parts_from(t, "OpponentsAttackedThisCombat"@, 0);
}

// ---- numbers of lists ----

/// A property of cards behind a word that folds it: the least, the greatest, the different ones, and
/// without a word the sum.
pub proof fn law_folds_of_lists(
    s: SceneView,
    depth: u32,
    defined: Seq<char>,
    p: Seq<char>,
    cards: Seq<CardId>,
)
    requires
        cards == defined_cards(defined, s.game, s.source, s.sa),
        cards.len() > 0,
    ensures
        card_list_property(s, depth, defined, "Least"@ + p) == Some(
            least(card_properties(s, depth, cards, p), 0),
        ),
        card_list_property(s, depth, defined, "Greatest"@ + p) == Some(
            greatest(card_properties(s, depth, cards, p), 0),
        ),
        card_list_property(s, depth, defined, "Different"@ + p) == Some(
            distinct(card_properties(s, depth, cards, p)).len() as i32,
        ),
        !has_prefix(p, "Least"@) && !has_prefix(p, "Greatest"@) && !has_prefix(p, "Different"@)
            && !has_prefix(p, "Valid "@) ==> card_list_property(s, depth, defined, p) == Some(
            total(card_properties(s, depth, cards, p)),
        ),
{
    reveal_strlit("Least");
    reveal_strlit("Greatest");
    reveal_strlit("Different");
    reveal_strlit("Valid ");
    let a = "Least"@ + p;
    let b = "Greatest"@ + p;
    let c = "Different"@ + p;
    lemma_starts("Least"@, p);
    lemma_starts("Greatest"@, p);
    lemma_starts("Different"@, p);
    assert(a[0] == 'L' && b[0] == 'G' && c[0] == 'D');
    lemma_parts_from(a, "Valid "@, 0);
    lemma_parts_from(b, "Valid "@, 0);
    lemma_parts_from(c, "Valid "@, 0);
    lemma_parts_from(b, "Least"@, 0);
    lemma_parts_from(c, "Least"@, 0);
    lemma_parts_from(c, "Greatest"@, 0);
}

/// With adamant, three or more mana of a color that were paid choose the first number, and fewer the
/// second.
pub proof fn law_adamant(host: Card, color: Seq<char>, a: Seq<char>, b: Seq<char>)
    requires
        !color.contains('.'),
        !a.contains('.'),
        !b.contains('.'),
    ensures
        adamant(
            host,
            Seq::empty() + seq!['.'] + (color + seq!['.'] + (a + seq!['.'] + b)),
        ) == Some(
            CountPlan::Numeric {
                text: if symbols_meeting(
                    host.paying_mana_to_cast@,
                    atom_named(lowered(color)),
                ) >= 3 {
                    a
                } else {
                    b
                },
            },
        ),
{
    reveal_strlit(".");
    reveal_strlit("_");
    assert("."@ =~= seq!['.']);
    let none = Seq::<char>::empty();
    lemma_pieces_joined(a, '.', b);
    lemma_pieces_joined(color, '.', a + seq!['.'] + b);
    lemma_pieces_joined(none, '.', color + seq!['.'] + (a + seq!['.'] + b));
    crate::laws::turns::lemma_no_dot(a);
    crate::laws::turns::lemma_no_dot(b);
    crate::laws::turns::lemma_no_dot(color);
    crate::laws::turns::lemma_no_dot(none);
    let rest = none + seq!['.'] + (color + seq!['.'] + (a + seq!['.'] + b));
    assert(pieces(rest, "."@) =~= seq![none, color, a, b]);
}

} // verus!
