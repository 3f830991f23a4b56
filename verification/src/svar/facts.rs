//! Numbers that cards, spells and players carry, by the names that scripts give them.

use vstd::prelude::*;
use crate::game::{
    all_counters, count_all, count_of_kind, counters_of, Card, Counter, GameState, Player,
};
use crate::lists::has_player;
use crate::parsing::params::{read_zone, zones_among};
use crate::svar::folds::{
    attackers_of, bit_count, cards_in_zones, cards_matching, count_bits, list_attackers,
    list_cards_in_zones, matching,
};
use crate::text::{
    after_mark, before_mark, contains, eq_ignore_case, has_part, has_prefix, pieces,
    same_ignoring_case, split, split_or_all, starts_with, strip_prefix, text_eq, views,
    without_prefix, drop_prefix,
};
use crate::types::{CardId, PlayerId, ZoneType};

verus! {

pub open spec fn or_else(a: Option<i32>, b: i32) -> i32 {
    match a {
        Some(n) => n,
        None => b,
    }
}

pub fn value_or(a: Option<i32>, b: i32) -> (r: i32)
    ensures
        r == or_else(a, b),
{
    match a {
        Some(n) => n,
        None => b,
    }
}

/// Power on the battlefield, or else the last known one.
pub open spec fn net_power(c: Card) -> i32 {
    if c.zone == ZoneType::Battlefield {
        c.power
    } else {
        or_else(c.lki_power, c.power)
    }
}

pub open spec fn net_toughness(c: Card) -> i32 {
    if c.zone == ZoneType::Battlefield {
        c.toughness
    } else {
        or_else(c.lki_toughness, c.toughness)
    }
}

pub fn power_of_card(c: &Card) -> (r: i32)
    ensures
        r == net_power(*c),
{
    if c.zone == ZoneType::Battlefield {
        c.power
    } else {
        value_or(c.lki_power, c.power)
    }
}

pub fn toughness_of_card(c: &Card) -> (r: i32)
    ensures
        r == net_toughness(*c),
{
    if c.zone == ZoneType::Battlefield {
        c.toughness
    } else {
        value_or(c.lki_toughness, c.toughness)
    }
}

/// Mana value; the last known one adds the X that was paid, except on the stack.
pub open spec fn cost_number(c: Card, value: Seq<char>, x_paid: u32) -> i32 {
    if has_part(value, "LKI"@) && c.zone != ZoneType::Stack {
        c.mana_value.wrapping_add((x_paid as i32).wrapping_mul(c.x_symbols))
    } else {
        c.mana_value
    }
}

fn cost_of(c: &Card, value: &str, x_paid: u32) -> (r: i32)
    ensures
        r == cost_number(*c, value@, x_paid),
{
    if contains(value, "LKI") && c.zone != ZoneType::Stack {
        c.mana_value.wrapping_add((x_paid as i32).wrapping_mul(c.x_symbols))
    } else {
        c.mana_value
    }
}

/// Counters of a kind, or of all kinds.
pub open spec fn counter_number(counters: Seq<Counter>, kind: Seq<char>) -> i32 {
    if same_ignoring_case(kind, "ALL"@) {
        all_counters(counters)
    } else {
        counters_of(counters, kind)
    }
}

pub fn count_counters(counters: &Vec<Counter>, kind: &str) -> (r: i32)
    ensures
        r == counter_number(counters@, kind@),
{
    if eq_ignore_case(kind, "ALL") {
        count_all(counters)
    } else {
        count_of_kind(counters, kind)
    }
}

/// A number of a card.
pub open spec fn card_number(c: Card, value: Seq<char>, x_paid: u32) -> i32 {
    if value == "CardPower"@ {
        net_power(c)
    } else if value == "CastTotalManaSpent"@ {
        c.paying_mana_to_cast@.len() as i32
    } else if value == "CardNumColors"@ {
        bit_count(c.color)
    } else if value == "CardBasePower"@ {
        or_else(c.base_power, 0)
    } else if value == "CardToughness"@ {
        net_toughness(c)
    } else if value == "CardBaseToughness"@ {
        or_else(c.base_toughness, 0)
    } else if value == "CardSumPT"@ {
        net_power(c).wrapping_add(net_toughness(c))
    } else if has_prefix(value, "CardManaCost"@) || value == "ManaCost"@ {
        cost_number(c, value, x_paid)
    } else if value == "Amount"@ || value == "Count"@ {
        1
    } else if has_part(value, "Converge"@) {
        c.sunburst
    } else if has_prefix(value, "CardCounters."@) {
        counter_number(c.counters@, value.skip("CardCounters."@.len() as int))
    } else {
        0
    }
}

pub fn number_of_card(c: &Card, value: &str, x_paid: u32) -> (r: i32)
    ensures
        r == card_number(*c, value@, x_paid),
{
    if text_eq(value, "CardPower") {
        power_of_card(c)
    } else if text_eq(value, "CastTotalManaSpent") {
        c.paying_mana_to_cast.len() as i32
    } else if text_eq(value, "CardNumColors") {
        count_bits(c.color)
    } else if text_eq(value, "CardBasePower") {
        value_or(c.base_power, 0)
    } else if text_eq(value, "CardToughness") {
        toughness_of_card(c)
    } else if text_eq(value, "CardBaseToughness") {
        value_or(c.base_toughness, 0)
    } else if text_eq(value, "CardSumPT") {
        power_of_card(c).wrapping_add(toughness_of_card(c))
    } else if starts_with(value, "CardManaCost") || text_eq(value, "ManaCost") {
        cost_of(c, value, x_paid)
    } else if text_eq(value, "Amount") || text_eq(value, "Count") {
        1
    } else if contains(value, "Converge") {
        c.sunburst
    } else if let Some(kind) = strip_prefix(value, "CardCounters.") {
        count_counters(&c.counters, kind)
    } else {
        0
    }
}

/// The counters of a card, or the last known ones of a card that left the battlefield.
pub open spec fn known_counters(c: Card) -> Seq<Counter> {
    if c.zone != ZoneType::Battlefield {
        match c.lki_counters {
            Some(v) => v@,
            None => c.counters@,
        }
    } else {
        c.counters@
    }
}

/// A number of the card that a spell ability comes from.
pub open spec fn spell_number(c: Card, value: Seq<char>, x_paid: u32) -> i32 {
    if value == "CardPower"@ {
        net_power(c)
    } else if value == "CardToughness"@ {
        net_toughness(c)
    } else if value == "CardNumColors"@ {
        bit_count(c.color)
    } else if has_part(value, "Converge"@) {
        c.sunburst
    } else if has_prefix(value, "CardCounters."@) {
        counter_number(known_counters(c), value.skip("CardCounters."@.len() as int))
    } else if has_prefix(value, "CardManaCost"@) {
        cost_number(c, value, x_paid)
    } else {
        0
    }
}

pub fn number_of_spell(c: &Card, value: &str, x_paid: u32) -> (r: i32)
    ensures
        r == spell_number(*c, value@, x_paid),
{
    if text_eq(value, "CardPower") {
        power_of_card(c)
    } else if text_eq(value, "CardToughness") {
        toughness_of_card(c)
    } else if text_eq(value, "CardNumColors") {
        count_bits(c.color)
    } else if contains(value, "Converge") {
        c.sunburst
    } else if let Some(kind) = strip_prefix(value, "CardCounters.") {
        if c.zone != ZoneType::Battlefield {
            match &c.lki_counters {
                Some(v) => count_counters(v, kind),
                None => count_counters(&c.counters, kind),
            }
        } else {
            count_counters(&c.counters, kind)
        }
    } else if starts_with(value, "CardManaCost") {
        cost_of(c, value, x_paid)
    } else {
        0
    }
}

// ---- players ----

/// The zones that a list between commas names.
pub open spec fn zones_listed(text: Seq<char>) -> Seq<ZoneType> {
    zones_among(pieces(text, ","@))
}

pub fn read_zones(text: &str) -> (r: Vec<ZoneType>)
    ensures
        r@ == zones_listed(text@),
{
    proof {
        reveal_strlit(",");
    }
    let words = split(text, ",");
    let ghost all = pieces(text@, ","@);
    let mut out: Vec<ZoneType> = Vec::new();
    let mut i: usize = 0;
    while i < words.len()
        invariant
            i <= words@.len(),
            views(words@) == all,
            out@ == zones_among(all.take(i as int)),
        decreases words@.len() - i,
    {
        proof {
            assert(all.take(i + 1).drop_last() =~= all.take(i as int));
            assert(all.take(i + 1).last() == words@[i as int]@);
        }
        if let Some(z) = read_zone(words[i]) {
            out.push(z);
        }
        i = i + 1;
    }
    assert(all.take(i as int) =~= all);
    out
}

/// Where `Valid<Zones> <restrictions>` looks: the battlefield where it names no zone.
pub open spec fn valid_zones(value: Seq<char>) -> Seq<ZoneType> {
    let zone_part = without_prefix(before_mark(value, " "@), "Valid"@);
    if has_prefix(value, "Valid "@) || zone_part.len() == 0 {
        seq![ZoneType::Battlefield]
    } else {
        zones_listed(zone_part)
    }
}

pub open spec fn valid_restrictions(value: Seq<char>) -> Seq<char> {
    if has_prefix(value, "Valid "@) {
        value.skip("Valid "@.len() as int)
    } else {
        after_mark(value, " "@)
    }
}

/// How many cards `Valid<Zones> <restrictions>` counts for a player.
pub open spec fn valid_count(
    game: GameState,
    value: Seq<char>,
    source: CardId,
    player: PlayerId,
) -> i32 {
    matching(
        game,
        cards_in_zones(game.cards@, valid_zones(value)),
        valid_restrictions(value),
        source,
        player,
    ).len() as i32
}

fn count_valid(game: &GameState, value: &str, source: CardId, player: PlayerId) -> (r: i32)
    ensures
        r == valid_count(*game, value@, source, player),
{
    let (head, tail) = split_or_all(value, " ");
    let zone_part = drop_prefix(head, "Valid");
    let mut zones: Vec<ZoneType> = Vec::new();
    zones.push(ZoneType::Battlefield);
    assert(zones@ =~= seq![ZoneType::Battlefield]);
    let restrictions = match strip_prefix(value, "Valid ") {
        Some(rest) => rest,
        None => {
            if zone_part.unicode_len() > 0 {
                zones = read_zones(zone_part);
            }
            tail
        },
    };
    let cards = list_cards_in_zones(game, &zones);
    cards_matching(game, &cards, restrictions, source, player).len() as i32
}

/// The players that a player's creatures attacked this turn, each once.
pub open spec fn merged_players(seen: Seq<PlayerId>, more: Seq<PlayerId>) -> Seq<PlayerId>
    decreases more.len(),
{
    if more.len() == 0 {
        seen
    } else {
        let before = merged_players(seen, more.drop_last());
        if before.contains(more.last()) {
            before
        } else {
            before.push(more.last())
        }
    }
}

pub open spec fn attacked_by(cards: Seq<Card>, player: PlayerId) -> Seq<PlayerId>
    decreases cards.len(),
{
    if cards.len() == 0 {
        Seq::empty()
    } else {
        let before = attacked_by(cards.drop_last(), player);
        if cards.last().controller == player {
            merged_players(before, cards.last().attacked_players_this_turn@)
        } else {
            before
        }
    }
}

fn count_attacked(game: &GameState, player: PlayerId) -> (r: i32)
    ensures
        r == attacked_by(game.cards@, player).len() as i32,
{
    let mut seen: Vec<PlayerId> = Vec::new();
    let mut i: usize = 0;
    while i < game.cards.len()
        invariant
            i <= game.cards@.len(),
            seen@ == attacked_by(game.cards@.take(i as int), player),
        decreases game.cards@.len() - i,
    {
        assert(game.cards@.take(i + 1).drop_last() =~= game.cards@.take(i as int));
        if game.cards[i].controller == player {
            let more = &game.cards[i].attacked_players_this_turn;
            let ghost start = seen@;
            let mut j: usize = 0;
            while j < more.len()
                invariant
                    j <= more@.len(),
                    seen@ == merged_players(start, more@.take(j as int)),
                decreases more@.len() - j,
            {
                assert(more@.take(j + 1).drop_last() =~= more@.take(j as int));
                if !has_player(&seen, more[j]) {
                    seen.push(more[j]);
                }
                j = j + 1;
            }
            assert(more@.take(j as int) =~= more@);
        }
        i = i + 1;
    }
    assert(game.cards@.take(i as int) =~= game.cards@);
    seen.len() as i32
}

/// The creatures among a list of cards.
pub open spec fn creatures_among(game: GameState, ids: Seq<CardId>) -> Seq<CardId>
    decreases ids.len(),
{
    if ids.len() == 0 {
        Seq::empty()
    } else {
        let before = creatures_among(game, ids.drop_last());
        match game.card_at(ids.last()) {
            Some(c) if c.types.creature => before.push(ids.last()),
            _ => before,
        }
    }
}

fn list_creatures(game: &GameState, ids: &Vec<CardId>) -> (r: Vec<CardId>)
    ensures
        r@ == creatures_among(*game, ids@),
{
    let mut out: Vec<CardId> = Vec::new();
    let mut i: usize = 0;
    while i < ids.len()
        invariant
            i <= ids@.len(),
            out@ == creatures_among(*game, ids@.take(i as int)),
        decreases ids@.len() - i,
    {
        assert(ids@.take(i + 1).drop_last() =~= ids@.take(i as int));
        if let Some(c) = game.card(ids[i]) {
            if c.types.creature {
                out.push(ids[i]);
            }
        }
        i = i + 1;
    }
    assert(ids@.take(i as int) =~= ids@);
    out
}

/// The mana value of the card on top of a library.
pub open spec fn top_cost(game: GameState, player: PlayerId) -> i32 {
    let cards = game.in_zone(ZoneType::Library, player);
    if cards.len() == 0 {
        0
    } else {
        match game.card_at(cards.last()) {
            Some(c) => c.mana_value,
            None => 0,
        }
    }
}

pub fn cost_of_top(game: &GameState, player: PlayerId) -> (r: i32)
    ensures
        r == top_cost(*game, player),
{
    let cards = game.cards_in_zone(ZoneType::Library, player);
    let n: usize = cards.len();
    if n == 0 {
        0
    } else {
        match game.card(cards[n - 1]) {
            Some(c) => c.mana_value,
            None => 0,
        }
    }
}

/// A number that a player carries under a fixed name.
pub open spec fn player_field(p: Player, value: Seq<char>) -> Option<i32> {
    if value == "StartingLife"@ {
        Some(p.starting_life)
    } else if value == "LifeTotal"@ {
        Some(p.life)
    } else if value == "LifeLostThisTurn"@ {
        Some(p.life_lost_this_turn)
    } else if value == "LifeLostLastTurn"@ {
        Some(p.life_lost_last_turn)
    } else if value == "LifeGainedThisTurn"@ {
        Some(p.life_gained_this_turn)
    } else if value == "LifeGainedByTeamThisTurn"@ {
        Some(p.life_gained_by_team_this_turn)
    } else if value == "LifeStartedThisTurnWith"@ {
        Some(p.life_started_this_turn_with)
    } else if value == "Speed"@ {
        Some(p.speed)
    } else if value == "LandsPlayed"@ {
        Some(p.lands_played_this_turn)
    } else if value == "SpellsCastThisTurn"@ {
        Some(p.spells_cast_this_turn)
    } else if value == "CardsDrawn"@ {
        Some(p.drawn_this_turn)
    } else if value == "CardsDiscardedThisTurn"@ {
        Some(p.discarded_this_turn)
    } else if value == "ExploredThisTurn"@ {
        Some(p.explored_this_turn)
    } else if value == "DamageToOppsThisTurn"@ {
        Some(p.opponents_assigned_damage_this_turn)
    } else if value == "PoisonCounters"@ {
        Some(p.poison_counters)
    } else if value == "EnergyCounters"@ {
        Some(p.energy_counters)
    } else if value == "ManaExpendedThisTurn"@ {
        Some(p.mana_expended_this_turn)
    } else if value == "RingTemptedYou"@ {
        Some(p.ring_level)
    } else if value == "AttractionsVisitedThisTurn"@ {
        Some(p.attractions_visited_this_turn)
    } else {
        None
    }
}

fn field_of_player(p: &Player, value: &str) -> (r: Option<i32>)
    ensures
        r == player_field(*p, value@),
{
    if text_eq(value, "StartingLife") {
        Some(p.starting_life)
    } else if text_eq(value, "LifeTotal") {
        Some(p.life)
    } else if text_eq(value, "LifeLostThisTurn") {
        Some(p.life_lost_this_turn)
    } else if text_eq(value, "LifeLostLastTurn") {
        Some(p.life_lost_last_turn)
    } else if text_eq(value, "LifeGainedThisTurn") {
        Some(p.life_gained_this_turn)
    } else if text_eq(value, "LifeGainedByTeamThisTurn") {
        Some(p.life_gained_by_team_this_turn)
    } else if text_eq(value, "LifeStartedThisTurnWith") {
        Some(p.life_started_this_turn_with)
    } else if text_eq(value, "Speed") {
        Some(p.speed)
    } else if text_eq(value, "LandsPlayed") {
        Some(p.lands_played_this_turn)
    } else if text_eq(value, "SpellsCastThisTurn") {
        Some(p.spells_cast_this_turn)
    } else if text_eq(value, "CardsDrawn") {
        Some(p.drawn_this_turn)
    } else if text_eq(value, "CardsDiscardedThisTurn") {
        Some(p.discarded_this_turn)
    } else if text_eq(value, "ExploredThisTurn") {
        Some(p.explored_this_turn)
    } else if text_eq(value, "DamageToOppsThisTurn") {
        Some(p.opponents_assigned_damage_this_turn)
    } else if text_eq(value, "PoisonCounters") {
        Some(p.poison_counters)
    } else if text_eq(value, "EnergyCounters") {
        Some(p.energy_counters)
    } else if text_eq(value, "ManaExpendedThisTurn") {
        Some(p.mana_expended_this_turn)
    } else if text_eq(value, "RingTemptedYou") {
        Some(p.ring_level)
    } else if text_eq(value, "AttractionsVisitedThisTurn") {
        Some(p.attractions_visited_this_turn)
    } else {
        None
    }
}

/// Counters on a player.
pub open spec fn player_counters(p: Player, kind: Seq<char>) -> i32 {
    if same_ignoring_case(kind, "ALL"@) {
        p.poison_counters.wrapping_add(p.energy_counters).wrapping_add(p.radiation_counters)
    } else if same_ignoring_case(kind, "POISON"@) {
        p.poison_counters
    } else if same_ignoring_case(kind, "ENERGY"@) {
        p.energy_counters
    } else if same_ignoring_case(kind, "RADIATION"@) {
        p.radiation_counters
    } else {
        0
    }
}

fn counters_of_player(p: &Player, kind: &str) -> (r: i32)
    ensures
        r == player_counters(*p, kind@),
{
    if eq_ignore_case(kind, "ALL") {
        p.poison_counters.wrapping_add(p.energy_counters).wrapping_add(p.radiation_counters)
    } else if eq_ignore_case(kind, "POISON") {
        p.poison_counters
    } else if eq_ignore_case(kind, "ENERGY") {
        p.energy_counters
    } else if eq_ignore_case(kind, "RADIATION") {
        p.radiation_counters
    } else {
        0
    }
}

/// A number of a player that needs the whole game.
pub open spec fn player_number(
    game: GameState,
    player: PlayerId,
    value: Seq<char>,
    source: CardId,
    you: PlayerId,
) -> i32 {
    match game.player_at(player) {
        None => 0,
        Some(p) => if has_prefix(value, "SacrificedThisTurn"@) {
            match crate::text::first_place(value, " "@) {
                Some(i) => matching(
                    game,
                    p.sacrificed_this_turn@,
                    value.skip(i + " "@.len()),
                    source,
                    player,
                ).len() as i32,
                None => p.sacrificed_this_turn@.len() as i32,
            }
        } else if has_prefix(value, "Valid"@) {
            valid_count(game, value, source, player)
        } else if value == "CardsInHand"@ {
            game.in_zone(ZoneType::Hand, player).len() as i32
        } else if value == "CardsInLibrary"@ {
            game.in_zone(ZoneType::Library, player).len() as i32
        } else if value == "CardsInGraveyard"@ {
            game.in_zone(ZoneType::Graveyard, player).len() as i32
        } else if value == "CardsInPlay"@ {
            game.in_zone(ZoneType::Battlefield, player).len() as i32
        } else if value == "CreaturesInPlay"@ {
            creatures_among(game, game.in_zone(ZoneType::Battlefield, player)).len() as i32
        } else if let Some(n) = player_field(p, value) {
            n
        } else if value == "TopOfLibraryCMC"@ {
            top_cost(game, player)
        } else if value == "AttackersDeclared"@ {
            attackers_of(game.cards@, player).len() as i32
        } else if value == "NonCombatDamageDealtThisTurn"@ {
            p.assigned_damage_this_turn.wrapping_sub(p.assigned_combat_damage_this_turn)
        } else if value == "OpponentsAttackedThisTurn"@ {
            attacked_by(game.cards@, player).len() as i32
        } else if value == "OpponentsAttackedThisCombat"@ {
            p.attacked_players_this_combat@.len() as i32
        } else if value == "BeenDealtCombatDamageSinceLastTurn"@ {
            if p.been_dealt_combat_damage_since_last_turn { 1 } else { 0 }
        } else if has_prefix(value, "Counters."@) {
            player_counters(p, value.skip("Counters."@.len() as int))
        } else if has_prefix(value, "HasProperty"@) {
            if game.facts.matches_player(
                value.skip("HasProperty"@.len() as int),
                source,
                you,
                player,
            ) { 1 } else { 0 }
        } else {
            0
        },
    }
}

pub fn number_of_player(
    game: &GameState,
    player: PlayerId,
    value: &str,
    source: CardId,
    you: PlayerId,
) -> (r: i32)
    ensures
        r == player_number(*game, player, value@, source, you),
{
    let p = match game.player(player) {
        Some(p) => p,
        None => {
            return 0;
        },
    };
    if starts_with(value, "SacrificedThisTurn") {
        proof {
            crate::text::lemma_first_place(value@, " "@);
        }
        return match crate::text::split_once(value, " ") {
            Some((_, restrictions)) => cards_matching(
                game,
                &p.sacrificed_this_turn,
                restrictions,
                source,
                player,
            ).len() as i32,
            None => p.sacrificed_this_turn.len() as i32,
        };
    }
    if starts_with(value, "Valid") {
        return count_valid(game, value, source, player);
    }
    if text_eq(value, "CardsInHand") {
        return game.cards_in_zone(ZoneType::Hand, player).len() as i32;
    }
    if text_eq(value, "CardsInLibrary") {
        return game.cards_in_zone(ZoneType::Library, player).len() as i32;
    }
    if text_eq(value, "CardsInGraveyard") {
        return game.cards_in_zone(ZoneType::Graveyard, player).len() as i32;
    }
    if text_eq(value, "CardsInPlay") {
        return game.cards_in_zone(ZoneType::Battlefield, player).len() as i32;
    }
    if text_eq(value, "CreaturesInPlay") {
        let cards = game.cards_in_zone(ZoneType::Battlefield, player);
        return list_creatures(game, &cards).len() as i32;
    }
    if let Some(n) = field_of_player(p, value) {
        return n;
    }
    if text_eq(value, "TopOfLibraryCMC") {
        return cost_of_top(game, player);
    }
    if text_eq(value, "AttackersDeclared") {
        return list_attackers(game, player).len() as i32;
    }
    if text_eq(value, "NonCombatDamageDealtThisTurn") {
        return p.assigned_damage_this_turn.wrapping_sub(p.assigned_combat_damage_this_turn);
    }
    if text_eq(value, "OpponentsAttackedThisTurn") {
        return count_attacked(game, player);
    }
    if text_eq(value, "OpponentsAttackedThisCombat") {
        return p.attacked_players_this_combat.len() as i32;
    }
    if text_eq(value, "BeenDealtCombatDamageSinceLastTurn") {
        return if p.been_dealt_combat_damage_since_last_turn { 1 } else { 0 };
    }
    if let Some(kind) = strip_prefix(value, "Counters.") {
        return counters_of_player(p, kind);
    }
    if let Some(property) = strip_prefix(value, "HasProperty") {
        return if game.facts.player_matches_selector(property, source, you, player) {
            1
        } else {
            0
        };
    }
    0
}

} // verus!
