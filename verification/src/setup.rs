//! New cards, players and games.

use vstd::prelude::*;
use crate::game::{Card, CardTypes, Facts, GameState, PhaseType, Player};
use crate::types::{CardId, PlayerId, ZoneType};

verus! {

impl CardTypes {
    /// A type line that says nothing.
    pub fn new() -> (r: CardTypes)
        ensures
            !r.creature,
            !r.land,
            !r.artifact,
            !r.enchantment,
            !r.planeswalker,
            !r.instant,
            !r.sorcery,
            !r.battle,
            !r.kindred,
            !r.snow,
            r.subtypes@.len() == 0,
    {
        CardTypes {
            creature: false,
            land: false,
            artifact: false,
            enchantment: false,
            planeswalker: false,
            instant: false,
            sorcery: false,
            battle: false,
            kindred: false,
            snow: false,
            subtypes: Vec::new(),
        }
    }
}

/// Whether a type line says nothing.
pub open spec fn is_blank(t: CardTypes) -> bool {
    &&& !t.creature
    &&& !t.land
    &&& !t.artifact
    &&& !t.enchantment
    &&& !t.planeswalker
    &&& !t.instant
    &&& !t.sorcery
    &&& !t.battle
    &&& !t.kindred
    &&& !t.snow
    &&& t.subtypes@.len() == 0
}

/// Nothing is known yet of what matches what.
pub open spec fn no_facts(f: Facts) -> bool {
    &&& f.card_matches@.len() == 0
    &&& f.player_matches@.len() == 0
    &&& f.ability_matches@.len() == 0
    &&& f.defined_cards@.len() == 0
    &&& f.defined_players@.len() == 0
    &&& f.creature_types@.len() == 0
    &&& f.cant_exile@.len() == 0
    &&& f.mana_replacements@.len() == 0
    &&& f.tap_triggers@.len() == 0
    &&& f.symbols@.len() == 0
}

impl Facts {
    /// Nothing is known.
    pub fn new() -> (r: Facts)
        ensures
            no_facts(r),
    {
        Facts {
            card_matches: Vec::new(),
            player_matches: Vec::new(),
            ability_matches: Vec::new(),
            defined_cards: Vec::new(),
            defined_players: Vec::new(),
            creature_types: Vec::new(),
            cant_exile: Vec::new(),
            mana_replacements: Vec::new(),
            tap_triggers: Vec::new(),
            symbols: Vec::new(),
        }
    }
}

impl Card {
    /// A card of a player that is nowhere yet.
    pub fn new(id: CardId, name: &str, owner: PlayerId) -> (r: Card)
        ensures
            r.id == id,
            r.card_name@ == name@,
            r.owner == owner,
            r.controller == owner,
            r.zone == ZoneType::Nowhere,
            r.zone_timestamp == 0,
            is_blank(r.types),
            r.keywords@.len() == 0,
            r.svars@.len() == 0,
            !r.tapped,
            !r.phased_out,
            !r.face_down,
            !r.exerted,
            !r.is_token,
            !r.attacked_this_turn,
            r.attacks_this_turn == 0,
            r.tapped_this_turn == 0,
            r.power == 0,
            r.toughness == 0,
            r.tap_power == 0,
            r.base_power is None,
            r.base_toughness is None,
            r.lki_power is None,
            r.lki_toughness is None,
            r.mana_value == 0,
            r.cmc == 0,
            r.x_symbols == 0,
            r.cost_shards@.len() == 0,
            r.color == 0,
            r.sunburst == 0,
            r.final_chapter == 0,
            r.unlocked_rooms == 0,
            r.counters@.len() == 0,
            r.lki_counters is None,
            r.paying_mana_to_cast@.len() == 0,
            r.paying_sources_to_cast@.len() == 0,
            r.cast_record is None,
            r.cast_from is None,
            !r.was_cast,
            !r.cast_with_flashback,
            !r.cast_with_harmonize,
            r.resolved_this_turn == 0,
            r.remembered_cards@.len() == 0,
            r.remembered_players@.len() == 0,
            r.remembered_numbers@.len() == 0,
            r.remembered_counters@.len() == 0,
            r.imprinted_cards@.len() == 0,
            r.chosen_number is None,
            r.chosen_type is None,
            !r.promised_gift,
            r.stored_rolls@.len() == 0,
            r.total_damage_done_this_turn == 0,
            r.assigned_damage == 0,
            r.crewed_by_this_turn@.len() == 0,
            r.attacked_players_this_turn@.len() == 0,
            r.can_be_dealt_damage,
            !r.indestructible,
            r.effect_source is None,
            r.exiled_by is None,
            r.static_abilities@.len() == 0,
            r.svar_statics@.len() == 0,
            r.replacement_effects@.len() == 0,
            r.rules_replacement_effects@.len() == 0,
            r.zone_triggers@.len() == 0,
            r.activated_abilities@.len() == 0,
            r.ability_texts@.len() == 0,
            !r.summoning_sick,
            r.can_attack,
            r.can_block,
            !r.has_converge,
            r.creature_value == 0,
            r.land_atoms@.len() == 0,
            r.chosen_atoms@.len() == 0,
            r.attachments@.len() == 0,
            r.ai_phyrexian_payment is None,
    {
        Card {
            id,
            card_name: name.to_string(),
            owner,
            controller: owner,
            zone: ZoneType::Nowhere,
            zone_timestamp: 0,
            types: CardTypes::new(),
            keywords: Vec::new(),
            svars: Vec::new(),
            tapped: false,
            phased_out: false,
            face_down: false,
            exerted: false,
            is_token: false,
            attacked_this_turn: false,
            attacks_this_turn: 0,
            tapped_this_turn: 0,
            power: 0,
            toughness: 0,
            tap_power: 0,
            base_power: None,
            base_toughness: None,
            lki_power: None,
            lki_toughness: None,
            mana_value: 0,
            cmc: 0,
            x_symbols: 0,
            cost_shards: Vec::new(),
            color: 0,
            sunburst: 0,
            final_chapter: 0,
            unlocked_rooms: 0,
            counters: Vec::new(),
            lki_counters: None,
            paying_mana_to_cast: Vec::new(),
            paying_sources_to_cast: Vec::new(),
            cast_record: None,
            cast_from: None,
            was_cast: false,
            cast_with_flashback: false,
            cast_with_harmonize: false,
            resolved_this_turn: 0,
            remembered_cards: Vec::new(),
            remembered_players: Vec::new(),
            remembered_numbers: Vec::new(),
            remembered_counters: Vec::new(),
            imprinted_cards: Vec::new(),
            chosen_number: None,
            chosen_type: None,
            promised_gift: false,
            stored_rolls: Vec::new(),
            total_damage_done_this_turn: 0,
            assigned_damage: 0,
            crewed_by_this_turn: Vec::new(),
            attacked_players_this_turn: Vec::new(),
            can_be_dealt_damage: true,
            indestructible: false,
            effect_source: None,
            exiled_by: None,
            static_abilities: Vec::new(),
            svar_statics: Vec::new(),
            replacement_effects: Vec::new(),
            rules_replacement_effects: Vec::new(),
            zone_triggers: Vec::new(),
            activated_abilities: Vec::new(),
            ability_texts: Vec::new(),
            summoning_sick: false,
            can_attack: true,
            can_block: true,
            has_converge: false,
            creature_value: 0,
            land_atoms: Vec::new(),
            chosen_atoms: Vec::new(),
            attachments: Vec::new(),
            ai_phyrexian_payment: None,
        }
    }
}

/// Whether a player has just started: alone on their side, with their starting life.
pub open spec fn is_fresh(p: Player, id: PlayerId, life: i32) -> bool {
    &&& p.id == id
    &&& p.team == id.0
    &&& p.alive
    &&& !p.left_game
    &&& p.life == life
    &&& p.starting_life == life
    &&& p.speed == 0
    &&& p.life_lost_this_turn == 0
    &&& p.life_lost_last_turn == 0
    &&& p.life_gained_this_turn == 0
    &&& p.life_gained_by_team_this_turn == 0
    &&& p.life_gained_times_this_turn == 0
    &&& p.life_started_this_turn_with == life
    &&& p.lands_played_this_turn == 0
    &&& p.spells_cast_this_turn == 0
    &&& p.drawn_this_turn == 0
    &&& p.discarded_this_turn == 0
    &&& p.explored_this_turn == 0
    &&& p.opponents_assigned_damage_this_turn == 0
    &&& p.assigned_damage_this_turn == 0
    &&& p.assigned_combat_damage_this_turn == 0
    &&& p.combat_damage_received_this_turn == 0
    &&& p.poison_counters == 0
    &&& p.energy_counters == 0
    &&& p.radiation_counters == 0
    &&& p.mana_expended_this_turn == 0
    &&& p.ring_level == 0
    &&& p.attacked_players_this_combat@.len() == 0
    &&& !p.been_dealt_combat_damage_since_last_turn
    &&& p.attractions_visited_this_turn == 0
    &&& p.committed_crime_this_turn == 0
    &&& p.num_flips_this_turn == 0
    &&& p.permanents_put_into_graveyard_this_turn == 0
    &&& p.turns_played == 0
    &&& !p.has_metalcraft
    &&& !p.has_delirium
    &&& !p.has_urza_lands
    &&& p.commander_colors@.len() == 0
    &&& p.commander_atoms@.len() == 0
    &&& !p.cant_pay_life
    &&& !p.survives_zero_life
    &&& p.keywords@.len() == 0
    &&& p.sacrificed_this_turn@.len() == 0
}

impl Player {
    pub fn new(id: PlayerId, life: i32) -> (r: Player)
        ensures
            is_fresh(r, id, life),
    {
        Player {
            id,
            team: id.0,
            alive: true,
            left_game: false,
            life,
            starting_life: life,
            speed: 0,
            life_lost_this_turn: 0,
            life_lost_last_turn: 0,
            life_gained_this_turn: 0,
            life_gained_by_team_this_turn: 0,
            life_gained_times_this_turn: 0,
            life_started_this_turn_with: life,
            lands_played_this_turn: 0,
            spells_cast_this_turn: 0,
            drawn_this_turn: 0,
            discarded_this_turn: 0,
            explored_this_turn: 0,
            opponents_assigned_damage_this_turn: 0,
            assigned_damage_this_turn: 0,
            assigned_combat_damage_this_turn: 0,
            combat_damage_received_this_turn: 0,
            poison_counters: 0,
            energy_counters: 0,
            radiation_counters: 0,
            mana_expended_this_turn: 0,
            ring_level: 0,
            attacked_players_this_combat: Vec::new(),
            been_dealt_combat_damage_since_last_turn: false,
            attractions_visited_this_turn: 0,
            committed_crime_this_turn: 0,
            num_flips_this_turn: 0,
            permanents_put_into_graveyard_this_turn: 0,
            turns_played: 0,
            has_metalcraft: false,
            has_delirium: false,
            has_urza_lands: false,
            commander_colors: Vec::new(),
            commander_atoms: Vec::new(),
            cant_pay_life: false,
            survives_zero_life: false,
            keywords: Vec::new(),
            sacrificed_this_turn: Vec::new(),
        }
    }
}

impl GameState {
    /// A game of some players, without cards.
    pub fn new(count: u32, life: i32) -> (r: GameState)
        ensures
            r.players@.len() == count,
            forall|i: int|
                0 <= i < count ==> is_fresh(#[trigger] r.players@[i], PlayerId(i as u32), life),
            r.player_order@ == Seq::new(count as nat, |i: int| PlayerId(i as u32)),
            r.cards@.len() == 0,
            r.active_player == PlayerId(0),
            r.phase == PhaseType::Untap,
            r.n_upkeeps_this_turn == 0,
            r.n_end_of_turns_this_turn == 0,
            !r.is_night,
            !r.is_day,
            !r.is_void,
            r.last_sacrificed_card is None,
            r.left_battlefield_this_turn@.len() == 0,
            r.left_graveyard_this_turn@.len() == 0,
            r.cast_this_turn@.len() == 0,
            r.cast_last_turn@.len() == 0,
            r.activated_this_turn@.len() == 0,
            r.entered_this_turn@.len() == 0,
            r.entered_last_turn@.len() == 0,
            r.zone_order@.len() == 0,
            r.replacement_last_state_battlefield is None,
            r.battlefield_lki@.len() == 0,
            !r.produce_mana_replaced,
            !r.full_mana_probe,
            no_facts(r.facts),
    {
        let mut players: Vec<Player> = Vec::new();
        let mut player_order: Vec<PlayerId> = Vec::new();
        let mut i: u32 = 0;
        while i < count
            invariant
                i <= count,
                players@.len() == i,
                player_order@.len() == i,
                forall|k: int|
                    0 <= k < i ==> is_fresh(#[trigger] players@[k], PlayerId(k as u32), life),
                forall|k: int| 0 <= k < i ==> #[trigger] player_order@[k] == PlayerId(k as u32),
            decreases count - i,
        {
            players.push(Player::new(PlayerId(i), life));
            player_order.push(PlayerId(i));
            i = i + 1;
        }
        assert(player_order@ =~= Seq::new(count as nat, |k: int| PlayerId(k as u32)));
        GameState {
            cards: Vec::new(),
            players,
            player_order,
            active_player: PlayerId(0),
            phase: PhaseType::Untap,
            n_upkeeps_this_turn: 0,
            n_end_of_turns_this_turn: 0,
            is_night: false,
            is_day: false,
            is_void: false,
            last_sacrificed_card: None,
            left_battlefield_this_turn: Vec::new(),
            left_graveyard_this_turn: Vec::new(),
            cast_this_turn: Vec::new(),
            cast_last_turn: Vec::new(),
            activated_this_turn: Vec::new(),
            entered_this_turn: Vec::new(),
            entered_last_turn: Vec::new(),
            zone_order: Vec::new(),
            replacement_last_state_battlefield: None,
            battlefield_lki: Vec::new(),
            produce_mana_replaced: false,
            full_mana_probe: false,
            facts: Facts::new(),
        }
    }

    /// Brings a card into the game, under the next free number.
    pub fn create_card(&mut self, card: Card) -> (r: CardId)
        requires
            old(self).cards@.len() < u32::MAX,
        ensures
            r.0 == old(self).cards@.len(),
            *final(self) == (GameState { cards: final(self).cards, ..*old(self) }),
            final(self).cards@ == old(self).cards@.push((Card { id: r, ..card })),
    {
        let id = CardId(self.cards.len() as u32);
        let mut added = card;
        added.id = id;
        self.cards.push(added);
        id
    }
}

} // verus!
