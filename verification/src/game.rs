//! The state of a game as the rules read it.
//!
//! What other subsystems decide (whether a card matches a selector, whom a reference defines,
//! whether a condition holds) is part of the state as plain facts.

use vstd::prelude::*;
use crate::lists::{has_text, texts_have};
use crate::text::text_eq;
use crate::types::{CardId, PlayerId, ZoneType};

verus! {

/// A script variable of a card or ability.
pub struct SVar {
    pub name: String,
    pub value: String,
}

/// How many counters of a kind there are.
pub struct Counter {
    pub kind: String,
    pub count: i32,
}

/// The type line of a card.
pub struct CardTypes {
    pub creature: bool,
    pub land: bool,
    pub artifact: bool,
    pub enchantment: bool,
    pub planeswalker: bool,
    pub instant: bool,
    pub sorcery: bool,
    pub battle: bool,
    pub kindred: bool,
    pub snow: bool,
    pub subtypes: Vec<String>,
}

/// How a card was cast.
pub struct CastRecord {
    pub activating_player: PlayerId,
    pub kick_count: u32,
    pub kicker1: bool,
    pub kicker2: bool,
    pub optional_keyword_amounts: Vec<i32>,
    pub last_state_battlefield: Vec<CardId>,
    pub may_play_source: Option<CardId>,
    pub may_play_static: Option<usize>,
}

/// The kinds of static abilities.
#[derive(Debug, Clone, Copy, PartialEq, Eq, Structural)]
pub enum StaticMode {
    Activations,
    CantPreventDamage,
    Continuous,
    MustAttack,
    PlotZone,
}

/// The layers in which continuous effects apply.
#[derive(Debug, Clone, Copy, PartialEq, Eq, Structural)]
pub enum Layer {
    Copy,
    Control,
    Text,
    Type,
    Color,
    Abilities,
    CharacteristicPt,
    SetPt,
    ModifyPt,
    Rules,
}

/// A static ability; `conditions_met` says whether its conditions hold now. `index` is its place
/// among the static abilities that are printed on its host.
pub struct StaticAbility {
    pub mode: StaticMode,
    pub index: Option<usize>,
    pub conditions_met: bool,
    pub layers: Vec<Layer>,
    pub add_keyword_text: Option<String>,
    pub valid_card: Option<String>,
    pub valid_source: Option<String>,
    pub valid_player: Option<String>,
    pub valid_creature: Option<String>,
    pub valid_sa: Option<String>,
    pub valid_after_stack: Option<String>,
    pub is_combat: Option<bool>,
    pub min_limit_text: Option<String>,
    pub additional_text: Option<String>,
    pub must_attack: Option<String>,
    pub affected: Option<String>,
    pub affected_defined: Option<String>,
    pub affected_zones: Vec<ZoneType>,
    pub may_play: bool,
    pub may_play_limit: Option<i32>,
    pub may_play_turn: i32,
    pub may_play_player: Option<String>,
    pub may_play_grants_zone_permissions: bool,
    pub may_play_without_mana_cost: bool,
    pub may_play_alt_mana_cost: Option<String>,
    pub add_static_ability_text: Option<String>,
}

/// A static ability that a script variable writes.
pub struct SvarStatic {
    pub name: String,
    pub ability: StaticAbility,
}

/// Where a zone-change trigger looks.
pub struct ZoneTrigger {
    pub changes_zone: bool,
    pub origin_zones: Vec<ZoneType>,
    pub destination_zones: Vec<ZoneType>,
}

pub struct Card {
    pub id: CardId,
    pub card_name: String,
    pub owner: PlayerId,
    pub controller: PlayerId,
    pub zone: ZoneType,
    pub zone_timestamp: u64,
    pub types: CardTypes,
    pub keywords: Vec<String>,
    pub svars: Vec<SVar>,
    pub tapped: bool,
    pub phased_out: bool,
    pub face_down: bool,
    pub exerted: bool,
    pub is_token: bool,
    pub attacked_this_turn: bool,
    pub attacks_this_turn: i32,
    pub tapped_this_turn: i32,
    pub power: i32,
    pub toughness: i32,
    pub tap_power: i32,
    pub base_power: Option<i32>,
    pub base_toughness: Option<i32>,
    pub lki_power: Option<i32>,
    pub lki_toughness: Option<i32>,
    pub mana_value: i32,
    pub cmc: i32,
    pub x_symbols: i32,
    pub cost_shards: Vec<u16>,
    pub color: u8,
    pub sunburst: i32,
    pub final_chapter: i32,
    pub unlocked_rooms: i32,
    pub counters: Vec<Counter>,
    pub lki_counters: Option<Vec<Counter>>,
    pub paying_mana_to_cast: Vec<u16>,
    pub paying_sources_to_cast: Vec<CardId>,
    pub cast_record: Option<CastRecord>,
    pub cast_from: Option<ZoneType>,
    pub was_cast: bool,
    pub cast_with_flashback: bool,
    pub cast_with_harmonize: bool,
    pub resolved_this_turn: i32,
    pub remembered_cards: Vec<CardId>,
    pub remembered_players: Vec<PlayerId>,
    pub remembered_numbers: Vec<i32>,
    pub remembered_counters: Vec<i32>,
    pub imprinted_cards: Vec<CardId>,
    pub chosen_number: Option<i32>,
    pub chosen_type: Option<String>,
    pub promised_gift: bool,
    pub stored_rolls: Vec<i32>,
    pub total_damage_done_this_turn: i32,
    pub assigned_damage: i32,
    pub crewed_by_this_turn: Vec<CardId>,
    pub attacked_players_this_turn: Vec<PlayerId>,
    pub can_be_dealt_damage: bool,
    pub indestructible: bool,
    pub effect_source: Option<CardId>,
    pub exiled_by: Option<CardId>,
    pub static_abilities: Vec<StaticAbility>,
    pub svar_statics: Vec<SvarStatic>,
    pub replacement_effects: Vec<crate::replacement::effect::ReplacementEffect>,
    pub rules_replacement_effects: Vec<crate::replacement::effect::ReplacementEffect>,
    pub zone_triggers: Vec<ZoneTrigger>,
    pub activated_abilities: Vec<crate::mana::ability::ActivatedAbility>,
    pub ability_texts: Vec<String>,
    pub summoning_sick: bool,
    pub can_attack: bool,
    pub can_block: bool,
    pub has_converge: bool,
    pub creature_value: i32,
    pub land_atoms: Vec<u16>,
    pub chosen_atoms: Vec<u16>,
    pub attachments: Vec<CardId>,
    pub ai_phyrexian_payment: Option<String>,
}

pub struct Player {
    pub id: PlayerId,
    pub team: u32,
    pub alive: bool,
    pub left_game: bool,
    pub life: i32,
    pub starting_life: i32,
    pub speed: i32,
    pub life_lost_this_turn: i32,
    pub life_lost_last_turn: i32,
    pub life_gained_this_turn: i32,
    pub life_gained_by_team_this_turn: i32,
    pub life_gained_times_this_turn: i32,
    pub life_started_this_turn_with: i32,
    pub lands_played_this_turn: i32,
    pub spells_cast_this_turn: i32,
    pub drawn_this_turn: i32,
    pub discarded_this_turn: i32,
    pub explored_this_turn: i32,
    pub opponents_assigned_damage_this_turn: i32,
    pub assigned_damage_this_turn: i32,
    pub assigned_combat_damage_this_turn: i32,
    pub combat_damage_received_this_turn: i32,
    pub poison_counters: i32,
    pub energy_counters: i32,
    pub radiation_counters: i32,
    pub mana_expended_this_turn: i32,
    pub ring_level: i32,
    pub attacked_players_this_combat: Vec<PlayerId>,
    pub been_dealt_combat_damage_since_last_turn: bool,
    pub attractions_visited_this_turn: i32,
    pub committed_crime_this_turn: i32,
    pub num_flips_this_turn: i32,
    pub permanents_put_into_graveyard_this_turn: i32,
    pub turns_played: i32,
    pub has_metalcraft: bool,
    pub has_delirium: bool,
    pub has_urza_lands: bool,
    pub commander_colors: Vec<String>,
    pub commander_atoms: Vec<u16>,
    pub cant_pay_life: bool,
    pub survives_zero_life: bool,
    pub keywords: Vec<String>,
    pub sacrificed_this_turn: Vec<CardId>,
}

/// The steps and phases that the rules distinguish.
#[derive(Debug, Clone, Copy, PartialEq, Eq, Structural, Hash)]
pub enum PhaseType {
    Untap,
    Upkeep,
    Draw,
    Main1,
    CombatBegin,
    CombatDeclareAttackers,
    CombatDeclareBlockers,
    CombatFirstStrikeDamage,
    CombatDamage,
    CombatEnd,
    Main2,
    EndOfTurn,
    Cleanup,
}

/// A card that changed zones this turn or last turn, and whose zone it came to.
pub struct ZoneEntry {
    pub card: CardId,
    pub player: PlayerId,
    pub origin: ZoneType,
    pub destination: ZoneType,
}

/// A card matches a selector, seen from a source and for a player.
pub struct CardMatch {
    pub selector: String,
    pub source: CardId,
    pub you: PlayerId,
    pub card: CardId,
}

/// A player matches a selector, seen from a source and for a player.
pub struct PlayerMatch {
    pub selector: String,
    pub source: CardId,
    pub you: PlayerId,
    pub player: PlayerId,
}

/// A spell ability matches a filter, seen from a host.
pub struct AbilityMatch {
    pub filter: String,
    pub ability: u32,
    pub host: CardId,
}

/// The cards that a reference defines, seen from a source.
pub struct DefinedCards {
    pub defined: String,
    pub source: CardId,
    pub cards: Vec<CardId>,
}

/// The players that a reference defines, seen from a source.
pub struct DefinedPlayers {
    pub defined: String,
    pub source: CardId,
    pub players: Vec<PlayerId>,
}

/// What other subsystems have decided about the current state.
pub struct Facts {
    pub card_matches: Vec<CardMatch>,
    pub player_matches: Vec<PlayerMatch>,
    pub ability_matches: Vec<AbilityMatch>,
    pub defined_cards: Vec<DefinedCards>,
    pub defined_players: Vec<DefinedPlayers>,
    pub creature_types: Vec<String>,
    pub cant_exile: Vec<CardId>,
    pub mana_replacements: Vec<ManaReplacement>,
    pub tap_triggers: Vec<TapTrigger>,
    pub symbols: Vec<Symbol>,
}

/// A symbol of mana costs with its text. Symbols are known in their order.
pub struct Symbol {
    pub mask: u16,
    pub text: String,
}

/// The rank of a symbol among those that are known; behind all of them where it is not.
pub open spec fn symbol_rank(symbols: Seq<Symbol>, mask: u16) -> int
    decreases symbols.len(),
{
    if symbols.len() == 0 || symbols[0].mask == mask {
        0
    } else {
        1 + symbol_rank(symbols.skip(1), mask)
    }
}

pub fn find_symbol_rank(symbols: &Vec<Symbol>, mask: u16) -> (r: usize)
    ensures
        r == symbol_rank(symbols@, mask),
        r <= symbols@.len(),
{
    let ghost all = symbols@;
    let mut i: usize = 0;
    assert(all.skip(0) =~= all);
    while i < symbols.len()
        invariant
            i <= all.len(),
            all == symbols@,
            symbol_rank(all, mask) == i + symbol_rank(all.skip(i as int), mask),
        decreases all.len() - i,
    {
        if symbols[i].mask == mask {
            return i;
        }
        assert(all.skip(i as int).skip(1) =~= all.skip(i + 1));
        i = i + 1;
    }
    i
}

/// The text of a symbol; nothing where it is not known.
pub open spec fn symbol_text(symbols: Seq<Symbol>, mask: u16) -> Seq<char> {
    let i = symbol_rank(symbols, mask);
    if 0 <= i < symbols.len() {
        symbols[i].text@
    } else {
        Seq::empty()
    }
}

pub fn find_symbol_text<'a>(symbols: &'a Vec<Symbol>, mask: u16) -> (r: &'a str)
    ensures
        r@ == symbol_text(symbols@, mask),
{
    proof {
        reveal_strlit("");
    }
    let i: usize = find_symbol_rank(symbols, mask);
    if i < symbols.len() {
        symbols[i].text.as_str()
    } else {
        assert(""@ =~= Seq::<char>::empty());
        ""
    }
}

/// The mana that replacement effects make of an atom from a source for a player.
pub struct ManaReplacement {
    pub source: CardId,
    pub player: PlayerId,
    pub atom: u16,
    pub atoms: Vec<u16>,
}

/// A trigger that adds mana when a source is tapped for mana by a player. It fires once, and as
/// many times more as `extra` says. A reflecting one repeats what was produced.
pub struct TapTrigger {
    pub source: CardId,
    pub player: PlayerId,
    pub host: CardId,
    pub reflects: bool,
    pub reflects_produced: bool,
    pub reflects_types: bool,
    pub atoms: Vec<u16>,
    pub any_color: bool,
    pub amount: i32,
    pub extra: u32,
}

/// Which replacement effect of which card: one of its own, or one that the rules give it.
#[derive(Debug, Clone, Copy, PartialEq, Eq, Structural)]
pub struct EffectKey {
    pub card: CardId,
    pub of_rules: bool,
    pub index: usize,
    pub id: i32,
}

pub struct GameState {
    pub cards: Vec<Card>,
    pub players: Vec<Player>,
    pub player_order: Vec<PlayerId>,
    pub active_player: PlayerId,
    pub phase: PhaseType,
    pub n_upkeeps_this_turn: i32,
    pub n_end_of_turns_this_turn: i32,
    pub is_night: bool,
    pub is_day: bool,
    pub is_void: bool,
    pub last_sacrificed_card: Option<CardId>,
    pub left_battlefield_this_turn: Vec<CardId>,
    pub left_graveyard_this_turn: Vec<CardId>,
    pub cast_this_turn: Vec<CardId>,
    pub cast_last_turn: Vec<CardId>,
    pub activated_this_turn: Vec<CardId>,
    pub entered_this_turn: Vec<ZoneEntry>,
    pub entered_last_turn: Vec<ZoneEntry>,
    pub zone_order: Vec<CardId>,
    pub replacement_last_state_battlefield: Option<Vec<CardId>>,
    pub battlefield_lki: Vec<Card>,
    pub produce_mana_replaced: bool,
    pub full_mana_probe: bool,
    pub facts: Facts,
}

// ---- lookups ----

/// The value of a script variable.
pub open spec fn svar_value(svars: Seq<SVar>, name: Seq<char>) -> Option<Seq<char>>
    decreases svars.len(),
{
    if svars.len() == 0 {
        None
    } else if svars[0].name@ == name {
        Some(svars[0].value@)
    } else {
        svar_value(svars.skip(1), name)
    }
}

pub fn find_svar<'a>(svars: &'a Vec<SVar>, name: &str) -> (r: Option<&'a str>)
    ensures
        crate::parsing::params::text_of(r) == svar_value(svars@, name@),
{
    let mut i: usize = 0;
    assert(svars@.skip(0) =~= svars@);
    while i < svars.len()
        invariant
            i <= svars@.len(),
            svar_value(svars@, name@) == svar_value(svars@.skip(i as int), name@),
        decreases svars@.len() - i,
    {
        assert(svars@.skip(i as int).skip(1) =~= svars@.skip(i + 1));
        if text_eq(svars[i].name.as_str(), name) {
            return Some(svars[i].value.as_str());
        }
        i = i + 1;
    }
    None
}

/// How many counters of a kind there are.
pub open spec fn counters_of(counters: Seq<Counter>, kind: Seq<char>) -> i32
    decreases counters.len(),
{
    if counters.len() == 0 {
        0
    } else if counters[0].kind@ == kind {
        counters[0].count
    } else {
        counters_of(counters.skip(1), kind)
    }
}

pub fn count_of_kind(counters: &Vec<Counter>, kind: &str) -> (r: i32)
    ensures
        r == counters_of(counters@, kind@),
{
    let mut i: usize = 0;
    assert(counters@.skip(0) =~= counters@);
    while i < counters.len()
        invariant
            i <= counters@.len(),
            counters_of(counters@, kind@) == counters_of(counters@.skip(i as int), kind@),
        decreases counters@.len() - i,
    {
        assert(counters@.skip(i as int).skip(1) =~= counters@.skip(i + 1));
        if text_eq(counters[i].kind.as_str(), kind) {
            return counters[i].count;
        }
        i = i + 1;
    }
    0
}

/// How many counters there are of all kinds.
pub open spec fn all_counters(counters: Seq<Counter>) -> i32
    decreases counters.len(),
{
    if counters.len() == 0 {
        0
    } else {
        all_counters(counters.drop_last()).wrapping_add(counters.last().count)
    }
}

pub fn count_all(counters: &Vec<Counter>) -> (r: i32)
    ensures
        r == all_counters(counters@),
{
    let mut total: i32 = 0;
    let mut i: usize = 0;
    while i < counters.len()
        invariant
            i <= counters@.len(),
            total == all_counters(counters@.take(i as int)),
        decreases counters@.len() - i,
    {
        assert(counters@.take(i + 1).drop_last() =~= counters@.take(i as int));
        total = total.wrapping_add(counters[i].count);
        i = i + 1;
    }
    assert(counters@.take(i as int) =~= counters@);
    total
}

impl CardTypes {
    pub open spec fn is_subtype(&self, name: Seq<char>) -> bool {
        texts_have(self.subtypes@, name)
    }

    pub fn has_subtype(&self, name: &str) -> (r: bool)
        ensures
            r == self.is_subtype(name@),
    {
        has_text(&self.subtypes, name)
    }
}

impl Card {
    pub open spec fn keyword(&self, name: Seq<char>) -> bool {
        texts_have(self.keywords@, name)
    }

    pub fn has_keyword(&self, name: &str) -> (r: bool)
        ensures
            r == self.keyword(name@),
    {
        has_text(&self.keywords, name)
    }

    pub fn get_s_var(&self, name: &str) -> (r: Option<&str>)
        ensures
            crate::parsing::params::text_of(r) == svar_value(self.svars@, name@),
    {
        find_svar(&self.svars, name)
    }
}

impl Facts {
    pub open spec fn matches_card(
        &self,
        selector: Seq<char>,
        source: CardId,
        you: PlayerId,
        card: CardId,
    ) -> bool {
        exists|i: int|
            0 <= i < self.card_matches@.len() && {
                let m = #[trigger] self.card_matches@[i];
                m.selector@ == selector && m.source == source && m.you == you && m.card == card
            }
    }

    pub fn card_matches_selector(
        &self,
        selector: &str,
        source: CardId,
        you: PlayerId,
        card: CardId,
    ) -> (r: bool)
        ensures
            r == self.matches_card(selector@, source, you, card),
    {
        let mut i: usize = 0;
        while i < self.card_matches.len()
            invariant
                i <= self.card_matches@.len(),
                forall|k: int|
                    0 <= k < i ==> {
                        let m = #[trigger] self.card_matches@[k];
                        !(m.selector@ == selector@ && m.source == source && m.you == you && m.card
                            == card)
                    },
            decreases self.card_matches@.len() - i,
        {
            let m = &self.card_matches[i];
            if m.source == source && m.you == you && m.card == card && text_eq(
                m.selector.as_str(),
                selector,
            ) {
                assert(self.card_matches@[i as int].selector@ == selector@);
                return true;
            }
            i = i + 1;
        }
        false
    }

    pub open spec fn matches_player(
        &self,
        selector: Seq<char>,
        source: CardId,
        you: PlayerId,
        player: PlayerId,
    ) -> bool {
        exists|i: int|
            0 <= i < self.player_matches@.len() && {
                let m = #[trigger] self.player_matches@[i];
                m.selector@ == selector && m.source == source && m.you == you && m.player == player
            }
    }

    pub fn player_matches_selector(
        &self,
        selector: &str,
        source: CardId,
        you: PlayerId,
        player: PlayerId,
    ) -> (r: bool)
        ensures
            r == self.matches_player(selector@, source, you, player),
    {
        let mut i: usize = 0;
        while i < self.player_matches.len()
            invariant
                i <= self.player_matches@.len(),
                forall|k: int|
                    0 <= k < i ==> {
                        let m = #[trigger] self.player_matches@[k];
                        !(m.selector@ == selector@ && m.source == source && m.you == you
                            && m.player == player)
                    },
            decreases self.player_matches@.len() - i,
        {
            let m = &self.player_matches[i];
            if m.source == source && m.you == you && m.player == player && text_eq(
                m.selector.as_str(),
                selector,
            ) {
                assert(self.player_matches@[i as int].selector@ == selector@);
                return true;
            }
            i = i + 1;
        }
        false
    }

    pub open spec fn matches_ability(&self, filter: Seq<char>, ability: u32, host: CardId) -> bool {
        exists|i: int|
            0 <= i < self.ability_matches@.len() && {
                let m = #[trigger] self.ability_matches@[i];
                m.filter@ == filter && m.ability == ability && m.host == host
            }
    }

    pub fn ability_matches_filter(&self, filter: &str, ability: u32, host: CardId) -> (r: bool)
        ensures
            r == self.matches_ability(filter@, ability, host),
    {
        let mut i: usize = 0;
        while i < self.ability_matches.len()
            invariant
                i <= self.ability_matches@.len(),
                forall|k: int|
                    0 <= k < i ==> {
                        let m = #[trigger] self.ability_matches@[k];
                        !(m.filter@ == filter@ && m.ability == ability && m.host == host)
                    },
            decreases self.ability_matches@.len() - i,
        {
            let m = &self.ability_matches[i];
            if m.ability == ability && m.host == host && text_eq(m.filter.as_str(), filter) {
                assert(self.ability_matches@[i as int].filter@ == filter@);
                return true;
            }
            i = i + 1;
        }
        false
    }

    /// The cards that a reference defines; none where nothing is known of it.
    pub open spec fn cards_defined(&self, defined: Seq<char>, source: CardId) -> Seq<CardId> {
        first_defined_cards(self.defined_cards@, defined, source)
    }

    pub fn get_defined_cards(&self, defined: &str, source: CardId) -> (r: Vec<CardId>)
        ensures
            r@ == self.cards_defined(defined@, source),
    {
        let mut i: usize = 0;
        let ghost all = self.defined_cards@;
        assert(all.skip(0) =~= all);
        while i < self.defined_cards.len()
            invariant
                i <= all.len(),
                all == self.defined_cards@,
                first_defined_cards(all, defined@, source) == first_defined_cards(
                    all.skip(i as int),
                    defined@,
                    source,
                ),
            decreases all.len() - i,
        {
            assert(all.skip(i as int).skip(1) =~= all.skip(i + 1));
            let d = &self.defined_cards[i];
            if d.source == source && text_eq(d.defined.as_str(), defined) {
                return crate::lists::copy_cards(&d.cards);
            }
            i = i + 1;
        }
        Vec::new()
    }

    pub open spec fn players_defined(&self, defined: Seq<char>, source: CardId) -> Seq<PlayerId> {
        first_defined_players(self.defined_players@, defined, source)
    }

    pub fn get_defined_players(&self, defined: &str, source: CardId) -> (r: Vec<PlayerId>)
        ensures
            r@ == self.players_defined(defined@, source),
    {
        let mut i: usize = 0;
        let ghost all = self.defined_players@;
        assert(all.skip(0) =~= all);
        while i < self.defined_players.len()
            invariant
                i <= all.len(),
                all == self.defined_players@,
                first_defined_players(all, defined@, source) == first_defined_players(
                    all.skip(i as int),
                    defined@,
                    source,
                ),
            decreases all.len() - i,
        {
            assert(all.skip(i as int).skip(1) =~= all.skip(i + 1));
            let d = &self.defined_players[i];
            if d.source == source && text_eq(d.defined.as_str(), defined) {
                return crate::lists::copy_players(&d.players);
            }
            i = i + 1;
        }
        Vec::new()
    }
}

pub open spec fn first_defined_cards(
    all: Seq<DefinedCards>,
    defined: Seq<char>,
    source: CardId,
) -> Seq<CardId>
    decreases all.len(),
{
    if all.len() == 0 {
        Seq::empty()
    } else if all[0].source == source && all[0].defined@ == defined {
        all[0].cards@
    } else {
        first_defined_cards(all.skip(1), defined, source)
    }
}

pub open spec fn first_defined_players(
    all: Seq<DefinedPlayers>,
    defined: Seq<char>,
    source: CardId,
) -> Seq<PlayerId>
    decreases all.len(),
{
    if all.len() == 0 {
        Seq::empty()
    } else if all[0].source == source && all[0].defined@ == defined {
        all[0].players@
    } else {
        first_defined_players(all.skip(1), defined, source)
    }
}

/// The cards of a player in a zone, in the order of `order`.
pub open spec fn zone_cards(
    cards: Seq<Card>,
    order: Seq<CardId>,
    zone: ZoneType,
    player: PlayerId,
) -> Seq<CardId>
    decreases order.len(),
{
    if order.len() == 0 {
        Seq::empty()
    } else {
        let before = zone_cards(cards, order.drop_last(), zone, player);
        let id = order.last();
        if in_zone_of(cards, id, zone, player) {
            before.push(id)
        } else {
            before
        }
    }
}

/// Whether a card is in a player's zone. The battlefield belongs to controllers, every other
/// zone to owners.
pub open spec fn in_zone_of(cards: Seq<Card>, id: CardId, zone: ZoneType, player: PlayerId) -> bool {
    &&& 0 <= id.0 < cards.len()
    &&& cards[id.0 as int].zone == zone
    &&& player == if zone == ZoneType::Battlefield {
        cards[id.0 as int].controller
    } else {
        cards[id.0 as int].owner
    }
}

impl GameState {
    pub open spec fn has_card(&self, id: CardId) -> bool {
        id.0 < self.cards@.len()
    }

    pub open spec fn card_at(&self, id: CardId) -> Option<Card> {
        if self.has_card(id) {
            Some(self.cards@[id.0 as int])
        } else {
            None
        }
    }

    pub fn card(&self, id: CardId) -> (r: Option<&Card>)
        ensures
            r is Some == self.has_card(id),
            r matches Some(c) ==> self.card_at(id) == Some(*c),
    {
        let i: usize = id.0 as usize;
        if i < self.cards.len() {
            Some(&self.cards[i])
        } else {
            None
        }
    }

    pub open spec fn has_player(&self, id: PlayerId) -> bool {
        id.0 < self.players@.len()
    }

    pub open spec fn player_at(&self, id: PlayerId) -> Option<Player> {
        if self.has_player(id) {
            Some(self.players@[id.0 as int])
        } else {
            None
        }
    }

    pub fn player(&self, id: PlayerId) -> (r: Option<&Player>)
        ensures
            r is Some == self.has_player(id),
            r matches Some(p) ==> self.player_at(id) == Some(*p),
    {
        let i: usize = id.0 as usize;
        if i < self.players.len() {
            Some(&self.players[i])
        } else {
            None
        }
    }

    /// The cards of a player in a zone, in the order of `order`.
    pub fn cards_among(&self, order: &Vec<CardId>, zone: ZoneType, player: PlayerId) -> (r: Vec<
        CardId,
    >)
        ensures
            r@ == zone_cards(self.cards@, order@, zone, player),
    {
        let mut out: Vec<CardId> = Vec::new();
        let mut i: usize = 0;
        while i < order.len()
            invariant
                i <= order@.len(),
                out@ == zone_cards(self.cards@, order@.take(i as int), zone, player),
            decreases order@.len() - i,
        {
            assert(order@.take(i + 1).drop_last() =~= order@.take(i as int));
            let id = order[i];
            if let Some(c) = self.card(id) {
                let holder = if zone == ZoneType::Battlefield {
                    c.controller
                } else {
                    c.owner
                };
                if c.zone == zone && holder == player {
                    out.push(id);
                }
            }
            i = i + 1;
        }
        assert(order@.take(i as int) =~= order@);
        out
    }

    /// The cards of a player in a zone, in the order in which they came into it.
    pub open spec fn in_zone(&self, zone: ZoneType, player: PlayerId) -> Seq<CardId> {
        zone_cards(self.cards@, self.zone_order@, zone, player)
    }

    pub fn cards_in_zone(&self, zone: ZoneType, player: PlayerId) -> (r: Vec<CardId>)
        ensures
            r@ == self.in_zone(zone, player),
    {
        self.cards_among(&self.zone_order, zone, player)
    }

    /// Whether two players are on different sides.
    pub open spec fn are_opponents(&self, a: PlayerId, b: PlayerId) -> bool {
        match (self.player_at(a), self.player_at(b)) {
            (Some(p), Some(q)) => p.team != q.team,
            _ => false,
        }
    }

    pub fn is_opponent_of(&self, a: PlayerId, b: PlayerId) -> (r: bool)
        ensures
            r == self.are_opponents(a, b),
    {
        match (self.player(a), self.player(b)) {
            (Some(p), Some(q)) => p.team != q.team,
            _ => false,
        }
    }

    /// Players who are still in the game, in turn order.
    pub open spec fn living(&self) -> Seq<PlayerId> {
        living_among(self.players@, self.player_order@)
    }

    pub fn alive_players(&self) -> (r: Vec<PlayerId>)
        ensures
            r@ == self.living(),
    {
        let mut out: Vec<PlayerId> = Vec::new();
        let mut i: usize = 0;
        let ghost order = self.player_order@;
        while i < self.player_order.len()
            invariant
                i <= order.len(),
                order == self.player_order@,
                out@ == living_among(self.players@, order.take(i as int)),
            decreases order.len() - i,
        {
            assert(order.take(i + 1).drop_last() =~= order.take(i as int));
            let id = self.player_order[i];
            if let Some(p) = self.player(id) {
                if p.alive {
                    out.push(id);
                }
            }
            i = i + 1;
        }
        assert(order.take(i as int) =~= order);
        out
    }
}

pub open spec fn living_among(players: Seq<Player>, order: Seq<PlayerId>) -> Seq<PlayerId>
    decreases order.len(),
{
    if order.len() == 0 {
        Seq::empty()
    } else {
        let before = living_among(players, order.drop_last());
        let id = order.last();
        if id.0 < players.len() && players[id.0 as int].alive {
            before.push(id)
        } else {
            before
        }
    }
}

} // verus!
