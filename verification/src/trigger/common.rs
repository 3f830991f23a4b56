//! What all triggers have in common.

use vstd::prelude::*;
use crate::game::{Facts, GameState, ZoneEntry};
use crate::parsing::params::string_of;
use crate::replacement::damage_map::CardDamageMap;
use crate::spell::{AbilityValue, GameEntity, SpellAbility};
use crate::text::{join, joined, number_text, push_text, string_views, write_count, write_number};
use crate::types::{AbilityKey, CardId, PlayerId, ZoneType};

verus! {

/// The kinds of triggers.
#[derive(Debug, Clone, Copy, PartialEq, Eq, Structural)]
pub enum TriggerType {
    AbilityCast,
    Attached,
    AttackerBlockedByCreature,
    Attacks,
    ChangesZoneAll,
    DamageDone,
    DamageDoneOnce,
    DiscardedAll,
    ExcessDamageAll,
    LandPlayed,
    ManaAdded,
    MilledOnce,
    PlanarDice,
    RingTemptsYou,
    Scry,
    SpellAbilityCast,
    SpellAbilityCopy,
    SpellCast,
    SpellCastAll,
    SpellCastOfType,
    SpellCastOnce,
    SpellCastOrCopy,
    SpellCopied,
    SpellCopy,
    TapAll,
    Taps,
    TurnFaceUp,
    UntapAll,
}

/// The trigger itself: the card that has it, and who controls that card.
#[derive(Debug, Clone, Copy, PartialEq, Eq, Structural)]
pub struct Trigger {
    pub host: CardId,
    pub controller: PlayerId,
}

/// The cards of a player that an event untapped.
pub struct Untapped {
    pub player: PlayerId,
    pub cards: Vec<CardId>,
}

/// What an event tells its triggers.
pub struct RunParams {
    pub card: Option<CardId>,
    pub cards: Option<Vec<CardId>>,
    pub player: Option<PlayerId>,
    pub source_card: Option<CardId>,
    pub attacker: Option<CardId>,
    pub blocker: Option<CardId>,
    pub attacked_player: Option<PlayerId>,
    pub attacked_card: Option<CardId>,
    pub num_attackers: Option<i32>,
    pub defenders_player_ids: Option<Vec<PlayerId>>,
    pub defenders_card_ids: Option<Vec<CardId>>,
    pub defending_player: Option<PlayerId>,
    pub attacking_player: Option<PlayerId>,
    pub damage_source: Option<CardId>,
    pub damage_target_card: Option<CardId>,
    pub damage_target_player: Option<PlayerId>,
    pub damage_amount: Option<i32>,
    pub is_combat_damage: Option<bool>,
    pub damage_map: Option<CardDamageMap>,
    pub origin: Option<ZoneType>,
    pub cause_card: Option<CardId>,
    pub num: Option<i32>,
    pub first_time: Option<bool>,
    pub mode: Option<String>,
    pub produced: Option<String>,
    pub ability_mana: Option<u32>,
    pub spell_ability: Option<u32>,
    pub spell_card: Option<CardId>,
    pub spell_controller: Option<PlayerId>,
    pub activator: Option<PlayerId>,
    pub life_amount: Option<i32>,
    pub card_lki: Option<CardId>,
    pub untapped: Vec<Untapped>,
    pub zone_table: Option<Vec<ZoneEntry>>,
    pub zone_changes: Option<Vec<ZoneEntry>>,
}

impl RunParams {
    /// An event that tells nothing.
    pub fn new() -> (r: RunParams)
        ensures
            r.card is None,
            r.cards is None,
            r.player is None,
            r.source_card is None,
            r.attacker is None,
            r.blocker is None,
            r.attacked_player is None,
            r.attacked_card is None,
            r.num_attackers is None,
            r.defenders_player_ids is None,
            r.defenders_card_ids is None,
            r.defending_player is None,
            r.attacking_player is None,
            r.damage_source is None,
            r.damage_target_card is None,
            r.damage_target_player is None,
            r.damage_amount is None,
            r.is_combat_damage is None,
            r.damage_map is None,
            r.origin is None,
            r.cause_card is None,
            r.num is None,
            r.first_time is None,
            r.mode is None,
            r.produced is None,
            r.ability_mana is None,
            r.spell_ability is None,
            r.spell_card is None,
            r.spell_controller is None,
            r.activator is None,
            r.life_amount is None,
            r.card_lki is None,
            r.untapped@.len() == 0,
            r.zone_table is None,
            r.zone_changes is None,
    {
        RunParams {
            card: None,
            cards: None,
            player: None,
            source_card: None,
            attacker: None,
            blocker: None,
            attacked_player: None,
            attacked_card: None,
            num_attackers: None,
            defenders_player_ids: None,
            defenders_card_ids: None,
            defending_player: None,
            attacking_player: None,
            damage_source: None,
            damage_target_card: None,
            damage_target_player: None,
            damage_amount: None,
            is_combat_damage: None,
            damage_map: None,
            origin: None,
            cause_card: None,
            num: None,
            first_time: None,
            mode: None,
            produced: None,
            ability_mana: None,
            spell_ability: None,
            spell_card: None,
            spell_controller: None,
            activator: None,
            life_amount: None,
            card_lki: None,
            untapped: Vec::new(),
            zone_table: None,
            zone_changes: None,
        }
    }
}

// ---- filters ----

/// Whether a card passes an optional filter of a trigger. With a filter there must be a card.
pub open spec fn passes(facts: Facts, t: Trigger, filter: Option<Seq<char>>, card: Option<CardId>) -> bool {
    match filter {
        None => true,
        Some(f) => card matches Some(c) && facts.matches_card(f, t.host, t.controller, c),
    }
}

/// Whether a player passes an optional filter of a trigger. With a filter there must be a player.
pub open spec fn player_passes(
    facts: Facts,
    t: Trigger,
    filter: Option<Seq<char>>,
    player: Option<PlayerId>,
) -> bool {
    match filter {
        None => true,
        Some(f) => player matches Some(p) && facts.matches_player(f, t.host, t.controller, p),
    }
}

/// Whether what damage was dealt to passes an optional filter of a trigger: the card, or else the
/// player.
pub open spec fn target_passes(
    facts: Facts,
    t: Trigger,
    filter: Option<Seq<char>>,
    card: Option<CardId>,
    player: Option<PlayerId>,
) -> bool {
    if card is Some {
        passes(facts, t, filter, card)
    } else {
        player_passes(facts, t, filter, player)
    }
}

impl Trigger {
    pub fn matches_optional_valid_card_filter(
        &self,
        filter: &Option<String>,
        card: Option<CardId>,
        game: &GameState,
    ) -> (r: bool)
        ensures
            r == passes(game.facts, *self, string_of(*filter), card),
    {
        match filter {
            None => true,
            Some(f) => match card {
                Some(c) => game.facts.card_matches_selector(
                    f.as_str(),
                    self.host,
                    self.controller,
                    c,
                ),
                None => false,
            },
        }
    }

    pub fn matches_optional_valid_player_filter(
        &self,
        filter: &Option<String>,
        player: Option<PlayerId>,
        game: &GameState,
    ) -> (r: bool)
        ensures
            r == player_passes(game.facts, *self, string_of(*filter), player),
    {
        match filter {
            None => true,
            Some(f) => match player {
                Some(p) => game.facts.player_matches_selector(
                    f.as_str(),
                    self.host,
                    self.controller,
                    p,
                ),
                None => false,
            },
        }
    }

    pub fn matches_damage_target_filter(
        &self,
        filter: &Option<String>,
        params: &RunParams,
        game: &GameState,
    ) -> (r: bool)
        ensures
            r == target_passes(
                game.facts,
                *self,
                string_of(*filter),
                params.damage_target_card,
                params.damage_target_player,
            ),
    {
        if params.damage_target_card.is_some() {
            self.matches_optional_valid_card_filter(filter, params.damage_target_card, game)
        } else {
            self.matches_optional_valid_player_filter(filter, params.damage_target_player, game)
        }
    }
}

/// Whether one of some cards passes a filter.
pub open spec fn one_passes(facts: Facts, t: Trigger, filter: Option<Seq<char>>, cards: Seq<CardId>) -> bool {
    exists|i: int| 0 <= i < cards.len() && passes(facts, t, filter, Some(#[trigger] cards[i]))
}

pub fn check_one_passes(
    t: &Trigger,
    filter: &Option<String>,
    cards: &Vec<CardId>,
    game: &GameState,
) -> (r: bool)
    ensures
        r == one_passes(game.facts, *t, string_of(*filter), cards@),
{
    let mut i: usize = 0;
    while i < cards.len()
        invariant
            i <= cards@.len(),
            forall|k: int|
                0 <= k < i ==> !passes(
                    game.facts,
                    *t,
                    string_of(*filter),
                    Some(#[trigger] cards@[k]),
                ),
        decreases cards@.len() - i,
    {
        if t.matches_optional_valid_card_filter(filter, Some(cards[i]), game) {
            assert(passes(game.facts, *t, string_of(*filter), Some(cards@[i as int])));
            return true;
        }
        i = i + 1;
    }
    false
}

/// The cards that pass a filter, in their order.
pub open spec fn passing(facts: Facts, t: Trigger, filter: Option<Seq<char>>, cards: Seq<CardId>) -> Seq<
    CardId,
>
    decreases cards.len(),
{
    if cards.len() == 0 {
        Seq::empty()
    } else {
        let before = passing(facts, t, filter, cards.drop_last());
        if passes(facts, t, filter, Some(cards.last())) {
            before.push(cards.last())
        } else {
            before
        }
    }
}

pub fn list_passing(
    t: &Trigger,
    filter: &Option<String>,
    cards: &Vec<CardId>,
    game: &GameState,
) -> (r: Vec<CardId>)
    ensures
        r@ == passing(game.facts, *t, string_of(*filter), cards@),
{
    let ghost all = cards@;
    let mut out: Vec<CardId> = Vec::new();
    let mut i: usize = 0;
    while i < cards.len()
        invariant
            i <= all.len(),
            all == cards@,
            out@ == passing(game.facts, *t, string_of(*filter), all.take(i as int)),
        decreases all.len() - i,
    {
        assert(all.take(i + 1).drop_last() =~= all.take(i as int));
        if t.matches_optional_valid_card_filter(filter, Some(cards[i]), game) {
            out.push(cards[i]);
        }
        i = i + 1;
    }
    assert(all.take(i as int) =~= all);
    out
}

/// A trigger fires for a batch of cards exactly where some of them are handed to its ability.
pub proof fn law_batch_fires_for_some(
    facts: Facts,
    t: Trigger,
    filter: Option<Seq<char>>,
    cards: Seq<CardId>,
)
    ensures
        one_passes(facts, t, filter, cards) <==> passing(facts, t, filter, cards).len() > 0,
    decreases cards.len(),
{
    if cards.len() > 0 {
        let before = cards.drop_last();
        law_batch_fires_for_some(facts, t, filter, before);
        if one_passes(facts, t, filter, before) {
            let i = choose|i: int|
                0 <= i < before.len() && passes(facts, t, filter, Some(#[trigger] before[i]));
            assert(passes(facts, t, filter, Some(cards[i])));
        }
        if one_passes(facts, t, filter, cards) {
            let i = choose|i: int|
                0 <= i < cards.len() && passes(facts, t, filter, Some(#[trigger] cards[i]));
            if i < cards.len() - 1 {
                assert(passes(facts, t, filter, Some(before[i])));
            }
        }
        if passes(facts, t, filter, Some(cards.last())) {
            assert(passes(facts, t, filter, Some(cards[cards.len() - 1])));
        }
    }
}

// ---- what an ability is handed ----

/// What an event hands to an ability, as it is read.
pub ghost enum ValueView {
    Card(CardId),
    Player(PlayerId),
    Cards(Seq<CardId>),
    Players(Seq<PlayerId>),
    GameEntities(Seq<GameEntity>),
    Text(Seq<char>),
}

pub open spec fn value_view(v: AbilityValue) -> ValueView {
    match v {
        AbilityValue::Card(c) => ValueView::Card(c),
        AbilityValue::Player(p) => ValueView::Player(p),
        AbilityValue::Cards(v) => ValueView::Cards(v@),
        AbilityValue::Players(v) => ValueView::Players(v@),
        AbilityValue::GameEntities(v) => ValueView::GameEntities(v@),
        AbilityValue::Text(t) => ValueView::Text(t@),
    }
}

/// The objects of an ability, as they are read.
pub open spec fn seen(sa: SpellAbility) -> Map<AbilityKey, ValueView> {
    sa@.objects().map_values(|v: AbilityValue| value_view(v))
}

/// Whether an ability differs only in the objects that it was handed.
pub open spec fn only_objects(a: SpellAbility, b: SpellAbility) -> bool {
    b == (SpellAbility { trigger_objects: b.trigger_objects, ..a })
}

/// Hands a value to an ability.
pub fn put(sa: &mut SpellAbility, key: AbilityKey, value: AbilityValue)
    ensures
        seen(*final(sa)) == seen(*old(sa)).insert(key, value_view(value)),
        only_objects(*old(sa), *final(sa)),
{
    let ghost before = *sa;
    sa.set_triggering_value(key, value);
    assert(seen(*sa) =~= seen(before).insert(key, value_view(value)));
}

pub open spec fn with_card(m: Map<AbilityKey, ValueView>, key: AbilityKey, card: Option<CardId>) -> Map<
    AbilityKey,
    ValueView,
> {
    match card {
        Some(c) => m.insert(key, ValueView::Card(c)),
        None => m,
    }
}

/// Hands a card to an ability, where there is one.
pub fn put_card(sa: &mut SpellAbility, key: AbilityKey, card: Option<CardId>)
    ensures
        seen(*final(sa)) == with_card(seen(*old(sa)), key, card),
        only_objects(*old(sa), *final(sa)),
{
    if let Some(c) = card {
        put(sa, key, AbilityValue::Card(c));
    }
}

pub open spec fn with_player(
    m: Map<AbilityKey, ValueView>,
    key: AbilityKey,
    player: Option<PlayerId>,
) -> Map<AbilityKey, ValueView> {
    match player {
        Some(p) => m.insert(key, ValueView::Player(p)),
        None => m,
    }
}

/// Hands a player to an ability, where there is one.
pub fn put_player(sa: &mut SpellAbility, key: AbilityKey, player: Option<PlayerId>)
    ensures
        seen(*final(sa)) == with_player(seen(*old(sa)), key, player),
        only_objects(*old(sa), *final(sa)),
{
    if let Some(p) = player {
        put(sa, key, AbilityValue::Player(p));
    }
}

pub open spec fn with_number(m: Map<AbilityKey, ValueView>, key: AbilityKey, n: Option<int>) -> Map<
    AbilityKey,
    ValueView,
> {
    match n {
        Some(k) => m.insert(key, ValueView::Text(number_text(k))),
        None => m,
    }
}

/// Hands a number to an ability, as text.
pub fn put_number(sa: &mut SpellAbility, key: AbilityKey, n: i64)
    requires
        n > i64::MIN,
    ensures
        seen(*final(sa)) == with_number(seen(*old(sa)), key, Some(n as int)),
        only_objects(*old(sa), *final(sa)),
{
    put(sa, key, AbilityValue::Text(write_number(n)));
}

pub open spec fn number_of(n: Option<i32>) -> Option<int> {
    match n {
        Some(k) => Some(k as int),
        None => None,
    }
}

/// Hands a number to an ability, where there is one.
pub fn put_some_number(sa: &mut SpellAbility, key: AbilityKey, n: Option<i32>)
    ensures
        seen(*final(sa)) == with_number(seen(*old(sa)), key, number_of(n)),
        only_objects(*old(sa), *final(sa)),
{
    if let Some(k) = n {
        put_number(sa, key, k as i64);
    }
}

pub open spec fn with_text(m: Map<AbilityKey, ValueView>, key: AbilityKey, t: Option<Seq<char>>) -> Map<
    AbilityKey,
    ValueView,
> {
    match t {
        Some(s) => m.insert(key, ValueView::Text(s)),
        None => m,
    }
}

/// Hands a text to an ability, where there is one.
pub fn put_text(sa: &mut SpellAbility, key: AbilityKey, t: &Option<String>)
    ensures
        seen(*final(sa)) == with_text(seen(*old(sa)), key, string_of(*t)),
        only_objects(*old(sa), *final(sa)),
{
    if let Some(s) = t {
        put(sa, key, AbilityValue::Text(s.as_str().to_string()));
    }
}

pub open spec fn list_of(v: Option<Vec<CardId>>) -> Option<Seq<CardId>> {
    match v {
        Some(list) => Some(list@),
        None => None,
    }
}

pub open spec fn players_of(v: Option<Vec<PlayerId>>) -> Option<Seq<PlayerId>> {
    match v {
        Some(list) => Some(list@),
        None => None,
    }
}

pub open spec fn with_cards(m: Map<AbilityKey, ValueView>, key: AbilityKey, cards: Option<Seq<CardId>>) -> Map<
    AbilityKey,
    ValueView,
> {
    match cards {
        Some(v) => m.insert(key, ValueView::Cards(v)),
        None => m,
    }
}

/// Hands a count to an ability, as text.
pub fn put_count(sa: &mut SpellAbility, key: AbilityKey, n: usize)
    ensures
        seen(*final(sa)) == with_number(seen(*old(sa)), key, Some(n as int)),
        only_objects(*old(sa), *final(sa)),
{
    put(sa, key, AbilityValue::Text(write_count(n)));
}

// ---- objects as text ----

pub open spec fn id_texts(v: Seq<CardId>) -> Seq<Seq<char>> {
    Seq::new(v.len(), |i: int| number_text(v[i].0 as int))
}

/// The numbers of cards, with commas.
pub open spec fn ids_text(v: Seq<CardId>) -> Seq<char> {
    joined(id_texts(v), ","@)
}

pub open spec fn player_texts(v: Seq<PlayerId>) -> Seq<Seq<char>> {
    Seq::new(v.len(), |i: int| number_text(v[i].0 as int))
}

pub open spec fn entity_texts(v: Seq<GameEntity>) -> Seq<Seq<char>> {
    Seq::new(
        v.len(),
        |i: int|
            match v[i] {
                GameEntity::Player(p) => number_text(p.0 as int),
                GameEntity::Card(c) => number_text(c.0 as int),
            },
    )
}

/// An object as text.
pub open spec fn value_text(v: ValueView) -> Seq<char> {
    match v {
        ValueView::Card(c) => number_text(c.0 as int),
        ValueView::Player(p) => number_text(p.0 as int),
        ValueView::Cards(v) => ids_text(v),
        ValueView::Players(v) => joined(player_texts(v), ","@),
        ValueView::GameEntities(v) => joined(entity_texts(v), ","@),
        ValueView::Text(t) => t,
    }
}

/// The text of an object; empty where there is none.
pub open spec fn object_shown(m: Map<AbilityKey, ValueView>, key: AbilityKey) -> Seq<char> {
    if m.dom().contains(key) {
        value_text(m[key])
    } else {
        ""@
    }
}

pub fn write_ids(v: &Vec<CardId>) -> (r: String)
    ensures
        r@ == ids_text(v@),
{
    let mut parts: Vec<String> = Vec::new();
    let mut i: usize = 0;
    while i < v.len()
        invariant
            i <= v@.len(),
            parts@.len() == i,
            forall|k: int| 0 <= k < i ==> (#[trigger] parts@[k])@ == id_texts(v@)[k],
        decreases v@.len() - i,
    {
        parts.push(write_number(v[i].0 as i64));
        i = i + 1;
    }
    assert(string_views(parts@) =~= id_texts(v@));
    join(&parts, ",")
}

fn write_players(v: &Vec<PlayerId>) -> (r: String)
    ensures
        r@ == joined(player_texts(v@), ","@),
{
    let mut parts: Vec<String> = Vec::new();
    let mut i: usize = 0;
    while i < v.len()
        invariant
            i <= v@.len(),
            parts@.len() == i,
            forall|k: int| 0 <= k < i ==> (#[trigger] parts@[k])@ == player_texts(v@)[k],
        decreases v@.len() - i,
    {
        parts.push(write_number(v[i].0 as i64));
        i = i + 1;
    }
    assert(string_views(parts@) =~= player_texts(v@));
    join(&parts, ",")
}

fn write_entities(v: &Vec<GameEntity>) -> (r: String)
    ensures
        r@ == joined(entity_texts(v@), ","@),
{
    let mut parts: Vec<String> = Vec::new();
    let mut i: usize = 0;
    while i < v.len()
        invariant
            i <= v@.len(),
            parts@.len() == i,
            forall|k: int| 0 <= k < i ==> (#[trigger] parts@[k])@ == entity_texts(v@)[k],
        decreases v@.len() - i,
    {
        let n: i64 = match v[i] {
            GameEntity::Player(p) => p.0 as i64,
            GameEntity::Card(c) => c.0 as i64,
        };
        parts.push(write_number(n));
        i = i + 1;
    }
    assert(string_views(parts@) =~= entity_texts(v@));
    join(&parts, ",")
}

/// Writes an object of an ability; nothing where there is none.
pub fn get_triggering_object_text(sa: &SpellAbility, key: AbilityKey) -> (r: String)
    ensures
        r@ == object_shown(seen(*sa), key),
{
    match sa.get_triggering_value(key) {
        Some(v) => {
            assert(seen(*sa).dom().contains(key));
            match v {
                AbilityValue::Card(c) => write_number(c.0 as i64),
                AbilityValue::Player(p) => write_number(p.0 as i64),
                AbilityValue::Cards(v) => write_ids(v),
                AbilityValue::Players(v) => write_players(v),
                AbilityValue::GameEntities(v) => write_entities(v),
                AbilityValue::Text(t) => t.as_str().to_string(),
            }
        },
        None => "".to_string(),
    }
}

/// Writes an object of an ability after a label.
pub fn labelled(label: &str, sa: &SpellAbility, key: AbilityKey) -> (r: String)
    ensures
        r@ == label@ + object_shown(seen(*sa), key),
{
    let mut out = label.to_string();
    let shown = get_triggering_object_text(sa, key);
    push_text(&mut out, shown.as_str());
    out
}

/// Adds an object of an ability, after a label.
pub fn add_labelled(out: &mut String, label: &str, sa: &SpellAbility, key: AbilityKey)
    ensures
        final(out)@ == old(out)@ + label@ + object_shown(seen(*sa), key),
{
    push_text(out, label);
    let shown = get_triggering_object_text(sa, key);
    push_text(out, shown.as_str());
}

// ---- the trait of triggers ----

/// What a kind of trigger does.
pub trait TriggerBehavior {
    spec fn kind(&self) -> TriggerType;

    /// Whether the trigger fires for an event.
    spec fn fires(&self, t: Trigger, p: RunParams, game: GameState) -> bool;

    /// The objects of the ability once the event has handed it its own.
    spec fn with_objects(
        &self,
        t: Trigger,
        p: RunParams,
        game: GameState,
        m: Map<AbilityKey, ValueView>,
    ) -> Map<AbilityKey, ValueView>;

    /// The amount that the ability remembers after that.
    spec fn remembered(&self, t: Trigger, p: RunParams, game: GameState, before: i32) -> i32;

    /// How the ability on the stack is described by its objects.
    spec fn stack_text(&self, m: Map<AbilityKey, ValueView>) -> Seq<char>;

    fn trigger_type(&self) -> (r: TriggerType)
        ensures
            r == self.kind(),
    ;

    fn perform_test(&self, trigger: &Trigger, params: &RunParams, game: &GameState) -> (r: bool)
        ensures
            r == self.fires(*trigger, *params, *game),
    ;

    fn set_triggering_objects(
        &self,
        trigger: &Trigger,
        sa: &mut SpellAbility,
        params: &RunParams,
        game: &GameState,
    )
        ensures
            seen(*final(sa)) == self.with_objects(*trigger, *params, *game, seen(*old(sa))),
            *final(sa) == (SpellAbility {
                trigger_objects: final(sa).trigger_objects,
                trigger_remembered_amount: self.remembered(
                    *trigger,
                    *params,
                    *game,
                    old(sa).trigger_remembered_amount,
                ),
                ..*old(sa)
            }),
    ;

    fn get_important_stack_objects(&self, sa: &SpellAbility) -> (r: String)
        ensures
            r@ == self.stack_text(seen(*sa)),
    ;
}

/// Whether a value of a parameter says yes, where there is one.
pub open spec fn says_true(v: Option<Seq<char>>) -> Option<bool> {
    match v {
        Some(t) => Some(crate::text::same_ignoring_case(t, "True"@)),
        None => None,
    }
}

pub fn read_bool(v: Option<&str>) -> (r: Option<bool>)
    ensures
        r == says_true(crate::parsing::params::text_of(v)),
{
    match v {
        Some(t) => Some(crate::text::eq_ignore_case(t, "True")),
        None => None,
    }
}

} // verus!
