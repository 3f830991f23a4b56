//! Spell abilities: what a spell or ability on the stack carries with it.

use vstd::prelude::*;
use crate::game::{find_svar, svar_value, GameState, SVar};
use crate::parsing::params::{text_of, Params};
use crate::text::text_eq;
use crate::types::{AbilityKey, CardId, OptionalCost, PlayerId};

verus! {

/// A player or a card.
#[derive(Debug, Clone, Copy, PartialEq, Eq, Structural)]
pub enum GameEntity {
    Player(PlayerId),
    Card(CardId),
}

/// What an event can hand to an ability.
#[derive(Debug, PartialEq, Eq)]
pub enum AbilityValue {
    Card(CardId),
    Player(PlayerId),
    Cards(Vec<CardId>),
    Players(Vec<PlayerId>),
    GameEntities(Vec<GameEntity>),
    Text(String),
}

pub struct TriggerObject {
    pub key: AbilityKey,
    pub value: AbilityValue,
}

/// The objects that a cost was paid with.
pub struct PaidEntry {
    pub key: String,
    pub values: Vec<String>,
}

/// A numeric parameter of an ability. An amount is what it comes to for the ability; where it comes
/// to nothing, the default stands.
pub enum NumericParamIr {
    Integer(i32),
    Amount(Option<i32>),
    SVarReference(Vec<String>),
    Raw(String),
}

pub struct NumericParam {
    pub name: String,
    pub value: NumericParamIr,
}

/// A spell ability that an event names.
pub struct NamedSpell {
    pub name: String,
    pub ability: SpellAbility,
}

/// A number that the engine remembers under a name.
pub struct NamedNumber {
    pub name: String,
    pub value: i32,
}

pub struct Targets {
    pub target_card: Option<CardId>,
    pub target_player: Option<PlayerId>,
    pub all_target_cards: Vec<CardId>,
    pub target_spell_source: Option<CardId>,
}

pub struct SpellAbility {
    pub id: u32,
    pub source: Option<CardId>,
    pub activating_player: PlayerId,
    pub x_mana_cost_paid: u32,
    pub kicked: bool,
    pub kick_count: u32,
    pub optional_costs: Vec<OptionalCost>,
    pub optional_generic_cost_paid: bool,
    pub uses_targeting: bool,
    pub targets: Targets,
    pub parent_targeting_card: Option<CardId>,
    pub discarded_cost_cards: Vec<CardId>,
    pub paid_hash: Vec<PaidEntry>,
    pub svars: Vec<SVar>,
    pub numeric_params: Vec<NumericParam>,
    pub etb: bool,
    pub unlinked_from_cast: bool,
    pub trigger_objects: Vec<TriggerObject>,
    pub trigger_remembered: Vec<AbilityValue>,
    pub trigger_remembered_amount: i32,
    pub trigger_source: Option<CardId>,
    pub trigger_index: Option<usize>,
    pub triggered_card_lki: Vec<NamedNumber>,
    pub defined_spells: Vec<NamedSpell>,
    pub counters_added: Vec<NamedNumber>,
    pub sub_ability: Option<Box<SpellAbility>>,
    pub trigger_spawning_ability: Option<Box<SpellAbility>>,
}

/// What the rules read of a spell ability.
#[verifier::ext_equal]
pub struct AbilityView {
    pub id: u32,
    pub source: Option<CardId>,
    pub activating_player: PlayerId,
    pub x_mana_cost_paid: u32,
    pub kicked: bool,
    pub kick_count: u32,
    pub optional_costs: Seq<OptionalCost>,
    pub optional_generic_cost_paid: bool,
    pub target_card: Option<CardId>,
    pub target_player: Option<PlayerId>,
    pub target_cards: Seq<CardId>,
    pub target_spell_source: Option<CardId>,
    pub chain_targets: Seq<CardId>,
    pub parent_targeting_card: Option<CardId>,
    pub discarded_cost_cards: Seq<CardId>,
    pub paid_hash: Seq<PaidEntry>,
    pub svars: Seq<SVar>,
    pub numeric_params: Seq<NumericParam>,
    pub uses_targeting: bool,
    pub sub_ability: Option<Box<SpellAbility>>,
    pub etb: bool,
    pub unlinked_from_cast: bool,
    pub trigger_objects: Seq<TriggerObject>,
    pub trigger_remembered: Seq<AbilityValue>,
    pub trigger_remembered_amount: i32,
    pub trigger_source: Option<CardId>,
    pub trigger_index: Option<usize>,
    pub triggered_card_lki: Seq<NamedNumber>,
    pub defined_spells: Seq<NamedSpell>,
    pub counters_added: Seq<NamedNumber>,
    pub trigger_spawning_ability: Option<Box<SpellAbility>>,
}

/// The cards that an ability and its sub-abilities target, in order.
pub open spec fn chain_targets(sa: SpellAbility) -> Seq<CardId>
    decreases sa,
{
    let own = if sa.uses_targeting { sa.targets.all_target_cards@ } else { Seq::empty() };
    match sa.sub_ability {
        Some(sub) => own + chain_targets(*sub),
        None => own,
    }
}

impl View for SpellAbility {
    type V = AbilityView;

    open spec fn view(&self) -> AbilityView {
        AbilityView {
            id: self.id,
            source: self.source,
            activating_player: self.activating_player,
            x_mana_cost_paid: self.x_mana_cost_paid,
            kicked: self.kicked,
            kick_count: self.kick_count,
            optional_costs: self.optional_costs@,
            optional_generic_cost_paid: self.optional_generic_cost_paid,
            target_card: self.targets.target_card,
            target_player: self.targets.target_player,
            target_cards: self.targets.all_target_cards@,
            target_spell_source: self.targets.target_spell_source,
            chain_targets: chain_targets(*self),
            parent_targeting_card: self.parent_targeting_card,
            discarded_cost_cards: self.discarded_cost_cards@,
            paid_hash: self.paid_hash@,
            svars: self.svars@,
            numeric_params: self.numeric_params@,
            uses_targeting: self.uses_targeting,
            sub_ability: self.sub_ability,
            etb: self.etb,
            unlinked_from_cast: self.unlinked_from_cast,
            trigger_objects: self.trigger_objects@,
            trigger_remembered: self.trigger_remembered@,
            trigger_remembered_amount: self.trigger_remembered_amount,
            trigger_source: self.trigger_source,
            trigger_index: self.trigger_index,
            triggered_card_lki: self.triggered_card_lki@,
            defined_spells: self.defined_spells@,
            counters_added: self.counters_added@,
            trigger_spawning_ability: self.trigger_spawning_ability,
        }
    }
}

/// The ability that stands for none.
pub open spec fn no_ability(source: Option<CardId>, player: PlayerId) -> AbilityView {
    AbilityView {
        id: 0,
        source,
        activating_player: player,
        x_mana_cost_paid: 0,
        kicked: false,
        kick_count: 0,
        optional_costs: Seq::empty(),
        optional_generic_cost_paid: false,
        target_card: None,
        target_player: None,
        target_cards: Seq::empty(),
        target_spell_source: None,
        chain_targets: Seq::empty(),
        parent_targeting_card: None,
        discarded_cost_cards: Seq::empty(),
        paid_hash: Seq::empty(),
        svars: Seq::empty(),
        numeric_params: Seq::empty(),
        uses_targeting: false,
        sub_ability: None,
        etb: false,
        unlinked_from_cast: false,
        trigger_objects: Seq::empty(),
        trigger_remembered: Seq::empty(),
        trigger_remembered_amount: 0,
        trigger_source: None,
        trigger_index: None,
        triggered_card_lki: Seq::empty(),
        defined_spells: Seq::empty(),
        counters_added: Seq::empty(),
        trigger_spawning_ability: None,
    }
}

impl AbilityView {
    pub open spec fn objects(self) -> Map<AbilityKey, AbilityValue> {
        objects_of(self.trigger_objects)
    }

    /// The object that an event left under a key.
    pub open spec fn object(self, key: AbilityKey) -> Option<AbilityValue> {
        if self.objects().dom().contains(key) {
            Some(self.objects()[key])
        } else {
            None
        }
    }

    /// The cards that an event left under a key.
    pub open spec fn object_cards(self, key: AbilityKey) -> Seq<CardId> {
        match self.object(key) {
            Some(v) => value_cards(v),
            None => Seq::empty(),
        }
    }

    /// The text that an event left under a key.
    pub open spec fn object_text(self, key: AbilityKey) -> Option<Seq<char>> {
        match self.object(key) {
            Some(AbilityValue::Text(t)) => Some(t@),
            _ => None,
        }
    }

    /// A script variable of the ability, or else of its source.
    pub open spec fn svar(self, game: GameState, name: Seq<char>) -> Option<Seq<char>> {
        match svar_value(self.svars, name) {
            Some(v) => Some(v),
            None => match self.source {
                Some(id) => match game.card_at(id) {
                    Some(c) => svar_value(c.svars@, name),
                    None => None,
                },
                None => None,
            },
        }
    }
}

/// The objects by key; a later one replaces an earlier one.
pub open spec fn objects_of(v: Seq<TriggerObject>) -> Map<AbilityKey, AbilityValue>
    decreases v.len(),
{
    if v.len() == 0 {
        Map::empty()
    } else {
        objects_of(v.drop_last()).insert(v.last().key, v.last().value)
    }
}

/// The values that a cost was paid with under a key.
pub open spec fn paid_under(v: Seq<PaidEntry>, key: Seq<char>) -> Option<Seq<String>>
    decreases v.len(),
{
    if v.len() == 0 {
        None
    } else if v[0].key@ == key {
        Some(v[0].values@)
    } else {
        paid_under(v.skip(1), key)
    }
}

pub open spec fn number_under(v: Seq<NamedNumber>, name: Seq<char>) -> Option<i32>
    decreases v.len(),
{
    if v.len() == 0 {
        None
    } else if v[0].name@ == name {
        Some(v[0].value)
    } else {
        number_under(v.skip(1), name)
    }
}

pub fn find_number(v: &Vec<NamedNumber>, name: &str) -> (r: Option<i32>)
    ensures
        r == number_under(v@, name@),
{
    let mut i: usize = 0;
    assert(v@.skip(0) =~= v@);
    while i < v.len()
        invariant
            i <= v@.len(),
            number_under(v@, name@) == number_under(v@.skip(i as int), name@),
        decreases v@.len() - i,
    {
        assert(v@.skip(i as int).skip(1) =~= v@.skip(i + 1));
        if text_eq(v[i].name.as_str(), name) {
            return Some(v[i].value);
        }
        i = i + 1;
    }
    None
}

pub open spec fn param_named(v: Seq<NumericParam>, name: Seq<char>) -> Option<NumericParamIr>
    decreases v.len(),
{
    if v.len() == 0 {
        None
    } else if v[0].name@ == name {
        Some(v[0].value)
    } else {
        param_named(v.skip(1), name)
    }
}

/// The cards among an object.
pub open spec fn value_cards(value: AbilityValue) -> Seq<CardId> {
    match value {
        AbilityValue::Card(c) => seq![c],
        AbilityValue::Cards(v) => v@,
        _ => Seq::empty(),
    }
}

pub fn cards_from_ability_value(value: &AbilityValue) -> (r: Vec<CardId>)
    ensures
        r@ == value_cards(*value),
{
    match value {
        AbilityValue::Card(c) => {
            let mut out: Vec<CardId> = Vec::new();
            out.push(*c);
            assert(out@ =~= seq![*c]);
            out
        },
        AbilityValue::Cards(v) => crate::lists::copy_cards(v),
        _ => Vec::new(),
    }
}

pub open spec fn is_raw_param(p: NumericParamIr, text: Seq<char>) -> bool {
    p matches NumericParamIr::Raw(t) && t@ == text
}

impl SpellAbility {
    /// Leaves an object under a key; everything else stays.
    pub fn set_triggering_value(&mut self, key: AbilityKey, value: AbilityValue)
        ensures
            final(self)@.objects() == old(self)@.objects().insert(key, value),
            *final(self) == (SpellAbility {
                trigger_objects: final(self).trigger_objects,
                ..*old(self)
            }),
    {
        let ghost before = self.trigger_objects@;
        self.trigger_objects.push(TriggerObject { key, value });
        assert(self.trigger_objects@.drop_last() =~= before);
    }

    pub fn get_triggering_value(&self, key: AbilityKey) -> (r: Option<&AbilityValue>)
        ensures
            r is Some == self@.object(key) is Some,
            r matches Some(v) ==> self@.object(key) == Some(*v),
    {
        let ghost all = self.trigger_objects@;
        let mut i: usize = self.trigger_objects.len();
        assert(all.take(i as int) =~= all);
        while i > 0
            invariant
                i <= all.len(),
                all == self.trigger_objects@,
                self@.objects().dom().contains(key) == objects_of(
                    all.take(i as int),
                ).dom().contains(key),
                self@.objects().dom().contains(key) ==> self@.objects()[key] == objects_of(
                    all.take(i as int),
                )[key],
            decreases i,
        {
            assert(all.take(i as int).drop_last() =~= all.take(i - 1));
            assert(all.take(i as int).last() == all[i - 1]);
            if self.trigger_objects[i - 1].key == key {
                return Some(&self.trigger_objects[i - 1].value);
            }
            i = i - 1;
        }
        None
    }

    pub fn get_triggering_cards(&self, key: AbilityKey) -> (r: Vec<CardId>)
        ensures
            r@ == self@.object_cards(key),
    {
        match self.get_triggering_value(key) {
            Some(v) => cards_from_ability_value(v),
            None => Vec::new(),
        }
    }

    pub fn get_triggering_text(&self, key: AbilityKey) -> (r: Option<&str>)
        ensures
            text_of(r) == self@.object_text(key),
    {
        match self.get_triggering_value(key) {
            Some(AbilityValue::Text(t)) => Some(t.as_str()),
            _ => None,
        }
    }

    pub fn find_paid(&self, key: &str) -> (r: Option<&Vec<String>>)
        ensures
            r is Some == paid_under(self.paid_hash@, key@) is Some,
            r matches Some(v) ==> paid_under(self.paid_hash@, key@) == Some(v@),
    {
        let mut i: usize = 0;
        let ghost all = self.paid_hash@;
        assert(all.skip(0) =~= all);
        while i < self.paid_hash.len()
            invariant
                i <= all.len(),
                all == self.paid_hash@,
                paid_under(all, key@) == paid_under(all.skip(i as int), key@),
            decreases all.len() - i,
        {
            assert(all.skip(i as int).skip(1) =~= all.skip(i + 1));
            if text_eq(self.paid_hash[i].key.as_str(), key) {
                return Some(&self.paid_hash[i].values);
            }
            i = i + 1;
        }
        None
    }

    pub fn find_param(&self, name: &str) -> (r: Option<&NumericParamIr>)
        ensures
            r is Some == param_named(self.numeric_params@, name@) is Some,
            r matches Some(v) ==> param_named(self.numeric_params@, name@) == Some(*v),
    {
        let mut i: usize = 0;
        let ghost all = self.numeric_params@;
        assert(all.skip(0) =~= all);
        while i < self.numeric_params.len()
            invariant
                i <= all.len(),
                all == self.numeric_params@,
                param_named(all, name@) == param_named(all.skip(i as int), name@),
            decreases all.len() - i,
        {
            assert(all.skip(i as int).skip(1) =~= all.skip(i + 1));
            if text_eq(self.numeric_params[i].name.as_str(), name) {
                return Some(&self.numeric_params[i].value);
            }
            i = i + 1;
        }
        None
    }

    /// An ability with nothing but a source and a player.
    pub fn new_empty(source: Option<CardId>, activating_player: PlayerId) -> (r: SpellAbility)
        ensures
            r@ == no_ability(source, activating_player),
            r.numeric_params@.len() == 0,
    {
        SpellAbility {
            id: 0,
            source,
            activating_player,
            x_mana_cost_paid: 0,
            kicked: false,
            kick_count: 0,
            optional_costs: Vec::new(),
            optional_generic_cost_paid: false,
            uses_targeting: false,
            targets: Targets {
                target_card: None,
                target_player: None,
                all_target_cards: Vec::new(),
                target_spell_source: None,
            },
            parent_targeting_card: None,
            discarded_cost_cards: Vec::new(),
            paid_hash: Vec::new(),
            svars: Vec::new(),
            numeric_params: Vec::new(),
            etb: false,
            unlinked_from_cast: false,
            trigger_objects: Vec::new(),
            trigger_remembered: Vec::new(),
            trigger_remembered_amount: 0,
            trigger_source: None,
            trigger_index: None,
            triggered_card_lki: Vec::new(),
            defined_spells: Vec::new(),
            counters_added: Vec::new(),
            sub_ability: None,
            trigger_spawning_ability: None,
        }
    }

    /// An ability from its script: every parameter can be read as a number.
    pub fn new_simple(source: Option<CardId>, activating_player: PlayerId, raw: &str) -> (r:
        SpellAbility)
        ensures
            r@ == (AbilityView {
                numeric_params: r.numeric_params@,
                ..no_ability(source, activating_player)
            }),
            forall|name: Seq<char>|
                match crate::parsing::params::found(
                    crate::parsing::params::params_of(raw@),
                    name,
                ) {
                    Some(v) => #[trigger] param_named(r.numeric_params@, name) matches Some(p)
                        && is_raw_param(p, v),
                    None => param_named(r.numeric_params@, name) is None,
                },
    {
        let params = Params::from_raw(raw);
        let pairs = params.iter();
        let mut numeric_params: Vec<NumericParam> = Vec::new();
        let mut i: usize = 0;
        while i < pairs.len()
            invariant
                i <= pairs@.len(),
                numeric_params@.len() == i,
                forall|k: int|
                    0 <= k < i ==> (#[trigger] numeric_params@[k]).name@ == pairs@[k].0@
                        && is_raw_param(numeric_params@[k].value, pairs@[k].1@),
            decreases pairs@.len() - i,
        {
            numeric_params.push(
                NumericParam {
                    name: pairs[i].0.to_owned(),
                    value: NumericParamIr::Raw(pairs[i].1.to_owned()),
                },
            );
            i = i + 1;
        }
        let mut out = SpellAbility::new_empty(source, activating_player);
        out.numeric_params = numeric_params;
        proof {
            assert forall|name: Seq<char>|
                match crate::parsing::params::found(params@, name) {
                    Some(v) => #[trigger] param_named(out.numeric_params@, name) matches Some(p)
                        && is_raw_param(p, v),
                    None => param_named(out.numeric_params@, name) is None,
                } by {
                lemma_param_named(out.numeric_params@, name);
                if params@.dom().contains(name) {
                    let j = choose|j: int| 0 <= j < pairs@.len() && (#[trigger] pairs@[j]).0@ == name;
                    assert(out.numeric_params@[j].name@ == name);
                }
            }
        }
        out
    }

    pub fn get_s_var<'a>(&'a self, game: &'a GameState, name: &str) -> (r: Option<&'a str>)
        ensures
            text_of(r) == self@.svar(*game, name@),
    {
        if let Some(v) = find_svar(&self.svars, name) {
            return Some(v);
        }
        match self.source {
            Some(id) => match game.card(id) {
                Some(c) => c.get_s_var(name),
                None => None,
            },
            None => None,
        }
    }
}

proof fn lemma_param_named(v: Seq<NumericParam>, name: Seq<char>)
    ensures
        param_named(v, name) is None ==> forall|k: int|
            0 <= k < v.len() ==> (#[trigger] v[k]).name@ != name,
        param_named(v, name) matches Some(p) ==> exists|k: int|
            0 <= k < v.len() && (#[trigger] v[k]).name@ == name && v[k].value == p,
    decreases v.len(),
{
    if v.len() > 0 {
        lemma_param_named(v.skip(1), name);
        if v[0].name@ == name {
            assert(v[0].value == v[0].value);
        } else {
            let w = v.skip(1);
            if param_named(w, name) is None {
                assert forall|k: int| 0 <= k < v.len() implies (#[trigger] v[k]).name@ != name by {
                    if k > 0 {
                        assert(w[k - 1] == v[k]);
                    }
                }
            } else {
                let k = choose|k: int|
                    0 <= k < w.len() && (#[trigger] w[k]).name@ == name && w[k].value
                        == param_named(w, name)->0;
                assert(v[k + 1].name@ == name);
            }
        }
    }
}

} // verus!
