//! Mana abilities and their costs as data.

use vstd::prelude::*;
use crate::game::GameState;
use crate::mana::atoms::ManaCostShard;
use crate::mana::cost::ManaCost;
use crate::mana::riders::ManaRiders;
use crate::types::{CardId, ZoneType};


verus! {

/// The mana that an ability produces. `atoms` are those of its text for the colors chosen on its
/// card; `fixed` those of an output of several that come together; `special_atoms` those that it
/// finds among permanents.
pub struct ProducedMana {
    pub text: String,
    pub combo_color_identity: bool,
    pub combo: bool,
    pub any_like: bool,
    pub fixed: Option<Vec<u16>>,
    pub special: bool,
    pub special_atoms: Vec<u16>,
    pub atoms: Vec<u16>,
}

/// A part of an activation cost. Amounts are those of the current state.
pub enum CostPart {
    Tap,
    Untap,
    Mana { cost: ManaCost },
    PayLife(i32),
    PayEnergy(i32),
    SubCounter { amount: i32, counter_type: String },
    AddCounter { counter_type: String },
    Sacrifice { type_filter: String, amount: i32 },
    Exile { amount: i32, from: ZoneType, type_filter: String, of_source: bool },
    CollectEvidence(i32),
    TapType { amount: i32, type_filter: String, min_total_power: Option<i32>, can_tap_source: bool },
    UntapType,
    Reveal,
    Unattach,
    FlipCoin,
    RollDice,
    Discard,
    Other,
}

/// An activated ability. `other_costs_payable` says whether its costs can be paid, but for mana
/// and for tapping; `script_requirements_met` whether its script lets it be activated.
pub struct ActivatedAbility {
    pub ability_index: usize,
    pub is_mana_ability: bool,
    pub is_mana_reflected: bool,
    pub activation_zone: Option<ZoneType>,
    pub cost: Vec<CostPart>,
    pub other_costs_payable: bool,
    pub script_requirements_met: bool,
    pub restrict_valid: Option<String>,
    pub amount: Option<String>,
    pub produced: Option<ProducedMana>,
    pub reflected_atoms: Vec<u16>,
    pub reflected_available_atoms: Vec<u16>,
    pub replaced_atoms: Vec<u16>,
    pub sub_ability: Option<String>,
    pub ai_logic: Option<String>,
    pub riders: ManaRiders,
    pub ability_text: String,
    pub cost_text: String,
    pub prompt_mana: Vec<String>,
    pub prompt_amount: i32,
}

/// A mana ability of a source, as a way to pay. A land that makes mana by its types has no ability
/// index.
pub struct ManaAbilityRef {
    pub card_id: CardId,
    pub ability_index: Option<usize>,
    pub atoms: Vec<u16>,
    pub amount: i32,
    pub mana_text: String,
    pub combo_color_identity: bool,
    pub combo: bool,
    pub any_like: bool,
    pub special: bool,
    pub fixed: Option<Vec<u16>>,
    pub special_atoms: Vec<u16>,
    pub source_order: usize,
}

#[verifier::ext_equal]
pub struct RefView {
    pub card_id: CardId,
    pub ability_index: Option<usize>,
    pub atoms: Seq<u16>,
    pub amount: i32,
    pub mana_text: Seq<char>,
    pub combo_color_identity: bool,
    pub combo: bool,
    pub any_like: bool,
    pub special: bool,
    pub fixed: Option<Seq<u16>>,
    pub special_atoms: Seq<u16>,
    pub source_order: usize,
}

pub open spec fn atoms_of(v: Option<Vec<u16>>) -> Option<Seq<u16>> {
    match v {
        Some(a) => Some(a@),
        None => None,
    }
}

impl View for ManaAbilityRef {
    type V = RefView;

    open spec fn view(&self) -> RefView {
        RefView {
            card_id: self.card_id,
            ability_index: self.ability_index,
            atoms: self.atoms@,
            amount: self.amount,
            mana_text: self.mana_text@,
            combo_color_identity: self.combo_color_identity,
            combo: self.combo,
            any_like: self.any_like,
            special: self.special,
            fixed: atoms_of(self.fixed),
            special_atoms: self.special_atoms@,
            source_order: self.source_order,
        }
    }
}

/// The views of mana abilities.
pub open spec fn ref_views(v: Seq<ManaAbilityRef>) -> Seq<RefView> {
    Seq::new(v.len(), |i: int| v[i]@)
}

/// Whether one of some atoms pays a symbol.
pub open spec fn any_pays(atoms: Seq<u16>, shard: ManaCostShard) -> bool {
    exists|i: int| 0 <= i < atoms.len() && shard.payable_with(#[trigger] atoms[i])
}

impl RefView {
    /// Whether an ability makes no mana for want of a commander.
    pub open spec fn empty_identity(self) -> bool {
        self.combo_color_identity && self.atoms.len() == 0
    }

    /// Whether an ability counts as a way to pay a symbol. One that makes no mana for want of a
    /// commander counts for generic symbols.
    pub open spec fn pays(self, shard: ManaCostShard) -> bool {
        (self.empty_identity() && shard.generic_like()) || any_pays(self.atoms, shard)
    }

    /// The atoms that an ability always makes together.
    pub open spec fn fixed_output(self) -> Option<Seq<u16>> {
        match self.fixed {
            Some(atoms) => Some(atoms),
            None => if self.special && self.special_atoms.len() > 0 {
                Some(self.special_atoms)
            } else {
                None
            },
        }
    }
}

impl ManaAbilityRef {
    pub fn can_pay_shard(&self, shard: ManaCostShard) -> (r: bool)
        ensures
            r == self@.pays(shard),
    {
        if self.combo_color_identity && self.atoms.len() == 0 && shard.is_generic() {
            return true;
        }
        let mut i: usize = 0;
        while i < self.atoms.len()
            invariant
                i <= self.atoms@.len(),
                forall|k: int| 0 <= k < i ==> !shard.payable_with(#[trigger] self.atoms@[k]),
            decreases self.atoms@.len() - i,
        {
            if shard.can_be_paid_with(self.atoms[i]) {
                assert(shard.payable_with(self.atoms@[i as int]));
                return true;
            }
            i = i + 1;
        }
        false
    }

    /// The atoms that come out whatever is chosen.
    pub fn find_fixed_output(&self) -> (r: Option<&Vec<u16>>)
        ensures
            match r {
                Some(v) => self@.fixed_output() == Some(v@),
                None => self@.fixed_output() is None,
            },
    {
        match &self.fixed {
            Some(atoms) => Some(atoms),
            None => if self.special && self.special_atoms.len() > 0 {
                Some(&self.special_atoms)
            } else {
                None
            },
        }
    }

    pub fn is_empty_identity(&self) -> (r: bool)
        ensures
            r == self@.empty_identity(),
    {
        self.combo_color_identity && self.atoms.len() == 0
    }
}

/// The ability with an index.
pub open spec fn ability_indexed(v: Seq<ActivatedAbility>, index: usize) -> Option<ActivatedAbility>
    decreases v.len(),
{
    if v.len() == 0 {
        None
    } else if v[0].ability_index == index {
        Some(v[0])
    } else {
        ability_indexed(v.skip(1), index)
    }
}

pub fn find_ability<'a>(v: &'a Vec<ActivatedAbility>, index: usize) -> (r: Option<
    &'a ActivatedAbility,
>)
    ensures
        match r {
            Some(a) => ability_indexed(v@, index) == Some(*a),
            None => ability_indexed(v@, index) is None,
        },
{
    let mut i: usize = 0;
    assert(v@.skip(0) =~= v@);
    while i < v.len()
        invariant
            i <= v@.len(),
            ability_indexed(v@, index) == ability_indexed(v@.skip(i as int), index),
        decreases v@.len() - i,
    {
        assert(v@.skip(i as int).skip(1) =~= v@.skip(i + 1));
        if v[i].ability_index == index {
            return Some(&v[i]);
        }
        i = i + 1;
    }
    None
}

/// The ability that a way to pay uses.
pub open spec fn ability_used(game: GameState, card: CardId, index: Option<usize>) -> Option<
    ActivatedAbility,
> {
    match (index, game.card_at(card)) {
        (Some(i), Some(c)) => ability_indexed(c.activated_abilities@, i),
        _ => None,
    }
}

pub fn mana_ability_of<'a>(game: &'a GameState, card: CardId, index: Option<usize>) -> (r: Option<
    &'a ActivatedAbility,
>)
    ensures
        match r {
            Some(a) => ability_used(*game, card, index) == Some(*a),
            None => ability_used(*game, card, index) is None,
        },
{
    match index {
        Some(i) => match game.card(card) {
            Some(c) => find_ability(&c.activated_abilities, i),
            None => None,
        },
        None => None,
    }
}

/// Whether a cost has a tap symbol.
pub open spec fn has_tap(cost: Seq<CostPart>) -> bool {
    exists|i: int| 0 <= i < cost.len() && (#[trigger] cost[i]) is Tap
}

pub fn check_tap(cost: &Vec<CostPart>) -> (r: bool)
    ensures
        r == has_tap(cost@),
{
    let mut i: usize = 0;
    while i < cost.len()
        invariant
            i <= cost@.len(),
            forall|k: int| 0 <= k < i ==> !((#[trigger] cost@[k]) is Tap),
        decreases cost@.len() - i,
    {
        if let CostPart::Tap = &cost[i] {
            assert(cost@[i as int] is Tap);
            return true;
        }
        i = i + 1;
    }
    false
}

/// Whether a cost has mana in it.
pub open spec fn has_mana(cost: Seq<CostPart>) -> bool {
    exists|i: int| 0 <= i < cost.len() && (#[trigger] cost[i]) is Mana
}

pub fn check_mana(cost: &Vec<CostPart>) -> (r: bool)
    ensures
        r == has_mana(cost@),
{
    let mut i: usize = 0;
    while i < cost.len()
        invariant
            i <= cost@.len(),
            forall|k: int| 0 <= k < i ==> !((#[trigger] cost@[k]) is Mana),
        decreases cost@.len() - i,
    {
        if let CostPart::Mana { .. } = &cost[i] {
            assert(cost@[i as int] is Mana);
            return true;
        }
        i = i + 1;
    }
    false
}

/// Whether a part of a cost uses nothing up for good.
pub open spec fn is_reusable(part: CostPart) -> bool {
    match part {
        CostPart::Tap
        | CostPart::Untap
        | CostPart::Mana { .. }
        | CostPart::TapType { .. }
        | CostPart::UntapType
        | CostPart::Reveal
        | CostPart::Unattach
        | CostPart::FlipCoin
        | CostPart::RollDice => true,
        CostPart::AddCounter { counter_type } => counter_type@ != "M1M1"@,
        _ => false,
    }
}

pub open spec fn all_reusable(parts: Seq<CostPart>) -> bool {
    forall|i: int| 0 <= i < parts.len() ==> is_reusable(#[trigger] parts[i])
}

/// Says whether a cost uses nothing up for good.
pub fn is_reusable_resource(parts: &Vec<CostPart>) -> (r: bool)
    ensures
        r == all_reusable(parts@),
{
    let mut i: usize = 0;
    while i < parts.len()
        invariant
            i <= parts@.len(),
            forall|k: int| 0 <= k < i ==> is_reusable(#[trigger] parts@[k]),
        decreases parts@.len() - i,
    {
        let ok = match &parts[i] {
            CostPart::Tap => true,
            CostPart::Untap => true,
            CostPart::Mana { .. } => true,
            CostPart::TapType { .. } => true,
            CostPart::UntapType => true,
            CostPart::Reveal => true,
            CostPart::Unattach => true,
            CostPart::FlipCoin => true,
            CostPart::RollDice => true,
            CostPart::AddCounter { counter_type } => !crate::text::text_eq(
                counter_type.as_str(),
                "M1M1",
            ),
            _ => false,
        };
        if !ok {
            assert(!is_reusable(parts@[i as int]));
            return false;
        }
        i = i + 1;
    }
    true
}

} // verus!
