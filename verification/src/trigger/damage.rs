//! Triggers of damage.

use vstd::prelude::*;
use crate::game::{Facts, GameState};
use crate::lists::{copy_cards, has_card, option_cards};
use crate::parsing::params::{found, string_of, Params};
use crate::replacement::damage_map::DamageEntry;
use crate::spell::{AbilityValue, SpellAbility};
use crate::svar::simple::{compare_expr, compared_with};
use crate::text::{cut_two_bytes, two_bytes};
use crate::trigger::common::{
    add_labelled, check_one_passes, labelled, list_of, number_of, object_shown, one_passes, passes,
    put, put_card, put_number, put_player, put_some_number, read_bool, says_true, seen,
    target_passes, with_card, with_cards, with_number, with_player, RunParams, Trigger,
    TriggerBehavior, TriggerType, ValueView,
};
use crate::types::{AbilityKey, CardId, PlayerId};

verus! {

// ---- damage is dealt ----

pub struct TriggerDamageDone {
    pub valid_source: Option<String>,
    pub valid_target: Option<String>,
    pub combat_damage: Option<bool>,
}

impl TriggerDamageDone {
    pub fn parse(params: &Params) -> (r: TriggerDamageDone)
        requires
            params.wf(),
        ensures
            string_of(r.valid_source) == found(params@, "ValidSource"@),
            string_of(r.valid_target) == found(params@, "ValidTarget"@),
            r.combat_damage == says_true(found(params@, "CombatDamage"@)),
    {
        TriggerDamageDone {
            valid_source: params.get_cloned("ValidSource"),
            valid_target: params.get_cloned("ValidTarget"),
            combat_damage: read_bool(params.get("CombatDamage")),
        }
    }
}

/// Whether damage is of the kind that is wanted: in combat, or not.
pub open spec fn is_wanted_damage(wanted: Option<bool>, is_combat: Option<bool>) -> bool {
    wanted matches Some(w) ==> w == (is_combat == Some(true))
}

fn check_wanted_damage(wanted: Option<bool>, is_combat: Option<bool>) -> (r: bool)
    ensures
        r == is_wanted_damage(wanted, is_combat),
{
    match wanted {
        Some(w) => {
            let combat = match is_combat {
                Some(b) => b,
                None => false,
            };
            w == combat
        },
        None => true,
    }
}

/// The objects with what damage was dealt to.
pub open spec fn with_target(
    m: Map<AbilityKey, ValueView>,
    card: Option<CardId>,
    player: Option<PlayerId>,
) -> Map<AbilityKey, ValueView> {
    if card is Some {
        with_card(with_card(m, AbilityKey::Target, card), AbilityKey::TargetCard, card)
    } else {
        with_player(with_player(m, AbilityKey::Target, player), AbilityKey::TargetPlayer, player)
    }
}

fn put_target(sa: &mut SpellAbility, card: Option<CardId>, player: Option<PlayerId>)
    ensures
        seen(*final(sa)) == with_target(seen(*old(sa)), card, player),
        crate::trigger::common::only_objects(*old(sa), *final(sa)),
{
    if card.is_some() {
        put_card(sa, AbilityKey::Target, card);
        put_card(sa, AbilityKey::TargetCard, card);
    } else {
        put_player(sa, AbilityKey::Target, player);
        put_player(sa, AbilityKey::TargetPlayer, player);
    }
}

impl TriggerBehavior for TriggerDamageDone {
    open spec fn kind(&self) -> TriggerType {
        TriggerType::DamageDone
    }

    open spec fn fires(&self, t: Trigger, p: RunParams, game: GameState) -> bool {
        is_wanted_damage(self.combat_damage, p.is_combat_damage) && passes(
            game.facts,
            t,
            string_of(self.valid_source),
            p.damage_source,
        ) && target_passes(
            game.facts,
            t,
            string_of(self.valid_target),
            p.damage_target_card,
            p.damage_target_player,
        )
    }

    open spec fn with_objects(
        &self,
        t: Trigger,
        p: RunParams,
        game: GameState,
        m: Map<AbilityKey, ValueView>,
    ) -> Map<AbilityKey, ValueView> {
        with_player(
            with_number(
                with_target(
                    with_card(m, AbilityKey::Source, p.damage_source),
                    p.damage_target_card,
                    p.damage_target_player,
                ),
                AbilityKey::DamageAmount,
                number_of(p.damage_amount),
            ),
            AbilityKey::DefendingPlayer,
            p.defending_player,
        )
    }

    open spec fn remembered(&self, t: Trigger, p: RunParams, game: GameState, before: i32) -> i32 {
        before
    }

    open spec fn stack_text(&self, m: Map<AbilityKey, ValueView>) -> Seq<char> {
        "Damage Source: "@ + object_shown(m, AbilityKey::Source) + ", Damaged: "@ + object_shown(
            m,
            AbilityKey::Target,
        ) + ", Amount: "@ + object_shown(m, AbilityKey::DamageAmount)
    }

    fn trigger_type(&self) -> (r: TriggerType) {
        TriggerType::DamageDone
    }

    fn perform_test(&self, trigger: &Trigger, params: &RunParams, game: &GameState) -> (r: bool) {
        check_wanted_damage(self.combat_damage, params.is_combat_damage)
            && trigger.matches_optional_valid_card_filter(
            &self.valid_source,
            params.damage_source,
            game,
        ) && trigger.matches_damage_target_filter(&self.valid_target, params, game)
    }

    fn set_triggering_objects(
        &self,
        trigger: &Trigger,
        sa: &mut SpellAbility,
        params: &RunParams,
        game: &GameState,
    ) {
        put_card(sa, AbilityKey::Source, params.damage_source);
        put_target(sa, params.damage_target_card, params.damage_target_player);
        put_some_number(sa, AbilityKey::DamageAmount, params.damage_amount);
        put_player(sa, AbilityKey::DefendingPlayer, params.defending_player);
    }

    fn get_important_stack_objects(&self, sa: &SpellAbility) -> (r: String) {
        let mut out = labelled("Damage Source: ", sa, AbilityKey::Source);
        add_labelled(&mut out, ", Damaged: ", sa, AbilityKey::Target);
        add_labelled(&mut out, ", Amount: ", sa, AbilityKey::DamageAmount);
        out
    }
}

// ---- damage is dealt, all at once ----

pub struct TriggerDamageDoneOnce {
    pub valid_source: Option<String>,
    pub valid_target: Option<String>,
    pub combat_damage: Option<bool>,
    pub damage_amount_text: Option<String>,
}

/// The damage of the entries whose sources pass a filter.
pub open spec fn amount_from(
    facts: Facts,
    t: Trigger,
    filter: Option<Seq<char>>,
    entries: Seq<DamageEntry>,
) -> i32
    decreases entries.len(),
{
    if entries.len() == 0 {
        0
    } else {
        let before = amount_from(facts, t, filter, entries.drop_last());
        if passes(facts, t, filter, Some(entries.last().source)) {
            before.wrapping_add(entries.last().amount)
        } else {
            before
        }
    }
}

/// The sources of entries that pass a filter, each once.
pub open spec fn sources_from(
    facts: Facts,
    t: Trigger,
    filter: Option<Seq<char>>,
    entries: Seq<DamageEntry>,
) -> Seq<CardId>
    decreases entries.len(),
{
    if entries.len() == 0 {
        Seq::empty()
    } else {
        let before = sources_from(facts, t, filter, entries.drop_last());
        let source = entries.last().source;
        if passes(facts, t, filter, Some(source)) && !before.contains(source) {
            before.push(source)
        } else {
            before
        }
    }
}

/// The damage that counts for a trigger.
pub open spec fn counted_damage(facts: Facts, t: Trigger, filter: Option<Seq<char>>, p: RunParams) -> i32 {
    match p.damage_map {
        Some(map) => amount_from(facts, t, filter, map.entries@),
        None => if !passes(facts, t, filter, p.damage_source) {
            0
        } else {
            match p.damage_amount {
                Some(n) => n,
                None => 0,
            }
        },
    }
}

/// The sources that count for a trigger.
pub open spec fn counted_sources(
    facts: Facts,
    t: Trigger,
    filter: Option<Seq<char>>,
    p: RunParams,
) -> Seq<CardId> {
    match p.damage_map {
        Some(map) => sources_from(facts, t, filter, map.entries@),
        None => option_cards(p.damage_source),
    }
}

/// The condition on an amount; anything will do where none is written out.
pub open spec fn amount_condition(text: Seq<char>) -> Seq<char> {
    if two_bytes(text) is Some {
        text
    } else {
        "GE0"@
    }
}

impl TriggerDamageDoneOnce {
    pub fn parse(params: &Params) -> (r: TriggerDamageDoneOnce)
        requires
            params.wf(),
        ensures
            string_of(r.valid_source) == found(params@, "ValidSource"@),
            string_of(r.valid_target) == found(params@, "ValidTarget"@),
            r.combat_damage == says_true(found(params@, "CombatDamage"@)),
            string_of(r.damage_amount_text) == found(params@, "DamageAmount"@),
    {
        TriggerDamageDoneOnce {
            valid_source: params.get_cloned("ValidSource"),
            valid_target: params.get_cloned("ValidTarget"),
            combat_damage: read_bool(params.get("CombatDamage")),
            damage_amount_text: params.get_cloned("DamageAmount"),
        }
    }

    pub fn damage_amount(&self, trigger: &Trigger, params: &RunParams, game: &GameState) -> (r: i32)
        ensures
            r == counted_damage(game.facts, *trigger, string_of(self.valid_source), *params),
    {
        if let Some(map) = &params.damage_map {
            let ghost all = map.entries@;
            let mut n: i32 = 0;
            let mut i: usize = 0;
            while i < map.entries.len()
                invariant
                    i <= all.len(),
                    all == map.entries@,
                    n == amount_from(
                        game.facts,
                        *trigger,
                        string_of(self.valid_source),
                        all.take(i as int),
                    ),
                decreases all.len() - i,
            {
                assert(all.take(i + 1).drop_last() =~= all.take(i as int));
                if trigger.matches_optional_valid_card_filter(
                    &self.valid_source,
                    Some(map.entries[i].source),
                    game,
                ) {
                    n = n.wrapping_add(map.entries[i].amount);
                }
                i = i + 1;
            }
            assert(all.take(i as int) =~= all);
            return n;
        }
        if !trigger.matches_optional_valid_card_filter(
            &self.valid_source,
            params.damage_source,
            game,
        ) {
            return 0;
        }
        match params.damage_amount {
            Some(n) => n,
            None => 0,
        }
    }

    pub fn damage_sources(&self, trigger: &Trigger, params: &RunParams, game: &GameState) -> (r:
        Vec<CardId>)
        ensures
            r@ == counted_sources(game.facts, *trigger, string_of(self.valid_source), *params),
    {
        if let Some(map) = &params.damage_map {
            let ghost all = map.entries@;
            let mut out: Vec<CardId> = Vec::new();
            let mut i: usize = 0;
            while i < map.entries.len()
                invariant
                    i <= all.len(),
                    all == map.entries@,
                    out@ == sources_from(
                        game.facts,
                        *trigger,
                        string_of(self.valid_source),
                        all.take(i as int),
                    ),
                decreases all.len() - i,
            {
                assert(all.take(i + 1).drop_last() =~= all.take(i as int));
                let source = map.entries[i].source;
                if trigger.matches_optional_valid_card_filter(
                    &self.valid_source,
                    Some(source),
                    game,
                ) && !has_card(&out, source) {
                    out.push(source);
                }
                i = i + 1;
            }
            assert(all.take(i as int) =~= all);
            return out;
        }
        crate::lists::cards_of_option(params.damage_source)
    }
}

impl TriggerBehavior for TriggerDamageDoneOnce {
    open spec fn kind(&self) -> TriggerType {
        TriggerType::DamageDoneOnce
    }

    open spec fn fires(&self, t: Trigger, p: RunParams, game: GameState) -> bool {
        let dealt = counted_damage(game.facts, t, string_of(self.valid_source), p);
        &&& is_wanted_damage(self.combat_damage, p.is_combat_damage)
        &&& target_passes(
            game.facts,
            t,
            string_of(self.valid_target),
            p.damage_target_card,
            p.damage_target_player,
        )
        &&& string_of(self.damage_amount_text) matches Some(text) ==> compared_with(
            dealt,
            amount_condition(text),
        )
        &&& dealt > 0
    }

    open spec fn with_objects(
        &self,
        t: Trigger,
        p: RunParams,
        game: GameState,
        m: Map<AbilityKey, ValueView>,
    ) -> Map<AbilityKey, ValueView> {
        let filter = string_of(self.valid_source);
        let sources = counted_sources(game.facts, t, filter, p);
        let hit = with_target(m, p.damage_target_card, p.damage_target_player);
        let named = if sources.len() > 0 {
            with_cards(hit, AbilityKey::Sources, Some(sources))
        } else {
            hit
        };
        with_number(
            with_player(named, AbilityKey::AttackingPlayer, p.attacking_player),
            AbilityKey::DamageAmount,
            Some(counted_damage(game.facts, t, filter, p) as int),
        )
    }

    open spec fn remembered(&self, t: Trigger, p: RunParams, game: GameState, before: i32) -> i32 {
        before
    }

    open spec fn stack_text(&self, m: Map<AbilityKey, ValueView>) -> Seq<char> {
        let target = object_shown(m, AbilityKey::Target);
        if target.len() == 0 {
            "Amount: "@ + object_shown(m, AbilityKey::DamageAmount)
        } else {
            "Damaged: "@ + target + ", Amount: "@ + object_shown(m, AbilityKey::DamageAmount)
        }
    }

    fn trigger_type(&self) -> (r: TriggerType) {
        TriggerType::DamageDoneOnce
    }

    fn perform_test(&self, trigger: &Trigger, params: &RunParams, game: &GameState) -> (r: bool) {
        if !check_wanted_damage(self.combat_damage, params.is_combat_damage)
            || !trigger.matches_damage_target_filter(&self.valid_target, params, game) {
            return false;
        }
        let dealt: i32 = self.damage_amount(trigger, params, game);
        if let Some(text) = &self.damage_amount_text {
            let holds = if cut_two_bytes(text.as_str()).is_some() {
                compare_expr(dealt, text.as_str())
            } else {
                compare_expr(dealt, "GE0")
            };
            if !holds {
                return false;
            }
        }
        dealt > 0
    }

    fn set_triggering_objects(
        &self,
        trigger: &Trigger,
        sa: &mut SpellAbility,
        params: &RunParams,
        game: &GameState,
    ) {
        put_target(sa, params.damage_target_card, params.damage_target_player);
        let sources = self.damage_sources(trigger, params, game);
        if sources.len() > 0 {
            put(sa, AbilityKey::Sources, AbilityValue::Cards(sources));
        }
        put_player(sa, AbilityKey::AttackingPlayer, params.attacking_player);
        let amount: i32 = self.damage_amount(trigger, params, game);
        put_number(sa, AbilityKey::DamageAmount, amount as i64);
    }

    fn get_important_stack_objects(&self, sa: &SpellAbility) -> (r: String) {
        let target = crate::trigger::common::get_triggering_object_text(sa, AbilityKey::Target);
        if target.as_str().unicode_len() == 0 {
            labelled("Amount: ", sa, AbilityKey::DamageAmount)
        } else {
            let mut out = labelled("Damaged: ", sa, AbilityKey::Target);
            add_labelled(&mut out, ", Amount: ", sa, AbilityKey::DamageAmount);
            out
        }
    }
}

/// The damage of all entries.
pub open spec fn total_amount(entries: Seq<DamageEntry>) -> i32
    decreases entries.len(),
{
    if entries.len() == 0 {
        0
    } else {
        total_amount(entries.drop_last()).wrapping_add(entries.last().amount)
    }
}

/// The sources of all entries, each once.
pub open spec fn all_sources(entries: Seq<DamageEntry>) -> Seq<CardId>
    decreases entries.len(),
{
    if entries.len() == 0 {
        Seq::empty()
    } else {
        let before = all_sources(entries.drop_last());
        if before.contains(entries.last().source) {
            before
        } else {
            before.push(entries.last().source)
        }
    }
}

/// All damage that an event dealt.
pub fn get_damage_amount(params: &RunParams) -> (r: i32)
    ensures
        r == (match params.damage_map {
            Some(map) => total_amount(map.entries@),
            None => 0,
        }),
{
    match &params.damage_map {
        Some(map) => {
            let ghost all = map.entries@;
            let mut n: i32 = 0;
            let mut i: usize = 0;
            while i < map.entries.len()
                invariant
                    i <= all.len(),
                    all == map.entries@,
                    n == total_amount(all.take(i as int)),
                decreases all.len() - i,
            {
                assert(all.take(i + 1).drop_last() =~= all.take(i as int));
                n = n.wrapping_add(map.entries[i].amount);
                i = i + 1;
            }
            assert(all.take(i as int) =~= all);
            n
        },
        None => 0,
    }
}

/// All cards that dealt damage, each once.
pub fn get_damage_sources(params: &RunParams) -> (r: Vec<CardId>)
    ensures
        r@ == (match params.damage_map {
            Some(map) => all_sources(map.entries@),
            None => Seq::empty(),
        }),
{
    match &params.damage_map {
        Some(map) => {
            let ghost all = map.entries@;
            let mut out: Vec<CardId> = Vec::new();
            let mut i: usize = 0;
            while i < map.entries.len()
                invariant
                    i <= all.len(),
                    all == map.entries@,
                    out@ == all_sources(all.take(i as int)),
                decreases all.len() - i,
            {
                assert(all.take(i + 1).drop_last() =~= all.take(i as int));
                if !has_card(&out, map.entries[i].source) {
                    out.push(map.entries[i].source);
                }
                i = i + 1;
            }
            assert(all.take(i as int) =~= all);
            out
        },
        None => Vec::new(),
    }
}

/// Without a filter for sources, all damage of a batch counts, and all its sources.
pub proof fn law_all_damage_counts(facts: Facts, t: Trigger, entries: Seq<DamageEntry>)
    ensures
        amount_from(facts, t, None, entries) == total_amount(entries),
        sources_from(facts, t, None, entries) == all_sources(entries),
    decreases entries.len(),
{
    if entries.len() > 0 {
        law_all_damage_counts(facts, t, entries.drop_last());
    }
}

/// Each source of damage is named once.
pub proof fn law_sources_are_distinct(entries: Seq<DamageEntry>)
    ensures
        all_sources(entries).no_duplicates(),
    decreases entries.len(),
{
    if entries.len() > 0 {
        law_sources_are_distinct(entries.drop_last());
    }
}

// ---- excess damage ----

pub struct TriggerExcessDamageAll {
    pub valid_target: Option<String>,
    pub combat_damage: Option<bool>,
}

impl TriggerExcessDamageAll {
    pub fn parse(params: &Params) -> (r: TriggerExcessDamageAll)
        requires
            params.wf(),
        ensures
            string_of(r.valid_target) == found(params@, "ValidTarget"@),
            r.combat_damage == says_true(found(params@, "CombatDamage"@)),
    {
        TriggerExcessDamageAll {
            valid_target: params.get_cloned("ValidTarget"),
            combat_damage: read_bool(params.get("CombatDamage")),
        }
    }
}

impl TriggerBehavior for TriggerExcessDamageAll {
    open spec fn kind(&self) -> TriggerType {
        TriggerType::ExcessDamageAll
    }

    open spec fn fires(&self, t: Trigger, p: RunParams, game: GameState) -> bool {
        (self.combat_damage matches Some(w) ==> p.is_combat_damage == Some(w)) && (list_of(
            p.cards,
        ) matches Some(cards) && one_passes(game.facts, t, string_of(self.valid_target), cards))
    }

    open spec fn with_objects(
        &self,
        t: Trigger,
        p: RunParams,
        game: GameState,
        m: Map<AbilityKey, ValueView>,
    ) -> Map<AbilityKey, ValueView> {
        with_cards(m, AbilityKey::Targets, list_of(p.cards))
    }

    open spec fn remembered(&self, t: Trigger, p: RunParams, game: GameState, before: i32) -> i32 {
        before
    }

    open spec fn stack_text(&self, m: Map<AbilityKey, ValueView>) -> Seq<char> {
        "Damaged: "@ + object_shown(m, AbilityKey::Targets)
    }

    fn trigger_type(&self) -> (r: TriggerType) {
        TriggerType::ExcessDamageAll
    }

    fn perform_test(&self, trigger: &Trigger, params: &RunParams, game: &GameState) -> (r: bool) {
        if let Some(w) = self.combat_damage {
            let same = match params.is_combat_damage {
                Some(b) => b == w,
                None => false,
            };
            if !same {
                return false;
            }
        }
        match &params.cards {
            Some(cards) => check_one_passes(trigger, &self.valid_target, cards, game),
            None => false,
        }
    }

    fn set_triggering_objects(
        &self,
        trigger: &Trigger,
        sa: &mut SpellAbility,
        params: &RunParams,
        game: &GameState,
    ) {
        if let Some(cards) = &params.cards {
            put(sa, AbilityKey::Targets, AbilityValue::Cards(copy_cards(cards)));
        }
    }

    fn get_important_stack_objects(&self, sa: &SpellAbility) -> (r: String) {
        labelled("Damaged: ", sa, AbilityKey::Targets)
    }
}

/// The cards that an event dealt damage to.
pub fn get_damage_targets(params: &RunParams) -> (r: Vec<CardId>)
    ensures
        r@ == (match list_of(params.cards) {
            Some(cards) => cards,
            None => Seq::empty(),
        }),
{
    match &params.cards {
        Some(cards) => copy_cards(cards),
        None => Vec::new(),
    }
}

} // verus!
