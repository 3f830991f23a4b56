//! Triggers of spells and abilities that are cast or copied.

use vstd::prelude::*;
use crate::game::{svar_value, Card, GameState};
use crate::parsing::params::{found, string_of, Params};
use crate::spell::{no_ability, SpellAbility};
use crate::svar::count::{cut_operator, operator_cut};
use crate::svar::eval::{numeric, resolve_numeric_value};
use crate::svar::simple::{compare_expr, compared_with};
use crate::text::{
    after_mark, before_mark, eq_ignore_case, has_prefix, number_text, pieces, push_text,
    same_ignoring_case, split, split_or_all, strip_prefix, text_eq, trim, trimmed, write_number,
};
use crate::trigger::common::{
    add_labelled, labelled, number_of, object_shown, passes, player_passes, put_card, put_player,
    put_some_number, with_card, with_number, with_player, RunParams, Trigger, TriggerBehavior,
    TriggerType, ValueView,
};
use crate::types::{AbilityKey, CardId, PlayerId};

verus! {

pub struct TriggerSpellAbilityCastOrCopy {
    pub trigger_type: TriggerType,
    pub valid_card: Option<String>,
    pub valid_activating_player: Option<String>,
    pub valid_sa: Option<String>,
    pub valid_sa_on_card: Option<String>,
}

/// The kind of trigger that a mode names.
pub open spec fn mode_named(mode: Seq<char>) -> Option<TriggerType> {
    if mode == "SpellCast"@ {
        Some(TriggerType::SpellCast)
    } else if mode == "AbilityCast"@ {
        Some(TriggerType::AbilityCast)
    } else if mode == "SpellAbilityCast"@ {
        Some(TriggerType::SpellAbilityCast)
    } else if mode == "SpellCastOrCopy"@ {
        Some(TriggerType::SpellCastOrCopy)
    } else if mode == "SpellCopied"@ {
        Some(TriggerType::SpellCopied)
    } else if mode == "SpellAbilityCopy"@ {
        Some(TriggerType::SpellAbilityCopy)
    } else if mode == "SpellCopy"@ {
        Some(TriggerType::SpellCopy)
    } else if mode == "SpellCastAll"@ {
        Some(TriggerType::SpellCastAll)
    } else if mode == "SpellCastOnce"@ {
        Some(TriggerType::SpellCastOnce)
    } else if mode == "SpellCastOfType"@ {
        Some(TriggerType::SpellCastOfType)
    } else {
        None
    }
}

/// The kind of trigger that a mode names, where it is one of casting or copying.
pub fn cast_mode(mode: &str) -> (r: Option<TriggerType>)
    ensures
        r == mode_named(mode@),
{
    if text_eq(mode, "SpellCast") {
        Some(TriggerType::SpellCast)
    } else if text_eq(mode, "AbilityCast") {
        Some(TriggerType::AbilityCast)
    } else if text_eq(mode, "SpellAbilityCast") {
        Some(TriggerType::SpellAbilityCast)
    } else if text_eq(mode, "SpellCastOrCopy") {
        Some(TriggerType::SpellCastOrCopy)
    } else if text_eq(mode, "SpellCopied") {
        Some(TriggerType::SpellCopied)
    } else if text_eq(mode, "SpellAbilityCopy") {
        Some(TriggerType::SpellAbilityCopy)
    } else if text_eq(mode, "SpellCopy") {
        Some(TriggerType::SpellCopy)
    } else if text_eq(mode, "SpellCastAll") {
        Some(TriggerType::SpellCastAll)
    } else if text_eq(mode, "SpellCastOnce") {
        Some(TriggerType::SpellCastOnce)
    } else if text_eq(mode, "SpellCastOfType") {
        Some(TriggerType::SpellCastOfType)
    } else {
        None
    }
}

impl TriggerSpellAbilityCastOrCopy {
    /// The trigger of a mode that is one of casting or copying.
    pub fn parse(mode_str: &str, params: &Params) -> (r: TriggerSpellAbilityCastOrCopy)
        requires
            params.wf(),
            mode_named(mode_str@) is Some,
        ensures
            mode_named(mode_str@) == Some(r.trigger_type),
            string_of(r.valid_card) == found(params@, "ValidCard"@),
            string_of(r.valid_activating_player) == found(params@, "ValidActivatingPlayer"@),
            string_of(r.valid_sa) == found(params@, "ValidSA"@),
            string_of(r.valid_sa_on_card) == found(params@, "ValidSAonCard"@),
    {
        TriggerSpellAbilityCastOrCopy {
            trigger_type: match cast_mode(mode_str) {
                Some(k) => k,
                None => TriggerType::SpellCast,
            },
            valid_card: params.get_cloned("ValidCard"),
            valid_activating_player: params.get_cloned("ValidActivatingPlayer"),
            valid_sa: params.get_cloned("ValidSA"),
            valid_sa_on_card: params.get_cloned("ValidSAonCard"),
        }
    }
}

// ---- the ability that is cast, held against its own card ----

/// The condition that a number of spent mana has to meet: an operator and a number, which may be a
/// script variable of the host.
pub open spec fn mana_condition(game: GameState, t: Trigger, cast: Card, rest: Seq<char>) -> Seq<char> {
    let cut = operator_cut(rest);
    let amount = rest.skip(cut);
    let expr = match game.card_at(t.host) {
        Some(host) => match svar_value(host.svars@, amount) {
            Some(v) => v,
            None => amount,
        },
        None => amount,
    };
    rest.take(cut) + number_text(
        numeric(game, no_ability(Some(cast.id), cast.controller), expr, 0) as int,
    )
}

/// Whether the card that is cast has a property.
pub open spec fn has_property(
    game: GameState,
    t: Trigger,
    cast: Card,
    ability: u32,
    base: Seq<char>,
    property: Seq<char>,
) -> bool {
    if has_prefix(property, "ManaSpent "@) {
        compared_with(
            cast.paying_mana_to_cast@.len() as i32,
            mana_condition(game, t, cast, property.skip("ManaSpent "@.len() as int)),
        )
    } else if same_ignoring_case(property, "YouCtrl"@) || same_ignoring_case(property, "OppCtrl"@) {
        game.facts.matches_ability(base + "."@ + property, ability, cast.id)
    } else {
        game.facts.matches_card("Card."@ + property, cast.id, cast.controller, cast.id)
    }
}

fn check_property(
    game: &GameState,
    t: &Trigger,
    cast: &Card,
    ability: u32,
    base: &str,
    property: &str,
) -> (r: bool)
    ensures
        r == has_property(*game, *t, *cast, ability, base@, property@),
{
    if let Some(rest) = strip_prefix(property, "ManaSpent ") {
        let (operator, amount) = cut_operator(rest);
        let expr = match game.card(t.host) {
            Some(host) => match host.get_s_var(amount) {
                Some(v) => v,
                None => amount,
            },
            None => amount,
        };
        let sa = SpellAbility::new_empty(Some(cast.id), cast.controller);
        let y: i32 = resolve_numeric_value(game, &sa, expr, 0);
        let mut condition = operator.to_string();
        let number = write_number(y as i64);
        push_text(&mut condition, number.as_str());
        return compare_expr(cast.paying_mana_to_cast.len() as i32, condition.as_str());
    }
    if eq_ignore_case(property, "YouCtrl") || eq_ignore_case(property, "OppCtrl") {
        let mut filter = base.to_string();
        push_text(&mut filter, ".");
        push_text(&mut filter, property);
        game.facts.ability_matches_filter(filter.as_str(), ability, cast.id)
    } else {
        let mut selector = "Card.".to_string();
        push_text(&mut selector, property);
        game.facts.card_matches_selector(selector.as_str(), cast.id, cast.controller, cast.id)
    }
}

/// Whether the card that is cast has all properties of a list; empty ones do not count.
pub open spec fn has_properties(
    game: GameState,
    t: Trigger,
    cast: Card,
    ability: u32,
    base: Seq<char>,
    parts: Seq<Seq<char>>,
) -> bool {
    forall|i: int|
        0 <= i < parts.len() && trimmed(#[trigger] parts[i]).len() > 0 ==> has_property(
            game,
            t,
            cast,
            ability,
            base,
            trimmed(parts[i]),
        )
}

fn check_properties(
    game: &GameState,
    t: &Trigger,
    cast: &Card,
    ability: u32,
    base: &str,
    text: &str,
) -> (r: bool)
    ensures
        r == has_properties(*game, *t, *cast, ability, base@, pieces(text@, "+"@)),
{
    proof {
        reveal_strlit("+");
    }
    let parts = split(text, "+");
    let ghost all = pieces(text@, "+"@);
    let mut i: usize = 0;
    while i < parts.len()
        invariant
            i <= parts@.len(),
            all == pieces(text@, "+"@),
            all == crate::text::views(parts@),
            forall|k: int|
                0 <= k < i && trimmed(#[trigger] all[k]).len() > 0 ==> has_property(
                    *game,
                    *t,
                    *cast,
                    ability,
                    base@,
                    trimmed(all[k]),
                ),
        decreases parts@.len() - i,
    {
        assert(all[i as int] == parts@[i as int]@);
        let property = trim(parts[i]);
        if property.unicode_len() > 0 && !check_property(game, t, cast, ability, base, property) {
            assert(trimmed(all[i as int]).len() > 0);
            return false;
        }
        i = i + 1;
    }
    true
}

/// Whether an ability meets a restriction on the card that is cast.
pub open spec fn meets(
    game: GameState,
    t: Trigger,
    cast: Card,
    ability: u32,
    restriction: Seq<char>,
) -> bool {
    let base = before_mark(restriction, "."@);
    let properties = after_mark(restriction, "."@);
    game.facts.matches_ability(base, ability, cast.id) && has_properties(
        game,
        t,
        cast,
        ability,
        base,
        pieces(properties, "+"@),
    )
}

fn check_meets(
    game: &GameState,
    t: &Trigger,
    cast: &Card,
    ability: u32,
    restriction: &str,
) -> (r: bool)
    ensures
        r == meets(*game, *t, *cast, ability, restriction@),
{
    let (base, properties) = split_or_all(restriction, ".");
    game.facts.ability_matches_filter(base, ability, cast.id) && check_properties(
        game,
        t,
        cast,
        ability,
        base,
        properties,
    )
}

/// Whether an ability meets one restriction of a filter on the card that is cast.
pub open spec fn meets_one(
    game: GameState,
    t: Trigger,
    cast: Option<Card>,
    ability: u32,
    filter: Seq<char>,
) -> bool {
    cast matches Some(c) && exists|i: int|
        0 <= i < pieces(filter, ","@).len() && meets(
            game,
            t,
            c,
            ability,
            trimmed(#[trigger] pieces(filter, ","@)[i]),
        )
}

pub fn matches_valid_sa_on_card(
    game: &GameState,
    trigger: &Trigger,
    cast: CardId,
    ability: u32,
    filter: &str,
) -> (r: bool)
    ensures
        r == meets_one(*game, *trigger, game.card_at(cast), ability, filter@),
{
    let card = match game.card(cast) {
        Some(c) => c,
        None => {
            return false;
        },
    };
    proof {
        reveal_strlit(",");
    }
    let parts = split(filter, ",");
    let ghost all = pieces(filter@, ","@);
    let mut i: usize = 0;
    while i < parts.len()
        invariant
            i <= parts@.len(),
            all == pieces(filter@, ","@),
            all == crate::text::views(parts@),
            game.card_at(cast) == Some(*card),
            forall|k: int|
                0 <= k < i ==> !meets(
                    *game,
                    *trigger,
                    *card,
                    ability,
                    trimmed(#[trigger] all[k]),
                ),
        decreases parts@.len() - i,
    {
        assert(all[i as int] == parts@[i as int]@);
        if check_meets(game, trigger, card, ability, trim(parts[i])) {
            assert(meets(
                *game,
                *trigger,
                *card,
                ability,
                trimmed(pieces(filter@, ","@)[i as int]),
            ));
            return true;
        }
        i = i + 1;
    }
    false
}

// ---- the trigger ----

/// The first of two players that is there.
pub open spec fn either_player(a: Option<PlayerId>, b: Option<PlayerId>) -> Option<PlayerId> {
    if a is Some {
        a
    } else {
        b
    }
}

impl TriggerBehavior for TriggerSpellAbilityCastOrCopy {
    open spec fn kind(&self) -> TriggerType {
        self.trigger_type
    }

    open spec fn fires(&self, t: Trigger, p: RunParams, game: GameState) -> bool {
        &&& passes(game.facts, t, string_of(self.valid_card), p.spell_card)
        &&& string_of(self.valid_sa) matches Some(filter) ==> (p.spell_ability matches Some(
            sa,
        ) && game.facts.matches_ability(filter, sa, t.host))
        &&& string_of(self.valid_sa_on_card) matches Some(filter) ==> (p.spell_ability matches Some(
            sa,
        ) && (p.spell_card matches Some(cast) && meets_one(
            game,
            t,
            game.card_at(cast),
            sa,
            filter,
        )))
        &&& player_passes(
            game.facts,
            t,
            string_of(self.valid_activating_player),
            either_player(p.activator, p.spell_controller),
        )
    }

    open spec fn with_objects(
        &self,
        t: Trigger,
        p: RunParams,
        game: GameState,
        m: Map<AbilityKey, ValueView>,
    ) -> Map<AbilityKey, ValueView> {
        with_player(
            with_card(
                with_number(
                    with_card(m, AbilityKey::Card, p.spell_card),
                    AbilityKey::LifeAmount,
                    number_of(p.life_amount),
                ),
                AbilityKey::CardLKI,
                p.card_lki,
            ),
            AbilityKey::Activator,
            p.activator,
        )
    }

    open spec fn remembered(&self, t: Trigger, p: RunParams, game: GameState, before: i32) -> i32 {
        before
    }

    open spec fn stack_text(&self, m: Map<AbilityKey, ValueView>) -> Seq<char> {
        "Card: "@ + object_shown(m, AbilityKey::Card) + ", Activator: "@ + object_shown(
            m,
            AbilityKey::Activator,
        ) + ", SpellAbility: "@
    }

    fn trigger_type(&self) -> (r: TriggerType) {
        self.trigger_type
    }

    fn perform_test(&self, trigger: &Trigger, params: &RunParams, game: &GameState) -> (r: bool) {
        if !trigger.matches_optional_valid_card_filter(&self.valid_card, params.spell_card, game) {
            return false;
        }
        if let Some(filter) = &self.valid_sa {
            let met = match params.spell_ability {
                Some(sa) => game.facts.ability_matches_filter(filter.as_str(), sa, trigger.host),
                None => false,
            };
            if !met {
                return false;
            }
        }
        if let Some(filter) = &self.valid_sa_on_card {
            let met = match (params.spell_ability, params.spell_card) {
                (Some(sa), Some(cast)) => matches_valid_sa_on_card(
                    game,
                    trigger,
                    cast,
                    sa,
                    filter.as_str(),
                ),
                _ => false,
            };
            if !met {
                return false;
            }
        }
        let player = if params.activator.is_some() {
            params.activator
        } else {
            params.spell_controller
        };
        trigger.matches_optional_valid_player_filter(&self.valid_activating_player, player, game)
    }

    fn set_triggering_objects(
        &self,
        trigger: &Trigger,
        sa: &mut SpellAbility,
        params: &RunParams,
        game: &GameState,
    ) {
        put_card(sa, AbilityKey::Card, params.spell_card);
        put_some_number(sa, AbilityKey::LifeAmount, params.life_amount);
        put_card(sa, AbilityKey::CardLKI, params.card_lki);
        put_player(sa, AbilityKey::Activator, params.activator);
    }

    fn get_important_stack_objects(&self, sa: &SpellAbility) -> (r: String) {
        let mut out = labelled("Card: ", sa, AbilityKey::Card);
        add_labelled(&mut out, ", Activator: ", sa, AbilityKey::Activator);
        push_text(&mut out, ", SpellAbility: ");
        out
    }
}

} // verus!
