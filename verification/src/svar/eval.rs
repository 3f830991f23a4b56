//! Evaluation of script expressions.
//!
//! An expression may name others, which are evaluated in turn, at most `MAX_SVAR_RESOLUTION_DEPTH`
//! deep; below that an expression is worth nothing.

use vstd::prelude::*;
use crate::game::{svar_value, GameState};
use crate::parsing::params::text_of;
use crate::spell::{
    find_number, no_ability, number_under, AbilityView, NamedSpell, NumericParamIr, SpellAbility,
};
use crate::svar::count::{count_plan, read_count, CountPlan, CountStep};
use crate::svar::defined::{
    defined_cards, remembered_by, remembered_of, resolve_defined_cards_for_svar,
    sacrificed_card_property_value, sacrificed_number,
};
use crate::svar::facts::{
    card_number, number_of_card, number_of_player, number_of_spell, player_number, spell_number,
};
use crate::svar::folds::{
    add_up, aggregated, cards_matching, count_valid_aggregate, exact_total, fold_of, fold_values,
    folded, greatest, least, lemma_bounds, lemma_total_exact, list_property_fold, matching, max_or, min_or, total,
};
use crate::svar::math::{operate, operated};
use crate::svar::scene::{
    defined_players, parse_trigger_int_values, resolve_defined_players, trigger_numbers_named, Scene, SceneView,
};
use crate::svar::simple::{
    check_prime, compare_numbers, compared, counted_players, discarded_value, evaluate_svar,
    holding, is_prime, list_counted_players, list_holding, list_lives, list_players_with, lives,
    paid_value, players_with, resolve_discarded_valid_svar, resolve_paid_hash_expr, simple_value,
};
use crate::text::{
    after_mark, all_digits, before_mark, contains, cut_two_bytes, digits_value, drop_prefix, ends_with, eq_ignore_case, has_part, has_prefix,
    has_suffix, int_value, lemma_digits_nonneg, lemma_end_stays, lemma_mark_between, lemma_no_mark,
    lemma_trimmed_stays, lowered, number_or, parse_i32, parse_or, piece_at_or, piece_or, pieces,
    same_ignoring_case, split, split_once, split_or_all, starts_with, strip_prefix, text_eq, trim,
    trimmed, two_bytes, views, without_prefix,
};
use crate::types::{CardId, PlayerId};

verus! {

/// How deep expressions may name each other.
pub const MAX_SVAR_RESOLUTION_DEPTH: u32 = 50;

/// A count of script variables, as far as it is kept.
pub open spec fn kept_count(n: nat) -> u32 {
    if n <= u32::MAX {
        n as u32
    } else {
        u32::MAX
    }
}

/// The script variables of a card.
pub open spec fn card_svars(game: GameState, source: Option<CardId>) -> nat {
    match source {
        Some(id) => match game.card_at(id) {
            Some(c) => c.svars@.len(),
            None => 0,
        },
        None => 0,
    }
}

/// How many script variables an ability, its source and the abilities that led to it have.
pub open spec fn ability_svars(game: GameState, sa: SpellAbility) -> u32
    decreases sa,
{
    kept_count(
        sa.svars@.len() + card_svars(game, sa.source) + match sa.trigger_spawning_ability {
            Some(spawner) => ability_svars(game, *spawner) as nat,
            None => 0,
        },
    )
}

/// How many values in a row may each name the next one without a level of their own: as many as
/// there are script variables to be named, and one. Only values that name themselves go further.
pub open spec fn value_hops(game: GameState, sa: AbilityView) -> u32 {
    kept_count(
        1 + sa.svars.len() + card_svars(game, sa.source) + match sa.trigger_spawning_ability {
            Some(spawner) => ability_svars(game, *spawner) as nat,
            None => 0,
        },
    )
}

fn count_card_svars(game: &GameState, source: Option<CardId>) -> (r: usize)
    ensures
        r == card_svars(*game, source),
{
    match source {
        Some(id) => match game.card(id) {
            Some(c) => c.svars.len(),
            None => 0,
        },
        None => 0,
    }
}

fn keep_count(n: u128) -> (r: u32)
    ensures
        r == kept_count(n as nat),
{
    if n <= u32::MAX as u128 {
        n as u32
    } else {
        u32::MAX
    }
}

fn count_ability_svars(game: &GameState, sa: &SpellAbility) -> (r: u32)
    ensures
        r == ability_svars(*game, *sa),
    decreases sa,
{
    let more: u32 = match &sa.trigger_spawning_ability {
        Some(spawner) => count_ability_svars(game, spawner),
        None => 0,
    };
    keep_count(
        sa.svars.len() as u128 + count_card_svars(game, sa.source) as u128 + more as u128,
    )
}

fn count_hops(game: &GameState, sa: &SpellAbility) -> (r: u32)
    ensures
        r == value_hops(*game, sa@),
{
    let more: u32 = match &sa.trigger_spawning_ability {
        Some(spawner) => count_ability_svars(game, spawner),
        None => 0,
    };
    keep_count(
        1 + sa.svars.len() as u128 + count_card_svars(game, sa.source) as u128 + more as u128,
    )
}

// ---- meaning ----

/// The value of an expression; nothing where the depth is used up.
pub open spec fn resolved(s: SceneView, depth: u32, t: Seq<char>) -> i32
    decreases depth, 0int, 0int, 0int,
{
    if depth == 0 {
        0
    } else {
        read(s, (depth - 1) as u32, value_hops(s.game, s.sa), trimmed(t))
    }
}

/// A number after its operator, whose operand may be an expression.
pub open spec fn after_math(s: SceneView, depth: u32, num: i32, operators: Seq<char>) -> i32
    decreases depth, 0int, 1int, 0int,
{
    if operators.len() == 0 {
        num
    } else {
        let parts = pieces(operators, "."@);
        let rhs = if parts.len() > 1 {
            match int_value(parts[1]) {
                Some(n) => n as i32,
                None => resolved(s, depth, parts[1]),
            }
        } else {
            0
        };
        operated(num, parts[0], rhs)
    }
}

/// A property of a spell, with the operator behind the first slash.
pub open spec fn spell_property(
    game: GameState,
    spell: SpellAbility,
    depth: u32,
    t: Seq<char>,
) -> i32
    decreases depth, 0int, 2int, 0int,
{
    match spell.source {
        None => 0,
        Some(source) => match game.card_at(source) {
            None => 0,
            Some(c) => {
                let parts = pieces(t, "/"@);
                after_math(
                    SceneView { game, source, you: spell.activating_player, sa: spell@ },
                    depth,
                    spell_number(c, parts[0], spell.x_mana_cost_paid),
                    piece_or(parts, 1, ""@),
                )
            },
        },
    }
}

pub open spec fn card_property(s: SceneView, depth: u32, id: CardId, t: Seq<char>) -> i32
    decreases depth, 0int, 2int, 0int,
{
    match s.game.card_at(id) {
        None => 0,
        Some(c) => {
            let parts = pieces(t, "/"@);
            after_math(
                s,
                depth,
                card_number(c, parts[0], s.sa.x_mana_cost_paid),
                piece_or(parts, 1, ""@),
            )
        },
    }
}

pub open spec fn player_property(s: SceneView, depth: u32, id: PlayerId, t: Seq<char>) -> i32
    decreases depth, 0int, 2int, 0int,
{
    let parts = pieces(t, "/"@);
    after_math(
        s,
        depth,
        player_number(s.game, id, parts[0], s.source, s.you),
        piece_or(parts, 1, ""@),
    )
}

/// A property of each card in a list.
pub open spec fn card_properties(s: SceneView, depth: u32, ids: Seq<CardId>, t: Seq<char>) -> Seq<i32>
    decreases depth, 0int, 3int, ids.len(),
{
    if ids.len() == 0 {
        Seq::empty()
    } else {
        card_properties(s, depth, ids.drop_last(), t).push(card_property(s, depth, ids.last(), t))
    }
}

pub open spec fn player_properties(s: SceneView, depth: u32, ids: Seq<PlayerId>, t: Seq<char>) -> Seq<
    i32,
>
    decreases depth, 0int, 3int, ids.len(),
{
    if ids.len() == 0 {
        Seq::empty()
    } else {
        player_properties(s, depth, ids.drop_last(), t).push(
            player_property(s, depth, ids.last(), t),
        )
    }
}

/// A property of each spell that goes by a name.
pub open spec fn spell_properties(
    game: GameState,
    spells: Seq<NamedSpell>,
    name: Seq<char>,
    depth: u32,
    t: Seq<char>,
) -> Seq<i32>
    decreases depth, 0int, 3int, spells.len(),
{
    if spells.len() == 0 {
        Seq::empty()
    } else {
        let before = spell_properties(game, spells.drop_last(), name, depth, t);
        if spells.last().name@ == name {
            before.push(spell_property(game, spells.last().ability, depth, t))
        } else {
            before
        }
    }
}

/// `<cards>$<property>`: nothing where the reference stands for no card.
pub open spec fn card_list_property(
    s: SceneView,
    depth: u32,
    defined: Seq<char>,
    property: Seq<char>,
) -> Option<i32>
    decreases depth, 0int, 4int, 0int,
{
    let cards = defined_cards(defined, s.game, s.source, s.sa);
    if cards.len() == 0 && defined != "AllTargeted"@ {
        None
    } else if has_prefix(property, "Valid "@) {
        let rest = property.skip("Valid "@.len() as int);
        let found = matching(s.game, cards, before_mark(rest, "/"@), s.source, s.you);
        Some(after_math(s, depth, found.len() as i32, after_mark(rest, "/"@)))
    } else {
        let (fold, what) = fold_of(property);
        Some(folded(fold, card_properties(s, depth, cards, what)))
    }
}

pub open spec fn card_list_value(s: SceneView, depth: u32, t: Seq<char>) -> Option<i32>
    decreases depth, 0int, 5int, 0int,
{
    if has_part(t, "$"@) {
        card_list_property(s, depth, before_mark(t, "$"@), after_mark(t, "$"@))
    } else {
        None
    }
}

/// `<players>$<property>`, added up.
pub open spec fn player_list_value(s: SceneView, depth: u32, t: Seq<char>) -> Option<i32>
    decreases depth, 0int, 5int, 0int,
{
    if has_part(t, "$"@) {
        let players = defined_players(s, before_mark(t, "$"@));
        if players.len() == 0 {
            None
        } else {
            Some(total(player_properties(s, depth, players, after_mark(t, "$"@))))
        }
    } else {
        None
    }
}

/// `<spells>$<property>`, added up.
pub open spec fn spell_list_value(s: SceneView, depth: u32, t: Seq<char>) -> Option<i32>
    decreases depth, 0int, 5int, 0int,
{
    if has_part(t, "$"@) {
        let values = spell_properties(
            s.game,
            s.sa.defined_spells,
            before_mark(t, "$"@),
            depth,
            after_mark(t, "$"@),
        );
        if values.len() == 0 {
            None
        } else {
            Some(total(values))
        }
    } else {
        None
    }
}

/// The operator of a condition on a player; at least one where there is none.
pub open spec fn condition_operator(lhs: Seq<char>) -> Seq<char> {
    match two_bytes(lhs) {
        Some(k) => lhs.take(k),
        None => "GE"@,
    }
}

pub open spec fn condition_operand(lhs: Seq<char>) -> Seq<char> {
    match two_bytes(lhs) {
        Some(k) => lhs.skip(k),
        None => "1"@,
    }
}

/// `PlayerCount<kind>$<property>[/<operators>]`.
pub open spec fn player_count(s: SceneView, depth: u32, t: Seq<char>) -> i32
    decreases depth, 0int, 5int, 0int,
{
    let kind = without_prefix(before_mark(t, "$"@), "PlayerCount"@);
    let property = before_mark(after_mark(t, "$"@), "/"@);
    let operators = after_mark(after_mark(t, "$"@), "/"@);
    let players = counted_players(s, kind);
    if !has_part(t, "$"@) || players.len() == 0 {
        0
    } else if same_ignoring_case(property, "Amount"@) {
        after_math(s, depth, players.len() as i32, operators)
    } else if has_prefix(property, "Highest"@) {
        let rest = property.skip("Highest"@.len() as int);
        after_math(s, depth, greatest(player_properties(s, depth, players, rest), 0), operators)
    } else if has_prefix(property, "Lowest"@) {
        let rest = property.skip("Lowest"@.len() as int);
        after_math(s, depth, least(player_properties(s, depth, players, rest), 0), operators)
    } else if same_ignoring_case(property, "TiedForHighestLife"@) {
        let all = lives(s.game, players);
        after_math(
            s,
            depth,
            holding(all, "EQ"@, greatest(all, i32::MIN)).len() as i32,
            operators,
        )
    } else if same_ignoring_case(property, "TiedForLowestLife"@) {
        let all = lives(s.game, players);
        after_math(s, depth, holding(all, "EQ"@, least(all, i32::MAX)).len() as i32, operators)
    } else if has_prefix(property, "HasProperty"@) {
        let rest = property.skip("HasProperty"@.len() as int);
        after_math(s, depth, players_with(s, players, rest).len() as i32, operators)
    } else if has_prefix(property, "Condition"@) && has_part(
        property.skip("Condition"@.len() as int),
        " "@,
    ) {
        let rest = property.skip("Condition"@.len() as int);
        let lhs = before_mark(rest, " "@);
        let values = player_properties(s, depth, players, after_mark(rest, " "@));
        after_math(
            s,
            depth,
            holding(
                values,
                condition_operator(lhs),
                resolved(s, depth, condition_operand(lhs)),
            ).len() as i32,
            operators,
        )
    } else {
        after_math(s, depth, total(player_properties(s, depth, players, property)), operators)
    }
}

/// `TriggerCount[Max]$<key>[/<operators>]`.
pub open spec fn trigger_count(s: SceneView, depth: u32, t: Seq<char>) -> i32
    decreases depth, 0int, 5int, 0int,
{
    let parts = pieces(after_mark(t, "$"@), "/"@);
    let values = trigger_numbers_named(s.sa, trimmed(parts[0]));
    after_math(
        s,
        depth,
        if has_suffix(before_mark(t, "$"@), "Max"@) {
            greatest(values, 0)
        } else {
            total(values)
        },
        piece_or(parts, 1, ""@),
    )
}

/// A script variable of the source by its name, or the text itself as an expression.
pub open spec fn amount(s: SceneView, depth: u32, t: Seq<char>) -> i32
    decreases depth, 0int, 1int, 0int,
{
    match source_svar(s, t) {
        Some(e) => resolved(s, depth, e),
        None => resolved(s, depth, t),
    }
}

pub open spec fn source_svar(s: SceneView, name: Seq<char>) -> Option<Seq<char>> {
    match s.game.card_at(s.source) {
        Some(c) => svar_value(c.svars@, name),
        None => None,
    }
}

pub open spec fn branch_amount(s: SceneView, depth: u32, t: Seq<char>) -> i32
    decreases depth, 0int, 2int, 0int,
{
    match int_value(t) {
        Some(n) => n as i32,
        None => amount(s, depth, t),
    }
}

/// What a count expression comes to.
pub open spec fn count_value(s: SceneView, depth: u32, hops: u32, t: Seq<char>) -> i32
    decreases depth, hops, 6int, 0int,
{
    match count_plan(s, t) {
        CountPlan::Players => player_count(s, depth, t),
        CountPlan::Cards { cards, property, operators } => after_math(
            s,
            depth,
            total(card_properties(s, depth, cards, property)),
            operators,
        ),
        CountPlan::Number { value, operators } => after_math(s, depth, value, operators),
        CountPlan::Branch { text, operators } => after_math(
            s,
            depth,
            resolved(s, depth, text),
            operators,
        ),
        CountPlan::Numeric { text } => if hops == 0 {
            0
        } else {
            numeric_value(s.game, s.sa, depth, (hops - 1) as u32, text, 0)
        },
        CountPlan::Prime { text, yes, no, operators } => after_math(
            s,
            depth,
            resolved(
                s,
                depth,
                if is_prime(resolved(s, depth, text) as int) {
                    yes
                } else {
                    no
                },
            ),
            operators,
        ),
        CountPlan::Choice { left, op, right, yes, no } => if compared(
            amount(s, depth, left),
            op,
            amount(s, depth, right),
        ) {
            branch_amount(s, depth, yes)
        } else {
            branch_amount(s, depth, no)
        },
    }
}

/// An expression with a form of its own; none for every other text.
pub open spec fn formed(s: SceneView, depth: u32, hops: u32, t: Seq<char>) -> Option<i32>
    decreases depth, hops, 7int, t.len(),
{
    if has_prefix(t, "Number$"@) {
        let parts = pieces(t.skip("Number$"@.len() as int), "/"@);
        Some(after_math(s, depth, number_or(trimmed(parts[0]), 0), piece_or(parts, 1, ""@)))
    } else if has_prefix(t, "Count$"@) || has_prefix(t, "TargetedObjects"@) {
        Some(count_value(s, depth, hops, t))
    } else if has_prefix(t, "PlayerCount"@) {
        Some(player_count(s, depth, t))
    } else if has_prefix(t, "TriggerCount$"@) || has_prefix(t, "TriggerCountMax$"@) {
        Some(trigger_count(s, depth, t))
    } else if has_prefix(t, "SVar$"@) {
        let rest = t.skip("SVar$"@.len() as int);
        match source_svar(s, before_mark(rest, "/"@)) {
            Some(e) => Some(after_math(s, depth, resolved(s, depth, e), after_mark(rest, "/"@))),
            None => None,
        }
    } else if has_prefix(t, "Remembered$"@) {
        let rest = t.skip("Remembered$"@.len() as int);
        Some(
            after_math(
                s,
                depth,
                aggregated(
                    s.game,
                    remembered_by(s.game, s.source),
                    before_mark(rest, "/"@),
                ),
                after_mark(rest, "/"@),
            ),
        )
    } else if has_prefix(t, "RememberedSize"@) {
        let rest = t.skip("RememberedSize"@.len() as int);
        Some(
            after_math(
                s,
                depth,
                remembered_by(s.game, s.source).len() as i32,
                if has_prefix(rest, "/"@) {
                    rest.skip("/"@.len() as int)
                } else {
                    ""@
                },
            ),
        )
    } else if has_prefix(t, "Discarded$Valid "@) {
        let rest = t.skip("Discarded$Valid "@.len() as int);
        let (filter, times) = crate::parsing::misc::multiplied(rest);
        Some(discarded_value(s.game, remembered_by(s.game, s.source), filter, times))
    } else if has_prefix(t, "Sacrificed$"@) {
        let rest = t.skip("Sacrificed$"@.len() as int);
        Some(
            after_math(
                s,
                depth,
                sacrificed_number(s.game, s.sa, before_mark(rest, "/"@)),
                after_mark(rest, "/"@),
            ),
        )
    } else if has_prefix(t, "TriggeredCard$"@) {
        let rest = t.skip("TriggeredCard$"@.len() as int);
        match number_under(s.sa.triggered_card_lki, before_mark(rest, "/"@)) {
            Some(n) => Some(after_math(s, depth, n, after_mark(rest, "/"@))),
            None => card_list_property(s, depth, "TriggeredCard"@, rest),
        }
    } else if has_prefix(t, "Spawner>"@) {
        proof {
            reveal_strlit("Spawner>");
        }
        match s.sa.trigger_spawning_ability {
            Some(spawner) => formed(
                SceneView { sa: spawner@, ..s },
                depth,
                hops,
                t.skip("Spawner>"@.len() as int),
            ),
            None => Some(0),
        }
    } else {
        None
    }
}

/// A trimmed expression: a number, a form, or a name.
pub open spec fn read(s: SceneView, depth: u32, hops: u32, t: Seq<char>) -> i32
    decreases depth, hops, 8int, 0int,
{
    if let Some(n) = int_value(t) {
        n as i32
    } else if let Some(v) = formed(s, depth, hops, t) {
        v
    } else if let Some(v) = paid_value(s, t) {
        v
    } else if let Some(v) = spell_list_value(s, depth, t) {
        v
    } else if let Some(v) = card_list_value(s, depth, t) {
        v
    } else if let Some(v) = number_under(s.sa.triggered_card_lki, t) {
        v
    } else if let Some(v) = player_list_value(s, depth, t) {
        v
    } else if let Some(e) = source_svar(s, t) {
        resolved(s, depth, e)
    } else {
        0
    }
}

/// What the script variable that a value names comes to.
pub open spec fn variable_value(s: SceneView, depth: u32, hops: u32, e: Seq<char>, is_x: bool) -> i32
    decreases depth, hops, 8int, 0int,
{
    if has_prefix(e, "Count$"@) {
        count_value(s, depth, hops, e)
    } else if has_prefix(e, "PlayerCount"@) {
        player_count(s, depth, e)
    } else if let Some(v) = paid_value(s, e) {
        v
    } else if is_x && (has_prefix(e, "TriggerCount$"@) || has_prefix(e, "TriggerCountMax$"@)) {
        trigger_count(s, depth, e)
    } else if let Some(v) = formed(s, depth, hops, e) {
        v
    } else if let Some(v) = spell_list_value(s, depth, e) {
        v
    } else if let Some(v) = card_list_value(s, depth, e) {
        v
    } else if let Some(v) = number_under(s.sa.triggered_card_lki, e) {
        v
    } else if !is_x && (simple_value(e, s.sa) != 0 || has_prefix(e, "Number$"@)) {
        simple_value(e, s.sa)
    } else if let Some(v) = player_list_value(s, depth, e) {
        v
    } else {
        simple_value(e, s.sa)
    }
}

/// The text of a value behind its sign.
pub open spec fn unsigned_text(t: Seq<char>) -> Seq<char> {
    if has_prefix(t, "-"@) {
        trimmed(t.skip("-"@.len() as int))
    } else if has_prefix(t, "+"@) {
        trimmed(t.skip("+"@.len() as int))
    } else {
        t
    }
}

pub open spec fn signed(t: Seq<char>, v: i32) -> i32 {
    if has_prefix(t, "-"@) {
        0i32.wrapping_sub(v)
    } else {
        v
    }
}

/// A numeric value: a number, a signed expression, X, or the name of a script variable.
pub open spec fn numeric_value(
    game: GameState,
    sa: AbilityView,
    depth: u32,
    hops: u32,
    raw: Seq<char>,
    default: i32,
) -> i32
    decreases depth, hops, 9int, 0int,
{
    let t = trimmed(raw);
    let u = unsigned_text(t);
    if t.len() == 0 {
        default
    } else if let Some(n) = int_value(t) {
        n as i32
    } else if has_prefix(t, "+"@) && int_value(t.skip("+"@.len() as int)) is Some {
        int_value(t.skip("+"@.len() as int))->0 as i32
    } else {
        match named_value(game, sa, depth, hops, u) {
            Some(v) => signed(t, v),
            None => default,
        }
    }
}

/// What a text without a sign that is no number stands for: an expression, X, or a script variable.
pub open spec fn named_value(
    game: GameState,
    sa: AbilityView,
    depth: u32,
    hops: u32,
    u: Seq<char>,
) -> Option<i32>
    decreases depth, hops, 8int, 1int,
{
    match sa.source {
        Some(source) => {
            let s = SceneView { game, source, you: sa.activating_player, sa };
            if let Some(v) = formed(s, depth, hops, u) {
                Some(v)
            } else if let Some(v) = card_list_value(s, depth, u) {
                Some(v)
            } else if u == "X"@ {
                match sa.svar(game, "X"@) {
                    Some(e) => Some(variable_value(s, depth, hops, e, true)),
                    None => Some(sa.x_mana_cost_paid as i32),
                }
            } else {
                match sa.svar(game, trimmed(u)) {
                    Some(e) => Some(variable_value(s, depth, hops, e, false)),
                    None => None,
                }
            }
        },
        None => if u == "X"@ {
            Some(sa.x_mana_cost_paid as i32)
        } else {
            None
        },
    }
}

/// What a count expression comes to at the start.
pub open spec fn counted(s: SceneView, t: Seq<char>) -> i32 {
    count_value(s, MAX_SVAR_RESOLUTION_DEPTH, value_hops(s.game, s.sa), t)
}

/// What a numeric value comes to at the start.
pub open spec fn numeric(game: GameState, sa: AbilityView, raw: Seq<char>, default: i32) -> i32 {
    numeric_value(game, sa, MAX_SVAR_RESOLUTION_DEPTH, value_hops(game, sa), raw, default)
}

// ---- evaluation ----

/// Evaluates an expression at a depth.
fn resolve_at(s: Scene, depth: u32, t: &str) -> (r: i32)
    ensures
        r == resolved(s@, depth, t@),
    decreases depth, 0int, 0int, 0int,
{
    if depth == 0 {
        0
    } else {
        read_expression(s, depth - 1, count_hops(s.game, s.sa), trim(t))
    }
}

pub fn do_x_math(s: Scene, depth: u32, num: i32, operators: &str) -> (r: i32)
    ensures
        r == after_math(s@, depth, num, operators@),
    decreases depth, 0int, 1int, 0int,
{
    if operators.unicode_len() == 0 {
        return num;
    }
    proof {
        reveal_strlit(".");
    }
    let parts = split(operators, ".");
    let ghost shown = views(parts@);
    assert(shown.len() == parts@.len());
    assert(shown[0] == parts@[0]@);
    let rhs: i32 = if parts.len() > 1 {
        assert(shown[1] == parts@[1]@);
        match parse_i32(parts[1]) {
            Some(n) => n,
            None => resolve_at(s, depth, parts[1]),
        }
    } else {
        0
    };
    operate(num, parts[0], rhs)
}

fn spell_ability_x_property(game: &GameState, spell: &SpellAbility, depth: u32, t: &str) -> (r: i32)
    ensures
        r == spell_property(*game, *spell, depth, t@),
    decreases depth, 0int, 2int, 0int,
{
    proof {
        reveal_strlit("/");
    }
    match spell.source {
        None => 0,
        Some(source) => match game.card(source) {
            None => 0,
            Some(c) => {
                let parts = split(t, "/");
                assert(views(parts@)[0] == parts@[0]@);
                let operators = piece_at_or(&parts, 1, "");
                do_x_math(
                    Scene { game, source, you: spell.activating_player, sa: spell },
                    depth,
                    number_of_spell(c, parts[0], spell.x_mana_cost_paid),
                    operators,
                )
            },
        },
    }
}

fn card_x_property(s: Scene, depth: u32, id: CardId, t: &str) -> (r: i32)
    ensures
        r == card_property(s@, depth, id, t@),
    decreases depth, 0int, 2int, 0int,
{
    proof {
        reveal_strlit("/");
    }
    match s.game.card(id) {
        None => 0,
        Some(c) => {
            let parts = split(t, "/");
            assert(views(parts@)[0] == parts@[0]@);
            let operators = piece_at_or(&parts, 1, "");
            do_x_math(s, depth, number_of_card(c, parts[0], s.sa.x_mana_cost_paid), operators)
        },
    }
}

fn player_x_property(s: Scene, depth: u32, id: PlayerId, t: &str) -> (r: i32)
    ensures
        r == player_property(s@, depth, id, t@),
    decreases depth, 0int, 2int, 0int,
{
    proof {
        reveal_strlit("/");
    }
    let parts = split(t, "/");
    assert(views(parts@)[0] == parts@[0]@);
    let operators = piece_at_or(&parts, 1, "");
    do_x_math(s, depth, number_of_player(s.game, id, parts[0], s.source, s.you), operators)
}

fn values_of_cards(s: Scene, depth: u32, ids: &Vec<CardId>, t: &str) -> (r: Vec<i32>)
    ensures
        r@ == card_properties(s@, depth, ids@, t@),
    decreases depth, 0int, 3int, ids@.len(),
{
    let mut out: Vec<i32> = Vec::new();
    let mut i: usize = 0;
    while i < ids.len()
        invariant
            i <= ids@.len(),
            out@ == card_properties(s@, depth, ids@.take(i as int), t@),
        decreases ids@.len() - i,
    {
        assert(ids@.take(i + 1).drop_last() =~= ids@.take(i as int));
        out.push(card_x_property(s, depth, ids[i], t));
        i = i + 1;
    }
    assert(ids@.take(i as int) =~= ids@);
    out
}

fn values_of_players(s: Scene, depth: u32, ids: &Vec<PlayerId>, t: &str) -> (r: Vec<i32>)
    ensures
        r@ == player_properties(s@, depth, ids@, t@),
    decreases depth, 0int, 3int, ids@.len(),
{
    let mut out: Vec<i32> = Vec::new();
    let mut i: usize = 0;
    while i < ids.len()
        invariant
            i <= ids@.len(),
            out@ == player_properties(s@, depth, ids@.take(i as int), t@),
        decreases ids@.len() - i,
    {
        assert(ids@.take(i + 1).drop_last() =~= ids@.take(i as int));
        out.push(player_x_property(s, depth, ids[i], t));
        i = i + 1;
    }
    assert(ids@.take(i as int) =~= ids@);
    out
}

fn values_of_spells(
    game: &GameState,
    spells: &Vec<NamedSpell>,
    name: &str,
    depth: u32,
    t: &str,
) -> (r: Vec<i32>)
    ensures
        r@ == spell_properties(*game, spells@, name@, depth, t@),
    decreases depth, 0int, 3int, spells@.len(),
{
    let mut out: Vec<i32> = Vec::new();
    let mut i: usize = 0;
    while i < spells.len()
        invariant
            i <= spells@.len(),
            out@ == spell_properties(*game, spells@.take(i as int), name@, depth, t@),
        decreases spells@.len() - i,
    {
        assert(spells@.take(i + 1).drop_last() =~= spells@.take(i as int));
        if text_eq(spells[i].name.as_str(), name) {
            out.push(spell_ability_x_property(game, &spells[i].ability, depth, t));
        }
        i = i + 1;
    }
    assert(spells@.take(i as int) =~= spells@);
    out
}

fn resolve_card_list_property(s: Scene, depth: u32, defined: &str, property: &str) -> (r: Option<
    i32,
>)
    ensures
        r == card_list_property(s@, depth, defined@, property@),
    decreases depth, 0int, 4int, 0int,
{
    let cards = resolve_defined_cards_for_svar(defined, s.game, s.source, s.sa);
    if cards.len() == 0 && !text_eq(defined, "AllTargeted") {
        return None;
    }
    if let Some(rest) = strip_prefix(property, "Valid ") {
        let (valid, operators) = split_or_all(rest, "/");
        let found = cards_matching(s.game, &cards, valid, s.source, s.you);
        return Some(do_x_math(s, depth, found.len() as i32, operators));
    }
    let (fold, what) = list_property_fold(property);
    let values = values_of_cards(s, depth, &cards, what);
    Some(fold_values(fold, &values))
}

fn resolve_card_list_expr(s: Scene, depth: u32, t: &str) -> (r: Option<i32>)
    ensures
        r == card_list_value(s@, depth, t@),
    decreases depth, 0int, 5int, 0int,
{
    match split_once(t, "$") {
        Some((defined, property)) => resolve_card_list_property(s, depth, defined, property),
        None => None,
    }
}

fn resolve_direct_player_expr(s: Scene, depth: u32, t: &str) -> (r: Option<i32>)
    ensures
        r == player_list_value(s@, depth, t@),
    decreases depth, 0int, 5int, 0int,
{
    match split_once(t, "$") {
        Some((defined, property)) => {
            let players = resolve_defined_players(s, defined);
            if players.len() == 0 {
                None
            } else {
                let values = values_of_players(s, depth, &players, property);
                Some(add_up(&values))
            }
        },
        None => None,
    }
}

fn resolve_spell_ability_expr(s: Scene, depth: u32, t: &str) -> (r: Option<i32>)
    ensures
        r == spell_list_value(s@, depth, t@),
    decreases depth, 0int, 5int, 0int,
{
    match split_once(t, "$") {
        Some((defined, property)) => {
            let values = values_of_spells(
                s.game,
                &s.sa.defined_spells,
                defined,
                depth,
                property,
            );
            if values.len() == 0 {
                None
            } else {
                Some(add_up(&values))
            }
        },
        None => None,
    }
}

/// The operator and the operand of a condition on a player.
fn read_condition<'a>(lhs: &'a str) -> (r: (&'a str, &'a str))
    ensures
        r.0@ == condition_operator(lhs@),
        r.1@ == condition_operand(lhs@),
{
    match cut_two_bytes(lhs) {
        Some(ends) => ends,
        None => ("GE", "1"),
    }
}

fn player_count_at(s: Scene, depth: u32, t: &str) -> (r: i32)
    ensures
        r == player_count(s@, depth, t@),
    decreases depth, 0int, 5int, 0int,
{
    let (group, rest) = split_or_all(t, "$");
    if !contains(t, "$") {
        return 0;
    }
    let kind = drop_prefix(group, "PlayerCount");
    let (property, operators) = split_or_all(rest, "/");
    let players = list_counted_players(s, kind);
    if players.len() == 0 {
        return 0;
    }
    if eq_ignore_case(property, "Amount") {
        return do_x_math(s, depth, players.len() as i32, operators);
    }
    if let Some(what) = strip_prefix(property, "Highest") {
        let values = values_of_players(s, depth, &players, what);
        return do_x_math(s, depth, max_or(&values, 0), operators);
    }
    if let Some(what) = strip_prefix(property, "Lowest") {
        let values = values_of_players(s, depth, &players, what);
        return do_x_math(s, depth, min_or(&values, 0), operators);
    }
    if eq_ignore_case(property, "TiedForHighestLife") {
        let all = list_lives(s.game, &players);
        let tied = list_holding(&all, "EQ", max_or(&all, i32::MIN));
        return do_x_math(s, depth, tied.len() as i32, operators);
    }
    if eq_ignore_case(property, "TiedForLowestLife") {
        let all = list_lives(s.game, &players);
        let tied = list_holding(&all, "EQ", min_or(&all, i32::MAX));
        return do_x_math(s, depth, tied.len() as i32, operators);
    }
    if let Some(what) = strip_prefix(property, "HasProperty") {
        let found = list_players_with(s, &players, what);
        return do_x_math(s, depth, found.len() as i32, operators);
    }
    if let Some(condition) = strip_prefix(property, "Condition") {
        let (lhs, what) = split_or_all(condition, " ");
        if contains(condition, " ") {
            let (op, operand) = read_condition(lhs);
            let right: i32 = resolve_at(s, depth, operand);
            let values = values_of_players(s, depth, &players, what);
            let found = list_holding(&values, op, right);
            return do_x_math(s, depth, found.len() as i32, operators);
        }
    }
    let values = values_of_players(s, depth, &players, property);
    do_x_math(s, depth, add_up(&values), operators)
}

fn resolve_trigger_count_svar(s: Scene, depth: u32, t: &str) -> (r: i32)
    ensures
        r == trigger_count(s@, depth, t@),
    decreases depth, 0int, 5int, 0int,
{
    proof {
        reveal_strlit("/");
    }
    let (prefix, rest) = split_or_all(t, "$");
    let parts = split(rest, "/");
    assert(views(parts@)[0] == parts@[0]@);
    let operators = piece_at_or(&parts, 1, "");
    let values = parse_trigger_int_values(s.sa, trim(parts[0]));
    let count: i32 = if ends_with(prefix, "Max") {
        max_or(&values, 0)
    } else {
        add_up(&values)
    };
    do_x_math(s, depth, count, operators)
}

fn find_source_svar<'a>(s: Scene<'a>, name: &str) -> (r: Option<&'a str>)
    ensures
        text_of(r) == source_svar(s@, name@),
{
    match s.game.card(s.source) {
        Some(c) => c.get_s_var(name),
        None => None,
    }
}

fn resolve_amount(s: Scene, depth: u32, t: &str) -> (r: i32)
    ensures
        r == amount(s@, depth, t@),
    decreases depth, 0int, 1int, 0int,
{
    match find_source_svar(s, t) {
        Some(e) => resolve_at(s, depth, e),
        None => resolve_at(s, depth, t),
    }
}

fn resolve_branch(s: Scene, depth: u32, t: &str) -> (r: i32)
    ensures
        r == branch_amount(s@, depth, t@),
    decreases depth, 0int, 2int, 0int,
{
    match parse_i32(t) {
        Some(n) => n,
        None => resolve_amount(s, depth, t),
    }
}

fn count_at(s: Scene, depth: u32, hops: u32, t: &str) -> (r: i32)
    ensures
        r == count_value(s@, depth, hops, t@),
    decreases depth, hops, 6int, 0int,
{
    match read_count(s, t) {
        CountStep::Players => player_count_at(s, depth, t),
        CountStep::Cards { cards, property, operators } => {
            let values = values_of_cards(s, depth, &cards, property);
            do_x_math(s, depth, add_up(&values), operators)
        },
        CountStep::Number { value, operators } => do_x_math(s, depth, value, operators),
        CountStep::Branch { text, operators } => {
            let value: i32 = resolve_at(s, depth, text);
            do_x_math(s, depth, value, operators)
        },
        CountStep::Numeric { text } => if hops == 0 {
            0
        } else {
            numeric_at(s.game, s.sa, depth, hops - 1, text, 0)
        },
        CountStep::Prime { text, yes, no, operators } => {
            let n: i32 = resolve_at(s, depth, text);
            let value: i32 = if check_prime(n) {
                resolve_at(s, depth, yes)
            } else {
                resolve_at(s, depth, no)
            };
            do_x_math(s, depth, value, operators)
        },
        CountStep::Choice { left, op, right, yes, no } => {
            let a: i32 = resolve_amount(s, depth, left);
            let b: i32 = resolve_amount(s, depth, right);
            if compare_numbers(a, op, b) {
                resolve_branch(s, depth, yes)
            } else {
                resolve_branch(s, depth, no)
            }
        },
    }
}

fn resolve_lowered_svar_expression(s: Scene, depth: u32, hops: u32, t: &str) -> (r: Option<i32>)
    ensures
        r == formed(s@, depth, hops, t@),
    decreases depth, hops, 7int, t@.len(),
{
    proof {
        reveal_strlit("/");
        reveal_strlit("Spawner>");
    }
    if let Some(rest) = strip_prefix(t, "Number$") {
        let parts = split(rest, "/");
        assert(views(parts@)[0] == parts@[0]@);
        let operators = piece_at_or(&parts, 1, "");
        return Some(do_x_math(s, depth, parse_or(trim(parts[0]), 0), operators));
    }
    if starts_with(t, "Count$") || starts_with(t, "TargetedObjects") {
        return Some(count_at(s, depth, hops, t));
    }
    if starts_with(t, "PlayerCount") {
        return Some(player_count_at(s, depth, t));
    }
    if starts_with(t, "TriggerCount$") || starts_with(t, "TriggerCountMax$") {
        return Some(resolve_trigger_count_svar(s, depth, t));
    }
    if let Some(rest) = strip_prefix(t, "SVar$") {
        let (name, operators) = split_or_all(rest, "/");
        return match find_source_svar(s, name) {
            Some(e) => {
                let value: i32 = resolve_at(s, depth, e);
                Some(do_x_math(s, depth, value, operators))
            },
            None => None,
        };
    }
    if let Some(rest) = strip_prefix(t, "Remembered$") {
        let (property, operators) = split_or_all(rest, "/");
        let cards = remembered_of(s.game, s.source);
        let value: i32 = count_valid_aggregate(s.game, &cards, property);
        return Some(do_x_math(s, depth, value, operators));
    }
    if let Some(rest) = strip_prefix(t, "RememberedSize") {
        let operators = match strip_prefix(rest, "/") {
            Some(o) => o,
            None => "",
        };
        let cards = remembered_of(s.game, s.source);
        return Some(do_x_math(s, depth, cards.len() as i32, operators));
    }
    if let Some(rest) = strip_prefix(t, "Discarded$Valid ") {
        let (filter, times) = crate::parsing::misc::strip_times_multiplier(rest);
        let cards = remembered_of(s.game, s.source);
        return Some(resolve_discarded_valid_svar(s.game, &cards, filter, times));
    }
    if let Some(rest) = strip_prefix(t, "Sacrificed$") {
        let (property, operators) = split_or_all(rest, "/");
        let value: i32 = sacrificed_card_property_value(s.game, s.sa, property);
        return Some(do_x_math(s, depth, value, operators));
    }
    if let Some(rest) = strip_prefix(t, "TriggeredCard$") {
        let (base, operators) = split_or_all(rest, "/");
        return match find_number(&s.sa.triggered_card_lki, base) {
            Some(n) => Some(do_x_math(s, depth, n, operators)),
            None => resolve_card_list_property(s, depth, "TriggeredCard", rest),
        };
    }
    if let Some(rest) = strip_prefix(t, "Spawner>") {
        return match &s.sa.trigger_spawning_ability {
            Some(spawner) => resolve_lowered_svar_expression(
                Scene { game: s.game, source: s.source, you: s.you, sa: &**spawner },
                depth,
                hops,
                rest,
            ),
            None => Some(0),
        };
    }
    None
}

fn read_expression(s: Scene, depth: u32, hops: u32, t: &str) -> (r: i32)
    ensures
        r == read(s@, depth, hops, t@),
    decreases depth, hops, 8int, 0int,
{
    if let Some(n) = parse_i32(t) {
        return n;
    }
    if let Some(v) = resolve_lowered_svar_expression(s, depth, hops, t) {
        return v;
    }
    if let Some(v) = resolve_paid_hash_expr(s, t) {
        return v;
    }
    if let Some(v) = resolve_spell_ability_expr(s, depth, t) {
        return v;
    }
    if let Some(v) = resolve_card_list_expr(s, depth, t) {
        return v;
    }
    if let Some(v) = find_number(&s.sa.triggered_card_lki, t) {
        return v;
    }
    if let Some(v) = resolve_direct_player_expr(s, depth, t) {
        return v;
    }
    match find_source_svar(s, t) {
        Some(e) => resolve_at(s, depth, e),
        None => 0,
    }
}

fn variable_at(s: Scene, depth: u32, hops: u32, e: &str, is_x: bool) -> (r: i32)
    ensures
        r == variable_value(s@, depth, hops, e@, is_x),
    decreases depth, hops, 8int, 0int,
{
    if starts_with(e, "Count$") {
        return count_at(s, depth, hops, e);
    }
    if starts_with(e, "PlayerCount") {
        return player_count_at(s, depth, e);
    }
    if let Some(v) = resolve_paid_hash_expr(s, e) {
        return v;
    }
    if is_x && (starts_with(e, "TriggerCount$") || starts_with(e, "TriggerCountMax$")) {
        return resolve_trigger_count_svar(s, depth, e);
    }
    if let Some(v) = resolve_lowered_svar_expression(s, depth, hops, e) {
        return v;
    }
    if let Some(v) = resolve_spell_ability_expr(s, depth, e) {
        return v;
    }
    if let Some(v) = resolve_card_list_expr(s, depth, e) {
        return v;
    }
    if let Some(v) = find_number(&s.sa.triggered_card_lki, e) {
        return v;
    }
    let simple: i32 = evaluate_svar(e, s.sa);
    if !is_x && (simple != 0 || starts_with(e, "Number$")) {
        return simple;
    }
    if let Some(v) = resolve_direct_player_expr(s, depth, e) {
        return v;
    }
    simple
}

fn numeric_at(
    game: &GameState,
    sa: &SpellAbility,
    depth: u32,
    hops: u32,
    raw: &str,
    default: i32,
) -> (r: i32)
    ensures
        r == numeric_value(*game, sa@, depth, hops, raw@, default),
    decreases depth, hops, 9int, 0int,
{
    let t = trim(raw);
    if t.unicode_len() == 0 {
        return default;
    }
    if let Some(n) = parse_i32(t) {
        return n;
    }
    if let Some(rest) = strip_prefix(t, "+") {
        if let Some(n) = parse_i32(rest) {
            return n;
        }
    }
    let mut negative = false;
    let mut u = t;
    if let Some(rest) = strip_prefix(t, "-") {
        negative = true;
        u = trim(rest);
    } else if let Some(rest) = strip_prefix(t, "+") {
        u = trim(rest);
    }
    let found: Option<i32> = match sa.source {
        Some(source) => {
            let s = Scene { game, source, you: sa.activating_player, sa };
            if let Some(v) = resolve_lowered_svar_expression(s, depth, hops, u) {
                Some(v)
            } else if let Some(v) = resolve_card_list_expr(s, depth, u) {
                Some(v)
            } else if text_eq(u, "X") {
                match sa.get_s_var(game, "X") {
                    Some(e) => Some(variable_at(s, depth, hops, e, true)),
                    None => Some(sa.x_mana_cost_paid as i32),
                }
            } else {
                match sa.get_s_var(game, trim(u)) {
                    Some(e) => Some(variable_at(s, depth, hops, e, false)),
                    None => None,
                }
            }
        },
        None => if text_eq(u, "X") {
            Some(sa.x_mana_cost_paid as i32)
        } else {
            None
        },
    };
    match found {
        Some(v) => if negative {
            0i32.wrapping_sub(v)
        } else {
            v
        },
        None => default,
    }
}

// ---- entry points ----

/// Evaluates an expression.
pub fn resolve_svar_expression(
    t: &str,
    game: &GameState,
    source: CardId,
    you: PlayerId,
    sa: &SpellAbility,
) -> (r: i32)
    ensures
        r == resolved(
            (SceneView { game: *game, source: source, you: you, sa: sa@ }),
            MAX_SVAR_RESOLUTION_DEPTH,
            t@,
        ),
{
    resolve_at(Scene { game, source, you, sa }, MAX_SVAR_RESOLUTION_DEPTH, t)
}

/// Evaluates a count expression for an ability.
pub fn resolve_count_svar_for_sa(
    t: &str,
    game: &GameState,
    source: CardId,
    you: PlayerId,
    sa: &SpellAbility,
) -> (r: i32)
    ensures
        r == counted((SceneView { game: *game, source: source, you: you, sa: sa@ }), t@),
{
    let hops: u32 = count_hops(game, sa);
    count_at(Scene { game, source, you, sa }, MAX_SVAR_RESOLUTION_DEPTH, hops, t)
}

/// Evaluates a count over players for an ability.
pub fn resolve_player_count_svar(
    t: &str,
    game: &GameState,
    source: CardId,
    you: PlayerId,
    sa: &SpellAbility,
) -> (r: i32)
    ensures
        r == player_count(
            (SceneView { game: *game, source: source, you: you, sa: sa@ }),
            MAX_SVAR_RESOLUTION_DEPTH,
            t@,
        ),
{
    player_count_at(Scene { game, source, you, sa }, MAX_SVAR_RESOLUTION_DEPTH, t)
}

/// A card and its player with no ability at hand.
pub open spec fn bare_scene(game: GameState, source: CardId, you: PlayerId) -> SceneView {
    SceneView { game, source, you, sa: no_ability(Some(source), you) }
}

/// Evaluates a count expression for a card, with no ability at hand.
pub fn resolve_count_svar(t: &str, game: &GameState, source: CardId, you: PlayerId) -> (r: i32)
    ensures
        r == counted(bare_scene(*game, source, you), t@),
{
    let sa = SpellAbility::new_empty(Some(source), you);
    resolve_count_svar_for_sa(t, game, source, you, &sa)
}

/// Reads a numeric value of an ability; `default` where it is empty or names nothing.
pub fn resolve_numeric_value(game: &GameState, sa: &SpellAbility, raw: &str, default: i32) -> (r:
    i32)
    ensures
        r == numeric(*game, sa@, raw@, default),
{
    let hops: u32 = count_hops(game, sa);
    numeric_at(game, sa, MAX_SVAR_RESOLUTION_DEPTH, hops, raw, default)
}

/// The sum of several numeric values.
pub open spec fn names_value(
    game: GameState,
    sa: AbilityView,
    names: Seq<String>,
    default: i32,
) -> i32
    decreases names.len(),
{
    if names.len() == 0 {
        0
    } else {
        names_value(game, sa, names.drop_last(), default).wrapping_add(
            numeric(game, sa, names.last()@, default),
        )
    }
}

/// What a numeric parameter comes to.
pub open spec fn param_value(
    game: GameState,
    sa: AbilityView,
    value: NumericParamIr,
    default: i32,
) -> i32 {
    match value {
        NumericParamIr::Integer(n) => n,
        NumericParamIr::Amount(amount) => match amount {
            Some(n) => n,
            None => default,
        },
        NumericParamIr::SVarReference(names) => if names@.len() == 0 {
            default
        } else {
            names_value(game, sa, names@, default)
        },
        NumericParamIr::Raw(t) => numeric(game, sa, t@, default),
    }
}

fn resolve_semantic_numeric_value(
    game: &GameState,
    sa: &SpellAbility,
    value: &NumericParamIr,
    default: i32,
) -> (r: i32)
    ensures
        r == param_value(*game, sa@, *value, default),
{
    match value {
        NumericParamIr::Integer(n) => *n,
        NumericParamIr::Amount(amount) => match amount {
            Some(n) => *n,
            None => default,
        },
        NumericParamIr::SVarReference(names) => {
            if names.len() == 0 {
                return default;
            }
            let mut sum: i32 = 0;
            let mut i: usize = 0;
            while i < names.len()
                invariant
                    i <= names@.len(),
                    sum == names_value(*game, sa@, names@.take(i as int), default),
                decreases names@.len() - i,
            {
                assert(names@.take(i + 1).drop_last() =~= names@.take(i as int));
                sum = sum.wrapping_add(resolve_numeric_value(game, sa, names[i].as_str(), default));
                i = i + 1;
            }
            assert(names@.take(i as int) =~= names@);
            sum
        },
        NumericParamIr::Raw(t) => resolve_numeric_value(game, sa, t.as_str(), default),
    }
}

/// Reads a numeric parameter of an ability; `default` where it has none of that name.
pub fn resolve_numeric_svar(game: &GameState, sa: &SpellAbility, param: &str, default: i32) -> (r:
    i32)
    ensures
        r == (match crate::spell::param_named(sa.numeric_params@, param@) {
            Some(value) => param_value(*game, sa@, value, default),
            None => default,
        }),
{
    match sa.find_param(param) {
        Some(value) => resolve_semantic_numeric_value(game, sa, value, default),
        None => default,
    }
}

/// Whether a player meets `Condition<op><operand> <property>`.
pub open spec fn meets_condition(s: SceneView, player: PlayerId, t: Seq<char>) -> bool {
    let rest = t.skip("Condition"@.len() as int);
    &&& has_prefix(t, "Condition"@)
    &&& has_part(rest, " "@)
    &&& compared(
        player_property(s, MAX_SVAR_RESOLUTION_DEPTH, player, after_mark(rest, " "@)),
        condition_operator(before_mark(rest, " "@)),
        resolved(s, MAX_SVAR_RESOLUTION_DEPTH, condition_operand(before_mark(rest, " "@))),
    )
}

/// Checks a condition on a player.
pub fn player_condition_matches(
    player: PlayerId,
    property: &str,
    game: &GameState,
    source: CardId,
    you: PlayerId,
    sa: &SpellAbility,
) -> (r: bool)
    ensures
        r == meets_condition(
            (SceneView { game: *game, source: source, you: you, sa: sa@ }),
            player,
            property@,
        ),
{
    let s = Scene { game, source, you, sa };
    if let Some(rest) = strip_prefix(property, "Condition") {
        if let Some((lhs, what)) = split_once(rest, " ") {
            let (op, operand) = read_condition(lhs);
            let right: i32 = resolve_at(s, MAX_SVAR_RESOLUTION_DEPTH, operand);
            let left: i32 = player_x_property(s, MAX_SVAR_RESOLUTION_DEPTH, player, what);
            return compare_numbers(left, op, right);
        }
    }
    false
}

/// A number stands for itself, and an expression that is nested too deeply for nothing.
pub proof fn law_numbers_stand_for_themselves(s: SceneView, depth: u32, t: Seq<char>)
    ensures
        depth == 0 ==> resolved(s, depth, t) == 0,
        depth > 0 ==> (int_value(trimmed(t)) matches Some(n) ==> resolved(s, depth, t) == n),
{
}

/// A sign before a value: a plus changes nothing, a minus gives the opposite. Where a value names
/// nothing, the default stands whatever the sign. Only the number whose opposite alone is in range
/// is left out.
pub proof fn law_signs(
    game: GameState,
    sa: AbilityView,
    depth: u32,
    hops: u32,
    v: Seq<char>,
    default: i32,
)
    requires
        v.len() > 0,
        trimmed(v) == v,
        !has_prefix(v, "-"@),
        !has_prefix(v, "+"@),
        !(all_digits(v) && digits_value(v) == 0x8000_0000),
    ensures
        ({
            let plain = numeric_value(game, sa, depth, hops, v, default);
            let plus = numeric_value(game, sa, depth, hops, seq!['+'] + v, default);
            let minus = numeric_value(game, sa, depth, hops, seq!['-'] + v, default);
            &&& plus == plain
            &&& if int_value(v) is Some || named_value(game, sa, depth, hops, v) is Some {
                plain != i32::MIN ==> minus == -plain
            } else {
                plain == default && minus == default
            }
        }),
{
    reveal_strlit("-");
    reveal_strlit("+");
    assert("-"@ =~= seq!['-']);
    assert("+"@ =~= seq!['+']);
    lemma_trimmed_stays(v);
    let m = seq!['-'] + v;
    let p = seq!['+'] + v;
    lemma_end_stays('-', v);
    lemma_end_stays('+', v);
    assert(trimmed(m) == m);
    assert(trimmed(p) == p);
    assert(m.skip(1) =~= v);
    assert(p.skip(1) =~= v);
    assert(m.subrange(0, 1) =~= seq!['-']);
    assert(p.subrange(0, 1) =~= seq!['+']);
    assert(!has_prefix(p, "-"@)) by {
        assert(p.subrange(0, 1)[0] == '+');
    }
    assert(v[0] != '-') by {
        if v[0] == '-' {
            assert(v.subrange(0, 1) =~= seq!['-']);
        }
    }
    assert(v[0] != '+') by {
        if v[0] == '+' {
            assert(v.subrange(0, 1) =~= seq!['+']);
        }
    }
    if all_digits(v) {
        lemma_digits_nonneg(v);
    }
    assert(unsigned_text(m) == v);
    assert(unsigned_text(p) == v);
    assert(unsigned_text(v) == v);
}

/// The expression `PlayerCount<kind>$<property>`.
pub open spec fn player_count_text(kind: Seq<char>, property: Seq<char>) -> Seq<char> {
    "PlayerCount"@ + kind + seq!['$'] + property
}

proof fn lemma_player_count_parts(kind: Seq<char>, property: Seq<char>)
    requires
        !kind.contains('$'),
        !property.contains('/'),
    ensures
        ({
            let t = player_count_text(kind, property);
            &&& has_part(t, "$"@)
            &&& without_prefix(before_mark(t, "$"@), "PlayerCount"@) == kind
            &&& before_mark(after_mark(t, "$"@), "/"@) == property
            &&& after_mark(after_mark(t, "$"@), "/"@).len() == 0
        }),
{
    reveal_strlit("PlayerCount");
    reveal_strlit("$");
    reveal_strlit("/");
    let a = "PlayerCount"@ + kind;
    assert("$"@ =~= seq!['$']);
    assert("/"@ =~= seq!['/']);
    assert forall|i: int| 0 <= i < a.len() implies a[i] != '$' by {
        if i >= 11 {
            assert(kind[i - 11] != '$');
        }
    }
    lemma_mark_between(a, '$', property);
    lemma_no_mark(property, '/');
    assert(a.subrange(0, 11) =~= "PlayerCount"@);
    assert(a.skip(11) =~= kind);
}

/// Whether a property of players is none of those that have a meaning of their own.
pub open spec fn is_plain_property(p: Seq<char>) -> bool {
    &&& !p.contains('/')
    &&& !same_ignoring_case(p, "Amount"@)
    &&& !has_prefix(p, "Highest"@)
    &&& !has_prefix(p, "Lowest"@)
    &&& !same_ignoring_case(p, "TiedForHighestLife"@)
    &&& !same_ignoring_case(p, "TiedForLowestLife"@)
    &&& !has_prefix(p, "HasProperty"@)
    &&& !has_prefix(p, "Condition"@)
}

proof fn lemma_properties_len(s: SceneView, depth: u32, ids: Seq<PlayerId>, t: Seq<char>)
    ensures
        player_properties(s, depth, ids, t).len() == ids.len(),
    decreases ids.len(),
{
    if ids.len() > 0 {
        lemma_properties_len(s, depth, ids.drop_last(), t);
    }
}

/// Over a group of players, the lowest value of a property is at most the highest, and their sum
/// lies between so many times the one and the other. Over no players, all of these are nothing.
pub proof fn law_player_counts(s: SceneView, depth: u32, kind: Seq<char>, p: Seq<char>)
    requires
        !kind.contains('$'),
        is_plain_property(p),
        counted_players(s, kind).len() <= i32::MAX,
        i32::MIN <= exact_total(player_properties(s, depth, counted_players(s, kind), p))
            <= i32::MAX,
    ensures
        ({
            let n = player_count(s, depth, player_count_text(kind, "Amount"@));
            let lo = player_count(s, depth, player_count_text(kind, "Lowest"@ + p));
            let hi = player_count(s, depth, player_count_text(kind, "Highest"@ + p));
            let sum = player_count(s, depth, player_count_text(kind, p));
            if counted_players(s, kind).len() == 0 {
                n == 0 && lo == 0 && hi == 0 && sum == 0
            } else {
                n == counted_players(s, kind).len() && n >= 1 && lo <= hi && n * lo <= sum <= n * hi
            }
        }),
{
    reveal_strlit("Amount");
    reveal_strlit("Lowest");
    reveal_strlit("Highest");
    let low = "Lowest"@ + p;
    let high = "Highest"@ + p;
    assert forall|i: int| 0 <= i < low.len() implies low[i] != '/' by {
        if i >= 6 {
            assert(p[i - 6] != '/');
        }
    }
    assert forall|i: int| 0 <= i < high.len() implies high[i] != '/' by {
        if i >= 7 {
            assert(p[i - 7] != '/');
        }
    }
    lemma_player_count_parts(kind, "Amount"@);
    lemma_player_count_parts(kind, low);
    lemma_player_count_parts(kind, high);
    lemma_player_count_parts(kind, p);
    let players = counted_players(s, kind);
    let values = player_properties(s, depth, players, p);
    lemma_properties_len(s, depth, players, p);
    assert(low.subrange(0, 6) =~= "Lowest"@);
    assert(low.skip(6) =~= p);
    assert(high.subrange(0, 7) =~= "Highest"@);
    assert(high.skip(7) =~= p);
    assert(!has_prefix(low, "Highest"@)) by {
        assert(low[0] == 'L');
        if has_prefix(low, "Highest"@) {
            assert(low.subrange(0, 7)[0] == 'H');
        }
    }
    assert(!same_ignoring_case(low, "Amount"@)) by {
        assert(lowered(low)[0] != lowered("Amount"@)[0]);
    }
    assert(!same_ignoring_case(high, "Amount"@)) by {
        assert(lowered(high)[0] != lowered("Amount"@)[0]);
    }
    if players.len() > 0 {
        lemma_bounds(values);
        lemma_total_exact(values);
        assert(values.len() == players.len());
    }
}

} // verus!
