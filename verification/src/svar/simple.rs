//! Expressions that need no further evaluation, and what they are compared with.

use vstd::prelude::*;
use crate::game::GameState;
use crate::parsing::selector::SelectorCompareOperator;
use crate::parsing::words::{operator_word, operator_word_of};
use crate::spell::{paid_under, AbilityView, SpellAbility};
use crate::svar::count::{cut_operator, operator_cut};
use crate::svar::defined::{cards_paid_with, paid_cards};
use crate::svar::folds::{
    add_up, aggregated, card_numbers, count_valid_aggregate, greatest, max_or, total,
};
use crate::svar::math::{apply_simple_operator_chain, chained};
use crate::svar::scene::{
    defined_players, parse_trigger_int_values, resolve_defined_players, trigger_numbers_named, Scene, SceneView,
};
use crate::text::{
    after_mark, before_mark, contains, drop_prefix, has_part, has_prefix, lowered, number_or,
    parse_i32, parse_or, pieces, split_once, split_or_all, starts_with, strip_prefix, text_eq,
    to_lower, trim, trimmed, without_prefix,
};
use crate::types::{CardId, PlayerId};

verus! {

/// Whether two numbers compare as an operator of two letters says; an unknown one never holds.
pub open spec fn compared(left: i32, op: Seq<char>, right: i32) -> bool {
    match operator_word(lowered(op)) {
        Some(SelectorCompareOperator::Eq) => left == right,
        Some(SelectorCompareOperator::Ne) => left != right,
        Some(SelectorCompareOperator::Lt) => left < right,
        Some(SelectorCompareOperator::Le) => left <= right,
        Some(SelectorCompareOperator::Gt) => left > right,
        Some(SelectorCompareOperator::Ge) => left >= right,
        None => false,
    }
}

pub fn compare_numbers(left: i32, op: &str, right: i32) -> (r: bool)
    ensures
        r == compared(left, op@, right),
{
    let word = to_lower(op);
    match operator_word_of(word.as_str()) {
        Some(SelectorCompareOperator::Eq) => left == right,
        Some(SelectorCompareOperator::Ne) => left != right,
        Some(SelectorCompareOperator::Lt) => left < right,
        Some(SelectorCompareOperator::Le) => left <= right,
        Some(SelectorCompareOperator::Gt) => left > right,
        Some(SelectorCompareOperator::Ge) => left >= right,
        None => false,
    }
}

/// Whether a number compares as `<op><number>` says.
pub open spec fn compared_with(left: i32, condition: Seq<char>) -> bool {
    let cut = operator_cut(condition);
    match crate::text::int_value(condition.skip(cut)) {
        Some(n) => compared(left, condition.take(cut), n as i32),
        None => false,
    }
}

/// Compares a number with a condition such as `GE2`.
pub fn compare_expr(left: i32, condition: &str) -> (r: bool)
    ensures
        r == compared_with(left, condition@),
{
    let (op, right) = cut_operator(condition);
    match parse_i32(right) {
        Some(n) => compare_numbers(left, op, n),
        None => false,
    }
}

/// What an expression is worth that reads nothing but the ability.
pub open spec fn simple_value(t: Seq<char>, sa: AbilityView) -> i32 {
    let count = |key: Seq<char>| trigger_numbers_named(sa, trimmed(before_mark(key, "/"@)));
    if has_prefix(t, "Count$xPaid"@) {
        chained(
            sa.x_mana_cost_paid as i32,
            pieces(without_prefix(t.skip("Count$xPaid"@.len() as int), "/"@), "/"@),
        )
    } else if has_prefix(t, "Count$XPaid"@) {
        chained(
            sa.x_mana_cost_paid as i32,
            pieces(without_prefix(t.skip("Count$XPaid"@.len() as int), "/"@), "/"@),
        )
    } else if t == "Count$Converge"@ || t == "Count$Sunburst"@ {
        0
    } else if t == "Count$TriggerRememberAmount"@ {
        sa.trigger_remembered_amount
    } else if has_prefix(t, "TriggerCount$"@) {
        let rest = t.skip("TriggerCount$"@.len() as int);
        chained(total(count(rest)), pieces(after_mark(rest, "/"@), "/"@))
    } else if has_prefix(t, "TriggerCountMax$"@) {
        let rest = t.skip("TriggerCountMax$"@.len() as int);
        chained(greatest(count(rest), 0), pieces(after_mark(rest, "/"@), "/"@))
    } else if t == "Count$KickedCount"@ {
        sa.kick_count as i32
    } else if has_prefix(t, "Count$Kicked."@) && has_part(
        t.skip("Count$Kicked."@.len() as int),
        "."@,
    ) {
        let rest = t.skip("Count$Kicked."@.len() as int);
        if sa.kicked {
            number_or(before_mark(rest, "."@), 0)
        } else {
            number_or(after_mark(rest, "."@), 0)
        }
    } else if has_prefix(t, "Number$"@) {
        number_or(trimmed(t.skip("Number$"@.len() as int)), 0)
    } else {
        number_or(t, 0)
    }
}

/// Evaluates an expression that reads nothing but the ability.
pub fn evaluate_svar(t: &str, sa: &SpellAbility) -> (r: i32)
    ensures
        r == simple_value(t@, sa@),
{
    if let Some(rest) = strip_prefix(t, "Count$xPaid") {
        return apply_simple_operator_chain(sa.x_mana_cost_paid as i32, drop_prefix(rest, "/"));
    }
    if let Some(rest) = strip_prefix(t, "Count$XPaid") {
        return apply_simple_operator_chain(sa.x_mana_cost_paid as i32, drop_prefix(rest, "/"));
    }
    if text_eq(t, "Count$Converge") || text_eq(t, "Count$Sunburst") {
        return 0;
    }
    if text_eq(t, "Count$TriggerRememberAmount") {
        return sa.trigger_remembered_amount;
    }
    if let Some(rest) = strip_prefix(t, "TriggerCount$") {
        let (key, operators) = split_or_all(rest, "/");
        let values = parse_trigger_int_values(sa, trim(key));
        return apply_simple_operator_chain(add_up(&values), operators);
    }
    if let Some(rest) = strip_prefix(t, "TriggerCountMax$") {
        let (key, operators) = split_or_all(rest, "/");
        let values = parse_trigger_int_values(sa, trim(key));
        return apply_simple_operator_chain(max_or(&values, 0), operators);
    }
    if text_eq(t, "Count$KickedCount") {
        return sa.kick_count as i32;
    }
    if let Some(rest) = strip_prefix(t, "Count$Kicked.") {
        if let Some((yes, no)) = split_once(rest, ".") {
            return if sa.kicked {
                parse_or(yes, 0)
            } else {
                parse_or(no, 0)
            };
        }
    }
    if let Some(rest) = strip_prefix(t, "Number$") {
        return parse_or(trim(rest), 0);
    }
    parse_or(t, 0)
}

/// A property of the cards that a cost was paid with.
pub open spec fn paid_property(s: SceneView, key: Seq<char>, property: Seq<char>) -> Option<i32> {
    match paid_under(s.sa.paid_hash, key) {
        None => None,
        Some(values) => {
            let ids = paid_cards(s.game, values);
            Some(
                if has_prefix(property, "TapPowerValue"@) {
                    total(card_numbers(s.game, ids, |c: crate::game::Card| c.tap_power))
                } else {
                    aggregated(s.game, ids, property)
                },
            )
        },
    }
}

pub fn resolve_paid_hash_property(s: Scene, key: &str, property: &str) -> (r: Option<i32>)
    ensures
        r == paid_property(s@, key@, property@),
{
    match s.sa.find_paid(key) {
        None => None,
        Some(values) => {
            let ids = cards_paid_with(s.game, values);
            if starts_with(property, "TapPowerValue") {
                let mut powers: Vec<i32> = Vec::new();
                let ghost f = |c: crate::game::Card| c.tap_power;
                let mut i: usize = 0;
                while i < ids.len()
                    invariant
                        i <= ids@.len(),
                        f == |c: crate::game::Card| c.tap_power,
                        powers@ == card_numbers(*s.game, ids@.take(i as int), f),
                    decreases ids@.len() - i,
                {
                    powers.push(
                        match s.game.card(ids[i]) {
                            Some(c) => c.tap_power,
                            None => 0,
                        },
                    );
                    i = i + 1;
                    assert(powers@ =~= card_numbers(*s.game, ids@.take(i as int), f));
                }
                assert(ids@.take(i as int) =~= ids@);
                Some(add_up(&powers))
            } else {
                Some(count_valid_aggregate(s.game, &ids, property))
            }
        },
    }
}

/// `<key>$<property>` of the cards that a cost was paid with.
pub open spec fn paid_value(s: SceneView, t: Seq<char>) -> Option<i32> {
    if has_part(t, "$"@) {
        paid_property(s, before_mark(t, "$"@), after_mark(t, "$"@))
    } else {
        None
    }
}

pub fn resolve_paid_hash_expr(s: Scene, t: &str) -> (r: Option<i32>)
    ensures
        r == paid_value(s@, t@),
{
    match split_once(t, "$") {
        Some((key, property)) => resolve_paid_hash_property(s, key, property),
        None => None,
    }
}

/// `times` where a remembered card passes the filter, else nothing.
pub open spec fn discarded_value(
    game: GameState,
    ids: Seq<CardId>,
    filter: Seq<char>,
    times: i32,
) -> i32 {
    if exists|i: int|
        0 <= i < ids.len() && (!has_part(filter, "nonLand"@) || (match game.card_at(
            #[trigger] ids[i],
        ) {
            Some(c) => !c.types.land,
            None => true,
        })) {
        times
    } else {
        0
    }
}

pub fn resolve_discarded_valid_svar(
    game: &GameState,
    ids: &Vec<CardId>,
    filter: &str,
    times: i32,
) -> (r: i32)
    ensures
        r == discarded_value(*game, ids@, filter@, times),
{
    let lands_out = contains(filter, "nonLand");
    let mut i: usize = 0;
    while i < ids.len()
        invariant
            i <= ids@.len(),
            lands_out == has_part(filter@, "nonLand"@),
            forall|k: int|
                0 <= k < i ==> !(!has_part(filter@, "nonLand"@) || (match game.card_at(
                    #[trigger] ids@[k],
                ) {
                    Some(c) => !c.types.land,
                    None => true,
                })),
        decreases ids@.len() - i,
    {
        let passes = match game.card(ids[i]) {
            Some(c) => !c.types.land,
            None => true,
        };
        if !lands_out || passes {
            assert(!has_part(filter@, "nonLand"@) || (match game.card_at(ids@[i as int]) {
                Some(c) => !c.types.land,
                None => true,
            }));
            return times;
        }
        i = i + 1;
    }
    0
}

/// The opponents of a player in a list.
pub open spec fn opponents_among(
    game: GameState,
    ids: Seq<PlayerId>,
    you: PlayerId,
) -> Seq<PlayerId>
    decreases ids.len(),
{
    if ids.len() == 0 {
        Seq::empty()
    } else {
        let before = opponents_among(game, ids.drop_last(), you);
        if game.are_opponents(you, ids.last()) {
            before.push(ids.last())
        } else {
            before
        }
    }
}

fn list_opponents(game: &GameState, ids: &Vec<PlayerId>, you: PlayerId) -> (r: Vec<PlayerId>)
    ensures
        r@ == opponents_among(*game, ids@, you),
{
    let mut out: Vec<PlayerId> = Vec::new();
    let mut i: usize = 0;
    while i < ids.len()
        invariant
            i <= ids@.len(),
            out@ == opponents_among(*game, ids@.take(i as int), you),
        decreases ids@.len() - i,
    {
        assert(ids@.take(i + 1).drop_last() =~= ids@.take(i as int));
        if game.is_opponent_of(you, ids[i]) {
            out.push(ids[i]);
        }
        i = i + 1;
    }
    assert(ids@.take(i as int) =~= ids@);
    out
}

/// The players of a list with a property.
pub open spec fn players_with(s: SceneView, ids: Seq<PlayerId>, property: Seq<char>) -> Seq<PlayerId>
    decreases ids.len(),
{
    if ids.len() == 0 {
        Seq::empty()
    } else {
        let before = players_with(s, ids.drop_last(), property);
        if s.game.facts.matches_player(property, s.source, s.you, ids.last()) {
            before.push(ids.last())
        } else {
            before
        }
    }
}

pub fn list_players_with(s: Scene, ids: &Vec<PlayerId>, property: &str) -> (r: Vec<PlayerId>)
    ensures
        r@ == players_with(s@, ids@, property@),
{
    let mut out: Vec<PlayerId> = Vec::new();
    let mut i: usize = 0;
    while i < ids.len()
        invariant
            i <= ids@.len(),
            out@ == players_with(s@, ids@.take(i as int), property@),
        decreases ids@.len() - i,
    {
        assert(ids@.take(i + 1).drop_last() =~= ids@.take(i as int));
        if s.game.facts.player_matches_selector(property, s.source, s.you, ids[i]) {
            out.push(ids[i]);
        }
        i = i + 1;
    }
    assert(ids@.take(i as int) =~= ids@);
    out
}

/// The players that a count of players is about.
pub open spec fn counted_players(s: SceneView, kind: Seq<char>) -> Seq<PlayerId> {
    if kind.len() == 0 || kind == "Players"@ {
        s.game.living()
    } else if kind == "Opponents"@ {
        opponents_among(s.game, s.game.living(), s.you)
    } else if kind == "RegisteredOpponents"@ {
        opponents_among(s.game, s.game.player_order@, s.you)
    } else if kind == "Remembered"@ {
        match s.game.card_at(s.source) {
            Some(c) => c.remembered_players@,
            None => Seq::empty(),
        }
    } else if has_prefix(kind, "PropertyYou"@) {
        seq![s.you]
    } else if has_prefix(kind, "Property"@) {
        players_with(s, s.game.living(), kind.skip("Property"@.len() as int))
    } else if has_prefix(kind, "Defined"@) {
        defined_players(s, kind.skip("Defined"@.len() as int))
    } else {
        Seq::empty()
    }
}

pub fn list_counted_players(s: Scene, kind: &str) -> (r: Vec<PlayerId>)
    ensures
        r@ == counted_players(s@, kind@),
{
    if kind.unicode_len() == 0 || text_eq(kind, "Players") {
        return s.game.alive_players();
    }
    if text_eq(kind, "Opponents") {
        let all = s.game.alive_players();
        return list_opponents(s.game, &all, s.you);
    }
    if text_eq(kind, "RegisteredOpponents") {
        return list_opponents(s.game, &s.game.player_order, s.you);
    }
    if text_eq(kind, "Remembered") {
        return match s.game.card(s.source) {
            Some(c) => crate::lists::copy_players(&c.remembered_players),
            None => Vec::new(),
        };
    }
    if starts_with(kind, "PropertyYou") {
        let mut only: Vec<PlayerId> = Vec::new();
        only.push(s.you);
        assert(only@ =~= seq![s.you]);
        return only;
    }
    if let Some(property) = strip_prefix(kind, "Property") {
        let all = s.game.alive_players();
        return list_players_with(s, &all, property);
    }
    if let Some(defined) = strip_prefix(kind, "Defined") {
        return resolve_defined_players(s, defined);
    }
    Vec::new()
}

/// The life totals of players.
pub open spec fn lives(game: GameState, ids: Seq<PlayerId>) -> Seq<i32> {
    ids.map_values(
        |id: PlayerId|
            match game.player_at(id) {
                Some(p) => p.life,
                None => 0i32,
            },
    )
}

pub fn list_lives(game: &GameState, ids: &Vec<PlayerId>) -> (r: Vec<i32>)
    ensures
        r@ == lives(*game, ids@),
{
    let mut out: Vec<i32> = Vec::new();
    let mut i: usize = 0;
    while i < ids.len()
        invariant
            i <= ids@.len(),
            out@ == lives(*game, ids@).take(i as int),
        decreases ids@.len() - i,
    {
        out.push(
            match game.player(ids[i]) {
                Some(p) => p.life,
                None => 0,
            },
        );
        i = i + 1;
        assert(out@ =~= lives(*game, ids@).take(i as int));
    }
    assert(out@ =~= lives(*game, ids@));
    out
}

/// The numbers of a list that compare as an operator says.
pub open spec fn holding(values: Seq<i32>, op: Seq<char>, right: i32) -> Seq<i32>
    decreases values.len(),
{
    if values.len() == 0 {
        Seq::empty()
    } else {
        let before = holding(values.drop_last(), op, right);
        if compared(values.last(), op, right) {
            before.push(values.last())
        } else {
            before
        }
    }
}

pub fn list_holding(values: &Vec<i32>, op: &str, right: i32) -> (r: Vec<i32>)
    ensures
        r@ == holding(values@, op@, right),
{
    let mut out: Vec<i32> = Vec::new();
    let mut i: usize = 0;
    while i < values.len()
        invariant
            i <= values@.len(),
            out@ == holding(values@.take(i as int), op@, right),
        decreases values@.len() - i,
    {
        assert(values@.take(i + 1).drop_last() =~= values@.take(i as int));
        if compare_numbers(values[i], op, right) {
            out.push(values[i]);
        }
        i = i + 1;
    }
    assert(values@.take(i as int) =~= values@);
    out
}

/// Whether a number is prime.
pub open spec fn is_prime(n: int) -> bool {
    n > 1 && forall|d: int| #![trigger n % d] 2 <= d < n ==> n % d != 0
}

pub fn check_prime(n: i32) -> (r: bool)
    ensures
        r == is_prime(n as int),
{
    if n < 2 {
        return false;
    }
    let m: i64 = n as i64;
    let mut d: i64 = 2;
    while d * d <= m
        invariant
            2 <= m <= i32::MAX,
            m == n,
            2 <= d,
            d <= 0x1_0000,
            d * d <= 0x1_0000_0000,
            forall|k: int| #![trigger (m as int) % k] 2 <= k < d ==> (m as int) % k != 0,
        decreases 0x1_0000 - d,
    {
        assert(d < 0x1_0000) by (nonlinear_arith)
            requires
                d * d <= m,
                m <= i32::MAX,
                2 <= d,
        ;
        if m % d == 0 {
            assert(d < m) by (nonlinear_arith)
                requires
                    d * d <= m,
                    2 <= d,
            ;
            assert((n as int) % (d as int) == 0);
            return false;
        }
        d = d + 1;
        assert(d * d <= 0x1_0000_0000) by (nonlinear_arith)
            requires
                2 <= d <= 0x1_0000,
        ;
    }
    assert forall|k: int| #![trigger (n as int) % k] 2 <= k < n implies (n as int) % k != 0 by {
        if k >= d && (n as int) % k == 0 {
            let q = (n as int) / k;
            lemma_small_factor(n as int, k, q, d as int);
            assert((m as int) % q != 0);
        }
    }
    true
}

/// A divisor whose square is too large has a cofactor that is small and divides too.
proof fn lemma_small_factor(n: int, k: int, q: int, d: int)
    requires
        2 <= k < n,
        n % k == 0,
        q == n / k,
        2 <= d <= k,
        d * d > n,
    ensures
        2 <= q < d,
        n % q == 0,
{
    vstd::arithmetic::div_mod::lemma_fundamental_div_mod(n, k);
    assert(n == k * q);
    assert(q >= 2) by (nonlinear_arith)
        requires
            n == k * q,
            2 <= k,
            k < n,
    ;
    assert(q < d) by (nonlinear_arith)
        requires
            n == k * q,
            d <= k,
            d * d > n,
            q >= 2,
            d >= 2,
    ;
    assert(n == q * k) by (nonlinear_arith)
        requires
            n == k * q,
    ;
    vstd::arithmetic::div_mod::lemma_mod_multiples_basic(k, q);
    assert((k * q) % q == 0);
}

} // verus!
