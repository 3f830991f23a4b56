//! What becomes of damage that is dealt at once, and what an untap step does.

use vstd::prelude::*;
use crate::game::{Card, EffectKey, GameState};
use crate::laws::convoke::law_cards_of_a_zone;
use crate::phase::untap::{
    card_untapped, cast_by_player, differs_by, game_untapped, next_day_time, texts_without, untaps,
};
use crate::parsing::params::string_of;
use crate::replacement::damage_batch::{
    with_damage, BatchView, DamageParams, PreventedAmount, SingleResult,
};
use crate::replacement::damage_buffer::{
    gathered, mode_of, prevented_of, result_of, ExecuteMode,
};
use crate::replacement::effect::ReplacementEffect;
use crate::replacement::damage_map::{
    by_target, damage_place, damage_put, damage_removed, damage_targets, damage_to, DamageEntry,
};
use crate::replacement::damage_run::{damage_after, params_after};
use crate::replacement::event::{ReplacementEvent, ReplacementResult};
use crate::spell::GameEntity;
use crate::types::{CardId, PlayerId, ZoneType};

verus! {

/// How much damage a source deals to a target.
pub open spec fn dealt(entries: Seq<DamageEntry>, source: CardId, target: GameEntity) -> int
    decreases entries.len(),
{
    if entries.len() == 0 {
        0
    } else if entries.last().source == source && entries.last().target == target {
        entries.last().amount as int
    } else {
        dealt(entries.drop_last(), source, target)
    }
}

/// Whether no source deals damage to one target twice.
pub open spec fn is_told_apart(entries: Seq<DamageEntry>) -> bool {
    forall|i: int, j: int|
        0 <= i < j < entries.len() ==> (#[trigger] entries[i]).source != (
        #[trigger] entries[j]).source || entries[i].target != entries[j].target
}

proof fn lemma_damage_place(entries: Seq<DamageEntry>, source: CardId, target: GameEntity)
    ensures
        damage_place(entries, source, target) matches Some(i) ==> 0 <= i < entries.len()
            && entries[i].source == source && entries[i].target == target,
        damage_place(entries, source, target) is None ==> forall|j: int|
            0 <= j < entries.len() ==> (#[trigger] entries[j]).source != source || entries[j].target
                != target,
    decreases entries.len(),
{
    if entries.len() > 0 {
        let rest = entries.skip(1);
        lemma_damage_place(rest, source, target);
        if let Some(i) = damage_place(rest, source, target) {
            assert(entries[i + 1] == rest[i]);
        } else if entries[0].source != source || entries[0].target != target {
            assert forall|j: int| 0 <= j < entries.len() implies (#[trigger] entries[j]).source
                != source || entries[j].target != target by {
                if j > 0 {
                    assert(rest[j - 1] == entries[j]);
                }
            }
        }
    }
}

proof fn lemma_dealt(entries: Seq<DamageEntry>, source: CardId, target: GameEntity, i: int)
    requires
        is_told_apart(entries),
    ensures
        0 <= i < entries.len() && entries[i].source == source && entries[i].target == target
            ==> dealt(entries, source, target) == entries[i].amount,
        (forall|j: int|
            0 <= j < entries.len() ==> (#[trigger] entries[j]).source != source || entries[j].target
                != target) ==> dealt(entries, source, target) == 0,
    decreases entries.len(),
{
    if entries.len() > 0 {
        let short = entries.drop_last();
        assert forall|a: int, b: int| 0 <= a < b < short.len() implies (
        #[trigger] short[a]).source != (#[trigger] short[b]).source || short[a].target
            != short[b].target by {
            assert(short[a] == entries[a] && short[b] == entries[b]);
        }
        lemma_dealt(short, source, target, i);
        assert(entries[entries.len() - 1] == entries.last());
        if 0 <= i < short.len() {
            assert(short[i] == entries[i]);
        }
        if forall|j: int|
            0 <= j < entries.len() ==> (#[trigger] entries[j]).source != source || entries[j].target
                != target {
            assert forall|j: int| 0 <= j < short.len() implies (#[trigger] short[j]).source
                != source || short[j].target != target by {
                assert(short[j] == entries[j]);
            }
        }
    }
}

/// Damage that is put to other damage of the same source to the same target adds to it; all other
/// damage stays.
pub proof fn law_damage_adds_up(
    entries: Seq<DamageEntry>,
    source: CardId,
    target: GameEntity,
    amount: i32,
    s: CardId,
    t: GameEntity,
)
    requires
        is_told_apart(entries),
        i32::MIN <= dealt(entries, source, target) + amount <= i32::MAX,
    ensures
        ({
            let after = damage_put(entries, source, target, amount);
            &&& is_told_apart(after)
            &&& dealt(after, source, target) == dealt(entries, source, target) + amount
            &&& s != source || t != target ==> dealt(after, s, t) == dealt(entries, s, t)
        }),
{
    lemma_damage_place(entries, source, target);
    let after = damage_put(entries, source, target, amount);
    match damage_place(entries, source, target) {
        Some(i) => {
            assert forall|a: int, b: int| 0 <= a < b < after.len() implies (
            #[trigger] after[a]).source != (#[trigger] after[b]).source || after[a].target
                != after[b].target by {
                assert(entries[a].source == after[a].source && entries[b].source
                    == after[b].source);
                assert(entries[a].target == after[a].target && entries[b].target
                    == after[b].target);
            }
            lemma_dealt(entries, source, target, i);
            lemma_dealt(after, source, target, i);
            if s != source || t != target {
                lemma_same(entries, after, s, t, i);
            }
        },
        None => {
            let n = entries.len() as int;
            assert forall|a: int, b: int| 0 <= a < b < after.len() implies (
            #[trigger] after[a]).source != (#[trigger] after[b]).source || after[a].target
                != after[b].target by {
                if b < n {
                    assert(entries[a] == after[a] && entries[b] == after[b]);
                } else {
                    assert(entries[a] == after[a]);
                }
            }
            lemma_dealt(entries, source, target, 0);
            lemma_dealt(after, source, target, n);
            assert(after.drop_last() =~= entries);
        },
    }
}

proof fn lemma_same(
    a: Seq<DamageEntry>,
    b: Seq<DamageEntry>,
    source: CardId,
    target: GameEntity,
    i: int,
)
    requires
        a.len() == b.len(),
        0 <= i < a.len(),
        forall|k: int| 0 <= k < a.len() && k != i ==> a[k] == b[k],
        a[i].source != source || a[i].target != target,
        b[i].source != source || b[i].target != target,
    ensures
        dealt(a, source, target) == dealt(b, source, target),
    decreases a.len(),
{
    if i < a.len() - 1 {
        let x = a.drop_last();
        let y = b.drop_last();
        assert forall|k: int| 0 <= k < x.len() && k != i implies x[k] == y[k] by {
            assert(a[k] == b[k]);
        }
        assert(a[a.len() - 1] == b[a.len() - 1]);
        lemma_same(x, y, source, target, i);
    } else {
        assert(a.drop_last() =~= b.drop_last());
    }
}

/// Damage that is taken away is none, and all other damage stays.
pub proof fn law_damage_is_taken_away(
    entries: Seq<DamageEntry>,
    source: CardId,
    target: GameEntity,
    s: CardId,
    t: GameEntity,
)
    requires
        is_told_apart(entries),
    ensures
        ({
            let after = damage_removed(entries, source, target);
            &&& is_told_apart(after)
            &&& dealt(after, source, target) == 0
            &&& s != source || t != target ==> dealt(after, s, t) == dealt(entries, s, t)
        }),
{
    lemma_damage_place(entries, source, target);
    let after = damage_removed(entries, source, target);
    match damage_place(entries, source, target) {
        Some(i) => {
            assert forall|a: int, b: int| 0 <= a < b < after.len() implies (
            #[trigger] after[a]).source != (#[trigger] after[b]).source || after[a].target
                != after[b].target by {
                let x = if a < i {
                    a
                } else {
                    a + 1
                };
                let y = if b < i {
                    b
                } else {
                    b + 1
                };
                assert(after[a] == entries[x] && after[b] == entries[y]);
            }
            assert forall|j: int| 0 <= j < after.len() implies (#[trigger] after[j]).source
                != source || after[j].target != target by {
                let x = if j < i {
                    j
                } else {
                    j + 1
                };
                assert(after[j] == entries[x]);
                assert(entries[i].source == source);
            }
            lemma_dealt(after, source, target, 0);
            if s != source || t != target {
                lemma_without(entries, i, s, t);
            }
        },
        None => {
            lemma_dealt(entries, source, target, 0);
        },
    }
}

proof fn lemma_without(entries: Seq<DamageEntry>, i: int, source: CardId, target: GameEntity)
    requires
        0 <= i < entries.len(),
        entries[i].source != source || entries[i].target != target,
    ensures
        dealt(entries.remove(i), source, target) == dealt(entries, source, target),
    decreases entries.len(),
{
    let after = entries.remove(i);
    if i < entries.len() - 1 {
        let short = entries.drop_last();
        lemma_without(short, i, source, target);
        assert(after.drop_last() =~= short.remove(i));
        assert(after.last() == entries.last());
    } else {
        assert(after =~= entries.drop_last());
    }
}

/// What is left of the damage of a batch after an effect on one part of it: changed damage counts with
/// its new amount, redirected damage at its new target, prevented damage as prevented and no longer as
/// damage, and damage that something else happens instead of is gone. What is not replaced stays.
pub proof fn law_damage_after_an_effect(
    b: BatchView,
    index: usize,
    was: DamageParams,
    now: DamageParams,
    result: ReplacementResult,
    prevention: bool,
)
    requires
        is_told_apart(b.damage),
        is_told_apart(b.prevent),
        dealt(b.damage, was.source, was.target) == was.amount,
        i32::MIN <= now.amount - was.amount <= i32::MAX,
        was.target != now.target ==> i32::MIN <= dealt(b.damage, was.source, now.target)
            + now.amount <= i32::MAX,
        i32::MIN <= dealt(b.prevent, was.source, was.target) + was.amount <= i32::MAX,
    ensures
        ({
            let after = damage_after(b, index, was, now, result, prevention);
            &&& result == ReplacementResult::NotReplaced ==> after == b
            &&& result == ReplacementResult::Updated && was.target == now.target ==> dealt(
                after.damage,
                was.source,
                was.target,
            ) == now.amount
            &&& result == ReplacementResult::Updated && was.target != now.target ==> dealt(
                after.damage,
                was.source,
                was.target,
            ) == 0 && dealt(after.damage, was.source, now.target) == dealt(
                b.damage,
                was.source,
                now.target,
            ) + now.amount
            &&& result != ReplacementResult::NotReplaced && result != ReplacementResult::Updated
                ==> dealt(after.damage, was.source, was.target) == 0 && dealt(
                after.prevent,
                was.source,
                was.target,
            ) == dealt(b.prevent, was.source, was.target) + if prevention {
                was.amount as int
            } else {
                0
            }
            &&& is_told_apart(after.damage) && is_told_apart(after.prevent)
        }),
{
    law_damage_is_taken_away(b.damage, was.source, was.target, was.source, now.target);
    law_damage_adds_up(b.prevent, was.source, was.target, was.amount, was.source, was.target);
    if was.target == now.target {
        law_damage_adds_up(
            b.damage,
            was.source,
            was.target,
            (now.amount - was.amount) as i32,
            was.source,
            was.target,
        );
    } else {
        let left = damage_removed(b.damage, was.source, was.target);
        law_damage_adds_up(left, was.source, now.target, now.amount, was.source, was.target);
    }
}

/// The part of a batch that an event tells of: its amount and target are those of the event.
pub proof fn law_params_follow_the_event(p: DamageParams, event: ReplacementEvent)
    ensures
        event matches ReplacementEvent::DamageToCard { target, amount, .. } ==> params_after(
            p,
            event,
        ) == (DamageParams { source: p.source, target: GameEntity::Card(target), amount }),
        event matches ReplacementEvent::DamageToPlayer { target, amount, .. } ==> params_after(
            p,
            event,
        ) == (DamageParams { source: p.source, target: GameEntity::Player(target), amount }),
{
}

proof fn lemma_damage_to(entries: Seq<DamageEntry>, target: GameEntity, e: DamageEntry)
    ensures
        damage_to(entries, target).contains(e) <==> entries.contains(e) && e.target == target,
    decreases entries.len(),
{
    let v = damage_to(entries, target);
    if entries.len() > 0 {
        let short = entries.drop_last();
        let before = damage_to(short, target);
        lemma_damage_to(short, target, e);
        if entries.contains(e) && e != entries.last() {
            let i = choose|i: int| 0 <= i < entries.len() && entries[i] == e;
            assert(short[i] == e);
        }
        if short.contains(e) {
            let i = choose|i: int| 0 <= i < short.len() && short[i] == e;
            assert(entries[i] == e);
        }
        assert(entries[entries.len() - 1] == entries.last());
        if before.contains(e) {
            let i = choose|i: int| 0 <= i < before.len() && before[i] == e;
            assert(v[i] == e);
        }
        if v.contains(e) {
            let i = choose|i: int| 0 <= i < v.len() && v[i] == e;
            if i < before.len() {
                assert(before[i] == e);
            }
        }
        if v.len() > before.len() {
            assert(v[before.len() as int] == entries.last());
        }
    }
}

proof fn lemma_targets(entries: Seq<DamageEntry>, t: GameEntity)
    ensures
        damage_targets(entries).contains(t) <==> exists|i: int|
            0 <= i < entries.len() && (#[trigger] entries[i]).target == t,
    decreases entries.len(),
{
    let v = damage_targets(entries);
    if entries.len() > 0 {
        let short = entries.drop_last();
        let before = damage_targets(short);
        lemma_targets(short, t);
        assert(entries[entries.len() - 1] == entries.last());
        if exists|i: int| 0 <= i < short.len() && (#[trigger] short[i]).target == t {
            let i = choose|i: int| 0 <= i < short.len() && (#[trigger] short[i]).target == t;
            assert(entries[i].target == t);
        }
        if exists|i: int| 0 <= i < entries.len() && (#[trigger] entries[i]).target == t {
            let i = choose|i: int| 0 <= i < entries.len() && (#[trigger] entries[i]).target == t;
            if i < short.len() {
                assert(short[i].target == t);
            }
        }
        if before.contains(t) {
            let i = choose|i: int| 0 <= i < before.len() && before[i] == t;
            assert(v[i] == t);
        }
        if v.contains(t) {
            let i = choose|i: int| 0 <= i < v.len() && v[i] == t;
            if i < before.len() {
                assert(before[i] == t);
            }
        }
        if v.len() > before.len() {
            assert(v[before.len() as int] == entries.last().target);
        }
    }
}

proof fn lemma_by_target(entries: Seq<DamageEntry>, targets: Seq<GameEntity>, e: DamageEntry)
    ensures
        by_target(entries, targets).contains(e) <==> entries.contains(e) && targets.contains(
            e.target,
        ),
    decreases targets.len(),
{
    if targets.len() > 0 {
        let short = targets.drop_last();
        let a = by_target(entries, short);
        let b = damage_to(entries, targets.last());
        lemma_by_target(entries, short, e);
        lemma_damage_to(entries, targets.last(), e);
        assert(targets[targets.len() - 1] == targets.last());
        if short.contains(e.target) {
            let i = choose|i: int| 0 <= i < short.len() && short[i] == e.target;
            assert(targets[i] == e.target);
        }
        if targets.contains(e.target) && e.target != targets.last() {
            let i = choose|i: int| 0 <= i < targets.len() && targets[i] == e.target;
            assert(short[i] == e.target);
        }
        if a.contains(e) {
            let i = choose|i: int| 0 <= i < a.len() && a[i] == e;
            assert((a + b)[i] == e);
        }
        if b.contains(e) {
            let i = choose|i: int| 0 <= i < b.len() && b[i] == e;
            assert((a + b)[a.len() + i] == e);
        }
        if (a + b).contains(e) {
            let i = choose|i: int| 0 <= i < (a + b).len() && (a + b)[i] == e;
            if i < a.len() {
                assert(a[i] == e);
            } else {
                assert(b[i - a.len()] == e);
            }
        }
    }
}

/// All damage of a batch is looked at, and no other.
pub proof fn law_all_damage_is_looked_at(entries: Seq<DamageEntry>, e: DamageEntry)
    ensures
        by_target(entries, damage_targets(entries)).contains(e) <==> entries.contains(e),
{
    lemma_by_target(entries, damage_targets(entries), e);
    lemma_targets(entries, e.target);
    if entries.contains(e) {
        let i = choose|i: int| 0 <= i < entries.len() && entries[i] == e;
        assert(entries[i].target == e.target);
    }
}

/// Damage of nothing is no part of a batch; other damage is one part of it, as it is.
pub proof fn law_parts_of_a_batch(
    b: BatchView,
    game: GameState,
    running: Seq<EffectKey>,
    e: DamageEntry,
)
    ensures
        e.amount <= 0 ==> with_damage(b, game, running, e) == b,
        with_damage(b, game, running, e).params == b.params || with_damage(b, game, running, e).params
            == b.params.push(
            DamageParams { source: e.source, target: e.target, amount: e.amount },
        ),
        with_damage(b, game, running, e).damage == b.damage,
        with_damage(b, game, running, e).prevent == b.prevent,
{
}

// ---- the untap step ----

/// Whether a card has an ability in words.
pub open spec fn says(c: Card, t: Seq<char>) -> bool {
    exists|i: int| 0 <= i < c.keywords@.len() && (#[trigger] c.keywords@[i])@ == t
}

proof fn lemma_texts_without(v: Seq<String>, t: Seq<char>)
    ensures
        forall|i: int|
            0 <= i < texts_without(v, t).len() ==> (#[trigger] texts_without(v, t)[i])@ != t,
    decreases v.len(),
{
    if v.len() > 0 {
        let rest = texts_without(v.skip(1), t);
        lemma_texts_without(v.skip(1), t);
        let w = texts_without(v, t);
        assert forall|i: int| 0 <= i < w.len() implies (#[trigger] w[i])@ != t by {
            if v[0]@ != t && i > 0 {
                assert(w[i] == rest[i - 1]);
            }
        }
    }
}

proof fn lemma_untapped_card(c: Card, d: Card, own: bool)
    requires
        card_untapped(c, d, own),
    ensures
        d.tapped == (c.tapped && !(own && untaps(c))),
        d.exerted == (c.exerted && c.zone != ZoneType::Battlefield),
        d.controller == c.controller,
        d.zone == c.zone,
        d.counters == c.counters,
{
    reveal(differs_by);
}

/// A permanent of the player untaps, unless it says that it does not, is exerted, or does not untap
/// this time; then that is over. Cards of others stay as they are.
pub proof fn law_permanents_untap(before: GameState, after: GameState, player: PlayerId, id: CardId)
    requires
        game_untapped(before, after, player),
        before.card_at(id) is Some,
        before.zone_order@.contains(id),
    ensures
        ({
            let c = before.card_at(id)->0;
            let d = after.card_at(id)->0;
            let own = c.zone == ZoneType::Battlefield && c.controller == player;
            let never = c.keyword("CARDNAME doesn't untap during your untap step."@);
            let next = c.keyword("This card doesn't untap during your next untap step."@);
            &&& after.card_at(id) is Some
            &&& own && !never && !next && !c.exerted ==> !d.tapped
            &&& !own ==> d.tapped == c.tapped
            &&& own && (never || next || c.exerted) ==> d.tapped == c.tapped
            &&& own && c.tapped && !never && !c.exerted && next ==> !says(
                d,
                "This card doesn't untap during your next untap step."@,
            )
            &&& c.zone == ZoneType::Battlefield ==> !d.exerted
            &&& d.controller == c.controller && d.zone == c.zone && d.counters == c.counters
        }),
{
    law_cards_of_a_zone(before, ZoneType::Battlefield, player, id);
    let i = id.0 as int;
    assert(CardId(i as u32) == id);
    let c = before.cards@[i];
    let d = after.cards@[i];
    assert(card_untapped(
        c,
        d,
        before.in_zone(ZoneType::Battlefield, player).contains(CardId(i as u32)),
    ));
    lemma_untapped_card(c, d, before.in_zone(ZoneType::Battlefield, player).contains(id));
    let t = "This card doesn't untap during your next untap step."@;
    lemma_texts_without(c.keywords@, t);
    if d.keywords@ == texts_without(c.keywords@, t) {
        assert forall|k: int| 0 <= k < d.keywords@.len() implies (#[trigger] d.keywords@[k])@ != t by {
            assert(texts_without(c.keywords@, t)[k]@ != t);
        }
        assert(!says(d, t));
    }
}

/// Day turns to night where the player of the turn before cast nothing, and night to day where they
/// cast two spells or more; otherwise neither does.
pub proof fn law_day_and_night(game: GameState, previous: PlayerId)
    ensures
        ({
            let n = cast_by_player(game, game.cast_last_turn@, previous);
            let next = next_day_time(game, Some(previous));
            &&& game.is_day && n == 0 ==> next == Some(true)
            &&& game.is_night && !game.is_day && n >= 2 ==> next == Some(false)
            &&& !game.is_day && !game.is_night ==> next is None
            &&& game.is_day && !game.is_night && n > 0 ==> next is None
            &&& game.is_night && !game.is_day && n < 2 ==> next is None
        }),
        next_day_time(game, None) is None,
{
}

/// Each spell that a player cast counts once, and those of others do not.
pub proof fn law_spells_of_a_player(
    game: GameState,
    ids: Seq<CardId>,
    id: CardId,
    player: PlayerId,
)
    requires
        game.card_at(id) is Some,
    ensures
        cast_by_player(game, Seq::empty(), player) == 0,
        cast_by_player(game, ids.push(id), player) == cast_by_player(game, ids, player) + if game.card_at(
            id,
        )->0.controller == player {
            1int
        } else {
            0
        },
{
    assert(ids.push(id).drop_last() =~= ids);
}

// ---- what follows from a batch ----

/// The last result of an effect on a part counts, and the last amount that was prevented of it.
pub proof fn law_last_results(
    results: Seq<SingleResult>,
    r: SingleResult,
    prevented: Seq<PreventedAmount>,
    p: PreventedAmount,
    key: i32,
    index: usize,
)
    ensures
        result_of(results.push(r), r.key, r.index) == r.result,
        key != r.key || index != r.index ==> result_of(results.push(r), key, index) == result_of(
            results,
            key,
            index,
        ),
        result_of(Seq::empty(), key, index) == ReplacementResult::NotReplaced,
        prevented_of(prevented.push(p), p.index) == p.amount,
        index != p.index ==> prevented_of(prevented.push(p), index) == prevented_of(
            prevented,
            index,
        ),
        prevented_of(Seq::empty(), index) == 0,
{
    assert(results.push(r).drop_last() =~= results);
    assert(prevented.push(p).drop_last() =~= prevented);
}

/// What is gathered for one ability: each part that the effect replaced adds its amount, or what was
/// prevented of it where the effect prevents; a part that it did not replace adds nothing. By source or
/// by target, parts of others wait.
pub proof fn law_gathered_damage(
    b: BatchView,
    key: i32,
    mode: ExecuteMode,
    indices: Seq<usize>,
    index: usize,
)
    requires
        index < b.params.len(),
    ensures
        ({
            let g = gathered(b, key, mode, indices);
            let after = gathered(b, key, mode, indices.push(index));
            let p = b.params[index as int];
            let amount = if mode.prevention {
                prevented_of(b.prevented, index)
            } else {
                p.amount
            };
            let replaced = result_of(b.results, key, index) != ReplacementResult::NotReplaced;
            let waits = (mode.per_source && g.sources.len() > 0 && !g.sources.contains(p.source)) || (
            mode.per_target && g.targets.len() > 0 && !g.targets.contains(p.target));
            &&& !replaced ==> after == g
            &&& replaced && waits ==> after.sum == g.sum && after.left == g.left.push(index)
                && after.sources == g.sources && after.targets == g.targets
            &&& replaced && !waits && i32::MIN <= g.sum + amount <= i32::MAX ==> after.sum == g.sum
                + amount && after.left == g.left && after.sources.contains(p.source)
                && after.targets.contains(p.target)
        }),
{
    assert(indices.push(index).drop_last() =~= indices);
    let g = gathered(b, key, mode, indices);
    let p = b.params[index as int];
    if !g.sources.contains(p.source) {
        assert(g.sources.push(p.source)[g.sources.len() as int] == p.source);
    }
    if !g.targets.contains(p.target) {
        assert(g.targets.push(p.target)[g.targets.len() as int] == p.target);
    }
}

/// What an effect on damage does at once: for each source, for each target, or for all.
pub proof fn law_modes_of_effects(e: ReplacementEffect)
    ensures
        string_of(e.execute_mode) == Some("PerSource"@) ==> mode_of(e).per_source && !mode_of(
            e,
        ).per_target,
        string_of(e.execute_mode) == Some("PerTarget"@) ==> mode_of(e).per_target && !mode_of(
            e,
        ).per_source,
        e.execute_mode is None ==> !mode_of(e).per_source && !mode_of(e).per_target,
        e.prevents ==> mode_of(e).prevention,
        !e.prevents && !e.prevention_effect ==> !mode_of(e).prevention,
{
    reveal_strlit("PerSource");
    reveal_strlit("PerTarget");
    assert("PerSource"@[3] == 'S' && "PerTarget"@[3] == 'T');
}

} // verus!
