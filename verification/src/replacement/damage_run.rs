//! How the effects on a batch of damage are chosen and carried out.

use vstd::prelude::*;
use indexmap::IndexMap;
use crate::game::{EffectKey, GameState};
use crate::ordered_map::{
    entries_of, entry_at, keep_filled, kept, list_under, map_len, push_value, put_key,
    remove_entry, set_list_at, values_under, with_key, with_value, without_key,
};
use crate::replacement::collect::{effect_named, find_effect};
use crate::replacement::damage_batch::{
    chooser, damage_effects, damage_replacement_list, find_number, has_key, number_of, params_event,
    with_candidates, BatchView, DamageParams, PreventedAmount, ReplaceDamageBatch, SingleResult,
};
use crate::replacement::damage_map::{damage_put, damage_removed};
use crate::replacement::effect::ReplacementEffect;
use crate::replacement::event::{damage_run_params, ReplacementEvent, ReplacementResult};
use crate::replacement::replace_damage::damage_executed;
use crate::replacement::replace_damage;

verus! {

// ---- what may be chosen ----

/// The order of effects: by card, those of the card before those of the rules, then by place.
pub open spec fn key_less(a: EffectKey, b: EffectKey) -> bool {
    if a.card.0 != b.card.0 {
        a.card.0 < b.card.0
    } else if a.of_rules != b.of_rules {
        b.of_rules
    } else if a.index != b.index {
        a.index < b.index
    } else {
        a.id < b.id
    }
}

fn is_less(a: EffectKey, b: EffectKey) -> (r: bool)
    ensures
        r == key_less(a, b),
{
    if a.card.0 != b.card.0 {
        a.card.0 < b.card.0
    } else if a.of_rules != b.of_rules {
        b.of_rules
    } else if a.index != b.index {
        a.index < b.index
    } else {
        a.id < b.id
    }
}

/// A list with an effect put before the first that comes after it.
pub open spec fn put_in_order(keys: Seq<EffectKey>, key: EffectKey) -> Seq<EffectKey>
    decreases keys.len(),
{
    if keys.len() == 0 {
        seq![key]
    } else if key_less(key, keys.last()) {
        put_in_order(keys.drop_last(), key).push(keys.last())
    } else {
        keys.push(key)
    }
}

/// The effects of a list in their order.
pub open spec fn in_order(keys: Seq<EffectKey>) -> Seq<EffectKey>
    decreases keys.len(),
{
    if keys.len() == 0 {
        Seq::empty()
    } else {
        put_in_order(in_order(keys.drop_last()), keys.last())
    }
}

/// Whether no effect comes before one that is ahead of it.
pub open spec fn is_ordered(keys: Seq<EffectKey>) -> bool {
    forall|i: int, j: int|
        0 <= i < j < keys.len() ==> !key_less(#[trigger] keys[j], #[trigger] keys[i])
}

proof fn lemma_put_in_order(keys: Seq<EffectKey>, key: EffectKey)
    requires
        is_ordered(keys),
    ensures
        is_ordered(put_in_order(keys, key)),
        put_in_order(keys, key).to_multiset() == keys.to_multiset().insert(key),
    decreases keys.len(),
{
    broadcast use vstd::seq_lib::group_to_multiset_ensures;

    if keys.len() == 0 {
        assert(seq![key] =~= keys.push(key));
    } else if key_less(key, keys.last()) {
        let short = keys.drop_last();
        lemma_put_in_order(short, key);
        let r = put_in_order(short, key);
        assert(keys =~= short.push(keys.last()));
        assert forall|i: int| 0 <= i < r.len() implies !key_less(
            keys.last(),
            #[trigger] r[i],
        ) by {
            assert(r.contains(r[i]));
            assert(r.to_multiset().contains(r[i]));
            assert(short.to_multiset().contains(r[i]) || r[i] == key);
            if r[i] != key {
                assert(short.contains(r[i]));
                let k = choose|k: int| 0 <= k < short.len() && short[k] == r[i];
                assert(keys[k] == r[i]);
                assert(keys[keys.len() - 1] == keys.last());
            }
        }
        assert(r.push(keys.last()).to_multiset() =~= keys.to_multiset().insert(key));
    } else {
        assert forall|i: int, j: int| 0 <= i < j < keys.push(key).len() implies !key_less(
            #[trigger] keys.push(key)[j],
            #[trigger] keys.push(key)[i],
        ) by {
            if j == keys.len() {
                assert(!key_less(keys[keys.len() - 1], keys[i]) || i == keys.len() - 1);
            }
        }
    }
}

/// The effects that may be chosen come in order, and they are those of the list.
pub proof fn law_choices_are_ordered(keys: Seq<EffectKey>)
    ensures
        is_ordered(in_order(keys)),
        in_order(keys).to_multiset() == keys.to_multiset(),
    decreases keys.len(),
{
    broadcast use vstd::seq_lib::group_to_multiset_ensures;

    if keys.len() > 0 {
        law_choices_are_ordered(keys.drop_last());
        lemma_put_in_order(in_order(keys.drop_last()), keys.last());
        assert(keys =~= keys.drop_last().push(keys.last()));
    }
}

fn insert_in_order(keys: &mut Vec<EffectKey>, key: EffectKey)
    ensures
        final(keys)@ == put_in_order(old(keys)@, key),
{
    let ghost all = keys@;
    let mut i: usize = keys.len();
    assert(all.take(i as int) =~= all);
    assert(put_in_order(all.take(i as int), key) + all.skip(i as int) =~= put_in_order(all, key));
    while i > 0 && is_less(key, keys[i - 1])
        invariant
            i <= all.len(),
            keys@ == all,
            put_in_order(all, key) == put_in_order(all.take(i as int), key) + all.skip(i as int),
        decreases i,
    {
        let ghost part = all.take(i as int);
        assert(part.drop_last() =~= all.take(i - 1));
        assert(part.last() == all[i - 1]);
        assert(seq![all[i - 1]] + all.skip(i as int) =~= all.skip(i - 1));
        assert(put_in_order(part.drop_last(), key).push(part.last()) + all.skip(i as int)
            =~= put_in_order(part.drop_last(), key) + all.skip(i - 1));
        i = i - 1;
    }
    proof {
        let part = all.take(i as int);
        if i > 0 {
            assert(part.last() == all[i - 1]);
        }
        assert(put_in_order(part, key) =~= part.push(key));
        assert(all.insert(i as int, key) =~= part.push(key) + all.skip(i as int));
    }
    keys.insert(i, key);
}

/// The effects whose numbers a map holds.
pub open spec fn numbered(effects: Seq<EffectKey>, list: Seq<(i32, Seq<usize>)>) -> Seq<EffectKey>
    decreases list.len(),
{
    if list.len() == 0 {
        Seq::empty()
    } else {
        let before = numbered(effects, list.drop_last());
        let k = list.last().0;
        if 0 <= k < effects.len() {
            before.push(effects[k as int])
        } else {
            before
        }
    }
}

/// The effects that the player at a place may choose, in order.
pub open spec fn possible_replacers(b: BatchView, at: int) -> Seq<EffectKey> {
    in_order(numbered(b.effects, b.lists[at]))
}

/// The first place from which on a list is not empty.
pub open spec fn first_filled(lists: Seq<Seq<(i32, Seq<usize>)>>) -> Option<int>
    decreases lists.len(),
{
    if lists.len() == 0 {
        None
    } else if lists[0].len() > 0 {
        Some(0)
    } else {
        match first_filled(lists.skip(1)) {
            Some(i) => Some(i + 1),
            None => None,
        }
    }
}

// ---- what a chosen effect does ----

/// A list of numbers without one.
pub open spec fn without_index(values: Seq<usize>, index: usize) -> Seq<usize>
    decreases values.len(),
{
    if values.len() == 0 {
        Seq::empty()
    } else {
        let before = without_index(values.drop_last(), index);
        if values.last() == index {
            before
        } else {
            before.push(values.last())
        }
    }
}

fn drop_index(values: &Vec<usize>, index: usize) -> (r: Vec<usize>)
    ensures
        r@ == without_index(values@, index),
{
    let ghost all = values@;
    let mut out: Vec<usize> = Vec::new();
    let mut i: usize = 0;
    while i < values.len()
        invariant
            i <= all.len(),
            all == values@,
            out@ == without_index(all.take(i as int), index),
        decreases all.len() - i,
    {
        assert(all.take(i + 1).drop_last() =~= all.take(i as int));
        if values[i] != index {
            out.push(values[i]);
        }
        i = i + 1;
    }
    assert(all.take(i as int) =~= all);
    out
}

/// The candidates without an entry, but for one effect.
pub open spec fn each_without(
    list: Seq<(i32, Seq<usize>)>,
    key: i32,
    index: usize,
) -> Seq<(i32, Seq<usize>)> {
    Seq::new(
        list.len(),
        |i: int|
            if list[i].0 == key {
                list[i]
            } else {
                (list[i].0, without_index(list[i].1, index))
            },
    )
}

/// The candidates once an effect took an entry: no other is left for it.
pub open spec fn pruned(list: Seq<(i32, Seq<usize>)>, key: i32, index: usize) -> Seq<
    (i32, Seq<usize>),
> {
    kept(each_without(list, key, index), key)
}

fn prune(list: &mut IndexMap<i32, Vec<usize>>, key: i32, index: usize)
    ensures
        entries_of(*final(list)) == pruned(entries_of(*old(list)), key, index),
{
    let ghost all = entries_of(*list);
    let ghost goal = each_without(all, key, index);
    let n: usize = map_len(list);
    let mut i: usize = 0;
    while i < n
        invariant
            i <= n,
            n == all.len(),
            goal == each_without(all, key, index),
            entries_of(*list).len() == n,
            forall|k: int| 0 <= k < i ==> (#[trigger] entries_of(*list)[k]) == goal[k],
            forall|k: int| i <= k < n ==> (#[trigger] entries_of(*list)[k]) == all[k],
        decreases n - i,
    {
        let (k, values) = entry_at(list, i);
        if k != key {
            let rest = drop_index(values, index);
            set_list_at(list, i, rest);
        }
        i = i + 1;
    }
    assert(entries_of(*list) =~= goal);
    keep_filled(list, key);
}

/// An entry as an event leaves it.
pub open spec fn params_after(p: DamageParams, event: ReplacementEvent) -> DamageParams {
    match event {
        ReplacementEvent::DamageToCard { target, amount, .. } => DamageParams {
            source: p.source,
            target: crate::spell::GameEntity::Card(target),
            amount,
        },
        ReplacementEvent::DamageToPlayer { target, amount, .. } => DamageParams {
            source: p.source,
            target: crate::spell::GameEntity::Player(target),
            amount,
        },
        _ => p,
    }
}

fn replaced_damage(p: DamageParams, event: &ReplacementEvent) -> (r: DamageParams)
    ensures
        r == params_after(p, *event),
{
    match event {
        ReplacementEvent::DamageToCard { target, amount, .. } => DamageParams {
            source: p.source,
            target: crate::spell::GameEntity::Card(*target),
            amount: *amount,
        },
        ReplacementEvent::DamageToPlayer { target, amount, .. } => DamageParams {
            source: p.source,
            target: crate::spell::GameEntity::Player(*target),
            amount: *amount,
        },
        _ => p,
    }
}

/// The batch once an effect took an entry: no other effect of the same player does, and where the
/// damage was changed, the effects on what it is now are candidates.
pub open spec fn candidates_after(
    b: BatchView,
    game: GameState,
    running: Seq<EffectKey>,
    key: i32,
    index: usize,
    at: int,
    now: DamageParams,
    result: ReplacementResult,
) -> BatchView {
    if result == ReplacementResult::NotReplaced {
        b
    } else {
        let left = BatchView {
            lists: b.lists.update(at, pruned(b.lists[at], key, index)),
            ..b
        };
        match chooser(left, game, now.target) {
            Some(to) if result == ReplacementResult::Updated => with_candidates(
                left,
                to,
                damage_effects(game, running, params_event(b, now)),
                index,
            ),
            _ => left,
        }
    }
}

/// The damage once an effect took an entry.
pub open spec fn damage_after(
    b: BatchView,
    index: usize,
    was: DamageParams,
    now: DamageParams,
    result: ReplacementResult,
    prevention: bool,
) -> BatchView {
    match result {
        ReplacementResult::NotReplaced => b,
        ReplacementResult::Updated => if was.target == now.target {
            BatchView {
                damage: damage_put(
                    b.damage,
                    was.source,
                    was.target,
                    now.amount.wrapping_sub(was.amount),
                ),
                ..b
            }
        } else {
            BatchView {
                damage: damage_put(
                    damage_removed(b.damage, was.source, was.target),
                    was.source,
                    now.target,
                    now.amount,
                ),
                ..b
            }
        },
        _ => {
            let left = BatchView { damage: damage_removed(b.damage, was.source, was.target), ..b };
            if prevention {
                BatchView {
                    prevent: damage_put(b.prevent, was.source, was.target, was.amount),
                    prevented: b.prevented.push(PreventedAmount { index, amount: was.amount }),
                    ..left
                }
            } else {
                left
            }
        },
    }
}

/// Whether what an effect does counts as prevention.
pub open spec fn is_prevention(e: ReplacementEffect) -> bool {
    e.prevents || e.prevention_effect
}

/// The batch once an effect was carried out on an entry, with the event and the result of it.
pub open spec fn single_after(
    b: BatchView,
    game: GameState,
    running: Seq<EffectKey>,
    key: i32,
    e: ReplacementEffect,
    index: usize,
    at: int,
    event: ReplacementEvent,
    result: ReplacementResult,
) -> BatchView {
    let was = b.params[index as int];
    let now = params_after(was, event);
    let changed = BatchView { params: b.params.update(index as int, now), ..b };
    let chosen = candidates_after(changed, game, running, key, index, at, now, result);
    let dealt = damage_after(chosen, index, was, now, result, is_prevention(e));
    BatchView {
        results: dealt.results.push(SingleResult { key, index, result }),
        executed: with_value(dealt.executed, key, index),
        ..dealt
    }
}

/// Whether an effect is carried out: only an optional one may be turned down.
pub open spec fn agreed(e: ReplacementEffect, confirmed: bool) -> bool {
    confirmed || !e.optional
}

/// Whether a step from one batch to another carries an effect out on an entry. Where the effect
/// was turned down, the entry is not replaced.
pub open spec fn single_done(
    game: GameState,
    running: Seq<EffectKey>,
    before: BatchView,
    after: BatchView,
    key: i32,
    index: usize,
    at: int,
    confirmed: bool,
) -> bool {
    if 0 <= key < before.effects.len() && index < before.params.len() {
        let name = before.effects[key as int];
        let event = params_event(before, before.params[index as int]);
        match effect_named(game, event, None, name) {
            Some(e) => if agreed(e, confirmed) {
                exists|now: ReplacementEvent, result: ReplacementResult|
                    #[trigger] damage_executed(e, game, name.card, event, now, result) && after
                        == single_after(
                        before,
                        game,
                        running,
                        key,
                        e,
                        index,
                        at,
                        now,
                        result,
                    )
            } else {
                after == single_after(
                    before,
                    game,
                    running,
                    key,
                    e,
                    index,
                    at,
                    event,
                    ReplacementResult::NotReplaced,
                )
            },
            None => after == before,
        }
    } else {
        after == before
    }
}

/// The answer at a place; what was not asked is not turned down.
pub open spec fn answer_at(answers: Seq<bool>, i: int) -> bool {
    0 <= i < answers.len() ==> answers[i]
}

/// Whether steps from one batch to another carry an effect out on entries, one after the other.
pub open spec fn all_done(
    game: GameState,
    running: Seq<EffectKey>,
    before: BatchView,
    after: BatchView,
    key: i32,
    indices: Seq<usize>,
    at: int,
    answers: Seq<bool>,
) -> bool
    decreases indices.len(),
{
    if indices.len() == 0 {
        after == before
    } else {
        exists|mid: BatchView|
            {
                &&& all_done(game, running, before, mid, key, indices.drop_last(), at, answers)
                &&& #[trigger] single_done(
                    game,
                    running,
                    mid,
                    after,
                    key,
                    indices.last(),
                    at,
                    answer_at(answers, indices.len() - 1),
                )
            }
    }
}

/// The effects that run while one does.
pub open spec fn running_with(running: Seq<EffectKey>, key: EffectKey) -> Seq<EffectKey> {
    if running.contains(key) {
        running
    } else {
        running.push(key)
    }
}

/// The batch as an effect begins.
pub open spec fn begun(b: BatchView, key: i32) -> BatchView {
    BatchView { executed: with_key(b.executed, key), ..b }
}

/// The batch as an effect ends: it is no candidate any more.
pub open spec fn ended(b: BatchView, at: int, key: i32) -> BatchView {
    BatchView { lists: b.lists.update(at, without_key(b.lists[at], key)), ..b }
}

/// Whether a step from one batch to another carries a chosen effect out on all its entries.
pub open spec fn chosen_done(
    game: GameState,
    running: Seq<EffectKey>,
    before: BatchView,
    after: BatchView,
    at: int,
    chosen: EffectKey,
    answers: Seq<bool>,
) -> bool {
    match number_of(before.effects, chosen) {
        Some(key) => match values_under(before.lists[at], key) {
            Some(indices) => exists|mid: BatchView|
                all_done(
                    game,
                    running_with(running, chosen),
                    begun(before, key),
                    mid,
                    key,
                    indices,
                    at,
                    answers,
                ) && after == #[trigger] ended(mid, at, key),
            None => after == before,
        },
        None => after == before,
    }
}

impl ReplaceDamageBatch {
    /// The place of the player who chooses next.
    pub fn next_chooser(&self) -> (r: Option<usize>)
        requires
            self.wf(),
        ensures
            match r {
                Some(i) => first_filled(self@.lists) == Some(i as int) && i < self.players@.len(),
                None => first_filled(self@.lists) is None,
            },
    {
        let ghost all = self@.lists;
        let mut i: usize = 0;
        assert(all.skip(0) =~= all);
        while i < self.replace_damage_list.len()
            invariant
                i <= all.len(),
                all == self@.lists,
                all.len() == self.replace_damage_list@.len(),
                self.wf(),
                first_filled(all) == (match first_filled(all.skip(i as int)) {
                    Some(k) => Some(k + i),
                    None => None,
                }),
            decreases all.len() - i,
        {
            assert(all.skip(i as int).skip(1) =~= all.skip(i + 1));
            assert(all[i as int] == entries_of(self.replace_damage_list@[i as int]));
            if map_len(&self.replace_damage_list[i]) > 0 {
                return Some(i);
            }
            i = i + 1;
        }
        None
    }

    /// Lists the effects that the player at a place may choose.
    pub fn list_replacers(&self, at: usize) -> (r: Vec<EffectKey>)
        requires
            self.wf(),
            at < self.players@.len(),
        ensures
            r@ == possible_replacers(self@, at as int),
    {
        let list = &self.replace_damage_list[at];
        let ghost all = entries_of(*list);
        let n: usize = map_len(list);
        let mut keys: Vec<EffectKey> = Vec::new();
        let mut i: usize = 0;
        while i < n
            invariant
                i <= n,
                n == all.len(),
                all == entries_of(*list),
                keys@ == in_order(numbered(self.effects@, all.take(i as int))),
            decreases n - i,
        {
            assert(all.take(i + 1).drop_last() =~= all.take(i as int));
            let k: i32 = entry_at(list, i).0;
            if k >= 0 && (k as usize) < self.effects.len() {
                let ghost part = numbered(self.effects@, all.take(i as int));
                assert(part.push(self.effects@[k as int]).drop_last() =~= part);
                insert_in_order(&mut keys, self.effects[k as usize]);
            }
            i = i + 1;
        }
        assert(all.take(i as int) =~= all);
        keys
    }

    fn choose_after(
        &mut self,
        game: &GameState,
        running: &Vec<EffectKey>,
        key: i32,
        index: usize,
        at: usize,
        now: DamageParams,
        result: ReplacementResult,
    )
        requires
            old(self).wf(),
            at < old(self).players@.len(),
        ensures
            final(self).wf(),
            final(self)@ == candidates_after(
                old(self)@,
                *game,
                running@,
                key,
                index,
                at as int,
                now,
                result,
            ),
    {
        if result == ReplacementResult::NotReplaced {
            return;
        }
        let ghost before = self@;
        prune(&mut self.replace_damage_list[at], key, index);
        assert(self@ =~= BatchView {
            lists: before.lists.update(at as int, pruned(before.lists[at as int], key, index)),
            ..before
        });
        if result == ReplacementResult::Updated {
            if let Some(to) = self.find_chooser(game, now.target) {
                let event = damage_run_params(now.source, now.target, now.amount, self.is_combat);
                let keys = damage_replacement_list(game, running, &event);
                self.take_candidates(to, &keys, index);
            }
        }
    }

    fn deal_after(
        &mut self,
        index: usize,
        was: DamageParams,
        now: DamageParams,
        result: ReplacementResult,
        prevention: bool,
    )
        requires
            old(self).wf(),
        ensures
            final(self).wf(),
            final(self)@ == damage_after(old(self)@, index, was, now, result, prevention),
    {
        match result {
            ReplacementResult::NotReplaced => {},
            ReplacementResult::Updated => {
                if was.target == now.target {
                    self.damage_map.put(
                        was.source,
                        was.target,
                        now.amount.wrapping_sub(was.amount),
                    );
                } else {
                    self.damage_map.remove(was.source, was.target);
                    self.damage_map.put(was.source, now.target, now.amount);
                }
            },
            _ => {
                self.damage_map.remove(was.source, was.target);
                if prevention {
                    self.prevent_map.put(was.source, was.target, was.amount);
                    self.prevented_amount.push(PreventedAmount { index, amount: was.amount });
                }
            },
        }
    }

    fn record(
        &mut self,
        game: &GameState,
        running: &Vec<EffectKey>,
        key: i32,
        e: &ReplacementEffect,
        index: usize,
        at: usize,
        event: &ReplacementEvent,
        result: ReplacementResult,
    )
        requires
            old(self).wf(),
            at < old(self).players@.len(),
            index < old(self).run_params@.len(),
        ensures
            final(self).wf(),
            final(self).players@ == old(self).players@,
            final(self)@ == single_after(
                old(self)@,
                *game,
                running@,
                key,
                *e,
                index,
                at as int,
                *event,
                result,
            ),
    {
        let was = self.run_params[index];
        let now = replaced_damage(was, event);
        self.run_params.set(index, now);
        self.choose_after(game, running, key, index, at, now, result);
        self.deal_after(index, was, now, result, e.prevents || e.prevention_effect);
        self.replacement_results.push(SingleResult { key, index, result });
        push_value(&mut self.executed_damage_map, key, index);
    }

    pub(crate) fn run_single_replace_damage_effect(
        &mut self,
        game: &GameState,
        running: &Vec<EffectKey>,
        key: i32,
        index: usize,
        at: usize,
        confirmed: bool,
    )
        requires
            old(self).wf(),
            at < old(self).players@.len(),
        ensures
            final(self).wf(),
            final(self).players@ == old(self).players@,
            single_done(
                *game,
                running@,
                old(self)@,
                final(self)@,
                key,
                index,
                at as int,
                confirmed,
            ),
    {
        if key < 0 || key as usize >= self.effects.len() || index >= self.run_params.len() {
            return;
        }
        let name = self.effects[key as usize];
        let was = self.run_params[index];
        let mut event = damage_run_params(was.source, was.target, was.amount, self.is_combat);
        if let Some(e) = find_effect(game, &event, None, name) {
            let result = if confirmed || !e.optional {
                replace_damage::execute(e, &mut event, game, name.card)
            } else {
                ReplacementResult::NotReplaced
            };
            self.record(game, running, key, e, index, at, &event, result);
        }
    }

    fn run_all(
        &mut self,
        game: &GameState,
        running: &Vec<EffectKey>,
        key: i32,
        indices: &Vec<usize>,
        at: usize,
        answers: &Vec<bool>,
    )
        requires
            old(self).wf(),
            at < old(self).players@.len(),
        ensures
            final(self).wf(),
            final(self).players@ == old(self).players@,
            all_done(
                *game,
                running@,
                old(self)@,
                final(self)@,
                key,
                indices@,
                at as int,
                answers@,
            ),
    {
        let ghost all = indices@;
        let mut i: usize = 0;
        while i < indices.len()
            invariant
                i <= all.len(),
                all == indices@,
                self.wf(),
                self.players@ == old(self).players@,
                at < self.players@.len(),
                all_done(
                    *game,
                    running@,
                    old(self)@,
                    self@,
                    key,
                    all.take(i as int),
                    at as int,
                    answers@,
                ),
            decreases all.len() - i,
        {
            assert(all.take(i + 1).drop_last() =~= all.take(i as int));
            let confirmed = if i < answers.len() {
                answers[i]
            } else {
                true
            };
            let ghost mid = self@;
            self.run_single_replace_damage_effect(game, running, key, indices[i], at, confirmed);
            assert(single_done(
                *game,
                running@,
                mid,
                self@,
                key,
                all.take(i + 1).last(),
                at as int,
                answer_at(answers@, all.take(i + 1).len() - 1),
            ));
            i = i + 1;
        }
        assert(all.take(i as int) =~= all);
    }

    /// Carries a chosen effect out on all its entries. `answers` says for each of them, in their
    /// order, whether the effect is not turned down; only an optional effect can be.
    pub fn run_chosen(
        &mut self,
        game: &GameState,
        running: &Vec<EffectKey>,
        at: usize,
        chosen: EffectKey,
        answers: &Vec<bool>,
    )
        requires
            old(self).wf(),
            at < old(self).players@.len(),
        ensures
            final(self).wf(),
            final(self).players@ == old(self).players@,
            chosen_done(
                *game,
                running@,
                old(self)@,
                final(self)@,
                at as int,
                chosen,
                answers@,
            ),
    {
        let key: i32 = match find_number(&self.effects, chosen) {
            Some(k) => k,
            None => {
                return;
            },
        };
        let indices: Vec<usize> = match list_under(&self.replace_damage_list[at], key) {
            Some(v) => v.clone(),
            None => {
                return;
            },
        };
        assert(values_under(self@.lists[at as int], key) == Some(indices@));
        put_key(&mut self.executed_damage_map, key);
        assert(self@ =~= begun(old(self)@, key));
        let mut now: Vec<EffectKey> = running.clone();
        if !has_key(&now, chosen) {
            now.push(chosen);
        }
        assert(now@ == running_with(running@, chosen));
        self.run_all(game, &now, key, &indices, at, answers);
        let ghost mid = self@;
        remove_entry(&mut self.replace_damage_list[at], key);
        assert(self@ =~= ended(mid, at as int, key));
    }
}

} // verus!
