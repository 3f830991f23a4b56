//! The abilities that follow a batch of damage, and whole runs over a batch.

use vstd::prelude::*;
use crate::game::{Card, EffectKey, GameState};
use crate::ordered_map::{entries_of, entry_at, map_len};
use crate::parsing::params::{found, params_of, string_of, text_of, Params};
use crate::replacement::collect::{effect_named, find_effect};
use crate::replacement::damage_batch::{
    batch_of, params_event, BatchView, PreventedAmount, ReplaceDamageBatch, SingleResult,
};
use crate::replacement::damage_map::CardDamageMap;
use crate::replacement::damage_run::{
    chosen_done, first_filled, is_prevention, possible_replacers,
};
use crate::replacement::effect::ReplacementEffect;
use crate::replacement::event::{damage_run_params, ReplacementResult};
use crate::spell::GameEntity;
use crate::text::text_eq;
use crate::types::CardId;

verus! {

/// What the result of an effect on an entry was.
pub open spec fn result_of(results: Seq<SingleResult>, key: i32, index: usize) -> ReplacementResult
    decreases results.len(),
{
    if results.len() == 0 {
        ReplacementResult::NotReplaced
    } else if results.last().key == key && results.last().index == index {
        results.last().result
    } else {
        result_of(results.drop_last(), key, index)
    }
}

fn find_result(results: &Vec<SingleResult>, key: i32, index: usize) -> (r: ReplacementResult)
    ensures
        r == result_of(results@, key, index),
{
    let ghost all = results@;
    let mut i: usize = results.len();
    assert(all.take(i as int) =~= all);
    while i > 0
        invariant
            i <= all.len(),
            all == results@,
            result_of(all, key, index) == result_of(all.take(i as int), key, index),
        decreases i,
    {
        assert(all.take(i as int).drop_last() =~= all.take(i - 1));
        let e = results[i - 1];
        assert(all.take(i as int).last() == e);
        if e.key == key && e.index == index {
            return e.result;
        }
        i = i - 1;
    }
    ReplacementResult::NotReplaced
}

/// How much damage of an entry was prevented.
pub open spec fn prevented_of(prevented: Seq<PreventedAmount>, index: usize) -> i32
    decreases prevented.len(),
{
    if prevented.len() == 0 {
        0
    } else if prevented.last().index == index {
        prevented.last().amount
    } else {
        prevented_of(prevented.drop_last(), index)
    }
}

fn find_prevented(prevented: &Vec<PreventedAmount>, index: usize) -> (r: i32)
    ensures
        r == prevented_of(prevented@, index),
{
    let ghost all = prevented@;
    let mut i: usize = prevented.len();
    assert(all.take(i as int) =~= all);
    while i > 0
        invariant
            i <= all.len(),
            all == prevented@,
            prevented_of(all, index) == prevented_of(all.take(i as int), index),
        decreases i,
    {
        assert(all.take(i as int).drop_last() =~= all.take(i - 1));
        let e = prevented[i - 1];
        assert(all.take(i as int).last() == e);
        if e.index == index {
            return e.amount;
        }
        i = i - 1;
    }
    0
}

/// How an effect tells its abilities apart.
#[derive(Debug, Clone, Copy, PartialEq, Eq, Structural)]
pub struct ExecuteMode {
    pub per_source: bool,
    pub per_target: bool,
    pub prevention: bool,
}

pub open spec fn mode_of(e: ReplacementEffect) -> ExecuteMode {
    ExecuteMode {
        per_source: string_of(e.execute_mode) == Some("PerSource"@),
        per_target: string_of(e.execute_mode) == Some("PerTarget"@),
        prevention: is_prevention(e),
    }
}

fn read_mode(e: &ReplacementEffect) -> (r: ExecuteMode)
    ensures
        r == mode_of(*e),
{
    let (per_source, per_target) = match &e.execute_mode {
        Some(t) => (text_eq(t.as_str(), "PerSource"), text_eq(t.as_str(), "PerTarget")),
        None => (false, false),
    };
    ExecuteMode { per_source, per_target, prevention: e.prevents || e.prevention_effect }
}

/// What goes into one ability: the damage of these sources to these targets. What is left goes
/// into later ones.
#[verifier::ext_equal]
pub struct Gathered {
    pub sources: Seq<CardId>,
    pub targets: Seq<GameEntity>,
    pub sum: i32,
    pub left: Seq<usize>,
}

pub open spec fn with_source(sources: Seq<CardId>, source: CardId) -> Seq<CardId> {
    if sources.contains(source) {
        sources
    } else {
        sources.push(source)
    }
}

pub open spec fn with_target(targets: Seq<GameEntity>, target: GameEntity) -> Seq<GameEntity> {
    if targets.contains(target) {
        targets
    } else {
        targets.push(target)
    }
}

/// Whether an entry goes into a later ability.
pub open spec fn goes_later(
    g: Gathered,
    mode: ExecuteMode,
    source: CardId,
    target: GameEntity,
) -> bool {
    ||| mode.per_source && g.sources.len() > 0 && !g.sources.contains(source)
    ||| mode.per_target && g.targets.len() > 0 && !g.targets.contains(target)
}

/// What is gathered of entries. Those that were not replaced are left out.
pub open spec fn gathered(
    b: BatchView,
    key: i32,
    mode: ExecuteMode,
    indices: Seq<usize>,
) -> Gathered
    decreases indices.len(),
{
    if indices.len() == 0 {
        Gathered { sources: Seq::empty(), targets: Seq::empty(), sum: 0, left: Seq::empty() }
    } else {
        let g = gathered(b, key, mode, indices.drop_last());
        let index = indices.last();
        if result_of(b.results, key, index) == ReplacementResult::NotReplaced || index
            >= b.params.len() {
            g
        } else {
            let p = b.params[index as int];
            if goes_later(g, mode, p.source, p.target) {
                Gathered { left: g.left.push(index), ..g }
            } else {
                let amount = if mode.prevention {
                    prevented_of(b.prevented, index)
                } else {
                    p.amount
                };
                Gathered {
                    sources: with_source(g.sources, p.source),
                    targets: with_target(g.targets, p.target),
                    sum: g.sum.wrapping_add(amount),
                    left: g.left,
                }
            }
        }
    }
}

pub proof fn lemma_gathered(b: BatchView, key: i32, mode: ExecuteMode, indices: Seq<usize>)
    ensures
        ({
            let g = gathered(b, key, mode, indices);
            &&& g.left.len() <= indices.len()
            &&& indices.len() > 0 ==> g.left.len() < indices.len()
            &&& g.sources.len() == 0 ==> g.targets.len() == 0 && g.left.len() == 0 && g.sum == 0
            &&& g.sources.len() > 0 ==> g.targets.len() > 0
        }),
    decreases indices.len(),
{
    if indices.len() > 0 {
        lemma_gathered(b, key, mode, indices.drop_last());
    }
}

/// The kind of a script: what it does.
pub open spec fn script_kind(raw: Seq<char>) -> Option<Seq<char>> {
    let p = params_of(raw);
    if found(p, "DB"@) is Some {
        found(p, "DB"@)
    } else if found(p, "AB"@) is Some {
        found(p, "AB"@)
    } else {
        found(p, "SP"@)
    }
}

/// Whether a script does nothing but change the damage itself.
pub open spec fn only_replaces(raw: Seq<char>) -> bool {
    let kind = script_kind(raw);
    ||| kind == Some("ReplaceDamage"@)
    ||| kind == Some("ReplaceSplitDamage"@)
    ||| kind == Some("ReplaceEffect"@)
}

/// The script of the ability of an effect: the one that it names, or else one that it was given.
pub open spec fn own_script(e: ReplacementEffect, host: Card) -> Option<Seq<char>> {
    match string_of(e.replace_with) {
        Some(name) => e.script(host, name),
        None => string_of(e.overriding_ability),
    }
}

/// The script of the ability that follows an effect: its own, or the sub-ability of one that does
/// nothing but change the damage. There may be none.
pub open spec fn following_script(e: ReplacementEffect, host: Card) -> Option<Seq<char>> {
    match own_script(e, host) {
        Some(raw) => if only_replaces(raw) {
            match found(params_of(raw), "SubAbility"@) {
                Some(name) => e.script(host, name),
                None => None,
            }
        } else {
            Some(raw)
        },
        None => None,
    }
}

fn check_only_replaces(p: &Params) -> (r: bool)
    requires
        p.wf(),
    ensures
        forall|raw: Seq<char>| p@ == #[trigger] params_of(raw) ==> r == only_replaces(raw),
{
    let kind = match p.get("DB") {
        Some(k) => Some(k),
        None => match p.get("AB") {
            Some(k) => Some(k),
            None => p.get("SP"),
        },
    };
    match kind {
        Some(k) => text_eq(k, "ReplaceDamage") || text_eq(k, "ReplaceSplitDamage") || text_eq(
            k,
            "ReplaceEffect",
        ),
        None => false,
    }
}

/// Finds the script of the ability that follows an effect.
pub fn find_following_script<'a>(e: &'a ReplacementEffect, host: &'a Card) -> (r: Option<&'a str>)
    ensures
        text_of(r) == following_script(*e, *host),
{
    let own = match &e.replace_with {
        Some(name) => e.find_script(host, name.as_str()),
        None => match &e.overriding_ability {
            Some(t) => Some(t.as_str()),
            None => None,
        },
    };
    let raw = match own {
        Some(t) => t,
        None => {
            return None;
        },
    };
    let p = Params::from_raw(raw);
    if !check_only_replaces(&p) {
        return Some(raw);
    }
    match p.get("SubAbility") {
        Some(name) => e.find_script(host, name),
        None => None,
    }
}

/// An ability that follows: its script, for damage of a source to a target.
pub struct BufferedDamage {
    pub effect: EffectKey,
    pub ability: String,
    pub source: CardId,
    pub target: GameEntity,
    pub amount: i32,
}

#[verifier::ext_equal]
pub struct BufferedView {
    pub effect: EffectKey,
    pub ability: Seq<char>,
    pub source: CardId,
    pub target: GameEntity,
    pub amount: i32,
}

impl View for BufferedDamage {
    type V = BufferedView;

    open spec fn view(&self) -> BufferedView {
        BufferedView {
            effect: self.effect,
            ability: self.ability@,
            source: self.source,
            target: self.target,
            amount: self.amount,
        }
    }
}

pub open spec fn buffered_views(v: Seq<BufferedDamage>) -> Seq<BufferedView> {
    Seq::new(v.len(), |i: int| v[i]@)
}

/// How often the ability of an effect follows, and for which damage.
pub open spec fn groups(
    b: BatchView,
    key: i32,
    name: EffectKey,
    ability: Seq<char>,
    mode: ExecuteMode,
    indices: Seq<usize>,
) -> Seq<BufferedView>
    decreases indices.len(),
{
    if indices.len() == 0 {
        Seq::empty()
    } else {
        proof {
            lemma_gathered(b, key, mode, indices);
        }
        let g = gathered(b, key, mode, indices);
        let rest = groups(b, key, name, ability, mode, g.left);
        if g.sum > 0 {
            seq![
                BufferedView {
                    effect: name,
                    ability,
                    source: g.sources[0],
                    target: g.targets[0],
                    amount: g.sum,
                },
            ] + rest
        } else {
            rest
        }
    }
}

/// The abilities that follow the effect of an entry of the map of what was carried out: none where
/// the effect has no ability to follow.
pub open spec fn groups_of(b: BatchView, game: GameState, entry: (i32, Seq<usize>)) -> Seq<
    BufferedView,
> {
    let (key, indices) = entry;
    if 0 <= key < b.effects.len() && indices.len() > 0 && indices[0] < b.params.len() {
        let name = b.effects[key as int];
        let event = params_event(b, b.params[indices[0] as int]);
        match (effect_named(game, event, None, name), game.card_at(name.card)) {
            (Some(e), Some(host)) => match following_script(e, host) {
                Some(ability) => groups(b, key, name, ability, mode_of(e), indices),
                None => Seq::empty(),
            },
            _ => Seq::empty(),
        }
    } else {
        Seq::empty()
    }
}

/// All the abilities that follow, effect by effect.
pub open spec fn buffered(b: BatchView, game: GameState, executed: Seq<(i32, Seq<usize>)>) -> Seq<
    BufferedView,
>
    decreases executed.len(),
{
    if executed.len() == 0 {
        Seq::empty()
    } else {
        buffered(b, game, executed.drop_last()) + groups_of(b, game, executed.last())
    }
}

fn has_source(v: &Vec<CardId>, x: CardId) -> (r: bool)
    ensures
        r == v@.contains(x),
{
    crate::lists::has_card(v, x)
}

fn has_target(v: &Vec<GameEntity>, x: GameEntity) -> (r: bool)
    ensures
        r == v@.contains(x),
{
    let mut i: usize = 0;
    while i < v.len()
        invariant
            i <= v@.len(),
            forall|k: int| 0 <= k < i ==> v@[k] != x,
        decreases v@.len() - i,
    {
        if v[i] == x {
            assert(v@[i as int] == x);
            return true;
        }
        i = i + 1;
    }
    false
}

impl ReplaceDamageBatch {
    fn gather(&self, key: i32, mode: ExecuteMode, indices: &Vec<usize>) -> (r: (
        Option<(CardId, GameEntity)>,
        i32,
        Vec<usize>,
    ))
        ensures
            ({
                let g = gathered(self@, key, mode, indices@);
                &&& r.1 == g.sum
                &&& r.2@ == g.left
                &&& match r.0 {
                    Some((s, t)) => g.sources.len() > 0 && g.targets.len() > 0 && s == g.sources[0]
                        && t == g.targets[0],
                    None => g.sources.len() == 0,
                }
            }),
    {
        let ghost all = indices@;
        let mut sources: Vec<CardId> = Vec::new();
        let mut targets: Vec<GameEntity> = Vec::new();
        let mut sum: i32 = 0;
        let mut left: Vec<usize> = Vec::new();
        let mut i: usize = 0;
        while i < indices.len()
            invariant
                i <= all.len(),
                all == indices@,
                gathered(self@, key, mode, all.take(i as int)) == (Gathered {
                    sources: sources@,
                    targets: targets@,
                    sum,
                    left: left@,
                }),
            decreases all.len() - i,
        {
            assert(all.take(i + 1).drop_last() =~= all.take(i as int));
            let index: usize = indices[i];
            if find_result(&self.replacement_results, key, index) != ReplacementResult::NotReplaced
                && index < self.run_params.len() {
                let p = self.run_params[index];
                let later = (mode.per_source && sources.len() > 0 && !has_source(
                    &sources,
                    p.source,
                )) || (mode.per_target && targets.len() > 0 && !has_target(&targets, p.target));
                if later {
                    left.push(index);
                } else {
                    let amount: i32 = if mode.prevention {
                        find_prevented(&self.prevented_amount, index)
                    } else {
                        p.amount
                    };
                    if !has_source(&sources, p.source) {
                        sources.push(p.source);
                    }
                    if !has_target(&targets, p.target) {
                        targets.push(p.target);
                    }
                    sum = sum.wrapping_add(amount);
                }
            }
            i = i + 1;
        }
        assert(all.take(i as int) =~= all);
        proof {
            lemma_gathered(self@, key, mode, all);
        }
        if sources.len() > 0 {
            (Some((sources[0], targets[0])), sum, left)
        } else {
            (None, sum, left)
        }
    }

    fn list_groups(
        &self,
        key: i32,
        name: EffectKey,
        ability: &str,
        mode: ExecuteMode,
        indices: &Vec<usize>,
        out: &mut Vec<BufferedDamage>,
    )
        ensures
            buffered_views(final(out)@) == buffered_views(old(out)@) + groups(
                self@,
                key,
                name,
                ability@,
                mode,
                indices@,
            ),
    {
        let ghost start = buffered_views(out@);
        let ghost all = groups(self@, key, name, ability@, mode, indices@);
        let mut list: Vec<usize> = indices.clone();
        assert(list@ == indices@);
        while list.len() > 0
            invariant
                all == groups(self@, key, name, ability@, mode, indices@),
                buffered_views(out@) + groups(self@, key, name, ability@, mode, list@) == start
                    + all,
            decreases list@.len(),
        {
            let ghost before = buffered_views(out@);
            let ghost held = out@;
            let (first, sum, left) = self.gather(key, mode, &list);
            let ghost rest = groups(self@, key, name, ability@, mode, left@);
            proof {
                lemma_gathered(self@, key, mode, list@);
            }
            if let Some((source, target)) = first {
                if sum > 0 {
                    let d = BufferedDamage {
                        effect: name,
                        ability: ability.to_string(),
                        source,
                        target,
                        amount: sum,
                    };
                    out.push(d);
                    assert(buffered_views(out@) =~= before.push(d@));
                    assert(before + (seq![d@] + rest) =~= before.push(d@) + rest);
                }
            }
            list = left;
        }
        assert(buffered_views(out@) + groups(self@, key, name, ability@, mode, list@)
            =~= buffered_views(out@));
    }

    /// Lists the abilities that follow the effects that were carried out.
    pub fn list_buffered(&self, game: &GameState) -> (r: Vec<BufferedDamage>)
        ensures
            buffered_views(r@) == buffered(self@, *game, self@.executed),
    {
        let ghost all = entries_of(self.executed_damage_map);
        let n: usize = map_len(&self.executed_damage_map);
        let mut out: Vec<BufferedDamage> = Vec::new();
        let mut i: usize = 0;
        assert(buffered_views(out@) =~= Seq::empty());
        while i < n
            invariant
                i <= n,
                n == all.len(),
                all == entries_of(self.executed_damage_map),
                buffered_views(out@) == buffered(self@, *game, all.take(i as int)),
            decreases n - i,
        {
            assert(all.take(i + 1).drop_last() =~= all.take(i as int));
            let (key, indices) = entry_at(&self.executed_damage_map, i);
            if key >= 0 && (key as usize) < self.effects.len() && indices.len() > 0 && indices[0]
                < self.run_params.len() {
                let name = self.effects[key as usize];
                let p = self.run_params[indices[0]];
                let event = damage_run_params(p.source, p.target, p.amount, self.is_combat);
                if let Some(e) = find_effect(game, &event, None, name) {
                    if let Some(host) = game.card(name.card) {
                        if let Some(ability) = find_following_script(e, host) {
                            self.list_groups(key, name, ability, read_mode(e), indices, &mut out);
                        }
                    }
                }
            }
            i = i + 1;
        }
        assert(all.take(i as int) =~= all);
        out
    }
}

/// Whether one choice leads from one batch to another: the player who is next takes the first
/// effect, and turns it down for no entry.
pub open spec fn first_choice(
    game: GameState,
    running: Seq<EffectKey>,
    before: BatchView,
    after: BatchView,
) -> bool {
    first_filled(before.lists) matches Some(at) && possible_replacers(before, at).len() > 0
        && chosen_done(
        game,
        running,
        before,
        after,
        at,
        possible_replacers(before, at)[0],
        Seq::empty(),
    )
}

/// Whether nothing is left to choose in a batch.
pub open spec fn is_settled(b: BatchView) -> bool {
    first_filled(b.lists) matches Some(at) ==> possible_replacers(b, at).len() == 0
}

/// Whether a trace is a run in which the first effect is always chosen.
pub open spec fn is_first_choice_run(
    game: GameState,
    running: Seq<EffectKey>,
    trace: Seq<BatchView>,
) -> bool {
    &&& trace.len() > 0
    &&& forall|i: int|
        0 <= i < trace.len() - 1 ==> first_choice(
            game,
            running,
            #[trigger] trace[i],
            trace[i + 1],
        )
}

/// Runs the effects on damage that is dealt at the same time, always choosing the first, and gives
/// the batch with the abilities that follow. No more than `u64::MAX` effects are chosen.
pub fn run_replace_damage(
    game: &GameState,
    running: &Vec<EffectKey>,
    is_combat: bool,
    damage_map: CardDamageMap,
    prevent_map: CardDamageMap,
) -> (r: (ReplaceDamageBatch, Vec<BufferedDamage>))
    ensures
        r.0.wf(),
        buffered_views(r.1@) == buffered(r.0@, *game, r.0@.executed),
        exists|trace: Seq<BatchView>|
            {
                &&& #[trigger] is_first_choice_run(*game, running@, trace)
                &&& trace[0] == batch_of(
                    *game,
                    running@,
                    is_combat,
                    damage_map.entries@,
                    prevent_map.entries@,
                )
                &&& trace.last() == r.0@
                &&& is_settled(r.0@) || trace.len() == u64::MAX + 1
            },
{
    let ghost start = batch_of(
        *game,
        running@,
        is_combat,
        damage_map.entries@,
        prevent_map.entries@,
    );
    let mut b = ReplaceDamageBatch::get_possible_replace_damage_list(
        game,
        running,
        is_combat,
        damage_map,
        prevent_map,
    );
    let answers: Vec<bool> = Vec::new();
    let ghost mut trace: Seq<BatchView> = seq![b@];
    let mut n: u64 = 0;
    let mut settled = false;
    while n < u64::MAX && !settled
        invariant
            b.wf(),
            answers@ == Seq::<bool>::empty(),
            trace.len() == n + 1,
            trace[0] == start,
            trace.last() == b@,
            is_first_choice_run(*game, running@, trace),
            settled ==> is_settled(b@),
        decreases u64::MAX - n, (if settled { 0int } else { 1int }),
    {
        let next = match b.next_chooser() {
            Some(at) => {
                let keys = b.list_replacers(at);
                if keys.len() > 0 {
                    Some((at, keys[0]))
                } else {
                    None
                }
            },
            None => None,
        };
        match next {
            Some((at, chosen)) => {
                let ghost before = b@;
                b.run_chosen(game, running, at, chosen, &answers);
                n = n + 1;
                proof {
                    let old_trace = trace;
                    trace = trace.push(b@);
                    assert(first_choice(*game, running@, before, b@));
                    assert forall|i: int| 0 <= i < trace.len() - 1 implies first_choice(
                        *game,
                        running@,
                        #[trigger] trace[i],
                        trace[i + 1],
                    ) by {
                        assert(trace[i] == old_trace[i]);
                        if i < trace.len() - 2 {
                            assert(trace[i + 1] == old_trace[i + 1]);
                        }
                    }
                }
            },
            None => {
                settled = true;
            },
        }
    }
    let follow = b.list_buffered(game);
    (b, follow)
}

} // verus!
