//! Runs over a batch of damage with players who choose among effects and may turn them down.

use vstd::prelude::*;
use crate::game::{EffectKey, GameState};
use crate::ordered_map::{list_under, put_key, remove_entry, values_under};
use crate::replacement::collect::{effect_named, find_effect};
use crate::replacement::damage_batch::{
    batch_of, find_number, has_key, number_of, params_event, BatchView, DamageParams,
    ReplaceDamageBatch,
};
use crate::replacement::damage_buffer::{
    buffered, buffered_views, first_choice, BufferedDamage, BufferedView,
};
use crate::replacement::damage_map::CardDamageMap;
use crate::replacement::damage_run::{
    all_done, answer_at, begun, chosen_done, ended, first_filled, possible_replacers, running_with,
    single_done,
};
use crate::replacement::effect::ReplacementEffect;
use crate::replacement::event::damage_run_params;
use crate::replacement::handler::{decider, optional_decider_for_effect};
use crate::types::PlayerId;

verus! {

/// An effect that is being carried out: whose choice it was, its number, the entries that it is
/// carried out on, and which of them is next.
pub struct DamageTask {
    pub at: usize,
    pub chosen: EffectKey,
    pub key: i32,
    pub indices: Vec<usize>,
    pub place: usize,
}

#[verifier::ext_equal]
pub struct TaskView {
    pub at: int,
    pub chosen: EffectKey,
    pub key: i32,
    pub indices: Seq<usize>,
    pub place: int,
}

impl View for DamageTask {
    type V = TaskView;

    open spec fn view(&self) -> TaskView {
        TaskView {
            at: self.at as int,
            chosen: self.chosen,
            key: self.key,
            indices: self.indices@,
            place: self.place as int,
        }
    }
}

pub open spec fn task_view(t: Option<DamageTask>) -> Option<TaskView> {
    match t {
        Some(x) => Some(x@),
        None => None,
    }
}

/// A run over a batch of damage. Without players who are asked the first effect is always chosen,
/// and none is turned down.
pub struct DamageRun {
    pub batch: ReplaceDamageBatch,
    pub asks: bool,
    pub task: Option<DamageTask>,
}

#[verifier::ext_equal]
pub struct DamageRunView {
    pub batch: BatchView,
    pub asks: bool,
    pub task: Option<TaskView>,
}

impl View for DamageRun {
    type V = DamageRunView;

    open spec fn view(&self) -> DamageRunView {
        DamageRunView { batch: self.batch@, asks: self.asks, task: task_view(self.task) }
    }
}

/// What a run needs next.
pub enum DamageStep {
    /// The run is over; these abilities follow.
    Done(Vec<BufferedDamage>),
    /// One of the effects is to be chosen; without `ask`, the first.
    Choose { player: PlayerId, effects: Vec<EffectKey>, ask: bool },
    /// The effect is to be carried out on damage; with `ask`, the player may turn it down.
    Confirm {
        player: Option<PlayerId>,
        effect: EffectKey,
        damage: Option<DamageParams>,
        ask: bool,
    },
}

#[verifier::ext_equal]
pub enum StepView {
    Done(Seq<BufferedView>),
    Choose { player: PlayerId, effects: Seq<EffectKey>, ask: bool },
    Confirm {
        player: Option<PlayerId>,
        effect: EffectKey,
        damage: Option<DamageParams>,
        ask: bool,
    },
}

impl View for DamageStep {
    type V = StepView;

    open spec fn view(&self) -> StepView {
        match self {
            DamageStep::Done(v) => StepView::Done(buffered_views(v@)),
            DamageStep::Choose { player, effects, ask } => StepView::Choose {
                player: *player,
                effects: effects@,
                ask: *ask,
            },
            DamageStep::Confirm { player, effect, damage, ask } => StepView::Confirm {
                player: *player,
                effect: *effect,
                damage: *damage,
                ask: *ask,
            },
        }
    }
}

/// What is replied to a run: the place of an effect, or whether one is carried out.
#[derive(Debug, Clone, Copy, PartialEq, Eq, Structural)]
pub enum DamageReply {
    Chosen(usize),
    Confirmed(bool),
}

/// What is asked before an effect is carried out on the next entry: a player is asked only where the
/// effect is optional.
pub open spec fn confirmation(game: GameState, r: DamageRunView, t: TaskView) -> StepView {
    let b = r.batch;
    let index = t.indices[t.place];
    let silent = StepView::Confirm { player: None, effect: t.chosen, damage: None, ask: false };
    if 0 <= t.key < b.effects.len() && index < b.params.len() {
        let name = b.effects[t.key as int];
        let p = b.params[index as int];
        let event = params_event(b, p);
        match effect_named(game, event, None, name) {
            Some(e) => StepView::Confirm {
                player: decider(e, game, name.card, event),
                effect: name,
                damage: Some(p),
                ask: r.asks && e.optional,
            },
            None => silent,
        }
    } else {
        silent
    }
}

/// The player who chooses next, by their place, and what they may choose.
pub open spec fn next_choice(b: BatchView) -> Option<(int, Seq<EffectKey>)> {
    match first_filled(b.lists) {
        Some(at) => if possible_replacers(b, at).len() > 0 {
            Some((at, possible_replacers(b, at)))
        } else {
            None
        },
        None => None,
    }
}

/// What a run needs next: a player is asked to choose only among several effects.
pub open spec fn needed(game: GameState, r: DamageRunView) -> StepView {
    match r.task {
        Some(t) => confirmation(game, r, t),
        None => match next_choice(r.batch) {
            Some((at, keys)) => StepView::Choose {
                player: r.batch.players[at],
                effects: keys,
                ask: r.asks && keys.len() > 1,
            },
            None => StepView::Done(buffered(r.batch, game, r.batch.executed)),
        },
    }
}

/// The effect that a reply chooses: a place behind the last counts as the last.
pub open spec fn picked(asks: bool, keys: Seq<EffectKey>, i: usize) -> EffectKey {
    if !asks {
        keys[0]
    } else if i < keys.len() {
        keys[i as int]
    } else {
        keys.last()
    }
}

/// A run once an effect is chosen.
pub open spec fn with_task(r: DamageRunView, at: int, chosen: EffectKey) -> DamageRunView {
    match number_of(r.batch.effects, chosen) {
        Some(key) => match values_under(r.batch.lists[at], key) {
            Some(indices) => if indices.len() == 0 {
                DamageRunView { batch: ended(begun(r.batch, key), at, key), ..r }
            } else {
                DamageRunView {
                    batch: begun(r.batch, key),
                    task: Some(TaskView { at, chosen, key, indices, place: 0 }),
                    ..r
                }
            },
            None => r,
        },
        None => r,
    }
}

/// A run once an effect was carried out on an entry and the batch is as given.
pub open spec fn past_entry(r: DamageRunView, t: TaskView, b: BatchView) -> DamageRunView {
    if t.place + 1 >= t.indices.len() {
        DamageRunView { batch: ended(b, t.at, t.key), task: None, ..r }
    } else {
        DamageRunView { batch: b, task: Some(TaskView { place: t.place + 1, ..t }), ..r }
    }
}

/// Whether an effect is not turned down: without players who are asked none is.
pub open spec fn stays_on(asks: bool, yes: bool) -> bool {
    yes || !asks
}

/// Whether a reply leads from one run to another. A reply that is not waited for changes nothing.
pub open spec fn replied(
    game: GameState,
    running: Seq<EffectKey>,
    before: DamageRunView,
    reply: DamageReply,
    after: DamageRunView,
) -> bool {
    match (before.task, reply) {
        (None, DamageReply::Chosen(i)) => match next_choice(before.batch) {
            Some((at, keys)) => after == with_task(before, at, picked(before.asks, keys, i)),
            None => after == before,
        },
        (Some(t), DamageReply::Confirmed(yes)) => exists|mid: BatchView|
            {
                &&& single_done(
                    game,
                    running_with(running, t.chosen),
                    before.batch,
                    mid,
                    t.key,
                    t.indices[t.place],
                    t.at,
                    stays_on(before.asks, yes),
                )
                &&& after == #[trigger] past_entry(before, t, mid)
            },
        _ => after == before,
    }
}

impl DamageRun {
    pub open spec fn wf(&self) -> bool {
        &&& self.batch.wf()
        &&& self.task matches Some(t) ==> t.at < self.batch.players@.len() && t.place
            < t.indices@.len()
    }

    /// Starts a run over damage that is dealt at the same time.
    pub fn start(
        game: &GameState,
        running: &Vec<EffectKey>,
        is_combat: bool,
        damage_map: CardDamageMap,
        prevent_map: CardDamageMap,
        asks: bool,
    ) -> (r: DamageRun)
        ensures
            r.wf(),
            r@ == (DamageRunView {
                batch: batch_of(
                    *game,
                    running@,
                    is_combat,
                    damage_map.entries@,
                    prevent_map.entries@,
                ),
                asks,
                task: None,
            }),
    {
        let batch = ReplaceDamageBatch::get_possible_replace_damage_list(
            game,
            running,
            is_combat,
            damage_map,
            prevent_map,
        );
        DamageRun { batch, asks, task: None }
    }

    fn ask(&self, game: &GameState, t: &DamageTask) -> (r: DamageStep)
        requires
            self.wf(),
            t.place < t.indices@.len(),
        ensures
            r@ == confirmation(*game, self@, t@),
    {
        let index: usize = t.indices[t.place];
        let b = &self.batch;
        if t.key >= 0 && (t.key as usize) < b.effects.len() && index < b.run_params.len() {
            let name = b.effects[t.key as usize];
            let p = b.run_params[index];
            let event = damage_run_params(p.source, p.target, p.amount, b.is_combat);
            if let Some(e) = find_effect(game, &event, None, name) {
                return DamageStep::Confirm {
                    player: optional_decider_for_effect(e, game, name.card, &event),
                    effect: name,
                    damage: Some(p),
                    ask: self.asks && e.optional,
                };
            }
        }
        DamageStep::Confirm { player: None, effect: t.chosen, damage: None, ask: false }
    }

    fn find_choice(&self) -> (r: Option<(usize, Vec<EffectKey>)>)
        requires
            self.wf(),
        ensures
            match r {
                Some((at, keys)) => next_choice(self@.batch) == Some((at as int, keys@)) && at
                    < self.batch.players@.len() && keys@.len() > 0,
                None => next_choice(self@.batch) is None,
            },
    {
        match self.batch.next_chooser() {
            Some(at) => {
                let keys = self.batch.list_replacers(at);
                if keys.len() > 0 {
                    Some((at, keys))
                } else {
                    None
                }
            },
            None => None,
        }
    }

    /// Says what the run needs next.
    pub fn next_step(&self, game: &GameState) -> (r: DamageStep)
        requires
            self.wf(),
        ensures
            r@ == needed(*game, self@),
    {
        match &self.task {
            Some(t) => self.ask(game, t),
            None => match self.find_choice() {
                Some((at, keys)) => {
                    let ask = self.asks && keys.len() > 1;
                    DamageStep::Choose { player: self.batch.players[at], effects: keys, ask }
                },
                None => DamageStep::Done(self.batch.list_buffered(game)),
            },
        }
    }

    fn begin(&mut self, at: usize, chosen: EffectKey)
        requires
            old(self).wf(),
            old(self).task is None,
            at < old(self).batch.players@.len(),
        ensures
            final(self).wf(),
            final(self)@ == with_task(old(self)@, at as int, chosen),
    {
        let key: i32 = match find_number(&self.batch.effects, chosen) {
            Some(k) => k,
            None => {
                return;
            },
        };
        let indices: Vec<usize> = match list_under(&self.batch.replace_damage_list[at], key) {
            Some(v) => v.clone(),
            None => {
                return;
            },
        };
        assert(values_under(self.batch@.lists[at as int], key) == Some(indices@));
        let ghost before = self.batch@;
        put_key(&mut self.batch.executed_damage_map, key);
        assert(self.batch@ =~= begun(before, key));
        if indices.len() == 0 {
            let ghost mid = self.batch@;
            remove_entry(&mut self.batch.replace_damage_list[at], key);
            assert(self.batch@ =~= ended(mid, at as int, key));
        } else {
            self.task = Some(DamageTask { at, chosen, key, indices, place: 0 });
        }
    }

    fn carry_out(&mut self, game: &GameState, running: &Vec<EffectKey>, t: DamageTask, yes: bool)
        requires
            old(self).wf(),
            old(self).task is None,
            t.at < old(self).batch.players@.len(),
            t.place < t.indices@.len(),
        ensures
            final(self).wf(),
            final(self).asks == old(self).asks,
            replied(
                *game,
                running@,
                (DamageRunView { task: Some(t@), ..old(self)@ }),
                DamageReply::Confirmed(yes),
                final(self)@,
            ),
    {
        let ghost before = DamageRunView { task: Some(t@), ..self@ };
        let mut now: Vec<EffectKey> = running.clone();
        if !has_key(&now, t.chosen) {
            now.push(t.chosen);
        }
        assert(now@ == running_with(running@, t.chosen));
        let index: usize = t.indices[t.place];
        let goes = yes || !self.asks;
        self.batch.run_single_replace_damage_effect(game, &now, t.key, index, t.at, goes);
        let ghost mid = self.batch@;
        assert(single_done(
            *game,
            running_with(running@, t@.chosen),
            before.batch,
            mid,
            t@.key,
            t@.indices[t@.place],
            t@.at,
            stays_on(before.asks, yes),
        ));
        if t.indices.len() - t.place <= 1 {
            remove_entry(&mut self.batch.replace_damage_list[t.at], t.key);
            assert(self.batch@ =~= ended(mid, t.at as int, t.key));
            assert(self@ =~= past_entry(before, t@, mid));
        } else {
            let mut next = t;
            next.place = next.place + 1;
            self.task = Some(next);
            assert(self@ =~= past_entry(before, t@, mid));
        }
    }

    /// Goes on with what was replied.
    pub fn reply(&mut self, game: &GameState, running: &Vec<EffectKey>, reply: DamageReply)
        requires
            old(self).wf(),
        ensures
            final(self).wf(),
            final(self).asks == old(self).asks,
            replied(*game, running@, old(self)@, reply, final(self)@),
    {
        match reply {
            DamageReply::Chosen(i) => {
                if self.task.is_some() {
                    return;
                }
                if let Some((at, keys)) = self.find_choice() {
                    let k: usize = if !self.asks {
                        0
                    } else if i < keys.len() {
                        i
                    } else {
                        keys.len() - 1
                    };
                    self.begin(at, keys[k]);
                }
            },
            DamageReply::Confirmed(yes) => {
                let ghost before = self@;
                let task = self.task.take();
                match task {
                    Some(t) => {
                        assert(before == (DamageRunView { task: Some(t@), ..self@ }));
                        self.carry_out(game, running, t, yes);
                    },
                    None => {},
                }
            },
        }
    }
}

/// The answers that count: without players who are asked nothing is turned down.
pub open spec fn counted(asks: bool, answers: Seq<bool>) -> Seq<bool> {
    if asks {
        answers
    } else {
        Seq::empty()
    }
}

/// Whether replies lead through a trace of runs, each with a confirmation.
pub open spec fn is_confirmed(
    game: GameState,
    running: Seq<EffectKey>,
    trace: Seq<DamageRunView>,
    answers: Seq<bool>,
) -> bool {
    &&& trace.len() == answers.len() + 1
    &&& forall|j: int|
        0 <= j < answers.len() ==> replied(
            game,
            running,
            #[trigger] trace[j],
            DamageReply::Confirmed(answers[j]),
            trace[j + 1],
        )
}

proof fn lemma_confirmed(
    game: GameState,
    running: Seq<EffectKey>,
    trace: Seq<DamageRunView>,
    answers: Seq<bool>,
    n: int,
)
    requires
        is_confirmed(game, running, trace, answers),
        trace[0].task matches Some(t) && t.place == 0 && t.indices.len() == answers.len(),
        0 <= n < answers.len(),
    ensures
        ({
            let t = trace[0].task->0;
            &&& trace[n].task == Some(TaskView { place: n, ..t })
            &&& trace[n].asks == trace[0].asks
            &&& all_done(
                game,
                running_with(running, t.chosen),
                trace[0].batch,
                trace[n].batch,
                t.key,
                t.indices.take(n),
                t.at,
                counted(trace[0].asks, answers),
            )
        }),
    decreases n,
{
    let t = trace[0].task->0;
    if n == 0 {
        assert(t.indices.take(0).len() == 0);
    } else {
        lemma_confirmed(game, running, trace, answers, n - 1);
        let mid = lemma_one_more(game, running, trace, answers, n - 1);
    }
}

proof fn lemma_one_more(
    game: GameState,
    running: Seq<EffectKey>,
    trace: Seq<DamageRunView>,
    answers: Seq<bool>,
    n: int,
) -> (mid: BatchView)
    requires
        is_confirmed(game, running, trace, answers),
        trace[0].task matches Some(t) && t.place == 0 && t.indices.len() == answers.len(),
        0 <= n < answers.len(),
        trace[n].task == Some(TaskView { place: n, ..trace[0].task->0 }),
        trace[n].asks == trace[0].asks,
        all_done(
            game,
            running_with(running, trace[0].task->0.chosen),
            trace[0].batch,
            trace[n].batch,
            trace[0].task->0.key,
            trace[0].task->0.indices.take(n),
            trace[0].task->0.at,
            counted(trace[0].asks, answers),
        ),
    ensures
        ({
            let t = trace[0].task->0;
            &&& all_done(
                game,
                running_with(running, t.chosen),
                trace[0].batch,
                mid,
                t.key,
                t.indices.take(n + 1),
                t.at,
                counted(trace[0].asks, answers),
            )
            &&& trace[n + 1] == past_entry(trace[n], TaskView { place: n, ..t }, mid)
        }),
{
    let t = trace[0].task->0;
    let now = TaskView { place: n, ..t };
    let rw = running_with(running, t.chosen);
    let given = counted(trace[0].asks, answers);
    assert(replied(
        game,
        running,
        trace[n],
        DamageReply::Confirmed(answers[n]),
        trace[n + 1],
    ));
    let mid = choose|mid: BatchView|
        {
            &&& single_done(
                game,
                rw,
                trace[n].batch,
                mid,
                t.key,
                t.indices[n],
                t.at,
                stays_on(trace[n].asks, answers[n]),
            )
            &&& trace[n + 1] == #[trigger] past_entry(trace[n], now, mid)
        };
    let part = t.indices.take(n + 1);
    assert(part.drop_last() =~= t.indices.take(n));
    assert(part.last() == t.indices[n]);
    assert(answer_at(given, part.len() - 1) == stays_on(trace[n].asks, answers[n]));
    assert(all_done(game, rw, trace[0].batch, mid, t.key, part, t.at, given));
    mid
}

/// A choice that is confirmed entry by entry carries the chosen effect out on all its entries, with
/// these answers; without players who are asked it is the first effect, and nothing is turned down.
pub proof fn law_choice_is_carried_out(
    game: GameState,
    running: Seq<EffectKey>,
    before: DamageRunView,
    i: usize,
    trace: Seq<DamageRunView>,
    answers: Seq<bool>,
)
    requires
        before.task is None,
        replied(game, running, before, DamageReply::Chosen(i), trace[0]),
        is_confirmed(game, running, trace, answers),
        trace[0].task matches Some(t) && t.indices.len() == answers.len(),
        answers.len() > 0,
    ensures
        trace.last().task is None,
        trace.last().asks == before.asks,
        next_choice(before.batch) matches Some((at, keys)) && chosen_done(
            game,
            running,
            before.batch,
            trace.last().batch,
            at,
            picked(before.asks, keys, i),
            counted(before.asks, answers),
        ),
        !before.asks ==> first_choice(game, running, before.batch, trace.last().batch),
{
    let t = trace[0].task->0;
    let (at, keys) = next_choice(before.batch)->0;
    let n = answers.len() - 1;
    lemma_confirmed(game, running, trace, answers, n);
    let mid = lemma_one_more(game, running, trace, answers, n);
    assert(t.indices.take(n + 1) =~= t.indices);
    assert(trace.last().batch == ended(mid, at, t.key));
}

/// An effect that is not optional is carried out on damage whatever is replied, and nobody is asked
/// about it.
pub proof fn law_only_optional_effects_are_declined(
    game: GameState,
    running: Seq<EffectKey>,
    r: DamageRunView,
    after: DamageRunView,
    e: ReplacementEffect,
)
    requires
        r.task matches Some(t) && 0 <= t.place < t.indices.len() && 0 <= t.key
            < r.batch.effects.len() && t.indices[t.place] < r.batch.params.len() && effect_named(
            game,
            params_event(r.batch, r.batch.params[t.indices[t.place] as int]),
            None,
            r.batch.effects[t.key as int],
        ) == Some(e),
        !e.optional,
    ensures
        replied(game, running, r, DamageReply::Confirmed(false), after) == replied(
            game,
            running,
            r,
            DamageReply::Confirmed(true),
            after,
        ),
        needed(game, r) matches StepView::Confirm { ask, .. } && !ask,
{
    if replied(game, running, r, DamageReply::Confirmed(false), after) {
        lemma_reply_does_not_matter(game, running, r, after, e, false);
    }
    if replied(game, running, r, DamageReply::Confirmed(true), after) {
        lemma_reply_does_not_matter(game, running, r, after, e, true);
    }
}

proof fn lemma_reply_does_not_matter(
    game: GameState,
    running: Seq<EffectKey>,
    r: DamageRunView,
    after: DamageRunView,
    e: ReplacementEffect,
    yes: bool,
)
    requires
        r.task matches Some(t) && 0 <= t.place < t.indices.len() && 0 <= t.key
            < r.batch.effects.len() && t.indices[t.place] < r.batch.params.len() && effect_named(
            game,
            params_event(r.batch, r.batch.params[t.indices[t.place] as int]),
            None,
            r.batch.effects[t.key as int],
        ) == Some(e),
        !e.optional,
        replied(game, running, r, DamageReply::Confirmed(yes), after),
    ensures
        replied(game, running, r, DamageReply::Confirmed(!yes), after),
{
    let t = r.task->0;
    let mid = choose|mid: BatchView|
        {
            &&& single_done(
                game,
                running_with(running, t.chosen),
                r.batch,
                mid,
                t.key,
                t.indices[t.place],
                t.at,
                stays_on(r.asks, yes),
            )
            &&& after == #[trigger] past_entry(r, t, mid)
        };
    assert(single_done(
        game,
        running_with(running, t.chosen),
        r.batch,
        mid,
        t.key,
        t.indices[t.place],
        t.at,
        stays_on(r.asks, !yes),
    ));
    assert(after == past_entry(r, t, mid));
}

} // verus!
