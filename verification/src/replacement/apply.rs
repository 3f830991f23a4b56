//! Runs from start to end, and what holds of every run.

use vstd::prelude::*;
use crate::game::{Card, EffectKey, GameState};
use crate::replacement::collect::owned;
use crate::replacement::event::{ReplacementEvent, ReplacementResult};
use crate::replacement::handler::{
    back, follow, seek, settled, started, stepped, with_frame, without, Frame, ReplacementHandler,
    ReplacementReply, ReplacementStep, RunState, Stop, pass_rank,
};
use crate::spell::SpellAbility;
use crate::text::push_text;
use crate::types::{CardId, ZoneType};

verus! {

/// Where a run stands after a step.
pub struct Snapshot {
    pub h: ReplacementHandler,
    pub running: Seq<EffectKey>,
    pub game: GameState,
    pub event: ReplacementEvent,
    pub step: ReplacementStep,
}

/// Whether one step leads from one point of a run to another.
pub open spec fn leads_to(
    pre: Option<Card>,
    a: Snapshot,
    reply: ReplacementReply,
    b: Snapshot,
) -> bool {
    stepped(
        a.h,
        a.running,
        a.game,
        a.event,
        pre,
        reply,
        b.h,
        b.running,
        b.game,
        b.event,
        b.step,
    )
}

/// Whether a trace is a run that always chooses the first effect; its first entry is where it
/// starts.
pub open spec fn is_auto_run(pre: Option<Card>, trace: Seq<Snapshot>) -> bool {
    &&& trace.len() >= 2
    &&& leads_to(pre, trace[0], ReplacementReply::Start, trace[1])
    &&& forall|i: int|
        1 <= i < trace.len() - 1 ==> (#[trigger] trace[i]).step is Choose && leads_to(
            pre,
            trace[i],
            ReplacementReply::Chosen(0),
            trace[i + 1],
        )
}

/// Runs the effects on an event, always choosing the first, until the run is over or an ability is
/// to happen. No more than `u64::MAX` effects are chosen.
pub fn run_by_itself(
    handler: &mut ReplacementHandler,
    game: &mut GameState,
    running: &mut Vec<EffectKey>,
    event: &mut ReplacementEvent,
    pre: Option<&Card>,
) -> (step: ReplacementStep)
    requires
        !old(handler).asks,
    ensures
        exists|trace: Seq<Snapshot>|
            {
                &&& #[trigger] is_auto_run(owned(pre), trace)
                &&& begins_with(trace, *old(handler), old(running)@, *old(game), *old(event))
                &&& ends_with(
                    trace,
                    *final(handler),
                    final(running)@,
                    *final(game),
                    *final(event),
                    step,
                )
                &&& step is Choose ==> trace.len() == u64::MAX + 2
            },
{
    let ghost first = Snapshot {
        h: *handler,
        running: running@,
        game: *game,
        event: *event,
        step: ReplacementStep::Done(ReplacementResult::NotReplaced),
    };
    let mut step = handler.run(game, running, event, pre, ReplacementReply::Start);
    let mut n: u64 = 0;
    let ghost mut trace: Seq<Snapshot> = seq![
        first,
        Snapshot { h: *handler, running: running@, game: *game, event: *event, step },
    ];
    while n < u64::MAX
        invariant
            trace.len() == n + 2,
            is_auto_run(owned(pre), trace),
            begins_with(trace, *old(handler), old(running)@, *old(game), *old(event)),
            ends_with(trace, *handler, running@, *game, *event, step),
        decreases u64::MAX - n,
    {
        let goes_on = match &step {
            ReplacementStep::Choose { .. } => true,
            _ => false,
        };
        if !goes_on {
            return step;
        }
        proof {
            let a = trace[trace.len() - 2];
            let b = trace[trace.len() - 1];
            let reply = if trace.len() == 2 {
                ReplacementReply::Start
            } else {
                ReplacementReply::Chosen(0)
            };
            assert(leads_to(owned(pre), a, reply, b));
            law_choice_is_awaited(
                a.h,
                a.running,
                a.game,
                a.event,
                owned(pre),
                reply,
                b.h,
                b.running,
                b.game,
                b.event,
                b.step,
                0,
            );
        }
        let ghost old_trace = trace;
        step = handler.run(game, running, event, pre, ReplacementReply::Chosen(0));
        n = n + 1;
        proof {
            trace =
            trace.push(
                Snapshot { h: *handler, running: running@, game: *game, event: *event, step },
            );
            assert forall|i: int| 1 <= i < trace.len() - 1 implies (#[trigger] trace[i]).step is Choose
                && leads_to(owned(pre), trace[i], ReplacementReply::Chosen(0), trace[i + 1]) by {
                assert(trace[i] == old_trace[i]);
                if i < trace.len() - 2 {
                    assert(trace[i + 1] == old_trace[i + 1]);
                }
            }
        }
    }
    step
}

pub open spec fn begins_with(
    trace: Seq<Snapshot>,
    h: ReplacementHandler,
    running: Seq<EffectKey>,
    game: GameState,
    event: ReplacementEvent,
) -> bool {
    let s = trace[0];
    s.h == h && s.running == running && s.game == game && s.event == event
}

pub open spec fn ends_with(
    trace: Seq<Snapshot>,
    h: ReplacementHandler,
    running: Seq<EffectKey>,
    game: GameState,
    event: ReplacementEvent,
    step: ReplacementStep,
) -> bool {
    let s = trace[trace.len() - 1];
    s.h == h && s.running == running && s.game == game && s.event == event && s.step == step
}

/// A run that offers a choice waits for one among at least one effect.
proof fn lemma_seek_found(
    game: GameState,
    event: ReplacementEvent,
    pre: Option<Card>,
    st: RunState,
)
    ensures
        seek(game, event, pre, st).1 matches Stop::Found(keys) ==> keys.len() > 0,
    decreases pass_rank(st.pass), st.frames.len(), (if st.layer < 5 {
            6 - st.layer
        } else {
            1
        }),
{
    if st.layer >= 5 || st.layer < 0 {
        lemma_back_found(game, event, pre, st, ReplacementResult::NotReplaced);
    } else {
        lemma_seek_found(game, event, pre, RunState { layer: st.layer + 1, ..st });
    }
}

proof fn lemma_back_found(
    game: GameState,
    event: ReplacementEvent,
    pre: Option<Card>,
    st: RunState,
    result: ReplacementResult,
)
    ensures
        back(game, event, pre, st, result).1 matches Stop::Found(keys) ==> keys.len() > 0,
    decreases pass_rank(st.pass), st.frames.len(), 0int,
{
    if st.frames.len() == 0 {
        if st.pass == Some(false) {
            lemma_seek_found(
                game,
                event,
                pre,
                RunState { pass: Some(true), first: result, layer: 0, ..st },
            );
        }
    } else {
        let f = st.frames.last();
        let popped = RunState {
            frames: st.frames.drop_last(),
            running: if f.newly_running {
                without(st.running, f.key)
            } else {
                st.running
            },
            ..st
        };
        let combined = if f.updated && result == ReplacementResult::NotReplaced {
            ReplacementResult::Updated
        } else {
            result
        };
        lemma_seek_found(
            game,
            event,
            pre,
            RunState {
                layer: if f.layer < 5 {
                    f.layer + 1
                } else {
                    5
                },
                ..popped
            },
        );
        lemma_back_found(game, event, pre, popped, combined);
    }
}

proof fn lemma_follow_found(
    game: GameState,
    event: ReplacementEvent,
    pre: Option<Card>,
    st: RunState,
    result: ReplacementResult,
    several: bool,
)
    ensures
        follow(game, event, pre, st, result, several).1 matches Stop::Found(keys) ==> keys.len()
            > 0,
{
    let n = st.frames.len() as int;
    let f = Frame { updated: true, ..st.frames[n - 1] };
    lemma_seek_found(
        game,
        event,
        pre,
        RunState { frames: st.frames.update(n - 1, f), layer: 0, ..st },
    );
    lemma_seek_found(game, event, pre, RunState { layer: 0, ..st });
    lemma_back_found(game, event, pre, st, result);
}

/// A step that offers a choice leaves the run waiting for it.
pub proof fn law_choice_is_awaited(
    h0: ReplacementHandler,
    running0: Seq<EffectKey>,
    game0: GameState,
    event0: ReplacementEvent,
    pre: Option<Card>,
    reply: ReplacementReply,
    h: ReplacementHandler,
    running: Seq<EffectKey>,
    game: GameState,
    event: ReplacementEvent,
    step: ReplacementStep,
    i: usize,
)
    requires
        stepped(h0, running0, game0, event0, pre, reply, h, running, game, event, step),
        step is Choose,
    ensures
        h.awaits(ReplacementReply::Chosen(i)),
{
    match reply {
        ReplacementReply::Start => {
            lemma_seek_found(game0, event0, pre, started(event0, running0));
        },
        ReplacementReply::Chosen(c) => {
            let keys = h0.waiting->Choice_0@;
            let key = keys[crate::replacement::handler::at_most(c, keys.len())];
            let st = with_frame(h0.state(running0), key);
            lemma_all_follow_found(game, event, pre, st, keys.len() > 1);
        },
        ReplacementReply::Confirmed(yes) => {
            lemma_all_follow_found(
                game,
                event,
                pre,
                h0.state(running0),
                h0.waiting->Confirmation_0,
            );
        },
        ReplacementReply::Performed(ok) => {
            lemma_all_follow_found(
                game,
                event,
                pre,
                h0.state(running0),
                h0.waiting->Ability_several,
            );
        },
    }
}

proof fn lemma_all_follow_found(
    game: GameState,
    event: ReplacementEvent,
    pre: Option<Card>,
    st: RunState,
    several: bool,
)
    ensures
        forall|result: ReplacementResult|
            (#[trigger] follow(game, event, pre, st, result, several)).1 matches Stop::Found(keys)
                ==> keys.len() > 0,
{
    assert forall|result: ReplacementResult|
        (#[trigger] follow(game, event, pre, st, result, several)).1 matches Stop::Found(keys)
            ==> keys.len() > 0 by {
        lemma_follow_found(game, event, pre, st, result, several);
    }
}

// ---- what is running ----

/// The effects that are running once all frames are over.
pub open spec fn unwound(frames: Seq<Frame>, running: Seq<EffectKey>) -> Seq<EffectKey>
    decreases frames.len(),
{
    if frames.len() == 0 {
        running
    } else {
        let f = frames.last();
        unwound(
            frames.drop_last(),
            if f.newly_running {
                without(running, f.key)
            } else {
                running
            },
        )
    }
}

proof fn lemma_without_absent(keys: Seq<EffectKey>, key: EffectKey)
    requires
        !keys.contains(key),
    ensures
        without(keys, key) == keys,
    decreases keys.len(),
{
    if keys.len() > 0 {
        assert(keys[keys.len() - 1] == keys.last());
        assert(!keys.drop_last().contains(key)) by {
            if keys.drop_last().contains(key) {
                let k = choose|k: int| 0 <= k < keys.drop_last().len() && keys.drop_last()[k] == key;
                assert(keys[k] == key);
            }
        }
        lemma_without_absent(keys.drop_last(), key);
        assert(keys.drop_last().push(keys.last()) =~= keys);
    }
}

proof fn lemma_frame_unwinds(st: RunState, key: EffectKey)
    ensures
        unwound(with_frame(st, key).frames, with_frame(st, key).running) == unwound(
            st.frames,
            st.running,
        ),
{
    let s = with_frame(st, key);
    assert(s.frames.drop_last() =~= st.frames);
    if !st.running.contains(key) {
        lemma_without_absent(st.running, key);
        assert(s.running.drop_last() =~= st.running);
        assert(without(s.running, key) == without(st.running, key));
    }
}

proof fn lemma_seek_unwinds(
    game: GameState,
    event: ReplacementEvent,
    pre: Option<Card>,
    st: RunState,
)
    ensures
        ({
            let (end, stop) = seek(game, event, pre, st);
            &&& unwound(end.frames, end.running) == unwound(st.frames, st.running)
            &&& stop is Over ==> end.frames.len() == 0
        }),
    decreases pass_rank(st.pass), st.frames.len(), (if st.layer < 5 {
            6 - st.layer
        } else {
            1
        }),
{
    if st.layer >= 5 || st.layer < 0 {
        lemma_back_unwinds(game, event, pre, st, ReplacementResult::NotReplaced);
    } else {
        lemma_seek_unwinds(game, event, pre, RunState { layer: st.layer + 1, ..st });
    }
}

proof fn lemma_back_unwinds(
    game: GameState,
    event: ReplacementEvent,
    pre: Option<Card>,
    st: RunState,
    result: ReplacementResult,
)
    ensures
        ({
            let (end, stop) = back(game, event, pre, st, result);
            &&& unwound(end.frames, end.running) == unwound(st.frames, st.running)
            &&& stop is Over ==> end.frames.len() == 0
        }),
    decreases pass_rank(st.pass), st.frames.len(), 0int,
{
    if st.frames.len() == 0 {
        if st.pass == Some(false) {
            lemma_seek_unwinds(
                game,
                event,
                pre,
                RunState { pass: Some(true), first: result, layer: 0, ..st },
            );
        }
    } else {
        let f = st.frames.last();
        let popped = RunState {
            frames: st.frames.drop_last(),
            running: if f.newly_running {
                without(st.running, f.key)
            } else {
                st.running
            },
            ..st
        };
        let combined = if f.updated && result == ReplacementResult::NotReplaced {
            ReplacementResult::Updated
        } else {
            result
        };
        lemma_seek_unwinds(
            game,
            event,
            pre,
            RunState {
                layer: if f.layer < 5 {
                    f.layer + 1
                } else {
                    5
                },
                ..popped
            },
        );
        lemma_back_unwinds(game, event, pre, popped, combined);
    }
}

proof fn lemma_follow_unwinds(
    game: GameState,
    event: ReplacementEvent,
    pre: Option<Card>,
    st: RunState,
    result: ReplacementResult,
    several: bool,
)
    requires
        st.frames.len() > 0,
    ensures
        ({
            let (end, stop) = follow(game, event, pre, st, result, several);
            &&& unwound(end.frames, end.running) == unwound(st.frames, st.running)
            &&& stop is Over ==> end.frames.len() == 0
        }),
{
    let n = st.frames.len() as int;
    let f = Frame { updated: true, ..st.frames[n - 1] };
    let marked = st.frames.update(n - 1, f);
    assert(marked.drop_last() =~= st.frames.drop_last());
    lemma_seek_unwinds(game, event, pre, RunState { frames: marked, layer: 0, ..st });
    lemma_seek_unwinds(game, event, pre, RunState { layer: 0, ..st });
    lemma_back_unwinds(game, event, pre, st, result);
}

/// A run restores what is running: whatever the replies, the effects that run besides those of the
/// run stay the same, and when the run is over, nothing of it runs any more.
pub proof fn law_run_restores_what_is_running(
    h0: ReplacementHandler,
    running0: Seq<EffectKey>,
    game0: GameState,
    event0: ReplacementEvent,
    pre: Option<Card>,
    reply: ReplacementReply,
    h: ReplacementHandler,
    running: Seq<EffectKey>,
    game: GameState,
    event: ReplacementEvent,
    step: ReplacementStep,
)
    requires
        h0.awaits(reply),
        stepped(h0, running0, game0, event0, pre, reply, h, running, game, event, step),
    ensures
        unwound(h.frames@, running) == if reply == ReplacementReply::Start {
            running0
        } else {
            unwound(h0.frames@, running0)
        },
        step is Done ==> h.frames@.len() == 0 && running == unwound(h.frames@, running),
{
    match reply {
        ReplacementReply::Start => {
            lemma_seek_unwinds(game0, event0, pre, started(event0, running0));
        },
        ReplacementReply::Chosen(c) => {
            let keys = h0.waiting->Choice_0@;
            let key = keys[crate::replacement::handler::at_most(c, keys.len())];
            let st = with_frame(h0.state(running0), key);
            lemma_frame_unwinds(h0.state(running0), key);
            lemma_all_follow_unwinds(game, event, pre, st, keys.len() > 1);
        },
        ReplacementReply::Confirmed(yes) => {
            lemma_all_follow_unwinds(
                game,
                event,
                pre,
                h0.state(running0),
                h0.waiting->Confirmation_0,
            );
        },
        ReplacementReply::Performed(ok) => {
            lemma_all_follow_unwinds(
                game,
                event,
                pre,
                h0.state(running0),
                h0.waiting->Ability_several,
            );
        },
    }
}

proof fn lemma_all_follow_unwinds(
    game: GameState,
    event: ReplacementEvent,
    pre: Option<Card>,
    st: RunState,
    several: bool,
)
    requires
        st.frames.len() > 0,
    ensures
        forall|result: ReplacementResult|
            {
                let (end, stop) = #[trigger] follow(game, event, pre, st, result, several);
                &&& unwound(end.frames, end.running) == unwound(st.frames, st.running)
                &&& stop is Over ==> end.frames.len() == 0
            },
{
    assert forall|result: ReplacementResult|
        {
            let (end, stop) = #[trigger] follow(game, event, pre, st, result, several);
            &&& unwound(end.frames, end.running) == unwound(st.frames, st.running)
            &&& stop is Over ==> end.frames.len() == 0
        } by {
        lemma_follow_unwinds(game, event, pre, st, result, several);
    }
}

/// An event to which no effect applies, in no layer, is not replaced and stays as it is.
pub proof fn law_nothing_applies_nothing_happens(
    h0: ReplacementHandler,
    running0: Seq<EffectKey>,
    game0: GameState,
    event0: ReplacementEvent,
    pre: Option<Card>,
    h: ReplacementHandler,
    running: Seq<EffectKey>,
    game: GameState,
    event: ReplacementEvent,
    step: ReplacementStep,
)
    requires
        forall|i: int|
            0 <= i < 5 ==> crate::replacement::collect::applicable(
                game0,
                event0,
                #[trigger] crate::replacement::collect::layer_at(i),
                pre,
            ).len() == 0,
        stepped(
            h0,
            running0,
            game0,
            event0,
            pre,
            ReplacementReply::Start,
            h,
            running,
            game,
            event,
            step,
        ),
    ensures
        step == ReplacementStep::Done(ReplacementResult::NotReplaced),
        game == game0,
        event == event0,
        running == running0,
{
    lemma_seek_nothing(game0, event0, pre, started(event0, running0));
}

proof fn lemma_seek_nothing(
    game: GameState,
    event: ReplacementEvent,
    pre: Option<Card>,
    st: RunState,
)
    requires
        forall|i: int|
            0 <= i < 5 ==> crate::replacement::collect::applicable(
                game,
                event,
                #[trigger] crate::replacement::collect::layer_at(i),
                pre,
            ).len() == 0,
        st.frames.len() == 0,
        0 <= st.layer,
        st.first == ReplacementResult::NotReplaced,
    ensures
        seek(game, event, pre, st).1 == Stop::Over(ReplacementResult::NotReplaced),
        seek(game, event, pre, st).0.running == st.running,
    decreases pass_rank(st.pass), (if st.layer < 5 {
            6 - st.layer
        } else {
            1
        }),
{
    if st.layer >= 5 {
        assert(seek(game, event, pre, st) == back(
            game,
            event,
            pre,
            st,
            ReplacementResult::NotReplaced,
        ));
        if st.pass == Some(false) {
            lemma_seek_nothing(
                game,
                event,
                pre,
                RunState {
                    pass: Some(true),
                    first: ReplacementResult::NotReplaced,
                    layer: 0,
                    ..st
                },
            );
        }
    } else {
        assert(crate::replacement::collect::applicable(
            game,
            event,
            crate::replacement::collect::layer_at(st.layer),
            pre,
        ).len() == 0);
        lemma_seek_nothing(game, event, pre, RunState { layer: st.layer + 1, ..st });
    }
}

// ---- entry points ----

/// Applies the effects on an event, asking nobody. The run is over, or the ability in the step is
/// to happen and its success to be replied.
pub fn apply_replacements(
    game: &mut GameState,
    running: &mut Vec<EffectKey>,
    event: &mut ReplacementEvent,
    pre: Option<&Card>,
) -> (r: (ReplacementHandler, ReplacementStep))
    ensures
        exists|trace: Seq<Snapshot>|
            {
                &&& #[trigger] is_auto_run(owned(pre), trace)
                &&& !trace[0].h.asks
                &&& begins_with(trace, trace[0].h, old(running)@, *old(game), *old(event))
                &&& ends_with(trace, r.0, final(running)@, *final(game), *final(event), r.1)
                &&& r.1 is Choose ==> trace.len() == u64::MAX + 2
            },
{
    let mut handler = ReplacementHandler::new();
    let step = run_by_itself(&mut handler, game, running, event, pre);
    (handler, step)
}

/// Starts to apply the effects on an event, with players who are asked.
pub fn apply_replacements_with_agents(
    game: &mut GameState,
    running: &mut Vec<EffectKey>,
    event: &mut ReplacementEvent,
    pre: Option<&Card>,
) -> (r: (ReplacementHandler, ReplacementStep))
    ensures
        r.0.asks,
        *final(game) == *old(game),
        *final(event) == *old(event),
        ({
            let (end, stop) = seek(
                *old(game),
                *old(event),
                owned(pre),
                started(*old(event), old(running)@),
            );
            settled(r.0, final(running)@, *old(game), *old(event), end, stop, r.1)
        }),
{
    let mut handler = ReplacementHandler::asking();
    let step = handler.run(game, running, event, pre, ReplacementReply::Start);
    (handler, step)
}

/// A card that is put into the graveyard, as an event.
pub open spec fn is_burial(
    event: ReplacementEvent,
    card: CardId,
    origin: ZoneType,
    stack_sa: Option<Box<SpellAbility>>,
    fizzle: Option<bool>,
) -> bool {
    match event {
        ReplacementEvent::Moved {
            card: c,
            origin: o,
            destination,
            is_discard,
            counter_map,
            counter_cause,
            counter_is_effect,
            after_replacement_static_abilities,
            stack_sa: s,
            fizzle: f,
        } => {
            &&& c == card
            &&& o == origin
            &&& destination == ZoneType::Graveyard
            &&& !is_discard
            &&& counter_map is None
            &&& counter_cause is None
            &&& !counter_is_effect
            &&& after_replacement_static_abilities@.len() == 0
            &&& s == stack_sa
            &&& f == fizzle
        },
        _ => false,
    }
}

/// Where a move ends.
pub open spec fn destination_of(event: ReplacementEvent) -> ZoneType {
    match event {
        ReplacementEvent::Moved { destination, .. } => destination,
        _ => ZoneType::Graveyard,
    }
}

/// A move to the graveyard with the run of the effects on it.
pub struct MovedRun {
    pub handler: ReplacementHandler,
    pub step: ReplacementStep,
    pub event: ReplacementEvent,
}

impl MovedRun {
    /// Where the card goes, as far as the run has come.
    pub fn destination(&self) -> (r: ZoneType)
        ensures
            r == destination_of(self.event),
    {
        match &self.event {
            ReplacementEvent::Moved { destination, .. } => *destination,
            _ => ZoneType::Graveyard,
        }
    }

    /// Goes on with what was replied.
    pub fn reply(
        &mut self,
        game: &mut GameState,
        running: &mut Vec<EffectKey>,
        reply: ReplacementReply,
    )
        requires
            old(self).handler.awaits(reply),
        ensures
            stepped(
                old(self).handler,
                old(running)@,
                *old(game),
                old(self).event,
                None,
                reply,
                final(self).handler,
                final(running)@,
                *final(game),
                final(self).event,
                final(self).step,
            ),
    {
        self.step = self.handler.run(game, running, &mut self.event, None, reply);
    }
}

/// Whether a run on a card that is put into the graveyard has come to where nobody is asked.
pub open spec fn is_burial_run(
    game: GameState,
    running: Seq<EffectKey>,
    card: CardId,
    stack_sa: Option<Box<SpellAbility>>,
    fizzle: Option<bool>,
    run: MovedRun,
    game_after: GameState,
    running_after: Seq<EffectKey>,
) -> bool {
    exists|trace: Seq<Snapshot>|
        {
            &&& #[trigger] is_auto_run(None, trace)
            &&& is_burial(trace[0].event, card, game.card_at(card)->0.zone, stack_sa, fizzle)
            &&& begins_with(trace, trace[0].h, running, game, trace[0].event)
            &&& ends_with(
                trace,
                run.handler,
                running_after,
                game_after,
                run.event,
                run.step,
            )
            &&& run.step is Choose ==> trace.len() == u64::MAX + 2
        }
}

/// Whether a run on a card that is put into the graveyard has begun, with players who are asked.
pub open spec fn is_burial_start(
    game: GameState,
    running: Seq<EffectKey>,
    card: CardId,
    stack_sa: Option<Box<SpellAbility>>,
    fizzle: Option<bool>,
    run: MovedRun,
    game_after: GameState,
    running_after: Seq<EffectKey>,
) -> bool {
    let (end, stop) = seek(game, run.event, None, started(run.event, running));
    &&& is_burial(run.event, card, game.card_at(card)->0.zone, stack_sa, fizzle)
    &&& run.handler.asks
    &&& game_after == game
    &&& settled(run.handler, running_after, game, run.event, end, stop, run.step)
}

/// Applies the effects on a card that is put into the graveyard, and says where it goes. Other
/// destinations stay as they are. With `asks`, players choose where several effects apply: the run
/// then goes on with what they reply, and says at its end where the card goes.
pub fn apply_moved_replacement(
    game: &mut GameState,
    running: &mut Vec<EffectKey>,
    card: CardId,
    dest: ZoneType,
    stack_sa: Option<Box<SpellAbility>>,
    fizzle: Option<bool>,
    asks: bool,
) -> (r: (ZoneType, Option<MovedRun>))
    requires
        dest == ZoneType::Graveyard ==> old(game).has_card(card),
    ensures
        dest != ZoneType::Graveyard ==> r.0 == dest && r.1 is None && *final(game) == *old(game)
            && final(running)@ == old(running)@,
        dest == ZoneType::Graveyard ==> (r.1 matches Some(run) && {
            &&& r.0 == destination_of(run.event)
            &&& if asks {
                is_burial_start(
                    *old(game),
                    old(running)@,
                    card,
                    stack_sa,
                    fizzle,
                    run,
                    *final(game),
                    final(running)@,
                )
            } else {
                is_burial_run(
                    *old(game),
                    old(running)@,
                    card,
                    stack_sa,
                    fizzle,
                    run,
                    *final(game),
                    final(running)@,
                )
            }
        }),
{
    if dest != ZoneType::Graveyard {
        return (dest, None);
    }
    let origin = game.cards[card.0 as usize].zone;
    let mut event = ReplacementEvent::Moved {
        card,
        origin,
        destination: ZoneType::Graveyard,
        is_discard: false,
        counter_map: None,
        counter_cause: None,
        counter_is_effect: false,
        after_replacement_static_abilities: Vec::new(),
        stack_sa,
        fizzle,
    };
    let ghost event0 = event;
    assert(is_burial(event0, card, origin, stack_sa, fizzle));
    let (handler, step) = if asks {
        apply_replacements_with_agents(game, running, &mut event, None)
    } else {
        apply_replacements(game, running, &mut event, None)
    };
    let run = MovedRun { handler, step, event };
    (run.destination(), Some(run))
}

/// What a player is asked before an effect: whose effect it is, for a move which card moves, and
/// what the effect does.
pub open spec fn question(
    host: Seq<char>,
    moving: Option<Seq<char>>,
    description: Seq<char>,
) -> Seq<char> {
    match moving {
        Some(name) => "Apply "@ + host + " to "@ + name + "?\n"@ + description,
        None => "Apply "@ + host + "?\n"@ + description,
    }
}

/// Words the question whether an effect applies.
pub fn replacement_question(host: &Card, moving: Option<&Card>, description: &str) -> (r: String)
    ensures
        r@ == question(
            host.card_name@,
            match moving {
                Some(c) => Some(c.card_name@),
                None => None,
            },
            description@,
        ),
{
    let mut out = "Apply ".to_string();
    push_text(&mut out, host.card_name.as_str());
    if let Some(c) = moving {
        push_text(&mut out, " to ");
        push_text(&mut out, c.card_name.as_str());
    }
    push_text(&mut out, "?\n");
    push_text(&mut out, description);
    out
}

/// How an effect is shown to a player who chooses: whose effect it is, and what it does.
pub fn choice_text(host: &Card, description: &str) -> (r: String)
    ensures
        r@ == host.card_name@ + ": "@ + description@,
{
    let mut out = host.card_name.as_str().to_string();
    push_text(&mut out, ": ");
    push_text(&mut out, description);
    out
}

} // verus!
