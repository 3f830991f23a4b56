//! Applying replacement effects to an event, step by step.
//!
//! Effects apply layer by layer. While an effect runs it cannot apply again. After an effect has
//! changed the event, or was turned down while there are others, the search starts anew for the
//! changed event; what comes of that search decides.

use vstd::prelude::*;
use crate::game::{Card, EffectKey, GameState};
use crate::parsing::params::string_of;
use crate::replacement::collect::{
    applicable, collect_effects, effect_named, find_effect, layer_at, nth_layer, owned,
};
use crate::replacement::effect::ReplacementEffect;
use crate::replacement::event::{
    affected_player_for_event, event_subject, player_of_entity, ReplacementEvent, ReplacementLayer,
    ReplacementResult, ReplacementType,
};
use crate::replacement::kinds::{
    ability_result, begin_effect, effect_begun, effect_left_game, result_after_ability, Begun,
    BegunView,
};
use crate::svar::count::{find_first_opponent, first_opponent};
use crate::text::{text_eq, trim, trimmed};
use crate::types::{CardId, PlayerId, ZoneType};

verus! {

/// An effect that has begun and is not over.
#[derive(Debug, Clone, Copy, PartialEq, Eq, Structural)]
pub struct Frame {
    pub key: EffectKey,
    pub layer: usize,
    pub newly_running: bool,
    pub updated: bool,
}

/// What a run waits for.
pub enum Waiting {
    Nothing,
    Choice(Vec<EffectKey>),
    Confirmation(bool),
    Ability { several: bool, success: ReplacementResult, failure: ReplacementResult },
}

/// A run over the effects on one event.
pub struct ReplacementHandler {
    pub asks: bool,
    pub frames: Vec<Frame>,
    pub layer: usize,
    pub etb_counters_pass: Option<bool>,
    pub first: ReplacementResult,
    pub waiting: Waiting,
}

/// What a run needs next.
pub enum ReplacementStep {
    /// The run is over.
    Done(ReplacementResult),
    /// One of the effects is to be chosen; without `ask`, the first.
    Choose { player: Option<PlayerId>, effects: Vec<EffectKey>, ask: bool },
    /// A player may turn the effect down.
    Confirm { player: Option<PlayerId>, effect: EffectKey },
    /// The ability of an effect is to happen.
    Perform { effect: EffectKey, ability: String },
}

/// The answer to a step.
#[derive(Debug, Clone, Copy, PartialEq, Eq, Structural)]
pub enum ReplacementReply {
    Start,
    Chosen(usize),
    Confirmed(bool),
    Performed(bool),
}

// ---- the search ----

/// The state of a run.
#[verifier::ext_equal]
pub struct RunState {
    pub frames: Seq<Frame>,
    pub running: Seq<EffectKey>,
    pub layer: int,
    pub pass: Option<bool>,
    pub first: ReplacementResult,
}

/// Where a search ends: the run is over, or there are effects to choose from.
pub enum Stop {
    Over(ReplacementResult),
    Found(Seq<EffectKey>),
}

/// Whether a card enters the battlefield with counters.
pub open spec fn enters_with_counters(event: ReplacementEvent) -> bool {
    match event {
        ReplacementEvent::Moved { destination, counter_map, .. } => destination
            == ZoneType::Battlefield && counter_map is Some,
        _ => false,
    }
}

fn check_enters_with_counters(event: &ReplacementEvent) -> (r: bool)
    ensures
        r == enters_with_counters(*event),
{
    match event {
        ReplacementEvent::Moved { destination, counter_map, .. } => *destination
            == ZoneType::Battlefield && counter_map.is_some(),
        _ => false,
    }
}

/// Whether an effect may be chosen: it is not running, and of the kind that the pass is about.
pub open spec fn may_begin(
    game: GameState,
    event: ReplacementEvent,
    pre: Option<Card>,
    pass: Option<bool>,
    running: Seq<EffectKey>,
    key: EffectKey,
) -> bool {
    &&& !running.contains(key)
    &&& pass matches Some(counters) ==> (effect_named(game, event, pre, key) matches Some(e) && (
    e.event == ReplacementType::AddCounter) == counters)
}

pub open spec fn eligible_among(
    game: GameState,
    event: ReplacementEvent,
    pre: Option<Card>,
    pass: Option<bool>,
    running: Seq<EffectKey>,
    keys: Seq<EffectKey>,
) -> Seq<EffectKey>
    decreases keys.len(),
{
    if keys.len() == 0 {
        Seq::empty()
    } else {
        let before = eligible_among(game, event, pre, pass, running, keys.drop_last());
        if may_begin(game, event, pre, pass, running, keys.last()) {
            before.push(keys.last())
        } else {
            before
        }
    }
}

/// The effects of a layer that may be chosen.
pub open spec fn eligible(
    game: GameState,
    event: ReplacementEvent,
    pre: Option<Card>,
    st: RunState,
) -> Seq<EffectKey> {
    eligible_among(
        game,
        event,
        pre,
        st.pass,
        st.running,
        applicable(game, event, layer_at(st.layer), pre),
    )
}

/// A list without an effect.
pub open spec fn without(keys: Seq<EffectKey>, key: EffectKey) -> Seq<EffectKey>
    decreases keys.len(),
{
    if keys.len() == 0 {
        Seq::empty()
    } else {
        let before = without(keys.drop_last(), key);
        if keys.last() == key {
            before
        } else {
            before.push(keys.last())
        }
    }
}

/// How far a run is in its passes.
pub open spec fn pass_rank(pass: Option<bool>) -> int {
    if pass == Some(false) {
        1
    } else {
        0
    }
}

/// Looks for effects from the current layer on.
pub open spec fn seek(
    game: GameState,
    event: ReplacementEvent,
    pre: Option<Card>,
    st: RunState,
) -> (RunState, Stop)
    decreases pass_rank(st.pass), st.frames.len(), (if st.layer < 5 {
            6 - st.layer
        } else {
            1
        }),
{
    if st.layer >= 5 || st.layer < 0 {
        back(game, event, pre, st, ReplacementResult::NotReplaced)
    } else {
        let found = eligible(game, event, pre, st);
        if found.len() > 0 {
            (st, Stop::Found(found))
        } else {
            seek(game, event, pre, RunState { layer: st.layer + 1, ..st })
        }
    }
}

/// Hands a result back to the effect that started the search, or ends the run.
pub open spec fn back(
    game: GameState,
    event: ReplacementEvent,
    pre: Option<Card>,
    st: RunState,
    result: ReplacementResult,
) -> (RunState, Stop)
    decreases pass_rank(st.pass), st.frames.len(), 0int,
{
    if st.frames.len() == 0 {
        match st.pass {
            None => (st, Stop::Over(result)),
            Some(false) => if (result == ReplacementResult::NotReplaced || result
                == ReplacementResult::Updated) && enters_with_counters(event) {
                seek(
                    game,
                    event,
                    pre,
                    RunState { pass: Some(true), first: result, layer: 0, ..st },
                )
            } else {
                (RunState { pass: None, ..st }, Stop::Over(result))
            },
            Some(true) => (
                RunState { pass: None, ..st },
                Stop::Over(
                    if result == ReplacementResult::NotReplaced {
                        st.first
                    } else {
                        result
                    },
                ),
            ),
        }
    } else {
        let f = st.frames.last();
        let popped = RunState {
            frames: st.frames.drop_last(),
            running: if f.newly_running {
                without(st.running, f.key)
            } else {
                st.running
            },
            ..st
        };
        let combined = if f.updated && result == ReplacementResult::NotReplaced {
            ReplacementResult::Updated
        } else {
            result
        };
        if combined == ReplacementResult::NotReplaced {
            seek(
                game,
                event,
                pre,
                RunState {
                    layer: if f.layer < 5 {
                        f.layer + 1
                    } else {
                        5
                    },
                    ..popped
                },
            )
        } else {
            back(game, event, pre, popped, combined)
        }
    }
}

/// What follows the result of the effect that runs.
pub open spec fn follow(
    game: GameState,
    event: ReplacementEvent,
    pre: Option<Card>,
    st: RunState,
    result: ReplacementResult,
    several: bool,
) -> (RunState, Stop) {
    if result == ReplacementResult::Updated {
        let n = st.frames.len() as int;
        let f = Frame { updated: true, ..st.frames[n - 1] };
        seek(
            game,
            event,
            pre,
            RunState { frames: st.frames.update(n - 1, f), layer: 0, ..st },
        )
    } else if result == ReplacementResult::NotReplaced && several {
        seek(game, event, pre, RunState { layer: 0, ..st })
    } else {
        back(game, event, pre, st, result)
    }
}

fn has_key(keys: &Vec<EffectKey>, key: EffectKey) -> (r: bool)
    ensures
        r == keys@.contains(key),
{
    let mut i: usize = 0;
    while i < keys.len()
        invariant
            i <= keys@.len(),
            forall|k: int| 0 <= k < i ==> keys@[k] != key,
        decreases keys@.len() - i,
    {
        if keys[i] == key {
            assert(keys@[i as int] == key);
            return true;
        }
        i = i + 1;
    }
    false
}

fn remove_key(keys: &mut Vec<EffectKey>, key: EffectKey)
    ensures
        final(keys)@ == without(old(keys)@, key),
{
    let ghost all = keys@;
    let mut out: Vec<EffectKey> = Vec::new();
    let mut i: usize = 0;
    while i < keys.len()
        invariant
            i <= all.len(),
            keys@ == all,
            out@ == without(all.take(i as int), key),
        decreases all.len() - i,
    {
        assert(all.take(i + 1).drop_last() =~= all.take(i as int));
        if keys[i] != key {
            out.push(keys[i]);
        }
        i = i + 1;
    }
    assert(all.take(i as int) =~= all);
    *keys = out;
}

fn list_eligible(
    game: &GameState,
    event: &ReplacementEvent,
    pre: Option<&Card>,
    pass: Option<bool>,
    running: &Vec<EffectKey>,
    keys: &Vec<EffectKey>,
) -> (r: Vec<EffectKey>)
    ensures
        r@ == eligible_among(*game, *event, owned(pre), pass, running@, keys@),
{
    let mut out: Vec<EffectKey> = Vec::new();
    let mut i: usize = 0;
    while i < keys.len()
        invariant
            i <= keys@.len(),
            out@ == eligible_among(
                *game,
                *event,
                owned(pre),
                pass,
                running@,
                keys@.take(i as int),
            ),
        decreases keys@.len() - i,
    {
        assert(keys@.take(i + 1).drop_last() =~= keys@.take(i as int));
        let in_pass = match pass {
            Some(counters) => match find_effect(game, event, pre, keys[i]) {
                Some(e) => (e.event == ReplacementType::AddCounter) == counters,
                None => false,
            },
            None => true,
        };
        if in_pass && !has_key(running, keys[i]) {
            out.push(keys[i]);
        }
        i = i + 1;
    }
    assert(keys@.take(i as int) =~= keys@);
    out
}

impl ReplacementHandler {
    /// The state of the run, given the effects that are running.
    pub open spec fn state(&self, running: Seq<EffectKey>) -> RunState {
        RunState {
            frames: self.frames@,
            running,
            layer: self.layer as int,
            pass: self.etb_counters_pass,
            first: self.first,
        }
    }

    /// A run that has not started.
    pub fn new() -> (r: ReplacementHandler)
        ensures
            !r.asks,
            r.frames@.len() == 0,
            r.waiting is Nothing,
    {
        ReplacementHandler {
            asks: false,
            frames: Vec::new(),
            layer: 0,
            etb_counters_pass: None,
            first: ReplacementResult::NotReplaced,
            waiting: Waiting::Nothing,
        }
    }

    /// A run whose players are asked.
    pub fn asking() -> (r: ReplacementHandler)
        ensures
            r.asks,
            r.frames@.len() == 0,
            r.waiting is Nothing,
    {
        ReplacementHandler {
            asks: true,
            frames: Vec::new(),
            layer: 0,
            etb_counters_pass: None,
            first: ReplacementResult::NotReplaced,
            waiting: Waiting::Nothing,
        }
    }

    /// Goes on with the search; with a result it is handed back first.
    fn search(
        &mut self,
        game: &GameState,
        running: &mut Vec<EffectKey>,
        event: &ReplacementEvent,
        pre: Option<&Card>,
        handed: Option<ReplacementResult>,
    ) -> (r: Result<Vec<EffectKey>, ReplacementResult>)
        ensures
            final(self).asks == old(self).asks,
            final(self).waiting == old(self).waiting,
            ({
                let start = old(self).state(old(running)@);
                let (end, stop) = match handed {
                    Some(result) => back(*game, *event, owned(pre), start, result),
                    None => seek(*game, *event, owned(pre), start),
                };
                &&& final(self).state(final(running)@) == end
                &&& match r {
                    Ok(keys) => stop == Stop::Found(keys@),
                    Err(result) => stop == Stop::Over(result),
                }
            }),
    {
        let ghost start = self.state(running@);
        let ghost goal = match handed {
            Some(result) => back(*game, *event, owned(pre), start, result),
            None => seek(*game, *event, owned(pre), start),
        };
        let mut result: Option<ReplacementResult> = handed;
        loop
            invariant
                self.asks == old(self).asks,
                self.waiting == old(self).waiting,
                start == old(self).state(old(running)@),
                goal == match handed {
                    Some(x) => back(*game, *event, owned(pre), start, x),
                    None => seek(*game, *event, owned(pre), start),
                },
                goal == match result {
                    Some(x) => back(*game, *event, owned(pre), self.state(running@), x),
                    None => seek(*game, *event, owned(pre), self.state(running@)),
                },
            decreases pass_rank(self.etb_counters_pass), self.frames@.len(), (match result {
                    Some(_) => 0int,
                    None => if self.layer < 5 {
                        6 - self.layer
                    } else {
                        1
                    },
                }),
        {
            match result {
                None => {
                    if self.layer >= 5 {
                        result = Some(ReplacementResult::NotReplaced);
                    } else {
                        let keys = collect_effects(game, event, nth_layer(self.layer), pre);
                        let found = list_eligible(
                            game,
                            event,
                            pre,
                            self.etb_counters_pass,
                            running,
                            &keys,
                        );
                        if found.len() > 0 {
                            return Ok(found);
                        }
                        self.layer = self.layer + 1;
                    }
                },
                Some(x) => {
                    if self.frames.len() == 0 {
                        match self.etb_counters_pass {
                            None => {
                                return Err(x);
                            },
                            Some(false) => {
                                let goes_on = x == ReplacementResult::NotReplaced || x
                                    == ReplacementResult::Updated;
                                if goes_on && check_enters_with_counters(event) {
                                    self.etb_counters_pass = Some(true);
                                    self.first = x;
                                    self.layer = 0;
                                    result = None;
                                } else {
                                    self.etb_counters_pass = None;
                                    return Err(x);
                                }
                            },
                            Some(true) => {
                                self.etb_counters_pass = None;
                                return Err(
                                    if x == ReplacementResult::NotReplaced {
                                        self.first
                                    } else {
                                        x
                                    },
                                );
                            },
                        }
                    } else {
                        let n: usize = self.frames.len();
                        let f = self.frames[n - 1];
                        let ghost frames = self.frames@;
                        self.frames.pop();
                        assert(self.frames@ =~= frames.drop_last());
                        if f.newly_running {
                            remove_key(running, f.key);
                        }
                        let combined = if f.updated && x == ReplacementResult::NotReplaced {
                            ReplacementResult::Updated
                        } else {
                            x
                        };
                        if combined == ReplacementResult::NotReplaced {
                            if f.layer >= 5 {
                                self.layer = 5;
                            } else {
                                self.layer = f.layer + 1;
                            }
                            result = None;
                        } else {
                            result = Some(combined);
                        }
                    }
                },
            }
        }
    }
}


// ---- one step ----

/// The player who may turn an effect down.
pub open spec fn decider(
    e: ReplacementEffect,
    game: GameState,
    source: CardId,
    event: ReplacementEvent,
) -> Option<PlayerId> {
    let affected = player_of_entity(event_subject(event), game);
    match string_of(e.optional_decider) {
        Some(s) => {
            let t = trimmed(s);
            let named = match game.card_at(source) {
                Some(c) => if t == "You"@ || t == "Controller"@ {
                    Some(c.controller)
                } else if t == "Owner"@ {
                    Some(c.owner)
                } else if t == "Opponent"@ {
                    first_opponent(game, game.player_order@, c.controller)
                } else {
                    None
                },
                None => None,
            };
            match named {
                Some(p) => Some(p),
                None => affected,
            }
        },
        None => affected,
    }
}

pub fn optional_decider_for_effect(
    e: &ReplacementEffect,
    game: &GameState,
    source: CardId,
    event: &ReplacementEvent,
) -> (r: Option<PlayerId>)
    ensures
        r == decider(*e, *game, source, *event),
{
    if let Some(s) = &e.optional_decider {
        let t = trim(s.as_str());
        if let Some(c) = game.card(source) {
            if text_eq(t, "You") || text_eq(t, "Controller") {
                return Some(c.controller);
            }
            if text_eq(t, "Owner") {
                return Some(c.owner);
            }
            if text_eq(t, "Opponent") {
                if let Some(p) = find_first_opponent(game, c.controller) {
                    return Some(p);
                }
            }
        }
    }
    affected_player_for_event(event, game)
}

/// Where a run stands after a search, and what it needs next.
pub open spec fn settled(
    h: ReplacementHandler,
    running: Seq<EffectKey>,
    game: GameState,
    event: ReplacementEvent,
    end: RunState,
    stop: Stop,
    step: ReplacementStep,
) -> bool {
    &&& h.state(running) == end
    &&& match stop {
        Stop::Over(result) => h.waiting is Nothing && step == ReplacementStep::Done(result),
        Stop::Found(keys) => {
            &&& h.waiting matches Waiting::Choice(v) && v@ == keys
            &&& step matches ReplacementStep::Choose { player, effects, ask } && {
                &&& player == player_of_entity(event_subject(event), game)
                &&& effects@ == keys
                &&& ask == (h.asks && keys.len() > 1 && layer_at(end.layer)
                    != ReplacementLayer::CantHappen)
            }
        },
    }
}

/// The state of a run as an effect begins.
pub open spec fn with_frame(st: RunState, key: EffectKey) -> RunState {
    let newly = !st.running.contains(key);
    RunState {
        frames: st.frames.push(
            Frame { key, layer: st.layer as usize, newly_running: newly, updated: false },
        ),
        running: if newly {
            st.running.push(key)
        } else {
            st.running
        },
        ..st
    }
}

/// Whether an effect was carried out, with all that follows from it.
pub open spec fn carried_out(
    e: ReplacementEffect,
    key: EffectKey,
    several: bool,
    pre: Option<Card>,
    st: RunState,
    game_before: GameState,
    event_before: ReplacementEvent,
    game: GameState,
    event: ReplacementEvent,
    h: ReplacementHandler,
    running: Seq<EffectKey>,
    step: ReplacementStep,
) -> bool {
    exists|begun: BegunView|
        {
            &&& #[trigger] effect_begun(e, game_before, key.card, event_before, event, begun)
            &&& effect_left_game(e, key.card, event_before, game_before, game)
            &&& match begun {
                BegunView::Over(result) => {
                    let (end, stop) = follow(game, event, pre, st, result, several);
                    settled(h, running, game, event, end, stop, step)
                },
                BegunView::Ability(t) => {
                    &&& h.state(running) == st
                    &&& h.waiting == (Waiting::Ability {
                        several,
                        success: ability_result(e, true),
                        failure: ability_result(e, false),
                    })
                    &&& step matches ReplacementStep::Perform { effect, ability } && effect == key
                        && ability@ == t
                },
            }
        }
}

/// Whether the effect that a key names was carried out; nothing is replaced by one that is gone.
pub open spec fn named_carried_out(
    key: EffectKey,
    several: bool,
    pre: Option<Card>,
    st: RunState,
    game_before: GameState,
    event_before: ReplacementEvent,
    game: GameState,
    event: ReplacementEvent,
    h: ReplacementHandler,
    running: Seq<EffectKey>,
    step: ReplacementStep,
) -> bool {
    match effect_named(game_before, event_before, pre, key) {
        Some(e) => carried_out(
            e,
            key,
            several,
            pre,
            st,
            game_before,
            event_before,
            game,
            event,
            h,
            running,
            step,
        ),
        None => {
            let (end, stop) = follow(
                game_before,
                event_before,
                pre,
                st,
                ReplacementResult::NotReplaced,
                several,
            );
            &&& game == game_before
            &&& event == event_before
            &&& settled(h, running, game, event, end, stop, step)
        },
    }
}

pub open spec fn at_most(i: usize, n: nat) -> int {
    if i < n {
        i as int
    } else {
        n - 1
    }
}

/// The state in which a run starts.
pub open spec fn started(event: ReplacementEvent, running: Seq<EffectKey>) -> RunState {
    RunState {
        frames: Seq::empty(),
        running,
        layer: 0,
        pass: if enters_with_counters(event) {
            Some(false)
        } else {
            None
        },
        first: ReplacementResult::NotReplaced,
    }
}

/// What a step of a run does.
pub open spec fn stepped(
    h0: ReplacementHandler,
    running0: Seq<EffectKey>,
    game0: GameState,
    event0: ReplacementEvent,
    pre: Option<Card>,
    reply: ReplacementReply,
    h: ReplacementHandler,
    running: Seq<EffectKey>,
    game: GameState,
    event: ReplacementEvent,
    step: ReplacementStep,
) -> bool {
    &&& h.asks == h0.asks
    &&& match reply {
        ReplacementReply::Start => {
            let (end, stop) = seek(game0, event0, pre, started(event0, running0));
            &&& game == game0
            &&& event == event0
            &&& settled(h, running, game, event, end, stop, step)
        },
        ReplacementReply::Chosen(i) => {
            let keys = h0.waiting->Choice_0@;
            let key = keys[at_most(i, keys.len())];
            let several = keys.len() > 1;
            let st = with_frame(h0.state(running0), key);
            match effect_named(game0, event0, pre, key) {
                Some(e) if e.optional && h0.asks => {
                    &&& game == game0
                    &&& event == event0
                    &&& h.state(running) == st
                    &&& h.waiting == Waiting::Confirmation(several)
                    &&& step == (ReplacementStep::Confirm {
                        player: decider(e, game0, key.card, event0),
                        effect: key,
                    })
                },
                _ => named_carried_out(
                    key,
                    several,
                    pre,
                    st,
                    game0,
                    event0,
                    game,
                    event,
                    h,
                    running,
                    step,
                ),
            }
        },
        ReplacementReply::Confirmed(yes) => {
            let several = h0.waiting->Confirmation_0;
            let st = h0.state(running0);
            if yes {
                named_carried_out(
                    h0.frames@.last().key,
                    several,
                    pre,
                    st,
                    game0,
                    event0,
                    game,
                    event,
                    h,
                    running,
                    step,
                )
            } else {
                let (end, stop) = follow(
                    game0,
                    event0,
                    pre,
                    st,
                    ReplacementResult::NotReplaced,
                    several,
                );
                &&& game == game0
                &&& event == event0
                &&& settled(h, running, game, event, end, stop, step)
            }
        },
        ReplacementReply::Performed(ok) => {
            let result = if ok {
                h0.waiting->success
            } else {
                h0.waiting->failure
            };
            let (end, stop) = follow(
                game0,
                event0,
                pre,
                h0.state(running0),
                result,
                h0.waiting->Ability_several,
            );
            &&& game == game0
            &&& event == event0
            &&& settled(h, running, game, event, end, stop, step)
        },
    }
}

impl ReplacementHandler {
    /// Whether a reply is what the run waits for.
    pub open spec fn awaits(&self, reply: ReplacementReply) -> bool {
        match reply {
            ReplacementReply::Start => true,
            ReplacementReply::Chosen(_) => self.waiting is Choice
                && self.waiting->Choice_0@.len() > 0,
            ReplacementReply::Confirmed(_) => self.waiting is Confirmation && self.frames@.len() > 0,
            ReplacementReply::Performed(_) => self.waiting is Ability && self.frames@.len() > 0,
        }
    }

    /// Whether a run waits for such a reply.
    pub fn is_awaiting(&self, reply: ReplacementReply) -> (r: bool)
        ensures
            r == self.awaits(reply),
    {
        match reply {
            ReplacementReply::Start => true,
            ReplacementReply::Chosen(_) => match &self.waiting {
                Waiting::Choice(v) => v.len() > 0,
                _ => false,
            },
            ReplacementReply::Confirmed(_) => match &self.waiting {
                Waiting::Confirmation(_) => self.frames.len() > 0,
                _ => false,
            },
            ReplacementReply::Performed(_) => match &self.waiting {
                Waiting::Ability { .. } => self.frames.len() > 0,
                _ => false,
            },
        }
    }

    fn settle(
        &mut self,
        game: &GameState,
        event: &ReplacementEvent,
        found: Result<Vec<EffectKey>, ReplacementResult>,
        Ghost(running): Ghost<Seq<EffectKey>>,
        Ghost(end): Ghost<RunState>,
        Ghost(stop): Ghost<Stop>,
    ) -> (step: ReplacementStep)
        requires
            old(self).state(running) == end,
            match found {
                Ok(keys) => stop == Stop::Found(keys@),
                Err(result) => stop == Stop::Over(result),
            },
        ensures
            final(self).asks == old(self).asks,
            settled(*final(self), running, *game, *event, end, stop, step),
    {
        match found {
            Err(result) => {
                self.waiting = Waiting::Nothing;
                ReplacementStep::Done(result)
            },
            Ok(keys) => {
                let ask = self.asks && keys.len() > 1 && nth_layer(self.layer)
                    != ReplacementLayer::CantHappen;
                let mut kept: Vec<EffectKey> = Vec::new();
                let mut i: usize = 0;
                while i < keys.len()
                    invariant
                        i <= keys@.len(),
                        kept@ == keys@.take(i as int),
                    decreases keys@.len() - i,
                {
                    kept.push(keys[i]);
                    i = i + 1;
                    assert(kept@ =~= keys@.take(i as int));
                }
                assert(kept@ =~= keys@);
                self.waiting = Waiting::Choice(kept);
                ReplacementStep::Choose {
                    player: affected_player_for_event(event, game),
                    effects: keys,
                    ask,
                }
            },
        }
    }

    fn follow_result(
        &mut self,
        game: &GameState,
        running: &mut Vec<EffectKey>,
        event: &ReplacementEvent,
        pre: Option<&Card>,
        result: ReplacementResult,
        several: bool,
    ) -> (step: ReplacementStep)
        requires
            old(self).frames@.len() > 0,
        ensures
            final(self).asks == old(self).asks,
            ({
                let (end, stop) = follow(
                    *game,
                    *event,
                    owned(pre),
                    old(self).state(old(running)@),
                    result,
                    several,
                );
                settled(*final(self), final(running)@, *game, *event, end, stop, step)
            }),
    {
        let ghost st = self.state(running@);
        let ghost goal = follow(*game, *event, owned(pre), st, result, several);
        let mut handed: Option<ReplacementResult> = None;
        if result == ReplacementResult::Updated {
            let n: usize = self.frames.len();
            let f = self.frames[n - 1];
            self.frames.set(n - 1, Frame { key: f.key, layer: f.layer, newly_running: f.newly_running, updated: true });
            self.layer = 0;
        } else if result == ReplacementResult::NotReplaced && several {
            self.layer = 0;
        } else {
            handed = Some(result);
        }
        let found = self.search(game, running, event, pre, handed);
        self.settle(game, event, found, Ghost(running@), Ghost(goal.0), Ghost(goal.1))
    }

    /// Carries the effect on top of the run out.
    fn carry_out(
        &mut self,
        game: &mut GameState,
        running: &mut Vec<EffectKey>,
        event: &mut ReplacementEvent,
        pre: Option<&Card>,
        key: EffectKey,
        several: bool,
    ) -> (step: ReplacementStep)
        requires
            old(self).frames@.len() > 0,
        ensures
            final(self).asks == old(self).asks,
            named_carried_out(
                key,
                several,
                owned(pre),
                old(self).state(old(running)@),
                *old(game),
                *old(event),
                *final(game),
                *final(event),
                *final(self),
                final(running)@,
                step,
            ),
    {
        let ghost event0 = *event;
        let ghost game0 = *game;
        let ghost st = self.state(running@);
        let begun = match find_effect(game, event, pre, key) {
            Some(e) => {
                let success = result_after_ability(e, true);
                let failure = result_after_ability(e, false);
                let (b, link) = begin_effect(e, event, game, key.card);
                Some((b, link, success, failure))
            },
            None => None,
        };
        match begun {
            None => self.follow_result(
                game,
                running,
                event,
                pre,
                ReplacementResult::NotReplaced,
                several,
            ),
            Some((b, link, success, failure)) => {
                if let Some(l) = link {
                    crate::replacement::replace_moved::link_exile(game, l.moving, l.exiler);
                }
                proof {
                    let e = effect_named(game0, event0, owned(pre), key)->0;
                    assert(effect_begun(e, game0, key.card, event0, *event, b@));
                    assert(effect_left_game(e, key.card, event0, game0, *game));
                }
                match b {
                    Begun::Over(result) => self.follow_result(
                        game,
                        running,
                        event,
                        pre,
                        result,
                        several,
                    ),
                    Begun::Ability(t) => {
                        self.waiting = Waiting::Ability { several, success, failure };
                        ReplacementStep::Perform { effect: key, ability: t }
                    },
                }
            },
        }
    }

    /// Takes one step of a run. `pre` is the card of the event as it will be, where it is looked
    /// at that way; `running` are the effects that are running, here or in runs around this one.
    pub fn run(
        &mut self,
        game: &mut GameState,
        running: &mut Vec<EffectKey>,
        event: &mut ReplacementEvent,
        pre: Option<&Card>,
        reply: ReplacementReply,
    ) -> (step: ReplacementStep)
        requires
            old(self).awaits(reply),
        ensures
            stepped(
                *old(self),
                old(running)@,
                *old(game),
                *old(event),
                owned(pre),
                reply,
                *final(self),
                final(running)@,
                *final(game),
                *final(event),
                step,
            ),
    {
        match reply {
            ReplacementReply::Start => {
                self.frames = Vec::new();
                self.layer = 0;
                self.etb_counters_pass = if check_enters_with_counters(event) {
                    Some(false)
                } else {
                    None
                };
                self.first = ReplacementResult::NotReplaced;
                assert(self.state(running@) =~= started(*event, running@));
                let ghost goal = seek(*game, *event, owned(pre), started(*event, running@));
                let found = self.search(game, running, event, pre, None);
                self.settle(game, event, found, Ghost(running@), Ghost(goal.0), Ghost(goal.1))
            },
            ReplacementReply::Chosen(i) => {
                let (key, several) = match &self.waiting {
                    Waiting::Choice(keys) => {
                        let n: usize = keys.len();
                        let at: usize = if i < n {
                            i
                        } else {
                            n - 1
                        };
                        (keys[at], n > 1)
                    },
                    _ => {
                        return ReplacementStep::Done(ReplacementResult::NotReplaced);
                    },
                };
                let newly_running = !has_key(running, key);
                let ghost st = with_frame(self.state(running@), key);
                self.frames.push(Frame { key, layer: self.layer, newly_running, updated: false });
                if newly_running {
                    running.push(key);
                }
                assert(self.state(running@) =~= st);
                if self.asks {
                    if let Some(e) = find_effect(game, event, pre, key) {
                        if e.optional {
                            let player = optional_decider_for_effect(e, game, key.card, event);
                            self.waiting = Waiting::Confirmation(several);
                            return ReplacementStep::Confirm { player, effect: key };
                        }
                    }
                }
                self.carry_out(game, running, event, pre, key, several)
            },
            ReplacementReply::Confirmed(yes) => {
                let several = match &self.waiting {
                    Waiting::Confirmation(s) => *s,
                    _ => false,
                };
                if yes {
                    let n: usize = self.frames.len();
                    let key = self.frames[n - 1].key;
                    self.carry_out(game, running, event, pre, key, several)
                } else {
                    self.follow_result(
                        game,
                        running,
                        event,
                        pre,
                        ReplacementResult::NotReplaced,
                        several,
                    )
                }
            },
            ReplacementReply::Performed(ok) => {
                let (result, several) = match &self.waiting {
                    Waiting::Ability { several, success, failure } => (
                        if ok {
                            *success
                        } else {
                            *failure
                        },
                        *several,
                    ),
                    _ => (ReplacementResult::NotReplaced, false),
                };
                self.follow_result(game, running, event, pre, result, several)
            },
        }
    }
}

proof fn lemma_eligible_among(
    game: GameState,
    event: ReplacementEvent,
    pre: Option<Card>,
    pass: Option<bool>,
    running: Seq<EffectKey>,
    keys: Seq<EffectKey>,
    key: EffectKey,
)
    ensures
        eligible_among(game, event, pre, pass, running, keys).contains(key) == (keys.contains(key)
            && may_begin(game, event, pre, pass, running, key)),
    decreases keys.len(),
{
    if keys.len() > 0 {
        let short = keys.drop_last();
        let before = eligible_among(game, event, pre, pass, running, short);
        lemma_eligible_among(game, event, pre, pass, running, short, key);
        assert(keys =~= short.push(keys.last()));
        assert(short.push(keys.last()).contains(key) == (short.contains(key) || keys.last()
            == key)) by {
            broadcast use vstd::seq_lib::group_seq_properties;

        }
        assert(before.push(keys.last()).contains(key) == (before.contains(key) || keys.last()
            == key)) by {
            broadcast use vstd::seq_lib::group_seq_properties;

        }
    }
}

/// An effect that is running is not chosen again, and what is chosen applies in the layer that is
/// looked through.
pub proof fn law_running_effects_wait(
    game: GameState,
    event: ReplacementEvent,
    pre: Option<Card>,
    st: RunState,
    key: EffectKey,
)
    requires
        eligible(game, event, pre, st).contains(key),
    ensures
        !st.running.contains(key),
        applicable(game, event, layer_at(st.layer), pre).contains(key),
{
    lemma_eligible_among(
        game,
        event,
        pre,
        st.pass,
        st.running,
        applicable(game, event, layer_at(st.layer), pre),
        key,
    );
}

/// The layers are looked through in order: effects that were found in a layer, with no other
/// search between, were found because the layers before it offer none.
pub proof fn law_layers_in_order(
    game: GameState,
    event: ReplacementEvent,
    pre: Option<Card>,
    st: RunState,
    layer: int,
)
    requires
        0 <= st.layer <= layer < 5,
        eligible(game, event, pre, RunState { layer, ..st }).len() > 0,
        forall|i: int|
            st.layer <= i < layer ==> (#[trigger] eligible(
                game,
                event,
                pre,
                RunState { layer: i, ..st },
            )).len() == 0,
    ensures
        seek(game, event, pre, st) == (
            RunState { layer, ..st },
            Stop::Found(eligible(game, event, pre, RunState { layer, ..st })),
        ),
    decreases layer - st.layer,
{
    assert(RunState { layer: st.layer, ..st } == st);
    if st.layer < layer {
        let next = RunState { layer: st.layer + 1, ..st };
        assert(eligible(game, event, pre, RunState { layer: st.layer, ..st }).len() == 0);
        assert forall|i: int| next.layer <= i < layer implies (#[trigger] eligible(
            game,
            event,
            pre,
            RunState { layer: i, ..next },
        )).len() == 0 by {
            assert(RunState { layer: i, ..next } == RunState { layer: i, ..st });
        }
        assert(RunState { layer, ..next } == RunState { layer, ..st });
        law_layers_in_order(game, event, pre, next, layer);
    }
}

} // verus!
