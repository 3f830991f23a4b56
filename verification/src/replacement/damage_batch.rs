//! Replacement effects on damage that is dealt at the same time.
//!
//! Every damage is an entry of a batch. Each player chooses among the effects that apply to the
//! damage of what they control; a chosen effect is carried out on all the entries it applies to.
//! At the end the abilities that follow are told apart.

use vstd::prelude::*;
use indexmap::IndexMap;
use crate::game::{EffectKey, GameState};
use crate::ordered_map::{entries_of, list_under, new_map, push_value, values_under, with_value};
use crate::replacement::collect::{applicable, collect_effects, effect_named, find_effect};
use crate::replacement::damage_map::{
    by_target, damage_targets, list_by_target, CardDamageMap, DamageEntry,
};
use crate::replacement::event::{
    damage_event, damage_run_params, player_of_entity, ReplacementEvent, ReplacementLayer,
    ReplacementResult, ReplacementType,
};
use crate::spell::GameEntity;
use crate::types::{CardId, PlayerId};

verus! {

/// Damage of the batch.
#[derive(Debug, Clone, Copy, PartialEq, Eq, Structural)]
pub struct DamageParams {
    pub source: CardId,
    pub target: GameEntity,
    pub amount: i32,
}

/// What an effect made of an entry.
#[derive(Debug, Clone, Copy, PartialEq, Eq, Structural)]
pub struct SingleResult {
    pub key: i32,
    pub index: usize,
    pub result: ReplacementResult,
}

/// How much damage of an entry was prevented.
#[derive(Debug, Clone, Copy, PartialEq, Eq, Structural)]
pub struct PreventedAmount {
    pub index: usize,
    pub amount: i32,
}

/// Damage that is dealt at the same time, with the effects on it. Maps go from the place of an
/// effect in `effects` to places in `run_params`.
pub struct ReplaceDamageBatch {
    pub is_combat: bool,
    pub players: Vec<PlayerId>,
    pub run_params: Vec<DamageParams>,
    pub effects: Vec<EffectKey>,
    pub replace_damage_list: Vec<IndexMap<i32, Vec<usize>>>,
    pub executed_damage_map: IndexMap<i32, Vec<usize>>,
    pub replacement_results: Vec<SingleResult>,
    pub prevented_amount: Vec<PreventedAmount>,
    pub damage_map: CardDamageMap,
    pub prevent_map: CardDamageMap,
}

#[verifier::ext_equal]
pub struct BatchView {
    pub is_combat: bool,
    pub players: Seq<PlayerId>,
    pub params: Seq<DamageParams>,
    pub effects: Seq<EffectKey>,
    pub lists: Seq<Seq<(i32, Seq<usize>)>>,
    pub executed: Seq<(i32, Seq<usize>)>,
    pub results: Seq<SingleResult>,
    pub prevented: Seq<PreventedAmount>,
    pub damage: Seq<DamageEntry>,
    pub prevent: Seq<DamageEntry>,
}

impl View for ReplaceDamageBatch {
    type V = BatchView;

    open spec fn view(&self) -> BatchView {
        BatchView {
            is_combat: self.is_combat,
            players: self.players@,
            params: self.run_params@,
            effects: self.effects@,
            lists: contents(self.replace_damage_list@),
            executed: entries_of(self.executed_damage_map),
            results: self.replacement_results@,
            prevented: self.prevented_amount@,
            damage: self.damage_map.entries@,
            prevent: self.prevent_map.entries@,
        }
    }
}

/// What maps hold.
pub open spec fn contents(maps: Seq<IndexMap<i32, Vec<usize>>>) -> Seq<Seq<(i32, Seq<usize>)>> {
    Seq::new(maps.len(), |i: int| entries_of(maps[i]))
}

// ---- the effects on a damage ----

/// Whether an effect of a list is about damage, and not running.
pub open spec fn is_on_damage(
    game: GameState,
    running: Seq<EffectKey>,
    event: ReplacementEvent,
    key: EffectKey,
) -> bool {
    &&& effect_named(game, event, None, key) matches Some(e) && e.event
        == ReplacementType::DamageDone
    &&& !running.contains(key)
}

pub open spec fn damage_effects_among(
    game: GameState,
    running: Seq<EffectKey>,
    event: ReplacementEvent,
    keys: Seq<EffectKey>,
) -> Seq<EffectKey>
    decreases keys.len(),
{
    if keys.len() == 0 {
        Seq::empty()
    } else {
        let before = damage_effects_among(game, running, event, keys.drop_last());
        if is_on_damage(game, running, event, keys.last()) {
            before.push(keys.last())
        } else {
            before
        }
    }
}

/// The effects that apply to damage and are not running.
pub open spec fn damage_effects(
    game: GameState,
    running: Seq<EffectKey>,
    event: ReplacementEvent,
) -> Seq<EffectKey> {
    damage_effects_among(
        game,
        running,
        event,
        applicable(game, event, ReplacementLayer::Other, None),
    )
}

pub(crate) fn has_key(keys: &Vec<EffectKey>, key: EffectKey) -> (r: bool)
    ensures
        r == keys@.contains(key),
{
    let mut i: usize = 0;
    while i < keys.len()
        invariant
            i <= keys@.len(),
            forall|k: int| 0 <= k < i ==> keys@[k] != key,
        decreases keys@.len() - i,
    {
        if keys[i] == key {
            assert(keys@[i as int] == key);
            return true;
        }
        i = i + 1;
    }
    false
}

/// Lists the effects that apply to damage and are not running.
pub fn damage_replacement_list(
    game: &GameState,
    running: &Vec<EffectKey>,
    event: &ReplacementEvent,
) -> (r: Vec<EffectKey>)
    ensures
        r@ == damage_effects(*game, running@, *event),
{
    let keys = collect_effects(game, event, ReplacementLayer::Other, None);
    let ghost all = keys@;
    let mut out: Vec<EffectKey> = Vec::new();
    let mut i: usize = 0;
    while i < keys.len()
        invariant
            i <= all.len(),
            all == keys@,
            out@ == damage_effects_among(*game, running@, *event, all.take(i as int)),
        decreases all.len() - i,
    {
        assert(all.take(i + 1).drop_last() =~= all.take(i as int));
        let key = keys[i];
        if let Some(e) = find_effect(game, event, None, key) {
            if e.event == ReplacementType::DamageDone && !has_key(running, key) {
                out.push(key);
            }
        }
        i = i + 1;
    }
    assert(all.take(i as int) =~= all);
    out
}

/// Says whether an effect applies to damage.
pub fn has_replace_damage(
    game: &GameState,
    running: &Vec<EffectKey>,
    event: &ReplacementEvent,
) -> (r: bool)
    ensures
        r == (damage_effects(*game, running@, *event).len() > 0),
{
    damage_replacement_list(game, running, event).len() > 0
}

// ---- the candidates ----

/// The place of an effect among the known ones.
pub open spec fn known(effects: Seq<EffectKey>, key: EffectKey) -> Option<int>
    decreases effects.len(),
{
    if effects.len() == 0 {
        None
    } else if effects[0] == key {
        Some(0)
    } else {
        match known(effects.skip(1), key) {
            Some(i) => Some(i + 1),
            None => None,
        }
    }
}

proof fn lemma_known(effects: Seq<EffectKey>, key: EffectKey)
    ensures
        known(effects, key) matches Some(i) ==> 0 <= i < effects.len() && effects[i] == key,
    decreases effects.len(),
{
    if effects.len() > 0 {
        lemma_known(effects.skip(1), key);
    }
}

fn find_known(effects: &Vec<EffectKey>, key: EffectKey) -> (r: Option<usize>)
    ensures
        match r {
            Some(i) => known(effects@, key) == Some(i as int) && i < effects@.len(),
            None => known(effects@, key) is None,
        },
{
    let ghost all = effects@;
    let mut i: usize = 0;
    assert(all.skip(0) =~= all);
    while i < effects.len()
        invariant
            i <= all.len(),
            all == effects@,
            known(all, key) == (match known(all.skip(i as int), key) {
                Some(k) => Some(k + i),
                None => None,
            }),
        decreases all.len() - i,
    {
        assert(all.skip(i as int).skip(1) =~= all.skip(i + 1));
        if effects[i] == key {
            return Some(i);
        }
        i = i + 1;
    }
    None
}

/// The number under which maps hold an effect. There is none past `i32::MAX`.
pub open spec fn number_of(effects: Seq<EffectKey>, key: EffectKey) -> Option<i32> {
    match known(effects, key) {
        Some(i) if i <= i32::MAX => Some(i as i32),
        _ => None,
    }
}

pub(crate) fn find_number(effects: &Vec<EffectKey>, key: EffectKey) -> (r: Option<i32>)
    ensures
        r == number_of(effects@, key),
        r matches Some(k) ==> 0 <= k < effects@.len() && effects@[k as int] == key,
{
    proof {
        lemma_known(effects@, key);
    }
    match find_known(effects, key) {
        Some(i) => if i <= 0x7fff_ffff {
            Some(i as i32)
        } else {
            None
        },
        None => None,
    }
}

/// The known effects with one more, which may be among them.
pub open spec fn learned(effects: Seq<EffectKey>, key: EffectKey) -> Seq<EffectKey> {
    if known(effects, key) is Some {
        effects
    } else {
        effects.push(key)
    }
}

fn learn(effects: &mut Vec<EffectKey>, key: EffectKey)
    ensures
        final(effects)@ == learned(old(effects)@, key),
{
    if find_known(effects, key).is_none() {
        effects.push(key);
    }
}

/// Whether an effect was carried out on an entry.
pub open spec fn was_executed(
    executed: Seq<(i32, Seq<usize>)>,
    key: i32,
    index: usize,
) -> bool {
    values_under(executed, key) matches Some(v) && v.contains(index)
}

/// The known effects and the candidates once effects are candidates for an entry. An effect that
/// was carried out on the entry is none.
pub open spec fn candidates_added(
    effects: Seq<EffectKey>,
    list: Seq<(i32, Seq<usize>)>,
    executed: Seq<(i32, Seq<usize>)>,
    keys: Seq<EffectKey>,
    index: usize,
) -> (Seq<EffectKey>, Seq<(i32, Seq<usize>)>)
    decreases keys.len(),
{
    if keys.len() == 0 {
        (effects, list)
    } else {
        let (fx, l) = candidates_added(effects, list, executed, keys.drop_last(), index);
        let now = learned(fx, keys.last());
        match number_of(now, keys.last()) {
            Some(k) => if was_executed(executed, k, index) {
                (now, l)
            } else {
                (now, with_value(l, k, index))
            },
            None => (now, l),
        }
    }
}

fn has_index(values: &Vec<usize>, index: usize) -> (r: bool)
    ensures
        r == values@.contains(index),
{
    let mut i: usize = 0;
    while i < values.len()
        invariant
            i <= values@.len(),
            forall|k: int| 0 <= k < i ==> values@[k] != index,
        decreases values@.len() - i,
    {
        if values[i] == index {
            assert(values@[i as int] == index);
            return true;
        }
        i = i + 1;
    }
    false
}

fn add_candidates(
    effects: &mut Vec<EffectKey>,
    list: &mut IndexMap<i32, Vec<usize>>,
    executed: &IndexMap<i32, Vec<usize>>,
    keys: &Vec<EffectKey>,
    index: usize,
)
    ensures
        (final(effects)@, entries_of(*final(list))) == candidates_added(
            old(effects)@,
            entries_of(*old(list)),
            entries_of(*executed),
            keys@,
            index,
        ),
{
    let ghost all = keys@;
    let ghost fx = effects@;
    let ghost l = entries_of(*list);
    let mut i: usize = 0;
    while i < keys.len()
        invariant
            i <= all.len(),
            all == keys@,
            (effects@, entries_of(*list)) == candidates_added(
                fx,
                l,
                entries_of(*executed),
                all.take(i as int),
                index,
            ),
        decreases all.len() - i,
    {
        assert(all.take(i + 1).drop_last() =~= all.take(i as int));
        let key = keys[i];
        learn(effects, key);
        if let Some(k) = find_number(effects, key) {
            let done = match list_under(executed, k) {
                Some(v) => has_index(v, index),
                None => false,
            };
            if !done {
                push_value(list, k, index);
            }
        }
        i = i + 1;
    }
    assert(all.take(i as int) =~= all);
}

/// The place of a player.
pub open spec fn player_place(players: Seq<PlayerId>, player: PlayerId) -> Option<int>
    decreases players.len(),
{
    if players.len() == 0 {
        None
    } else if players[0] == player {
        Some(0)
    } else {
        match player_place(players.skip(1), player) {
            Some(i) => Some(i + 1),
            None => None,
        }
    }
}

fn find_player_place(players: &Vec<PlayerId>, player: PlayerId) -> (r: Option<usize>)
    ensures
        match r {
            Some(i) => player_place(players@, player) == Some(i as int) && i < players@.len(),
            None => player_place(players@, player) is None,
        },
{
    let ghost all = players@;
    let mut i: usize = 0;
    assert(all.skip(0) =~= all);
    while i < players.len()
        invariant
            i <= all.len(),
            all == players@,
            player_place(all, player) == (match player_place(all.skip(i as int), player) {
                Some(k) => Some(k + i),
                None => None,
            }),
        decreases all.len() - i,
    {
        assert(all.skip(i as int).skip(1) =~= all.skip(i + 1));
        if players[i] == player {
            return Some(i);
        }
        i = i + 1;
    }
    None
}

/// The place of the player who chooses about damage: who controls its target.
pub open spec fn chooser(b: BatchView, game: GameState, target: GameEntity) -> Option<int> {
    match player_of_entity(target, game) {
        Some(p) => player_place(b.players, p),
        None => None,
    }
}

/// The event of an entry.
pub open spec fn params_event(b: BatchView, p: DamageParams) -> ReplacementEvent {
    damage_event(p.target, p.amount, Some(p.source), b.is_combat)
}

/// The batch once effects are candidates for an entry, for the player at a place.
pub open spec fn with_candidates(
    b: BatchView,
    at: int,
    keys: Seq<EffectKey>,
    index: usize,
) -> BatchView {
    let (fx, l) = candidates_added(b.effects, b.lists[at], b.executed, keys, index);
    BatchView { effects: fx, lists: b.lists.update(at, l), ..b }
}

/// The batch with one more damage.
pub open spec fn with_damage(
    b: BatchView,
    game: GameState,
    running: Seq<EffectKey>,
    e: DamageEntry,
) -> BatchView {
    match chooser(b, game, e.target) {
        Some(at) if e.amount > 0 => {
            let p = DamageParams { source: e.source, target: e.target, amount: e.amount };
            let keys = damage_effects(game, running, params_event(b, p));
            let next = with_candidates(b, at, keys, b.params.len() as usize);
            BatchView { params: b.params.push(p), ..next }
        },
        _ => b,
    }
}

/// The batch with all of the damage.
pub open spec fn with_all_damage(
    b: BatchView,
    game: GameState,
    running: Seq<EffectKey>,
    entries: Seq<DamageEntry>,
) -> BatchView
    decreases entries.len(),
{
    if entries.len() == 0 {
        b
    } else {
        with_damage(
            with_all_damage(b, game, running, entries.drop_last()),
            game,
            running,
            entries.last(),
        )
    }
}

/// A batch before anything is in it.
pub open spec fn empty_batch(
    game: GameState,
    is_combat: bool,
    damage: Seq<DamageEntry>,
    prevent: Seq<DamageEntry>,
) -> BatchView {
    BatchView {
        is_combat,
        players: game.living(),
        params: Seq::empty(),
        effects: Seq::empty(),
        lists: Seq::new(game.living().len(), |i: int| Seq::empty()),
        executed: Seq::empty(),
        results: Seq::empty(),
        prevented: Seq::empty(),
        damage,
        prevent,
    }
}

/// A batch with its damage, target by target.
pub open spec fn batch_of(
    game: GameState,
    running: Seq<EffectKey>,
    is_combat: bool,
    damage: Seq<DamageEntry>,
    prevent: Seq<DamageEntry>,
) -> BatchView {
    with_all_damage(
        empty_batch(game, is_combat, damage, prevent),
        game,
        running,
        by_target(damage, damage_targets(damage)),
    )
}

impl ReplaceDamageBatch {
    /// Every player has a list.
    pub open spec fn wf(&self) -> bool {
        self.replace_damage_list@.len() == self.players@.len()
    }

    pub(crate) fn find_chooser(&self, game: &GameState, target: GameEntity) -> (r: Option<usize>)
        requires
            self.wf(),
        ensures
            match r {
                Some(i) => chooser(self@, *game, target) == Some(i as int) && i
                    < self.replace_damage_list@.len(),
                None => chooser(self@, *game, target) is None,
            },
    {
        let player = match target {
            GameEntity::Player(p) => p,
            GameEntity::Card(c) => match game.card(c) {
                Some(card) => card.controller,
                None => {
                    return None;
                },
            },
        };
        find_player_place(&self.players, player)
    }

    pub(crate) fn take_candidates(&mut self, at: usize, keys: &Vec<EffectKey>, index: usize)
        requires
            old(self).wf(),
            at < old(self).replace_damage_list@.len(),
        ensures
            final(self).wf(),
            final(self)@ == with_candidates(old(self)@, at as int, keys@, index),
    {
        add_candidates(
            &mut self.effects,
            &mut self.replace_damage_list[at],
            &self.executed_damage_map,
            keys,
            index,
        );
    }

    fn take_damage(&mut self, game: &GameState, running: &Vec<EffectKey>, e: DamageEntry)
        requires
            old(self).wf(),
        ensures
            final(self).wf(),
            final(self)@ == with_damage(old(self)@, *game, running@, e),
    {
        if e.amount <= 0 {
            return;
        }
        if let Some(at) = self.find_chooser(game, e.target) {
            let event = damage_run_params(e.source, e.target, e.amount, self.is_combat);
            let keys = damage_replacement_list(game, running, &event);
            let index: usize = self.run_params.len();
            self.take_candidates(at, &keys, index);
            self.run_params.push(
                DamageParams { source: e.source, target: e.target, amount: e.amount },
            );
        }
    }

    /// Gathers damage, and the effects that apply to it.
    pub fn get_possible_replace_damage_list(
        game: &GameState,
        running: &Vec<EffectKey>,
        is_combat: bool,
        damage_map: CardDamageMap,
        prevent_map: CardDamageMap,
    ) -> (r: ReplaceDamageBatch)
        ensures
            r.wf(),
            r@ == batch_of(
                *game,
                running@,
                is_combat,
                damage_map.entries@,
                prevent_map.entries@,
            ),
    {
        let players = game.alive_players();
        let entries = list_by_target(&damage_map);
        let ghost all = entries@;
        let ghost start = empty_batch(
            *game,
            is_combat,
            damage_map.entries@,
            prevent_map.entries@,
        );
        let mut lists: Vec<IndexMap<i32, Vec<usize>>> = Vec::new();
        let mut n: usize = 0;
        while n < players.len()
            invariant
                n <= players@.len(),
                lists@.len() == n,
                forall|i: int| 0 <= i < n ==> entries_of(#[trigger] lists@[i]).len() == 0,
            decreases players@.len() - n,
        {
            lists.push(new_map());
            n = n + 1;
        }
        let mut b = ReplaceDamageBatch {
            is_combat,
            players,
            run_params: Vec::new(),
            effects: Vec::new(),
            replace_damage_list: lists,
            executed_damage_map: new_map(),
            replacement_results: Vec::new(),
            prevented_amount: Vec::new(),
            damage_map,
            prevent_map,
        };
        assert(b@.lists =~~= start.lists);
        assert(b@ =~= start);
        let mut i: usize = 0;
        while i < entries.len()
            invariant
                i <= all.len(),
                all == entries@,
                b.wf(),
                b@ == with_all_damage(start, *game, running@, all.take(i as int)),
            decreases all.len() - i,
        {
            assert(all.take(i + 1).drop_last() =~= all.take(i as int));
            b.take_damage(game, running, entries[i]);
            i = i + 1;
        }
        assert(all.take(i as int) =~= all);
        b
    }
}

} // verus!
