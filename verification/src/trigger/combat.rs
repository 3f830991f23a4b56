//! Triggers of combat and attachment.

use vstd::prelude::*;
use crate::game::GameState;
use crate::lists::{copy_cards, copy_players};
use crate::parsing::params::{found, string_of, Params};
use crate::spell::{AbilityValue, GameEntity, SpellAbility};
use crate::text::{same_ignoring_case, text_eq};
use crate::trigger::common::{
    add_labelled, labelled, list_of, object_shown, passes, player_passes, players_of, put, put_card,
    put_player, seen, with_card, with_player, RunParams, Trigger, TriggerBehavior, TriggerType,
    ValueView,
};
use crate::types::{AbilityKey, CardId, PlayerId};

verus! {

// ---- something becomes attached ----

pub struct TriggerAttached {
    pub valid_source: Option<String>,
    pub valid_target: Option<String>,
}

impl TriggerAttached {
    pub fn parse(params: &Params) -> (r: TriggerAttached)
        requires
            params.wf(),
        ensures
            string_of(r.valid_source) == found(params@, "ValidSource"@),
            string_of(r.valid_target) == found(params@, "ValidTarget"@),
    {
        TriggerAttached {
            valid_source: params.get_cloned("ValidSource"),
            valid_target: params.get_cloned("ValidTarget"),
        }
    }
}

impl TriggerBehavior for TriggerAttached {
    open spec fn kind(&self) -> TriggerType {
        TriggerType::Attached
    }

    open spec fn fires(&self, t: Trigger, p: RunParams, game: GameState) -> bool {
        passes(game.facts, t, string_of(self.valid_source), p.source_card) && passes(
            game.facts,
            t,
            string_of(self.valid_target),
            p.card,
        )
    }

    open spec fn with_objects(
        &self,
        t: Trigger,
        p: RunParams,
        game: GameState,
        m: Map<AbilityKey, ValueView>,
    ) -> Map<AbilityKey, ValueView> {
        with_card(with_card(m, AbilityKey::Source, p.source_card), AbilityKey::Target, p.card)
    }

    open spec fn remembered(&self, t: Trigger, p: RunParams, game: GameState, before: i32) -> i32 {
        before
    }

    open spec fn stack_text(&self, m: Map<AbilityKey, ValueView>) -> Seq<char> {
        "Attachee: "@ + object_shown(m, AbilityKey::Target)
    }

    fn trigger_type(&self) -> (r: TriggerType) {
        TriggerType::Attached
    }

    fn perform_test(&self, trigger: &Trigger, params: &RunParams, game: &GameState) -> (r: bool) {
        trigger.matches_optional_valid_card_filter(&self.valid_source, params.source_card, game)
            && trigger.matches_optional_valid_card_filter(&self.valid_target, params.card, game)
    }

    fn set_triggering_objects(
        &self,
        trigger: &Trigger,
        sa: &mut SpellAbility,
        params: &RunParams,
        game: &GameState,
    ) {
        put_card(sa, AbilityKey::Source, params.source_card);
        put_card(sa, AbilityKey::Target, params.card);
    }

    fn get_important_stack_objects(&self, sa: &SpellAbility) -> (r: String) {
        labelled("Attachee: ", sa, AbilityKey::Target)
    }
}

// ---- an attacker becomes blocked by a creature ----

pub struct TriggerAttackerBlockedByCreature {
    pub valid_card: Option<String>,
    pub valid_blocker: Option<String>,
}

impl TriggerAttackerBlockedByCreature {
    pub fn parse(params: &Params) -> (r: TriggerAttackerBlockedByCreature)
        requires
            params.wf(),
        ensures
            string_of(r.valid_card) == found(params@, "ValidCard"@),
            string_of(r.valid_blocker) == found(params@, "ValidBlocker"@),
    {
        TriggerAttackerBlockedByCreature {
            valid_card: params.get_cloned("ValidCard"),
            valid_blocker: params.get_cloned("ValidBlocker"),
        }
    }
}

/// The power of a card.
pub open spec fn power_of(game: GameState, id: CardId) -> i32 {
    match game.card_at(id) {
        Some(c) => c.power,
        None => 0,
    }
}

fn find_power(game: &GameState, id: CardId) -> (r: i32)
    ensures
        r == power_of(*game, id),
{
    match game.card(id) {
        Some(c) => c.power,
        None => 0,
    }
}

/// Whether a creature passes a filter that may ask for less power than another one has.
pub open spec fn passes_against(
    game: GameState,
    t: Trigger,
    filter: Option<Seq<char>>,
    weaker: Seq<char>,
    one: CardId,
    other: CardId,
) -> bool {
    if filter == Some(weaker) {
        power_of(game, one) < power_of(game, other)
    } else {
        passes(game.facts, t, filter, Some(one))
    }
}

fn check_passes_against(
    game: &GameState,
    t: &Trigger,
    filter: &Option<String>,
    weaker: &str,
    one: CardId,
    other: CardId,
) -> (r: bool)
    ensures
        r == passes_against(*game, *t, string_of(*filter), weaker@, one, other),
{
    let by_power = match filter {
        Some(f) => text_eq(f.as_str(), weaker),
        None => false,
    };
    if by_power {
        find_power(game, one) < find_power(game, other)
    } else {
        t.matches_optional_valid_card_filter(filter, Some(one), game)
    }
}

impl TriggerBehavior for TriggerAttackerBlockedByCreature {
    open spec fn kind(&self) -> TriggerType {
        TriggerType::AttackerBlockedByCreature
    }

    open spec fn fires(&self, t: Trigger, p: RunParams, game: GameState) -> bool {
        match (p.attacker, p.blocker) {
            (Some(attacker), Some(blocker)) => passes_against(
                game,
                t,
                string_of(self.valid_card),
                "LessPowerThanBlocker"@,
                attacker,
                blocker,
            ) && passes_against(
                game,
                t,
                string_of(self.valid_blocker),
                "LessPowerThanAttacker"@,
                blocker,
                attacker,
            ),
            _ => false,
        }
    }

    open spec fn with_objects(
        &self,
        t: Trigger,
        p: RunParams,
        game: GameState,
        m: Map<AbilityKey, ValueView>,
    ) -> Map<AbilityKey, ValueView> {
        with_card(with_card(m, AbilityKey::Attacker, p.attacker), AbilityKey::Blocker, p.blocker)
    }

    open spec fn remembered(&self, t: Trigger, p: RunParams, game: GameState, before: i32) -> i32 {
        before
    }

    open spec fn stack_text(&self, m: Map<AbilityKey, ValueView>) -> Seq<char> {
        "Attacker: "@ + object_shown(m, AbilityKey::Attacker) + ", Blocker: "@ + object_shown(
            m,
            AbilityKey::Blocker,
        )
    }

    fn trigger_type(&self) -> (r: TriggerType) {
        TriggerType::AttackerBlockedByCreature
    }

    fn perform_test(&self, trigger: &Trigger, params: &RunParams, game: &GameState) -> (r: bool) {
        match (params.attacker, params.blocker) {
            (Some(attacker), Some(blocker)) => check_passes_against(
                game,
                trigger,
                &self.valid_card,
                "LessPowerThanBlocker",
                attacker,
                blocker,
            ) && check_passes_against(
                game,
                trigger,
                &self.valid_blocker,
                "LessPowerThanAttacker",
                blocker,
                attacker,
            ),
            _ => false,
        }
    }

    fn set_triggering_objects(
        &self,
        trigger: &Trigger,
        sa: &mut SpellAbility,
        params: &RunParams,
        game: &GameState,
    ) {
        put_card(sa, AbilityKey::Attacker, params.attacker);
        put_card(sa, AbilityKey::Blocker, params.blocker);
    }

    fn get_important_stack_objects(&self, sa: &SpellAbility) -> (r: String) {
        let mut out = labelled("Attacker: ", sa, AbilityKey::Attacker);
        add_labelled(&mut out, ", Blocker: ", sa, AbilityKey::Blocker);
        out
    }
}

// ---- a creature attacks ----

pub struct TriggerAttacks {
    pub valid_card: Option<String>,
    pub attacked: Option<String>,
    pub alone: bool,
    pub first_attack: bool,
}

impl TriggerAttacks {
    pub fn parse(params: &Params) -> (r: TriggerAttacks)
        requires
            params.wf(),
        ensures
            string_of(r.valid_card) == found(params@, "ValidCard"@),
            string_of(r.attacked) == found(params@, "Attacked"@),
            r.alone == (found(params@, "Alone"@) matches Some(v) && same_ignoring_case(v, "True"@)),
            r.first_attack == params@.dom().contains("FirstAttack"@),
    {
        TriggerAttacks {
            valid_card: params.get_cloned("ValidCard"),
            attacked: params.get_cloned("Attacked"),
            alone: params.is_true("Alone"),
            first_attack: params.has("FirstAttack"),
        }
    }
}

/// Whether a creature has attacked before this turn.
pub open spec fn attacked_before(game: GameState, attacker: Option<CardId>) -> bool {
    attacker matches Some(a) && (game.card_at(a) matches Some(c) && c.attacks_this_turn > 1)
}

/// The objects with all that was attacked.
pub open spec fn with_defenders(
    m: Map<AbilityKey, ValueView>,
    players: Option<Seq<PlayerId>>,
    cards: Option<Seq<CardId>>,
) -> Map<AbilityKey, ValueView> {
    match (players, cards) {
        (Some(p), None) => m.insert(AbilityKey::Defenders, ValueView::Players(p)),
        (None, Some(c)) => m.insert(AbilityKey::Defenders, ValueView::Cards(c)),
        (Some(p), Some(c)) => m.insert(
            AbilityKey::Defenders,
            ValueView::GameEntities(
                Seq::new(p.len(), |i: int| GameEntity::Player(p[i])) + Seq::new(
                    c.len(),
                    |i: int| GameEntity::Card(c[i]),
                ),
            ),
        ),
        (None, None) => m,
    }
}

fn put_defenders(
    sa: &mut SpellAbility,
    players: &Option<Vec<PlayerId>>,
    cards: &Option<Vec<CardId>>,
)
    ensures
        seen(*final(sa)) == with_defenders(seen(*old(sa)), players_of(*players), list_of(*cards)),
        crate::trigger::common::only_objects(*old(sa), *final(sa)),
{
    match (players, cards) {
        (Some(p), None) => {
            put(sa, AbilityKey::Defenders, AbilityValue::Players(copy_players(p)));
        },
        (None, Some(c)) => {
            put(sa, AbilityKey::Defenders, AbilityValue::Cards(copy_cards(c)));
        },
        (Some(p), Some(c)) => {
            let mut all: Vec<GameEntity> = Vec::new();
            let ghost first = Seq::new(p@.len(), |i: int| GameEntity::Player(p@[i]));
            let ghost second = Seq::new(c@.len(), |i: int| GameEntity::Card(c@[i]));
            let mut i: usize = 0;
            while i < p.len()
                invariant
                    i <= p@.len(),
                    first == Seq::new(p@.len(), |i: int| GameEntity::Player(p@[i])),
                    all@ == first.take(i as int),
                decreases p@.len() - i,
            {
                assert(first.take(i + 1) =~= first.take(i as int).push(first[i as int]));
                all.push(GameEntity::Player(p[i]));
                i = i + 1;
            }
            assert(first.take(i as int) =~= first);
            let mut k: usize = 0;
            assert(all@ =~= first + second.take(0));
            while k < c.len()
                invariant
                    k <= c@.len(),
                    second == Seq::new(c@.len(), |i: int| GameEntity::Card(c@[i])),
                    all@ == first + second.take(k as int),
                decreases c@.len() - k,
            {
                assert(second.take(k + 1) =~= second.take(k as int).push(second[k as int]));
                all.push(GameEntity::Card(c[k]));
                assert(all@ =~= first + second.take(k + 1));
                k = k + 1;
            }
            assert(second.take(k as int) =~= second);
            put(sa, AbilityKey::Defenders, AbilityValue::GameEntities(all));
        },
        (None, None) => {},
    }
}

impl TriggerBehavior for TriggerAttacks {
    open spec fn kind(&self) -> TriggerType {
        TriggerType::Attacks
    }

    open spec fn fires(&self, t: Trigger, p: RunParams, game: GameState) -> bool {
        &&& self.alone ==> p.num_attackers == Some(1i32)
        &&& self.first_attack ==> !attacked_before(game, p.attacker)
        &&& if p.attacked_player is Some {
            player_passes(game.facts, t, string_of(self.attacked), p.attacked_player)
        } else {
            passes(game.facts, t, string_of(self.attacked), p.attacked_card)
        }
        &&& passes(game.facts, t, string_of(self.valid_card), p.attacker)
    }

    open spec fn with_objects(
        &self,
        t: Trigger,
        p: RunParams,
        game: GameState,
        m: Map<AbilityKey, ValueView>,
    ) -> Map<AbilityKey, ValueView> {
        let defender = if p.attacked_player is Some {
            with_player(m, AbilityKey::Defender, p.attacked_player)
        } else {
            with_card(m, AbilityKey::Defender, p.attacked_card)
        };
        with_player(
            with_defenders(
                with_card(defender, AbilityKey::Attacker, p.attacker),
                players_of(p.defenders_player_ids),
                list_of(p.defenders_card_ids),
            ),
            AbilityKey::DefendingPlayer,
            p.defending_player,
        )
    }

    open spec fn remembered(&self, t: Trigger, p: RunParams, game: GameState, before: i32) -> i32 {
        before
    }

    open spec fn stack_text(&self, m: Map<AbilityKey, ValueView>) -> Seq<char> {
        "Attacker: "@ + object_shown(m, AbilityKey::Attacker)
    }

    fn trigger_type(&self) -> (r: TriggerType) {
        TriggerType::Attacks
    }

    fn perform_test(&self, trigger: &Trigger, params: &RunParams, game: &GameState) -> (r: bool) {
        if self.alone {
            let alone = match params.num_attackers {
                Some(n) => n == 1,
                None => false,
            };
            if !alone {
                return false;
            }
        }
        if self.first_attack {
            if let Some(a) = params.attacker {
                if let Some(c) = game.card(a) {
                    if c.attacks_this_turn > 1 {
                        return false;
                    }
                }
            }
        }
        let matched = if params.attacked_player.is_some() {
            trigger.matches_optional_valid_player_filter(
                &self.attacked,
                params.attacked_player,
                game,
            )
        } else {
            trigger.matches_optional_valid_card_filter(&self.attacked, params.attacked_card, game)
        };
        matched && trigger.matches_optional_valid_card_filter(
            &self.valid_card,
            params.attacker,
            game,
        )
    }

    fn set_triggering_objects(
        &self,
        trigger: &Trigger,
        sa: &mut SpellAbility,
        params: &RunParams,
        game: &GameState,
    ) {
        if params.attacked_player.is_some() {
            put_player(sa, AbilityKey::Defender, params.attacked_player);
        } else {
            put_card(sa, AbilityKey::Defender, params.attacked_card);
        }
        put_card(sa, AbilityKey::Attacker, params.attacker);
        put_defenders(sa, &params.defenders_player_ids, &params.defenders_card_ids);
        put_player(sa, AbilityKey::DefendingPlayer, params.defending_player);
    }

    fn get_important_stack_objects(&self, sa: &SpellAbility) -> (r: String) {
        labelled("Attacker: ", sa, AbilityKey::Attacker)
    }
}

} // verus!
