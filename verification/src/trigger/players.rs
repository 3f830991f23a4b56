//! Triggers of what players do.

use vstd::prelude::*;
use crate::game::GameState;
use crate::parsing::params::{found, string_of, Params};
use crate::spell::SpellAbility;
use crate::text::{push_text, text_eq};
use crate::trigger::common::{
    add_labelled, labelled, number_of, object_shown, passes, player_passes, put_card, put_player,
    put_some_number, with_card, with_number, with_player, RunParams, Trigger, TriggerBehavior,
    TriggerType, ValueView,
};
use crate::types::AbilityKey;

verus! {

// ---- the planar die is rolled ----

pub struct TriggerPlanarDice {
    pub valid_player: Option<String>,
    pub result: Option<String>,
}

impl TriggerPlanarDice {
    pub fn parse(params: &Params) -> (r: TriggerPlanarDice)
        requires
            params.wf(),
        ensures
            string_of(r.valid_player) == found(params@, "ValidPlayer"@),
            string_of(r.result) == found(params@, "Result"@),
    {
        TriggerPlanarDice {
            valid_player: params.get_cloned("ValidPlayer"),
            result: params.get_cloned("Result"),
        }
    }
}

impl TriggerBehavior for TriggerPlanarDice {
    open spec fn kind(&self) -> TriggerType {
        TriggerType::PlanarDice
    }

    open spec fn fires(&self, t: Trigger, p: RunParams, game: GameState) -> bool {
        player_passes(game.facts, t, string_of(self.valid_player), p.player) && (string_of(
            self.result,
        ) matches Some(expected) ==> string_of(p.mode) == Some(expected))
    }

    open spec fn with_objects(
        &self,
        t: Trigger,
        p: RunParams,
        game: GameState,
        m: Map<AbilityKey, ValueView>,
    ) -> Map<AbilityKey, ValueView> {
        with_player(m, AbilityKey::Player, p.player)
    }

    open spec fn remembered(&self, t: Trigger, p: RunParams, game: GameState, before: i32) -> i32 {
        before
    }

    open spec fn stack_text(&self, m: Map<AbilityKey, ValueView>) -> Seq<char> {
        "Roller: "@ + object_shown(m, AbilityKey::Player)
    }

    fn trigger_type(&self) -> (r: TriggerType) {
        TriggerType::PlanarDice
    }

    fn perform_test(&self, trigger: &Trigger, params: &RunParams, game: &GameState) -> (r: bool) {
        if !trigger.matches_optional_valid_player_filter(&self.valid_player, params.player, game) {
            return false;
        }
        match &self.result {
            Some(expected) => match &params.mode {
                Some(mode) => text_eq(mode.as_str(), expected.as_str()),
                None => false,
            },
            None => true,
        }
    }

    fn set_triggering_objects(
        &self,
        trigger: &Trigger,
        sa: &mut SpellAbility,
        params: &RunParams,
        game: &GameState,
    ) {
        put_player(sa, AbilityKey::Player, params.player);
    }

    fn get_important_stack_objects(&self, sa: &SpellAbility) -> (r: String) {
        labelled("Roller: ", sa, AbilityKey::Player)
    }
}

// ---- the ring tempts a player ----

pub struct TriggerRingTemptsYou {
    pub valid_player: Option<String>,
    pub valid_card: Option<String>,
}

impl TriggerRingTemptsYou {
    pub fn parse(params: &Params) -> (r: TriggerRingTemptsYou)
        requires
            params.wf(),
        ensures
            string_of(r.valid_player) == found(params@, "ValidPlayer"@),
            string_of(r.valid_card) == found(params@, "ValidCard"@),
    {
        TriggerRingTemptsYou {
            valid_player: params.get_cloned("ValidPlayer"),
            valid_card: params.get_cloned("ValidCard"),
        }
    }
}

impl TriggerBehavior for TriggerRingTemptsYou {
    open spec fn kind(&self) -> TriggerType {
        TriggerType::RingTemptsYou
    }

    open spec fn fires(&self, t: Trigger, p: RunParams, game: GameState) -> bool {
        player_passes(game.facts, t, string_of(self.valid_player), p.player) && passes(
            game.facts,
            t,
            string_of(self.valid_card),
            p.card,
        )
    }

    open spec fn with_objects(
        &self,
        t: Trigger,
        p: RunParams,
        game: GameState,
        m: Map<AbilityKey, ValueView>,
    ) -> Map<AbilityKey, ValueView> {
        with_card(with_player(m, AbilityKey::Player, p.player), AbilityKey::Card, p.card)
    }

    open spec fn remembered(&self, t: Trigger, p: RunParams, game: GameState, before: i32) -> i32 {
        before
    }

    open spec fn stack_text(&self, m: Map<AbilityKey, ValueView>) -> Seq<char> {
        "Player: "@ + object_shown(m, AbilityKey::Player) + ", "@
    }

    fn trigger_type(&self) -> (r: TriggerType) {
        TriggerType::RingTemptsYou
    }

    fn perform_test(&self, trigger: &Trigger, params: &RunParams, game: &GameState) -> (r: bool) {
        trigger.matches_optional_valid_player_filter(&self.valid_player, params.player, game)
            && trigger.matches_optional_valid_card_filter(&self.valid_card, params.card, game)
    }

    fn set_triggering_objects(
        &self,
        trigger: &Trigger,
        sa: &mut SpellAbility,
        params: &RunParams,
        game: &GameState,
    ) {
        put_player(sa, AbilityKey::Player, params.player);
        put_card(sa, AbilityKey::Card, params.card);
    }

    fn get_important_stack_objects(&self, sa: &SpellAbility) -> (r: String) {
        let mut out = labelled("Player: ", sa, AbilityKey::Player);
        push_text(&mut out, ", ");
        out
    }
}

// ---- a player scries ----

pub struct TriggerScry {
    pub valid_player: Option<String>,
}

impl TriggerScry {
    pub fn parse(params: &Params) -> (r: TriggerScry)
        requires
            params.wf(),
        ensures
            string_of(r.valid_player) == found(params@, "ValidPlayer"@),
    {
        TriggerScry {
            valid_player: params.get_cloned("ValidPlayer"),
        }
    }
}

impl TriggerBehavior for TriggerScry {
    open spec fn kind(&self) -> TriggerType {
        TriggerType::Scry
    }

    open spec fn fires(&self, t: Trigger, p: RunParams, game: GameState) -> bool {
        player_passes(game.facts, t, string_of(self.valid_player), p.player)
    }

    open spec fn with_objects(
        &self,
        t: Trigger,
        p: RunParams,
        game: GameState,
        m: Map<AbilityKey, ValueView>,
    ) -> Map<AbilityKey, ValueView> {
        with_number(
            with_player(m, AbilityKey::Player, p.player),
            AbilityKey::ScryNum,
            number_of(p.num),
        )
    }

    open spec fn remembered(&self, t: Trigger, p: RunParams, game: GameState, before: i32) -> i32 {
        before
    }

    open spec fn stack_text(&self, m: Map<AbilityKey, ValueView>) -> Seq<char> {
        "Scryer: "@ + object_shown(m, AbilityKey::Player) + ", "@ + object_shown(
            m,
            AbilityKey::ScryNum,
        )
    }

    fn trigger_type(&self) -> (r: TriggerType) {
        TriggerType::Scry
    }

    fn perform_test(&self, trigger: &Trigger, params: &RunParams, game: &GameState) -> (r: bool) {
        trigger.matches_optional_valid_player_filter(&self.valid_player, params.player, game)
    }

    fn set_triggering_objects(
        &self,
        trigger: &Trigger,
        sa: &mut SpellAbility,
        params: &RunParams,
        game: &GameState,
    ) {
        put_player(sa, AbilityKey::Player, params.player);
        put_some_number(sa, AbilityKey::ScryNum, params.num);
    }

    fn get_important_stack_objects(&self, sa: &SpellAbility) -> (r: String) {
        let mut out = labelled("Scryer: ", sa, AbilityKey::Player);
        add_labelled(&mut out, ", ", sa, AbilityKey::ScryNum);
        out
    }
}

} // verus!
