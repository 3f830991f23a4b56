//! Triggers of tapping and untapping, and of the mana that comes of it.

use vstd::prelude::*;
use crate::game::{Facts, GameState};
use crate::parsing::params::{found, string_of, Params};
use crate::spell::{AbilityValue, SpellAbility};
use crate::text::{contains, has_part};
use crate::trigger::common::{
    check_one_passes, ids_text, labelled, list_of, list_passing, object_shown, one_passes, passes,
    passing, player_passes, put, put_card, put_count, put_player, put_text, read_bool, says_true,
    with_card, with_cards, with_number, with_player, with_text, write_ids, RunParams, Trigger,
    TriggerBehavior, TriggerType, Untapped, ValueView,
};
use crate::types::{AbilityKey, CardId, PlayerId};

verus! {

// ---- cards become tapped together ----

pub struct TriggerTapAll {
    pub valid_card: Option<String>,
}

impl TriggerTapAll {
    pub fn parse(params: &Params) -> (r: TriggerTapAll)
        requires
            params.wf(),
        ensures
            string_of(r.valid_card) == found(params@, "ValidCards"@),
    {
        TriggerTapAll {
            valid_card: params.get_cloned("ValidCards"),
        }
    }
}

impl TriggerBehavior for TriggerTapAll {
    open spec fn kind(&self) -> TriggerType {
        TriggerType::TapAll
    }

    open spec fn fires(&self, t: Trigger, p: RunParams, game: GameState) -> bool {
        list_of(p.cards) matches Some(cards) && one_passes(
            game.facts,
            t,
            string_of(self.valid_card),
            cards,
        )
    }

    open spec fn with_objects(
        &self,
        t: Trigger,
        p: RunParams,
        game: GameState,
        m: Map<AbilityKey, ValueView>,
    ) -> Map<AbilityKey, ValueView> {
        match list_of(p.cards) {
            Some(cards) => with_cards(
                m,
                AbilityKey::Cards,
                Some(passing(game.facts, t, string_of(self.valid_card), cards)),
            ),
            None => m,
        }
    }

    open spec fn remembered(&self, t: Trigger, p: RunParams, game: GameState, before: i32) -> i32 {
        before
    }

    open spec fn stack_text(&self, m: Map<AbilityKey, ValueView>) -> Seq<char> {
        "Tapped: "@ + object_shown(m, AbilityKey::Cards)
    }

    fn trigger_type(&self) -> (r: TriggerType) {
        TriggerType::TapAll
    }

    fn perform_test(&self, trigger: &Trigger, params: &RunParams, game: &GameState) -> (r: bool) {
        match &params.cards {
            Some(cards) => check_one_passes(trigger, &self.valid_card, cards, game),
            None => false,
        }
    }

    fn set_triggering_objects(
        &self,
        trigger: &Trigger,
        sa: &mut SpellAbility,
        params: &RunParams,
        game: &GameState,
    ) {
        if let Some(cards) = &params.cards {
            let filtered = list_passing(trigger, &self.valid_card, cards, game);
            put(sa, AbilityKey::Cards, AbilityValue::Cards(filtered));
        }
    }

    fn get_important_stack_objects(&self, sa: &SpellAbility) -> (r: String) {
        labelled("Tapped: ", sa, AbilityKey::Cards)
    }
}

// ---- a card becomes tapped ----

pub struct TriggerTaps {
    pub valid_card: Option<String>,
    pub valid_cause: Option<String>,
    pub valid_player: Option<String>,
    pub attacker: Option<bool>,
    pub require_first_time: bool,
    pub require_teamwork: bool,
}

impl TriggerTaps {
    pub fn parse(params: &Params) -> (r: TriggerTaps)
        requires
            params.wf(),
        ensures
            string_of(r.valid_card) == found(params@, "ValidCard"@),
            string_of(r.valid_cause) == found(params@, "ValidCause"@),
            string_of(r.valid_player) == found(params@, "ValidPlayer"@),
            r.attacker == says_true(found(params@, "Attacker"@)),
            r.require_first_time == params@.dom().contains("FirstTime"@),
            r.require_teamwork == params@.dom().contains("Teamwork"@),
    {
        TriggerTaps {
            valid_card: params.get_cloned("ValidCard"),
            valid_cause: params.get_cloned("ValidCause"),
            valid_player: params.get_cloned("ValidPlayer"),
            attacker: read_bool(params.get("Attacker")),
            require_first_time: params.has("FirstTime"),
            require_teamwork: params.has("Teamwork"),
        }
    }
}

/// Whether a card became tapped for the first time this turn.
pub open spec fn is_first_time(game: GameState, p: RunParams) -> bool {
    match p.first_time {
        Some(b) => b,
        None => p.card matches Some(id) && (game.card_at(id) matches Some(c) && c.tapped_this_turn
            == 1),
    }
}

fn check_first_time(game: &GameState, params: &RunParams) -> (r: bool)
    ensures
        r == is_first_time(*game, *params),
{
    match params.first_time {
        Some(b) => b,
        None => match params.card {
            Some(id) => match game.card(id) {
                Some(c) => c.tapped_this_turn == 1,
                None => false,
            },
            None => false,
        },
    }
}

impl TriggerBehavior for TriggerTaps {
    open spec fn kind(&self) -> TriggerType {
        TriggerType::Taps
    }

    open spec fn fires(&self, t: Trigger, p: RunParams, game: GameState) -> bool {
        &&& passes(game.facts, t, string_of(self.valid_card), p.card)
        &&& passes(game.facts, t, string_of(self.valid_cause), p.cause_card)
        &&& player_passes(game.facts, t, string_of(self.valid_player), p.player)
        &&& self.attacker matches Some(expected) ==> (p.attacker is Some) == expected
        &&& self.require_first_time ==> is_first_time(game, p)
        &&& !self.require_teamwork
    }

    open spec fn with_objects(
        &self,
        t: Trigger,
        p: RunParams,
        game: GameState,
        m: Map<AbilityKey, ValueView>,
    ) -> Map<AbilityKey, ValueView> {
        with_card(m, AbilityKey::Card, p.card)
    }

    open spec fn remembered(&self, t: Trigger, p: RunParams, game: GameState, before: i32) -> i32 {
        before
    }

    open spec fn stack_text(&self, m: Map<AbilityKey, ValueView>) -> Seq<char> {
        "Tapped: "@ + object_shown(m, AbilityKey::Card)
    }

    fn trigger_type(&self) -> (r: TriggerType) {
        TriggerType::Taps
    }

    fn perform_test(&self, trigger: &Trigger, params: &RunParams, game: &GameState) -> (r: bool) {
        if !trigger.matches_optional_valid_card_filter(&self.valid_card, params.card, game)
            || !trigger.matches_optional_valid_card_filter(
            &self.valid_cause,
            params.cause_card,
            game,
        ) || !trigger.matches_optional_valid_player_filter(
            &self.valid_player,
            params.player,
            game,
        ) {
            return false;
        }
        if let Some(expected) = self.attacker {
            if params.attacker.is_some() != expected {
                return false;
            }
        }
        if self.require_first_time && !check_first_time(game, params) {
            return false;
        }
        !self.require_teamwork
    }

    fn set_triggering_objects(
        &self,
        trigger: &Trigger,
        sa: &mut SpellAbility,
        params: &RunParams,
        game: &GameState,
    ) {
        put_card(sa, AbilityKey::Card, params.card);
    }

    fn get_important_stack_objects(&self, sa: &SpellAbility) -> (r: String) {
        labelled("Tapped: ", sa, AbilityKey::Card)
    }
}

// ---- cards become untapped together ----

pub struct TriggerUntapAll {
    pub valid_player: Option<String>,
    pub valid_cards: Option<String>,
}

impl TriggerUntapAll {
    pub fn parse(params: &Params) -> (r: TriggerUntapAll)
        requires
            params.wf(),
        ensures
            string_of(r.valid_player) == found(params@, "ValidPlayer"@),
            string_of(r.valid_cards) == found(params@, "ValidCards"@),
    {
        TriggerUntapAll {
            valid_player: params.get_cloned("ValidPlayer"),
            valid_cards: params.get_cloned("ValidCards"),
        }
    }
}

/// The cards of one player that pass; none where nothing says which cards are meant.
pub open spec fn passing_cards(facts: Facts, t: Trigger, filter: Option<Seq<char>>, cards: Seq<CardId>) -> Seq<
    CardId,
> {
    if filter is None {
        Seq::empty()
    } else {
        passing(facts, t, filter, cards)
    }
}

/// The players that pass, each with their cards that pass; a player without such cards is left out.
pub open spec fn passing_players(
    facts: Facts,
    t: Trigger,
    players: Option<Seq<char>>,
    cards: Option<Seq<char>>,
    all: Seq<Untapped>,
) -> Seq<(PlayerId, Seq<CardId>)>
    decreases all.len(),
{
    if all.len() == 0 {
        Seq::empty()
    } else {
        let before = passing_players(facts, t, players, cards, all.drop_last());
        let own = passing_cards(facts, t, cards, all.last().cards@);
        if player_passes(facts, t, players, Some(all.last().player)) && own.len() > 0 {
            before.push((all.last().player, own))
        } else {
            before
        }
    }
}

/// All cards of some players.
pub open spec fn all_of(v: Seq<(PlayerId, Seq<CardId>)>) -> Seq<CardId>
    decreases v.len(),
{
    if v.len() == 0 {
        Seq::empty()
    } else {
        all_of(v.drop_last()) + v.last().1
    }
}

pub open spec fn untapped_view(v: Seq<Untapped>) -> Seq<(PlayerId, Seq<CardId>)> {
    Seq::new(v.len(), |i: int| (v[i].player, v[i].cards@))
}

impl TriggerUntapAll {
    pub fn filtered_map(&self, trigger: &Trigger, params: &RunParams, game: &GameState) -> (r: Vec<
        Untapped,
    >)
        ensures
            untapped_view(r@) == passing_players(
                game.facts,
                *trigger,
                string_of(self.valid_player),
                string_of(self.valid_cards),
                params.untapped@,
            ),
    {
        let ghost all = params.untapped@;
        let mut out: Vec<Untapped> = Vec::new();
        assert(untapped_view(out@) =~= Seq::<(PlayerId, Seq<CardId>)>::empty());
        let mut i: usize = 0;
        while i < params.untapped.len()
            invariant
                i <= all.len(),
                all == params.untapped@,
                untapped_view(out@) == passing_players(
                    game.facts,
                    *trigger,
                    string_of(self.valid_player),
                    string_of(self.valid_cards),
                    all.take(i as int),
                ),
            decreases all.len() - i,
        {
            assert(all.take(i + 1).drop_last() =~= all.take(i as int));
            let e = &params.untapped[i];
            if trigger.matches_optional_valid_player_filter(
                &self.valid_player,
                Some(e.player),
                game,
            ) && self.valid_cards.is_some() {
                let own = list_passing(trigger, &self.valid_cards, &e.cards, game);
                if own.len() > 0 {
                    let ghost before = untapped_view(out@);
                    let ghost cards = own@;
                    out.push(Untapped { player: e.player, cards: own });
                    assert(untapped_view(out@) =~= before.push((e.player, cards)));
                }
            }
            i = i + 1;
        }
        assert(all.take(i as int) =~= all);
        out
    }
}

fn list_all(v: &Vec<Untapped>) -> (r: Vec<CardId>)
    ensures
        r@ == all_of(untapped_view(v@)),
{
    let ghost all = untapped_view(v@);
    let mut out: Vec<CardId> = Vec::new();
    let mut i: usize = 0;
    while i < v.len()
        invariant
            i <= v@.len(),
            all == untapped_view(v@),
            out@ == all_of(all.take(i as int)),
        decreases v@.len() - i,
    {
        assert(all.take(i + 1).drop_last() =~= all.take(i as int));
        assert(all.take(i + 1).last() == all[i as int]);
        crate::lists::extend_cards(&mut out, &v[i].cards);
        i = i + 1;
    }
    assert(all.take(i as int) =~= all);
    out
}

impl TriggerBehavior for TriggerUntapAll {
    open spec fn kind(&self) -> TriggerType {
        TriggerType::UntapAll
    }

    open spec fn fires(&self, t: Trigger, p: RunParams, game: GameState) -> bool {
        passing_players(
            game.facts,
            t,
            string_of(self.valid_player),
            string_of(self.valid_cards),
            p.untapped@,
        ).len() > 0
    }

    open spec fn with_objects(
        &self,
        t: Trigger,
        p: RunParams,
        game: GameState,
        m: Map<AbilityKey, ValueView>,
    ) -> Map<AbilityKey, ValueView> {
        let map = passing_players(
            game.facts,
            t,
            string_of(self.valid_player),
            string_of(self.valid_cards),
            p.untapped@,
        );
        let untapped = all_of(map);
        let first = if map.len() > 0 {
            Some(map[0].0)
        } else {
            None
        };
        with_number(
            with_text(
                with_player(m, AbilityKey::Player, first),
                AbilityKey::Cards,
                Some(ids_text(untapped)),
            ),
            AbilityKey::Amount,
            Some(untapped.len() as int),
        )
    }

    open spec fn remembered(&self, t: Trigger, p: RunParams, game: GameState, before: i32) -> i32 {
        before
    }

    open spec fn stack_text(&self, m: Map<AbilityKey, ValueView>) -> Seq<char> {
        "Amount: "@ + object_shown(m, AbilityKey::Amount)
    }

    fn trigger_type(&self) -> (r: TriggerType) {
        TriggerType::UntapAll
    }

    fn perform_test(&self, trigger: &Trigger, params: &RunParams, game: &GameState) -> (r: bool) {
        let map = self.filtered_map(trigger, params, game);
        assert(untapped_view(map@).len() == map@.len());
        map.len() > 0
    }

    fn set_triggering_objects(
        &self,
        trigger: &Trigger,
        sa: &mut SpellAbility,
        params: &RunParams,
        game: &GameState,
    ) {
        let map = self.filtered_map(trigger, params, game);
        assert(untapped_view(map@).len() == map@.len());
        let untapped = list_all(&map);
        if map.len() > 0 {
            assert(untapped_view(map@)[0] == (map@[0].player, map@[0].cards@));
            put_player(sa, AbilityKey::Player, Some(map[0].player));
        }
        put_text(sa, AbilityKey::Cards, &Some(write_ids(&untapped)));
        put_count(sa, AbilityKey::Amount, untapped.len());
    }

    fn get_important_stack_objects(&self, sa: &SpellAbility) -> (r: String) {
        labelled("Amount: ", sa, AbilityKey::Amount)
    }
}

// ---- mana is added ----

pub struct TriggerManaAdded {
    pub valid_source: Option<String>,
    pub valid_sa: Option<String>,
    pub player: Option<String>,
    pub produced: Option<String>,
}

impl TriggerManaAdded {
    pub fn parse(params: &Params) -> (r: TriggerManaAdded)
        requires
            params.wf(),
        ensures
            string_of(r.valid_source) == found(params@, "ValidSource"@),
            string_of(r.valid_sa) == found(params@, "ValidSA"@),
            string_of(r.player) == found(params@, "Player"@),
            string_of(r.produced) == found(params@, "Produced"@),
    {
        TriggerManaAdded {
            valid_source: params.get_cloned("ValidSource"),
            valid_sa: params.get_cloned("ValidSA"),
            player: params.get_cloned("Player"),
            produced: params.get_cloned("Produced"),
        }
    }
}

impl TriggerBehavior for TriggerManaAdded {
    open spec fn kind(&self) -> TriggerType {
        TriggerType::ManaAdded
    }

    open spec fn fires(&self, t: Trigger, p: RunParams, game: GameState) -> bool {
        &&& passes(game.facts, t, string_of(self.valid_source), p.card)
        &&& string_of(self.valid_sa) matches Some(filter) ==> (p.ability_mana matches Some(
            sa,
        ) && game.facts.matches_ability(filter, sa, t.host))
        &&& player_passes(game.facts, t, string_of(self.player), p.player)
        &&& string_of(self.produced) matches Some(expected) ==> (string_of(p.produced) matches Some(
            actual,
        ) && has_part(actual, expected))
    }

    open spec fn with_objects(
        &self,
        t: Trigger,
        p: RunParams,
        game: GameState,
        m: Map<AbilityKey, ValueView>,
    ) -> Map<AbilityKey, ValueView> {
        with_text(
            with_player(with_card(m, AbilityKey::Card, p.card), AbilityKey::Player, p.player),
            AbilityKey::Produced,
            string_of(p.produced),
        )
    }

    open spec fn remembered(&self, t: Trigger, p: RunParams, game: GameState, before: i32) -> i32 {
        before
    }

    open spec fn stack_text(&self, m: Map<AbilityKey, ValueView>) -> Seq<char> {
        "Produced: "@ + object_shown(m, AbilityKey::Produced)
    }

    fn trigger_type(&self) -> (r: TriggerType) {
        TriggerType::ManaAdded
    }

    fn perform_test(&self, trigger: &Trigger, params: &RunParams, game: &GameState) -> (r: bool) {
        if !trigger.matches_optional_valid_card_filter(&self.valid_source, params.card, game) {
            return false;
        }
        if let Some(filter) = &self.valid_sa {
            let met = match params.ability_mana {
                Some(sa) => game.facts.ability_matches_filter(filter.as_str(), sa, trigger.host),
                None => false,
            };
            if !met {
                return false;
            }
        }
        if !trigger.matches_optional_valid_player_filter(&self.player, params.player, game) {
            return false;
        }
        match &self.produced {
            Some(expected) => match &params.produced {
                Some(actual) => contains(actual.as_str(), expected.as_str()),
                None => false,
            },
            None => true,
        }
    }

    fn set_triggering_objects(
        &self,
        trigger: &Trigger,
        sa: &mut SpellAbility,
        params: &RunParams,
        game: &GameState,
    ) {
        put_card(sa, AbilityKey::Card, params.card);
        put_player(sa, AbilityKey::Player, params.player);
        put_text(sa, AbilityKey::Produced, &params.produced);
    }

    fn get_important_stack_objects(&self, sa: &SpellAbility) -> (r: String) {
        labelled("Produced: ", sa, AbilityKey::Produced)
    }
}

} // verus!
