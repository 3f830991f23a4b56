//! Triggers of cards that change zones or faces.

use vstd::prelude::*;
use crate::game::{Facts, GameState, ZoneEntry};
use crate::lists::{copy_cards, has_card};
use crate::parsing::params::{found, string_of, zone_value, Params};
use crate::spell::{AbilityValue, SpellAbility};
use crate::svar::simple::{compare_expr, compared_with};
use crate::text::{pieces, split, text_eq, trim, trimmed};
use crate::trigger::common::{
    add_labelled, check_one_passes, labelled, list_of, list_passing, object_shown, one_passes,
    passes, passing, player_passes, put, put_card, put_count, put_player, with_card, with_cards,
    with_number, with_player, RunParams, Trigger, TriggerBehavior, TriggerType, ValueView,
};
use crate::types::{zone_named, AbilityKey, CardId, PlayerId, ZoneType};

verus! {

// ---- cards change zones together ----

/// The zone that a key of parameters names.
pub open spec fn zone_under(m: Map<Seq<char>, Seq<char>>, key: Seq<char>) -> Option<ZoneType> {
    match found(m, key) {
        Some(v) => zone_value(v),
        None => None,
    }
}

/// The text under a key, or else under another one.
pub open spec fn found_either(m: Map<Seq<char>, Seq<char>>, key: Seq<char>, other: Seq<char>) -> Option<
    Seq<char>,
> {
    match found(m, key) {
        Some(v) => Some(v),
        None => found(m, other),
    }
}

pub struct TriggerChangesZoneAll {
    pub origin: Option<ZoneType>,
    pub destination: Option<ZoneType>,
    pub valid_card: Option<String>,
    pub valid_cause: Option<String>,
    pub first_time_only: bool,
    pub valid_amount: Option<String>,
}

impl TriggerChangesZoneAll {
    pub fn parse(params: &Params) -> (r: TriggerChangesZoneAll)
        requires
            params.wf(),
        ensures
            r.origin == zone_under(params@, "Origin"@),
            r.destination == zone_under(params@, "Destination"@),
            string_of(r.valid_card) == found_either(params@, "ValidCards"@, "ValidCard"@),
            string_of(r.valid_cause) == found(params@, "ValidCause"@),
            r.first_time_only == params@.dom().contains("FirstTime"@),
            string_of(r.valid_amount) == found(params@, "ValidAmount"@),
    {
        TriggerChangesZoneAll {
            origin: params.zone_type("Origin"),
            destination: params.zone_type("Destination"),
            valid_card: match params.get_cloned("ValidCards") {
                Some(v) => Some(v),
                None => params.get_cloned("ValidCard"),
            },
            valid_cause: params.get_cloned("ValidCause"),
            first_time_only: params.has("FirstTime"),
            valid_amount: params.get_cloned("ValidAmount"),
        }
    }
}

/// Whether a zone is the expected one; without an expectation every zone is.
pub open spec fn is_expected(expected: Option<ZoneType>, zone: ZoneType) -> bool {
    expected matches Some(z) ==> z == zone
}

fn check_expected(expected: Option<ZoneType>, zone: ZoneType) -> (r: bool)
    ensures
        r == is_expected(expected, zone),
{
    match expected {
        Some(z) => z == zone,
        None => true,
    }
}

/// The cards that moved as a trigger asks.
pub open spec fn moved_cards(
    facts: Facts,
    t: Trigger,
    origin: Option<ZoneType>,
    destination: Option<ZoneType>,
    filter: Option<Seq<char>>,
    moves: Seq<ZoneEntry>,
) -> Seq<CardId>
    decreases moves.len(),
{
    if moves.len() == 0 {
        Seq::empty()
    } else {
        let before = moved_cards(facts, t, origin, destination, filter, moves.drop_last());
        let e = moves.last();
        if is_expected(origin, e.origin) && is_expected(destination, e.destination) && passes(
            facts,
            t,
            filter,
            Some(e.card),
        ) {
            before.push(e.card)
        } else {
            before
        }
    }
}

/// The moves that an event tells of.
pub open spec fn moves_of(p: RunParams) -> Seq<ZoneEntry> {
    match p.zone_table {
        Some(v) => v@,
        None => match p.zone_changes {
            Some(v) => v@,
            None => Seq::empty(),
        },
    }
}

/// Whose zone a card is in.
pub open spec fn zone_owner(game: GameState, id: CardId, zone: ZoneType) -> Option<PlayerId> {
    match game.card_at(id) {
        Some(c) => Some(
            if zone == ZoneType::Battlefield {
                c.controller
            } else {
                c.owner
            },
        ),
        None => None,
    }
}

fn find_zone_owner(game: &GameState, id: CardId, zone: ZoneType) -> (r: Option<PlayerId>)
    ensures
        r == zone_owner(*game, id, zone),
{
    match game.card(id) {
        Some(c) => Some(
            if zone == ZoneType::Battlefield {
                c.controller
            } else {
                c.owner
            },
        ),
        None => None,
    }
}

impl TriggerChangesZoneAll {
    /// Whether a card came to a zone of a player earlier this turn, as the trigger asks.
    pub open spec fn came_before(
        &self,
        game: GameState,
        t: Trigger,
        matching: Seq<CardId>,
        zone: ZoneType,
        owner: Option<PlayerId>,
        e: ZoneEntry,
    ) -> bool {
        e.destination == zone && Some(e.player) == owner && !matching.contains(
            e.card,
        ) && is_expected(self.origin, e.origin) && passes(
            game.facts,
            t,
            string_of(self.valid_card),
            Some(e.card),
        )
    }

    /// Whether other cards came to the zone of a card earlier this turn, as the trigger asks.
    pub open spec fn seen_before(
        &self,
        game: GameState,
        t: Trigger,
        matching: Seq<CardId>,
        id: CardId,
    ) -> bool {
        game.card_at(id) matches Some(c) && exists|i: int|
            0 <= i < game.entered_this_turn@.len() && self.came_before(
                game,
                t,
                matching,
                c.zone,
                zone_owner(game, id, c.zone),
                #[trigger] game.entered_this_turn@[i],
            )
    }

    pub open spec fn some_seen_before(
        &self,
        game: GameState,
        t: Trigger,
        matching: Seq<CardId>,
        among: Seq<CardId>,
    ) -> bool {
        exists|i: int|
            0 <= i < among.len() && self.seen_before(game, t, matching, #[trigger] among[i])
    }

    pub open spec fn matching(&self, game: GameState, t: Trigger, p: RunParams) -> Seq<CardId> {
        moved_cards(
            game.facts,
            t,
            self.origin,
            self.destination,
            string_of(self.valid_card),
            moves_of(p),
        )
    }

    fn list_moved(&self, trigger: &Trigger, moves: &Vec<ZoneEntry>, game: &GameState) -> (r: Vec<
        CardId,
    >)
        ensures
            r@ == moved_cards(
                game.facts,
                *trigger,
                self.origin,
                self.destination,
                string_of(self.valid_card),
                moves@,
            ),
    {
        let ghost all = moves@;
        let mut out: Vec<CardId> = Vec::new();
        let mut i: usize = 0;
        while i < moves.len()
            invariant
                i <= all.len(),
                all == moves@,
                out@ == moved_cards(
                    game.facts,
                    *trigger,
                    self.origin,
                    self.destination,
                    string_of(self.valid_card),
                    all.take(i as int),
                ),
            decreases all.len() - i,
        {
            assert(all.take(i + 1).drop_last() =~= all.take(i as int));
            let e = &moves[i];
            if check_expected(self.origin, e.origin) && check_expected(
                self.destination,
                e.destination,
            ) && trigger.matches_optional_valid_card_filter(&self.valid_card, Some(e.card), game) {
                out.push(e.card);
            }
            i = i + 1;
        }
        assert(all.take(i as int) =~= all);
        out
    }

    /// The cards of an event that the trigger is about.
    pub fn filter_cards(&self, trigger: &Trigger, params: &RunParams, game: &GameState) -> (r: Vec<
        CardId,
    >)
        ensures
            r@ == self.matching(*game, *trigger, *params),
    {
        match &params.zone_table {
            Some(moves) => self.list_moved(trigger, moves, game),
            None => match &params.zone_changes {
                Some(moves) => self.list_moved(trigger, moves, game),
                None => Vec::new(),
            },
        }
    }

    fn check_seen_before(
        &self,
        trigger: &Trigger,
        game: &GameState,
        matching: &Vec<CardId>,
        id: CardId,
    ) -> (r: bool)
        ensures
            r == self.seen_before(*game, *trigger, matching@, id),
    {
        let zone = match game.card(id) {
            Some(c) => c.zone,
            None => {
                return false;
            },
        };
        let owner = find_zone_owner(game, id, zone);
        let mut i: usize = 0;
        while i < game.entered_this_turn.len()
            invariant
                i <= game.entered_this_turn@.len(),
                game.card_at(id) matches Some(c) && c.zone == zone,
                owner == zone_owner(*game, id, zone),
                forall|k: int|
                    0 <= k < i ==> !self.came_before(
                        *game,
                        *trigger,
                        matching@,
                        zone,
                        owner,
                        #[trigger] game.entered_this_turn@[k],
                    ),
            decreases game.entered_this_turn@.len() - i,
        {
            let e = &game.entered_this_turn[i];
            let same = match owner {
                Some(p) => e.player == p,
                None => false,
            };
            if e.destination == zone && same && !has_card(matching, e.card) && check_expected(
                self.origin,
                e.origin,
            ) && trigger.matches_optional_valid_card_filter(&self.valid_card, Some(e.card), game) {
                assert(self.came_before(
                    *game,
                    *trigger,
                    matching@,
                    zone,
                    owner,
                    game.entered_this_turn@[i as int],
                ));
                return true;
            }
            i = i + 1;
        }
        false
    }

    fn check_some_seen(&self, trigger: &Trigger, game: &GameState, matching: &Vec<CardId>) -> (r:
        bool)
        ensures
            r == self.some_seen_before(*game, *trigger, matching@, matching@),
    {
        let mut i: usize = 0;
        while i < matching.len()
            invariant
                i <= matching@.len(),
                forall|k: int|
                    0 <= k < i ==> !self.seen_before(
                        *game,
                        *trigger,
                        matching@,
                        #[trigger] matching@[k],
                    ),
            decreases matching@.len() - i,
        {
            if self.check_seen_before(trigger, game, matching, matching[i]) {
                assert(self.seen_before(*game, *trigger, matching@, matching@[i as int]));
                return true;
            }
            i = i + 1;
        }
        false
    }

    pub fn origin_zone(&self) -> (r: Option<ZoneType>)
        ensures
            r == self.origin,
    {
        self.origin
    }

    pub fn destination_zone(&self) -> (r: Option<ZoneType>)
        ensures
            r == self.destination,
    {
        self.destination
    }
}

impl TriggerBehavior for TriggerChangesZoneAll {
    open spec fn kind(&self) -> TriggerType {
        TriggerType::ChangesZoneAll
    }

    open spec fn fires(&self, t: Trigger, p: RunParams, game: GameState) -> bool {
        let matching = self.matching(game, t, p);
        &&& passes(game.facts, t, string_of(self.valid_cause), p.cause_card)
        &&& matching.len() > 0
        &&& self.first_time_only && p.zone_table is None ==> !self.some_seen_before(
            game,
            t,
            matching,
            matching,
        )
        &&& string_of(self.valid_amount) matches Some(condition) ==> compared_with(
            matching.len() as i32,
            condition,
        )
    }

    open spec fn with_objects(
        &self,
        t: Trigger,
        p: RunParams,
        game: GameState,
        m: Map<AbilityKey, ValueView>,
    ) -> Map<AbilityKey, ValueView> {
        let cards = self.matching(game, t, p);
        with_cards(
            with_number(m, AbilityKey::Amount, Some(cards.len() as int)),
            AbilityKey::Cards,
            Some(cards),
        )
    }

    open spec fn remembered(&self, t: Trigger, p: RunParams, game: GameState, before: i32) -> i32 {
        self.matching(game, t, p).len() as i32
    }

    open spec fn stack_text(&self, m: Map<AbilityKey, ValueView>) -> Seq<char> {
        "Amount: "@ + object_shown(m, AbilityKey::Amount)
    }

    fn trigger_type(&self) -> (r: TriggerType) {
        TriggerType::ChangesZoneAll
    }

    fn perform_test(&self, trigger: &Trigger, params: &RunParams, game: &GameState) -> (r: bool) {
        if !trigger.matches_optional_valid_card_filter(&self.valid_cause, params.cause_card, game) {
            return false;
        }
        let matching = self.filter_cards(trigger, params, game);
        if matching.len() == 0 {
            return false;
        }
        if self.first_time_only && params.zone_table.is_none() {
            if self.check_some_seen(trigger, game, &matching) {
                return false;
            }
        }
        match &self.valid_amount {
            Some(condition) => compare_expr(matching.len() as i32, condition.as_str()),
            None => true,
        }
    }

    fn set_triggering_objects(
        &self,
        trigger: &Trigger,
        sa: &mut SpellAbility,
        params: &RunParams,
        game: &GameState,
    ) {
        let cards = self.filter_cards(trigger, params, game);
        put_count(sa, AbilityKey::Amount, cards.len());
        sa.trigger_remembered_amount = cards.len() as i32;
        put(sa, AbilityKey::Cards, AbilityValue::Cards(cards));
    }

    fn get_important_stack_objects(&self, sa: &SpellAbility) -> (r: String) {
        labelled("Amount: ", sa, AbilityKey::Amount)
    }
}

// ---- cards are discarded together ----

pub struct TriggerDiscardedAll {
    pub valid_card: Option<String>,
    pub valid_player: Option<String>,
}

impl TriggerDiscardedAll {
    pub fn parse(params: &Params) -> (r: TriggerDiscardedAll)
        requires
            params.wf(),
        ensures
            string_of(r.valid_card) == found(params@, "ValidCard"@),
            string_of(r.valid_player) == found(params@, "ValidPlayer"@),
    {
        TriggerDiscardedAll {
            valid_card: params.get_cloned("ValidCard"),
            valid_player: params.get_cloned("ValidPlayer"),
        }
    }
}

impl TriggerBehavior for TriggerDiscardedAll {
    open spec fn kind(&self) -> TriggerType {
        TriggerType::DiscardedAll
    }

    open spec fn fires(&self, t: Trigger, p: RunParams, game: GameState) -> bool {
        (match list_of(p.cards) {
            Some(cards) => one_passes(game.facts, t, string_of(self.valid_card), cards),
            None => self.valid_card is None,
        }) && player_passes(game.facts, t, string_of(self.valid_player), p.player)
    }

    open spec fn with_objects(
        &self,
        t: Trigger,
        p: RunParams,
        game: GameState,
        m: Map<AbilityKey, ValueView>,
    ) -> Map<AbilityKey, ValueView> {
        let batch = match list_of(p.cards) {
            Some(cards) => {
                let filtered = passing(game.facts, t, string_of(self.valid_card), cards);
                with_cards(
                    with_number(m, AbilityKey::Amount, Some(filtered.len() as int)),
                    AbilityKey::Cards,
                    Some(filtered),
                )
            },
            None => m,
        };
        with_player(batch, AbilityKey::Player, p.player)
    }

    open spec fn remembered(&self, t: Trigger, p: RunParams, game: GameState, before: i32) -> i32 {
        before
    }

    open spec fn stack_text(&self, m: Map<AbilityKey, ValueView>) -> Seq<char> {
        "Player: "@ + object_shown(m, AbilityKey::Player) + ", Amount: "@ + object_shown(
            m,
            AbilityKey::Amount,
        )
    }

    fn trigger_type(&self) -> (r: TriggerType) {
        TriggerType::DiscardedAll
    }

    fn perform_test(&self, trigger: &Trigger, params: &RunParams, game: &GameState) -> (r: bool) {
        let cards_match = match &params.cards {
            Some(cards) => check_one_passes(trigger, &self.valid_card, cards, game),
            None => self.valid_card.is_none(),
        };
        cards_match && trigger.matches_optional_valid_player_filter(
            &self.valid_player,
            params.player,
            game,
        )
    }

    fn set_triggering_objects(
        &self,
        trigger: &Trigger,
        sa: &mut SpellAbility,
        params: &RunParams,
        game: &GameState,
    ) {
        if let Some(cards) = &params.cards {
            let filtered = list_passing(trigger, &self.valid_card, cards, game);
            put_count(sa, AbilityKey::Amount, filtered.len());
            put(sa, AbilityKey::Cards, AbilityValue::Cards(filtered));
        }
        put_player(sa, AbilityKey::Player, params.player);
    }

    fn get_important_stack_objects(&self, sa: &SpellAbility) -> (r: String) {
        let mut out = labelled("Player: ", sa, AbilityKey::Player);
        add_labelled(&mut out, ", Amount: ", sa, AbilityKey::Amount);
        out
    }
}

// ---- cards are milled together ----

pub struct TriggerMilledOnce {
    pub valid_card: Option<String>,
    pub valid_player: Option<String>,
}

impl TriggerMilledOnce {
    pub fn parse(params: &Params) -> (r: TriggerMilledOnce)
        requires
            params.wf(),
        ensures
            string_of(r.valid_card) == found(params@, "ValidCard"@),
            string_of(r.valid_player) == found(params@, "ValidPlayer"@),
    {
        TriggerMilledOnce {
            valid_card: params.get_cloned("ValidCard"),
            valid_player: params.get_cloned("ValidPlayer"),
        }
    }
}

impl TriggerBehavior for TriggerMilledOnce {
    open spec fn kind(&self) -> TriggerType {
        TriggerType::MilledOnce
    }

    open spec fn fires(&self, t: Trigger, p: RunParams, game: GameState) -> bool {
        player_passes(game.facts, t, string_of(self.valid_player), p.player) && (list_of(
            p.cards,
        ) matches Some(cards) && one_passes(game.facts, t, string_of(self.valid_card), cards))
    }

    open spec fn with_objects(
        &self,
        t: Trigger,
        p: RunParams,
        game: GameState,
        m: Map<AbilityKey, ValueView>,
    ) -> Map<AbilityKey, ValueView> {
        let batch = match list_of(p.cards) {
            Some(cards) => with_number(
                with_cards(m, AbilityKey::Cards, Some(cards)),
                AbilityKey::Amount,
                Some(cards.len() as int),
            ),
            None => m,
        };
        with_player(batch, AbilityKey::Player, p.player)
    }

    open spec fn remembered(&self, t: Trigger, p: RunParams, game: GameState, before: i32) -> i32 {
        before
    }

    open spec fn stack_text(&self, m: Map<AbilityKey, ValueView>) -> Seq<char> {
        "Player: "@ + object_shown(m, AbilityKey::Player)
    }

    fn trigger_type(&self) -> (r: TriggerType) {
        TriggerType::MilledOnce
    }

    fn perform_test(&self, trigger: &Trigger, params: &RunParams, game: &GameState) -> (r: bool) {
        if !trigger.matches_optional_valid_player_filter(&self.valid_player, params.player, game) {
            return false;
        }
        match &params.cards {
            Some(cards) => check_one_passes(trigger, &self.valid_card, cards, game),
            None => false,
        }
    }

    fn set_triggering_objects(
        &self,
        trigger: &Trigger,
        sa: &mut SpellAbility,
        params: &RunParams,
        game: &GameState,
    ) {
        if let Some(cards) = &params.cards {
            put(sa, AbilityKey::Cards, AbilityValue::Cards(copy_cards(cards)));
            put_count(sa, AbilityKey::Amount, cards.len());
        }
        put_player(sa, AbilityKey::Player, params.player);
    }

    fn get_important_stack_objects(&self, sa: &SpellAbility) -> (r: String) {
        labelled("Player: ", sa, AbilityKey::Player)
    }
}

// ---- a land is played ----

pub struct TriggerLandPlayed {
    pub valid_card: Option<String>,
    pub origin: Option<String>,
}

impl TriggerLandPlayed {
    pub fn parse(params: &Params) -> (r: TriggerLandPlayed)
        requires
            params.wf(),
        ensures
            string_of(r.valid_card) == found(params@, "ValidCard"@),
            string_of(r.origin) == found(params@, "Origin"@),
    {
        TriggerLandPlayed {
            valid_card: params.get_cloned("ValidCard"),
            origin: params.get_cloned("Origin"),
        }
    }
}

/// Whether a list of zone names names a zone.
pub open spec fn names_zone(text: Seq<char>, zone: ZoneType) -> bool {
    exists|i: int|
        0 <= i < pieces(text, ","@).len() && zone_named(
            trimmed(#[trigger] pieces(text, ","@)[i]),
        ) == Some(zone)
}

fn check_names_zone(text: &str, zone: ZoneType) -> (r: bool)
    ensures
        r == names_zone(text@, zone),
{
    proof {
        reveal_strlit(",");
    }
    let parts = split(text, ",");
    let ghost all = pieces(text@, ","@);
    let mut i: usize = 0;
    while i < parts.len()
        invariant
            i <= parts@.len(),
            all == pieces(text@, ","@),
            all == crate::text::views(parts@),
            forall|k: int| 0 <= k < i ==> zone_named(trimmed(#[trigger] all[k])) != Some(zone),
        decreases parts@.len() - i,
    {
        assert(all[i as int] == parts@[i as int]@);
        if let Some(z) = ZoneType::from_str_compat(trim(parts[i])) {
            if z == zone {
                assert(zone_named(trimmed(all[i as int])) == Some(zone));
                return true;
            }
        }
        i = i + 1;
    }
    false
}

/// Whether a land was played from where a trigger asks.
pub open spec fn is_from(origin: Option<Seq<char>>, from: Option<ZoneType>) -> bool {
    match origin {
        Some(text) => text == "Any"@ || (from matches Some(z) && names_zone(text, z)),
        None => true,
    }
}

fn check_from(origin: &Option<String>, from: Option<ZoneType>) -> (r: bool)
    ensures
        r == is_from(string_of(*origin), from),
{
    match origin {
        Some(text) => {
            if text_eq(text.as_str(), "Any") {
                return true;
            }
            match from {
                Some(z) => check_names_zone(text.as_str(), z),
                None => false,
            }
        },
        None => true,
    }
}

impl TriggerBehavior for TriggerLandPlayed {
    open spec fn kind(&self) -> TriggerType {
        TriggerType::LandPlayed
    }

    open spec fn fires(&self, t: Trigger, p: RunParams, game: GameState) -> bool {
        is_from(string_of(self.origin), p.origin) && passes(
            game.facts,
            t,
            string_of(self.valid_card),
            p.card,
        )
    }

    open spec fn with_objects(
        &self,
        t: Trigger,
        p: RunParams,
        game: GameState,
        m: Map<AbilityKey, ValueView>,
    ) -> Map<AbilityKey, ValueView> {
        with_card(m, AbilityKey::Card, p.card)
    }

    open spec fn remembered(&self, t: Trigger, p: RunParams, game: GameState, before: i32) -> i32 {
        before
    }

    open spec fn stack_text(&self, m: Map<AbilityKey, ValueView>) -> Seq<char> {
        "LandPlayed: "@ + object_shown(m, AbilityKey::Card)
    }

    fn trigger_type(&self) -> (r: TriggerType) {
        TriggerType::LandPlayed
    }

    fn perform_test(&self, trigger: &Trigger, params: &RunParams, game: &GameState) -> (r: bool) {
        check_from(&self.origin, params.origin) && trigger.matches_optional_valid_card_filter(
            &self.valid_card,
            params.card,
            game,
        )
    }

    fn set_triggering_objects(
        &self,
        trigger: &Trigger,
        sa: &mut SpellAbility,
        params: &RunParams,
        game: &GameState,
    ) {
        put_card(sa, AbilityKey::Card, params.card);
    }

    fn get_important_stack_objects(&self, sa: &SpellAbility) -> (r: String) {
        labelled("LandPlayed: ", sa, AbilityKey::Card)
    }
}

// ---- a card is turned face up ----

pub struct TriggerTurnFaceUp {
    pub valid_card: Option<String>,
}

impl TriggerTurnFaceUp {
    pub fn parse(params: &Params) -> (r: TriggerTurnFaceUp)
        requires
            params.wf(),
        ensures
            string_of(r.valid_card) == found(params@, "ValidCard"@),
    {
        TriggerTurnFaceUp {
            valid_card: params.get_cloned("ValidCard"),
        }
    }
}

impl TriggerBehavior for TriggerTurnFaceUp {
    open spec fn kind(&self) -> TriggerType {
        TriggerType::TurnFaceUp
    }

    open spec fn fires(&self, t: Trigger, p: RunParams, game: GameState) -> bool {
        passes(game.facts, t, string_of(self.valid_card), p.card)
    }

    open spec fn with_objects(
        &self,
        t: Trigger,
        p: RunParams,
        game: GameState,
        m: Map<AbilityKey, ValueView>,
    ) -> Map<AbilityKey, ValueView> {
        with_card(m, AbilityKey::Card, p.card)
    }

    open spec fn remembered(&self, t: Trigger, p: RunParams, game: GameState, before: i32) -> i32 {
        before
    }

    open spec fn stack_text(&self, m: Map<AbilityKey, ValueView>) -> Seq<char> {
        "TurnFaceUp: "@ + object_shown(m, AbilityKey::Card)
    }

    fn trigger_type(&self) -> (r: TriggerType) {
        TriggerType::TurnFaceUp
    }

    fn perform_test(&self, trigger: &Trigger, params: &RunParams, game: &GameState) -> (r: bool) {
        trigger.matches_optional_valid_card_filter(&self.valid_card, params.card, game)
    }

    fn set_triggering_objects(
        &self,
        trigger: &Trigger,
        sa: &mut SpellAbility,
        params: &RunParams,
        game: &GameState,
    ) {
        put_card(sa, AbilityKey::Card, params.card);
    }

    fn get_important_stack_objects(&self, sa: &SpellAbility) -> (r: String) {
        labelled("TurnFaceUp: ", sa, AbilityKey::Card)
    }
}

} // verus!
