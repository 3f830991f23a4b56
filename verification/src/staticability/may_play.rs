//! Permissions to play cards from where they are.

use vstd::prelude::*;
use crate::game::{Card, GameState, Layer, StaticAbility, SvarStatic};
use crate::lists::has_zone;
use crate::parsing::params::string_of;
use crate::staticability::common::{
    matches_valid_card_selector_opt, matches_valid_sa_opt, takes_ability, takes_card,
};
use crate::spell::SpellAbility;
use crate::text::{pieces, split, text_eq, trim, trimmed};
use crate::types::{CardId, PlayerId, ZoneType};

verus! {

// ---- one permission ----

/// Whether the conditions of a static ability hold.
pub fn run(st_ab: &StaticAbility) -> (r: bool)
    ensures
        r == st_ab.conditions_met,
{
    st_ab.conditions_met
}

/// Checks the conditions of a static ability and makes no use of the answer: nothing changes.
pub fn resolve(st_ab: &StaticAbility) {
    let _ = run(st_ab);
}

/// Whether the continuous effects are to be applied anew for a static ability in a layer: it works
/// in that layer and its conditions hold.
pub fn apply_continuous_ability(st_ab: &StaticAbility, layer: Layer) -> (r: bool)
    ensures
        r == (st_ab.layers@.contains(layer) && st_ab.conditions_met),
{
    let mut i: usize = 0;
    while i < st_ab.layers.len()
        invariant
            i <= st_ab.layers@.len(),
            forall|k: int| 0 <= k < i ==> st_ab.layers@[k] != layer,
        decreases st_ab.layers@.len() - i,
    {
        if st_ab.layers[i] == layer {
            return st_ab.conditions_met;
        }
        i = i + 1;
    }
    false
}

/// Whether a card was cast by a permission.
pub open spec fn was_cast_by(game: GameState, id: CardId, source: CardId, index: Option<usize>) -> bool {
    game.card_at(id) matches Some(c) && (c.cast_record matches Some(r) && r.may_play_source == Some(
        source,
    ) && r.may_play_static == index)
}

fn check_cast_by(game: &GameState, id: CardId, source: CardId, index: Option<usize>) -> (r: bool)
    ensures
        r == was_cast_by(*game, id, source, index),
{
    match game.card(id) {
        Some(c) => match &c.cast_record {
            Some(record) => match record.may_play_source {
                Some(s) => s == source && same_place(record.may_play_static, index),
                None => false,
            },
            None => false,
        },
        None => false,
    }
}

fn same_place(a: Option<usize>, b: Option<usize>) -> (r: bool)
    ensures
        r == (a == b),
{
    match (a, b) {
        (Some(x), Some(y)) => x == y,
        (None, None) => true,
        _ => false,
    }
}

/// How many cards of a list were cast by a permission.
pub open spec fn cast_by(game: GameState, ids: Seq<CardId>, source: CardId, index: Option<usize>) -> nat
    decreases ids.len(),
{
    if ids.len() == 0 {
        0
    } else {
        cast_by(game, ids.drop_last(), source, index) + (if was_cast_by(
            game,
            ids.last(),
            source,
            index,
        ) {
            1nat
        } else {
            0
        })
    }
}

/// How often a permission was used this turn: the lands played by it and the spells cast by it.
pub open spec fn times_used(game: GameState, st: StaticAbility, source: Card) -> i32 {
    st.may_play_turn.wrapping_add(
        cast_by(game, game.cast_this_turn@, source.id, st.index) as i32,
    )
}

pub fn may_play_turn(st_ab: &StaticAbility, source: &Card, game: &GameState) -> (r: i32)
    ensures
        r == times_used(*game, *st_ab, *source),
{
    let ghost all = game.cast_this_turn@;
    let mut n: usize = 0;
    let mut i: usize = 0;
    while i < game.cast_this_turn.len()
        invariant
            i <= all.len(),
            all == game.cast_this_turn@,
            n <= i,
            n == cast_by(*game, all.take(i as int), source.id, st_ab.index),
        decreases all.len() - i,
    {
        assert(all.take(i + 1).drop_last() =~= all.take(i as int));
        if check_cast_by(game, game.cast_this_turn[i], source.id, st_ab.index) {
            n = n + 1;
        }
        i = i + 1;
    }
    assert(all.take(i as int) =~= all);
    st_ab.may_play_turn.wrapping_add(n as i32)
}

/// Whether a permission covers a card.
pub open spec fn covers(game: GameState, st: StaticAbility, source: Card, card: Card) -> bool {
    match string_of(st.affected_defined) {
        Some(defined) => game.facts.cards_defined(defined, source.id).contains(card.id),
        None => takes_card(game.facts, string_of(st.affected), source, card.id),
    }
}

fn may_play_affects(st_ab: &StaticAbility, source: &Card, card: &Card, game: &GameState) -> (r: bool)
    ensures
        r == covers(*game, *st_ab, *source, *card),
{
    match &st_ab.affected_defined {
        Some(defined) => {
            let cards = game.facts.get_defined_cards(defined.as_str(), source.id);
            crate::lists::has_card(&cards, card.id)
        },
        None => matches_valid_card_selector_opt(&game.facts, &st_ab.affected, source, card.id),
    }
}

/// Whether a permission is for a zone: one of those it names, or else the hand.
pub open spec fn is_for_zone(st: StaticAbility, zone: ZoneType) -> bool {
    if st.affected_zones@.len() > 0 {
        st.affected_zones@.contains(zone)
    } else {
        zone == ZoneType::Hand
    }
}

/// Whether a permission can still be used this turn.
pub open spec fn is_left(game: GameState, st: StaticAbility, source: Card) -> bool {
    st.may_play_limit matches Some(limit) ==> times_used(game, st, source) < limit
}

/// Whether a static ability of a source lets a card be played from where it is.
pub open spec fn lets_play(game: GameState, st: StaticAbility, source: Card, card: Card) -> bool {
    st.may_play && st.conditions_met && is_for_zone(st, card.zone) && is_left(game, st, source)
        && covers(game, st, source, card)
}

pub fn can_play(st_ab: &StaticAbility, source: &Card, card: &Card, game: &GameState) -> (r: bool)
    ensures
        r == lets_play(*game, *st_ab, *source, *card),
{
    if !st_ab.may_play || !st_ab.conditions_met {
        return false;
    }
    if st_ab.affected_zones.len() > 0 {
        if !has_zone(&st_ab.affected_zones, card.zone) {
            return false;
        }
    } else if card.zone != ZoneType::Hand {
        return false;
    }
    if let Some(limit) = st_ab.may_play_limit {
        if may_play_turn(st_ab, source, game) >= limit {
            return false;
        }
    }
    may_play_affects(st_ab, source, card, game)
}

// ---- permissions that are granted ----

/// The static ability that a script variable writes.
pub open spec fn static_named(v: Seq<SvarStatic>, name: Seq<char>) -> Option<StaticAbility>
    decreases v.len(),
{
    if v.len() == 0 {
        None
    } else if v[0].name@ == name {
        Some(v[0].ability)
    } else {
        static_named(v.skip(1), name)
    }
}

fn find_static_named<'a>(v: &'a Vec<SvarStatic>, name: &str) -> (r: Option<&'a StaticAbility>)
    ensures
        match r {
            Some(st) => static_named(v@, name@) == Some(*st),
            None => static_named(v@, name@) is None,
        },
{
    let mut i: usize = 0;
    assert(v@.skip(0) =~= v@);
    while i < v.len()
        invariant
            i <= v@.len(),
            static_named(v@, name@) == static_named(v@.skip(i as int), name@),
        decreases v@.len() - i,
    {
        assert(v@.skip(i as int).skip(1) =~= v@.skip(i + 1));
        if text_eq(v[i].name.as_str(), name) {
            return Some(&v[i].ability);
        }
        i = i + 1;
    }
    None
}

/// The static abilities that some names stand for.
pub open spec fn statics_named(v: Seq<SvarStatic>, names: Seq<Seq<char>>) -> Seq<StaticAbility>
    decreases names.len(),
{
    if names.len() == 0 {
        Seq::empty()
    } else {
        let before = statics_named(v, names.drop_last());
        let name = trimmed(names.last());
        match static_named(v, name) {
            Some(st) if name.len() > 0 => before.push(st),
            _ => before,
        }
    }
}

/// The static abilities that a static ability grants its own host.
pub open spec fn granted(game: GameState, st: StaticAbility, source: Card) -> Seq<StaticAbility> {
    if !st.conditions_met || !takes_card(game.facts, string_of(st.affected), source, source.id) {
        Seq::empty()
    } else {
        match string_of(st.add_static_ability_text) {
            Some(text) => statics_named(source.svar_statics@, pieces(text, " & "@)),
            None => Seq::empty(),
        }
    }
}

pub open spec fn statics_of(v: Seq<&StaticAbility>) -> Seq<StaticAbility> {
    Seq::new(v.len(), |i: int| *v[i])
}

pub fn granted_statics<'a>(st_ab: &StaticAbility, source: &'a Card, game: &GameState) -> (r: Vec<
    &'a StaticAbility,
>)
    ensures
        statics_of(r@) == granted(*game, *st_ab, *source),
{
    let mut out: Vec<&'a StaticAbility> = Vec::new();
    assert(statics_of(out@) =~= Seq::<StaticAbility>::empty());
    if !st_ab.conditions_met || !matches_valid_card_selector_opt(
        &game.facts,
        &st_ab.affected,
        source,
        source.id,
    ) {
        return out;
    }
    if let Some(text) = &st_ab.add_static_ability_text {
        proof {
            reveal_strlit(" & ");
        }
        let names = split(text.as_str(), " & ");
        let ghost all = crate::text::views(names@);
        let mut i: usize = 0;
        while i < names.len()
            invariant
                i <= names@.len(),
                all == crate::text::views(names@),
                statics_of(out@) == statics_named(source.svar_statics@, all.take(i as int)),
            decreases names@.len() - i,
        {
            assert(all.take(i + 1).drop_last() =~= all.take(i as int));
            assert(all[i as int] == names@[i as int]@);
            let name = trim(names[i]);
            if name.unicode_len() > 0 {
                if let Some(st) = find_static_named(&source.svar_statics, name) {
                    let ghost before = statics_of(out@);
                    out.push(st);
                    assert(statics_of(out@) =~= before.push(*st));
                }
            }
            i = i + 1;
        }
        assert(all.take(i as int) =~= all);
    }
    out
}

/// Whether one of some static abilities lets a card be played.
pub open spec fn one_lets_play(game: GameState, v: Seq<StaticAbility>, source: Card, card: Card) -> bool {
    exists|i: int| 0 <= i < v.len() && lets_play(game, #[trigger] v[i], source, card)
}

/// Whether a static ability, or one that it grants, lets a card be played.
pub open spec fn lets_play_somehow(game: GameState, st: StaticAbility, source: Card, card: Card) -> bool {
    lets_play(game, st, source, card) || one_lets_play(
        game,
        granted(game, st, source),
        source,
        card,
    )
}

pub fn can_play_or_granted(st_ab: &StaticAbility, source: &Card, card: &Card, game: &GameState) -> (r:
    bool)
    ensures
        r == lets_play_somehow(*game, *st_ab, *source, *card),
{
    if can_play(st_ab, source, card, game) {
        return true;
    }
    let v = granted_statics(st_ab, source, game);
    let ghost all = statics_of(v@);
    let mut i: usize = 0;
    while i < v.len()
        invariant
            i <= v@.len(),
            all == statics_of(v@),
            all == granted(*game, *st_ab, *source),
            !lets_play(*game, *st_ab, *source, *card),
            forall|k: int| 0 <= k < i ==> !lets_play(*game, #[trigger] all[k], *source, *card),
        decreases v@.len() - i,
    {
        assert(all[i as int] == *v@[i as int]);
        if can_play(v[i], source, card, game) {
            return true;
        }
        i = i + 1;
    }
    false
}

/// Whether a granted static ability lets a card be played by an ability.
pub open spec fn one_opens(
    game: GameState,
    v: Seq<StaticAbility>,
    source: Card,
    card: Card,
    ability: u32,
) -> bool {
    exists|i: int|
        0 <= i < v.len() && lets_play(game, #[trigger] v[i], source, card) && takes_ability(
            game.facts,
            string_of(v[i].valid_sa),
            ability,
            source.id,
        )
}

/// Whether a static ability opens the zone of a card to an ability.
pub open spec fn opens_zone_for(
    game: GameState,
    st: StaticAbility,
    source: Card,
    card: Card,
    ability: u32,
) -> bool {
    if lets_play(game, st, source, card) {
        st.may_play_grants_zone_permissions && takes_ability(
            game.facts,
            string_of(st.valid_sa),
            ability,
            source.id,
        )
    } else {
        one_opens(game, granted(game, st, source), source, card, ability)
    }
}

pub fn grants_zone_permissions_for(
    st_ab: &StaticAbility,
    source: &Card,
    card: &Card,
    game: &GameState,
    sa: &SpellAbility,
) -> (r: bool)
    ensures
        r == opens_zone_for(*game, *st_ab, *source, *card, sa.id),
{
    if can_play(st_ab, source, card, game) {
        return st_ab.may_play_grants_zone_permissions && matches_valid_sa_opt(
            &game.facts,
            &st_ab.valid_sa,
            sa,
            source.id,
        );
    }
    let v = granted_statics(st_ab, source, game);
    let ghost all = statics_of(v@);
    let mut i: usize = 0;
    while i < v.len()
        invariant
            i <= v@.len(),
            all == statics_of(v@),
            all == granted(*game, *st_ab, *source),
            !lets_play(*game, *st_ab, *source, *card),
            forall|k: int|
                0 <= k < i ==> !(lets_play(*game, #[trigger] all[k], *source, *card)
                    && takes_ability(game.facts, string_of(all[k].valid_sa), sa.id, source.id)),
        decreases v@.len() - i,
    {
        assert(all[i as int] == *v@[i as int]);
        if can_play(v[i], source, card, game) && matches_valid_sa_opt(
            &game.facts,
            &v[i].valid_sa,
            sa,
            source.id,
        ) {
            return true;
        }
        i = i + 1;
    }
    false
}

/// Whether a static ability opens the zone of a card.
pub open spec fn opens_zone(game: GameState, st: StaticAbility, source: Card, card: Card) -> bool {
    if lets_play(game, st, source, card) {
        st.may_play_grants_zone_permissions
    } else {
        lets_play_somehow(game, st, source, card)
    }
}

pub fn grants_zone_permissions(
    st_ab: &StaticAbility,
    source: &Card,
    card: &Card,
    game: &GameState,
) -> (r: bool)
    ensures
        r == opens_zone(*game, *st_ab, *source, *card),
{
    if can_play(st_ab, source, card, game) {
        return st_ab.may_play_grants_zone_permissions;
    }
    can_play_or_granted(st_ab, source, card, game)
}

// ---- permissions of a player ----

/// Whose permission it is.
pub open spec fn permitted_player(game: GameState, st: StaticAbility, source: Card, card: Card) -> PlayerId {
    match string_of(st.may_play_player) {
        Some(t) => if t == "CardOwner"@ {
            card.owner
        } else if t == "ActivePlayer"@ || t == "Player.Active"@ {
            game.active_player
        } else if t == "Player"@ {
            game.player_order@[0]
        } else {
            source.controller
        },
        None => source.controller,
    }
}

pub fn may_play_player(st_ab: &StaticAbility, source: &Card, card: &Card, game: &GameState) -> (r:
    PlayerId)
    requires
        game.player_order@.len() > 0,
    ensures
        r == permitted_player(*game, *st_ab, *source, *card),
{
    match &st_ab.may_play_player {
        Some(t) => if text_eq(t.as_str(), "CardOwner") {
            card.owner
        } else if text_eq(t.as_str(), "ActivePlayer") || text_eq(t.as_str(), "Player.Active") {
            game.active_player
        } else if text_eq(t.as_str(), "Player") {
            game.player_order[0]
        } else {
            source.controller
        },
        None => source.controller,
    }
}

/// A static ability by its host and its place there.
#[derive(Debug, Clone, Copy, PartialEq, Eq, Structural)]
pub struct Grant {
    pub source: CardId,
    pub place: usize,
}

/// The permissions of a player among the first static abilities of a card.
pub open spec fn grants_of_card(
    game: GameState,
    player: PlayerId,
    card: Card,
    id: CardId,
    source: Card,
    n: nat,
) -> Seq<Grant>
    decreases n,
{
    if n == 0 {
        Seq::empty()
    } else {
        let before = grants_of_card(game, player, card, id, source, (n - 1) as nat);
        if permitted_player(game, source.static_abilities@[n - 1], source, card) == player {
            before.push(Grant { source: id, place: (n - 1) as usize })
        } else {
            before
        }
    }
}

/// The permissions of a player among the static abilities of some cards.
pub open spec fn grants_among(game: GameState, player: PlayerId, card: Card, ids: Seq<CardId>) -> Seq<
    Grant,
>
    decreases ids.len(),
{
    if ids.len() == 0 {
        Seq::empty()
    } else {
        let before = grants_among(game, player, card, ids.drop_last());
        match game.card_at(ids.last()) {
            Some(source) => before + grants_of_card(
                game,
                player,
                card,
                ids.last(),
                source,
                source.static_abilities@.len(),
            ),
            None => before,
        }
    }
}

/// The cards of a player whose static abilities work, zone by zone.
pub open spec fn hosts_of(game: GameState, p: PlayerId) -> Seq<CardId> {
    game.in_zone(ZoneType::Battlefield, p) + game.in_zone(ZoneType::Graveyard, p) + game.in_zone(
        ZoneType::Exile,
        p,
    ) + game.in_zone(ZoneType::Command, p) + game.in_zone(ZoneType::Stack, p)
}

/// The cards of some players whose static abilities work.
pub open spec fn hosts_among(game: GameState, order: Seq<PlayerId>) -> Seq<CardId>
    decreases order.len(),
{
    if order.len() == 0 {
        Seq::empty()
    } else {
        hosts_among(game, order.drop_last()) + hosts_of(game, order.last())
    }
}

/// The permissions that would be those of a player for a card, in player order.
pub open spec fn grants_for(game: GameState, player: PlayerId, card: Card) -> Seq<Grant> {
    grants_among(game, player, card, hosts_among(game, game.player_order@))
}

fn list_hosts(game: &GameState) -> (r: Vec<CardId>)
    ensures
        r@ == hosts_among(*game, game.player_order@),
{
    let ghost all = game.player_order@;
    let mut out: Vec<CardId> = Vec::new();
    let mut i: usize = 0;
    while i < game.player_order.len()
        invariant
            i <= all.len(),
            all == game.player_order@,
            out@ == hosts_among(*game, all.take(i as int)),
        decreases all.len() - i,
    {
        assert(all.take(i + 1).drop_last() =~= all.take(i as int));
        let p = game.player_order[i];
        let mut hosts = game.cards_in_zone(ZoneType::Battlefield, p);
        crate::lists::extend_cards(&mut hosts, &game.cards_in_zone(ZoneType::Graveyard, p));
        crate::lists::extend_cards(&mut hosts, &game.cards_in_zone(ZoneType::Exile, p));
        crate::lists::extend_cards(&mut hosts, &game.cards_in_zone(ZoneType::Command, p));
        crate::lists::extend_cards(&mut hosts, &game.cards_in_zone(ZoneType::Stack, p));
        crate::lists::extend_cards(&mut out, &hosts);
        i = i + 1;
    }
    assert(all.take(i as int) =~= all);
    out
}

proof fn lemma_no_order(game: GameState)
    ensures
        game.player_order@.len() == 0 ==> hosts_among(game, game.player_order@).len() == 0,
{
}

pub fn may_play_grants(game: &GameState, player: PlayerId, card: &Card) -> (r: Vec<Grant>)
    ensures
        r@ == grants_for(*game, player, *card),
        forall|i: int| 0 <= i < r@.len() ==> is_grant(*game, #[trigger] r@[i]),
{
    let hosts = list_hosts(game);
    let ghost all = hosts@;
    proof {
        lemma_no_order(*game);
    }
    let mut out: Vec<Grant> = Vec::new();
    let mut i: usize = 0;
    while i < hosts.len()
        invariant
            i <= all.len(),
            all == hosts@,
            all.len() > 0 ==> game.player_order@.len() > 0,
            out@ == grants_among(*game, player, *card, all.take(i as int)),
            forall|k: int| 0 <= k < out@.len() ==> is_grant(*game, #[trigger] out@[k]),
        decreases all.len() - i,
    {
        assert(all.take(i + 1).drop_last() =~= all.take(i as int));
        if let Some(source) = game.card(hosts[i]) {
            let ghost before = out@;
            let ghost id = all[i as int];
            let mut k: usize = 0;
            assert(out@ =~= before + grants_of_card(*game, player, *card, id, *source, 0));
            while k < source.static_abilities.len()
                invariant
                    k <= source.static_abilities@.len(),
                    i < all.len(),
                    all == hosts@,
                    id == all[i as int],
                    game.player_order@.len() > 0,
                    game.card_at(id) == Some(*source),
                    out@ == before + grants_of_card(*game, player, *card, id, *source, k as nat),
                    forall|j: int| 0 <= j < out@.len() ==> is_grant(*game, #[trigger] out@[j]),
                decreases source.static_abilities@.len() - k,
            {
                if may_play_player(&source.static_abilities[k], source, card, game) == player {
                    out.push(Grant { source: hosts[i], place: k });
                }
                assert(out@ =~= before + grants_of_card(
                    *game,
                    player,
                    *card,
                    id,
                    *source,
                    (k + 1) as nat,
                ));
                k = k + 1;
            }
        }
        i = i + 1;
    }
    assert(all.take(i as int) =~= all);
    out
}

/// Whether a place holds a static ability.
pub open spec fn is_grant(game: GameState, g: Grant) -> bool {
    game.card_at(g.source) matches Some(source) && g.place < source.static_abilities@.len()
}

/// Whether a permission lets a card be played.
pub open spec fn grant_lets_play(game: GameState, g: Grant, card: Card) -> bool {
    game.card_at(g.source) matches Some(source) && lets_play_somehow(
        game,
        source.static_abilities@[g.place as int],
        source,
        card,
    )
}

fn check_grant(game: &GameState, g: Grant, card: &Card) -> (r: bool)
    requires
        is_grant(*game, g),
    ensures
        r == grant_lets_play(*game, g, *card),
{
    match game.card(g.source) {
        Some(source) => can_play_or_granted(&source.static_abilities[g.place], source, card, game),
        None => false,
    }
}

/// The first permission that lets a card be played.
pub open spec fn first_grant(game: GameState, v: Seq<Grant>, card: Card) -> Option<Grant>
    decreases v.len(),
{
    if v.len() == 0 {
        None
    } else if grant_lets_play(game, v[0], card) {
        Some(v[0])
    } else {
        first_grant(game, v.skip(1), card)
    }
}

/// The first permission that lets a player play a card, by its host and its place there.
pub open spec fn granting(game: GameState, player: PlayerId, card: Card) -> Option<
    (CardId, Option<usize>),
> {
    match first_grant(game, grants_for(game, player, card), card) {
        Some(g) => Some((g.source, Some(g.place))),
        None => None,
    }
}

/// Finds the first permission that lets a player play a card.
pub fn may_play_grant_source(game: &GameState, player: PlayerId, card: &Card) -> (r: Option<
    (CardId, Option<usize>),
>)
    ensures
        r == granting(*game, player, *card),
{
    let v = may_play_grants(game, player, card);
    let mut i: usize = 0;
    assert(v@.skip(0) =~= v@);
    while i < v.len()
        invariant
            i <= v@.len(),
            v@ == grants_for(*game, player, *card),
            forall|k: int| 0 <= k < v@.len() ==> is_grant(*game, #[trigger] v@[k]),
            first_grant(*game, v@, *card) == first_grant(*game, v@.skip(i as int), *card),
        decreases v@.len() - i,
    {
        assert(v@.skip(i as int).skip(1) =~= v@.skip(i + 1));
        if check_grant(game, v[i], card) {
            return Some((v[i].source, Some(v[i].place)));
        }
        i = i + 1;
    }
    None
}

/// Whether a permission of a player covers a card.
pub open spec fn player_is_permitted(game: GameState, player: PlayerId, card: Card) -> bool {
    exists|i: int|
        0 <= i < grants_for(game, player, card).len() && grant_lets_play(
            game,
            #[trigger] grants_for(game, player, card)[i],
            card,
        )
}

pub fn player_may_play(game: &GameState, player: PlayerId, card: &Card) -> (r: bool)
    ensures
        r == player_is_permitted(*game, player, *card),
{
    let v = may_play_grants(game, player, card);
    let mut i: usize = 0;
    while i < v.len()
        invariant
            i <= v@.len(),
            v@ == grants_for(*game, player, *card),
            forall|k: int| 0 <= k < v@.len() ==> is_grant(*game, #[trigger] v@[k]),
            forall|k: int| 0 <= k < i ==> !grant_lets_play(*game, #[trigger] v@[k], *card),
        decreases v@.len() - i,
    {
        if check_grant(game, v[i], card) {
            assert(grant_lets_play(*game, grants_for(*game, player, *card)[i as int], *card));
            return true;
        }
        i = i + 1;
    }
    false
}

/// The cost in place of the mana cost that a static ability gives a card.
pub open spec fn other_cost(game: GameState, st: StaticAbility, source: Card, card: Card) -> Option<
    Seq<char>,
> {
    if !lets_play(game, st, source, card) {
        None
    } else if st.may_play_without_mana_cost {
        Some("0"@)
    } else {
        string_of(st.may_play_alt_mana_cost)
    }
}

pub fn may_play_alt_mana_cost(
    st_ab: &StaticAbility,
    source: &Card,
    card: &Card,
    game: &GameState,
) -> (r: Option<String>)
    ensures
        string_of(r) == other_cost(*game, *st_ab, *source, *card),
{
    if !can_play(st_ab, source, card, game) {
        return None;
    }
    if st_ab.may_play_without_mana_cost {
        return Some("0".to_string());
    }
    match &st_ab.may_play_alt_mana_cost {
        Some(t) => Some(t.as_str().to_string()),
        None => None,
    }
}

/// The other costs that some permissions give a card.
pub open spec fn other_costs(game: GameState, v: Seq<Grant>, card: Card) -> Seq<Seq<char>>
    decreases v.len(),
{
    if v.len() == 0 {
        Seq::empty()
    } else {
        let before = other_costs(game, v.drop_last(), card);
        match game.card_at(v.last().source) {
            Some(source) => match other_cost(
                game,
                source.static_abilities@[v.last().place as int],
                source,
                card,
            ) {
                Some(t) => before.push(t),
                None => before,
            },
            None => before,
        }
    }
}

/// The other costs at which a player may cast a card, in the order of the permissions.
pub fn may_play_alt_costs(game: &GameState, player: PlayerId, card: &Card) -> (r: Vec<String>)
    ensures
        crate::text::string_views(r@) == other_costs(
            *game,
            grants_for(*game, player, *card),
            *card,
        ),
{
    let v = may_play_grants(game, player, card);
    let ghost all = v@;
    let mut out: Vec<String> = Vec::new();
    assert(crate::text::string_views(out@) =~= Seq::<Seq<char>>::empty());
    let mut i: usize = 0;
    while i < v.len()
        invariant
            i <= all.len(),
            all == v@,
            forall|k: int| 0 <= k < v@.len() ==> is_grant(*game, #[trigger] v@[k]),
            crate::text::string_views(out@) == other_costs(*game, all.take(i as int), *card),
        decreases all.len() - i,
    {
        assert(all.take(i + 1).drop_last() =~= all.take(i as int));
        assert(is_grant(*game, v@[i as int]));
        if let Some(source) = game.card(v[i].source) {
            if let Some(t) = may_play_alt_mana_cost(
                &source.static_abilities[v[i].place],
                source,
                card,
                game,
            ) {
                let ghost before = crate::text::string_views(out@);
                out.push(t);
                assert(crate::text::string_views(out@) =~= before.push(t@));
            }
        }
        i = i + 1;
    }
    assert(all.take(i as int) =~= all);
    out
}

// ---- after the card is on the stack ----

/// Whether a permission opens a zone that a card was cast from.
pub open spec fn opens_origin(game: GameState, g: Grant, origin: ZoneType) -> bool {
    game.card_at(g.source) matches Some(source) && ({
        let st = source.static_abilities@[g.place as int];
        st.may_play && st.affected_zones@.contains(origin) && st.conditions_met
    })
}

/// Whether a permission accepts a spell once it is on the stack.
pub open spec fn accepts_after_stack(game: GameState, g: Grant, ability: u32) -> bool {
    game.card_at(g.source) matches Some(source) && takes_ability(
        game.facts,
        string_of(source.static_abilities@[g.place as int].valid_after_stack),
        ability,
        source.id,
    )
}

pub open spec fn some_opens(game: GameState, v: Seq<Grant>, origin: ZoneType) -> bool {
    exists|i: int| 0 <= i < v.len() && opens_origin(game, #[trigger] v[i], origin)
}

pub open spec fn some_accepts(
    game: GameState,
    v: Seq<Grant>,
    origin: ZoneType,
    ability: u32,
) -> bool {
    exists|i: int|
        0 <= i < v.len() && opens_origin(game, #[trigger] v[i], origin) && accepts_after_stack(
            game,
            v[i],
            ability,
        )
}

/// Whether a spell is legal on the stack, by the permissions for where its card came from.
pub open spec fn is_legal_after_stack(
    game: GameState,
    player: PlayerId,
    card: Card,
    ability: u32,
) -> bool {
    match card.cast_from {
        Some(origin) => {
            let v = grants_for(game, player, card);
            origin == ZoneType::Hand || (some_opens(game, v, origin) ==> some_accepts(
                game,
                v,
                origin,
                ability,
            ))
        },
        None => true,
    }
}

pub fn may_play_allows_after_stack(
    game: &GameState,
    player: PlayerId,
    card: &Card,
    sa: &SpellAbility,
) -> (r: bool)
    ensures
        r == is_legal_after_stack(*game, player, *card, sa.id),
{
    let origin = match card.cast_from {
        Some(z) => z,
        None => {
            return true;
        },
    };
    if origin == ZoneType::Hand {
        return true;
    }
    let v = may_play_grants(game, player, card);
    let mut opens = false;
    let mut i: usize = 0;
    while i < v.len()
        invariant
            i <= v@.len(),
            v@ == grants_for(*game, player, *card),
            card.cast_from == Some(origin),
            forall|k: int| 0 <= k < v@.len() ==> is_grant(*game, #[trigger] v@[k]),
            opens ==> some_opens(*game, v@, origin),
            !opens ==> forall|k: int| 0 <= k < i ==> !opens_origin(*game, #[trigger] v@[k], origin),
            forall|k: int|
                0 <= k < i ==> !(opens_origin(*game, #[trigger] v@[k], origin)
                    && accepts_after_stack(*game, v@[k], sa.id)),
        decreases v@.len() - i,
    {
        assert(is_grant(*game, v@[i as int]));
        if let Some(source) = game.card(v[i].source) {
            let st = &source.static_abilities[v[i].place];
            if st.may_play && has_zone(&st.affected_zones, origin) && st.conditions_met {
                assert(opens_origin(*game, v@[i as int], origin));
                opens = true;
                if matches_valid_sa_opt(&game.facts, &st.valid_after_stack, sa, source.id) {
                    assert(some_accepts(*game, v@, origin, sa.id));
                    return true;
                }
            }
        }
        i = i + 1;
    }
    !opens
}

// ---- laws ----

/// What lets a card be played, opens its zone only where it lets the card be played at all, and
/// what one static ability allows, it allows with what it grants too.
pub proof fn law_permissions_agree(
    game: GameState,
    st: StaticAbility,
    source: Card,
    card: Card,
    ability: u32,
)
    ensures
        lets_play(game, st, source, card) ==> lets_play_somehow(game, st, source, card),
        opens_zone(game, st, source, card) ==> lets_play_somehow(game, st, source, card),
        opens_zone_for(game, st, source, card, ability) ==> opens_zone(game, st, source, card),
{
}

proof fn lemma_first_grant(game: GameState, v: Seq<Grant>, card: Card)
    ensures
        first_grant(game, v, card) is Some <==> exists|i: int|
            0 <= i < v.len() && grant_lets_play(game, #[trigger] v[i], card),
    decreases v.len(),
{
    if v.len() > 0 {
        let rest = v.skip(1);
        lemma_first_grant(game, rest, card);
        if first_grant(game, v, card) is Some {
            if grant_lets_play(game, v[0], card) {
            } else {
                let i = choose|i: int|
                    0 <= i < rest.len() && grant_lets_play(game, #[trigger] rest[i], card);
                assert(grant_lets_play(game, v[i + 1], card));
            }
        } else if exists|i: int| 0 <= i < v.len() && grant_lets_play(game, #[trigger] v[i], card) {
            let i = choose|i: int|
                0 <= i < v.len() && grant_lets_play(game, #[trigger] v[i], card);
            assert(i > 0);
            assert(grant_lets_play(game, rest[i - 1], card));
        }
    }
}

/// A player may play a card exactly where there is a permission that lets them.
pub proof fn law_permission_has_source(game: GameState, player: PlayerId, card: Card)
    ensures
        player_is_permitted(game, player, card) <==> granting(game, player, card) is Some,
{
    lemma_first_grant(game, grants_for(game, player, card), card);
}

/// A card in its owner's hand, or of unknown origin, is always legal on the stack.
pub proof fn law_cast_from_hand_is_legal(
    game: GameState,
    player: PlayerId,
    card: Card,
    ability: u32,
)
    requires
        card.cast_from is None || card.cast_from == Some(ZoneType::Hand),
    ensures
        is_legal_after_stack(game, player, card, ability),
{
}

} // verus!
