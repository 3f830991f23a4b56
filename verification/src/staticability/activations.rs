//! How often an ability may be activated.

use vstd::prelude::*;
use crate::game::{Card, GameState, StaticAbility, StaticMode};
use crate::parsing::params::string_of;
use crate::replacement::collect::is_static_source;
use crate::spell::{no_ability, SpellAbility};
use crate::staticability::common::{
    is_static_ability_source, matches_valid_card_selector_opt, matches_valid_player_selector_opt,
    matches_valid_sa_opt, takes_ability, takes_card, takes_player, works,
};
use crate::svar::eval::{numeric, resolve_numeric_value};
use crate::types::{CardId, PlayerId};

verus! {

/// The activations that are allowed: at least `least`, and `more` besides, or without a limit.
#[derive(Debug, Clone, Copy, PartialEq, Eq, Structural)]
pub struct Limit {
    pub unlimited: bool,
    pub least: u32,
    pub more: u32,
}

/// A number, from none up to the largest that fits.
pub open spec fn capped(n: int) -> u32 {
    if n < 0 {
        0
    } else if n > u32::MAX {
        u32::MAX
    } else {
        n as u32
    }
}

fn add_capped(a: u32, b: u32) -> (r: u32)
    ensures
        r == capped(a + b),
{
    if a > u32::MAX - b {
        u32::MAX
    } else {
        a + b
    }
}

/// Whether a static ability speaks of a card, its ability and who activates it.
pub open spec fn applies_to(
    game: GameState,
    st: StaticAbility,
    host: Card,
    card: CardId,
    ability: u32,
    activator: PlayerId,
) -> bool {
    takes_card(game.facts, string_of(st.valid_card), host, card) && takes_ability(
        game.facts,
        string_of(st.valid_sa),
        ability,
        host.id,
    ) && takes_player(game.facts, string_of(st.valid_player), host, activator)
}

pub fn is_valid(
    st: &StaticAbility,
    host: &Card,
    card: CardId,
    sa: &SpellAbility,
    activator: PlayerId,
    game: &GameState,
) -> (r: bool)
    ensures
        r == applies_to(*game, *st, *host, card, sa.id, activator),
{
    matches_valid_card_selector_opt(&game.facts, &st.valid_card, host, card)
        && matches_valid_sa_opt(&game.facts, &st.valid_sa, sa, host.id)
        && matches_valid_player_selector_opt(&game.facts, &st.valid_player, host, activator)
}

/// What a text of a static ability is worth.
pub open spec fn host_value(game: GameState, host: Card, text: Seq<char>) -> i32 {
    numeric(game, no_ability(Some(host.id), host.controller), text, 0)
}

fn find_host_value(game: &GameState, host: &Card, text: &str) -> (r: i32)
    ensures
        r == host_value(*game, *host, text@),
{
    let sa = SpellAbility::new_empty(Some(host.id), host.controller);
    resolve_numeric_value(game, &sa, text, 0)
}

/// A limit once one more static ability is taken into account.
pub open spec fn with_static(
    game: GameState,
    st: StaticAbility,
    host: Card,
    card: CardId,
    ability: u32,
    activator: PlayerId,
    l: Limit,
) -> Limit {
    if l.unlimited || !works(st, StaticMode::Activations) || !applies_to(
        game,
        st,
        host,
        card,
        ability,
        activator,
    ) {
        l
    } else {
        let floor = match string_of(st.min_limit_text) {
            Some(t) => {
                let v = host_value(game, host, t);
                if v == -1 {
                    Limit { unlimited: true, ..l }
                } else if v > l.least {
                    Limit { least: v as u32, ..l }
                } else {
                    l
                }
            },
            None => l,
        };
        match string_of(st.additional_text) {
            Some(t) if !floor.unlimited => Limit {
                more: capped(floor.more + capped(host_value(game, host, t) as int)),
                ..floor
            },
            _ => floor,
        }
    }
}

pub open spec fn with_statics(
    game: GameState,
    host: Card,
    n: nat,
    card: CardId,
    ability: u32,
    activator: PlayerId,
    l: Limit,
) -> Limit
    decreases n,
{
    if n == 0 {
        l
    } else {
        with_static(
            game,
            host.static_abilities@[n - 1],
            host,
            card,
            ability,
            activator,
            with_statics(game, host, (n - 1) as nat, card, ability, activator, l),
        )
    }
}

/// The limit after the statics of some cards.
pub open spec fn limit_among(
    game: GameState,
    cards: Seq<Card>,
    card: CardId,
    ability: u32,
    activator: PlayerId,
) -> Limit
    decreases cards.len(),
{
    if cards.len() == 0 {
        Limit { unlimited: false, least: 1, more: 0 }
    } else {
        let before = limit_among(game, cards.drop_last(), card, ability, activator);
        let host = cards.last();
        if is_static_source(host.zone) {
            with_statics(game, host, host.static_abilities@.len(), card, ability, activator, before)
        } else {
            before
        }
    }
}

/// How often an ability may be activated.
pub open spec fn activation_limit(game: GameState, card: CardId, ability: u32, activator: PlayerId) -> u32 {
    let l = limit_among(game, game.cards@, card, ability, activator);
    if l.unlimited {
        u32::MAX
    } else {
        capped(l.least + l.more)
    }
}

fn add_static(
    game: &GameState,
    st: &StaticAbility,
    host: &Card,
    card: CardId,
    sa: &SpellAbility,
    activator: PlayerId,
    l: Limit,
) -> (r: Limit)
    ensures
        r == with_static(*game, *st, *host, card, sa.id, activator, l),
{
    if l.unlimited || !st.check_conditions_full(StaticMode::Activations) || !is_valid(
        st,
        host,
        card,
        sa,
        activator,
        game,
    ) {
        return l;
    }
    let mut out = l;
    if let Some(t) = &st.min_limit_text {
        let v: i32 = find_host_value(game, host, t.as_str());
        if v == -1 {
            out.unlimited = true;
            return out;
        }
        if v > 0 && v as u32 > out.least {
            out.least = v as u32;
        }
    }
    if let Some(t) = &st.additional_text {
        let v: i32 = find_host_value(game, host, t.as_str());
        let more: u32 = if v > 0 {
            v as u32
        } else {
            0
        };
        out.more = add_capped(out.more, more);
    }
    out
}

/// How often an ability of a card may be activated each turn.
pub fn get_limit(game: &GameState, card: CardId, sa: &SpellAbility, activator: PlayerId) -> (r: u32)
    ensures
        r == activation_limit(*game, card, sa.id, activator),
{
    let ghost all = game.cards@;
    let mut l = Limit { unlimited: false, least: 1, more: 0 };
    let mut i: usize = 0;
    while i < game.cards.len()
        invariant
            i <= all.len(),
            all == game.cards@,
            l == limit_among(*game, all.take(i as int), card, sa.id, activator),
        decreases all.len() - i,
    {
        assert(all.take(i + 1).drop_last() =~= all.take(i as int));
        let host = &game.cards[i];
        if is_static_ability_source(host.zone) {
            let ghost before = l;
            let mut k: usize = 0;
            while k < host.static_abilities.len()
                invariant
                    k <= host.static_abilities@.len(),
                    l == with_statics(*game, *host, k as nat, card, sa.id, activator, before),
                decreases host.static_abilities@.len() - k,
            {
                l = add_static(game, &host.static_abilities[k], host, card, sa, activator, l);
                k = k + 1;
            }
        }
        i = i + 1;
    }
    assert(all.take(i as int) =~= all);
    if l.unlimited {
        u32::MAX
    } else {
        add_capped(l.least, l.more)
    }
}

proof fn lemma_at_least_one(game: GameState, cards: Seq<Card>, card: CardId, ability: u32, activator: PlayerId)
    ensures
        limit_among(game, cards, card, ability, activator).least >= 1,
    decreases cards.len(),
{
    if cards.len() > 0 {
        lemma_at_least_one(game, cards.drop_last(), card, ability, activator);
        let before = limit_among(game, cards.drop_last(), card, ability, activator);
        let host = cards.last();
        lemma_statics_raise(game, host, host.static_abilities@.len(), card, ability, activator, before);
    }
}

proof fn lemma_statics_raise(
    game: GameState,
    host: Card,
    n: nat,
    card: CardId,
    ability: u32,
    activator: PlayerId,
    l: Limit,
)
    ensures
        with_statics(game, host, n, card, ability, activator, l).least >= l.least,
    decreases n,
{
    if n > 0 {
        lemma_statics_raise(game, host, (n - 1) as nat, card, ability, activator, l);
    }
}

/// Static abilities only ever raise the limit: one activation is always allowed.
pub proof fn law_one_activation(game: GameState, card: CardId, ability: u32, activator: PlayerId)
    ensures
        activation_limit(game, card, ability, activator) >= 1,
{
    lemma_at_least_one(game, game.cards@, card, ability, activator);
}

} // verus!
