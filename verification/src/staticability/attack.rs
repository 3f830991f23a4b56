//! What a creature must attack.

use vstd::prelude::*;
use crate::game::{Card, GameState, StaticAbility, StaticMode};
use crate::parsing::params::string_of;
use crate::replacement::collect::is_static_source;
use crate::staticability::common::{
    is_static_ability_source, matches_valid_card_selector_opt, takes_card, works,
};
use crate::types::{CardId, PlayerId};

verus! {

/// What a static ability asks a creature to attack: any defender, a player or a card.
#[derive(Debug, Clone, Copy, PartialEq, Eq, Structural)]
pub enum MustAttackEntity {
    Any,
    Player(PlayerId),
    Card(CardId),
}

/// Whether a static ability speaks of an attacker; without a selector, of every creature.
pub open spec fn concerns(game: GameState, st: StaticAbility, host: Card, attacker: Card) -> bool {
    match string_of(st.valid_creature) {
        None => attacker.types.creature,
        Some(_) => takes_card(game.facts, string_of(st.valid_creature), host, attacker.id),
    }
}

fn matches_valid_creature(game: &GameState, st: &StaticAbility, host: &Card, attacker: &Card) -> (r:
    bool)
    ensures
        r == concerns(*game, *st, *host, *attacker),
{
    match &st.valid_creature {
        None => attacker.types.creature,
        Some(_) => matches_valid_card_selector_opt(
            &game.facts,
            &st.valid_creature,
            host,
            attacker.id,
        ),
    }
}

/// The players of a list other than the active one.
pub open spec fn other_players(active: PlayerId, players: Seq<PlayerId>) -> Seq<MustAttackEntity>
    decreases players.len(),
{
    if players.len() == 0 {
        Seq::empty()
    } else {
        let before = other_players(active, players.drop_last());
        if players.last() != active {
            before.push(MustAttackEntity::Player(players.last()))
        } else {
            before
        }
    }
}

/// The cards of a list that the active player does not control.
pub open spec fn cards_of_others(game: GameState, cards: Seq<CardId>) -> Seq<MustAttackEntity>
    decreases cards.len(),
{
    if cards.len() == 0 {
        Seq::empty()
    } else {
        let before = cards_of_others(game, cards.drop_last());
        if game.card_at(cards.last()) matches Some(c) && c.controller != game.active_player {
            before.push(MustAttackEntity::Card(cards.last()))
        } else {
            before
        }
    }
}

fn add_players(active: PlayerId, players: &Vec<PlayerId>, out: &mut Vec<MustAttackEntity>)
    ensures
        final(out)@ == old(out)@ + other_players(active, players@),
{
    let ghost start = out@;
    let ghost all = players@;
    let mut i: usize = 0;
    assert(out@ =~= start + other_players(active, all.take(0)));
    while i < players.len()
        invariant
            i <= all.len(),
            all == players@,
            out@ == start + other_players(active, all.take(i as int)),
        decreases all.len() - i,
    {
        assert(all.take(i + 1).drop_last() =~= all.take(i as int));
        let ghost before = out@;
        if players[i] != active {
            out.push(MustAttackEntity::Player(players[i]));
        }
        assert(out@ =~= start + other_players(active, all.take(i + 1)));
        i = i + 1;
    }
    assert(all.take(i as int) =~= all);
}

fn add_cards(game: &GameState, cards: &Vec<CardId>, out: &mut Vec<MustAttackEntity>)
    ensures
        final(out)@ == old(out)@ + cards_of_others(*game, cards@),
{
    let ghost start = out@;
    let ghost all = cards@;
    let mut i: usize = 0;
    assert(out@ =~= start + cards_of_others(*game, all.take(0)));
    while i < cards.len()
        invariant
            i <= all.len(),
            all == cards@,
            out@ == start + cards_of_others(*game, all.take(i as int)),
        decreases all.len() - i,
    {
        assert(all.take(i + 1).drop_last() =~= all.take(i as int));
        if let Some(c) = game.card(cards[i]) {
            if c.controller != game.active_player {
                out.push(MustAttackEntity::Card(cards[i]));
            }
        }
        assert(out@ =~= start + cards_of_others(*game, all.take(i + 1)));
        i = i + 1;
    }
    assert(all.take(i as int) =~= all);
}

/// What one static ability asks an attacker to attack.
pub open spec fn asked(game: GameState, st: StaticAbility, host: Card, attacker: Card) -> Seq<
    MustAttackEntity,
> {
    if !works(st, StaticMode::MustAttack) || !concerns(game, st, host, attacker) {
        Seq::empty()
    } else {
        match string_of(st.must_attack) {
            None => seq![MustAttackEntity::Any],
            Some(defined) => other_players(
                game.active_player,
                game.facts.players_defined(defined, host.id),
            ) + cards_of_others(game, game.facts.cards_defined(defined, host.id)),
        }
    }
}

fn add_asked(
    game: &GameState,
    st: &StaticAbility,
    host: &Card,
    attacker: &Card,
    out: &mut Vec<MustAttackEntity>,
)
    ensures
        final(out)@ == old(out)@ + asked(*game, *st, *host, *attacker),
{
    let ghost start = out@;
    if !st.check_conditions_full(StaticMode::MustAttack) || !matches_valid_creature(
        game,
        st,
        host,
        attacker,
    ) {
        assert(start + asked(*game, *st, *host, *attacker) =~= start);
        return ;
    }
    match &st.must_attack {
        None => {
            out.push(MustAttackEntity::Any);
            assert(out@ =~= start + seq![MustAttackEntity::Any]);
        },
        Some(defined) => {
            let players = game.facts.get_defined_players(defined.as_str(), host.id);
            add_players(game.active_player, &players, out);
            let cards = game.facts.get_defined_cards(defined.as_str(), host.id);
            add_cards(game, &cards, out);
            assert(out@ =~= start + asked(*game, *st, *host, *attacker));
        },
    }
}

pub open spec fn asked_by_host(game: GameState, host: Card, n: nat, attacker: Card) -> Seq<
    MustAttackEntity,
>
    decreases n,
{
    if n == 0 {
        Seq::empty()
    } else {
        asked_by_host(game, host, (n - 1) as nat, attacker) + asked(
            game,
            host.static_abilities@[n - 1],
            host,
            attacker,
        )
    }
}

/// What the static abilities of some cards ask an attacker to attack.
pub open spec fn asked_among(game: GameState, cards: Seq<Card>, attacker: Card) -> Seq<
    MustAttackEntity,
>
    decreases cards.len(),
{
    if cards.len() == 0 {
        Seq::empty()
    } else {
        let before = asked_among(game, cards.drop_last(), attacker);
        let host = cards.last();
        if is_static_source(host.zone) {
            before + asked_by_host(game, host, host.static_abilities@.len(), attacker)
        } else {
            before
        }
    }
}

/// The entities that an attacker must attack. The active player and the cards of the active
/// player are not among them.
pub fn entities_must_attack(game: &GameState, attacker: &Card) -> (r: Vec<MustAttackEntity>)
    ensures
        r@ == asked_among(*game, game.cards@, *attacker),
{
    let ghost all = game.cards@;
    let mut out: Vec<MustAttackEntity> = Vec::new();
    let mut i: usize = 0;
    while i < game.cards.len()
        invariant
            i <= all.len(),
            all == game.cards@,
            out@ == asked_among(*game, all.take(i as int), *attacker),
        decreases all.len() - i,
    {
        assert(all.take(i + 1).drop_last() =~= all.take(i as int));
        let host = &game.cards[i];
        if is_static_ability_source(host.zone) {
            let ghost before = out@;
            let mut k: usize = 0;
            assert(out@ =~= before + asked_by_host(*game, *host, 0, *attacker));
            while k < host.static_abilities.len()
                invariant
                    k <= host.static_abilities@.len(),
                    out@ == before + asked_by_host(*game, *host, k as nat, *attacker),
                decreases host.static_abilities@.len() - k,
            {
                add_asked(game, &host.static_abilities[k], host, attacker, &mut out);
                assert(out@ =~= before + asked_by_host(*game, *host, (k + 1) as nat, *attacker));
                k = k + 1;
            }
        }
        i = i + 1;
    }
    assert(all.take(i as int) =~= all);
    out
}

/// Whether something may be asked for: not the active player, and no card of theirs.
pub open spec fn may_be_asked(game: GameState, e: MustAttackEntity) -> bool {
    match e {
        MustAttackEntity::Any => true,
        MustAttackEntity::Player(p) => p != game.active_player,
        MustAttackEntity::Card(c) => game.card_at(c) matches Some(card) && card.controller
            != game.active_player,
    }
}

pub open spec fn all_may_be_asked(game: GameState, v: Seq<MustAttackEntity>) -> bool {
    forall|i: int| 0 <= i < v.len() ==> may_be_asked(game, #[trigger] v[i])
}

proof fn lemma_players(game: GameState, players: Seq<PlayerId>)
    ensures
        all_may_be_asked(game, other_players(game.active_player, players)),
    decreases players.len(),
{
    if players.len() > 0 {
        lemma_players(game, players.drop_last());
    }
}

proof fn lemma_cards(game: GameState, cards: Seq<CardId>)
    ensures
        all_may_be_asked(game, cards_of_others(game, cards)),
    decreases cards.len(),
{
    if cards.len() > 0 {
        lemma_cards(game, cards.drop_last());
    }
}

proof fn lemma_asked_by_host(game: GameState, host: Card, n: nat, attacker: Card)
    ensures
        all_may_be_asked(game, asked_by_host(game, host, n, attacker)),
    decreases n,
{
    if n > 0 {
        lemma_asked_by_host(game, host, (n - 1) as nat, attacker);
        if let Some(defined) = string_of(host.static_abilities@[n - 1].must_attack) {
            lemma_players(game, game.facts.players_defined(defined, host.id));
            lemma_cards(game, game.facts.cards_defined(defined, host.id));
        }
    }
}

/// Nobody is asked to attack the active player or what the active player controls.
pub proof fn law_attacks_others(game: GameState, cards: Seq<Card>, attacker: Card)
    ensures
        all_may_be_asked(game, asked_among(game, cards, attacker)),
    decreases cards.len(),
{
    if cards.len() > 0 {
        law_attacks_others(game, cards.drop_last(), attacker);
        let host = cards.last();
        lemma_asked_by_host(game, host, host.static_abilities@.len(), attacker);
    }
}

} // verus!
