//! Cards that may be plotted from where they are.

use vstd::prelude::*;
use crate::game::{Card, GameState, StaticMode};
use crate::parsing::params::string_of;
use crate::replacement::collect::is_static_source;
use crate::staticability::common::{
    is_static_ability_source, matches_valid_card_selector_opt, takes_card, works,
};
use crate::types::CardId;

verus! {

/// Whether a static ability of a host lets a card be plotted.
pub open spec fn opens_plot(game: GameState, host: Card, card: CardId) -> bool {
    is_static_source(host.zone) && exists|k: int|
        0 <= k < host.static_abilities@.len() && works(
            #[trigger] host.static_abilities@[k],
            StaticMode::PlotZone,
        ) && takes_card(game.facts, string_of(host.static_abilities@[k].valid_card), host, card)
}

fn check_opens_plot(game: &GameState, host: &Card, card: CardId) -> (r: bool)
    ensures
        r == opens_plot(*game, *host, card),
{
    if !is_static_ability_source(host.zone) {
        return false;
    }
    let mut k: usize = 0;
    while k < host.static_abilities.len()
        invariant
            k <= host.static_abilities@.len(),
            is_static_source(host.zone),
            forall|j: int|
                0 <= j < k ==> !(works(#[trigger] host.static_abilities@[j], StaticMode::PlotZone)
                    && takes_card(
                    game.facts,
                    string_of(host.static_abilities@[j].valid_card),
                    *host,
                    card,
                )),
        decreases host.static_abilities@.len() - k,
    {
        let st = &host.static_abilities[k];
        if st.check_conditions_full(StaticMode::PlotZone) && matches_valid_card_selector_opt(
            &game.facts,
            &st.valid_card,
            host,
            card,
        ) {
            assert(works(host.static_abilities@[k as int], StaticMode::PlotZone));
            return true;
        }
        k = k + 1;
    }
    false
}

/// Whether a card may be plotted.
pub open spec fn may_plot(game: GameState, card: CardId) -> bool {
    exists|i: int| 0 <= i < game.cards@.len() && opens_plot(game, #[trigger] game.cards@[i], card)
}

pub fn plot_zone(game: &GameState, card: CardId) -> (r: bool)
    ensures
        r == may_plot(*game, card),
{
    let mut i: usize = 0;
    while i < game.cards.len()
        invariant
            i <= game.cards@.len(),
            forall|j: int| 0 <= j < i ==> !opens_plot(*game, #[trigger] game.cards@[j], card),
        decreases game.cards@.len() - i,
    {
        if check_opens_plot(game, &game.cards[i], card) {
            assert(opens_plot(*game, game.cards@[i as int], card));
            return true;
        }
        i = i + 1;
    }
    false
}

} // verus!
