//! How the abilities of a chain follow each other when an effect has them happen.

use vstd::prelude::*;
use crate::lists::{copy_cards, copy_players, extend_cards, same_cards};
use crate::types::{CardId, PlayerId};

verus! {

/// What the walk reads of an ability in a chain: whether it targets and what, what it says of the
/// abilities before it, and whether it has its sub-ability happen itself.
pub struct AbilityLink {
    pub uses_targeting: bool,
    pub target_card: Option<CardId>,
    pub target_cards: Vec<CardId>,
    pub target_player: Option<PlayerId>,
    pub additional_target_players: Vec<PlayerId>,
    pub parent_targeting_player: Option<PlayerId>,
    pub chain_target_cards: Vec<CardId>,
    pub handles_sub_ability: bool,
}

/// What an ability in a chain happens with.
pub struct LinkContext {
    pub place: usize,
    pub target_player: Option<PlayerId>,
    pub additional_target_players: Vec<PlayerId>,
    pub parent_targeting_player: Option<PlayerId>,
    pub chain_target_cards: Vec<CardId>,
    pub parent_target_card: Option<CardId>,
}

#[verifier::ext_equal]
pub struct ContextView {
    pub place: int,
    pub target_player: Option<PlayerId>,
    pub additional_target_players: Seq<PlayerId>,
    pub parent_targeting_player: Option<PlayerId>,
    pub chain_target_cards: Seq<CardId>,
    pub parent_target_card: Option<CardId>,
}

impl View for LinkContext {
    type V = ContextView;

    open spec fn view(&self) -> ContextView {
        ContextView {
            place: self.place as int,
            target_player: self.target_player,
            additional_target_players: self.additional_target_players@,
            parent_targeting_player: self.parent_targeting_player,
            chain_target_cards: self.chain_target_cards@,
            parent_target_card: self.parent_target_card,
        }
    }
}

/// Where a walk over a chain stands. It is over once `place` is none.
pub struct AbilityWalk {
    pub place: Option<usize>,
    pub parent_target_card: Option<CardId>,
    pub parent_target_player: Option<PlayerId>,
    pub parent_additional_target_players: Vec<PlayerId>,
    pub chain_target_cards: Vec<CardId>,
}

#[verifier::ext_equal]
pub struct WalkView {
    pub place: Option<int>,
    pub parent_target_card: Option<CardId>,
    pub parent_target_player: Option<PlayerId>,
    pub parent_additional_target_players: Seq<PlayerId>,
    pub chain_target_cards: Seq<CardId>,
}

impl View for AbilityWalk {
    type V = WalkView;

    open spec fn view(&self) -> WalkView {
        WalkView {
            place: match self.place {
                Some(i) => Some(i as int),
                None => None,
            },
            parent_target_card: self.parent_target_card,
            parent_target_player: self.parent_target_player,
            parent_additional_target_players: self.parent_additional_target_players@,
            chain_target_cards: self.chain_target_cards@,
        }
    }
}

/// The cards that the abilities of a chain target, in order.
pub open spec fn targets_of_chain(links: Seq<AbilityLink>) -> Seq<CardId>
    decreases links.len(),
{
    if links.len() == 0 {
        Seq::empty()
    } else {
        let before = targets_of_chain(links.drop_last());
        if links.last().uses_targeting {
            before + links.last().target_cards@
        } else {
            before
        }
    }
}

/// Whether an ability takes the target player of the abilities before it.
pub open spec fn takes_parent_player(l: AbilityLink) -> bool {
    !l.uses_targeting && l.target_player is None
}

/// Whether an ability happens otherwise than it says itself, for what came before it.
pub open spec fn is_changed(l: AbilityLink, w: WalkView) -> bool {
    ||| w.parent_target_player is Some && takes_parent_player(l)
    ||| l.parent_targeting_player != w.parent_target_player
    ||| l.chain_target_cards@ != w.chain_target_cards
}

/// What an ability happens with.
pub open spec fn in_context(l: AbilityLink, w: WalkView, place: int) -> ContextView {
    if is_changed(l, w) {
        ContextView {
            place,
            target_player: if takes_parent_player(l) {
                w.parent_target_player
            } else {
                l.target_player
            },
            additional_target_players: if takes_parent_player(l) {
                w.parent_additional_target_players
            } else {
                l.additional_target_players@
            },
            parent_targeting_player: w.parent_target_player,
            chain_target_cards: w.chain_target_cards,
            parent_target_card: w.parent_target_card,
        }
    } else {
        ContextView {
            place,
            target_player: l.target_player,
            additional_target_players: l.additional_target_players@,
            parent_targeting_player: l.parent_targeting_player,
            chain_target_cards: l.chain_target_cards@,
            parent_target_card: w.parent_target_card,
        }
    }
}

/// A walk once the ability at its place has happened with what it happens with. Behind an ability
/// that has its sub-ability happen itself the walk is over.
pub open spec fn gone_on(links: Seq<AbilityLink>, w: WalkView, place: int, c: ContextView) -> WalkView {
    let l = links[place];
    WalkView {
        place: if l.handles_sub_ability || place + 1 >= links.len() {
            None
        } else {
            Some(place + 1)
        },
        parent_target_card: match l.target_card {
            Some(id) => Some(id),
            None => w.parent_target_card,
        },
        parent_target_player: match c.target_player {
            Some(p) => Some(p),
            None => w.parent_target_player,
        },
        parent_additional_target_players: if c.target_player is Some {
            c.additional_target_players
        } else {
            w.parent_additional_target_players
        },
        chain_target_cards: w.chain_target_cards,
    }
}

fn same_player(a: Option<PlayerId>, b: Option<PlayerId>) -> (r: bool)
    ensures
        r == (a == b),
{
    match (a, b) {
        (Some(x), Some(y)) => x == y,
        (None, None) => true,
        _ => false,
    }
}

impl AbilityWalk {
    /// Starts a walk over a chain. `targets_chosen` says whether targets could be chosen for its
    /// first ability; where it needs some and there are none, nothing happens.
    pub fn start(links: &Vec<AbilityLink>, targets_chosen: bool) -> (r: Option<AbilityWalk>)
        ensures
            match r {
                Some(w) => links@.len() > 0 && (links@[0].uses_targeting ==> targets_chosen) && w@
                    == (WalkView {
                    place: Some(0),
                    parent_target_card: None,
                    parent_target_player: None,
                    parent_additional_target_players: Seq::empty(),
                    chain_target_cards: targets_of_chain(links@),
                }),
                None => links@.len() == 0 || (links@[0].uses_targeting && !targets_chosen),
            },
    {
        if links.len() == 0 || (links[0].uses_targeting && !targets_chosen) {
            return None;
        }
        let ghost all = links@;
        let mut chain: Vec<CardId> = Vec::new();
        let mut i: usize = 0;
        while i < links.len()
            invariant
                i <= all.len(),
                all == links@,
                chain@ == targets_of_chain(all.take(i as int)),
            decreases all.len() - i,
        {
            assert(all.take(i + 1).drop_last() =~= all.take(i as int));
            assert(all.take(i + 1).last() == all[i as int]);
            if links[i].uses_targeting {
                extend_cards(&mut chain, &links[i].target_cards);
            }
            i = i + 1;
        }
        assert(all.take(i as int) =~= all);
        let w = AbilityWalk {
            place: Some(0),
            parent_target_card: None,
            parent_target_player: None,
            parent_additional_target_players: Vec::new(),
            chain_target_cards: chain,
        };
        assert(w@.parent_additional_target_players =~= Seq::<PlayerId>::empty());
        Some(w)
    }

    /// Goes on to the next ability, and says what it happens with; nothing where the walk is over.
    pub fn next(&mut self, links: &Vec<AbilityLink>) -> (r: Option<LinkContext>)
        ensures
            match old(self)@.place {
                Some(i) => if i < links@.len() {
                    r matches Some(c) && c@ == in_context(links@[i], old(self)@, i)
                        && final(self)@ == gone_on(links@, old(self)@, i, c@)
                } else {
                    r is None && final(self)@ == old(self)@
                },
                None => r is None && final(self)@ == old(self)@,
            },
    {
        let place: usize = match self.place {
            Some(i) => i,
            None => {
                return None;
            },
        };
        if place >= links.len() {
            return None;
        }
        let ghost before = self@;
        let l = &links[place];
        let takes = !l.uses_targeting && l.target_player.is_none();
        let changed = (self.parent_target_player.is_some() && takes) || !same_player(
            l.parent_targeting_player,
            self.parent_target_player,
        ) || !same_cards(&l.chain_target_cards, &self.chain_target_cards);
        let c = if changed {
            LinkContext {
                place,
                target_player: if takes {
                    self.parent_target_player
                } else {
                    l.target_player
                },
                additional_target_players: if takes {
                    copy_players(&self.parent_additional_target_players)
                } else {
                    copy_players(&l.additional_target_players)
                },
                parent_targeting_player: self.parent_target_player,
                chain_target_cards: copy_cards(&self.chain_target_cards),
                parent_target_card: self.parent_target_card,
            }
        } else {
            LinkContext {
                place,
                target_player: l.target_player,
                additional_target_players: copy_players(&l.additional_target_players),
                parent_targeting_player: l.parent_targeting_player,
                chain_target_cards: copy_cards(&l.chain_target_cards),
                parent_target_card: self.parent_target_card,
            }
        };
        assert(c@ =~= in_context(links@[place as int], before, place as int));
        if l.target_card.is_some() {
            self.parent_target_card = l.target_card;
        }
        if c.target_player.is_some() {
            self.parent_target_player = c.target_player;
            self.parent_additional_target_players = copy_players(&c.additional_target_players);
        }
        self.place = if l.handles_sub_ability || place + 1 >= links.len() {
            None
        } else {
            Some(place + 1)
        };
        assert(self@ =~= gone_on(links@, before, place as int, c@));
        Some(c)
    }
}

/// A walk only goes forward, and every ability happens with the targets of the whole chain. A
/// target player stays with the abilities behind that have none of their own.
pub proof fn law_walk(links: Seq<AbilityLink>, w: WalkView, place: int)
    requires
        0 <= place < links.len(),
    ensures
        ({
            let c = in_context(links[place], w, place);
            let after = gone_on(links, w, place, c);
            &&& after.place matches Some(i) ==> i == place + 1 && i < links.len()
            &&& links[place].handles_sub_ability ==> after.place is None
            &&& c.chain_target_cards == w.chain_target_cards
            &&& after.chain_target_cards == w.chain_target_cards
            &&& w.parent_target_player is Some ==> after.parent_target_player is Some
            &&& takes_parent_player(links[place]) ==> c.target_player == w.parent_target_player
        }),
{
}

} // verus!
