//! What a payment has done so far: cards tapped or moved, life and counters spent.

use vstd::prelude::*;
use crate::game::{count_of_kind, counters_of, GameState};
use crate::lists::{copy_cards, has_card};
use crate::text::text_eq;
use crate::types::{CardId, PlayerId, ZoneType};

verus! {

/// A card that a payment moved.
#[derive(Debug, Clone, Copy, PartialEq, Eq, Structural)]
pub struct MovedCard {
    pub card: CardId,
    pub zone: ZoneType,
}

/// Counters that a payment removed.
pub struct RemovedCounters {
    pub card: CardId,
    pub kind: String,
    pub amount: i32,
}

/// What a payment has done so far.
pub struct Paying {
    pub tapped: Vec<CardId>,
    pub moved: Vec<MovedCard>,
    pub life_lost: i32,
    pub counters: Vec<RemovedCounters>,
}

#[verifier::ext_equal]
pub struct PayingView {
    pub tapped: Seq<CardId>,
    pub moved: Seq<MovedCard>,
    pub life_lost: i32,
    pub counters: Seq<(CardId, Seq<char>, i32)>,
}

pub open spec fn removed_views(v: Seq<RemovedCounters>) -> Seq<(CardId, Seq<char>, i32)> {
    Seq::new(v.len(), |i: int| (v[i].card, v[i].kind@, v[i].amount))
}

impl View for Paying {
    type V = PayingView;

    open spec fn view(&self) -> PayingView {
        PayingView {
            tapped: self.tapped@,
            moved: self.moved@,
            life_lost: self.life_lost,
            counters: removed_views(self.counters@),
        }
    }
}

pub open spec fn nothing_paid() -> PayingView {
    PayingView {
        tapped: Seq::empty(),
        moved: Seq::empty(),
        life_lost: 0,
        counters: Seq::empty(),
    }
}

/// Where a card was moved last.
pub open spec fn last_move(moved: Seq<MovedCard>, id: CardId) -> Option<ZoneType>
    decreases moved.len(),
{
    if moved.len() == 0 {
        None
    } else if moved.last().card == id {
        Some(moved.last().zone)
    } else {
        last_move(moved.drop_last(), id)
    }
}

/// How many counters of a kind are left once some were removed; there are never less than none.
pub open spec fn counters_left(
    n: i32,
    removed: Seq<(CardId, Seq<char>, i32)>,
    id: CardId,
    kind: Seq<char>,
) -> i32
    decreases removed.len(),
{
    if removed.len() == 0 {
        n
    } else {
        let before = counters_left(n, removed.drop_last(), id, kind);
        let (card, k, amount) = removed.last();
        if card == id && k == kind {
            let left = before.wrapping_sub(amount);
            if left < 0 {
                0
            } else {
                left
            }
        } else {
            before
        }
    }
}

/// The cards of a list that were not moved.
pub open spec fn unmoved(ids: Seq<CardId>, moved: Seq<MovedCard>) -> Seq<CardId>
    decreases ids.len(),
{
    if ids.len() == 0 {
        Seq::empty()
    } else {
        let before = unmoved(ids.drop_last(), moved);
        if last_move(moved, ids.last()) is None {
            before.push(ids.last())
        } else {
            before
        }
    }
}

/// The cards that were moved to a zone of a player, in the order in which they came there.
pub open spec fn moved_into(
    game: GameState,
    moved: Seq<MovedCard>,
    all: Seq<MovedCard>,
    zone: ZoneType,
    player: PlayerId,
) -> Seq<CardId>
    decreases moved.len(),
{
    if moved.len() == 0 {
        Seq::empty()
    } else {
        let before = moved_into(game, moved.drop_last(), all, zone, player);
        let id = moved.last().card;
        if last_move(all, id) == Some(zone) && (game.card_at(id) matches Some(c) && c.owner
            == player) && !before.contains(id) {
            before.push(id)
        } else {
            before
        }
    }
}

impl PayingView {
    pub open spec fn is_tapped(self, game: GameState, id: CardId) -> bool {
        self.tapped.contains(id) || (game.card_at(id) matches Some(c) && c.tapped)
    }

    pub open spec fn zone_of(self, game: GameState, id: CardId) -> Option<ZoneType> {
        match game.card_at(id) {
            Some(c) => match last_move(self.moved, id) {
                Some(z) => Some(z),
                None => Some(c.zone),
            },
            None => None,
        }
    }

    pub open spec fn counters_on(self, game: GameState, id: CardId, kind: Seq<char>) -> i32 {
        match game.card_at(id) {
            Some(c) => counters_left(counters_of(c.counters@, kind), self.counters, id, kind),
            None => 0,
        }
    }

    pub open spec fn life_of(self, game: GameState, player: PlayerId) -> i32 {
        match game.player_at(player) {
            Some(p) => p.life.wrapping_sub(self.life_lost),
            None => 0,
        }
    }

    pub open spec fn in_zone(self, game: GameState, zone: ZoneType, player: PlayerId) -> Seq<
        CardId,
    > {
        unmoved(game.in_zone(zone, player), self.moved) + moved_into(
            game,
            self.moved,
            self.moved,
            zone,
            player,
        )
    }

    pub open spec fn with_tapped(self, id: CardId) -> PayingView {
        PayingView { tapped: self.tapped.push(id), ..self }
    }

    pub open spec fn with_all_tapped(self, ids: Seq<CardId>) -> PayingView {
        PayingView { tapped: self.tapped + ids, ..self }
    }

    pub open spec fn with_moved(self, id: CardId, zone: ZoneType) -> PayingView {
        PayingView { moved: self.moved.push(MovedCard { card: id, zone }), ..self }
    }

    pub open spec fn with_life_lost(self, n: i32) -> PayingView {
        PayingView { life_lost: self.life_lost.wrapping_add(n), ..self }
    }

    pub open spec fn with_counters_removed(self, id: CardId, kind: Seq<char>, n: i32) -> PayingView {
        PayingView { counters: self.counters.push((id, kind, n)), ..self }
    }
}

fn find_last_move(moved: &Vec<MovedCard>, id: CardId) -> (r: Option<ZoneType>)
    ensures
        r == last_move(moved@, id),
{
    let ghost all = moved@;
    let mut i: usize = moved.len();
    assert(all.take(i as int) =~= all);
    while i > 0
        invariant
            i <= all.len(),
            all == moved@,
            last_move(all, id) == last_move(all.take(i as int), id),
        decreases i,
    {
        assert(all.take(i as int).drop_last() =~= all.take(i - 1));
        assert(all.take(i as int).last() == all[i - 1]);
        if moved[i - 1].card == id {
            return Some(moved[i - 1].zone);
        }
        i = i - 1;
    }
    None
}

impl Paying {
    pub fn new() -> (r: Paying)
        ensures
            r@ == nothing_paid(),
    {
        let r = Paying {
            tapped: Vec::new(),
            moved: Vec::new(),
            life_lost: 0,
            counters: Vec::new(),
        };
        assert(r@ =~= nothing_paid());
        r
    }

    pub fn copy(&self) -> (r: Paying)
        ensures
            r@ == self@,
    {
        let mut moved: Vec<MovedCard> = Vec::new();
        let mut i: usize = 0;
        while i < self.moved.len()
            invariant
                i <= self.moved@.len(),
                moved@ == self.moved@.take(i as int),
            decreases self.moved@.len() - i,
        {
            moved.push(self.moved[i]);
            i = i + 1;
        }
        let mut counters: Vec<RemovedCounters> = Vec::new();
        let mut k: usize = 0;
        while k < self.counters.len()
            invariant
                k <= self.counters@.len(),
                removed_views(counters@) == self@.counters.take(k as int),
            decreases self.counters@.len() - k,
        {
            let e = &self.counters[k];
            let ghost before = counters@;
            counters.push(
                RemovedCounters {
                    card: e.card,
                    kind: e.kind.as_str().to_string(),
                    amount: e.amount,
                },
            );
            assert(self@.counters[k as int] == (e.card, e.kind@, e.amount));
            assert(removed_views(counters@) =~= removed_views(before).push(
                (e.card, e.kind@, e.amount),
            ));
            assert(self@.counters.take(k + 1) =~= self@.counters.take(k as int).push(
                self@.counters[k as int],
            ));
            k = k + 1;
        }
        let r = Paying {
            tapped: copy_cards(&self.tapped),
            moved,
            life_lost: self.life_lost,
            counters,
        };
        assert(r@ =~= self@);
        r
    }

    pub fn check_tapped(&self, game: &GameState, id: CardId) -> (r: bool)
        ensures
            r == self@.is_tapped(*game, id),
    {
        if has_card(&self.tapped, id) {
            return true;
        }
        match game.card(id) {
            Some(c) => c.tapped,
            None => false,
        }
    }

    pub fn find_zone(&self, game: &GameState, id: CardId) -> (r: Option<ZoneType>)
        ensures
            r == self@.zone_of(*game, id),
    {
        match game.card(id) {
            Some(c) => match find_last_move(&self.moved, id) {
                Some(z) => Some(z),
                None => Some(c.zone),
            },
            None => None,
        }
    }

    pub fn count_counters(&self, game: &GameState, id: CardId, kind: &str) -> (r: i32)
        ensures
            r == self@.counters_on(*game, id, kind@),
    {
        match game.card(id) {
            Some(c) => {
                let start: i32 = count_of_kind(&c.counters, kind);
                let ghost all = self@.counters;
                let mut n: i32 = start;
                let mut i: usize = 0;
                while i < self.counters.len()
                    invariant
                        i <= all.len(),
                        all == removed_views(self.counters@),
                        n == counters_left(start, all.take(i as int), id, kind@),
                    decreases all.len() - i,
                {
                    assert(all.take(i + 1).drop_last() =~= all.take(i as int));
                    assert(all.take(i + 1).last() == all[i as int]);
                    let e = &self.counters[i];
                    if e.card == id && text_eq(e.kind.as_str(), kind) {
                        let left: i32 = n.wrapping_sub(e.amount);
                        n = if left < 0 {
                            0
                        } else {
                            left
                        };
                    }
                    i = i + 1;
                }
                assert(all.take(i as int) =~= all);
                n
            },
            None => 0,
        }
    }

    pub fn find_life(&self, game: &GameState, player: PlayerId) -> (r: i32)
        ensures
            r == self@.life_of(*game, player),
    {
        match game.player(player) {
            Some(p) => p.life.wrapping_sub(self.life_lost),
            None => 0,
        }
    }

    pub fn cards_in_zone(&self, game: &GameState, zone: ZoneType, player: PlayerId) -> (r: Vec<
        CardId,
    >)
        ensures
            r@ == self@.in_zone(*game, zone, player),
    {
        let ids = game.cards_in_zone(zone, player);
        let ghost all = ids@;
        let mut out: Vec<CardId> = Vec::new();
        let mut i: usize = 0;
        while i < ids.len()
            invariant
                i <= all.len(),
                all == ids@,
                out@ == unmoved(all.take(i as int), self.moved@),
            decreases all.len() - i,
        {
            assert(all.take(i + 1).drop_last() =~= all.take(i as int));
            if find_last_move(&self.moved, ids[i]).is_none() {
                out.push(ids[i]);
            }
            i = i + 1;
        }
        assert(all.take(i as int) =~= all);
        let ghost start = out@;
        let ghost moves = self.moved@;
        let mut into: Vec<CardId> = Vec::new();
        let mut j: usize = 0;
        while j < self.moved.len()
            invariant
                j <= moves.len(),
                moves == self.moved@,
                into@ == moved_into(*game, moves.take(j as int), moves, zone, player),
            decreases moves.len() - j,
        {
            assert(moves.take(j + 1).drop_last() =~= moves.take(j as int));
            let id = self.moved[j].card;
            let owned = match game.card(id) {
                Some(c) => c.owner == player,
                None => false,
            };
            if owned && !has_card(&into, id) {
                if let Some(z) = find_last_move(&self.moved, id) {
                    if z == zone {
                        into.push(id);
                    }
                }
            }
            j = j + 1;
        }
        assert(moves.take(j as int) =~= moves);
        crate::lists::extend_cards(&mut out, &into);
        out
    }

    pub fn tap(&mut self, id: CardId)
        ensures
            final(self)@ == old(self)@.with_tapped(id),
    {
        self.tapped.push(id);
    }

    pub fn tap_all(&mut self, ids: &Vec<CardId>)
        ensures
            final(self)@ == old(self)@.with_all_tapped(ids@),
    {
        crate::lists::extend_cards(&mut self.tapped, ids);
    }

    pub fn move_card(&mut self, id: CardId, zone: ZoneType)
        ensures
            final(self)@ == old(self)@.with_moved(id, zone),
    {
        self.moved.push(MovedCard { card: id, zone });
    }

    pub fn lose_life(&mut self, n: i32)
        ensures
            final(self)@ == old(self)@.with_life_lost(n),
    {
        self.life_lost = self.life_lost.wrapping_add(n);
    }

    pub fn remove_counters(&mut self, id: CardId, kind: &str, n: i32)
        ensures
            final(self)@ == old(self)@.with_counters_removed(id, kind@, n),
    {
        let ghost before = self@;
        self.counters.push(RemovedCounters { card: id, kind: kind.to_string(), amount: n });
        assert(self@.counters =~= before.counters.push((id, kind@, n)));
    }
}

} // verus!
