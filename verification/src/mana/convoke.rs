//! Creatures and artifacts that pay for spells.

use vstd::prelude::*;
use crate::game::GameState;
use crate::mana::atoms::{
    has_bits, ManaCostShard, BLACK, BLUE, COLORLESS, GREEN, RED, SHARD_GENERIC, WHITE,
};
use crate::mana::cost::{
    by_priority, colors_left, count_left, decreased, generic_shard, get_shard_to_pay_by_priority,
    shards_of, unpaid_of, ManaCost, ManaCostBeingPaid, ShardCount, Unpaid,
};
use crate::mana::paying::{nothing_paid, Paying, PayingView};
use crate::sorting::{relation, sort_by, sorted_by, Order};
use crate::text::{less, text_eq, text_lt};
use crate::types::{CardId, PlayerId, ZoneType};

verus! {

/// A card that pays for a spell, as a creature or as an artifact.
#[derive(Debug, Clone, Copy, PartialEq, Eq, Structural)]
pub struct Convoked {
    pub card: CardId,
    pub as_creature: bool,
}

/// Whether a card may pay.
pub open spec fn may_convoke(
    game: GameState,
    st: PayingView,
    id: CardId,
    artifacts: bool,
    creatures: bool,
) -> bool {
    match game.card_at(id) {
        Some(c) => !st.is_tapped(game, id) && ((creatures && c.types.creature) || (artifacts
            && c.types.artifact)),
        None => false,
    }
}

pub open spec fn convoking_among(
    game: GameState,
    st: PayingView,
    ids: Seq<CardId>,
    artifacts: bool,
    creatures: bool,
) -> Seq<CardId>
    decreases ids.len(),
{
    if ids.len() == 0 {
        Seq::empty()
    } else {
        let before = convoking_among(game, st, ids.drop_last(), artifacts, creatures);
        if may_convoke(game, st, ids.last(), artifacts, creatures) {
            before.push(ids.last())
        } else {
            before
        }
    }
}

/// The name that shows; a card that is face down has none.
pub open spec fn shown_name(game: GameState, id: CardId) -> Seq<char> {
    match game.card_at(id) {
        Some(c) => if c.face_down {
            Seq::empty()
        } else {
            c.card_name@
        },
        None => Seq::empty(),
    }
}

fn find_shown_name<'a>(game: &'a GameState, id: CardId) -> (r: &'a str)
    ensures
        r@ == shown_name(*game, id),
{
    proof {
        reveal_strlit("");
    }
    assert(""@ =~= Seq::<char>::empty());
    match game.card(id) {
        Some(c) => if c.face_down {
            ""
        } else {
            c.card_name.as_str()
        },
        None => "",
    }
}

pub open spec fn time_of(game: GameState, id: CardId) -> u64 {
    match game.card_at(id) {
        Some(c) => c.zone_timestamp,
        None => 0,
    }
}

fn find_time(game: &GameState, id: CardId) -> (r: u64)
    ensures
        r == time_of(*game, id),
{
    match game.card(id) {
        Some(c) => c.zone_timestamp,
        None => 0,
    }
}

/// By the name that shows, then by the time of arrival.
pub struct ByShownName<'a> {
    pub game: &'a GameState,
}

impl<'a> Order<CardId> for ByShownName<'a> {
    open spec fn before(&self, a: CardId, b: CardId) -> bool {
        text_lt(shown_name(*self.game, a), shown_name(*self.game, b)) || (shown_name(*self.game, a)
            == shown_name(*self.game, b) && time_of(*self.game, a) < time_of(*self.game, b))
    }

    fn goes_before(&self, a: CardId, b: CardId) -> (r: bool) {
        let x = find_shown_name(self.game, a);
        let y = find_shown_name(self.game, b);
        less(x, y) || (text_eq(x, y) && find_time(self.game, a) < find_time(self.game, b))
    }
}

pub open spec fn as_convoked(game: GameState, ids: Seq<CardId>, creatures: bool) -> Seq<Convoked> {
    Seq::new(
        ids.len(),
        |i: int|
            Convoked {
                card: ids[i],
                as_creature: creatures && (game.card_at(ids[i]) matches Some(c)
                    && c.types.creature),
            },
    )
}

/// The cards of a player that may pay, in the order in which they do.
pub open spec fn convoke_sources(
    game: GameState,
    st: PayingView,
    player: PlayerId,
    artifacts: bool,
    creatures: bool,
) -> Seq<Convoked> {
    as_convoked(
        game,
        sorted_by(
            convoking_among(
                game,
                st,
                st.in_zone(game, ZoneType::Battlefield, player),
                artifacts,
                creatures,
            ),
            relation::<CardId, ByShownName<'_>>(ByShownName { game: &game }),
        ),
        creatures,
    )
}

pub fn convoke_improvise_sources(
    game: &GameState,
    st: &Paying,
    player: PlayerId,
    artifacts: bool,
    creatures: bool,
) -> (r: Vec<Convoked>)
    ensures
        r@ == convoke_sources(*game, st@, player, artifacts, creatures),
{
    let ids = st.cards_in_zone(game, ZoneType::Battlefield, player);
    let ghost all = ids@;
    let mut found: Vec<CardId> = Vec::new();
    let mut i: usize = 0;
    while i < ids.len()
        invariant
            i <= all.len(),
            all == ids@,
            found@ == convoking_among(*game, st@, all.take(i as int), artifacts, creatures),
        decreases all.len() - i,
    {
        assert(all.take(i + 1).drop_last() =~= all.take(i as int));
        if let Some(c) = game.card(ids[i]) {
            if !st.check_tapped(game, ids[i]) && ((creatures && c.types.creature) || (artifacts
                && c.types.artifact)) {
                found.push(ids[i]);
            }
        }
        i = i + 1;
    }
    assert(all.take(i as int) =~= all);
    let sorted = sort_by(&found, &ByShownName { game });
    let mut out: Vec<Convoked> = Vec::new();
    let mut k: usize = 0;
    while k < sorted.len()
        invariant
            k <= sorted@.len(),
            out@.len() == k,
            forall|j: int|
                0 <= j < k ==> #[trigger] out@[j] == as_convoked(*game, sorted@, creatures)[j],
        decreases sorted@.len() - k,
    {
        let id = sorted[k];
        let as_creature = creatures && match game.card(id) {
            Some(c) => c.types.creature,
            None => false,
        };
        out.push(Convoked { card: id, as_creature });
        k = k + 1;
    }
    assert(out@ =~= as_convoked(*game, sorted@, creatures));
    out
}

/// The first color of a set.
pub open spec fn lowest_color(mask: u16) -> u16 {
    if has_bits(mask, WHITE) {
        WHITE
    } else if has_bits(mask, BLUE) {
        BLUE
    } else if has_bits(mask, BLACK) {
        BLACK
    } else if has_bits(mask, RED) {
        RED
    } else if has_bits(mask, GREEN) {
        GREEN
    } else {
        mask
    }
}

/// Whether a set has more than one color.
pub open spec fn is_multicolored(mask: u16) -> bool {
    mask != 0 && mask != lowest_color(mask)
}

fn find_lowest_color(mask: u16) -> (r: u16)
    ensures
        r == lowest_color(mask),
{
    if mask & WHITE != 0 {
        WHITE
    } else if mask & BLUE != 0 {
        BLUE
    } else if mask & BLACK != 0 {
        BLACK
    } else if mask & RED != 0 {
        RED
    } else if mask & GREEN != 0 {
        GREEN
    } else {
        mask
    }
}

/// The color that a card pays with: of more than one, the first that is left to pay.
pub open spec fn convoke_color(color: u16, left: Seq<ShardCount>, as_creature: bool) -> u16 {
    if !as_creature {
        COLORLESS
    } else {
        let narrowed = if is_multicolored(color) {
            color & colors_left(left)
        } else {
            color
        };
        if is_multicolored(narrowed) {
            lowest_color(narrowed)
        } else {
            narrowed
        }
    }
}

fn find_convoke_color(color: u16, unpaid: &ManaCostBeingPaid, as_creature: bool) -> (r: u16)
    ensures
        r == convoke_color(color, unpaid@.left, as_creature),
{
    if !as_creature {
        return COLORLESS;
    }
    let narrowed: u16 = if color != 0 && color != find_lowest_color(color) {
        color & unpaid.get_unpaid_colors()
    } else {
        color
    };
    if narrowed != 0 && narrowed != find_lowest_color(narrowed) {
        find_lowest_color(narrowed)
    } else {
        narrowed
    }
}

pub open spec fn color_of(game: GameState, id: CardId) -> u16 {
    match game.card_at(id) {
        Some(c) => c.color as u16,
        None => 0,
    }
}

fn find_color(game: &GameState, id: CardId) -> (r: u16)
    ensures
        r == color_of(*game, id),
{
    match game.card(id) {
        Some(c) => c.color as u16,
        None => 0,
    }
}

/// The symbols that a color pays.
pub open spec fn paid_by(shards: Seq<ManaCostShard>, color: u16) -> Seq<ManaCostShard>
    decreases shards.len(),
{
    if shards.len() == 0 {
        Seq::empty()
    } else {
        let before = paid_by(shards.drop_last(), color);
        if shards.last().payable_with(color) {
            before.push(shards.last())
        } else {
            before
        }
    }
}

/// The symbol that a card of a color pays.
pub open spec fn convoked_shard(u: Unpaid, color: u16) -> Option<ManaCostShard> {
    by_priority(paid_by(shards_of(u.left), color), color)
}

/// What is left once a card of a color paid.
pub open spec fn after_convoke(u: Unpaid, color: u16) -> Unpaid {
    match convoked_shard(u, color) {
        Some(shard) => Unpaid { left: decreased(u.left, shard, 1), ..u },
        None => u,
    }
}

impl ManaCostBeingPaid {
    /// Lets a card of a color pay; says which symbol.
    pub fn pay_mana_via_convoke(&mut self, color: u16) -> (r: Option<ManaCostShard>)
        ensures
            r == convoked_shard(old(self)@, color),
            final(self)@ == after_convoke(old(self)@, color),
    {
        let shards = self.get_distinct_shards();
        let ghost all = shards@;
        let mut payable: Vec<ManaCostShard> = Vec::new();
        let mut i: usize = 0;
        while i < shards.len()
            invariant
                i <= all.len(),
                all == shards@,
                payable@ == paid_by(all.take(i as int), color),
            decreases all.len() - i,
        {
            assert(all.take(i + 1).drop_last() =~= all.take(i as int));
            if shards[i].can_be_paid_with(color) {
                payable.push(shards[i]);
            }
            i = i + 1;
        }
        assert(all.take(i as int) =~= all);
        match get_shard_to_pay_by_priority(&payable, color) {
            Some(shard) => {
                self.decrease_shard(shard, 1);
                Some(shard)
            },
            None => None,
        }
    }
}

/// What is left once cards paid, the state, and which of them did.
pub open spec fn convoked(
    game: GameState,
    st: PayingView,
    u: Unpaid,
    sources: Seq<Convoked>,
) -> (PayingView, Unpaid, Seq<Convoked>)
    decreases sources.len(),
{
    if sources.len() == 0 {
        (st, u, Seq::empty())
    } else {
        let (s, v, used) = convoked(game, st, u, sources.drop_last());
        let c = sources.last();
        let color = convoke_color(color_of(game, c.card), v.left, c.as_creature);
        if v.left.len() == 0 || convoked_shard(v, color) is None {
            (s, v, used)
        } else {
            (s.with_tapped(c.card), after_convoke(v, color), used.push(c))
        }
    }
}

/// Lets creatures and artifacts pay what is left for a spell that allows it.
pub fn pay_convoke_improvise(
    game: &GameState,
    st: &mut Paying,
    player: PlayerId,
    spell: CardId,
    unpaid: &mut ManaCostBeingPaid,
) -> (r: Vec<Convoked>)
    ensures
        ({
            let (artifacts, creatures) = match game.card_at(spell) {
                Some(c) => (c.keyword("Improvise"@), c.keyword("Convoke"@)),
                None => (false, false),
            };
            let (s, u, used) = convoked(
                *game,
                old(st)@,
                old(unpaid)@,
                convoke_sources(*game, old(st)@, player, artifacts, creatures),
            );
            &&& final(st)@ == s
            &&& final(unpaid)@ == u
            &&& r@ == used
        }),
{
    let (artifacts, creatures) = match game.card(spell) {
        Some(c) => (c.has_keyword("Improvise"), c.has_keyword("Convoke")),
        None => (false, false),
    };
    let sources = convoke_improvise_sources(game, st, player, artifacts, creatures);
    let ghost all = sources@;
    let ghost s0 = st@;
    let ghost u0 = unpaid@;
    let mut used: Vec<Convoked> = Vec::new();
    let mut i: usize = 0;
    while i < sources.len()
        invariant
            i <= all.len(),
            all == sources@,
            convoked(*game, s0, u0, all.take(i as int)) == (st@, unpaid@, used@),
        decreases all.len() - i,
    {
        assert(all.take(i + 1).drop_last() =~= all.take(i as int));
        let c = sources[i];
        if !unpaid.is_paid() {
            let color: u16 = find_convoke_color(find_color(game, c.card), unpaid, c.as_creature);
            if unpaid.pay_mana_via_convoke(color).is_some() {
                st.tap(c.card);
                used.push(c);
            }
        }
        i = i + 1;
    }
    assert(all.take(i as int) =~= all);
    used
}

// ---- the cost that is left ----

pub open spec fn same_shards(shard: ManaCostShard, n: int) -> Seq<ManaCostShard> {
    Seq::new(
        if n < 0 {
            0
        } else {
            n as nat
        },
        |i: int| shard,
    )
}

/// The symbols that are left, each as often as it is left.
pub open spec fn spelled_out(left: Seq<ShardCount>) -> Seq<ManaCostShard>
    decreases left.len(),
{
    if left.len() == 0 {
        Seq::empty()
    } else {
        let before = spelled_out(left.drop_last());
        if left.last().shard == generic_shard() {
            before
        } else {
            before + same_shards(left.last().shard, left.last().count as int)
        }
    }
}

impl ManaCostBeingPaid {
    /// Gives what is left as a cost.
    pub fn to_mana_cost(&self) -> (r: ManaCost)
        ensures
            r.generic == count_left(self@.left, generic_shard()),
            r.shards@ == spelled_out(self@.left),
    {
        let ghost all = self.unpaid@;
        let mut shards: Vec<ManaCostShard> = Vec::new();
        let mut i: usize = 0;
        while i < self.unpaid.len()
            invariant
                i <= all.len(),
                all == self.unpaid@,
                shards@ == spelled_out(all.take(i as int)),
            decreases all.len() - i,
        {
            assert(all.take(i + 1).drop_last() =~= all.take(i as int));
            let e = self.unpaid[i];
            if e.shard.mask != SHARD_GENERIC {
                let ghost before = shards@;
                let mut k: i32 = 0;
                assert(before + same_shards(e.shard, 0) =~= before);
                while k < e.count
                    invariant
                        0 <= k,
                        k <= e.count || k == 0,
                        shards@ == before + same_shards(e.shard, k as int),
                    decreases e.count - k,
                {
                    assert((before + same_shards(e.shard, k as int)).push(e.shard) =~= before
                        + same_shards(e.shard, k + 1));
                    shards.push(e.shard);
                    k = k + 1;
                }
                assert(same_shards(e.shard, k as int) =~= same_shards(e.shard, e.count as int));
            }
            i = i + 1;
        }
        assert(all.take(i as int) =~= all);
        ManaCost { generic: self.get_generic_mana_amount(), shards }
    }
}

/// What is left of a cost once cards paid as much as they can.
pub open spec fn all_convoked(game: GameState, u: Unpaid, sources: Seq<Convoked>) -> Unpaid
    decreases sources.len(),
{
    if sources.len() == 0 {
        u
    } else {
        let v = all_convoked(game, u, sources.drop_last());
        let c = sources.last();
        after_convoke(v, convoke_color(color_of(game, c.card), v.left, c.as_creature))
    }
}

/// Gives a cost as it is once creatures and artifacts have paid for it.
pub fn adjust_cost_by_convoke_or_improvise(
    game: &GameState,
    player: PlayerId,
    cost: &ManaCost,
    artifacts: bool,
    creatures: bool,
) -> (r: ManaCost)
    ensures
        ({
            let u = all_convoked(
                *game,
                unpaid_of(cost.generic, cost.shards@),
                convoke_sources(*game, nothing_paid(), player, artifacts, creatures),
            );
            &&& r.generic == count_left(u.left, generic_shard())
            &&& r.shards@ == spelled_out(u.left)
        }),
{
    let mut unpaid = ManaCostBeingPaid::from_mana_cost(cost);
    let st = Paying::new();
    let sources = convoke_improvise_sources(game, &st, player, artifacts, creatures);
    let ghost all = sources@;
    let ghost u0 = unpaid@;
    let mut i: usize = 0;
    while i < sources.len()
        invariant
            i <= all.len(),
            all == sources@,
            unpaid@ == all_convoked(*game, u0, all.take(i as int)),
        decreases all.len() - i,
    {
        assert(all.take(i + 1).drop_last() =~= all.take(i as int));
        let c = sources[i];
        let color: u16 = find_convoke_color(find_color(game, c.card), &unpaid, c.as_creature);
        unpaid.pay_mana_via_convoke(color);
        i = i + 1;
    }
    assert(all.take(i as int) =~= all);
    unpaid.to_mana_cost()
}

} // verus!
