//! Which cards convoke and improvise, and what they leave of a cost.

use vstd::prelude::*;
use crate::game::{zone_cards, Card, GameState};
use crate::laws::spending::{is_color, lemma_color_bits, symbol_of};
use crate::mana::atoms::ManaCostShard;
use crate::mana::convoke::{
    after_convoke, all_convoked, convoke_color, convoke_sources, convoked, convoking_among, paid_by,
    same_shards, spelled_out, ByShownName, Convoked,
};
use crate::mana::cost::{
    by_priority, count_left, decreased, generic_shard, increased, shard_place, shards_of, unpaid_of,
    with_shards, ShardCount, Unpaid,
};
use crate::mana::paying::{last_move, moved_into, nothing_paid, unmoved, MovedCard, PayingView};
use crate::sorting::{law_sorting, relation, sorted_by};
use crate::types::{CardId, PlayerId, ZoneType};

verus! {

// ---- where cards are ----

proof fn lemma_zone_cards(
    cards: Seq<Card>,
    order: Seq<CardId>,
    zone: ZoneType,
    player: PlayerId,
    id: CardId,
)
    ensures
        zone_cards(cards, order, zone, player).contains(id) <==> order.contains(id) && id.0
            < cards.len() && cards[id.0 as int].zone == zone && player == (if zone
            == ZoneType::Battlefield {
            cards[id.0 as int].controller
        } else {
            cards[id.0 as int].owner
        }),
    decreases order.len(),
{
    let v = zone_cards(cards, order, zone, player);
    if order.len() > 0 {
        let short = order.drop_last();
        let before = zone_cards(cards, short, zone, player);
        lemma_zone_cards(cards, short, zone, player, id);
        if order.contains(id) && id != order.last() {
            let i = choose|i: int| 0 <= i < order.len() && order[i] == id;
            assert(short[i] == id);
        }
        if short.contains(id) {
            let i = choose|i: int| 0 <= i < short.len() && short[i] == id;
            assert(order[i] == id);
        }
        assert(order[order.len() - 1] == order.last());
        if before.contains(id) {
            let i = choose|i: int| 0 <= i < before.len() && before[i] == id;
            assert(v[i] == id);
        }
        if v.contains(id) {
            let i = choose|i: int| 0 <= i < v.len() && v[i] == id;
            if i < before.len() {
                assert(before[i] == id);
            }
        }
        if v.len() > before.len() {
            assert(v[before.len() as int] == order.last());
        }
    }
}

/// The cards in a zone of a player are those of the game that are there: on the battlefield those
/// that the player controls, elsewhere those that the player owns.
pub proof fn law_cards_of_a_zone(game: GameState, zone: ZoneType, player: PlayerId, id: CardId)
    ensures
        game.in_zone(zone, player).contains(id) <==> game.zone_order@.contains(id) && (game.card_at(
            id,
        ) matches Some(c) && c.zone == zone && player == (if zone == ZoneType::Battlefield {
            c.controller
        } else {
            c.owner
        })),
{
    lemma_zone_cards(game.cards@, game.zone_order@, zone, player, id);
}

proof fn lemma_unmoved(ids: Seq<CardId>, moved: Seq<MovedCard>, id: CardId)
    ensures
        unmoved(ids, moved).contains(id) <==> ids.contains(id) && last_move(moved, id) is None,
    decreases ids.len(),
{
    let v = unmoved(ids, moved);
    if ids.len() > 0 {
        let short = ids.drop_last();
        let before = unmoved(short, moved);
        lemma_unmoved(short, moved, id);
        if ids.contains(id) && id != ids.last() {
            let i = choose|i: int| 0 <= i < ids.len() && ids[i] == id;
            assert(short[i] == id);
        }
        if short.contains(id) {
            let i = choose|i: int| 0 <= i < short.len() && short[i] == id;
            assert(ids[i] == id);
        }
        assert(ids[ids.len() - 1] == ids.last());
        if before.contains(id) {
            let i = choose|i: int| 0 <= i < before.len() && before[i] == id;
            assert(v[i] == id);
        }
        if v.contains(id) {
            let i = choose|i: int| 0 <= i < v.len() && v[i] == id;
            if i < before.len() {
                assert(before[i] == id);
            }
        }
        if v.len() > before.len() {
            assert(v[before.len() as int] == ids.last());
        }
    }
}

proof fn lemma_moved_into(
    game: GameState,
    moved: Seq<MovedCard>,
    all: Seq<MovedCard>,
    zone: ZoneType,
    player: PlayerId,
    id: CardId,
)
    ensures
        moved_into(game, moved, all, zone, player).contains(id) <==> (exists|i: int|
            0 <= i < moved.len() && (#[trigger] moved[i]).card == id) && last_move(all, id) == Some(
            zone,
        ) && (game.card_at(id) matches Some(c) && c.owner == player),
    decreases moved.len(),
{
    let v = moved_into(game, moved, all, zone, player);
    if moved.len() > 0 {
        let short = moved.drop_last();
        let before = moved_into(game, short, all, zone, player);
        lemma_moved_into(game, short, all, zone, player, id);
        let here = exists|i: int| 0 <= i < moved.len() && (#[trigger] moved[i]).card == id;
        let there = exists|i: int| 0 <= i < short.len() && (#[trigger] short[i]).card == id;
        if here && id != moved.last().card {
            let i = choose|i: int| 0 <= i < moved.len() && (#[trigger] moved[i]).card == id;
            assert(short[i].card == id);
        }
        if there {
            let i = choose|i: int| 0 <= i < short.len() && (#[trigger] short[i]).card == id;
            assert(moved[i].card == id);
        }
        assert(moved[moved.len() - 1] == moved.last());
        if before.contains(id) {
            let i = choose|i: int| 0 <= i < before.len() && before[i] == id;
            assert(v[i] == id);
        }
        if v.contains(id) {
            let i = choose|i: int| 0 <= i < v.len() && v[i] == id;
            if i < before.len() {
                assert(before[i] == id);
            }
        }
        if v.len() > before.len() {
            assert(v[before.len() as int] == moved.last().card);
        }
    }
}

proof fn lemma_last_move(moved: Seq<MovedCard>, id: CardId)
    ensures
        last_move(moved, id) is Some <==> exists|i: int|
            0 <= i < moved.len() && (#[trigger] moved[i]).card == id,
    decreases moved.len(),
{
    if moved.len() > 0 {
        let short = moved.drop_last();
        lemma_last_move(short, id);
        assert(moved[moved.len() - 1] == moved.last());
        if exists|i: int| 0 <= i < moved.len() && (#[trigger] moved[i]).card == id {
            let i = choose|i: int| 0 <= i < moved.len() && (#[trigger] moved[i]).card == id;
            if i < short.len() {
                assert(short[i].card == id);
            }
        }
        if exists|i: int| 0 <= i < short.len() && (#[trigger] short[i]).card == id {
            let i = choose|i: int| 0 <= i < short.len() && (#[trigger] short[i]).card == id;
            assert(moved[i].card == id);
        }
    }
}

/// A card that a payment has moved is in the zone that it was moved to last, and in that zone of its
/// owner; every other card is where the game has it.
pub proof fn law_cards_during_a_payment(
    st: PayingView,
    game: GameState,
    zone: ZoneType,
    player: PlayerId,
    id: CardId,
)
    ensures
        st.in_zone(game, zone, player).contains(id) <==> match last_move(st.moved, id) {
            Some(z) => z == zone && (game.card_at(id) matches Some(c) && c.owner == player),
            None => game.in_zone(zone, player).contains(id),
        },
{
    let a = unmoved(game.in_zone(zone, player), st.moved);
    let b = moved_into(game, st.moved, st.moved, zone, player);
    lemma_unmoved(game.in_zone(zone, player), st.moved, id);
    lemma_moved_into(game, st.moved, st.moved, zone, player, id);
    lemma_last_move(st.moved, id);
    if a.contains(id) {
        let i = choose|i: int| 0 <= i < a.len() && a[i] == id;
        assert((a + b)[i] == id);
    }
    if b.contains(id) {
        let i = choose|i: int| 0 <= i < b.len() && b[i] == id;
        assert((a + b)[a.len() + i] == id);
    }
    if (a + b).contains(id) {
        let i = choose|i: int| 0 <= i < (a + b).len() && (a + b)[i] == id;
        if i < a.len() {
            assert(a[i] == id);
        } else {
            assert(b[i - a.len()] == id);
        }
    }
}

/// A card that was moved is where it was moved to, whatever happened before; other cards stay.
pub proof fn law_moves_are_remembered(st: PayingView, id: CardId, zone: ZoneType, other: CardId)
    ensures
        last_move(st.with_moved(id, zone).moved, id) == Some(zone),
        other != id ==> last_move(st.with_moved(id, zone).moved, other) == last_move(
            st.moved,
            other,
        ),
        last_move(nothing_paid().moved, id) is None,
{
    assert(st.with_moved(id, zone).moved.drop_last() =~= st.moved);
}

/// A payment loses what it has lost and more, and taps what it has tapped and more.
pub proof fn law_payments_add_up(st: PayingView, game: GameState, id: CardId, n: i32, p: PlayerId)
    requires
        game.player_at(p) is Some,
        i32::MIN <= st.life_lost + n <= i32::MAX,
        i32::MIN <= game.player_at(p)->0.life - st.life_lost <= i32::MAX,
        i32::MIN <= game.player_at(p)->0.life - st.life_lost - n <= i32::MAX,
    ensures
        st.with_life_lost(n).life_of(game, p) == st.life_of(game, p) - n,
        nothing_paid().life_of(game, p) == game.player_at(p)->0.life,
        st.with_tapped(id).is_tapped(game, id),
        forall|other: CardId|
            other != id ==> #[trigger] st.with_tapped(id).is_tapped(game, other) == st.is_tapped(
                game,
                other,
            ),
        forall|other: CardId|
            game.card_at(other) matches Some(c) ==> #[trigger] nothing_paid().is_tapped(game, other)
                == c.tapped,
{
    let v = st.with_tapped(id).tapped;
    assert(v[st.tapped.len() as int] == id);
    assert forall|other: CardId| other != id implies #[trigger] st.with_tapped(id).is_tapped(
        game,
        other,
    ) == st.is_tapped(game, other) by {
        if v.contains(other) {
            let i = choose|i: int| 0 <= i < v.len() && v[i] == other;
            assert(st.tapped[i] == other);
        }
        if st.tapped.contains(other) {
            let i = choose|i: int| 0 <= i < st.tapped.len() && st.tapped[i] == other;
            assert(v[i] == other);
        }
    }
}

// ---- which cards convoke ----

proof fn lemma_convoking_among(
    game: GameState,
    st: PayingView,
    ids: Seq<CardId>,
    artifacts: bool,
    creatures: bool,
    id: CardId,
)
    ensures
        convoking_among(game, st, ids, artifacts, creatures).contains(id) <==> ids.contains(id)
            && !st.tapped.contains(id) && (game.card_at(id) matches Some(c) && !c.tapped && ((
        creatures && c.types.creature) || (artifacts && c.types.artifact))),
    decreases ids.len(),
{
    let v = convoking_among(game, st, ids, artifacts, creatures);
    if ids.len() > 0 {
        let short = ids.drop_last();
        let before = convoking_among(game, st, short, artifacts, creatures);
        lemma_convoking_among(game, st, short, artifacts, creatures, id);
        if ids.contains(id) && id != ids.last() {
            let i = choose|i: int| 0 <= i < ids.len() && ids[i] == id;
            assert(short[i] == id);
        }
        if short.contains(id) {
            let i = choose|i: int| 0 <= i < short.len() && short[i] == id;
            assert(ids[i] == id);
        }
        assert(ids[ids.len() - 1] == ids.last());
        if before.contains(id) {
            let i = choose|i: int| 0 <= i < before.len() && before[i] == id;
            assert(v[i] == id);
        }
        if v.contains(id) {
            let i = choose|i: int| 0 <= i < v.len() && v[i] == id;
            if i < before.len() {
                assert(before[i] == id);
            }
        }
        if v.len() > before.len() {
            assert(v[before.len() as int] == ids.last());
        }
    }
}

/// Whether a card is among those that convoke or improvise.
pub open spec fn is_among(sources: Seq<Convoked>, id: CardId) -> bool {
    exists|i: int| 0 <= i < sources.len() && (#[trigger] sources[i]).card == id
}

pub proof fn lemma_sorted_holds<T>(s: Seq<T>, less: spec_fn(T, T) -> bool, x: T)
    ensures
        sorted_by(s, less).contains(x) <==> s.contains(x),
{
    law_sorting(s, less);
    s.to_multiset_ensures();
    sorted_by(s, less).to_multiset_ensures();
    assert(s.contains(x) <==> s.to_multiset().count(x) > 0);
    assert(sorted_by(s, less).contains(x) <==> sorted_by(s, less).to_multiset().count(x) > 0);
}

/// The cards that convoke are the untapped creatures of the player on the battlefield, and those that
/// improvise the untapped artifacts; a card that is tapped, in the game or by the payment so far, does
/// neither. One that may do both does so as a creature.
pub proof fn law_who_convokes(
    game: GameState,
    st: PayingView,
    player: PlayerId,
    artifacts: bool,
    creatures: bool,
    id: CardId,
)
    ensures
        ({
            let sources = convoke_sources(game, st, player, artifacts, creatures);
            &&& is_among(sources, id) <==> st.in_zone(game, ZoneType::Battlefield, player).contains(
                id,
            ) && !st.tapped.contains(id) && (game.card_at(id) matches Some(c) && !c.tapped && ((
            creatures && c.types.creature) || (artifacts && c.types.artifact)))
            &&& forall|i: int|
                0 <= i < sources.len() && (#[trigger] sources[i]).card == id ==> (
                sources[i].as_creature <==> creatures && game.card_at(id)->0.types.creature)
        }),
{
    let all = st.in_zone(game, ZoneType::Battlefield, player);
    let found = convoking_among(game, st, all, artifacts, creatures);
    let less = relation::<CardId, ByShownName<'_>>(ByShownName { game: &game });
    let sorted = sorted_by(found, less);
    let sources = convoke_sources(game, st, player, artifacts, creatures);
    lemma_convoking_among(game, st, all, artifacts, creatures, id);
    lemma_sorted_holds(found, less, id);
    if is_among(sources, id) {
        let i = choose|i: int| 0 <= i < sources.len() && (#[trigger] sources[i]).card == id;
        assert(sorted[i] == id);
    }
    if sorted.contains(id) {
        let i = choose|i: int| 0 <= i < sorted.len() && sorted[i] == id;
        assert(sources[i].card == id);
    }
    assert forall|i: int| 0 <= i < sources.len() && (#[trigger] sources[i]).card == id implies (
    sources[i].as_creature <==> creatures && game.card_at(id)->0.types.creature) by {
        assert(sorted[i] == id);
        assert(sorted.contains(id));
    }
}

/// No card that is tapped convokes or improvises.
pub proof fn law_tapped_cards_do_not_convoke(
    game: GameState,
    st: PayingView,
    player: PlayerId,
    artifacts: bool,
    creatures: bool,
    i: int,
)
    requires
        0 <= i < convoke_sources(game, st, player, artifacts, creatures).len(),
    ensures
        ({
            let id = convoke_sources(game, st, player, artifacts, creatures)[i].card;
            &&& !st.tapped.contains(id)
            &&& game.card_at(id) matches Some(c) && !c.tapped
            &&& st.moved.len() == 0 ==> game.card_at(id)->0.zone == ZoneType::Battlefield
                && game.card_at(id)->0.controller == player
        }),
{
    let sources = convoke_sources(game, st, player, artifacts, creatures);
    let id = sources[i].card;
    assert(is_among(sources, id));
    law_who_convokes(game, st, player, artifacts, creatures, id);
    law_cards_during_a_payment(st, game, ZoneType::Battlefield, player, id);
    law_cards_of_a_zone(game, ZoneType::Battlefield, player, id);
}

// ---- what is left of a cost ----

pub proof fn lemma_place(left: Seq<ShardCount>, shard: ManaCostShard)
    ensures
        shard_place(left, shard) matches Some(i) ==> 0 <= i < left.len() && left[i].shard == shard
            && forall|j: int| 0 <= j < i ==> (#[trigger] left[j]).shard != shard,
        shard_place(left, shard) is None ==> forall|j: int|
            0 <= j < left.len() ==> (#[trigger] left[j]).shard != shard,
    decreases left.len(),
{
    if left.len() > 0 && left[0].shard != shard {
        let rest = left.skip(1);
        lemma_place(rest, shard);
        match shard_place(rest, shard) {
            Some(i) => {
                assert(left[i + 1] == rest[i]);
                assert forall|j: int| 0 <= j < i + 1 implies (#[trigger] left[j]).shard != shard by {
                    if j > 0 {
                        assert(rest[j - 1] == left[j]);
                    }
                }
            },
            None => {
                assert forall|j: int| 0 <= j < left.len() implies (#[trigger] left[j]).shard
                    != shard by {
                    if j > 0 {
                        assert(rest[j - 1] == left[j]);
                    }
                }
            },
        }
    }
}

proof fn lemma_spelled_joined(a: Seq<ShardCount>, b: Seq<ShardCount>)
    ensures
        spelled_out(a + b) == spelled_out(a) + spelled_out(b),
    decreases b.len(),
{
    if b.len() == 0 {
        assert(a + b =~= a);
        assert(spelled_out(a) + spelled_out(b) =~= spelled_out(a));
    } else {
        assert((a + b).drop_last() =~= a + b.drop_last());
        lemma_spelled_joined(a, b.drop_last());
        assert(spelled_out(a + b) =~= spelled_out(a) + spelled_out(b));
    }
}

proof fn lemma_spelled_one(e: ShardCount)
    ensures
        spelled_out(seq![e]) == if e.shard == generic_shard() {
            Seq::<ManaCostShard>::empty()
        } else {
            same_shards(e.shard, e.count as int)
        },
{
    let one = seq![e];
    assert(one.drop_last() =~= Seq::<ShardCount>::empty());
    assert(spelled_out(one.drop_last()) =~= Seq::<ManaCostShard>::empty());
    assert(spelled_out(one) =~= if e.shard == generic_shard() {
        Seq::<ManaCostShard>::empty()
    } else {
        same_shards(e.shard, e.count as int)
    });
}

proof fn lemma_one_more(left: Seq<ShardCount>, shard: ManaCostShard)
    requires
        shard != generic_shard(),
        forall|i: int| 0 <= i < left.len() ==> 0 < (#[trigger] left[i]).count < i32::MAX,
    ensures
        spelled_out(increased(left, shard, 1)).to_multiset() == spelled_out(
            left,
        ).to_multiset().insert(shard),
{
    broadcast use vstd::seq_lib::group_to_multiset_ensures;

    lemma_place(left, shard);
    let more = increased(left, shard, 1);
    match shard_place(left, shard) {
        Some(i) => {
            let a = left.take(i);
            let b = left.skip(i + 1);
            let e = left[i];
            let f = ShardCount { shard, count: (e.count + 1) as i32 };
            assert(left =~= (a + seq![e]) + b);
            assert(more =~= (a + seq![f]) + b);
            lemma_spelled_joined(a + seq![e], b);
            lemma_spelled_joined(a, seq![e]);
            lemma_spelled_joined(a + seq![f], b);
            lemma_spelled_joined(a, seq![f]);
            lemma_spelled_one(e);
            lemma_spelled_one(f);
            assert(same_shards(shard, e.count + 1) =~= same_shards(shard, e.count as int).push(
                shard,
            ));
            let x = spelled_out(a);
            let y = same_shards(shard, e.count as int);
            let z = spelled_out(b);
            vstd::seq_lib::lemma_multiset_commutative(x + y, z);
            vstd::seq_lib::lemma_multiset_commutative(x, y);
            vstd::seq_lib::lemma_multiset_commutative(x + y.push(shard), z);
            vstd::seq_lib::lemma_multiset_commutative(x, y.push(shard));
            assert(spelled_out(more).to_multiset() =~= spelled_out(left).to_multiset().insert(
                shard,
            ));
        },
        None => {
            let f = ShardCount { shard, count: 1 };
            assert(more =~= left + seq![f]);
            lemma_spelled_joined(left, seq![f]);
            lemma_spelled_one(f);
            assert(spelled_out(more) =~= spelled_out(left).push(shard));
        },
    }
}

proof fn lemma_written(shards: Seq<ManaCostShard>)
    requires
        shards.len() < i32::MAX,
        !shards.contains(generic_shard()),
    ensures
        ({
            let left = with_shards(Seq::empty(), shards);
            &&& spelled_out(left).to_multiset() == shards.to_multiset()
            &&& forall|i: int|
                0 <= i < left.len() ==> 0 < (#[trigger] left[i]).count <= shards.len()
                    && left[i].shard != generic_shard()
        }),
    decreases shards.len(),
{
    broadcast use vstd::seq_lib::group_to_multiset_ensures;

    let left = with_shards(Seq::empty(), shards);
    if shards.len() > 0 {
        let short = shards.drop_last();
        let before = with_shards(Seq::empty(), short);
        assert(!short.contains(generic_shard())) by {
            if short.contains(generic_shard()) {
                let i = choose|i: int| 0 <= i < short.len() && short[i] == generic_shard();
                assert(shards[i] == generic_shard());
            }
        }
        assert(shards[shards.len() - 1] == shards.last());
        lemma_written(short);
        lemma_one_more(before, shards.last());
        lemma_place(before, shards.last());
        assert(shards =~= short.push(shards.last()));
        assert forall|i: int| 0 <= i < left.len() implies 0 < (#[trigger] left[i]).count
            <= shards.len() && left[i].shard != generic_shard() by {
            if i < before.len() {
                assert(before[i].shard != generic_shard());
            }
        }
    } else {
        assert(shards =~= Seq::<ManaCostShard>::empty());
        assert(spelled_out(left) =~= Seq::<ManaCostShard>::empty());
    }
}

/// A cost of which nothing was paid reads as it was written: the same generic mana and the same
/// symbols, each as often.
pub proof fn law_unpaid_costs_stay(generic: i32, shards: Seq<ManaCostShard>)
    requires
        generic >= 0,
        shards.len() < i32::MAX,
        !shards.contains(generic_shard()),
    ensures
        ({
            let left = unpaid_of(generic, shards).left;
            &&& count_left(left, generic_shard()) == generic
            &&& spelled_out(left).to_multiset() == shards.to_multiset()
        }),
{
    lemma_written(shards);
    let before = with_shards(Seq::empty(), shards);
    let left = unpaid_of(generic, shards).left;
    lemma_place(before, generic_shard());
    lemma_place(left, generic_shard());
    if generic > 0 {
        let g = ShardCount { shard: generic_shard(), count: generic };
        assert(left == before.push(g));
        assert(left =~= before + seq![g]);
        assert(left[before.len() as int] == g);
        lemma_spelled_joined(before, seq![g]);
        lemma_spelled_one(g);
        assert(spelled_out(left) =~= spelled_out(before));
        let i = shard_place(left, generic_shard())->0;
        if i < before.len() {
            assert(left[i] == before[i]);
        }
    }
}

/// With every creature and artifact of the player tapped, the cost after convoke and improvise is the
/// cost before.
pub proof fn law_nothing_to_tap(
    game: GameState,
    player: PlayerId,
    generic: i32,
    shards: Seq<ManaCostShard>,
    artifacts: bool,
    creatures: bool,
)
    requires
        forall|id: CardId|
            (#[trigger] game.card_at(id)) matches Some(c) && c.zone == ZoneType::Battlefield
                && c.controller == player ==> game.card_at(id)->0.tapped,
        generic >= 0,
        shards.len() < i32::MAX,
        !shards.contains(generic_shard()),
    ensures
        ({
            let sources = convoke_sources(game, nothing_paid(), player, artifacts, creatures);
            let u = all_convoked(game, unpaid_of(generic, shards), sources);
            &&& sources.len() == 0
            &&& u == unpaid_of(generic, shards)
            &&& count_left(u.left, generic_shard()) == generic
            &&& spelled_out(u.left).to_multiset() == shards.to_multiset()
        }),
{
    let sources = convoke_sources(game, nothing_paid(), player, artifacts, creatures);
    if sources.len() > 0 {
        law_tapped_cards_do_not_convoke(game, nothing_paid(), player, artifacts, creatures, 0);
        assert(game.card_at(sources[0].card)->0.tapped);
    }
    law_unpaid_costs_stay(generic, shards);
}

proof fn lemma_convoked(game: GameState, st: PayingView, u: Unpaid, sources: Seq<Convoked>, i: int)
    ensures
        ({
            let (s, v, used) = convoked(game, st, u, sources);
            &&& 0 <= i < used.len() ==> sources.contains(used[i]) && s.tapped.contains(used[i].card)
            &&& s.moved == st.moved && s.life_lost == st.life_lost && s.counters == st.counters
            &&& s.tapped.len() == st.tapped.len() + used.len()
            &&& u.left.len() == 0 ==> used.len() == 0 && v == u
        }),
    decreases sources.len(),
{
    if sources.len() > 0 {
        let (s, v, used) = convoked(game, st, u, sources);
        let (s0, v0, used0) = convoked(game, st, u, sources.drop_last());
        lemma_convoked(game, st, u, sources.drop_last(), i);
        if 0 <= i < used0.len() {
            assert(used[i] == used0[i]);
            let k = choose|k: int|
                0 <= k < sources.drop_last().len() && sources.drop_last()[k] == used0[i];
            assert(sources[k] == used0[i]);
            let j = choose|j: int| 0 <= j < s0.tapped.len() && s0.tapped[j] == used0[i].card;
            assert(s.tapped[j] == used0[i].card);
        } else if i == used0.len() && used.len() > used0.len() {
            assert(used[i] == sources[sources.len() - 1]);
            assert(s.tapped[s0.tapped.len() as int] == used[i].card);
        }
    }
}

/// A card that convoked or improvised is tapped by it, and was not before; a payment that needs
/// nothing taps nothing, and no card is moved.
pub proof fn law_convoking_taps(
    game: GameState,
    st: PayingView,
    u: Unpaid,
    player: PlayerId,
    artifacts: bool,
    creatures: bool,
    i: int,
)
    ensures
        ({
            let sources = convoke_sources(game, st, player, artifacts, creatures);
            let (s, v, used) = convoked(game, st, u, sources);
            &&& 0 <= i < used.len() ==> s.tapped.contains(used[i].card) && !st.tapped.contains(
                used[i].card,
            ) && (game.card_at(used[i].card) matches Some(c) && !c.tapped)
            &&& s.tapped.len() == st.tapped.len() + used.len()
            &&& s.moved == st.moved && s.life_lost == st.life_lost && s.counters == st.counters
            &&& u.left.len() == 0 ==> used.len() == 0 && v == u
        }),
{
    let sources = convoke_sources(game, st, player, artifacts, creatures);
    let (s, v, used) = convoked(game, st, u, sources);
    lemma_convoked(game, st, u, sources, i);
    if 0 <= i < used.len() {
        let k = choose|k: int| 0 <= k < sources.len() && sources[k] == used[i];
        law_tapped_cards_do_not_convoke(game, st, player, artifacts, creatures, k);
    }
}

/// A creature of one color pays a symbol of its color where there is one, and otherwise generic mana;
/// an artifact pays generic mana, and no symbol of a color.
pub proof fn law_what_convoking_pays(n: i32, symbol: u16, color: u16)
    requires
        n > 0,
        is_color(symbol),
        is_color(color),
    ensures
        ({
            let u = unpaid_of(n, seq![symbol_of(symbol)]);
            let generic = seq![ShardCount { shard: generic_shard(), count: n }];
            let one = seq![ShardCount { shard: symbol_of(symbol), count: 1 }];
            let less = if n == 1 {
                one
            } else {
                one.push(ShardCount { shard: generic_shard(), count: (n - 1) as i32 })
            };
            &&& convoke_color(color, u.left, true) == color
            &&& after_convoke(u, convoke_color(color, u.left, true)).left == if symbol == color {
                generic
            } else {
                less
            }
            &&& after_convoke(u, convoke_color(color, u.left, false)).left == less
            &&& after_convoke(
                unpaid_of(0, seq![symbol_of(symbol)]),
                convoke_color(color, one, false),
            ).left == one
        }),
{
    lemma_color_bits();
    let c = color;
    assert((c == 1 || c == 2 || c == 4 || c == 8 || c == 16) ==> (c & 1 != 0 <==> c == 1) && (c & 2
        != 0 <==> c == 2) && (c & 4 != 0 <==> c == 4) && (c & 8 != 0 <==> c == 8) && (c & 16 != 0
        <==> c == 16)) by (bit_vector);
    assert(symbol & 63 != 0 && symbol & 512 == 0 && symbol & 1024 == 0);
    assert(symbol & 32 == 0 && symbol & 31 == symbol);
    assert(symbol & color != 0 <==> symbol == color);
    let s = symbol_of(symbol);
    let g = generic_shard();
    let one = seq![s];
    assert(one.drop_last() =~= Seq::<ManaCostShard>::empty());
    assert(with_shards(Seq::empty(), one.drop_last()) =~= Seq::<ShardCount>::empty());
    let l1 = seq![ShardCount { shard: s, count: 1 }];
    assert(with_shards(Seq::empty(), one) =~= l1);
    lemma_place(l1, g);
    let u = unpaid_of(n, one);
    let l2 = seq![ShardCount { shard: s, count: 1 }, ShardCount { shard: g, count: n }];
    assert(u.left =~= l2);
    let both = seq![s, g];
    assert(shards_of(l2) =~= both);
    assert(both.drop_last() =~= one);
    assert(shards_of(l1) =~= one);
    assert(unpaid_of(0, one).left =~= l1);
    lemma_place(l2, g);
    lemma_place(l2, s);
    assert(l2[0].shard == s && l2[1].shard == g);
    assert forall|m: u16| m == color || m == 32 implies #[trigger] paid_by(both, m) == if m
        == symbol {
        both
    } else {
        seq![g]
    } by {
        assert(paid_by(one.drop_last(), m) =~= Seq::<ManaCostShard>::empty());
        assert(paid_by(one, m) =~= if m == symbol {
            one
        } else {
            Seq::<ManaCostShard>::empty()
        });
        assert(paid_by(both, m) =~= if m == symbol {
            both
        } else {
            seq![g]
        });
    }
    assert(paid_by(one.drop_last(), 32) =~= Seq::<ManaCostShard>::empty());
    assert(paid_by(one, 32) =~= Seq::<ManaCostShard>::empty());
    assert(by_priority(Seq::empty(), color) is None);
    assert(by_priority(one, color) == Some(s));
    assert(by_priority(both, color) == Some(s));
    let gs = seq![g];
    assert(gs.drop_last() =~= Seq::<ManaCostShard>::empty());
    assert(by_priority(gs.drop_last(), color) is None);
    assert(by_priority(gs, color) == Some(g));
    assert(by_priority(gs.drop_last(), 32) is None);
    assert(by_priority(gs, 32) == Some(g));
    assert(decreased(l2, s, 1) =~= seq![ShardCount { shard: g, count: n }]);
    if n == 1 {
        assert(decreased(l2, g, 1) =~= l1);
    } else {
        assert(decreased(l2, g, 1) =~= l1.push(ShardCount { shard: g, count: (n - 1) as i32 }));
    }
}

} // verus!
