//! Payments carried over to the game, and the automatic payments that callers use.

use vstd::prelude::*;
use crate::game::{counters_of, Card, Counter, GameState, Player};
use crate::lists::has_card;
use crate::mana::autopay::{
    choice_views, plan_payment, tells_of, whole_payment, AutoTapPaymentTrace, ModeView, PayMode,
    Payment, PaymentView, TapAnswer,
};
use crate::mana::convoke::Convoked;
use crate::mana::cost::ManaCost;
use crate::mana::cost_parts::{PayScene, SceneOfPayment};
use crate::mana::paying::{
    counters_left, last_move, nothing_paid, unmoved, MovedCard, Paying, PayingView,
};
use crate::mana::pool::{ManaPool, ManaView};
use crate::mana::shards::{AutoTapChoice, ChoiceView};
use crate::mana::sources::ManaPaymentContext;
use crate::text::text_eq;
use crate::types::{CardId, PlayerId, ZoneType};

verus! {

// ---- counters ----

/// Counters by kind, in the order in which they lie.
pub open spec fn counter_views(v: Seq<Counter>) -> Seq<(Seq<char>, i32)> {
    Seq::new(v.len(), |i: int| (v[i].kind@, v[i].count))
}

/// How many counters of a kind a list has.
pub open spec fn number_of(v: Seq<(Seq<char>, i32)>, kind: Seq<char>) -> i32
    decreases v.len(),
{
    if v.len() == 0 {
        0
    } else if v[0].0 == kind {
        v[0].1
    } else {
        number_of(v.skip(1), kind)
    }
}

/// Counters with those of a kind set to a number. A kind that was not there comes to the end,
/// unless there are none of it.
pub open spec fn counter_set(v: Seq<(Seq<char>, i32)>, kind: Seq<char>, n: i32) -> Seq<
    (Seq<char>, i32),
>
    decreases v.len(),
{
    if v.len() == 0 {
        if n == 0 {
            Seq::empty()
        } else {
            seq![(kind, n)]
        }
    } else if v[0].0 == kind {
        seq![(kind, n)] + v.skip(1)
    } else {
        seq![v[0]] + counter_set(v.skip(1), kind, n)
    }
}

/// The counters of a card once those that a payment removed are gone.
pub open spec fn counters_paid(
    v: Seq<(Seq<char>, i32)>,
    removed: Seq<(CardId, Seq<char>, i32)>,
    id: CardId,
) -> Seq<(Seq<char>, i32)>
    decreases removed.len(),
{
    if removed.len() == 0 {
        v
    } else {
        let before = counters_paid(v, removed.drop_last(), id);
        let (card, kind, amount) = removed.last();
        if card == id {
            let left = number_of(before, kind).wrapping_sub(amount);
            counter_set(
                before,
                kind,
                if left < 0 {
                    0
                } else {
                    left
                },
            )
        } else {
            before
        }
    }
}

proof fn lemma_number_of(v: Seq<Counter>, kind: Seq<char>)
    ensures
        number_of(counter_views(v), kind) == counters_of(v, kind),
    decreases v.len(),
{
    if v.len() > 0 {
        assert(counter_views(v).skip(1) =~= counter_views(v.skip(1)));
        lemma_number_of(v.skip(1), kind);
    }
}

proof fn lemma_counter_set(v: Seq<(Seq<char>, i32)>, kind: Seq<char>, n: i32, i: int)
    requires
        0 <= i <= v.len(),
        forall|j: int| 0 <= j < i ==> (#[trigger] v[j]).0 != kind,
        i < v.len() ==> v[i].0 == kind,
    ensures
        i < v.len() ==> counter_set(v, kind, n) == v.update(i, (kind, n)),
        i == v.len() && n == 0 ==> counter_set(v, kind, n) == v,
        i == v.len() && n != 0 ==> counter_set(v, kind, n) == v.push((kind, n)),
    decreases v.len(),
{
    if v.len() == 0 {
        assert(v =~= Seq::empty());
        assert(v.push((kind, n)) =~= seq![(kind, n)]);
    } else if i == 0 {
        assert(seq![(kind, n)] + v.skip(1) =~= v.update(0, (kind, n)));
    } else {
        let rest = v.skip(1);
        assert(v[0].0 != kind);
        assert forall|j: int| 0 <= j < i - 1 implies (#[trigger] rest[j]).0 != kind by {
            assert(rest[j] == v[j + 1]);
        }
        lemma_counter_set(rest, kind, n, i - 1);
        if i < v.len() {
            assert(seq![v[0]] + rest.update(i - 1, (kind, n)) =~= v.update(i, (kind, n)));
        } else {
            assert(seq![v[0]] + rest =~= v);
            assert(seq![v[0]] + rest.push((kind, n)) =~= v.push((kind, n)));
        }
    }
}

// ---- a card after a payment ----

/// Whether a card differs from what it was only as a payment says: by its tapping, its zone and its
/// counters.
#[verifier::opaque]
pub open spec fn card_paid(c: Card, d: Card, st: PayingView, id: CardId) -> bool {
    &&& d == (Card {
        tapped: c.tapped || st.tapped.contains(id),
        zone: match last_move(st.moved, id) {
            Some(z) => z,
            None => c.zone,
        },
        counters: d.counters,
        ..c
    })
    &&& counter_views(d.counters@) == counters_paid(counter_views(c.counters@), st.counters, id)
    &&& forall|kind: Seq<char>|
        #[trigger] counters_of(d.counters@, kind) == counters_left(
            counters_of(c.counters@, kind),
            st.counters,
            id,
            kind,
        )
}

/// The cards that were moved, in the order in which they first were.
pub open spec fn moved_once(moved: Seq<MovedCard>) -> Seq<CardId>
    decreases moved.len(),
{
    if moved.len() == 0 {
        Seq::empty()
    } else {
        let before = moved_once(moved.drop_last());
        if before.contains(moved.last().card) {
            before
        } else {
            before.push(moved.last().card)
        }
    }
}

/// Whether a player differs only in the life that a payment took.
#[verifier::opaque]
pub open spec fn player_paid(p: Player, q: Player, lost: i32) -> bool {
    q == (Player { life: p.life.wrapping_sub(lost), ..p })
}

/// Whether a game differs from what it was only as the payment of a player says.
pub open spec fn game_paid(
    before: GameState,
    after: GameState,
    st: PayingView,
    player: PlayerId,
) -> bool {
    &&& after == (GameState {
        cards: after.cards,
        players: after.players,
        zone_order: after.zone_order,
        ..before
    })
    &&& after.cards@.len() == before.cards@.len()
    &&& forall|i: int|
        0 <= i < before.cards@.len() ==> card_paid(
            before.cards@[i],
            #[trigger] after.cards@[i],
            st,
            CardId(i as u32),
        )
    &&& after.players@.len() == before.players@.len()
    &&& forall|i: int|
        0 <= i < before.players@.len() ==> player_paid(
            before.players@[i],
            #[trigger] after.players@[i],
            if i == player.0 {
                st.life_lost
            } else {
                0
            },
        )
    &&& after.zone_order@ == unmoved(before.zone_order@, st.moved) + moved_once(st.moved)
}

/// Counters with those of a kind set to a number.
fn set_counters(counters: &mut Vec<Counter>, kind: &str, n: i32)
    ensures
        counter_views(final(counters)@) == counter_set(counter_views(old(counters)@), kind@, n),
        forall|k: Seq<char>|
            #[trigger] counters_of(final(counters)@, k) == if k == kind@ {
                n
            } else {
                counters_of(old(counters)@, k)
            },
{
    let ghost start = counters@;
    let mut i: usize = 0;
    assert(start.skip(0) =~= start);
    while i < counters.len()
        invariant
            i <= counters@.len(),
            counters@ == start,
            start == old(counters)@,
            forall|j: int| 0 <= j < i ==> (#[trigger] start[j]).kind@ != kind@,
        decreases counters@.len() - i,
    {
        if text_eq(counters[i].kind.as_str(), kind) {
            counters[i].count = n;
            proof {
                let end = counters@;
                assert forall|k: Seq<char>| #[trigger] counters_of(end, k) == if k == kind@ {
                    n
                } else {
                    counters_of(start, k)
                } by {
                    lemma_set(start, end, i as int, n, k);
                }
                lemma_counter_set(counter_views(start), kind@, n, i as int);
                assert(counter_views(end) =~= counter_views(start).update(i as int, (kind@, n)));
            }
            return;
        }
        i = i + 1;
    }
    proof {
        lemma_counter_set(counter_views(start), kind@, n, start.len() as int);
        lemma_absent(start, kind@);
    }
    if n == 0 {
        return;
    }
    counters.push(Counter { kind: kind.to_string(), count: n });
    proof {
        let end = counters@;
        assert(counter_views(end) =~= counter_views(start).push((kind@, n)));
        assert forall|k: Seq<char>| #[trigger] counters_of(end, k) == if k == kind@ {
            n
        } else {
            counters_of(start, k)
        } by {
            lemma_pushed(start, end.last(), k);
            assert(end =~= start.push(end.last()));
        }
    }
}

proof fn lemma_absent(a: Seq<Counter>, kind: Seq<char>)
    requires
        forall|j: int| 0 <= j < a.len() ==> (#[trigger] a[j]).kind@ != kind,
    ensures
        counters_of(a, kind) == 0,
    decreases a.len(),
{
    if a.len() > 0 {
        assert(a[0].kind@ != kind);
        assert forall|j: int| 0 <= j < a.skip(1).len() implies (#[trigger] a.skip(1)[j]).kind@
            != kind by {
            assert(a.skip(1)[j] == a[j + 1]);
        }
        lemma_absent(a.skip(1), kind);
    }
}

proof fn lemma_set(a: Seq<Counter>, b: Seq<Counter>, i: int, n: i32, k: Seq<char>)
    requires
        0 <= i < a.len(),
        a.len() == b.len(),
        b[i].kind == a[i].kind,
        b[i].count == n,
        forall|j: int| 0 <= j < a.len() && j != i ==> b[j] == a[j],
        forall|j: int| 0 <= j < i ==> (#[trigger] a[j]).kind@ != a[i].kind@,
    ensures
        counters_of(b, k) == if k == a[i].kind@ {
            n
        } else {
            counters_of(a, k)
        },
    decreases a.len(),
{
    if i > 0 {
        let x = a.skip(1);
        let y = b.skip(1);
        assert forall|j: int| 0 <= j < i - 1 implies (#[trigger] x[j]).kind@ != x[i - 1].kind@ by {
            assert(x[j] == a[j + 1]);
        }
        assert forall|j: int| 0 <= j < x.len() && j != i - 1 implies y[j] == x[j] by {
            assert(b[j + 1] == a[j + 1]);
        }
        lemma_set(x, y, i - 1, n, k);
        assert(b[0] == a[0]);
        assert(a[0].kind@ != a[i].kind@);
    } else {
        assert(a.skip(1) =~= b.skip(1));
    }
}

proof fn lemma_pushed(a: Seq<Counter>, x: Counter, k: Seq<char>)
    requires
        forall|j: int| 0 <= j < a.len() ==> (#[trigger] a[j]).kind@ != x.kind@,
    ensures
        counters_of(a.push(x), k) == if k == x.kind@ {
            x.count
        } else {
            counters_of(a, k)
        },
    decreases a.len(),
{
    let b = a.push(x);
    if a.len() > 0 {
        assert(b.skip(1) =~= a.skip(1).push(x));
        assert forall|j: int| 0 <= j < a.skip(1).len() implies (#[trigger] a.skip(1)[j]).kind@
            != x.kind@ by {
            assert(a.skip(1)[j] == a[j + 1]);
        }
        lemma_pushed(a.skip(1), x, k);
        assert(b[0] == a[0]);
    } else {
        assert(b.skip(1) =~= Seq::<Counter>::empty());
        assert(a =~= Seq::<Counter>::empty());
    }
}

/// Removes the counters that a payment took off a card.
fn pay_counters(counters: &mut Vec<Counter>, st: &Paying, id: CardId)
    ensures
        counter_views(final(counters)@) == counters_paid(
            counter_views(old(counters)@),
            st@.counters,
            id,
        ),
        forall|kind: Seq<char>|
            #[trigger] counters_of(final(counters)@, kind) == counters_left(
                counters_of(old(counters)@, kind),
                st@.counters,
                id,
                kind,
            ),
{
    let ghost all = st@.counters;
    let ghost start = counters@;
    let mut i: usize = 0;
    while i < st.counters.len()
        invariant
            i <= all.len(),
            all == st@.counters,
            all.len() == st.counters@.len(),
            start == old(counters)@,
            counter_views(counters@) == counters_paid(
                counter_views(start),
                all.take(i as int),
                id,
            ),
            forall|kind: Seq<char>|
                #[trigger] counters_of(counters@, kind) == counters_left(
                    counters_of(start, kind),
                    all.take(i as int),
                    id,
                    kind,
                ),
        decreases all.len() - i,
    {
        assert(all.take(i + 1).drop_last() =~= all.take(i as int));
        assert(all.take(i + 1).last() == all[i as int]);
        let e = &st.counters[i];
        if e.card == id {
            let now: i32 = crate::game::count_of_kind(counters, e.kind.as_str());
            let left: i32 = now.wrapping_sub(e.amount);
            let n: i32 = if left < 0 {
                0
            } else {
                left
            };
            let ghost mid = counters@;
            proof {
                lemma_number_of(mid, e.kind@);
            }
            set_counters(counters, e.kind.as_str(), n);
            assert forall|kind: Seq<char>| #[trigger] counters_of(counters@, kind)
                == counters_left(counters_of(start, kind), all.take(i + 1), id, kind) by {
                assert(counters_of(mid, kind) == counters_left(
                    counters_of(start, kind),
                    all.take(i as int),
                    id,
                    kind,
                ));
            }
        }
        i = i + 1;
    }
    assert(all.take(i as int) =~= all);
}

fn find_moved(moved: &Vec<MovedCard>, id: CardId) -> (r: Option<ZoneType>)
    ensures
        r == last_move(moved@, id),
{
    let ghost all = moved@;
    let mut found: Option<ZoneType> = None;
    let mut i: usize = 0;
    while i < moved.len()
        invariant
            i <= all.len(),
            all == moved@,
            found == last_move(all.take(i as int), id),
        decreases all.len() - i,
    {
        assert(all.take(i + 1).drop_last() =~= all.take(i as int));
        if moved[i].card == id {
            found = Some(moved[i].zone);
        }
        i = i + 1;
    }
    assert(all.take(i as int) =~= all);
    found
}

#[verifier::opaque]
spec fn differs_by(c: Card, d: Card, tapped: bool, zone: ZoneType, counters: Vec<Counter>) -> bool {
    d == (Card { tapped, zone, counters, ..c })
}

fn set_state(c: &mut Card, tapped: bool, zone: ZoneType)
    ensures
        differs_by(*old(c), *final(c), tapped, zone, old(c).counters),
{
    reveal(differs_by);
    c.tapped = tapped;
    c.zone = zone;
}

fn pay_card_counters(c: &mut Card, st: &Paying, id: CardId)
    ensures
        differs_by(*old(c), *final(c), old(c).tapped, old(c).zone, final(c).counters),
        counter_views(final(c).counters@) == counters_paid(
            counter_views(old(c).counters@),
            st@.counters,
            id,
        ),
        forall|kind: Seq<char>|
            #[trigger] counters_of(final(c).counters@, kind) == counters_left(
                counters_of(old(c).counters@, kind),
                st@.counters,
                id,
                kind,
            ),
{
    reveal(differs_by);
    pay_counters(&mut c.counters, st, id);
}

proof fn lemma_card_paid(
    c: Card,
    m: Card,
    d: Card,
    tapped: bool,
    zone: ZoneType,
    st: PayingView,
    id: CardId,
)
    requires
        tapped == (c.tapped || st.tapped.contains(id)),
        zone == (match last_move(st.moved, id) {
            Some(z) => z,
            None => c.zone,
        }),
        differs_by(c, m, tapped, zone, c.counters),
        differs_by(m, d, m.tapped, m.zone, d.counters),
        counter_views(d.counters@) == counters_paid(counter_views(m.counters@), st.counters, id),
        forall|kind: Seq<char>|
            #[trigger] counters_of(d.counters@, kind) == counters_left(
                counters_of(m.counters@, kind),
                st.counters,
                id,
                kind,
            ),
    ensures
        card_paid(c, d, st, id),
{
    reveal(card_paid);
    reveal(differs_by);
}

fn pay_card(c: &mut Card, st: &Paying, id: CardId)
    ensures
        card_paid(*old(c), *final(c), st@, id),
{
    let ghost start = *c;
    let tapped = c.tapped || has_card(&st.tapped, id);
    let zone = match find_moved(&st.moved, id) {
        Some(z) => z,
        None => c.zone,
    };
    set_state(c, tapped, zone);
    let ghost mid = *c;
    pay_card_counters(c, st, id);
    proof {
        lemma_card_paid(start, mid, *c, tapped, zone, st@, id);
    }
}

fn pay_life(p: &mut Player, lost: i32)
    ensures
        player_paid(*old(p), *final(p), lost),
{
    reveal(player_paid);
    p.life = p.life.wrapping_sub(lost);
}

proof fn lemma_unpaid_player(p: Player)
    ensures
        player_paid(p, p, 0),
{
    reveal(player_paid);
}

fn pay_order(order: &Vec<CardId>, moved: &Vec<MovedCard>) -> (r: Vec<CardId>)
    ensures
        r@ == unmoved(order@, moved@) + moved_once(moved@),
{
    let ghost all = order@;
    let mut out: Vec<CardId> = Vec::new();
    let mut i: usize = 0;
    while i < order.len()
        invariant
            i <= all.len(),
            all == order@,
            out@ == unmoved(all.take(i as int), moved@),
        decreases all.len() - i,
    {
        assert(all.take(i + 1).drop_last() =~= all.take(i as int));
        if find_moved(moved, order[i]).is_none() {
            out.push(order[i]);
        }
        i = i + 1;
    }
    assert(all.take(i as int) =~= all);
    let ghost moves = moved@;
    let mut once: Vec<CardId> = Vec::new();
    let mut j: usize = 0;
    while j < moved.len()
        invariant
            j <= moves.len(),
            moves == moved@,
            once@ == moved_once(moves.take(j as int)),
        decreases moves.len() - j,
    {
        assert(moves.take(j + 1).drop_last() =~= moves.take(j as int));
        if !has_card(&once, moved[j].card) {
            once.push(moved[j].card);
        }
        j = j + 1;
    }
    assert(moves.take(j as int) =~= moves);
    crate::lists::extend_cards(&mut out, &once);
    out
}

/// Carries a payment over to the game.
pub fn apply_payment(game: &mut GameState, player: PlayerId, st: &Paying)
    ensures
        game_paid(*old(game), *final(game), st@, player),
{
    let ghost start = *game;
    let n: usize = game.cards.len();
    let mut i: usize = 0;
    while i < n
        invariant
            i <= n,
            n == start.cards@.len(),
            game.cards@.len() == n,
            *game == (GameState { cards: game.cards, ..start }),
            forall|k: int|
                0 <= k < i ==> card_paid(
                    start.cards@[k],
                    #[trigger] game.cards@[k],
                    st@,
                    CardId(k as u32),
                ),
            forall|k: int| i <= k < n ==> (#[trigger] game.cards@[k]) == start.cards@[k],
        decreases n - i,
    {
        assert(game.cards@[i as int] == start.cards@[i as int]);
        pay_card(&mut game.cards[i], st, CardId(i as u32));
        i = i + 1;
    }
    let ghost mid = *game;
    let p: usize = player.0 as usize;
    if p < game.players.len() {
        pay_life(&mut game.players[p], st.life_lost);
    }
    proof {
        assert forall|k: int| 0 <= k < start.players@.len() implies player_paid(
            start.players@[k],
            #[trigger] game.players@[k],
            if k == player.0 {
                st@.life_lost
            } else {
                0
            },
        ) by {
            lemma_unpaid_player(start.players@[k]);
        }
    }
    let order = pay_order(&game.zone_order, &st.moved);
    game.zone_order = order;
}

// ---- automatic payments ----

/// The scene of a payment.
pub open spec fn scene_of(
    game: GameState,
    player: PlayerId,
    spell: Option<CardId>,
    reuse: bool,
    reserved: Seq<CardId>,
) -> SceneOfPayment {
    SceneOfPayment { game, player, spell, reuse, reserved }
}

/// The sources of choices.
pub open spec fn chosen_cards(choices: Seq<ChoiceView>) -> Seq<CardId> {
    Seq::new(choices.len(), |i: int| choices[i].card_id)
}

pub fn list_chosen_cards(choices: &Vec<AutoTapChoice>) -> (r: Vec<CardId>)
    ensures
        r@ == chosen_cards(choice_views(choices@)),
{
    let mut out: Vec<CardId> = Vec::new();
    let mut i: usize = 0;
    while i < choices.len()
        invariant
            i <= choices@.len(),
            out@.len() == i,
            forall|k: int| 0 <= k < i ==> out@[k] == (#[trigger] choices@[k]).card_id,
        decreases choices@.len() - i,
    {
        out.push(choices[i].card_id);
        i = i + 1;
    }
    assert(out@ =~= chosen_cards(choice_views(choices@)));
    out
}

/// How a payment is made: the context that it is made in, whether mana is spent as it is made,
/// whether mana may be of any color, whether the card that is paid for may be used up, and the
/// answers to what is asked.
pub struct PaymentOptions<'a> {
    pub payment_ctx: Option<&'a ManaPaymentContext>,
    pub consume_incrementally: bool,
    pub any_color_conversion: bool,
    pub allow_reserved_source_reuse: bool,
    pub reserved_sacrifices: &'a Vec<CardId>,
    pub first_choices: &'a Vec<usize>,
    pub answers: &'a Vec<TapAnswer>,
}

/// What a payment with options comes to.
pub open spec fn payment_with(
    game: GameState,
    pool: Seq<ManaView>,
    player: PlayerId,
    cost: ManaCost,
    spell: Option<CardId>,
    o: PaymentOptions<'_>,
) -> (PaymentView, Seq<Convoked>, i32) {
    whole_payment(
        scene_of(game, player, spell, o.allow_reserved_source_reuse, o.reserved_sacrifices@),
        ModeView {
            ctx: crate::mana::sources::context_of(o.payment_ctx),
            incremental: o.consume_incrementally,
            any_color: o.any_color_conversion,
        },
        cost.generic,
        cost.shards@,
        pool,
        o.first_choices@,
        o.answers@,
    )
}

/// Pays a cost with sources, and carries the payment over to game and pool.
pub fn auto_tap_lands_with_options(
    game: &mut GameState,
    pool: &mut ManaPool,
    player: PlayerId,
    cost: &ManaCost,
    current_spell: Option<CardId>,
    o: &PaymentOptions<'_>,
) -> (r: AutoTapPaymentTrace)
    ensures
        ({
            let end = payment_with(*old(game), old(pool)@, player, *cost, current_spell, *o);
            &&& tells_of(r, end)
            &&& final(pool)@ == end.0.pool
            &&& game_paid(*old(game), *final(game), end.0.st, player)
        }),
{
    let scene = PayScene {
        game: &*game,
        player,
        spell: current_spell,
        reuse: o.allow_reserved_source_reuse,
        reserved: o.reserved_sacrifices,
    };
    let mode = PayMode {
        ctx: o.payment_ctx,
        incremental: o.consume_incrementally,
        any_color: o.any_color_conversion,
    };
    let (trace, st, left) = plan_payment(
        scene,
        &mode,
        cost,
        pool,
        o.first_choices,
        o.answers,
    );
    *pool = left;
    apply_payment(game, player, &st);
    trace
}

/// Carries over to the game what a payment has done so far. The payment then goes on from the game
/// as it stands, with all that the game says about its cards by then.
pub fn settle_payment(game: &mut GameState, player: PlayerId, p: &mut Payment)
    ensures
        game_paid(*old(game), *final(game), old(p)@.st, player),
        final(p)@ == (PaymentView { st: nothing_paid(), ..old(p)@ }),
{
    apply_payment(game, player, &p.st);
    p.st = Paying::new();
}

/// What a payment did shows in the game once it is carried over: a payment that goes on from there
/// finds every card as tapped, in the zone and with the counters, and its player with the life,
/// that it had itself left them with.
pub proof fn law_settled_payment_shows(
    before: GameState,
    after: GameState,
    st: PayingView,
    player: PlayerId,
    id: CardId,
    kind: Seq<char>,
)
    requires
        game_paid(before, after, st, player),
        before.card_at(id) is Some,
    ensures
        after.card_at(id) is Some,
        nothing_paid().is_tapped(after, id) == st.is_tapped(before, id),
        nothing_paid().zone_of(after, id) == st.zone_of(before, id),
        nothing_paid().counters_on(after, id, kind) == st.counters_on(before, id, kind),
        nothing_paid().life_of(after, player) == st.life_of(before, player),
{
    reveal(card_paid);
    reveal(player_paid);
    let i = id.0 as int;
    assert(CardId(i as u32) == id);
    assert(card_paid(before.cards@[i], after.cards@[i], st, CardId(i as u32)));
    let none = nothing_paid();
    assert(last_move(none.moved, id) is None);
    assert(!none.tapped.contains(id));
    let p = player.0 as int;
    if p < before.players@.len() {
        assert(player_paid(before.players@[p], after.players@[p], st.life_lost));
    }
}

} // verus!
