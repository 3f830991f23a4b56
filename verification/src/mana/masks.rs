//! A quick test whether a cost can be paid: every source counts as a set of atoms.

use vstd::prelude::*;
use crate::game::{Card, GameState};
use crate::mana::ability::{ActivatedAbility, CostPart};
use crate::mana::atoms::{
    append_atoms, has_bits, ManaCostShard, BLACK, BLUE, COLORLESS, GREEN, RED, WHITE,
};
use crate::mana::autopay::{all_bits, find_all_bits};
use crate::mana::paying::{nothing_paid, Paying};
use crate::mana::pool::{color_count, repeat_atom, same_atoms, ManaPool, ManaView};
use crate::mana::sources::{
    can_tap, check_can_tap, context_of, is_payable_mana_ability, mana_ability_payable,
    ManaPaymentContext,
};
use crate::sorting::{relation, sort_by, sorted_by, Order};
use crate::types::{CardId, PlayerId, ZoneType};

verus! {

// ---- the cost ----

/// The generic mana of a cost.
pub open spec fn generic_in(parts: Seq<CostPart>) -> i32
    decreases parts.len(),
{
    if parts.len() == 0 {
        0
    } else {
        let before = generic_in(parts.drop_last());
        match parts.last() {
            CostPart::Mana { cost } => before.wrapping_add(cost.generic),
            _ => before,
        }
    }
}

/// The colors of the colored symbols of a cost.
pub open spec fn colored(shards: Seq<ManaCostShard>) -> Seq<u16>
    decreases shards.len(),
{
    if shards.len() == 0 {
        Seq::empty()
    } else {
        let before = colored(shards.drop_last());
        if shards.last().colors() != 0 {
            before.push(shards.last().colors())
        } else {
            before
        }
    }
}

pub open spec fn colored_in(parts: Seq<CostPart>) -> Seq<u16>
    decreases parts.len(),
{
    if parts.len() == 0 {
        Seq::empty()
    } else {
        let before = colored_in(parts.drop_last());
        match parts.last() {
            CostPart::Mana { cost } => before + colored(cost.shards@),
            _ => before,
        }
    }
}

fn list_colored(shards: &Vec<ManaCostShard>) -> (r: Vec<u16>)
    ensures
        r@ == colored(shards@),
{
    let ghost all = shards@;
    let mut out: Vec<u16> = Vec::new();
    let mut i: usize = 0;
    while i < shards.len()
        invariant
            i <= all.len(),
            all == shards@,
            out@ == colored(all.take(i as int)),
        decreases all.len() - i,
    {
        assert(all.take(i + 1).drop_last() =~= all.take(i as int));
        let mask: u16 = shards[i].color_mask();
        if mask != 0 {
            out.push(mask);
        }
        i = i + 1;
    }
    assert(all.take(i as int) =~= all);
    out
}

fn read_cost(parts: &Vec<CostPart>) -> (r: (i32, Vec<u16>))
    ensures
        r.0 == generic_in(parts@),
        r.1@ == colored_in(parts@),
{
    let ghost all = parts@;
    let mut generic: i32 = 0;
    let mut colors: Vec<u16> = Vec::new();
    let mut i: usize = 0;
    while i < parts.len()
        invariant
            i <= all.len(),
            all == parts@,
            generic == generic_in(all.take(i as int)),
            colors@ == colored_in(all.take(i as int)),
        decreases all.len() - i,
    {
        assert(all.take(i + 1).drop_last() =~= all.take(i as int));
        if let CostPart::Mana { cost } = &parts[i] {
            generic = generic.wrapping_add(cost.generic);
            append_atoms(&mut colors, &list_colored(&cost.shards));
        }
        i = i + 1;
    }
    assert(all.take(i as int) =~= all);
    (generic, colors)
}

// ---- the sources ----

/// The mana of a pool as sets; colorless mana has no color.
pub open spec fn pool_masks(entries: Seq<ManaView>) -> Seq<u16> {
    same_atoms(WHITE, color_count(entries, WHITE)) + same_atoms(BLUE, color_count(entries, BLUE))
        + same_atoms(BLACK, color_count(entries, BLACK)) + same_atoms(
        RED,
        color_count(entries, RED),
    ) + same_atoms(GREEN, color_count(entries, GREEN)) + same_atoms(
        0,
        color_count(entries, COLORLESS),
    )
}

fn list_pool_masks(pool: &ManaPool) -> (r: Vec<u16>)
    ensures
        r@ == pool_masks(pool@),
{
    let mut out = repeat_atom(WHITE, pool.count(WHITE));
    append_atoms(&mut out, &repeat_atom(BLUE, pool.count(BLUE)));
    append_atoms(&mut out, &repeat_atom(BLACK, pool.count(BLACK)));
    append_atoms(&mut out, &repeat_atom(RED, pool.count(RED)));
    append_atoms(&mut out, &repeat_atom(GREEN, pool.count(GREEN)));
    append_atoms(&mut out, &repeat_atom(0, pool.count(COLORLESS)));
    out
}

/// What abilities of a card make: a set of atoms to choose from, or atoms that come together.
#[verifier::ext_equal]
pub struct MadeBy {
    pub mask: u16,
    pub fixed: Option<Seq<u16>>,
}

/// What the first abilities of a card make. The first that makes atoms together settles it.
pub open spec fn made_by(
    game: GameState,
    player: PlayerId,
    card: CardId,
    abilities: Seq<ActivatedAbility>,
    reserved: Seq<CardId>,
    ctx: Option<ManaPaymentContext>,
    n: nat,
) -> MadeBy
    decreases n,
{
    if n == 0 {
        MadeBy { mask: 0, fixed: None }
    } else {
        let before = made_by(game, player, card, abilities, reserved, ctx, (n - 1) as nat);
        let ab = abilities[n - 1];
        if before.fixed is Some || !mana_ability_payable(
            game,
            nothing_paid(),
            player,
            card,
            ab,
            reserved,
            ctx,
        ) {
            before
        } else if ab.is_mana_reflected {
            MadeBy { mask: before.mask | all_bits(ab.reflected_atoms@), fixed: None }
        } else {
            match ab.produced {
                Some(p) => if p.combo_color_identity {
                    MadeBy {
                        mask: before.mask | match game.player_at(player) {
                            Some(q) => all_bits(q.commander_atoms@),
                            None => 0,
                        },
                        fixed: None,
                    }
                } else {
                    match p.fixed {
                        Some(a) => MadeBy { mask: 0, fixed: Some(a@) },
                        None => MadeBy { mask: before.mask | all_bits(p.atoms@), fixed: None },
                    }
                },
                None => before,
            }
        }
    }
}

/// The sets that a card stands for.
pub open spec fn card_masks(
    game: GameState,
    player: PlayerId,
    id: CardId,
    reserved: Seq<CardId>,
    ctx: Option<ManaPaymentContext>,
) -> Seq<u16> {
    match game.card_at(id) {
        Some(c) => {
            let made = made_by(
                game,
                player,
                id,
                c.activated_abilities@,
                reserved,
                ctx,
                c.activated_abilities@.len(),
            );
            let together = match made.fixed {
                Some(a) => a,
                None => Seq::empty(),
            };
            if made.mask != 0 {
                together.push(made.mask)
            } else if c.types.land && can_tap(game, nothing_paid(), id) && c.land_atoms@.len() > 0 {
                together.push(all_bits(c.land_atoms@))
            } else {
                together
            }
        },
        None => Seq::empty(),
    }
}

/// The sets that cards stand for, but for one of them.
pub open spec fn cards_masks(
    game: GameState,
    player: PlayerId,
    ids: Seq<CardId>,
    excluded: CardId,
    reserved: Seq<CardId>,
    ctx: Option<ManaPaymentContext>,
) -> Seq<u16>
    decreases ids.len(),
{
    if ids.len() == 0 {
        Seq::empty()
    } else {
        let before = cards_masks(game, player, ids.drop_last(), excluded, reserved, ctx);
        if ids.last() == excluded {
            before
        } else {
            before + card_masks(game, player, ids.last(), reserved, ctx)
        }
    }
}

fn find_made_by(
    game: &GameState,
    player: PlayerId,
    id: CardId,
    c: &Card,
    reserved: &Vec<CardId>,
    ctx: Option<&ManaPaymentContext>,
) -> (r: (u16, Option<Vec<u16>>))
    ensures
        ({
            let made = made_by(
                *game,
                player,
                id,
                c.activated_abilities@,
                reserved@,
                context_of(ctx),
                c.activated_abilities@.len(),
            );
            &&& r.0 == made.mask
            &&& crate::mana::ability::atoms_of(r.1) == made.fixed
        }),
{
    let st = Paying::new();
    let ghost abilities = c.activated_abilities@;
    let mut mask: u16 = 0;
    let mut fixed: Option<Vec<u16>> = None;
    let mut i: usize = 0;
    while i < c.activated_abilities.len()
        invariant
            i <= abilities.len(),
            abilities == c.activated_abilities@,
            st@ == nothing_paid(),
            ({
                let made = made_by(
                    *game,
                    player,
                    id,
                    abilities,
                    reserved@,
                    context_of(ctx),
                    i as nat,
                );
                &&& mask == made.mask
                &&& crate::mana::ability::atoms_of(fixed) == made.fixed
            }),
        decreases abilities.len() - i,
    {
        let ab = &c.activated_abilities[i];
        if fixed.is_none() && is_payable_mana_ability(game, &st, player, id, ab, reserved, ctx) {
            if ab.is_mana_reflected {
                mask = mask | find_all_bits(&ab.reflected_atoms);
            } else if let Some(p) = &ab.produced {
                if p.combo_color_identity {
                    let bits: u16 = match game.player(player) {
                        Some(q) => find_all_bits(&q.commander_atoms),
                        None => 0,
                    };
                    mask = mask | bits;
                } else {
                    match &p.fixed {
                        Some(a) => {
                            fixed = Some(crate::mana::atoms::copy_atoms(a));
                            mask = 0;
                        },
                        None => {
                            mask = mask | find_all_bits(&p.atoms);
                        },
                    }
                }
            }
        }
        i = i + 1;
    }
    (mask, fixed)
}

fn add_card_masks(
    game: &GameState,
    player: PlayerId,
    id: CardId,
    reserved: &Vec<CardId>,
    ctx: Option<&ManaPaymentContext>,
    out: &mut Vec<u16>,
)
    ensures
        final(out)@ == old(out)@ + card_masks(*game, player, id, reserved@, context_of(ctx)),
{
    let ghost start = out@;
    assert(start + Seq::<u16>::empty() =~= start);
    if let Some(c) = game.card(id) {
        let (mask, fixed) = find_made_by(game, player, id, c, reserved, ctx);
        if let Some(a) = &fixed {
            append_atoms(out, a);
        }
        let ghost together = match crate::mana::ability::atoms_of(fixed) {
            Some(a) => a,
            None => Seq::empty(),
        };
        assert(out@ =~= start + together);
        if mask != 0 {
            out.push(mask);
            assert(out@ =~= start + together.push(mask));
        } else {
            let st = Paying::new();
            if c.types.land && check_can_tap(game, &st, id) && c.land_atoms.len() > 0 {
                let bits: u16 = find_all_bits(&c.land_atoms);
                out.push(bits);
                assert(out@ =~= start + together.push(bits));
            }
        }
    }
}

/// All the sets that a player may pay with.
pub open spec fn all_masks(
    game: GameState,
    pool: Seq<ManaView>,
    player: PlayerId,
    excluded: CardId,
    reserved: Seq<CardId>,
    ctx: Option<ManaPaymentContext>,
) -> Seq<u16> {
    pool_masks(pool) + cards_masks(
        game,
        player,
        game.in_zone(ZoneType::Battlefield, player),
        excluded,
        reserved,
        ctx,
    )
}

fn list_masks(
    game: &GameState,
    pool: &ManaPool,
    player: PlayerId,
    excluded: CardId,
    reserved: &Vec<CardId>,
    ctx: Option<&ManaPaymentContext>,
) -> (r: Vec<u16>)
    ensures
        r@ == all_masks(*game, pool@, player, excluded, reserved@, context_of(ctx)),
{
    let mut out = list_pool_masks(pool);
    let ghost start = out@;
    let ids = game.cards_in_zone(ZoneType::Battlefield, player);
    let ghost all = ids@;
    let mut i: usize = 0;
    assert(start + Seq::<u16>::empty() =~= start);
    while i < ids.len()
        invariant
            i <= all.len(),
            all == ids@,
            out@ == start + cards_masks(
                *game,
                player,
                all.take(i as int),
                excluded,
                reserved@,
                context_of(ctx),
            ),
        decreases all.len() - i,
    {
        assert(all.take(i + 1).drop_last() =~= all.take(i as int));
        if ids[i] != excluded {
            let ghost before = cards_masks(
                *game,
                player,
                all.take(i as int),
                excluded,
                reserved@,
                context_of(ctx),
            );
            let ghost more = card_masks(*game, player, all[i as int], reserved@, context_of(ctx));
            add_card_masks(game, player, ids[i], reserved, ctx, &mut out);
            assert((start + before) + more =~= start + (before + more));
        }
        i = i + 1;
    }
    assert(all.take(i as int) =~= all);
    out
}

// ---- the match ----

/// How many bits a number has.
pub open spec fn bit_count(n: int) -> int
    decreases n,
{
    if n <= 0 {
        0
    } else {
        bit_count(n / 2) + n % 2
    }
}

pub fn count_bits(n: u16) -> (r: u32)
    ensures
        r == bit_count(n as int),
{
    let mut m: u16 = n;
    let mut count: u32 = 0;
    let mut k: u32 = 0;
    let ghost goal = bit_count(n as int);
    while m > 0
        invariant
            count + bit_count(m as int) == goal,
            count <= k,
            k <= 65535 - m,
        decreases m,
    {
        count = count + (m % 2) as u32;
        m = m / 2;
        k = k + 1;
    }
    count
}

/// How many sets have one of some atoms.
pub open spec fn meeting(masks: Seq<u16>, wanted: u16) -> nat
    decreases masks.len(),
{
    if masks.len() == 0 {
        0
    } else {
        meeting(masks.drop_last(), wanted) + if has_bits(masks.last(), wanted) {
            1nat
        } else {
            0
        }
    }
}

fn count_meeting(masks: &Vec<u16>, wanted: u16) -> (r: usize)
    ensures
        r == meeting(masks@, wanted),
{
    let ghost all = masks@;
    let mut n: usize = 0;
    let mut i: usize = 0;
    while i < masks.len()
        invariant
            i <= all.len(),
            all == masks@,
            n <= i,
            n == meeting(all.take(i as int), wanted),
        decreases all.len() - i,
    {
        assert(all.take(i + 1).drop_last() =~= all.take(i as int));
        if masks[i] & wanted != 0 {
            n = n + 1;
        }
        i = i + 1;
    }
    assert(all.take(i as int) =~= all);
    n
}

/// The scarcest first, then by number.
pub struct ByMeeting<'a> {
    pub masks: &'a Vec<u16>,
}

impl<'a> Order<u16> for ByMeeting<'a> {
    open spec fn before(&self, a: u16, b: u16) -> bool {
        meeting(self.masks@, a) < meeting(self.masks@, b) || (meeting(self.masks@, a) == meeting(
            self.masks@,
            b,
        ) && a < b)
    }

    fn goes_before(&self, a: u16, b: u16) -> (r: bool) {
        let n: usize = count_meeting(self.masks, a);
        let m: usize = count_meeting(self.masks, b);
        n < m || (n == m && a < b)
    }
}

pub open spec fn by_meeting(masks: Seq<u16>) -> spec_fn(u16, u16) -> bool {
    |a: u16, b: u16|
        meeting(masks, a) < meeting(masks, b) || (meeting(masks, a) == meeting(masks, b) && a < b)
}

/// Whether one set is a better match than another: it has fewer atoms, or is the smaller number.
pub open spec fn better(a: u16, b: u16) -> bool {
    bit_count(a as int) < bit_count(b as int) || (bit_count(a as int) == bit_count(b as int) && a
        < b)
}

/// The best set for some atoms that is not taken yet, among the first ones.
pub open spec fn best_match(masks: Seq<u16>, taken: Seq<usize>, wanted: u16, n: nat) -> Option<usize>
    decreases n,
{
    if n == 0 {
        None
    } else {
        let before = best_match(masks, taken, wanted, (n - 1) as nat);
        let i = (n - 1) as usize;
        if taken.contains(i) || !has_bits(masks[n - 1], wanted) {
            before
        } else {
            match before {
                Some(b) => if better(masks[n - 1], masks[b as int]) {
                    Some(i)
                } else {
                    Some(b)
                },
                None => Some(i),
            }
        }
    }
}

fn has_place(v: &Vec<usize>, i: usize) -> (r: bool)
    ensures
        r == v@.contains(i),
{
    let mut k: usize = 0;
    while k < v.len()
        invariant
            k <= v@.len(),
            forall|j: int| 0 <= j < k ==> v@[j] != i,
        decreases v@.len() - k,
    {
        if v[k] == i {
            assert(v@[k as int] == i);
            return true;
        }
        k = k + 1;
    }
    false
}

fn find_best(masks: &Vec<u16>, taken: &Vec<usize>, wanted: u16) -> (r: Option<usize>)
    ensures
        r == best_match(masks@, taken@, wanted, masks@.len()),
{
    let mut best: Option<usize> = None;
    let mut i: usize = 0;
    while i < masks.len()
        invariant
            i <= masks@.len(),
            best == best_match(masks@, taken@, wanted, i as nat),
            best matches Some(b) ==> b < i,
        decreases masks@.len() - i,
    {
        if !has_place(taken, i) && masks[i] & wanted != 0 {
            best =
            match best {
                Some(b) => {
                    let p: u32 = count_bits(masks[i]);
                    let q: u32 = count_bits(masks[b]);
                    if p < q || (p == q && masks[i] < masks[b]) {
                        Some(i)
                    } else {
                        Some(b)
                    }
                },
                None => Some(i),
            };
        }
        i = i + 1;
    }
    best
}

/// The sets that are taken for wanted atoms, one after the other; nothing where one has no match.
pub open spec fn matched(masks: Seq<u16>, wanted: Seq<u16>) -> Option<Seq<usize>>
    decreases wanted.len(),
{
    if wanted.len() == 0 {
        Some(Seq::empty())
    } else {
        match matched(masks, wanted.drop_last()) {
            Some(taken) => match best_match(masks, taken, wanted.last(), masks.len()) {
                Some(i) => Some(taken.push(i)),
                None => None,
            },
            None => None,
        }
    }
}

proof fn lemma_unmatched(masks: Seq<u16>, wanted: Seq<u16>, n: int)
    requires
        0 <= n <= wanted.len(),
        matched(masks, wanted.take(n)) is None,
    ensures
        matched(masks, wanted) is None,
    decreases wanted.len() - n,
{
    if n < wanted.len() {
        assert(wanted.take(n + 1).drop_last() =~= wanted.take(n));
        lemma_unmatched(masks, wanted, n + 1);
    } else {
        assert(wanted.take(n) =~= wanted);
    }
}

/// Whether sets pay for colored symbols and generic mana.
pub open spec fn masks_pay(masks: Seq<u16>, wanted: Seq<u16>, generic: int) -> bool {
    masks.len() >= wanted.len() + generic && (matched(
        masks,
        sorted_by(wanted, by_meeting(masks)),
    ) matches Some(taken) && masks.len() - taken.len() >= generic)
}

/// How much generic mana a cost asks for. A negative number counts as it shows in so many bits, so
/// that nothing pays it.
pub open spec fn generic_asked(n: i32) -> int {
    if n < 0 {
        usize::MAX + 1 + n
    } else {
        n as int
    }
}

fn check_masks(masks: &Vec<u16>, wanted: &Vec<u16>, generic: i32) -> (r: bool)
    ensures
        r == masks_pay(masks@, wanted@, generic_asked(generic)),
{
    let n: usize = if generic < 0 {
        usize::MAX - (-(generic + 1)) as usize
    } else {
        generic as usize
    };
    if masks.len() < wanted.len() || masks.len() - wanted.len() < n {
        return false;
    }
    let order = ByMeeting { masks };
    let sorted = sort_by(wanted, &order);
    assert(relation::<u16, ByMeeting<'_>>(order) =~= by_meeting(masks@));
    proof {
        crate::sorting::law_sorting(wanted@, by_meeting(masks@));
    }
    let ghost all = sorted@;
    let mut taken: Vec<usize> = Vec::new();
    let mut i: usize = 0;
    assert(taken@ =~= Seq::<usize>::empty());
    while i < sorted.len()
        invariant
            i <= all.len(),
            all == sorted@,
            all == sorted_by(wanted@, by_meeting(masks@)),
            all.len() == wanted@.len(),
            taken@.len() == i,
            matched(masks@, all.take(i as int)) == Some(taken@),
        decreases all.len() - i,
    {
        assert(all.take(i + 1).drop_last() =~= all.take(i as int));
        assert(all.take(i + 1).last() == all[i as int]);
        match find_best(masks, &taken, sorted[i]) {
            Some(k) => {
                taken.push(k);
            },
            None => {
                proof {
                    lemma_unmatched(masks@, all, i + 1);
                }
                return false;
            },
        }
        i = i + 1;
    }
    assert(all.take(i as int) =~= all);
    masks.len() - taken.len() >= n
}

/// Says whether the mana of a cost can be paid without a source and without reserved cards.
pub fn can_pay_mana_cost_with_reserved_sacrifices(
    game: &GameState,
    pool: &ManaPool,
    player: PlayerId,
    excluded_source: CardId,
    cost: &Vec<CostPart>,
    reserved_sacrifices: &Vec<CardId>,
    payment_ctx: Option<&ManaPaymentContext>,
) -> (r: bool)
    ensures
        r == masks_pay(
            all_masks(
                *game,
                pool@,
                player,
                excluded_source,
                reserved_sacrifices@,
                context_of(payment_ctx),
            ),
            colored_in(cost@),
            generic_asked(generic_in(cost@)),
        ),
{
    let (generic, wanted) = read_cost(cost);
    let masks = list_masks(
        game,
        pool,
        player,
        excluded_source,
        reserved_sacrifices,
        payment_ctx,
    );
    check_masks(&masks, &wanted, generic)
}

/// A set is taken at most once.
pub proof fn law_sources_pay_once(masks: Seq<u16>, wanted: Seq<u16>)
    requires
        masks.len() <= usize::MAX,
    ensures
        matched(masks, wanted) matches Some(taken) ==> {
            &&& taken.len() == wanted.len()
            &&& taken.no_duplicates()
            &&& forall|i: int|
                0 <= i < taken.len() ==> #[trigger] taken[i] < masks.len() && has_bits(
                    masks[taken[i] as int],
                    wanted[i],
                )
        },
    decreases wanted.len(),
{
    if wanted.len() > 0 {
        law_sources_pay_once(masks, wanted.drop_last());
        if let Some(taken) = matched(masks, wanted.drop_last()) {
            lemma_best_match(masks, taken, wanted.last(), masks.len());
        }
    }
}

proof fn lemma_best_match(masks: Seq<u16>, taken: Seq<usize>, wanted: u16, n: nat)
    requires
        n <= masks.len(),
        masks.len() <= usize::MAX,
    ensures
        best_match(masks, taken, wanted, n) matches Some(i) ==> i < n && !taken.contains(i)
            && has_bits(masks[i as int], wanted),
    decreases n,
{
    if n > 0 {
        lemma_best_match(masks, taken, wanted, (n - 1) as nat);
    }
}

} // verus!
