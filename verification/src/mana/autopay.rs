//! Automatic payment: sources are used one after the other until a cost is paid.
//!
//! What would be asked of a player on the way is answered beforehand, use by use. The payment
//! itself changes nothing but its own account; `apply_payment` carries it over to the game. A payment
//! that is to find the game anew after each use goes use by use: `settle_payment` carries over what
//! was done so far, and the next use reads the game as it then stands.

use vstd::prelude::*;
use crate::mana::ability::{ref_views, ManaAbilityRef, RefView};
use crate::mana::atoms::ManaCostShard;
use crate::mana::candidates::{
    atom_for, candidates, choose_atom_for_shard, choose_candidate, collect_sorted_candidates,
    drop_declined, law_declined_is_not_next, lemma_none_declined, next_candidate, not_declined,
};
use crate::mana::convoke::{convoke_sources, convoked, pay_convoke_improvise, Convoked};
use crate::mana::cost::{
    after_atoms, decreased, first_phyrexian, only_phyrexian, phyrexian_life, shard_place, unpaid_of,
    ManaCost, ManaCostBeingPaid, ShardCount, Unpaid,
};
use crate::mana::cost_parts::{
    answer_views, non_tap_paid, pay_non_tap_mana_ability_costs, AnswerView, PartAnswer, PayScene,
    SceneOfPayment,
};
use crate::mana::paying::{nothing_paid, Paying, PayingView};
use crate::mana::pool::{
    by_color, mana_views, pay_cost_from_pool, repeat_atom, same_atoms, spendable, spent_from, spent_in_order,
    text_atoms, ManaPaymentOutcome, ManaPool, ManaView,
};
use crate::mana::produce::{
    add_taps_for_mana_trigger_mana, made_entries, made_text, produce_mana_for_auto_pay,
    requires_tap, tap_for,
    tapped_for, trigger_mana,
};
use crate::mana::shards::{next_float_choice, AutoTapChoice, ChoiceView};
use crate::mana::sources::{
    all_refs, available_sources, context_of, group_sources_by_mana_color, ManaPaymentContext,
};
use crate::parsing::params::string_of;
use crate::text::{has_prefix, starts_with};
use crate::types::CardId;

verus! {

/// What is answered when a source is used: about the parts of its costs, what replacement effects
/// make of its mana, the colors of mana that triggers add, and which mana of the pool goes first.
pub struct TapAnswer {
    pub parts: Vec<PartAnswer>,
    pub replaced: Option<String>,
    pub colors: Vec<u16>,
    pub pool_choices: Vec<usize>,
}

#[verifier::ext_equal]
pub struct TapAnswerView {
    pub parts: Seq<AnswerView>,
    pub replaced: Option<Seq<char>>,
    pub colors: Seq<u16>,
    pub pool_choices: Seq<usize>,
}

impl View for TapAnswer {
    type V = TapAnswerView;

    open spec fn view(&self) -> TapAnswerView {
        TapAnswerView {
            parts: answer_views(self.parts@),
            replaced: string_of(self.replaced),
            colors: self.colors@,
            pool_choices: self.pool_choices@,
        }
    }
}

pub open spec fn no_answer() -> TapAnswerView {
    TapAnswerView {
        parts: Seq::empty(),
        replaced: None,
        colors: Seq::empty(),
        pool_choices: Seq::empty(),
    }
}

pub open spec fn answer_at(answers: Seq<TapAnswer>, i: nat) -> TapAnswerView {
    if i < answers.len() {
        answers[i as int]@
    } else {
        no_answer()
    }
}

/// How a payment spends mana: whether as it is made, and whether of any color. The context says
/// what it is spent on.
pub struct PayMode<'a> {
    pub ctx: Option<&'a ManaPaymentContext>,
    pub incremental: bool,
    pub any_color: bool,
}

pub struct ModeView {
    pub ctx: Option<ManaPaymentContext>,
    pub incremental: bool,
    pub any_color: bool,
}

impl<'a> View for PayMode<'a> {
    type V = ModeView;

    open spec fn view(&self) -> ModeView {
        ModeView {
            ctx: context_of(self.ctx),
            incremental: self.incremental,
            any_color: self.any_color,
        }
    }
}

/// Where a payment stands. Sources whose use was declined are passed over.
pub struct Payment {
    pub st: Paying,
    pub pool: ManaPool,
    pub unpaid: ManaCostBeingPaid,
    pub choices: Vec<AutoTapChoice>,
    pub spent: ManaPool,
    pub declined: Vec<CardId>,
}

#[verifier::ext_equal]
pub struct PaymentView {
    pub st: PayingView,
    pub pool: Seq<ManaView>,
    pub unpaid: Unpaid,
    pub choices: Seq<ChoiceView>,
    pub spent: Seq<ManaView>,
    pub declined: Seq<CardId>,
}

pub open spec fn choice_views(v: Seq<AutoTapChoice>) -> Seq<ChoiceView> {
    Seq::new(v.len(), |i: int| v[i]@)
}

impl View for Payment {
    type V = PaymentView;

    open spec fn view(&self) -> PaymentView {
        PaymentView {
            st: self.st@,
            pool: self.pool@,
            unpaid: self.unpaid@,
            choices: choice_views(self.choices@),
            spent: self.spent@,
            declined: self.declined@,
        }
    }
}

// ---- one use of a source ----

/// All bits of some atoms.
pub open spec fn all_bits(atoms: Seq<u16>) -> u16
    decreases atoms.len(),
{
    if atoms.len() == 0 {
        0
    } else {
        all_bits(atoms.drop_last()) | atoms.last()
    }
}

pub fn find_all_bits(atoms: &Vec<u16>) -> (r: u16)
    ensures
        r == all_bits(atoms@),
{
    let ghost all = atoms@;
    let mut bits: u16 = 0;
    let mut i: usize = 0;
    while i < atoms.len()
        invariant
            i <= all.len(),
            all == atoms@,
            bits == all_bits(all.take(i as int)),
        decreases all.len() - i,
    {
        assert(all.take(i + 1).drop_last() =~= all.take(i as int));
        bits = bits | atoms[i];
        i = i + 1;
    }
    assert(all.take(i as int) =~= all);
    bits
}

/// What is left of a cost, the mana in the pool and what was spent, once a way to pay and the
/// triggers of its use have made their mana, and what it made itself was spent.
pub open spec fn made_in_use(
    scene: SceneOfPayment,
    mode: ModeView,
    p: PaymentView,
    m: RefView,
    shard: ManaCostShard,
    atom: u16,
    answer: TapAnswerView,
) -> (Unpaid, Seq<ManaView>, Seq<ManaView>) {
    let game = scene.game;
    let text = made_text(game, scene.player, m, atom, answer.replaced);
    let full = p.pool + made_entries(game, m, true, text_atoms(text));
    let (entries, _) = trigger_mana(game, scene.player, m, text, true, shard, answer.colors);
    let (u, rest, spent) = spent_in_order(p.unpaid, full, p.pool.len() as int, mode.any_color);
    (u, rest + entries, spent)
}

/// A payment once a way to pay has made its mana. Mana is spent as it is made, or what the way to
/// pay counts for is taken off the cost.
pub open spec fn after_use(
    scene: SceneOfPayment,
    mode: ModeView,
    p: PaymentView,
    m: RefView,
    shard: ManaCostShard,
    atom: u16,
    answer: TapAnswerView,
) -> PaymentView {
    let game = scene.game;
    if m.empty_identity() {
        PaymentView { st: tapped_for(game, p.st, m), ..p }
    } else {
        let text = made_text(game, scene.player, m, atom, answer.replaced);
        let full = p.pool + made_entries(game, m, true, text_atoms(text));
        let (entries, added) = trigger_mana(
            game,
            scene.player,
            m,
            text,
            true,
            shard,
            answer.colors,
        );
        if mode.incremental {
            let (u, rest, spent) = made_in_use(scene, mode, p, m, shard, atom, answer);
            let (v, left, more) = spent_from(
                u,
                rest,
                mode.ctx,
                mode.any_color,
                answer.pool_choices,
                0,
            );
            PaymentView {
                st: tapped_for(game, p.st, m),
                pool: left,
                unpaid: v,
                spent: (p.spent + spent) + more,
                ..p
            }
        } else {
            let counted = if m.fixed_output() is Some {
                Seq::empty()
            } else {
                same_atoms(
                    atom,
                    if m.amount < 1 {
                        1
                    } else {
                        m.amount as nat
                    },
                )
            };
            PaymentView {
                st: tapped_for(game, p.st, m),
                pool: full + entries,
                unpaid: after_atoms(after_atoms(p.unpaid, counted), added),
                ..p
            }
        }
    }
}

/// What is recorded about the use of a way to pay.
pub open spec fn recorded(m: RefView, atom: u16, cost_cards: Seq<CardId>) -> ChoiceView {
    let special = has_prefix(m.mana_text, "Special "@);
    match m.fixed_output() {
        Some(fixed) => ChoiceView {
            card_id: m.card_id,
            mana_ability_index: m.ability_index,
            chosen_atom: if special {
                all_bits(fixed)
            } else {
                atom
            },
            needs_express_choice: special,
            cost_cards,
        },
        None => ChoiceView {
            card_id: m.card_id,
            mana_ability_index: m.ability_index,
            chosen_atom: atom,
            needs_express_choice: m.atoms.len() > 1,
            cost_cards,
        },
    }
}

/// The ways to pay that there are now.
pub open spec fn current_refs(scene: SceneOfPayment, mode: ModeView, st: PayingView) -> Seq<RefView> {
    all_refs(
        scene.game,
        st,
        scene.player,
        available_sources(scene.game, st, scene.player, scene.reserved),
        scene.reserved,
        mode.ctx,
        false,
    )
}

/// The way to pay that a payment uses next, the symbol that it pays and the atom that it makes.
pub open spec fn next_way(scene: SceneOfPayment, mode: ModeView, p: PaymentView) -> Option<
    (RefView, ManaCostShard, u16),
> {
    let refs = current_refs(scene, mode, p.st);
    let list = not_declined(candidates(scene.game, refs, false), refs, p.declined);
    match next_candidate(scene, p.st, refs, list, p.unpaid.left) {
        Some((i, shard)) => match atom_for(refs[i as int], shard) {
            Some(atom) => Some((refs[i as int], shard, atom)),
            None => None,
        },
        None => None,
    }
}

/// A payment after one more use of a source; nothing where none can be used. A source whose costs
/// are not agreed to is not used and passed over from then on, but what was paid of them stays
/// paid.
pub open spec fn next_payment(
    scene: SceneOfPayment,
    mode: ModeView,
    p: PaymentView,
    answer: TapAnswerView,
) -> Option<PaymentView> {
    match next_way(scene, mode, p) {
        Some((m, shard, atom)) => {
            let (st, cards, ok) = non_tap_paid(
                scene,
                p.st,
                m.card_id,
                m.ability_index,
                answer.parts,
            );
            if !ok {
                Some(PaymentView { st, declined: p.declined.push(m.card_id), ..p })
            } else {
                let used = after_use(
                    scene,
                    mode,
                    (PaymentView { st, ..p }),
                    m,
                    shard,
                    atom,
                    answer,
                );
                Some(PaymentView { choices: p.choices.push(recorded(m, atom, cards)), ..used })
            }
        },
        None => None,
    }
}

/// The source that a payment uses next, with the number of its ability.
pub open spec fn next_used(scene: SceneOfPayment, mode: ModeView, p: PaymentView) -> Option<
    (CardId, Option<usize>),
> {
    match next_way(scene, mode, p) {
        Some((m, _, _)) => Some((m.card_id, m.ability_index)),
        None => None,
    }
}

/// A way to pay that is used next, the symbol that it pays and the atom that it makes.
pub struct NextUse {
    pub way: ManaAbilityRef,
    pub shard: ManaCostShard,
    pub atom: u16,
}

/// How often sources are used at most.
pub const MAX_USES: u32 = 128;

/// A payment once sources are used until it is paid or none can be used.
pub open spec fn payment_end(
    scene: SceneOfPayment,
    mode: ModeView,
    p: PaymentView,
    answers: Seq<TapAnswer>,
    n: nat,
) -> PaymentView
    decreases MAX_USES - n,
{
    if p.unpaid.left.len() == 0 || n >= MAX_USES {
        p
    } else {
        match next_payment(scene, mode, p, answer_at(answers, n)) {
            Some(q) => payment_end(scene, mode, q, answers, n + 1),
            None => p,
        }
    }
}

impl Payment {
    fn use_source(
        &mut self,
        scene: PayScene<'_>,
        mode: &PayMode<'_>,
        m: &ManaAbilityRef,
        shard: ManaCostShard,
        atom: u16,
        answer: &TapAnswer,
    )
        ensures
            final(self)@ == after_use(
                scene@,
                mode@,
                old(self)@,
                m@,
                shard,
                atom,
                answer@,
            ),
    {
        let game = scene.game;
        if m.is_empty_identity() {
            tap_for(game, &mut self.st, m);
            return;
        }
        let from: usize = self.pool.entries.len();
        assert(self.pool@.len() == from);
        let replaced = match &answer.replaced {
            Some(t) => Some(t.as_str()),
            None => None,
        };
        let text = produce_mana_for_auto_pay(
            game,
            &mut self.st,
            &mut self.pool,
            scene.player,
            m,
            atom,
            replaced,
        );
        if mode.incremental {
            self.pool.pay_mana_from_ability(
                &mut self.unpaid,
                from,
                mode.any_color,
                &mut self.spent,
            );
            add_taps_for_mana_trigger_mana(
                game,
                &mut self.pool,
                scene.player,
                m,
                text.as_str(),
                true,
                shard,
                &answer.colors,
            );
            self.pool.pay_mana_cost_from_pool(
                &mut self.unpaid,
                mode.ctx,
                mode.any_color,
                &answer.pool_choices,
                &mut self.spent,
            );
        } else {
            let added = add_taps_for_mana_trigger_mana(
                game,
                &mut self.pool,
                scene.player,
                m,
                text.as_str(),
                true,
                shard,
                &answer.colors,
            );
            let fixed = m.fixed.is_some() || (m.special && m.special_atoms.len() > 0);
            let counted = if fixed {
                Vec::new()
            } else {
                let n: usize = if m.amount < 1 {
                    1
                } else {
                    m.amount as usize
                };
                repeat_atom(atom, n)
            };
            assert(counted@ =~= (if m@.fixed_output() is Some {
                Seq::empty()
            } else {
                same_atoms(
                    atom,
                    if m.amount < 1 {
                        1
                    } else {
                        m.amount as nat
                    },
                )
            }));
            self.unpaid.pay_atoms(&counted);
            self.unpaid.pay_atoms(&added);
        }
    }

    fn record(&mut self, m: &ManaAbilityRef, atom: u16, cost_cards: Vec<CardId>)
        ensures
            final(self)@ == (PaymentView {
                choices: old(self)@.choices.push(recorded(m@, atom, cost_cards@)),
                ..old(self)@
            }),
    {
        let special = starts_with(m.mana_text.as_str(), "Special ");
        let bits: Option<u16> = match &m.fixed {
            Some(fixed) => Some(find_all_bits(fixed)),
            None => if m.special && m.special_atoms.len() > 0 {
                Some(find_all_bits(&m.special_atoms))
            } else {
                None
            },
        };
        let choice = match bits {
            Some(b) => AutoTapChoice {
                card_id: m.card_id,
                mana_ability_index: m.ability_index,
                chosen_atom: if special {
                    b
                } else {
                    atom
                },
                needs_express_choice: special,
                cost_cards,
            },
            None => AutoTapChoice {
                card_id: m.card_id,
                mana_ability_index: m.ability_index,
                chosen_atom: atom,
                needs_express_choice: m.atoms.len() > 1,
                cost_cards,
            },
        };
        let ghost before = self.choices@;
        self.choices.push(choice);
        assert(choice@ =~= recorded(m@, atom, cost_cards@));
        assert(choice_views(self.choices@) =~= choice_views(before).push(choice@));
    }

    /// The start of a payment: what the pool pays is off the cost.
    pub fn start(
        mode: &PayMode<'_>,
        cost: &ManaCost,
        pool: &ManaPool,
        first_choices: &Vec<usize>,
    ) -> (r: Payment)
        ensures
            r@ == payment_start(mode@, cost.generic, cost.shards@, pool@, first_choices@),
    {
        let mut unpaid = ManaCostBeingPaid::from_mana_cost(cost);
        let mut left = pool.copy();
        let mut spent = ManaPool::new();
        if mode.incremental {
            left.pay_mana_cost_from_pool(
                &mut unpaid,
                mode.ctx,
                mode.any_color,
                first_choices,
                &mut spent,
            );
        } else {
            pay_cost_from_pool(&mut unpaid, &pool.filtered_for_context(mode.ctx));
        }
        let p = Payment { st: Paying::new(), pool: left, unpaid, choices: Vec::new(), spent, declined: Vec::new() };
        assert(p@ =~= payment_start(
            mode@,
            cost.generic,
            cost.shards@,
            pool@,
            first_choices@,
        ));
        p
    }

    /// The way to pay that is used next, so that what its use asks can be asked first.
    pub fn next_use(&self, scene: PayScene<'_>, mode: &PayMode<'_>) -> (r: Option<NextUse>)
        ensures
            match r {
                Some(n) => next_way(scene@, mode@, self@) == Some((n.way@, n.shard, n.atom)),
                None => next_way(scene@, mode@, self@) is None,
            },
    {
        let mut g = group_sources_by_mana_color(
            scene.game,
            &self.st,
            scene.player,
            scene.reserved,
            mode.ctx,
            false,
        );
        let all = collect_sorted_candidates(scene.game, &g.refs);
        let list = drop_declined(&all, &g.refs, &self.declined);
        assert(ref_views(g.refs@) == current_refs(scene@, mode@, self.st@));
        match choose_candidate(scene, &self.st, &g.refs, &list, &self.unpaid) {
            Some((i, shard)) => {
                assert(ref_views(g.refs@)[i as int] == g.refs@[i as int]@);
                match choose_atom_for_shard(&g.refs[i], shard) {
                    Some(atom) => {
                        let way = g.refs.remove(i);
                        Some(NextUse { way, shard, atom })
                    },
                    None => None,
                }
            },
            None => None,
        }
    }

    /// The source that is used next, with the number of its ability.
    pub fn next_source(&self, scene: PayScene<'_>, mode: &PayMode<'_>) -> (r: Option<
        (CardId, Option<usize>),
    >)
        ensures
            r == next_used(scene@, mode@, self@),
    {
        match self.next_use(scene, mode) {
            Some(n) => Some((n.way.card_id, n.way.ability_index)),
            None => None,
        }
    }

    /// Uses one more source; says whether one was found.
    pub fn use_next(&mut self, scene: PayScene<'_>, mode: &PayMode<'_>, answer: &TapAnswer) -> (r:
        bool)
        ensures
            match next_payment(scene@, mode@, old(self)@, answer@) {
                Some(q) => r && final(self)@ == q,
                None => !r && final(self)@ == old(self)@,
            },
    {
        let next = match self.next_use(scene, mode) {
            Some(n) => n,
            None => {
                return false;
            },
        };
        let m = &next.way;
        let mut cards: Vec<CardId> = Vec::new();
        let ghost before = self@;
        if !pay_non_tap_mana_ability_costs(
            scene,
            &mut self.st,
            m.card_id,
            m.ability_index,
            &answer.parts,
            &mut cards,
        ) {
            self.declined.push(m.card_id);
            return true;
        }
        assert(cards@ =~= non_tap_paid(
            scene@,
            before.st,
            m.card_id,
            m.ability_index,
            answer@.parts,
        ).1);
        self.use_source(scene, mode, m, next.shard, next.atom, answer);
        self.record(m, next.atom, cards);
        true
    }

    /// Uses sources until the cost is paid or none can be used.
    pub fn use_sources(&mut self, scene: PayScene<'_>, mode: &PayMode<'_>, answers: &Vec<TapAnswer>)
        ensures
            final(self)@ == payment_end(scene@, mode@, old(self)@, answers@, 0),
    {
        let none = TapAnswer {
            parts: Vec::new(),
            replaced: None,
            colors: Vec::new(),
            pool_choices: Vec::new(),
        };
        assert(none@ =~= no_answer());
        let ghost start = self@;
        let mut n: u32 = 0;
        while n < MAX_USES && !self.unpaid.is_paid()
            invariant
                n <= MAX_USES,
                none@ == no_answer(),
                start == old(self)@,
                payment_end(scene@, mode@, start, answers@, 0) == payment_end(
                    scene@,
                    mode@,
                    self@,
                    answers@,
                    n as nat,
                ),
            decreases MAX_USES - n,
        {
            let k: usize = n as usize;
            let answer = if k < answers.len() {
                &answers[k]
            } else {
                &none
            };
            if !self.use_next(scene, mode, answer) {
                return;
            }
            n = n + 1;
        }
    }
}

// ---- life for what is left ----

/// How often life pays until nothing is left.
pub open spec fn life_payments(left: Seq<ShardCount>) -> nat
    decreases left.len(),
{
    if left.len() == 0 {
        0
    } else {
        life_payments(left.skip(1)) + if left[0].count < 1 {
            1
        } else {
            left[0].count as nat
        }
    }
}

/// A cost with life paid for all that is left, where life may pay all of it and enough is there;
/// with how much life that takes.
pub open spec fn life_paid(u: Unpaid, life: i32) -> (Unpaid, i32) {
    if u.left.len() > 0 && only_phyrexian(u.left) && life > phyrexian_life(u.left) {
        (Unpaid { left: Seq::empty(), ..u }, times_two(life_payments(u.left)))
    } else {
        (u, 0)
    }
}

/// Twice a number, as it shows in so many bits.
pub open spec fn times_two(n: nat) -> i32
    decreases n,
{
    if n == 0 {
        0
    } else {
        times_two((n - 1) as nat).wrapping_add(2)
    }
}

proof fn lemma_first_paid(left: Seq<ShardCount>)
    requires
        left.len() > 0,
        only_phyrexian(left),
    ensures
        first_phyrexian(left) == Some(left[0].shard),
        only_phyrexian(decreased(left, left[0].shard, 1)),
        life_payments(decreased(left, left[0].shard, 1)) + 1 == life_payments(left),
{
    let shard = left[0].shard;
    let after = decreased(left, shard, 1);
    assert(shard_place(left, shard) == Some(0int));
    if left[0].count <= 1 {
        assert(after =~= left.skip(1));
        assert forall|i: int| 0 <= i < after.len() implies (#[trigger] after[i]).shard.phyrexian() by {
            assert(after[i] == left[i + 1]);
        }
    } else {
        assert(after.skip(1) =~= left.skip(1));
        assert forall|i: int| 0 <= i < after.len() implies (#[trigger] after[i]).shard.phyrexian() by {
            assert(left[i].shard.phyrexian());
        }
    }
}

fn pay_with_life(unpaid: &mut ManaCostBeingPaid, life: i32) -> (r: i32)
    ensures
        (final(unpaid)@, r) == life_paid(old(unpaid)@, life),
{
    if unpaid.is_paid() || !unpaid.contains_only_phyrexian_mana() || life
        <= unpaid.required_phyrexian_life() {
        return 0;
    }
    let ghost start = unpaid@;
    let ghost mut steps: nat = 0;
    let mut total: i32 = 0;
    while !unpaid.is_paid()
        invariant
            only_phyrexian(unpaid@.left),
            unpaid@ == (Unpaid { left: unpaid@.left, ..start }),
            steps + life_payments(unpaid@.left) == life_payments(start.left),
            total == times_two(steps),
        decreases life_payments(unpaid@.left),
    {
        proof {
            lemma_first_paid(unpaid@.left);
        }
        if !unpaid.pay_phyrexian() {
            return total;
        }
        total = total.wrapping_add(2);
        proof {
            steps = steps + 1;
        }
    }
    assert(unpaid@.left =~= Seq::<ShardCount>::empty());
    total
}

// ---- the whole payment ----

/// A cost with what a payment spends of the pool before it uses sources.
pub open spec fn payment_start(
    mode: ModeView,
    generic: i32,
    shards: Seq<ManaCostShard>,
    pool: Seq<ManaView>,
    choices: Seq<usize>,
) -> PaymentView {
    let u = unpaid_of(generic, shards);
    if mode.incremental {
        let (v, rest, spent) = spent_from(u, pool, mode.ctx, mode.any_color, choices, 0);
        PaymentView {
            st: nothing_paid(),
            pool: rest,
            unpaid: v,
            choices: Seq::empty(),
            spent,
            declined: Seq::empty(),
        }
    } else {
        PaymentView {
            st: nothing_paid(),
            pool,
            unpaid: after_atoms(u, by_color(spendable(pool, mode.ctx))),
            choices: Seq::empty(),
            spent: Seq::empty(),
            declined: Seq::empty(),
        }
    }
}

/// A payment once creatures and artifacts have paid what is left for a spell, with those that did.
pub open spec fn with_convoke(scene: SceneOfPayment, mode: ModeView, p: PaymentView) -> (
    PaymentView,
    Seq<Convoked>,
) {
    match (mode.ctx, scene.spell) {
        (Some(ctx), Some(spell)) if p.unpaid.left.len() > 0 && ctx.is_spell => {
            let (artifacts, creatures) = match scene.game.card_at(spell) {
                Some(c) => (c.keyword("Improvise"@), c.keyword("Convoke"@)),
                None => (false, false),
            };
            let (st, u, used) = convoked(
                scene.game,
                p.st,
                p.unpaid,
                convoke_sources(scene.game, p.st, scene.player, artifacts, creatures),
            );
            (PaymentView { st, unpaid: u, ..p }, used)
        },
        _ => (p, Seq::empty()),
    }
}

/// What a payment comes to once no more sources are used: creatures and artifacts pay, then life.
/// It gives where the payment ends, the cards that paid, and the life that is to be paid.
pub open spec fn finished(scene: SceneOfPayment, mode: ModeView, end: PaymentView) -> (
    PaymentView,
    Seq<Convoked>,
    i32,
) {
    let (p, used) = with_convoke(scene, mode, end);
    let (u, life) = life_paid(p.unpaid, p.st.life_of(scene.game, scene.player));
    (PaymentView { unpaid: u, ..p }, used, life)
}

/// What an automatic payment comes to: sources, then creatures and artifacts, then life. It gives
/// where the payment ends, the cards that paid, and the life that is to be paid.
pub open spec fn whole_payment(
    scene: SceneOfPayment,
    mode: ModeView,
    generic: i32,
    shards: Seq<ManaCostShard>,
    pool: Seq<ManaView>,
    first_choices: Seq<usize>,
    answers: Seq<TapAnswer>,
) -> (PaymentView, Seq<Convoked>, i32) {
    let start = payment_start(mode, generic, shards, pool, first_choices);
    finished(scene, mode, payment_end(scene, mode, start, answers, 0))
}

/// What an automatic payment did.
pub struct AutoTapPaymentTrace {
    pub choices: Vec<AutoTapChoice>,
    pub payment: ManaPaymentOutcome,
    pub paid: bool,
    pub convoked: Vec<Convoked>,
}

/// Whether a trace tells of a payment.
pub open spec fn tells_of(
    t: AutoTapPaymentTrace,
    end: (PaymentView, Seq<Convoked>, i32),
) -> bool {
    &&& choice_views(t.choices@) == end.0.choices
    &&& mana_views(t.payment.spent@) == end.0.spent
    &&& t.payment.life_paid == end.2
    &&& t.paid == (end.0.unpaid.left.len() == 0)
    &&& t.convoked@ == end.1
}

/// A cost that the pool pays alone uses no source, no card and no life.
pub proof fn law_pool_pays_first(
    scene: SceneOfPayment,
    mode: ModeView,
    generic: i32,
    shards: Seq<ManaCostShard>,
    pool: Seq<ManaView>,
    first_choices: Seq<usize>,
    answers: Seq<TapAnswer>,
)
    requires
        payment_start(mode, generic, shards, pool, first_choices).unpaid.left.len() == 0,
    ensures
        whole_payment(scene, mode, generic, shards, pool, first_choices, answers) == (
            payment_start(mode, generic, shards, pool, first_choices),
            Seq::<Convoked>::empty(),
            0i32,
        ),
{
}

/// The choice that is predicted for a payment is the one that it makes first: where there is one,
/// the payment goes on, and what it records is that ability of that card, unless its use is
/// declined.
pub proof fn law_prediction_is_made(
    scene: SceneOfPayment,
    mode: ModeView,
    generic: i32,
    shards: Seq<ManaCostShard>,
    pool: Seq<ManaView>,
    answer: TapAnswerView,
)
    requires
        !mode.incremental,
        payment_start(mode, generic, shards, pool, Seq::empty()).unpaid.left.len() > 0,
    ensures
        ({
            let p = payment_start(mode, generic, shards, pool, Seq::empty());
            let u = after_atoms(unpaid_of(generic, shards), by_color(spendable(pool, mode.ctx)));
            match next_float_choice(scene, u, mode.ctx) {
                Some(c) => {
                    &&& next_used(scene, mode, p) == Some((c.card_id, c.mana_ability_index))
                    &&& next_payment(scene, mode, p, answer) matches Some(q) && (q.choices.len()
                        == 0 || (q.choices.len() == 1 && q.choices[0].card_id == c.card_id
                        && q.choices[0].mana_ability_index == c.mana_ability_index))
                },
                None => next_payment(scene, mode, p, answer) is None,
            }
        }),
{
    let p = payment_start(mode, generic, shards, pool, Seq::empty());
    let refs = current_refs(scene, mode, p.st);
    assert(p.declined =~= Seq::empty());
    lemma_none_declined(candidates(scene.game, refs, false), refs);
}

/// A payment goes on exactly where there is a source to use next, and what it records then is that
/// source.
pub proof fn law_next_source_is_used(
    scene: SceneOfPayment,
    mode: ModeView,
    p: PaymentView,
    answer: TapAnswerView,
)
    ensures
        next_payment(scene, mode, p, answer) is Some == next_used(scene, mode, p) is Some,
        next_payment(scene, mode, p, answer) matches Some(q) ==> q.choices == p.choices || (
        q.choices.len() == p.choices.len() + 1 && next_used(scene, mode, p) == Some(
            (q.choices.last().card_id, q.choices.last().mana_ability_index),
        )),
{
}

/// A source whose use was declined is not the one that a payment uses next. One that is declined
/// now is passed over from then on, so that the payment goes on with another.
pub proof fn law_declined_source_is_passed_over(
    scene: SceneOfPayment,
    mode: ModeView,
    p: PaymentView,
    answer: TapAnswerView,
)
    ensures
        next_used(scene, mode, p) matches Some((card, _)) ==> !p.declined.contains(card),
        next_payment(scene, mode, p, answer) matches Some(q) ==> (q.choices == p.choices ==> ({
            let card = (next_used(scene, mode, p)->0).0;
            &&& q.declined == p.declined.push(card)
            &&& q.unpaid == p.unpaid
            &&& q.pool == p.pool
            &&& next_used(scene, mode, q) matches Some((other, _)) ==> other != card
        })),
{
    let refs = current_refs(scene, mode, p.st);
    law_declined_is_not_next(
        scene,
        p.st,
        refs,
        candidates(scene.game, refs, false),
        p.declined,
        p.unpaid.left,
    );
    if let Some(q) = next_payment(scene, mode, p, answer) {
        let later = current_refs(scene, mode, q.st);
        law_declined_is_not_next(
            scene,
            q.st,
            later,
            candidates(scene.game, later, false),
            q.declined,
            q.unpaid.left,
        );
        if q.choices == p.choices {
            let card = (next_used(scene, mode, p)->0).0;
            let (m, _, atom) = next_way(scene, mode, p)->0;
            let paid = non_tap_paid(scene, p.st, m.card_id, m.ability_index, answer.parts);
            assert(paid.2 ==> q.choices == p.choices.push(recorded(m, atom, paid.1)));
            assert(p.choices.push(recorded(m, atom, paid.1)).len() == p.choices.len() + 1);
            assert(q.declined == p.declined.push(card));
            assert(p.declined.push(card)[p.declined.len() as int] == card);
        }
    }
}

/// A payment never uses more sources than its limit.
pub proof fn law_uses_are_limited(
    scene: SceneOfPayment,
    mode: ModeView,
    p: PaymentView,
    answers: Seq<TapAnswer>,
    n: nat,
)
    requires
        n <= MAX_USES,
    ensures
        payment_end(scene, mode, p, answers, n).choices.len() <= p.choices.len() + (MAX_USES - n),
        p.choices.is_prefix_of(payment_end(scene, mode, p, answers, n).choices),
    decreases MAX_USES - n,
{
    if p.unpaid.left.len() > 0 && n < MAX_USES {
        if let Some(q) = next_payment(scene, mode, p, answer_at(answers, n)) {
            law_uses_are_limited(scene, mode, q, answers, n + 1);
            let end = payment_end(scene, mode, q, answers, n + 1).choices;
            assert(p.choices.is_prefix_of(q.choices));
            assert(p.choices =~= end.subrange(0, p.choices.len() as int));
        }
    }
}

/// Plans an automatic payment: which sources are used and what is spent. The game stays as it is;
/// the pool is what is left of it.
pub fn plan_payment(
    scene: PayScene<'_>,
    mode: &PayMode<'_>,
    cost: &ManaCost,
    pool: &ManaPool,
    first_choices: &Vec<usize>,
    answers: &Vec<TapAnswer>,
) -> (r: (AutoTapPaymentTrace, Paying, ManaPool))
    ensures
        ({
            let end = whole_payment(
                scene@,
                mode@,
                cost.generic,
                cost.shards@,
                pool@,
                first_choices@,
                answers@,
            );
            &&& tells_of(r.0, end)
            &&& r.1@ == end.0.st
            &&& r.2@ == end.0.pool
        }),
{
    let mut p = Payment::start(mode, cost, pool, first_choices);
    p.use_sources(scene, mode, answers);
    finish_payment(scene, mode, p)
}

/// Ends a payment that uses no more sources: creatures, artifacts and life pay what is left. It
/// gives what the payment did, what is still to be carried over to the game, and the pool.
pub fn finish_payment(scene: PayScene<'_>, mode: &PayMode<'_>, payment: Payment) -> (r: (
    AutoTapPaymentTrace,
    Paying,
    ManaPool,
))
    ensures
        ({
            let end = finished(scene@, mode@, payment@);
            &&& tells_of(r.0, end)
            &&& r.1@ == end.0.st
            &&& r.2@ == end.0.pool
        }),
{
    let mut p = payment;
    let ghost end = p@;
    let mut used: Vec<Convoked> = Vec::new();
    assert(used@ =~= Seq::<Convoked>::empty());
    let for_spell = match mode.ctx {
        Some(c) => c.is_spell,
        None => false,
    };
    if !p.unpaid.is_paid() && for_spell {
        if let Some(spell) = scene.spell {
            used =
            pay_convoke_improvise(scene.game, &mut p.st, scene.player, spell, &mut p.unpaid);
        }
    }
    assert((p@, used@) == with_convoke(scene@, mode@, end));
    let life: i32 = p.st.find_life(scene.game, scene.player);
    let paid_life: i32 = pay_with_life(&mut p.unpaid, life);
    let Payment { st, pool: rest, unpaid: open, choices, spent: gone, .. } = p;
    let trace = AutoTapPaymentTrace {
        choices,
        payment: ManaPaymentOutcome { spent: gone.entries, life_paid: paid_life },
        paid: open.is_paid(),
        convoked: used,
    };
    (trace, st, rest)
}

/// A source that is tapped for its mana is tapped once it was used.
pub proof fn law_use_taps_the_source(
    scene: SceneOfPayment,
    mode: ModeView,
    p: PaymentView,
    m: RefView,
    shard: ManaCostShard,
    atom: u16,
    answer: TapAnswerView,
)
    requires
        requires_tap(scene.game, m),
    ensures
        after_use(scene, mode, p, m, shard, atom, answer).st.is_tapped(scene.game, m.card_id),
{
    let t = p.st.tapped;
    assert(t.push(m.card_id)[t.len() as int] == m.card_id);
}

} // verus!
