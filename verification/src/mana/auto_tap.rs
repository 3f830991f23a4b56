//! The automatic payments that callers use, by what they allow and report.

use vstd::prelude::*;
use crate::game::GameState;
use crate::mana::apply::{
    auto_tap_lands_with_options, chosen_cards, game_paid, list_chosen_cards, scene_of,
    PaymentOptions,
};
use crate::mana::autopay::{
    choice_views, tells_of, whole_payment, AutoTapPaymentTrace, ModeView, PaymentView, TapAnswer,
};
use crate::mana::convoke::Convoked;
use crate::mana::cost::ManaCost;
use crate::mana::pool::{ManaPool, ManaView};
use crate::mana::shards::AutoTapChoice;
use crate::mana::sources::{context_of, ManaPaymentContext};
use crate::types::{CardId, PlayerId};

verus! {

/// What the payment of a cost comes to.
pub open spec fn payment_of(
    game: GameState,
    pool: Seq<ManaView>,
    player: PlayerId,
    cost: ManaCost,
    spell: Option<CardId>,
    reuse: bool,
    reserved: Seq<CardId>,
    answers: Seq<TapAnswer>,
    mode: ModeView,
) -> (PaymentView, Seq<Convoked>, i32) {
    whole_payment(
        scene_of(game, player, spell, reuse, reserved),
        mode,
        cost.generic,
        cost.shards@,
        pool,
        Seq::empty(),
        answers,
    )
}

/// A payment without context, whose mana stays in the pool.
pub open spec fn plain_mode() -> ModeView {
    ModeView { ctx: None, incremental: false, any_color: false }
}

fn pay(
    game: &mut GameState,
    pool: &mut ManaPool,
    player: PlayerId,
    cost: &ManaCost,
    current_spell: Option<CardId>,
    reuse: bool,
    reserved: &Vec<CardId>,
    answers: &Vec<TapAnswer>,
    ctx: Option<&ManaPaymentContext>,
    incremental: bool,
    any_color: bool,
) -> (r: AutoTapPaymentTrace)
    ensures
        ({
            let end = payment_of(
                *old(game),
                old(pool)@,
                player,
                *cost,
                current_spell,
                reuse,
                reserved@,
                answers@,
                (ModeView { ctx: context_of(ctx), incremental, any_color }),
            );
            &&& tells_of(r, end)
            &&& final(pool)@ == end.0.pool
            &&& game_paid(*old(game), *final(game), end.0.st, player)
        }),
{
    let none: Vec<usize> = Vec::new();
    assert(none@ =~= Seq::<usize>::empty());
    auto_tap_lands_with_options(
        game,
        pool,
        player,
        cost,
        current_spell,
        &PaymentOptions {
            payment_ctx: ctx,
            consume_incrementally: incremental,
            any_color_conversion: any_color,
            allow_reserved_source_reuse: reuse,
            reserved_sacrifices: reserved,
            first_choices: &none,
            answers,
        },
    )
}

/// Pays a cost with sources; gives those that were used.
pub fn auto_tap_lands(
    game: &mut GameState,
    pool: &mut ManaPool,
    player: PlayerId,
    cost: &ManaCost,
    current_spell: Option<CardId>,
) -> (r: Vec<CardId>)
    ensures
        ({
            let end = payment_of(
                *old(game),
                old(pool)@,
                player,
                *cost,
                current_spell,
                false,
                Seq::empty(),
                Seq::empty(),
                plain_mode(),
            );
            &&& r@ == chosen_cards(end.0.choices)
            &&& final(pool)@ == end.0.pool
            &&& game_paid(*old(game), *final(game), end.0.st, player)
        }),
{
    let none: Vec<CardId> = Vec::new();
    assert(none@ =~= Seq::<CardId>::empty());
    let no_answers: Vec<TapAnswer> = Vec::new();
    assert(no_answers@ =~= Seq::<TapAnswer>::empty());
    let trace = pay(
        game,
        pool,
        player,
        cost,
        current_spell,
        false,
        &none,
        &no_answers,
        None,
        false,
        false,
    );
    list_chosen_cards(&trace.choices)
}

/// Pays a cost with sources, where the card that is paid for may be used up.
pub fn auto_tap_lands_allow_reserved_source_reuse(
    game: &mut GameState,
    pool: &mut ManaPool,
    player: PlayerId,
    cost: &ManaCost,
    current_spell: Option<CardId>,
) -> (r: Vec<CardId>)
    ensures
        ({
            let end = payment_of(
                *old(game),
                old(pool)@,
                player,
                *cost,
                current_spell,
                true,
                Seq::empty(),
                Seq::empty(),
                plain_mode(),
            );
            &&& r@ == chosen_cards(end.0.choices)
            &&& final(pool)@ == end.0.pool
            &&& game_paid(*old(game), *final(game), end.0.st, player)
        }),
{
    let none: Vec<CardId> = Vec::new();
    assert(none@ =~= Seq::<CardId>::empty());
    let no_answers: Vec<TapAnswer> = Vec::new();
    assert(no_answers@ =~= Seq::<TapAnswer>::empty());
    let trace = pay(
        game,
        pool,
        player,
        cost,
        current_spell,
        true,
        &none,
        &no_answers,
        None,
        false,
        false,
    );
    list_chosen_cards(&trace.choices)
}

/// Pays a cost with sources; gives the choices that were made.
pub fn auto_tap_lands_trace(
    game: &mut GameState,
    pool: &mut ManaPool,
    player: PlayerId,
    cost: &ManaCost,
    current_spell: Option<CardId>,
) -> (r: Vec<AutoTapChoice>)
    ensures
        ({
            let end = payment_of(
                *old(game),
                old(pool)@,
                player,
                *cost,
                current_spell,
                false,
                Seq::empty(),
                Seq::empty(),
                plain_mode(),
            );
            &&& choice_views(r@) == end.0.choices
            &&& final(pool)@ == end.0.pool
            &&& game_paid(*old(game), *final(game), end.0.st, player)
        }),
{
    let none: Vec<CardId> = Vec::new();
    assert(none@ =~= Seq::<CardId>::empty());
    let no_answers: Vec<TapAnswer> = Vec::new();
    assert(no_answers@ =~= Seq::<TapAnswer>::empty());
    let trace = pay(
        game,
        pool,
        player,
        cost,
        current_spell,
        false,
        &none,
        &no_answers,
        None,
        false,
        false,
    );
    trace.choices
}

/// Pays a cost with sources, where the card that is paid for may be used up; gives the choices.
pub fn auto_tap_lands_allow_reserved_source_reuse_trace(
    game: &mut GameState,
    pool: &mut ManaPool,
    player: PlayerId,
    cost: &ManaCost,
    current_spell: Option<CardId>,
) -> (r: Vec<AutoTapChoice>)
    ensures
        ({
            let end = payment_of(
                *old(game),
                old(pool)@,
                player,
                *cost,
                current_spell,
                true,
                Seq::empty(),
                Seq::empty(),
                plain_mode(),
            );
            &&& choice_views(r@) == end.0.choices
            &&& final(pool)@ == end.0.pool
            &&& game_paid(*old(game), *final(game), end.0.st, player)
        }),
{
    let none: Vec<CardId> = Vec::new();
    assert(none@ =~= Seq::<CardId>::empty());
    let no_answers: Vec<TapAnswer> = Vec::new();
    assert(no_answers@ =~= Seq::<TapAnswer>::empty());
    let trace = pay(
        game,
        pool,
        player,
        cost,
        current_spell,
        true,
        &none,
        &no_answers,
        None,
        false,
        false,
    );
    trace.choices
}

/// Pays a cost with sources, with the cards that were chosen for sacrifices.
pub fn auto_tap_lands_with_chooser(
    game: &mut GameState,
    pool: &mut ManaPool,
    player: PlayerId,
    cost: &ManaCost,
    current_spell: Option<CardId>,
    answers: &Vec<TapAnswer>,
) -> (r: Vec<CardId>)
    ensures
        ({
            let end = payment_of(
                *old(game),
                old(pool)@,
                player,
                *cost,
                current_spell,
                false,
                Seq::empty(),
                answers@,
                plain_mode(),
            );
            &&& r@ == chosen_cards(end.0.choices)
            &&& final(pool)@ == end.0.pool
            &&& game_paid(*old(game), *final(game), end.0.st, player)
        }),
{
    let none: Vec<CardId> = Vec::new();
    assert(none@ =~= Seq::<CardId>::empty());
    let trace = pay(
        game,
        pool,
        player,
        cost,
        current_spell,
        false,
        &none,
        answers,
        None,
        false,
        false,
    );
    list_chosen_cards(&trace.choices)
}

/// Pays a cost with sources, with the cards that were chosen for sacrifices, where the card that
/// is paid for may be used up.
pub fn auto_tap_lands_allow_reserved_source_reuse_with_chooser(
    game: &mut GameState,
    pool: &mut ManaPool,
    player: PlayerId,
    cost: &ManaCost,
    current_spell: Option<CardId>,
    answers: &Vec<TapAnswer>,
) -> (r: Vec<CardId>)
    ensures
        ({
            let end = payment_of(
                *old(game),
                old(pool)@,
                player,
                *cost,
                current_spell,
                true,
                Seq::empty(),
                answers@,
                plain_mode(),
            );
            &&& r@ == chosen_cards(end.0.choices)
            &&& final(pool)@ == end.0.pool
            &&& game_paid(*old(game), *final(game), end.0.st, player)
        }),
{
    let none: Vec<CardId> = Vec::new();
    assert(none@ =~= Seq::<CardId>::empty());
    let trace = pay(
        game,
        pool,
        player,
        cost,
        current_spell,
        true,
        &none,
        answers,
        None,
        false,
        false,
    );
    list_chosen_cards(&trace.choices)
}

/// Pays a cost with sources, with answers to what is asked.
pub fn auto_tap_lands_with_callbacks(
    game: &mut GameState,
    pool: &mut ManaPool,
    player: PlayerId,
    cost: &ManaCost,
    current_spell: Option<CardId>,
    answers: &Vec<TapAnswer>,
) -> (r: Vec<CardId>)
    ensures
        ({
            let end = payment_of(
                *old(game),
                old(pool)@,
                player,
                *cost,
                current_spell,
                false,
                Seq::empty(),
                answers@,
                plain_mode(),
            );
            &&& r@ == chosen_cards(end.0.choices)
            &&& final(pool)@ == end.0.pool
            &&& game_paid(*old(game), *final(game), end.0.st, player)
        }),
{
    let none: Vec<CardId> = Vec::new();
    assert(none@ =~= Seq::<CardId>::empty());
    let trace = pay(
        game,
        pool,
        player,
        cost,
        current_spell,
        false,
        &none,
        answers,
        None,
        false,
        false,
    );
    list_chosen_cards(&trace.choices)
}

/// Pays a cost with sources, with answers to what is asked; gives the choices.
pub fn auto_tap_lands_trace_with_callbacks(
    game: &mut GameState,
    pool: &mut ManaPool,
    player: PlayerId,
    cost: &ManaCost,
    current_spell: Option<CardId>,
    answers: &Vec<TapAnswer>,
) -> (r: Vec<AutoTapChoice>)
    ensures
        ({
            let end = payment_of(
                *old(game),
                old(pool)@,
                player,
                *cost,
                current_spell,
                false,
                Seq::empty(),
                answers@,
                plain_mode(),
            );
            &&& choice_views(r@) == end.0.choices
            &&& final(pool)@ == end.0.pool
            &&& game_paid(*old(game), *final(game), end.0.st, player)
        }),
{
    let none: Vec<CardId> = Vec::new();
    assert(none@ =~= Seq::<CardId>::empty());
    let trace = pay(
        game,
        pool,
        player,
        cost,
        current_spell,
        false,
        &none,
        answers,
        None,
        false,
        false,
    );
    trace.choices
}

/// Pays a cost with sources, with answers, where reserved cards are spared; gives the choices.
pub fn auto_tap_lands_trace_with_callbacks_and_reserved_sacrifices(
    game: &mut GameState,
    pool: &mut ManaPool,
    player: PlayerId,
    cost: &ManaCost,
    current_spell: Option<CardId>,
    reserved_sacrifices: &Vec<CardId>,
    answers: &Vec<TapAnswer>,
) -> (r: Vec<AutoTapChoice>)
    ensures
        ({
            let end = payment_of(
                *old(game),
                old(pool)@,
                player,
                *cost,
                current_spell,
                false,
                reserved_sacrifices@,
                answers@,
                plain_mode(),
            );
            &&& choice_views(r@) == end.0.choices
            &&& final(pool)@ == end.0.pool
            &&& game_paid(*old(game), *final(game), end.0.st, player)
        }),
{
    let trace = pay(
        game,
        pool,
        player,
        cost,
        current_spell,
        false,
        reserved_sacrifices,
        answers,
        None,
        false,
        false,
    );
    trace.choices
}

/// Pays a cost with sources that may be used for what it is; gives the choices.
pub fn auto_tap_lands_trace_with_callbacks_reserved_and_ctx(
    game: &mut GameState,
    pool: &mut ManaPool,
    player: PlayerId,
    cost: &ManaCost,
    current_spell: Option<CardId>,
    reserved_sacrifices: &Vec<CardId>,
    answers: &Vec<TapAnswer>,
    payment_ctx: &ManaPaymentContext,
) -> (r: Vec<AutoTapChoice>)
    ensures
        ({
            let end = payment_of(
                *old(game),
                old(pool)@,
                player,
                *cost,
                current_spell,
                false,
                reserved_sacrifices@,
                answers@,
                (ModeView {
                    ctx: Some(*payment_ctx),
                    incremental: false,
                    any_color: false,
                }),
            );
            &&& choice_views(r@) == end.0.choices
            &&& final(pool)@ == end.0.pool
            &&& game_paid(*old(game), *final(game), end.0.st, player)
        }),
{
    let trace = pay(
        game,
        pool,
        player,
        cost,
        current_spell,
        false,
        reserved_sacrifices,
        answers,
        Some(payment_ctx),
        false,
        false,
    );
    trace.choices
}

/// Pays a cost with sources, and spends the mana as it is made.
pub fn auto_tap_lands_pay_incremental_with_callbacks_reserved_and_ctx(
    game: &mut GameState,
    pool: &mut ManaPool,
    player: PlayerId,
    cost: &ManaCost,
    current_spell: Option<CardId>,
    reserved_sacrifices: &Vec<CardId>,
    answers: &Vec<TapAnswer>,
    payment_ctx: &ManaPaymentContext,
    any_color_conversion: bool,
) -> (r: AutoTapPaymentTrace)
    ensures
        ({
            let end = payment_of(
                *old(game),
                old(pool)@,
                player,
                *cost,
                current_spell,
                false,
                reserved_sacrifices@,
                answers@,
                (ModeView {
                    ctx: Some(*payment_ctx),
                    incremental: true,
                    any_color: any_color_conversion,
                }),
            );
            &&& tells_of(r, end)
            &&& final(pool)@ == end.0.pool
            &&& game_paid(*old(game), *final(game), end.0.st, player)
        }),
{
    pay(
        game,
        pool,
        player,
        cost,
        current_spell,
        false,
        reserved_sacrifices,
        answers,
        Some(payment_ctx),
        true,
        any_color_conversion,
    )
}

/// Pays a cost with sources, with answers, where the card that is paid for may be used up.
pub fn auto_tap_lands_allow_reserved_source_reuse_with_callbacks(
    game: &mut GameState,
    pool: &mut ManaPool,
    player: PlayerId,
    cost: &ManaCost,
    current_spell: Option<CardId>,
    answers: &Vec<TapAnswer>,
) -> (r: Vec<CardId>)
    ensures
        ({
            let end = payment_of(
                *old(game),
                old(pool)@,
                player,
                *cost,
                current_spell,
                true,
                Seq::empty(),
                answers@,
                plain_mode(),
            );
            &&& r@ == chosen_cards(end.0.choices)
            &&& final(pool)@ == end.0.pool
            &&& game_paid(*old(game), *final(game), end.0.st, player)
        }),
{
    let none: Vec<CardId> = Vec::new();
    assert(none@ =~= Seq::<CardId>::empty());
    let trace = pay(
        game,
        pool,
        player,
        cost,
        current_spell,
        true,
        &none,
        answers,
        None,
        false,
        false,
    );
    list_chosen_cards(&trace.choices)
}

/// Pays a cost with sources, with answers, where the card that is paid for may be used up and
/// reserved cards are spared; gives the choices.
pub fn auto_tap_lands_allow_reserved_source_reuse_trace_with_callbacks_and_reserved_sacrifices(
    game: &mut GameState,
    pool: &mut ManaPool,
    player: PlayerId,
    cost: &ManaCost,
    current_spell: Option<CardId>,
    reserved_sacrifices: &Vec<CardId>,
    answers: &Vec<TapAnswer>,
) -> (r: Vec<AutoTapChoice>)
    ensures
        ({
            let end = payment_of(
                *old(game),
                old(pool)@,
                player,
                *cost,
                current_spell,
                true,
                reserved_sacrifices@,
                answers@,
                plain_mode(),
            );
            &&& choice_views(r@) == end.0.choices
            &&& final(pool)@ == end.0.pool
            &&& game_paid(*old(game), *final(game), end.0.st, player)
        }),
{
    let trace = pay(
        game,
        pool,
        player,
        cost,
        current_spell,
        true,
        reserved_sacrifices,
        answers,
        None,
        false,
        false,
    );
    trace.choices
}

/// Pays a cost with sources that may be used for what it is, where the card that is paid for may be
/// used up; gives the choices.
pub fn auto_tap_lands_allow_reserved_source_reuse_trace_with_callbacks_reserved_and_ctx(
    game: &mut GameState,
    pool: &mut ManaPool,
    player: PlayerId,
    cost: &ManaCost,
    current_spell: Option<CardId>,
    reserved_sacrifices: &Vec<CardId>,
    answers: &Vec<TapAnswer>,
    payment_ctx: &ManaPaymentContext,
) -> (r: Vec<AutoTapChoice>)
    ensures
        ({
            let end = payment_of(
                *old(game),
                old(pool)@,
                player,
                *cost,
                current_spell,
                true,
                reserved_sacrifices@,
                answers@,
                (ModeView {
                    ctx: Some(*payment_ctx),
                    incremental: false,
                    any_color: false,
                }),
            );
            &&& choice_views(r@) == end.0.choices
            &&& final(pool)@ == end.0.pool
            &&& game_paid(*old(game), *final(game), end.0.st, player)
        }),
{
    let trace = pay(
        game,
        pool,
        player,
        cost,
        current_spell,
        true,
        reserved_sacrifices,
        answers,
        Some(payment_ctx),
        false,
        false,
    );
    trace.choices
}

/// Pays a cost with sources, and spends the mana as it is made, where the card that is paid for may
/// be used up.
pub fn auto_tap_lands_allow_reserved_source_reuse_pay_incremental_with_callbacks_reserved_and_ctx(
    game: &mut GameState,
    pool: &mut ManaPool,
    player: PlayerId,
    cost: &ManaCost,
    current_spell: Option<CardId>,
    reserved_sacrifices: &Vec<CardId>,
    answers: &Vec<TapAnswer>,
    payment_ctx: &ManaPaymentContext,
) -> (r: AutoTapPaymentTrace)
    ensures
        ({
            let end = payment_of(
                *old(game),
                old(pool)@,
                player,
                *cost,
                current_spell,
                true,
                reserved_sacrifices@,
                answers@,
                (ModeView {
                    ctx: Some(*payment_ctx),
                    incremental: true,
                    any_color: false,
                }),
            );
            &&& tells_of(r, end)
            &&& final(pool)@ == end.0.pool
            &&& game_paid(*old(game), *final(game), end.0.st, player)
        }),
{
    pay(
        game,
        pool,
        player,
        cost,
        current_spell,
        true,
        reserved_sacrifices,
        answers,
        Some(payment_ctx),
        true,
        false,
    )
}

/// Pays a cost with sources, with answers, where the card that is paid for may be used up and
/// reserved cards are spared.
pub fn auto_tap_lands_allow_reserved_source_reuse_with_callbacks_and_reserved_sacrifices(
    game: &mut GameState,
    pool: &mut ManaPool,
    player: PlayerId,
    cost: &ManaCost,
    current_spell: Option<CardId>,
    reserved_sacrifices: &Vec<CardId>,
    answers: &Vec<TapAnswer>,
) -> (r: Vec<CardId>)
    ensures
        ({
            let end = payment_of(
                *old(game),
                old(pool)@,
                player,
                *cost,
                current_spell,
                true,
                reserved_sacrifices@,
                answers@,
                plain_mode(),
            );
            &&& r@ == chosen_cards(end.0.choices)
            &&& final(pool)@ == end.0.pool
            &&& game_paid(*old(game), *final(game), end.0.st, player)
        }),
{
    let trace = pay(
        game,
        pool,
        player,
        cost,
        current_spell,
        true,
        reserved_sacrifices,
        answers,
        None,
        false,
        false,
    );
    list_chosen_cards(&trace.choices)
}

} // verus!
