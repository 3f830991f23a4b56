//! What the mana of a use asks: colors, what replaces it, and which mana is spent first.

use vstd::prelude::*;
use crate::game::{GameState, TapTrigger};
use crate::mana::ability::{ManaAbilityRef, RefView};
use crate::mana::atoms::{atoms_as_mana_string, ManaCostShard};
use crate::mana::autopay::{made_in_use, PayMode, Payment, TapAnswer};
use crate::mana::cost::{after_mana, ManaCostBeingPaid, Unpaid};
use crate::mana::cost_parts::PayScene;
use crate::mana::pool::{spent_as, useful, ManaPool, ManaView};
use crate::mana::produce::{
    add_taps_for_mana_trigger_mana, amount_of, asks_color, auto_pay_base_atoms,
    check_taps_for_mana, find_amount, made_text, produce_mana_for_auto_pay, taps_for_mana,
    triggered,
};
use crate::mana::questions::ManaPayCallback;
use crate::mana::sources::{context_of, ManaPaymentContext};
use crate::parsing::params::text_of;
use crate::types::{CardId, PlayerId};

verus! {

// ---- the color of mana that a source makes ----

/// How often the color of the mana of a way to pay is asked for: once where it is any color, else
/// once for each time that it is made. `named` says whether the color that is made has a name.
pub open spec fn color_choices(game: GameState, player: PlayerId, m: RefView, named: bool) -> int {
    let amount = amount_of(game, player, m);
    if m.empty_identity() || m.fixed is Some || m.special || m.atoms.len() <= 1 || !named {
        0
    } else if m.any_like && !m.combo {
        1
    } else if amount < 1 {
        1
    } else {
        amount as int
    }
}

/// What is asked about the color of the mana of a way to pay, and how often. The only color that
/// can be chosen is the one that the payment makes.
pub fn color_question(
    game: &GameState,
    player: PlayerId,
    m: &ManaAbilityRef,
    color_name: Option<&str>,
) -> (r: Option<(ManaPayCallback, u32)>)
    ensures
        ({
            let n = color_choices(*game, player, m@, color_name is Some);
            match r {
                Some((q, times)) => {
                    &&& times == n
                    &&& n > 0
                    &&& q matches ManaPayCallback::ChooseColor(v) && v@.len() == 1 && Some(v@[0]@)
                        == text_of(color_name)
                },
                None => n == 0,
            }
        }),
{
    if m.is_empty_identity() || m.fixed.is_some() || m.special || m.atoms.len() <= 1 {
        return None;
    }
    match color_name {
        Some(name) => {
            let mut forced: Vec<String> = Vec::new();
            forced.push(name.to_string());
            let times: u32 = if m.any_like && !m.combo {
                1
            } else {
                let n: i32 = find_amount(game, player, m);
                if n < 1 {
                    1
                } else {
                    n as u32
                }
            };
            Some((ManaPayCallback::ChooseColor(forced), times))
        },
        None => None,
    }
}

// ---- what replaces mana ----

/// Asks what replacement effects make of the mana of a way to pay; nothing where it makes none for
/// want of a color.
pub fn produced_mana_question(
    game: &GameState,
    player: PlayerId,
    m: &ManaAbilityRef,
    chosen: u16,
) -> (r: Option<ManaPayCallback>)
    ensures
        match r {
            Some(q) => !m@.empty_identity() && (q matches
                ManaPayCallback::ApplyProduceManaReplacement { activator, source_card, mana }
                && activator == player && source_card == m.card_id && mana@ == made_text(
                *game,
                player,
                m@,
                chosen,
                None,
            )),
            None => m@.empty_identity(),
        },
{
    if m.is_empty_identity() {
        return None;
    }
    let atoms = auto_pay_base_atoms(m, find_amount(game, player, m), chosen);
    Some(
        ManaPayCallback::ApplyProduceManaReplacement {
            activator: player,
            source_card: m.card_id,
            mana: atoms_as_mana_string(&atoms),
        },
    )
}

// ---- colors that triggers ask for ----

/// How many triggers ask for a color when a source is tapped.
pub open spec fn color_asks(triggers: Seq<TapTrigger>, source: CardId, player: PlayerId) -> nat
    decreases triggers.len(),
{
    if triggers.len() == 0 {
        0
    } else {
        let t = triggers.last();
        color_asks(triggers.drop_last(), source, player) + if t.source == source && t.player
            == player && asks_color(t) {
            1nat
        } else {
            0
        }
    }
}

/// Triggers use as many colors as they ask for.
pub proof fn law_colors_are_asked_for(
    game: GameState,
    triggers: Seq<TapTrigger>,
    source: CardId,
    player: PlayerId,
    produced: Seq<char>,
    to_pay: ManaCostShard,
    colors: Seq<u16>,
)
    ensures
        triggered(game, triggers, source, player, produced, to_pay, colors).2 == color_asks(
            triggers,
            source,
            player,
        ),
    decreases triggers.len(),
{
    if triggers.len() > 0 {
        law_colors_are_asked_for(
            game,
            triggers.drop_last(),
            source,
            player,
            produced,
            to_pay,
            colors,
        );
    }
}

/// How many colors are asked for when a way to pay is used.
pub open spec fn colors_asked(game: GameState, player: PlayerId, m: RefView) -> nat {
    if taps_for_mana(game, m) {
        color_asks(game.facts.tap_triggers@, m.card_id, player)
    } else {
        0
    }
}

/// The letters of the five colors.
pub open spec fn color_letters() -> Seq<Seq<char>> {
    seq!["W"@, "U"@, "B"@, "R"@, "G"@]
}

fn list_color_letters() -> (r: Vec<String>)
    ensures
        r@.len() == 5,
        forall|i: int| 0 <= i < 5 ==> (#[trigger] r@[i])@ == color_letters()[i],
{
    let mut out: Vec<String> = Vec::new();
    out.push("W".to_string());
    out.push("U".to_string());
    out.push("B".to_string());
    out.push("R".to_string());
    out.push("G".to_string());
    out
}

/// Asks for the color of mana that a trigger adds, once `answered` colors were given.
pub fn trigger_color_question(
    game: &GameState,
    player: PlayerId,
    m: &ManaAbilityRef,
    answered: usize,
) -> (r: Option<ManaPayCallback>)
    ensures
        match r {
            Some(q) => answered < colors_asked(*game, player, m@) && (q matches
                ManaPayCallback::ChooseManaColor { options } && options@.len() == 5 && (forall|
                i: int,
            |
                0 <= i < 5 ==> (#[trigger] options@[i])@ == color_letters()[i])),
            None => answered >= colors_asked(*game, player, m@),
        },
{
    if !check_taps_for_mana(game, m) {
        return None;
    }
    let triggers = &game.facts.tap_triggers;
    let ghost all = triggers@;
    let mut n: usize = 0;
    let mut i: usize = 0;
    while i < triggers.len()
        invariant
            n <= i <= all.len(),
            all == triggers@,
            n == color_asks(all.take(i as int), m.card_id, player),
        decreases all.len() - i,
    {
        assert(all.take(i + 1).drop_last() =~= all.take(i as int));
        let t = &triggers[i];
        if t.source == m.card_id && t.player == player && !t.reflects && t.any_color
            && t.atoms.len() > 0 {
            n = n + 1;
        }
        i = i + 1;
    }
    assert(all.take(i as int) =~= all);
    if answered < n {
        Some(ManaPayCallback::ChooseManaColor { options: list_color_letters() })
    } else {
        None
    }
}

// ---- which mana is spent ----

/// The colors of mana at places.
pub open spec fn colors_at(entries: Seq<ManaView>, places: Seq<int>) -> Seq<u16> {
    Seq::new(places.len(), |i: int| entries[places[i]].color)
}

/// The mana of which one is chosen to be spent next, once choices were made. Nothing is left to
/// choose where none is of use.
pub open spec fn pool_options(
    u: Unpaid,
    entries: Seq<ManaView>,
    ctx: Option<ManaPaymentContext>,
    any_color: bool,
    choices: Seq<usize>,
) -> Seq<u16>
    decreases choices.len(),
{
    let places = useful(u, entries, ctx, any_color, entries.len());
    if choices.len() == 0 || places.len() == 0 {
        colors_at(entries, places)
    } else {
        let k = if choices[0] < places.len() {
            choices[0] as int
        } else {
            places.len() - 1
        };
        let at = places[k];
        pool_options(
            after_mana(u, spent_as(entries[at].color, any_color)),
            entries.remove(at),
            ctx,
            any_color,
            choices.skip(1),
        )
    }
}

/// Whether a payment is for a spell that counts the colors spent on it.
pub open spec fn counts_colors(game: GameState, spell: Option<CardId>) -> bool {
    spell matches Some(id) && (game.card_at(id) matches Some(c) && c.has_converge)
}

/// Says whether a payment is for a spell that counts the colors spent on it. Whoever chooses mana of
/// a pool is told so.
pub fn check_counts_colors(game: &GameState, spell: Option<CardId>) -> (r: bool)
    ensures
        r == counts_colors(*game, spell),
{
    match spell {
        Some(id) => match game.card(id) {
            Some(c) => c.has_converge,
            None => false,
        },
        None => false,
    }
}

/// Whether something asks to choose among mana.
pub open spec fn asks_for_mana(
    q: Option<ManaPayCallback>,
    options: Seq<u16>,
    converge: bool,
) -> bool {
    match q {
        Some(ManaPayCallback::ChooseManaFromPool { mana_choices, has_converge }) => options.len()
            > 0 && mana_choices@ == options && has_converge == converge,
        Some(_) => false,
        None => options.len() == 0,
    }
}

/// Asks which mana of a pool is spent next on a cost, once choices were made.
pub fn pool_question(
    unpaid: &ManaCostBeingPaid,
    pool: &ManaPool,
    ctx: Option<&ManaPaymentContext>,
    any_color: bool,
    has_converge: bool,
    choices: &Vec<usize>,
) -> (r: Option<ManaPayCallback>)
    ensures
        asks_for_mana(
            r,
            pool_options(unpaid@, pool@, context_of(ctx), any_color, choices@),
            has_converge,
        ),
{
    let mut open = unpaid.copy();
    let mut left = pool.copy();
    let ghost all = choices@;
    let ghost goal = pool_options(unpaid@, pool@, context_of(ctx), any_color, choices@);
    let mut step: usize = 0;
    assert(all.skip(0) =~= all);
    loop
        invariant
            step <= all.len(),
            all == choices@,
            goal == pool_options(
                open@,
                left@,
                context_of(ctx),
                any_color,
                all.skip(step as int),
            ),
            goal == pool_options(unpaid@, pool@, context_of(ctx), any_color, choices@),
        decreases all.len() - step,
    {
        let places = left.list_useful(&open, ctx, any_color);
        let ghost found = useful(open@, left@, context_of(ctx), any_color, left@.len());
        if places.len() == 0 {
            return None;
        }
        if step >= choices.len() {
            let mut colors: Vec<u16> = Vec::new();
            let mut i: usize = 0;
            while i < places.len()
                invariant
                    i <= places@.len(),
                    places@.len() == found.len(),
                    left@.len() == left.entries@.len(),
                    forall|k: int|
                        0 <= k < places@.len() ==> #[trigger] places@[k] == found[k] && places@[k]
                            < left@.len(),
                    colors@ == colors_at(left@, found).take(i as int),
                decreases places@.len() - i,
            {
                let at: usize = places[i];
                assert(left@[at as int] == left.entries@[at as int]@);
                colors.push(left.entries[at].color);
                assert(colors@ =~= colors_at(left@, found).take(i + 1));
                i = i + 1;
            }
            assert(colors@ =~= colors_at(left@, found));
            return Some(
                ManaPayCallback::ChooseManaFromPool { mana_choices: colors, has_converge },
            );
        }
        let k: usize = if choices[step] < places.len() {
            choices[step]
        } else {
            places.len() - 1
        };
        let at: usize = places[k];
        assert(left@[at as int] == left.entries@[at as int]@);
        let color: u16 = left.entries[at].color;
        assert(all.skip(step as int).skip(1) =~= all.skip(step + 1));
        open.try_pay_mana(crate::mana::pool::find_spent_as(color, any_color));
        left.take(at);
        step = step + 1;
    }
}

/// Asks which mana is spent next when a way to pay is used and mana is spent as it is made; the
/// choices in the answer are those made before.
pub fn pool_question_in_use(
    payment: &Payment,
    scene: PayScene<'_>,
    mode: &PayMode<'_>,
    m: &ManaAbilityRef,
    shard: ManaCostShard,
    atom: u16,
    answer: &TapAnswer,
) -> (r: Option<ManaPayCallback>)
    ensures
        ({
            let (u, entries, _) = made_in_use(
                scene@,
                mode@,
                payment@,
                m@,
                shard,
                atom,
                answer@,
            );
            asks_for_mana(
                r,
                pool_options(u, entries, mode@.ctx, mode@.any_color, answer@.pool_choices),
                counts_colors(*scene.game, scene.spell),
            )
        }),
{
    let mut st = payment.st.copy();
    let mut pool = payment.pool.copy();
    let mut unpaid = payment.unpaid.copy();
    let mut spent = ManaPool::new();
    let from: usize = payment.pool.entries.len();
    assert(payment.pool@.len() == from);
    let replaced = match &answer.replaced {
        Some(t) => Some(t.as_str()),
        None => None,
    };
    let text = produce_mana_for_auto_pay(
        scene.game,
        &mut st,
        &mut pool,
        scene.player,
        m,
        atom,
        replaced,
    );
    pool.pay_mana_from_ability(&mut unpaid, from, mode.any_color, &mut spent);
    add_taps_for_mana_trigger_mana(
        scene.game,
        &mut pool,
        scene.player,
        m,
        text.as_str(),
        true,
        shard,
        &answer.colors,
    );
    let converge = check_counts_colors(scene.game, scene.spell);
    pool_question(&unpaid, &pool, mode.ctx, mode.any_color, converge, &answer.pool_choices)
}

} // verus!
