//! Which source a probe takes for a symbol, and the mana that it would make.

use vstd::prelude::*;
use crate::game::{Card, GameState};
use crate::mana::ability::{ability_used, mana_ability_of, ref_views, ManaAbilityRef, RefView};
use crate::mana::atoms::{
    has_atom, has_bits, pool_can_pay_for_shard_with_color, pool_pays, repeat_atoms, repeated,
    ManaCostShard, COLORLESS, COLORS_SUPERPOSITION, SHARD_COLORED_X, SHARD_GENERIC, SHARD_X, WHITE,
};
use crate::mana::candidates::{atom_for, choose_atom_for_shard};
use crate::mana::cost::{
    after_mana, count_left, generic_shard, needs, ManaCostBeingPaid, ShardCount, Unpaid,
};
use crate::mana::cost_parts::{
    can_pay_non_tap_mana_ability_costs, non_tap_payable, PayScene, SceneOfPayment,
};
use crate::mana::paying::{nothing_paid, Paying};
use crate::mana::pool::{repeat_atom, same_atoms};
use crate::mana::rank::{five_colors, list_five_colors};
use crate::mana::shards::{check_same, same_ability};
use crate::mana::sources::{
    base_amount, is_payable_mana_ability, mana_ability_payable, parse_mana_ability_amount,
    ManaPaymentContext,
};
use crate::game::svar_value;
use crate::parsing::params::string_of;
use crate::sorting::{law_runs, lemma_runs_hold, run_sorted, signs, sort_runs, Comparison};
use crate::text::{contains, has_part, has_prefix, pieces, split, starts_with, text_eq};
use crate::types::{CardId, PlayerId, ZoneType};

verus! {

// ---- amounts ----

/// The amount that the ability at the place of its number makes.
pub open spec fn placed_amount(game: GameState, player: PlayerId, m: RefView) -> i32 {
    match game.card_at(m.card_id) {
        Some(c) => match m.ability_index {
            Some(i) if i < c.activated_abilities@.len() => base_amount(
                string_of(c.activated_abilities@[i as int].amount),
                game,
                m.card_id,
                player,
            ),
            _ => 1,
        },
        None => 1,
    }
}

pub fn auto_pay_base_amount(game: &GameState, player: PlayerId, m: &ManaAbilityRef) -> (r: i32)
    ensures
        r == placed_amount(*game, player, m@),
{
    match game.card(m.card_id) {
        Some(c) => match m.ability_index {
            Some(i) => if i < c.activated_abilities.len() {
                parse_mana_ability_amount(&c.activated_abilities[i].amount, game, m.card_id, player)
            } else {
                1
            },
            None => 1,
        },
        None => 1,
    }
}

/// A number, and at least one.
pub open spec fn at_least_one(n: i32) -> nat {
    if n < 1 {
        1
    } else {
        n as nat
    }
}

fn count_at_least_one(n: i32) -> (r: usize)
    ensures
        r == at_least_one(n),
{
    if n < 1 {
        1
    } else {
        n as usize
    }
}

/// How often a fixed output is made for an amount.
pub open spec fn repeats_for(amount: i32, len: nat) -> nat {
    let size = if len < 1 {
        1
    } else {
        len
    };
    let n = at_least_one(amount) / size;
    if n < 1 {
        1
    } else {
        n
    }
}

pub fn find_repeats(amount: i32, len: usize) -> (r: usize)
    ensures
        r == repeats_for(amount, len as nat),
{
    let size: usize = if len < 1 {
        1
    } else {
        len
    };
    let n: usize = count_at_least_one(amount) / size;
    if n < 1 {
        1
    } else {
        n
    }
}

// ---- colors ----

/// How many cards of a list have a color.
pub open spec fn color_cards(game: GameState, ids: Seq<CardId>, color: u16) -> nat
    decreases ids.len(),
{
    if ids.len() == 0 {
        0
    } else {
        color_cards(game, ids.drop_last(), color) + (if is_of_color(game, ids.last(), color) {
            1nat
        } else {
            0
        })
    }
}

pub open spec fn is_of_color(game: GameState, id: CardId, color: u16) -> bool {
    game.card_at(id) matches Some(c) && has_bits(c.color as u16, color)
}

fn count_color_cards(game: &GameState, ids: &Vec<CardId>, color: u16) -> (r: usize)
    ensures
        r == color_cards(*game, ids@, color),
{
    let ghost all = ids@;
    let mut n: usize = 0;
    let mut i: usize = 0;
    while i < ids.len()
        invariant
            i <= all.len(),
            all == ids@,
            n <= i,
            n == color_cards(*game, all.take(i as int), color),
        decreases all.len() - i,
    {
        assert(all.take(i + 1).drop_last() =~= all.take(i as int));
        if let Some(c) = game.card(ids[i]) {
            if (c.color as u16) & color != 0 {
                n = n + 1;
            }
        }
        i = i + 1;
    }
    assert(all.take(i as int) =~= all);
    n
}

/// The first of the colors that most cards of a list have.
pub open spec fn prominent_among(game: GameState, ids: Seq<CardId>, colors: Seq<u16>) -> u16
    decreases colors.len(),
{
    if colors.len() == 0 {
        WHITE
    } else {
        let best = prominent_among(game, ids, colors.drop_last());
        if color_cards(game, ids, colors.last()) > color_cards(game, ids, best) {
            colors.last()
        } else {
            best
        }
    }
}

/// The color that most cards in the hand of a player have; white where there is none.
pub open spec fn prominent_color(game: GameState, player: PlayerId) -> u16 {
    prominent_among(game, game.in_zone(ZoneType::Hand, player), five_colors())
}

pub fn most_prominent_color(game: &GameState, player: PlayerId) -> (r: u16)
    ensures
        r == prominent_color(*game, player),
{
    let hand = game.cards_in_zone(ZoneType::Hand, player);
    let colors = list_five_colors();
    let ghost all = colors@;
    let mut best: u16 = WHITE;
    let mut i: usize = 0;
    while i < colors.len()
        invariant
            i <= all.len(),
            all == colors@,
            best == prominent_among(*game, hand@, all.take(i as int)),
        decreases all.len() - i,
    {
        assert(all.take(i + 1).drop_last() =~= all.take(i as int));
        if count_color_cards(game, &hand, colors[i]) > count_color_cards(game, &hand, best) {
            best = colors[i];
        }
        i = i + 1;
    }
    assert(all.take(i as int) =~= all);
    best
}

// ---- combinations ----

/// Whether a color may be chosen: each once, where all have to be different.
pub open spec fn may_choose(different: bool, choices: Seq<u16>, color: u16) -> bool {
    !different || !choices.contains(color)
}

/// Whether mana of a color pays for any symbol that is left.
pub open spec fn pays_any(left: Seq<ShardCount>, color: u16) -> bool {
    exists|i: int| 0 <= i < left.len() && pool_pays((#[trigger] left[i]).shard, color)
}

fn check_pays_any(unpaid: &ManaCostBeingPaid, color: u16) -> (r: bool)
    ensures
        r == pays_any(unpaid@.left, color),
{
    let mut i: usize = 0;
    while i < unpaid.unpaid.len()
        invariant
            i <= unpaid.unpaid@.len(),
            forall|k: int|
                0 <= k < i ==> !pool_pays((#[trigger] unpaid.unpaid@[k]).shard, color),
        decreases unpaid.unpaid@.len() - i,
    {
        if pool_can_pay_for_shard_with_color(unpaid.unpaid[i].shard, color) {
            assert(pool_pays(unpaid@.left[i as int].shard, color));
            return true;
        }
        i = i + 1;
    }
    false
}

/// The first color that is needed.
pub open spec fn first_needed(atoms: Seq<u16>, left: Seq<ShardCount>) -> Option<u16>
    decreases atoms.len(),
{
    if atoms.len() == 0 {
        None
    } else if needs(left, atoms[0]) {
        Some(atoms[0])
    } else {
        first_needed(atoms.skip(1), left)
    }
}

fn find_first_needed(atoms: &Vec<u16>, unpaid: &ManaCostBeingPaid) -> (r: Option<u16>)
    ensures
        r == first_needed(atoms@, unpaid@.left),
{
    let mut i: usize = 0;
    assert(atoms@.skip(0) =~= atoms@);
    while i < atoms.len()
        invariant
            i <= atoms@.len(),
            first_needed(atoms@, unpaid@.left) == first_needed(atoms@.skip(i as int), unpaid@.left),
        decreases atoms@.len() - i,
    {
        assert(atoms@.skip(i as int).skip(1) =~= atoms@.skip(i + 1));
        if unpaid.needs_color(atoms[i]) {
            return Some(atoms[i]);
        }
        i = i + 1;
    }
    None
}

/// The first color that may be chosen.
pub open spec fn first_open(atoms: Seq<u16>, different: bool, choices: Seq<u16>) -> Option<u16>
    decreases atoms.len(),
{
    if atoms.len() == 0 {
        None
    } else if may_choose(different, choices, atoms[0]) {
        Some(atoms[0])
    } else {
        first_open(atoms.skip(1), different, choices)
    }
}

fn find_first_open(atoms: &Vec<u16>, different: bool, choices: &Vec<u16>) -> (r: Option<u16>)
    ensures
        r == first_open(atoms@, different, choices@),
{
    let mut i: usize = 0;
    assert(atoms@.skip(0) =~= atoms@);
    while i < atoms.len()
        invariant
            i <= atoms@.len(),
            first_open(atoms@, different, choices@) == first_open(
                atoms@.skip(i as int),
                different,
                choices@,
            ),
        decreases atoms@.len() - i,
    {
        assert(atoms@.skip(i as int).skip(1) =~= atoms@.skip(i + 1));
        if !different || !has_atom(choices, atoms[i]) {
            return Some(atoms[i]);
        }
        i = i + 1;
    }
    None
}

/// A combination with one more color, and what it leaves of the cost.
pub open spec fn one_more_color(
    atoms: Seq<u16>,
    different: bool,
    common: u16,
    u: Unpaid,
    choices: Seq<u16>,
    express: Option<u16>,
) -> (Unpaid, Seq<u16>) {
    match express {
        Some(c) if atoms.contains(c) && may_choose(different, choices, c) && pays_any(
            u.left,
            c,
        ) => (after_mana(u, c), choices.push(c)),
        _ => match first_needed(atoms, u.left) {
            Some(c) if u.left.len() > 0 && !different => (after_mana(u, c), choices.push(c)),
            _ => if may_choose(different, choices, common) && atoms.contains(common) {
                (u, choices.push(common))
            } else {
                match first_open(atoms, different, choices) {
                    Some(c) => (u, choices.push(c)),
                    None => (u, choices),
                }
            },
        },
    }
}

/// The colors of a combination; the expressed one is tried first.
pub open spec fn combination(
    atoms: Seq<u16>,
    different: bool,
    common: u16,
    u: Unpaid,
    express: Option<u16>,
    n: nat,
) -> (Unpaid, Seq<u16>)
    decreases n,
{
    if n == 0 {
        (u, Seq::empty())
    } else {
        let (left, choices) = combination(atoms, different, common, u, express, (n - 1) as nat);
        one_more_color(
            atoms,
            different,
            common,
            left,
            choices,
            if n == 1 {
                express
            } else {
                None
            },
        )
    }
}

pub open spec fn combo_choice(
    game: GameState,
    player: PlayerId,
    m: RefView,
    u: Unpaid,
    express: Option<u16>,
) -> Seq<u16> {
    combination(
        m.atoms,
        has_part(m.mana_text, "Different"@),
        prominent_color(game, player),
        u,
        express,
        at_least_one(placed_amount(game, player, m)),
    ).1
}

/// Chooses the colors of a combination.
pub fn set_combo_mana_choice(
    game: &GameState,
    player: PlayerId,
    m: &ManaAbilityRef,
    unpaid: &ManaCostBeingPaid,
    express: Option<u16>,
) -> (r: Vec<u16>)
    ensures
        r@ == combo_choice(*game, player, m@, unpaid@, express),
{
    let amount: usize = count_at_least_one(auto_pay_base_amount(game, player, m));
    let different = contains(m.mana_text.as_str(), "Different");
    let common: u16 = most_prominent_color(game, player);
    let mut left = unpaid.copy();
    let mut choices: Vec<u16> = Vec::new();
    assert(choices@ =~= Seq::<u16>::empty());
    let mut n: usize = 0;
    while n < amount
        invariant
            n <= amount,
            (left@, choices@) == combination(
                m@.atoms,
                different,
                common,
                unpaid@,
                express,
                n as nat,
            ),
        decreases amount - n,
    {
        let ghost before = (left@, choices@);
        let mut done = false;
        if n == 0 {
            if let Some(c) = express {
                if has_atom(&m.atoms, c) && (!different || !has_atom(&choices, c))
                    && check_pays_any(&left, c) {
                    left.try_pay_mana(c);
                    choices.push(c);
                    done = true;
                }
            }
        }
        if !done && !left.is_paid() && !different {
            if let Some(c) = find_first_needed(&m.atoms, &left) {
                left.try_pay_mana(c);
                choices.push(c);
                done = true;
            }
        }
        if !done {
            if (!different || !has_atom(&choices, common)) && has_atom(&m.atoms, common) {
                choices.push(common);
            } else if let Some(c) = find_first_open(&m.atoms, different, &choices) {
                choices.push(c);
            }
        }
        n = n + 1;
    }
    choices
}

// ---- the mana of a source ----

/// Whether mana of an atom may pay a symbol that is a colored unknown.
pub open spec fn colored_x_allows(u: Unpaid, shard: ManaCostShard, atom: u16) -> bool {
    shard.mask == SHARD_COLORED_X ==> has_bits(u.colored_x, atom & COLORS_SUPERPOSITION)
}

fn check_colored_x(unpaid: &ManaCostBeingPaid, shard: ManaCostShard, atom: u16) -> (r: bool)
    ensures
        r == colored_x_allows(unpaid@, shard, atom),
{
    shard.mask != SHARD_COLORED_X || unpaid.colored_x & (atom & COLORS_SUPERPOSITION) != 0
}

/// Whether an atom may go to a symbol.
pub open spec fn may_go_to(u: Unpaid, shard: ManaCostShard, atom: u16) -> bool {
    colored_x_allows(u, shard, atom) && pool_pays(shard, atom)
}

pub open spec fn some_may_go_to(u: Unpaid, shard: ManaCostShard, atoms: Seq<u16>) -> bool {
    exists|i: int| 0 <= i < atoms.len() && may_go_to(u, shard, #[trigger] atoms[i])
}

pub open spec fn some_colored_x(u: Unpaid, shard: ManaCostShard, atoms: Seq<u16>) -> bool {
    exists|i: int| 0 <= i < atoms.len() && colored_x_allows(u, shard, #[trigger] atoms[i])
}

fn check_some(
    unpaid: &ManaCostBeingPaid,
    shard: ManaCostShard,
    atoms: &Vec<u16>,
) -> (r: (bool, bool))
    ensures
        r.0 == some_may_go_to(unpaid@, shard, atoms@),
        r.1 == some_colored_x(unpaid@, shard, atoms@),
{
    let mut goes = false;
    let mut allowed = false;
    let mut i: usize = 0;
    while i < atoms.len()
        invariant
            i <= atoms@.len(),
            goes ==> some_may_go_to(unpaid@, shard, atoms@),
            allowed ==> some_colored_x(unpaid@, shard, atoms@),
            !goes ==> forall|k: int| 0 <= k < i ==> !may_go_to(unpaid@, shard, #[trigger] atoms@[k]),
            !allowed ==> forall|k: int|
                0 <= k < i ==> !colored_x_allows(unpaid@, shard, #[trigger] atoms@[k]),
        decreases atoms@.len() - i,
    {
        if check_colored_x(unpaid, shard, atoms[i]) {
            assert(colored_x_allows(unpaid@, shard, atoms@[i as int]));
            allowed = true;
            if pool_can_pay_for_shard_with_color(shard, atoms[i]) {
                assert(may_go_to(unpaid@, shard, atoms@[i as int]));
                goes = true;
            }
        }
        i = i + 1;
    }
    (goes, allowed)
}

/// The first color of a symbol among atoms.
pub open spec fn first_shared(colors: Seq<u16>, shard: ManaCostShard, atoms: Seq<u16>) -> Option<u16>
    decreases colors.len(),
{
    if colors.len() == 0 {
        None
    } else if has_bits(shard.colors(), colors[0]) && atoms.contains(colors[0]) {
        Some(colors[0])
    } else {
        first_shared(colors.skip(1), shard, atoms)
    }
}

fn find_first_shared(colors: &Vec<u16>, shard: ManaCostShard, atoms: &Vec<u16>) -> (r: Option<u16>)
    ensures
        r == first_shared(colors@, shard, atoms@),
{
    let mask: u16 = shard.color_mask();
    let mut i: usize = 0;
    assert(colors@.skip(0) =~= colors@);
    while i < colors.len()
        invariant
            i <= colors@.len(),
            mask == shard.colors(),
            first_shared(colors@, shard, atoms@) == first_shared(
                colors@.skip(i as int),
                shard,
                atoms@,
            ),
        decreases colors@.len() - i,
    {
        assert(colors@.skip(i as int).skip(1) =~= colors@.skip(i + 1));
        if mask & colors[i] != 0 && has_atom(atoms, colors[i]) {
            return Some(colors[i]);
        }
        i = i + 1;
    }
    None
}

/// The first color of a list that goes to a symbol and that a source makes.
pub open spec fn first_reflecting(
    colors: Seq<u16>,
    u: Unpaid,
    shard: ManaCostShard,
    atoms: Seq<u16>,
) -> Option<u16>
    decreases colors.len(),
{
    if colors.len() == 0 {
        None
    } else if may_go_to(u, shard, colors[0]) && atoms.contains(colors[0]) {
        Some(colors[0])
    } else {
        first_reflecting(colors.skip(1), u, shard, atoms)
    }
}

fn find_first_reflecting(
    colors: &Vec<u16>,
    unpaid: &ManaCostBeingPaid,
    shard: ManaCostShard,
    atoms: &Vec<u16>,
) -> (r: Option<u16>)
    ensures
        r == first_reflecting(colors@, unpaid@, shard, atoms@),
{
    let mut i: usize = 0;
    assert(colors@.skip(0) =~= colors@);
    while i < colors.len()
        invariant
            i <= colors@.len(),
            first_reflecting(colors@, unpaid@, shard, atoms@) == first_reflecting(
                colors@.skip(i as int),
                unpaid@,
                shard,
                atoms@,
            ),
        decreases colors@.len() - i,
    {
        assert(colors@.skip(i as int).skip(1) =~= colors@.skip(i + 1));
        if check_colored_x(unpaid, shard, colors[i]) && pool_can_pay_for_shard_with_color(
            shard,
            colors[i],
        ) && has_atom(atoms, colors[i]) {
            return Some(colors[i]);
        }
        i = i + 1;
    }
    None
}

/// The first color of a list that pays a symbol, or none of them.
pub open spec fn first_that_pays(colors: Seq<u16>, shard: ManaCostShard) -> u16
    decreases colors.len(),
{
    if colors.len() == 0 {
        0
    } else if pool_pays(shard, colors[0]) {
        colors[0]
    } else {
        first_that_pays(colors.skip(1), shard)
    }
}

fn find_first_that_pays(colors: &Vec<u16>, shard: ManaCostShard) -> (r: u16)
    ensures
        r == first_that_pays(colors@, shard),
{
    let mut i: usize = 0;
    assert(colors@.skip(0) =~= colors@);
    while i < colors.len()
        invariant
            i <= colors@.len(),
            first_that_pays(colors@, shard) == first_that_pays(colors@.skip(i as int), shard),
        decreases colors@.len() - i,
    {
        assert(colors@.skip(i as int).skip(1) =~= colors@.skip(i + 1));
        if pool_can_pay_for_shard_with_color(shard, colors[i]) {
            return colors[i];
        }
        i = i + 1;
    }
    0
}

pub open spec fn is_snow_card(game: GameState, id: CardId) -> bool {
    game.card_at(id) matches Some(c) && c.types.snow
}

fn check_snow_card(game: &GameState, id: CardId) -> (r: bool)
    ensures
        r == is_snow_card(*game, id),
{
    match game.card(id) {
        Some(c) => c.types.snow,
        None => false,
    }
}

/// The mana that a source would make for a symbol, where it can pay it.
pub open spec fn shard_mana(
    game: GameState,
    player: PlayerId,
    shard: ManaCostShard,
    m: RefView,
    u: Unpaid,
    ctx: ManaPaymentContext,
) -> Option<Seq<u16>> {
    let ability = ability_used(game, m.card_id, m.ability_index);
    let amount = at_least_one(placed_amount(game, player, m));
    if shard.snow() && !is_snow_card(game, m.card_id) {
        None
    } else if ability matches Some(ab) && !mana_ability_payable(
        game,
        nothing_paid(),
        player,
        m.card_id,
        ab,
        Seq::empty(),
        Some(ctx),
    ) {
        None
    } else if m.combo {
        if some_may_go_to(u, shard, m.atoms) {
            Some(combo_choice(game, player, m, u, first_shared(five_colors(), shard, m.atoms)))
        } else {
            None
        }
    } else if ability matches Some(ab) && ab.is_mana_reflected {
        match first_reflecting(five_colors().push(COLORLESS), u, shard, m.atoms) {
            Some(c) => Some(same_atoms(c, amount)),
            None => None,
        }
    } else if shard.mask == SHARD_COLORED_X && !some_colored_x(u, shard, m.atoms) {
        None
    } else if m.any_like {
        let color = if shard.or_2_generic() {
            shard.colors()
        } else {
            first_that_pays(five_colors(), shard)
        };
        Some(same_atoms(color, amount))
    } else {
        match m.fixed_output() {
            Some(fixed) => Some(repeated(fixed, repeats_for(m.amount, fixed.len()))),
            None => match atom_for(m, shard) {
                Some(atom) => Some(same_atoms(atom, amount)),
                None => None,
            },
        }
    }
}

pub open spec fn list_view(v: Option<Vec<u16>>) -> Option<Seq<u16>> {
    match v {
        Some(list) => Some(list@),
        None => None,
    }
}

pub fn can_pay_shard_with_spell_ability(
    game: &GameState,
    player: PlayerId,
    shard: ManaCostShard,
    m: &ManaAbilityRef,
    unpaid: &ManaCostBeingPaid,
    ctx: &ManaPaymentContext,
) -> (r: Option<Vec<u16>>)
    ensures
        list_view(r) == shard_mana(*game, player, shard, m@, unpaid@, *ctx),
{
    if shard.is_snow() && !check_snow_card(game, m.card_id) {
        return None;
    }
    let ability = mana_ability_of(game, m.card_id, m.ability_index);
    let mut reflected = false;
    if let Some(ab) = ability {
        let st = Paying::new();
        let none: Vec<CardId> = Vec::new();
        assert(none@ =~= Seq::<CardId>::empty());
        if !is_payable_mana_ability(game, &st, player, m.card_id, ab, &none, Some(ctx)) {
            return None;
        }
        reflected = ab.is_mana_reflected;
    }
    let amount: usize = count_at_least_one(auto_pay_base_amount(game, player, m));
    let (goes, allowed) = check_some(unpaid, shard, &m.atoms);
    let colors = list_five_colors();
    if m.combo {
        if goes {
            let shared = find_first_shared(&colors, shard, &m.atoms);
            return Some(set_combo_mana_choice(game, player, m, unpaid, shared));
        }
        return None;
    }
    if reflected {
        let mut six = colors;
        six.push(COLORLESS);
        return match find_first_reflecting(&six, unpaid, shard, &m.atoms) {
            Some(c) => Some(repeat_atom(c, amount)),
            None => None,
        };
    }
    if shard.mask == SHARD_COLORED_X && !allowed {
        return None;
    }
    if m.any_like {
        let color: u16 = if shard.is_or_2_generic() {
            shard.color_mask()
        } else {
            find_first_that_pays(&colors, shard)
        };
        return Some(repeat_atom(color, amount));
    }
    match m.find_fixed_output() {
        Some(fixed) => Some(repeat_atoms(fixed, find_repeats(m.amount, fixed.len()))),
        None => match choose_atom_for_shard(m, shard) {
            Some(atom) => Some(repeat_atom(atom, amount)),
            None => None,
        },
    }
}

// ---- preferences of a spell ----

/// What a spell says about the sources of its mana.
pub open spec fn wanted_source_kind(c: Card) -> Option<Seq<char>> {
    match svar_value(c.svars@, "AIPreference"@) {
        Some(text) => if has_prefix(text, "ManaFrom"@) && pieces(text, "$"@).len() > 1 {
            Some(pieces(text, "$"@)[1])
        } else {
            None
        },
        None => None,
    }
}

pub open spec fn text_view(v: Option<&str>) -> Option<Seq<char>> {
    match v {
        Some(t) => Some(t@),
        None => None,
    }
}

fn find_wanted_kind<'a>(c: &'a Card) -> (r: Option<&'a str>)
    ensures
        text_view(r) == wanted_source_kind(*c),
{
    match c.get_s_var("AIPreference") {
        Some(text) => {
            proof {
                reveal_strlit("$");
            }
            let parts = split(text, "$");
            if starts_with(text, "ManaFrom") && parts.len() > 1 {
                assert(crate::text::views(parts@)[1] == parts@[1]@);
                Some(parts[1])
            } else {
                None
            }
        },
        None => None,
    }
}

/// The sort of a source that a preference asks for.
#[derive(Debug, Clone, Copy, PartialEq, Eq, Structural)]
pub enum WantedSource {
    Snow,
    Treasure,
}

pub open spec fn is_wanted_source(game: GameState, refs: Seq<RefView>, i: usize, w: WantedSource) -> bool {
    i < refs.len() && match game.card_at(refs[i as int].card_id) {
        Some(c) => match w {
            WantedSource::Snow => c.types.snow,
            WantedSource::Treasure => c.types.is_subtype("Treasure"@),
        },
        None => false,
    }
}

fn check_wanted_source(
    game: &GameState,
    refs: &Vec<ManaAbilityRef>,
    i: usize,
    w: WantedSource,
) -> (r: bool)
    ensures
        r == is_wanted_source(*game, ref_views(refs@), i, w),
{
    if i >= refs.len() {
        return false;
    }
    assert(ref_views(refs@)[i as int] == refs@[i as int]@);
    match game.card(refs[i].card_id) {
        Some(c) => match w {
            WantedSource::Snow => c.types.snow,
            WantedSource::Treasure => c.types.has_subtype("Treasure"),
        },
        None => false,
    }
}

/// A wanted source comes before another one.
pub struct WantedFirst<'a> {
    pub game: &'a GameState,
    pub refs: &'a Vec<ManaAbilityRef>,
    pub wanted: WantedSource,
}

impl<'a> Comparison<usize> for WantedFirst<'a> {
    open spec fn sign(&self, a: usize, b: usize) -> int {
        wanted_sign(*self.game, ref_views(self.refs@), self.wanted, a, b)
    }

    fn sign_of(&self, a: usize, b: usize) -> (r: i32) {
        if check_wanted_source(self.game, self.refs, a, self.wanted) && !check_wanted_source(
            self.game,
            self.refs,
            b,
            self.wanted,
        ) {
            -1
        } else {
            1
        }
    }
}

pub open spec fn wanted_sign(
    game: GameState,
    refs: Seq<RefView>,
    w: WantedSource,
    a: usize,
    b: usize,
) -> int {
    if is_wanted_source(game, refs, a, w) && !is_wanted_source(game, refs, b, w) {
        -1
    } else {
        1
    }
}

pub open spec fn wanted_signs(game: GameState, refs: Seq<RefView>, w: WantedSource) -> spec_fn(
    usize,
    usize,
) -> int {
    |a: usize, b: usize| wanted_sign(game, refs, w, a, b)
}

/// Sources with the wanted ones in front.
pub open spec fn wanted_in_front(
    game: GameState,
    refs: Seq<RefView>,
    list: Seq<usize>,
    w: WantedSource,
) -> Seq<usize> {
    run_sorted(list, wanted_signs(game, refs, w))
}

fn put_wanted_in_front(
    game: &GameState,
    refs: &Vec<ManaAbilityRef>,
    list: &Vec<usize>,
    wanted: WantedSource,
) -> (r: Vec<usize>)
    ensures
        r@ == wanted_in_front(*game, ref_views(refs@), list@, wanted),
{
    let order = WantedFirst { game, refs, wanted };
    assert(signs::<usize, WantedFirst<'_>>(order) =~= wanted_signs(
        *game,
        ref_views(refs@),
        wanted,
    ));
    sort_runs(list, &order)
}

pub(crate) fn same_index(a: Option<usize>, b: Option<usize>) -> (r: bool)
    ensures
        r == (a == b),
{
    match (a, b) {
        (Some(x), Some(y)) => x == y,
        (None, None) => true,
        _ => false,
    }
}

/// The first place of the same ability.
pub open spec fn same_place(refs: Seq<RefView>, list: Seq<usize>, first: usize) -> Option<int>
    decreases list.len(),
{
    if list.len() == 0 {
        None
    } else if same_ability(refs, list[0], first) {
        Some(0)
    } else {
        match same_place(refs, list.skip(1), first) {
            Some(i) => Some(i + 1),
            None => None,
        }
    }
}

proof fn lemma_same_place(refs: Seq<RefView>, list: Seq<usize>, first: usize)
    ensures
        same_place(refs, list, first) matches Some(i) ==> 0 <= i < list.len(),
    decreases list.len(),
{
    if list.len() > 0 {
        lemma_same_place(refs, list.skip(1), first);
    }
}

/// Sources with one in front, which leaves its old place.
pub open spec fn with_first(refs: Seq<RefView>, list: Seq<usize>, first: usize) -> Seq<usize> {
    match same_place(refs, list, first) {
        Some(i) => seq![first] + list.remove(i),
        None => seq![first] + list,
    }
}

fn put_first(refs: &Vec<ManaAbilityRef>, list: &Vec<usize>, first: usize) -> (r: Vec<usize>)
    ensures
        r@ == with_first(ref_views(refs@), list@, first),
{
    let ghost all = list@;
    let ghost views = ref_views(refs@);
    let mut out: Vec<usize> = Vec::new();
    out.push(first);
    let mut removed = false;
    let mut i: usize = 0;
    let ghost place = same_place(views, all, first);
    assert(all.skip(0) =~= all);
    proof {
        lemma_same_place(views, all, first);
    }
    while i < list.len()
        invariant
            i <= all.len(),
            all == list@,
            views == ref_views(refs@),
            place == same_place(views, all, first),
            place matches Some(p) ==> 0 <= p < all.len(),
            removed ==> (place matches Some(p) && p < i && out@ == seq![first] + all.take(
                i as int,
            ).remove(p)),
            !removed ==> out@ == seq![first] + all.take(i as int),
            !removed ==> place == (match same_place(views, all.skip(i as int), first) {
                Some(k) => Some(k + i),
                None => None,
            }),
        decreases all.len() - i,
    {
        assert(all.skip(i as int).skip(1) =~= all.skip(i + 1));
        assert(all.take(i + 1) =~= all.take(i as int).push(all[i as int]));
        if !removed && check_same(refs, list[i], first) {
            removed = true;
            assert(place == Some(i as int));
            assert(all.take(i + 1).remove(i as int) =~= all.take(i as int));
        } else {
            out.push(list[i]);
            if removed {
                assert(all.take(i + 1).remove(place->0) =~= all.take(i as int).remove(
                    place->0,
                ).push(all[i as int]));
                assert(out@ =~= seq![first] + all.take(i + 1).remove(place->0));
            } else {
                assert(out@ =~= seq![first] + all.take(i + 1));
            }
        }
        i = i + 1;
    }
    assert(all.take(i as int) =~= all);
    assert(all.skip(i as int).len() == 0);
    out
}

/// The sources of cards with another name.
pub open spec fn with_other_names(
    game: GameState,
    refs: Seq<RefView>,
    list: Seq<usize>,
    name: Seq<char>,
) -> Seq<usize>
    decreases list.len(),
{
    if list.len() == 0 {
        Seq::empty()
    } else {
        let before = with_other_names(game, refs, list.drop_last(), name);
        if has_name(game, refs, list.last(), name) {
            before
        } else {
            before.push(list.last())
        }
    }
}

pub open spec fn has_name(game: GameState, refs: Seq<RefView>, i: usize, name: Seq<char>) -> bool {
    i < refs.len() && (game.card_at(refs[i as int].card_id) matches Some(c) && c.card_name@ == name)
}

fn list_other_names(
    game: &GameState,
    refs: &Vec<ManaAbilityRef>,
    list: &Vec<usize>,
    name: &str,
) -> (r: Vec<usize>)
    ensures
        r@ == with_other_names(*game, ref_views(refs@), list@, name@),
{
    let ghost all = list@;
    let mut out: Vec<usize> = Vec::new();
    let mut i: usize = 0;
    while i < list.len()
        invariant
            i <= all.len(),
            all == list@,
            out@ == with_other_names(*game, ref_views(refs@), all.take(i as int), name@),
        decreases all.len() - i,
    {
        assert(all.take(i + 1).drop_last() =~= all.take(i as int));
        let place: usize = list[i];
        let same = if place < refs.len() {
            assert(ref_views(refs@)[place as int] == refs@[place as int]@);
            match game.card(refs[place].card_id) {
                Some(c) => text_eq(c.card_name.as_str(), name),
                None => false,
            }
        } else {
            false
        };
        if !same {
            out.push(place);
        }
        i = i + 1;
    }
    assert(all.take(i as int) =~= all);
    out
}

/// Sources in the order that a spell prefers.
pub open spec fn preferred_order(
    game: GameState,
    spell: Card,
    refs: Seq<RefView>,
    list: Seq<usize>,
) -> Seq<usize> {
    match wanted_source_kind(spell) {
        Some(kind) => if kind == "Snow"@ {
            wanted_in_front(game, refs, list, WantedSource::Snow)
        } else if kind == "Treasure"@ {
            let sorted = wanted_in_front(game, refs, list, WantedSource::Treasure);
            if sorted.len() > 0 && is_wanted_source(game, refs, sorted[0], WantedSource::Treasure) {
                with_first(refs, list, sorted[0])
            } else {
                list
            }
        } else if kind == "TreasureMax"@ {
            wanted_in_front(game, refs, list, WantedSource::Treasure)
        } else if kind == "NotSameCard"@ {
            with_other_names(game, refs, list, spell.card_name@)
        } else {
            list
        },
        None => list,
    }
}

fn copy_places(list: &Vec<usize>) -> (r: Vec<usize>)
    ensures
        r@ == list@,
{
    let mut out: Vec<usize> = Vec::new();
    let mut i: usize = 0;
    while i < list.len()
        invariant
            i <= list@.len(),
            out@ == list@.take(i as int),
        decreases list@.len() - i,
    {
        assert(list@.take(i + 1) =~= list@.take(i as int).push(list@[i as int]));
        out.push(list[i]);
        i = i + 1;
    }
    assert(list@.take(i as int) =~= list@);
    out
}

pub fn order_by_ai_mana_preference(
    game: &GameState,
    spell: &Card,
    refs: &Vec<ManaAbilityRef>,
    list: &Vec<usize>,
) -> (r: Vec<usize>)
    ensures
        r@ == preferred_order(*game, *spell, ref_views(refs@), list@),
{
    match find_wanted_kind(spell) {
        Some(kind) => {
            if text_eq(kind, "Snow") {
                put_wanted_in_front(game, refs, list, WantedSource::Snow)
            } else if text_eq(kind, "Treasure") {
                let sorted = put_wanted_in_front(game, refs, list, WantedSource::Treasure);
                if sorted.len() > 0 && check_wanted_source(
                    game,
                    refs,
                    sorted[0],
                    WantedSource::Treasure,
                ) {
                    put_first(refs, list, sorted[0])
                } else {
                    copy_places(list)
                }
            } else if text_eq(kind, "TreasureMax") {
                put_wanted_in_front(game, refs, list, WantedSource::Treasure)
            } else if text_eq(kind, "NotSameCard") {
                list_other_names(game, refs, list, spell.card_name.as_str())
            } else {
                copy_places(list)
            }
        },
        None => copy_places(list),
    }
}

/// A preference puts nothing into a list that was not there.
pub proof fn law_preference_adds_nothing(
    game: GameState,
    spell: Card,
    refs: Seq<RefView>,
    list: Seq<usize>,
)
    ensures
        forall|i: int|
            0 <= i < preferred_order(game, spell, refs, list).len() ==> list.contains(
                #[trigger] preferred_order(game, spell, refs, list)[i],
            ),
{
    let r = preferred_order(game, spell, refs, list);
    let snow = wanted_signs(game, refs, WantedSource::Snow);
    let treasure = wanted_signs(game, refs, WantedSource::Treasure);
    law_runs(list, snow);
    law_runs(list, treasure);
    lemma_runs_hold(list, snow);
    lemma_runs_hold(list, treasure);
    lemma_other_names(game, refs, list, spell.card_name@);
    let sorted = wanted_in_front(game, refs, list, WantedSource::Treasure);
    assert forall|i: int| 0 <= i < r.len() implies list.contains(#[trigger] r[i]) by {
        if r == list {
            assert(list[i] == r[i]);
        } else if wanted_source_kind(spell) matches Some(kind) && kind != "Snow"@ && kind
            == "Treasure"@ {
            lemma_same_place(refs, list, sorted[0]);
            assert(list.contains(sorted[0]));
            if i > 0 {
                match same_place(refs, list, sorted[0]) {
                    Some(p) => {
                        let k = if i - 1 < p {
                            i - 1
                        } else {
                            i
                        };
                        assert(list[k] == r[i]);
                    },
                    None => {
                        assert(list[i - 1] == r[i]);
                    },
                }
            }
        }
    }
}

proof fn lemma_other_names(game: GameState, refs: Seq<RefView>, list: Seq<usize>, name: Seq<char>)
    ensures
        forall|i: int|
            0 <= i < with_other_names(game, refs, list, name).len() ==> list.contains(
                #[trigger] with_other_names(game, refs, list, name)[i],
            ),
    decreases list.len(),
{
    if list.len() > 0 {
        lemma_other_names(game, refs, list.drop_last(), name);
        let before = with_other_names(game, refs, list.drop_last(), name);
        let r = with_other_names(game, refs, list, name);
        assert forall|i: int| 0 <= i < r.len() implies list.contains(#[trigger] r[i]) by {
            if i < before.len() {
                assert(list.drop_last().contains(before[i]));
                let k = choose|k: int|
                    0 <= k < list.len() - 1 && list.drop_last()[k] == before[i];
                assert(list[k] == r[i]);
            } else {
                assert(list[list.len() - 1] == r[i]);
            }
        }
    }
}

// ---- the source taken ----

/// Whether a source makes spells of its type that cannot be countered, and is ready.
pub open spec fn protects(game: GameState, refs: Seq<RefView>, i: usize) -> bool {
    i < refs.len() && refs[i as int].any_like && (ability_used(
        game,
        refs[i as int].card_id,
        refs[i as int].ability_index,
    ) matches Some(ab) && ab.riders.adds_no_counter) && !(game.card_at(refs[i as int].card_id) matches Some(
        c,
    ) && c.tapped)
}

fn check_protects(game: &GameState, refs: &Vec<ManaAbilityRef>, i: usize) -> (r: bool)
    ensures
        r == protects(*game, ref_views(refs@), i),
{
    if i >= refs.len() {
        return false;
    }
    assert(ref_views(refs@)[i as int] == refs@[i as int]@);
    let m = &refs[i];
    let tapped = match game.card(m.card_id) {
        Some(c) => c.tapped,
        None => false,
    };
    m.any_like && (match mana_ability_of(game, m.card_id, m.ability_index) {
        Some(ab) => ab.riders.adds_no_counter,
        None => false,
    }) && !tapped
}

pub open spec fn first_protecting(game: GameState, refs: Seq<RefView>, list: Seq<usize>) -> Option<usize>
    decreases list.len(),
{
    if list.len() == 0 {
        None
    } else if protects(game, refs, list[0]) {
        Some(list[0])
    } else {
        first_protecting(game, refs, list.skip(1))
    }
}

proof fn lemma_first_protecting(game: GameState, refs: Seq<RefView>, list: Seq<usize>)
    ensures
        first_protecting(game, refs, list) matches Some(i) ==> i < refs.len() && list.contains(i),
    decreases list.len(),
{
    if list.len() > 0 {
        lemma_first_protecting(game, refs, list.skip(1));
        if let Some(i) = first_protecting(game, refs, list) {
            if protects(game, refs, list[0]) {
                assert(list[0] == i);
            } else {
                assert(list.skip(1).contains(i));
                let k = choose|k: int| 0 <= k < list.len() - 1 && list.skip(1)[k] == i;
                assert(list[k + 1] == i);
            }
        }
    }
}

fn find_first_protecting(game: &GameState, refs: &Vec<ManaAbilityRef>, list: &Vec<usize>) -> (r:
    Option<usize>)
    ensures
        r == first_protecting(*game, ref_views(refs@), list@),
{
    let ghost views = ref_views(refs@);
    let mut i: usize = 0;
    assert(list@.skip(0) =~= list@);
    while i < list.len()
        invariant
            i <= list@.len(),
            views == ref_views(refs@),
            first_protecting(*game, views, list@) == first_protecting(
                *game,
                views,
                list@.skip(i as int),
            ),
        decreases list@.len() - i,
    {
        assert(list@.skip(i as int).skip(1) =~= list@.skip(i + 1));
        if check_protects(game, refs, list[i]) {
            return Some(list[i]);
        }
        i = i + 1;
    }
    None
}

/// Whether a source protects spells of a type that the spell has.
pub open spec fn is_cavern_for(game: GameState, id: CardId, spell: Card) -> bool {
    game.card_at(id) matches Some(c) && c.card_name@ == "Cavern of Souls"@ && (string_of(
        c.chosen_type,
    ) matches Some(t) && spell.types.is_subtype(t))
}

fn check_cavern(game: &GameState, id: CardId, spell: &Card) -> (r: bool)
    ensures
        r == is_cavern_for(*game, id, *spell),
{
    match game.card(id) {
        Some(c) => text_eq(c.card_name.as_str(), "Cavern of Souls") && (match &c.chosen_type {
            Some(t) => spell.types.has_subtype(t.as_str()),
            None => false,
        }),
        None => false,
    }
}

pub open spec fn is_generic_or_x(shard: ManaCostShard) -> bool {
    shard.mask == SHARD_GENERIC || shard.mask == SHARD_X
}

/// What a spell is paid for.
pub struct ProbeScene<'a> {
    pub game: &'a GameState,
    pub player: PlayerId,
    pub spell: CardId,
    pub ctx: &'a ManaPaymentContext,
}

pub ghost struct Probe {
    pub game: GameState,
    pub player: PlayerId,
    pub spell: CardId,
    pub ctx: ManaPaymentContext,
}

impl<'a> View for ProbeScene<'a> {
    type V = Probe;

    open spec fn view(&self) -> Probe {
        Probe { game: *self.game, player: self.player, spell: self.spell, ctx: *self.ctx }
    }
}

pub open spec fn scene_of_probe(p: Probe) -> SceneOfPayment {
    SceneOfPayment {
        game: p.game,
        player: p.player,
        spell: Some(p.spell),
        reuse: false,
        reserved: Seq::empty(),
    }
}

/// The place that is tried in place of another, where it is tried at all.
pub open spec fn place_tried(
    p: Probe,
    spell: Card,
    u: Unpaid,
    shard: ManaCostShard,
    refs: Seq<RefView>,
    all: Seq<usize>,
    i: usize,
) -> Option<usize> {
    if i >= refs.len() || refs[i as int].card_id == p.spell || refs[i as int].amount <= 0 {
        None
    } else if !is_cavern_for(p.game, refs[i as int].card_id, spell) {
        Some(i)
    } else if shard.mask == COLORLESS && count_left(u.left, generic_shard()) > 0 {
        None
    } else if is_generic_or_x(shard) {
        match first_protecting(p.game, refs, all) {
            Some(k) => Some(k),
            None => Some(i),
        }
    } else {
        Some(i)
    }
}

/// The mana of a place that can be used.
pub open spec fn usable_mana(
    p: Probe,
    u: Unpaid,
    shard: ManaCostShard,
    refs: Seq<RefView>,
    k: usize,
) -> Option<Seq<u16>> {
    let m = refs[k as int];
    if non_tap_payable(scene_of_probe(p), nothing_paid(), m.card_id, m.ability_index) {
        shard_mana(p.game, p.player, shard, m, u, p.ctx)
    } else {
        None
    }
}

/// The first source of a list that can pay a symbol, with its mana.
pub open spec fn first_source(
    p: Probe,
    spell: Card,
    u: Unpaid,
    shard: ManaCostShard,
    refs: Seq<RefView>,
    all: Seq<usize>,
    rest: Seq<usize>,
) -> Option<(usize, Seq<u16>)>
    decreases rest.len(),
{
    if rest.len() == 0 {
        None
    } else {
        let next = first_source(p, spell, u, shard, refs, all, rest.skip(1));
        match place_tried(p, spell, u, shard, refs, all, rest[0]) {
            Some(k) => match usable_mana(p, u, shard, refs, k) {
                Some(mana) => Some((k, mana)),
                None => next,
            },
            None => next,
        }
    }
}

/// The source that a probe takes for a symbol.
pub open spec fn source_taken(
    p: Probe,
    u: Unpaid,
    shard: ManaCostShard,
    refs: Seq<RefView>,
    list: Seq<usize>,
) -> Option<(usize, Seq<u16>)> {
    match p.game.card_at(p.spell) {
        Some(spell) => {
            let ordered = preferred_order(p.game, spell, refs, list);
            first_source(p, spell, u, shard, refs, ordered, ordered)
        },
        None => None,
    }
}

pub open spec fn taken_view(v: Option<(usize, Vec<u16>)>) -> Option<(usize, Seq<u16>)> {
    match v {
        Some((i, mana)) => Some((i, mana@)),
        None => None,
    }
}

fn find_place_tried(
    p: &ProbeScene<'_>,
    spell: &Card,
    unpaid: &ManaCostBeingPaid,
    shard: ManaCostShard,
    refs: &Vec<ManaAbilityRef>,
    all: &Vec<usize>,
    i: usize,
) -> (r: Option<usize>)
    ensures
        r == place_tried(p@, *spell, unpaid@, shard, ref_views(refs@), all@, i),
        r matches Some(k) ==> k < refs@.len(),
{
    proof {
        lemma_first_protecting(*p.game, ref_views(refs@), all@);
    }
    if i >= refs.len() {
        return None;
    }
    assert(ref_views(refs@)[i as int] == refs@[i as int]@);
    if refs[i].card_id == p.spell || refs[i].amount <= 0 {
        return None;
    }
    if !check_cavern(p.game, refs[i].card_id, spell) {
        return Some(i);
    }
    if shard.mask == COLORLESS && unpaid.get_generic_mana_amount() > 0 {
        return None;
    }
    if shard.mask == SHARD_GENERIC || shard.mask == SHARD_X {
        match find_first_protecting(p.game, refs, all) {
            Some(k) => Some(k),
            None => Some(i),
        }
    } else {
        Some(i)
    }
}

/// Chooses the source for a symbol, with the mana that it would make.
pub fn choose_mana_ability_to_pay(
    p: &ProbeScene<'_>,
    unpaid: &ManaCostBeingPaid,
    shard: ManaCostShard,
    refs: &Vec<ManaAbilityRef>,
    list: &Vec<usize>,
) -> (r: Option<(usize, Vec<u16>)>)
    ensures
        taken_view(r) == source_taken(p@, unpaid@, shard, ref_views(refs@), list@),
        r matches Some((k, _)) ==> k < refs@.len(),
{
    let spell = match p.game.card(p.spell) {
        Some(c) => c,
        None => {
            return None;
        },
    };
    let ordered = order_by_ai_mana_preference(p.game, spell, refs, list);
    let none: Vec<CardId> = Vec::new();
    assert(none@ =~= Seq::<CardId>::empty());
    let scene = PayScene {
        game: p.game,
        player: p.player,
        spell: Some(p.spell),
        reuse: false,
        reserved: &none,
    };
    assert(scene@ == scene_of_probe(p@));
    let st = Paying::new();
    let ghost all = ordered@;
    let ghost views = ref_views(refs@);
    assert(all.skip(0) =~= all);
    let mut i: usize = 0;
    while i < ordered.len()
        invariant
            i <= all.len(),
            all == ordered@,
            views == ref_views(refs@),
            st@ == nothing_paid(),
            scene@ == scene_of_probe(p@),
            p@.game.card_at(p@.spell) == Some(*spell),
            all == preferred_order(p@.game, *spell, views, list@),
            first_source(p@, *spell, unpaid@, shard, views, all, all) == first_source(
                p@,
                *spell,
                unpaid@,
                shard,
                views,
                all,
                all.skip(i as int),
            ),
        decreases all.len() - i,
    {
        assert(all.skip(i as int).skip(1) =~= all.skip(i + 1));
        if let Some(k) = find_place_tried(p, spell, unpaid, shard, refs, &ordered, ordered[i]) {
            assert(views[k as int] == refs@[k as int]@);
            if can_pay_non_tap_mana_ability_costs(
                scene,
                &st,
                refs[k].card_id,
                refs[k].ability_index,
            ) {
                if let Some(mana) = can_pay_shard_with_spell_ability(
                    p.game,
                    p.player,
                    shard,
                    &refs[k],
                    unpaid,
                    p.ctx,
                ) {
                    return Some((k, mana));
                }
            }
        }
        i = i + 1;
    }
    None
}

proof fn lemma_first_source(
    p: Probe,
    spell: Card,
    u: Unpaid,
    shard: ManaCostShard,
    refs: Seq<RefView>,
    all: Seq<usize>,
    rest: Seq<usize>,
)
    requires
        forall|i: int| 0 <= i < rest.len() ==> all.contains(#[trigger] rest[i]),
    ensures
        first_source(p, spell, u, shard, refs, all, rest) matches Some((k, _)) ==> k < refs.len()
            && all.contains(k),
    decreases rest.len(),
{
    if rest.len() > 0 {
        lemma_first_protecting(p.game, refs, all);
        assert(all.contains(rest[0]));
        let next = rest.skip(1);
        assert forall|i: int| 0 <= i < next.len() implies all.contains(#[trigger] next[i]) by {
            assert(all.contains(rest[i + 1]));
        }
        lemma_first_source(p, spell, u, shard, refs, all, next);
    }
}

/// The source that is taken is one of the list.
pub proof fn law_source_is_listed(
    p: Probe,
    u: Unpaid,
    shard: ManaCostShard,
    refs: Seq<RefView>,
    list: Seq<usize>,
)
    ensures
        source_taken(p, u, shard, refs, list) matches Some((k, _)) ==> k < refs.len()
            && list.contains(k),
{
    if let Some(spell) = p.game.card_at(p.spell) {
        let ordered = preferred_order(p.game, spell, refs, list);
        law_preference_adds_nothing(p.game, spell, refs, list);
        assert forall|i: int| 0 <= i < ordered.len() implies ordered.contains(
            #[trigger] ordered[i],
        ) by {}
        lemma_first_source(p, spell, u, shard, refs, ordered, ordered);
    }
}

} // verus!
