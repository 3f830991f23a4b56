//! Mana pools: mana that was made and not spent yet.

use vstd::prelude::*;
use crate::lists::{has_text, texts_have};
use crate::mana::atoms::{
    append_atoms, BLACK, BLUE, COLORLESS, COLORS_SUPERPOSITION, GREEN, RED, WHITE,
};
use crate::mana::cost::{after_atoms, after_mana, paid_shard, ManaCostBeingPaid, Unpaid};
use crate::mana::riders::{ManaRiders, RidersView};
use crate::mana::sources::{context_of, ManaPaymentContext};
use crate::parsing::params::string_of;
use crate::text::{int_value, parse_i32, pieces, split, text_eq, views};
use crate::types::CardId;

verus! {

/// Mana in a pool: its color, what it may be spent on, where it came from, and what it carries.
pub struct Mana {
    pub color: u16,
    pub restriction: Option<String>,
    pub source: CardId,
    pub is_snow: bool,
    pub riders: ManaRiders,
}

#[verifier::ext_equal]
pub struct ManaView {
    pub color: u16,
    pub restriction: Option<Seq<char>>,
    pub source: CardId,
    pub is_snow: bool,
    pub riders: RidersView,
}

impl View for Mana {
    type V = ManaView;

    open spec fn view(&self) -> ManaView {
        ManaView {
            color: self.color,
            restriction: string_of(self.restriction),
            source: self.source,
            is_snow: self.is_snow,
            riders: self.riders@,
        }
    }
}

pub open spec fn mana_views(v: Seq<Mana>) -> Seq<ManaView> {
    Seq::new(v.len(), |i: int| v[i]@)
}

pub struct ManaPool {
    pub entries: Vec<Mana>,
}

impl View for ManaPool {
    type V = Seq<ManaView>;

    open spec fn view(&self) -> Seq<ManaView> {
        mana_views(self.entries@)
    }
}

/// What a payment spent: mana, and life.
pub struct ManaPaymentOutcome {
    pub spent: Vec<Mana>,
    pub life_paid: i32,
}

/// How much mana of a color there is.
pub open spec fn color_count(entries: Seq<ManaView>, color: u16) -> nat
    decreases entries.len(),
{
    if entries.len() == 0 {
        0
    } else {
        color_count(entries.drop_last(), color) + if entries.last().color == color {
            1nat
        } else {
            0
        }
    }
}

pub open spec fn same_atoms(color: u16, n: nat) -> Seq<u16> {
    Seq::new(n, |i: int| color)
}

/// The mana of a pool, color by color.
pub open spec fn by_color(entries: Seq<ManaView>) -> Seq<u16> {
    same_atoms(WHITE, color_count(entries, WHITE)) + same_atoms(BLUE, color_count(entries, BLUE))
        + same_atoms(BLACK, color_count(entries, BLACK)) + same_atoms(
        RED,
        color_count(entries, RED),
    ) + same_atoms(GREEN, color_count(entries, GREEN)) + same_atoms(
        COLORLESS,
        color_count(entries, COLORLESS),
    )
}

/// Whether mana may be spent on something.
pub open spec fn may_spend(m: ManaView, ctx: Option<ManaPaymentContext>) -> bool {
    match (m.restriction, ctx) {
        (Some(t), Some(c)) => texts_have(c.restrictions_met@, t),
        _ => true,
    }
}

/// The mana of a pool that may be spent on something.
pub open spec fn spendable(entries: Seq<ManaView>, ctx: Option<ManaPaymentContext>) -> Seq<ManaView>
    decreases entries.len(),
{
    if entries.len() == 0 {
        Seq::empty()
    } else {
        let before = spendable(entries.drop_last(), ctx);
        if may_spend(entries.last(), ctx) {
            before.push(entries.last())
        } else {
            before
        }
    }
}

pub fn check_spend(m: &Mana, ctx: Option<&ManaPaymentContext>) -> (r: bool)
    ensures
        r == may_spend(m@, context_of(ctx)),
{
    match (&m.restriction, ctx) {
        (Some(t), Some(c)) => has_text(&c.restrictions_met, t.as_str()),
        _ => true,
    }
}

fn copy_mana(m: &Mana) -> (r: Mana)
    ensures
        r@ == m@,
{
    let restriction = match &m.restriction {
        Some(t) => Some(t.as_str().to_string()),
        None => None,
    };
    Mana {
        color: m.color,
        restriction,
        source: m.source,
        is_snow: m.is_snow,
        riders: m.riders.copy(),
    }
}

/// The colors that mana counts as.
pub open spec fn spent_as(color: u16, any_color: bool) -> u16 {
    if any_color {
        color | COLORS_SUPERPOSITION
    } else {
        color
    }
}

pub fn find_spent_as(color: u16, any_color: bool) -> (r: u16)
    ensures
        r == spent_as(color, any_color),
{
    if any_color {
        color | COLORS_SUPERPOSITION
    } else {
        color
    }
}

/// The places of the mana that pays something of what is left. Without a context none that is
/// restricted is used.
pub open spec fn useful(
    u: Unpaid,
    entries: Seq<ManaView>,
    ctx: Option<ManaPaymentContext>,
    any_color: bool,
    n: nat,
) -> Seq<int>
    decreases n,
{
    if n == 0 {
        Seq::empty()
    } else {
        let before = useful(u, entries, ctx, any_color, (n - 1) as nat);
        let m = entries[n - 1];
        if (m.restriction is None || ctx is Some) && may_spend(m, ctx) && paid_shard(
            u,
            spent_as(m.color, any_color),
        ) is Some {
            before.push(n - 1)
        } else {
            before
        }
    }
}

/// The choice at a place; the first where there is none.
pub open spec fn choice_at(choices: Seq<usize>, i: nat) -> usize {
    if i < choices.len() {
        choices[i as int]
    } else {
        0
    }
}

/// What is left of a cost and of a pool, and what was spent, once mana is spent as long as some is
/// of use. `choices` says which of the useful mana goes first, each time.
pub open spec fn spent_from(
    u: Unpaid,
    entries: Seq<ManaView>,
    ctx: Option<ManaPaymentContext>,
    any_color: bool,
    choices: Seq<usize>,
    step: nat,
) -> (Unpaid, Seq<ManaView>, Seq<ManaView>)
    decreases entries.len(),
{
    let places = useful(u, entries, ctx, any_color, entries.len());
    if places.len() == 0 || entries.len() == 0 {
        (u, entries, Seq::empty())
    } else {
        let wanted = choice_at(choices, step);
        let k = if wanted < places.len() {
            wanted as int
        } else {
            places.len() - 1
        };
        let at = places[k];
        if 0 <= at < entries.len() {
            let color = entries[at].color;
            let (v, rest, spent) = spent_from(
                after_mana(u, spent_as(color, any_color)),
                entries.remove(at),
                ctx,
                any_color,
                choices,
                step + 1,
            );
            (v, rest, seq![entries[at]] + spent)
        } else {
            (u, entries, Seq::empty())
        }
    }
}

/// What is left of a cost, of the mana from a place on and what was spent, once that mana is spent
/// in its order where it is of use.
pub open spec fn spent_in_order(
    u: Unpaid,
    entries: Seq<ManaView>,
    from: int,
    any_color: bool,
) -> (Unpaid, Seq<ManaView>, Seq<ManaView>)
    decreases entries.len() - from,
{
    if 0 <= from < entries.len() {
        let m = entries[from];
        let color = spent_as(m.color, any_color);
        if paid_shard(u, color) is Some {
            let (v, rest, spent) = spent_in_order(
                after_mana(u, color),
                entries.remove(from),
                from,
                any_color,
            );
            (v, rest, seq![m] + spent)
        } else {
            spent_in_order(u, entries, from + 1, any_color)
        }
    } else {
        (u, entries, Seq::empty())
    }
}

// ---- mana from text ----

/// The atoms of a word of produced mana.
pub open spec fn word_atoms(word: Seq<char>) -> Seq<u16> {
    if word == "W"@ {
        seq![WHITE]
    } else if word == "U"@ {
        seq![BLUE]
    } else if word == "B"@ {
        seq![BLACK]
    } else if word == "R"@ {
        seq![RED]
    } else if word == "G"@ {
        seq![GREEN]
    } else if word == "C"@ {
        seq![COLORLESS]
    } else {
        match int_value(word) {
            Some(n) if n > 0 => same_atoms(COLORLESS, n as nat),
            _ => Seq::empty(),
        }
    }
}

pub open spec fn words_atoms(words: Seq<Seq<char>>) -> Seq<u16>
    decreases words.len(),
{
    if words.len() == 0 {
        Seq::empty()
    } else {
        words_atoms(words.drop_last()) + word_atoms(words.last())
    }
}

/// The atoms of produced mana.
pub open spec fn text_atoms(text: Seq<char>) -> Seq<u16> {
    words_atoms(pieces(text, " "@))
}

pub fn repeat_atom(color: u16, n: usize) -> (r: Vec<u16>)
    ensures
        r@ == same_atoms(color, n as nat),
{
    let mut out: Vec<u16> = Vec::new();
    let mut i: usize = 0;
    while i < n
        invariant
            i <= n,
            out@.len() == i,
            forall|k: int| 0 <= k < i ==> out@[k] == color,
        decreases n - i,
    {
        out.push(color);
        i = i + 1;
    }
    assert(out@ =~= same_atoms(color, n as nat));
    out
}

fn read_word(word: &str) -> (r: Vec<u16>)
    ensures
        r@ == word_atoms(word@),
{
    let known: Option<u16> = if text_eq(word, "W") {
        Some(WHITE)
    } else if text_eq(word, "U") {
        Some(BLUE)
    } else if text_eq(word, "B") {
        Some(BLACK)
    } else if text_eq(word, "R") {
        Some(RED)
    } else if text_eq(word, "G") {
        Some(GREEN)
    } else if text_eq(word, "C") {
        Some(COLORLESS)
    } else {
        None
    };
    match known {
        Some(c) => {
            let mut out: Vec<u16> = Vec::new();
            out.push(c);
            assert(out@ =~= seq![c]);
            out
        },
        None => match parse_i32(word) {
            Some(n) => if n > 0 {
                repeat_atom(COLORLESS, n as usize)
            } else {
                Vec::new()
            },
            None => Vec::new(),
        },
    }
}

pub fn read_mana(text: &str) -> (r: Vec<u16>)
    ensures
        r@ == text_atoms(text@),
{
    proof {
        reveal_strlit(" ");
    }
    let words = split(text, " ");
    let ghost all = views(words@);
    let mut out: Vec<u16> = Vec::new();
    let mut i: usize = 0;
    while i < words.len()
        invariant
            i <= all.len(),
            all == views(words@),
            out@ == words_atoms(all.take(i as int)),
        decreases all.len() - i,
    {
        assert(all.take(i + 1).drop_last() =~= all.take(i as int));
        assert(all.take(i + 1).last() == words@[i as int]@);
        let more = read_word(words[i]);
        append_atoms(&mut out, &more);
        i = i + 1;
    }
    assert(all.take(i as int) =~= all);
    out
}

/// Where produced mana comes from, what it may be spent on, and what it carries.
pub struct ManaProductionParams {
    pub source_card: CardId,
    pub is_snow: bool,
    pub restriction: Option<String>,
    pub riders: ManaRiders,
}

/// A pool with produced mana at its end.
pub open spec fn with_mana(
    entries: Seq<ManaView>,
    atoms: Seq<u16>,
    p: ManaProductionParams,
) -> Seq<ManaView> {
    entries + Seq::new(
        atoms.len(),
        |i: int|
            ManaView {
                color: atoms[i],
                restriction: string_of(p.restriction),
                source: p.source_card,
                is_snow: p.is_snow,
                riders: p.riders@,
            },
    )
}

impl ManaPool {
    pub fn new() -> (r: ManaPool)
        ensures
            r@ == Seq::<ManaView>::empty(),
    {
        let r = ManaPool { entries: Vec::new() };
        assert(r@ =~= Seq::<ManaView>::empty());
        r
    }

    pub fn total_mana(&self) -> (r: i32)
        ensures
            r == self@.len() as i32,
    {
        self.entries.len() as i32
    }

    pub fn count(&self, color: u16) -> (r: usize)
        ensures
            r == color_count(self@, color),
    {
        let ghost all = self@;
        let mut n: usize = 0;
        let mut i: usize = 0;
        while i < self.entries.len()
            invariant
                i <= all.len(),
                all == self@,
                all.len() == self.entries@.len(),
                n <= i,
                n == color_count(all.take(i as int), color),
            decreases all.len() - i,
        {
            assert(all.take(i + 1).drop_last() =~= all.take(i as int));
            assert(all[i as int] == self.entries@[i as int]@);
            if self.entries[i].color == color {
                n = n + 1;
            }
            i = i + 1;
        }
        assert(all.take(i as int) =~= all);
        n
    }

    /// Lists the mana of a pool, color by color.
    pub fn atoms_by_color(&self) -> (r: Vec<u16>)
        ensures
            r@ == by_color(self@),
    {
        let mut out = repeat_atom(WHITE, self.count(WHITE));
        append_atoms(&mut out, &repeat_atom(BLUE, self.count(BLUE)));
        append_atoms(&mut out, &repeat_atom(BLACK, self.count(BLACK)));
        append_atoms(&mut out, &repeat_atom(RED, self.count(RED)));
        append_atoms(&mut out, &repeat_atom(GREEN, self.count(GREEN)));
        append_atoms(&mut out, &repeat_atom(COLORLESS, self.count(COLORLESS)));
        out
    }

    pub fn filtered_for_context(&self, ctx: Option<&ManaPaymentContext>) -> (r: ManaPool)
        ensures
            r@ == spendable(self@, context_of(ctx)),
    {
        let ghost all = self@;
        let mut out: Vec<Mana> = Vec::new();
        let mut i: usize = 0;
        assert(mana_views(out@) =~= Seq::<ManaView>::empty());
        while i < self.entries.len()
            invariant
                i <= all.len(),
                all == self@,
                all.len() == self.entries@.len(),
                mana_views(out@) == spendable(all.take(i as int), context_of(ctx)),
            decreases all.len() - i,
        {
            assert(all.take(i + 1).drop_last() =~= all.take(i as int));
            assert(all[i as int] == self.entries@[i as int]@);
            if check_spend(&self.entries[i], ctx) {
                let ghost before = out@;
                let m = copy_mana(&self.entries[i]);
                out.push(m);
                assert(mana_views(out@) =~= mana_views(before).push(m@));
            }
            i = i + 1;
        }
        assert(all.take(i as int) =~= all);
        ManaPool { entries: out }
    }

    pub fn copy(&self) -> (r: ManaPool)
        ensures
            r@ == self@,
    {
        let mut out: Vec<Mana> = Vec::new();
        let mut i: usize = 0;
        while i < self.entries.len()
            invariant
                i <= self.entries@.len(),
                out@.len() == i,
                forall|k: int| 0 <= k < i ==> (#[trigger] out@[k])@ == self.entries@[k]@,
            decreases self.entries@.len() - i,
        {
            out.push(copy_mana(&self.entries[i]));
            i = i + 1;
        }
        let r = ManaPool { entries: out };
        assert(r@ =~= self@);
        r
    }

    pub fn take(&mut self, at: usize) -> (r: Mana)
        requires
            at < old(self)@.len(),
        ensures
            final(self)@ == old(self)@.remove(at as int),
            r@ == old(self)@[at as int],
    {
        let ghost before = self@;
        let r = self.entries.remove(at);
        assert(self@ =~= before.remove(at as int));
        r
    }

    pub fn list_useful(
        &self,
        unpaid: &ManaCostBeingPaid,
        ctx: Option<&ManaPaymentContext>,
        any_color: bool,
    ) -> (r: Vec<usize>)
        ensures
            r@.len() == useful(unpaid@, self@, context_of(ctx), any_color, self@.len()).len(),
            forall|i: int|
                0 <= i < r@.len() ==> #[trigger] r@[i] == useful(
                    unpaid@,
                    self@,
                    context_of(ctx),
                    any_color,
                    self@.len(),
                )[i] && r@[i] < self@.len(),
    {
        let ghost all = self@;
        let mut out: Vec<usize> = Vec::new();
        let mut i: usize = 0;
        while i < self.entries.len()
            invariant
                i <= all.len(),
                all == self@,
                all.len() == self.entries@.len(),
                out@.len() == useful(unpaid@, all, context_of(ctx), any_color, i as nat).len(),
                forall|k: int|
                    0 <= k < out@.len() ==> #[trigger] out@[k] == useful(
                        unpaid@,
                        all,
                        context_of(ctx),
                        any_color,
                        i as nat,
                    )[k] && out@[k] < all.len(),
            decreases all.len() - i,
        {
            assert(all[i as int] == self.entries@[i as int]@);
            let m = &self.entries[i];
            let color: u16 = find_spent_as(m.color, any_color);
            let free = m.restriction.is_none() || ctx.is_some();
            if free && check_spend(m, ctx) && unpaid.find_paid_shard(color).is_some() {
                out.push(i);
            }
            i = i + 1;
        }
        out
    }

    /// Spends mana on a cost as long as some is of use.
    pub fn pay_mana_cost_from_pool(
        &mut self,
        unpaid: &mut ManaCostBeingPaid,
        ctx: Option<&ManaPaymentContext>,
        any_color: bool,
        choices: &Vec<usize>,
        spent: &mut ManaPool,
    )
        ensures
            ({
                let (u, rest, more) = spent_from(
                    old(unpaid)@,
                    old(self)@,
                    context_of(ctx),
                    any_color,
                    choices@,
                    0,
                );
                &&& final(unpaid)@ == u
                &&& final(self)@ == rest
                &&& final(spent)@ == old(spent)@ + more
            }),
    {
        let ghost first = spent@;
        let ghost goal = spent_from(unpaid@, self@, context_of(ctx), any_color, choices@, 0);
        let mut step: usize = 0;
        let mut go = true;
        assert(first + goal.2 =~= spent@ + goal.2);
        let total: usize = self.entries.len();
        while go
            invariant
                self@.len() == self.entries@.len(),
                step + self@.len() == total,
                ({
                    let now = spent_from(
                        unpaid@,
                        self@,
                        context_of(ctx),
                        any_color,
                        choices@,
                        step as nat,
                    );
                    &&& now.0 == goal.0
                    &&& now.1 == goal.1
                    &&& spent@ + now.2 == first + goal.2
                }),
                !go ==> unpaid@ == goal.0 && self@ == goal.1 && spent@ == first + goal.2,
            decreases self@.len(), (if go { 1int } else { 0int }),
        {
            let places = self.list_useful(unpaid, ctx, any_color);
            let ghost now = spent_from(
                unpaid@,
                self@,
                context_of(ctx),
                any_color,
                choices@,
                step as nat,
            );
            if places.len() == 0 || self.entries.len() == 0 {
                go = false;
                assert(spent@ + now.2 =~= spent@);
            } else {
                let wanted: usize = if step < choices.len() {
                    choices[step]
                } else {
                    0
                };
                let k: usize = if wanted < places.len() {
                    wanted
                } else {
                    places.len() - 1
                };
                let at: usize = places[k];
                let color: u16 = self.entries[at].color;
                assert(self@[at as int].color == color);
                let ghost before = spent@;
                unpaid.try_pay_mana(find_spent_as(color, any_color));
                let m = self.take(at);
                spent.entries.push(m);
                assert(spent@ =~= before.push(m@));
                proof {
                    let next = spent_from(
                        unpaid@,
                        self@,
                        context_of(ctx),
                        any_color,
                        choices@,
                        (step + 1) as nat,
                    );
                    assert(before + (seq![m@] + next.2) =~= before.push(m@) + next.2);
                }
                step = step + 1;
            }
        }
    }

    /// Spends the mana from a place on, in its order.
    pub fn pay_mana_from_ability(
        &mut self,
        unpaid: &mut ManaCostBeingPaid,
        from: usize,
        any_color: bool,
        spent: &mut ManaPool,
    )
        ensures
            ({
                let (u, rest, more) = spent_in_order(
                    old(unpaid)@,
                    old(self)@,
                    from as int,
                    any_color,
                );
                &&& final(unpaid)@ == u
                &&& final(self)@ == rest
                &&& final(spent)@ == old(spent)@ + more
            }),
    {
        let ghost first = spent@;
        let ghost goal = spent_in_order(unpaid@, self@, from as int, any_color);
        let mut i: usize = from;
        assert(first + goal.2 =~= spent@ + goal.2);
        while i < self.entries.len()
            invariant
                self@.len() == self.entries@.len(),
                ({
                    let now = spent_in_order(unpaid@, self@, i as int, any_color);
                    &&& now.0 == goal.0
                    &&& now.1 == goal.1
                    &&& spent@ + now.2 == first + goal.2
                }),
            decreases self@.len() - i,
        {
            let color: u16 = self.entries[i].color;
            assert(self@[i as int].color == color);
            let used: u16 = find_spent_as(color, any_color);
            if unpaid.find_paid_shard(used).is_some() {
                let ghost before = spent@;
                unpaid.try_pay_mana(used);
                let m = self.take(i);
                spent.entries.push(m);
                assert(spent@ =~= before.push(m@));
                proof {
                    let next = spent_in_order(unpaid@, self@, i as int, any_color);
                    assert(before + (seq![m@] + next.2) =~= before.push(m@) + next.2);
                }
            } else {
                i = i + 1;
            }
        }
        assert(spent@ + Seq::<ManaView>::empty() =~= spent@);
    }

    /// Puts produced mana into a pool.
    pub fn add_atoms(&mut self, atoms: &Vec<u16>, p: &ManaProductionParams)
        ensures
            final(self)@ == with_mana(old(self)@, atoms@, *p),
    {
        let ghost start = self@;
        let ghost goal = with_mana(start, atoms@, *p);
        let mut i: usize = 0;
        while i < atoms.len()
            invariant
                i <= atoms@.len(),
                goal == with_mana(start, atoms@, *p),
                self@ == goal.take(start.len() + i),
                self@.len() == self.entries@.len(),
            decreases atoms@.len() - i,
        {
            let restriction = match &p.restriction {
                Some(t) => Some(t.as_str().to_string()),
                None => None,
            };
            let m = Mana {
                color: atoms[i],
                restriction,
                source: p.source_card,
                is_snow: p.is_snow,
                riders: p.riders.copy(),
            };
            let ghost before = self@;
            self.entries.push(m);
            assert(m@ =~= goal[start.len() + i]);
            assert(self@ =~= before.push(m@));
            assert(goal.take(start.len() + i + 1) =~= goal.take(start.len() + i).push(
                goal[start.len() + i],
            ));
            i = i + 1;
        }
        assert(goal.take((start.len() + i) as int) =~= goal);
    }
}

/// Spends the mana of a pool on a cost, color by color; the pool stays as it is.
pub fn pay_cost_from_pool(unpaid: &mut ManaCostBeingPaid, pool: &ManaPool)
    ensures
        final(unpaid)@ == after_atoms(old(unpaid)@, by_color(pool@)),
{
    let atoms = pool.atoms_by_color();
    unpaid.pay_atoms(&atoms);
}

} // verus!
