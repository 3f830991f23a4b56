//! Mana costs, and what is left of them while they are paid.

use vstd::prelude::*;
use crate::mana::atoms::{
    has_bits, pool_can_pay_for_shard_with_color, pool_pays, ManaCostShard, COLORS_SUPERPOSITION,
    SHARD_GENERIC,
};

verus! {

/// A mana cost: generic mana and symbols.
pub struct ManaCost {
    pub generic: i32,
    pub shards: Vec<ManaCostShard>,
}

/// How often a symbol is left to pay.
#[derive(Debug, Clone, Copy, PartialEq, Eq, Structural)]
pub struct ShardCount {
    pub shard: ManaCostShard,
    pub count: i32,
}

/// What is left of a cost, with the colors that were spent on it so far. `colored_x` has the
/// colors that may pay its symbols of a variable amount of one color.
pub struct ManaCostBeingPaid {
    pub unpaid: Vec<ShardCount>,
    pub sunburst_map: u16,
    pub colored_x: u16,
}

#[verifier::ext_equal]
pub struct Unpaid {
    pub left: Seq<ShardCount>,
    pub sunburst: u16,
    pub colored_x: u16,
}

impl View for ManaCostBeingPaid {
    type V = Unpaid;

    open spec fn view(&self) -> Unpaid {
        Unpaid { left: self.unpaid@, sunburst: self.sunburst_map, colored_x: self.colored_x }
    }
}

pub open spec fn generic_shard() -> ManaCostShard {
    ManaCostShard { mask: SHARD_GENERIC }
}

/// The place of a symbol.
pub open spec fn shard_place(left: Seq<ShardCount>, shard: ManaCostShard) -> Option<int>
    decreases left.len(),
{
    if left.len() == 0 {
        None
    } else if left[0].shard == shard {
        Some(0)
    } else {
        match shard_place(left.skip(1), shard) {
            Some(i) => Some(i + 1),
            None => None,
        }
    }
}

/// How often a symbol is left.
pub open spec fn count_left(left: Seq<ShardCount>, shard: ManaCostShard) -> i32 {
    match shard_place(left, shard) {
        Some(i) => left[i].count,
        None => 0,
    }
}

/// What is left with a symbol more often.
pub open spec fn increased(left: Seq<ShardCount>, shard: ManaCostShard, n: i32) -> Seq<ShardCount> {
    if n <= 0 {
        left
    } else {
        match shard_place(left, shard) {
            Some(i) => left.update(
                i,
                ShardCount { shard, count: left[i].count.wrapping_add(n) },
            ),
            None => left.push(ShardCount { shard, count: n }),
        }
    }
}

/// What is left with a symbol less often; a symbol that is paid is gone.
pub open spec fn decreased(left: Seq<ShardCount>, shard: ManaCostShard, n: i32) -> Seq<ShardCount> {
    match shard_place(left, shard) {
        Some(i) => if left[i].count <= n {
            left.remove(i)
        } else {
            left.update(i, ShardCount { shard, count: left[i].count.wrapping_sub(n) })
        },
        None => left,
    }
}

/// What is left once symbols are added.
pub open spec fn with_shards(left: Seq<ShardCount>, shards: Seq<ManaCostShard>) -> Seq<ShardCount>
    decreases shards.len(),
{
    if shards.len() == 0 {
        left
    } else {
        increased(with_shards(left, shards.drop_last()), shards.last(), 1)
    }
}

/// A cost of which nothing is paid.
pub open spec fn unpaid_of(generic: i32, shards: Seq<ManaCostShard>) -> Unpaid {
    Unpaid {
        left: increased(with_shards(Seq::empty(), shards), generic_shard(), generic),
        sunburst: 0,
        colored_x: COLORS_SUPERPOSITION,
    }
}

/// The symbols that are left.
pub open spec fn shards_of(left: Seq<ShardCount>) -> Seq<ManaCostShard> {
    Seq::new(left.len(), |i: int| left[i].shard)
}

/// How urgent it is to pay a symbol with some colors.
pub open spec fn pay_priority(shard: ManaCostShard, colors: u16) -> i32 {
    if shard == generic_shard() {
        0
    } else if is_one_color(shard.colors()) {
        if shard.or_2_generic() {
            if has_bits(shard.colors(), colors) {
                9
            } else {
                4
            }
        } else if shard.phyrexian() {
            8
        } else {
            10
        }
    } else {
        5
    }
}

/// Whether a set of colors is a single one.
pub open spec fn is_one_color(mask: u16) -> bool {
    mask == 1 || mask == 2 || mask == 4 || mask == 8 || mask == 16
}

pub fn find_pay_priority(shard: ManaCostShard, colors: u16) -> (r: i32)
    ensures
        r == pay_priority(shard, colors),
{
    if shard.mask == SHARD_GENERIC {
        return 0;
    }
    let own: u16 = shard.color_mask();
    if own == 1 || own == 2 || own == 4 || own == 8 || own == 16 {
        if shard.is_or_2_generic() {
            if own & colors != 0 {
                9
            } else {
                4
            }
        } else if shard.is_phyrexian() {
            8
        } else {
            10
        }
    } else {
        5
    }
}

/// The first of the most urgent symbols.
pub open spec fn by_priority(shards: Seq<ManaCostShard>, colors: u16) -> Option<ManaCostShard>
    decreases shards.len(),
{
    if shards.len() == 0 {
        None
    } else {
        match by_priority(shards.drop_last(), colors) {
            Some(best) => if pay_priority(shards.last(), colors) > pay_priority(best, colors) {
                Some(shards.last())
            } else {
                Some(best)
            },
            None => Some(shards.last()),
        }
    }
}

pub fn get_shard_to_pay_by_priority(shards: &Vec<ManaCostShard>, colors: u16) -> (r: Option<
    ManaCostShard,
>)
    ensures
        r == by_priority(shards@, colors),
{
    let ghost all = shards@;
    let mut best: Option<ManaCostShard> = None;
    let mut i: usize = 0;
    while i < shards.len()
        invariant
            i <= all.len(),
            all == shards@,
            best == by_priority(all.take(i as int), colors),
        decreases all.len() - i,
    {
        assert(all.take(i + 1).drop_last() =~= all.take(i as int));
        let s = shards[i];
        best =
        match best {
            Some(b) => if find_pay_priority(s, colors) > find_pay_priority(b, colors) {
                Some(s)
            } else {
                Some(b)
            },
            None => Some(s),
        };
        i = i + 1;
    }
    assert(all.take(i as int) =~= all);
    best
}

/// The symbols that mana of a color pays.
pub open spec fn payable_among(shards: Seq<ManaCostShard>, color: u16) -> Seq<ManaCostShard>
    decreases shards.len(),
{
    if shards.len() == 0 {
        Seq::empty()
    } else {
        let before = payable_among(shards.drop_last(), color);
        if pool_pays(shards.last(), color) {
            before.push(shards.last())
        } else {
            before
        }
    }
}

/// The symbol that mana of a color goes to.
pub open spec fn paid_shard(u: Unpaid, color: u16) -> Option<ManaCostShard> {
    by_priority(payable_among(shards_of(u.left), color), color)
}

/// What is left once mana of a color is spent. A symbol that takes two of any mana in place of
/// its color leaves one generic.
pub open spec fn after_mana(u: Unpaid, color: u16) -> Unpaid {
    match paid_shard(u, color) {
        Some(shard) => {
            let left = decreased(u.left, shard, 1);
            Unpaid {
                left: if shard.or_2_generic() && !has_bits(shard.colors(), color) {
                    increased(left, generic_shard(), 1)
                } else {
                    left
                },
                sunburst: u.sunburst | (color & COLORS_SUPERPOSITION),
                colored_x: u.colored_x,
            }
        },
        None => u,
    }
}

/// What is left once mana was spent, atom by atom.
pub open spec fn after_atoms(u: Unpaid, atoms: Seq<u16>) -> Unpaid
    decreases atoms.len(),
{
    if atoms.len() == 0 {
        u
    } else {
        after_mana(after_atoms(u, atoms.drop_last()), atoms.last())
    }
}

/// The first symbol that life may pay.
pub open spec fn first_phyrexian(left: Seq<ShardCount>) -> Option<ManaCostShard>
    decreases left.len(),
{
    if left.len() == 0 {
        None
    } else if left[0].shard.phyrexian() {
        Some(left[0].shard)
    } else {
        first_phyrexian(left.skip(1))
    }
}

/// Whether life may pay all that is left.
pub open spec fn only_phyrexian(left: Seq<ShardCount>) -> bool {
    forall|i: int| 0 <= i < left.len() ==> (#[trigger] left[i]).shard.phyrexian()
}

/// The life that pays what is left.
pub open spec fn phyrexian_life(left: Seq<ShardCount>) -> i32
    decreases left.len(),
{
    if left.len() == 0 {
        0
    } else if left.last().shard.phyrexian() {
        phyrexian_life(left.drop_last()).wrapping_add(left.last().count.wrapping_mul(2))
    } else {
        phyrexian_life(left.drop_last())
    }
}

/// Whether mana of a color is needed for a symbol that is not generic.
pub open spec fn wants_color(shard: ManaCostShard, color: u16) -> bool {
    if shard == generic_shard() || shard.variable() {
        false
    } else if shard.or_2_generic() {
        has_bits(shard.colors(), color)
    } else {
        shard.payable_with(color)
    }
}

pub open spec fn needs(left: Seq<ShardCount>, color: u16) -> bool {
    exists|i: int| 0 <= i < left.len() && wants_color((#[trigger] left[i]).shard, color)
}

/// The colors of all that is left.
pub open spec fn colors_left(left: Seq<ShardCount>) -> u16
    decreases left.len(),
{
    if left.len() == 0 {
        0
    } else {
        colors_left(left.drop_last()) | left.last().shard.colors()
    }
}

/// The mana value of what is left.
pub open spec fn cmc_left(left: Seq<ShardCount>) -> i32
    decreases left.len(),
{
    if left.len() == 0 {
        0
    } else {
        cmc_left(left.drop_last()).wrapping_add(
            if left.last().shard.variable() {
                0
            } else if left.last().shard.or_2_generic() {
                left.last().count.wrapping_mul(2)
            } else {
                left.last().count
            },
        )
    }
}

proof fn lemma_shard_place(left: Seq<ShardCount>, shard: ManaCostShard)
    ensures
        shard_place(left, shard) matches Some(i) ==> 0 <= i < left.len() && left[i].shard == shard,
    decreases left.len(),
{
    if left.len() > 0 {
        lemma_shard_place(left.skip(1), shard);
    }
}

impl ManaCostBeingPaid {
    pub fn from_mana_cost(cost: &ManaCost) -> (r: ManaCostBeingPaid)
        ensures
            r@ == unpaid_of(cost.generic, cost.shards@),
    {
        let ghost all = cost.shards@;
        let mut r = ManaCostBeingPaid {
            unpaid: Vec::new(),
            sunburst_map: 0,
            colored_x: COLORS_SUPERPOSITION,
        };
        let mut i: usize = 0;
        while i < cost.shards.len()
            invariant
                i <= all.len(),
                all == cost.shards@,
                r.unpaid@ == with_shards(Seq::empty(), all.take(i as int)),
                r.sunburst_map == 0,
                r.colored_x == COLORS_SUPERPOSITION,
            decreases all.len() - i,
        {
            assert(all.take(i + 1).drop_last() =~= all.take(i as int));
            r.increase_shard(cost.shards[i], 1);
            i = i + 1;
        }
        assert(all.take(i as int) =~= all);
        r.increase_shard(ManaCostShard { mask: SHARD_GENERIC }, cost.generic);
        r
    }

    fn find(&self, shard: ManaCostShard) -> (r: Option<usize>)
        ensures
            match r {
                Some(i) => shard_place(self.unpaid@, shard) == Some(i as int) && i
                    < self.unpaid@.len(),
                None => shard_place(self.unpaid@, shard) is None,
            },
    {
        let ghost all = self.unpaid@;
        let mut i: usize = 0;
        assert(all.skip(0) =~= all);
        while i < self.unpaid.len()
            invariant
                i <= all.len(),
                all == self.unpaid@,
                shard_place(all, shard) == (match shard_place(all.skip(i as int), shard) {
                    Some(k) => Some(k + i),
                    None => None,
                }),
            decreases all.len() - i,
        {
            assert(all.skip(i as int).skip(1) =~= all.skip(i + 1));
            if self.unpaid[i].shard == shard {
                return Some(i);
            }
            i = i + 1;
        }
        None
    }

    pub fn get_unpaid_shards(&self, shard: ManaCostShard) -> (r: i32)
        ensures
            r == count_left(self@.left, shard),
    {
        match self.find(shard) {
            Some(i) => self.unpaid[i].count,
            None => 0,
        }
    }

    pub fn get_generic_mana_amount(&self) -> (r: i32)
        ensures
            r == count_left(self@.left, generic_shard()),
    {
        self.get_unpaid_shards(ManaCostShard { mask: SHARD_GENERIC })
    }

    pub fn increase_shard(&mut self, shard: ManaCostShard, n: i32)
        ensures
            final(self)@ == (Unpaid { left: increased(old(self)@.left, shard, n), ..old(self)@ }),
    {
        if n <= 0 {
            return;
        }
        match self.find(shard) {
            Some(i) => {
                let count: i32 = self.unpaid[i].count.wrapping_add(n);
                self.unpaid.set(i, ShardCount { shard, count });
            },
            None => {
                self.unpaid.push(ShardCount { shard, count: n });
            },
        }
    }

    pub fn decrease_shard(&mut self, shard: ManaCostShard, n: i32)
        ensures
            final(self)@ == (Unpaid { left: decreased(old(self)@.left, shard, n), ..old(self)@ }),
    {
        if let Some(i) = self.find(shard) {
            let count: i32 = self.unpaid[i].count;
            if count <= n {
                self.unpaid.remove(i);
            } else {
                self.unpaid.set(i, ShardCount { shard, count: count.wrapping_sub(n) });
            }
        }
    }

    pub fn is_paid(&self) -> (r: bool)
        ensures
            r == (self@.left.len() == 0),
    {
        self.unpaid.len() == 0
    }

    pub fn get_distinct_shards(&self) -> (r: Vec<ManaCostShard>)
        ensures
            r@ == shards_of(self@.left),
    {
        let mut out: Vec<ManaCostShard> = Vec::new();
        let mut i: usize = 0;
        while i < self.unpaid.len()
            invariant
                i <= self.unpaid@.len(),
                out@.len() == i,
                forall|k: int| 0 <= k < i ==> out@[k] == (#[trigger] self.unpaid@[k]).shard,
            decreases self.unpaid@.len() - i,
        {
            out.push(self.unpaid[i].shard);
            i = i + 1;
        }
        assert(out@ =~= shards_of(self@.left));
        out
    }

    /// Finds the symbol that mana of a color goes to.
    pub fn find_paid_shard(&self, color: u16) -> (r: Option<ManaCostShard>)
        ensures
            r == paid_shard(self@, color),
    {
        let shards = self.get_distinct_shards();
        let ghost all = shards@;
        let mut payable: Vec<ManaCostShard> = Vec::new();
        let mut i: usize = 0;
        while i < shards.len()
            invariant
                i <= all.len(),
                all == shards@,
                payable@ == payable_among(all.take(i as int), color),
            decreases all.len() - i,
        {
            assert(all.take(i + 1).drop_last() =~= all.take(i as int));
            if pool_can_pay_for_shard_with_color(shards[i], color) {
                payable.push(shards[i]);
            }
            i = i + 1;
        }
        assert(all.take(i as int) =~= all);
        get_shard_to_pay_by_priority(&payable, color)
    }

    /// Spends mana of a color; says whether it was of use.
    pub fn try_pay_mana(&mut self, color: u16) -> (r: bool)
        ensures
            final(self)@ == after_mana(old(self)@, color),
            r == paid_shard(old(self)@, color) is Some,
    {
        match self.find_paid_shard(color) {
            Some(shard) => {
                self.decrease_shard(shard, 1);
                if shard.is_or_2_generic() && shard.color_mask() & color == 0 {
                    self.increase_shard(ManaCostShard { mask: SHARD_GENERIC }, 1);
                }
                self.sunburst_map = self.sunburst_map | (color & COLORS_SUPERPOSITION);
                true
            },
            None => false,
        }
    }

    /// Spends mana, atom by atom.
    pub fn pay_atoms(&mut self, atoms: &Vec<u16>)
        ensures
            final(self)@ == after_atoms(old(self)@, atoms@),
    {
        let ghost all = atoms@;
        let ghost start = self@;
        let mut i: usize = 0;
        while i < atoms.len()
            invariant
                i <= all.len(),
                all == atoms@,
                self@ == after_atoms(start, all.take(i as int)),
            decreases all.len() - i,
        {
            assert(all.take(i + 1).drop_last() =~= all.take(i as int));
            self.try_pay_mana(atoms[i]);
            i = i + 1;
        }
        assert(all.take(i as int) =~= all);
    }

    /// Pays a symbol with life, where one is left that life may pay.
    pub fn pay_phyrexian(&mut self) -> (r: bool)
        ensures
            match first_phyrexian(old(self)@.left) {
                Some(shard) => r && final(self)@ == (Unpaid {
                    left: decreased(old(self)@.left, shard, 1),
                    ..old(self)@
                }),
                None => !r && final(self)@ == old(self)@,
            },
    {
        let ghost all = self.unpaid@;
        let mut i: usize = 0;
        assert(all.skip(0) =~= all);
        while i < self.unpaid.len()
            invariant
                i <= all.len(),
                all == self.unpaid@,
                *self == *old(self),
                first_phyrexian(all) == first_phyrexian(all.skip(i as int)),
            decreases all.len() - i,
        {
            assert(all.skip(i as int).skip(1) =~= all.skip(i + 1));
            let shard = self.unpaid[i].shard;
            if shard.is_phyrexian() {
                self.decrease_shard(shard, 1);
                return true;
            }
            i = i + 1;
        }
        false
    }

    pub fn contains_only_phyrexian_mana(&self) -> (r: bool)
        ensures
            r == only_phyrexian(self@.left),
    {
        let mut i: usize = 0;
        while i < self.unpaid.len()
            invariant
                i <= self.unpaid@.len(),
                forall|k: int| 0 <= k < i ==> (#[trigger] self.unpaid@[k]).shard.phyrexian(),
            decreases self.unpaid@.len() - i,
        {
            if !self.unpaid[i].shard.is_phyrexian() {
                assert(!self.unpaid@[i as int].shard.phyrexian());
                return false;
            }
            i = i + 1;
        }
        true
    }

    /// Gives the life that pays what is left.
    pub fn required_phyrexian_life(&self) -> (r: i32)
        ensures
            r == phyrexian_life(self@.left),
    {
        let ghost all = self.unpaid@;
        let mut total: i32 = 0;
        let mut i: usize = 0;
        while i < self.unpaid.len()
            invariant
                i <= all.len(),
                all == self.unpaid@,
                total == phyrexian_life(all.take(i as int)),
            decreases all.len() - i,
        {
            assert(all.take(i + 1).drop_last() =~= all.take(i as int));
            let e = self.unpaid[i];
            if e.shard.is_phyrexian() {
                total = total.wrapping_add(e.count.wrapping_mul(2));
            }
            i = i + 1;
        }
        assert(all.take(i as int) =~= all);
        total
    }

    pub fn needs_color(&self, color: u16) -> (r: bool)
        ensures
            r == needs(self@.left, color),
    {
        let mut i: usize = 0;
        while i < self.unpaid.len()
            invariant
                i <= self.unpaid@.len(),
                forall|k: int|
                    0 <= k < i ==> !wants_color((#[trigger] self.unpaid@[k]).shard, color),
            decreases self.unpaid@.len() - i,
        {
            let s = self.unpaid[i].shard;
            let wanted = if s.mask == SHARD_GENERIC || s.is_variable() {
                false
            } else if s.is_or_2_generic() {
                s.color_mask() & color != 0
            } else {
                s.can_be_paid_with(color)
            };
            if wanted {
                assert(wants_color(self.unpaid@[i as int].shard, color));
                return true;
            }
            i = i + 1;
        }
        false
    }

    pub fn get_unpaid_colors(&self) -> (r: u16)
        ensures
            r == colors_left(self@.left),
    {
        let ghost all = self.unpaid@;
        let mut mask: u16 = 0;
        let mut i: usize = 0;
        while i < self.unpaid.len()
            invariant
                i <= all.len(),
                all == self.unpaid@,
                mask == colors_left(all.take(i as int)),
            decreases all.len() - i,
        {
            assert(all.take(i + 1).drop_last() =~= all.take(i as int));
            mask = mask | self.unpaid[i].shard.color_mask();
            i = i + 1;
        }
        assert(all.take(i as int) =~= all);
        mask
    }

    /// Gives the mana value of what is left.
    pub fn cmc(&self) -> (r: i32)
        ensures
            r == cmc_left(self@.left),
    {
        let ghost all = self.unpaid@;
        let mut total: i32 = 0;
        let mut i: usize = 0;
        while i < self.unpaid.len()
            invariant
                i <= all.len(),
                all == self.unpaid@,
                total == cmc_left(all.take(i as int)),
            decreases all.len() - i,
        {
            assert(all.take(i + 1).drop_last() =~= all.take(i as int));
            let e = self.unpaid[i];
            let n: i32 = if e.shard.is_variable() {
                0
            } else if e.shard.is_or_2_generic() {
                e.count.wrapping_mul(2)
            } else {
                e.count
            };
            total = total.wrapping_add(n);
            i = i + 1;
        }
        assert(all.take(i as int) =~= all);
        total
    }

    pub fn copy(&self) -> (r: ManaCostBeingPaid)
        ensures
            r@ == self@,
    {
        let mut unpaid: Vec<ShardCount> = Vec::new();
        let mut i: usize = 0;
        while i < self.unpaid.len()
            invariant
                i <= self.unpaid@.len(),
                unpaid@ == self.unpaid@.take(i as int),
            decreases self.unpaid@.len() - i,
        {
            assert(self.unpaid@.take(i + 1) =~= self.unpaid@.take(i as int).push(
                self.unpaid@[i as int],
            ));
            unpaid.push(self.unpaid[i]);
            i = i + 1;
        }
        assert(self.unpaid@.take(i as int) =~= self.unpaid@);
        ManaCostBeingPaid { unpaid, sunburst_map: self.sunburst_map, colored_x: self.colored_x }
    }
}

} // verus!
