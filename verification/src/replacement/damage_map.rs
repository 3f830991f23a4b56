//! Damage that sources deal to targets at the same time.

use vstd::prelude::*;
use crate::spell::GameEntity;
use crate::types::CardId;

verus! {

/// The damage of a source to a target.
#[derive(Debug, Clone, Copy, PartialEq, Eq, Structural)]
pub struct DamageEntry {
    pub source: CardId,
    pub target: GameEntity,
    pub amount: i32,
}

/// Damage by source and target, in the order in which it came in.
pub struct CardDamageMap {
    pub entries: Vec<DamageEntry>,
}

/// The place of a source and a target.
pub open spec fn damage_place(
    entries: Seq<DamageEntry>,
    source: CardId,
    target: GameEntity,
) -> Option<int>
    decreases entries.len(),
{
    if entries.len() == 0 {
        None
    } else if entries[0].source == source && entries[0].target == target {
        Some(0)
    } else {
        match damage_place(entries.skip(1), source, target) {
            Some(i) => Some(i + 1),
            None => None,
        }
    }
}

/// The damage with some more of it from a source to a target.
pub open spec fn damage_put(
    entries: Seq<DamageEntry>,
    source: CardId,
    target: GameEntity,
    amount: i32,
) -> Seq<DamageEntry> {
    match damage_place(entries, source, target) {
        Some(i) => entries.update(
            i,
            DamageEntry { source, target, amount: entries[i].amount.wrapping_add(amount) },
        ),
        None => entries.push(DamageEntry { source, target, amount }),
    }
}

/// The damage without that of a source to a target.
pub open spec fn damage_removed(
    entries: Seq<DamageEntry>,
    source: CardId,
    target: GameEntity,
) -> Seq<DamageEntry> {
    match damage_place(entries, source, target) {
        Some(i) => entries.remove(i),
        None => entries,
    }
}

proof fn lemma_damage_place(entries: Seq<DamageEntry>, source: CardId, target: GameEntity)
    ensures
        damage_place(entries, source, target) matches Some(i) ==> 0 <= i < entries.len(),
    decreases entries.len(),
{
    if entries.len() > 0 {
        lemma_damage_place(entries.skip(1), source, target);
    }
}

impl CardDamageMap {
    pub fn new() -> (r: CardDamageMap)
        ensures
            r.entries@.len() == 0,
    {
        CardDamageMap { entries: Vec::new() }
    }

    fn find(&self, source: CardId, target: GameEntity) -> (r: Option<usize>)
        ensures
            match r {
                Some(i) => damage_place(self.entries@, source, target) == Some(i as int) && i
                    < self.entries@.len(),
                None => damage_place(self.entries@, source, target) is None,
            },
    {
        let ghost all = self.entries@;
        let mut i: usize = 0;
        assert(all.skip(0) =~= all);
        while i < self.entries.len()
            invariant
                i <= all.len(),
                all == self.entries@,
                damage_place(all, source, target) == (match damage_place(
                    all.skip(i as int),
                    source,
                    target,
                ) {
                    Some(k) => Some(k + i),
                    None => None,
                }),
            decreases all.len() - i,
        {
            assert(all.skip(i as int).skip(1) =~= all.skip(i + 1));
            let e = self.entries[i];
            if e.source == source && e.target == target {
                return Some(i);
            }
            i = i + 1;
        }
        None
    }

    /// Adds damage of a source to a target.
    pub fn put(&mut self, source: CardId, target: GameEntity, amount: i32)
        ensures
            final(self).entries@ == damage_put(old(self).entries@, source, target, amount),
    {
        match self.find(source, target) {
            Some(i) => {
                let sum: i32 = self.entries[i].amount.wrapping_add(amount);
                self.entries.set(i, DamageEntry { source, target, amount: sum });
            },
            None => {
                self.entries.push(DamageEntry { source, target, amount });
            },
        }
    }

    /// Takes the damage of a source to a target away.
    pub fn remove(&mut self, source: CardId, target: GameEntity)
        ensures
            final(self).entries@ == damage_removed(old(self).entries@, source, target),
    {
        if let Some(i) = self.find(source, target) {
            self.entries.remove(i);
        }
    }
}

/// The targets of damage, each once, in the order in which they come in.
pub open spec fn damage_targets(entries: Seq<DamageEntry>) -> Seq<GameEntity>
    decreases entries.len(),
{
    if entries.len() == 0 {
        Seq::empty()
    } else {
        let before = damage_targets(entries.drop_last());
        if before.contains(entries.last().target) {
            before
        } else {
            before.push(entries.last().target)
        }
    }
}

/// The damage to one target.
pub open spec fn damage_to(entries: Seq<DamageEntry>, target: GameEntity) -> Seq<DamageEntry>
    decreases entries.len(),
{
    if entries.len() == 0 {
        Seq::empty()
    } else {
        let before = damage_to(entries.drop_last(), target);
        if entries.last().target == target {
            before.push(entries.last())
        } else {
            before
        }
    }
}

/// The damage target by target.
pub open spec fn by_target(entries: Seq<DamageEntry>, targets: Seq<GameEntity>) -> Seq<DamageEntry>
    decreases targets.len(),
{
    if targets.len() == 0 {
        Seq::empty()
    } else {
        by_target(entries, targets.drop_last()) + damage_to(entries, targets.last())
    }
}

fn has_entity(v: &Vec<GameEntity>, e: GameEntity) -> (r: bool)
    ensures
        r == v@.contains(e),
{
    let mut i: usize = 0;
    while i < v.len()
        invariant
            i <= v@.len(),
            forall|k: int| 0 <= k < i ==> v@[k] != e,
        decreases v@.len() - i,
    {
        if v[i] == e {
            assert(v@[i as int] == e);
            return true;
        }
        i = i + 1;
    }
    false
}

/// Lists damage target by target.
pub fn list_by_target(m: &CardDamageMap) -> (r: Vec<DamageEntry>)
    ensures
        r@ == by_target(m.entries@, damage_targets(m.entries@)),
{
    let ghost all = m.entries@;
    let mut targets: Vec<GameEntity> = Vec::new();
    let mut i: usize = 0;
    while i < m.entries.len()
        invariant
            i <= all.len(),
            all == m.entries@,
            targets@ == damage_targets(all.take(i as int)),
        decreases all.len() - i,
    {
        assert(all.take(i + 1).drop_last() =~= all.take(i as int));
        let t = m.entries[i].target;
        if !has_entity(&targets, t) {
            targets.push(t);
        }
        i = i + 1;
    }
    assert(all.take(i as int) =~= all);
    let mut out: Vec<DamageEntry> = Vec::new();
    let mut j: usize = 0;
    while j < targets.len()
        invariant
            j <= targets@.len(),
            all == m.entries@,
            out@ == by_target(all, targets@.take(j as int)),
        decreases targets@.len() - j,
    {
        let ghost start = out@;
        assert(targets@.take(j + 1).drop_last() =~= targets@.take(j as int));
        let mut k: usize = 0;
        assert(start + damage_to(all.take(0), targets@[j as int]) =~= start);
        while k < m.entries.len()
            invariant
                j < targets@.len(),
                k <= all.len(),
                all == m.entries@,
                out@ == start + damage_to(all.take(k as int), targets@[j as int]),
            decreases all.len() - k,
        {
            assert(all.take(k + 1).drop_last() =~= all.take(k as int));
            let e = m.entries[k];
            if e.target == targets[j] {
                let ghost before = damage_to(all.take(k as int), targets@[j as int]);
                assert((start + before).push(e) =~= start + before.push(e));
                out.push(e);
            }
            k = k + 1;
        }
        assert(all.take(k as int) =~= all);
        j = j + 1;
    }
    assert(targets@.take(j as int) =~= targets@);
    out
}

} // verus!
