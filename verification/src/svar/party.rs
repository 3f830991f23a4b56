//! The size of a party: a cleric, a rogue, a warrior and a wizard, each at most once.

use vstd::prelude::*;
use crate::game::{Card, GameState};
use crate::lists::has_card;
use crate::types::CardId;

verus! {

/// What a walk over a battlefield has found so far: the roles that a creature of one role fills,
/// how many creatures can fill any role, and for each role the creatures of several roles.
pub struct PartyScan {
    pub filled: Seq<bool>,
    pub wild: nat,
    pub members: Seq<Seq<CardId>>,
}

pub open spec fn has_role(c: Card, role: int) -> bool {
    c.keyword("Changeling"@) || if role == 0 {
        c.types.is_subtype("Cleric"@)
    } else if role == 1 {
        c.types.is_subtype("Rogue"@)
    } else if role == 2 {
        c.types.is_subtype("Warrior"@)
    } else {
        c.types.is_subtype("Wizard"@)
    }
}

fn card_has_role(c: &Card, role: usize) -> (r: bool)
    requires
        role < 4,
    ensures
        r == has_role(*c, role as int),
{
    if c.has_keyword("Changeling") {
        return true;
    }
    if role == 0 {
        c.types.has_subtype("Cleric")
    } else if role == 1 {
        c.types.has_subtype("Rogue")
    } else if role == 2 {
        c.types.has_subtype("Warrior")
    } else {
        c.types.has_subtype("Wizard")
    }
}

pub open spec fn role_count(c: Card) -> nat {
    let b = |role: int| if has_role(c, role) { 1nat } else { 0nat };
    b(0) + b(1) + b(2) + b(3)
}

/// The roles that are filled, the creatures for any role among them.
pub open spec fn filled_count(scan: PartyScan) -> nat {
    let b = |role: int| if scan.filled[role] { 1nat } else { 0nat };
    b(0) + b(1) + b(2) + b(3) + scan.wild
}

pub open spec fn empty_scan() -> PartyScan {
    PartyScan {
        filled: Seq::new(4, |i: int| false),
        wild: 0,
        members: Seq::new(4, |i: int| Seq::<CardId>::empty()),
    }
}

/// Takes one card into account.
pub open spec fn scanned(scan: PartyScan, id: CardId, c: Card) -> PartyScan {
    let n = role_count(c);
    if !c.types.creature || n == 0 {
        scan
    } else if n == 4 {
        PartyScan { wild: scan.wild + 1, ..scan }
    } else if n == 1 {
        PartyScan {
            filled: Seq::new(4, |role: int| scan.filled[role] || has_role(c, role)),
            ..scan
        }
    } else {
        PartyScan {
            members: Seq::new(
                4,
                |role: int|
                    if has_role(c, role) {
                        scan.members[role].push(id)
                    } else {
                        scan.members[role]
                    },
            ),
            ..scan
        }
    }
}

/// Walks over cards until four roles are filled.
pub open spec fn scan_from(game: GameState, ids: Seq<CardId>, scan: PartyScan) -> PartyScan
    decreases ids.len(),
{
    if ids.len() == 0 || filled_count(scan) >= 4 {
        scan
    } else {
        let next = match game.card_at(ids[0]) {
            Some(c) => scanned(scan, ids[0], c),
            None => scan,
        };
        scan_from(game, ids.skip(1), next)
    }
}

/// Whether a role is still to be given out.
pub open spec fn open_role(scan: PartyScan, done: Seq<bool>, role: int) -> bool {
    !done[role] && !scan.filled[role] && scan.members[role].len() > 0
}

/// The open role with the fewest creatures, the first of them.
pub open spec fn next_role(scan: PartyScan, done: Seq<bool>, upto: nat) -> Option<int>
    decreases upto,
{
    if upto == 0 {
        None
    } else {
        let role = upto - 1;
        match next_role(scan, done, role as nat) {
            Some(best) => if open_role(scan, done, role) && scan.members[role].len()
                < scan.members[best].len() {
                Some(role)
            } else {
                Some(best)
            },
            None => if open_role(scan, done, role) {
                Some(role)
            } else {
                None
            },
        }
    }
}

pub open spec fn first_free(ids: Seq<CardId>, taken: Seq<CardId>) -> Option<CardId>
    decreases ids.len(),
{
    if ids.len() == 0 {
        None
    } else if !taken.contains(ids[0]) {
        Some(ids[0])
    } else {
        first_free(ids.skip(1), taken)
    }
}

/// How many open roles can be given out, each to a creature that has none yet.
pub open spec fn given_out(
    scan: PartyScan,
    done: Seq<bool>,
    taken: Seq<CardId>,
    rounds: nat,
) -> nat
    decreases rounds,
{
    if rounds == 0 {
        0
    } else {
        match next_role(scan, done, 4) {
            None => 0,
            Some(role) => match first_free(scan.members[role], taken) {
                Some(id) => 1 + given_out(
                    scan,
                    done.update(role, true),
                    taken.push(id),
                    (rounds - 1) as nat,
                ),
                None => given_out(scan, done.update(role, true), taken, (rounds - 1) as nat),
            },
        }
    }
}

pub open spec fn party_size(game: GameState, ids: Seq<CardId>) -> nat {
    let scan = scan_from(game, ids, empty_scan());
    let n = filled_count(scan);
    let all = if n >= 4 {
        n
    } else {
        n + given_out(scan, Seq::new(4, |i: int| false), Seq::empty(), 4)
    };
    if all > 4 {
        4
    } else {
        all
    }
}

struct Scan {
    filled: Vec<bool>,
    wild: usize,
    members: Vec<Vec<CardId>>,
}

impl Scan {
    spec fn shows(&self, scan: PartyScan) -> bool {
        &&& self.filled@ == scan.filled
        &&& self.filled@.len() == 4
        &&& self.wild == scan.wild
        &&& self.members@.len() == 4
        &&& scan.members.len() == 4
        &&& forall|role: int| 0 <= role < 4 ==> (#[trigger] self.members@[role])@ == scan.members[role]
    }
}

fn count_filled(s: &Scan, Ghost(scan): Ghost<PartyScan>) -> (r: usize)
    requires
        s.shows(scan),
        s.wild <= 4,
    ensures
        r == filled_count(scan),
{
    let mut n: usize = s.wild;
    if s.filled[0] {
        n = n + 1;
    }
    if s.filled[1] {
        n = n + 1;
    }
    if s.filled[2] {
        n = n + 1;
    }
    if s.filled[3] {
        n = n + 1;
    }
    n
}

fn take_in(s: &mut Scan, id: CardId, c: &Card, Ghost(scan): Ghost<PartyScan>)
    requires
        old(s).shows(scan),
        old(s).wild < 4,
    ensures
        final(s).shows(scanned(scan, id, *c)),
        final(s).wild <= 4,
{
    if !c.types.creature {
        return;
    }
    let r0 = card_has_role(c, 0);
    let r1 = card_has_role(c, 1);
    let r2 = card_has_role(c, 2);
    let r3 = card_has_role(c, 3);
    let n: usize = (if r0 { 1usize } else { 0 }) + (if r1 { 1usize } else { 0 }) + (if r2 {
        1usize
    } else {
        0
    }) + (if r3 { 1usize } else { 0 });
    assert(n == role_count(*c));
    if n == 0 {
        return;
    }
    if n == 4 {
        s.wild = s.wild + 1;
        return;
    }
    let ghost before = s.members@;
    let mut role: usize = 0;
    if n == 1 {
        let ghost filled = s.filled@;
        while role < 4
            invariant
                role <= 4,
                s.members@ == before,
                s.wild == scan.wild,
                s.filled@.len() == 4,
                forall|k: int|
                    0 <= k < 4 ==> #[trigger] s.filled@[k] == (filled[k] || (k < role && has_role(
                        *c,
                        k,
                    ))),
            decreases 4 - role,
        {
            if card_has_role(c, role) {
                s.filled.set(role, true);
            }
            role = role + 1;
        }
        assert(s.filled@ =~= scanned(scan, id, *c).filled);
        return;
    }
    while role < 4
        invariant
            role <= 4,
            s.filled@ == scan.filled,
            s.filled@.len() == 4,
            s.wild == scan.wild,
            s.members@.len() == 4,
            before.len() == 4,
            scan.members.len() == 4,
            forall|k: int| 0 <= k < 4 ==> (#[trigger] before[k])@ == scan.members[k],
            forall|k: int|
                role <= k < 4 ==> (#[trigger] s.members@[k])@ == scan.members[k],
            forall|k: int|
                0 <= k < role ==> (#[trigger] s.members@[k])@ == (if has_role(*c, k) {
                    scan.members[k].push(id)
                } else {
                    scan.members[k]
                }),
        decreases 4 - role,
    {
        if card_has_role(c, role) {
            s.members[role].push(id);
        }
        role = role + 1;
    }
}

fn find_next_role(s: &Scan, done: &Vec<bool>, Ghost(scan): Ghost<PartyScan>) -> (r: Option<usize>)
    requires
        s.shows(scan),
        done@.len() == 4,
    ensures
        r is Some == next_role(scan, done@, 4) is Some,
        r matches Some(role) ==> role < 4 && next_role(scan, done@, 4) == Some(role as int),
{
    let mut best: Option<usize> = None;
    let mut role: usize = 0;
    while role < 4
        invariant
            s.shows(scan),
            done@.len() == 4,
            role <= 4,
            best is Some == next_role(scan, done@, role as nat) is Some,
            best matches Some(b) ==> b < role && next_role(scan, done@, role as nat) == Some(
                b as int,
            ),
        decreases 4 - role,
    {
        assert(s.members@[role as int]@ == scan.members[role as int]);
        if !done[role] && !s.filled[role] && s.members[role].len() > 0 {
            match best {
                Some(b) => {
                    assert(s.members@[b as int]@ == scan.members[b as int]);
                    if s.members[role].len() < s.members[b].len() {
                        best = Some(role);
                    }
                },
                None => {
                    best = Some(role);
                },
            }
        }
        role = role + 1;
    }
    best
}

fn find_free(ids: &Vec<CardId>, taken: &Vec<CardId>) -> (r: Option<CardId>)
    ensures
        r == first_free(ids@, taken@),
{
    let mut i: usize = 0;
    assert(ids@.skip(0) =~= ids@);
    while i < ids.len()
        invariant
            i <= ids@.len(),
            first_free(ids@, taken@) == first_free(ids@.skip(i as int), taken@),
        decreases ids@.len() - i,
    {
        assert(ids@.skip(i as int).skip(1) =~= ids@.skip(i + 1));
        if !has_card(taken, ids[i]) {
            return Some(ids[i]);
        }
        i = i + 1;
    }
    None
}

proof fn lemma_given_out_bound(scan: PartyScan, done: Seq<bool>, taken: Seq<CardId>, rounds: nat)
    ensures
        given_out(scan, done, taken, rounds) <= rounds,
    decreases rounds,
{
    if rounds > 0 {
        match next_role(scan, done, 4) {
            None => {},
            Some(role) => {
                match first_free(scan.members[role], taken) {
                    Some(id) => lemma_given_out_bound(
                        scan,
                        done.update(role, true),
                        taken.push(id),
                        (rounds - 1) as nat,
                    ),
                    None => lemma_given_out_bound(
                        scan,
                        done.update(role, true),
                        taken,
                        (rounds - 1) as nat,
                    ),
                }
            },
        }
    }
}

/// The size of the party among cards on a battlefield.
pub fn count_party(game: &GameState, ids: &Vec<CardId>) -> (r: i32)
    ensures
        r == party_size(*game, ids@),
{
    let mut filled: Vec<bool> = Vec::new();
    filled.push(false);
    filled.push(false);
    filled.push(false);
    filled.push(false);
    let mut members: Vec<Vec<CardId>> = Vec::new();
    members.push(Vec::new());
    members.push(Vec::new());
    members.push(Vec::new());
    members.push(Vec::new());
    let mut s = Scan { filled, wild: 0, members };
    let ghost mut scan = empty_scan();
    let ghost all = scan_from(*game, ids@, empty_scan());
    assert(s.filled@ =~= scan.filled);
    assert(forall|role: int|
        0 <= role < 4 ==> (#[trigger] s.members@[role])@ =~= scan.members[role]);
    assert(ids@.skip(0) =~= ids@);
    let mut i: usize = 0;
    while i < ids.len() && count_filled(&s, Ghost(scan)) < 4
        invariant
            i <= ids@.len(),
            s.shows(scan),
            s.wild <= 4,
            all == scan_from(*game, ids@.skip(i as int), scan),
        decreases ids@.len() - i,
    {
        assert(ids@.skip(i as int).skip(1) =~= ids@.skip(i + 1));
        let ghost before = scan;
        if let Some(c) = game.card(ids[i]) {
            take_in(&mut s, ids[i], c, Ghost(scan));
            proof {
                scan = scanned(scan, ids@[i as int], *c);
            }
        }
        i = i + 1;
    }
    assert(scan == all);
    let n: usize = count_filled(&s, Ghost(scan));
    if n >= 4 {
        return 4;
    }
    let mut done: Vec<bool> = Vec::new();
    done.push(false);
    done.push(false);
    done.push(false);
    done.push(false);
    assert(done@ =~= Seq::new(4, |i: int| false));
    let mut taken: Vec<CardId> = Vec::new();
    let mut given: usize = 0;
    let mut rounds: usize = 4;
    let ghost total = given_out(scan, done@, taken@, 4);
    proof {
        lemma_given_out_bound(scan, done@, taken@, 4);
    }
    while rounds > 0
        invariant
            rounds <= 4,
            s.shows(scan),
            done@.len() == 4,
            total <= 4,
            total == given + given_out(scan, done@, taken@, rounds as nat),
        decreases rounds,
    {
        match find_next_role(&s, &done, Ghost(scan)) {
            Some(role) => {
                assert(s.members@[role as int]@ == scan.members[role as int]);
                if let Some(id) = find_free(&s.members[role], &taken) {
                    taken.push(id);
                    given = given + 1;
                }
                done.set(role, true);
            },
            None => {
                assert(given_out(scan, done@, taken@, (rounds - 1) as nat) == 0);
            },
        }
        rounds = rounds - 1;
    }
    let sum: usize = n + given;
    if sum > 4 {
        4
    } else {
        sum as i32
    }
}

/// A party has at most four members.
pub proof fn law_party_of_four(game: GameState, ids: Seq<CardId>)
    ensures
        party_size(game, ids) <= 4,
{
}

} // verus!
