//! Mana atoms and the symbols of mana costs.

use vstd::prelude::*;
use crate::text::{join, joined, string_views, text_eq};

verus! {

pub const WHITE: u16 = 1;

pub const BLUE: u16 = 2;

pub const BLACK: u16 = 4;

pub const RED: u16 = 8;

pub const GREEN: u16 = 16;

pub const COLORLESS: u16 = 32;

pub const GENERIC: u16 = 64;

pub const IS_X: u16 = 256;

pub const OR_2_GENERIC: u16 = 512;

pub const OR_2_LIFE: u16 = 1024;

pub const IS_SNOW: u16 = 2048;

/// All the colors.
pub const COLORS_SUPERPOSITION: u16 = 31;

/// The colors and colorless mana.
pub const COLORS_AND_COLORLESS: u16 = 63;

/// A symbol of a mana cost: what may pay it, as bits.
#[derive(Debug, Clone, Copy, PartialEq, Eq, Structural, Hash)]
pub struct ManaCostShard {
    pub mask: u16,
}

/// The generic symbol.
pub const SHARD_GENERIC: u16 = 64;

/// The symbol for a variable amount.
pub const SHARD_X: u16 = 256;

/// The symbol for a variable amount of one color.
pub const SHARD_COLORED_X: u16 = 287;

pub open spec fn has_bits(mask: u16, bits: u16) -> bool {
    mask & bits != 0
}

impl ManaCostShard {
    pub open spec fn of(mask: u16) -> ManaCostShard {
        ManaCostShard { mask }
    }

    pub open spec fn generic_like(&self) -> bool {
        has_bits(self.mask, GENERIC) || has_bits(self.mask, IS_X) || has_bits(self.mask, IS_SNOW)
            || has_bits(self.mask, OR_2_GENERIC)
    }

    pub fn is_generic(&self) -> (r: bool)
        ensures
            r == self.generic_like(),
    {
        self.mask & GENERIC != 0 || self.mask & IS_X != 0 || self.mask & IS_SNOW != 0 || self.mask
            & OR_2_GENERIC != 0
    }

    pub open spec fn or_2_generic(&self) -> bool {
        has_bits(self.mask, OR_2_GENERIC)
    }

    pub fn is_or_2_generic(&self) -> (r: bool)
        ensures
            r == self.or_2_generic(),
    {
        self.mask & OR_2_GENERIC != 0
    }

    pub open spec fn phyrexian(&self) -> bool {
        has_bits(self.mask, OR_2_LIFE)
    }

    pub fn is_phyrexian(&self) -> (r: bool)
        ensures
            r == self.phyrexian(),
    {
        self.mask & OR_2_LIFE != 0
    }

    pub open spec fn snow(&self) -> bool {
        has_bits(self.mask, IS_SNOW)
    }

    pub fn is_snow(&self) -> (r: bool)
        ensures
            r == self.snow(),
    {
        self.mask & IS_SNOW != 0
    }

    pub open spec fn colorless(&self) -> bool {
        has_bits(self.mask, COLORLESS)
    }

    pub fn is_colorless(&self) -> (r: bool)
        ensures
            r == self.colorless(),
    {
        self.mask & COLORLESS != 0
    }

    pub open spec fn colors(&self) -> u16 {
        self.mask & COLORS_SUPERPOSITION
    }

    pub fn color_mask(&self) -> (r: u16)
        ensures
            r == self.colors(),
    {
        self.mask & COLORS_SUPERPOSITION
    }

    /// Whether mana of some colors pays the symbol.
    pub open spec fn payable_with(&self, colors: u16) -> bool {
        self.or_2_generic() || !has_bits(self.mask, COLORS_AND_COLORLESS) || has_bits(
            self.mask,
            colors,
        )
    }

    pub fn can_be_paid_with(&self, colors: u16) -> (r: bool)
        ensures
            r == self.payable_with(colors),
    {
        self.is_or_2_generic() || self.mask & COLORS_AND_COLORLESS == 0 || self.mask & colors != 0
    }

    /// Whether the symbol is one of a variable amount.
    pub open spec fn variable(&self) -> bool {
        self.mask == SHARD_X || self.mask == SHARD_COLORED_X
    }

    pub fn is_variable(&self) -> (r: bool)
        ensures
            r == self.variable(),
    {
        self.mask == SHARD_X || self.mask == SHARD_COLORED_X
    }
}

/// Whether mana of a color pays a symbol.
pub fn can_pay_for_shard_with_color(shard: ManaCostShard, color: u16) -> (r: bool)
    ensures
        r == shard.payable_with(color),
{
    shard.can_be_paid_with(color)
}

/// Whether mana of a color, as it lies in a pool, pays a symbol.
pub open spec fn pool_pays(shard: ManaCostShard, color: u16) -> bool {
    !(shard.colorless() && color == GENERIC) && (shard.payable_with(color) || shard.payable_with(
        0,
    ))
}

pub fn pool_can_pay_for_shard_with_color(shard: ManaCostShard, color: u16) -> (r: bool)
    ensures
        r == pool_pays(shard, color),
{
    if shard.is_colorless() && color == GENERIC {
        return false;
    }
    shard.can_be_paid_with(color) || shard.can_be_paid_with(0)
}

/// The symbol of one color.
pub open spec fn mono_shard(color: u16) -> ManaCostShard {
    if color == WHITE || color == BLUE || color == BLACK || color == RED || color == GREEN {
        ManaCostShard { mask: color }
    } else {
        ManaCostShard { mask: COLORLESS }
    }
}

pub fn mono_color_shard(color: u16) -> (r: ManaCostShard)
    ensures
        r == mono_shard(color),
{
    if color == WHITE || color == BLUE || color == BLACK || color == RED || color == GREEN {
        ManaCostShard { mask: color }
    } else {
        ManaCostShard { mask: COLORLESS }
    }
}

/// The five colors in their usual order.
pub open spec fn wubrg(i: int) -> u16 {
    if i == 0 {
        WHITE
    } else if i == 1 {
        BLUE
    } else if i == 2 {
        BLACK
    } else if i == 3 {
        RED
    } else {
        GREEN
    }
}

pub fn nth_color(i: usize) -> (r: u16)
    ensures
        r == wubrg(i as int),
{
    if i == 0 {
        WHITE
    } else if i == 1 {
        BLUE
    } else if i == 2 {
        BLACK
    } else if i == 3 {
        RED
    } else {
        GREEN
    }
}

/// The color that a set of colors is named by first.
pub open spec fn leading_color(mask: u16) -> Option<u16> {
    let m = mask & COLORS_SUPERPOSITION;
    if m == 0 {
        None
    } else if m == 1 || m == 3 || m == 5 || m == 7 || m == 15 || m == 21 || m == 31 {
        Some(WHITE)
    } else if m == 2 || m == 6 || m == 10 || m == 11 || m == 14 || m == 30 {
        Some(BLUE)
    } else if m == 4 || m == 12 || m == 20 || m == 22 || m == 28 || m == 29 {
        Some(BLACK)
    } else if m == 8 || m == 9 || m == 13 || m == 24 || m == 25 || m == 27 {
        Some(RED)
    } else {
        Some(GREEN)
    }
}

/// The place of the color that a symbol is named by first; a symbol without color comes last.
pub open spec fn color_rank(shard: ManaCostShard) -> u8 {
    match leading_color(shard.colors()) {
        Some(c) => if c == WHITE {
            0
        } else if c == BLUE {
            1
        } else if c == BLACK {
            2
        } else if c == RED {
            3
        } else {
            4
        },
        None => 5,
    }
}

fn find_leading_color(mask: u16) -> (r: Option<u16>)
    ensures
        r == leading_color(mask),
{
    let m: u16 = mask & COLORS_SUPERPOSITION;
    if m == 0 {
        None
    } else if m == 1 || m == 3 || m == 5 || m == 7 || m == 15 || m == 21 || m == 31 {
        Some(WHITE)
    } else if m == 2 || m == 6 || m == 10 || m == 11 || m == 14 || m == 30 {
        Some(BLUE)
    } else if m == 4 || m == 12 || m == 20 || m == 22 || m == 28 || m == 29 {
        Some(BLACK)
    } else if m == 8 || m == 9 || m == 13 || m == 24 || m == 25 || m == 27 {
        Some(RED)
    } else {
        Some(GREEN)
    }
}

pub fn shard_color_rank(shard: ManaCostShard) -> (r: u8)
    ensures
        r == color_rank(shard),
{
    match find_leading_color(shard.color_mask()) {
        Some(c) => if c == WHITE {
            0
        } else if c == BLUE {
            1
        } else if c == BLACK {
            2
        } else if c == RED {
            3
        } else {
            4
        },
        None => 5,
    }
}

// ---- mana as text ----

/// The letter of an atom.
pub open spec fn letter_of(atom: u16) -> Seq<char> {
    if atom == WHITE {
        "W"@
    } else if atom == BLUE {
        "U"@
    } else if atom == BLACK {
        "B"@
    } else if atom == RED {
        "R"@
    } else if atom == GREEN {
        "G"@
    } else {
        "C"@
    }
}

pub fn atom_short(atom: u16) -> (r: &'static str)
    ensures
        r@ == letter_of(atom),
{
    if atom == WHITE {
        "W"
    } else if atom == BLUE {
        "U"
    } else if atom == BLACK {
        "B"
    } else if atom == RED {
        "R"
    } else if atom == GREEN {
        "G"
    } else {
        "C"
    }
}

/// The letters of atoms.
pub open spec fn letters(atoms: Seq<u16>) -> Seq<Seq<char>> {
    Seq::new(atoms.len(), |i: int| letter_of(atoms[i]))
}

/// Atoms as text.
pub open spec fn atoms_text(atoms: Seq<u16>) -> Seq<char> {
    joined(letters(atoms), " "@)
}

pub fn atoms_as_mana_string(atoms: &Vec<u16>) -> (r: String)
    ensures
        r@ == atoms_text(atoms@),
{
    let mut parts: Vec<String> = Vec::new();
    let mut i: usize = 0;
    while i < atoms.len()
        invariant
            i <= atoms@.len(),
            parts@.len() == i,
            forall|k: int| 0 <= k < i ==> (#[trigger] parts@[k])@ == letter_of(atoms@[k]),
        decreases atoms@.len() - i,
    {
        parts.push(atom_short(atoms[i]).to_string());
        i = i + 1;
    }
    assert(string_views(parts@) =~= letters(atoms@));
    join(&parts, " ")
}

/// Atoms over and over.
pub open spec fn repeated(atoms: Seq<u16>, n: nat) -> Seq<u16>
    decreases n,
{
    if n == 0 {
        Seq::empty()
    } else {
        repeated(atoms, (n - 1) as nat) + atoms
    }
}

pub fn repeat_atoms(atoms: &Vec<u16>, n: usize) -> (r: Vec<u16>)
    ensures
        r@ == repeated(atoms@, n as nat),
{
    let mut out: Vec<u16> = Vec::new();
    let mut i: usize = 0;
    while i < n
        invariant
            i <= n,
            out@ == repeated(atoms@, i as nat),
        decreases n - i,
    {
        append_atoms(&mut out, atoms);
        i = i + 1;
    }
    out
}

pub fn append_atoms(out: &mut Vec<u16>, more: &Vec<u16>)
    ensures
        final(out)@ == old(out)@ + more@,
{
    let ghost start = out@;
    let mut i: usize = 0;
    assert(start + more@.take(0) =~= start);
    while i < more.len()
        invariant
            i <= more@.len(),
            out@ == start + more@.take(i as int),
        decreases more@.len() - i,
    {
        assert(more@.take(i + 1) =~= more@.take(i as int).push(more@[i as int]));
        assert((start + more@.take(i as int)).push(more@[i as int]) =~= start + more@.take(i + 1));
        out.push(more[i]);
        i = i + 1;
    }
    assert(more@.take(i as int) =~= more@);
}

pub fn copy_atoms(atoms: &Vec<u16>) -> (r: Vec<u16>)
    ensures
        r@ == atoms@,
{
    let mut out: Vec<u16> = Vec::new();
    append_atoms(&mut out, atoms);
    assert(out@ =~= atoms@);
    out
}

pub fn has_atom(atoms: &Vec<u16>, atom: u16) -> (r: bool)
    ensures
        r == atoms@.contains(atom),
{
    let mut i: usize = 0;
    while i < atoms.len()
        invariant
            i <= atoms@.len(),
            forall|k: int| 0 <= k < i ==> atoms@[k] != atom,
        decreases atoms@.len() - i,
    {
        if atoms[i] == atom {
            assert(atoms@[i as int] == atom);
            return true;
        }
        i = i + 1;
    }
    false
}

/// The mana atom of a colour name or letter, in lower case.
pub open spec fn atom_named(name: Seq<char>) -> u16 {
    if name == "w"@ || name == "white"@ {
        WHITE
    } else if name == "u"@ || name == "blue"@ {
        BLUE
    } else if name == "b"@ || name == "black"@ {
        BLACK
    } else if name == "r"@ || name == "red"@ {
        RED
    } else if name == "g"@ || name == "green"@ {
        GREEN
    } else if name == "c"@ || name == "colorless"@ {
        COLORLESS
    } else {
        0
    }
}

pub fn atom_from_name(name: &str) -> (r: u16)
    ensures
        r == atom_named(name@),
{
    if text_eq(name, "w") || text_eq(name, "white") {
        WHITE
    } else if text_eq(name, "u") || text_eq(name, "blue") {
        BLUE
    } else if text_eq(name, "b") || text_eq(name, "black") {
        BLACK
    } else if text_eq(name, "r") || text_eq(name, "red") {
        RED
    } else if text_eq(name, "g") || text_eq(name, "green") {
        GREEN
    } else if text_eq(name, "c") || text_eq(name, "colorless") {
        COLORLESS
    } else {
        0
    }
}

} // verus!
