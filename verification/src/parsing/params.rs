//! Parameter lists of card scripts: `Key$ Value | Key$ Value`.

use vstd::prelude::*;
use crate::parsing::compiled::{cached_compiled_selector, selector_reads};
use crate::parsing::selector::CompiledSelector;
use crate::text::{
    as_int, eq_ignore_case, first_place, int_value, lemma_first_place, lemma_text_lt_irreflexive,
    lemma_text_lt_total, lemma_text_lt_transitive, less, parse_i32, parse_unsigned, pieces, push_text, same_ignoring_case,
    split, split_once, string_views, text_eq, text_lt, trim, trimmed, trimmed_nonempty,
    unsigned_value, views,
};
use crate::types::{zone_named, ZoneType};

verus! {

/// A parameter: its key and its value.
pub struct ParamEntry {
    pub key: String,
    pub value: String,
}

/// Parameters by key, kept in the order of their keys.
pub struct Params {
    entries: Vec<ParamEntry>,
}

spec fn holds(e: Seq<ParamEntry>, k: Seq<char>, i: int) -> bool {
    0 <= i < e.len() && e[i].key@ == k
}

spec fn in_order(e: Seq<ParamEntry>) -> bool {
    forall|i: int, j: int|
        0 <= i < j < e.len() ==> text_lt(#[trigger] e[i].key@, #[trigger] e[j].key@)
}

spec fn contents(e: Seq<ParamEntry>) -> Map<Seq<char>, Seq<char>> {
    Map::new(
        |k: Seq<char>| exists|i: int| holds(e, k, i),
        |k: Seq<char>| e[choose|i: int| holds(e, k, i)].value@,
    )
}

proof fn lemma_unique(e: Seq<ParamEntry>, k: Seq<char>, i: int, j: int)
    requires
        in_order(e),
        holds(e, k, i),
        holds(e, k, j),
    ensures
        i == j,
{
    lemma_text_lt_irreflexive(k);
    if i < j {
        assert(text_lt(e[i].key@, e[j].key@));
    }
    if j < i {
        assert(text_lt(e[j].key@, e[i].key@));
    }
}

proof fn lemma_contents(e: Seq<ParamEntry>, i: int)
    requires
        in_order(e),
        0 <= i < e.len(),
    ensures
        contents(e).dom().contains(e[i].key@),
        contents(e)[e[i].key@] == e[i].value@,
{
    let k = e[i].key@;
    assert(holds(e, k, i));
    let j = choose|j: int| holds(e, k, j);
    lemma_unique(e, k, i, j);
}

proof fn lemma_insert(e: Seq<ParamEntry>, i: int, x: ParamEntry)
    requires
        in_order(e),
        0 <= i <= e.len(),
        forall|j: int| 0 <= j < i ==> text_lt(#[trigger] e[j].key@, x.key@),
        i < e.len() ==> text_lt(x.key@, e[i].key@),
    ensures
        in_order(e.insert(i, x)),
        contents(e.insert(i, x)) == contents(e).insert(x.key@, x.value@),
{
    let f = e.insert(i, x);
    assert forall|a: int, b: int| 0 <= a < b < f.len() implies text_lt(
        #[trigger] f[a].key@,
        #[trigger] f[b].key@,
    ) by {
        if b == i {
            assert(f[a] == e[a]);
        } else if a == i {
            assert(f[b] == e[b - 1]);
            if b - 1 > i {
                assert(text_lt(e[i].key@, e[b - 1].key@));
                lemma_text_lt_transitive(x.key@, e[i].key@, e[b - 1].key@);
            }
        } else {
            let a1 = if a < i { a } else { a - 1 };
            let b1 = if b < i { b } else { b - 1 };
            assert(f[a] == e[a1] && f[b] == e[b1]);
            assert(text_lt(e[a1].key@, e[b1].key@));
        }
    }
    let m = contents(e).insert(x.key@, x.value@);
    assert(f[i] == x);
    assert forall|k: Seq<char>| #[trigger] contents(f).dom().contains(k) == m.dom().contains(
        k,
    ) by {
        if exists|j: int| holds(f, k, j) {
            let j = choose|j: int| holds(f, k, j);
            if j != i {
                let j1 = if j < i { j } else { j - 1 };
                assert(holds(e, k, j1));
            }
        }
        if exists|j: int| holds(e, k, j) {
            let j = choose|j: int| holds(e, k, j);
            let j1 = if j < i { j } else { j + 1 };
            assert(holds(f, k, j1));
        }
        if k == x.key@ {
            assert(holds(f, k, i));
        }
    }
    assert forall|k: Seq<char>| #[trigger] contents(f).dom().contains(k) implies contents(f)[k]
        == m[k] by {
        let j = choose|j: int| holds(f, k, j);
        lemma_contents(f, j);
        if j != i {
            let j1 = if j < i { j } else { j - 1 };
            assert(f[j] == e[j1]);
            lemma_contents(e, j1);
            if k == x.key@ {
                assert(holds(f, k, i));
                lemma_unique(f, k, i, j);
            }
        }
    }
    assert(contents(f) =~= m);
}

proof fn lemma_update(e: Seq<ParamEntry>, i: int, x: ParamEntry)
    requires
        in_order(e),
        0 <= i < e.len(),
        e[i].key@ == x.key@,
    ensures
        in_order(e.update(i, x)),
        contents(e.update(i, x)) == contents(e).insert(x.key@, x.value@),
{
    let f = e.update(i, x);
    assert forall|a: int, b: int| 0 <= a < b < f.len() implies text_lt(
        #[trigger] f[a].key@,
        #[trigger] f[b].key@,
    ) by {
        assert(text_lt(e[a].key@, e[b].key@));
    }
    let m = contents(e).insert(x.key@, x.value@);
    assert forall|k: Seq<char>| #[trigger] contents(f).dom().contains(k) == m.dom().contains(
        k,
    ) by {
        if exists|j: int| holds(f, k, j) {
            let j = choose|j: int| holds(f, k, j);
            assert(holds(e, k, j));
        }
        if exists|j: int| holds(e, k, j) {
            let j = choose|j: int| holds(e, k, j);
            assert(holds(f, k, j));
        }
        if k == x.key@ {
            assert(holds(f, k, i));
        }
    }
    assert forall|k: Seq<char>| #[trigger] contents(f).dom().contains(k) implies contents(f)[k]
        == m[k] by {
        let j = choose|j: int| holds(f, k, j);
        lemma_contents(f, j);
        lemma_contents(e, j);
        if j != i && k == x.key@ {
            assert(holds(f, k, i));
            lemma_unique(f, k, i, j);
        }
    }
    assert(contents(f) =~= m);
}

proof fn lemma_remove(e: Seq<ParamEntry>, i: int)
    requires
        in_order(e),
        0 <= i < e.len(),
    ensures
        in_order(e.remove(i)),
        contents(e.remove(i)) == contents(e).remove(e[i].key@),
{
    let f = e.remove(i);
    let x = e[i];
    assert forall|a: int, b: int| 0 <= a < b < f.len() implies text_lt(
        #[trigger] f[a].key@,
        #[trigger] f[b].key@,
    ) by {
        let a1 = if a < i { a } else { a + 1 };
        let b1 = if b < i { b } else { b + 1 };
        assert(f[a] == e[a1] && f[b] == e[b1]);
        assert(text_lt(e[a1].key@, e[b1].key@));
    }
    let m = contents(e).remove(x.key@);
    assert forall|k: Seq<char>| #[trigger] contents(f).dom().contains(k) == m.dom().contains(
        k,
    ) by {
        if exists|j: int| holds(f, k, j) {
            let j = choose|j: int| holds(f, k, j);
            let j1 = if j < i { j } else { j + 1 };
            assert(holds(e, k, j1));
            if k == x.key@ {
                lemma_unique(e, k, i, j1);
            }
        }
        if k != x.key@ && exists|j: int| holds(e, k, j) {
            let j = choose|j: int| holds(e, k, j);
            let j1 = if j < i { j } else { j - 1 };
            assert(holds(f, k, j1));
        }
    }
    assert forall|k: Seq<char>| #[trigger] contents(f).dom().contains(k) implies contents(f)[k]
        == m[k] by {
        let j = choose|j: int| holds(f, k, j);
        let j1 = if j < i { j } else { j + 1 };
        lemma_contents(f, j);
        lemma_contents(e, j1);
    }
    assert(contents(f) =~= m);
}

impl View for Params {
    type V = Map<Seq<char>, Seq<char>>;

    closed spec fn view(&self) -> Map<Seq<char>, Seq<char>> {
        contents(self.entries@)
    }
}

/// What one piece of a parameter list says: the text before the first `$ `, or else before the
/// first `$`, is the key, and what follows is the value.
pub open spec fn entry_of(piece: Seq<char>) -> Option<(Seq<char>, Seq<char>)> {
    let p = trimmed(piece);
    match first_place(p, "$ "@) {
        Some(i) => Some((trimmed(p.take(i)), trimmed(p.skip(i + "$ "@.len())))),
        None => match first_place(p, "$"@) {
            Some(i) => Some((trimmed(p.take(i)), trimmed(p.skip(i + "$"@.len())))),
            None => None,
        },
    }
}

/// The parameters that a list of pieces gives; a later piece replaces an earlier one.
pub open spec fn listed(parts: Seq<Seq<char>>) -> Map<Seq<char>, Seq<char>>
    decreases parts.len(),
{
    if parts.len() == 0 {
        Map::empty()
    } else {
        let before = listed(parts.drop_last());
        match entry_of(parts.last()) {
            Some((k, v)) => before.insert(k, v),
            None => before,
        }
    }
}

/// The parameters that a text writes.
pub open spec fn params_of(raw: Seq<char>) -> Map<Seq<char>, Seq<char>> {
    listed(pieces(raw, "|"@))
}

fn read_entry(piece: &str) -> (r: Option<(&str, &str)>)
    ensures
        r is Some == entry_of(piece@) is Some,
        r matches Some((k, v)) ==> entry_of(piece@) == Some((k@, v@)),
{
    let p = trim(piece);
    proof {
        lemma_first_place(p@, "$ "@);
        lemma_first_place(p@, "$"@);
    }
    if let Some((k, v)) = split_once(p, "$ ") {
        return Some((trim(k), trim(v)));
    }
    if let Some((k, v)) = split_once(p, "$") {
        return Some((trim(k), trim(v)));
    }
    None
}

/// What a lookup finds.
pub open spec fn found(m: Map<Seq<char>, Seq<char>>, key: Seq<char>) -> Option<Seq<char>> {
    if m.dom().contains(key) {
        Some(m[key])
    } else {
        None
    }
}

pub open spec fn text_of(v: Option<&str>) -> Option<Seq<char>> {
    match v {
        Some(t) => Some(t@),
        None => None,
    }
}

pub open spec fn string_of(v: Option<String>) -> Option<Seq<char>> {
    match v {
        Some(t) => Some(t@),
        None => None,
    }
}

/// The zone that a value names; a deck is a library.
pub open spec fn zone_value(value: Seq<char>) -> Option<ZoneType> {
    let v = trimmed(value);
    if same_ignoring_case(v, "Deck"@) {
        Some(ZoneType::Library)
    } else {
        zone_named(v)
    }
}

pub(crate) fn read_zone(value: &str) -> (r: Option<ZoneType>)
    ensures
        r == zone_value(value@),
{
    let v = trim(value);
    if eq_ignore_case(v, "Deck") {
        Some(ZoneType::Library)
    } else {
        ZoneType::from_str_compat(v)
    }
}

/// The zones that a list of words names, without the words that name none.
pub open spec fn zones_among(words: Seq<Seq<char>>) -> Seq<ZoneType>
    decreases words.len(),
{
    if words.len() == 0 {
        Seq::empty()
    } else {
        let before = zones_among(words.drop_last());
        match zone_value(words.last()) {
            Some(z) => before.push(z),
            None => before,
        }
    }
}

/// A list in which words stand between commas and blanks.
pub open spec fn listed_words(value: Seq<char>) -> Seq<Seq<char>> {
    pieces(crate::text::replaced(value, ',', ' '), " "@)
}

/// What the value of a parameter is: a selector, a reference, or neither.
#[derive(Debug, Clone, Copy, PartialEq, Eq, Structural)]
pub enum ParamKind {
    Selector,
    Reference,
    Raw,
}

/// What is said where a parameter is missing.
pub open spec fn missing_warning(
    value: Option<Seq<char>>,
    key: Seq<char>,
    context: Seq<char>,
) -> Option<Seq<char>> {
    match value {
        Some(_) => None,
        None => Some("[parse] missing required param '"@ + key + "' in "@ + context),
    }
}

fn word_missing(key: &str, context: &str) -> (r: String)
    ensures
        r@ == "[parse] missing required param '"@ + key@ + "' in "@ + context@,
{
    let mut out = "[parse] missing required param '".to_string();
    push_text(&mut out, key);
    push_text(&mut out, "' in ");
    push_text(&mut out, context);
    out
}

impl Params {
    /// Keys are in order, none twice.
    pub closed spec fn wf(&self) -> bool {
        in_order(self.entries@)
    }

    pub fn new() -> (r: Params)
        ensures
            r.wf(),
            r@ == Map::<Seq<char>, Seq<char>>::empty(),
    {
        let r = Params { entries: Vec::new() };
        assert(r@ =~= Map::<Seq<char>, Seq<char>>::empty());
        r
    }

    /// Reads a parameter list. Later keys replace earlier ones.
    pub fn from_raw(raw: &str) -> (r: Params)
        ensures
            r.wf(),
            r@ == params_of(raw@),
    {
        proof {
            reveal_strlit("|");
        }
        let parts = split(raw, "|");
        let ghost texts = pieces(raw@, "|"@);
        let mut entries: Vec<(&str, &str)> = Vec::new();
        let mut i: usize = 0;
        assert(texts.take(0) =~= Seq::empty());
        while i < parts.len()
            invariant
                i <= parts@.len(),
                texts == views(parts@),
                parsed_map(entries@) == listed(texts.take(i as int)),
            decreases parts@.len() - i,
        {
            proof {
                assert(texts.take(i + 1).drop_last() =~= texts.take(i as int));
                assert(texts.take(i + 1).last() == parts@[i as int]@);
            }
            if let Some(entry) = read_entry(parts[i]) {
                let ghost before = entries@;
                entries.push(entry);
                assert(entries@.drop_last() =~= before);
            }
            i = i + 1;
        }
        assert(texts.take(i as int) =~= texts);
        Params::from_parsed(entries.as_slice())
    }

    /// Parameters from keys and values that were read already. Later keys replace earlier ones.
    pub fn from_parsed(parsed: &[(&str, &str)]) -> (r: Params)
        ensures
            r.wf(),
            r@ == parsed_map(parsed@),
    {
        let mut out = Params::new();
        let mut i: usize = 0;
        assert(parsed@.take(0) =~= Seq::empty());
        while i < parsed.len()
            invariant
                i <= parsed@.len(),
                out.wf(),
                out@ == parsed_map(parsed@.take(i as int)),
            decreases parsed@.len() - i,
        {
            assert(parsed@.take(i + 1).drop_last() =~= parsed@.take(i as int));
            let (key, value) = parsed[i];
            out.put(key.to_owned(), value.to_owned());
            i = i + 1;
        }
        assert(parsed@.take(i as int) =~= parsed@);
        out
    }

    /// Parameters from pairs; later keys replace earlier ones.
    pub fn from_map(map: Vec<(String, String)>) -> (r: Params)
        ensures
            r.wf(),
            r@ == pairs_map(map@),
    {
        let mut out = Params::new();
        let mut i: usize = 0;
        while i < map.len()
            invariant
                i <= map@.len(),
                out.wf(),
                out@ == pairs_map(map@.take(i as int)),
            decreases map@.len() - i,
        {
            assert(map@.take(i + 1).drop_last() =~= map@.take(i as int));
            out.put(map[i].0.clone(), map[i].1.clone());
            i = i + 1;
        }
        assert(map@.take(i as int) =~= map@);
        out
    }

    /// The parameters in the order of their keys.
    pub fn inner(&self) -> (r: &Vec<ParamEntry>)
        requires
            self.wf(),
        ensures
            lists_all(r@, self@),
    {
        proof {
            lemma_lists_all(self.entries@);
        }
        &self.entries
    }

    /// Gives the parameters up, in the order of their keys.
    pub fn into_inner(self) -> (r: Vec<ParamEntry>)
        requires
            self.wf(),
        ensures
            lists_all(r@, self@),
    {
        proof {
            lemma_lists_all(self.entries@);
        }
        self.entries
    }

    /// Where a key stands, or would stand.
    fn position(&self, key: &str) -> (r: (usize, bool))
        requires
            self.wf(),
        ensures
            r.0 <= self.entries@.len(),
            r.1 ==> r.0 < self.entries@.len() && self.entries@[r.0 as int].key@ == key@,
            !r.1 ==> !self@.dom().contains(key@) && (r.0 < self.entries@.len() ==> text_lt(
                key@,
                self.entries@[r.0 as int].key@,
            )),
            forall|j: int| 0 <= j < r.0 ==> text_lt(#[trigger] self.entries@[j].key@, key@),
    {
        let n: usize = self.entries.len();
        let mut i: usize = 0;
        while i < n && less(self.entries[i].key.as_str(), key)
            invariant
                n == self.entries@.len(),
                i <= n,
                forall|j: int| 0 <= j < i ==> text_lt(#[trigger] self.entries@[j].key@, key@),
            decreases n - i,
        {
            i = i + 1;
        }
        let here = i < n && text_eq(self.entries[i].key.as_str(), key);
        proof {
            if !here {
                let e = self.entries@;
                if i < n {
                    lemma_text_lt_total(e[i as int].key@, key@);
                }
                if exists|j: int| holds(e, key@, j) {
                    let j = choose|j: int| holds(e, key@, j);
                    lemma_text_lt_irreflexive(key@);
                    if j > i {
                        assert(text_lt(e[i as int].key@, e[j].key@));
                        lemma_text_lt_transitive(key@, e[i as int].key@, e[j].key@);
                    }
                    assert(false);
                }
            }
        }
        (i, here)
    }

    /// The value of a key.
    pub fn get(&self, key: &str) -> (r: Option<&str>)
        requires
            self.wf(),
        ensures
            text_of(r) == found(self@, key@),
    {
        let (i, here) = self.position(key);
        if here {
            proof {
                lemma_contents(self.entries@, i as int);
            }
            Some(self.entries[i].value.as_str())
        } else {
            None
        }
    }

    /// The value of a key, or a default.
    pub fn get_or_default<'a>(&'a self, key: &str, default: &'a str) -> (r: &'a str)
        requires
            self.wf(),
        ensures
            r@ == (match found(self@, key@) {
                Some(v) => v,
                None => default@,
            }),
    {
        match self.get(key) {
            Some(v) => v,
            None => default,
        }
    }

    /// Whether a key is given.
    pub fn has(&self, key: &str) -> (r: bool)
        requires
            self.wf(),
        ensures
            r == self@.dom().contains(key@),
    {
        self.get(key).is_some()
    }

    /// Sets a key.
    pub fn put(&mut self, key: String, value: String)
        requires
            old(self).wf(),
        ensures
            final(self).wf(),
            final(self)@ == old(self)@.insert(key@, value@),
    {
        let (i, here) = self.position(key.as_str());
        let entry = ParamEntry { key, value };
        let ghost e = self.entries@;
        if here {
            proof {
                lemma_update(e, i as int, entry);
            }
            self.entries[i] = entry;
        } else {
            proof {
                lemma_insert(e, i as int, entry);
            }
            self.entries.insert(i, entry);
        }
    }

    /// Takes a key out and hands back its value.
    pub fn remove(&mut self, key: &str) -> (r: Option<String>)
        requires
            old(self).wf(),
        ensures
            final(self).wf(),
            final(self)@ == old(self)@.remove(key@),
            string_of(r) == found(old(self)@, key@),
    {
        let (i, here) = self.position(key);
        let ghost e = self.entries@;
        if here {
            proof {
                lemma_remove(e, i as int);
                lemma_contents(e, i as int);
            }
            let entry = self.entries.remove(i);
            Some(entry.value)
        } else {
            assert(self@.remove(key@) =~= self@);
            None
        }
    }

    pub fn is_empty(&self) -> (r: bool)
        requires
            self.wf(),
        ensures
            r == (self@ == Map::<Seq<char>, Seq<char>>::empty()),
    {
        proof {
            if self.entries@.len() > 0 {
                lemma_contents(self.entries@, 0);
            } else {
                assert(self@ =~= Map::<Seq<char>, Seq<char>>::empty());
            }
        }
        self.entries.len() == 0
    }

    /// Whether one of the keys is given.
    pub fn contains_any_key(&self, keys: &[&str]) -> (r: bool)
        requires
            self.wf(),
        ensures
            r == exists|i: int|
                0 <= i < keys@.len() && self@.dom().contains((#[trigger] keys@[i])@),
    {
        let mut i: usize = 0;
        while i < keys.len()
            invariant
                self.wf(),
                i <= keys@.len(),
                forall|k: int| 0 <= k < i ==> !self@.dom().contains((#[trigger] keys@[k])@),
            decreases keys@.len() - i,
        {
            if self.has(keys[i]) {
                assert(self@.dom().contains(keys@[i as int]@));
                return true;
            }
            i = i + 1;
        }
        false
    }

    /// Whether a key says `True`, in any case.
    pub fn is_true(&self, key: &str) -> (r: bool)
        requires
            self.wf(),
        ensures
            r == (found(self@, key@) matches Some(v) && same_ignoring_case(v, "True"@)),
    {
        match self.get(key) {
            Some(v) => eq_ignore_case(v, "True"),
            None => false,
        }
    }

    /// The number that a key gives.
    pub fn as_i32(&self, key: &str) -> (r: Option<i32>)
        requires
            self.wf(),
        ensures
            as_int(r) == (match found(self@, key@) {
                Some(v) => int_value(trimmed(v)),
                None => None,
            }),
    {
        match self.get(key) {
            Some(v) => parse_i32(trim(v)),
            None => None,
        }
    }

    /// The number that a key gives, where it is not negative.
    pub fn as_usize(&self, key: &str) -> (r: Option<usize>)
        requires
            self.wf(),
        ensures
            (match r {
                Some(n) => Some(n as int),
                None => None,
            }) == (match found(self@, key@) {
                Some(v) => unsigned_value(trimmed(v), usize::MAX as int),
                None => None,
            }),
    {
        match self.get(key) {
            Some(v) => match parse_unsigned(trim(v), usize::MAX as u64) {
                Some(n) => Some(n as usize),
                None => None,
            },
            None => None,
        }
    }

    /// The zone that a key names.
    pub fn zone_type(&self, key: &str) -> (r: Option<ZoneType>)
        requires
            self.wf(),
        ensures
            r == (match found(self@, key@) {
                Some(v) => zone_value(v),
                None => None,
            }),
    {
        match self.get(key) {
            Some(v) => read_zone(v),
            None => None,
        }
    }

    /// The zones that a key lists.
    pub fn zone_types(&self, key: &str) -> (r: Vec<ZoneType>)
        requires
            self.wf(),
        ensures
            r@ == (match found(self@, key@) {
                Some(v) => zones_among(trimmed_nonempty(listed_words(v))),
                None => Seq::empty(),
            }),
    {
        let mut out: Vec<ZoneType> = Vec::new();
        match self.get(key) {
            Some(v) => {
                proof {
                    reveal_strlit(" ");
                }
                let blanks = crate::text::replace_char(v, ',', ' ');
                let words = split_param_list_value(Some(blanks.as_str()), " ");
                let ghost all = trimmed_nonempty(listed_words(v@));
                let mut i: usize = 0;
                while i < words.len()
                    invariant
                        i <= words@.len(),
                        string_views(words@) == all,
                        out@ == zones_among(all.take(i as int)),
                    decreases words@.len() - i,
                {
                    proof {
                        assert(all.take(i + 1).drop_last() =~= all.take(i as int));
                        assert(all.take(i + 1).last() == words@[i as int]@);
                    }
                    if let Some(z) = read_zone(words[i].as_str()) {
                        out.push(z);
                    }
                    i = i + 1;
                }
                assert(all.take(i as int) =~= all);
            },
            None => {},
        }
        out
    }

    /// The selector text that a key gives.
    pub fn selector_value(&self, key: &str) -> (r: Option<&str>)
        requires
            self.wf(),
        ensures
            text_of(r) == found(self@, key@),
    {
        self.get(key)
    }

    /// The reference text that a key gives.
    pub fn reference_value(&self, key: &str) -> (r: Option<&str>)
        requires
            self.wf(),
        ensures
            text_of(r) == found(self@, key@),
    {
        self.get(key)
    }

    /// The selector that a key gives.
    pub fn selector_cloned(&self, key: &str) -> (r: Option<CompiledSelector>)
        requires
            self.wf(),
        ensures
            is_selector_for(found(self@, key@), r),
    {
        match self.get(key) {
            Some(v) => Some(cached_compiled_selector(v)),
            None => None,
        }
    }

    /// The selector that a key gives, where its value is of a kind that is one.
    pub fn selector(&self, key: &str, kind: ParamKind) -> (r: Option<CompiledSelector>)
        requires
            self.wf(),
        ensures
            kind is Raw ==> r is None,
            !(kind is Raw) ==> is_selector_for(found(self@, key@), r),
    {
        self.selector_untracked(key, kind)
    }

    /// The selector that a key gives, where its value is of a kind that is one.
    pub fn selector_untracked(&self, key: &str, kind: ParamKind) -> (r: Option<CompiledSelector>)
        requires
            self.wf(),
        ensures
            kind is Raw ==> r is None,
            !(kind is Raw) ==> is_selector_for(found(self@, key@), r),
    {
        match kind {
            ParamKind::Selector => self.selector_cloned(key),
            ParamKind::Reference => self.selector_cloned(key),
            ParamKind::Raw => None,
        }
    }

    /// The reference that a key gives, where its value is of a kind that is one.
    pub fn reference(&self, key: &str, kind: ParamKind) -> (r: Option<CompiledSelector>)
        requires
            self.wf(),
        ensures
            kind is Raw ==> r is None,
            !(kind is Raw) ==> is_selector_for(found(self@, key@), r),
    {
        self.selector_untracked(key, kind)
    }

    /// The selector of the first key that is given.
    pub fn selector_cloned_any(&self, keys: &[&str]) -> (r: Option<CompiledSelector>)
        requires
            self.wf(),
        ensures
            is_selector_for(first_found(self@, keys@), r),
    {
        let mut i: usize = 0;
        assert(keys@.skip(0) =~= keys@);
        while i < keys.len()
            invariant
                self.wf(),
                i <= keys@.len(),
                first_found(self@, keys@) == first_found(self@, keys@.skip(i as int)),
            decreases keys@.len() - i,
        {
            assert(keys@.skip(i as int).skip(1) =~= keys@.skip(i + 1));
            if let Some(s) = self.selector_cloned(keys[i]) {
                return Some(s);
            }
            i = i + 1;
        }
        None
    }

    pub fn get_cloned(&self, key: &str) -> (r: Option<String>)
        requires
            self.wf(),
        ensures
            string_of(r) == found(self@, key@),
    {
        match self.get(key) {
            Some(v) => Some(v.to_owned()),
            None => None,
        }
    }

    /// The items of a delimited value.
    pub fn split_param_list(&self, key: &str, delimiter: &str) -> (r: Vec<String>)
        requires
            self.wf(),
            delimiter@.len() > 0,
        ensures
            string_views(r@) == list_items(found(self@, key@), delimiter@),
    {
        split_param_list_value(self.get(key), delimiter)
    }

    /// A parameter that is expected to be there, and what is worth saying where it is not.
    pub fn require(&self, key: &str, context: &str) -> (r: (Option<&str>, Option<String>))
        requires
            self.wf(),
        ensures
            text_of(r.0) == found(self@, key@),
            string_of(r.1) == missing_warning(found(self@, key@), key@, context@),
    {
        match self.get(key) {
            Some(v) => (Some(v), None),
            None => (None, Some(word_missing(key, context))),
        }
    }

    /// A copy of a parameter that is expected to be there, and what is worth saying where it is not.
    pub fn require_cloned(&self, key: &str, context: &str) -> (r: (Option<String>, Option<String>))
        requires
            self.wf(),
        ensures
            string_of(r.0) == found(self@, key@),
            string_of(r.1) == missing_warning(found(self@, key@), key@, context@),
    {
        match self.get_cloned(key) {
            Some(v) => (Some(v), None),
            None => (None, Some(word_missing(key, context))),
        }
    }

    /// All parameters, in the order of their keys.
    pub fn iter(&self) -> (r: Vec<(&str, &str)>)
        requires
            self.wf(),
        ensures
            forall|i: int, j: int|
                0 <= i < j < r@.len() ==> text_lt((#[trigger] r@[i]).0@, (#[trigger] r@[j]).0@),
            forall|i: int|
                0 <= i < r@.len() ==> found(self@, (#[trigger] r@[i]).0@) == Some(r@[i].1@),
            forall|k: Seq<char>| #[trigger]
                self@.dom().contains(k) ==> exists|i: int|
                    0 <= i < r@.len() && (#[trigger] r@[i]).0@ == k,
    {
        let mut out: Vec<(&str, &str)> = Vec::new();
        let mut i: usize = 0;
        while i < self.entries.len()
            invariant
                i <= self.entries@.len(),
                out@.len() == i,
                forall|j: int|
                    0 <= j < i ==> (#[trigger] out@[j]).0@ == self.entries@[j].key@ && out@[j].1@
                        == self.entries@[j].value@,
            decreases self.entries@.len() - i,
        {
            out.push((self.entries[i].key.as_str(), self.entries[i].value.as_str()));
            i = i + 1;
        }
        proof {
            let e = self.entries@;
            assert forall|a: int, b: int| 0 <= a < b < out@.len() implies text_lt(
                (#[trigger] out@[a]).0@,
                (#[trigger] out@[b]).0@,
            ) by {
                assert(text_lt(e[a].key@, e[b].key@));
            }
            assert forall|j: int| 0 <= j < out@.len() implies found(self@, (#[trigger] out@[j]).0@)
                == Some(out@[j].1@) by {
                lemma_contents(e, j);
            }
            assert forall|k: Seq<char>| #[trigger] self@.dom().contains(k) implies exists|j: int|
                0 <= j < out@.len() && (#[trigger] out@[j]).0@ == k by {
                let j = choose|j: int| holds(e, k, j);
                assert(out@[j].0@ == k);
            }
        }
        out
    }
}

/// Whether a list holds just the parameters of a map, in the order of their keys.
pub open spec fn lists_all(entries: Seq<ParamEntry>, m: Map<Seq<char>, Seq<char>>) -> bool {
    &&& forall|i: int, j: int|
        0 <= i < j < entries.len() ==> text_lt(
            #[trigger] entries[i].key@,
            #[trigger] entries[j].key@,
        )
    &&& forall|i: int|
        0 <= i < entries.len() ==> found(m, #[trigger] entries[i].key@) == Some(entries[i].value@)
    &&& forall|k: Seq<char>| #[trigger]
        m.dom().contains(k) ==> exists|i: int|
            0 <= i < entries.len() && #[trigger] entries[i].key@ == k
}

proof fn lemma_lists_all(e: Seq<ParamEntry>)
    requires
        in_order(e),
    ensures
        lists_all(e, contents(e)),
{
    let m = contents(e);
    assert forall|i: int| 0 <= i < e.len() implies found(m, #[trigger] e[i].key@) == Some(
        e[i].value@,
    ) by {
        lemma_contents(e, i);
    }
    assert forall|k: Seq<char>| #[trigger] m.dom().contains(k) implies exists|i: int|
        0 <= i < e.len() && #[trigger] e[i].key@ == k by {
        let i = choose|i: int| holds(e, k, i);
        assert(e[i].key@ == k);
    }
}

/// The parameters that a list of keys and values gives; a later one replaces an earlier one.
pub open spec fn parsed_map(entries: Seq<(&str, &str)>) -> Map<Seq<char>, Seq<char>>
    decreases entries.len(),
{
    if entries.len() == 0 {
        Map::empty()
    } else {
        parsed_map(entries.drop_last()).insert(entries.last().0@, entries.last().1@)
    }
}

pub open spec fn pairs_map(pairs: Seq<(String, String)>) -> Map<Seq<char>, Seq<char>>
    decreases pairs.len(),
{
    if pairs.len() == 0 {
        Map::empty()
    } else {
        pairs_map(pairs.drop_last()).insert(pairs.last().0@, pairs.last().1@)
    }
}

/// The selector that an optional value writes.
pub open spec fn is_selector_for(value: Option<Seq<char>>, s: Option<CompiledSelector>) -> bool {
    match value {
        Some(v) => s matches Some(sel) && selector_reads(sel, trimmed(v)),
        None => s is None,
    }
}

/// The value of the first key that is given.
pub open spec fn first_found(m: Map<Seq<char>, Seq<char>>, keys: Seq<&str>) -> Option<Seq<char>>
    decreases keys.len(),
{
    if keys.len() == 0 {
        None
    } else {
        match found(m, keys[0]@) {
            Some(v) => Some(v),
            None => first_found(m, keys.skip(1)),
        }
    }
}

/// The trimmed, non-empty items of an optional delimited value.
pub open spec fn list_items(value: Option<Seq<char>>, delimiter: Seq<char>) -> Seq<Seq<char>> {
    match value {
        Some(v) => trimmed_nonempty(pieces(v, delimiter)),
        None => Seq::empty(),
    }
}

/// Splits a delimited value into trimmed, non-empty parts.
pub fn split_param_list_value(value: Option<&str>, delimiter: &str) -> (r: Vec<String>)
    requires
        delimiter@.len() > 0,
    ensures
        string_views(r@) == list_items(text_of(value), delimiter@),
{
    let mut out: Vec<String> = Vec::new();
    match value {
        Some(v) => {
            let parts = split(v, delimiter);
            let ghost all = pieces(v@, delimiter@);
            let mut i: usize = 0;
            assert(string_views(out@) =~= trimmed_nonempty(all.take(0)));
            while i < parts.len()
                invariant
                    i <= parts@.len(),
                    views(parts@) == all,
                    string_views(out@) == trimmed_nonempty(all.take(i as int)),
                decreases parts@.len() - i,
            {
                let ghost before = string_views(out@);
                proof {
                    assert(all.take(i + 1).drop_last() =~= all.take(i as int));
                    assert(all.take(i + 1).last() == parts@[i as int]@);
                }
                let item = trim(parts[i]);
                if item.unicode_len() > 0 {
                    out.push(item.to_owned());
                    assert(string_views(out@) =~= before.push(item@));
                }
                i = i + 1;
            }
            assert(all.take(i as int) =~= all);
        },
        None => {
            assert(string_views(out@) =~= Seq::empty());
        },
    }
    out
}

/// Whether a parameter list gives a key.
pub fn raw_has_key(raw: &str, key: &str) -> (r: bool)
    ensures
        r == params_of(raw@).dom().contains(key@),
{
    raw_get(raw, key).is_some()
}

/// Whether a parameter list gives one of the keys.
pub fn raw_has_any(raw: &str, keys: &[&str]) -> (r: bool)
    ensures
        r == exists|i: int|
            0 <= i < keys@.len() && params_of(raw@).dom().contains((#[trigger] keys@[i])@),
{
    let params = Params::from_raw(raw);
    params.contains_any_key(keys)
}

/// The value that a parameter list gives for a key.
pub fn raw_get<'a>(raw: &'a str, key: &str) -> (r: Option<&'a str>)
    ensures
        text_of(r) == found(params_of(raw@), key@),
{
    proof {
        reveal_strlit("|");
    }
    let parts: Vec<&'a str> = split(raw, "|");
    let ghost texts = pieces(raw@, "|"@);
    let mut value: Option<&'a str> = None;
    let mut i: usize = 0;
    while i < parts.len()
        invariant
            i <= parts@.len(),
            texts == views(parts@),
            text_of(value) == found(listed(texts.take(i as int)), key@),
        decreases parts@.len() - i,
    {
        proof {
            assert(texts.take(i + 1).drop_last() =~= texts.take(i as int));
            assert(texts.take(i + 1).last() == parts@[i as int]@);
        }
        if let Some((k, v)) = read_entry(parts[i]) {
            if text_eq(k, key) {
                value = Some(v);
            }
        }
        i = i + 1;
    }
    assert(texts.take(i as int) =~= texts);
    value
}

proof fn lemma_listed_ends(parts: Seq<Seq<char>>, i: int, k: Seq<char>, v: Seq<char>)
    requires
        0 <= i < parts.len(),
        entry_of(parts[i]) == Some((k, v)),
        forall|j: int|
            i < j < parts.len() ==> (entry_of(#[trigger] parts[j]) matches Some(e) ==> e.0 != k),
    ensures
        found(listed(parts), k) == Some(v),
    decreases parts.len(),
{
    let short = parts.drop_last();
    if i < parts.len() - 1 {
        assert forall|j: int| i < j < short.len() implies (entry_of(
            #[trigger] short[j],
        ) matches Some(e) ==> e.0 != k) by {
            assert(short[j] == parts[j]);
        }
        lemma_listed_ends(short, i, k, v);
        assert(parts[parts.len() - 1] == parts.last());
    }
}

proof fn lemma_listed_from(parts: Seq<Seq<char>>, k: Seq<char>)
    requires
        listed(parts).dom().contains(k),
    ensures
        exists|i: int|
            0 <= i < parts.len() && entry_of(#[trigger] parts[i]) == Some((k, listed(parts)[k])),
    decreases parts.len(),
{
    if parts.len() > 0 {
        let short = parts.drop_last();
        match entry_of(parts.last()) {
            Some((k1, v1)) if k1 == k => {
                assert(parts[parts.len() - 1] == parts.last());
            },
            _ => {
                lemma_listed_from(short, k);
                let i = choose|i: int|
                    0 <= i < short.len() && entry_of(#[trigger] short[i]) == Some(
                        (k, listed(short)[k]),
                    );
                assert(parts[i] == short[i]);
            },
        }
    }
}

/// Of several pieces with the same key the last one counts.
pub proof fn law_last_entry_counts(raw: Seq<char>, i: int, k: Seq<char>, v: Seq<char>)
    requires
        0 <= i < pieces(raw, "|"@).len(),
        entry_of(pieces(raw, "|"@)[i]) == Some((k, v)),
        forall|j: int|
            i < j < pieces(raw, "|"@).len() ==> (entry_of(
                #[trigger] pieces(raw, "|"@)[j],
            ) matches Some(e) ==> e.0 != k),
    ensures
        found(params_of(raw), k) == Some(v),
{
    lemma_listed_ends(pieces(raw, "|"@), i, k, v);
}

/// What is found under a key is what some piece says of it.
pub proof fn law_values_are_written(raw: Seq<char>, k: Seq<char>)
    requires
        found(params_of(raw), k) is Some,
    ensures
        exists|i: int|
            0 <= i < pieces(raw, "|"@).len() && entry_of(#[trigger] pieces(raw, "|"@)[i]) == Some(
                (k, found(params_of(raw), k)->0),
            ),
{
    lemma_listed_from(pieces(raw, "|"@), k);
}

/// A value that was put is found, one that was removed is not, and no other key changes.
pub proof fn law_put_and_remove(
    m: Map<Seq<char>, Seq<char>>,
    k: Seq<char>,
    v: Seq<char>,
    other: Seq<char>,
)
    ensures
        found(m.insert(k, v), k) == Some(v),
        found(m.remove(k), k) == None::<Seq<char>>,
        other != k ==> found(m.insert(k, v), other) == found(m, other),
        other != k ==> found(m.remove(k), other) == found(m, other),
{
}

} // verus!
