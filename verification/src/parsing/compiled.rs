//! Selectors as they are written in card scripts, compiled to ordered predicates.

use vstd::prelude::*;
use crate::parsing::lowering::{lower_selector_part, lowers};
use crate::parsing::selector::{
    predicate_rank, selector_predicate_order, CompiledSelector, CompiledSelectorAlternative,
    CompiledSelectorPart, Selector, SelectorAlt, SelectorPredicate,
};
use crate::sorting::{is_sorted_by, law_sorting, put_in, sorted_by};
use crate::text::{
    eq_ignore_case, has_prefix, join, joined, lowered, pieces, push_char, same_ignoring_case,
    skip_chars, split, starts_with, string_views, to_lower, trim, trimmed, views,
};

verus! {

// ---- trying cheap conditions first ----

/// `x` put behind everything of `s` that does not rank above it.
pub open spec fn placed(s: Seq<SelectorPredicate>, x: SelectorPredicate) -> Seq<SelectorPredicate>
    decreases s.len(),
{
    if s.len() == 0 || predicate_rank(s.last()) <= predicate_rank(x) {
        s.push(x)
    } else {
        placed(s.drop_last(), x).push(s.last())
    }
}

/// The conditions in the order of their ranks; equal ranks keep their order.
pub open spec fn arranged(s: Seq<SelectorPredicate>) -> Seq<SelectorPredicate>
    decreases s.len(),
{
    if s.len() == 0 {
        s
    } else {
        placed(arranged(s.drop_last()), s.last())
    }
}

fn place(v: &mut Vec<SelectorPredicate>, x: SelectorPredicate)
    ensures
        final(v)@ == placed(old(v)@, x),
{
    let rank: u8 = selector_predicate_order(&x);
    let mut i: usize = v.len();
    let ghost s = v@;
    assert(s.take(i as int) =~= s);
    assert(placed(s, x) =~= placed(s, x) + s.skip(i as int));
    while i > 0 && selector_predicate_order(&v[i - 1]) > rank
        invariant
            v@ == s,
            i <= s.len(),
            rank == predicate_rank(x),
            placed(s, x) == placed(s.take(i as int), x) + s.skip(i as int),
        decreases i,
    {
        proof {
            let t = s.take(i as int);
            assert(t.last() == s[i - 1]);
            assert(t.drop_last() =~= s.take(i - 1));
            assert(placed(t, x) == placed(s.take(i - 1), x).push(s[i - 1]));
            assert(placed(s.take(i - 1), x) + s.skip(i - 1) =~= placed(s.take(i - 1), x).push(
                s[i - 1],
            ) + s.skip(i as int));
        }
        i = i - 1;
    }
    assert(s.take(s.len() as int) =~= s);
    assert(placed(s.take(i as int), x) == s.take(i as int).push(x));
    v.insert(i, x);
    assert(v@ =~= placed(s, x));
}

// ---- parts ----

pub open spec fn part_view(p: CompiledSelectorPart) -> (Option<char>, Seq<char>) {
    (p.separator, p.value@)
}

pub open spec fn part_views(parts: Seq<CompiledSelectorPart>) -> Seq<(Option<char>, Seq<char>)> {
    parts.map_values(|p: CompiledSelectorPart| part_view(p))
}

/// Properties whose argument is itself a selector and so keeps its dots.
pub open spec fn takes_selector(value: Seq<char>) -> bool {
    let low = lowered(value);
    let word = if low.len() > 0 && low[0] == '!' { low.skip(1) } else { low };
    ||| has_prefix(word, "attachedto "@)
    ||| has_prefix(word, "castsa "@)
    ||| has_prefix(word, "controlledby "@)
    ||| has_prefix(word, "doesnotsharenamewith "@)
    ||| has_prefix(word, "ownedby "@)
    ||| has_prefix(word, "sharesnamewith "@)
}

fn value_takes_selector(value: &str) -> (r: bool)
    ensures
        r == takes_selector(value@),
{
    let low = to_lower(value);
    let lower = low.as_str();
    let word = if lower.unicode_len() > 0 && lower.get_char(0) == '!' {
        skip_chars(lower, 1)
    } else {
        lower
    };
    starts_with(word, "attachedto ") || starts_with(word, "castsa ") || starts_with(
        word,
        "controlledby ",
    ) || starts_with(word, "doesnotsharenamewith ") || starts_with(word, "ownedby ")
        || starts_with(word, "sharesnamewith ")
}

/// The values of an alternative: a part behind a dot joins a qualifier that takes a selector.
pub open spec fn gathered(parts: Seq<(Option<char>, Seq<char>)>) -> Seq<Seq<char>>
    decreases parts.len(),
{
    if parts.len() == 0 {
        Seq::empty()
    } else {
        let before = gathered(parts.drop_last());
        let part = parts.last();
        if part.0 == Some('.') && before.len() > 1 && takes_selector(before.last()) {
            before.drop_last().push(before.last().push('.') + part.1)
        } else {
            before.push(part.1)
        }
    }
}

fn gather(parts: &Vec<CompiledSelectorPart>) -> (r: Vec<String>)
    ensures
        string_views(r@) == gathered(part_views(parts@)),
{
    let mut values: Vec<String> = Vec::new();
    let ghost all = part_views(parts@);
    let mut i: usize = 0;
    while i < parts.len()
        invariant
            i <= parts@.len(),
            all == part_views(parts@),
            string_views(values@) == gathered(all.take(i as int)),
        decreases parts@.len() - i,
    {
        let ghost before = string_views(values@);
        proof {
            assert(all.take(i + 1).drop_last() =~= all.take(i as int));
            assert(all.take(i + 1).last() == part_view(parts@[i as int]));
        }
        let n: usize = values.len();
        let nested = match parts[i].separator {
            Some(c) => c == '.' && n > 1 && value_takes_selector(values[n - 1].as_str()),
            None => false,
        };
        if nested {
            let mut last = values.pop().unwrap();
            push_char(&mut last, '.');
            last.append(parts[i].value.as_str());
            values.push(last);
            assert(string_views(values@) =~= before.drop_last().push(
                before.last().push('.') + parts@[i as int].value@,
            ));
        } else {
            values.push(parts[i].value.clone());
            assert(string_views(values@) =~= before.push(parts@[i as int].value@));
        }
        i = i + 1;
    }
    assert(all.take(i as int) =~= all);
    values
}

/// The predicates that an alternative stands for, cheap ones first.
pub open spec fn alternative_lowers(
    alternative: CompiledSelectorAlternative,
    alt: SelectorAlt,
) -> bool {
    let values = gathered(part_views(alternative.parts@));
    exists|written: Seq<SelectorPredicate>|
        {
            &&& written.len() == values.len()
            &&& forall|i: int|
                0 <= i < values.len() ==> lowers(values[i], i == 0, #[trigger] written[i])
            &&& alt.predicates@ == arranged(written)
        }
}

fn lower_alternative(alternative: &CompiledSelectorAlternative) -> (alt: SelectorAlt)
    ensures
        alternative_lowers(*alternative, alt),
{
    let values = gather(&alternative.parts);
    let ghost texts = gathered(part_views(alternative.parts@));
    let mut predicates: Vec<SelectorPredicate> = Vec::new();
    let ghost mut written: Seq<SelectorPredicate> = Seq::empty();
    let mut i: usize = 0;
    while i < values.len()
        invariant
            i <= values@.len(),
            texts == string_views(values@),
            written.len() == i,
            forall|k: int| 0 <= k < i ==> lowers(texts[k], k == 0, #[trigger] written[k]),
            predicates@ == arranged(written),
        decreases values@.len() - i,
    {
        let p = lower_selector_part(values[i].as_str(), i == 0);
        proof {
            assert(texts[i as int] == values@[i as int]@);
            assert(written.push(p).drop_last() =~= written);
            written = written.push(p);
        }
        place(&mut predicates, p);
        i = i + 1;
    }
    SelectorAlt { predicates }
}

pub open spec fn selector_lowers(
    alternatives: Seq<CompiledSelectorAlternative>,
    ir: Selector,
) -> bool {
    &&& ir.alternatives@.len() == alternatives.len()
    &&& forall|i: int|
        0 <= i < alternatives.len() ==> alternative_lowers(
            alternatives[i],
            #[trigger] ir.alternatives@[i],
        )
}

/// Lowers every alternative of a selector.
pub fn lower_compiled_selector(alternatives: &Vec<CompiledSelectorAlternative>) -> (ir: Selector)
    ensures
        selector_lowers(alternatives@, ir),
{
    let mut out: Vec<SelectorAlt> = Vec::new();
    let mut i: usize = 0;
    while i < alternatives.len()
        invariant
            i <= alternatives@.len(),
            out@.len() == i,
            forall|k: int| 0 <= k < i ==> alternative_lowers(alternatives@[k], #[trigger] out@[k]),
        decreases alternatives@.len() - i,
    {
        out.push(lower_alternative(&alternatives[i]));
        i = i + 1;
    }
    Selector { alternatives: out }
}

// ---- written selectors ----

pub open spec fn is_mark(c: char) -> bool {
    c == '.' || c == '+'
}

/// The first dot or plus at or behind `from`.
pub open spec fn first_mark(s: Seq<char>, from: int) -> int
    decreases s.len() - from,
{
    if from < 0 || from >= s.len() || is_mark(s[from]) {
        from
    } else {
        first_mark(s, from + 1)
    }
}

/// An alternative cut at its dots and pluses, each piece with the mark before it.
pub open spec fn cut(s: Seq<char>, before: Option<char>) -> Seq<(Option<char>, Seq<char>)>
    decreases s.len(),
{
    let i = first_mark(s, 0);
    if 0 <= i < s.len() {
        seq![(before, s.take(i))] + cut(s.skip(i + 1), Some(s[i]))
    } else {
        seq![(before, s)]
    }
}

fn cut_parts(raw: &str) -> (r: Vec<CompiledSelectorPart>)
    ensures
        part_views(r@) == cut(raw@, None),
{
    let mut out: Vec<CompiledSelectorPart> = Vec::new();
    let mut rest: &str = raw;
    let mut before: Option<char> = None;
    loop
        invariant
            part_views(out@) + cut(rest@, before) == cut(raw@, None),
        decreases rest@.len(),
    {
        let n: usize = rest.unicode_len();
        let mut i: usize = 0;
        while i < n && rest.get_char(i) != '.' && rest.get_char(i) != '+'
            invariant
                n == rest@.len(),
                i <= n,
                first_mark(rest@, 0) == first_mark(rest@, i as int),
            decreases n - i,
        {
            i = i + 1;
        }
        let ghost shown = part_views(out@);
        let head = rest.substring_char(0, i);
        let part = CompiledSelectorPart { separator: before, value: head.to_owned() };
        assert(head@ =~= rest@.take(i as int));
        out.push(part);
        assert(part_views(out@) =~= shown.push((before, rest@.take(i as int))));
        if i == n {
            assert(rest@.take(i as int) =~= rest@);
            assert(cut(rest@, before) =~= seq![(before, rest@)]);
            assert(part_views(out@) =~= shown + cut(rest@, before));
            return out;
        }
        let mark: char = rest.get_char(i);
        let tail = skip_chars(rest, i + 1);
        assert(shown + cut(rest@, before) =~= part_views(out@) + cut(tail@, Some(mark)));
        rest = tail;
        before = Some(mark);
    }
}

pub open spec fn alternative_view(a: CompiledSelectorAlternative) -> (
    Seq<char>,
    Seq<(Option<char>, Seq<char>)>,
) {
    (a.raw@, part_views(a.parts@))
}

/// An alternative as it is written: trimmed, and cut at its marks.
pub open spec fn written_alternative(piece: Seq<char>) -> (
    Seq<char>,
    Seq<(Option<char>, Seq<char>)>,
) {
    (trimmed(piece), cut(trimmed(piece), None))
}

pub open spec fn reads_as(
    alternatives: Seq<CompiledSelectorAlternative>,
    pieces: Seq<Seq<char>>,
) -> bool {
    &&& alternatives.len() == pieces.len()
    &&& forall|i: int|
        0 <= i < pieces.len() ==> alternative_view(#[trigger] alternatives[i])
            == written_alternative(pieces[i])
}

/// The selector that a text writes: alternatives between commas, each lowered.
pub open spec fn selector_reads(selector: CompiledSelector, raw: Seq<char>) -> bool {
    &&& reads_as(selector.alternatives@, pieces(raw, ","@))
    &&& selector_lowers(selector.alternatives@, selector.ir)
}

/// The textual predicates of a selector, in the order in which they are tried.
pub open spec fn raw_texts(predicates: Seq<SelectorPredicate>) -> Seq<Seq<char>>
    decreases predicates.len(),
{
    if predicates.len() == 0 {
        Seq::empty()
    } else {
        let before = raw_texts(predicates.drop_last());
        match predicates.last() {
            SelectorPredicate::Raw(t) => before.push(t@),
            _ => before,
        }
    }
}

pub open spec fn all_raw_texts(alternatives: Seq<SelectorAlt>) -> Seq<Seq<char>>
    decreases alternatives.len(),
{
    if alternatives.len() == 0 {
        Seq::empty()
    } else {
        all_raw_texts(alternatives.drop_last()) + raw_texts(alternatives.last().predicates@)
    }
}

pub open spec fn raw_fields(alternatives: Seq<CompiledSelectorAlternative>) -> Seq<Seq<char>> {
    alternatives.map_values(|a: CompiledSelectorAlternative| a.raw@)
}

impl CompiledSelector {
    /// Compiles a written selector.
    pub fn parse(raw: &str) -> (r: CompiledSelector)
        ensures
            selector_reads(r, raw@),
    {
        proof {
            reveal_strlit(",");
        }
        let parts = split(raw, ",");
        let ghost texts = pieces(raw@, ","@);
        let mut alternatives: Vec<CompiledSelectorAlternative> = Vec::new();
        let mut i: usize = 0;
        while i < parts.len()
            invariant
                i <= parts@.len(),
                views(parts@) == texts,
                alternatives@.len() == i,
                forall|k: int|
                    0 <= k < i ==> alternative_view(#[trigger] alternatives@[k])
                        == written_alternative(texts[k]),
            decreases parts@.len() - i,
        {
            assert(texts[i as int] == parts@[i as int]@);
            let text = trim(parts[i]);
            alternatives.push(
                CompiledSelectorAlternative { raw: text.to_owned(), parts: cut_parts(text) },
            );
            i = i + 1;
        }
        CompiledSelector::from_alternatives(alternatives)
    }

    /// A selector from its alternatives.
    pub fn from_alternatives(alternatives: Vec<CompiledSelectorAlternative>) -> (r:
        CompiledSelector)
        ensures
            r.alternatives == alternatives,
            selector_lowers(alternatives@, r.ir),
    {
        let ir = lower_compiled_selector(&alternatives);
        CompiledSelector { alternatives, ir }
    }

    /// A selector of one alternative with one part.
    pub fn from_raw_alternative(raw: &str) -> (r: CompiledSelector)
        ensures
            r.alternatives@.len() == 1,
            alternative_view(r.alternatives@[0]) == (trimmed(raw@), seq![
                (None::<char>, trimmed(raw@)),
            ]),
            selector_lowers(r.alternatives@, r.ir),
    {
        let text = trim(raw);
        let mut parts: Vec<CompiledSelectorPart> = Vec::new();
        parts.push(CompiledSelectorPart { separator: None, value: text.to_owned() });
        let mut alternatives: Vec<CompiledSelectorAlternative> = Vec::new();
        alternatives.push(CompiledSelectorAlternative { raw: text.to_owned(), parts });
        assert(part_views(alternatives@[0].parts@) =~= seq![(None::<char>, trimmed(raw@))]);
        CompiledSelector::from_alternatives(alternatives)
    }

    /// Whether the selector is one of the given texts, whatever their case.
    pub fn is_any_of<const N: usize>(&self, values: [&str; N]) -> (r: bool)
        ensures
            r == (self.alternatives@.len() == 1 && exists|i: int|
                0 <= i < N && same_ignoring_case(
                    self.alternatives@[0].raw@,
                    (#[trigger] values@[i])@,
                )),
    {
        if self.alternatives.len() != 1 {
            return false;
        }
        let mut i: usize = 0;
        while i < N
            invariant
                i <= N,
                self.alternatives@.len() == 1,
                forall|k: int|
                    0 <= k < i ==> !same_ignoring_case(
                        self.alternatives@[0].raw@,
                        (#[trigger] values@[k])@,
                    ),
            decreases N - i,
        {
            if eq_ignore_case(self.alternatives[0].raw.as_str(), values[i]) {
                assert(same_ignoring_case(self.alternatives@[0].raw@, values@[i as int]@));
                return true;
            }
            i = i + 1;
        }
        false
    }

    /// The selector as it was written.
    pub fn as_raw(&self) -> (r: String)
        ensures
            r@ == joined(raw_fields(self.alternatives@), ","@),
    {
        let mut raws: Vec<String> = Vec::new();
        let mut i: usize = 0;
        while i < self.alternatives.len()
            invariant
                i <= self.alternatives@.len(),
                string_views(raws@) == raw_fields(self.alternatives@).take(i as int),
            decreases self.alternatives@.len() - i,
        {
            let ghost before = string_views(raws@);
            raws.push(self.alternatives[i].raw.clone());
            assert(string_views(raws@) =~= before.push(self.alternatives@[i as int].raw@));
            i = i + 1;
            assert(string_views(raws@) =~= raw_fields(self.alternatives@).take(i as int));
        }
        assert(raw_fields(self.alternatives@).take(i as int) =~= raw_fields(self.alternatives@));
        join(&raws, ",")
    }

    /// The predicates that stayed text.
    pub fn raw_predicates(&self) -> (r: Vec<&str>)
        ensures
            views(r@) == all_raw_texts(self.ir.alternatives@),
    {
        let mut out: Vec<&str> = Vec::new();
        let mut i: usize = 0;
        let ghost all = self.ir.alternatives@;
        while i < self.ir.alternatives.len()
            invariant
                i <= all.len(),
                all == self.ir.alternatives@,
                views(out@) == all_raw_texts(all.take(i as int)),
            decreases all.len() - i,
        {
            let ghost shown = views(out@);
            let predicates = &self.ir.alternatives[i].predicates;
            let mut j: usize = 0;
            while j < predicates.len()
                invariant
                    j <= predicates@.len(),
                    views(out@) == shown + raw_texts(predicates@.take(j as int)),
                decreases predicates@.len() - j,
            {
                let ghost before = views(out@);
                assert(predicates@.take(j + 1).drop_last() =~= predicates@.take(j as int));
                match &predicates[j] {
                    SelectorPredicate::Raw(text) => {
                        out.push(text.as_str());
                        assert(views(out@) =~= before.push(text@));
                        assert(before.push(text@) =~= shown + raw_texts(
                            predicates@.take(j as int),
                        ).push(text@));
                    },
                    _ => {},
                }
                j = j + 1;
            }
            assert(predicates@.take(j as int) =~= predicates@);
            assert(all.take(i + 1).drop_last() =~= all.take(i as int));
            i = i + 1;
        }
        assert(all.take(i as int) =~= all);
        out
    }
}

/// A selector for a text that may be padded with white space.
pub fn cached_compiled_selector(raw: &str) -> (r: CompiledSelector)
    ensures
        selector_reads(r, trimmed(raw@)),
{
    CompiledSelector::parse(trim(raw))
}

proof fn lemma_placed(s: Seq<SelectorPredicate>, x: SelectorPredicate)
    ensures
        placed(s, x) == put_in(s, x, rank_order()),
    decreases s.len(),
{
    if s.len() == 0 {
        assert(s.push(x) =~= seq![x]);
    } else {
        lemma_placed(s.drop_last(), x);
    }
}

/// The relation that puts the condition of the lower rank first.
pub open spec fn rank_order() -> spec_fn(SelectorPredicate, SelectorPredicate) -> bool {
    |a: SelectorPredicate, b: SelectorPredicate| predicate_rank(a) < predicate_rank(b)
}

/// The conditions of a selector are tried in the order of their ranks, equal ranks in the order
/// they were written in; none is lost or added.
pub proof fn law_arranged_by_rank(s: Seq<SelectorPredicate>)
    ensures
        arranged(s) == sorted_by(s, rank_order()),
        arranged(s).to_multiset() == s.to_multiset(),
        is_sorted_by(arranged(s), rank_order()),
    decreases s.len(),
{
    law_sorting(s, rank_order());
    if s.len() == 0 {
        assert(s =~= Seq::empty());
    } else {
        law_arranged_by_rank(s.drop_last());
        lemma_placed(arranged(s.drop_last()), s.last());
    }
}

} // verus!
