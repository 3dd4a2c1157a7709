//! The correlation engine: merging per-source listings into ranked candidates.
//!
//! Every source contributes one list of records. A symbol's reference count
//! is the number of distinct sources whose list holds it, so a source that
//! repeats a symbol still counts once. A candidate's name is the first
//! non-empty name met when the sources are read in their configured order.

use vstd::prelude::*;

use crate::company::{Company, CompanyView};
use crate::grouping::{group_listings, is_grouping};

verus! {

/// A company reported by enough distinct sources, with the number of them.
#[derive(Debug, Clone)]
pub struct CompanyCandidate {
    pub company: Company,
    pub refs: usize,
}

/// The mathematical value of a [`CompanyCandidate`].
pub struct CandidateView {
    pub symbol: Seq<char>,
    pub name: Seq<char>,
    pub refs: nat,
}

impl View for CompanyCandidate {
    type V = CandidateView;

    open spec fn view(&self) -> CandidateView {
        CandidateView { symbol: self.company.symbol@, name: self.company.name@, refs: self.refs as nat }
    }
}

/// The records of one source, as values.
pub open spec fn listing_view(list: Vec<Company>) -> Seq<CompanyView> {
    list@.map_values(|c: Company| c@)
}

/// The records of every source, in source order, as values.
pub open spec fn sources_view(lists: Seq<Vec<Company>>) -> Seq<Seq<CompanyView>> {
    lists.map_values(|l: Vec<Company>| listing_view(l))
}

/// A sequence of candidates, as values.
pub open spec fn candidates_view(cands: Seq<CompanyCandidate>) -> Seq<CandidateView> {
    cands.map_values(|c: CompanyCandidate| c@)
}

/// Whether some record of `entries` carries the symbol `sym`.
pub open spec fn lists_symbol(entries: Seq<CompanyView>, sym: Seq<char>) -> bool {
    exists|i: int| #![trigger entries[i]] 0 <= i < entries.len() && entries[i].symbol == sym
}

/// The number of sources whose list holds the symbol `sym`.
pub open spec fn reference_count(lists: Seq<Seq<CompanyView>>, sym: Seq<char>) -> nat
    decreases lists.len(),
{
    if lists.len() == 0 {
        0
    } else {
        reference_count(lists.drop_last(), sym) + if lists_symbol(lists.last(), sym) {
            1nat
        } else {
            0nat
        }
    }
}

/// All records of all sources in one sequence, source after source.
pub open spec fn corpus(lists: Seq<Seq<CompanyView>>) -> Seq<CompanyView>
    decreases lists.len(),
{
    if lists.len() == 0 {
        Seq::empty()
    } else {
        corpus(lists.drop_last()) + lists.last()
    }
}

/// The first non-empty name that `entries` gives to `sym`; empty if none does.
pub open spec fn resolved_name(entries: Seq<CompanyView>, sym: Seq<char>) -> Seq<char>
    decreases entries.len(),
{
    if entries.len() == 0 {
        Seq::empty()
    } else {
        let earlier = resolved_name(entries.drop_last(), sym);
        if earlier.len() == 0 && entries.last().symbol == sym {
            entries.last().name
        } else {
            earlier
        }
    }
}

/// The candidate that the sources make of `sym`.
pub open spec fn candidate_of(lists: Seq<Seq<CompanyView>>, sym: Seq<char>) -> CandidateView {
    CandidateView {
        symbol: sym,
        name: resolved_name(corpus(lists), sym),
        refs: reference_count(lists, sym),
    }
}

/// Whether some candidate of `cands` has the symbol `sym`.
pub open spec fn holds_symbol(cands: Seq<CandidateView>, sym: Seq<char>) -> bool {
    exists|i: int| #![trigger cands[i]] 0 <= i < cands.len() && cands[i].symbol == sym
}

/// Whether the symbol `a` comes strictly before `b` in dictionary order,
/// comparing characters by code point and putting a prefix first.
pub open spec fn symbol_precedes(a: Seq<char>, b: Seq<char>) -> bool
    decreases a.len(),
{
    if b.len() == 0 {
        false
    } else if a.len() == 0 {
        true
    } else if a[0] != b[0] {
        (a[0] as u32) < (b[0] as u32)
    } else {
        symbol_precedes(a.drop_first(), b.drop_first())
    }
}

/// Whether candidate `a` is listed before candidate `b`: more references
/// first, and among equal counts the smaller symbol first.
pub open spec fn ranks_before(a: CandidateView, b: CandidateView) -> bool {
    a.refs > b.refs || (a.refs == b.refs && symbol_precedes(a.symbol, b.symbol))
}

/// Whether `out` is the result of correlating the sources `lists` with the
/// threshold `min_refs`: exactly the candidates of the reported symbols that
/// have at least `min_refs` references, ranked by [`ranks_before`].
pub open spec fn is_correlation(lists: Seq<Seq<CompanyView>>, min_refs: nat, out: Seq<CandidateView>) -> bool {
    &&& forall|i: int|
        0 <= i < out.len() ==> lists_symbol(corpus(lists), #[trigger] out[i].symbol) && out[i]
            == candidate_of(lists, out[i].symbol) && out[i].refs >= min_refs
    &&& forall|sym: Seq<char>|
        #[trigger] lists_symbol(corpus(lists), sym) && reference_count(lists, sym) >= min_refs
            ==> holds_symbol(out, sym)
    &&& forall|i: int, j: int| 0 <= i < j < out.len() ==> ranks_before(#[trigger] out[i], #[trigger] out[j])
}

proof fn lemma_precedes_irreflexive(a: Seq<char>)
    ensures
        !symbol_precedes(a, a),
    decreases a.len(),
{
    if a.len() > 0 {
        lemma_precedes_irreflexive(a.drop_first());
    }
}

proof fn lemma_precedes_transitive(a: Seq<char>, b: Seq<char>, c: Seq<char>)
    requires
        symbol_precedes(a, b),
        symbol_precedes(b, c),
    ensures
        symbol_precedes(a, c),
    decreases a.len(),
{
    if a.len() > 0 && b.len() > 0 && c.len() > 0 && a[0] == b[0] && b[0] == c[0] {
        lemma_precedes_transitive(a.drop_first(), b.drop_first(), c.drop_first());
    }
}

proof fn lemma_precedes_total(a: Seq<char>, b: Seq<char>)
    requires
        a != b,
    ensures
        symbol_precedes(a, b) || symbol_precedes(b, a),
    decreases a.len(),
{
    if a.len() > 0 && b.len() > 0 {
        if a[0] == b[0] {
            assert(a.drop_first() != b.drop_first()) by {
                if a.drop_first() == b.drop_first() {
                    assert(a =~= seq![a[0]] + a.drop_first());
                    assert(b =~= seq![b[0]] + b.drop_first());
                }
            }
            lemma_precedes_total(a.drop_first(), b.drop_first());
        } else {
            vstd::utf8::char_u32_cast(a[0], a[0] as u32);
            vstd::utf8::char_u32_cast(b[0], b[0] as u32);
        }
    } else if a.len() == 0 && b.len() == 0 {
        assert(a =~= b);
    }
}

/// Whether `a` comes strictly before `b`, character by character.
fn precedes(a: &String, b: &String) -> (r: bool)
    ensures
        r == symbol_precedes(a@, b@),
{
    let a_len = a.as_str().unicode_len();
    let b_len = b.as_str().unicode_len();
    let mut i: usize = 0;
    assert(a@.subrange(0, a@.len() as int) =~= a@);
    assert(b@.subrange(0, b@.len() as int) =~= b@);
    while i < a_len && i < b_len
        invariant
            a_len == a@.len(),
            b_len == b@.len(),
            i <= a_len,
            i <= b_len,
            symbol_precedes(a@, b@) == symbol_precedes(
                a@.subrange(i as int, a@.len() as int),
                b@.subrange(i as int, b@.len() as int),
            ),
        decreases a_len - i,
    {
        let x = a.as_str().get_char(i);
        let y = b.as_str().get_char(i);
        let ghost sa = a@.subrange(i as int, a@.len() as int);
        let ghost sb = b@.subrange(i as int, b@.len() as int);
        assert(sa[0] == x && sb[0] == y);
        if x != y {
            return (x as u32) < (y as u32);
        }
        assert(sa.drop_first() =~= a@.subrange(i + 1, a@.len() as int));
        assert(sb.drop_first() =~= b@.subrange(i + 1, b@.len() as int));
        i = i + 1;
    }
    i < b_len
}

/// Whether candidate `a` is listed before candidate `b`.
fn ranks_ahead(a: &CompanyCandidate, b: &CompanyCandidate) -> (r: bool)
    ensures
        r == ranks_before(a@, b@),
{
    a.refs > b.refs || (a.refs == b.refs && precedes(&a.company.symbol, &b.company.symbol))
}

impl CompanyCandidate {
    /// A copy of this candidate.
    pub fn duplicate(&self) -> (r: CompanyCandidate)
        ensures
            r@ == self@,
    {
        CompanyCandidate { company: self.company.duplicate(), refs: self.refs }
    }
}

/// The ranking order is strict and total among distinct symbols.
pub proof fn lemma_ranking(a: CandidateView, b: CandidateView, c: CandidateView)
    ensures
        !ranks_before(a, a),
        ranks_before(a, b) && ranks_before(b, c) ==> ranks_before(a, c),
        a.symbol != b.symbol ==> ranks_before(a, b) || ranks_before(b, a),
{
    lemma_precedes_irreflexive(a.symbol);
    if ranks_before(a, b) && ranks_before(b, c) && a.refs == b.refs && b.refs == c.refs {
        lemma_precedes_transitive(a.symbol, b.symbol, c.symbol);
    }
    if a.symbol != b.symbol {
        lemma_precedes_total(a.symbol, b.symbol);
    }
}

/// The number of records over all sources.
pub open spec fn total_entries(lists: Seq<Seq<CompanyView>>) -> nat
    decreases lists.len(),
{
    if lists.len() == 0 {
        0
    } else {
        total_entries(lists.drop_last()) + lists.last().len()
    }
}

/// The number of records over all sources, or `usize::MAX` if it does not
/// fit.
pub fn count_entries(lists: &Vec<Vec<Company>>) -> (r: usize)
    ensures
        r == if total_entries(sources_view(lists@)) <= usize::MAX {
            total_entries(sources_view(lists@))
        } else {
            usize::MAX as nat
        },
{
    let ghost all = sources_view(lists@);
    let mut total: usize = 0;
    let mut k: usize = 0;
    while k < lists.len()
        invariant
            k <= lists.len(),
            all == sources_view(lists@),
            total == if total_entries(all.subrange(0, k as int)) <= usize::MAX {
                total_entries(all.subrange(0, k as int))
            } else {
                usize::MAX as nat
            },
        decreases lists.len() - k,
    {
        proof {
            assert(all.subrange(0, k + 1).drop_last() =~= all.subrange(0, k as int));
            assert(all[k as int].len() == lists@[k as int].len());
        }
        total = total.saturating_add(lists[k].len());
        k = k + 1;
    }
    assert(all.subrange(0, k as int) =~= all);
    total
}

/// The expected number of candidates, used only to size storage: the
/// entries per source attempted, and zero when no source was attempted.
pub fn capacity_hint(total_entries: usize, sources_attempted: usize) -> (r: usize)
    ensures
        r == if sources_attempted == 0 {
            0
        } else {
            total_entries / sources_attempted
        },
{
    if sources_attempted == 0 {
        0
    } else {
        total_entries / sources_attempted
    }
}

/// Correlates the per-source listings: groups the records by symbol, counts
/// for each symbol the distinct sources that report it, keeps the symbols
/// with at least `min_refs` references, and ranks them by descending count,
/// then ascending symbol. Each candidate carries the first non-empty name the
/// sources give in their configured order.
pub fn eval_candidates(lists: &Vec<Vec<Company>>, min_refs: usize) -> (r: Vec<CompanyCandidate>)
    ensures
        is_correlation(sources_view(lists@), min_refs as nat, candidates_view(r@)),
{
    let ghost all = sources_view(lists@);
    let groups = group_listings(lists);
    let ghost gv = candidates_view(groups@);
    let mut out: Vec<CompanyCandidate> = Vec::with_capacity(
        capacity_hint(count_entries(lists), lists.len()),
    );
    let ghost mut origin: Seq<int> = Seq::empty();
    let mut i: usize = 0;
    while i < groups.len()
        invariant
            i <= groups.len(),
            gv == candidates_view(groups@),
            is_grouping(all, gv),
            origin.len() == out.len(),
            forall|q: int|
                0 <= q < out.len() ==> 0 <= #[trigger] origin[q] < i && candidates_view(out@)[q]
                    == gv[origin[q]] && gv[origin[q]].refs >= min_refs,
            forall|g: int| 0 <= g < i && #[trigger] gv[g].refs >= min_refs ==> holds_symbol(candidates_view(out@), gv[g].symbol),
            forall|a: int, b: int|
                0 <= a < b < out.len() ==> ranks_before(
                    #[trigger] candidates_view(out@)[a],
                    #[trigger] candidates_view(out@)[b],
                ),
        decreases groups.len() - i,
    {
        let x = &groups[i];
        if x.refs >= min_refs {
            let ghost ov = candidates_view(out@);
            let mut p: usize = 0;
            while p < out.len() && ranks_ahead(&out[p], x)
                invariant
                    p <= out.len(),
                    ov == candidates_view(out@),
                    forall|q: int| 0 <= q < p ==> ranks_before(#[trigger] ov[q], x@),
                decreases out.len() - p,
            {
                p = p + 1;
            }
            proof {
                assert forall|q: int| p <= q < ov.len() implies ranks_before(x@, #[trigger] ov[q]) by {
                    assert(gv[origin[p as int]].symbol != gv[i as int].symbol);
                    lemma_ranking(ov[p as int], x@, ov[q]);
                    lemma_ranking(x@, ov[p as int], ov[q]);
                }
            }
            out.insert(p, x.duplicate());
            proof {
                let nv = candidates_view(out@);
                assert(nv =~= ov.insert(p as int, x@));
                let new_origin = origin.insert(p as int, i as int);
                assert forall|q: int| 0 <= q < nv.len() implies 0 <= #[trigger] new_origin[q] < i + 1
                    && nv[q] == gv[new_origin[q]] && gv[new_origin[q]].refs >= min_refs by {
                    if q > p {
                        assert(nv[q] == ov[q - 1]);
                        assert(new_origin[q] == origin[q - 1]);
                    } else if q < p {
                        assert(nv[q] == ov[q]);
                        assert(new_origin[q] == origin[q]);
                    }
                }
                assert forall|g: int| 0 <= g < i + 1 && #[trigger] gv[g].refs >= min_refs implies holds_symbol(
                    nv,
                    gv[g].symbol,
                ) by {
                    if g == i {
                        assert(nv[p as int] == x@);
                    } else {
                        let w = choose|w: int| #![trigger ov[w]] 0 <= w < ov.len() && ov[w].symbol == gv[g].symbol;
                        if w < p {
                            assert(nv[w] == ov[w]);
                        } else {
                            assert(nv[w + 1] == ov[w]);
                        }
                    }
                }
                assert forall|a: int, b: int| 0 <= a < b < nv.len() implies ranks_before(
                    #[trigger] nv[a],
                    #[trigger] nv[b],
                ) by {
                    if b < p {
                        assert(nv[a] == ov[a] && nv[b] == ov[b]);
                    } else if b == p {
                        assert(nv[a] == ov[a]);
                    } else if a < p {
                        assert(nv[a] == ov[a] && nv[b] == ov[b - 1]);
                        lemma_ranking(ov[a], x@, ov[b - 1]);
                    } else if a == p {
                        assert(nv[b] == ov[b - 1]);
                    } else {
                        assert(nv[a] == ov[a - 1] && nv[b] == ov[b - 1]);
                    }
                }
                origin = new_origin;
            }
        }
        i = i + 1;
    }
    proof {
        let rv = candidates_view(out@);
        assert forall|sym: Seq<char>|
            #[trigger] lists_symbol(corpus(all), sym) && reference_count(all, sym) >= min_refs implies holds_symbol(
            rv,
            sym,
        ) by {
            let g = choose|g: int| #![trigger gv[g]] 0 <= g < gv.len() && gv[g].symbol == sym;
            assert(gv[g] == candidate_of(all, gv[g].symbol));
            assert(gv[g].refs >= min_refs);
        }
        assert forall|q: int| 0 <= q < rv.len() implies lists_symbol(corpus(all), #[trigger] rv[q].symbol) && rv[q]
            == candidate_of(all, rv[q].symbol) && rv[q].refs >= min_refs by {
            assert(rv[q] == gv[origin[q]]);
        }
        assert(is_correlation(all, min_refs as nat, rv));
    }
    out
}

} // verus!
