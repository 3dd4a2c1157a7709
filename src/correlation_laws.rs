//! What holds of every correlation, whatever the sources report.

use vstd::prelude::*;

use crate::company::CompanyView;
use crate::correlation::{
    CandidateView, candidate_of, corpus, holds_symbol, is_correlation, lemma_ranking, lists_symbol,
    ranks_before, reference_count,
};

verus! {

/// The number of sources that reported at least one record.
pub open spec fn reporting_sources(lists: Seq<Seq<CompanyView>>) -> nat
    decreases lists.len(),
{
    if lists.len() == 0 {
        0
    } else {
        reporting_sources(lists.drop_last()) + if lists.last().len() > 0 {
            1nat
        } else {
            0nat
        }
    }
}

/// The indices of the sources whose list holds the symbol `sym`.
pub open spec fn sources_listing(lists: Seq<Seq<CompanyView>>, sym: Seq<char>) -> Set<int> {
    Set::new(|k: int| 0 <= k < lists.len() && lists_symbol(lists[k], sym))
}

proof fn lemma_count_within_reporting(lists: Seq<Seq<CompanyView>>, sym: Seq<char>)
    ensures
        reference_count(lists, sym) <= reporting_sources(lists),
        reporting_sources(lists) <= lists.len(),
    decreases lists.len(),
{
    if lists.len() > 0 {
        lemma_count_within_reporting(lists.drop_last(), sym);
    }
}

/// No candidate has more references than there are sources that reported
/// anything, nor more than there are sources.
pub proof fn lemma_refs_bounded_by_sources(
    lists: Seq<Seq<CompanyView>>,
    min_refs: nat,
    out: Seq<CandidateView>,
)
    requires
        is_correlation(lists, min_refs, out),
    ensures
        forall|i: int|
            0 <= i < out.len() ==> #[trigger] out[i].refs <= reporting_sources(lists)
                && out[i].refs <= lists.len(),
{
    assert forall|i: int| 0 <= i < out.len() implies #[trigger] out[i].refs <= reporting_sources(lists)
        && out[i].refs <= lists.len() by {
        lemma_count_within_reporting(lists, out[i].symbol);
    }
}

/// A threshold above the number of sources that reported anything leaves
/// no candidate.
pub proof fn lemma_unreachable_threshold(
    lists: Seq<Seq<CompanyView>>,
    min_refs: nat,
    out: Seq<CandidateView>,
)
    requires
        is_correlation(lists, min_refs, out),
        min_refs > reporting_sources(lists),
    ensures
        out.len() == 0,
{
    if out.len() > 0 {
        lemma_refs_bounded_by_sources(lists, min_refs, out);
        assert(lists_symbol(corpus(lists), out[0].symbol));
        assert(out[0].refs <= reporting_sources(lists));
    }
}

/// A symbol's reference count is the number of distinct sources whose list
/// holds it.
pub proof fn lemma_refs_count_distinct_sources(lists: Seq<Seq<CompanyView>>, sym: Seq<char>)
    ensures
        sources_listing(lists, sym).finite(),
        reference_count(lists, sym) == sources_listing(lists, sym).len(),
    decreases lists.len(),
{
    broadcast use vstd::set::group_set_axioms;

    if lists.len() == 0 {
        assert(sources_listing(lists, sym) =~= Set::empty());
    } else {
        let init = lists.drop_last();
        let n = lists.len() - 1;
        lemma_refs_count_distinct_sources(init, sym);
        let before = sources_listing(init, sym);
        assert(!before.contains(n));
        if lists_symbol(lists.last(), sym) {
            assert(sources_listing(lists, sym) =~= before.insert(n)) by {
                assert forall|k: int| 0 <= k < n implies init[k] == lists[k] by {}
            }
        } else {
            assert(sources_listing(lists, sym) =~= before) by {
                assert forall|k: int| 0 <= k < n implies init[k] == lists[k] by {}
            }
        }
    }
}

/// A source that lists a symbol again adds no reference to it: appending a
/// record to a source that already reports that symbol changes no count.
pub proof fn lemma_repeat_within_source(
    lists: Seq<Seq<CompanyView>>,
    k: int,
    c: CompanyView,
    sym: Seq<char>,
)
    requires
        0 <= k < lists.len(),
        lists_symbol(lists[k], c.symbol),
    ensures
        reference_count(lists.update(k, lists[k].push(c)), sym) == reference_count(lists, sym),
{
    let repeated = lists.update(k, lists[k].push(c));
    assert(lists_symbol(repeated[k], sym) == lists_symbol(lists[k], sym)) by {
        let pushed = lists[k].push(c);
        if lists_symbol(lists[k], sym) {
            let i = choose|i: int| 0 <= i < lists[k].len() && #[trigger] lists[k][i].symbol == sym;
            assert(pushed[i] == lists[k][i]);
        }
        if lists_symbol(pushed, sym) {
            let i = choose|i: int| 0 <= i < pushed.len() && #[trigger] pushed[i].symbol == sym;
            if i == lists[k].len() {
                let j = choose|j: int| 0 <= j < lists[k].len() && #[trigger] lists[k][j].symbol == c.symbol;
                assert(lists[k][j].symbol == sym);
            } else {
                assert(pushed[i] == lists[k][i]);
            }
        }
    }
    lemma_refs_count_distinct_sources(lists, sym);
    lemma_refs_count_distinct_sources(repeated, sym);
    assert(sources_listing(repeated, sym) =~= sources_listing(lists, sym));
}

/// Whether every candidate of `s` ranks before every later one.
pub open spec fn is_ranked(s: Seq<CandidateView>) -> bool {
    forall|i: int, j: int| 0 <= i < j < s.len() ==> ranks_before(#[trigger] s[i], #[trigger] s[j])
}

/// Two ranked sequences with the same members are the same sequence.
proof fn lemma_ranked_unique(s1: Seq<CandidateView>, s2: Seq<CandidateView>)
    requires
        is_ranked(s1),
        is_ranked(s2),
        forall|x: CandidateView| s1.contains(x) <==> s2.contains(x),
    ensures
        s1 == s2,
    decreases s1.len(),
{
    if s1.len() == 0 {
        if s2.len() > 0 {
            assert(s2.contains(s2[0]));
        }
        assert(s1 =~= s2);
    } else {
        assert(s1.contains(s1[0]));
        let w = choose|w: int| 0 <= w < s2.len() && s2[w] == s1[0];
        assert(s2.contains(s2[0]));
        let v = choose|v: int| 0 <= v < s1.len() && s1[v] == s2[0];
        if w > 0 {
            assert(ranks_before(s2[0], s2[w]));
            lemma_ranking(s1[0], s1[v], s1[0]);
            if v > 0 {
                assert(ranks_before(s1[0], s1[v]));
            }
        }
        assert(s1[0] == s2[0]);
        let t1 = s1.drop_first();
        let t2 = s2.drop_first();
        assert forall|x: CandidateView| t1.contains(x) <==> t2.contains(x) by {
            if t1.contains(x) {
                let i = choose|i: int| 0 <= i < t1.len() && t1[i] == x;
                assert(s1[i + 1] == x);
                assert(s1.contains(x));
                let j = choose|j: int| 0 <= j < s2.len() && s2[j] == x;
                lemma_ranking(s1[0], s1[0], s1[0]);
                assert(ranks_before(s1[0], s1[i + 1]));
                assert(j != 0);
                assert(t2[j - 1] == x);
            }
            if t2.contains(x) {
                let i = choose|i: int| 0 <= i < t2.len() && t2[i] == x;
                assert(s2[i + 1] == x);
                assert(s2.contains(x));
                let j = choose|j: int| 0 <= j < s1.len() && s1[j] == x;
                lemma_ranking(s2[0], s2[0], s2[0]);
                assert(ranks_before(s2[0], s2[i + 1]));
                assert(j != 0);
                assert(t1[j - 1] == x);
            }
        }
        assert(is_ranked(t1)) by {
            assert forall|i: int, j: int| 0 <= i < j < t1.len() implies ranks_before(
                #[trigger] t1[i],
                #[trigger] t1[j],
            ) by {
                assert(t1[i] == s1[i + 1] && t1[j] == s1[j + 1]);
            }
        }
        assert(is_ranked(t2)) by {
            assert forall|i: int, j: int| 0 <= i < j < t2.len() implies ranks_before(
                #[trigger] t2[i],
                #[trigger] t2[j],
            ) by {
                assert(t2[i] == s2[i + 1] && t2[j] == s2[j + 1]);
            }
        }
        lemma_ranked_unique(t1, t2);
        assert(s1 =~= seq![s1[0]] + t1);
        assert(s2 =~= seq![s2[0]] + t2);
    }
}

/// Every member of a correlation is the candidate of its symbol.
proof fn lemma_member_of_correlation(
    lists: Seq<Seq<CompanyView>>,
    min_refs: nat,
    out: Seq<CandidateView>,
    x: CandidateView,
)
    requires
        is_correlation(lists, min_refs, out),
        out.contains(x),
    ensures
        lists_symbol(corpus(lists), x.symbol),
        x == candidate_of(lists, x.symbol),
        x.refs >= min_refs,
{
    let i = choose|i: int| 0 <= i < out.len() && out[i] == x;
    assert(lists_symbol(corpus(lists), out[i].symbol));
}

/// Correlating the same listings with the same threshold always gives the
/// same candidates in the same order.
pub proof fn lemma_correlation_deterministic(
    lists: Seq<Seq<CompanyView>>,
    min_refs: nat,
    out1: Seq<CandidateView>,
    out2: Seq<CandidateView>,
)
    requires
        is_correlation(lists, min_refs, out1),
        is_correlation(lists, min_refs, out2),
    ensures
        out1 == out2,
{
    assert forall|x: CandidateView| out1.contains(x) implies out2.contains(x) by {
        lemma_member_of_correlation(lists, min_refs, out1, x);
        assert(holds_symbol(out2, x.symbol));
        let w = choose|w: int| #![trigger out2[w]] 0 <= w < out2.len() && out2[w].symbol == x.symbol;
        assert(lists_symbol(corpus(lists), out2[w].symbol));
        assert(out2[w] == x);
    }
    assert forall|x: CandidateView| out2.contains(x) implies out1.contains(x) by {
        lemma_member_of_correlation(lists, min_refs, out2, x);
        assert(holds_symbol(out1, x.symbol));
        let w = choose|w: int| #![trigger out1[w]] 0 <= w < out1.len() && out1[w].symbol == x.symbol;
        assert(lists_symbol(corpus(lists), out1[w].symbol));
        assert(out1[w] == x);
    }
    lemma_ranked_unique(out1, out2);
}

/// A ranked sequence holds no candidate twice.
proof fn lemma_ranked_no_duplicates(s: Seq<CandidateView>)
    requires
        is_ranked(s),
    ensures
        s.no_duplicates(),
{
    assert forall|i: int, j: int| 0 <= i < s.len() && 0 <= j < s.len() && i != j implies s[i]
        != s[j] by {
        lemma_ranking(s[i], s[i], s[i]);
        if i < j {
            assert(ranks_before(s[i], s[j]));
        } else {
            assert(ranks_before(s[j], s[i]));
        }
    }
}

/// Raising the threshold never lengthens the result.
pub proof fn lemma_threshold_monotone(
    lists: Seq<Seq<CompanyView>>,
    low: nat,
    high: nat,
    out_low: Seq<CandidateView>,
    out_high: Seq<CandidateView>,
)
    requires
        low <= high,
        is_correlation(lists, low, out_low),
        is_correlation(lists, high, out_high),
    ensures
        out_high.len() <= out_low.len(),
{
    broadcast use vstd::seq_lib::seq_to_set_is_finite;

    assert forall|x: CandidateView| out_high.to_set().contains(x) implies out_low.to_set().contains(
        x,
    ) by {
        assert(out_high.contains(x));
        lemma_member_of_correlation(lists, high, out_high, x);
        assert(holds_symbol(out_low, x.symbol));
        let w = choose|w: int| #![trigger out_low[w]] 0 <= w < out_low.len() && out_low[w].symbol == x.symbol;
        assert(lists_symbol(corpus(lists), out_low[w].symbol));
        assert(out_low[w] == x);
        assert(out_low.contains(x));
    }
    lemma_ranked_no_duplicates(out_low);
    lemma_ranked_no_duplicates(out_high);
    out_low.unique_seq_to_set();
    out_high.unique_seq_to_set();
    vstd::set_lib::lemma_len_subset(out_high.to_set(), out_low.to_set());
}

proof fn lemma_corpus_of_silent_sources(lists: Seq<Seq<CompanyView>>)
    requires
        forall|k: int| 0 <= k < lists.len() ==> #[trigger] lists[k].len() == 0,
    ensures
        corpus(lists).len() == 0,
    decreases lists.len(),
{
    if lists.len() > 0 {
        let init = lists.drop_last();
        assert forall|k: int| 0 <= k < init.len() implies #[trigger] init[k].len() == 0 by {
            assert(init[k] == lists[k]);
        }
        lemma_corpus_of_silent_sources(init);
        assert(lists[lists.len() - 1].len() == 0);
    }
}

/// When no source reports anything the result is empty, whatever the
/// threshold.
pub proof fn lemma_silent_sources_give_nothing(
    lists: Seq<Seq<CompanyView>>,
    min_refs: nat,
    out: Seq<CandidateView>,
)
    requires
        forall|k: int| 0 <= k < lists.len() ==> #[trigger] lists[k].len() == 0,
        is_correlation(lists, min_refs, out),
    ensures
        out.len() == 0,
{
    lemma_corpus_of_silent_sources(lists);
    if out.len() > 0 {
        assert(lists_symbol(corpus(lists), out[0].symbol));
    }
}

} // verus!
