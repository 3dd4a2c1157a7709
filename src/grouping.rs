//! The grouping pass of the correlation engine: one reading of all sources
//! that gathers, for every symbol, its reference count and its name.

use vstd::prelude::*;

use crate::company::{Company, CompanyView};
use crate::correlation::{
    CandidateView, CompanyCandidate, candidate_of, candidates_view, corpus, holds_symbol,
    lists_symbol, reference_count, resolved_name, sources_view,
};

verus! {

/// The state of the grouping pass once the sources `done` and the records
/// `partial` of the next source (number `k`) have been read; `seen` is all
/// of those records in reading order, `owner` gives for each of them the
/// group that holds its symbol, and `last` gives for each group the last
/// source that reported its symbol.
spec fn tracks(
    done: Seq<Seq<CompanyView>>,
    partial: Seq<CompanyView>,
    seen: Seq<CompanyView>,
    owner: Seq<int>,
    k: int,
    groups: Seq<CandidateView>,
    last: Seq<usize>,
) -> bool {
    &&& seen == corpus(done) + partial
    &&& groups.len() == last.len()
    &&& forall|g: int| 0 <= g < groups.len() ==> lists_symbol(seen, #[trigger] groups[g].symbol)
    &&& owner.len() == seen.len()
    &&& forall|t: int|
        0 <= t < seen.len() ==> 0 <= #[trigger] owner[t] < groups.len() && groups[owner[t]].symbol
            == seen[t].symbol
    &&& forall|a: int, b: int|
        0 <= a < b < groups.len() ==> #[trigger] groups[a].symbol != #[trigger] groups[b].symbol
    &&& forall|g: int|
        0 <= g < groups.len() ==> #[trigger] groups[g].name == resolved_name(seen, groups[g].symbol)
    &&& forall|g: int|
        0 <= g < groups.len() ==> #[trigger] groups[g].refs == reference_count(done, groups[g].symbol) + if lists_symbol(
            partial,
            groups[g].symbol,
        ) {
            1nat
        } else {
            0nat
        }
    &&& forall|g: int|
        0 <= g < groups.len() ==> #[trigger] last[g] <= k && (last[g] == k <==> lists_symbol(
            partial,
            groups[g].symbol,
        ))
}

/// A source counts at most once, so no symbol has more references than
/// there are sources.
pub proof fn lemma_reference_count_bound(lists: Seq<Seq<CompanyView>>, sym: Seq<char>)
    ensures
        reference_count(lists, sym) <= lists.len(),
    decreases lists.len(),
{
    if lists.len() > 0 {
        lemma_reference_count_bound(lists.drop_last(), sym);
    }
}

/// A symbol that no record carries has no name.
proof fn lemma_unnamed_when_absent(entries: Seq<CompanyView>, sym: Seq<char>)
    requires
        !lists_symbol(entries, sym),
    ensures
        resolved_name(entries, sym).len() == 0,
    decreases entries.len(),
{
    if entries.len() > 0 {
        let init = entries.drop_last();
        assert(!lists_symbol(init, sym)) by {
            if lists_symbol(init, sym) {
                let i = choose|i: int| 0 <= i < init.len() && #[trigger] init[i].symbol == sym;
                assert(entries[i] == init[i]);
            }
        }
        assert(entries[entries.len() - 1].symbol != sym);
        lemma_unnamed_when_absent(init, sym);
    }
}

/// Appending one record adds its symbol and nothing else.
proof fn lemma_lists_symbol_push(entries: Seq<CompanyView>, e: CompanyView, sym: Seq<char>)
    ensures
        lists_symbol(entries.push(e), sym) <==> (lists_symbol(entries, sym) || e.symbol == sym),
{
    let pushed = entries.push(e);
    if lists_symbol(entries, sym) {
        let i = choose|i: int| 0 <= i < entries.len() && #[trigger] entries[i].symbol == sym;
        assert(pushed[i] == entries[i]);
    }
    if e.symbol == sym {
        assert(pushed[entries.len() as int] == e);
    }
    if lists_symbol(pushed, sym) {
        let i = choose|i: int| 0 <= i < pushed.len() && #[trigger] pushed[i].symbol == sym;
        if i < entries.len() {
            assert(pushed[i] == entries[i]);
        }
    }
}

/// A symbol occurs in two sequences put together exactly when it occurs in one of them.
proof fn lemma_lists_symbol_concat(a: Seq<CompanyView>, b: Seq<CompanyView>, sym: Seq<char>)
    ensures
        lists_symbol(a + b, sym) <==> (lists_symbol(a, sym) || lists_symbol(b, sym)),
{
    let ab = a + b;
    if lists_symbol(a, sym) {
        let i = choose|i: int| 0 <= i < a.len() && #[trigger] a[i].symbol == sym;
        assert(ab[i] == a[i]);
    }
    if lists_symbol(b, sym) {
        let i = choose|i: int| 0 <= i < b.len() && #[trigger] b[i].symbol == sym;
        assert(ab[a.len() + i] == b[i]);
    }
    if lists_symbol(ab, sym) {
        let i = choose|i: int| 0 <= i < ab.len() && #[trigger] ab[i].symbol == sym;
        if i < a.len() {
            assert(ab[i] == a[i]);
        } else {
            assert(ab[i] == b[i - a.len()]);
        }
    }
}

/// A symbol with a reference occurs somewhere in the corpus.
proof fn lemma_referenced_in_corpus(lists: Seq<Seq<CompanyView>>, sym: Seq<char>)
    requires
        reference_count(lists, sym) > 0,
    ensures
        lists_symbol(corpus(lists), sym),
    decreases lists.len(),
{
    let init = lists.drop_last();
    lemma_lists_symbol_concat(corpus(init), lists.last(), sym);
    if !lists_symbol(lists.last(), sym) {
        lemma_referenced_in_corpus(init, sym);
    }
}

/// Reading one more record whose symbol already has a group.
proof fn lemma_absorb_known(
    done: Seq<Seq<CompanyView>>,
    partial: Seq<CompanyView>,
    k: usize,
    groups: Seq<CandidateView>,
    last: Seq<usize>,
    seen: Seq<CompanyView>,
    owner: Seq<int>,
    e: CompanyView,
    g: int,
)
    requires
        tracks(done, partial, seen, owner, k as int, groups, last),
        0 <= g < groups.len(),
        groups[g].symbol == e.symbol,
    ensures
        tracks(
            done,
            partial.push(e),
            seen.push(e),
            owner.push(g),
            k as int,
            groups.update(
                g,
                CandidateView {
                    symbol: e.symbol,
                    name: if groups[g].name.len() == 0 {
                        e.name
                    } else {
                        groups[g].name
                    },
                    refs: if last[g] == k {
                        groups[g].refs
                    } else {
                        groups[g].refs + 1
                    },
                },
            ),
            last.update(g, k),
        ),
{
    let seen2 = seen.push(e);
    assert(seen2 =~= corpus(done) + partial.push(e));
    assert(seen2.drop_last() =~= seen);
    let new_groups = groups.update(
        g,
        CandidateView {
            symbol: e.symbol,
            name: if groups[g].name.len() == 0 {
                e.name
            } else {
                groups[g].name
            },
            refs: if last[g] == k {
                groups[g].refs
            } else {
                groups[g].refs + 1
            },
        },
    );
    let new_last = last.update(g, k);
    assert forall|h: int| 0 <= h < new_groups.len() implies lists_symbol(
        seen2,
        #[trigger] new_groups[h].symbol,
    ) by {
        lemma_lists_symbol_push(seen, e, new_groups[h].symbol);
    }
    let owner2 = owner.push(g);
    assert forall|t: int| 0 <= t < seen2.len() implies 0 <= #[trigger] owner2[t] < new_groups.len()
        && new_groups[owner2[t]].symbol == seen2[t].symbol by {
        if t < seen.len() {
            assert(seen2[t] == seen[t]);
            assert(owner2[t] == owner[t]);
        }
    }
    assert forall|a: int, b: int| 0 <= a < b < new_groups.len() implies #[trigger] new_groups[a].symbol
        != #[trigger] new_groups[b].symbol by {
        assert(new_groups[a].symbol == groups[a].symbol);
        assert(new_groups[b].symbol == groups[b].symbol);
        assert(groups[a].symbol != groups[b].symbol);
    }
    assert forall|h: int| 0 <= h < new_groups.len() implies #[trigger] new_groups[h].name
        == resolved_name(seen2, new_groups[h].symbol) by {
        assert(groups[h].name == resolved_name(seen, groups[h].symbol));
        if h != g {
            assert(groups[h].symbol != groups[g].symbol);
        }
    }
    assert forall|h: int| 0 <= h < new_groups.len() implies #[trigger] new_groups[h].refs
        == reference_count(done, new_groups[h].symbol) + if lists_symbol(
        partial.push(e),
        new_groups[h].symbol,
    ) {
        1nat
    } else {
        0nat
    } by {
        lemma_lists_symbol_push(partial, e, groups[h].symbol);
        assert(last[h] == k <==> lists_symbol(partial, groups[h].symbol));
        if h != g {
            assert(groups[h].symbol != groups[g].symbol);
        }
    }
    assert forall|h: int| 0 <= h < new_groups.len() implies #[trigger] new_last[h] <= k && (new_last[h]
        == k <==> lists_symbol(partial.push(e), new_groups[h].symbol)) by {
        lemma_lists_symbol_push(partial, e, groups[h].symbol);
        assert(last[h] <= k && (last[h] == k <==> lists_symbol(partial, groups[h].symbol)));
        if h != g {
            assert(groups[h].symbol != groups[g].symbol);
        }
    }
}

/// Reading one more record whose symbol has no group yet.
proof fn lemma_absorb_new(
    done: Seq<Seq<CompanyView>>,
    partial: Seq<CompanyView>,
    k: usize,
    groups: Seq<CandidateView>,
    last: Seq<usize>,
    seen: Seq<CompanyView>,
    owner: Seq<int>,
    e: CompanyView,
)
    requires
        tracks(done, partial, seen, owner, k as int, groups, last),
        forall|g: int| 0 <= g < groups.len() ==> #[trigger] groups[g].symbol != e.symbol,
    ensures
        tracks(
            done,
            partial.push(e),
            seen.push(e),
            owner.push(groups.len() as int),
            k as int,
            groups.push(CandidateView { symbol: e.symbol, name: e.name, refs: 1 }),
            last.push(k),
        ),
{
    let seen2 = seen.push(e);
    assert(seen2 =~= corpus(done) + partial.push(e));
    assert(seen2.drop_last() =~= seen);
    let new_groups = groups.push(CandidateView { symbol: e.symbol, name: e.name, refs: 1 });
    let new_last = last.push(k);
    let n = groups.len() as int;
    assert(!lists_symbol(seen, e.symbol)) by {
        if lists_symbol(seen, e.symbol) {
            let t = choose|t: int| 0 <= t < seen.len() && #[trigger] seen[t].symbol == e.symbol;
            assert(groups[owner[t]].symbol == e.symbol);
        }
    }
    lemma_lists_symbol_concat(corpus(done), partial, e.symbol);
    if reference_count(done, e.symbol) > 0 {
        lemma_referenced_in_corpus(done, e.symbol);
    }
    lemma_unnamed_when_absent(seen, e.symbol);
    assert forall|h: int| 0 <= h < new_groups.len() implies lists_symbol(
        seen2,
        #[trigger] new_groups[h].symbol,
    ) by {
        lemma_lists_symbol_push(seen, e, new_groups[h].symbol);
    }
    let owner2 = owner.push(n);
    assert forall|t: int| 0 <= t < seen2.len() implies 0 <= #[trigger] owner2[t] < new_groups.len()
        && new_groups[owner2[t]].symbol == seen2[t].symbol by {
        if t < seen.len() {
            assert(seen2[t] == seen[t]);
            assert(owner2[t] == owner[t]);
        }
    }
    assert forall|a: int, b: int| 0 <= a < b < new_groups.len() implies #[trigger] new_groups[a].symbol
        != #[trigger] new_groups[b].symbol by {
        if b < n {
            assert(groups[a].symbol != groups[b].symbol);
        } else {
            assert(groups[a].symbol != e.symbol);
        }
    }
    assert forall|h: int| 0 <= h < new_groups.len() implies #[trigger] new_groups[h].name
        == resolved_name(seen2, new_groups[h].symbol) by {
        if h < n {
            assert(groups[h].name == resolved_name(seen, groups[h].symbol));
            assert(groups[h].symbol != e.symbol);
        }
    }
    assert forall|h: int| 0 <= h < new_groups.len() implies #[trigger] new_groups[h].refs
        == reference_count(done, new_groups[h].symbol) + if lists_symbol(
        partial.push(e),
        new_groups[h].symbol,
    ) {
        1nat
    } else {
        0nat
    } by {
        lemma_lists_symbol_push(partial, e, new_groups[h].symbol);
        if h < n {
            assert(groups[h].symbol != e.symbol);
            assert(groups[h].refs == reference_count(done, groups[h].symbol) + if lists_symbol(
                partial,
                groups[h].symbol,
            ) {
                1nat
            } else {
                0nat
            });
        }
    }
    assert forall|h: int| 0 <= h < new_groups.len() implies #[trigger] new_last[h] <= k && (new_last[h]
        == k <==> lists_symbol(partial.push(e), new_groups[h].symbol)) by {
        lemma_lists_symbol_push(partial, e, new_groups[h].symbol);
        if h < n {
            assert(groups[h].symbol != e.symbol);
            assert(last[h] <= k && (last[h] == k <==> lists_symbol(partial, groups[h].symbol)));
        }
    }
}

/// Finishing one source and moving on to the next.
proof fn lemma_next_source(
    done: Seq<Seq<CompanyView>>,
    src: Seq<CompanyView>,
    seen: Seq<CompanyView>,
    owner: Seq<int>,
    k: int,
    groups: Seq<CandidateView>,
    last: Seq<usize>,
)
    requires
        tracks(done, src, seen, owner, k, groups, last),
    ensures
        tracks(done.push(src), Seq::empty(), seen, owner, k + 1, groups, last),
{
    let done2 = done.push(src);
    assert(done2.drop_last() =~= done);
    assert(corpus(done2) + Seq::<CompanyView>::empty() =~= corpus(done) + src);
    assert forall|g: int| 0 <= g < groups.len() implies #[trigger] groups[g].refs == reference_count(
        done2,
        groups[g].symbol,
    ) + if lists_symbol(Seq::<CompanyView>::empty(), groups[g].symbol) {
        1nat
    } else {
        0nat
    } by {
        assert(groups[g].refs == reference_count(done, groups[g].symbol) + if lists_symbol(
            src,
            groups[g].symbol,
        ) {
            1nat
        } else {
            0nat
        });
    }
    assert forall|g: int| 0 <= g < groups.len() implies #[trigger] last[g] <= k + 1 && (last[g] == k
        + 1 <==> lists_symbol(Seq::<CompanyView>::empty(), groups[g].symbol)) by {
        assert(last[g] <= k);
    }
}

/// The index of the group whose symbol is `sym`, if there is one.
fn find_group(groups: &Vec<CompanyCandidate>, sym: &String) -> (r: Option<usize>)
    ensures
        match r {
            Some(g) => g < groups.len() && groups@[g as int].company.symbol@ == sym@,
            None => forall|g: int|
                0 <= g < groups.len() ==> #[trigger] groups@[g].company.symbol@ != sym@,
        },
{
    let mut g: usize = 0;
    while g < groups.len()
        invariant
            g <= groups.len(),
            forall|h: int| 0 <= h < g ==> #[trigger] groups@[h].company.symbol@ != sym@,
        decreases groups.len() - g,
    {
        if groups[g].company.symbol == *sym {
            return Some(g);
        }
        g = g + 1;
    }
    None
}

/// What the grouping pass yields: one group per symbol of the corpus, each
/// holding that symbol's candidate.
pub open spec fn is_grouping(lists: Seq<Seq<CompanyView>>, groups: Seq<CandidateView>) -> bool {
    &&& forall|g: int|
        0 <= g < groups.len() ==> lists_symbol(corpus(lists), #[trigger] groups[g].symbol)
            && groups[g] == candidate_of(lists, groups[g].symbol)
    &&& forall|sym: Seq<char>| #[trigger] lists_symbol(corpus(lists), sym) ==> holds_symbol(groups, sym)
    &&& forall|a: int, b: int|
        0 <= a < b < groups.len() ==> #[trigger] groups[a].symbol != #[trigger] groups[b].symbol
}

/// Reads every source in order and gathers one group per symbol.
pub(crate) fn group_listings(lists: &Vec<Vec<Company>>) -> (groups: Vec<CompanyCandidate>)
    ensures
        is_grouping(sources_view(lists@), candidates_view(groups@)),
{
    let ghost all = sources_view(lists@);
    let mut groups: Vec<CompanyCandidate> = Vec::new();
    // The last source that reported each group's symbol: a record from that
    // same source adds no reference.
    let mut last: Vec<usize> = Vec::new();
    let ghost mut seen: Seq<CompanyView> = Seq::empty();
    let ghost mut owner: Seq<int> = Seq::empty();
    proof {
        assert(all.subrange(0, 0) =~= Seq::<Seq<CompanyView>>::empty());
        assert(corpus(all.subrange(0, 0)) + Seq::<CompanyView>::empty() =~= seen);
        assert(candidates_view(groups@) =~= Seq::<CandidateView>::empty());
    }
    let mut k: usize = 0;
    while k < lists.len()
        invariant
            k <= lists.len(),
            all == sources_view(lists@),
            tracks(
                all.subrange(0, k as int),
                Seq::empty(),
                seen,
                owner,
                k as int,
                candidates_view(groups@),
                last@,
            ),
        decreases lists.len() - k,
    {
        let src = &lists[k];
        let ghost done = all.subrange(0, k as int);
        let mut j: usize = 0;
        proof {
            assert(all[k as int].subrange(0, 0) =~= Seq::<CompanyView>::empty());
        }
        while j < src.len()
            invariant
                k < lists.len(),
                j <= src.len(),
                *src == lists@[k as int],
                all == sources_view(lists@),
                done == all.subrange(0, k as int),
                tracks(
                    done,
                    all[k as int].subrange(0, j as int),
                    seen,
                    owner,
                    k as int,
                    candidates_view(groups@),
                    last@,
                ),
            decreases src.len() - j,
        {
            let e = &src[j];
            let ghost partial = all[k as int].subrange(0, j as int);
            let ghost before = candidates_view(groups@);
            let ghost last_before = last@;
            assert(e@ == all[k as int][j as int]);
            match find_group(&groups, &e.symbol) {
                Some(g) => {
                    proof {
                        lemma_reference_count_bound(done, before[g as int].symbol);
                        lemma_absorb_known(done, partial, k, before, last@, seen, owner, e@, g as int);
                    }
                    let cur = &groups[g];
                    let refs = if last[g] == k {
                        cur.refs
                    } else {
                        cur.refs + 1
                    };
                    let name = if cur.company.name.as_str().is_empty() {
                        e.name.clone()
                    } else {
                        cur.company.name.clone()
                    };
                    let symbol = cur.company.symbol.clone();
                    groups.set(g, CompanyCandidate { company: Company { symbol, name }, refs });
                    last.set(g, k);
                    proof {
                        assert(candidates_view(groups@) =~= before.update(
                            g as int,
                            CandidateView {
                                symbol: e@.symbol,
                                name: if before[g as int].name.len() == 0 {
                                    e@.name
                                } else {
                                    before[g as int].name
                                },
                                refs: if last_before[g as int] == k {
                                    before[g as int].refs
                                } else {
                                    before[g as int].refs + 1
                                },
                            },
                        ));
                        seen = seen.push(e@);
                        owner = owner.push(g as int);
                    }
                },
                None => {
                    proof {
                        lemma_absorb_new(done, partial, k, before, last@, seen, owner, e@);
                    }
                    groups.push(
                        CompanyCandidate {
                            company: Company { symbol: e.symbol.clone(), name: e.name.clone() },
                            refs: 1,
                        },
                    );
                    last.push(k);
                    proof {
                        assert(candidates_view(groups@) =~= before.push(
                            CandidateView { symbol: e@.symbol, name: e@.name, refs: 1 },
                        ));
                        owner = owner.push(before.len() as int);
                        seen = seen.push(e@);
                    }
                },
            }
            proof {
                assert(all[k as int].subrange(0, j + 1) =~= partial.push(e@));
            }
            j = j + 1;
        }
        proof {
            assert(all[k as int].subrange(0, j as int) =~= all[k as int]);
            lemma_next_source(done, all[k as int], seen, owner, k as int, candidates_view(groups@), last@);
            assert(all.subrange(0, k + 1) =~= done.push(all[k as int]));
        }
        k = k + 1;
    }
    proof {
        let groups_v = candidates_view(groups@);
        assert(all.subrange(0, k as int) =~= all);
        assert(corpus(all) + Seq::<CompanyView>::empty() =~= corpus(all));
        assert(seen =~= corpus(all));
        assert forall|sym: Seq<char>| #[trigger] lists_symbol(corpus(all), sym) implies holds_symbol(
            groups_v,
            sym,
        ) by {
            let t = choose|t: int| 0 <= t < seen.len() && #[trigger] seen[t].symbol == sym;
            assert(groups_v[owner[t]].symbol == sym);
        }
        assert forall|g: int| 0 <= g < groups_v.len() implies lists_symbol(
            corpus(all),
            #[trigger] groups_v[g].symbol,
        ) && groups_v[g] == candidate_of(all, groups_v[g].symbol) by {
            assert(lists_symbol(seen, groups_v[g].symbol));
            assert(groups_v[g].name == resolved_name(seen, groups_v[g].symbol));
            assert(groups_v[g].refs == reference_count(all, groups_v[g].symbol) + if lists_symbol(
                Seq::<CompanyView>::empty(),
                groups_v[g].symbol,
            ) {
                1nat
            } else {
                0nat
            });
        }
        assert(is_grouping(all, groups_v));
    }
    groups
}

} // verus!
