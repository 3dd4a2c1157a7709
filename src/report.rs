//! The text of the candidate report: one tab-separated line per candidate
//! with its reference count, symbol and name.

use vstd::prelude::*;

use crate::correlation::{CandidateView, CompanyCandidate, candidates_view};

verus! {

/// The first line of a report.
pub const REPORT_HEADER: &'static str = "Refs.\tSymbol \tCompany Name\n";

/// The width the reference count is right-aligned to.
pub const REFS_WIDTH: usize = 5;

/// The width the symbol is left-aligned to.
pub const SYMBOL_WIDTH: usize = 7;

/// The character of a decimal digit.
pub open spec fn digit_char(d: nat) -> char {
    if d == 0 {
        '0'
    } else if d == 1 {
        '1'
    } else if d == 2 {
        '2'
    } else if d == 3 {
        '3'
    } else if d == 4 {
        '4'
    } else if d == 5 {
        '5'
    } else if d == 6 {
        '6'
    } else if d == 7 {
        '7'
    } else if d == 8 {
        '8'
    } else {
        '9'
    }
}

/// The decimal digits of `n`, without leading zeros.
pub open spec fn decimal(n: nat) -> Seq<char>
    decreases n,
{
    if n < 10 {
        seq![digit_char(n)]
    } else {
        decimal(n / 10) + seq![digit_char(n % 10)]
    }
}

/// `k` spaces.
pub open spec fn spaces(k: int) -> Seq<char> {
    Seq::new(if k > 0 { k as nat } else { 0 }, |i: int| ' ')
}

/// `text` preceded by spaces up to `width` characters.
pub open spec fn align_right(text: Seq<char>, width: nat) -> Seq<char> {
    spaces(width - text.len()) + text
}

/// `text` followed by spaces up to `width` characters.
pub open spec fn align_left(text: Seq<char>, width: nat) -> Seq<char> {
    text + spaces(width - text.len())
}

/// The report line of one candidate.
pub open spec fn report_line(c: CandidateView) -> Seq<char> {
    align_right(decimal(c.refs), REFS_WIDTH as nat) + "\t"@ + align_left(c.symbol, SYMBOL_WIDTH as nat)
        + "\t"@ + c.name + "\n"@
}

/// The lines of the candidates, in order.
pub open spec fn report_lines(cands: Seq<CandidateView>) -> Seq<char>
    decreases cands.len(),
{
    if cands.len() == 0 {
        Seq::empty()
    } else {
        report_lines(cands.drop_last()) + report_line(cands.last())
    }
}

/// The whole report: the header, then one line per candidate.
pub open spec fn report_text(cands: Seq<CandidateView>) -> Seq<char> {
    REPORT_HEADER@ + report_lines(cands)
}

fn digit_text(d: usize) -> (r: &'static str)
    requires
        d < 10,
    ensures
        r@ == seq![digit_char(d as nat)],
{
    proof {
        reveal_strlit("0");
        reveal_strlit("1");
        reveal_strlit("2");
        reveal_strlit("3");
        reveal_strlit("4");
        reveal_strlit("5");
        reveal_strlit("6");
        reveal_strlit("7");
        reveal_strlit("8");
        reveal_strlit("9");
    }
    if d == 0 {
        "0"
    } else if d == 1 {
        "1"
    } else if d == 2 {
        "2"
    } else if d == 3 {
        "3"
    } else if d == 4 {
        "4"
    } else if d == 5 {
        "5"
    } else if d == 6 {
        "6"
    } else if d == 7 {
        "7"
    } else if d == 8 {
        "8"
    } else {
        "9"
    }
}

/// The decimal digits of `n`.
pub fn decimal_text(n: usize) -> (r: String)
    ensures
        r@ == decimal(n as nat),
    decreases n,
{
    if n < 10 {
        String::from_str(digit_text(n))
    } else {
        let mut r = decimal_text(n / 10);
        r.append(digit_text(n % 10));
        r
    }
}

fn append_spaces(out: &mut String, k: usize)
    ensures
        final(out)@ == old(out)@ + spaces(k as int),
{
    let mut i: usize = 0;
    assert(out@ =~= old(out)@ + spaces(0));
    while i < k
        invariant
            i <= k,
            out@ == old(out)@ + spaces(i as int),
        decreases k - i,
    {
        out.append(" ");
        proof {
            reveal_strlit(" ");
        }
        i = i + 1;
        assert(out@ =~= old(out)@ + spaces(i as int));
    }
}

/// The report line of one candidate: the count right-aligned, the symbol
/// left-aligned, and the name, separated by tabs.
pub fn render_line(c: &CompanyCandidate) -> (r: String)
    ensures
        r@ == report_line(c@),
{
    let refs = decimal_text(c.refs);
    let refs_len = refs.as_str().unicode_len();
    let symbol_len = c.company.symbol.as_str().unicode_len();
    let mut line = String::new();
    if refs_len < REFS_WIDTH {
        append_spaces(&mut line, REFS_WIDTH - refs_len);
    }
    line.append(refs.as_str());
    line.append("\t");
    line.append(c.company.symbol.as_str());
    if symbol_len < SYMBOL_WIDTH {
        append_spaces(&mut line, SYMBOL_WIDTH - symbol_len);
    }
    line.append("\t");
    line.append(c.company.name.as_str());
    line.append("\n");
    proof {
        assert(Seq::<char>::empty() + spaces(REFS_WIDTH - refs_len) =~= spaces(REFS_WIDTH - refs_len));
        assert(line@ =~= report_line(c@));
    }
    line
}

/// The whole report for the candidates, in their order.
pub fn render_report(cands: &Vec<CompanyCandidate>) -> (r: String)
    ensures
        r@ == report_text(candidates_view(cands@)),
{
    let mut text = String::from_str(REPORT_HEADER);
    let mut i: usize = 0;
    assert(candidates_view(cands@).subrange(0, 0) =~= Seq::<CandidateView>::empty());
    assert(text@ =~= report_text(Seq::empty()));
    while i < cands.len()
        invariant
            i <= cands.len(),
            text@ == report_text(candidates_view(cands@).subrange(0, i as int)),
        decreases cands.len() - i,
    {
        let line = render_line(&cands[i]);
        text.append(line.as_str());
        proof {
            let all = candidates_view(cands@);
            assert(all.subrange(0, i + 1).drop_last() =~= all.subrange(0, i as int));
        }
        i = i + 1;
    }
    assert(candidates_view(cands@).subrange(0, i as int) =~= candidates_view(cands@));
    text
}

} // verus!
