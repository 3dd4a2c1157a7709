use earnings_calendar::company::Company;
use earnings_calendar::correlation::{eval_candidates, CompanyCandidate};

fn listing(entries: &[(&str, &str)]) -> Vec<Company> {
    entries
        .iter()
        .map(|(s, n)| Company::new(s.to_string(), n.to_string()))
        .collect()
}

fn summary(cands: &[CompanyCandidate]) -> Vec<(String, String, usize)> {
    cands
        .iter()
        .map(|c| (c.company.symbol.clone(), c.company.name.clone(), c.refs))
        .collect()
}

#[test]
fn name_from_first_source_that_has_one() {
    let lists = vec![
        listing(&[("AAA", "Apple")]),
        listing(&[("AAA", "")]),
        listing(&[("BBB", "Boeing")]),
    ];
    let r = eval_candidates(&lists, 2);
    assert_eq!(summary(&r), vec![("AAA".to_string(), "Apple".to_string(), 2)]);
}

#[test]
fn repeated_symbol_in_one_source_counts_once() {
    let lists = vec![listing(&[("AAA", "Apple"), ("AAA", "Apple2")])];
    let r = eval_candidates(&lists, 1);
    assert_eq!(summary(&r), vec![("AAA".to_string(), "Apple".to_string(), 1)]);
    let r = eval_candidates(&lists, 2);
    assert!(r.is_empty());
}

#[test]
fn repeated_symbol_across_sources() {
    let lists = vec![
        listing(&[("AAA", "Apple"), ("AAA", "Apple2")]),
        listing(&[("AAA", "Other")]),
    ];
    let r = eval_candidates(&lists, 1);
    assert_eq!(summary(&r), vec![("AAA".to_string(), "Apple".to_string(), 2)]);
}

#[test]
fn empty_name_replaced_within_a_source() {
    let lists = vec![listing(&[("AAA", ""), ("AAA", "Apple")]), listing(&[("AAA", "Later")])];
    let r = eval_candidates(&lists, 0);
    assert_eq!(summary(&r), vec![("AAA".to_string(), "Apple".to_string(), 2)]);
}

#[test]
fn name_stays_empty_when_no_source_names_it() {
    let lists = vec![listing(&[("ZZZ", "")]), listing(&[("ZZZ", "")])];
    let r = eval_candidates(&lists, 1);
    assert_eq!(summary(&r), vec![("ZZZ".to_string(), String::new(), 2)]);
}

#[test]
fn silent_sources_give_nothing() {
    let lists: Vec<Vec<Company>> = vec![vec![], vec![], vec![]];
    assert!(eval_candidates(&lists, 0).is_empty());
    assert!(eval_candidates(&lists, 1).is_empty());
    let none: Vec<Vec<Company>> = vec![];
    assert!(eval_candidates(&none, 0).is_empty());
}

#[test]
fn ranked_by_count_then_symbol() {
    let lists = vec![
        listing(&[("MSFT", "Microsoft"), ("AAPL", "Apple"), ("IBM", "")]),
        listing(&[("IBM", "IBM Corp"), ("AAPL", ""), ("GE", "General Electric")]),
        listing(&[("IBM", ""), ("MSFT", ""), ("AA", "Alcoa")]),
    ];
    let r = eval_candidates(&lists, 1);
    assert_eq!(
        summary(&r),
        vec![
            ("IBM".to_string(), "IBM Corp".to_string(), 3),
            ("AAPL".to_string(), "Apple".to_string(), 2),
            ("MSFT".to_string(), "Microsoft".to_string(), 2),
            ("AA".to_string(), "Alcoa".to_string(), 1),
            ("GE".to_string(), "General Electric".to_string(), 1),
        ]
    );
}

#[test]
fn prefix_symbol_sorts_first() {
    let lists = vec![listing(&[("ABC", ""), ("AB", ""), ("B", ""), ("A", "")])];
    let r = eval_candidates(&lists, 1);
    let symbols: Vec<String> = r.iter().map(|c| c.company.symbol.clone()).collect();
    assert_eq!(symbols, vec!["A", "AB", "ABC", "B"]);
}

#[test]
fn refs_never_exceed_source_count() {
    let lists = vec![
        listing(&[("X", ""), ("X", ""), ("Y", "")]),
        listing(&[("X", ""), ("X", "")]),
        listing(&[]),
    ];
    let r = eval_candidates(&lists, 0);
    assert!(r.iter().all(|c| c.refs <= lists.len()));
    assert!(r.iter().all(|c| c.refs <= 2));
    assert_eq!(r[0].refs, 2);
}

#[test]
fn same_input_same_result() {
    let lists = vec![
        listing(&[("B", "b"), ("A", "a")]),
        listing(&[("A", ""), ("C", "c"), ("B", "")]),
    ];
    assert_eq!(summary(&eval_candidates(&lists, 1)), summary(&eval_candidates(&lists, 1)));
}

#[test]
fn higher_threshold_never_longer() {
    let lists = vec![
        listing(&[("A", ""), ("B", ""), ("C", "")]),
        listing(&[("A", ""), ("B", "")]),
        listing(&[("A", "")]),
    ];
    let lens: Vec<usize> = (0..5).map(|m| eval_candidates(&lists, m).len()).collect();
    assert_eq!(lens, vec![3, 3, 2, 1, 0]);
}

#[test]
fn threshold_above_reporting_sources_is_empty() {
    let lists = vec![listing(&[("A", "")]), listing(&[("A", "")]), listing(&[])];
    assert_eq!(eval_candidates(&lists, 2).len(), 1);
    assert!(eval_candidates(&lists, 3).is_empty());
}

#[test]
fn companies_equal_by_symbol() {
    let a = Company::new("AAA".to_string(), "Apple".to_string());
    let b = Company::new("AAA".to_string(), String::new());
    let c = Company::new("BBB".to_string(), "Apple".to_string());
    assert!(a == b);
    assert!(a != c);
    assert_eq!(a.duplicate().name, "Apple");
}
