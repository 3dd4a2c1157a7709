use earnings_calendar::company::Company;
use earnings_calendar::correlation::{capacity_hint, count_entries, CompanyCandidate};
use earnings_calendar::report::{decimal_text, render_line, render_report, REPORT_HEADER};

fn cand(symbol: &str, name: &str, refs: usize) -> CompanyCandidate {
    CompanyCandidate { company: Company::new(symbol.to_string(), name.to_string()), refs }
}

#[test]
fn decimal_digits() {
    assert_eq!(decimal_text(0), "0");
    assert_eq!(decimal_text(7), "7");
    assert_eq!(decimal_text(10), "10");
    assert_eq!(decimal_text(12345), "12345");
    assert_eq!(decimal_text(usize::MAX), usize::MAX.to_string());
}

#[test]
fn report_lines_are_aligned() {
    assert_eq!(render_line(&cand("AAA", "Apple", 2)), "    2\tAAA    \tApple\n");
    assert_eq!(render_line(&cand("LONGSYMBOL", "", 123456)), "123456\tLONGSYMBOL\t\n");
}

#[test]
fn report_matches_standard_formatting() {
    let cands = vec![cand("IBM", "IBM Corp", 3), cand("AAPL", "Apple", 2), cand("GE", "", 1)];
    let mut expected = String::from(REPORT_HEADER);
    for c in &cands {
        expected.push_str(&format!("{:>5}\t{:<7}\t{}\n", c.refs, c.company.symbol, c.company.name));
    }
    assert_eq!(render_report(&cands), expected);
    assert_eq!(render_report(&vec![]), "Refs.\tSymbol \tCompany Name\n");
}

#[test]
fn hint_per_source() {
    assert_eq!(capacity_hint(10, 5), 2);
    assert_eq!(capacity_hint(10, 0), 0);
    assert_eq!(capacity_hint(0, 5), 0);
    let lists = vec![
        vec![Company::new("A".to_string(), String::new())],
        vec![],
        vec![Company::new("B".to_string(), String::new()), Company::new("C".to_string(), String::new())],
    ];
    assert_eq!(count_entries(&lists), 3);
}
