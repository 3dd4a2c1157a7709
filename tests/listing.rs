use earnings_calendar::calendar::CalendarDate;
use earnings_calendar::listing::{
    assemble_listing, pane_selector, benzinga_listing, investing_listing, marketwatch_listing, marketwatch_pane_selector,
    pair_listings, read_listing, text_before_markup, tradingview_listing, zacks_listing, Cleanup,
};

fn pairs(v: &[earnings_calendar::company::Company]) -> Vec<(String, String)> {
    v.iter().map(|c| (c.symbol.clone(), c.name.clone())).collect()
}

fn owned(v: &[(&str, &str)]) -> Vec<(String, String)> {
    v.iter().map(|(a, b)| (a.to_string(), b.to_string())).collect()
}

#[test]
fn cut_before_markup() {
    assert_eq!(text_before_markup("AAPL<span>x</span>"), "AAPL");
    assert_eq!(text_before_markup("plain"), "plain");
    assert_eq!(text_before_markup(""), "");
    assert_eq!(text_before_markup("<b>"), "");
}

#[test]
fn benzinga_page() {
    let page = r#"<html><body><table>
        <tr class="ant-table-row ant-table-row-level-0"><td>1</td><td>2</td><td><div><div><div><a>AAPL</a></div></div></div></td></tr>
        <tr class="ant-table-row ant-table-row-level-0"><td>1</td><td>2</td><td><div><div><div><a>MSFT</a></div></div></div></td></tr>
        </table></body></html>"#;
    let r = benzinga_listing(page).unwrap();
    assert_eq!(pairs(&r), owned(&[("AAPL", ""), ("MSFT", "")]));
}

#[test]
fn investing_page() {
    let page = r#"<div><span class="earnCalCompanyName middle">Apple Inc</span><a class="bold middle">AAPL</a>
        <span class="earnCalCompanyName middle">Boeing</span><a class="bold middle">BA</a></div>"#;
    let r = investing_listing(page).unwrap();
    assert_eq!(pairs(&r), owned(&[("AAPL", "Apple Inc"), ("BA", "Boeing")]));
}

#[test]
fn investing_page_with_missing_name() {
    let page = r#"<div><span class="earnCalCompanyName middle">Apple Inc</span><a class="bold middle">AAPL</a>
        <a class="bold middle">BA</a></div>"#;
    assert!(investing_listing(page).is_none());
}

#[test]
fn tradingview_page() {
    let page = r#"<div><a class="tv-screener__symbol apply-common-tooltip">AAPL</a>
        <span class="tv-screener__description">  Apple Inc <sup>x</sup></span></div>"#;
    let r = tradingview_listing(page).unwrap();
    assert_eq!(pairs(&r), owned(&[("AAPL", "Apple Inc")]));
}

#[test]
fn zacks_page() {
    let page = r#"<table id="earnings_rel_data_all_table"><tbody>
        <tr><th><a><span>AAPL<span class="x">*</span></span></a></th><td><span>Apple</span></td><td>1</td></tr>
        </tbody></table>"#;
    let r = zacks_listing(page).unwrap();
    assert_eq!(pairs(&r), owned(&[("AAPL", "Apple")]));
}

#[test]
fn marketwatch_page() {
    let date = CalendarDate::from_ymd(2023, 4, 7).unwrap();
    assert_eq!(marketwatch_pane_selector(&date), "div.element[data-tab-pane=\"04/07/2023\"]");
    let page = r#"<div class="element" data-tab-pane="04/07/2023"><div><div><table><tbody><tr>
        <td class="overflow__cell fixed--column align--left"><div class="cell__content fixed--cell"><a>Apple</a></div></td>
        <td class="overflow__cell align--left"><div><a>AAPL</a></div></td>
        </tr></tbody></table></div></div></div>
        <div class="element" data-tab-pane="04/08/2023"><div><div><table><tbody><tr>
        <td class="overflow__cell fixed--column align--left"><div class="cell__content fixed--cell"><a>Other</a></div></td>
        <td class="overflow__cell align--left"><div><a>OTH</a></div></td>
        </tr></tbody></table></div></div></div>"#;
    let r = marketwatch_listing(page, &date).unwrap();
    assert_eq!(pairs(&r), owned(&[("AAPL", "Apple")]));
}

#[test]
fn invalid_selector_reads_nothing() {
    assert!(read_listing("<a>x</a>", "a[", Cleanup::Raw, None, Cleanup::Raw).is_none());
    let r = read_listing("<a>x</a>", "a", Cleanup::Raw, None, Cleanup::Raw).unwrap();
    assert_eq!(pairs(&r), owned(&[("x", "")]));
}

#[test]
fn pairing_needs_equal_columns() {
    let s = vec!["A".to_string(), "B".to_string()];
    let n = vec!["a".to_string()];
    assert!(pair_listings(&s, &n).is_none());
    let n = vec!["a".to_string(), "b".to_string()];
    assert_eq!(pairs(&pair_listings(&s, &n).unwrap()), owned(&[("A", "a"), ("B", "b")]));
}

#[test]
fn columns_assembled_with_cleanup() {
    let symbols = vec!["AAPL<i>1</i>".to_string(), "MSFT".to_string()];
    let names = vec![" Apple <b>x</b>".to_string(), "Microsoft\n".to_string()];
    let r = assemble_listing(&symbols, Cleanup::BeforeMarkup, Some(&names), Cleanup::BeforeMarkupTrimmed)
        .unwrap();
    assert_eq!(pairs(&r), owned(&[("AAPL", "Apple"), ("MSFT", "Microsoft")]));
    let r = assemble_listing(&symbols, Cleanup::Raw, None, Cleanup::Raw).unwrap();
    assert_eq!(pairs(&r), owned(&[("AAPL<i>1</i>", ""), ("MSFT", "")]));
    assert!(assemble_listing(&symbols, Cleanup::Raw, Some(&vec![]), Cleanup::Raw).is_none());
}

#[test]
fn marketwatch_pane_from_label() {
    assert_eq!(pane_selector("04/07/2023"), "div.element[data-tab-pane=\"04/07/2023\"]");
}
