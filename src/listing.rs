//! Reading company listings out of a source's calendar page.
//!
//! A page's HTML is searched with CSS selectors (by scraper); each match
//! gives the text of one symbol or one name. Symbols and names are then
//! cleaned of trailing markup and paired into records.

use vstd::prelude::*;

use crate::calendar::{CalendarDate, PADDED_MONTH_DAY_YEAR, formatted_day};
use crate::company::{Company, CompanyView};
use crate::correlation::listing_view;

verus! {

/// The inner HTML of each element of `document` that `selector` matches, in
/// document order; `None` when the selector is not valid CSS.
pub uninterp spec fn selected_fragments(document: Seq<char>, selector: Seq<char>) -> Option<Seq<Seq<char>>>;

/// The text with leading and trailing whitespace removed.
pub uninterp spec fn trimmed(text: Seq<char>) -> Seq<char>;

/// A sequence of strings, as values.
pub open spec fn strings_view(v: Seq<String>) -> Seq<Seq<char>> {
    v.map_values(|s: String| s@)
}

/// Relies on scraper's `Selector::parse`, `Html::parse_document`,
/// `Html::select` and `ElementRef::inner_html`: parses the page and
/// returns the inner HTML of the elements the selector matches, in order.
#[verifier::external_body]
fn select_inner_html(document: &str, selector: &str) -> (r: Option<Vec<String>>)
    ensures
        match r {
            Some(v) => selected_fragments(document@, selector@) == Some(strings_view(v@)),
            None => selected_fragments(document@, selector@) is None,
        },
{
    let selector = scraper::Selector::parse(selector).ok()?;
    let html = scraper::Html::parse_document(document);
    Some(html.select(&selector).map(|e| e.inner_html()).collect())
}

/// Relies on `str::trim`: the text without leading and trailing whitespace.
#[verifier::external_body]
fn trim_text(text: &str) -> (r: String)
    ensures
        r@ == trimmed(text@),
{
    text.trim().to_string()
}

/// The text up to the first `<`, or all of it when it holds none.
pub open spec fn before_markup(text: Seq<char>) -> Seq<char>
    decreases text.len(),
{
    if text.len() == 0 || text[0] == '<' {
        Seq::empty()
    } else {
        seq![text[0]] + before_markup(text.drop_first())
    }
}

/// How the matched text of a column is cleaned.
#[derive(Debug, Clone, Copy, PartialEq, Eq, Structural)]
pub enum Cleanup {
    /// Kept as matched.
    Raw,
    /// Cut at the first `<`.
    BeforeMarkup,
    /// Cut at the first `<`, then trimmed of whitespace.
    BeforeMarkupTrimmed,
}

/// The cleaned form of one matched text.
pub open spec fn cleaned(mode: Cleanup, text: Seq<char>) -> Seq<char> {
    match mode {
        Cleanup::Raw => text,
        Cleanup::BeforeMarkup => before_markup(text),
        Cleanup::BeforeMarkupTrimmed => trimmed(before_markup(text)),
    }
}

/// Each text of a column, cleaned.
pub open spec fn cleaned_all(mode: Cleanup, texts: Seq<Seq<char>>) -> Seq<Seq<char>> {
    texts.map_values(|t: Seq<char>| cleaned(mode, t))
}

/// Records pairing the i-th symbol with the i-th name.
pub open spec fn paired(symbols: Seq<Seq<char>>, names: Seq<Seq<char>>) -> Seq<CompanyView> {
    Seq::new(symbols.len(), |i: int| CompanyView { symbol: symbols[i], name: names[i] })
}

/// Records of the symbols, with empty names.
pub open spec fn unnamed(symbols: Seq<Seq<char>>) -> Seq<CompanyView> {
    Seq::new(symbols.len(), |i: int| CompanyView { symbol: symbols[i], name: Seq::empty() })
}

/// The text up to the first `<`.
pub fn text_before_markup(text: &str) -> (r: String)
    ensures
        r@ == before_markup(text@),
{
    let len = text.unicode_len();
    let mut i: usize = 0;
    assert(text@.subrange(0, 0) + text@.subrange(0, len as int) =~= text@);
    while i < len && text.get_char(i) != '<'
        invariant
            len == text@.len(),
            i <= len,
            before_markup(text@) == text@.subrange(0, i as int) + before_markup(
                text@.subrange(i as int, len as int),
            ),
        decreases len - i,
    {
        let ghost rest = text@.subrange(i as int, len as int);
        assert(rest.drop_first() =~= text@.subrange(i + 1, len as int));
        assert(text@.subrange(0, i + 1) =~= text@.subrange(0, i as int) + seq![rest[0]]);
        assert(text@.subrange(0, i + 1) + before_markup(rest.drop_first()) =~= text@.subrange(
            0,
            i as int,
        ) + (seq![rest[0]] + before_markup(rest.drop_first())));
        i = i + 1;
    }
    assert(text@.subrange(0, i as int) + before_markup(text@.subrange(i as int, len as int))
        =~= text@.subrange(0, i as int));
    text.substring_char(0, i).to_owned()
}

fn clean(mode: Cleanup, text: &String) -> (r: String)
    ensures
        r@ == cleaned(mode, text@),
{
    match mode {
        Cleanup::Raw => text.clone(),
        Cleanup::BeforeMarkup => text_before_markup(text.as_str()),
        Cleanup::BeforeMarkupTrimmed => {
            let cut = text_before_markup(text.as_str());
            trim_text(cut.as_str())
        },
    }
}

fn clean_all(mode: Cleanup, texts: &Vec<String>) -> (r: Vec<String>)
    ensures
        strings_view(r@) == cleaned_all(mode, strings_view(texts@)),
{
    let mut r: Vec<String> = Vec::new();
    let mut i: usize = 0;
    while i < texts.len()
        invariant
            i <= texts.len(),
            strings_view(r@) == cleaned_all(mode, strings_view(texts@)).subrange(0, i as int),
        decreases texts.len() - i,
    {
        let ghost before = r@;
        r.push(clean(mode, &texts[i]));
        assert(strings_view(r@) =~= strings_view(before).push(cleaned(mode, texts@[i as int]@)));
        i = i + 1;
    }
    assert(cleaned_all(mode, strings_view(texts@)).subrange(0, i as int) =~= cleaned_all(
        mode,
        strings_view(texts@),
    ));
    r
}

/// Pairs the i-th symbol with the i-th name; `None` when the columns differ
/// in length.
pub fn pair_listings(symbols: &Vec<String>, names: &Vec<String>) -> (r: Option<Vec<Company>>)
    ensures
        r is Some <==> symbols.len() == names.len(),
        r matches Some(v) ==> listing_view(v) == paired(strings_view(symbols@), strings_view(names@)),
{
    if symbols.len() != names.len() {
        return None;
    }
    let mut out: Vec<Company> = Vec::new();
    let mut i: usize = 0;
    while i < symbols.len()
        invariant
            i <= symbols.len(),
            symbols.len() == names.len(),
            listing_view(out) == paired(strings_view(symbols@), strings_view(names@)).subrange(
                0,
                i as int,
            ),
        decreases symbols.len() - i,
    {
        let ghost before = out;
        out.push(Company { symbol: symbols[i].clone(), name: names[i].clone() });
        assert(listing_view(out) =~= listing_view(before).push(
            CompanyView { symbol: symbols@[i as int]@, name: names@[i as int]@ },
        ));
        i = i + 1;
    }
    assert(paired(strings_view(symbols@), strings_view(names@)).subrange(0, i as int) =~= paired(
        strings_view(symbols@),
        strings_view(names@),
    ));
    Some(out)
}

/// Records of the symbols, with empty names.
pub fn unnamed_listings(symbols: &Vec<String>) -> (r: Vec<Company>)
    ensures
        listing_view(r) == unnamed(strings_view(symbols@)),
{
    let mut out: Vec<Company> = Vec::new();
    let mut i: usize = 0;
    while i < symbols.len()
        invariant
            i <= symbols.len(),
            listing_view(out) == unnamed(strings_view(symbols@)).subrange(0, i as int),
        decreases symbols.len() - i,
    {
        let ghost before = out;
        out.push(Company { symbol: symbols[i].clone(), name: String::new() });
        assert(listing_view(out) =~= listing_view(before).push(
            CompanyView { symbol: symbols@[i as int]@, name: Seq::empty() },
        ));
        i = i + 1;
    }
    assert(unnamed(strings_view(symbols@)).subrange(0, i as int) =~= unnamed(strings_view(symbols@)));
    out
}

/// The records made of a symbol column and, when given, a name column with
/// its cleanup; `None` when the columns differ in length.
pub open spec fn columns_listing(
    symbols: Seq<Seq<char>>,
    symbol_cleanup: Cleanup,
    names: Option<(Seq<Seq<char>>, Cleanup)>,
) -> Option<Seq<CompanyView>> {
    match names {
        None => Some(unnamed(cleaned_all(symbol_cleanup, symbols))),
        Some((names, name_cleanup)) => if symbols.len() == names.len() {
            Some(paired(cleaned_all(symbol_cleanup, symbols), cleaned_all(name_cleanup, names)))
        } else {
            None
        },
    }
}

/// What reading a page with the given selectors and cleanups yields: the
/// records, or `None` when a selector is invalid or the symbol and name
/// columns differ in length.
pub open spec fn page_listing(
    document: Seq<char>,
    symbol_selector: Seq<char>,
    symbol_cleanup: Cleanup,
    name_column: Option<(Seq<char>, Cleanup)>,
) -> Option<Seq<CompanyView>> {
    match selected_fragments(document, symbol_selector) {
        None => None,
        Some(symbols) => match name_column {
            None => columns_listing(symbols, symbol_cleanup, None),
            Some((name_selector, name_cleanup)) => match selected_fragments(document, name_selector) {
                None => None,
                Some(names) => columns_listing(symbols, symbol_cleanup, Some((names, name_cleanup))),
            },
        },
    }
}

/// Optional records, as values.
pub open spec fn listing_option_view(r: Option<Vec<Company>>) -> Option<Seq<CompanyView>> {
    match r {
        Some(v) => Some(listing_view(v)),
        None => None,
    }
}

/// Cleans the matched columns and pairs them in order: each symbol with the
/// name at the same place, or with an empty name when no name column is
/// given.
pub fn assemble_listing(
    symbols: &Vec<String>,
    symbol_cleanup: Cleanup,
    names: Option<&Vec<String>>,
    name_cleanup: Cleanup,
) -> (r: Option<Vec<Company>>)
    ensures
        listing_option_view(r) == columns_listing(
            strings_view(symbols@),
            symbol_cleanup,
            match names {
                Some(n) => Some((strings_view(n@), name_cleanup)),
                None => None,
            },
        ),
{
    let cleaned_symbols = clean_all(symbol_cleanup, symbols);
    match names {
        None => Some(unnamed_listings(&cleaned_symbols)),
        Some(n) => {
            let cleaned_names = clean_all(name_cleanup, n);
            assert(cleaned_symbols.len() == strings_view(cleaned_symbols@).len());
            assert(cleaned_names.len() == strings_view(cleaned_names@).len());
            assert(symbols.len() == strings_view(symbols@).len());
            assert(n.len() == strings_view(n@).len());
            pair_listings(&cleaned_symbols, &cleaned_names)
        },
    }
}

/// Reads the records of a page: the symbols that `symbol_selector` matches
/// and, when a name column is given, the names its selector matches, each
/// column cleaned as asked and paired in order.
pub fn read_listing(
    document: &str,
    symbol_selector: &str,
    symbol_cleanup: Cleanup,
    name_selector: Option<&str>,
    name_cleanup: Cleanup,
) -> (r: Option<Vec<Company>>)
    ensures
        listing_option_view(r) == page_listing(
            document@,
            symbol_selector@,
            symbol_cleanup,
            match name_selector {
                Some(s) => Some((s@, name_cleanup)),
                None => None,
            },
        ),
{
    let symbols = match select_inner_html(document, symbol_selector) {
        Some(v) => v,
        None => return None,
    };
    match name_selector {
        None => assemble_listing(&symbols, symbol_cleanup, None, name_cleanup),
        Some(sel) => match select_inner_html(document, sel) {
            Some(names) => assemble_listing(&symbols, symbol_cleanup, Some(&names), name_cleanup),
            None => None,
        },
    }
}

/// Benzinga: the symbol links of the earnings table; the page shows no names.
pub const BENZINGA_SYMBOLS: &'static str = "tr[class=\"ant-table-row ant-table-row-level-0\"]>td:nth-child(3)>div>div>div>a";

/// Investing.com: the symbol links of the earnings table.
pub const INVESTING_SYMBOLS: &'static str = "a[class=\"bold middle\"]";

/// Investing.com: the company names of the earnings table.
pub const INVESTING_NAMES: &'static str = "span[class=\"earnCalCompanyName middle\"]";

/// TradingView: the symbol links of the screener.
pub const TRADINGVIEW_SYMBOLS: &'static str = "a[class=\"tv-screener__symbol apply-common-tooltip\"]";

/// TradingView: the descriptions of the screener, which carry the names.
pub const TRADINGVIEW_NAMES: &'static str = "span[class=\"tv-screener__description\"]";

/// Zacks: the symbols of the earnings table.
pub const ZACKS_SYMBOLS: &'static str = "table#earnings_rel_data_all_table>tbody>tr>th>a>span";

/// Zacks: the company names of the earnings table.
pub const ZACKS_NAMES: &'static str = "table#earnings_rel_data_all_table>tbody>tr>td:nth-child(2)>span";

/// MarketWatch, below the pane of one day: the symbol links.
pub const MARKETWATCH_SYMBOLS: &'static str = "div>div>table>tbody>tr>td[class=\"overflow__cell align--left\"]>div>a";

/// MarketWatch, below the pane of one day: the company names.
pub const MARKETWATCH_NAMES: &'static str = "div>div>table>tbody>tr>td[class=\"overflow__cell fixed--column align--left\"]>div[class=\"cell__content fixed--cell\"]>a";

/// The records of a Benzinga calendar page.
pub fn benzinga_listing(document: &str) -> (r: Option<Vec<Company>>)
    ensures
        listing_option_view(r) == page_listing(document@, BENZINGA_SYMBOLS@, Cleanup::Raw, None),
{
    read_listing(document, BENZINGA_SYMBOLS, Cleanup::Raw, None, Cleanup::Raw)
}

/// The records of an Investing.com calendar page.
pub fn investing_listing(document: &str) -> (r: Option<Vec<Company>>)
    ensures
        listing_option_view(r) == page_listing(
            document@,
            INVESTING_SYMBOLS@,
            Cleanup::Raw,
            Some((INVESTING_NAMES@, Cleanup::Raw)),
        ),
{
    read_listing(document, INVESTING_SYMBOLS, Cleanup::Raw, Some(INVESTING_NAMES), Cleanup::Raw)
}

/// The records of a TradingView earnings page; a description holds the name
/// before its first tag.
pub fn tradingview_listing(document: &str) -> (r: Option<Vec<Company>>)
    ensures
        listing_option_view(r) == page_listing(
            document@,
            TRADINGVIEW_SYMBOLS@,
            Cleanup::Raw,
            Some((TRADINGVIEW_NAMES@, Cleanup::BeforeMarkupTrimmed)),
        ),
{
    read_listing(
        document,
        TRADINGVIEW_SYMBOLS,
        Cleanup::Raw,
        Some(TRADINGVIEW_NAMES),
        Cleanup::BeforeMarkupTrimmed,
    )
}

/// The records of a Zacks calendar page; a symbol cell holds the symbol
/// before its first tag.
pub fn zacks_listing(document: &str) -> (r: Option<Vec<Company>>)
    ensures
        listing_option_view(r) == page_listing(
            document@,
            ZACKS_SYMBOLS@,
            Cleanup::BeforeMarkup,
            Some((ZACKS_NAMES@, Cleanup::Raw)),
        ),
{
    read_listing(document, ZACKS_SYMBOLS, Cleanup::BeforeMarkup, Some(ZACKS_NAMES), Cleanup::Raw)
}

/// The selector of the MarketWatch pane that shows `date`.
pub open spec fn marketwatch_pane(date: int) -> Seq<char> {
    "div.element[data-tab-pane=\""@ + formatted_day(date, PADDED_MONTH_DAY_YEAR@) + "\"]"@
}

/// The selector of the MarketWatch pane labelled `label`.
pub fn pane_selector(label: &str) -> (r: String)
    ensures
        r@ == "div.element[data-tab-pane=\""@ + label@ + "\"]"@,
{
    let mut selector = String::from_str("div.element[data-tab-pane=\"");
    selector.append(label);
    selector.append("\"]");
    selector
}

/// The selector of the MarketWatch pane that shows `date`.
pub fn marketwatch_pane_selector(date: &CalendarDate) -> (r: String)
    ensures
        r@ == marketwatch_pane(date@),
{
    let label = date.format(PADDED_MONTH_DAY_YEAR);
    pane_selector(label.as_str())
}

/// The records a MarketWatch calendar page shows for `date`.
pub fn marketwatch_listing(document: &str, date: &CalendarDate) -> (r: Option<Vec<Company>>)
    ensures
        listing_option_view(r) == page_listing(
            document@,
            marketwatch_pane(date@) + ">"@ + MARKETWATCH_SYMBOLS@,
            Cleanup::Raw,
            Some((marketwatch_pane(date@) + ">"@ + MARKETWATCH_NAMES@, Cleanup::Raw)),
        ),
{
    let pane = marketwatch_pane_selector(date);
    let mut symbols = pane.clone();
    symbols.append(">");
    symbols.append(MARKETWATCH_SYMBOLS);
    let mut names = pane;
    names.append(">");
    names.append(MARKETWATCH_NAMES);
    read_listing(document, symbols.as_str(), Cleanup::Raw, Some(names.as_str()), Cleanup::Raw)
}

} // verus!
