//! The configured earnings-calendar sources.

use vstd::prelude::*;

verus! {

/// The MarketWatch earnings calendar.
pub struct MarketWatchParser {}

/// The Zacks earnings calendar.
pub struct ZacksParser {}

/// The TradingView earnings calendar.
pub struct TradingViewParser {}

/// The Investing.com earnings calendar.
pub struct InvestingParser {}

/// The Benzinga earnings calendar.
pub struct BenzingaParser {}

impl MarketWatchParser {
    pub const NAME: &'static str = "MarketWatch";
}

impl ZacksParser {
    pub const NAME: &'static str = "Zacks";
}

impl TradingViewParser {
    pub const NAME: &'static str = "TradingView";
}

impl InvestingParser {
    pub const NAME: &'static str = "Investing";
}

impl BenzingaParser {
    pub const NAME: &'static str = "Benzinga";
}

/// One source of listings; the orchestrator queries them in a fixed order.
#[derive(Debug, Clone, Copy, PartialEq, Eq, Structural)]
pub enum Parser {
    Marketwatch,
    Zacks,
    Tradingview,
    Investing,
    Benzinga,
}

/// The display name of a source.
pub open spec fn source_name(p: Parser) -> Seq<char> {
    match p {
        Parser::Marketwatch => MarketWatchParser::NAME@,
        Parser::Zacks => ZacksParser::NAME@,
        Parser::Tradingview => TradingViewParser::NAME@,
        Parser::Investing => InvestingParser::NAME@,
        Parser::Benzinga => BenzingaParser::NAME@,
    }
}

/// Every source, in the order in which a run queries them.
pub open spec fn configured_order() -> Seq<Parser> {
    seq![
        Parser::Marketwatch,
        Parser::Zacks,
        Parser::Tradingview,
        Parser::Investing,
        Parser::Benzinga,
    ]
}

impl Parser {
    /// The display name of this source, used in progress reports.
    pub fn get_name(&self) -> (r: &'static str)
        ensures
            r@ == source_name(*self),
    {
        match self {
            Parser::Marketwatch => MarketWatchParser::NAME,
            Parser::Zacks => ZacksParser::NAME,
            Parser::Tradingview => TradingViewParser::NAME,
            Parser::Investing => InvestingParser::NAME,
            Parser::Benzinga => BenzingaParser::NAME,
        }
    }

    /// Every source, in the order in which a run queries them.
    pub fn all() -> (r: Vec<Parser>)
        ensures
            r@ == configured_order(),
    {
        let r = vec![
            Parser::Marketwatch,
            Parser::Zacks,
            Parser::Tradingview,
            Parser::Investing,
            Parser::Benzinga,
        ];
        assert(r@ =~= configured_order());
        r
    }
}

} // verus!
