use earnings_calendar::company::Company;
use earnings_calendar::fetch::{AttemptOutcome, FetchRun, MAX_RERUNS};
use earnings_calendar::sources::Parser;

fn one(symbol: &str) -> Vec<Company> {
    vec![Company::new(symbol.to_string(), String::new())]
}

#[test]
fn failing_source_still_gives_five_lists() {
    let mut run = FetchRun::new(Parser::all(), MAX_RERUNS);
    let mut reports = Vec::new();
    while let Some(source) = run.next_source() {
        let outcome = if source == Parser::Investing {
            Err("timed out".to_string())
        } else {
            Ok(one(source.get_name()))
        };
        reports.push(run.record(outcome));
    }
    assert_eq!(run.sources_succeeded(), 4);
    let (lists, attempted) = run.finish();
    assert_eq!(attempted, 5);
    assert_eq!(lists.len(), 5);
    assert_eq!(lists.iter().filter(|l| l.is_empty()).count(), 1);
    assert!(lists[3].is_empty());
    assert_eq!(lists[0][0].symbol, "MarketWatch");
    assert_eq!(reports.len(), 6);
    assert_eq!(reports[3].source, Parser::Investing);
    assert_eq!(reports[3].attempt, 1);
    assert_eq!(reports[3].outcome, AttemptOutcome::Retrying);
    assert_eq!(reports[4].attempt, 2);
    assert_eq!(reports[4].outcome, AttemptOutcome::GaveUp);
    assert_eq!(reports[5].source, Parser::Benzinga);
    assert_eq!(reports[5].outcome, AttemptOutcome::Delivered);
}

#[test]
fn retry_that_succeeds_keeps_the_list() {
    let mut run = FetchRun::new(vec![Parser::Zacks], 1);
    let first = run.record(Err("flaky".to_string()));
    assert_eq!(first.outcome, AttemptOutcome::Retrying);
    assert_eq!(run.next_source(), Some(Parser::Zacks));
    let second = run.record(Ok(one("AAA")));
    assert_eq!(second.outcome, AttemptOutcome::Delivered);
    assert_eq!(second.attempt, 2);
    assert_eq!(run.next_source(), None);
    let (lists, attempted) = run.finish();
    assert_eq!(attempted, 1);
    assert_eq!(lists[0][0].symbol, "AAA");
}

#[test]
fn empty_success_is_not_retried() {
    let mut run = FetchRun::new(vec![Parser::Benzinga, Parser::Zacks], 3);
    let r = run.record(Ok(vec![]));
    assert_eq!(r.outcome, AttemptOutcome::Delivered);
    assert_eq!(run.next_source(), Some(Parser::Zacks));
}

#[test]
fn no_retries_gives_up_at_once() {
    let mut run = FetchRun::new(vec![Parser::Tradingview], 0);
    let r = run.record(Err("down".to_string()));
    assert_eq!(r.outcome, AttemptOutcome::GaveUp);
    assert_eq!(run.sources_succeeded(), 0);
    let (lists, attempted) = run.finish();
    assert_eq!((lists.len(), attempted), (1, 1));
    assert!(lists[0].is_empty());
}

#[test]
fn source_names() {
    let names: Vec<&str> = Parser::all().iter().map(|p| p.get_name()).collect();
    assert_eq!(names, vec!["MarketWatch", "Zacks", "TradingView", "Investing", "Benzinga"]);
}
