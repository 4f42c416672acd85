use nbp_rs::launch::{bind_target, cli_action, unix_socket_label, upstream_url, BindTarget, CliAction};
use nbp_rs::nbp_parser::{parse_rates_html, CurrencyExchangeRateItem, Timestamp};
use nbp_rs::rate_cache::RateCache;
use nbp_rs::service::{
    accepts_html, cache_ttl_secs, classify_request_failure, failure_status,
    unhandled_failure_status, FailureKind,
};

fn args(list: &[&str]) -> Vec<String> {
    list.iter().map(|s| s.to_string()).collect()
}

fn record(title: &str) -> CurrencyExchangeRateItem {
    CurrencyExchangeRateItem {
        title: title.to_string(),
        pub_date: Timestamp { secs: 1_775_814_302, nanos: 0 },
        link: "http://rss.nbp.pl/".to_string(),
        rates: parse_rates_html("<table><tr><td>EUR</td><td>4,2</td></tr><tr><td>USD</td><td>3,6</td></tr></table>").unwrap(),
    }
}

const SEC: u128 = 1_000_000_000;

fn titles(v: &Option<Vec<CurrencyExchangeRateItem>>) -> Option<Vec<String>> {
    v.as_ref().map(|items| items.iter().map(|i| i.title.clone()).collect())
}

fn some_titles(list: &[&str]) -> Option<Vec<String>> {
    Some(list.iter().map(|s| s.to_string()).collect())
}

#[test]
fn new_cache_serves_nothing() {
    let cache = RateCache::new();
    assert!(cache.lookup(0, 3600).is_none());
}

#[test]
fn stored_records_are_served_while_fresh() {
    let mut cache = RateCache::new();
    let items = vec![record("a"), record("b")];
    cache.store(10 * SEC, &items);
    assert_eq!(titles(&cache.lookup(10 * SEC, 3600)), some_titles(&["a", "b"]));
    assert_eq!(titles(&cache.lookup(10 * SEC + 3600 * SEC - 1, 3600)), some_titles(&["a", "b"]));
    assert_eq!(titles(&cache.lookup(5 * SEC, 3600)), some_titles(&["a", "b"]));
}

#[test]
fn failed_fetch_keeps_the_cache() {
    let mut cache = RateCache::new();
    let failed: Result<Vec<CurrencyExchangeRateItem>, &str> = Err("timeout");
    assert_eq!(cache.record_fetch(0, failed).err(), Some("timeout"));
    assert!(cache.lookup(0, 3600).is_none());

    cache.store(0, &vec![record("kept")]);
    let failed: Result<Vec<CurrencyExchangeRateItem>, &str> = Err("502");
    assert!(cache.record_fetch(4000 * SEC, failed).is_err());
    assert_eq!(titles(&cache.lookup(10 * SEC, 3600)), some_titles(&["kept"]));
    assert!(cache.lookup(4000 * SEC, 3600).is_none());
}

#[test]
fn successful_fetch_is_served_next() {
    let mut cache = RateCache::new();
    cache.store(0, &vec![record("old")]);
    let fetched: Result<Vec<CurrencyExchangeRateItem>, ()> = Ok(vec![record("new")]);
    let handed_back = cache.record_fetch(4000 * SEC, fetched).unwrap();
    assert_eq!(handed_back[0].title, "new");
    assert_eq!(titles(&cache.lookup(4001 * SEC, 3600)), some_titles(&["new"]));
}

#[test]
fn stale_records_are_not_served() {
    let mut cache = RateCache::new();
    cache.store(10 * SEC, &vec![record("a")]);
    assert!(cache.lookup(10 * SEC + 3600 * SEC, 3600).is_none());
    assert!(cache.lookup(10 * SEC, 0).is_none());
}

#[test]
fn store_replaces_what_was_cached() {
    let mut cache = RateCache::new();
    cache.store(0, &vec![record("old")]);
    cache.store(SEC, &vec![record("new")]);
    let served = cache.lookup(SEC, 60).unwrap();
    assert_eq!(served.len(), 1);
    assert_eq!(served[0].title, "new");
    assert!(RateCache::fresh(0, 59 * SEC, 60));
    assert!(!RateCache::fresh(0, 60 * SEC, 60));
}

#[test]
fn cache_ttl_defaults_to_an_hour() {
    assert_eq!(cache_ttl_secs(None), 3600);
    assert_eq!(cache_ttl_secs(Some("120".to_string())), 120);
    assert_eq!(cache_ttl_secs(Some("+0".to_string())), 0);
    assert_eq!(cache_ttl_secs(Some("1h".to_string())), 3600);
    assert_eq!(cache_ttl_secs(Some("-5".to_string())), 3600);
    assert_eq!(cache_ttl_secs(Some("18446744073709551616".to_string())), 3600);
}

#[test]
fn html_only_when_asked_for() {
    assert!(accepts_html(Some("text/html".to_string())));
    assert!(accepts_html(Some("text/html;q=0.9, application/json".to_string())));
    assert!(!accepts_html(Some("application/json".to_string())));
    assert!(!accepts_html(Some("TEXT/HTML".to_string())));
    assert!(!accepts_html(None));
}

#[test]
fn failures_are_classified() {
    assert_eq!(classify_request_failure(true, Some(503)), FailureKind::UpstreamTimeout);
    assert_eq!(classify_request_failure(false, Some(503)), FailureKind::UpstreamBadStatus(503));
    assert_eq!(classify_request_failure(false, None), FailureKind::Network);
}

#[test]
fn upstream_bad_status_is_bad_gateway() {
    assert_eq!(failure_status(classify_request_failure(false, Some(503))), 502);
    assert_eq!(failure_status(FailureKind::UpstreamTimeout), 502);
}

#[test]
fn upstream_malformed_feed_is_bad_gateway() {
    assert_eq!(failure_status(FailureKind::UpstreamParse), 502);
}

#[test]
fn other_failures_are_internal_errors() {
    assert_eq!(failure_status(FailureKind::Network), 500);
    assert_eq!(failure_status(FailureKind::Template), 500);
    assert_eq!(unhandled_failure_status(true), 408);
    assert_eq!(unhandled_failure_status(false), 500);
}

#[test]
fn command_line_flags() {
    assert_eq!(cli_action(&args(&["nbp_rs"])), CliAction::Serve);
    assert_eq!(cli_action(&args(&["nbp_rs", "-V"])), CliAction::PrintVersion);
    assert_eq!(cli_action(&args(&["nbp_rs", "--help", "--version"])), CliAction::PrintVersion);
    assert_eq!(cli_action(&args(&["nbp_rs", "-h"])), CliAction::PrintHelp);
    assert_eq!(cli_action(&args(&["nbp_rs", "--helpme"])), CliAction::Serve);
}

#[test]
fn listen_address() {
    assert_eq!(bind_target(None), BindTarget::Tcp("127.0.0.1:3000".to_string()));
    assert_eq!(
        bind_target(Some("/run/nbp.sock".to_string())),
        BindTarget::Unix("/run/nbp.sock".to_string())
    );
    assert_eq!(
        bind_target(Some("0.0.0.0:8080".to_string())),
        BindTarget::Tcp("0.0.0.0:8080".to_string())
    );
    assert_eq!(unix_socket_label(None), "unix socket");
    assert_eq!(unix_socket_label(Some("/run/nbp.sock".to_string())), "/run/nbp.sock");
}

#[test]
fn upstream_feed_default() {
    assert_eq!(upstream_url(None), "https://rss.nbp.pl/kursy/TabelaA.xml");
    assert_eq!(upstream_url(Some("http://localhost:1".to_string())), "http://localhost:1");
}
