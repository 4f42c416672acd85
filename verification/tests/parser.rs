use nbp_rs::nbp_parser::{
    build_item, parse_item, parse_nbp_items, parse_rates_html, summarize_rate_rows, CurrencyExchangeRateItem,
    ExchangeRateSummary, ParseError, RssItem, Timestamp,
};

fn table(rows: &[(&str, &str)]) -> String {
    let mut html = String::from(
        r#" <br/><br/> <table> <tr align="right"><td colspan="2"><b>Wybrane kursy średnie:</b></td></tr>"#,
    );
    for (label, value) in rows {
        html.push_str(&format!(
            r#" <tr align="right"><td>{label}</td><td>{value}</td></tr>"#
        ));
    }
    html.push_str(" </table> ");
    html
}

fn item(title: &str, link: &str, pub_date: &str, description: String) -> RssItem {
    RssItem {
        title: title.to_string(),
        link: link.to_string(),
        pub_date: pub_date.to_string(),
        description,
    }
}

fn feed_items() -> Vec<RssItem> {
    vec![
        item(
            "Tabela nr 069/A/NBP/2026 z dnia 2026-04-10",
            "http://rss.nbp.pl/kursy/TabRss.aspx?n=2026/a/26a069",
            "Fri, 10 Apr 2026 11:45:02 +0200",
            format!(
                "\n        Tabela A kursów średnich\n        {}\n        ",
                table(&[
                    ("1 EUR =", "4,2534"),
                    ("1 USD =", "3,6396"),
                    ("1 CHF =", "4,6062"),
                    ("1 GBP =", "4,8848"),
                    ("100 JPY =", "2,2845"),
                ])
            ),
        ),
        item(
            "Tabela nr 068/A/NBP/2026 z dnia 2026-04-09",
            "http://rss.nbp.pl/kursy/TabRss.aspx?n=2026/a/26a068",
            "Thu, 09 Apr 2026 11:45:14 +0200",
            table(&[
                ("1 EUR =", "4,2610"),
                ("1 USD =", "3,6506"),
                ("1 CHF =", "4,6147"),
                ("1 GBP =", "4,8924"),
                ("100 JPY =", "2,2959"),
            ]),
        ),
        item(
            "Tabela nr 067/A/NBP/2026 z dnia 2026-04-08",
            "http://rss.nbp.pl/kursy/TabRss.aspx?n=2026/a/26a067",
            "Wed, 08 Apr 2026 11:45:12 +0200",
            table(&[
                ("1 EUR =", "4,2623"),
                ("1 USD =", "3,6489"),
                ("1 CHF =", "4,6256"),
                ("1 GBP =", "4,8995"),
                ("100 JPY =", "2,3040"),
            ]),
        ),
    ]
}

fn instant(rfc3339: &str) -> Timestamp {
    let d = chrono::DateTime::parse_from_rfc3339(rfc3339).unwrap();
    Timestamp {
        secs: d.timestamp(),
        nanos: d.timestamp_subsec_nanos(),
    }
}

fn rate(text: &str) -> f64 {
    text.parse().unwrap()
}

type Texts = (String, String, Option<String>, Option<String>, Option<String>);
type Numbers = (f64, f64, Option<f64>, Option<f64>, Option<f64>);

/// The rates as the literals the library keeps.
fn texts(r: &ExchangeRateSummary) -> Texts {
    (r.eur.clone(), r.usd.clone(), r.chf.clone(), r.gbp.clone(), r.jpy100.clone())
}

/// The rates as the numbers the service answers with.
fn numbers(r: &ExchangeRateSummary) -> Numbers {
    (
        rate(&r.eur),
        rate(&r.usd),
        r.chf.as_deref().map(rate),
        r.gbp.as_deref().map(rate),
        r.jpy100.as_deref().map(rate),
    )
}

fn same_record(a: &CurrencyExchangeRateItem, b: &CurrencyExchangeRateItem) -> bool {
    a.title == b.title && a.link == b.link && a.pub_date == b.pub_date
        && texts(&a.rates) == texts(&b.rates)
}

#[test]
fn parses_the_xml() {
    let result = parse_nbp_items(&feed_items()).unwrap();
    assert_eq!(result[0].title, "Tabela nr 069/A/NBP/2026 z dnia 2026-04-10");
    assert_eq!(
        result[0].link,
        "http://rss.nbp.pl/kursy/TabRss.aspx?n=2026/a/26a069",
    );
    assert_eq!(result[0].pub_date, instant("2026-04-10T11:45:02+02:00"));
    assert_eq!(
        numbers(&result[0].rates),
        (4.2534, 3.6396, Some(4.6062), Some(4.8848), Some(2.2845))
    );
    assert_eq!(rate(&result[0].rates.eur), 4.2534);
    assert_eq!(rate(&result[0].rates.usd), 3.6396);
    assert_eq!(rate(result[0].rates.chf.as_ref().unwrap()), 4.6062);
    assert_eq!(rate(result[0].rates.gbp.as_ref().unwrap()), 4.8848);
    assert_eq!(rate(result[0].rates.jpy100.as_ref().unwrap()), 2.2845);
}

#[test]
fn records_follow_feed_order() {
    let items = feed_items();
    let result = parse_nbp_items(&items).unwrap();
    assert_eq!(result.len(), 3);
    for (record, item) in result.iter().zip(items.iter()) {
        assert_eq!(record.title, item.title);
        assert_eq!(record.link, item.link);
    }
    assert_eq!(result[1].pub_date, instant("2026-04-09T11:45:14+02:00"));
    assert_eq!(result[2].rates.jpy100.as_deref(), Some("2.3040"));
}

#[test]
fn empty_feed_gives_no_records() {
    let result = parse_nbp_items(&Vec::new()).unwrap();
    assert!(result.is_empty());
}

#[test]
fn invalid_date_is_reported_with_the_date() {
    let mut items = feed_items();
    items[1].pub_date = "10 kwietnia 2026".to_string();
    match parse_nbp_items(&items) {
        Err(ParseError::InvalidDate { date, .. }) => assert_eq!(date, "10 kwietnia 2026"),
        other => panic!("unexpected {other:?}"),
    }
}

#[test]
fn invalid_date_comes_before_a_bad_table() {
    let bad = item("t", "l", "yesterday", table(&[("1 USD =", "3,6")]));
    match parse_item(&bad) {
        Err(ParseError::InvalidDate { date, .. }) => assert_eq!(date, "yesterday"),
        other => panic!("unexpected {other:?}"),
    }
}

#[test]
fn first_failing_item_decides_the_error() {
    let mut items = feed_items();
    items[1].description = table(&[("1 USD =", "3,6")]);
    items[2].pub_date = "nonsense".to_string();
    match parse_nbp_items(&items) {
        Err(ParseError::MissingRate(code)) => assert_eq!(code, "EUR"),
        other => panic!("unexpected {other:?}"),
    }
}

#[test]
fn dates_in_other_offsets_give_the_same_instant() {
    let a = parse_item(&item("t", "l", "Fri, 10 Apr 2026 09:45:02 GMT", table(&[("EUR", "1"), ("USD", "2")]))).unwrap();
    let b = parse_item(&item("t", "l", "Fri, 10 Apr 2026 11:45:02 +0200", table(&[("EUR", "1"), ("USD", "2")]))).unwrap();
    assert_eq!(a.pub_date, b.pub_date);
    assert_eq!(a.pub_date.secs, 1_775_814_302);
    assert_eq!(a.pub_date.nanos, 0);
}

#[test]
fn missing_eur_rate() {
    match parse_rates_html(&table(&[("1 USD =", "3,6396")])) {
        Err(ParseError::MissingRate(code)) => assert_eq!(code, "EUR"),
        other => panic!("unexpected {other:?}"),
    }
}

#[test]
fn missing_usd_rate() {
    match parse_rates_html(&table(&[("1 EUR =", "4,2534"), ("1 CHF =", "4,6")])) {
        Err(ParseError::MissingRate(code)) => assert_eq!(code, "USD"),
        other => panic!("unexpected {other:?}"),
    }
}

#[test]
fn empty_html_misses_eur() {
    match parse_rates_html("no table here") {
        Err(ParseError::MissingRate(code)) => assert_eq!(code, "EUR"),
        other => panic!("unexpected {other:?}"),
    }
}

#[test]
fn invalid_rate_is_reported_with_its_text() {
    let html = table(&[("1 EUR =", "4,2534"), ("1 USD =", " 3,63,96 ")]);
    match parse_rates_html(&html) {
        Err(ParseError::InvalidRate(text)) => {
            assert_eq!(text, "3.63.96");
            assert!(text.parse::<f64>().is_err());
        }
        other => panic!("unexpected {other:?}"),
    }
}

#[test]
fn invalid_rate_in_an_unknown_row_fails_too() {
    let html = table(&[("1 EUR =", "4,2534"), ("1 USD =", "3,6"), ("1 XDR =", "n/a")]);
    match parse_rates_html(&html) {
        Err(ParseError::InvalidRate(text)) => assert_eq!(text, "n/a"),
        other => panic!("unexpected {other:?}"),
    }
}

#[test]
fn empty_rate_cell_is_invalid() {
    let html = table(&[("1 EUR =", "  ")]);
    match parse_rates_html(&html) {
        Err(ParseError::InvalidRate(text)) => {
            assert_eq!(text, "");
            assert!(text.parse::<f64>().is_err());
        }
        other => panic!("unexpected {other:?}"),
    }
}

#[test]
fn optional_rates_may_be_missing_and_later_rows_win() {
    let html = table(&[("1 USD =", "3,1"), ("1 EUR =", "4,0"), ("EUR again", " 4,5\n")]);
    let rates = parse_rates_html(&html).unwrap();
    assert_eq!(
        texts(&rates),
        ("4.5".to_string(), "3.1".to_string(), None, None, None)
    );
}

#[test]
fn label_matching_follows_currency_order() {
    let rows = vec![
        vec!["EUR/USD".to_string(), "1,1".to_string()],
        vec!["USD".to_string(), "2".to_string()],
        vec!["three".to_string(), "cells".to_string(), "row".to_string()],
        vec!["alone".to_string()],
    ];
    let rates = summarize_rate_rows(&rows).unwrap();
    assert_eq!(rates.eur, "1.1");
    assert_eq!(rates.usd, "2");
}

#[test]
fn scraped_cells_are_decoded_and_trimmed() {
    let html = "<table><tr><td>1 <b>EUR</b> =</td><td>\u{a0}4,25&#x20;</td></tr><tr><td>USD</td><td>+1E3</td></tr></table>";
    let rates = parse_rates_html(html).unwrap();
    assert_eq!(rates.eur, "4.25");
    assert_eq!(rates.usd, "+1E3");
}

#[test]
fn copies_are_equal() {
    let result = parse_nbp_items(&feed_items()).unwrap();
    let copy: CurrencyExchangeRateItem = result[0].copy();
    assert!(same_record(&copy, &result[0]));
}

#[test]
fn equal_rates_written_differently() {
    let a = parse_rates_html(&table(&[("1 EUR =", "4,50"), ("1 USD =", "3,6")])).unwrap();
    let b = parse_rates_html(&table(&[("1 EUR =", "4,5"), ("1 USD =", "3,60")])).unwrap();
    assert_ne!(texts(&a), texts(&b));
    assert_eq!(numbers(&a), numbers(&b));
}

#[test]
fn invalid_date_carries_the_date_error() {
    let bad = item("t", "l", "Fri, 31 Apr 2026 11:45:02 +0200", table(&[("EUR", "1"), ("USD", "2")]));
    let expected = chrono::DateTime::parse_from_rfc2822(&bad.pub_date).unwrap_err();
    match parse_item(&bad) {
        Err(ParseError::InvalidDate { date, source }) => {
            assert_eq!(date, bad.pub_date);
            assert_eq!(source, expected);
        }
        other => panic!("unexpected {other:?}"),
    }
    let given = chrono::DateTime::parse_from_rfc2822("").unwrap_err();
    match build_item(&bad, Err(given), &Vec::new()) {
        Err(ParseError::InvalidDate { source, .. }) => assert_eq!(source, given),
        other => panic!("unexpected {other:?}"),
    }
}
