//! Turning the items of the NBP "Tabela A" RSS feed into exchange-rate records.
//!
//! Each feed item carries a title, a link, an RFC 2822 publication date and an HTML
//! description whose table rows hold `label | value` cells such as `1 EUR = | 4,2534`.
use chrono::format::ParseError as DateParseError;
use vstd::prelude::*;

use crate::float_syntax::{float_literal, is_float_literal};
use crate::text::{
    chars_of, commas_to_points, contains, contains_chars, replace_commas, string_from_chars, trim,
    trimmed,
};

verus! {

broadcast use vstd::string::group_string_axioms;

// ---------------------------------------------------------------------------------------------
// Outside calls
// ---------------------------------------------------------------------------------------------

/// The error that `chrono` reports for a date it cannot parse.
#[verifier::external_type_specification]
#[verifier::external_body]
pub struct ExDateParseError(DateParseError);

/// What `chrono::DateTime::parse_from_rfc2822` gives for `s`: the instant it reads (seconds
/// since the Unix epoch, and the sub-second nanoseconds), or the error it reports.
pub uninterp spec fn rfc2822_parse(s: Seq<char>) -> Result<(i64, u32), DateParseError>;

/// For each `tr` element of the HTML fragment `html` as `scraper` parses it, in the order
/// that `Html::select` yields them (the order in which the elements were added to the parsed
/// tree), the text of each of its `td` descendants, in the order `ElementRef::select` yields
/// them.
pub uninterp spec fn table_row_cells(html: Seq<char>) -> Seq<Seq<Seq<char>>>;

/// Calls `chrono::DateTime::parse_from_rfc2822` on `s` and, on success, reads the instant with
/// `DateTime::timestamp` and `DateTime::timestamp_subsec_nanos`. The contract claims that the
/// outcome, instant or error, is the named `rfc2822_parse` of `s`.
#[verifier::external_body]
fn rfc2822_to_instant(s: &str) -> (r: Result<(i64, u32), DateParseError>)
    ensures
        r == rfc2822_parse(s@),
{
    match chrono::DateTime::parse_from_rfc2822(s) {
        Ok(d) => Ok((d.timestamp(), d.timestamp_subsec_nanos())),
        Err(e) => Err(e),
    }
}

/// Parses `html` with `scraper::Html::parse_fragment`, selects its `tr` elements with
/// `Html::select` and, in each, its `td` elements with `ElementRef::select`, and collects each
/// cell's `ElementRef::text`. The selectors are the fixed type selectors `tr` and `td`, which
/// `scraper::Selector::parse` always accepts. The contract claims that the result is the named
/// `table_row_cells` of `html`.
#[verifier::external_body]
fn scrape_table_rows(html: &str) -> (rows: Vec<Vec<String>>)
    ensures
        rows.deep_view() == table_row_cells(html@),
{
    let document = scraper::Html::parse_fragment(html);
    let tr = scraper::Selector::parse("tr").unwrap();
    let td = scraper::Selector::parse("td").unwrap();
    document.select(&tr).map(|row| row.select(&td).map(|cell| cell.text().collect()).collect())
        .collect()
}

// ---------------------------------------------------------------------------------------------
// Types
// ---------------------------------------------------------------------------------------------

/// Why a feed could not be turned into exchange-rate records.
#[derive(Debug)]
pub enum ParseError {
    /// The `pubDate` of an item is not an RFC 2822 date.
    InvalidDate { date: String, source: DateParseError },
    /// A rate cell holds this text (after `,` became `.` and surrounding whitespace was
    /// dropped), which is not a floating-point literal.
    InvalidRate(String),
    /// The table has no row for this required currency.
    MissingRate(&'static str),
}

/// What the contracts say of a [`ParseError`].
pub enum ParseErrorModel {
    InvalidDate(Seq<char>, DateParseError),
    InvalidRate(Seq<char>),
    MissingRate(Seq<char>),
}

impl View for ParseError {
    type V = ParseErrorModel;

    open spec fn view(&self) -> ParseErrorModel {
        match self {
            ParseError::InvalidDate { date, source } => ParseErrorModel::InvalidDate(
                date@,
                *source,
            ),
            ParseError::InvalidRate(t) => ParseErrorModel::InvalidRate(t@),
            ParseError::MissingRate(c) => ParseErrorModel::MissingRate(c@),
        }
    }
}

/// The selected average rates of one table, in PLN. Each rate is the literal of the table,
/// with a decimal point, which `f64::from_str` accepts. Rates are compared as numbers, which
/// only `f64` can do, so the type has no `==` of its own.
#[derive(Debug, Clone)]
pub struct ExchangeRateSummary {
    pub eur: String,
    pub usd: String,
    pub chf: Option<String>,
    pub gbp: Option<String>,
    /// The rate of 100 JPY.
    pub jpy100: Option<String>,
}

pub struct RatesModel {
    pub eur: Seq<char>,
    pub usd: Seq<char>,
    pub chf: Option<Seq<char>>,
    pub gbp: Option<Seq<char>>,
    pub jpy100: Option<Seq<char>>,
}

impl View for ExchangeRateSummary {
    type V = RatesModel;

    open spec fn view(&self) -> RatesModel {
        RatesModel {
            eur: self.eur@,
            usd: self.usd@,
            chf: self.chf.deep_view(),
            gbp: self.gbp.deep_view(),
            jpy100: self.jpy100.deep_view(),
        }
    }
}

/// An instant as seconds since the Unix epoch and nanoseconds within the second.
#[derive(Debug, Clone, Copy, PartialEq, Eq, Structural)]
pub struct Timestamp {
    pub secs: i64,
    pub nanos: u32,
}

/// One table of the feed.
#[derive(Debug, Clone)]
pub struct CurrencyExchangeRateItem {
    pub title: String,
    pub pub_date: Timestamp,
    pub link: String,
    pub rates: ExchangeRateSummary,
}

pub struct ItemModel {
    pub title: Seq<char>,
    pub pub_date: (i64, u32),
    pub link: Seq<char>,
    pub rates: RatesModel,
}

impl View for CurrencyExchangeRateItem {
    type V = ItemModel;

    open spec fn view(&self) -> ItemModel {
        ItemModel {
            title: self.title@,
            pub_date: (self.pub_date.secs, self.pub_date.nanos),
            link: self.link@,
            rates: self.rates@,
        }
    }
}

impl DeepView for CurrencyExchangeRateItem {
    type V = ItemModel;

    open spec fn deep_view(&self) -> ItemModel {
        self@
    }
}

/// The fields of an RSS `item` that the feed is read for.
#[derive(Debug, Clone)]
pub struct RssItem {
    pub title: String,
    pub link: String,
    pub pub_date: String,
    pub description: String,
}

pub struct RssItemModel {
    pub title: Seq<char>,
    pub link: Seq<char>,
    pub pub_date: Seq<char>,
    pub description: Seq<char>,
}

impl View for RssItem {
    type V = RssItemModel;

    open spec fn view(&self) -> RssItemModel {
        RssItemModel {
            title: self.title@,
            link: self.link@,
            pub_date: self.pub_date@,
            description: self.description@,
        }
    }
}

impl DeepView for RssItem {
    type V = RssItemModel;

    open spec fn deep_view(&self) -> RssItemModel {
        self@
    }
}

// ---------------------------------------------------------------------------------------------
// The rate table
// ---------------------------------------------------------------------------------------------

/// The rates found so far while reading the table.
pub struct RateSlots {
    pub eur: Option<Seq<char>>,
    pub usd: Option<Seq<char>>,
    pub chf: Option<Seq<char>>,
    pub gbp: Option<Seq<char>>,
    pub jpy100: Option<Seq<char>>,
}

pub open spec fn no_rates() -> RateSlots {
    RateSlots { eur: None, usd: None, chf: None, gbp: None, jpy100: None }
}

/// The rate text of a value cell: `,` turned into `.`, surrounding whitespace dropped.
pub open spec fn rate_text(cell: Seq<char>) -> Seq<char> {
    trim(commas_to_points(cell))
}

/// Records `value` under the first currency code, in the order EUR, USD, CHF, GBP, JPY, that
/// `label` contains; a label with none of them changes nothing.
pub open spec fn assign_rate(slots: RateSlots, label: Seq<char>, value: Seq<char>) -> RateSlots {
    if contains(label, seq!['E', 'U', 'R']) {
        RateSlots { eur: Some(value), ..slots }
    } else if contains(label, seq!['U', 'S', 'D']) {
        RateSlots { usd: Some(value), ..slots }
    } else if contains(label, seq!['C', 'H', 'F']) {
        RateSlots { chf: Some(value), ..slots }
    } else if contains(label, seq!['G', 'B', 'P']) {
        RateSlots { gbp: Some(value), ..slots }
    } else if contains(label, seq!['J', 'P', 'Y']) {
        RateSlots { jpy100: Some(value), ..slots }
    } else {
        slots
    }
}

/// Reading one row: a row of exactly two cells must hold a floating-point literal in its
/// second cell (else the rate text is the error), and records it under its label; other rows
/// are passed over.
pub open spec fn read_row(slots: RateSlots, row: Seq<Seq<char>>) -> Result<RateSlots, Seq<char>> {
    if row.len() != 2 {
        Ok(slots)
    } else if is_float_literal(rate_text(row[1])) {
        Ok(assign_rate(slots, row[0], rate_text(row[1])))
    } else {
        Err(rate_text(row[1]))
    }
}

/// Reading the rows in order; the first row whose rate text is not a literal stops it.
pub open spec fn read_rows(rows: Seq<Seq<Seq<char>>>) -> Result<RateSlots, Seq<char>>
    decreases rows.len(),
{
    if rows.len() == 0 {
        Ok(no_rates())
    } else {
        match read_rows(rows.drop_last()) {
            Ok(slots) => read_row(slots, rows.last()),
            Err(t) => Err(t),
        }
    }
}

/// The summary of a table with these rows: EUR and USD are required, in that order.
pub open spec fn summarize(rows: Seq<Seq<Seq<char>>>) -> Result<RatesModel, ParseErrorModel> {
    match read_rows(rows) {
        Err(t) => Err(ParseErrorModel::InvalidRate(t)),
        Ok(slots) => if slots.eur is None {
            Err(ParseErrorModel::MissingRate(seq!['E', 'U', 'R']))
        } else if slots.usd is None {
            Err(ParseErrorModel::MissingRate(seq!['U', 'S', 'D']))
        } else {
            Ok(
                RatesModel {
                    eur: slots.eur->0,
                    usd: slots.usd->0,
                    chf: slots.chf,
                    gbp: slots.gbp,
                    jpy100: slots.jpy100,
                },
            )
        },
    }
}

pub open spec fn rates_result(r: Result<ExchangeRateSummary, ParseError>) -> Result<
    RatesModel,
    ParseErrorModel,
> {
    match r {
        Ok(s) => Ok(s@),
        Err(e) => Err(e@),
    }
}

proof fn lemma_read_rows_error_stays(rows: Seq<Seq<Seq<char>>>, i: int, j: int)
    requires
        0 <= i <= j <= rows.len(),
        read_rows(rows.take(i)) is Err,
    ensures
        read_rows(rows.take(j)) == read_rows(rows.take(i)),
    decreases j - i,
{
    if j > i {
        lemma_read_rows_error_stays(rows, i, j - 1);
        assert(rows.take(j).drop_last() == rows.take(j - 1));
    }
}

/// The characters held by `o`, if any.
pub open spec fn opt_chars(o: Option<Vec<char>>) -> Option<Seq<char>> {
    match o {
        Some(v) => Some(v@),
        None => None,
    }
}

fn slot_view(s: &Option<Vec<char>>) -> (r: Option<String>)
    ensures
        r.deep_view() == opt_chars(*s),
{
    match s {
        Some(v) => Some(string_from_chars(v.as_slice())),
        None => None,
    }
}

/// The summary of a table given its rows of cell texts.
pub fn summarize_rate_rows(rows: &Vec<Vec<String>>) -> (r: Result<ExchangeRateSummary, ParseError>)
    ensures
        rates_result(r) == summarize(rows.deep_view()),
{
    let ghost all = rows.deep_view();
    let mut eur: Option<Vec<char>> = None;
    let mut usd: Option<Vec<char>> = None;
    let mut chf: Option<Vec<char>> = None;
    let mut gbp: Option<Vec<char>> = None;
    let mut jpy100: Option<Vec<char>> = None;
    let eur_code = ['E', 'U', 'R'];
    let usd_code = ['U', 'S', 'D'];
    let chf_code = ['C', 'H', 'F'];
    let gbp_code = ['G', 'B', 'P'];
    let jpy_code = ['J', 'P', 'Y'];
    assert(eur_code@ == seq!['E', 'U', 'R']);
    assert(usd_code@ == seq!['U', 'S', 'D']);
    assert(chf_code@ == seq!['C', 'H', 'F']);
    assert(gbp_code@ == seq!['G', 'B', 'P']);
    assert(jpy_code@ == seq!['J', 'P', 'Y']);
    for i in 0..rows.len()
        invariant
            all == rows.deep_view(),
            eur_code@ == seq!['E', 'U', 'R'],
            usd_code@ == seq!['U', 'S', 'D'],
            chf_code@ == seq!['C', 'H', 'F'],
            gbp_code@ == seq!['G', 'B', 'P'],
            jpy_code@ == seq!['J', 'P', 'Y'],
            read_rows(all.take(i as int)) == Ok::<RateSlots, Seq<char>>(
                RateSlots {
                    eur: opt_chars(eur),
                    usd: opt_chars(usd),
                    chf: opt_chars(chf),
                    gbp: opt_chars(gbp),
                    jpy100: opt_chars(jpy100),
                },
            ),
    {
        let row = &rows[i];
        assert(all.take(i + 1).drop_last() == all.take(i as int));
        assert(all.take(i + 1).last() == row.deep_view());
        if row.len() == 2 {
            assert(row.deep_view()[1] == row[1]@);
            assert(row.deep_view()[0] == row[0]@);
            let cell = chars_of(row[1].as_str());
            let pointed = replace_commas(cell.as_slice());
            let value = trimmed(pointed.as_slice());
            if !float_literal(value.as_slice()) {
                proof {
                    lemma_read_rows_error_stays(all, i + 1, all.len() as int);
                    assert(all.take(all.len() as int) == all);
                }
                return Err(ParseError::InvalidRate(string_from_chars(value.as_slice())));
            }
            let label = chars_of(row[0].as_str());
            if contains_chars(label.as_slice(), &eur_code) {
                eur = Some(value);
            } else if contains_chars(label.as_slice(), &usd_code) {
                usd = Some(value);
            } else if contains_chars(label.as_slice(), &chf_code) {
                chf = Some(value);
            } else if contains_chars(label.as_slice(), &gbp_code) {
                gbp = Some(value);
            } else if contains_chars(label.as_slice(), &jpy_code) {
                jpy100 = Some(value);
            }
        }
    }
    assert(all.take(all.len() as int) == all);
    proof {
        reveal_strlit("EUR");
        reveal_strlit("USD");
        assert("EUR"@ == seq!['E', 'U', 'R']);
        assert("USD"@ == seq!['U', 'S', 'D']);
    }
    let eur = match eur {
        Some(v) => string_from_chars(v.as_slice()),
        None => {
            return Err(ParseError::MissingRate("EUR"));
        },
    };
    let usd = match usd {
        Some(v) => string_from_chars(v.as_slice()),
        None => {
            return Err(ParseError::MissingRate("USD"));
        },
    };
    Ok(
        ExchangeRateSummary {
            eur,
            usd,
            chf: slot_view(&chf),
            gbp: slot_view(&gbp),
            jpy100: slot_view(&jpy100),
        },
    )
}

/// The summary of the rate table in the HTML fragment `html`.
pub fn parse_rates_html(html: &str) -> (r: Result<ExchangeRateSummary, ParseError>)
    ensures
        rates_result(r) == summarize(table_row_cells(html@)),
{
    let rows = scrape_table_rows(html);
    summarize_rate_rows(&rows)
}

// ---------------------------------------------------------------------------------------------
// Feed items
// ---------------------------------------------------------------------------------------------

/// The record of one feed item, given what was read from its date (the instant, or the error
/// that rejected it) and the rows of the table in its description. A rejected date is
/// reported, with its error, before anything in the table.
pub open spec fn item_record(
    item: RssItemModel,
    date: Result<(i64, u32), DateParseError>,
    rows: Seq<Seq<Seq<char>>>,
) -> Result<ItemModel, ParseErrorModel> {
    match date {
        Err(e) => Err(ParseErrorModel::InvalidDate(item.pub_date, e)),
        Ok(t) => match summarize(rows) {
            Err(e) => Err(e),
            Ok(rates) => Ok(
                ItemModel { title: item.title, pub_date: t, link: item.link, rates: rates },
            ),
        },
    }
}

/// The record of one feed item.
pub open spec fn parse_item_spec(item: RssItemModel) -> Result<ItemModel, ParseErrorModel> {
    item_record(item, rfc2822_parse(item.pub_date), table_row_cells(item.description))
}

/// The records of the items in order, or the error of the first item that has one.
pub open spec fn parse_items_spec(items: Seq<RssItemModel>) -> Result<
    Seq<ItemModel>,
    ParseErrorModel,
>
    decreases items.len(),
{
    if items.len() == 0 {
        Ok(Seq::empty())
    } else {
        match parse_items_spec(items.drop_last()) {
            Err(e) => Err(e),
            Ok(done) => match parse_item_spec(items.last()) {
                Err(e) => Err(e),
                Ok(m) => Ok(done.push(m)),
            },
        }
    }
}

pub open spec fn item_result(r: Result<CurrencyExchangeRateItem, ParseError>) -> Result<
    ItemModel,
    ParseErrorModel,
> {
    match r {
        Ok(i) => Ok(i@),
        Err(e) => Err(e@),
    }
}

pub open spec fn items_result(r: Result<Vec<CurrencyExchangeRateItem>, ParseError>) -> Result<
    Seq<ItemModel>,
    ParseErrorModel,
> {
    match r {
        Ok(v) => Ok(v.deep_view()),
        Err(e) => Err(e@),
    }
}

/// The record of `item`, given what was read from its date and the rows of its table.
pub fn build_item(
    item: &RssItem,
    date: Result<(i64, u32), DateParseError>,
    rows: &Vec<Vec<String>>,
) -> (r: Result<CurrencyExchangeRateItem, ParseError>)
    ensures
        item_result(r) == item_record(item@, date, rows.deep_view()),
{
    let (secs, nanos) = match date {
        Ok(t) => t,
        Err(source) => {
            return Err(ParseError::InvalidDate { date: item.pub_date.clone(), source });
        },
    };
    let rates = summarize_rate_rows(rows)?;
    Ok(
        CurrencyExchangeRateItem {
            title: item.title.clone(),
            pub_date: Timestamp { secs, nanos },
            link: item.link.clone(),
            rates,
        },
    )
}

/// The record of one feed item: its date is read first, then the table in its description.
pub fn parse_item(item: &RssItem) -> (r: Result<CurrencyExchangeRateItem, ParseError>)
    ensures
        item_result(r) == parse_item_spec(item@),
{
    let date = rfc2822_to_instant(item.pub_date.as_str());
    if date.is_err() {
        let none: Vec<Vec<String>> = Vec::new();
        return build_item(item, date, &none);
    }
    let rows = scrape_table_rows(item.description.as_str());
    build_item(item, date, &rows)
}

proof fn lemma_parse_items_error_stays(items: Seq<RssItemModel>, i: int, j: int)
    requires
        0 <= i <= j <= items.len(),
        parse_items_spec(items.take(i)) is Err,
    ensures
        parse_items_spec(items.take(j)) == parse_items_spec(items.take(i)),
    decreases j - i,
{
    if j > i {
        lemma_parse_items_error_stays(items, i, j - 1);
        assert(items.take(j).drop_last() == items.take(j - 1));
    }
}

/// The records of the feed's items, in feed order, or the error of the first item that fails.
pub fn parse_nbp_items(items: &Vec<RssItem>) -> (r: Result<Vec<CurrencyExchangeRateItem>, ParseError>)
    ensures
        items_result(r) == parse_items_spec(items.deep_view()),
{
    let ghost all = items.deep_view();
    let mut out: Vec<CurrencyExchangeRateItem> = Vec::new();
    assert(all.take(0) == Seq::<RssItemModel>::empty());
    assert(out.deep_view() == Seq::<ItemModel>::empty());
    for i in 0..items.len()
        invariant
            all == items.deep_view(),
            parse_items_spec(all.take(i as int)) == Ok::<Seq<ItemModel>, ParseErrorModel>(
                out.deep_view(),
            ),
    {
        assert(all.take(i + 1).drop_last() == all.take(i as int));
        assert(all.take(i + 1).last() == items[i as int]@);
        match parse_item(&items[i]) {
            Ok(record) => {
                let ghost before = out.deep_view();
                out.push(record);
                assert(out.deep_view() == before.push(record@));
            },
            Err(e) => {
                proof {
                    lemma_parse_items_error_stays(all, i + 1, all.len() as int);
                    assert(all.take(all.len() as int) == all);
                }
                return Err(e);
            },
        }
    }
    assert(all.take(all.len() as int) == all);
    Ok(out)
}

fn copy_optional(o: &Option<String>) -> (r: Option<String>)
    ensures
        r.deep_view() == o.deep_view(),
{
    match o {
        Some(s) => Some(s.clone()),
        None => None,
    }
}

impl ExchangeRateSummary {
    /// A copy of these rates.
    pub fn copy(&self) -> (r: ExchangeRateSummary)
        ensures
            r@ == self@,
    {
        ExchangeRateSummary {
            eur: self.eur.clone(),
            usd: self.usd.clone(),
            chf: copy_optional(&self.chf),
            gbp: copy_optional(&self.gbp),
            jpy100: copy_optional(&self.jpy100),
        }
    }
}

impl CurrencyExchangeRateItem {
    /// A copy of this record.
    pub fn copy(&self) -> (r: CurrencyExchangeRateItem)
        ensures
            r@ == self@,
    {
        CurrencyExchangeRateItem {
            title: self.title.clone(),
            pub_date: self.pub_date,
            link: self.link.clone(),
            rates: self.rates.copy(),
        }
    }
}

/// A copy of the records `items`.
pub fn copy_items(items: &Vec<CurrencyExchangeRateItem>) -> (r: Vec<CurrencyExchangeRateItem>)
    ensures
        r.deep_view() == items.deep_view(),
{
    let mut out: Vec<CurrencyExchangeRateItem> = Vec::new();
    for i in 0..items.len()
        invariant
            out.deep_view() == items.deep_view().take(i as int),
    {
        let ghost before = out.deep_view();
        out.push(items[i].copy());
        assert(out.deep_view() == before.push(items[i as int]@));
        assert(items.deep_view().take(i + 1) == items.deep_view().take(i as int).push(
            items[i as int]@,
        ));
    }
    assert(items.deep_view().take(items.len() as int) == items.deep_view());
    out
}

// ---------------------------------------------------------------------------------------------
// Laws
// ---------------------------------------------------------------------------------------------

pub open spec fn slot_is_literal(o: Option<Seq<char>>) -> bool {
    o matches Some(t) ==> is_float_literal(t)
}

proof fn lemma_read_rows_literals(rows: Seq<Seq<Seq<char>>>)
    ensures
        read_rows(rows) matches Ok(s) ==> {
            &&& slot_is_literal(s.eur)
            &&& slot_is_literal(s.usd)
            &&& slot_is_literal(s.chf)
            &&& slot_is_literal(s.gbp)
            &&& slot_is_literal(s.jpy100)
        },
    decreases rows.len(),
{
    if rows.len() > 0 {
        lemma_read_rows_literals(rows.drop_last());
    }
}

/// Every rate of a summary is a literal that `f64::from_str` accepts, with a decimal point in
/// place of the table's decimal comma and no surrounding whitespace.
pub proof fn law_rates_are_float_literals(rows: Seq<Seq<Seq<char>>>)
    ensures
        summarize(rows) matches Ok(m) ==> {
            &&& is_float_literal(m.eur)
            &&& is_float_literal(m.usd)
            &&& slot_is_literal(m.chf)
            &&& slot_is_literal(m.gbp)
            &&& slot_is_literal(m.jpy100)
        },
{
    lemma_read_rows_literals(rows);
}

/// A row that does not have exactly two cells (a header, a spacer) changes nothing.
pub proof fn law_other_rows_passed_over(rows: Seq<Seq<Seq<char>>>, row: Seq<Seq<char>>)
    requires
        row.len() != 2,
    ensures
        summarize(rows.push(row)) == summarize(rows),
{
    assert(rows.push(row).drop_last() == rows);
}

/// A row whose value cell is not a number makes the whole table fail, whatever follows it.
pub proof fn law_bad_rate_fails_table(
    rows: Seq<Seq<Seq<char>>>,
    row: Seq<Seq<char>>,
    rest: Seq<Seq<Seq<char>>>,
)
    requires
        row.len() == 2,
        !is_float_literal(rate_text(row[1])),
        read_rows(rows) is Ok,
    ensures
        summarize(rows.push(row) + rest) == Err::<RatesModel, ParseErrorModel>(
            ParseErrorModel::InvalidRate(rate_text(row[1])),
        ),
    decreases rest.len(),
{
    let all = rows.push(row) + rest;
    if rest.len() == 0 {
        assert(all == rows.push(row));
        assert(all.drop_last() == rows);
    } else {
        law_bad_rate_fails_table(rows, row, rest.drop_last());
        assert(all.drop_last() == rows.push(row) + rest.drop_last());
    }
}

proof fn lemma_items_follow(items: Seq<RssItemModel>)
    ensures
        parse_items_spec(items) matches Ok(records) ==> {
            &&& records.len() == items.len()
            &&& forall|i: int|
                0 <= i < items.len() ==> {
                    &&& #[trigger] records[i].title == items[i].title
                    &&& records[i].link == items[i].link
                    &&& rfc2822_parse(items[i].pub_date) == Ok::<(i64, u32), DateParseError>(records[i].pub_date)
                    &&& summarize(table_row_cells(items[i].description)) == Ok::<
                        RatesModel,
                        ParseErrorModel,
                    >(records[i].rates)
                }
        },
    decreases items.len(),
{
    if items.len() > 0 {
        lemma_items_follow(items.drop_last());
        if let Ok(records) = parse_items_spec(items) {
            let done = parse_items_spec(items.drop_last())->Ok_0;
            assert forall|i: int| 0 <= i < items.len() implies {
                &&& #[trigger] records[i].title == items[i].title
                &&& records[i].link == items[i].link
                &&& rfc2822_parse(items[i].pub_date) == Ok::<(i64, u32), DateParseError>(records[i].pub_date)
                &&& summarize(table_row_cells(items[i].description)) == Ok::<
                    RatesModel,
                    ParseErrorModel,
                >(records[i].rates)
            } by {
                if i < items.len() - 1 {
                    assert(records[i] == done[i]);
                    assert(items.drop_last()[i] == items[i]);
                }
            }
        }
    }
}

/// A successful parse gives one record per feed item, in feed order, each with the item's
/// title and link, the instant of its date and the summary of its table.
pub proof fn law_records_follow_items(items: Seq<RssItemModel>)
    ensures
        parse_items_spec(items) matches Ok(records) ==> {
            &&& records.len() == items.len()
            &&& forall|i: int|
                0 <= i < items.len() ==> {
                    &&& #[trigger] records[i].title == items[i].title
                    &&& records[i].link == items[i].link
                    &&& rfc2822_parse(items[i].pub_date) == Ok::<(i64, u32), DateParseError>(records[i].pub_date)
                    &&& summarize(table_row_cells(items[i].description)) == Ok::<
                        RatesModel,
                        ParseErrorModel,
                    >(records[i].rates)
                }
        },
{
    lemma_items_follow(items);
}

/// The feed fails as a whole exactly when one of its items fails, with the error of the first
/// item that does.
pub proof fn law_first_failing_item(items: Seq<RssItemModel>, k: int)
    requires
        0 <= k < items.len(),
        parse_item_spec(items[k]) is Err,
        forall|i: int| 0 <= i < k ==> parse_item_spec(#[trigger] items[i]) is Ok,
    ensures
        parse_items_spec(items) == Err::<Seq<ItemModel>, ParseErrorModel>(
            parse_item_spec(items[k])->Err_0,
        ),
    decreases items.len(),
{
    if k < items.len() - 1 {
        assert forall|i: int| 0 <= i < k implies parse_item_spec(
            #[trigger] items.drop_last()[i],
        ) is Ok by {
            assert(items.drop_last()[i] == items[i]);
        }
        assert(items.drop_last()[k] == items[k]);
        law_first_failing_item(items.drop_last(), k);
    } else {
        law_feed_ok_when_items_ok(items.drop_last());
        assert forall|i: int| 0 <= i < items.drop_last().len() implies parse_item_spec(
            #[trigger] items.drop_last()[i],
        ) is Ok by {
            assert(items.drop_last()[i] == items[i]);
        }
    }
}

/// A feed whose items all succeed succeeds.
pub proof fn law_feed_ok_when_items_ok(items: Seq<RssItemModel>)
    ensures
        (forall|i: int| 0 <= i < items.len() ==> parse_item_spec(#[trigger] items[i]) is Ok)
            ==> parse_items_spec(items) is Ok,
    decreases items.len(),
{
    if items.len() > 0 {
        law_feed_ok_when_items_ok(items.drop_last());
        if forall|i: int| 0 <= i < items.len() ==> parse_item_spec(#[trigger] items[i]) is Ok {
            assert forall|i: int| 0 <= i < items.drop_last().len() implies parse_item_spec(
                #[trigger] items.drop_last()[i],
            ) is Ok by {
                assert(items.drop_last()[i] == items[i]);
            }
            assert(parse_item_spec(items[items.len() - 1]) is Ok);
        }
    }
}

/// A table of an EUR row and a USD row gives those two rates, each as its cell's text with
/// the decimal comma turned into a point and the surrounding whitespace dropped, and no
/// other rate. A label naming EUR counts as the EUR row even if it names USD too.
pub proof fn law_eur_and_usd_rows(
    eur_label: Seq<char>,
    eur_cell: Seq<char>,
    usd_label: Seq<char>,
    usd_cell: Seq<char>,
)
    requires
        contains(eur_label, seq!['E', 'U', 'R']),
        contains(usd_label, seq!['U', 'S', 'D']),
        !contains(usd_label, seq!['E', 'U', 'R']),
        is_float_literal(trim(commas_to_points(eur_cell))),
        is_float_literal(trim(commas_to_points(usd_cell))),
    ensures
        summarize(seq![seq![eur_label, eur_cell], seq![usd_label, usd_cell]]) == Ok::<
            RatesModel,
            ParseErrorModel,
        >(
            RatesModel {
                eur: trim(commas_to_points(eur_cell)),
                usd: trim(commas_to_points(usd_cell)),
                chf: None,
                gbp: None,
                jpy100: None,
            },
        ),
{
    let r1 = seq![eur_label, eur_cell];
    let r2 = seq![usd_label, usd_cell];
    let rows = seq![r1, r2];
    assert(rows.drop_last() == seq![r1]);
    assert(seq![r1].drop_last() == Seq::<Seq<Seq<char>>>::empty());
    assert(seq![r1].last() == r1);
    assert(rows.last() == r2);
    assert(r1.len() == 2 && r1[0] == eur_label && r1[1] == eur_cell);
    assert(r2.len() == 2 && r2[0] == usd_label && r2[1] == usd_cell);
    let s1 = assign_rate(no_rates(), eur_label, rate_text(eur_cell));
    assert(read_rows(Seq::<Seq<Seq<char>>>::empty()) == Ok::<RateSlots, Seq<char>>(no_rates()));
    assert(read_rows(seq![r1]) == Ok::<RateSlots, Seq<char>>(s1));
    let s2 = assign_rate(s1, usd_label, rate_text(usd_cell));
    assert(read_rows(rows) == Ok::<RateSlots, Seq<char>>(s2));
}

/// Of two rows for the same currency, the later one gives the rate.
pub proof fn law_later_row_wins(
    first_label: Seq<char>,
    first_cell: Seq<char>,
    second_label: Seq<char>,
    second_cell: Seq<char>,
    usd_label: Seq<char>,
    usd_cell: Seq<char>,
)
    requires
        contains(first_label, seq!['E', 'U', 'R']),
        contains(second_label, seq!['E', 'U', 'R']),
        contains(usd_label, seq!['U', 'S', 'D']),
        !contains(usd_label, seq!['E', 'U', 'R']),
        is_float_literal(trim(commas_to_points(first_cell))),
        is_float_literal(trim(commas_to_points(second_cell))),
        is_float_literal(trim(commas_to_points(usd_cell))),
    ensures
        summarize(
            seq![
                seq![first_label, first_cell],
                seq![usd_label, usd_cell],
                seq![second_label, second_cell],
            ],
        ) matches Ok(m) && m.eur == trim(commas_to_points(second_cell)),
{
    let r1 = seq![first_label, first_cell];
    let r2 = seq![usd_label, usd_cell];
    let r3 = seq![second_label, second_cell];
    let rows = seq![r1, r2, r3];
    assert(rows.drop_last() == seq![r1, r2]);
    assert(seq![r1, r2].drop_last() == seq![r1]);
    assert(seq![r1].drop_last() == Seq::<Seq<Seq<char>>>::empty());
    assert(rows.last() == r3 && seq![r1, r2].last() == r2 && seq![r1].last() == r1);
    assert(r1.len() == 2 && r1[0] == first_label && r1[1] == first_cell);
    assert(r2.len() == 2 && r2[0] == usd_label && r2[1] == usd_cell);
    assert(r3.len() == 2 && r3[0] == second_label && r3[1] == second_cell);
    let s1 = assign_rate(no_rates(), first_label, rate_text(first_cell));
    assert(read_rows(Seq::<Seq<Seq<char>>>::empty()) == Ok::<RateSlots, Seq<char>>(no_rates()));
    assert(read_rows(seq![r1]) == Ok::<RateSlots, Seq<char>>(s1));
    let s2 = assign_rate(s1, usd_label, rate_text(usd_cell));
    assert(read_rows(seq![r1, r2]) == Ok::<RateSlots, Seq<char>>(s2));
    let s3 = assign_rate(s2, second_label, rate_text(second_cell));
    assert(read_rows(rows) == Ok::<RateSlots, Seq<char>>(s3));
    assert(s3.eur == Some(rate_text(second_cell)));
    assert(s3.usd is Some);
}

proof fn lemma_no_eur_rows(rows: Seq<Seq<Seq<char>>>)
    requires
        forall|i: int|
            0 <= i < rows.len() && (#[trigger] rows[i]).len() == 2 ==> !contains(
                rows[i][0],
                seq!['E', 'U', 'R'],
            ),
    ensures
        read_rows(rows) matches Ok(slots) ==> slots.eur is None,
    decreases rows.len(),
{
    if rows.len() > 0 {
        assert forall|i: int|
            0 <= i < rows.drop_last().len() && (#[trigger] rows.drop_last()[i]).len()
                == 2 implies !contains(rows.drop_last()[i][0], seq!['E', 'U', 'R']) by {
            assert(rows.drop_last()[i] == rows[i]);
        }
        lemma_no_eur_rows(rows.drop_last());
        assert(rows.last() == rows[rows.len() - 1]);
    }
}

/// A table in which no two-cell row names EUR fails with the EUR rate missing, unless one of
/// its rows holds a value that is not a number.
pub proof fn law_no_eur_row_missing(rows: Seq<Seq<Seq<char>>>)
    requires
        forall|i: int|
            0 <= i < rows.len() && (#[trigger] rows[i]).len() == 2 ==> !contains(
                rows[i][0],
                seq!['E', 'U', 'R'],
            ),
    ensures
        summarize(rows) is Ok ==> false,
        read_rows(rows) is Ok ==> summarize(rows) == Err::<RatesModel, ParseErrorModel>(
            ParseErrorModel::MissingRate(seq!['E', 'U', 'R']),
        ),
{
    lemma_no_eur_rows(rows);
}

} // verus!
