//! Instruments of the directory, the query that selects among them, the names
//! of their cached resources, and the enriched records that answer a query.

use vstd::prelude::*;
use crate::series::{holds_rows, parse_history, series_rows, Series, CLOSE_COLUMN, DATE_COLUMN};
use crate::text::{chars_of, contains, contains_chars, string_of};

verus! {

/// The market that a query without one is about.
pub open spec fn default_market() -> Seq<char> {
    "US"@
}

/// How long a cached directory or history stays fresh: 24 hours, in milliseconds.
pub const MAX_AGE_MS: i64 = 86400000;

/// An instrument as the directory lists it.
pub struct Stock {
    pub name: String,
    /// The exchange ticker, possibly with a market suffix (`"ABC.US"`).
    pub symbol: String,
    pub market: Option<String>,
    pub image: Option<String>,
}

/// An instrument as a query answers it: its fields, with the market filled
/// in, and its price history as dates and closing-price fields, index-aligned.
pub struct EnrichedStock {
    pub name: String,
    pub symbol: String,
    pub dates: Vec<String>,
    pub closes: Vec<String>,
    pub market: Option<String>,
    pub image: Option<String>,
}

/// The view of an optional string.
pub open spec fn opt_view(o: Option<String>) -> Option<Seq<char>> {
    match o {
        Some(s) => Some(s@),
        None => None,
    }
}

/// The market of a record listed under `market`: its own, if it has one.
pub open spec fn market_or(own: Option<String>, market: Seq<char>) -> Seq<char> {
    match own {
        Some(m) => m@,
        None => market,
    }
}

/// The name of the lower-case form of `s`, as `str::to_lowercase` gives it.
pub uninterp spec fn lower_of(s: Seq<char>) -> Seq<char>;

/// Relies on `str::to_lowercase`: the Unicode lower-case mapping of each
/// character, a function of the characters alone.
#[verifier::external_body]
fn lowercase(s: &str) -> (r: String)
    ensures
        r@ == lower_of(s@),
{
    s.to_lowercase()
}

/// Whether an instrument named `name` with symbol `symbol` answers the query
/// `q`: the lower-case query occurs in the lower-case name or symbol.
pub open spec fn query_matches(q: Seq<char>, name: Seq<char>, symbol: Seq<char>) -> bool {
    contains(lower_of(name), lower_of(q)) || contains(lower_of(symbol), lower_of(q))
}

/// Whether the already lower-cased query `q` occurs in the already
/// lower-cased `name` or `symbol`.
pub fn matches_lowered(q: &str, name: &str, symbol: &str) -> (r: bool)
    ensures
        r == (contains(name@, q@) || contains(symbol@, q@)),
{
    let qc = chars_of(q);
    contains_chars(&chars_of(name), &qc) || contains_chars(&chars_of(symbol), &qc)
}

/// Whether `stock` answers the query `query`, without regard to case.
pub fn matches_query(query: &str, stock: &Stock) -> (r: bool)
    ensures
        r == query_matches(query@, stock.name@, stock.symbol@),
{
    let q = lowercase(query);
    let name = lowercase(stock.name.as_str());
    let symbol = lowercase(stock.symbol.as_str());
    matches_lowered(q.as_str(), name.as_str(), symbol.as_str())
}

/// The position of the last `'.'` in `s`, or -1 if there is none.
pub open spec fn last_dot(s: Seq<char>) -> int
    decreases s.len(),
{
    if s.len() == 0 {
        -1
    } else if s.last() == '.' {
        s.len() - 1
    } else {
        last_dot(s.drop_last())
    }
}

/// A symbol as it is displayed: without the part from its last `'.'` on.
pub open spec fn display_symbol_of(s: Seq<char>) -> Seq<char> {
    if last_dot(s) < 0 {
        s
    } else {
        s.take(last_dot(s))
    }
}

proof fn lemma_last_dot(s: Seq<char>)
    ensures
        -1 <= last_dot(s) < s.len(),
        last_dot(s) >= 0 ==> s[last_dot(s)] == '.',
        forall|k: int| last_dot(s) < k < s.len() ==> s[k] != '.',
    decreases s.len(),
{
    if s.len() > 0 && s.last() != '.' {
        lemma_last_dot(s.drop_last());
        assert forall|k: int| last_dot(s) < k < s.len() implies s[k] != '.' by {
            if k < s.len() - 1 {
                assert(s.drop_last()[k] == s[k]);
            }
        }
    }
}

/// `symbol` without its market suffix: `"AAPL.US"` gives `"AAPL"`, a
/// symbol without `'.'` stays as it is.
pub fn display_symbol(symbol: &str) -> (r: String)
    ensures
        r@ == display_symbol_of(symbol@),
{
    let c = chars_of(symbol);
    let mut j: usize = c.len();
    while j > 0 && c[j - 1] != '.'
        invariant
            j <= c.len(),
            forall|k: int| j <= k < c.len() ==> c@[k] != '.',
        decreases j,
    {
        j = j - 1;
    }
    proof {
        lemma_last_dot(c@);
        if last_dot(c@) >= j as int {
            assert(c@[last_dot(c@)] == '.');
        }
        if j > 0 {
            assert(last_dot(c@) >= j - 1) by {
                if last_dot(c@) < j - 1 {
                    assert(c@[j - 1] != '.');
                }
            }
        }
    }
    if j == 0 {
        return String::from_str(symbol);
    }
    let mut head: Vec<char> = Vec::new();
    let mut k: usize = 0;
    while k < j - 1
        invariant
            0 < j <= c.len(),
            k <= j - 1,
            head@ == c@.take(k as int),
        decreases j - 1 - k,
    {
        head.push(c[k]);
        k = k + 1;
        assert(c@.take(k as int) == c@.take(k - 1).push(c@[k - 1]));
    }
    string_of(&head)
}


/// The market of a query: `country`, or `"US"` when it names none.
pub fn resolve_market(country: Option<String>) -> (r: String)
    ensures
        r@ == match country {
            Some(c) => c@,
            None => default_market(),
        },
{
    match country {
        Some(c) => c,
        None => String::from_str("US"),
    }
}

/// Where the remote directory and histories are served from.
pub open spec fn base_url() -> Seq<char> {
    "https://financial-data-omega.vercel.app/"@
}

/// The cache key of the directory of `market`.
pub fn directory_path(market: &str) -> (r: String)
    ensures
        r@ == "data/stocks_list_"@ + market@ + ".json"@,
{
    String::from_str("data/stocks_list_").concat(market).concat(".json")
}

/// The remote locator of the directory of `market`.
pub fn directory_url(market: &str) -> (r: String)
    ensures
        r@ == base_url() + "stocks_list_"@ + market@ + ".json"@,
{
    String::from_str("https://financial-data-omega.vercel.app/").concat("stocks_list_").concat(
        market,
    ).concat(".json")
}

/// The cache key of the history of `symbol` in `market`.
pub fn history_path(market: &str, symbol: &str) -> (r: String)
    ensures
        r@ == "data/"@ + market@ + "/"@ + symbol@ + ".csv"@,
{
    String::from_str("data/").concat(market).concat("/").concat(symbol).concat(".csv")
}

/// The remote locator of the history of `symbol` in `market`.
pub fn history_url(market: &str, symbol: &str) -> (r: String)
    ensures
        r@ == base_url() + market@ + "/"@ + symbol@ + ".csv"@,
{
    String::from_str("https://financial-data-omega.vercel.app/").concat(market).concat("/").concat(
        symbol,
    ).concat(".csv")
}

fn copy_opt(o: &Option<String>) -> (r: Option<String>)
    ensures
        r == *o,
{
    match o {
        Some(s) => Some(s.clone()),
        None => None,
    }
}

/// The market that a record listed under `market` carries.
fn market_field(own: &Option<String>, market: &str) -> (r: Option<String>)
    ensures
        opt_view(r) == Some(market_or(*own, market@)),
{
    match own {
        Some(m) => Some(m.clone()),
        None => Some(String::from_str(market)),
    }
}

/// `r` is `s` as listed under `market`, without a history.
pub open spec fn listed_as(r: EnrichedStock, s: Stock, market: Seq<char>) -> bool {
    &&& r.name@ == s.name@
    &&& r.symbol@ == s.symbol@
    &&& r.dates@.len() == 0
    &&& r.closes@.len() == 0
    &&& opt_view(r.market) == Some(market_or(s.market, market))
    &&& opt_view(r.image) == opt_view(s.image)
}

/// `r` is `s` under `market`, with its symbol stripped for display and the
/// price history read from `history`.
pub open spec fn enriched_as(r: EnrichedStock, s: Stock, market: Seq<char>, history: Seq<char>) -> bool {
    &&& r.name@ == s.name@
    &&& r.symbol@ == display_symbol_of(s.symbol@)
    &&& holds_rows(
        Series { dates: r.dates, closes: r.closes },
        series_rows(history, DATE_COLUMN as int, CLOSE_COLUMN as int),
    )
    &&& r.dates.len() == r.closes.len()
    &&& opt_view(r.market) == Some(market_or(s.market, market))
    &&& opt_view(r.image) == opt_view(s.image)
}

/// `stock` listed under `market`, without a history.
pub fn listed(stock: &Stock, market: &str) -> (r: EnrichedStock)
    ensures
        listed_as(r, *stock, market@),
{
    EnrichedStock {
        name: stock.name.clone(),
        symbol: stock.symbol.clone(),
        dates: Vec::new(),
        closes: Vec::new(),
        market: market_field(&stock.market, market),
        image: copy_opt(&stock.image),
    }
}

/// `stock` under `market`, with the price history read from the payload
/// `history` (empty when the history could not be had).
pub fn enrich(stock: &Stock, market: &str, history: &str) -> (r: EnrichedStock)
    ensures
        enriched_as(r, *stock, market@, history@),
{
    let series = parse_history(history);
    EnrichedStock {
        name: stock.name.clone(),
        symbol: display_symbol(stock.symbol.as_str()),
        dates: series.dates,
        closes: series.closes,
        market: market_field(&stock.market, market),
        image: copy_opt(&stock.image),
    }
}

/// The answer to a query without a text: every instrument of the directory,
/// in its order, listed under `market` without a history.
pub fn list_all(stocks: &Vec<Stock>, market: &str) -> (r: Vec<EnrichedStock>)
    ensures
        r.len() == stocks.len(),
        forall|k: int| 0 <= k < r.len() ==> listed_as(#[trigger] r[k], stocks[k], market@),
{
    let mut out: Vec<EnrichedStock> = Vec::new();
    let mut i: usize = 0;
    while i < stocks.len()
        invariant
            i <= stocks.len(),
            out.len() == i,
            forall|k: int| 0 <= k < i ==> listed_as(#[trigger] out[k], stocks[k], market@),
        decreases stocks.len() - i,
    {
        out.push(listed(&stocks[i], market));
        i = i + 1;
    }
    out
}

/// The positions in `stocks` of the instruments that answer the query `q`,
/// in increasing order.
pub open spec fn matching(stocks: Seq<Stock>, q: Seq<char>) -> Seq<int>
    decreases stocks.len(),
{
    if stocks.len() == 0 {
        seq![]
    } else {
        let earlier = matching(stocks.drop_last(), q);
        if query_matches(q, stocks.last().name@, stocks.last().symbol@) {
            earlier.push(stocks.len() - 1)
        } else {
            earlier
        }
    }
}

/// The positions of the instruments of `stocks` that answer `query`, in
/// directory order.
pub fn matching_stocks(stocks: &Vec<Stock>, query: &str) -> (r: Vec<usize>)
    ensures
        r@.map_values(|i: usize| i as int) == matching(stocks@, query@),
{
    let mut out: Vec<usize> = Vec::new();
    let mut i: usize = 0;
    while i < stocks.len()
        invariant
            i <= stocks.len(),
            out@.map_values(|i: usize| i as int) == matching(stocks@.take(i as int), query@),
        decreases stocks.len() - i,
    {
        let ghost prev = out@.map_values(|i: usize| i as int);
        assert(stocks@.take(i + 1).drop_last() == stocks@.take(i as int));
        assert(stocks@.take(i + 1).last() == stocks@[i as int]);
        if matches_query(query, &stocks[i]) {
            out.push(i);
            assert(out@.map_values(|i: usize| i as int) == prev.push(i as int));
        }
        i = i + 1;
    }
    assert(stocks@.take(stocks.len() as int) == stocks@);
    out
}

/// The answer to a query with a text: for each position `picks[k]` of
/// `stocks`, that instrument under `market` with the history read from
/// `histories[k]`, in the order of `picks`.
pub fn enrich_picked(
    stocks: &Vec<Stock>,
    picks: &Vec<usize>,
    market: &str,
    histories: &Vec<String>,
) -> (r: Vec<EnrichedStock>)
    requires
        histories.len() == picks.len(),
        forall|k: int| 0 <= k < picks.len() ==> #[trigger] picks[k] < stocks.len(),
    ensures
        r.len() == picks.len(),
        forall|k: int|
            0 <= k < r.len() ==> enriched_as(
                #[trigger] r[k],
                stocks[picks[k] as int],
                market@,
                histories[k]@,
            ),
{
    let mut out: Vec<EnrichedStock> = Vec::new();
    let mut i: usize = 0;
    while i < picks.len()
        invariant
            i <= picks.len(),
            histories.len() == picks.len(),
            forall|k: int| 0 <= k < picks.len() ==> #[trigger] picks[k] < stocks.len(),
            out.len() == i,
            forall|k: int|
                0 <= k < i ==> enriched_as(
                    #[trigger] out[k],
                    stocks[picks[k] as int],
                    market@,
                    histories[k]@,
                ),
        decreases picks.len() - i,
    {
        let p = picks[i];
        out.push(enrich(&stocks[p], market, histories[i].as_str()));
        i = i + 1;
    }
    out
}

/// Matches are listed in directory order: their positions strictly increase
/// and each is a position of the directory.
pub proof fn matches_keep_directory_order(stocks: Seq<Stock>, q: Seq<char>)
    ensures
        forall|a: int, b: int|
            0 <= a < b < matching(stocks, q).len() ==> matching(stocks, q)[a] < matching(
                stocks,
                q,
            )[b],
        forall|a: int|
            0 <= a < matching(stocks, q).len() ==> 0 <= #[trigger] matching(stocks, q)[a]
                < stocks.len(),
    decreases stocks.len(),
{
    if stocks.len() > 0 {
        let rest = stocks.drop_last();
        matches_keep_directory_order(rest, q);
        let e = matching(rest, q);
        let m = matching(stocks, q);
        assert forall|a: int| 0 <= a < m.len() implies 0 <= #[trigger] m[a] < stocks.len() && (a
            < e.len() ==> m[a] == e[a]) by {
            if a < e.len() {
                assert(0 <= e[a] < rest.len());
            }
        }
        assert forall|a: int, b: int| 0 <= a < b < m.len() implies m[a] < m[b] by {
            if b < e.len() {
                assert(e[a] < e[b]);
            } else {
                assert(0 <= e[a] < rest.len());
            }
        }
    }
}

} // verus!
