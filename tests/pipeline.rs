use assets_api::cache::{finish_fetch, plan_fetch, CacheStep, FetchError, ABSENT};
use assets_api::series::{parse_history, parse_series};
use assets_api::stock::{
    directory_path, directory_url, display_symbol, enrich, enrich_picked, history_path,
    history_url, list_all, matches_lowered, matches_query, matching_stocks, resolve_market,
    EnrichedStock, Stock, MAX_AGE_MS,
};
use assets_api::text::{chars_of, contains_chars, split_chars, string_of, trim_chars};

fn stock(name: &str, symbol: &str, market: Option<&str>, image: Option<&str>) -> Stock {
    Stock {
        name: name.to_string(),
        symbol: symbol.to_string(),
        market: market.map(|m| m.to_string()),
        image: image.map(|i| i.to_string()),
    }
}

fn closes_as_numbers(e: &EnrichedStock) -> Vec<f64> {
    e.closes.iter().map(|c| c.parse().unwrap_or(0.0)).collect()
}

#[test]
fn fresh_copy_is_used_just_inside_the_window() {
    assert!(matches!(plan_fetch(1000, 500, 1499), CacheStep::UseLocal));
}

#[test]
fn copy_is_refetched_at_the_window_edge() {
    assert!(matches!(plan_fetch(1000, 500, 1500), CacheStep::FetchRemote));
    assert!(matches!(plan_fetch(1000, 500, 9000), CacheStep::FetchRemote));
}

#[test]
fn absent_copy_is_always_fetched() {
    assert!(matches!(plan_fetch(ABSENT, MAX_AGE_MS, 1_700_000_000_000), CacheStep::FetchRemote));
    assert!(matches!(plan_fetch(ABSENT, i64::MAX, 0), CacheStep::FetchRemote));
}

#[test]
fn window_of_a_day_in_milliseconds() {
    assert_eq!(MAX_AGE_MS, 24 * 60 * 60 * 1000);
    assert!(matches!(plan_fetch(0, MAX_AGE_MS, MAX_AGE_MS - 1), CacheStep::UseLocal));
    assert!(matches!(plan_fetch(0, MAX_AGE_MS, MAX_AGE_MS), CacheStep::FetchRemote));
}

#[test]
fn fetched_text_is_written_and_returned() {
    let f = finish_fetch(Ok("payload".to_string()));
    assert_eq!(f.write, Some("payload".to_string()));
    assert!(matches!(f.result, Ok(ref t) if t == "payload"));
}

#[test]
fn failed_fetch_writes_nothing() {
    let f = finish_fetch(Err(FetchError::Transport("offline".to_string())));
    assert_eq!(f.write, None);
    assert!(matches!(f.result, Err(FetchError::Transport(ref m)) if m == "offline"));
    let g = finish_fetch(Err(FetchError::NotText));
    assert_eq!(g.write, None);
    assert!(matches!(g.result, Err(FetchError::NotText)));
}

#[test]
fn query_matches_name_without_regard_to_case() {
    let s = stock("Apple Inc", "AAPL.US", None, None);
    assert!(matches_query("appl", &s));
    assert!(matches_query("APPLE", &s));
    assert!(matches_query("inc", &s));
}

#[test]
fn query_matches_symbol_substring() {
    let s = stock("Microsoft", "MSFT.US", None, None);
    assert!(matches_query("ft.u", &s));
    assert!(!matches_query("apple", &s));
    assert!(matches_query("", &s));
}

#[test]
fn lowered_matching_is_exact_on_case() {
    assert!(matches_lowered("app", "apple inc", "aapl.us"));
    assert!(!matches_lowered("APP", "apple inc", "aapl.us"));
    assert!(matches_lowered("l.u", "apple inc", "aapl.us"));
    assert!(!matches_lowered("zz", "apple inc", "aapl.us"));
}

#[test]
fn symbol_suffix_is_stripped() {
    assert_eq!(display_symbol("AAPL.US"), "AAPL");
    assert_eq!(display_symbol("MSFT"), "MSFT");
    assert_eq!(display_symbol("BRK.B.US"), "BRK.B");
    assert_eq!(display_symbol(".US"), "");
    assert_eq!(display_symbol(""), "");
}

#[test]
fn short_rows_are_dropped_and_bad_prices_read_as_zero() {
    let csv = "date,o,h,l,v,close\n2024-01-01,1,2,3\n2024-01-02,1,2,3,4,abc\n";
    let s = parse_history(csv);
    assert_eq!(s.dates, vec!["2024-01-02".to_string()]);
    assert_eq!(s.closes, vec!["abc".to_string()]);
    let n: Vec<f64> = s.closes.iter().map(|c| c.parse().unwrap_or(0.0)).collect();
    assert_eq!(n, vec![0.0]);
}

#[test]
fn empty_and_header_only_payloads_give_empty_series() {
    for text in ["", "   \n ", "date,o,h,l,v,close", "date,o,h,l,v,close\n\n"] {
        let s = parse_history(text);
        assert!(s.dates.is_empty());
        assert!(s.closes.is_empty());
    }
}

#[test]
fn rows_keep_their_order_and_extra_columns_are_ignored() {
    let csv = "  h\na,1,2,3,4,10,x\nb,1,2,3,4,20\nc,1,2,3,4,30  \n";
    let s = parse_history(csv);
    assert_eq!(s.dates, vec!["a".to_string(), "b".to_string(), "c".to_string()]);
    assert_eq!(s.closes, vec!["10".to_string(), "20".to_string(), "30".to_string()]);
}

#[test]
fn columns_are_chosen_by_index() {
    let s = parse_series("h\nx,y,z\nu,v\n", 2, 1);
    assert_eq!(s.dates, vec!["z".to_string()]);
    assert_eq!(s.closes, vec!["y".to_string()]);
}

#[test]
fn listing_without_query_has_no_history() {
    let stocks = vec![
        stock("Apple Inc", "AAPL.US", None, Some("a.png")),
        stock("Siemens", "SIE.DE", Some("DE"), None),
    ];
    let r = list_all(&stocks, "US");
    assert_eq!(r.len(), 2);
    assert_eq!(r[0].name, "Apple Inc");
    assert_eq!(r[0].symbol, "AAPL.US");
    assert_eq!(r[0].market, Some("US".to_string()));
    assert_eq!(r[0].image, Some("a.png".to_string()));
    assert_eq!(r[1].symbol, "SIE.DE");
    assert_eq!(r[1].market, Some("DE".to_string()));
    assert_eq!(r[1].image, None);
    for e in r.iter() {
        assert!(e.dates.is_empty());
        assert!(e.closes.is_empty());
    }
}

#[test]
fn end_to_end_query_for_apple() {
    let stocks = vec![stock("Apple Inc", "AAPL.US", None, None)];
    let picks = matching_stocks(&stocks, "aapl");
    assert_eq!(picks, vec![0]);
    let csv = "date,o,h,l,v,close\n2024-01-01,,,,,100\n2024-01-02,,,,,110\n".to_string();
    let r = enrich_picked(&stocks, &picks, "US", &vec![csv]);
    assert_eq!(r.len(), 1);
    assert_eq!(r[0].symbol, "AAPL");
    assert_eq!(r[0].dates, vec!["2024-01-01".to_string(), "2024-01-02".to_string()]);
    assert_eq!(closes_as_numbers(&r[0]), vec![100.0, 110.0]);
    assert_eq!(r[0].market, Some("US".to_string()));
}

#[test]
fn matches_follow_directory_order() {
    let stocks = vec![
        stock("Alpha", "ALP.US", None, None),
        stock("Beta", "BET.US", None, None),
        stock("Alphabet", "GOOG.US", None, None),
    ];
    assert_eq!(matching_stocks(&stocks, "ALPHA"), vec![0, 2]);
    assert_eq!(matching_stocks(&stocks, ".us"), vec![0, 1, 2]);
    assert_eq!(matching_stocks(&stocks, "zzz"), Vec::<usize>::new());
}

#[test]
fn failed_history_gives_empty_series() {
    let s = stock("Tesla", "TSLA.US", Some("US"), None);
    let e = enrich(&s, "US", "");
    assert_eq!(e.symbol, "TSLA");
    assert!(e.dates.is_empty());
    assert!(e.closes.is_empty());
}

#[test]
fn market_defaults_to_us() {
    assert_eq!(resolve_market(None), "US");
    assert_eq!(resolve_market(Some("DE".to_string())), "DE");
}

#[test]
fn resource_names() {
    assert_eq!(directory_path("US"), "data/stocks_list_US.json");
    assert_eq!(
        directory_url("US"),
        "https://financial-data-omega.vercel.app/stocks_list_US.json"
    );
    assert_eq!(history_path("US", "AAPL.US"), "data/US/AAPL.US.csv");
    assert_eq!(
        history_url("DE", "SIE.DE"),
        "https://financial-data-omega.vercel.app/DE/SIE.DE.csv"
    );
}

#[test]
fn text_helpers() {
    let v = chars_of("  ab c\u{3000}");
    assert_eq!(v.len(), 7);
    assert_eq!(string_of(&trim_chars(&v)), "ab c");
    assert_eq!(string_of(&chars_of("héllo")), "héllo");
    let parts = split_chars(&chars_of("a,,b,"), ',');
    let parts: Vec<String> = parts.iter().map(|p| string_of(p)).collect();
    assert_eq!(parts, vec!["a", "", "b", ""]);
    assert!(contains_chars(&chars_of("hello"), &chars_of("ll")));
    assert!(!contains_chars(&chars_of("hello"), &chars_of("lo!")));
    assert!(contains_chars(&chars_of(""), &chars_of("")));
}
