//! The price-history payload: delimited text whose first line is a header and
//! whose other lines each give one trading day.

use vstd::prelude::*;
use crate::text::{chars_of, lemma_split_len, split, split_chars, string_of, trim_chars, trimmed, views};

verus! {

/// The column of a history row that holds the date.
pub const DATE_COLUMN: usize = 0;

/// The column of a history row that holds the closing price.
pub const CLOSE_COLUMN: usize = 5;

/// The dates and closing-price fields of a price history, index-aligned.
/// A closing price is kept as the text of its field; reading it as a number
/// is left to the caller.
pub struct Series {
    pub dates: Vec<String>,
    pub closes: Vec<String>,
}

/// The views of a vector of strings.
pub open spec fn string_views(v: Seq<String>) -> Seq<Seq<char>> {
    v.map_values(|x: String| x@)
}

/// The (date, close) fields of each of `lines` that has a column `date_col`
/// and a column `close_col`, in order; the other lines contribute nothing.
pub open spec fn accepted_rows(lines: Seq<Seq<char>>, date_col: int, close_col: int) -> Seq<
    (Seq<char>, Seq<char>),
>
    decreases lines.len(),
{
    if lines.len() == 0 {
        seq![]
    } else {
        let earlier = accepted_rows(lines.drop_last(), date_col, close_col);
        let cols = split(lines.last(), ',');
        if date_col < cols.len() && close_col < cols.len() {
            earlier.push((cols[date_col], cols[close_col]))
        } else {
            earlier
        }
    }
}

/// The rows that a history payload `text` contributes: the text is trimmed,
/// cut into lines, its first line (the header) is dropped and the other lines
/// are cut into comma-separated columns.
pub open spec fn series_rows(text: Seq<char>, date_col: int, close_col: int) -> Seq<
    (Seq<char>, Seq<char>),
> {
    accepted_rows(split(trimmed(text), '\n').drop_first(), date_col, close_col)
}

/// `s` holds exactly the rows `rows`, in order.
pub open spec fn holds_rows(s: Series, rows: Seq<(Seq<char>, Seq<char>)>) -> bool {
    &&& string_views(s.dates@) == rows.map_values(|p: (Seq<char>, Seq<char>)| p.0)
    &&& string_views(s.closes@) == rows.map_values(|p: (Seq<char>, Seq<char>)| p.1)
}

/// Reads the dates and closing-price fields from a history payload, with the
/// date in column `date_col` and the closing price in column `close_col`.
/// Lines with too few columns are skipped; an empty payload or one that holds
/// only a header gives an empty series.
pub fn parse_series(text: &str, date_col: usize, close_col: usize) -> (r: Series)
    ensures
        holds_rows(r, series_rows(text@, date_col as int, close_col as int)),
        r.dates.len() == r.closes.len(),
{
    let chars = chars_of(text);
    let body = trim_chars(&chars);
    let lines = split_chars(&body, '\n');
    let ghost all = views(lines@);
    let mut dates: Vec<String> = Vec::new();
    let mut closes: Vec<String> = Vec::new();
    let mut i: usize = 1;
    proof {
        lemma_split_len(body@, '\n');
        assert(all.subrange(1, 1) =~= seq![]);
        assert(string_views(dates@) =~= seq![]);
        assert(string_views(closes@) =~= seq![]);
        let e = accepted_rows(all.subrange(1, 1), date_col as int, close_col as int);
        assert(e =~= seq![]);
        assert(e.map_values(|p: (Seq<char>, Seq<char>)| p.0) =~= seq![]);
        assert(e.map_values(|p: (Seq<char>, Seq<char>)| p.1) =~= seq![]);
    }
    while i < lines.len()
        invariant
            1 <= i,
            all == views(lines@),
            i <= lines.len(),
            holds_rows(
                Series { dates, closes },
                accepted_rows(all.subrange(1, i as int), date_col as int, close_col as int),
            ),
            dates.len() == closes.len(),
        decreases lines.len() - i,
    {
        let ghost prev = accepted_rows(all.subrange(1, i as int), date_col as int, close_col as int);
        let ghost prev_dates = string_views(dates@);
        let ghost prev_closes = string_views(closes@);
        assert(all.subrange(1, i + 1).drop_last() == all.subrange(1, i as int));
        assert(all.subrange(1, i + 1).last() == lines@[i as int]@);
        let cols = split_chars(&lines[i], ',');
        if date_col < cols.len() && close_col < cols.len() {
            let d = string_of(&cols[date_col]);
            let c = string_of(&cols[close_col]);
            dates.push(d);
            closes.push(c);
            let ghost now = accepted_rows(all.subrange(1, i + 1), date_col as int, close_col as int);
            assert(string_views(dates@) == prev_dates.push(d@));
            assert(string_views(closes@) == prev_closes.push(c@));
            assert(now == prev.push((views(cols@)[date_col as int], views(cols@)[close_col as int])));
            assert(now.map_values(|p: (Seq<char>, Seq<char>)| p.0) == prev.map_values(
                |p: (Seq<char>, Seq<char>)| p.0,
            ).push(d@));
            assert(now.map_values(|p: (Seq<char>, Seq<char>)| p.1) == prev.map_values(
                |p: (Seq<char>, Seq<char>)| p.1,
            ).push(c@));
        }
        i = i + 1;
    }
    assert(all.subrange(1, lines.len() as int) == all.drop_first());
    Series { dates, closes }
}

/// Reads a history payload with the date in `DATE_COLUMN` and the closing
/// price in `CLOSE_COLUMN`; rows with fewer than six columns are skipped.
pub fn parse_history(text: &str) -> (r: Series)
    ensures
        holds_rows(r, series_rows(text@, DATE_COLUMN as int, CLOSE_COLUMN as int)),
        r.dates.len() == r.closes.len(),
{
    parse_series(text, DATE_COLUMN, CLOSE_COLUMN)
}

} // verus!
