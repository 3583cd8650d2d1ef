//! The last price of a stock or an index, from two public services asked at once. Stooq serves a table of one row
//! and spells symbols its own way; Yahoo takes the familiar symbols and also knows the previous close.

use vstd::prelude::*;

use crate::collect::{keep, outcome};
use crate::number::{double_in, read_double, MINUS_ZERO};
use crate::text::{
    ascii_lowercase, ascii_uppercase, cat2, cat3, cat4, chars_of, contains_char, contains_of, dec_signed, decimal_signed,
    find_of, is_blank, lemma_find, lowered, quote, quoted, same, same_ignoring_case, split, split_of, text_of, trim, trimmed,
    uppered,
};
use crate::tool::tools::upstream::{or_text, text_or};

verus! {

pub const STOOQ_BASE: &'static str = "https://stooq.com/q/l/";

pub const YAHOO_BASE: &'static str = "https://query1.finance.yahoo.com/v8/finance/chart";

/// A price. Numbers are the bits of doubles.
#[derive(Debug, PartialEq, Eq)]
pub struct Quote {
    pub symbol: String,
    pub name: Option<String>,
    pub price: u64,
    pub previous_close: Option<u64>,
    pub currency: Option<String>,
    pub as_of: String,
    pub source: String,
}

#[verifier::ext_equal]
pub struct QuoteView {
    pub symbol: Seq<char>,
    pub name: Option<Seq<char>>,
    pub price: u64,
    pub previous_close: Option<u64>,
    pub currency: Option<Seq<char>>,
    pub as_of: Seq<char>,
    pub source: Seq<char>,
}

impl DeepView for Quote {
    type V = QuoteView;

    open spec fn deep_view(&self) -> QuoteView {
        QuoteView {
            symbol: self.symbol@,
            name: self.name.deep_view(),
            price: self.price,
            previous_close: self.previous_close,
            currency: self.currency.deep_view(),
            as_of: self.as_of@,
            source: self.source@,
        }
    }
}

/// The symbol a request asks about, in upper case and without the white space around it.
pub fn symbol_asked(symbol: &str) -> (asked: Result<String, String>)
    ensures
        (match asked {
            Ok(asked) => asked@ == uppered(trimmed(symbol@)) && asked@.len() > 0,
            Err(message) => trimmed(symbol@).len() == 0 && message@ == "symbol is required"@,
        }),
{
    if is_blank(symbol) {
        return Err("symbol is required".to_owned());
    }
    Ok(ascii_uppercase(trim(symbol).as_str()))
}

/// A symbol as Stooq spells it: its own tickers for the big US indices, and a suffix for what is neither an index
/// nor names its market.
pub open spec fn stooq_spelling(symbol: Seq<char>) -> Seq<char> {
    let lower = lowered(symbol);
    if symbol == "^IXIC"@ || symbol == "^NDQ"@ {
        "^ndq"@
    } else if symbol == "^GSPC"@ || symbol == "^SPX"@ {
        "^spx"@
    } else if symbol == "^DJI"@ {
        "^dji"@
    } else if (lower.len() > 0 && lower[0] == '^') || contains_of(lower, '.') || contains_of(lower, '=') {
        lower
    } else {
        lower + ".us"@
    }
}

pub fn stooq_symbol(symbol: &str) -> (spelled: String)
    ensures
        spelled@ == stooq_spelling(symbol@),
{
    if same(symbol, "^IXIC") || same(symbol, "^NDQ") {
        return "^ndq".to_owned();
    }
    if same(symbol, "^GSPC") || same(symbol, "^SPX") {
        return "^spx".to_owned();
    }
    if same(symbol, "^DJI") {
        return "^dji".to_owned();
    }
    let lower: String = ascii_lowercase(symbol);
    let chars: Vec<char> = chars_of(lower.as_str());
    if (chars.len() > 0 && chars[0] == '^') || contains_char(lower.as_str(), '.') || contains_char(
        lower.as_str(),
        '=',
    ) {
        lower
    } else {
        cat2(lower.as_str(), ".us")
    }
}

pub fn stooq_url(symbol: &str) -> (url: String)
    ensures
        url@ == STOOQ_BASE@ + "?s="@ + stooq_spelling(symbol@) + "&f=sd2t2ohlcv&h&e=csv"@,
{
    cat4(STOOQ_BASE, "?s=", stooq_symbol(symbol).as_str(), "&f=sd2t2ohlcv&h&e=csv")
}

pub fn yahoo_url(symbol: &str) -> (url: String)
    ensures
        url@ == YAHOO_BASE@ + "/"@ + symbol@ + "?range=1d&interval=1d"@,
{
    cat4(YAHOO_BASE, "/", symbol, "?range=1d&interval=1d")
}

/// A line without the carriage return before its line feed.
pub open spec fn line_of(piece: Seq<char>) -> Seq<char> {
    if piece.len() > 0 && piece.last() == '\r' {
        piece.drop_last()
    } else {
        piece
    }
}

/// The lines of a text: what stands before each line feed, and what follows the last where it is not empty.
pub open spec fn lines_of(text: Seq<char>) -> Seq<Seq<char>> {
    let pieces = split_of(text, '\n');
    let ended = pieces.drop_last().map_values(|piece: Seq<char>| line_of(piece));
    if pieces.last().len() == 0 {
        ended
    } else {
        ended.push(pieces.last())
    }
}

/// The lines that hold more than white space.
pub open spec fn written(lines: Seq<Seq<char>>) -> Seq<Seq<char>>
    decreases lines.len(),
{
    if lines.len() == 0 {
        seq![]
    } else if trimmed(lines.last()).len() == 0 {
        written(lines.drop_last())
    } else {
        written(lines.drop_last()).push(lines.last())
    }
}

proof fn lemma_split_is_not_empty(text: Seq<char>, c: char)
    ensures
        split_of(text, c).len() > 0,
{
}

/// The lines of a text that hold more than white space.
pub fn written_lines(text: &str) -> (lines: Vec<String>)
    ensures
        lines.deep_view() == written(lines_of(text@)),
{
    proof {
        lemma_split_is_not_empty(text@, '\n');
    }
    let pieces: Vec<String> = split(text, '\n');
    let ghost views = pieces.deep_view();
    let ghost ended = views.drop_last().map_values(|piece: Seq<char>| line_of(piece));
    let mut lines: Vec<String> = Vec::new();
    assert(lines.deep_view() =~= written(ended.take(0)));
    let last: usize = pieces.len() - 1;
    for i in 0..last
        invariant
            last == pieces@.len() - 1,
            views == pieces.deep_view(),
            ended == views.drop_last().map_values(|piece: Seq<char>| line_of(piece)),
            lines.deep_view() == written(ended.take(i as int)),
    {
        let mut chars: Vec<char> = chars_of(pieces[i].as_str());
        let ghost piece = chars@;
        if chars.len() > 0 && chars[chars.len() - 1] == '\r' {
            chars.pop();
            assert(chars@ =~= piece.drop_last());
        }
        let line: String = text_of(chars.as_slice());
        assert(views[i as int] == pieces@[i as int]@);
        assert(ended[i as int] == line@);
        assert(ended.take(i as int + 1).drop_last() =~= ended.take(i as int));
        assert(ended.take(i as int + 1).last() == line@);
        if !is_blank(line.as_str()) {
            keep(&mut lines, line);
        }
    }
    assert(ended.take(last as int) =~= ended);
    let tail: &str = pieces[last].as_str();
    assert(views.last() == pieces@[last as int]@);
    assert(ended.push(views.last()).drop_last() =~= ended);
    if !is_blank(tail) {
        assert(tail@.len() > 0);
        keep(&mut lines, tail.to_owned());
    }
    lines
}

/// The place of the first column of a name, in any case and with white space around it.
pub open spec fn column_of(columns: Seq<Seq<char>>, name: Seq<char>) -> Option<int>
    decreases columns.len(),
{
    if columns.len() == 0 {
        None
    } else if lowered(trimmed(columns[0])) == lowered(name) {
        Some(0)
    } else {
        match column_of(columns.drop_first(), name) {
            Some(i) => Some(i + 1),
            None => None,
        }
    }
}

/// The cell of a row under a column's name, without the white space around it.
pub open spec fn cell_of(columns: Seq<Seq<char>>, cells: Seq<Seq<char>>, name: Seq<char>) -> Option<Seq<char>> {
    match column_of(columns, name) {
        Some(i) => if i < cells.len() {
            Some(trimmed(cells[i]))
        } else {
            None
        },
        None => None,
    }
}

fn cell(columns: &Vec<String>, cells: &Vec<String>, name: &str) -> (found: Option<String>)
    ensures
        found.deep_view() == cell_of(columns.deep_view(), cells.deep_view(), name@),
{
    let ghost views = columns.deep_view();
    assert(views.skip(0) =~= views);
    let mut i: usize = 0;
    while i < columns.len()
        invariant
            i <= columns@.len(),
            views == columns.deep_view(),
            column_of(views, name@) == match column_of(views.skip(i as int), name@) {
                Some(k) => Some(k + i),
                None => None,
            },
        decreases columns@.len() - i,
    {
        assert(views.skip(i as int).drop_first() =~= views.skip(i as int + 1));
        assert(views[i as int] == columns@[i as int]@);
        if same_ignoring_case(trim(columns[i].as_str()).as_str(), name) {
            if i < cells.len() {
                assert(cells.deep_view()[i as int] == cells@[i as int]@);
                return Some(trim(cells[i].as_str()));
            }
            return None;
        }
        i += 1;
    }
    None
}

/// What one row of Stooq's table says: the closing price as the bits of a double, and when.
#[derive(Debug, PartialEq, Eq)]
pub struct StooqRow {
    pub close: u64,
    pub as_of: String,
}

#[verifier::ext_equal]
pub struct StooqRowView {
    pub close: u64,
    pub as_of: Seq<char>,
}

impl DeepView for StooqRow {
    type V = StooqRowView;

    open spec fn deep_view(&self) -> StooqRowView {
        StooqRowView { close: self.close, as_of: self.as_of@ }
    }
}

/// The price in a cell, where there is a cell and it reads as a number.
pub open spec fn price_in(cell: Option<Seq<char>>) -> Option<u64> {
    match cell {
        Some(text) => double_in(text),
        None => None,
    }
}

pub open spec fn row_of(header: Seq<char>, row: Seq<char>) -> Result<StooqRowView, Seq<char>> {
    let columns = split_of(header, ',');
    let cells = split_of(row, ',');
    match price_in(cell_of(columns, cells, "Close"@)) {
        None => Err("no usable Close in "@ + quoted(row)),
        Some(close) => Ok(
            StooqRowView {
                close,
                as_of: trimmed(
                    or_text(cell_of(columns, cells, "Date"@), ""@) + " "@ + or_text(
                        cell_of(columns, cells, "Time"@),
                        ""@,
                    ),
                ),
            },
        ),
    }
}

/// The table's first row under its header. A symbol that Stooq does not know has no number for a price, and is a
/// failure.
pub open spec fn table_of(csv: Seq<char>) -> Result<StooqRowView, Seq<char>> {
    let lines = written(lines_of(csv));
    if lines.len() == 0 {
        Err("empty CSV"@)
    } else if lines.len() == 1 {
        Err("CSV had no data row"@)
    } else {
        row_of(lines[0], lines[1])
    }
}

pub fn parse_stooq_csv(csv: &str) -> (row: Result<StooqRow, String>)
    ensures
        outcome(row) == table_of(csv@),
{
    let lines: Vec<String> = written_lines(csv);
    assert(lines@.len() == lines.deep_view().len());
    if lines.len() == 0 {
        return Err("empty CSV".to_owned());
    }
    if lines.len() == 1 {
        return Err("CSV had no data row".to_owned());
    }
    assert(lines.deep_view()[0] == lines@[0]@);
    assert(lines.deep_view()[1] == lines@[1]@);
    let columns: Vec<String> = split(lines[0].as_str(), ',');
    let cells: Vec<String> = split(lines[1].as_str(), ',');
    let close: Option<u64> = match cell(&columns, &cells, "Close") {
        Some(text) => read_double(text.as_str()),
        None => None,
    };
    match close {
        None => Err(cat2("no usable Close in ", quote(lines[1].as_str()).as_str())),
        Some(close) => {
            let date: String = text_or(cell(&columns, &cells, "Date"), "");
            let time: String = text_or(cell(&columns, &cells, "Time"), "");
            Ok(
                StooqRow {
                    close,
                    as_of: trim(cat3(date.as_str(), " ", time.as_str()).as_str()),
                },
            )
        },
    }
}

pub open spec fn stooq_quote(symbol: Seq<char>, csv: Seq<char>) -> Result<QuoteView, Seq<char>> {
    match table_of(csv) {
        Err(message) => Err(message),
        Ok(row) => Ok(
            QuoteView {
                symbol,
                name: None,
                price: row.close,
                previous_close: None,
                currency: None,
                as_of: row.as_of,
                source: "stooq"@,
            },
        ),
    }
}

/// Stooq's table as a quote.
pub fn from_stooq(symbol: &str, csv: &str) -> (quote: Result<Quote, String>)
    ensures
        outcome(quote) == stooq_quote(symbol@, csv@),
{
    let row: StooqRow = parse_stooq_csv(csv)?;
    Ok(
        Quote {
            symbol: symbol.to_owned(),
            name: None,
            price: row.close,
            previous_close: None,
            currency: None,
            as_of: row.as_of,
            source: "stooq".to_owned(),
        },
    )
}

/// What Yahoo says of a symbol. Numbers are the bits of doubles, the time is in seconds since 1970.
#[derive(Debug)]
pub struct ChartMeta {
    pub symbol: Option<String>,
    pub short_name: Option<String>,
    pub long_name: Option<String>,
    pub currency: Option<String>,
    pub regular_market_price: Option<u64>,
    pub previous_close: Option<u64>,
    pub chart_previous_close: Option<u64>,
    pub regular_market_time: Option<i64>,
}

pub struct ChartMetaView {
    pub symbol: Option<Seq<char>>,
    pub short_name: Option<Seq<char>>,
    pub long_name: Option<Seq<char>>,
    pub currency: Option<Seq<char>>,
    pub regular_market_price: Option<u64>,
    pub previous_close: Option<u64>,
    pub chart_previous_close: Option<u64>,
    pub regular_market_time: Option<i64>,
}

impl DeepView for ChartMeta {
    type V = ChartMetaView;

    open spec fn deep_view(&self) -> ChartMetaView {
        ChartMetaView {
            symbol: self.symbol.deep_view(),
            short_name: self.short_name.deep_view(),
            long_name: self.long_name.deep_view(),
            currency: self.currency.deep_view(),
            regular_market_price: self.regular_market_price,
            previous_close: self.previous_close,
            chart_previous_close: self.chart_previous_close,
            regular_market_time: self.regular_market_time,
        }
    }
}

/// The date and time that `chrono` writes for a number of seconds since 1970, where it is in range.
pub uninterp spec fn instant_text(seconds: i64) -> Option<Seq<char>>;

/// `chrono::DateTime::from_timestamp` and `to_rfc3339`, in UTC. It depends on the number of seconds alone.
#[verifier::external_body]
fn show_instant(seconds: i64) -> (text: Option<String>)
    ensures
        text.deep_view() == instant_text(seconds),
{
    chrono::DateTime::from_timestamp(seconds, 0).map(|instant| instant.to_rfc3339())
}

/// When a price was the last: the market's time, or the number itself where it is out of range, or now where there is
/// none.
pub open spec fn as_of(time: Option<i64>, now: Seq<char>) -> Seq<char> {
    match time {
        None => now,
        Some(seconds) => or_text(instant_text(seconds), dec_signed(seconds as int)),
    }
}

pub open spec fn either<T>(first: Option<T>, second: Option<T>) -> Option<T> {
    match first {
        Some(value) => Some(value),
        None => second,
    }
}

pub open spec fn yahoo_quote(symbol: Seq<char>, meta: Option<ChartMetaView>, now: Seq<char>) -> Result<
    QuoteView,
    Seq<char>,
> {
    match meta {
        None => Err("no chart data for "@ + symbol),
        Some(meta) => match meta.regular_market_price {
            None => Err("no regularMarketPrice for "@ + symbol),
            Some(price) => Ok(
                QuoteView {
                    symbol: or_text(meta.symbol, symbol),
                    name: either(meta.short_name, meta.long_name),
                    price,
                    previous_close: either(meta.previous_close, meta.chart_previous_close),
                    currency: meta.currency,
                    as_of: as_of(meta.regular_market_time, now),
                    source: "yahoo"@,
                },
            ),
        },
    }
}

/// Yahoo's first result as a quote.
pub fn from_yahoo(symbol: &str, meta: Option<ChartMeta>, now: &str) -> (quote: Result<Quote, String>)
    ensures
        outcome(quote) == yahoo_quote(symbol@, meta.deep_view(), now@),
{
    match meta {
        None => Err(cat2("no chart data for ", symbol)),
        Some(meta) => match meta.regular_market_price {
            None => Err(cat2("no regularMarketPrice for ", symbol)),
            Some(price) => {
                let as_of: String = match meta.regular_market_time {
                    None => now.to_owned(),
                    Some(seconds) => text_or(
                        show_instant(seconds),
                        decimal_signed(seconds).as_str(),
                    ),
                };
                Ok(
                    Quote {
                        symbol: text_or(meta.symbol, symbol),
                        name: match meta.short_name {
                            Some(name) => Some(name),
                            None => meta.long_name,
                        },
                        price,
                        previous_close: match meta.previous_close {
                            Some(close) => Some(close),
                            None => meta.chart_previous_close,
                        },
                        currency: meta.currency,
                        as_of,
                        source: "yahoo".to_owned(),
                    },
                )
            },
        },
    }
}

/// The previous close that a change is measured against: there is none to measure against zero.
pub open spec fn measured_against(previous_close: Option<u64>) -> Option<u64> {
    match previous_close {
        Some(bits) if bits != 0 && bits != MINUS_ZERO => Some(bits),
        _ => None,
    }
}

pub fn change_base(quote: &Quote) -> (base: Option<u64>)
    ensures
        base == measured_against(quote.previous_close),
{
    match quote.previous_close {
        Some(bits) if bits != 0 && bits != MINUS_ZERO => Some(bits),
        _ => None,
    }
}

/// A price is never made up: it is one that the service gave.
pub proof fn law_a_price_is_one_the_service_gave(
    symbol: Seq<char>,
    csv: Seq<char>,
    meta: Option<ChartMetaView>,
    now: Seq<char>,
)
    ensures
        stooq_quote(symbol, csv) matches Ok(quote) ==> {
            let lines = written(lines_of(csv));
            lines.len() > 1 && price_in(cell_of(split_of(lines[0], ','), split_of(lines[1], ','), "Close"@))
                == Some(quote.price)
        },
        yahoo_quote(symbol, meta, now) matches Ok(quote) ==> meta is Some
            && meta->Some_0.regular_market_price == Some(quote.price),
{
}

/// How Stooq spells a symbol: its own names for the big indices, and a suffix for what is neither an index nor names its
/// market.
pub proof fn law_how_stooq_spells_a_symbol(symbol: Seq<char>)
    ensures
        symbol == "^IXIC"@ || symbol == "^NDQ"@ ==> stooq_spelling(symbol) == "^ndq"@,
        symbol == "^GSPC"@ || symbol == "^SPX"@ ==> stooq_spelling(symbol) == "^spx"@,
        symbol == "^DJI"@ ==> stooq_spelling(symbol) == "^dji"@,
        symbol.len() > 0 && symbol[0] != '^' && (lowered(symbol).contains('.') || lowered(symbol).contains('='))
            ==> stooq_spelling(symbol) == lowered(symbol),
        symbol.len() > 0 && symbol[0] != '^' && !lowered(symbol).contains('.') && !lowered(symbol).contains('=')
            ==> stooq_spelling(symbol) == lowered(symbol) + ".us"@,
        symbol.len() > 0 && symbol[0] == '^' && symbol != "^IXIC"@ && symbol != "^NDQ"@ && symbol != "^GSPC"@
            && symbol != "^SPX"@ && symbol != "^DJI"@ ==> stooq_spelling(symbol) == lowered(symbol),
{
    reveal_strlit("^IXIC");
    reveal_strlit("^NDQ");
    reveal_strlit("^GSPC");
    reveal_strlit("^SPX");
    reveal_strlit("^DJI");
    assert("^IXIC"@[0] == '^' && "^NDQ"@[0] == '^' && "^GSPC"@[0] == '^' && "^SPX"@[0] == '^' && "^DJI"@[0]
        == '^');
    assert("^IXIC"@.len() == 5 && "^GSPC"@.len() == 5 && "^NDQ"@.len() == 4 && "^SPX"@.len() == 4 && "^DJI"@.len()
        == 4);
    assert("^IXIC"@[1] != "^GSPC"@[1]);
    assert("^NDQ"@[1] != "^SPX"@[1] && "^NDQ"@[1] != "^DJI"@[1] && "^SPX"@[1] != "^DJI"@[1]);
    let lower = lowered(symbol);
    if symbol.len() > 0 {
        assert(lower[0] == crate::text::lower(symbol[0]));
        assert(lower[0] == '^' <==> symbol[0] == '^');
    }
}

/// A table is read line by line: what stands before a line feed is a line, without a carriage return at its end.
pub proof fn law_a_line_ends_at_a_line_feed(line: Seq<char>, rest: Seq<char>)
    requires
        !line.contains('\n'),
    ensures
        lines_of(line + seq!['\n'] + rest) == seq![
            if line.len() > 0 && line.last() == '\r' {
                line.drop_last()
            } else {
                line
            },
        ] + lines_of(rest),
        line.len() > 0 ==> lines_of(line) == seq![line],
        lines_of(seq![]).len() == 0,
{
    let text = line + seq!['\n'] + rest;
    let at = line.len() as int;
    lemma_find(text, '\n');
    lemma_find(line, '\n');
    assert(text[at] == '\n');
    assert forall|k: int| 0 <= k < at implies text[k] != '\n' by {
        assert(text[k] == line[k]);
        assert(line.contains(line[k]));
    }
    assert(find_of(text, '\n') == Some(at));
    assert(text.take(at) =~= line);
    assert(text.skip(at + 1) =~= rest);
    let pieces = split_of(text, '\n');
    let after = split_of(rest, '\n');
    assert(pieces == seq![line] + after);
    lemma_split_is_not_empty(rest, '\n');
    assert(pieces.last() == after.last());
    assert(pieces.drop_last() =~= seq![line] + after.drop_last());
    let ended = pieces.drop_last().map_values(|piece: Seq<char>| line_of(piece));
    let later = after.drop_last().map_values(|piece: Seq<char>| line_of(piece));
    assert(ended =~= seq![line_of(line)] + later);
    assert(lines_of(text) =~= seq![line_of(line)] + lines_of(rest));
    if find_of(line, '\n') is Some {
        assert(line.contains(line[find_of(line, '\n')->Some_0]));
    }
    assert(split_of(line, '\n') =~= seq![line]);
    assert(seq![line].drop_last() =~= seq![]);
    if line.len() > 0 {
        assert(lines_of(line) =~= seq![line]);
    }
    let none = Seq::<char>::empty();
    lemma_find(none, '\n');
    assert(split_of(none, '\n') =~= seq![none]);
    assert(seq![none].drop_last() =~= seq![]);
    assert(lines_of(none) =~= seq![]);
}

/// Only the lines that hold more than white space count, in their order.
pub proof fn law_only_written_lines_count(lines: Seq<Seq<char>>, line: Seq<char>)
    ensures
        trimmed(line).len() > 0 ==> written(lines.push(line)) == written(lines).push(line),
        trimmed(line).len() == 0 ==> written(lines.push(line)) == written(lines),
        written(seq![]).len() == 0,
{
    assert(lines.push(line).drop_last() =~= lines);
}

proof fn lemma_column(columns: Seq<Seq<char>>, name: Seq<char>)
    ensures
        column_of(columns, name) matches Some(i) ==> 0 <= i < columns.len() && lowered(trimmed(columns[i]))
            == lowered(name) && forall|k: int|
            0 <= k < i ==> lowered(trimmed(#[trigger] columns[k])) != lowered(name),
        column_of(columns, name) is None ==> forall|k: int|
            0 <= k < columns.len() ==> lowered(trimmed(#[trigger] columns[k])) != lowered(name),
    decreases columns.len(),
{
    if columns.len() > 0 && lowered(trimmed(columns[0])) != lowered(name) {
        let rest = columns.drop_first();
        lemma_column(rest, name);
        assert(forall|k: int| 0 <= k < rest.len() ==> #[trigger] rest[k] == columns[k + 1]);
        match column_of(rest, name) {
            Some(i) => {
                assert(columns[i + 1] == rest[i]);
                assert forall|k: int| 0 <= k < i + 1 implies lowered(trimmed(#[trigger] columns[k])) != lowered(
                    name,
                ) by {
                    if k > 0 {
                        assert(columns[k] == rest[k - 1]);
                    }
                }
            },
            None => {
                assert forall|k: int| 0 <= k < columns.len() implies lowered(trimmed(#[trigger] columns[k]))
                    != lowered(name) by {
                    if k > 0 {
                        assert(columns[k] == rest[k - 1]);
                    }
                }
            },
        }
    }
}

/// A cell is found by the first column of its name, in any case and with white space around it, at that column's own
/// place in the row.
pub proof fn law_a_cell_stands_under_its_column(
    columns: Seq<Seq<char>>,
    cells: Seq<Seq<char>>,
    name: Seq<char>,
    i: int,
)
    requires
        0 <= i < columns.len(),
        lowered(trimmed(columns[i])) == lowered(name),
        forall|k: int| 0 <= k < i ==> lowered(trimmed(#[trigger] columns[k])) != lowered(name),
    ensures
        i < cells.len() ==> cell_of(columns, cells, name) == Some(trimmed(cells[i])),
        i >= cells.len() ==> cell_of(columns, cells, name) is None,
{
    lemma_column(columns, name);
    match column_of(columns, name) {
        Some(k) => {
            if k < i {
                assert(lowered(trimmed(columns[k])) != lowered(name));
            } else if i < k {
                assert(lowered(trimmed(columns[i])) != lowered(name));
            }
        },
        None => {
            assert(lowered(trimmed(columns[i])) != lowered(name));
        },
    }
}

/// A row of the table is its closing price and when it was the last: the date and the time, with a space between.
pub proof fn law_a_row_is_its_close_and_its_time(header: Seq<char>, row: Seq<char>)
    ensures
        ({
            let columns = split_of(header, ',');
            let cells = split_of(row, ',');
            let close = cell_of(columns, cells, "Close"@);
            let date = cell_of(columns, cells, "Date"@);
            let time = cell_of(columns, cells, "Time"@);
            &&& row_of(header, row) is Ok <==> (close matches Some(text) && double_in(text) is Some)
            &&& row_of(header, row) matches Ok(read) ==> (close matches Some(text) && double_in(text) == Some(
                read.close,
            ))
            &&& row_of(header, row) matches Ok(read) ==> (date matches Some(day) ==> (time matches Some(
                hour,
            ) ==> read.as_of == trimmed(day + " "@ + hour)))
            &&& row_of(header, row) matches Err(message) ==> message == "no usable Close in "@ + quoted(row)
        }),
{
}

/// A quote of Stooq's is about the symbol asked for, at the price and the time of the table's first row under its header.
pub proof fn law_a_quote_of_stooqs_is_its_first_row(symbol: Seq<char>, csv: Seq<char>)
    ensures
        ({
            let lines = written(lines_of(csv));
            &&& lines.len() < 2 ==> stooq_quote(symbol, csv) is Err
            &&& lines.len() >= 2 ==> (row_of(lines[0], lines[1]) matches Ok(row) ==> (stooq_quote(
                symbol,
                csv,
            ) matches Ok(quote) && quote.symbol == symbol && quote.price == row.close && quote.as_of == row.as_of
                && quote.source == "stooq"@ && quote.name is None && quote.previous_close is None
                && quote.currency is None))
            &&& lines.len() >= 2 ==> (row_of(lines[0], lines[1]) matches Err(message) ==> stooq_quote(
                symbol,
                csv,
            ) == Err::<QuoteView, Seq<char>>(message))
        }),
{
}

/// A quote of Yahoo's says what Yahoo says, each part in its own field: its short name before its long one, its previous
/// close before that of the chart, and what was asked where it says nothing.
pub proof fn law_a_quote_of_yahoos_says_what_yahoo_says(symbol: Seq<char>, meta: ChartMetaView, now: Seq<char>)
    ensures
        yahoo_quote(symbol, Some(meta), now) is Ok <==> meta.regular_market_price is Some,
        yahoo_quote(symbol, None, now) is Err,
        yahoo_quote(symbol, Some(meta), now) matches Ok(quote) ==> {
            &&& meta.regular_market_price == Some(quote.price)
            &&& meta.symbol matches Some(own) ==> quote.symbol == own
            &&& meta.symbol is None ==> quote.symbol == symbol
            &&& meta.short_name is Some ==> quote.name == meta.short_name
            &&& meta.short_name is None ==> quote.name == meta.long_name
            &&& meta.previous_close is Some ==> quote.previous_close == meta.previous_close
            &&& meta.previous_close is None ==> quote.previous_close == meta.chart_previous_close
            &&& quote.currency == meta.currency
            &&& meta.regular_market_time is None ==> quote.as_of == now
            &&& meta.regular_market_time matches Some(seconds) ==> (instant_text(seconds) matches Some(text)
                ==> quote.as_of == text)
            &&& meta.regular_market_time matches Some(seconds) ==> (instant_text(seconds) is None ==> quote.as_of
                == dec_signed(seconds as int))
            &&& quote.source == "yahoo"@
        },
{
}

/// A change is measured against the previous close, and against none where there is none or it is zero.
pub proof fn law_a_change_is_measured_against_the_previous_close(bits: u64)
    ensures
        measured_against(None) is None,
        bits == 0 || bits == 0x8000_0000_0000_0000 ==> measured_against(Some(bits)) is None,
        bits != 0 && bits != 0x8000_0000_0000_0000 ==> measured_against(Some(bits)) == Some(bits),
{
}

/// The view of a quote shows each of its parts under that part's own name.
pub proof fn law_the_view_of_a_quote_is_its_own(quote: Quote)
    ensures
        quote.deep_view().symbol == quote.symbol@,
        quote.deep_view().name == quote.name.deep_view(),
        quote.deep_view().price == quote.price,
        quote.deep_view().previous_close == quote.previous_close,
        quote.deep_view().currency == quote.currency.deep_view(),
        quote.deep_view().as_of == quote.as_of@,
        quote.deep_view().source == quote.source@,
{
}

/// The view of a chart shows each of its parts under that part's own name.
pub proof fn law_the_view_of_a_chart_meta_is_its_own(chart_meta: ChartMeta)
    ensures
        chart_meta.deep_view().symbol == chart_meta.symbol.deep_view(),
        chart_meta.deep_view().short_name == chart_meta.short_name.deep_view(),
        chart_meta.deep_view().long_name == chart_meta.long_name.deep_view(),
        chart_meta.deep_view().currency == chart_meta.currency.deep_view(),
        chart_meta.deep_view().regular_market_price == chart_meta.regular_market_price,
        chart_meta.deep_view().previous_close == chart_meta.previous_close,
        chart_meta.deep_view().chart_previous_close == chart_meta.chart_previous_close,
        chart_meta.deep_view().regular_market_time == chart_meta.regular_market_time,
{
}

/// What is told of a table or a chart that holds no price.
pub proof fn law_what_is_told_where_there_is_no_price(
    symbol: Seq<char>,
    csv: Seq<char>,
    meta: ChartMetaView,
    now: Seq<char>,
)
    ensures
        written(lines_of(csv)).len() == 0 ==> stooq_quote(symbol, csv) == Err::<QuoteView, Seq<char>>("empty CSV"@),
        written(lines_of(csv)).len() == 1 ==> stooq_quote(symbol, csv) == Err::<QuoteView, Seq<char>>(
            "CSV had no data row"@,
        ),
        yahoo_quote(symbol, None, now) == Err::<QuoteView, Seq<char>>("no chart data for "@ + symbol),
        meta.regular_market_price is None ==> yahoo_quote(symbol, Some(meta), now) == Err::<QuoteView, Seq<char>>(
            "no regularMarketPrice for "@ + symbol,
        ),
{
}

} // verus!
