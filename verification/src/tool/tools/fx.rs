//! A current exchange rate, from two public services asked at once.

use vstd::prelude::*;

use crate::text::{
    ascii_uppercase, byte_len, cat2, cat3, cat5, chars_of, quote, quoted, same, trim, trimmed, uppered, utf8_len,
};
use crate::collect::outcome;
use crate::tool::tools::upstream::{or_text, text_or};

verus! {

pub const FRANKFURTER_BASE: &'static str = "https://api.frankfurter.app";

pub const ER_API_BASE: &'static str = "https://open.er-api.com/v6";

/// A rate between two currencies. The rate is the bits of a double.
#[derive(Debug, PartialEq, Eq)]
pub struct FxRate {
    pub base: String,
    pub quote: String,
    pub rate: u64,
    pub date: String,
    pub source: String,
}

#[verifier::ext_equal]
pub struct FxRateView {
    pub base: Seq<char>,
    pub quote: Seq<char>,
    pub rate: u64,
    pub date: Seq<char>,
    pub source: Seq<char>,
}

impl DeepView for FxRate {
    type V = FxRateView;

    open spec fn deep_view(&self) -> FxRateView {
        FxRateView {
            base: self.base@,
            quote: self.quote@,
            rate: self.rate,
            date: self.date@,
            source: self.source@,
        }
    }
}

pub open spec fn all_capitals(text: Seq<char>) -> bool {
    forall|i: int| 0 <= i < text.len() ==> 'A' <= #[trigger] text[i] <= 'Z'
}

/// A currency code: three ASCII letters, in upper case.
pub open spec fn is_code(text: Seq<char>) -> bool {
    utf8_len(text) == 3 && all_capitals(text)
}

/// A currency code as the caller may write it, with white space around it and in any case.
pub open spec fn code_of(raw: Seq<char>) -> Result<Seq<char>, Seq<char>> {
    let code = uppered(trimmed(raw));
    if is_code(code) {
        Ok(code)
    } else {
        Err(quoted(raw) + " is not a three-letter currency code like USD or EUR"@)
    }
}

pub fn normalise_code(raw: &str) -> (code: Result<String, String>)
    ensures
        (match code {
            Ok(code) => code_of(raw@) == Ok::<Seq<char>, Seq<char>>(code@),
            Err(message) => code_of(raw@) == Err::<Seq<char>, Seq<char>>(message@),
        }),
{
    let code: String = ascii_uppercase(trim(raw).as_str());
    let chars: Vec<char> = chars_of(code.as_str());
    let mut fits: bool = byte_len(code.as_str()) == 3;
    for i in 0..chars.len()
        invariant
            chars@ == code@,
            fits == (utf8_len(code@) == 3 && forall|k: int|
                0 <= k < i ==> 'A' <= #[trigger] code@[k] <= 'Z'),
    {
        if !(chars[i] >= 'A' && chars[i] <= 'Z') {
            fits = false;
        }
    }
    if fits {
        Ok(code)
    } else {
        Err(cat2(quote(raw).as_str(), " is not a three-letter currency code like USD or EUR"))
    }
}

/// Both codes of a request, the base's fault first.
pub open spec fn pair_of(base: Seq<char>, quote: Seq<char>) -> Result<(Seq<char>, Seq<char>), Seq<char>> {
    match code_of(base) {
        Err(message) => Err(message),
        Ok(base) => match code_of(quote) {
            Err(message) => Err(message),
            Ok(quote) => Ok((base, quote)),
        },
    }
}

pub fn codes(base: &str, quote: &str) -> (pair: Result<(String, String), String>)
    ensures
        (match pair {
            Ok((one, other)) => pair_of(base@, quote@) == Ok::<(Seq<char>, Seq<char>), Seq<char>>((one@, other@)),
            Err(message) => pair_of(base@, quote@) == Err::<(Seq<char>, Seq<char>), Seq<char>>(message@),
        }),
{
    let base: String = normalise_code(base)?;
    let quote: String = normalise_code(quote)?;
    Ok((base, quote))
}

pub fn frankfurter_url(base: &str, quote: &str) -> (url: String)
    ensures
        url@ == FRANKFURTER_BASE@ + "/latest?from="@ + base@ + "&to="@ + quote@,
{
    cat5(FRANKFURTER_BASE, "/latest?from=", base, "&to=", quote)
}

pub fn er_api_url(base: &str) -> (url: String)
    ensures
        url@ == ER_API_BASE@ + "/latest/"@ + base@,
{
    cat3(ER_API_BASE, "/latest/", base)
}

/// What Frankfurter replies: rates by currency code, as the bits of doubles.
#[derive(Debug)]
pub struct LatestResponse {
    pub date: Option<String>,
    pub rates: Option<Vec<(String, u64)>>,
}

/// What open.er-api.com replies.
#[derive(Debug)]
pub struct ErApiResponse {
    pub result: Option<String>,
    pub time_last_update_utc: Option<String>,
    pub rates: Option<Vec<(String, u64)>>,
}

/// The rate under a currency code.
pub open spec fn rate_in(rates: Seq<(Seq<char>, u64)>, code: Seq<char>) -> Option<u64>
    decreases rates.len(),
{
    if rates.len() == 0 {
        None
    } else if rates[0].0 == code {
        Some(rates[0].1)
    } else {
        rate_in(rates.drop_first(), code)
    }
}

pub open spec fn rate_of(rates: Option<Seq<(Seq<char>, u64)>>, quote: Seq<char>, who: Seq<char>) -> Result<
    u64,
    Seq<char>,
> {
    let found = match rates {
        Some(rates) => rate_in(rates, quote),
        None => None,
    };
    match found {
        Some(rate) => Ok(rate),
        None => Err(who + " did not quote "@ + quote),
    }
}

/// The rate a reply quotes. A service that does not quote the currency has failed: it is never read as zero.
pub fn pick_rate(rates: &Option<Vec<(String, u64)>>, quote: &str, who: &str) -> (rate: Result<u64, String>)
    ensures
        (match rate {
            Ok(rate) => rate_of(rates.deep_view(), quote@, who@) == Ok::<u64, Seq<char>>(rate),
            Err(message) => rate_of(rates.deep_view(), quote@, who@) == Err::<u64, Seq<char>>(message@),
        }),
{
    if let Some(held) = rates {
        let ghost views = held.deep_view();
        assert(views.skip(0) =~= views);
        for i in 0..held.len()
            invariant
                views == held.deep_view(),
                rates.deep_view() == Some(views),
                rate_in(views.skip(i as int), quote@) == rate_in(views, quote@),
        {
            assert(views.skip(i as int).drop_first() =~= views.skip(i as int + 1));
            assert(views[i as int] == (held@[i as int].0@, held@[i as int].1));
            if same(held[i].0.as_str(), quote) {
                return Ok(held[i].1);
            }
        }
    }
    Err(cat3(who, " did not quote ", quote))
}

/// A rate as one service gave it.
pub open spec fn quoted_by(
    source: Seq<char>,
    base: Seq<char>,
    quote: Seq<char>,
    rates: Option<Seq<(Seq<char>, u64)>>,
    date: Option<Seq<char>>,
    today: Seq<char>,
) -> Result<FxRateView, Seq<char>> {
    match rate_of(rates, quote, source) {
        Ok(rate) => Ok(FxRateView { base, quote, rate, date: or_text(date, today), source }),
        Err(message) => Err(message),
    }
}

fn rate_from(
    source: &str,
    base: &str,
    quote: &str,
    rates: &Option<Vec<(String, u64)>>,
    date: Option<String>,
    today: &str,
) -> (rate: Result<FxRate, String>)
    ensures
        outcome(rate) == quoted_by(
            source@,
            base@,
            quote@,
            rates.deep_view(),
            date.deep_view(),
            today@,
        ),
{
    let rate: u64 = pick_rate(rates, quote, source)?;
    Ok(
        FxRate {
            base: base.to_owned(),
            quote: quote.to_owned(),
            rate,
            date: text_or(date, today),
            source: source.to_owned(),
        },
    )
}

/// Frankfurter's reply as a rate, dated today where it carries no date.
pub fn from_frankfurter(body: LatestResponse, base: &str, quote: &str, today: &str) -> (rate: Result<
    FxRate,
    String,
>)
    ensures
        outcome(rate) == quoted_by(
            "frankfurter"@,
            base@,
            quote@,
            body.rates.deep_view(),
            body.date.deep_view(),
            today@,
        ),
{
    rate_from("frankfurter", base, quote, &body.rates, body.date, today)
}

pub open spec fn from_er_api_of(
    result: Option<Seq<char>>,
    base: Seq<char>,
    quote: Seq<char>,
    rates: Option<Seq<(Seq<char>, u64)>>,
    date: Option<Seq<char>>,
    today: Seq<char>,
) -> Result<FxRateView, Seq<char>> {
    match result {
        Some(result) if result != "success"@ => Err("returned result="@ + quoted(result)),
        _ => quoted_by("open.er-api.com"@, base, quote, rates, date, today),
    }
}

/// open.er-api.com's reply as a rate. A result it does not call a success is a failure.
pub fn from_er_api(body: ErApiResponse, base: &str, quote: &str, today: &str) -> (rate: Result<FxRate, String>)
    ensures
        outcome(rate) == from_er_api_of(
            body.result.deep_view(),
            base@,
            quote@,
            body.rates.deep_view(),
            body.time_last_update_utc.deep_view(),
            today@,
        ),
{
    if let Some(result) = &body.result {
        if !same(result.as_str(), "success") {
            return Err(cat2("returned result=", crate::text::quote(result.as_str()).as_str()));
        }
    }
    rate_from("open.er-api.com", base, quote, &body.rates, body.time_last_update_utc, today)
}

/// A code that is accepted is accepted again, unchanged.
pub proof fn law_a_code_is_normalised_once(raw: Seq<char>)
    requires
        code_of(raw) is Ok,
    ensures
        code_of(code_of(raw)->Ok_0) == Ok::<Seq<char>, Seq<char>>(code_of(raw)->Ok_0),
{
    let code = code_of(raw)->Ok_0;
    assert(code =~= uppered(trimmed(raw)));
    if code.len() > 0 {
        assert('A' <= code[0] <= 'Z');
        assert('A' <= code.last() <= 'Z');
    }
    assert(trimmed(code) == code);
    assert(uppered(code) =~= code) by {
        assert forall|i: int| 0 <= i < code.len() implies uppered(code)[i] == code[i] by {
            assert('A' <= code[i] <= 'Z');
        }
    }
}

/// A rate is never made up: it is one that the service's reply holds under the currency asked for.
pub proof fn law_a_rate_is_one_the_service_quoted(
    source: Seq<char>,
    base: Seq<char>,
    quote: Seq<char>,
    rates: Option<Seq<(Seq<char>, u64)>>,
    date: Option<Seq<char>>,
    today: Seq<char>,
)
    requires
        quoted_by(source, base, quote, rates, date, today) is Ok,
    ensures
        rates is Some,
        rates->Some_0.contains((quote, quoted_by(source, base, quote, rates, date, today)->Ok_0.rate)),
{
    lemma_rate_is_held(rates->Some_0, quote);
}

proof fn lemma_rate_is_held(rates: Seq<(Seq<char>, u64)>, code: Seq<char>)
    ensures
        rate_in(rates, code) matches Some(rate) ==> rates.contains((code, rate)),
    decreases rates.len(),
{
    if rates.len() > 0 {
        if rates[0].0 == code {
            assert(rates[0] == (code, rates[0].1));
        } else {
            lemma_rate_is_held(rates.drop_first(), code);
            if let Some(rate) = rate_in(rates, code) {
                let k = choose|k: int|
                    0 <= k < rates.drop_first().len() && rates.drop_first()[k] == (code, rate);
                assert(rates[k + 1] == (code, rate));
            }
        }
    }
}

/// A code that is accepted is the text itself, trimmed and in upper case: three letters.
pub proof fn law_a_code_is_three_capitals(raw: Seq<char>)
    ensures
        code_of(raw) matches Ok(code) ==> {
            &&& code == uppered(trimmed(raw))
            &&& utf8_len(code) == 3
            &&& forall|i: int| 0 <= i < code.len() ==> 'A' <= #[trigger] code[i] <= 'Z'
        },
        utf8_len(uppered(trimmed(raw))) == 3 && (forall|i: int|
            0 <= i < uppered(trimmed(raw)).len() ==> 'A' <= #[trigger] uppered(trimmed(raw))[i] <= 'Z')
            ==> code_of(raw) == Ok::<Seq<char>, Seq<char>>(uppered(trimmed(raw))),
        code_of(raw) matches Err(message) ==> message == quoted(raw)
            + " is not a three-letter currency code like USD or EUR"@,
{
}

/// Both codes keep their places, and the base's fault is told first.
pub proof fn law_both_codes_keep_their_places(base: Seq<char>, quote: Seq<char>)
    ensures
        pair_of(base, quote) matches Ok(pair) ==> code_of(base) == Ok::<Seq<char>, Seq<char>>(pair.0) && code_of(
            quote,
        ) == Ok::<Seq<char>, Seq<char>>(pair.1),
        pair_of(base, quote) is Ok <==> code_of(base) is Ok && code_of(quote) is Ok,
        code_of(base) matches Err(message) ==> pair_of(base, quote) == Err::<
            (Seq<char>, Seq<char>),
            Seq<char>,
        >(message),
        code_of(base) is Ok ==> (code_of(quote) matches Err(message) ==> pair_of(base, quote) == Err::<
            (Seq<char>, Seq<char>),
            Seq<char>,
        >(message)),
{
}

proof fn lemma_first_rate(rates: Seq<(Seq<char>, u64)>, code: Seq<char>, i: int)
    requires
        0 <= i < rates.len(),
        rates[i].0 == code,
        forall|k: int| 0 <= k < i ==> (#[trigger] rates[k]).0 != code,
    ensures
        rate_in(rates, code) == Some(rates[i].1),
    decreases i,
{
    if i > 0 {
        let rest = rates.drop_first();
        assert forall|k: int| 0 <= k < i - 1 implies (#[trigger] rest[k]).0 != code by {
            assert(rest[k] == rates[k + 1]);
        }
        lemma_first_rate(rest, code, i - 1);
    }
}

/// A rate that the service quotes is handed on: the first under the currency asked for, between the two currencies asked
/// about, with the service's own date, or today's where it gives none.
pub proof fn law_a_quoted_rate_is_handed_on(
    source: Seq<char>,
    base: Seq<char>,
    quote: Seq<char>,
    rates: Seq<(Seq<char>, u64)>,
    date: Option<Seq<char>>,
    today: Seq<char>,
    i: int,
)
    requires
        0 <= i < rates.len(),
        rates[i].0 == quote,
        forall|k: int| 0 <= k < i ==> (#[trigger] rates[k]).0 != quote,
    ensures
        quoted_by(source, base, quote, Some(rates), date, today) matches Ok(rate) && {
            &&& rate.rate == rates[i].1
            &&& rate.base == base
            &&& rate.quote == quote
            &&& rate.source == source
            &&& date matches Some(day) ==> rate.date == day
            &&& date is None ==> rate.date == today
        },
{
    lemma_first_rate(rates, quote, i);
}

/// A service that does not quote the currency, or says that it failed, gives no rate; one that says it succeeded, or
/// says nothing of it, is read.
pub proof fn law_a_service_that_failed_gives_no_rate(
    result: Option<Seq<char>>,
    base: Seq<char>,
    quote: Seq<char>,
    rates: Option<Seq<(Seq<char>, u64)>>,
    date: Option<Seq<char>>,
    today: Seq<char>,
)
    ensures
        result matches Some(said) ==> (said != "success"@ ==> from_er_api_of(
            result,
            base,
            quote,
            rates,
            date,
            today,
        ) == Err::<FxRateView, Seq<char>>("returned result="@ + quoted(said))),
        result is None || result == Some("success"@) ==> from_er_api_of(result, base, quote, rates, date, today)
            == quoted_by("open.er-api.com"@, base, quote, rates, date, today),
        rates is None ==> quoted_by("open.er-api.com"@, base, quote, rates, date, today) == Err::<
            FxRateView,
            Seq<char>,
        >("open.er-api.com"@ + " did not quote "@ + quote),
{
}

/// The view of a rate shows each of its parts under that part's own name.
pub proof fn law_the_view_of_a_fx_rate_is_its_own(fx_rate: FxRate)
    ensures
        fx_rate.deep_view().base == fx_rate.base@,
        fx_rate.deep_view().quote == fx_rate.quote@,
        fx_rate.deep_view().rate == fx_rate.rate,
        fx_rate.deep_view().date == fx_rate.date@,
        fx_rate.deep_view().source == fx_rate.source@,
{
}

} // verus!
