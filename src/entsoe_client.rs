use crate::interval::{end_of, get_end, resolution_of, Resolution};
use crate::types::{
    energy_tax, energy_tax_price, per_kwh, sourcing_markup, sourcing_markup_price, tax_per_kwh,
    Amount, ExportError, SpotPrice, SpotPriceData, SpotPriceResponse, MANTISSA_LIMIT, MAX_SCALE,
};
use vstd::prelude::*;

verus! {

#[derive(Debug)]
pub struct TimeInterval {
    /// Seconds since the epoch, UTC.
    pub start: i64,
}

#[derive(Debug)]
pub struct DayAheadPricesPoint {
    pub price_amount: Amount,
}

#[derive(Debug)]
pub struct DayAheadPricesPeriod {
    pub time_interval: TimeInterval,
    pub resolution: String,
    pub points: Vec<DayAheadPricesPoint>,
}

#[derive(Debug)]
pub struct DayAheadPricesTimeSeries {
    pub period: DayAheadPricesPeriod,
}

/// A provider document: its series, in document order.
#[derive(Debug)]
pub struct EntsoeDayAheadPrices {
    pub time_series: Vec<DayAheadPricesTimeSeries>,
}

/// The decimal `(mantissa, scale)` that a text denotes, or `None`.
pub uninterp spec fn decimal_of(s: Seq<char>) -> Option<(int, int)>;

/// Relies on rust_decimal's `Decimal::from_str`, `Decimal::mantissa` and
/// `Decimal::scale`: a decimal has a 96-bit mantissa and a scale of at most 28.
#[verifier::external_body]
fn decimal_from_str(s: &str) -> (r: Option<(i128, u32)>)
    ensures
        r is None <==> decimal_of(s@) is None,
        r matches Some((m, sc)) ==> decimal_of(s@) == Some((m as int, sc as int))
            && -MANTISSA_LIMIT < m < MANTISSA_LIMIT && sc <= MAX_SCALE,
{
    match <rust_decimal::Decimal as core::str::FromStr>::from_str(s) {
        Ok(d) => Some((d.mantissa(), d.scale())),
        Err(_) => None,
    }
}

/// Relies on uuid's `Uuid::new_v4` and its `Display`, which writes the
/// hyphenated form: a fresh random identifier of 36 characters.
#[verifier::external_body]
fn new_id() -> (r: String)
    ensures
        r@.len() == 36,
{
    uuid::Uuid::new_v4().to_string()
}

/// Reads a price amount written as a decimal text.
pub fn parse_price_amount(s: &str) -> (r: Result<Amount, ExportError>)
    ensures
        r is Ok <==> decimal_of(s@) is Some,
        r matches Ok(a) ==> decimal_of(s@) == Some((a.spec_mantissa(), a.spec_scale() as int)),
        r matches Err(e) ==> e matches ExportError::ParseFailed { input } && input@ == s@,
{
    match decimal_from_str(s) {
        Some((m, sc)) => match Amount::new(m, sc) {
            Some(a) => Ok(a),
            None => Err(ExportError::ParseFailed { input: s.to_owned() }),
        },
        None => Err(ExportError::ParseFailed { input: s.to_owned() }),
    }
}

/// The source label of every interval.
pub open spec fn source_label() -> Seq<char> {
    "entso-e"@
}

/// The intervals `(from, till, amount)` of the first `n` points of a period
/// that starts at `c0`, each starting where the one before ends, with the
/// instant where the last one ends; `None` where an end is out of range.
pub open spec fn walk(c0: int, r: Resolution, pts: Seq<DayAheadPricesPoint>, n: nat) -> Option<
    (Seq<(int, int, Amount)>, int),
>
    decreases n,
{
    if n == 0 {
        Some((Seq::empty(), c0))
    } else {
        match walk(c0, r, pts, (n - 1) as nat) {
            None => None,
            Some((sp, c)) => match end_of(c, r) {
                None => None,
                Some(e) => Some((sp.push((c, e, pts[n - 1].price_amount)), e)),
            },
        }
    }
}

/// A series names a resolution that is not recognized, and has a point that needs it.
pub open spec fn unknown_resolution(s: DayAheadPricesTimeSeries) -> bool {
    s.period.points@.len() > 0 && resolution_of(s.period.resolution@) is None
}

/// The intervals of one series, or `None` where it cannot be normalized.
pub open spec fn series_spans(s: DayAheadPricesTimeSeries) -> Option<Seq<(int, int, Amount)>> {
    let pts = s.period.points@;
    if pts.len() == 0 {
        Some(Seq::empty())
    } else {
        match resolution_of(s.period.resolution@) {
            None => None,
            Some(r) => match walk(s.period.time_interval.start as int, r, pts, pts.len()) {
                None => None,
                Some((sp, _)) => Some(sp),
            },
        }
    }
}

/// The intervals of a sequence of series, concatenated in order.
pub open spec fn doc_spans(ss: Seq<DayAheadPricesTimeSeries>) -> Option<Seq<(int, int, Amount)>>
    decreases ss.len(),
{
    if ss.len() == 0 {
        Some(Seq::empty())
    } else {
        match doc_spans(ss.drop_last()) {
            None => None,
            Some(a) => match series_spans(ss.last()) {
                None => None,
                Some(b) => Some(a + b),
            },
        }
    }
}

/// The first series that cannot be normalized fails for an unknown resolution.
pub open spec fn fails_on_unknown(ss: Seq<DayAheadPricesTimeSeries>) -> bool
    decreases ss.len(),
{
    if ss.len() == 0 {
        false
    } else if doc_spans(ss.drop_last()) is None {
        fails_on_unknown(ss.drop_last())
    } else {
        unknown_resolution(ss.last())
    }
}

/// A priced interval carries the span and the prices derived from its amount.
pub open spec fn priced(p: SpotPrice, m: (int, int, Amount)) -> bool {
    &&& p.from == m.0
    &&& p.till == m.1
    &&& p.market_price == per_kwh(m.2)
    &&& p.market_price_tax == tax_per_kwh(m.2)
    &&& p.sourcing_markup_price == sourcing_markup()
    &&& p.energy_tax_price == energy_tax()
    &&& p.source matches Some(s) && s@ == source_label()
    &&& p.id matches Some(i) && i@.len() == 36
}

pub open spec fn priced_all(v: Seq<SpotPrice>, m: Seq<(int, int, Amount)>) -> bool {
    &&& v.len() == m.len()
    &&& forall|k: int| 0 <= k < v.len() ==> #[trigger] priced(v[k], m[k])
}

proof fn lemma_walk_none_grows(c0: int, r: Resolution, pts: Seq<DayAheadPricesPoint>, n: nat, m: nat)
    requires
        n <= m,
        walk(c0, r, pts, n) is None,
    ensures
        walk(c0, r, pts, m) is None,
    decreases m - n,
{
    if n < m {
        lemma_walk_none_grows(c0, r, pts, n, (m - 1) as nat);
    }
}

proof fn lemma_doc_none_grows(ss: Seq<DayAheadPricesTimeSeries>, k: int)
    requires
        0 <= k <= ss.len(),
        doc_spans(ss.take(k)) is None,
    ensures
        doc_spans(ss) is None,
        fails_on_unknown(ss) == fails_on_unknown(ss.take(k)),
    decreases ss.len() - k,
{
    if k == ss.len() {
        assert(ss.take(k) =~= ss);
    } else {
        let d = ss.drop_last();
        assert(d.take(k) =~= ss.take(k));
        lemma_doc_none_grows(d, k);
    }
}

/// Normalizes a document's series into priced intervals: each point of a
/// period gets the interval that starts where the one before it ended.
pub fn day_ahead_to_spot_prices(day_ahead_prices: &Vec<DayAheadPricesTimeSeries>) -> (r: Result<
    Vec<SpotPrice>,
    ExportError,
>)
    ensures
        r is Ok <==> doc_spans(day_ahead_prices@) is Some,
        day_ahead_prices@.len() == 0 ==> (r matches Ok(v) && v@.len() == 0),
        r matches Ok(v) ==> priced_all(v@, doc_spans(day_ahead_prices@)->Some_0),
        r matches Err(e) ==> (e is UnknownResolution <==> fails_on_unknown(day_ahead_prices@)),
        r matches Err(e) ==> (e is UnknownResolution || e is OutOfRange),
{
    let ghost ss = day_ahead_prices@;
    let mut prices: Vec<SpotPrice> = Vec::new();
    let mut i: usize = 0;
    assert(ss.take(0) =~= Seq::<DayAheadPricesTimeSeries>::empty());
    while i < day_ahead_prices.len()
        invariant
            ss == day_ahead_prices@,
            0 <= i <= ss.len(),
            doc_spans(ss.take(i as int)) is Some,
            priced_all(prices@, doc_spans(ss.take(i as int))->Some_0),
        decreases ss.len() - i,
    {
        let series = &day_ahead_prices[i];
        let ghost before = doc_spans(ss.take(i as int))->Some_0;
        let ghost pts = series.period.points@;
        let ghost res = resolution_of(series.period.resolution@);
        let ghost c0 = series.period.time_interval.start as int;
        let ghost mut local: Seq<(int, int, Amount)> = Seq::empty();
        assert(ss.take(i + 1).drop_last() =~= ss.take(i as int));
        assert(ss.take(i + 1).last() == ss[i as int]);
        let mut start: i64 = series.period.time_interval.start;
        let mut j: usize = 0;
        while j < series.period.points.len()
            invariant
                ss == day_ahead_prices@,
                0 <= i < ss.len(),
                series == ss[i as int],
                pts == series.period.points@,
                res == resolution_of(series.period.resolution@),
                c0 == series.period.time_interval.start as int,
                0 <= j <= pts.len(),
                j > 0 ==> res is Some,
                j == 0 ==> start == c0 && local.len() == 0,
                res is Some ==> walk(c0, res->Some_0, pts, j as nat) == Some((local, start as int)),
                doc_spans(ss.take(i as int)) == Some(before),
                ss.take(i + 1).drop_last() == ss.take(i as int),
                ss.take(i + 1).last() == ss[i as int],
                priced_all(prices@, before + local),
            decreases pts.len() - j,
        {
            let end = match get_end(start, &series.period.resolution) {
                Ok(e) => e,
                Err(e) => {
                    proof {
                        if res is Some {
                            lemma_walk_none_grows(c0, res->Some_0, pts, (j + 1) as nat, pts.len());
                        }
                        lemma_doc_none_grows(ss, i + 1);
                    }
                    return Err(e);
                },
            };
            let point = &series.period.points[j];
            let price = SpotPrice {
                id: Some(new_id()),
                source: Some("entso-e".to_owned()),
                from: start,
                till: end,
                market_price: point.price_amount.per_kwh(),
                market_price_tax: point.price_amount.tax_per_kwh(),
                sourcing_markup_price: sourcing_markup_price(),
                energy_tax_price: energy_tax_price(),
            };
            let ghost old_local = local;
            proof {
                local = local.push((start as int, end as int, point.price_amount));
                assert(priced(price, (start as int, end as int, point.price_amount)));
            }
            let ghost prev = prices@;
            prices.push(price);
            proof {
                assert(before + local =~= (before + local.drop_last()).push(
                    (start as int, end as int, point.price_amount),
                ));
                assert forall|k: int| 0 <= k < prices@.len() implies #[trigger] priced(
                    prices@[k],
                    (before + local)[k],
                ) by {
                    if k < prices@.len() - 1 {
                        assert(prices@[k] == prev[k]);
                        assert((before + local)[k] == (before + old_local)[k]);
                        assert(priced(prev[k], (before + old_local)[k]));
                    } else {
                        assert(prices@[k] == price);
                        assert((before + local)[k] == (start as int, end as int, point.price_amount));
                    }
                }
            }
            start = end;
            j = j + 1;
        }
        proof {
            if pts.len() > 0 {
                assert(series_spans(ss[i as int]) == Some(local));
            } else {
                assert(series_spans(ss[i as int]) == Some(Seq::<(int, int, Amount)>::empty()));
            }
            assert(doc_spans(ss.take(i + 1)) == Some(before + local));
        }
        i = i + 1;
    }
    assert(ss.take(ss.len() as int) =~= ss);
    Ok(prices)
}

/// The response that a fetched document gives: its intervals, normalized.
pub fn to_spot_price_response(doc: &EntsoeDayAheadPrices) -> (r: Result<SpotPriceResponse, ExportError>)
    ensures
        r is Ok <==> doc_spans(doc.time_series@) is Some,
        r matches Ok(resp) ==> priced_all(
            resp.data.market_prices_electricity@,
            doc_spans(doc.time_series@)->Some_0,
        ),
        r matches Err(e) ==> (e is UnknownResolution <==> fails_on_unknown(doc.time_series@)),
        r matches Err(e) ==> (e is UnknownResolution || e is OutOfRange),
{
    match day_ahead_to_spot_prices(&doc.time_series) {
        Ok(prices) => Ok(SpotPriceResponse { data: SpotPriceData { market_prices_electricity: prices } }),
        Err(e) => Err(e),
    }
}

/// Walking a period over `n` points gives `n` intervals, the first starting
/// at the period's start, each starting exactly where the one before it ends:
/// no gaps and no overlaps.
pub proof fn lemma_walk_contiguous(c0: int, r: Resolution, pts: Seq<DayAheadPricesPoint>, n: nat)
    requires
        walk(c0, r, pts, n) is Some,
    ensures
        ({
            let (sp, c) = walk(c0, r, pts, n)->Some_0;
            &&& sp.len() == n
            &&& n > 0 ==> sp[0].0 == c0 && sp[n - 1].1 == c
            &&& forall|k: int| 0 <= k < n ==> end_of(#[trigger] sp[k].0, r) == Some(sp[k].1)
            &&& forall|k: int| 0 <= k < n - 1 ==> #[trigger] sp[k].1 == sp[k + 1].0
        }),
    decreases n,
{
    if n > 0 {
        lemma_walk_contiguous(c0, r, pts, (n - 1) as nat);
        let (prev, _) = walk(c0, r, pts, (n - 1) as nat)->Some_0;
        let (sp, _) = walk(c0, r, pts, n)->Some_0;
        assert forall|k: int| 0 <= k < n - 1 implies #[trigger] sp[k].1 == sp[k + 1].0 by {
            assert(sp[k] == prev[k]);
            if k < n - 2 {
                assert(sp[k + 1] == prev[k + 1]);
            }
        }
        assert forall|k: int| 0 <= k < n implies end_of(#[trigger] sp[k].0, r) == Some(sp[k].1) by {
            if k < n - 1 {
                assert(sp[k] == prev[k]);
            }
        }
    }
}

/// A document whose series before position `i` normalize, and whose series
/// at `i` has points but an unrecognized resolution, fails as a whole, for
/// that unknown resolution.
pub proof fn lemma_unknown_resolution_fails(ss: Seq<DayAheadPricesTimeSeries>, i: int)
    requires
        0 <= i < ss.len(),
        doc_spans(ss.take(i)) is Some,
        unknown_resolution(ss[i]),
    ensures
        doc_spans(ss) is None,
        fails_on_unknown(ss),
{
    assert(ss.take(i + 1).drop_last() =~= ss.take(i));
    assert(ss.take(i + 1).last() == ss[i]);
    lemma_doc_none_grows(ss, i + 1);
}

} // verus!
