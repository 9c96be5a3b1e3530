use spot_price_exporter::entsoe_client::{
    day_ahead_to_spot_prices, parse_price_amount, DayAheadPricesPeriod, DayAheadPricesPoint,
    DayAheadPricesTimeSeries, EntsoeDayAheadPrices, TimeInterval,
};
use spot_price_exporter::interval::{get_end, parse_resolution, Resolution};
use spot_price_exporter::rfc3339_without_seconds::deserialize;
use spot_price_exporter::types::{ExportError, Price};

const JAN_1_2024: i64 = 1704067200;
const HOUR: i64 = 3600;

fn value(p: Price) -> f64 {
    p.mantissa as f64 / 10f64.powi(p.scale as i32)
}

fn series(start: &str, resolution: &str, amounts: &[&str]) -> DayAheadPricesTimeSeries {
    DayAheadPricesTimeSeries {
        period: DayAheadPricesPeriod {
            time_interval: TimeInterval { start: deserialize(start).unwrap() },
            resolution: resolution.to_string(),
            points: amounts
                .iter()
                .map(|a| DayAheadPricesPoint { price_amount: parse_price_amount(a).unwrap() })
                .collect(),
        },
    }
}

#[test]
fn fixed_resolutions_add_their_width() {
    assert_eq!(get_end(JAN_1_2024, "PT1M").ok(), Some(JAN_1_2024 + 60));
    assert_eq!(get_end(JAN_1_2024, "PT15M").ok(), Some(JAN_1_2024 + 900));
    assert_eq!(get_end(JAN_1_2024, "PT60M").ok(), Some(JAN_1_2024 + HOUR));
    assert_eq!(get_end(JAN_1_2024, "P1D").ok(), Some(JAN_1_2024 + 86400));
    assert_eq!(get_end(JAN_1_2024, "P7D").ok(), Some(JAN_1_2024 + 7 * 86400));
}

#[test]
fn month_resolution_is_calendar_aware() {
    let jan_31 = deserialize("2024-01-31T00:00Z").unwrap();
    let feb_29 = deserialize("2024-02-29T00:00Z").unwrap();
    assert_eq!(get_end(jan_31, "P1M").ok(), Some(feb_29));
    let feb_1 = deserialize("2024-02-01T00:00Z").unwrap();
    assert_eq!(get_end(JAN_1_2024, "P1M").ok(), Some(feb_1));
}

#[test]
fn year_resolution_counts_back_twelve_months() {
    let start = deserialize("2024-03-01T00:00Z").unwrap();
    let end = deserialize("2023-03-01T00:00Z").unwrap();
    assert_eq!(get_end(start, "P1Y").ok(), Some(end));
    assert_eq!(parse_resolution("P1Y"), Some(Resolution::OneYear));
}

#[test]
fn every_supported_resolution_moves_forward_but_the_year() {
    for code in ["PT1M", "PT15M", "PT60M", "P1D", "P7D", "P1M"] {
        let end = get_end(JAN_1_2024, code).ok().unwrap();
        assert!(end > JAN_1_2024, "{code}");
    }
}

#[test]
fn unknown_resolution_code_is_rejected() {
    match get_end(JAN_1_2024, "PT30M") {
        Err(ExportError::UnknownResolution { code }) => assert_eq!(code, "PT30M"),
        _ => panic!("expected an unknown resolution"),
    }
    assert_eq!(parse_resolution("pt60m"), None);
}

#[test]
fn end_out_of_range_is_an_error() {
    assert!(matches!(
        get_end(i64::MAX - 10, "PT1M"),
        Err(ExportError::OutOfRange { start }) if start == i64::MAX - 10
    ));
}

#[test]
fn start_without_seconds_is_read_as_utc() {
    assert_eq!(deserialize("2024-01-01T00:00Z").ok(), Some(JAN_1_2024));
    assert_eq!(deserialize("2024-01-01T13:45Z").ok(), Some(JAN_1_2024 + 13 * HOUR + 45 * 60));
}

#[test]
fn malformed_start_fails_to_parse() {
    assert!(matches!(deserialize("2024-01-01 00:00"), Err(ExportError::ParseFailed { .. })));
}

#[test]
fn malformed_amount_fails_to_parse() {
    match parse_price_amount("fifty") {
        Err(ExportError::ParseFailed { input }) => assert_eq!(input, "fifty"),
        _ => panic!("expected a parse failure"),
    }
}

#[test]
fn amount_keeps_its_decimals() {
    let a = parse_price_amount("87.45").unwrap();
    assert_eq!(a.mantissa(), 8745);
    assert_eq!(a.scale(), 2);
    let p = a.per_kwh();
    assert_eq!((p.mantissa, p.scale), (8745, 5));
    assert!((value(p) - 0.08745).abs() < 1e-12);
}

#[test]
fn price_derivation_of_fifty_thousand() {
    let a = parse_price_amount("50000").unwrap();
    let market = a.per_kwh();
    let tax = a.tax_per_kwh();
    assert_eq!(value(market), 50.0);
    assert!((value(tax) - 10.5).abs() < 1e-12);
    assert_eq!((tax.mantissa, tax.scale), (1050000, 5));
}

#[test]
fn empty_document_gives_no_intervals() {
    let doc = EntsoeDayAheadPrices { time_series: vec![] };
    let prices = day_ahead_to_spot_prices(&doc.time_series).ok().unwrap();
    assert!(prices.is_empty());
}

#[test]
fn unknown_resolution_fails_the_whole_document() {
    let doc = EntsoeDayAheadPrices {
        time_series: vec![
            series("2024-01-01T00:00Z", "PT60M", &["1", "2"]),
            series("2024-01-01T02:00Z", "PT5M", &["3"]),
        ],
    };
    assert!(matches!(
        day_ahead_to_spot_prices(&doc.time_series),
        Err(ExportError::UnknownResolution { .. })
    ));
}

#[test]
fn series_without_points_needs_no_resolution() {
    let doc = vec![series("2024-01-01T00:00Z", "PT5M", &[]), series("2024-01-01T00:00Z", "P1D", &["7"])];
    let prices = day_ahead_to_spot_prices(&doc).ok().unwrap();
    assert_eq!(prices.len(), 1);
    assert_eq!(prices[0].till - prices[0].from, 86400);
}

#[test]
fn one_day_of_hourly_prices() {
    let amounts = vec!["50000"; 24];
    let doc = vec![series("2024-01-01T00:00Z", "PT60M", &amounts)];
    let prices = day_ahead_to_spot_prices(&doc).ok().unwrap();
    assert_eq!(prices.len(), 24);
    assert_eq!(prices[0].from, JAN_1_2024);
    assert_eq!(prices[23].till, deserialize("2024-01-02T00:00Z").unwrap());
    for (k, p) in prices.iter().enumerate() {
        assert_eq!(p.from, JAN_1_2024 + k as i64 * HOUR);
        assert_eq!(p.till, p.from + HOUR);
        if k > 0 {
            assert_eq!(prices[k - 1].till, p.from);
        }
        assert_eq!(value(p.market_price), 50.0);
        assert!((value(p.market_price_tax) - 10.5).abs() < 1e-12);
        assert!((value(p.sourcing_markup_price) - 0.0182).abs() < 1e-12);
        assert!((value(p.energy_tax_price) - 0.1316).abs() < 1e-12);
        assert_eq!(p.source.as_deref(), Some("entso-e"));
        assert_eq!(p.id.as_ref().map(|i| i.len()), Some(36));
    }
    assert_ne!(prices[0].id, prices[1].id);
}

#[test]
fn series_follow_document_order() {
    let doc = vec![
        series("2024-01-01T00:00Z", "PT15M", &["1", "2"]),
        series("2024-01-01T00:30Z", "PT60M", &["3"]),
    ];
    let prices = day_ahead_to_spot_prices(&doc).ok().unwrap();
    let spans: Vec<(i64, i64)> = prices.iter().map(|p| (p.from - JAN_1_2024, p.till - JAN_1_2024)).collect();
    assert_eq!(spans, vec![(0, 900), (900, 1800), (1800, 5400)]);
    assert_eq!(prices[2].market_price, Price { mantissa: 3, scale: 3 });
}
