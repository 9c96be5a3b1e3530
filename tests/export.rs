use spot_price_exporter::exporter_service::{day_window, plan_export, request_period};
use spot_price_exporter::retry::{RetryPolicy, BASE_DELAY_MILLIS, MAX_ATTEMPTS};
use spot_price_exporter::types::{energy_tax_price, sourcing_markup_price, Price, SpotPrice, State};

const JAN_1_2024: i64 = 1704067200;
const HOUR: i64 = 3600;

fn interval(from: i64) -> SpotPrice {
    SpotPrice {
        id: Some(format!("id-{from}")),
        source: Some("entso-e".to_string()),
        from,
        till: from + HOUR,
        market_price: Price { mantissa: 50000, scale: 3 },
        market_price_tax: Price { mantissa: 1050000, scale: 5 },
        sourcing_markup_price: sourcing_markup_price(),
        energy_tax_price: energy_tax_price(),
    }
}

#[test]
fn window_is_the_utc_day() {
    let now = JAN_1_2024 + 13 * HOUR + 17;
    assert_eq!(day_window(now), (JAN_1_2024, JAN_1_2024 + 86400));
    assert_eq!(day_window(JAN_1_2024), (JAN_1_2024, JAN_1_2024 + 86400));
    assert_eq!(day_window(-1), (-86400, 0));
}

#[test]
fn request_period_is_written_compactly() {
    let (a, b) = request_period(JAN_1_2024 + 5 * HOUR).ok().unwrap();
    assert_eq!(a, "202401010000");
    assert_eq!(b, "202401020000");
}

#[test]
fn rerun_writes_only_intervals_after_checkpoint() {
    let t = JAN_1_2024 + 10 * HOUR;
    let prices = vec![interval(t - HOUR), interval(t), interval(t + HOUR), interval(t + 2 * HOUR)];
    let state = Some(State { future_spot_prices: vec![], last_from: t });
    let plan = plan_export(&prices, &state, t);
    assert_eq!(plan.writes, vec![2, 3]);
    let next = plan.new_state.unwrap();
    assert_eq!(next.last_from, t + 2 * HOUR);
}

#[test]
fn first_run_writes_everything() {
    let prices: Vec<SpotPrice> = (0..4).map(|k| interval(JAN_1_2024 + k * HOUR)).collect();
    let plan = plan_export(&prices, &None, JAN_1_2024 + 2 * HOUR + 1);
    assert_eq!(plan.writes, vec![0, 1, 2, 3]);
    let next = plan.new_state.unwrap();
    assert_eq!(next.last_from, JAN_1_2024 + 3 * HOUR);
    let future: Vec<i64> = next.future_spot_prices.iter().map(|p| p.from).collect();
    assert_eq!(future, vec![JAN_1_2024 + 2 * HOUR, JAN_1_2024 + 3 * HOUR]);
}

#[test]
fn nothing_new_leaves_the_checkpoint() {
    let prices: Vec<SpotPrice> = (0..3).map(|k| interval(JAN_1_2024 + k * HOUR)).collect();
    let state = Some(State { future_spot_prices: vec![], last_from: JAN_1_2024 + 2 * HOUR });
    let plan = plan_export(&prices, &state, JAN_1_2024);
    assert!(plan.writes.is_empty());
    assert!(plan.new_state.is_none());
}

#[test]
fn checkpoint_records_latest_written_start() {
    let prices: Vec<SpotPrice> = (0..5).map(|k| interval(JAN_1_2024 + k * HOUR)).collect();
    let state = Some(State { future_spot_prices: vec![], last_from: JAN_1_2024 + HOUR });
    let plan = plan_export(&prices, &state, JAN_1_2024 + 10 * HOUR);
    let next = plan.new_state.unwrap();
    let max_written = plan.writes.iter().map(|&k| prices[k].from).max().unwrap();
    assert_eq!(next.last_from, max_written);
    assert!(next.future_spot_prices.is_empty());
}

#[test]
fn empty_run_writes_nothing() {
    let plan = plan_export(&vec![], &None, JAN_1_2024);
    assert!(plan.writes.is_empty());
    assert!(plan.new_state.is_none());
}

#[test]
fn retry_succeeds_on_third_attempt() {
    let mut policy = RetryPolicy::new();
    assert_eq!(policy.next_delay(7), Some(BASE_DELAY_MILLIS + 7));
    assert_eq!(policy.next_delay(3), Some(2 * BASE_DELAY_MILLIS + 3));
    assert_eq!(policy.failures(), 2);
    assert!(policy.failures() < MAX_ATTEMPTS);
}

#[test]
fn retry_gives_up_after_three_attempts() {
    let mut policy = RetryPolicy::new();
    let mut attempts = 0;
    let mut delays = vec![];
    loop {
        attempts += 1;
        match policy.next_delay(0) {
            Some(d) => delays.push(d),
            None => break,
        }
    }
    assert_eq!(attempts, 3);
    assert_eq!(delays, vec![100, 200]);
}
