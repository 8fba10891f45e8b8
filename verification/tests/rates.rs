use ohabench::cli::RampingMode;
use ohabench::config::RampingConfig;

fn ramp(mode: RampingMode, start_rate: u32, max_rate: u32, step: u32) -> RampingConfig {
    RampingConfig { mode, start_rate, max_rate, step, ..RampingConfig::default() }
}

#[test]
fn linear_ramp_counts_up_by_step() {
    let rates = ramp(RampingMode::Linear, 50, 200, 50).generate_rates();
    assert_eq!(rates, vec![50, 100, 150, 200]);
}

#[test]
fn linear_ramp_stops_below_maximum_when_step_does_not_fit() {
    let rates = ramp(RampingMode::Linear, 10, 25, 10).generate_rates();
    assert_eq!(rates, vec![10, 20]);
}

#[test]
fn linear_ramp_has_expected_length_and_order() {
    let (start, max, step) = (7u32, 1000u32, 13u32);
    let rates = ramp(RampingMode::Linear, start, max, step).generate_rates();
    assert_eq!(rates.len() as u32, (max - start) / step + 1);
    assert_eq!(rates[0], start);
    assert!(rates.windows(2).all(|w| w[0] < w[1]));
    assert!(rates.iter().all(|r| *r <= max));
}

#[test]
fn default_ramp_has_a_hundred_steps() {
    let rates = RampingConfig::default().generate_rates();
    assert_eq!(rates.len(), 100);
    assert_eq!(rates[0], 50);
    assert_eq!(rates[99], 5000);
}

#[test]
fn linear_ramp_with_zero_step_is_a_single_rate() {
    assert_eq!(ramp(RampingMode::Linear, 50, 100, 0).generate_rates(), vec![50]);
    assert_eq!(ramp(RampingMode::Linear, 100, 100, 0).generate_rates(), vec![100]);
    assert_eq!(ramp(RampingMode::Linear, 150, 100, 0).generate_rates(), Vec::<u32>::new());
}

#[test]
fn ramp_that_starts_above_maximum_is_empty() {
    assert!(ramp(RampingMode::Linear, 201, 200, 50).generate_rates().is_empty());
    assert!(ramp(RampingMode::Exponential, 201, 200, 50).generate_rates().is_empty());
}

#[test]
fn linear_ramp_stops_at_the_end_of_the_number_range() {
    let start = u32::MAX - 5;
    let rates = ramp(RampingMode::Linear, start, u32::MAX, 10).generate_rates();
    assert_eq!(rates, vec![start]);
    let rates = ramp(RampingMode::Linear, start, u32::MAX, 5).generate_rates();
    assert_eq!(rates, vec![start, u32::MAX]);
}

#[test]
fn exponential_ramp_doubles() {
    let rates = ramp(RampingMode::Exponential, 50, 500, 50).generate_rates();
    assert_eq!(rates, vec![50, 100, 200, 400]);
    let rates = ramp(RampingMode::Exponential, 1, 64, 0).generate_rates();
    assert_eq!(rates, vec![1, 2, 4, 8, 16, 32, 64]);
}

#[test]
fn exponential_ramp_from_zero_ends() {
    assert_eq!(ramp(RampingMode::Exponential, 0, 100, 50).generate_rates(), vec![0]);
    assert_eq!(ramp(RampingMode::Exponential, 0, 0, 50).generate_rates(), vec![0]);
}

#[test]
fn exponential_ramp_stops_at_the_end_of_the_number_range() {
    let rates = ramp(RampingMode::Exponential, 3_000_000_000, u32::MAX, 1).generate_rates();
    assert_eq!(rates, vec![3_000_000_000]);
    let rates = ramp(RampingMode::Exponential, 1 << 30, u32::MAX, 1).generate_rates();
    assert_eq!(rates, vec![1 << 30, 1 << 31]);
}
