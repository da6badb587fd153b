use railway_santinvoice::calendar::previous_billing_period;
use railway_santinvoice::clients::build_railway_workspace_token_header;
use railway_santinvoice::clients::usage_price;
use railway_santinvoice::clients::Price;
use railway_santinvoice::clients::RailwayUsageRow;
use railway_santinvoice::clients::RailwayUsageTags;
use railway_santinvoice::failure::Failure;

fn build_railway_project_token_header(token: &str) -> Result<String, Failure> {
    build_railway_workspace_token_header(token)
}

fn unit_price(price: Price) -> f64 {
    f64::from(price.hundredths) / 100.0 / f64::from(price.minutes)
}

fn cost_for_usage(rows: &[(RailwayUsageRow, f64)]) -> f64 {
    rows.iter()
        .filter_map(|(row, value)| usage_price(&row.measurement).map(|p| value * unit_price(p)))
        .sum()
}

fn row(measurement: &str, value: f64) -> (RailwayUsageRow, f64) {
    let row = RailwayUsageRow {
        measurement: measurement.to_string(),
        tags: RailwayUsageTags { project_id: None },
    };
    (row, value)
}

#[test]
fn railway_workspace_token_header_adds_bearer_prefix() {
    assert_eq!(
        build_railway_workspace_token_header("abc123").unwrap(),
        "Bearer abc123"
    );
}

#[test]
fn railway_workspace_token_header_rejects_bearer_prefix() {
    assert!(build_railway_project_token_header("Bearer abc123").is_err());
}

#[test]
fn railway_usage_cost_matches_railway_pricing() {
    let usage = [
        row("MEMORY_USAGE_GB", 43_200.0),
        row("CPU_USAGE", 43_200.0),
        row("NETWORK_TX_GB", 2.0),
        row("DISK_USAGE_GB", 43_200.0),
        row("BACKUP_USAGE_GB", 43_200.0),
    ];

    assert!((cost_for_usage(&usage) - 30.4).abs() < f64::EPSILON);
}

#[test]
fn prices_are_those_of_the_units() {
    let price = |name: &str| unit_price(usage_price(name).unwrap());
    assert_eq!(price("MEMORY_USAGE_GB"), 10.0 / 43_200.0);
    assert_eq!(price("CPU_USAGE"), 20.0 / 43_200.0);
    assert_eq!(price("NETWORK_TX_GB"), 0.05);
    assert_eq!(price("DISK_USAGE_GB"), 0.15 / 43_200.0);
    assert_eq!(price("BACKUP_USAGE_GB"), 0.15 / 43_200.0);
    assert_eq!(usage_price("memory_usage_gb"), None);
    assert_eq!(usage_price(""), None);
}

#[test]
fn previous_billing_period_uses_railway_billing_boundary() {
    let period = previous_billing_period("2026-09-08T00:00:00Z").unwrap();

    assert_eq!(period.start, "2026-08-08T00:00:00+00:00");
    assert_eq!(period.end, "2026-09-08T00:00:00+00:00");
    assert_eq!(period.from.to_string(), "2026-08-08");
    assert_eq!(period.to.to_string(), "2026-09-07");
}
