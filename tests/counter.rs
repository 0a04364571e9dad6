use faas_service::counter::RequestCounter;
use faas_service::ids::IdGenerator;
use faas_service::text::{decimal, format_uptime};

#[test]
fn counter_counts_each_increment() {
    let mut c = RequestCounter::new();
    assert_eq!(c.snapshot(), 0);
    assert_eq!(c.increment(), 1);
    assert_eq!(c.increment(), 2);
    assert_eq!(c.snapshot(), 2);
}

#[test]
fn id_generator_hands_out_decimal_sequence() {
    let mut g = IdGenerator::new();
    let keys: Vec<String> = (0..12).map(|_| g.next_key()).collect();
    assert_eq!(keys[0], "0");
    assert_eq!(keys[9], "9");
    assert_eq!(keys[10], "10");
    assert_eq!(keys[11], "11");
}

#[test]
fn uptime_reads_as_days_hours_minutes() {
    assert_eq!(format_uptime(0), "0d 0h 0m");
    assert_eq!(format_uptime(59), "0d 0h 0m");
    assert_eq!(format_uptime(90061), "1d 1h 1m");
    assert_eq!(format_uptime(86399), "0d 23h 59m");
    assert_eq!(format_uptime(864000 + 7200 + 600), "10d 2h 10m");
}

#[test]
fn decimal_writes_digits() {
    assert_eq!(decimal(0), "0");
    assert_eq!(decimal(7), "7");
    assert_eq!(decimal(10), "10");
    assert_eq!(decimal(1234567890), "1234567890");
    assert_eq!(decimal(u64::MAX), "18446744073709551615");
}
