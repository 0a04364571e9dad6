use std::sync::Arc;

use faas_service::service::{banner, Service, ServiceError, DEFAULT_LIMIT};
use serde_json::Value;

fn doc(text: &str) -> Value {
    serde_json::from_str(text).unwrap()
}

#[test]
fn put_get_delete_get() {
    let mut s = Service::new("0".to_string(), 8080);
    let k1 = s.put_data(doc(r#"{"name":"a"}"#));
    assert_eq!(s.get_by_key(&k1), Ok(doc(r#"{"name":"a"}"#)));
    assert_eq!(s.delete_by_key(&k1), Ok(()));
    assert_eq!(s.get_by_key(&k1), Err(ServiceError::NotFound));
    assert_eq!(s.delete_by_key(&k1), Err(ServiceError::NotFound));
}

#[test]
fn three_puts_then_second_page() {
    let mut s = Service::new("0".to_string(), 8080);
    let k1 = s.put_data(doc(r#"{"n":1}"#));
    let k2 = s.put_data(doc(r#"{"n":2}"#));
    let k3 = s.put_data(doc(r#"{"n":3}"#));
    assert_ne!(k1, k2);
    let page = s.list_data(Some(1), Some(2));
    assert_eq!(page.total, 3);
    assert_eq!(page.offset, 1);
    assert_eq!(page.limit, 2);
    assert_eq!(page.items, vec![(k2, doc(r#"{"n":2}"#)), (k3, doc(r#"{"n":3}"#))]);
}

#[test]
fn list_defaults() {
    let mut s = Service::new("0".to_string(), 8080);
    for i in 0..12 {
        s.put_data(doc(&i.to_string()));
    }
    let page = s.list_data(None, None);
    assert_eq!(page.offset, 0);
    assert_eq!(page.limit, DEFAULT_LIMIT);
    assert_eq!(page.limit, 10);
    assert_eq!(page.items.len(), 10);
    assert_eq!(page.total, 12);
    assert_eq!(page.items[0].1, doc("0"));
}

#[test]
fn echo_hands_back_the_document() {
    let mut s = Service::new("7".to_string(), 8080);
    let r = s.echo(doc(r#"{"x":1}"#));
    assert_eq!(r.echo, doc(r#"{"x":1}"#));
    assert_eq!(r.instance, "7");
    assert!(!r.timestamp.unwrap().is_empty());
}

#[test]
fn every_operation_counts_once() {
    let mut s = Service::new("0".to_string(), 8080);
    s.health();
    let k = s.put_data(doc("1"));
    let _ = s.get_by_key(&k);
    let _ = s.list_data(None, None);
    let _ = s.echo(doc("2"));
    let _ = s.delete_by_key(&k);
    let _ = s.status();
    assert_eq!(s.request_count(), 7);
    let m = s.metrics();
    assert_eq!(m.request_count, 7);
    assert_eq!(m.stored_items, 0);
    assert_eq!(s.request_count(), 8);
}

#[test]
fn health_is_fixed() {
    let mut s = Service::new("0".to_string(), 8080);
    let h = s.health();
    assert_eq!(h.status, "healthy");
    assert_eq!(h.database, "ok");
    assert_eq!(h.memory, "ok");
    assert_eq!(h.disk, "ok");
}

#[test]
fn status_reports_identity_and_uptime() {
    let mut s = Service::new("3".to_string(), 9000);
    let start = s.started_at().unwrap();
    s.health();
    let info = s.status_from(Some((start + 90061, 0)));
    assert_eq!(info.service, "faas-service");
    assert_eq!(info.version, "1.0.0");
    assert_eq!(info.instance_id, "3");
    assert_eq!(info.port, 9000);
    assert_eq!(info.uptime, "1d 1h 1m");
    assert_eq!(info.request_count, 1);
    let earlier = s.status_from(Some((start - 5, 0)));
    assert_eq!(earlier.uptime, "0d 0h 0m");
    assert_eq!(earlier.request_count, 2);
    let unknown = s.status_from(None);
    assert_eq!(unknown.uptime, "0d 0h 0m");
    assert_eq!(unknown.request_count, 3);
}

#[test]
fn banner_names_the_service() {
    assert_eq!(banner(), "FAAS Service Running on L1NE Infrastructure");
}

#[test]
fn concurrent_health_checks_are_all_counted() {
    let runtime = tokio::runtime::Builder::new_multi_thread()
        .worker_threads(4)
        .build()
        .unwrap();
    let service = Arc::new(tokio::sync::Mutex::new(Service::new("0".to_string(), 8080)));
    let calls = 200;
    runtime.block_on(async {
        let mut handles = Vec::new();
        for _ in 0..calls {
            let shared = service.clone();
            handles.push(tokio::spawn(async move {
                shared.lock().await.health();
            }));
        }
        for h in handles {
            h.await.unwrap();
        }
    });
    let m = runtime.block_on(async { service.lock().await.metrics() });
    assert_eq!(m.request_count, calls);
}

#[test]
fn timestamps_are_rfc3339_of_the_instant() {
    let mut s = Service::new("0".to_string(), 8080);
    let h = s.health_from(Some((0, 0)));
    assert_eq!(h.timestamp.as_deref(), Some("1970-01-01T00:00:00+00:00"));
    assert_eq!(h.status, "healthy");
    let m = s.metrics_from(Some((1_700_000_000, 500_000_000)));
    assert_eq!(m.timestamp.as_deref(), Some("2023-11-14T22:13:20.500+00:00"));
    assert_eq!(m.request_count, 1);
    let e = s.echo_from(doc("[1,2]"), Some((86_400, 0)));
    assert_eq!(e.timestamp.as_deref(), Some("1970-01-02T00:00:00+00:00"));
    assert_eq!(e.echo, doc("[1,2]"));
    assert_eq!(s.request_count(), 3);
}

#[test]
fn timestamps_past_the_calendar_or_missing() {
    let mut s = Service::new("0".to_string(), 8080);
    let h = s.health_from(None);
    assert_eq!(h.timestamp, None);
    assert_eq!(h.status, "healthy");
    let m = s.metrics_from(Some((u64::MAX, 0)));
    assert_eq!(m.timestamp, None);
    assert_eq!(m.request_count, 1);
    let e = s.echo_from(doc("null"), Some((0, 1_000_000_000)));
    assert_eq!(e.timestamp, None);
    assert_eq!(e.echo, doc("null"));
    let far = s.health_from(Some((8_210_266_876_799, 0)));
    assert_eq!(far.timestamp.as_deref(), Some("+262142-12-31T23:59:59+00:00"));
    assert_eq!(s.request_count(), 4);
}

#[test]
fn clock_timestamps_are_present() {
    let mut s = Service::new("0".to_string(), 8080);
    let h = s.health();
    assert!(h.timestamp.unwrap().ends_with("+00:00"));
    let m = s.metrics();
    assert!(m.timestamp.is_some());
}

#[test]
fn many_health_calls_then_metrics() {
    let mut s = Service::new("0".to_string(), 8080);
    for _ in 0..50 {
        s.health();
    }
    let first = s.metrics();
    assert_eq!(first.request_count, 50);
    let _ = s.list_data(None, None);
    let second = s.metrics();
    assert!(second.request_count >= first.request_count + 1);
    assert_eq!(second.request_count, 52);
}
