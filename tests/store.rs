use faas_service::store::Store;
use serde_json::Value;

fn doc(text: &str) -> Value {
    serde_json::from_str(text).unwrap()
}

#[test]
fn get_returns_last_put_for_each_key() {
    let mut s = Store::new();
    s.put(Some("a".to_string()), doc("1"));
    s.put(Some("b".to_string()), doc("2"));
    s.put(Some("a".to_string()), doc("3"));
    assert_eq!(s.get(&"a".to_string()), Some(doc("3")));
    assert_eq!(s.get(&"b".to_string()), Some(doc("2")));
    assert_eq!(s.get(&"c".to_string()), None);
    assert_eq!(s.len(), 2);
}

#[test]
fn overwrite_keeps_position() {
    let mut s = Store::new();
    s.put(Some("a".to_string()), doc("1"));
    s.put(Some("b".to_string()), doc("2"));
    s.put(Some("a".to_string()), doc("3"));
    let (items, total) = s.list(0, 10);
    assert_eq!(total, 2);
    assert_eq!(items, vec![("a".to_string(), doc("3")), ("b".to_string(), doc("2"))]);
}

#[test]
fn generated_keys_never_collide() {
    let mut s = Store::new();
    let k1 = s.put(None, doc("1"));
    let k2 = s.put(None, doc("2"));
    let k3 = s.put(None, doc("3"));
    assert_eq!(k1, "0");
    assert_eq!(k2, "1");
    assert_eq!(k3, "2");
    assert_eq!(s.len(), 3);
}

#[test]
fn generated_key_avoids_a_caller_key() {
    let mut s = Store::new();
    s.put(Some("0".to_string()), doc("1"));
    s.put(Some("0-".to_string()), doc("2"));
    let k = s.put(None, doc("3"));
    assert_eq!(k, "0--");
    assert_eq!(s.get(&"0".to_string()), Some(doc("1")));
    assert_eq!(s.get(&k), Some(doc("3")));
    assert_eq!(s.len(), 3);
}

#[test]
fn delete_absent_and_present() {
    let mut s = Store::new();
    s.put(Some("a".to_string()), doc("1"));
    s.put(Some("b".to_string()), doc("2"));
    assert!(!s.delete(&"zz".to_string()));
    assert_eq!(s.len(), 2);
    assert!(s.delete(&"a".to_string()));
    assert_eq!(s.len(), 1);
    assert_eq!(s.get(&"a".to_string()), None);
    assert!(!s.delete(&"a".to_string()));
    assert_eq!(s.len(), 1);
}

#[test]
fn consecutive_pages_concatenate() {
    let mut s = Store::new();
    for i in 0..5 {
        s.put(None, doc(&i.to_string()));
    }
    let (first, t1) = s.list(0, 2);
    let (second, t2) = s.list(2, 2);
    let (both, t3) = s.list(0, 4);
    assert_eq!(t1, 5);
    assert_eq!(t2, 5);
    assert_eq!(t3, 5);
    let mut joined = first.clone();
    joined.extend(second.clone());
    assert_eq!(joined, both);
    for (k, _) in &first {
        assert!(second.iter().all(|(k2, _)| k2 != k));
    }
}

#[test]
fn list_edges() {
    let mut s = Store::new();
    assert_eq!(s.list(0, 10), (vec![], 0));
    s.put(Some("a".to_string()), doc("1"));
    s.put(Some("b".to_string()), doc("2"));
    assert_eq!(s.list(5, 3), (vec![], 2));
    assert_eq!(s.list(0, 0), (vec![], 2));
    assert_eq!(s.list(1, usize::MAX), (vec![("b".to_string(), doc("2"))], 2));
    assert_eq!(s.list(usize::MAX, usize::MAX), (vec![], 2));
}

#[test]
fn total_equals_len() {
    let mut s = Store::new();
    for i in 0..3 {
        s.put(None, doc(&i.to_string()));
        assert_eq!(s.list(1, 1).1, s.len());
    }
}

#[test]
fn last_put_wins_over_a_write_sequence() {
    let mut s = Store::new();
    s.put(Some("k".to_string()), doc("1"));
    s.put(Some("x".to_string()), doc("2"));
    s.put(Some("k".to_string()), doc("3"));
    s.put(Some("y".to_string()), doc("4"));
    s.delete(&"x".to_string());
    let g = s.put(None, doc("5"));
    s.delete(&g);
    s.put(Some("y".to_string()), doc("6"));
    assert_eq!(s.get(&"k".to_string()), Some(doc("3")));
    assert_eq!(s.get(&"y".to_string()), Some(doc("6")));
    assert_eq!(s.get(&"x".to_string()), None);
    assert_eq!(s.len(), 2);
}
