use r3_ui::services::traffic::TrafficCollector;
use r3_ui::xray::traffic::TrafficStore;

#[test]
fn collector_update_then_get() {
    let mut c = TrafficCollector::new();
    c.update("in-1", 10, 20);
    c.update("in-2", 1, 2);
    c.update("in-1", 30, 40);
    let d = c.get("in-1").unwrap();
    assert_eq!((d.tag.as_str(), d.up, d.down), ("in-1", 30, 40));
    let d = c.get("in-2").unwrap();
    assert_eq!((d.up, d.down), (1, 2));
    assert!(c.get("in-3").is_none());
    assert_eq!(c.get_all().len(), 2);
}

#[test]
fn collector_increment_starts_from_zero_and_adds() {
    let mut c = TrafficCollector::default();
    c.increment("a", 5, 7);
    c.increment("a", 1, -2);
    let d = c.get("a").unwrap();
    assert_eq!((d.up, d.down), (6, 5));
}

#[test]
fn collector_reset_and_reset_all() {
    let mut c = TrafficCollector::new();
    c.update("a", 5, 7);
    c.update("b", 8, 9);
    c.reset("a");
    c.reset("missing");
    assert_eq!(c.get("a").map(|d| (d.up, d.down)), Some((0, 0)));
    assert_eq!(c.get("b").map(|d| (d.up, d.down)), Some((8, 9)));
    assert!(c.get("missing").is_none());
    c.reset_all();
    let all = c.get_all();
    assert_eq!(all.len(), 2);
    assert!(all.iter().all(|d| d.up == 0 && d.down == 0));
}

#[test]
fn store_update_get_reset_snapshot() {
    let mut s = TrafficStore::new();
    s.update("x", 3, 4);
    s.update("y", 5, 6);
    s.update("x", 7, 8);
    let e = s.get("x").unwrap();
    assert_eq!((e.tag.as_str(), e.up, e.down), ("x", 7, 8));
    s.reset("y");
    assert_eq!(s.get("y").map(|e| (e.up, e.down)), Some((0, 0)));
    let snap = s.snapshot();
    assert_eq!(snap.entries.len(), 2);
    assert!(snap.timestamp > 0);
    assert!(s.get("z").is_none());
}
