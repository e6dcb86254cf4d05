use event_trading::bus::EventBus;
use event_trading::event::Event;

#[test]
fn counter_counts_each_publish() {
    let mut bus = EventBus::new();
    for _ in 0..5 {
        bus.publish(Event::Error("e".to_string())).unwrap();
    }
    bus.publish(Event::RiskHalt { reason: "r".to_string() }).unwrap();
    assert_eq!(bus.count("Error"), 5);
    assert_eq!(bus.count("RiskHalt"), 1);
    assert_eq!(bus.count("PriceUpdated"), 0);
    assert_eq!(bus.count("NoSuchTag"), 0);
    let snap = bus.metrics_snapshot();
    assert_eq!(snap, vec![("RiskHalt".to_string(), 1), ("Error".to_string(), 5)]);
}

#[test]
fn dispatch_in_subscription_order() {
    let mut bus = EventBus::new();
    let a = bus.subscribe("Error");
    let b = bus.subscribe("RiskHalt");
    let c = bus.subscribe("Error");
    let ids = bus.publish(Event::Error("x".to_string())).unwrap();
    assert_eq!(ids, vec![a, c]);
    let ids = bus.publish(Event::RiskHalt { reason: "y".to_string() }).unwrap();
    assert_eq!(ids, vec![b]);
    let all = bus.publish_all(Event::Error("z".to_string())).unwrap();
    assert_eq!(all, vec![0, 1, 2]);
    assert_eq!(bus.count("Error"), 1);
    assert_eq!(bus.events().len(), 3);
    let drained = bus.drain_events();
    assert_eq!(drained.len(), 3);
    assert_eq!(bus.events().len(), 0);
}

#[test]
fn event_tags() {
    let e = Event::OrderCancelled { order_id: 1, symbol: "X".to_string() };
    assert_eq!(e.event_type(), "OrderCancelled");
    assert_eq!(Event::Error("x".to_string()).event_type(), "Error");
}
