use candle_feed::hub::{
    add_client, drop_failed, remove_client, send_candle, send_message_to_clients, Delivery,
    SubscriberHub,
};

#[test]
fn handles_count_up_from_zero() {
    let mut hub: SubscriberHub<&str> = SubscriberHub::new();
    assert_eq!(hub.len(), 0);
    assert_eq!(add_client(&mut hub, "a"), Some(0));
    assert_eq!(add_client(&mut hub, "b"), Some(1));
    assert_eq!(add_client(&mut hub, "a"), Some(2));
    assert_eq!(hub.len(), 3);
    assert_eq!((hub.handle_at(1), *hub.sink_at(1)), (1, "b"));
    assert_eq!(hub.sink(2), Some(&"a"));
    assert_eq!(hub.sink(3), None);
}

#[test]
fn removing_keeps_the_order_of_the_others() {
    let mut hub: SubscriberHub<String> = SubscriberHub::new();
    for name in ["a", "b", "c", "d"] {
        add_client(&mut hub, name.to_string());
    }
    assert_eq!(remove_client(&mut hub, 1), Some("b".to_string()));
    assert_eq!(hub.len(), 3);
    assert_eq!(hub.handle_at(0), 0);
    assert_eq!(hub.handle_at(1), 2);
    assert_eq!(hub.handle_at(2), 3);
    assert_eq!(hub.sink_at(1), "c");
    assert_eq!(hub.sink(1), None);
}

#[test]
fn removing_twice_is_removing_once() {
    let mut hub: SubscriberHub<u8> = SubscriberHub::new();
    add_client(&mut hub, 7);
    add_client(&mut hub, 8);
    assert_eq!(remove_client(&mut hub, 0), Some(7));
    assert_eq!(remove_client(&mut hub, 0), None);
    assert_eq!(remove_client(&mut hub, 5), None);
    assert_eq!(hub.len(), 1);
    assert_eq!(hub.handle_at(0), 1);
}

#[test]
fn handle_of_a_removed_sink_is_not_given_out_again() {
    let mut hub: SubscriberHub<u8> = SubscriberHub::new();
    add_client(&mut hub, 7);
    remove_client(&mut hub, 0);
    assert_eq!(add_client(&mut hub, 9), Some(1));
    assert_eq!(hub.sink(0), None);
    assert_eq!(hub.sink(1), Some(&9));
}

#[test]
fn broadcast_reaches_every_sink_in_order() {
    let mut hub: SubscriberHub<u8> = SubscriberHub::new();
    assert_eq!(send_message_to_clients(&hub, "hello"), Vec::new());
    for sink in [1, 2, 3] {
        add_client(&mut hub, sink);
    }
    remove_client(&mut hub, 1);
    assert_eq!(
        send_message_to_clients(&hub, "hello"),
        vec![
            Delivery { handle: 0, payload: "hello".to_string() },
            Delivery { handle: 2, payload: "hello".to_string() },
        ]
    );
}

#[test]
fn failed_sink_is_removed_and_the_others_still_get_the_next_message() {
    let mut hub: SubscriberHub<u8> = SubscriberHub::new();
    for sink in [1, 2, 3] {
        add_client(&mut hub, sink);
    }
    let plan = send_message_to_clients(&hub, "one");
    assert_eq!(plan.len(), 3);
    remove_client(&mut hub, plan[1].handle);
    let plan = send_message_to_clients(&hub, "two");
    let handles: Vec<u64> = plan.iter().map(|delivery| delivery.handle).collect();
    assert_eq!(handles, vec![0, 2]);
    assert!(plan.iter().all(|delivery| delivery.payload == "two"));
}

#[test]
fn sinks_that_failed_are_dropped_and_the_others_stay_in_order() {
    let mut hub: SubscriberHub<&str> = SubscriberHub::new();
    for sink in ["a", "b", "c", "d", "e"] {
        add_client(&mut hub, sink);
    }
    let removed = drop_failed(&mut hub, &vec![3, 1, 9, 3]);
    assert_eq!(removed, vec!["b", "d"]);
    assert_eq!(hub.len(), 3);
    assert_eq!((hub.handle_at(0), *hub.sink_at(0)), (0, "a"));
    assert_eq!((hub.handle_at(1), *hub.sink_at(1)), (2, "c"));
    assert_eq!((hub.handle_at(2), *hub.sink_at(2)), (4, "e"));
    let plan = send_message_to_clients(&hub, "next");
    let handles: Vec<u64> = plan.iter().map(|delivery| delivery.handle).collect();
    assert_eq!(handles, vec![0, 2, 4]);
    assert_eq!(add_client(&mut hub, "f"), Some(5));
}

#[test]
fn dropping_no_sink_or_every_sink() {
    let mut hub: SubscriberHub<u8> = SubscriberHub::new();
    assert_eq!(drop_failed(&mut hub, &vec![0, 1]), Vec::<u8>::new());
    add_client(&mut hub, 7);
    add_client(&mut hub, 8);
    assert_eq!(drop_failed(&mut hub, &Vec::new()), Vec::<u8>::new());
    assert_eq!(hub.len(), 2);
    assert_eq!(drop_failed(&mut hub, &vec![1, 0]), vec![7, 8]);
    assert_eq!(hub.len(), 0);
    assert!(send_message_to_clients(&hub, "x").is_empty());
}

#[test]
fn candle_event_wraps_the_candle() {
    let mut hub: SubscriberHub<u8> = SubscriberHub::new();
    add_client(&mut hub, 1);
    add_client(&mut hub, 2);
    let plan = send_candle(&hub, r#"{"symbol":"X","close":null}"#);
    let text = r#"{"type":"candle","value":{"symbol":"X","close":null}}"#;
    assert_eq!(
        plan,
        vec![
            Delivery { handle: 0, payload: text.to_string() },
            Delivery { handle: 1, payload: text.to_string() },
        ]
    );
}

#[test]
fn candle_event_is_what_serde_json_writes_for_the_same_object() {
    let mut hub: SubscriberHub<u8> = SubscriberHub::new();
    add_client(&mut hub, 1);
    let mut candle = serde_json::Map::new();
    candle.insert("symbol".to_string(), serde_json::Value::String("X".to_string()));
    candle.insert("close".to_string(), serde_json::Value::Null);
    candle.insert("volume".to_string(), serde_json::Value::from(12.5));
    let value = serde_json::Value::Object(candle);
    let mut event = serde_json::Map::new();
    event.insert("type".to_string(), serde_json::Value::String("candle".to_string()));
    event.insert("value".to_string(), value.clone());
    let plan = send_candle(&hub, &value.to_string());
    assert_eq!(plan[0].payload, serde_json::Value::Object(event).to_string());
}
