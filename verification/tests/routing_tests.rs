use bmsg_core::{
    BmsgError, Message, MessageType, RegisteredService, RouteStep, Routing, ServiceStatus, Target,
};

fn msg(persist: bool) -> Message {
    Message::new_at(
        Target { platform: "ios".into(), app_package: "com.app".into(), user_id: "u1".into(), msg_type: MessageType::Notification },
        serde_json::Value::Null,
        persist,
        None,
        "m-1".to_string(),
        1000,
    )
}

fn svc(id: &str, app: &str, platforms: Vec<&str>) -> RegisteredService {
    RegisteredService {
        id: id.into(), name: id.into(), endpoint: format!("https://{}.example.com", id),
        app_package: app.into(), platforms: platforms.into_iter().map(String::from).collect(),
        secret_hash: "h".into(), status: ServiceStatus::Online, last_heartbeat: 0, created_at: 0,
    }
}

#[test]
fn unpersisted_message_is_not_stored() {
    let r = Routing::start(&msg(false));
    assert_eq!(r.step(), RouteStep::ListServices);
}

#[test]
fn store_failure_ends_routing() {
    let mut r = Routing::start(&msg(true));
    assert_eq!(r.step(), RouteStep::StoreMessage);
    r.on_stored(Err(BmsgError::StorageError("disk full".into())));
    assert_eq!(r.step(), RouteStep::Done);
    match r.finish() {
        Err(BmsgError::StorageError(m)) => assert_eq!(m, "disk full"),
        other => panic!("unexpected {:?}", other),
    }
}

#[test]
fn deliveries_are_partitioned() {
    let mut r = Routing::start(&msg(true));
    r.on_stored(Ok(()));
    r.on_listed(Ok(vec![
        svc("s1", "com.app", vec!["ios"]),
        svc("s2", "com.other", vec!["ios"]),
        svc("s3", "*", vec!["*"]),
        svc("s4", "com.app", vec!["android", "ios"]),
    ]));
    assert_eq!(r.step(), RouteStep::Deliver(0));
    assert_eq!(r.current_service().id, "s1");
    r.on_delivered(Ok(()));
    assert_eq!(r.current_service().id, "s3");
    r.on_delivered(Err(BmsgError::DeliveryError("timeout".into())));
    assert_eq!(r.current_service().id, "s4");
    r.on_delivered(Ok(()));
    assert_eq!(r.step(), RouteStep::Done);
    let res = r.finish().unwrap();
    assert_eq!(res.message_id, "m-1");
    assert!(res.stored);
    assert_eq!(res.delivered, vec!["s1".to_string(), "s4".to_string()]);
    assert_eq!(res.failed.len(), 1);
    assert_eq!(res.failed[0].service_id, "s3");
    assert_eq!(res.failed[0].endpoint, "https://s3.example.com");
    assert_eq!(res.failed[0].error, "delivery error: timeout");
}

#[test]
fn no_match_finishes_at_once() {
    let mut r = Routing::start(&msg(false));
    r.on_listed(Ok(vec![svc("s1", "com.other", vec!["ios"])]));
    assert_eq!(r.step(), RouteStep::Done);
    let res = r.finish().unwrap();
    assert!(!res.stored);
    assert!(res.delivered.is_empty());
    assert!(res.failed.is_empty());
}

#[test]
fn registry_failure_ends_routing() {
    let mut r = Routing::start(&msg(false));
    r.on_listed(Err(BmsgError::RegistryError("down".into())));
    assert!(matches!(r.finish(), Err(BmsgError::RegistryError(_))));
}

#[test]
fn expiry_wraps_past_the_largest_time() {
    let m = Message::new_at(
        Target { platform: "web".into(), app_package: "a".into(), user_id: "*".into(), msg_type: MessageType::Shell },
        serde_json::Value::Null, true, Some(60), "x".into(), 500,
    );
    assert_eq!(m.expires_at, Some(560));
    assert_eq!(m.created_at, 500);
    assert_eq!(m.id, "x");
    let w = Message::new_at(
        Target { platform: "web".into(), app_package: "a".into(), user_id: "*".into(), msg_type: MessageType::Shell },
        serde_json::Value::Null, true, Some(10), "y".into(), i64::MAX - 5,
    );
    assert_eq!(w.expires_at, Some(i64::MIN + 4));
}
