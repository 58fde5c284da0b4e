use bmsg_core::digest::u64_to_hex16;
use bmsg_core::registry::{kv_registration, upstash_registration};
use bmsg_core::{Message, MessageFilter, Target};
use std::collections::hash_map::DefaultHasher;
use std::hash::{Hash, Hasher};
use bmsg_core::storage::{list_offset, persist_column, persist_from_column, type_from_name};
use bmsg_core::{
    hash_secret, simple_hash, BmsgError, MessageRow, MessageType, RegisterRequest,
    RegisteredService, ServiceRow, ServiceStatus,
};

fn row(msg_type: &str, content: &str) -> MessageRow {
    MessageRow {
        id: "m1".into(), platform: "ios".into(), app_package: "com.app".into(), user_id: "u1".into(),
        msg_type: msg_type.into(), content: content.into(), persist: true, ttl: Some(60),
        created_at: 10, expires_at: Some(70),
    }
}

fn service_row(platforms: &str, status: &str) -> ServiceRow {
    ServiceRow {
        id: "s1".into(), name: "n".into(), endpoint: "https://e".into(), app_package: "com.app".into(),
        platforms: platforms.into(), secret_hash: "h".into(), status: status.into(),
        last_heartbeat: 5, created_at: 4,
    }
}

#[test]
fn message_rows_decode() {
    let m = row("shell", "{\"a\":1}").into_message().unwrap();
    assert_eq!(m.msg_type, MessageType::Shell);
    assert_eq!(m.target.msg_type, MessageType::Shell);
    assert_eq!(m.target.platform, "ios");
    assert_eq!(m.ttl, Some(60));
    assert_eq!(m.expires_at, Some(70));
    assert_eq!(m.content["a"], 1);
    match row("email", "{}").into_message() {
        Err(BmsgError::StorageError(t)) => assert_eq!(t, "invalid msg_type: email"),
        other => panic!("unexpected {:?}", other),
    }
    assert!(matches!(row("message", "{oops").into_message(), Err(BmsgError::StorageError(_))));
}

#[test]
fn type_names_and_columns() {
    assert_eq!(type_from_name("notification"), Some(MessageType::Notification));
    assert_eq!(type_from_name("Message"), None);
    assert_eq!(persist_column(true), 1);
    assert_eq!(persist_column(false), 0);
    assert!(persist_from_column(-3));
    assert!(!persist_from_column(0));
    assert_eq!(list_offset(1, 50), 0);
    assert_eq!(list_offset(0, 50), 0);
    assert_eq!(list_offset(3, 20), 40);
}

#[test]
fn service_rows_decode() {
    let s = service_row("[\"ios\",\"*\"]", "online").into_service().unwrap();
    assert_eq!(s.platforms, vec!["ios".to_string(), "*".to_string()]);
    assert_eq!(s.status, ServiceStatus::Online);
    let s = service_row("[]", "dead").into_service().unwrap();
    assert_eq!(s.status, ServiceStatus::Offline);
    assert!(matches!(service_row("ios", "online").into_service(), Err(BmsgError::RegistryError(_))));
    assert_eq!(ServiceStatus::from_text("online"), ServiceStatus::Online);
}

#[test]
fn registration_builds_service() {
    let req = RegisterRequest {
        name: "svc".into(), endpoint: "https://e".into(), app_package: "com.app".into(),
        platforms: vec!["ios".into()], secret: "s3cret".into(),
    };
    let s = RegisteredService::from_request(&req, "id-1".into(), hash_secret(&req.secret), 99);
    assert_eq!(s.id, "id-1");
    assert_eq!(s.platforms, vec!["ios".to_string()]);
    assert_eq!(s.status, ServiceStatus::Online);
    assert_eq!(s.last_heartbeat, 99);
    assert_eq!(s.created_at, 99);
    assert_ne!(s.secret_hash, "s3cret");
}

#[test]
fn secret_hashes() {
    assert_eq!(hash_secret("abc"), "ba7816bf8f01cfea414140de5dae2223b00361a396177a9cb410ff61f20015ad");
    let h = simple_hash("abc");
    assert_eq!(h.len(), 16);
    assert!(h.chars().all(|c| c.is_ascii_hexdigit() && !c.is_ascii_uppercase()));
    assert_eq!(simple_hash("abc"), h);
    assert_eq!(u64_to_hex16(255), "00000000000000ff");
    assert_eq!(u64_to_hex16(u64::MAX), "ffffffffffffffff");
}

#[test]
fn error_texts() {
    assert_eq!(BmsgError::ServiceNotFound.to_string(), "service not found");
    assert_eq!(BmsgError::DeliveryError("x".into()).to_string(), "delivery error: x");
    assert_eq!(BmsgError::ElectionError("x".into()).to_string(), "election error: x");
    assert_eq!(BmsgError::RegistryError("x".into()).to_string(), "registry error: x");
    assert_eq!(BmsgError::InvalidRequest("x".into()).to_string(), "invalid request: x");
    assert_eq!(BmsgError::Internal("x".into()).to_string(), "internal error: x");
    assert_eq!(BmsgError::StorageError("x".into()).to_string(), "storage error: x");
}

#[test]
fn simple_hash_is_std_string_hash() {
    for input in ["", "abc", "bmsg_0123456789abcdef"] {
        let mut h = DefaultHasher::new();
        input.hash(&mut h);
        assert_eq!(simple_hash(input), format!("{:016x}", h.finish()));
    }
    assert_ne!(simple_hash("abc"), simple_hash("abd"));
}

#[test]
fn stored_row_reads_back() {
    let target = Target {
        platform: "ios".into(),
        app_package: "com.app".into(),
        user_id: "u1".into(),
        msg_type: MessageType::Shell,
    };
    let content = serde_json::Value::from(vec![1, 2]);
    let msg = Message::new_at(target, content.clone(), false, Some(30), "m7".into(), 100);
    let row = MessageRow::from_message(&msg).unwrap();
    assert_eq!(row.id, "m7");
    assert_eq!(row.platform, "ios");
    assert_eq!(row.msg_type, "shell");
    assert_eq!(row.content, "[1,2]");
    assert!(!row.persist);
    assert_eq!(row.ttl, Some(30));
    assert_eq!(row.created_at, 100);
    assert_eq!(row.expires_at, Some(130));
    let back = row.into_message().unwrap();
    assert_eq!(back.id, msg.id);
    assert_eq!(back.target.platform, msg.target.platform);
    assert_eq!(back.target.app_package, msg.target.app_package);
    assert_eq!(back.target.user_id, msg.target.user_id);
    assert_eq!(back.target.msg_type, msg.target.msg_type);
    assert_eq!(back.msg_type, msg.msg_type);
    assert_eq!(back.content, content);
    assert_eq!(back.persist, msg.persist);
    assert_eq!(back.ttl, msg.ttl);
    assert_eq!(back.created_at, msg.created_at);
    assert_eq!(back.expires_at, msg.expires_at);
}

#[test]
fn large_ttl_reads_back() {
    let target = Target {
        platform: "*".into(),
        app_package: "a".into(),
        user_id: "*".into(),
        msg_type: MessageType::Message,
    };
    let msg = Message::new_at(target, serde_json::Value::Null, true, Some(u64::MAX), "m8".into(), 0);
    let row = MessageRow::from_message(&msg).unwrap();
    assert_eq!(row.ttl, Some(-1));
    assert_eq!(row.into_message().unwrap().ttl, Some(u64::MAX));
}

fn register_request() -> RegisterRequest {
    RegisterRequest {
        name: "svc".into(),
        endpoint: "https://e".into(),
        app_package: "com.app".into(),
        platforms: vec!["ios".into(), "*".into()],
        secret: "abc".into(),
    }
}

#[test]
fn registrations_keep_only_the_hash() {
    let req = register_request();
    let (s, platforms) = kv_registration(&req, "id1".into(), 7).unwrap();
    assert_eq!(s.id, "id1");
    assert_eq!(s.secret_hash, simple_hash("abc"));
    assert_eq!(s.platforms, req.platforms);
    assert_eq!(s.status, ServiceStatus::Online);
    assert_eq!((s.last_heartbeat, s.created_at), (7, 7));
    assert_eq!(platforms, r#"["ios","*"]"#);
    let (v, platforms) = upstash_registration(&req, "id2".into(), 8).unwrap();
    assert_eq!(v.secret_hash, "ba7816bf8f01cfea414140de5dae2223b00361a396177a9cb410ff61f20015ad");
    assert_eq!(v.name, "svc");
    assert_eq!(platforms, r#"["ios","*"]"#);
}

fn filter_message() -> Message {
    let target = Target {
        platform: "ios".into(),
        app_package: "com.app".into(),
        user_id: "u1".into(),
        msg_type: MessageType::Notification,
    };
    Message::new_at(target, serde_json::Value::Null, true, None, "m1".into(), 50)
}

#[test]
fn message_filter() {
    let m = filter_message();
    assert!(MessageFilter::default().admits(&m));
    let mut f = MessageFilter::default();
    f.platform = Some("ios".into());
    f.since = Some(50);
    f.until = Some(50);
    assert!(f.admits(&m));
    f.until = Some(49);
    assert!(!f.admits(&m));
    let mut g = MessageFilter::default();
    g.msg_type = Some(MessageType::Shell);
    assert!(!g.admits(&m));
    let mut h = MessageFilter::default();
    h.user_id = Some("u2".into());
    assert!(!h.admits(&m));
}
