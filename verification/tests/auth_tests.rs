use bmsg_core::auth::{
    add_admin_update, admin_listing, admin_page_url, all_admins, api_key_text, builtin_admins,
    check_auth, create_key_update, delete_key_update, github_authorize_url, logout_set_cookie,
    remove_admin_update, session_cookie, session_set_cookie, session_store_key,
    stored_admin_list, validate_api_key, AdminSource, AdminUpdate,
};
use bmsg_core::{ApiKey, Session};

fn strings(v: &[&str]) -> Vec<String> {
    v.iter().map(|s| s.to_string()).collect()
}

#[test]
fn cookie_is_found_among_others() {
    assert_eq!(session_cookie("a=1; bmsg_session=abc; b=2"), Some("abc".to_string()));
    assert_eq!(session_cookie("  bmsg_session=x=y  "), Some("x=y".to_string()));
    assert_eq!(session_cookie("bmsg_session=first; bmsg_session=second"), Some("first".to_string()));
    assert_eq!(session_cookie("bmsg_sessionx=1"), None);
    assert_eq!(session_cookie(""), None);
    assert_eq!(session_cookie("bmsg_session="), Some(String::new()));
}

#[test]
fn set_cookie_round_trips() {
    let header = session_set_cookie("sid-42");
    assert_eq!(header, "bmsg_session=sid-42; Path=/; HttpOnly; Secure; SameSite=Lax; Max-Age=86400");
    let pair = header.split(';').next().unwrap();
    assert_eq!(session_cookie(pair), Some("sid-42".to_string()));
    assert_eq!(logout_set_cookie(), "bmsg_session=; Path=/; HttpOnly; Secure; SameSite=Lax; Max-Age=0");
    assert_eq!(session_store_key("sid-42"), "bmsg:session:sid-42");
}

#[test]
fn effective_admins() {
    let builtin = builtin_admins();
    assert_eq!(builtin.len(), 7);
    let blocked = strings(&["fntp"]);
    let dynamic = strings(&["alice", "yokeay", "fntp", "alice", "bob"]);
    let admins = all_admins(&builtin, &blocked, &dynamic);
    assert_eq!(
        admins,
        strings(&["LengendXing", "sunchengxing", "chenyiqiu", "chenshiluan", "52bendy", "yokeay", "alice", "bob"])
    );
}

#[test]
fn removing_admins() {
    let builtin = builtin_admins();
    let blocked: Vec<String> = Vec::new();
    let dynamic = strings(&["alice", "bob"]);
    match remove_admin_update("fntp", &blocked, &dynamic, &builtin) {
        AdminUpdate::SetBlocked(b) => {
            assert_eq!(b, strings(&["fntp"]));
            assert!(!all_admins(&builtin, &b, &dynamic).contains(&"fntp".to_string()));
        }
        other => panic!("unexpected {:?}", other),
    }
    match remove_admin_update("alice", &blocked, &dynamic, &builtin) {
        AdminUpdate::SetDynamic(d) => assert_eq!(d, strings(&["bob"])),
        other => panic!("unexpected {:?}", other),
    }
    assert!(matches!(remove_admin_update("", &blocked, &dynamic, &builtin), AdminUpdate::Rejected));
}

#[test]
fn adding_admins() {
    let builtin = builtin_admins();
    let dynamic = strings(&["alice"]);
    match add_admin_update("carol", &dynamic, &builtin) {
        AdminUpdate::SetDynamic(d) => assert_eq!(d, strings(&["alice", "carol"])),
        other => panic!("unexpected {:?}", other),
    }
    match add_admin_update("alice", &dynamic, &builtin) {
        AdminUpdate::SetDynamic(d) => assert_eq!(d, strings(&["alice"])),
        other => panic!("unexpected {:?}", other),
    }
    match add_admin_update("52bendy", &dynamic, &builtin) {
        AdminUpdate::SetDynamic(d) => assert_eq!(d, strings(&["alice"])),
        other => panic!("unexpected {:?}", other),
    }
    assert!(matches!(add_admin_update("", &dynamic, &builtin), AdminUpdate::Rejected));
}

#[test]
fn session_needs_an_admin() {
    let admins = strings(&["alice"]);
    let ok = Session { username: "alice".into(), created_at: 1 };
    let no = Session { username: "mallory".into(), created_at: 1 };
    assert_eq!(check_auth(Some(ok), &admins), Some("alice".to_string()));
    assert_eq!(check_auth(Some(no), &admins), None);
    assert_eq!(check_auth(None, &admins), None);
}

#[test]
fn stored_lists_read_json() {
    assert_eq!(stored_admin_list(Some("[\"a\",\"b\"]")), strings(&["a", "b"]));
    assert!(stored_admin_list(Some("not json")).is_empty());
    assert!(stored_admin_list(None).is_empty());
}

#[test]
fn listing_marks_sources() {
    let l = admin_listing(&strings(&["x"]), &strings(&["y", "z"]));
    assert_eq!(l.len(), 3);
    assert_eq!(l[0].0, "x");
    assert_eq!(l[0].1, AdminSource::Builtin);
    assert_eq!(l[2].0, "z");
    assert_eq!(l[2].1.as_str(), "dynamic");
}

#[test]
fn api_keys_lifecycle() {
    let uuid = "123e4567-e89b-12d3-a456-426614174000";
    assert_eq!(api_key_text(uuid), "bmsg_123e4567e89b12d3a456426614174000");
    let keys: Vec<ApiKey> = Vec::new();
    assert!(create_key_update("", &keys, "k0".into(), uuid, 5).is_none());
    let (keys, value) = create_key_update("ci", &keys, "k1".into(), uuid, 5).unwrap();
    assert_eq!(keys.len(), 1);
    assert_eq!(keys[0].name, "ci");
    assert_eq!(keys[0].created_at, 5);
    assert!(validate_api_key(&value, &keys));
    assert!(!validate_api_key("bmsg_other", &keys));
    let (rest, deleted) = delete_key_update(&keys, "k1");
    assert!(rest.is_empty());
    assert_eq!(deleted, Some(value.clone()));
    assert!(!validate_api_key(&value, &rest));
    let (same, none) = delete_key_update(&keys, "nope");
    assert_eq!(same.len(), 1);
    assert_eq!(none, None);
}

#[test]
fn urls() {
    assert_eq!(admin_page_url(), "https://bendy-message.dabendi66.workers.dev/admin");
    assert_eq!(
        github_authorize_url("cid"),
        "https://github.com/login/oauth/authorize?client_id=cid&redirect_uri=https://bendy-message.dabendi66.workers.dev/api/auth/github/callback&scope=read:user"
    );
}
