use bmsg_core::election::heartbeat_node_info;
use bmsg_core::{DoState, ElectionReply, ElectionRequest, NodeRole};

fn campaign(s: &mut DoState, id: &str, now: i64) -> (bool, Option<String>) {
    match s.handle(ElectionRequest::Campaign { id: id.to_string(), region: "hk".to_string() }, now) {
        ElectionReply::Campaign { won, master } => (won, master),
        other => panic!("unexpected reply {:?}", other),
    }
}

fn is_master(s: &mut DoState, id: &str, now: i64) -> bool {
    match s.handle(ElectionRequest::IsMaster { id: Some(id.to_string()) }, now) {
        ElectionReply::IsMaster(b) => b,
        other => panic!("unexpected reply {:?}", other),
    }
}

#[test]
fn first_campaign_wins() {
    let mut s = DoState::new();
    assert_eq!(campaign(&mut s, "a", 100), (true, Some("a".to_string())));
    assert!(is_master(&mut s, "a", 101));
    assert!(!is_master(&mut s, "b", 101));
}

#[test]
fn rival_loses_during_lease() {
    let mut s = DoState::new();
    campaign(&mut s, "a", 100);
    assert_eq!(campaign(&mut s, "b", 160), (false, Some("a".to_string())));
}

#[test]
fn silent_master_is_replaced_after_sixty_seconds() {
    let mut s = DoState::new();
    campaign(&mut s, "a", 100);
    assert_eq!(campaign(&mut s, "b", 161), (true, Some("b".to_string())));
}

#[test]
fn heartbeat_renews_lease() {
    let mut s = DoState::new();
    campaign(&mut s, "a", 100);
    s.handle(ElectionRequest::Heartbeat { id: "a".to_string() }, 150);
    assert_eq!(campaign(&mut s, "b", 200), (false, Some("a".to_string())));
    assert_eq!(campaign(&mut s, "b", 211), (true, Some("b".to_string())));
}

#[test]
fn resign_frees_seat_and_demotes() {
    let mut s = DoState::new();
    campaign(&mut s, "a", 100);
    s.handle(ElectionRequest::Resign { id: "b".to_string() }, 101);
    assert!(is_master(&mut s, "a", 102));
    s.handle(ElectionRequest::Resign { id: "a".to_string() }, 103);
    assert!(!is_master(&mut s, "a", 104));
    match s.handle(ElectionRequest::Nodes, 104) {
        ElectionReply::Nodes(nodes) => {
            assert_eq!(nodes.len(), 1);
            assert_eq!(nodes[0].role, NodeRole::Slave);
            assert_eq!(nodes[0].last_heartbeat, 103);
        }
        other => panic!("unexpected reply {:?}", other),
    }
    assert_eq!(campaign(&mut s, "b", 105), (true, Some("b".to_string())));
}

#[test]
fn master_info_is_the_winner() {
    let mut s = DoState::new();
    campaign(&mut s, "a", 100);
    campaign(&mut s, "b", 110);
    match s.handle(ElectionRequest::Master, 120) {
        ElectionReply::Master(Some(n)) => {
            assert_eq!(n.id, "a");
            assert_eq!(n.role, NodeRole::Master);
            assert_eq!(n.platform, "cf");
            assert_eq!(n.region, "hk");
            assert_eq!(n.started_at, 100);
        }
        other => panic!("unexpected reply {:?}", other),
    }
}

#[test]
fn nodes_are_listed_once_and_stale_ones_dropped() {
    let mut s = DoState::new();
    campaign(&mut s, "a", 100);
    campaign(&mut s, "b", 110);
    campaign(&mut s, "b", 120);
    match s.handle(ElectionRequest::Nodes, 130) {
        ElectionReply::Nodes(nodes) => {
            assert_eq!(nodes.len(), 2);
            assert_eq!(nodes[1].id, "b");
            assert_eq!(nodes[1].last_heartbeat, 120);
        }
        other => panic!("unexpected reply {:?}", other),
    }
    match s.handle(ElectionRequest::Nodes, 175) {
        ElectionReply::Nodes(nodes) => {
            assert_eq!(nodes.len(), 1);
            assert_eq!(nodes[0].id, "b");
        }
        other => panic!("unexpected reply {:?}", other),
    }
}

#[test]
fn is_master_without_id_names_no_node() {
    let mut s = DoState::new();
    match s.handle(ElectionRequest::IsMaster { id: None }, 1) {
        ElectionReply::IsMaster(b) => assert!(!b),
        other => panic!("unexpected reply {:?}", other),
    }
    campaign(&mut s, "a", 10);
    match s.handle(ElectionRequest::IsMaster { id: None }, 11) {
        ElectionReply::IsMaster(b) => assert!(!b),
        other => panic!("unexpected reply {:?}", other),
    }
}

fn roles(s: &mut DoState, now: i64) -> Vec<(String, NodeRole)> {
    match s.handle(ElectionRequest::Nodes, now) {
        ElectionReply::Nodes(nodes) => nodes.into_iter().map(|n| (n.id, n.role)).collect(),
        other => panic!("unexpected reply {:?}", other),
    }
}

#[test]
fn master_campaigning_again_stays_master() {
    let mut s = DoState::new();
    assert_eq!(campaign(&mut s, "a", 1), (true, Some("a".to_string())));
    assert_eq!(campaign(&mut s, "a", 2), (false, Some("a".to_string())));
    assert_eq!(roles(&mut s, 3), vec![("a".to_string(), NodeRole::Master)]);
}

#[test]
fn expired_master_steps_down() {
    let mut s = DoState::new();
    campaign(&mut s, "a", 100);
    assert_eq!(campaign(&mut s, "a", 150), (false, Some("a".to_string())));
    assert_eq!(campaign(&mut s, "b", 161), (true, Some("b".to_string())));
    assert_eq!(
        roles(&mut s, 162),
        vec![("a".to_string(), NodeRole::Slave), ("b".to_string(), NodeRole::Master)]
    );
}

#[test]
fn unknown_request() {
    let mut s = DoState::new();
    assert!(matches!(s.handle(ElectionRequest::Unknown, 1), ElectionReply::UnknownRoute));
}

#[test]
fn vercel_heartbeat_info() {
    let n = heartbeat_node_info("dep-1", true, "iad1", 42);
    assert_eq!(n.id, "dep-1");
    assert_eq!(n.role, NodeRole::Master);
    assert_eq!(n.platform, "vercel");
    assert_eq!(n.region, "iad1");
    assert_eq!(n.started_at, 42);
    let m = heartbeat_node_info("dep-2", false, "auto", 7);
    assert_eq!(m.role, NodeRole::Slave);
}
