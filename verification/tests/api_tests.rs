use bmsg_core::api::{
    bearer, coordinator_route, coordinator_url, is_master_path, leader_claim_url, node_key,
    node_keys_url, parse_route, redis_del_url, redis_get_url, redis_set_url,
    route_not_found_message, service_key, trim_trailing_slashes, u64_to_decimal, ApiRoute,
    CoordinatorRoute,
};

#[test]
fn routes_of_the_api() {
    assert!(matches!(parse_route("POST", "/api/v1/message/send"), ApiRoute::SendMessage));
    assert!(matches!(parse_route("POST", "api//v1/message/batch/"), ApiRoute::BatchSend));
    match parse_route("GET", "/api/v1/message/abc") {
        ApiRoute::GetMessage(id) => assert_eq!(id, "abc"),
        other => panic!("unexpected {:?}", other),
    }
    assert!(matches!(parse_route("GET", "/api/v1/message/list"), ApiRoute::ListMessages));
    match parse_route("DELETE", "/api/v1/message/list") {
        ApiRoute::DeleteMessage(id) => assert_eq!(id, "list"),
        other => panic!("unexpected {:?}", other),
    }
    match parse_route("DELETE", "/api/v1/message/m9") {
        ApiRoute::DeleteMessage(id) => assert_eq!(id, "m9"),
        other => panic!("unexpected {:?}", other),
    }
    assert!(matches!(parse_route("POST", "/api/v1/service/register"), ApiRoute::RegisterService));
    assert!(matches!(parse_route("POST", "/api/v1/service/unregister"), ApiRoute::UnregisterService));
    assert!(matches!(parse_route("POST", "/api/v1/service/heartbeat"), ApiRoute::ServiceHeartbeat));
    assert!(matches!(parse_route("GET", "/api/v1/service/list"), ApiRoute::ListServices));
    match parse_route("GET", "/api/v1/service/s1/status") {
        ApiRoute::ServiceStatus(id) => assert_eq!(id, "s1"),
        other => panic!("unexpected {:?}", other),
    }
    assert!(matches!(parse_route("GET", "/api/v1/node/list"), ApiRoute::ListNodes));
    assert!(matches!(parse_route("GET", "/api/v1/node/status"), ApiRoute::NodeStatus));
    assert!(matches!(parse_route("POST", "/api/v1/node/heartbeat"), ApiRoute::NodeHeartbeat));
    assert!(matches!(parse_route("GET", "/admin"), ApiRoute::Admin));
    assert!(matches!(parse_route("GET", "/api/v1/node/heartbeat"), ApiRoute::NotFound));
    assert!(matches!(parse_route("PUT", "/api/v1/message/send"), ApiRoute::NotFound));
    assert!(matches!(parse_route("GET", "/"), ApiRoute::NotFound));
    assert_eq!(route_not_found_message("/x"), "route not found: /x");
}

#[test]
fn redis_rest_urls() {
    assert_eq!(trim_trailing_slashes("https://r.io///"), "https://r.io");
    assert_eq!(redis_get_url("https://r.io/", "bmsg:leader"), "https://r.io/get/bmsg:leader");
    assert_eq!(redis_del_url("https://r.io", "k"), "https://r.io/del/k");
    assert_eq!(redis_set_url("https://r.io/", "k", "v", 300), "https://r.io/set/k/v?ttl=300");
    assert_eq!(leader_claim_url("https://r.io", "n1"), "https://r.io/set/bmsg:leader/n1?nx=true&ex=60");
    assert_eq!(node_keys_url("https://r.io/"), "https://r.io/keys/bmsg:node:*");
    assert_eq!(node_key("n1"), "bmsg:node:n1");
    assert_eq!(service_key("s1"), "bmsg:service:s1");
    assert_eq!(bearer("t"), "Bearer t");
    assert_eq!(u64_to_decimal(0), "0");
    assert_eq!(u64_to_decimal(18446744073709551615), "18446744073709551615");
}

#[test]
fn coordinator_requests() {
    assert_eq!(coordinator_route("POST", "/campaign"), CoordinatorRoute::Campaign);
    assert_eq!(coordinator_route("POST", "/heartbeat"), CoordinatorRoute::Heartbeat);
    assert_eq!(coordinator_route("POST", "/resign"), CoordinatorRoute::Resign);
    assert_eq!(coordinator_route("GET", "/is_master"), CoordinatorRoute::IsMaster);
    assert_eq!(coordinator_route("GET", "/master"), CoordinatorRoute::Master);
    assert_eq!(coordinator_route("GET", "/nodes"), CoordinatorRoute::Nodes);
    assert_eq!(coordinator_route("GET", "/campaign"), CoordinatorRoute::Unknown);
    assert_eq!(coordinator_url("/nodes"), "https://do.internal/nodes");
    assert_eq!(is_master_path("n1"), "/is_master?id=n1");
}
