//! The HTTP surface: which endpoint a request names, and the texts the
//! handlers build (keys and URLs of the Redis REST service).
use vstd::prelude::*;

use crate::text::{chars_eq, chars_of, split_chars, split_on, str_eq};

verus! {

/// The endpoint a request names.
#[derive(Debug)]
pub enum ApiRoute {
    SendMessage,
    BatchSend,
    GetMessage(String),
    ListMessages,
    DeleteMessage(String),
    RegisterService,
    UnregisterService,
    ServiceHeartbeat,
    ListServices,
    ServiceStatus(String),
    ListNodes,
    NodeStatus,
    NodeHeartbeat,
    Admin,
    NotFound,
}

/// The model of an endpoint.
pub enum RouteView {
    SendMessage,
    BatchSend,
    GetMessage(Seq<char>),
    ListMessages,
    DeleteMessage(Seq<char>),
    RegisterService,
    UnregisterService,
    ServiceHeartbeat,
    ListServices,
    ServiceStatus(Seq<char>),
    ListNodes,
    NodeStatus,
    NodeHeartbeat,
    Admin,
    NotFound,
}

impl View for ApiRoute {
    type V = RouteView;

    open spec fn view(&self) -> RouteView {
        match self {
            ApiRoute::SendMessage => RouteView::SendMessage,
            ApiRoute::BatchSend => RouteView::BatchSend,
            ApiRoute::GetMessage(id) => RouteView::GetMessage(id@),
            ApiRoute::ListMessages => RouteView::ListMessages,
            ApiRoute::DeleteMessage(id) => RouteView::DeleteMessage(id@),
            ApiRoute::RegisterService => RouteView::RegisterService,
            ApiRoute::UnregisterService => RouteView::UnregisterService,
            ApiRoute::ServiceHeartbeat => RouteView::ServiceHeartbeat,
            ApiRoute::ListServices => RouteView::ListServices,
            ApiRoute::ServiceStatus(id) => RouteView::ServiceStatus(id@),
            ApiRoute::ListNodes => RouteView::ListNodes,
            ApiRoute::NodeStatus => RouteView::NodeStatus,
            ApiRoute::NodeHeartbeat => RouteView::NodeHeartbeat,
            ApiRoute::Admin => RouteView::Admin,
            ApiRoute::NotFound => RouteView::NotFound,
        }
    }
}

/// "Not empty".
pub open spec fn nonempty() -> spec_fn(Seq<char>) -> bool {
    |s: Seq<char>| s.len() > 0
}

/// The non-empty `/`-separated segments of a path.
pub open spec fn path_segments(path: Seq<char>) -> Seq<Seq<char>> {
    split_on(path, '/').filter(nonempty())
}

/// `/api/v1/<group>/<name>`.
pub open spec fn api4(segs: Seq<Seq<char>>, group: Seq<char>, name: Seq<char>) -> bool {
    &&& segs.len() == 4
    &&& segs[0] == "api"@
    &&& segs[1] == "v1"@
    &&& segs[2] == group
    &&& segs[3] == name
}

/// `/api/v1/<group>/<anything>`.
pub open spec fn api4_any(segs: Seq<Seq<char>>, group: Seq<char>) -> bool {
    &&& segs.len() == 4
    &&& segs[0] == "api"@
    &&& segs[1] == "v1"@
    &&& segs[2] == group
}

/// The endpoint of a method and path segments: `GET /api/v1/message/list`
/// is the message list, any other `GET /api/v1/message/<x>` a lookup of
/// message `x`.
pub open spec fn spec_route(method: Seq<char>, segs: Seq<Seq<char>>) -> RouteView {
    if method == "POST"@ && api4(segs, "message"@, "send"@) {
        RouteView::SendMessage
    } else if method == "POST"@ && api4(segs, "message"@, "batch"@) {
        RouteView::BatchSend
    } else if method == "GET"@ && api4(segs, "message"@, "list"@) {
        RouteView::ListMessages
    } else if method == "GET"@ && api4_any(segs, "message"@) {
        RouteView::GetMessage(segs[3])
    } else if method == "DELETE"@ && api4_any(segs, "message"@) {
        RouteView::DeleteMessage(segs[3])
    } else if method == "POST"@ && api4(segs, "service"@, "register"@) {
        RouteView::RegisterService
    } else if method == "POST"@ && api4(segs, "service"@, "unregister"@) {
        RouteView::UnregisterService
    } else if method == "POST"@ && api4(segs, "service"@, "heartbeat"@) {
        RouteView::ServiceHeartbeat
    } else if method == "GET"@ && api4(segs, "service"@, "list"@) {
        RouteView::ListServices
    } else if method == "GET"@ && segs.len() == 5 && segs[0] == "api"@ && segs[1] == "v1"@
        && segs[2] == "service"@ && segs[4] == "status"@ {
        RouteView::ServiceStatus(segs[3])
    } else if method == "GET"@ && api4(segs, "node"@, "list"@) {
        RouteView::ListNodes
    } else if method == "GET"@ && api4(segs, "node"@, "status"@) {
        RouteView::NodeStatus
    } else if method == "POST"@ && api4(segs, "node"@, "heartbeat"@) {
        RouteView::NodeHeartbeat
    } else if method == "GET"@ && segs.len() == 1 && segs[0] == "admin"@ {
        RouteView::Admin
    } else {
        RouteView::NotFound
    }
}

/// The non-empty segments of a path.
fn segments(path: &str) -> (r: Vec<Vec<char>>)
    ensures
        r@.len() == path_segments(path@).len(),
        forall|k: int| 0 <= k < r@.len() ==> #[trigger] r@[k]@ == path_segments(path@)[k],
{
    let cs = chars_of(path);
    let pieces = split_chars(&cs, '/');
    let ghost all = split_on(cs@, '/');
    let ghost pred = nonempty();
    let mut r: Vec<Vec<char>> = Vec::new();
    let ghost mut kept: Seq<Seq<char>> = Seq::empty();
    let mut i: usize = 0;
    assert(all.take(0).filter(pred) =~= Seq::<Seq<char>>::empty()) by {
        reveal(Seq::filter);
    }
    while i < pieces.len()
        invariant
            i <= pieces@.len(),
            pieces@.len() == all.len(),
            all == split_on(path@, '/'),
            pred == nonempty(),
            forall|k: int| 0 <= k < pieces@.len() ==> #[trigger] pieces@[k]@ == all[k],
            kept == all.take(i as int).filter(pred),
            r@.len() == kept.len(),
            forall|k: int| 0 <= k < r@.len() ==> #[trigger] r@[k]@ == kept[k],
        decreases pieces.len() - i,
    {
        proof {
            crate::text::lemma_filter_push(all.take(i as int), pred, all[i as int]);
            assert(all.take(i + 1) == all.take(i as int).push(all[i as int]));
        }
        if pieces[i].len() > 0 {
            let mut piece: Vec<char> = Vec::new();
            let mut j: usize = 0;
            while j < pieces[i].len()
                invariant
                    i < pieces@.len(),
                    j <= pieces@[i as int]@.len(),
                    piece@ == pieces@[i as int]@.take(j as int),
                decreases pieces@[i as int]@.len() - j,
            {
                piece.push(pieces[i][j]);
                assert(piece@ =~= pieces@[i as int]@.take(j + 1));
                j = j + 1;
            }
            assert(piece@ =~= pieces@[i as int]@);
            proof {
                kept = kept.push(all[i as int]);
            }
            r.push(piece);
        }
        i = i + 1;
    }
    assert(all.take(all.len() as int) == all);
    r
}

/// Whether segment `i` exists and reads `lit`.
fn seg_is(segs: &Vec<Vec<char>>, i: usize, lit: &str) -> (r: bool)
    ensures
        r == (i < segs@.len() && segs@[i as int]@ == lit@),
{
    if i >= segs.len() {
        return false;
    }
    let l = chars_of(lit);
    chars_eq(&segs[i], &l)
}

/// The text of segment `i`.
fn seg_text(segs: &Vec<Vec<char>>, i: usize) -> (r: String)
    requires
        i < segs@.len(),
    ensures
        r@ == segs@[i as int]@,
{
    crate::text::string_from_chars(&segs[i])
}

/// The endpoint a request names, from its method and URL path.
pub fn parse_route(method: &str, path: &str) -> (r: ApiRoute)
    ensures
        r@ == spec_route(method@, path_segments(path@)),
{
    let segs = segments(path);
    let ghost sv = path_segments(path@);
    let n = segs.len();
    let post = str_eq(method, "POST");
    let get = str_eq(method, "GET");
    let delete = str_eq(method, "DELETE");
    let api = n == 4 && seg_is(&segs, 0, "api") && seg_is(&segs, 1, "v1");
    let message = api && seg_is(&segs, 2, "message");
    let service = api && seg_is(&segs, 2, "service");
    let node = api && seg_is(&segs, 2, "node");
    if post && message && seg_is(&segs, 3, "send") {
        ApiRoute::SendMessage
    } else if post && message && seg_is(&segs, 3, "batch") {
        ApiRoute::BatchSend
    } else if get && message && seg_is(&segs, 3, "list") {
        ApiRoute::ListMessages
    } else if get && message {
        ApiRoute::GetMessage(seg_text(&segs, 3))
    } else if delete && message {
        ApiRoute::DeleteMessage(seg_text(&segs, 3))
    } else if post && service && seg_is(&segs, 3, "register") {
        ApiRoute::RegisterService
    } else if post && service && seg_is(&segs, 3, "unregister") {
        ApiRoute::UnregisterService
    } else if post && service && seg_is(&segs, 3, "heartbeat") {
        ApiRoute::ServiceHeartbeat
    } else if get && service && seg_is(&segs, 3, "list") {
        ApiRoute::ListServices
    } else if get && n == 5 && seg_is(&segs, 0, "api") && seg_is(&segs, 1, "v1") && seg_is(
        &segs,
        2,
        "service",
    ) && seg_is(&segs, 4, "status") {
        ApiRoute::ServiceStatus(seg_text(&segs, 3))
    } else if get && node && seg_is(&segs, 3, "list") {
        ApiRoute::ListNodes
    } else if get && node && seg_is(&segs, 3, "status") {
        ApiRoute::NodeStatus
    } else if post && node && seg_is(&segs, 3, "heartbeat") {
        ApiRoute::NodeHeartbeat
    } else if get && n == 1 && seg_is(&segs, 0, "admin") {
        ApiRoute::Admin
    } else {
        ApiRoute::NotFound
    }
}

/// The message of the answer to an unknown route: `route not found: <path>`.
pub fn route_not_found_message(path: &str) -> (r: String)
    ensures
        r@ == "route not found: "@ + path@,
{
    String::from_str("route not found: ").concat(path)
}


/// `s` without the characters `c` at its end (`str::trim_end_matches`).
pub open spec fn trim_end_char(s: Seq<char>, c: char) -> Seq<char>
    decreases s.len(),
{
    if s.len() > 0 && s.last() == c {
        trim_end_char(s.drop_last(), c)
    } else {
        s
    }
}

/// The base URL without trailing slashes.
pub fn trim_trailing_slashes(url: &str) -> (r: String)
    ensures
        r@ == trim_end_char(url@, '/'),
{
    let cs = chars_of(url);
    let mut hi = cs.len();
    assert(cs@.take(hi as int) =~= cs@);
    while hi > 0 && cs[hi - 1] == '/'
        invariant
            hi <= cs@.len(),
            trim_end_char(cs@, '/') == trim_end_char(cs@.take(hi as int), '/'),
        decreases hi,
    {
        assert(cs@.take(hi as int).drop_last() =~= cs@.take(hi - 1));
        hi = hi - 1;
    }
    assert(cs@.subrange(0, hi as int) =~= cs@.take(hi as int));
    crate::text::string_from_range(&cs, 0, hi)
}

/// The decimal digit of a value below 10.
pub open spec fn digit_char(d: int) -> char {
    ((d + 48) as u8) as char
}

/// The decimal text of a number, without leading zeros.
pub open spec fn decimal(x: nat) -> Seq<char>
    decreases x,
{
    if x < 10 {
        seq![digit_char(x as int)]
    } else {
        decimal(x / 10).push(digit_char((x % 10) as int))
    }
}

fn push_decimal(x: u64, out: &mut Vec<char>)
    ensures
        final(out)@ == old(out)@ + decimal(x as nat),
    decreases x,
{
    if x >= 10 {
        push_decimal(x / 10, out);
    }
    let d = (x % 10) as u8;
    out.push((d + 48) as char);
    if x < 10 {
        assert(decimal(x as nat) =~= seq![digit_char(x as int)]);
    }
}

/// The decimal text of a number (`{}` formatting of a `u64`).
pub fn u64_to_decimal(x: u64) -> (r: String)
    ensures
        r@ == decimal(x as nat),
{
    let mut cs: Vec<char> = Vec::new();
    push_decimal(x, &mut cs);
    assert(cs@ =~= decimal(x as nat));
    crate::text::string_from_chars(&cs)
}

/// The key of the leader record.
pub open spec fn leader_key() -> Seq<char> {
    "bmsg:leader"@
}

/// The key under which a node's info is kept: `bmsg:node:<id>`.
pub fn node_key(id: &str) -> (r: String)
    ensures
        r@ == "bmsg:node:"@ + id@,
{
    String::from_str("bmsg:node:").concat(id)
}

/// The key under which a service is cached: `bmsg:service:<id>`.
pub fn service_key(id: &str) -> (r: String)
    ensures
        r@ == "bmsg:service:"@ + id@,
{
    String::from_str("bmsg:service:").concat(id)
}

/// The bearer authorisation header value of a token.
pub fn bearer(token: &str) -> (r: String)
    ensures
        r@ == "Bearer "@ + token@,
{
    String::from_str("Bearer ").concat(token)
}

/// `<base>/get/<key>`, with the base's trailing slashes dropped.
pub fn redis_get_url(base: &str, key: &str) -> (r: String)
    ensures
        r@ == trim_end_char(base@, '/') + "/get/"@ + key@,
{
    trim_trailing_slashes(base).concat("/get/").concat(key)
}

/// `<base>/del/<key>`.
pub fn redis_del_url(base: &str, key: &str) -> (r: String)
    ensures
        r@ == trim_end_char(base@, '/') + "/del/"@ + key@,
{
    trim_trailing_slashes(base).concat("/del/").concat(key)
}

/// `<base>/set/<key>/<value>?ttl=<ttl>`.
pub fn redis_set_url(base: &str, key: &str, value: &str, ttl_secs: u64) -> (r: String)
    ensures
        r@ == trim_end_char(base@, '/') + "/set/"@ + key@ + "/"@ + value@ + "?ttl="@ + decimal(
            ttl_secs as nat,
        ),
{
    let ttl = u64_to_decimal(ttl_secs);
    trim_trailing_slashes(base).concat("/set/").concat(key).concat("/").concat(value).concat(
        "?ttl=",
    ).concat(ttl.as_str())
}

/// The claim of leadership: set `bmsg:leader` to the node only if unset,
/// expiring after 60 seconds.
pub fn leader_claim_url(base: &str, node_id: &str) -> (r: String)
    ensures
        r@ == trim_end_char(base@, '/') + "/set/"@ + leader_key() + "/"@ + node_id@
            + "?nx=true&ex=60"@,
{
    trim_trailing_slashes(base).concat("/set/").concat("bmsg:leader").concat("/").concat(
        node_id,
    ).concat("?nx=true&ex=60")
}

/// The listing of all node keys: `<base>/keys/bmsg:node:*`.
pub fn node_keys_url(base: &str) -> (r: String)
    ensures
        r@ == trim_end_char(base@, '/') + "/keys/bmsg:node:*"@,
{
    trim_trailing_slashes(base).concat("/keys/bmsg:node:*")
}

/// The request of a node to the coordinating object: `https://do.internal<path>`.
pub fn coordinator_url(path: &str) -> (r: String)
    ensures
        r@ == "https://do.internal"@ + path@,
{
    String::from_str("https://do.internal").concat(path)
}

/// The path asking whether node `id` is the master.
pub fn is_master_path(id: &str) -> (r: String)
    ensures
        r@ == "/is_master?id="@ + id@,
{
    String::from_str("/is_master?id=").concat(id)
}

/// The kinds of request that the coordinating object serves.
#[derive(Debug, Clone, Copy, PartialEq, Eq, Structural)]
pub enum CoordinatorRoute {
    Campaign,
    Heartbeat,
    Resign,
    IsMaster,
    Master,
    Nodes,
    Unknown,
}

/// The request kind of a method and path at the coordinating object.
pub open spec fn spec_coordinator_route(method: Seq<char>, path: Seq<char>) -> CoordinatorRoute {
    if method == "POST"@ && path == "/campaign"@ {
        CoordinatorRoute::Campaign
    } else if method == "POST"@ && path == "/heartbeat"@ {
        CoordinatorRoute::Heartbeat
    } else if method == "POST"@ && path == "/resign"@ {
        CoordinatorRoute::Resign
    } else if method == "GET"@ && path == "/is_master"@ {
        CoordinatorRoute::IsMaster
    } else if method == "GET"@ && path == "/master"@ {
        CoordinatorRoute::Master
    } else if method == "GET"@ && path == "/nodes"@ {
        CoordinatorRoute::Nodes
    } else {
        CoordinatorRoute::Unknown
    }
}

/// Which request the coordinating object is asked for.
pub fn coordinator_route(method: &str, path: &str) -> (r: CoordinatorRoute)
    ensures
        r == spec_coordinator_route(method@, path@),
{
    let post = str_eq(method, "POST");
    let get = str_eq(method, "GET");
    if post && str_eq(path, "/campaign") {
        CoordinatorRoute::Campaign
    } else if post && str_eq(path, "/heartbeat") {
        CoordinatorRoute::Heartbeat
    } else if post && str_eq(path, "/resign") {
        CoordinatorRoute::Resign
    } else if get && str_eq(path, "/is_master") {
        CoordinatorRoute::IsMaster
    } else if get && str_eq(path, "/master") {
        CoordinatorRoute::Master
    } else if get && str_eq(path, "/nodes") {
        CoordinatorRoute::Nodes
    } else {
        CoordinatorRoute::Unknown
    }
}

} // verus!
