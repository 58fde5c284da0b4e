//! Leader election: one master among the nodes, chosen by campaigning,
//! kept alive by heartbeats, and replaced 60 seconds after it falls silent.
use vstd::prelude::*;

use crate::text::{opt_view, str_eq};

verus! {

/// The role of a node.
#[derive(Debug, Clone, Copy, PartialEq, Eq, Structural)]
pub enum NodeRole {
    Master,
    Slave,
}

/// What the cluster knows of one node.
#[derive(Debug)]
pub struct NodeInfo {
    pub id: String,
    pub role: NodeRole,
    pub platform: String,
    pub region: String,
    pub started_at: i64,
    pub last_heartbeat: i64,
}

impl Clone for NodeInfo {
    fn clone(&self) -> (r: Self)
        ensures
            r == *self,
    {
        NodeInfo {
            id: self.id.clone(),
            role: self.role,
            platform: self.platform.clone(),
            region: self.region.clone(),
            started_at: self.started_at,
            last_heartbeat: self.last_heartbeat,
        }
    }
}

/// The model of a node.
pub struct NodeView {
    pub id: Seq<char>,
    pub role: NodeRole,
    pub platform: Seq<char>,
    pub region: Seq<char>,
    pub started_at: i64,
    pub last_heartbeat: i64,
}

impl View for NodeInfo {
    type V = NodeView;

    open spec fn view(&self) -> NodeView {
        NodeView {
            id: self.id@,
            role: self.role,
            platform: self.platform@,
            region: self.region@,
            started_at: self.started_at,
            last_heartbeat: self.last_heartbeat,
        }
    }
}

impl DeepView for NodeInfo {
    type V = NodeView;

    open spec fn deep_view(&self) -> NodeView {
        self@
    }
}

/// The model of the election state: the master's id, the time of its last
/// heartbeat (0 when there is none), and the known nodes.
pub struct ElectionView {
    pub master: Option<Seq<char>>,
    pub master_heartbeat: i64,
    pub nodes: Seq<NodeView>,
}

/// A node is listed once.
pub open spec fn unique_ids(nodes: Seq<NodeView>) -> bool {
    forall|i: int, j: int|
        0 <= i < nodes.len() && 0 <= j < nodes.len() && i != j ==> #[trigger] nodes[i].id
            != #[trigger] nodes[j].id
}

/// A listed node has the master role exactly when its id is the master's.
pub open spec fn roles_agree(s: ElectionView) -> bool {
    forall|i: int|
        0 <= i < s.nodes.len() ==> (#[trigger] s.nodes[i].role == NodeRole::Master <==> s.master
            == Some(s.nodes[i].id))
}

/// The consistency of the election state: every node is listed once, and
/// only the master's node holds the master role.
pub open spec fn election_inv(s: ElectionView) -> bool {
    unique_ids(s.nodes) && roles_agree(s)
}

/// Whether a node with this id is listed.
pub open spec fn has_node(nodes: Seq<NodeView>, id: Seq<char>) -> bool {
    exists|i: int| 0 <= i < nodes.len() && #[trigger] nodes[i].id == id
}

/// `i` is the first position of a node with this id.
pub open spec fn is_first_pos(nodes: Seq<NodeView>, id: Seq<char>, i: int) -> bool {
    &&& 0 <= i < nodes.len()
    &&& nodes[i].id == id
    &&& forall|j: int| 0 <= j < i ==> #[trigger] nodes[j].id != id
}

/// The position of the node with this id (meaningful when it is listed).
pub open spec fn node_pos(nodes: Seq<NodeView>, id: Seq<char>) -> int {
    choose|i: int| is_first_pos(nodes, id, i)
}

/// A listed node has a first position, and it is `node_pos`.
pub proof fn lemma_node_pos(nodes: Seq<NodeView>, id: Seq<char>)
    requires
        has_node(nodes, id),
    ensures
        is_first_pos(nodes, id, node_pos(nodes, id)),
    decreases nodes.len(),
{
    let init = nodes.drop_last();
    if has_node(init, id) {
        lemma_node_pos(init, id);
        let i = node_pos(init, id);
        assert forall|j: int| 0 <= j < i implies #[trigger] nodes[j].id != id by {
            assert(init[j] == nodes[j]);
        }
        assert(init[i] == nodes[i]);
        assert(is_first_pos(nodes, id, i));
    } else {
        let k = nodes.len() - 1;
        assert forall|j: int| 0 <= j < k implies #[trigger] nodes[j].id != id by {
            assert(init[j] == nodes[j]);
        }
        assert(nodes[k].id == id);
        assert(is_first_pos(nodes, id, k));
    }
}

/// There is one first position.
pub proof fn lemma_first_pos_unique(nodes: Seq<NodeView>, id: Seq<char>, i: int, j: int)
    requires
        is_first_pos(nodes, id, i),
        is_first_pos(nodes, id, j),
    ensures
        i == j,
{
    if i < j {
        assert(nodes[i].id != id);
    } else if j < i {
        assert(nodes[j].id != id);
    }
}

/// The node list after a node is recorded with a role at `now`: a listed node
/// takes the role and the time; an unknown one is appended as a new Cloudflare
/// node started now in the given region.
pub open spec fn upsert(
    nodes: Seq<NodeView>,
    id: Seq<char>,
    role: NodeRole,
    region: Seq<char>,
    now: i64,
) -> Seq<NodeView> {
    if has_node(nodes, id) {
        let n = nodes[node_pos(nodes, id)];
        nodes.update(
            node_pos(nodes, id),
            NodeView {
                id: n.id,
                role: role,
                platform: n.platform,
                region: n.region,
                started_at: n.started_at,
                last_heartbeat: now,
            },
        )
    } else {
        nodes.push(
            NodeView {
                id: id,
                role: role,
                platform: "cf"@,
                region: region,
                started_at: now,
                last_heartbeat: now,
            },
        )
    }
}

/// The node list after a heartbeat of a node at `now`.
pub open spec fn touch(nodes: Seq<NodeView>, id: Seq<char>, now: i64) -> Seq<NodeView> {
    if has_node(nodes, id) {
        let n = nodes[node_pos(nodes, id)];
        nodes.update(
            node_pos(nodes, id),
            NodeView {
                id: n.id,
                role: n.role,
                platform: n.platform,
                region: n.region,
                started_at: n.started_at,
                last_heartbeat: now,
            },
        )
    } else {
        nodes
    }
}

/// The node list after a node steps down to slave at `now`.
pub open spec fn demote(nodes: Seq<NodeView>, id: Seq<char>, now: i64) -> Seq<NodeView> {
    if has_node(nodes, id) {
        let n = nodes[node_pos(nodes, id)];
        nodes.update(
            node_pos(nodes, id),
            NodeView {
                id: n.id,
                role: NodeRole::Slave,
                platform: n.platform,
                region: n.region,
                started_at: n.started_at,
                last_heartbeat: now,
            },
        )
    } else {
        nodes
    }
}

/// The master lease has run out: a master heartbeat is on record and more
/// than 60 seconds have passed since it.
pub open spec fn lease_expired(s: ElectionView, now: i64) -> bool {
    s.master_heartbeat > 0 && now - s.master_heartbeat > 60
}

/// The node list after a node steps down to slave, its last-seen time kept.
pub open spec fn step_down(nodes: Seq<NodeView>, id: Seq<char>) -> Seq<NodeView> {
    if has_node(nodes, id) {
        let n = nodes[node_pos(nodes, id)];
        nodes.update(
            node_pos(nodes, id),
            NodeView {
                id: n.id,
                role: NodeRole::Slave,
                platform: n.platform,
                region: n.region,
                started_at: n.started_at,
                last_heartbeat: n.last_heartbeat,
            },
        )
    } else {
        nodes
    }
}

/// The state once an expired master is dropped (its node becomes a slave);
/// done before every request.
pub open spec fn spec_expire(s: ElectionView, now: i64) -> ElectionView {
    if lease_expired(s, now) {
        ElectionView {
            master: None,
            master_heartbeat: 0,
            nodes: match s.master {
                Some(m) => step_down(s.nodes, m),
                None => s.nodes,
            },
        }
    } else {
        s
    }
}

/// A campaign wins exactly when there is no master; the campaigner is
/// recorded as master when it is the master afterwards (it won, or it already
/// held the seat), as slave otherwise.
pub open spec fn spec_campaign(s: ElectionView, id: Seq<char>, region: Seq<char>, now: i64) -> ElectionView {
    let won = s.master is None;
    let leads = won || s.master == Some(id);
    ElectionView {
        master: if won {
            Some(id)
        } else {
            s.master
        },
        master_heartbeat: if won {
            now
        } else {
            s.master_heartbeat
        },
        nodes: upsert(
            s.nodes,
            id,
            if leads {
                NodeRole::Master
            } else {
                NodeRole::Slave
            },
            region,
            now,
        ),
    }
}

/// A heartbeat renews the master's lease when it comes from the master, and
/// the node's last-seen time when the node is listed.
pub open spec fn spec_heartbeat(s: ElectionView, id: Seq<char>, now: i64) -> ElectionView {
    ElectionView {
        master: s.master,
        master_heartbeat: if s.master == Some(id) {
            now
        } else {
            s.master_heartbeat
        },
        nodes: touch(s.nodes, id, now),
    }
}

/// Only the master can resign; it then becomes a slave and the seat is free.
pub open spec fn spec_resign(s: ElectionView, id: Seq<char>, now: i64) -> ElectionView {
    if s.master == Some(id) {
        ElectionView { master: None, master_heartbeat: 0, nodes: demote(s.nodes, id, now) }
    } else {
        s
    }
}

/// A node is alive when it was seen in the last 60 seconds.
pub open spec fn alive(now: i64) -> spec_fn(NodeView) -> bool {
    |n: NodeView| now - n.last_heartbeat <= 60
}

/// The state once the nodes silent for more than 60 seconds are forgotten.
pub open spec fn spec_prune(s: ElectionView, now: i64) -> ElectionView {
    ElectionView {
        master: s.master,
        master_heartbeat: s.master_heartbeat,
        nodes: s.nodes.filter(alive(now)),
    }
}

/// The master's node entry, when there is a master and it is listed.
pub open spec fn spec_master_info(s: ElectionView) -> Option<NodeView> {
    match s.master {
        Some(m) => if has_node(s.nodes, m) {
            Some(s.nodes[node_pos(s.nodes, m)])
        } else {
            None
        },
        None => None,
    }
}

pub open spec fn opt_node_view(o: Option<NodeInfo>) -> Option<NodeView> {
    match o {
        Some(n) => Some(n@),
        None => None,
    }
}

/// The election state kept by the coordinating object.
pub struct DoState {
    master_id: Option<String>,
    master_heartbeat: i64,
    nodes: Vec<NodeInfo>,
}

impl View for DoState {
    type V = ElectionView;

    closed spec fn view(&self) -> ElectionView {
        ElectionView {
            master: opt_view(self.master_id),
            master_heartbeat: self.master_heartbeat,
            nodes: self.nodes.deep_view(),
        }
    }
}

/// Replacing the node with this id by `n` (same id) keeps the ids unique and
/// leaves every other entry as it was; those entries have other ids.
proof fn lemma_update_at_id(nodes: Seq<NodeView>, id: Seq<char>, n: NodeView)
    requires
        unique_ids(nodes),
        has_node(nodes, id),
        n.id == id,
    ensures
        0 <= node_pos(nodes, id) < nodes.len(),
        nodes[node_pos(nodes, id)].id == id,
        unique_ids(nodes.update(node_pos(nodes, id), n)),
        forall|k: int|
            0 <= k < nodes.len() ==> (k == node_pos(nodes, id) && #[trigger] nodes.update(
                node_pos(nodes, id),
                n,
            )[k] == n) || (nodes.update(node_pos(nodes, id), n)[k] == nodes[k] && nodes[k].id
                != id),
{
    lemma_node_pos(nodes, id);
    let p = node_pos(nodes, id);
    let u = nodes.update(p, n);
    assert forall|k: int| 0 <= k < nodes.len() implies (k == p && #[trigger] u[k] == n) || (u[k]
        == nodes[k] && nodes[k].id != id) by {
        if k != p {
            assert(nodes[k].id != nodes[p].id);
        }
    }
    assert forall|i: int, j: int|
        0 <= i < u.len() && 0 <= j < u.len() && i != j implies #[trigger] u[i].id
        != #[trigger] u[j].id by {
        if i != p && j != p {
            assert(nodes[i].id != nodes[j].id);
        } else if i == p {
            assert(nodes[j].id != nodes[p].id);
        } else {
            assert(nodes[i].id != nodes[p].id);
        }
    }
}

/// Recording a node keeps the ids unique; the entry with its id has the
/// given role, and every other entry is unchanged and has another id.
proof fn lemma_upsert_shape(
    nodes: Seq<NodeView>,
    id: Seq<char>,
    role: NodeRole,
    region: Seq<char>,
    now: i64,
)
    requires
        unique_ids(nodes),
    ensures
        unique_ids(upsert(nodes, id, role, region, now)),
        forall|k: int|
            0 <= k < upsert(nodes, id, role, region, now).len() ==> ((#[trigger] upsert(
                nodes,
                id,
                role,
                region,
                now,
            )[k]).id == id && upsert(nodes, id, role, region, now)[k].role == role) || (k
                < nodes.len() && upsert(nodes, id, role, region, now)[k] == nodes[k]
                && nodes[k].id != id),
{
    let u = upsert(nodes, id, role, region, now);
    if has_node(nodes, id) {
        lemma_node_pos(nodes, id);
        let n = nodes[node_pos(nodes, id)];
        let nn = NodeView {
            id: n.id,
            role: role,
            platform: n.platform,
            region: n.region,
            started_at: n.started_at,
            last_heartbeat: now,
        };
        lemma_update_at_id(nodes, id, nn);
        assert forall|k: int| 0 <= k < u.len() implies ((#[trigger] u[k]).id == id && u[k].role
            == role) || (k < nodes.len() && u[k] == nodes[k] && nodes[k].id != id) by {
            assert(u[k] == nodes.update(node_pos(nodes, id), nn)[k]);
        }
    } else {
        assert forall|k: int| 0 <= k < u.len() implies ((#[trigger] u[k]).id == id && u[k].role
            == role) || (k < nodes.len() && u[k] == nodes[k] && nodes[k].id != id) by {
            if k < nodes.len() {
                assert(u[k] == nodes[k]);
                if nodes[k].id == id {
                    assert(has_node(nodes, id));
                }
            }
        }
        assert forall|i: int, j: int|
            0 <= i < u.len() && 0 <= j < u.len() && i != j implies #[trigger] u[i].id
            != #[trigger] u[j].id by {
            if i < nodes.len() && j < nodes.len() {
                assert(u[i] == nodes[i] && u[j] == nodes[j]);
            } else if i < nodes.len() {
                assert(u[i] == nodes[i]);
                if nodes[i].id == id {
                    assert(has_node(nodes, id));
                }
            } else {
                assert(u[j] == nodes[j]);
                if nodes[j].id == id {
                    assert(has_node(nodes, id));
                }
            }
        }
    }
}

/// With no master, no listed node has the master role.
proof fn lemma_no_master_no_role(s: ElectionView, k: int)
    requires
        roles_agree(s),
        s.master is None,
        0 <= k < s.nodes.len(),
    ensures
        s.nodes[k].role == NodeRole::Slave,
{
    assert(s.nodes[k].role == NodeRole::Master <==> s.master == Some(s.nodes[k].id));
}

/// A campaign keeps the election state consistent.
pub proof fn lemma_campaign_keeps_inv(s: ElectionView, id: Seq<char>, region: Seq<char>, now: i64)
    requires
        election_inv(s),
    ensures
        election_inv(spec_campaign(s, id, region, now)),
{
    let leads = s.master is None || s.master == Some(id);
    let role = if leads {
        NodeRole::Master
    } else {
        NodeRole::Slave
    };
    lemma_upsert_shape(s.nodes, id, role, region, now);
    let t = spec_campaign(s, id, region, now);
    assert(t.nodes == upsert(s.nodes, id, role, region, now));
    assert forall|k: int| 0 <= k < t.nodes.len() implies (#[trigger] t.nodes[k].role
        == NodeRole::Master <==> t.master == Some(t.nodes[k].id)) by {
        if k < s.nodes.len() && t.nodes[k] == s.nodes[k] && s.nodes[k].id != id {
            assert(s.nodes[k].role == NodeRole::Master <==> s.master == Some(s.nodes[k].id));
        }
    }
}

/// Dropping an expired master keeps the election state consistent.
pub proof fn lemma_expire_keeps_inv(s: ElectionView, now: i64)
    requires
        election_inv(s),
    ensures
        election_inv(spec_expire(s, now)),
{
    if lease_expired(s, now) {
        let t = spec_expire(s, now);
        match s.master {
            Some(m) => {
                if has_node(s.nodes, m) {
                    lemma_node_pos(s.nodes, m);
                    let n = s.nodes[node_pos(s.nodes, m)];
                    let nn = NodeView {
                        id: n.id,
                        role: NodeRole::Slave,
                        platform: n.platform,
                        region: n.region,
                        started_at: n.started_at,
                        last_heartbeat: n.last_heartbeat,
                    };
                    lemma_update_at_id(s.nodes, m, nn);
                    assert(t.nodes == s.nodes.update(node_pos(s.nodes, m), nn));
                    assert forall|k: int| 0 <= k < t.nodes.len() implies (#[trigger] t.nodes[k].role
                        == NodeRole::Master <==> t.master == Some(t.nodes[k].id)) by {
                        if t.nodes[k] == s.nodes[k] && s.nodes[k].id != m {
                            assert(s.nodes[k].role == NodeRole::Master <==> s.master == Some(
                                s.nodes[k].id,
                            ));
                        }
                    }
                } else {
                    assert forall|k: int| 0 <= k < t.nodes.len() implies (#[trigger] t.nodes[k].role
                        == NodeRole::Master <==> t.master == Some(t.nodes[k].id)) by {
                        if s.nodes[k].id == m {
                            assert(has_node(s.nodes, m));
                        }
                        assert(s.nodes[k].role == NodeRole::Master <==> s.master == Some(
                            s.nodes[k].id,
                        ));
                    }
                }
            },
            None => {
                assert forall|k: int| 0 <= k < t.nodes.len() implies (#[trigger] t.nodes[k].role
                    == NodeRole::Master <==> t.master == Some(t.nodes[k].id)) by {
                    lemma_no_master_no_role(s, k);
                }
            },
        }
    }
}

/// A heartbeat keeps the election state consistent.
pub proof fn lemma_heartbeat_keeps_inv(s: ElectionView, id: Seq<char>, now: i64)
    requires
        election_inv(s),
    ensures
        election_inv(spec_heartbeat(s, id, now)),
{
    let t = spec_heartbeat(s, id, now);
    if has_node(s.nodes, id) {
        lemma_node_pos(s.nodes, id);
        let p = node_pos(s.nodes, id);
        let n = s.nodes[p];
        let nn = NodeView {
            id: n.id,
            role: n.role,
            platform: n.platform,
            region: n.region,
            started_at: n.started_at,
            last_heartbeat: now,
        };
        lemma_update_at_id(s.nodes, id, nn);
        assert(t.nodes == s.nodes.update(p, nn));
        assert forall|k: int| 0 <= k < t.nodes.len() implies (#[trigger] t.nodes[k].role
            == NodeRole::Master <==> t.master == Some(t.nodes[k].id)) by {
            assert(s.nodes[p].role == NodeRole::Master <==> s.master == Some(s.nodes[p].id));
            assert(s.nodes[k].role == NodeRole::Master <==> s.master == Some(s.nodes[k].id));
        }
    } else {
        assert forall|k: int| 0 <= k < t.nodes.len() implies (#[trigger] t.nodes[k].role
            == NodeRole::Master <==> t.master == Some(t.nodes[k].id)) by {
            assert(s.nodes[k].role == NodeRole::Master <==> s.master == Some(s.nodes[k].id));
        }
    }
}

/// A resignation keeps the election state consistent.
pub proof fn lemma_resign_keeps_inv(s: ElectionView, id: Seq<char>, now: i64)
    requires
        election_inv(s),
    ensures
        election_inv(spec_resign(s, id, now)),
{
    let t = spec_resign(s, id, now);
    if s.master == Some(id) {
        if has_node(s.nodes, id) {
            lemma_node_pos(s.nodes, id);
            let p = node_pos(s.nodes, id);
            let n = s.nodes[p];
            let nn = NodeView {
                id: n.id,
                role: NodeRole::Slave,
                platform: n.platform,
                region: n.region,
                started_at: n.started_at,
                last_heartbeat: now,
            };
            lemma_update_at_id(s.nodes, id, nn);
            assert(t.nodes == s.nodes.update(p, nn));
            assert forall|k: int| 0 <= k < t.nodes.len() implies (#[trigger] t.nodes[k].role
                == NodeRole::Master <==> t.master == Some(t.nodes[k].id)) by {
                if t.nodes[k] == s.nodes[k] && s.nodes[k].id != id {
                    assert(s.nodes[k].role == NodeRole::Master <==> s.master == Some(
                        s.nodes[k].id,
                    ));
                }
            }
        } else {
            assert forall|k: int| 0 <= k < t.nodes.len() implies (#[trigger] t.nodes[k].role
                == NodeRole::Master <==> t.master == Some(t.nodes[k].id)) by {
                if s.nodes[k].id == id {
                    assert(has_node(s.nodes, id));
                }
                assert(s.nodes[k].role == NodeRole::Master <==> s.master == Some(s.nodes[k].id));
            }
        }
    }
}

/// Forgetting silent nodes keeps the election state consistent.
pub proof fn lemma_prune_keeps_inv(s: ElectionView, now: i64)
    requires
        election_inv(s),
    ensures
        election_inv(spec_prune(s, now)),
{
    let pred = alive(now);
    lemma_filter_unique(s.nodes, pred);
    let f = s.nodes.filter(pred);
    assert forall|k: int| 0 <= k < f.len() implies (#[trigger] f[k].role == NodeRole::Master
        <==> s.master == Some(f[k].id)) by {
        assert(f.contains(f[k]));
        s.nodes.lemma_filter_contains_rev(pred, f[k]);
        let m = choose|m: int| 0 <= m < s.nodes.len() && s.nodes[m] == f[k];
        assert(s.nodes[m].role == NodeRole::Master <==> s.master == Some(s.nodes[m].id));
    }
}

/// In a consistent state at most one listed node holds the master role, and
/// it is the master's node.
pub proof fn lemma_one_master(s: ElectionView, i: int, j: int)
    requires
        election_inv(s),
        0 <= i < s.nodes.len(),
        0 <= j < s.nodes.len(),
        s.nodes[i].role == NodeRole::Master,
        s.nodes[j].role == NodeRole::Master,
    ensures
        i == j,
        s.master == Some(s.nodes[i].id),
{
    assert(s.nodes[i].role == NodeRole::Master <==> s.master == Some(s.nodes[i].id));
    assert(s.nodes[j].role == NodeRole::Master <==> s.master == Some(s.nodes[j].id));
}

/// Position of the node with this id, if listed.
fn find_node(nodes: &Vec<NodeInfo>, id: &str) -> (r: Option<usize>)
    ensures
        match r {
            Some(i) => is_first_pos(nodes.deep_view(), id@, i as int),
            None => !has_node(nodes.deep_view(), id@),
        },
{
    let mut i: usize = 0;
    while i < nodes.len()
        invariant
            i <= nodes@.len(),
            forall|j: int| 0 <= j < i ==> #[trigger] nodes.deep_view()[j].id != id@,
        decreases nodes.len() - i,
    {
        if str_eq(nodes[i].id.as_str(), id) {
            return Some(i);
        }
        i = i + 1;
    }
    proof {
        if has_node(nodes.deep_view(), id@) {
            let k = choose|k: int| 0 <= k < nodes.deep_view().len() && #[trigger] nodes.deep_view()[k].id == id@;
            assert(nodes.deep_view()[k].id != id@);
        }
    }
    None
}

impl DoState {
    /// The state's own consistency: every node is listed once, and only the
    /// master's node holds the master role.
    pub open spec fn wf(&self) -> bool {
        election_inv(self@)
    }

    /// No master and no nodes.
    pub fn new() -> (s: DoState)
        ensures
            s.wf(),
            s@.master is None,
            s@.master_heartbeat == 0,
            s@.nodes.len() == 0,
    {
        let s = DoState { master_id: None, master_heartbeat: 0, nodes: Vec::new() };
        assert(s@.nodes =~= Seq::<NodeView>::empty());
        s
    }

    /// Drops the master whose lease has run out (60 s after its last heartbeat).
    pub fn expire_master(&mut self, now: i64)
        requires
            old(self).wf(),
        ensures
            final(self).wf(),
            final(self)@ == spec_expire(old(self)@, now),
    {
        proof {
            lemma_expire_keeps_inv(self@, now);
        }
        if self.master_heartbeat > 0 && (now as i128) - (self.master_heartbeat as i128) > 60 {
            let ghost nodes = self@.nodes;
            let master = match &self.master_id {
                Some(m) => Some(m.clone()),
                None => None,
            };
            assert(opt_view(master) == self@.master);
            if let Some(m) = master {
                match find_node(&self.nodes, m.as_str()) {
                    Some(i) => {
                        proof {
                            lemma_node_pos(nodes, m@);
                            lemma_first_pos_unique(nodes, m@, i as int, node_pos(nodes, m@));
                        }
                        let mut n = self.nodes[i].clone();
                        n.role = NodeRole::Slave;
                        self.nodes.set(i, n);
                        assert(self@.nodes =~= step_down(nodes, m@));
                    },
                    None => {
                        assert(self@.nodes =~= step_down(nodes, m@));
                    },
                }
            }
            self.master_id = None;
            self.master_heartbeat = 0;
        }
    }

    /// Records a node with a role at `now`: a listed node takes the role and
    /// the time, an unknown one is added as a new Cloudflare node.
    fn upsert_node(&mut self, id: &str, role: NodeRole, region: &str, now: i64)
        ensures
            final(self)@.master == old(self)@.master,
            final(self)@.master_heartbeat == old(self)@.master_heartbeat,
            final(self)@.nodes == upsert(old(self)@.nodes, id@, role, region@, now),
    {
        let ghost nodes = self@.nodes;
        match find_node(&self.nodes, id) {
            Some(i) => {
                proof {
                    lemma_node_pos(nodes, id@);
                    lemma_first_pos_unique(nodes, id@, i as int, node_pos(nodes, id@));
                }
                let mut n = self.nodes[i].clone();
                n.role = role;
                n.last_heartbeat = now;
                self.nodes.set(i, n);
                assert(self@.nodes =~= upsert(nodes, id@, role, region@, now));
            },
            None => {
                let n = NodeInfo {
                    id: String::from_str(id),
                    role,
                    platform: String::from_str("cf"),
                    region: String::from_str(region),
                    started_at: now,
                    last_heartbeat: now,
                };
                self.nodes.push(n);
                assert(self@.nodes =~= upsert(nodes, id@, role, region@, now));
            },
        }
    }

    /// A campaign for mastership by node `id` at `now`. It wins when there is
    /// no master; the node is recorded as master when it is the master
    /// afterwards, as slave otherwise. Returns whether it won and the master
    /// afterwards.
    pub fn campaign(&mut self, id: &str, region: &str, now: i64) -> (r: (bool, Option<String>))
        requires
            old(self).wf(),
        ensures
            final(self).wf(),
            final(self)@ == spec_campaign(old(self)@, id@, region@, now),
            r.0 == (old(self)@.master is None),
            opt_view(r.1) == final(self)@.master,
    {
        proof {
            lemma_campaign_keeps_inv(self@, id@, region@, now);
        }
        let won = self.master_id.is_none();
        let leads = match &self.master_id {
            Some(m) => str_eq(m.as_str(), id),
            None => true,
        };
        if won {
            self.master_id = Some(String::from_str(id));
            self.master_heartbeat = now;
        }
        let role = if leads {
            NodeRole::Master
        } else {
            NodeRole::Slave
        };
        self.upsert_node(id, role, region, now);
        let master = match &self.master_id {
            Some(m) => Some(m.clone()),
            None => None,
        };
        (won, master)
    }

    /// A heartbeat of node `id` at `now`: renews the master's lease when it
    /// is the master, and the node's last-seen time when it is listed.
    pub fn heartbeat(&mut self, id: &str, now: i64)
        requires
            old(self).wf(),
        ensures
            final(self).wf(),
            final(self)@ == spec_heartbeat(old(self)@, id@, now),
    {
        proof {
            lemma_heartbeat_keeps_inv(self@, id@, now);
        }
        let ghost nodes = self@.nodes;
        let is_master = match &self.master_id {
            Some(m) => str_eq(m.as_str(), id),
            None => false,
        };
        if is_master {
            self.master_heartbeat = now;
        }
        match find_node(&self.nodes, id) {
            Some(i) => {
                proof {
                    lemma_node_pos(nodes, id@);
                    lemma_first_pos_unique(nodes, id@, i as int, node_pos(nodes, id@));
                }
                let mut n = self.nodes[i].clone();
                n.last_heartbeat = now;
                self.nodes.set(i, n);
                assert(self@.nodes =~= touch(nodes, id@, now));
            },
            None => {
                assert(self@.nodes =~= touch(nodes, id@, now));
            },
        }
    }

    /// Node `id` resigns at `now`: when it is the master, the seat is freed
    /// and the node becomes a slave; otherwise nothing changes.
    pub fn resign(&mut self, id: &str, now: i64)
        requires
            old(self).wf(),
        ensures
            final(self).wf(),
            final(self)@ == spec_resign(old(self)@, id@, now),
    {
        proof {
            lemma_resign_keeps_inv(self@, id@, now);
        }
        let ghost nodes = self@.nodes;
        let is_master = match &self.master_id {
            Some(m) => str_eq(m.as_str(), id),
            None => false,
        };
        if is_master {
            self.master_id = None;
            self.master_heartbeat = 0;
            match find_node(&self.nodes, id) {
                Some(i) => {
                    proof {
                        lemma_node_pos(nodes, id@);
                        lemma_first_pos_unique(nodes, id@, i as int, node_pos(nodes, id@));
                    }
                    let mut n = self.nodes[i].clone();
                    n.role = NodeRole::Slave;
                    n.last_heartbeat = now;
                    self.nodes.set(i, n);
                    assert(self@.nodes =~= demote(nodes, id@, now));
                },
                None => {
                    assert(self@.nodes =~= demote(nodes, id@, now));
                },
            }
        }
    }

    /// Whether `id` names the master; without an id no node is named.
    pub fn is_master(&self, id: &Option<String>) -> (r: bool)
        ensures
            r == (id is Some && opt_view(*id) == self@.master),
    {
        match (id, &self.master_id) {
            (Some(x), Some(m)) => str_eq(m.as_str(), x.as_str()),
            _ => false,
        }
    }

    /// The master's node entry, when there is a master and it is listed.
    pub fn master_info(&self) -> (r: Option<NodeInfo>)
        requires
            self.wf(),
        ensures
            opt_node_view(r) == spec_master_info(self@),
    {
        match &self.master_id {
            Some(m) => match find_node(&self.nodes, m.as_str()) {
                Some(i) => {
                    proof {
                        lemma_node_pos(self@.nodes, m@);
                        lemma_first_pos_unique(self@.nodes, m@, i as int, node_pos(self@.nodes, m@));
                    }
                    Some(self.nodes[i].clone())
                },
                None => None,
            },
            None => None,
        }
    }

    /// Forgets the nodes not seen for more than 60 seconds and returns the
    /// remaining ones, in order.
    pub fn live_nodes(&mut self, now: i64) -> (r: Vec<NodeInfo>)
        requires
            old(self).wf(),
        ensures
            final(self).wf(),
            final(self)@ == spec_prune(old(self)@, now),
            r.deep_view() == final(self)@.nodes,
    {
        let ghost nodes = self@.nodes;
        let ghost pred = alive(now);
        let mut kept: Vec<NodeInfo> = Vec::new();
        let mut i: usize = 0;
        while i < self.nodes.len()
            invariant
                i <= self.nodes@.len(),
                nodes == self.nodes.deep_view(),
                pred == alive(now),
                kept.deep_view() == nodes.take(i as int).filter(pred),
            decreases self.nodes.len() - i,
        {
            let ghost before = kept.deep_view();
            proof {
                crate::text::lemma_filter_push(nodes.take(i as int), pred, nodes[i as int]);
                assert(nodes.take(i + 1) == nodes.take(i as int).push(nodes[i as int]));
            }
            if (now as i128) - (self.nodes[i].last_heartbeat as i128) <= 60 {
                kept.push(self.nodes[i].clone());
                assert(kept.deep_view() =~= before.push(nodes[i as int]));
            }
            i = i + 1;
        }
        assert(nodes.take(nodes.len() as int) == nodes);
        proof {
            lemma_prune_keeps_inv(self@, now);
        }
        let out = copy_nodes(&kept);
        self.nodes = kept;
        out
    }

    /// Serves one request at `now`: an expired master is dropped first, then
    /// the request is answered.
    pub fn handle(&mut self, req: ElectionRequest, now: i64) -> (reply: ElectionReply)
        requires
            old(self).wf(),
        ensures
            final(self).wf(),
            ({
                let s = spec_expire(old(self)@, now);
                match req {
                    ElectionRequest::Campaign { id, region } => {
                        &&& final(self)@ == spec_campaign(s, id@, region@, now)
                        &&& reply matches ElectionReply::Campaign { won, master }
                        &&& won == (s.master is None)
                        &&& opt_view(master) == final(self)@.master
                    },
                    ElectionRequest::Heartbeat { id } => {
                        &&& final(self)@ == spec_heartbeat(s, id@, now)
                        &&& reply is HeartbeatOk
                    },
                    ElectionRequest::Resign { id } => {
                        &&& final(self)@ == spec_resign(s, id@, now)
                        &&& reply is Resigned
                    },
                    ElectionRequest::IsMaster { id } => {
                        &&& final(self)@ == s
                        &&& reply == ElectionReply::IsMaster(id is Some && opt_view(id) == s.master)
                    },
                    ElectionRequest::Master => {
                        &&& final(self)@ == s
                        &&& reply matches ElectionReply::Master(info)
                        &&& opt_node_view(info) == spec_master_info(s)
                    },
                    ElectionRequest::Nodes => {
                        &&& final(self)@ == spec_prune(s, now)
                        &&& reply matches ElectionReply::Nodes(nodes)
                        &&& nodes.deep_view() == final(self)@.nodes
                    },
                    ElectionRequest::Unknown => {
                        &&& final(self)@ == s
                        &&& reply is UnknownRoute
                    },
                }
            }),
    {
        self.expire_master(now);
        match req {
            ElectionRequest::Campaign { id, region } => {
                let (won, master) = self.campaign(id.as_str(), region.as_str(), now);
                ElectionReply::Campaign { won, master }
            },
            ElectionRequest::Heartbeat { id } => {
                self.heartbeat(id.as_str(), now);
                ElectionReply::HeartbeatOk
            },
            ElectionRequest::Resign { id } => {
                self.resign(id.as_str(), now);
                ElectionReply::Resigned
            },
            ElectionRequest::IsMaster { id } => ElectionReply::IsMaster(self.is_master(&id)),
            ElectionRequest::Master => ElectionReply::Master(self.master_info()),
            ElectionRequest::Nodes => ElectionReply::Nodes(self.live_nodes(now)),
            ElectionRequest::Unknown => ElectionReply::UnknownRoute,
        }
    }
}

fn copy_nodes(v: &Vec<NodeInfo>) -> (r: Vec<NodeInfo>)
    ensures
        r.deep_view() == v.deep_view(),
{
    let mut r: Vec<NodeInfo> = Vec::new();
    let mut i: usize = 0;
    while i < v.len()
        invariant
            i <= v@.len(),
            r.deep_view() == v.deep_view().take(i as int),
        decreases v.len() - i,
    {
        let ghost before = r.deep_view();
        r.push(v[i].clone());
        assert(r.deep_view() =~= before.push(v@[i as int]@));
        assert(v.deep_view().take(i + 1) =~= v.deep_view().take(i as int).push(v@[i as int]@));
        i = i + 1;
    }
    assert(v.deep_view().take(v@.len() as int) =~= v.deep_view());
    r
}

proof fn lemma_filter_unique(nodes: Seq<NodeView>, pred: spec_fn(NodeView) -> bool)
    requires
        unique_ids(nodes),
    ensures
        unique_ids(nodes.filter(pred)),
    decreases nodes.len(),
{
    reveal(Seq::filter);
    if nodes.len() > 0 {
        let init = nodes.drop_last();
        assert forall|i: int, j: int|
            0 <= i < init.len() && 0 <= j < init.len() && i != j implies #[trigger] init[i].id
            != #[trigger] init[j].id by {
            assert(init[i] == nodes[i] && init[j] == nodes[j]);
        }
        lemma_filter_unique(init, pred);
        if pred(nodes.last()) {
            let f = init.filter(pred);
            let last = nodes.last();
            assert forall|k: int| 0 <= k < f.len() implies #[trigger] f[k].id != last.id by {
                init.lemma_filter_contains_rev(pred, f[k]);
                let m = choose|m: int| 0 <= m < init.len() && init[m] == f[k];
                assert(nodes[m] == init[m]);
                assert(nodes[m].id != nodes[nodes.len() - 1].id);
            }
        }
    }
}

/// A request to the election state.
#[derive(Debug)]
#[allow(inconsistent_fields)]
pub enum ElectionRequest {
    Campaign { id: String, region: String },
    Heartbeat { id: String },
    Resign { id: String },
    IsMaster { id: Option<String> },
    Master,
    Nodes,
    Unknown,
}

/// The answer to an election request.
#[derive(Debug)]
pub enum ElectionReply {
    Campaign { won: bool, master: Option<String> },
    HeartbeatOk,
    Resigned,
    IsMaster(bool),
    Master(Option<NodeInfo>),
    Nodes(Vec<NodeInfo>),
    UnknownRoute,
}


/// While the master's lease runs (no more than 60 seconds after it won), a
/// campaign by any node loses and the master stays.
pub proof fn lemma_lease_excludes_rivals(
    s: ElectionView,
    a: Seq<char>,
    region_a: Seq<char>,
    t1: i64,
    b: Seq<char>,
    region_b: Seq<char>,
    t2: i64,
)
    requires
        spec_expire(s, t1).master is None,
        t2 - t1 <= 60,
    ensures
        ({
            let s1 = spec_campaign(spec_expire(s, t1), a, region_a, t1);
            let s2 = spec_campaign(spec_expire(s1, t2), b, region_b, t2);
            &&& s1.master == Some(a)
            &&& spec_expire(s1, t2).master == Some(a)
            &&& s2.master == Some(a)
        }),
{
}

/// A master silent for more than 60 seconds is replaced by the next node
/// that campaigns.
pub proof fn lemma_silent_master_replaced(s: ElectionView, b: Seq<char>, region: Seq<char>, now: i64)
    requires
        lease_expired(s, now),
    ensures
        spec_expire(s, now).master is None,
        spec_campaign(spec_expire(s, now), b, region, now).master == Some(b),
{
}

/// A heartbeat from the master at `t` keeps it master up to 60 seconds later.
pub proof fn lemma_heartbeat_renews_lease(s: ElectionView, a: Seq<char>, t: i64, now: i64)
    requires
        s.master == Some(a),
        now - t <= 60,
    ensures
        spec_expire(spec_heartbeat(s, a, t), now).master == Some(a),
{
}

/// A heartbeat renews the master's lease only when it comes from the master:
/// from any other node it leaves the master and its lease time as they were,
/// and it changes no node but the sender's, whose last-seen time becomes now.
pub proof fn lemma_heartbeat_effect(s: ElectionView, id: Seq<char>, now: i64)
    requires
        unique_ids(s.nodes),
    ensures
        spec_heartbeat(s, id, now).master == s.master,
        s.master == Some(id) ==> spec_heartbeat(s, id, now).master_heartbeat == now,
        s.master != Some(id) ==> spec_heartbeat(s, id, now).master_heartbeat == s.master_heartbeat,
        spec_heartbeat(s, id, now).nodes.len() == s.nodes.len(),
        forall|k: int|
            0 <= k < s.nodes.len() && s.nodes[k].id != id ==> #[trigger] spec_heartbeat(
                s,
                id,
                now,
            ).nodes[k] == s.nodes[k],
        forall|k: int|
            0 <= k < s.nodes.len() && s.nodes[k].id == id ==> {
                let n = #[trigger] spec_heartbeat(s, id, now).nodes[k];
                &&& n.id == id
                &&& n.role == s.nodes[k].role
                &&& n.platform == s.nodes[k].platform
                &&& n.region == s.nodes[k].region
                &&& n.started_at == s.nodes[k].started_at
                &&& n.last_heartbeat == now
            },
{
    let t = spec_heartbeat(s, id, now);
    if has_node(s.nodes, id) {
        lemma_node_pos(s.nodes, id);
        let p = node_pos(s.nodes, id);
        let n = s.nodes[p];
        let nn = NodeView {
            id: n.id,
            role: n.role,
            platform: n.platform,
            region: n.region,
            started_at: n.started_at,
            last_heartbeat: now,
        };
        lemma_update_at_id(s.nodes, id, nn);
        assert(t.nodes == s.nodes.update(p, nn));
        assert forall|k: int| 0 <= k < s.nodes.len() && s.nodes[k].id == id implies k == p by {
            if k != p {
                assert(s.nodes[k].id != s.nodes[p].id);
            }
        }
    } else {
        assert forall|k: int| 0 <= k < s.nodes.len() implies s.nodes[k].id != id by {
            if s.nodes[k].id == id {
                assert(has_node(s.nodes, id));
            }
        }
    }
}

/// A master that sent no heartbeat for more than 60 seconds is replaced by
/// the next campaign, whatever heartbeats other nodes sent meanwhile.
pub proof fn lemma_others_heartbeats_do_not_keep_master(
    s: ElectionView,
    a: Seq<char>,
    b: Seq<char>,
    t: i64,
    c: Seq<char>,
    region: Seq<char>,
    now: i64,
)
    requires
        s.master == Some(a),
        a != b,
        lease_expired(s, now),
    ensures
        spec_heartbeat(s, b, t).master_heartbeat == s.master_heartbeat,
        spec_campaign(spec_expire(spec_heartbeat(s, b, t), now), c, region, now).master == Some(c),
{
}

/// When the master resigns the seat is free, and the next campaign wins.
pub proof fn lemma_resign_frees_seat(
    s: ElectionView,
    a: Seq<char>,
    t: i64,
    b: Seq<char>,
    region: Seq<char>,
    t2: i64,
)
    requires
        s.master == Some(a),
    ensures
        spec_resign(s, a, t).master is None,
        spec_campaign(spec_expire(spec_resign(s, a, t), t2), b, region, t2).master == Some(b),
{
}

/// Only the master can resign: a resignation by another node changes nothing.
pub proof fn lemma_resign_by_other_is_noop(s: ElectionView, a: Seq<char>, t: i64)
    requires
        s.master != Some(a),
    ensures
        spec_resign(s, a, t) == s,
{
}

/// The node recorded at `p` is the first one with its id.
proof fn lemma_upsert_pos(
    nodes: Seq<NodeView>,
    id: Seq<char>,
    role: NodeRole,
    region: Seq<char>,
    now: i64,
)
    ensures
        has_node(upsert(nodes, id, role, region, now), id),
        ({
            let u = upsert(nodes, id, role, region, now);
            let n = u[node_pos(u, id)];
            &&& n.id == id
            &&& n.role == role
            &&& n.last_heartbeat == now
        }),
{
    let u = upsert(nodes, id, role, region, now);
    if has_node(nodes, id) {
        lemma_node_pos(nodes, id);
        let p = node_pos(nodes, id);
        assert(u[p].id == id);
        assert forall|j: int| 0 <= j < p implies #[trigger] u[j].id != id by {
            assert(u[j] == nodes[j]);
        }
        assert(is_first_pos(u, id, p));
        lemma_node_pos(u, id);
        lemma_first_pos_unique(u, id, p, node_pos(u, id));
    } else {
        let p = nodes.len() as int;
        assert(u[p].id == id);
        assert forall|j: int| 0 <= j < p implies #[trigger] u[j].id != id by {
            assert(u[j] == nodes[j]);
        }
        assert(is_first_pos(u, id, p));
        lemma_node_pos(u, id);
        lemma_first_pos_unique(u, id, p, node_pos(u, id));
    }
}

/// The winner of a campaign is the master, and the master's entry is its
/// own, with the master role and seen at the time it won.
pub proof fn lemma_winner_is_listed_master(s: ElectionView, a: Seq<char>, region: Seq<char>, now: i64)
    requires
        s.master is None,
    ensures
        spec_master_info(spec_campaign(s, a, region, now)) matches Some(n) && n.id == a && n.role
            == NodeRole::Master && n.last_heartbeat == now,
{
    lemma_upsert_pos(s.nodes, a, NodeRole::Master, region, now);
}

/// A node that sent a heartbeat at most 60 seconds ago is still among the
/// live nodes.
pub proof fn lemma_recent_node_is_live(s: ElectionView, a: Seq<char>, t: i64, now: i64)
    requires
        has_node(s.nodes, a),
        now - t <= 60,
    ensures
        spec_prune(spec_heartbeat(s, a, t), now).nodes.contains(
            spec_heartbeat(s, a, t).nodes[node_pos(s.nodes, a)],
        ),
        spec_heartbeat(s, a, t).nodes[node_pos(s.nodes, a)].id == a,
{
    lemma_node_pos(s.nodes, a);
    let p = node_pos(s.nodes, a);
    let h = spec_heartbeat(s, a, t).nodes;
    assert(h[p].last_heartbeat == t);
    h.lemma_filter_contains(alive(now), p);
}


/// The info a Vercel node publishes with its heartbeat at `now`: master or
/// slave as it holds the leader key, seen and started now.
pub fn heartbeat_node_info(node_id: &str, is_master: bool, region: &str, now: i64) -> (n: NodeInfo)
    ensures
        n@.id == node_id@,
        n@.role == (if is_master {
            NodeRole::Master
        } else {
            NodeRole::Slave
        }),
        n@.platform == "vercel"@,
        n@.region == region@,
        n@.started_at == now,
        n@.last_heartbeat == now,
{
    NodeInfo {
        id: String::from_str(node_id),
        role: if is_master {
            NodeRole::Master
        } else {
            NodeRole::Slave
        },
        platform: String::from_str("vercel"),
        region: String::from_str(region),
        started_at: now,
        last_heartbeat: now,
    }
}

} // verus!
