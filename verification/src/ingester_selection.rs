//! Which ingester a shard is streamed from, and which one replaces it.
use vstd::prelude::*;

use crate::queue_id::NodeId;

verus! {

/// The view of an optional node identifier.
pub open spec fn node_id_opt_view(node_id_opt: Option<NodeId>) -> Option<Seq<char>> {
    match node_id_opt {
        Some(node_id) => Some(node_id@),
        None => None,
    }
}

/// The ingester to stream from, and the one to fail over to.
pub open spec fn selection_view(selection: (NodeId, Option<NodeId>)) -> (
    Seq<char>,
    Option<Seq<char>>,
) {
    (selection.0@, node_id_opt_view(selection.1))
}

/// The ingesters of a shard in the order in which they are to be tried: the local one first. Where
/// neither is local, `prefers_leader` decides.
pub open spec fn selected_ingesters(
    self_node_id: Seq<char>,
    leader_id: Seq<char>,
    follower_id_opt: Option<Seq<char>>,
    prefers_leader: bool,
) -> (Seq<char>, Option<Seq<char>>) {
    match follower_id_opt {
        None => (leader_id, None),
        Some(follower_id) => if leader_id == self_node_id {
            (leader_id, Some(follower_id))
        } else if follower_id == self_node_id {
            (follower_id, Some(leader_id))
        } else if prefers_leader {
            (leader_id, Some(follower_id))
        } else {
            (follower_id, Some(leader_id))
        },
    }
}

/// `rand::random` returns a random `bool`, which may be either one.
#[verifier::external_body]
fn random_bool() -> bool {
    rand::random::<bool>()
}

/// Puts the leader first where it is preferred, and the follower first where it is not.
pub fn order_ingesters(leader_id: NodeId, follower_id: NodeId, prefers_leader: bool) -> (selection:
    (NodeId, Option<NodeId>))
    ensures
        selection_view(selection) == (if prefers_leader {
            (leader_id@, Some(follower_id@))
        } else {
            (follower_id@, Some(leader_id@))
        }),
{
    if prefers_leader {
        (leader_id, Some(follower_id))
    } else {
        (follower_id, Some(leader_id))
    }
}

/// Chooses the ingester to stream records from, preferring "local" ingesters.
pub fn select_preferred_and_failover_ingesters(
    self_node_id: &NodeId,
    leader_id: NodeId,
    follower_id_opt: Option<NodeId>,
) -> (selection: (NodeId, Option<NodeId>))
    ensures
        exists|prefers_leader: bool|
            selection_view(selection) == #[trigger] selected_ingesters(
                self_node_id@,
                leader_id@,
                node_id_opt_view(follower_id_opt),
                prefers_leader,
            ),
{
    // The replication factor is 1 and there is no follower.
    let Some(follower_id) = follower_id_opt else {
        assert(selected_ingesters(self_node_id@, leader_id@, None, true) == (
            leader_id@,
            None::<Seq<char>>,
        ));
        return (leader_id, None);
    };
    let prefers_leader = if leader_id == *self_node_id {
        true
    } else if follower_id == *self_node_id {
        false
    } else {
        random_bool()
    };
    let selection = order_ingesters(leader_id, follower_id, prefers_leader);
    assert(selection_view(selection) == selected_ingesters(
        self_node_id@,
        leader_id@,
        Some(follower_id@),
        prefers_leader,
    ));
    selection
}

/// A shard that a local ingester holds is streamed from it, whatever chance says.
pub proof fn law_local_ingester_is_preferred(
    self_node_id: Seq<char>,
    leader_id: Seq<char>,
    follower_id_opt: Option<Seq<char>>,
    prefers_leader: bool,
)
    requires
        leader_id == self_node_id || follower_id_opt == Some(self_node_id),
    ensures
        selected_ingesters(self_node_id, leader_id, follower_id_opt, prefers_leader).0
            == self_node_id,
{
}

/// Every replica is tried, and no other ingester: the selection is the leader and, where there is
/// one, the follower, in one order or the other.
pub proof fn law_selection_is_the_replicas(
    self_node_id: Seq<char>,
    leader_id: Seq<char>,
    follower_id_opt: Option<Seq<char>>,
    prefers_leader: bool,
)
    ensures
        ({
            let (preferred, failover_opt) = selected_ingesters(
                self_node_id,
                leader_id,
                follower_id_opt,
                prefers_leader,
            );
            match follower_id_opt {
                None => preferred == leader_id && failover_opt is None,
                Some(follower_id) => failover_opt is Some && ({
                    ||| preferred == leader_id && failover_opt->0 == follower_id
                    ||| preferred == follower_id && failover_opt->0 == leader_id
                }),
            }
        }),
{
}

} // verus!
