//! Keeping the topology current: how many nodes to ask, what to make of
//! their answers, and what to do when the topology has changed or
//! connections have failed.

use crate::connection::TlsMode;
use crate::container::{
    node_index, nodes_at, with_node, ClusterNode, ConnectionsContainer, ConnectionsMap,
    NodesModel,
};
use crate::routing::MultiRoutingModel;
use crate::error::{error_text, ErrorKind, ErrorModel, RedisError};
use crate::fanout::{reply_models, NodeReply, ReplyModel};
use crate::lists::reversed;
use crate::random::random_between;
use crate::slot_map::{multi_addresses, texts, SlotMap};
use crate::topology::{calculate_topology, structural_hash, topology_choice};
use crate::value::{models, Value, ValueModel};
use vstd::prelude::*;

verus! {

/// Attempts of one slot refresh; on the last, views that tie are settled
/// by the first that builds a map.
pub const DEFAULT_NUMBER_OF_REFRESH_SLOTS_RETRIES: usize = 3;

/// The most nodes that are asked for their view in one refresh.
pub const MAX_REQUESTED_NODES: usize = 50;

/// The upper bound of the random addition to the pause between checks, in
/// milliseconds.
pub const MAX_JITTER_MILLI: u64 = 1000;

/// The whole part of the binary logarithm of `n`; zero for zero.
pub open spec fn log2_floor(n: nat) -> nat
    decreases n,
{
    if n < 2 {
        0
    } else {
        1 + log2_floor(n / 2)
    }
}

/// Number of nodes that a periodic check asks: the binary logarithm of the
/// number of nodes, but at least one.
pub open spec fn check_sample(node_count: nat) -> nat {
    if log2_floor(node_count) < 1 {
        1
    } else {
        log2_floor(node_count)
    }
}

/// Number of nodes that a periodic check asks for their view.
pub fn nodes_to_check(node_count: usize) -> (sample: usize)
    ensures
        sample == check_sample(node_count as nat),
        1 <= sample,
{
    let mut log: usize = 0;
    let mut rest = node_count;
    while rest >= 2
        invariant
            log + log2_floor(rest as nat) == log2_floor(node_count as nat),
            log <= node_count - rest,
        decreases rest,
    {
        rest = rest / 2;
        log += 1;
    }
    if log < 1 {
        1
    } else {
        log
    }
}

/// Number of nodes that a slot refresh asks for their view: all of them,
/// up to fifty.
pub fn nodes_to_refresh_from(node_count: usize) -> (sample: usize)
    ensures
        sample == if node_count <= MAX_REQUESTED_NODES {
            node_count
        } else {
            MAX_REQUESTED_NODES
        },
{
    if node_count <= MAX_REQUESTED_NODES {
        node_count
    } else {
        MAX_REQUESTED_NODES
    }
}

/// Attempts that are left of a slot refresh that was tried `curr_retry`
/// times before, this one included: what is left of the attempts there
/// are, but never less than one, so that every attempt past the last
/// counts as the last.
pub fn retries_left(curr_retry: usize) -> (left: usize)
    ensures
        left == if curr_retry < DEFAULT_NUMBER_OF_REFRESH_SLOTS_RETRIES - 1 {
            DEFAULT_NUMBER_OF_REFRESH_SLOTS_RETRIES - curr_retry
        } else {
            1
        },
{
    if curr_retry < DEFAULT_NUMBER_OF_REFRESH_SLOTS_RETRIES - 1 {
        DEFAULT_NUMBER_OF_REFRESH_SLOTS_RETRIES - curr_retry
    } else {
        1
    }
}

/// The pause before the next periodic check: the configured interval and a
/// random addition below one second, so that many clients do not all ask
/// at once. Which addition is drawn is not said; for each one
/// [`check_delay_with`] gives the pause.
pub fn next_check_delay(interval: u64) -> (delay: u64)
    ensures
        exists|jitter: u64|
            jitter < MAX_JITTER_MILLI && delay == #[trigger] delay_with_jitter(interval, jitter),
        interval <= delay,
        delay - interval < MAX_JITTER_MILLI,
{
    let jitter = random_between(0, MAX_JITTER_MILLI - 1);
    check_delay_with(interval, jitter)
}

/// The pause before the next periodic check when `jitter` is the random
/// addition: their sum in milliseconds, or the longest pause there is
/// where the sum is longer still.
pub open spec fn delay_with_jitter(interval: u64, jitter: u64) -> u64 {
    if interval + jitter > u64::MAX {
        u64::MAX
    } else {
        (interval + jitter) as u64
    }
}

/// The pause before the next periodic check for a given random addition.
pub fn check_delay_with(interval: u64, jitter: u64) -> (delay: u64)
    ensures
        delay == delay_with_jitter(interval, jitter),
{
    if interval > u64::MAX - jitter {
        u64::MAX
    } else {
        interval + jitter
    }
}

/// The views among the first `upto` replies.
pub open spec fn views_of(replies: Seq<ReplyModel>, upto: int) -> Seq<ValueModel>
    decreases upto,
{
    if upto <= 0 {
        Seq::empty()
    } else {
        match replies[upto - 1].1 {
            Ok(v) => views_of(replies, upto - 1).push(v),
            Err(_) => views_of(replies, upto - 1),
        }
    }
}

/// The nodes among the first `upto` whose reply shows that the connection
/// is gone.
pub open spec fn dropped_of(replies: Seq<ReplyModel>, upto: int) -> Seq<Seq<char>>
    decreases upto,
{
    if upto <= 0 {
        Seq::empty()
    } else {
        match replies[upto - 1].1 {
            Err(e) => if e.kind is IoError {
                dropped_of(replies, upto - 1).push(replies[upto - 1].0)
            } else {
                dropped_of(replies, upto - 1)
            },
            Ok(_) => dropped_of(replies, upto - 1),
        }
    }
}

/// Sorts the replies to a round of `CLUSTER SLOTS` into the views that
/// came back and the nodes whose connection turned out to be gone.
pub fn get_topology_values_and_failed_conn(replies: Vec<NodeReply>) -> (r: (Vec<Value>, Vec<String>))
    ensures
        models(r.0@) == views_of(reply_models(replies@), replies.len() as int),
        texts(r.1@) == dropped_of(reply_models(replies@), replies.len() as int),
{
    let ghost all = reply_models(replies@);
    let ghost given = replies@;
    let count = replies.len();
    let mut pending = reversed(replies);
    let mut views: Vec<Value> = Vec::new();
    let mut failed: Vec<String> = Vec::new();
    let mut i: usize = 0;
    while i < count
        invariant
            i <= count == given.len(),
            pending.len() == count - i,
            all == reply_models(given),
            forall|j: int| 0 <= j < pending.len() ==> (#[trigger] pending@[j]) == given[count - 1 - j],
            models(views@) == views_of(all, i as int),
            texts(failed@) == dropped_of(all, i as int),
        decreases count - i,
    {
        let (addr, outcome) = pending.pop().unwrap();
        match outcome {
            Ok(view) => {
                views.push(view);
            },
            Err(e) => {
                if e.is_connection_dropped() {
                    failed.push(addr);
                }
            },
        }
        i += 1;
    }
    (views, failed)
}

/// Whether the topology must be refreshed.
#[derive(Clone, Copy, Debug, PartialEq, Eq, Structural)]
pub enum TopologyRefresh {
    /// The sampled topology differs from the installed one.
    Required,
    /// Nothing has changed, as far as could be told.
    Unrequired,
}

/// What a periodic check finds out from the views it sampled.
///
/// Without any view, but with connections that failed, nothing can be
/// said and the failed connections are to be mended first. Else the views
/// choose a topology as in a refresh on its last retry; a refresh is
/// required if the hash of the chosen view is not the installed one.
pub open spec fn topology_diff(
    installed_hash: u64,
    views: Seq<ValueModel>,
    any_failed: bool,
    queried: nat,
) -> Result<TopologyRefresh, ErrorModel> {
    if views.len() == 0 && any_failed {
        Ok(TopologyRefresh::Unrequired)
    } else {
        match topology_choice(views, true, queried) {
            Ok(c) => if structural_hash(views[c]) != installed_hash {
                Ok(TopologyRefresh::Required)
            } else {
                Ok(TopologyRefresh::Unrequired)
            },
            Err(e) => Err(e),
        }
    }
}

/// Compares the views sampled by a periodic check with the installed
/// topology. The nodes whose connection failed are handed back with the
/// verdict.
pub fn check_for_topology_diff(
    installed_hash: u64,
    topology_values: Vec<Value>,
    failed_connections: Vec<String>,
    tls: Option<TlsMode>,
    num_of_nodes_to_query: usize,
    read_from_replicas: bool,
) -> (r: Result<(TopologyRefresh, Vec<String>), RedisError>)
    ensures
        match r {
            Ok((state, failed)) => topology_diff(
                installed_hash,
                models(topology_values@),
                failed_connections@.len() > 0,
                num_of_nodes_to_query as nat,
            ) == Ok::<TopologyRefresh, ErrorModel>(state) && failed == failed_connections,
            Err(e) => topology_diff(
                installed_hash,
                models(topology_values@),
                failed_connections@.len() > 0,
                num_of_nodes_to_query as nat,
            ) == Err::<TopologyRefresh, ErrorModel>(e@),
        },
{
    if topology_values.len() == 0 && failed_connections.len() > 0 {
        return Ok((TopologyRefresh::Unrequired, failed_connections));
    }
    match calculate_topology(
        topology_values,
        Some(1),
        tls,
        read_from_replicas,
        num_of_nodes_to_query,
    ) {
        Ok(map) => {
            if map.topology_hash() != installed_hash {
                Ok((TopologyRefresh::Required, failed_connections))
            } else {
                Ok((TopologyRefresh::Unrequired, failed_connections))
            }
        },
        Err(e) => Err(e),
    }
}

/// What the supervisor does after a periodic check.
#[derive(Debug, PartialEq, Eq)]
pub enum SupervisorAction {
    /// Refresh the slot map.
    RefreshSlots,
    /// Reconnect the management connections of these nodes; those that
    /// fail again are the pending ones of the next round.
    Reconnect(Vec<String>),
    /// Nothing.
    Idle,
}

/// Decides what follows a periodic check. A changed topology is refreshed,
/// and the nodes that were pending stay so. Without a change the nodes
/// that failed in this round and those pending from earlier rounds are
/// reconnected, and none is pending until the reconnect says which failed
/// again.
pub fn periodic_topology_check(
    state: TopologyRefresh,
    failed_connections: Vec<String>,
    pending: Vec<String>,
) -> (r: (SupervisorAction, Vec<String>))
    ensures
        match state {
            TopologyRefresh::Required => r.0 is RefreshSlots && r.1 == pending,
            TopologyRefresh::Unrequired => {
                let all = texts(failed_connections@) + texts(pending@);
                &&& r.1@.len() == 0
                &&& if all.len() == 0 {
                    r.0 is Idle
                } else {
                    r.0 matches SupervisorAction::Reconnect(addrs) && texts(addrs@) == all
                }
            },
        },
{
    match state {
        TopologyRefresh::Required => (SupervisorAction::RefreshSlots, pending),
        TopologyRefresh::Unrequired => {
            let mut all = failed_connections;
            let mut pending = pending;
            all.append(&mut pending);
            if all.len() == 0 {
                (SupervisorAction::Idle, pending)
            } else {
                (SupervisorAction::Reconnect(all), pending)
            }
        },
    }
}

/// What follows a slot refresh that found no topology to install.
pub fn after_failed_refresh(failed_connections: Vec<String>) -> (action: SupervisorAction)
    ensures
        if failed_connections@.len() == 0 {
            action is Idle
        } else {
            action == SupervisorAction::Reconnect(failed_connections)
        },
{
    if failed_connections.len() == 0 {
        SupervisorAction::Idle
    } else {
        SupervisorAction::Reconnect(failed_connections)
    }
}

/// The first of the candidate addresses, from `from` on, at which a node
/// is connected.
pub open spec fn first_connected<C>(nodes: NodesModel<C>, candidates: Seq<Seq<char>>, from: int)
    -> Option<int>
    decreases candidates.len() - from,
{
    if from < 0 || from >= candidates.len() {
        None
    } else {
        match node_index(nodes, candidates[from], 0) {
            Some(i) => Some(i),
            None => first_connected(nodes, candidates, from + 1),
        }
    }
}

/// Finds the node to reuse for an address of the new topology: the node
/// at the address itself or, where a name was stored by the address it
/// resolved to, the node at the first of the resolved addresses that has
/// one.
pub fn node_for_addresses<'a, C>(
    container: &'a ConnectionsContainer<C>,
    address: &str,
    resolved: &Vec<String>,
) -> (node: Option<&'a ClusterNode<C>>)
    ensures
        match first_connected(container@.nodes, seq![address@] + texts(resolved@), 0) {
            Some(i) => node matches Some(n) && 0 <= i < container@.nodes.len() && *n
                == container@.nodes[i].1,
            None => node is None,
        },
{
    let ghost candidates = seq![address@] + texts(resolved@);
    proof {
        crate::container::lemma_node_index(container@.nodes, address@, 0);
    }
    match container.node_for_address(address) {
        Some(n) => {
            return Some(n);
        },
        None => {},
    }
    let mut i: usize = 0;
    while i < resolved.len()
        invariant
            i <= resolved.len(),
            candidates == seq![address@] + texts(resolved@),
            first_connected(container@.nodes, candidates, 0) == first_connected(
                container@.nodes,
                candidates,
                i + 1,
            ),
        decreases resolved.len() - i,
    {
        proof {
            crate::container::lemma_node_index(container@.nodes, resolved@[i as int]@, 0);
        }
        match container.node_for_address(resolved[i].as_str()) {
            Some(n) => {
                return Some(n);
            },
            None => {},
        }
        i += 1;
    }
    None
}

/// The error for a client that could connect to none of its initial nodes.
pub open spec fn no_initial_connection_error(detail: Seq<char>) -> ErrorModel {
    ErrorModel {
        kind: ErrorKind::IoError,
        description: "Failed to create initial connections"@,
        detail: Some(detail),
    }
}

/// The nodes among the first `upto` attempts that were connected to, by
/// address; a later node takes the place of an earlier one at its address.
pub open spec fn initial_nodes<C>(
    attempts: Seq<Result<(String, ClusterNode<C>), RedisError>>,
    upto: int,
) -> NodesModel<C>
    decreases upto,
{
    if upto <= 0 {
        Seq::empty()
    } else {
        match attempts[upto - 1] {
            Ok((addr, node)) => with_node(initial_nodes(attempts, upto - 1), addr@, node),
            Err(_) => initial_nodes(attempts, upto - 1),
        }
    }
}

/// The text of the last error among the first `upto` attempts, if the
/// last attempt is an error; the empty text otherwise.
pub open spec fn last_error_text<C>(
    attempts: Seq<Result<(String, ClusterNode<C>), RedisError>>,
) -> Seq<char> {
    if attempts.len() == 0 {
        Seq::empty()
    } else {
        match attempts.last() {
            Err(e) => error_text(e@),
            Ok(_) => Seq::empty(),
        }
    }
}

/// Gathers the nodes that could be connected to at start. Without any the
/// client cannot start, and the error of the last attempt is reported.
pub fn create_initial_connections<C>(
    attempts: Vec<Result<(String, ClusterNode<C>), RedisError>>,
) -> (r: Result<ConnectionsMap<C>, RedisError>)
    ensures
        match r {
            Ok(map) => map@ == initial_nodes(attempts@, attempts.len() as int) && map@.len() > 0,
            Err(e) => initial_nodes(attempts@, attempts.len() as int).len() == 0 && e@
                == no_initial_connection_error(last_error_text(attempts@)),
        },
{
    let ghost given = attempts@;
    let count = attempts.len();
    let mut pending = reversed(attempts);
    let mut map: ConnectionsMap<C> = ConnectionsMap::new();
    let mut last: Option<String> = None;
    let mut i: usize = 0;
    while i < count
        invariant
            i <= count == given.len(),
            pending.len() == count - i,
            forall|j: int| 0 <= j < pending.len() ==> (#[trigger] pending@[j]) == given[count - 1 - j],
            map@ == initial_nodes(given, i as int),
            match last {
                Some(text) => i > 0 && given[i - 1] is Err && text@ == error_text(
                    given[i - 1]->Err_0@,
                ),
                None => i == 0 || given[i - 1] is Ok,
            },
        decreases count - i,
    {
        match pending.pop().unwrap() {
            Ok((addr, node)) => {
                map.insert(addr, node);
                last = None;
            },
            Err(e) => {
                last = Some(e.to_text());
            },
        }
        i += 1;
    }
    if map.is_empty() {
        let detail = match last {
            Some(text) => text,
            None => String::new(),
        };
        return Err(
            RedisError::with_detail(
                ErrorKind::IoError,
                "Failed to create initial connections",
                detail,
            ),
        );
    }
    Ok(map)
}

/// Installs a refreshed topology: the new slot map with those of the
/// given nodes that the slot map names, as primary or as replica. A node
/// whose address has left the topology is let go. The installed topology
/// hash is the one the slot map was built with, which is the structural
/// hash of the chosen view.
pub fn install_topology<C>(
    new_slots: SlotMap,
    new_connections: ConnectionsMap<C>,
    read_from_replicas: bool,
) -> (container: ConnectionsContainer<C>)
    ensures
        container@.nodes == nodes_at(
            new_connections@,
            multi_addresses(new_slots@, MultiRoutingModel::AllNodes),
            new_connections@.len() as int,
        ),
        container@.slot_map == new_slots@,
        container@.read_from_replicas == read_from_replicas,
{
    let hash = new_slots.topology_hash();
    let addresses = new_slots.addresses_for_all_nodes();
    let kept = new_connections.retain_addresses(&addresses);
    ConnectionsContainer::new(new_slots, kept, read_from_replicas, hash)
}

} // verus!
