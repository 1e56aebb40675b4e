//! Setting up the connections of a node: which connections to make, which
//! of them to keep, and when a node must be connected to afresh.

use crate::container::NodeIp;
use crate::error::{ErrorKind, ErrorModel, RedisError};
use vstd::prelude::*;

verus! {

/// Which connections of a node to refresh.
#[derive(Clone, Copy, Debug, PartialEq, Eq, Structural)]
pub enum RefreshConnectionType {
    /// Only the connection for user commands.
    OnlyUserConnection,
    /// Only the management connection.
    OnlyManagementConnection,
    /// Both connections.
    AllConnections,
}

/// The name the management connection gives itself on the server.
pub fn management_conn_name() -> (name: &'static str)
    ensures
        name@ == "management"@,
{
    "management"
}

/// True when `current` is not among the addresses that the node's name
/// resolves to.
pub open spec fn ip_is_gone(resolved: Seq<NodeIp>, current: NodeIp) -> bool {
    !resolved.contains(current)
}

/// Tells whether the name of a node now leads elsewhere: its connection's
/// address is not among the resolved ones. A name that could not be
/// resolved tells nothing, and nothing is taken to have changed.
pub fn has_dns_changed(resolved: Option<&Vec<NodeIp>>, curr_ip: NodeIp) -> (changed: bool)
    ensures
        changed == match resolved {
            Some(addrs) => ip_is_gone(addrs@, curr_ip),
            None => false,
        },
{
    match resolved {
        None => false,
        Some(addrs) => {
            let mut i: usize = 0;
            while i < addrs.len()
                invariant
                    i <= addrs.len(),
                    resolved == Some(addrs),
                    forall|j: int| 0 <= j < i ==> addrs@[j] != curr_ip,
                decreases addrs.len() - i,
            {
                if addrs[i] == curr_ip {
                    return false;
                }
                i += 1;
            }
            true
        },
    }
}

/// True when the health of the user connection bears on `conn_type`.
pub fn checks_user(conn_type: RefreshConnectionType) -> (r: bool)
    ensures
        r == !(conn_type is OnlyManagementConnection),
{
    match conn_type {
        RefreshConnectionType::OnlyManagementConnection => false,
        _ => true,
    }
}

/// True when the health of the management connection bears on `conn_type`.
pub fn checks_management(conn_type: RefreshConnectionType) -> (r: bool)
    ensures
        r == !(conn_type is OnlyUserConnection),
{
    match conn_type {
        RefreshConnectionType::OnlyUserConnection => false,
        _ => true,
    }
}

/// Which connections of a node must be made anew, given which of the
/// connections under `conn_type` answered a ping. A node without a
/// management connection counts as one whose management connection is
/// unhealthy. `None` when all that was asked about is healthy.
pub fn check_node_connections(
    conn_type: RefreshConnectionType,
    user_healthy: bool,
    management_healthy: bool,
) -> (unhealthy: Option<RefreshConnectionType>)
    ensures
        unhealthy == {
            let user_bad = !(conn_type is OnlyManagementConnection) && !user_healthy;
            let management_bad = !(conn_type is OnlyUserConnection) && !management_healthy;
            if user_bad && management_bad {
                Some(RefreshConnectionType::AllConnections)
            } else if user_bad {
                Some(RefreshConnectionType::OnlyUserConnection)
            } else if management_bad {
                Some(RefreshConnectionType::OnlyManagementConnection)
            } else {
                None
            }
        },
{
    match conn_type {
        RefreshConnectionType::OnlyUserConnection => if user_healthy {
            None
        } else {
            Some(RefreshConnectionType::OnlyUserConnection)
        },
        RefreshConnectionType::OnlyManagementConnection => if management_healthy {
            None
        } else {
            Some(RefreshConnectionType::OnlyManagementConnection)
        },
        RefreshConnectionType::AllConnections => if user_healthy && management_healthy {
            None
        } else if user_healthy {
            Some(RefreshConnectionType::OnlyManagementConnection)
        } else if management_healthy {
            Some(RefreshConnectionType::OnlyUserConnection)
        } else {
            Some(RefreshConnectionType::AllConnections)
        },
    }
}

/// How to get a node's connections.
#[derive(Clone, Copy, Debug, PartialEq, Eq, Structural)]
pub enum ConnectPlan {
    /// Keep the node as it is.
    Keep,
    /// Connect afresh, without regard to the node at hand.
    Fresh(RefreshConnectionType),
    /// Make these connections anew and keep the rest of the node.
    Renew(RefreshConnectionType),
}

/// Decides how to get the connections of a node.
///
/// Without a node at hand its connections are made as asked. A node whose
/// name now leads elsewhere is connected to afresh, on both connections. A
/// node at hand is kept if the connections asked about are healthy; else
/// the unhealthy ones are made anew.
pub fn get_or_create_conn(
    node_at_hand: bool,
    dns_changed: bool,
    unhealthy: Option<RefreshConnectionType>,
    conn_type: RefreshConnectionType,
) -> (plan: ConnectPlan)
    ensures
        plan == if !node_at_hand {
            ConnectPlan::Fresh(conn_type)
        } else if dns_changed {
            ConnectPlan::Fresh(RefreshConnectionType::AllConnections)
        } else {
            match unhealthy {
                None => ConnectPlan::Keep,
                Some(t) => ConnectPlan::Renew(t),
            }
        },
{
    if !node_at_hand {
        ConnectPlan::Fresh(conn_type)
    } else if dns_changed {
        ConnectPlan::Fresh(RefreshConnectionType::AllConnections)
    } else {
        match unhealthy {
            None => ConnectPlan::Keep,
            Some(t) => ConnectPlan::Renew(t),
        }
    }
}

/// Which steps `connect_and_check` takes for a node.
#[derive(Clone, Copy, Debug, PartialEq, Eq, Structural)]
pub enum ConnectSteps {
    /// Make the user connection; keep the management connection at hand
    /// unless the node's address turns out to have changed.
    UserOnly,
    /// Make the management connection of the node at hand.
    ManagementOnly,
    /// Make both connections.
    Both,
}

/// The steps to take for a node: only the user connection where only that
/// is asked for; only the management connection where that is asked for
/// and a node is at hand; both in every other case.
pub fn connect_and_check(conn_type: RefreshConnectionType, node_at_hand: bool) -> (steps:
    ConnectSteps)
    ensures
        steps == match conn_type {
            RefreshConnectionType::OnlyUserConnection => ConnectSteps::UserOnly,
            RefreshConnectionType::OnlyManagementConnection => if node_at_hand {
                ConnectSteps::ManagementOnly
            } else {
                ConnectSteps::Both
            },
            RefreshConnectionType::AllConnections => ConnectSteps::Both,
        },
{
    match conn_type {
        RefreshConnectionType::OnlyUserConnection => ConnectSteps::UserOnly,
        RefreshConnectionType::OnlyManagementConnection => if node_at_hand {
            ConnectSteps::ManagementOnly
        } else {
            ConnectSteps::Both
        },
        RefreshConnectionType::AllConnections => ConnectSteps::Both,
    }
}

/// True when a renewed user connection must be followed by a new
/// management connection: the node's address is no longer the one the
/// connections at hand were made to.
pub fn management_follows_user(new_ip: Option<NodeIp>, node_ip: Option<NodeIp>) -> (r: bool)
    ensures
        r == (new_ip != node_ip),
{
    !same_ip(new_ip, node_ip)
}

/// True when the two addresses are the same, or both unknown.
pub fn same_ip(a: Option<NodeIp>, b: Option<NodeIp>) -> (r: bool)
    ensures
        r == (a == b),
{
    match (a, b) {
        (Some(x), Some(y)) => x == y,
        (None, None) => true,
        _ => false,
    }
}

/// Which of two new connections serves which purpose.
#[derive(Clone, Copy, Debug, PartialEq, Eq, Structural)]
pub enum PairPlan {
    /// The first serves the user, the second the management.
    UserAndManagement,
    /// The two were made to different addresses, of which the first is
    /// known: the name must be resolved to tell which one to keep.
    ResolveFirst(NodeIp),
    /// Only the first is used, for the user.
    OnlyFirst,
    /// Only the second is used, for the user.
    OnlySecond,
    /// Neither connection was made.
    Fail,
}

/// Decides what becomes of two connections made to one node at the same
/// time, each given by the address it was made to, or nothing if it
/// failed. Two connections to one address serve the user and the
/// management. Of two connections to different addresses only one is kept,
/// for the user: the one whose address the name still resolves to, or the
/// second where the address of the first is unknown. A single connection
/// serves the user.
pub fn connect_and_check_all_connections(
    first: Option<Option<NodeIp>>,
    second: Option<Option<NodeIp>>,
) -> (plan: PairPlan)
    ensures
        plan == match (first, second) {
            (Some(a), Some(b)) => if a == b {
                PairPlan::UserAndManagement
            } else {
                match a {
                    Some(ip) => PairPlan::ResolveFirst(ip),
                    None => PairPlan::OnlySecond,
                }
            },
            (Some(_), None) => PairPlan::OnlyFirst,
            (None, Some(_)) => PairPlan::OnlySecond,
            (None, None) => PairPlan::Fail,
        },
{
    match (first, second) {
        (Some(a), Some(b)) => if same_ip(a, b) {
            PairPlan::UserAndManagement
        } else {
            match a {
                Some(ip) => PairPlan::ResolveFirst(ip),
                None => PairPlan::OnlySecond,
            }
        },
        (Some(_), None) => PairPlan::OnlyFirst,
        (None, Some(_)) => PairPlan::OnlySecond,
        (None, None) => PairPlan::Fail,
    }
}

/// Settles which of two connections to different addresses is kept, once
/// it is known whether the address of the first is gone from the name.
pub fn settle_pair(first_is_gone: bool) -> (plan: PairPlan)
    ensures
        plan == if first_is_gone {
            PairPlan::OnlySecond
        } else {
            PairPlan::OnlyFirst
        },
{
    if first_is_gone {
        PairPlan::OnlySecond
    } else {
        PairPlan::OnlyFirst
    }
}

/// What becomes of a connection made to renew a node's management
/// connection.
#[derive(Clone, Copy, Debug, PartialEq, Eq, Structural)]
pub enum ManagementPlan {
    /// It becomes the management connection.
    UseForManagement,
    /// The node has moved: it becomes the user connection, and another
    /// connection is made for the management.
    UseForUser,
    /// It could not be made: the node goes without a management connection.
    Without,
}

/// Decides what becomes of the connection made to renew the management
/// connection of a node, given the address it was made to, or nothing if
/// it failed.
pub fn connect_and_check_only_management_conn(
    made: Option<Option<NodeIp>>,
    node_ip: Option<NodeIp>,
) -> (plan: ManagementPlan)
    ensures
        plan == match made {
            Some(ip) => if ip == node_ip {
                ManagementPlan::UseForManagement
            } else {
                ManagementPlan::UseForUser
            },
            None => ManagementPlan::Without,
        },
{
    match made {
        Some(ip) => if same_ip(ip, node_ip) {
            ManagementPlan::UseForManagement
        } else {
            ManagementPlan::UseForUser
        },
        None => ManagementPlan::Without,
    }
}

/// What to do about one node on a list of nodes to refresh.
#[derive(Clone, Copy, Debug, PartialEq, Eq, Structural)]
pub enum RefreshPlan {
    /// Nothing: the node is not known.
    Unknown,
    /// Nothing: the node has left the container, and a management
    /// connection is not made for a node that is gone.
    Gone,
    /// Make these connections, with the node at hand if there is one.
    Refresh(RefreshConnectionType),
}

/// Decides what to do about one node on a list of nodes to refresh, given
/// whether its address is known and whether the node itself is in the
/// container. A node that is not in the container is new: where its user
/// connection was asked for, both connections are made.
pub fn refresh_connections(
    address_known: bool,
    node_at_hand: bool,
    conn_type: RefreshConnectionType,
) -> (plan: RefreshPlan)
    ensures
        plan == if !address_known {
            RefreshPlan::Unknown
        } else if node_at_hand {
            RefreshPlan::Refresh(conn_type)
        } else {
            match conn_type {
                RefreshConnectionType::OnlyUserConnection => RefreshPlan::Refresh(
                    RefreshConnectionType::AllConnections,
                ),
                RefreshConnectionType::OnlyManagementConnection => RefreshPlan::Gone,
                RefreshConnectionType::AllConnections => RefreshPlan::Refresh(
                    RefreshConnectionType::AllConnections,
                ),
            }
        },
{
    if !address_known {
        RefreshPlan::Unknown
    } else if node_at_hand {
        RefreshPlan::Refresh(conn_type)
    } else {
        match conn_type {
            RefreshConnectionType::OnlyUserConnection => RefreshPlan::Refresh(
                RefreshConnectionType::AllConnections,
            ),
            RefreshConnectionType::OnlyManagementConnection => RefreshPlan::Gone,
            RefreshConnectionType::AllConnections => RefreshPlan::Refresh(
                RefreshConnectionType::AllConnections,
            ),
        }
    }
}

/// True when a refreshed node still counts as failed: the refresh did not
/// succeed, or it was to bring a management connection and brought none.
pub fn refresh_failed(
    refreshed: bool,
    has_management: bool,
    conn_type: RefreshConnectionType,
) -> (failed: bool)
    ensures
        failed == (!refreshed || (!has_management && !(conn_type is OnlyUserConnection))),
{
    if !refreshed {
        true
    } else {
        !has_management && checks_management(conn_type)
    }
}

/// The error for a node to which neither of two connections could be made.
pub open spec fn refresh_all_error(detail: Seq<char>) -> ErrorModel {
    ErrorModel {
        kind: ErrorKind::IoError,
        description: "Failed to refresh all connections"@,
        detail: Some(detail),
    }
}

/// The error for a node to which neither of two connections could be made,
/// with the two causes as its detail.
pub fn failed_to_refresh_all(detail: String) -> (e: RedisError)
    ensures
        e@ == refresh_all_error(detail@),
{
    RedisError::with_detail(ErrorKind::IoError, "Failed to refresh all connections", detail)
}

} // verus!
