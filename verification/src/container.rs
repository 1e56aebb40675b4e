//! The connection container: the nodes a client is connected to, by address,
//! together with the slot map that says which node serves which route.
//!
//! Connections are lent out by reference; the container stays their owner.

use crate::random::choose_indexes;
use crate::routing::{MultiRoutingModel, Route, SlotAddr};
use crate::lists::reversed;
use crate::slot_map::{holds_text, multi_addresses, resolve, texts, SlotMap, SlotMapModel};
use crate::text::str_eq;
use vstd::prelude::*;

verus! {

/// The IP address a connection was made to.
#[derive(Clone, Copy, Debug, PartialEq, Eq, Hash, Structural)]
pub enum NodeIp {
    /// An IPv4 address, as a 32-bit number.
    V4(u32),
    /// An IPv6 address, as a 128-bit number.
    V6(u128),
}

/// Which of a node's connections is wanted.
#[derive(Clone, Copy, Debug, PartialEq, Eq, Structural)]
pub enum ConnectionType {
    /// The connection for user commands.
    User,
    /// The management connection; nodes without one are passed over.
    Management,
    /// The management connection where there is one, else the user's.
    PreferManagement,
}

/// One node of the cluster as the client holds it.
#[derive(Debug)]
pub struct ClusterNode<C> {
    /// The connection for user commands.
    pub user_connection: C,
    /// The connection for topology checks, if one could be set up.
    pub management_connection: Option<C>,
    /// The address the connections were made to, for noticing DNS changes.
    pub ip: Option<NodeIp>,
}

/// The connection of `node` that `conn_type` asks for.
pub open spec fn chosen_connection<C>(node: ClusterNode<C>, conn_type: ConnectionType) -> Option<C> {
    match conn_type {
        ConnectionType::User => Some(node.user_connection),
        ConnectionType::Management => node.management_connection,
        ConnectionType::PreferManagement => match node.management_connection {
            Some(c) => Some(c),
            None => Some(node.user_connection),
        },
    }
}

impl<C> ClusterNode<C> {
    /// A node with the given connections.
    pub fn new(user_connection: C, management_connection: Option<C>, ip: Option<NodeIp>) -> (node:
        ClusterNode<C>)
        ensures
            node == (ClusterNode { user_connection, management_connection, ip }),
    {
        ClusterNode { user_connection, management_connection, ip }
    }

    /// The connection that `conn_type` asks for.
    pub fn get_connection(&self, conn_type: ConnectionType) -> (conn: Option<&C>)
        ensures
            match conn {
                Some(c) => chosen_connection(*self, conn_type) == Some(*c),
                None => chosen_connection(*self, conn_type) is None,
            },
    {
        match conn_type {
            ConnectionType::User => Some(&self.user_connection),
            ConnectionType::Management => match &self.management_connection {
                Some(c) => Some(c),
                None => None,
            },
            ConnectionType::PreferManagement => match &self.management_connection {
                Some(c) => Some(c),
                None => Some(&self.user_connection),
            },
        }
    }
}

/// Nodes by address, as a sequence in which no address occurs twice.
pub type NodesModel<C> = Seq<(Seq<char>, ClusterNode<C>)>;

/// The models of a list of nodes with their addresses.
pub open spec fn node_models<C>(nodes: Seq<(String, ClusterNode<C>)>) -> NodesModel<C> {
    Seq::new(nodes.len(), |i: int| (nodes[i].0@, nodes[i].1))
}

/// Index of the node with address `addr`, from `from` on.
pub open spec fn node_index<C>(nodes: NodesModel<C>, addr: Seq<char>, from: int) -> Option<int>
    decreases nodes.len() - from,
{
    if from < 0 || from >= nodes.len() {
        None
    } else if nodes[from].0 == addr {
        Some(from)
    } else {
        node_index(nodes, addr, from + 1)
    }
}

/// True when no address occurs twice.
pub open spec fn distinct_addresses<C>(nodes: NodesModel<C>) -> bool {
    forall|i: int, j: int|
        0 <= i < j < nodes.len() ==> (#[trigger] nodes[i]).0 != (#[trigger] nodes[j]).0
}

/// `nodes` with `node` at `addr`: in the place of the node that had the
/// address, or at the end.
pub open spec fn with_node<C>(nodes: NodesModel<C>, addr: Seq<char>, node: ClusterNode<C>)
    -> NodesModel<C> {
    match node_index(nodes, addr, 0) {
        Some(i) => nodes.update(i, (addr, node)),
        None => nodes.push((addr, node)),
    }
}

/// What `node_index` finds is the first node with the address.
pub proof fn lemma_node_index<C>(nodes: NodesModel<C>, addr: Seq<char>, from: int)
    requires
        0 <= from <= nodes.len(),
    ensures
        match node_index(nodes, addr, from) {
            Some(i) => from <= i < nodes.len() && nodes[i].0 == addr && forall|j: int|
                from <= j < i ==> (#[trigger] nodes[j]).0 != addr,
            None => forall|j: int| from <= j < nodes.len() ==> (#[trigger] nodes[j]).0 != addr,
        },
    decreases nodes.len() - from,
{
    if from < nodes.len() && nodes[from].0 != addr {
        lemma_node_index(nodes, addr, from + 1);
    }
}

/// Those of the first `upto` nodes whose address is among `addrs`, in
/// order.
pub open spec fn nodes_at<C>(nodes: NodesModel<C>, addrs: Seq<Seq<char>>, upto: int) -> NodesModel<C>
    decreases upto,
{
    if upto <= 0 {
        Seq::empty()
    } else if addrs.contains(nodes[upto - 1].0) {
        nodes_at(nodes, addrs, upto - 1).push(nodes[upto - 1])
    } else {
        nodes_at(nodes, addrs, upto - 1)
    }
}

/// In a sequence in which each element is less than the next, an earlier
/// element is less than a later one.
proof fn lemma_increasing(s: Seq<int>, a: int, b: int)
    requires
        forall|j: int| 0 < j < s.len() ==> s[j - 1] < #[trigger] s[j],
        0 <= a < b < s.len(),
    ensures
        s[a] < s[b],
    decreases b - a,
{
    if a + 1 < b {
        lemma_increasing(s, a, b - 1);
    }
}

/// Nodes by address.
#[derive(Debug)]
pub struct ConnectionsMap<C> {
    nodes: Vec<(String, ClusterNode<C>)>,
}

impl<C> View for ConnectionsMap<C> {
    type V = NodesModel<C>;

    closed spec fn view(&self) -> NodesModel<C> {
        node_models(self.nodes@)
    }
}

fn find_node<C>(nodes: &Vec<(String, ClusterNode<C>)>, addr: &str) -> (r: Option<usize>)
    ensures
        match r {
            Some(i) => node_index(node_models(nodes@), addr@, 0) == Some(i as int) && i
                < nodes.len(),
            None => node_index(node_models(nodes@), addr@, 0) is None,
        },
{
    let ghost model = node_models(nodes@);
    let mut i: usize = 0;
    while i < nodes.len()
        invariant
            i <= nodes.len(),
            model == node_models(nodes@),
            node_index(model, addr@, 0) == node_index(model, addr@, i as int),
        decreases nodes.len() - i,
    {
        if str_eq(nodes[i].0.as_str(), addr) {
            return Some(i);
        }
        i += 1;
    }
    None
}

proof fn lemma_with_node_distinct<C>(nodes: NodesModel<C>, addr: Seq<char>, node: ClusterNode<C>)
    requires
        distinct_addresses(nodes),
    ensures
        distinct_addresses(with_node(nodes, addr, node)),
{
    lemma_node_index(nodes, addr, 0);
}

fn put_node<C>(nodes: &mut Vec<(String, ClusterNode<C>)>, addr: String, node: ClusterNode<C>)
    ensures
        node_models(final(nodes)@) == with_node(node_models(old(nodes)@), addr@, node),
{
    match find_node(nodes, addr.as_str()) {
        Some(i) => {
            nodes.set(i, (addr, node));
        },
        None => {
            nodes.push((addr, node));
        },
    }
}

impl<C> ConnectionsMap<C> {
    #[verifier::type_invariant]
    spec fn sound(self) -> bool {
        distinct_addresses(self@)
    }

    /// No nodes.
    pub fn new() -> (map: ConnectionsMap<C>)
        ensures
            map@.len() == 0,
    {
        ConnectionsMap { nodes: Vec::new() }
    }

    /// Puts `node` at `addr`, in the place of the node that was there.
    pub fn insert(&mut self, addr: String, node: ClusterNode<C>)
        ensures
            final(self)@ == with_node(old(self)@, addr@, node),
    {
        proof {
            use_type_invariant(&*self);
            lemma_with_node_distinct(self@, addr@, node);
        }
        let mut nodes: Vec<(String, ClusterNode<C>)> = Vec::new();
        std::mem::swap(&mut self.nodes, &mut nodes);
        put_node(&mut nodes, addr, node);
        self.nodes = nodes;
    }

    /// Keeps the nodes whose address is among `addrs` and lets the others
    /// go.
    pub fn retain_addresses(self, addrs: &Vec<String>) -> (kept: ConnectionsMap<C>)
        ensures
            kept@ == nodes_at(self@, texts(addrs@), self@.len() as int),
    {
        proof {
            use_type_invariant(&self);
        }
        let ghost all = self@;
        let ghost names = texts(addrs@);
        let count = self.nodes.len();
        let mut pending = reversed(self.nodes);
        let mut nodes: Vec<(String, ClusterNode<C>)> = Vec::new();
        let ghost mut from: Seq<int> = Seq::empty();
        let mut i: usize = 0;
        while i < count
            invariant
                i <= count == all.len(),
                pending.len() == count - i,
                names == texts(addrs@),
                distinct_addresses(all),
                forall|j: int|
                    0 <= j < pending.len() ==> (#[trigger] pending@[j]).0@ == all[count - 1 - j].0
                        && pending@[j].1 == all[count - 1 - j].1,
                node_models(nodes@) == nodes_at(all, names, i as int),
                from.len() == nodes.len(),
                forall|k: int|
                    0 <= k < from.len() ==> 0 <= (#[trigger] from[k]) < i && node_models(
                        nodes@,
                    )[k] == all[from[k]] && (k > 0 ==> from[k - 1] < from[k]),
                distinct_addresses(node_models(nodes@)),
            decreases count - i,
        {
            let node = pending.pop().unwrap();
            if holds_text(addrs, node.0.as_str()) {
                let ghost before = node_models(nodes@);
                nodes.push(node);
                proof {
                    from = from.push(i as int);
                    let now = node_models(nodes@);
                    assert(now =~= before.push(all[i as int]));
                    assert forall|a: int, b: int| 0 <= a < b < now.len() implies (
                    #[trigger] now[a]).0 != (#[trigger] now[b]).0 by {
                        lemma_increasing(from, a, b);
                        assert(now[a] == all[from[a]] && now[b] == all[from[b]]);
                    }
                }
            }
            i += 1;
        }
        ConnectionsMap { nodes }
    }

    /// Number of nodes.
    pub fn len(&self) -> (n: usize)
        ensures
            n == self@.len(),
            distinct_addresses(self@),
    {
        proof {
            use_type_invariant(self);
        }
        self.nodes.len()
    }

    /// True when there is no node.
    pub fn is_empty(&self) -> (r: bool)
        ensures
            r == (self@.len() == 0),
    {
        self.nodes.len() == 0
    }
}

/// Mathematical model of a [`ConnectionsContainer`].
pub struct ContainerModel<C> {
    pub nodes: NodesModel<C>,
    pub slot_map: SlotMapModel,
    pub read_from_replicas: bool,
}

/// The node a route leads to: the node at the address the slot map gives,
/// or, where that node is not connected and the route did not ask for the
/// primary, the slot's primary.
pub open spec fn route_node<C>(container: ContainerModel<C>, route: Route) -> Option<int> {
    let direct = match resolve(container.slot_map, route) {
        Some(addr) => node_index(container.nodes, addr, 0),
        None => None,
    };
    if direct is Some || route.1 == SlotAddr::Master {
        direct
    } else {
        match resolve(container.slot_map, Route(route.0, SlotAddr::Master)) {
            Some(addr) => node_index(container.nodes, addr, 0),
            None => None,
        }
    }
}

/// The indexes of the nodes at those of the first `upto` addresses that are
/// connected.
pub open spec fn connected<C>(nodes: NodesModel<C>, addrs: Seq<Seq<char>>, upto: int) -> Seq<int>
    decreases upto,
{
    if upto <= 0 {
        Seq::empty()
    } else {
        match node_index(nodes, addrs[upto - 1], 0) {
            Some(i) => connected(nodes, addrs, upto - 1).push(i),
            None => connected(nodes, addrs, upto - 1),
        }
    }
}

/// The nodes and the slot map of one cluster client.
#[derive(Debug)]
pub struct ConnectionsContainer<C> {
    nodes: Vec<(String, ClusterNode<C>)>,
    slot_map: SlotMap,
    read_from_replicas: bool,
}

impl<C> View for ConnectionsContainer<C> {
    type V = ContainerModel<C>;

    closed spec fn view(&self) -> ContainerModel<C> {
        ContainerModel {
            nodes: node_models(self.nodes@),
            slot_map: self.slot_map@,
            read_from_replicas: self.read_from_replicas,
        }
    }
}

/// True when every node has the connection that `conn_type` asks for.
/// Every node has a user connection, but not every node has a management
/// connection.
pub open spec fn every_node_has<C>(nodes: NodesModel<C>, conn_type: ConnectionType) -> bool {
    forall|i: int|
        0 <= i < nodes.len() ==> chosen_connection((#[trigger] nodes[i]).1, conn_type) is Some
}

/// A connection lent out with the address of its node.
pub type ConnectionAndAddress<'a, C> = (String, &'a C);

/// True when `lease` is the connection that `conn_type` asks for of the
/// node at the lease's address.
pub open spec fn lent_from<C>(
    nodes: NodesModel<C>,
    conn_type: ConnectionType,
    lease: ConnectionAndAddress<C>,
) -> bool {
    match node_index(nodes, lease.0@, 0) {
        Some(i) => chosen_connection(nodes[i].1, conn_type) == Some(*lease.1),
        None => false,
    }
}

impl<C> ConnectionsContainer<C> {
    #[verifier::type_invariant]
    spec fn sound(self) -> bool {
        distinct_addresses(self@.nodes)
    }

    /// A container over the given slot map and nodes. The slot map is marked
    /// with `topology_hash`.
    pub fn new(
        slot_map: SlotMap,
        connection_map: ConnectionsMap<C>,
        read_from_replicas: bool,
        topology_hash: u64,
    ) -> (container: ConnectionsContainer<C>)
        ensures
            container@.nodes == connection_map@,
            container@.slot_map.ranges == slot_map@.ranges,
            container@.slot_map.topology_hash == topology_hash,
            container@.read_from_replicas == read_from_replicas,
    {
        proof {
            use_type_invariant(&connection_map);
        }
        let mut slot_map = slot_map;
        slot_map.set_topology_hash(topology_hash);
        ConnectionsContainer { nodes: connection_map.nodes, slot_map, read_from_replicas }
    }

    /// Number of nodes.
    pub fn len(&self) -> (n: usize)
        ensures
            n == self@.nodes.len(),
            distinct_addresses(self@.nodes),
    {
        proof {
            use_type_invariant(self);
        }
        self.nodes.len()
    }

    /// True when there is no node.
    pub fn is_empty(&self) -> (r: bool)
        ensures
            r == (self@.nodes.len() == 0),
    {
        self.nodes.len() == 0
    }

    /// The slot map.
    pub fn slot_map(&self) -> (map: &SlotMap)
        ensures
            map@ == self@.slot_map,
    {
        &self.slot_map
    }

    /// The hash of the topology view the slot map was built from.
    pub fn get_current_topology_hash(&self) -> (hash: u64)
        ensures
            hash == self@.slot_map.topology_hash,
    {
        self.slot_map.topology_hash()
    }

    /// The node at `address`.
    pub fn node_for_address(&self, address: &str) -> (node: Option<&ClusterNode<C>>)
        ensures
            match node {
                Some(n) => {
                    &&& node_index(self@.nodes, address@, 0) matches Some(i)
                    &&& *n == self@.nodes[i].1
                },
                None => node_index(self@.nodes, address@, 0) is None,
            },
    {
        match find_node(&self.nodes, address) {
            Some(i) => Some(&self.nodes[i].1),
            None => None,
        }
    }

    /// The address by which a node is known, if the node is here.
    pub fn address_for_identifier(&self, identifier: &str) -> (address: Option<String>)
        ensures
            match address {
                Some(a) => a@ == identifier@ && node_index(self@.nodes, identifier@, 0) is Some,
                None => node_index(self@.nodes, identifier@, 0) is None,
            },
    {
        match find_node(&self.nodes, identifier) {
            Some(i) => {
                proof {
                    lemma_node_index(self@.nodes, identifier@, 0);
                }
                Some(self.nodes[i].0.clone())
            },
            None => None,
        }
    }

    /// The user connection of the node at `address`.
    pub fn connection_for_address(&self, address: &str) -> (found: Option<ConnectionAndAddress<C>>)
        ensures
            match found {
                Some((a, c)) => {
                    &&& a@ == address@
                    &&& node_index(self@.nodes, address@, 0) matches Some(i)
                    &&& *c == self@.nodes[i].1.user_connection
                },
                None => node_index(self@.nodes, address@, 0) is None,
            },
    {
        match find_node(&self.nodes, address) {
            Some(i) => {
                proof {
                    lemma_node_index(self@.nodes, address@, 0);
                }
                Some((self.nodes[i].0.clone(), &self.nodes[i].1.user_connection))
            },
            None => None,
        }
    }

    fn lookup_route(&self, route: &Route) -> (found: Option<usize>)
        ensures
            match found {
                Some(i) => {
                    &&& i < self@.nodes.len()
                    &&& resolve(self@.slot_map, *route) matches Some(addr)
                    &&& node_index(self@.nodes, addr, 0) == Some(i as int)
                },
                None => match resolve(self@.slot_map, *route) {
                    Some(addr) => node_index(self@.nodes, addr, 0) is None,
                    None => true,
                },
            },
    {
        match self.slot_map.slot_addr_for_route(route) {
            Some(addr) => find_node(&self.nodes, addr),
            None => None,
        }
    }

    /// The user connection of the node that a route leads to.
    pub fn connection_for_route(&self, route: &Route) -> (found: Option<ConnectionAndAddress<C>>)
        ensures
            match found {
                Some((a, c)) => {
                    &&& route_node(self@, *route) matches Some(i)
                    &&& 0 <= i < self@.nodes.len()
                    &&& a@ == self@.nodes[i].0
                    &&& *c == self@.nodes[i].1.user_connection
                },
                None => route_node(self@, *route) is None,
            },
    {
        let slot_addr = route.slot_addr();
        let direct = self.lookup_route(route);
        let found = match direct {
            Some(i) => Some(i),
            None => match slot_addr {
                SlotAddr::Master => None,
                _ => self.lookup_route(&Route::new(route.slot(), SlotAddr::Master)),
            },
        };
        match found {
            Some(i) => Some((self.nodes[i].0.clone(), &self.nodes[i].1.user_connection)),
            None => None,
        }
    }

    /// The user connection of every node, in the order of the container.
    pub fn all_node_connections(&self) -> (out: Vec<ConnectionAndAddress<C>>)
        ensures
            out.len() == self@.nodes.len(),
            forall|i: int|
                0 <= i < out.len() ==> (#[trigger] out@[i]).0@ == self@.nodes[i].0 && *out@[i].1
                    == self@.nodes[i].1.user_connection,
    {
        let mut out: Vec<ConnectionAndAddress<C>> = Vec::with_capacity(self.nodes.len());
        let mut i: usize = 0;
        while i < self.nodes.len()
            invariant
                i <= self.nodes.len(),
                out.len() == i,
                forall|j: int|
                    0 <= j < i ==> (#[trigger] out@[j]).0@ == self.nodes@[j].0@ && *out@[j].1
                        == self.nodes@[j].1.user_connection,
            decreases self.nodes.len() - i,
        {
            out.push((self.nodes[i].0.clone(), &self.nodes[i].1.user_connection));
            i += 1;
        }
        out
    }

    /// The user connection of every primary that is connected, in the order
    /// in which the slot map names the primaries.
    pub fn all_primary_connections(&self) -> (out: Vec<ConnectionAndAddress<C>>)
        ensures
            ({
                let addrs = multi_addresses(self@.slot_map, MultiRoutingModel::AllMasters);
                let picks = connected(self@.nodes, addrs, addrs.len() as int);
                &&& out.len() == picks.len()
                &&& forall|k: int|
                    0 <= k < out.len() ==> 0 <= (#[trigger] picks[k]) < self@.nodes.len()
                        && out@[k].0@ == self@.nodes[picks[k]].0 && *out@[k].1
                        == self@.nodes[picks[k]].1.user_connection
            }),
    {
        let addrs = self.slot_map.addresses_for_all_primaries();
        let ghost names = texts(addrs@);
        let mut out: Vec<ConnectionAndAddress<C>> = Vec::new();
        let mut i: usize = 0;
        while i < addrs.len()
            invariant
                i <= addrs.len(),
                names == texts(addrs@),
                out.len() == connected(self@.nodes, names, i as int).len(),
                forall|k: int|
                    0 <= k < out.len() ==> 0 <= (#[trigger] connected(
                        self@.nodes,
                        names,
                        i as int,
                    )[k]) < self@.nodes.len() && out@[k].0@ == self@.nodes[connected(
                        self@.nodes,
                        names,
                        i as int,
                    )[k]].0 && *out@[k].1 == self@.nodes[connected(
                        self@.nodes,
                        names,
                        i as int,
                    )[k]].1.user_connection,
            decreases addrs.len() - i,
        {
            match find_node(&self.nodes, addrs[i].as_str()) {
                Some(at) => {
                    out.push((self.nodes[at].0.clone(), &self.nodes[at].1.user_connection));
                },
                None => {},
            }
            i += 1;
        }
        out
    }

    /// Puts `node` at `address`, in the place of the node that was there,
    /// and returns the address as the node's identifier.
    pub fn replace_or_add_connection_for_address(
        &mut self,
        address: String,
        node: ClusterNode<C>,
    ) -> (identifier: String)
        ensures
            identifier@ == address@,
            final(self)@.nodes == with_node(old(self)@.nodes, address@, node),
            final(self)@.slot_map == old(self)@.slot_map,
            final(self)@.read_from_replicas == old(self)@.read_from_replicas,
    {
        proof {
            use_type_invariant(&*self);
            lemma_with_node_distinct(self@.nodes, address@, node);
        }
        let identifier = address.clone();
        let mut nodes: Vec<(String, ClusterNode<C>)> = Vec::new();
        std::mem::swap(&mut self.nodes, &mut nodes);
        put_node(&mut nodes, address, node);
        self.nodes = nodes;
        identifier
    }

    /// Takes out the node known by `identifier`.
    pub fn remove_node(&mut self, identifier: &str) -> (node: Option<ClusterNode<C>>)
        ensures
            final(self)@.slot_map == old(self)@.slot_map,
            final(self)@.read_from_replicas == old(self)@.read_from_replicas,
            match node {
                Some(n) => {
                    &&& node_index(old(self)@.nodes, identifier@, 0) matches Some(i)
                    &&& n == old(self)@.nodes[i].1
                    &&& final(self)@.nodes == old(self)@.nodes.remove(i)
                },
                None => node_index(old(self)@.nodes, identifier@, 0) is None && final(self)@.nodes
                    == old(self)@.nodes,
            },
    {
        proof {
            use_type_invariant(&*self);
        }
        match find_node(&self.nodes, identifier) {
            Some(i) => {
                let ghost before = self@.nodes;
                let mut nodes: Vec<(String, ClusterNode<C>)> = Vec::new();
                std::mem::swap(&mut self.nodes, &mut nodes);
                let (_, node) = nodes.remove(i);
                assert(node_models(nodes@) =~= before.remove(i as int));
                self.nodes = nodes;
                Some(node)
            },
            None => None,
        }
    }

    /// Up to `amount` connections of distinct nodes, picked at random.
    /// Nothing is promised about which nodes are picked; nodes without the
    /// connection that `conn_type` asks for are passed over, so that fewer
    /// connections may come back than there are nodes to pick.
    pub fn random_connections(&self, amount: usize, conn_type: ConnectionType) -> (out: Vec<
        ConnectionAndAddress<C>,
    >)
        ensures
            out.len() <= amount,
            out.len() <= self@.nodes.len(),
            every_node_has(self@.nodes, conn_type) ==> out.len() == if amount
                <= self@.nodes.len() {
                amount as int
            } else {
                self@.nodes.len() as int
            },
            forall|k: int|
                0 <= k < out.len() ==> lent_from(self@.nodes, conn_type, #[trigger] out@[k]),
            forall|k: int, l: int|
                0 <= k < l < out.len() ==> (#[trigger] out@[k]).0@ != (#[trigger] out@[l]).0@,
    {
        proof {
            use_type_invariant(self);
        }
        let n = self.nodes.len();
        let wanted = if amount <= n {
            amount
        } else {
            n
        };
        let picks = choose_indexes(n, wanted);
        let ghost model = self@.nodes;
        let mut out: Vec<ConnectionAndAddress<C>> = Vec::with_capacity(wanted);
        let ghost mut picked: Seq<int> = Seq::empty();
        let mut k: usize = 0;
        while k < picks.len()
            invariant
                k <= picks.len() == wanted <= amount,
                wanted <= n == self.nodes.len(),
                model == self@.nodes,
                forall|i: int| 0 <= i < picks.len() ==> (#[trigger] picks@[i]) < n,
                forall|i: int, j: int|
                    0 <= i < j < picks.len() ==> (#[trigger] picks@[i]) != (#[trigger] picks@[j]),
                out.len() == picked.len() <= k,
                every_node_has(model, conn_type) ==> out.len() == k,
                forall|j: int|
                    0 <= j < picked.len() ==> 0 <= (#[trigger] picked[j]) < k && (j > 0
                        ==> picked[j - 1] < picked[j]),
                forall|j: int|
                    0 <= j < out.len() ==> (#[trigger] out@[j]).0@ == model[picks@[picked[j]] as int].0
                        && chosen_connection(model[picks@[picked[j]] as int].1, conn_type) == Some(
                        *out@[j].1,
                    ),
            decreases picks.len() - k,
        {
            let at = picks[k];
            match self.nodes[at].1.get_connection(conn_type) {
                Some(c) => {
                    out.push((self.nodes[at].0.clone(), c));
                    proof {
                        picked = picked.push(k as int);
                    }
                },
                None => {
                    assert(chosen_connection(model[at as int].1, conn_type) is None);
                },
            }
            k += 1;
        }
        proof {
            assert forall|a: int, b: int| 0 <= a < b < picked.len() implies picked[a]
                < picked[b] by {
                lemma_increasing(picked, a, b);
            }
            assert forall|a: int| 0 <= a < out.len() implies lent_from(
                model,
                conn_type,
                #[trigger] out@[a],
            ) by {
                // No two nodes share an address, so the node found at the
                // address of a lease is the node that was picked.
                lemma_node_index(model, out@[a].0@, 0);
                assert(model[picks@[picked[a]] as int].0 == out@[a].0@);
            }
            assert forall|a: int, b: int| 0 <= a < b < out.len() implies (#[trigger] out@[a]).0@
                != (#[trigger] out@[b]).0@ by {
                // Distinct nodes were picked, and distinct nodes have
                // distinct addresses.
                assert(picked[a] < picked[b]);
                assert(picks@[picked[a]] != picks@[picked[b]]);
                assert(model[picks@[picked[a]] as int].0 != model[picks@[picked[b]] as int].0);
            }
        }
        out
    }
}

} // verus!
