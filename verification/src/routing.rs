//! Where a command goes: routes, routing information, and the table that
//! assigns one to each command.

use crate::command::{bytes_are, command_name, arg_position, word, Cmd};
use crate::slot::{get_slot, key_slot};
use crate::text::{parse_bounded, parse_decimal};
use vstd::prelude::*;

verus! {

/// Which node of a slot a request is meant for.
#[derive(Clone, Copy, Debug, PartialEq, Eq, Hash, Structural)]
pub enum SlotAddr {
    /// The primary of the slot.
    Master,
    /// A replica if reading from replicas is enabled and one is known,
    /// else the primary.
    ReplicaOptional,
    /// A replica of the slot.
    ReplicaRequired,
}

/// A slot together with the node of that slot to address.
#[derive(Clone, Copy, Debug, PartialEq, Eq, Hash, Structural)]
pub struct Route(pub u16, pub SlotAddr);

impl Route {
    /// The route to `slot_addr` of `slot`.
    pub fn new(slot: u16, slot_addr: SlotAddr) -> (route: Route)
        ensures
            route == Route(slot, slot_addr),
    {
        Route(slot, slot_addr)
    }

    /// The slot.
    pub fn slot(&self) -> (slot: u16)
        ensures
            slot == self.0,
    {
        self.0
    }

    /// The node of the slot.
    pub fn slot_addr(&self) -> (slot_addr: SlotAddr)
        ensures
            slot_addr == self.1,
    {
        self.1
    }
}

/// Routing to a single node.
#[derive(Clone, Copy, Debug, PartialEq, Eq, Structural)]
pub enum SingleNodeRoutingInfo {
    /// Any node will do.
    Random,
    /// The node that a route names.
    SpecificNode(Route),
}

impl SingleNodeRoutingInfo {
    /// The routing for an optional route: the route's node, or any node.
    pub fn from_route(route: Option<Route>) -> (info: SingleNodeRoutingInfo)
        ensures
            info == match route {
                Some(r) => SingleNodeRoutingInfo::SpecificNode(r),
                None => SingleNodeRoutingInfo::Random,
            },
    {
        match route {
            Some(r) => SingleNodeRoutingInfo::SpecificNode(r),
            None => SingleNodeRoutingInfo::Random,
        }
    }
}

/// Routing to several nodes.
#[derive(Debug, PartialEq, Eq)]
pub enum MultipleNodeRoutingInfo {
    /// Every node of the cluster.
    AllNodes,
    /// Every primary.
    AllMasters,
    /// The nodes of several routes; with each route go the positions of the
    /// command's arguments that belong to it.
    MultiSlot(Vec<(Route, Vec<usize>)>),
}

/// Numeric reductions over the replies of several nodes.
#[derive(Clone, Copy, Debug, PartialEq, Eq, Structural)]
pub enum AggregateOp {
    /// The smallest reply.
    Min,
    /// The sum of the replies.
    Sum,
}

/// Boolean reductions over the replies of several nodes.
#[derive(Clone, Copy, Debug, PartialEq, Eq, Structural)]
pub enum LogicalAggregateOp {
    /// True where every node says true.
    And,
    /// True where some node says true.
    Or,
}

/// How the replies of several nodes become one reply.
#[derive(Clone, Copy, Debug, PartialEq, Eq, Structural)]
pub enum ResponsePolicy {
    /// The first success; the last error if every node fails.
    OneSucceeded,
    /// The first success that is not nil.
    OneSucceededNonEmpty,
    /// Every node must succeed.
    AllSucceeded,
    /// Element-wise boolean reduction of the replies.
    AggregateLogical(LogicalAggregateOp),
    /// Numeric reduction of the replies.
    Aggregate(AggregateOp),
    /// The replies are arrays and are concatenated.
    CombineArrays,
    /// The replies are handed back keyed by node address.
    Special,
}

/// Where a command goes.
#[derive(Debug, PartialEq, Eq)]
pub enum RoutingInfo {
    /// To one node.
    SingleNode(SingleNodeRoutingInfo),
    /// To several nodes, with the policy that combines their replies.
    MultiNode((MultipleNodeRoutingInfo, Option<ResponsePolicy>)),
}

/// Mathematical model of a [`MultipleNodeRoutingInfo`].
pub enum MultiRoutingModel {
    AllNodes,
    AllMasters,
    MultiSlot(Seq<(Route, Seq<usize>)>),
}

/// Mathematical model of a [`RoutingInfo`].
pub enum RoutingModel {
    SingleNode(SingleNodeRoutingInfo),
    MultiNode(MultiRoutingModel, Option<ResponsePolicy>),
}

/// The model of a list of routes with their argument positions.
pub open spec fn slots_model(slots: Seq<(Route, Vec<usize>)>) -> Seq<(Route, Seq<usize>)> {
    Seq::new(slots.len(), |i: int| (slots[i].0, slots[i].1@))
}

impl View for MultipleNodeRoutingInfo {
    type V = MultiRoutingModel;

    open spec fn view(&self) -> MultiRoutingModel {
        match self {
            MultipleNodeRoutingInfo::AllNodes => MultiRoutingModel::AllNodes,
            MultipleNodeRoutingInfo::AllMasters => MultiRoutingModel::AllMasters,
            MultipleNodeRoutingInfo::MultiSlot(slots) => MultiRoutingModel::MultiSlot(
                slots_model(slots@),
            ),
        }
    }
}

impl View for RoutingInfo {
    type V = RoutingModel;

    open spec fn view(&self) -> RoutingModel {
        match self {
            RoutingInfo::SingleNode(single) => RoutingModel::SingleNode(*single),
            RoutingInfo::MultiNode((multi, policy)) => RoutingModel::MultiNode(multi@, *policy),
        }
    }
}

/// The kinds of routing rule in the command table.
#[derive(Clone, Copy, Debug, PartialEq, Eq, Structural)]
pub enum Shape {
    /// Sent to every primary.
    AllMasters,
    /// Sent to every node.
    AllNodes,
    /// Sent to any one node.
    Random,
    /// Arguments from the first on are keys; split by slot.
    Keys,
    /// Arguments from the first on are key and value in turn; split by slot.
    KeysAndValues,
    /// Cannot be routed.
    Unroutable,
    /// A script call: argument 2 counts the keys, argument 3 is the first;
    /// without a count any node will do.
    Script,
    /// The key is argument 2.
    KeyAtTwo,
    /// The key follows the word `STREAMS`.
    Streams,
    /// The key is argument 1; without it any node will do.
    KeyAtOne,
}

/// Commands that go to every primary.
pub open spec fn is_all_masters(name: Seq<u8>) -> bool {
    name == word("RANDOMKEY") || name == word("KEYS") || name == word("SCRIPT EXISTS") || name
        == word("WAIT") || name == word("DBSIZE") || name == word("FLUSHALL") || name == word(
        "FUNCTION RESTORE",
    ) || name == word("FUNCTION DELETE") || name == word("FUNCTION FLUSH") || name == word(
        "FUNCTION LOAD",
    ) || name == word("FLUSHDB") || name == word("MEMORY PURGE") || name == word("FUNCTION KILL")
        || name == word("SCRIPT KILL") || name == word("SCRIPT LOAD") || name == word(
        "FUNCTION STATS",
    ) || name == word("MEMORY MALLOC-STATS") || name == word("MEMORY DOCTOR") || name == word(
        "MEMORY STATS",
    ) || name == word("INFO")
}

/// Commands that go to every node.
pub open spec fn is_all_nodes(name: Seq<u8>) -> bool {
    name == word("SLOWLOG GET") || name == word("SLOWLOG LEN") || name == word("SLOWLOG RESET")
        || name == word("CONFIG SET") || name == word("CONFIG RESETSTAT") || name == word(
        "CONFIG REWRITE",
    ) || name == word("SCRIPT FLUSH") || name == word("LATENCY RESET") || name == word(
        "LATENCY GRAPH",
    ) || name == word("LATENCY HISTOGRAM") || name == word("LATENCY HISTORY") || name == word(
        "LATENCY DOCTOR",
    ) || name == word("LATENCY LATEST")
}

/// Commands that cannot be routed.
pub open spec fn is_unroutable(name: Seq<u8>) -> bool {
    name == word("SCAN") || name == word("SHUTDOWN") || name == word("SLAVEOF") || name == word(
        "REPLICAOF",
    ) || name == word("MOVE") || name == word("BITOP")
}

/// Commands whose key is argument 2.
pub open spec fn is_key_at_two(name: Seq<u8>) -> bool {
    name == word("XGROUP CREATE") || name == word("XGROUP CREATECONSUMER") || name == word(
        "XGROUP DELCONSUMER",
    ) || name == word("XGROUP DESTROY") || name == word("XGROUP SETID") || name == word(
        "XINFO CONSUMERS",
    ) || name == word("XINFO GROUPS") || name == word("XINFO STREAM")
}

/// The routing rule for a command name.
#[verifier::opaque]
pub open spec fn shape_of(name: Seq<u8>) -> Shape {
    if is_all_masters(name) {
        Shape::AllMasters
    } else if is_all_nodes(name) {
        Shape::AllNodes
    } else if name == word("PING") {
        Shape::Random
    } else if name == word("MGET") || name == word("DEL") || name == word("EXISTS") || name
        == word("UNLINK") || name == word("TOUCH") {
        Shape::Keys
    } else if name == word("MSET") {
        Shape::KeysAndValues
    } else if is_unroutable(name) {
        Shape::Unroutable
    } else if name == word("EVALSHA") || name == word("EVAL") {
        Shape::Script
    } else if is_key_at_two(name) {
        Shape::KeyAtTwo
    } else if name == word("XREAD") || name == word("XREADGROUP") {
        Shape::Streams
    } else {
        Shape::KeyAtOne
    }
}

/// The policy that combines the replies to a command sent to several nodes.
#[verifier::opaque]
pub open spec fn policy_of(name: Seq<u8>) -> Option<ResponsePolicy> {
    if name == word("SCRIPT EXISTS") {
        Some(ResponsePolicy::AggregateLogical(LogicalAggregateOp::And))
    } else if name == word("DBSIZE") || name == word("DEL") || name == word("EXISTS") || name
        == word("SLOWLOG LEN") || name == word("TOUCH") || name == word("UNLINK") {
        Some(ResponsePolicy::Aggregate(AggregateOp::Sum))
    } else if name == word("WAIT") {
        Some(ResponsePolicy::Aggregate(AggregateOp::Min))
    } else if name == word("CONFIG SET") || name == word("FLUSHALL") || name == word("FLUSHDB")
        || name == word("FUNCTION DELETE") || name == word("FUNCTION FLUSH") || name == word(
        "FUNCTION LOAD",
    ) || name == word("FUNCTION RESTORE") || name == word("LATENCY RESET") || name == word(
        "MEMORY PURGE",
    ) || name == word("MSET") || name == word("PING") || name == word("SCRIPT FLUSH") || name
        == word("SCRIPT LOAD") || name == word("SLOWLOG RESET") {
        Some(ResponsePolicy::AllSucceeded)
    } else if name == word("KEYS") || name == word("MGET") || name == word("SLOWLOG GET") {
        Some(ResponsePolicy::CombineArrays)
    } else if name == word("FUNCTION KILL") || name == word("SCRIPT KILL") {
        Some(ResponsePolicy::OneSucceeded)
    } else if name == word("RANDOMKEY") {
        Some(ResponsePolicy::OneSucceededNonEmpty)
    } else if name == word("LATENCY GRAPH") || name == word("LATENCY HISTOGRAM") || name == word(
        "LATENCY HISTORY",
    ) || name == word("LATENCY DOCTOR") || name == word("LATENCY LATEST") || name == word(
        "FUNCTION STATS",
    ) || name == word("MEMORY MALLOC-STATS") || name == word("MEMORY DOCTOR") || name == word(
        "MEMORY STATS",
    ) || name == word("INFO") {
        Some(ResponsePolicy::Special)
    } else {
        None
    }
}

/// Read-only commands on strings, bits and keys.
pub open spec fn is_readonly_plain(name: Seq<u8>) -> bool {
    name == word("BITCOUNT") || name == word("BITFIELD_RO") || name == word("BITPOS") || name
        == word("DBSIZE") || name == word("DUMP") || name == word("EVALSHA_RO") || name == word(
        "EVAL_RO",
    ) || name == word("EXISTS") || name == word("EXPIRETIME") || name == word("FCALL_RO") || name
        == word("GET") || name == word("GETBIT") || name == word("GETRANGE") || name == word("KEYS")
        || name == word("LCS") || name == word("LOLWUT") || name == word("MEMORY USAGE") || name
        == word("MGET") || name == word("OBJECT ENCODING") || name == word("OBJECT FREQ") || name
        == word("OBJECT IDLETIME") || name == word("OBJECT REFCOUNT") || name == word(
        "PEXPIRETIME",
    ) || name == word("PFCOUNT") || name == word("PTTL") || name == word("RANDOMKEY") || name
        == word("SCAN") || name == word("SORT_RO") || name == word("STRLEN") || name == word(
        "SUBSTR",
    ) || name == word("TOUCH") || name == word("TTL") || name == word("TYPE")
}

/// Read-only commands on geo indexes, hashes, lists and sets.
pub open spec fn is_readonly_collection(name: Seq<u8>) -> bool {
    name == word("GEODIST") || name == word("GEOHASH") || name == word("GEOPOS") || name == word(
        "GEORADIUSBYMEMBER_RO",
    ) || name == word("GEORADIUS_RO") || name == word("GEOSEARCH") || name == word("HEXISTS")
        || name == word("HGET") || name == word("HGETALL") || name == word("HKEYS") || name
        == word("HLEN") || name == word("HMGET") || name == word("HRANDFIELD") || name == word(
        "HSCAN",
    ) || name == word("HSTRLEN") || name == word("HVALS") || name == word("LINDEX") || name
        == word("LLEN") || name == word("LPOS") || name == word("LRANGE") || name == word("SCARD")
        || name == word("SDIFF") || name == word("SINTER") || name == word("SINTERCARD") || name
        == word("SISMEMBER") || name == word("SMEMBERS") || name == word("SMISMEMBER") || name
        == word("SRANDMEMBER") || name == word("SSCAN") || name == word("SUNION")
}

/// Read-only commands on streams and sorted sets.
pub open spec fn is_readonly_sorted(name: Seq<u8>) -> bool {
    name == word("XINFO CONSUMERS") || name == word("XINFO GROUPS") || name == word(
        "XINFO STREAM",
    ) || name == word("XLEN") || name == word("XPENDING") || name == word("XRANGE") || name
        == word("XREAD") || name == word("XREVRANGE") || name == word("ZCARD") || name == word(
        "ZCOUNT",
    ) || name == word("ZDIFF") || name == word("ZINTER") || name == word("ZINTERCARD") || name
        == word("ZLEXCOUNT") || name == word("ZMSCORE") || name == word("ZRANDMEMBER") || name
        == word("ZRANGE") || name == word("ZRANGEBYLEX") || name == word("ZRANGEBYSCORE") || name
        == word("ZRANK") || name == word("ZREVRANGE") || name == word("ZREVRANGEBYLEX") || name
        == word("ZREVRANGEBYSCORE") || name == word("ZREVRANK") || name == word("ZSCAN") || name
        == word("ZSCORE") || name == word("ZUNION")
}

/// Commands that only read, and so may be served by a replica.
#[verifier::opaque]
pub open spec fn is_readonly(name: Seq<u8>) -> bool {
    is_readonly_plain(name) || is_readonly_collection(name) || is_readonly_sorted(name)
}

/// The route for a key: its slot, at a replica for a read where one may
/// serve it, at the primary for a write.
pub open spec fn key_route(readonly: bool, key: Seq<u8>) -> Route {
    Route(
        key_slot(key),
        if readonly {
            SlotAddr::ReplicaOptional
        } else {
            SlotAddr::Master
        },
    )
}

/// The routing of a command that has the single key `key`.
pub open spec fn key_routing(name: Seq<u8>, key: Seq<u8>) -> RoutingModel {
    RoutingModel::SingleNode(SingleNodeRoutingInfo::SpecificNode(key_route(is_readonly(name), key)))
}

/// Position of `route` among the routes of `groups`, if it is there.
pub open spec fn group_of(groups: Seq<(Route, Seq<usize>)>, route: Route, from: int) -> Option<int>
    decreases groups.len() - from,
{
    if from < 0 || from >= groups.len() {
        None
    } else if groups[from].0 == route {
        Some(from)
    } else {
        group_of(groups, route, from + 1)
    }
}

/// `groups` after the argument positions `positions` were filed under `route`:
/// appended to the route's group where there is one, else as a new last group.
pub open spec fn file_under(
    groups: Seq<(Route, Seq<usize>)>,
    route: Route,
    positions: Seq<usize>,
) -> Seq<(Route, Seq<usize>)> {
    match group_of(groups, route, 0) {
        Some(g) => groups.update(g, (route, groups[g].1 + positions)),
        None => groups.push((route, positions)),
    }
}

/// The argument positions that key number `k` brings with it, counted from
/// the first key: the key itself and, where values go with keys, its value.
pub open spec fn key_positions(k: nat, with_values: bool) -> Seq<usize> {
    if with_values {
        seq![(2 * k) as usize, (2 * k + 1) as usize]
    } else {
        seq![k as usize]
    }
}

/// The groups built from the first `count` keys of a multi-key command, whose
/// keys start at argument 1.
pub open spec fn shard_groups(
    args: Seq<Seq<u8>>,
    readonly: bool,
    with_values: bool,
    count: nat,
) -> Seq<(Route, Seq<usize>)>
    decreases count,
{
    if count == 0 {
        Seq::empty()
    } else {
        let k = (count - 1) as nat;
        let stride: int = if with_values {
            2
        } else {
            1
        };
        file_under(
            shard_groups(args, readonly, with_values, k),
            key_route(readonly, args[1 + k * stride]),
            key_positions(k, with_values),
        )
    }
}

/// The routing of a multi-key command. Each key is routed by its own slot;
/// keys of one route form one group, in the order in which the routes first
/// occur. A single group is routed as a single-node command. Where values
/// go with keys, a key without a value makes the command unroutable.
pub open spec fn shard_routing(args: Seq<Seq<u8>>, name: Seq<u8>, with_values: bool) -> Option<
    RoutingModel,
> {
    let given = (args.len() - 1) as nat;
    if with_values && given % 2 == 1 {
        None
    } else {
        let count = if with_values {
            given / 2
        } else {
            given
        };
        let groups = shard_groups(args, is_readonly(name), with_values, count);
        if groups.len() == 1 {
            Some(RoutingModel::SingleNode(SingleNodeRoutingInfo::SpecificNode(groups[0].0)))
        } else {
            Some(RoutingModel::MultiNode(MultiRoutingModel::MultiSlot(groups), policy_of(name)))
        }
    }
}

/// The number that an argument spells in ASCII decimal digits, if it is one
/// that fits in 64 bits.
pub open spec fn number_arg(arg: Seq<u8>) -> Option<nat> {
    if forall|i: int| 0 <= i < arg.len() ==> arg[i] < 0x80 {
        parse_bounded(Seq::new(arg.len(), |i: int| arg[i] as char), u64::MAX as nat)
    } else {
        None
    }
}

/// Where a command goes, by the command table; `None` when it cannot be
/// routed.
pub open spec fn routing_for(args: Seq<Seq<u8>>) -> Option<RoutingModel> {
    match command_name(args) {
        None => None,
        Some(name) => match shape_of(name) {
            Shape::AllMasters => Some(
                RoutingModel::MultiNode(MultiRoutingModel::AllMasters, policy_of(name)),
            ),
            Shape::AllNodes => Some(
                RoutingModel::MultiNode(MultiRoutingModel::AllNodes, policy_of(name)),
            ),
            Shape::Random => Some(RoutingModel::SingleNode(SingleNodeRoutingInfo::Random)),
            Shape::Keys => shard_routing(args, name, false),
            Shape::KeysAndValues => shard_routing(args, name, true),
            Shape::Unroutable => None,
            Shape::Script => if args.len() <= 2 {
                Some(RoutingModel::SingleNode(SingleNodeRoutingInfo::Random))
            } else {
                match number_arg(args[2]) {
                    None => None,
                    Some(keys) => if keys == 0 {
                        Some(RoutingModel::SingleNode(SingleNodeRoutingInfo::Random))
                    } else if args.len() > 3 {
                        Some(key_routing(name, args[3]))
                    } else {
                        None
                    },
                }
            },
            Shape::KeyAtTwo => if args.len() > 2 {
                Some(key_routing(name, args[2]))
            } else {
                None
            },
            Shape::Streams => match arg_position(args, word("STREAMS")) {
                None => None,
                Some(p) => if p + 1 < args.len() {
                    Some(key_routing(name, args[p + 1]))
                } else {
                    None
                },
            },
            Shape::KeyAtOne => if args.len() > 1 {
                Some(key_routing(name, args[1]))
            } else {
                Some(RoutingModel::SingleNode(SingleNodeRoutingInfo::Random))
            },
        },
    }
}

/// The single route of a command inside a pipeline: the route of a command
/// for one specific node, nothing for any other.
pub open spec fn route_for(args: Seq<Seq<u8>>) -> Option<Route> {
    match routing_for(args) {
        Some(RoutingModel::SingleNode(SingleNodeRoutingInfo::SpecificNode(route))) => Some(route),
        _ => None,
    }
}

fn goes_to_all_masters(name: &[u8]) -> (r: bool)
    ensures
        r == is_all_masters(name@),
{
    bytes_are(name, "RANDOMKEY")
        || bytes_are(name, "KEYS")
        || bytes_are(name, "SCRIPT EXISTS")
        || bytes_are(name, "WAIT")
        || bytes_are(name, "DBSIZE")
        || bytes_are(name, "FLUSHALL")
        || bytes_are(name, "FUNCTION RESTORE")
        || bytes_are(name, "FUNCTION DELETE")
        || bytes_are(name, "FUNCTION FLUSH")
        || bytes_are(name, "FUNCTION LOAD")
        || bytes_are(name, "FLUSHDB")
        || bytes_are(name, "MEMORY PURGE")
        || bytes_are(name, "FUNCTION KILL")
        || bytes_are(name, "SCRIPT KILL")
        || bytes_are(name, "SCRIPT LOAD")
        || bytes_are(name, "FUNCTION STATS")
        || bytes_are(name, "MEMORY MALLOC-STATS")
        || bytes_are(name, "MEMORY DOCTOR")
        || bytes_are(name, "MEMORY STATS")
        || bytes_are(name, "INFO")
}

fn goes_to_all_nodes(name: &[u8]) -> (r: bool)
    ensures
        r == is_all_nodes(name@),
{
    bytes_are(name, "SLOWLOG GET")
        || bytes_are(name, "SLOWLOG LEN")
        || bytes_are(name, "SLOWLOG RESET")
        || bytes_are(name, "CONFIG SET")
        || bytes_are(name, "CONFIG RESETSTAT")
        || bytes_are(name, "CONFIG REWRITE")
        || bytes_are(name, "SCRIPT FLUSH")
        || bytes_are(name, "LATENCY RESET")
        || bytes_are(name, "LATENCY GRAPH")
        || bytes_are(name, "LATENCY HISTOGRAM")
        || bytes_are(name, "LATENCY HISTORY")
        || bytes_are(name, "LATENCY DOCTOR")
        || bytes_are(name, "LATENCY LATEST")
}

fn cannot_be_routed(name: &[u8]) -> (r: bool)
    ensures
        r == is_unroutable(name@),
{
    bytes_are(name, "SCAN")
        || bytes_are(name, "SHUTDOWN")
        || bytes_are(name, "SLAVEOF")
        || bytes_are(name, "REPLICAOF")
        || bytes_are(name, "MOVE")
        || bytes_are(name, "BITOP")
}

fn has_key_at_two(name: &[u8]) -> (r: bool)
    ensures
        r == is_key_at_two(name@),
{
    bytes_are(name, "XGROUP CREATE")
        || bytes_are(name, "XGROUP CREATECONSUMER")
        || bytes_are(name, "XGROUP DELCONSUMER")
        || bytes_are(name, "XGROUP DESTROY")
        || bytes_are(name, "XGROUP SETID")
        || bytes_are(name, "XINFO CONSUMERS")
        || bytes_are(name, "XINFO GROUPS")
        || bytes_are(name, "XINFO STREAM")
}

fn reads_plain(name: &[u8]) -> (r: bool)
    ensures
        r == is_readonly_plain(name@),
{
    bytes_are(name, "BITCOUNT")
        || bytes_are(name, "BITFIELD_RO")
        || bytes_are(name, "BITPOS")
        || bytes_are(name, "DBSIZE")
        || bytes_are(name, "DUMP")
        || bytes_are(name, "EVALSHA_RO")
        || bytes_are(name, "EVAL_RO")
        || bytes_are(name, "EXISTS")
        || bytes_are(name, "EXPIRETIME")
        || bytes_are(name, "FCALL_RO")
        || bytes_are(name, "GET")
        || bytes_are(name, "GETBIT")
        || bytes_are(name, "GETRANGE")
        || bytes_are(name, "KEYS")
        || bytes_are(name, "LCS")
        || bytes_are(name, "LOLWUT")
        || bytes_are(name, "MEMORY USAGE")
        || bytes_are(name, "MGET")
        || bytes_are(name, "OBJECT ENCODING")
        || bytes_are(name, "OBJECT FREQ")
        || bytes_are(name, "OBJECT IDLETIME")
        || bytes_are(name, "OBJECT REFCOUNT")
        || bytes_are(name, "PEXPIRETIME")
        || bytes_are(name, "PFCOUNT")
        || bytes_are(name, "PTTL")
        || bytes_are(name, "RANDOMKEY")
        || bytes_are(name, "SCAN")
        || bytes_are(name, "SORT_RO")
        || bytes_are(name, "STRLEN")
        || bytes_are(name, "SUBSTR")
        || bytes_are(name, "TOUCH")
        || bytes_are(name, "TTL")
        || bytes_are(name, "TYPE")
}

fn reads_collection(name: &[u8]) -> (r: bool)
    ensures
        r == is_readonly_collection(name@),
{
    bytes_are(name, "GEODIST")
        || bytes_are(name, "GEOHASH")
        || bytes_are(name, "GEOPOS")
        || bytes_are(name, "GEORADIUSBYMEMBER_RO")
        || bytes_are(name, "GEORADIUS_RO")
        || bytes_are(name, "GEOSEARCH")
        || bytes_are(name, "HEXISTS")
        || bytes_are(name, "HGET")
        || bytes_are(name, "HGETALL")
        || bytes_are(name, "HKEYS")
        || bytes_are(name, "HLEN")
        || bytes_are(name, "HMGET")
        || bytes_are(name, "HRANDFIELD")
        || bytes_are(name, "HSCAN")
        || bytes_are(name, "HSTRLEN")
        || bytes_are(name, "HVALS")
        || bytes_are(name, "LINDEX")
        || bytes_are(name, "LLEN")
        || bytes_are(name, "LPOS")
        || bytes_are(name, "LRANGE")
        || bytes_are(name, "SCARD")
        || bytes_are(name, "SDIFF")
        || bytes_are(name, "SINTER")
        || bytes_are(name, "SINTERCARD")
        || bytes_are(name, "SISMEMBER")
        || bytes_are(name, "SMEMBERS")
        || bytes_are(name, "SMISMEMBER")
        || bytes_are(name, "SRANDMEMBER")
        || bytes_are(name, "SSCAN")
        || bytes_are(name, "SUNION")
}

fn reads_sorted(name: &[u8]) -> (r: bool)
    ensures
        r == is_readonly_sorted(name@),
{
    bytes_are(name, "XINFO CONSUMERS")
        || bytes_are(name, "XINFO GROUPS")
        || bytes_are(name, "XINFO STREAM")
        || bytes_are(name, "XLEN")
        || bytes_are(name, "XPENDING")
        || bytes_are(name, "XRANGE")
        || bytes_are(name, "XREAD")
        || bytes_are(name, "XREVRANGE")
        || bytes_are(name, "ZCARD")
        || bytes_are(name, "ZCOUNT")
        || bytes_are(name, "ZDIFF")
        || bytes_are(name, "ZINTER")
        || bytes_are(name, "ZINTERCARD")
        || bytes_are(name, "ZLEXCOUNT")
        || bytes_are(name, "ZMSCORE")
        || bytes_are(name, "ZRANDMEMBER")
        || bytes_are(name, "ZRANGE")
        || bytes_are(name, "ZRANGEBYLEX")
        || bytes_are(name, "ZRANGEBYSCORE")
        || bytes_are(name, "ZRANK")
        || bytes_are(name, "ZREVRANGE")
        || bytes_are(name, "ZREVRANGEBYLEX")
        || bytes_are(name, "ZREVRANGEBYSCORE")
        || bytes_are(name, "ZREVRANK")
        || bytes_are(name, "ZSCAN")
        || bytes_are(name, "ZSCORE")
        || bytes_are(name, "ZUNION")
}

/// True for a command that only reads.
pub fn is_readonly_cmd(name: &[u8]) -> (r: bool)
    ensures
        r == is_readonly(name@),
{
    reveal(is_readonly);
    reads_plain(name) || reads_collection(name) || reads_sorted(name)
}

/// The routing rule for a command name.
pub fn classify(name: &[u8]) -> (shape: Shape)
    ensures
        shape == shape_of(name@),
{
    reveal(shape_of);
    if goes_to_all_masters(name) {
        Shape::AllMasters
    } else if goes_to_all_nodes(name) {
        Shape::AllNodes
    } else if bytes_are(name, "PING") {
        Shape::Random
    } else if bytes_are(name, "MGET")
        || bytes_are(name, "DEL")
        || bytes_are(name, "EXISTS")
        || bytes_are(name, "UNLINK")
        || bytes_are(name, "TOUCH") {
        Shape::Keys
    } else if bytes_are(name, "MSET") {
        Shape::KeysAndValues
    } else if cannot_be_routed(name) {
        Shape::Unroutable
    } else if bytes_are(name, "EVALSHA") || bytes_are(name, "EVAL") {
        Shape::Script
    } else if has_key_at_two(name) {
        Shape::KeyAtTwo
    } else if bytes_are(name, "XREAD") || bytes_are(name, "XREADGROUP") {
        Shape::Streams
    } else {
        Shape::KeyAtOne
    }
}

impl ResponsePolicy {
    /// The policy that combines the replies to a command sent to several
    /// nodes.
    pub fn for_command(name: &[u8]) -> (policy: Option<ResponsePolicy>)
        ensures
            policy == policy_of(name@),
    {
        reveal(policy_of);
        if bytes_are(name, "SCRIPT EXISTS") {
            Some(ResponsePolicy::AggregateLogical(LogicalAggregateOp::And))
        } else if bytes_are(name, "DBSIZE")
            || bytes_are(name, "DEL")
            || bytes_are(name, "EXISTS")
            || bytes_are(name, "SLOWLOG LEN")
            || bytes_are(name, "TOUCH")
            || bytes_are(name, "UNLINK") {
            Some(ResponsePolicy::Aggregate(AggregateOp::Sum))
        } else if bytes_are(name, "WAIT") {
            Some(ResponsePolicy::Aggregate(AggregateOp::Min))
        } else if bytes_are(name, "CONFIG SET")
            || bytes_are(name, "FLUSHALL")
            || bytes_are(name, "FLUSHDB")
            || bytes_are(name, "FUNCTION DELETE")
            || bytes_are(name, "FUNCTION FLUSH")
            || bytes_are(name, "FUNCTION LOAD")
            || bytes_are(name, "FUNCTION RESTORE")
            || bytes_are(name, "LATENCY RESET")
            || bytes_are(name, "MEMORY PURGE")
            || bytes_are(name, "MSET")
            || bytes_are(name, "PING")
            || bytes_are(name, "SCRIPT FLUSH")
            || bytes_are(name, "SCRIPT LOAD")
            || bytes_are(name, "SLOWLOG RESET") {
            Some(ResponsePolicy::AllSucceeded)
        } else if bytes_are(name, "KEYS")
            || bytes_are(name, "MGET")
            || bytes_are(name, "SLOWLOG GET") {
            Some(ResponsePolicy::CombineArrays)
        } else if bytes_are(name, "FUNCTION KILL") || bytes_are(name, "SCRIPT KILL") {
            Some(ResponsePolicy::OneSucceeded)
        } else if bytes_are(name, "RANDOMKEY") {
            Some(ResponsePolicy::OneSucceededNonEmpty)
        } else if bytes_are(name, "LATENCY GRAPH")
            || bytes_are(name, "LATENCY HISTOGRAM")
            || bytes_are(name, "LATENCY HISTORY")
            || bytes_are(name, "LATENCY DOCTOR")
            || bytes_are(name, "LATENCY LATEST")
            || bytes_are(name, "FUNCTION STATS")
            || bytes_are(name, "MEMORY MALLOC-STATS")
            || bytes_are(name, "MEMORY DOCTOR")
            || bytes_are(name, "MEMORY STATS")
            || bytes_are(name, "INFO") {
            Some(ResponsePolicy::Special)
        } else {
            None
        }
    }
}

/// The route for a key.
pub fn get_route(readonly: bool, key: &[u8]) -> (route: Route)
    ensures
        route == key_route(readonly, key@),
{
    let slot = get_slot(key);
    if readonly {
        Route::new(slot, SlotAddr::ReplicaOptional)
    } else {
        Route::new(slot, SlotAddr::Master)
    }
}

fn find_group(groups: &Vec<(Route, Vec<usize>)>, route: Route) -> (r: Option<usize>)
    ensures
        match r {
            Some(g) => group_of(slots_model(groups@), route, 0) == Some(g as int) && g
                < groups.len(),
            None => group_of(slots_model(groups@), route, 0) is None,
        },
{
    let ghost model = slots_model(groups@);
    let mut g: usize = 0;
    while g < groups.len()
        invariant
            g <= groups.len(),
            model == slots_model(groups@),
            group_of(model, route, 0) == group_of(model, route, g as int),
        decreases groups.len() - g,
    {
        if groups[g].0 == route {
            return Some(g);
        }
        g += 1;
    }
    None
}

/// Files one key's argument positions under its route.
fn file_key(groups: &mut Vec<(Route, Vec<usize>)>, route: Route, positions: Vec<usize>)
    ensures
        slots_model(final(groups)@) == file_under(slots_model(old(groups)@), route, positions@),
{
    match find_group(groups, route) {
        Some(g) => {
            let mut merged: Vec<usize> = Vec::new();
            let mut i: usize = 0;
            while i < groups[g].1.len()
                invariant
                    g < groups.len(),
                    i <= groups[g as int].1.len(),
                    merged@ == groups[g as int].1@.subrange(0, i as int),
                decreases groups[g as int].1.len() - i,
            {
                merged.push(groups[g].1[i]);
                i += 1;
            }
            let mut j: usize = 0;
            while j < positions.len()
                invariant
                    j <= positions.len(),
                    g < groups.len(),
                    merged@ == groups[g as int].1@ + positions@.subrange(0, j as int),
                decreases positions.len() - j,
            {
                merged.push(positions[j]);
                j += 1;
            }
            assert(positions@.subrange(0, j as int) =~= positions@);
            groups.set(g, (route, merged));
        },
        None => {
            groups.push((route, positions));
        },
    }
}

/// Routes a multi-key command whose keys start at argument 1.
fn multi_shard(command: &Cmd, name: &[u8], with_values: bool) -> (r: Option<RoutingInfo>)
    requires
        command@.len() >= 1,
    ensures
        match r {
            Some(info) => shard_routing(command@, name@, with_values) == Some(info@),
            None => shard_routing(command@, name@, with_values) is None,
        },
{
    let given = command.len() - 1;
    if with_values && given % 2 == 1 {
        return None;
    }
    let count = if with_values {
        given / 2
    } else {
        given
    };
    let readonly = is_readonly_cmd(name);
    let mut groups: Vec<(Route, Vec<usize>)> = Vec::new();
    let mut k: usize = 0;
    while k < count
        invariant
            k <= count,
            command@.len() >= 1,
            given == command@.len() - 1,
            count == if with_values {
                given / 2
            } else {
                given
            },
            slots_model(groups@) == shard_groups(command@, readonly, with_values, k as nat),
        decreases count - k,
    {
        let at = if with_values {
            1 + 2 * k
        } else {
            1 + k
        };
        let key = match command.arg_idx(at) {
            Some(key) => key,
            None => {
                return None;
            },
        };
        let route = get_route(readonly, key);
        let mut positions: Vec<usize> = Vec::new();
        if with_values {
            positions.push(2 * k);
            positions.push(2 * k + 1);
        } else {
            positions.push(k);
        }
        assert(positions@ =~= key_positions(k as nat, with_values));
        file_key(&mut groups, route, positions);
        k += 1;
    }
    if groups.len() == 1 {
        Some(RoutingInfo::SingleNode(SingleNodeRoutingInfo::SpecificNode(groups[0].0)))
    } else {
        Some(
            RoutingInfo::MultiNode(
                (MultipleNodeRoutingInfo::MultiSlot(groups), ResponsePolicy::for_command(name)),
            ),
        )
    }
}

/// Reads an argument as a number in ASCII decimal digits.
fn read_number(arg: &[u8]) -> (r: Option<u64>)
    ensures
        match r {
            Some(n) => number_arg(arg@) == Some(n as nat),
            None => number_arg(arg@) is None,
        },
{
    let mut chars: Vec<char> = Vec::with_capacity(arg.len());
    let mut i: usize = 0;
    while i < arg.len()
        invariant
            i <= arg.len(),
            chars.len() == i,
            forall|j: int| 0 <= j < i ==> (#[trigger] arg@[j]) < 0x80,
            forall|j: int| 0 <= j < i ==> (#[trigger] chars@[j]) == arg@[j] as char,
        decreases arg.len() - i,
    {
        if arg[i] >= 0x80 {
            return None;
        }
        let c = arg[i] as char;
        chars.push(c);
        i += 1;
    }
    assert(chars@ =~= Seq::new(arg@.len(), |i: int| arg@[i] as char));
    assert(chars@.subrange(0, chars.len() as int) =~= chars@);
    parse_decimal(&chars, 0, chars.len(), u64::MAX)
}

fn for_key(name: &[u8], key: &[u8]) -> (info: RoutingInfo)
    ensures
        info@ == key_routing(name@, key@),
{
    RoutingInfo::SingleNode(
        SingleNodeRoutingInfo::SpecificNode(get_route(is_readonly_cmd(name), key)),
    )
}

impl RoutingInfo {
    /// Where a command goes, by the command table; `None` when it cannot
    /// be routed.
    pub fn for_routable(command: &Cmd) -> (r: Option<RoutingInfo>)
        ensures
            match r {
                Some(info) => routing_for(command@) == Some(info@),
                None => routing_for(command@) is None,
            },
    {
        let owned = match command.command() {
            Some(name) => name,
            None => {
                return None;
            },
        };
        let name = owned.as_slice();
        match classify(name) {
            Shape::AllMasters => Some(
                RoutingInfo::MultiNode(
                    (MultipleNodeRoutingInfo::AllMasters, ResponsePolicy::for_command(name)),
                ),
            ),
            Shape::AllNodes => Some(
                RoutingInfo::MultiNode(
                    (MultipleNodeRoutingInfo::AllNodes, ResponsePolicy::for_command(name)),
                ),
            ),
            Shape::Random => Some(RoutingInfo::SingleNode(SingleNodeRoutingInfo::Random)),
            Shape::Keys => multi_shard(command, name, false),
            Shape::KeysAndValues => multi_shard(command, name, true),
            Shape::Unroutable => None,
            Shape::Script => match command.arg_idx(2) {
                None => Some(RoutingInfo::SingleNode(SingleNodeRoutingInfo::Random)),
                Some(arg) => match read_number(arg) {
                    None => None,
                    Some(0) => Some(RoutingInfo::SingleNode(SingleNodeRoutingInfo::Random)),
                    Some(_) => match command.arg_idx(3) {
                        Some(key) => Some(for_key(name, key)),
                        None => None,
                    },
                },
            },
            Shape::KeyAtTwo => match command.arg_idx(2) {
                Some(key) => Some(for_key(name, key)),
                None => None,
            },
            Shape::Streams => match command.position("STREAMS".as_bytes()) {
                None => None,
                Some(p) => {
                    let given = command.len();
                    if p + 1 < given {
                        match command.arg_idx(p + 1) {
                            Some(key) => Some(for_key(name, key)),
                            None => None,
                        }
                    } else {
                        None
                    }
                },
            },
            Shape::KeyAtOne => match command.arg_idx(1) {
                Some(key) => Some(for_key(name, key)),
                None => Some(RoutingInfo::SingleNode(SingleNodeRoutingInfo::Random)),
            },
        }
    }
}

/// The single route of a command inside a pipeline.
pub fn route_for_command(command: &Cmd) -> (route: Option<Route>)
    ensures
        route == route_for(command@),
{
    match RoutingInfo::for_routable(command) {
        Some(RoutingInfo::SingleNode(SingleNodeRoutingInfo::SpecificNode(route))) => Some(route),
        _ => None,
    }
}

} // verus!
