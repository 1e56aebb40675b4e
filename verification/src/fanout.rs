//! Commands that go to several nodes: which nodes get which part of the
//! command, and how their replies become one reply.

use crate::aggregate::{
    aggregate, aggregated, combine_and_sort_array_results, combine_array_results, combined,
    combined_in_order, logical_aggregate, logically_aggregated, order_of,
};
use crate::command::{copy_bytes, Cmd};
use crate::container::{
    node_index, route_node, ConnectionAndAddress, ConnectionsContainer, ContainerModel,
};
use crate::error::{ErrorKind, ErrorModel, RedisError};
use crate::lists::reversed;
use crate::routing::{MultiRoutingModel, MultipleNodeRoutingInfo, ResponsePolicy};
use crate::slot_map::{multi_addresses, texts};
use crate::value::{lemma_bulk_model, models, Value, ValueModel};
use vstd::prelude::*;
use vstd::string::StringSliceAdditionalSpecFns;
use vstd::utf8::encode_utf8;

verus! {

/// The reply of one node, with the node's address.
pub type NodeReply = (String, Result<Value, RedisError>);

/// Mathematical model of a [`NodeReply`].
pub type ReplyModel = (Seq<char>, Result<ValueModel, ErrorModel>);

/// The model of one reply.
pub open spec fn reply_model(reply: NodeReply) -> ReplyModel {
    (
        reply.0@,
        match reply.1 {
            Ok(v) => Ok(v@),
            Err(e) => Err(e@),
        },
    )
}

/// The models of a list of replies.
pub open spec fn reply_models(replies: Seq<NodeReply>) -> Seq<ReplyModel> {
    Seq::new(replies.len(), |i: int| reply_model(replies[i]))
}

/// The error that stands for a nil reply where a value is wanted.
pub open spec fn no_value_error() -> ErrorModel {
    ErrorModel { kind: ErrorKind::ResponseError, description: "no value found"@, detail: None }
}

/// The error for a command that has no node to go to.
pub open spec fn no_targets_error() -> ErrorModel {
    ErrorModel {
        kind: ErrorKind::NoConnectionsAvailable,
        description: "No connections available"@,
        detail: None,
    }
}

/// A reply as it counts where one success is enough: where `strict` holds,
/// a nil reply counts as a failure.
pub open spec fn counted(reply: Result<ValueModel, ErrorModel>, strict: bool) -> Result<
    ValueModel,
    ErrorModel,
> {
    match reply {
        Ok(ValueModel::Nil) => if strict {
            Err(no_value_error())
        } else {
            reply
        },
        _ => reply,
    }
}

/// The first reply, from `from` on, that counts as a success.
pub open spec fn first_success(replies: Seq<ReplyModel>, from: int, strict: bool) -> Option<
    ValueModel,
>
    decreases replies.len() - from,
{
    if from < 0 || from >= replies.len() {
        None
    } else {
        match counted(replies[from].1, strict) {
            Ok(v) => Some(v),
            Err(_) => first_success(replies, from + 1, strict),
        }
    }
}

/// The last failure among the first `upto` replies.
pub open spec fn last_failure(replies: Seq<ReplyModel>, upto: int, strict: bool) -> Option<
    ErrorModel,
>
    decreases upto,
{
    if upto <= 0 {
        None
    } else {
        match counted(replies[upto - 1].1, strict) {
            Err(e) => Some(e),
            Ok(_) => last_failure(replies, upto - 1, strict),
        }
    }
}

/// The first failure, from `from` on.
pub open spec fn first_failure(replies: Seq<ReplyModel>, from: int) -> Option<ErrorModel>
    decreases replies.len() - from,
{
    if from < 0 || from >= replies.len() {
        None
    } else {
        match replies[from].1 {
            Err(e) => Some(e),
            Ok(_) => first_failure(replies, from + 1),
        }
    }
}

/// The values of replies that all succeeded.
pub open spec fn values_of(replies: Seq<ReplyModel>) -> Seq<ValueModel> {
    Seq::new(replies.len(), |i: int| replies[i].1->Ok_0)
}

/// The replies keyed by node: an array with, for each reply, the pair of
/// the node's address and the reply's value.
pub open spec fn address_map(replies: Seq<ReplyModel>) -> ValueModel {
    ValueModel::Bulk(
        Seq::new(
            replies.len(),
            |i: int|
                ValueModel::Bulk(
                    seq![ValueModel::Data(encode_utf8(replies[i].0)), replies[i].1->Ok_0],
                ),
        ),
    )
}

/// The one reply that the replies of several nodes reduce to.
///
/// Where one success is enough, the first success in the order of the
/// replies is the result, and the last failure if there is no success.
/// Under every other policy the first failure fails the whole; without a
/// failure the values are reduced as the policy says. Without a policy the
/// values are handed back keyed by node address.
pub open spec fn reduced(
    replies: Seq<ReplyModel>,
    routing: MultiRoutingModel,
    order: Seq<Seq<usize>>,
    policy: Option<ResponsePolicy>,
) -> Result<ValueModel, ErrorModel> {
    match policy {
        Some(ResponsePolicy::OneSucceeded) => one_of(replies, false),
        Some(ResponsePolicy::OneSucceededNonEmpty) => one_of(replies, true),
        _ => match first_failure(replies, 0) {
            Some(e) => Err(e),
            None => {
                let values = values_of(replies);
                match policy {
                    Some(ResponsePolicy::AllSucceeded) => if values.len() == 0 {
                        Err(no_targets_error())
                    } else {
                        Ok(values.last())
                    },
                    Some(ResponsePolicy::Aggregate(op)) => aggregated(values, op),
                    Some(ResponsePolicy::AggregateLogical(op)) => logically_aggregated(values, op),
                    Some(ResponsePolicy::CombineArrays) => if routing is MultiSlot {
                        combined_in_order(values, order)
                    } else {
                        combined(values)
                    },
                    _ => Ok(address_map(replies)),
                }
            },
        },
    }
}

/// The result where one success is enough.
pub open spec fn one_of(replies: Seq<ReplyModel>, strict: bool) -> Result<ValueModel, ErrorModel> {
    match first_success(replies, 0, strict) {
        Some(v) => Ok(v),
        None => match last_failure(replies, replies.len() as int, strict) {
            Some(e) => Err(e),
            None => Err(no_targets_error()),
        },
    }
}

/// The positions that go with the routes of a multi-slot routing; nothing
/// for any other routing.
pub open spec fn routing_order(routing: MultipleNodeRoutingInfo) -> Seq<Seq<usize>> {
    match routing {
        MultipleNodeRoutingInfo::MultiSlot(routes) => order_of(routes@),
        _ => Seq::empty(),
    }
}

/// Takes the first success, or the last failure.
fn take_one(results: Vec<NodeReply>, strict: bool) -> (r: Result<Value, RedisError>)
    ensures
        match r {
            Ok(v) => one_of(reply_models(results@), strict) == Ok::<ValueModel, ErrorModel>(v@),
            Err(e) => one_of(reply_models(results@), strict) == Err::<ValueModel, ErrorModel>(e@),
        },
{
    let ghost replies = reply_models(results@);
    let ghost given = results@;
    let mut pending = reversed(results);
    let mut last: Option<RedisError> = None;
    let ghost mut at: int = 0;
    while pending.len() > 0
        invariant
            0 <= at <= given.len(),
            at + pending.len() == given.len(),
            given == results@,
            replies == reply_models(given),
            forall|j: int|
                0 <= j < pending.len() ==> (#[trigger] pending@[j]) == given[given.len() - 1 - j],
            first_success(replies, 0, strict) == first_success(replies, at, strict),
            forall|i: int| 0 <= i < at ==> counted(#[trigger] replies[i].1, strict) is Err,
            match last {
                Some(e) => at > 0 && counted(replies[at - 1].1, strict) == Err::<
                    ValueModel,
                    ErrorModel,
                >(e@),
                None => at == 0,
            },
        decreases pending.len(),
    {
        let (_, outcome) = pending.pop().unwrap();
        match outcome {
            Ok(value) => {
                let nil = match &value {
                    Value::Nil => true,
                    _ => false,
                };
                if strict && nil {
                    last = Some(RedisError::new(ErrorKind::ResponseError, "no value found"));
                } else {
                    return Ok(value);
                }
            },
            Err(e) => {
                last = Some(e);
            },
        }
        proof {
            at = at + 1;
        }
    }
    match last {
        Some(e) => Err(e),
        None => Err(RedisError::new(ErrorKind::NoConnectionsAvailable, "No connections available")),
    }
}

/// Splits replies that all succeeded into addresses and values; gives the
/// first failure if there is one.
fn take_all(results: Vec<NodeReply>) -> (r: Result<(Vec<String>, Vec<Value>), RedisError>)
    ensures
        match r {
            Ok((addrs, values)) => {
                &&& first_failure(reply_models(results@), 0) is None
                &&& models(values@) == values_of(reply_models(results@))
                &&& addrs.len() == results.len()
                &&& forall|i: int|
                    0 <= i < addrs.len() ==> (#[trigger] addrs@[i])@ == results@[i].0@
            },
            Err(e) => first_failure(reply_models(results@), 0) == Some(e@),
        },
{
    let ghost replies = reply_models(results@);
    let ghost given = results@;
    let mut pending = reversed(results);
    let mut addrs: Vec<String> = Vec::with_capacity(pending.len());
    let mut values: Vec<Value> = Vec::with_capacity(pending.len());
    while pending.len() > 0
        invariant
            addrs.len() == values.len(),
            values.len() + pending.len() == given.len(),
            given == results@,
            replies == reply_models(given),
            forall|j: int|
                0 <= j < pending.len() ==> (#[trigger] pending@[j]) == given[given.len() - 1 - j],
            first_failure(replies, 0) == first_failure(replies, values.len() as int),
            forall|i: int| 0 <= i < values.len() ==> (#[trigger] replies[i]).1 is Ok,
            forall|i: int|
                0 <= i < values.len() ==> (#[trigger] values@[i])@ == replies[i].1->Ok_0,
            forall|i: int| 0 <= i < addrs.len() ==> (#[trigger] addrs@[i])@ == given[i].0@,
        decreases pending.len(),
    {
        let (addr, outcome) = pending.pop().unwrap();
        match outcome {
            Ok(value) => {
                values.push(value);
                addrs.push(addr);
            },
            Err(e) => {
                return Err(e);
            },
        }
    }
    Ok((addrs, values))
}

/// Builds the reply that hands the values back keyed by node address.
fn key_by_address(addrs: Vec<String>, values: Vec<Value>) -> (map: Value)
    requires
        addrs.len() == values.len(),
    ensures
        map@ == ValueModel::Bulk(
            Seq::new(
                addrs.len() as nat,
                |i: int|
                    ValueModel::Bulk(seq![ValueModel::Data(encode_utf8(addrs@[i]@)), values@[i]@]),
            ),
        ),
{
    let ghost wanted = Seq::new(
        addrs.len() as nat,
        |i: int| ValueModel::Bulk(seq![ValueModel::Data(encode_utf8(addrs@[i]@)), values@[i]@]),
    );
    let ghost given = values@;
    let mut pending = reversed(values);
    let mut pairs: Vec<Value> = Vec::with_capacity(addrs.len());
    while pending.len() > 0
        invariant
            pairs.len() + pending.len() == given.len() == addrs.len(),
            forall|j: int|
                0 <= j < pending.len() ==> (#[trigger] pending@[j]) == given[given.len() - 1 - j],
            forall|i: int| 0 <= i < pairs.len() ==> (#[trigger] pairs@[i])@ == wanted[i],
            wanted == Seq::new(
                addrs.len() as nat,
                |i: int|
                    ValueModel::Bulk(seq![ValueModel::Data(encode_utf8(addrs@[i]@)), given[i]@]),
            ),
        decreases pending.len(),
    {
        let at = pairs.len();
        let value = pending.pop().unwrap();
        let key = Value::Data(copy_bytes(addrs[at].as_str().as_bytes()));
        let mut pair: Vec<Value> = Vec::with_capacity(2);
        pair.push(key);
        pair.push(value);
        let entry = Value::Bulk(pair);
        proof {
            lemma_bulk_model(entry);
            assert(models(pair@) =~= seq![
                ValueModel::Data(encode_utf8(addrs@[at as int]@)),
                given[at as int]@,
            ]);
        }
        pairs.push(entry);
    }
    let map = Value::Bulk(pairs);
    proof {
        lemma_bulk_model(map);
        assert(models(pairs@) =~= wanted);
    }
    map
}

/// The values of several nodes as one value keyed by node: an array with,
/// for each node, the pair of its address and its value.
pub fn merge_results(values: Vec<(String, Value)>) -> (map: Value)
    ensures
        map@ == ValueModel::Bulk(
            Seq::new(
                values.len() as nat,
                |i: int|
                    ValueModel::Bulk(
                        seq![ValueModel::Data(encode_utf8(values@[i].0@)), values@[i].1@],
                    ),
            ),
        ),
{
    let ghost given = values@;
    let count = values.len();
    let mut pending = reversed(values);
    let mut addrs: Vec<String> = Vec::with_capacity(count);
    let mut items: Vec<Value> = Vec::with_capacity(count);
    while pending.len() > 0
        invariant
            addrs.len() == items.len(),
            items.len() + pending.len() == given.len(),
            forall|j: int|
                0 <= j < pending.len() ==> (#[trigger] pending@[j]) == given[given.len() - 1 - j],
            forall|i: int| 0 <= i < items.len() ==> (#[trigger] items@[i]) == given[i].1,
            forall|i: int| 0 <= i < addrs.len() ==> (#[trigger] addrs@[i]) == given[i].0,
        decreases pending.len(),
    {
        let (addr, value) = pending.pop().unwrap();
        addrs.push(addr);
        items.push(value);
    }
    let map = key_by_address(addrs, items);
    assert(map@->Bulk_0 =~= Seq::new(
        given.len(),
        |i: int|
            ValueModel::Bulk(seq![ValueModel::Data(encode_utf8(given[i].0@)), given[i].1@]),
    ));
    map
}

/// Reduces the replies of the nodes of a fan-out to one reply, by the
/// policy of the command. See [`reduced`].
pub fn aggregate_results(
    results: Vec<NodeReply>,
    routing: &MultipleNodeRoutingInfo,
    response_policy: Option<ResponsePolicy>,
) -> (r: Result<Value, RedisError>)
    ensures
        match r {
            Ok(v) => reduced(
                reply_models(results@),
                routing@,
                routing_order(*routing),
                response_policy,
            ) == Ok::<ValueModel, ErrorModel>(v@),
            Err(e) => reduced(
                reply_models(results@),
                routing@,
                routing_order(*routing),
                response_policy,
            ) == Err::<ValueModel, ErrorModel>(e@),
        },
{
    let ghost replies = reply_models(results@);
    match response_policy {
        Some(ResponsePolicy::OneSucceeded) => {
            return take_one(results, false);
        },
        Some(ResponsePolicy::OneSucceededNonEmpty) => {
            return take_one(results, true);
        },
        _ => {},
    }
    let (addrs, values) = match take_all(results) {
        Ok(split) => split,
        Err(e) => {
            return Err(e);
        },
    };
    match response_policy {
        Some(ResponsePolicy::AllSucceeded) => {
            let mut values = values;
            match values.pop() {
                Some(last) => Ok(last),
                None => Err(
                    RedisError::new(ErrorKind::NoConnectionsAvailable, "No connections available"),
                ),
            }
        },
        Some(ResponsePolicy::Aggregate(op)) => aggregate(&values, op),
        Some(ResponsePolicy::AggregateLogical(op)) => logical_aggregate(&values, op),
        Some(ResponsePolicy::CombineArrays) => match routing {
            MultipleNodeRoutingInfo::MultiSlot(routes) => combine_and_sort_array_results(
                &values,
                routes,
            ),
            _ => combine_array_results(&values),
        },
        _ => {
            let map = key_by_address(addrs, values);
            proof {
                let wanted = address_map(replies)->Bulk_0;
                assert forall|i: int| 0 <= i < wanted.len() implies map@->Bulk_0[i]
                    == wanted[i] by {
                    assert(values_of(replies)[i] == replies[i].1->Ok_0);
                }
                assert(map@->Bulk_0 =~= wanted);
            }
            Ok(map)
        },
    }
}

/// The part of a split command that goes with the argument positions
/// `positions[..upto]`: the command's name, then the arguments at these
/// positions, counted from the first argument after the name. Positions
/// past the end of the command bring nothing.
pub open spec fn sub_command(args: Seq<Seq<u8>>, positions: Seq<usize>, upto: int) -> Seq<Seq<u8>>
    decreases upto,
{
    if upto <= 0 {
        if args.len() > 0 {
            seq![args[0]]
        } else {
            Seq::empty()
        }
    } else {
        let rest = sub_command(args, positions, upto - 1);
        let at = positions[upto - 1] + 1;
        if at < args.len() {
            rest.push(args[at])
        } else {
            rest
        }
    }
}

/// The part of a split command for one group of argument positions.
pub fn command_for_multi_slot_indices(original: &Cmd, indices: &Vec<usize>) -> (part: Cmd)
    ensures
        part@ == sub_command(original@, indices@, indices.len() as int),
{
    let mut part = Cmd::new();
    let given = original.len();
    match original.arg_idx(0) {
        Some(name) => {
            part.arg(name);
        },
        None => {},
    }
    let mut i: usize = 0;
    while i < indices.len()
        invariant
            i <= indices.len(),
            given == original@.len(),
            part@ == sub_command(original@, indices@, i as int),
        decreases indices.len() - i,
    {
        let found = match indices[i].checked_add(1) {
            Some(at) => original.arg_idx(at),
            None => None,
        };
        match found {
            Some(arg) => {
                part.arg(arg);
            },
            None => {},
        }
        i += 1;
    }
    part
}

/// True under the policies for which one success is enough, so that a
/// node without a connection is passed over.
pub open spec fn skips_missing(policy: Option<ResponsePolicy>) -> bool {
    policy == Some(ResponsePolicy::OneSucceeded) || policy == Some(
        ResponsePolicy::OneSucceededNonEmpty,
    )
}

/// The error for a node of a fan-out to which there is no connection.
pub open spec fn missing_target_error() -> ErrorModel {
    ErrorModel {
        kind: ErrorKind::NoConnectionsAvailable,
        description: "No connection to a node of the request"@,
        detail: None,
    }
}

/// The nodes that a multi-node routing names, each as its index in the
/// container, or nothing where the node is not connected: every node; the
/// primaries of the slot map, each once; or the node of each route.
pub open spec fn wanted_nodes<C>(container: ContainerModel<C>, routing: MultiRoutingModel) -> Seq<
    Option<int>,
> {
    match routing {
        MultiRoutingModel::AllNodes => Seq::new(container.nodes.len(), |i: int| Some(i)),
        MultiRoutingModel::AllMasters => {
            let addrs = multi_addresses(container.slot_map, MultiRoutingModel::AllMasters);
            Seq::new(addrs.len(), |i: int| node_index(container.nodes, addrs[i], 0))
        },
        MultiRoutingModel::MultiSlot(routes) => Seq::new(
            routes.len(),
            |i: int| route_node(container, routes[i].0),
        ),
    }
}

/// The command that goes to target number `i`: the part for the route's
/// argument positions under a multi-slot routing, else the whole command.
pub open spec fn part_for(args: Seq<Seq<u8>>, routing: MultiRoutingModel, i: int) -> Seq<Seq<u8>> {
    match routing {
        MultiRoutingModel::MultiSlot(routes) => sub_command(
            args,
            routes[i].1,
            routes[i].1.len() as int,
        ),
        _ => args,
    }
}

/// The connected ones among the first `upto` wanted nodes, each with its
/// number among the wanted.
pub open spec fn connected_targets(wanted: Seq<Option<int>>, upto: int) -> Seq<(int, int)>
    decreases upto,
{
    if upto <= 0 {
        Seq::empty()
    } else {
        match wanted[upto - 1] {
            Some(node) => connected_targets(wanted, upto - 1).push((upto - 1, node)),
            None => connected_targets(wanted, upto - 1),
        }
    }
}

/// True when each of the wanted nodes is connected.
pub open spec fn all_connected(wanted: Seq<Option<int>>) -> bool {
    forall|i: int| 0 <= i < wanted.len() ==> (#[trigger] wanted[i]) is Some
}

/// The targets of a fan-out, as pairs of a number among the wanted nodes
/// and a node index. A wanted node without a connection is passed over
/// where one success is enough, and fails the request otherwise.
pub open spec fn fan_out_plan<C>(
    container: ContainerModel<C>,
    routing: MultiRoutingModel,
    policy: Option<ResponsePolicy>,
) -> Result<Seq<(int, int)>, ErrorModel> {
    let wanted = wanted_nodes(container, routing);
    if all_connected(wanted) || skips_missing(policy) {
        Ok(connected_targets(wanted, wanted.len() as int))
    } else {
        Err(missing_target_error())
    }
}

/// One target of a fan-out: the command to send and the connection to send
/// it on.
pub type FanOutTarget<'a, C> = (Cmd, ConnectionAndAddress<'a, C>);

/// True when `target` is what `planned` says: the part of the command for
/// that wanted node, on the user connection of that node.
pub open spec fn target_fits<C>(
    container: ContainerModel<C>,
    args: Seq<Seq<u8>>,
    routing: MultiRoutingModel,
    planned: (int, int),
    target: FanOutTarget<C>,
) -> bool {
    &&& 0 <= planned.1 < container.nodes.len()
    &&& target.0@ == part_for(args, routing, planned.0)
    &&& target.1.0@ == container.nodes[planned.1].0
    &&& *target.1.1 == container.nodes[planned.1].1.user_connection
}

/// Works out the targets of a command that goes to several nodes. See
/// [`fan_out_plan`].
pub fn fan_out_targets<'a, C>(
    container: &'a ConnectionsContainer<C>,
    command: &Cmd,
    routing: &MultipleNodeRoutingInfo,
    response_policy: Option<ResponsePolicy>,
) -> (r: Result<Vec<FanOutTarget<'a, C>>, RedisError>)
    ensures
        match r {
            Ok(targets) => {
                &&& fan_out_plan(container@, routing@, response_policy) matches Ok(plan)
                &&& targets.len() == plan.len()
                &&& forall|k: int|
                    0 <= k < targets.len() ==> target_fits(
                        container@,
                        command@,
                        routing@,
                        plan[k],
                        #[trigger] targets@[k],
                    )
            },
            Err(e) => fan_out_plan(container@, routing@, response_policy) == Err::<
                Seq<(int, int)>,
                ErrorModel,
            >(e@),
        },
{
    let ghost wanted = wanted_nodes(container@, routing@);
    let skip = match response_policy {
        Some(ResponsePolicy::OneSucceeded) => true,
        Some(ResponsePolicy::OneSucceededNonEmpty) => true,
        _ => false,
    };
    let n = container.len();
    let addrs = match routing {
        MultipleNodeRoutingInfo::AllMasters => container.slot_map().addresses_for_all_primaries(),
        _ => Vec::new(),
    };
    let count = match routing {
        MultipleNodeRoutingInfo::AllNodes => n,
        MultipleNodeRoutingInfo::AllMasters => addrs.len(),
        MultipleNodeRoutingInfo::MultiSlot(routes) => routes.len(),
    };
    let everyone = match routing {
        MultipleNodeRoutingInfo::AllNodes => container.all_node_connections(),
        _ => Vec::new(),
    };
    let mut everyone = reversed(everyone);
    let mut targets: Vec<FanOutTarget<'a, C>> = Vec::with_capacity(count);
    let mut missing = false;
    let mut i: usize = 0;
    while i < count
        invariant
            i <= count == wanted.len(),
            wanted == wanted_nodes(container@, routing@),
            n == container@.nodes.len(),
            routing is AllMasters ==> texts(addrs@) == multi_addresses(
                container@.slot_map,
                MultiRoutingModel::AllMasters,
            ),
            routing is AllNodes ==> everyone.len() == count - i && forall|j: int|
                0 <= j < everyone.len() ==> (#[trigger] everyone@[j]).0@ == container@.nodes[n - 1
                    - j].0 && *everyone@[j].1 == container@.nodes[n - 1 - j].1.user_connection,
            missing <==> exists|j: int| 0 <= j < i && (#[trigger] wanted[j]) is None,
            targets.len() == connected_targets(wanted, i as int).len(),
            forall|k: int|
                0 <= k < targets.len() ==> target_fits(
                    container@,
                    command@,
                    routing@,
                    connected_targets(wanted, i as int)[k],
                    #[trigger] targets@[k],
                ),
        decreases count - i,
    {
        let found: Option<FanOutTarget<'a, C>> = match routing {
            MultipleNodeRoutingInfo::AllNodes => {
                let lease = everyone.pop().unwrap();
                Some((command.duplicate(), lease))
            },
            MultipleNodeRoutingInfo::AllMasters => {
                proof {
                    crate::container::lemma_node_index(container@.nodes, addrs@[i as int]@, 0);
                }
                match container.connection_for_address(addrs[i].as_str()) {
                    Some(lease) => Some((command.duplicate(), lease)),
                    None => None,
                }
            },
            MultipleNodeRoutingInfo::MultiSlot(routes) => {
                match container.connection_for_route(&routes[i].0) {
                    Some(lease) => Some((command_for_multi_slot_indices(command, &routes[i].1), lease)),
                    None => None,
                }
            },
        };
        match found {
            Some(target) => {
                targets.push(target);
            },
            None => {
                missing = true;
            },
        }
        i += 1;
    }
    if missing && !skip {
        return Err(
            RedisError::new(
                ErrorKind::NoConnectionsAvailable,
                "No connection to a node of the request",
            ),
        );
    }
    Ok(targets)
}

} // verus!
