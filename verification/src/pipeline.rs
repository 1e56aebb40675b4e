//! Pipelines: the single route of a pipeline, what is sent to its node, and
//! the replies as they come back.

use crate::command::{cmd, packed, word, Cmd, Pipeline};
use crate::error::{ErrorKind, ErrorModel, RedisError};
use crate::random::random_between;
use crate::routing::{
    route_for, routing_for, Route, RoutingInfo, SingleNodeRoutingInfo, SlotAddr,
};
use crate::slot_map::{resolve, SlotMap, SlotMapModel, LAST_SLOT};
use crate::value::Value;
use vstd::prelude::*;

verus! {

/// The command that asks a node for its view of the cluster.
pub fn slot_cmd() -> (command: Cmd)
    ensures
        command@ == seq![word("CLUSTER"), word("SLOTS")],
{
    let mut command = cmd("CLUSTER");
    command.arg("SLOTS".as_bytes());
    command
}

/// The error for a pipeline whose commands belong to different slots.
pub open spec fn cross_slot_error() -> ErrorModel {
    ErrorModel {
        kind: ErrorKind::CrossSlot,
        description: "Received crossed slots in pipeline"@,
        detail: None,
    }
}

/// The error for a command that cannot be routed.
pub open spec fn unroutable_error() -> ErrorModel {
    ErrorModel {
        kind: ErrorKind::ClientError,
        description: "This command cannot be safely routed in cluster mode"@,
        detail: None,
    }
}

/// True when two commands of the pipeline are routed to different slots.
pub open spec fn crosses_slots(pipeline: Seq<Seq<Seq<u8>>>) -> bool {
    exists|i: int, j: int|
        0 <= i < j < pipeline.len() && differ(
            #[trigger] route_for(pipeline[i]),
            #[trigger] route_for(pipeline[j]),
        )
}

/// True when both routes are there and name different slots.
pub open spec fn differ(a: Option<Route>, b: Option<Route>) -> bool {
    a is Some && b is Some && a->Some_0.0 != b->Some_0.0
}

/// True when a command of the pipeline cannot be routed.
pub open spec fn has_unroutable(pipeline: Seq<Seq<Seq<u8>>>) -> bool {
    exists|i: int| 0 <= i < pipeline.len() && (#[trigger] routing_for(pipeline[i])) is None
}

/// The route chosen so far, after one more command: the first route
/// stays, but gives way to a later one as long as it only asks for a
/// replica that may also be the primary.
pub open spec fn merged(chosen: Option<Route>, next: Option<Route>) -> Option<Route> {
    match (chosen, next) {
        (None, _) => next,
        (_, None) => chosen,
        (Some(c), Some(n)) => if c.1 == SlotAddr::ReplicaOptional {
            Some(n)
        } else {
            Some(c)
        },
    }
}

/// The route chosen among the first `upto` commands.
pub open spec fn chosen_route(pipeline: Seq<Seq<Seq<u8>>>, upto: int) -> Option<Route>
    decreases upto,
{
    if upto <= 0 {
        None
    } else {
        merged(chosen_route(pipeline, upto - 1), route_for(pipeline[upto - 1]))
    }
}

/// The single route of a pipeline.
///
/// A pipeline whose commands are routed to two different slots is refused
/// with `CrossSlot`; one that holds a command that cannot be routed is
/// refused with `ClientError`. Otherwise the route is that of the first
/// command with a route of its own, at the primary if a later command of
/// the pipeline needs the primary; commands for any node or for several
/// nodes have no say. A pipeline without any route goes to any node.
pub open spec fn pipeline_route(pipeline: Seq<Seq<Seq<u8>>>) -> Result<Option<Route>, ErrorModel> {
    if crosses_slots(pipeline) {
        Err(cross_slot_error())
    } else if has_unroutable(pipeline) {
        Err(unroutable_error())
    } else {
        Ok(chosen_route(pipeline, pipeline.len() as int))
    }
}

/// Finds the single route of a pipeline. See [`pipeline_route`].
pub fn route_for_pipeline(pipeline: &Pipeline) -> (r: Result<Option<Route>, RedisError>)
    ensures
        match r {
            Ok(route) => pipeline_route(pipeline@) == Ok::<Option<Route>, ErrorModel>(route),
            Err(e) => pipeline_route(pipeline@) == Err::<Option<Route>, ErrorModel>(e@),
        },
{
    let ghost all = pipeline@;
    let mut chosen: Option<Route> = None;
    let mut unroutable = false;
    let ghost mut first: int = 0;
    let count = pipeline.len();
    let mut i: usize = 0;
    while i < count
        invariant
            i <= count == all.len(),
            all == pipeline@,
            chosen == chosen_route(all, i as int),
            unroutable <==> exists|j: int|
                0 <= j < i && (#[trigger] routing_for(all[j])) is None,
            match chosen {
                Some(c) => 0 <= first < i && route_for(all[first]) is Some && forall|j: int|
                    0 <= j < i && (#[trigger] route_for(all[j])) is Some ==> route_for(
                        all[j],
                    )->Some_0.0 == c.0,
                None => forall|j: int| 0 <= j < i ==> (#[trigger] route_for(all[j])) is None,
            },
        decreases count - i,
    {
        let command = pipeline.command_at(i);
        let routing = RoutingInfo::for_routable(command);
        let next = match routing {
            Some(RoutingInfo::SingleNode(SingleNodeRoutingInfo::SpecificNode(route))) => Some(
                route,
            ),
            Some(_) => None,
            None => {
                unroutable = true;
                None
            },
        };
        match (chosen, next) {
            (None, _) => {
                proof {
                    if next is Some {
                        first = i as int;
                    }
                }
                chosen = next;
            },
            (_, None) => {},
            (Some(current), Some(route)) => {
                if current.slot() != route.slot() {
                    assert(differ(route_for(all[first]), route_for(all[i as int])));
                    return Err(
                        RedisError::new(ErrorKind::CrossSlot, "Received crossed slots in pipeline"),
                    );
                }
                match current.slot_addr() {
                    SlotAddr::ReplicaOptional => {
                        chosen = Some(route);
                    },
                    _ => {},
                }
            },
        }
        i += 1;
    }
    if unroutable {
        return Err(
            RedisError::new(
                ErrorKind::ClientError,
                "This command cannot be safely routed in cluster mode",
            ),
        );
    }
    Ok(chosen)
}

/// Among commands that all have the route `route`, the route chosen is
/// `route`.
proof fn lemma_chosen_among_equals(pipeline: Seq<Seq<Seq<u8>>>, route: Route, upto: int)
    requires
        0 < upto <= pipeline.len(),
        forall|i: int| 0 <= i < pipeline.len() ==> #[trigger] route_for(pipeline[i]) == Some(route),
    ensures
        chosen_route(pipeline, upto) == Some(route),
    decreases upto,
{
    assert(route_for(pipeline[upto - 1]) == Some(route));
    if upto > 1 {
        lemma_chosen_among_equals(pipeline, route, upto - 1);
    } else {
        assert(chosen_route(pipeline, 0) == None::<Route>);
    }
}

/// Pipeline same slot: a pipeline whose commands all have one and the same
/// route is accepted and goes to that route. So a pipeline of writes to one
/// key goes to the primary of that key's slot.
pub proof fn lemma_same_route_is_kept(pipeline: Seq<Seq<Seq<u8>>>, route: Route)
    requires
        pipeline.len() > 0,
        forall|i: int| 0 <= i < pipeline.len() ==> #[trigger] route_for(pipeline[i]) == Some(route),
    ensures
        pipeline_route(pipeline) == Ok::<Option<Route>, ErrorModel>(Some(route)),
{
    lemma_chosen_among_equals(pipeline, route, pipeline.len() as int);
    assert(!crosses_slots(pipeline));
    assert(!has_unroutable(pipeline)) by {
        assert forall|i: int| 0 <= i < pipeline.len() implies (#[trigger] routing_for(
            pipeline[i],
        )) is Some by {
            assert(route_for(pipeline[i]) == Some(route));
        }
    }
}

/// Pipeline cross-slot: a pipeline in which two commands are routed to
/// different slots is refused with `CrossSlot`, wherever the two commands
/// stand and whatever else the pipeline holds.
pub proof fn lemma_cross_slot_is_refused(pipeline: Seq<Seq<Seq<u8>>>, i: int, j: int)
    requires
        0 <= i < pipeline.len(),
        0 <= j < pipeline.len(),
        route_for(pipeline[i]) is Some,
        route_for(pipeline[j]) is Some,
        route_for(pipeline[i])->Some_0.0 != route_for(pipeline[j])->Some_0.0,
    ensures
        pipeline_route(pipeline) == Err::<Option<Route>, ErrorModel>(cross_slot_error()),
{
}

/// What is sent to the node of a pipeline.
#[derive(Debug)]
pub struct NodeCmd {
    /// Where each command stood in the pipeline.
    pub indexes: Vec<usize>,
    /// The commands, packed for the wire, one after the other.
    pub pipe: Vec<u8>,
    /// The node's address.
    pub addr: String,
}

impl NodeCmd {
    /// No commands yet for the node at `a`.
    pub fn new(a: String) -> (node_cmd: NodeCmd)
        ensures
            node_cmd.indexes@.len() == 0,
            node_cmd.pipe@.len() == 0,
            node_cmd.addr == a,
    {
        NodeCmd { indexes: Vec::new(), pipe: Vec::new(), addr: a }
    }
}

/// The error for a slot that no node serves.
pub open spec fn missing_coverage_error() -> ErrorModel {
    ErrorModel {
        kind: ErrorKind::ClusterDown,
        description: "Missing slot coverage"@,
        detail: None,
    }
}

/// Mathematical model of a [`NodeCmd`].
pub struct NodeCmdModel {
    pub indexes: Seq<usize>,
    pub pipe: Seq<u8>,
    pub addr: Seq<char>,
}

impl View for NodeCmd {
    type V = NodeCmdModel;

    open spec fn view(&self) -> NodeCmdModel {
        NodeCmdModel { indexes: self.indexes@, pipe: self.pipe@, addr: self.addr@ }
    }
}

/// The address a pipeline with the given route is sent to: the node of the
/// route or, for a pipeline that any node can serve, the primary of
/// `random_slot`. A slot that no node serves gives an error.
pub open spec fn route_addr(map: SlotMapModel, route: Option<Route>, random_slot: u16) -> Result<
    Seq<char>,
    ErrorModel,
> {
    let route = match route {
        Some(route) => route,
        None => Route(random_slot, SlotAddr::Master),
    };
    match resolve(map, route) {
        Some(addr) => Ok(addr),
        None => Err(missing_coverage_error()),
    }
}

/// The first `upto` commands of a pipeline as they go over the wire, one
/// after the other.
pub open spec fn packed_pipeline(pipeline: Seq<Seq<Seq<u8>>>, upto: int) -> Seq<u8>
    decreases upto,
{
    if upto <= 0 {
        Seq::empty()
    } else {
        packed_pipeline(pipeline, upto - 1) + packed(pipeline[upto - 1])
    }
}

/// What is sent for a pipeline, and where. A pipeline goes to one node as a
/// whole: the node of its single route, with every command in its place. A
/// pipeline without a single route is refused as [`pipeline_route`] says,
/// so that nothing is sent for a pipeline that crosses slots.
pub open spec fn node_cmd_for(map: SlotMapModel, pipeline: Seq<Seq<Seq<u8>>>, random_slot: u16)
    -> Result<NodeCmdModel, ErrorModel> {
    match pipeline_route(pipeline) {
        Err(e) => Err(e),
        Ok(route) => match route_addr(map, route, random_slot) {
            Err(e) => Err(e),
            Ok(addr) => Ok(
                NodeCmdModel {
                    indexes: Seq::new(pipeline.len(), |i: int| i as usize),
                    pipe: packed_pipeline(pipeline, pipeline.len() as int),
                    addr,
                },
            ),
        },
    }
}

/// The model of a result that holds a [`NodeCmd`].
pub open spec fn node_cmd_outcome(r: Result<NodeCmd, RedisError>) -> Result<
    NodeCmdModel,
    ErrorModel,
> {
    match r {
        Ok(node_cmd) => Ok(node_cmd@),
        Err(e) => Err(e@),
    }
}

/// Works out what is sent for a pipeline, and where, given the slot to use
/// for a pipeline that any node can serve. See [`node_cmd_for`].
pub fn map_cmds_to_node_with(slots: &SlotMap, pipeline: &Pipeline, random_slot: u16) -> (r: Result<
    NodeCmd,
    RedisError,
>)
    ensures
        node_cmd_outcome(r) == node_cmd_for(slots@, pipeline@, random_slot),
{
    let route = match route_for_pipeline(pipeline) {
        Ok(Some(route)) => route,
        Ok(None) => Route::new(random_slot, SlotAddr::Master),
        Err(e) => {
            return Err(e);
        },
    };
    let addr = match slots.slot_addr_for_route(&route) {
        Some(addr) => addr.to_owned(),
        None => {
            return Err(RedisError::new(ErrorKind::ClusterDown, "Missing slot coverage"));
        },
    };
    let mut node_cmd = NodeCmd::new(addr);
    let count = pipeline.len();
    let mut i: usize = 0;
    while i < count
        invariant
            i <= count == pipeline@.len(),
            node_cmd.addr@ == addr@,
            node_cmd.indexes@ == Seq::new(i as nat, |k: int| k as usize),
            node_cmd.pipe@ == packed_pipeline(pipeline@, i as int),
        decreases count - i,
    {
        node_cmd.indexes.push(i);
        pipeline.command_at(i).write_packed_command(&mut node_cmd.pipe);
        i += 1;
    }
    Ok(node_cmd)
}

/// Works out what is sent for a pipeline, and where. A pipeline that any
/// node can serve goes to the primary of a slot picked at random.
pub fn map_cmds_to_node(slots: &SlotMap, pipeline: &Pipeline) -> (r: Result<NodeCmd, RedisError>)
    ensures
        exists|slot: u16|
            slot <= LAST_SLOT && node_cmd_outcome(r) == #[trigger] node_cmd_for(
                slots@,
                pipeline@,
                slot,
            ),
{
    let slot = random_between(0, LAST_SLOT as u64) as u16;
    map_cmds_to_node_with(slots, pipeline, slot)
}

/// The replies to a pipeline, as they are collected.
#[derive(Debug)]
pub struct PipelineReplies {
    /// The reply to each command, nil until it has arrived.
    pub results: Vec<Value>,
    /// The commands to send again, one by one, in order of arrival.
    pub to_retry: Vec<usize>,
    /// The first error that is no cluster error.
    pub first_err: Option<RedisError>,
}

impl PipelineReplies {
    /// Nothing received for a pipeline of `count` commands.
    pub fn new(count: usize) -> (replies: PipelineReplies)
        ensures
            replies.results.len() == count,
            forall|i: int| 0 <= i < count ==> (#[trigger] replies.results@[i])@ is Nil,
            replies.to_retry@.len() == 0,
            replies.first_err is None,
    {
        let mut results: Vec<Value> = Vec::with_capacity(count);
        let mut i: usize = 0;
        while i < count
            invariant
                i <= count,
                results.len() == i,
                forall|j: int| 0 <= j < i ==> (#[trigger] results@[j])@ is Nil,
            decreases count - i,
        {
            results.push(Value::Nil);
            i += 1;
        }
        PipelineReplies { results, to_retry: Vec::new(), first_err: None }
    }

    /// Records the reply to the command at `cmd_idx`: a value takes its
    /// place among the results; a cluster error puts the command on the
    /// list to retry; the first other error is kept.
    pub fn record(&mut self, cmd_idx: usize, reply: Result<Value, RedisError>)
        requires
            cmd_idx < old(self).results.len(),
        ensures
            match reply {
                Ok(item) => {
                    &&& final(self).results@ == old(self).results@.update(cmd_idx as int, item)
                    &&& final(self).to_retry == old(self).to_retry
                    &&& final(self).first_err == old(self).first_err
                },
                Err(err) => {
                    &&& final(self).results == old(self).results
                    &&& if crate::error::kind_is_cluster_error(err@.kind) {
                        &&& final(self).to_retry@ == old(self).to_retry@.push(cmd_idx)
                        &&& final(self).first_err == old(self).first_err
                    } else {
                        &&& final(self).to_retry == old(self).to_retry
                        &&& final(self).first_err == match old(self).first_err {
                            Some(e) => Some(e),
                            None => Some(err),
                        }
                    }
                },
            },
    {
        match reply {
            Ok(item) => {
                self.results.set(cmd_idx, item);
            },
            Err(err) => {
                if err.is_cluster_error() {
                    self.to_retry.push(cmd_idx);
                } else if self.first_err.is_none() {
                    self.first_err = Some(err);
                }
            },
        }
    }

    /// What was collected: the first error that is no cluster error, or
    /// the results with the list of commands to retry.
    pub fn finish(self) -> (r: Result<(Vec<Value>, Vec<usize>), RedisError>)
        ensures
            match r {
                Ok((results, to_retry)) => self.first_err is None && results == self.results
                    && to_retry == self.to_retry,
                Err(e) => self.first_err == Some(e),
            },
    {
        match self.first_err {
            Some(e) => Err(e),
            None => Ok((self.results, self.to_retry)),
        }
    }
}

} // verus!
