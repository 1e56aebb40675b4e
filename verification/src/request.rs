//! The life of one logical request: where it is sent, and what happens after
//! each reply until the result is delivered.
//!
//! The functions here decide; the caller carries the decisions out. After
//! each reply the caller hands the request and the reply to
//! [`PendingRequest::on_reply`], performs the returned step, and sends the
//! request again unless the step was to deliver the result.

use crate::command::{Cmd, Pipeline};
use crate::connection::RetryParams;
use crate::container::{
    node_index, route_node, ConnectionAndAddress, ConnectionsContainer, ContainerModel,
};
use crate::error::{redirect_target, kind_is_retryable, ErrorKind, ErrorModel, RedisError};
use crate::retry::clamped_wait;
use crate::routing::{
    MultipleNodeRoutingInfo, ResponsePolicy, Route, RoutingInfo, SingleNodeRoutingInfo,
};
use crate::value::Value;
use vstd::prelude::*;

verus! {

/// A hint from a node that the request belongs elsewhere.
#[derive(Debug, PartialEq, Eq)]
pub enum Redirect {
    /// The slot has moved to this address for good.
    Moved(String),
    /// Ask this address once, without changing the slot map.
    Ask(String),
}

/// Mathematical model of a [`Redirect`].
pub enum RedirectModel {
    Moved(Seq<char>),
    Ask(Seq<char>),
}

impl View for Redirect {
    type V = RedirectModel;

    open spec fn view(&self) -> RedirectModel {
        match self {
            Redirect::Moved(addr) => RedirectModel::Moved(addr@),
            Redirect::Ask(addr) => RedirectModel::Ask(addr@),
        }
    }
}

impl Redirect {
    /// A copy of this redirect.
    pub fn duplicate(&self) -> (copy: Redirect)
        ensures
            copy@ == self@,
    {
        match self {
            Redirect::Moved(addr) => Redirect::Moved(addr.clone()),
            Redirect::Ask(addr) => Redirect::Ask(addr.clone()),
        }
    }
}

/// The model of an optional redirect.
pub open spec fn redirect_model(redirect: Option<Redirect>) -> Option<RedirectModel> {
    match redirect {
        Some(r) => Some(r@),
        None => None,
    }
}

/// Where a request was sent.
#[derive(Debug, PartialEq, Eq)]
pub enum OperationTarget {
    /// To the node known by this identifier.
    Node {
        /// The node's address.
        identifier: String,
    },
    /// To several nodes at once.
    FanOut,
}

/// Mathematical model of an [`OperationTarget`].
pub enum TargetModel {
    Node(Seq<char>),
    FanOut,
}

impl View for OperationTarget {
    type V = TargetModel;

    open spec fn view(&self) -> TargetModel {
        match self {
            OperationTarget::Node { identifier } => TargetModel::Node(identifier@),
            OperationTarget::FanOut => TargetModel::FanOut,
        }
    }
}

/// What a node answers: one value for a command, several for a pipeline.
#[derive(Debug, PartialEq, Eq)]
pub enum Response {
    /// The reply to a command.
    Single(Value),
    /// The replies to the commands of a pipeline.
    Multiple(Vec<Value>),
}

/// How a command finds its node.
#[derive(Debug)]
pub enum CommandRouting<C> {
    /// By routing information.
    Route(RoutingInfo),
    /// On a connection chosen beforehand, as for the parts of a fan-out.
    Connection {
        /// The address of the connection's node.
        identifier: String,
        /// The connection.
        conn: C,
    },
}

/// What a request carries: a command or a part of a pipeline.
#[derive(Debug)]
pub enum CmdArg<C> {
    /// One command.
    Cmd {
        /// The command.
        cmd: Cmd,
        /// How it finds its node.
        routing: CommandRouting<C>,
    },
    /// `count` commands of a pipeline, from `offset` on.
    Pipeline {
        /// The pipeline.
        pipeline: Pipeline,
        /// Index of the first command whose reply is wanted.
        offset: usize,
        /// Number of replies wanted.
        count: usize,
        /// The single node the pipeline goes to.
        route: SingleNodeRoutingInfo,
    },
}

/// A request with the redirect it was last given.
#[derive(Debug)]
pub struct RequestInfo<C> {
    /// What is sent.
    pub cmd: CmdArg<C>,
    /// Where the last reply said to go instead, if it did.
    pub redirect: Option<Redirect>,
}

/// A request that waits to be sent, with the number of times it failed.
#[derive(Debug)]
pub struct PendingRequest<C> {
    /// Number of failed attempts so far.
    pub retry: u32,
    /// The request.
    pub info: RequestInfo<C>,
}

/// What to do with a request after a reply.
#[derive(Debug)]
pub enum Next<C> {
    /// Deliver this result; the request is over.
    Done(Result<Response, RedisError>),
    /// Send the request again at once.
    Retry {
        /// The request, with its count of failures raised.
        request: PendingRequest<C>,
    },
    /// Wait, then send the request again.
    Sleep {
        /// The request, with its count of failures raised.
        request: PendingRequest<C>,
        /// How long to wait, in milliseconds.
        wait: u64,
    },
    /// Reconnect to the node, then send the request again.
    Reconnect {
        /// The request, with its count of failures raised.
        request: PendingRequest<C>,
        /// The node to reconnect to.
        target: String,
    },
    /// Refresh the slot map, then send the request again.
    RefreshSlots {
        /// The request, with its count of failures raised.
        request: PendingRequest<C>,
    },
}

/// The step that follows an error reply, before it is carried out.
pub enum Verdict {
    /// Deliver the error.
    Surface,
    /// Send again at once; `Some` gives the new redirect.
    Retry(Option<Option<RedirectModel>>),
    /// Wait, then send again.
    Sleep,
    /// Reconnect to the node, then send again.
    Reconnect(Seq<char>),
    /// Refresh the slot map, then send again with this redirect.
    Refresh(Option<RedirectModel>),
}

/// The redirect that a `MOVED` error asks for.
pub open spec fn moved_redirect(err: ErrorModel) -> Option<RedirectModel> {
    match redirect_target(err) {
        Some((addr, _)) => Some(RedirectModel::Moved(addr)),
        None => None,
    }
}

/// The redirect that an `ASK` error asks for.
pub open spec fn ask_redirect(err: ErrorModel) -> Option<RedirectModel> {
    match redirect_target(err) {
        Some((addr, _)) => Some(RedirectModel::Ask(addr)),
        None => None,
    }
}

/// What follows an error reply to a request that has failed `retry` times
/// before.
///
/// The error of a fan-out is delivered: its parts are retried one by one.
/// So is any error once the retries are used up. Otherwise `ASK` is followed
/// at once, `MOVED` after a refresh of the slot map; `TRYAGAIN` and
/// `CLUSTERDOWN` are waited out; an I/O error leads to a reconnect; any
/// other error is retried if its kind allows, and delivered if not.
pub open spec fn verdict(retry: u32, params: RetryParams, target: TargetModel, err: ErrorModel)
    -> Verdict {
    match target {
        TargetModel::FanOut => Verdict::Surface,
        TargetModel::Node(identifier) => if retry >= params.number_of_retries {
            Verdict::Surface
        } else {
            match err.kind {
                ErrorKind::Ask => Verdict::Retry(Some(ask_redirect(err))),
                ErrorKind::Moved => Verdict::Refresh(moved_redirect(err)),
                ErrorKind::TryAgain => Verdict::Sleep,
                ErrorKind::ClusterDown => Verdict::Sleep,
                ErrorKind::IoError => Verdict::Reconnect(identifier),
                _ => if kind_is_retryable(err.kind) {
                    Verdict::Retry(None)
                } else {
                    Verdict::Surface
                },
            }
        },
    }
}

/// True when `next` carries out `verdict` on a request that was `before`
/// and got the error `err`.
pub open spec fn carries_out<C>(
    next: Next<C>,
    verdict: Verdict,
    before: PendingRequest<C>,
    params: RetryParams,
    err: RedisError,
) -> bool {
    match verdict {
        Verdict::Surface => next matches Next::Done(Err(e)) && e == err,
        Verdict::Retry(redirect) => {
            &&& next matches Next::Retry { request }
            &&& request.retry == before.retry + 1
            &&& request.info.cmd == before.info.cmd
            &&& redirect_model(request.info.redirect) == match redirect {
                Some(r) => r,
                None => redirect_model(before.info.redirect),
            }
        },
        Verdict::Sleep => {
            &&& next matches Next::Sleep { request, wait }
            &&& request.retry == before.retry + 1
            &&& request.info == before.info
            &&& clamped_wait(params, request.retry) / 2 <= wait <= clamped_wait(
                params,
                request.retry,
            )
        },
        Verdict::Reconnect(identifier) => {
            &&& next matches Next::Reconnect { request, target }
            &&& request.retry == before.retry + 1
            &&& request.info == before.info
            &&& target@ == identifier
        },
        Verdict::Refresh(redirect) => {
            &&& next matches Next::RefreshSlots { request }
            &&& request.retry == before.retry + 1
            &&& request.info.cmd == before.info.cmd
            &&& redirect_model(request.info.redirect) == redirect
        },
    }
}

impl<C> PendingRequest<C> {
    /// A request that has not been sent yet.
    pub fn new(cmd: CmdArg<C>) -> (request: PendingRequest<C>)
        ensures
            request.retry == 0,
            request.info.cmd == cmd,
            request.info.redirect is None,
    {
        PendingRequest { retry: 0, info: RequestInfo { cmd, redirect: None } }
    }

    /// True when the next attempt must be announced with `ASKING`.
    pub fn is_asking(&self) -> (asking: bool)
        ensures
            asking == (self.info.redirect matches Some(Redirect::Ask(_))),
    {
        match &self.info.redirect {
            Some(Redirect::Ask(_)) => true,
            _ => false,
        }
    }

    /// Decides what follows the reply `result` that came from `target`.
    ///
    /// A success is delivered. For an error see [`verdict`]. Every step but
    /// the delivery raises the count of failures by one, so that a request
    /// is sent at most `number_of_retries + 1` times.
    pub fn on_reply(
        self,
        retry_params: &RetryParams,
        target: OperationTarget,
        result: Result<Response, RedisError>,
    ) -> (next: Next<C>)
        ensures
            match result {
                Ok(response) => next matches Next::Done(Ok(r)) && r == response,
                Err(err) => carries_out(
                    next,
                    verdict(self.retry, *retry_params, target@, err@),
                    self,
                    *retry_params,
                    err,
                ),
            },
    {
        let err = match result {
            Ok(response) => {
                return Next::Done(Ok(response));
            },
            Err(err) => err,
        };
        let identifier = match target {
            OperationTarget::Node { identifier } => identifier,
            OperationTarget::FanOut => {
                return Next::Done(Err(err));
            },
        };
        if self.retry >= retry_params.number_of_retries {
            return Next::Done(Err(err));
        }
        let mut request = self;
        request.retry = request.retry + 1;
        match err.kind() {
            ErrorKind::Ask => {
                request.info.redirect = match err.redirect_node() {
                    Some((addr, _)) => Some(Redirect::Ask(addr)),
                    None => None,
                };
                Next::Retry { request }
            },
            ErrorKind::Moved => {
                request.info.redirect = match err.redirect_node() {
                    Some((addr, _)) => Some(Redirect::Moved(addr)),
                    None => None,
                };
                Next::RefreshSlots { request }
            },
            ErrorKind::TryAgain | ErrorKind::ClusterDown => {
                let wait = retry_params.wait_time_for_retry(request.retry);
                Next::Sleep { request, wait }
            },
            ErrorKind::IoError => Next::Reconnect { request, target: identifier },
            _ => {
                if err.is_retryable() {
                    Next::Retry { request }
                } else {
                    Next::Done(Err(err))
                }
            },
        }
    }
}

/// A reply as far as the retry logic looks at it.
pub enum ReplyModel {
    /// A success.
    Success,
    /// An error that came from the given target.
    Failure(TargetModel, ErrorModel),
}

/// Number of times a request is sent when the replies `replies[from..]`
/// come in this order and the request had failed `retry` times before:
/// sending stops with the first reply that is delivered.
pub open spec fn dispatches(retry: u32, params: RetryParams, replies: Seq<ReplyModel>, from: int)
    -> nat
    decreases replies.len() - from,
{
    if from < 0 || from >= replies.len() {
        0
    } else {
        match replies[from] {
            ReplyModel::Success => 1,
            ReplyModel::Failure(target, err) => match verdict(retry, params, target, err) {
                Verdict::Surface => 1,
                _ => 1 + dispatches((retry + 1) as u32, params, replies, from + 1),
            },
        }
    }
}

/// Bounded retry: whatever the replies are, a request that has failed
/// `retry` times is sent at most `number_of_retries - retry + 1` more
/// times; a new request is sent at most `number_of_retries + 1` times.
pub proof fn lemma_bounded_retry(
    retry: u32,
    params: RetryParams,
    replies: Seq<ReplyModel>,
    from: int,
)
    requires
        retry <= params.number_of_retries,
        0 <= from,
    ensures
        dispatches(retry, params, replies, from) <= params.number_of_retries - retry + 1,
    decreases replies.len() - from,
{
    if from < replies.len() {
        match replies[from] {
            ReplyModel::Success => {},
            ReplyModel::Failure(target, err) => match verdict(retry, params, target, err) {
                Verdict::Surface => {},
                _ => {
                    lemma_bounded_retry((retry + 1) as u32, params, replies, from + 1);
                },
            },
        }
    }
}

/// A redirect that changes nothing cannot loop: a `MOVED` error, whatever
/// address it names, is delivered when the retries are used up and costs
/// one retry otherwise.
pub proof fn lemma_moved_costs_a_retry(
    retry: u32,
    params: RetryParams,
    identifier: Seq<char>,
    err: ErrorModel,
)
    requires
        err.kind is Moved,
    ensures
        verdict(retry, params, TargetModel::Node(identifier), err) == if retry
            >= params.number_of_retries {
            Verdict::Surface
        } else {
            Verdict::Refresh(moved_redirect(err))
        },
        forall|replies: Seq<ReplyModel>|
            retry <= params.number_of_retries ==> #[trigger] dispatches(retry, params, replies, 0)
                <= params.number_of_retries - retry + 1,
{
    assert forall|replies: Seq<ReplyModel>| retry <= params.number_of_retries implies #[trigger] dispatches(
        retry,
        params,
        replies,
        0,
    ) <= params.number_of_retries - retry + 1 by {
        lemma_bounded_retry(retry, params, replies, 0);
    }
}

/// Where the next attempt of a request is to go.
#[derive(Debug)]
pub enum ConnectionCheck<'a, C> {
    /// To this connection.
    Found(ConnectionAndAddress<'a, C>),
    /// To this address, to which there is no connection yet.
    OnlyAddress(String),
    /// To any node.
    Nothing,
}

/// Where the next attempt of a request is to go, as a function of the
/// container, the redirect and the route.
pub enum CheckModel {
    /// To the node with this index in the container.
    Found(int),
    /// To this address, to which there is no connection yet.
    OnlyAddress(Seq<char>),
    /// To any node.
    Nothing,
}

/// The target of the next attempt: the redirect's address if there is a
/// redirect, else the node of the route, else any node.
pub open spec fn connection_check<C>(
    container: ContainerModel<C>,
    redirect: Option<RedirectModel>,
    route: SingleNodeRoutingInfo,
) -> CheckModel {
    match redirect {
        Some(RedirectModel::Moved(addr)) => match node_index(container.nodes, addr, 0) {
            Some(i) => CheckModel::Found(i),
            None => CheckModel::OnlyAddress(addr),
        },
        Some(RedirectModel::Ask(addr)) => match node_index(container.nodes, addr, 0) {
            Some(i) => CheckModel::Found(i),
            None => CheckModel::OnlyAddress(addr),
        },
        None => match route {
            SingleNodeRoutingInfo::SpecificNode(route) => match route_node(container, route) {
                Some(i) => CheckModel::Found(i),
                None => CheckModel::Nothing,
            },
            SingleNodeRoutingInfo::Random => CheckModel::Nothing,
        },
    }
}

/// Finds the target of the next attempt. The result is a function of the
/// container, the redirect and the route alone.
pub fn check_connection<'a, C>(
    container: &'a ConnectionsContainer<C>,
    redirect: Option<Redirect>,
    route: &SingleNodeRoutingInfo,
) -> (check: ConnectionCheck<'a, C>)
    ensures
        match connection_check(container@, redirect_model(redirect), *route) {
            CheckModel::Found(i) => {
                &&& check matches ConnectionCheck::Found((addr, conn))
                &&& 0 <= i < container@.nodes.len()
                &&& addr@ == container@.nodes[i].0
                &&& *conn == container@.nodes[i].1.user_connection
            },
            CheckModel::OnlyAddress(addr) => check matches ConnectionCheck::OnlyAddress(a) && a@
                == addr,
            CheckModel::Nothing => check is Nothing,
        },
{
    proof {
        let n = container@.nodes;
        match redirect_model(redirect) {
            Some(RedirectModel::Moved(addr)) => crate::container::lemma_node_index(n, addr, 0),
            Some(RedirectModel::Ask(addr)) => crate::container::lemma_node_index(n, addr, 0),
            None => {},
        }
    }
    match redirect {
        Some(Redirect::Moved(addr)) => match container.connection_for_address(addr.as_str()) {
            Some(found) => ConnectionCheck::Found(found),
            None => ConnectionCheck::OnlyAddress(addr),
        },
        Some(Redirect::Ask(addr)) => match container.connection_for_address(addr.as_str()) {
            Some(found) => ConnectionCheck::Found(found),
            None => ConnectionCheck::OnlyAddress(addr),
        },
        None => match route {
            SingleNodeRoutingInfo::SpecificNode(route) => match container.connection_for_route(
                route,
            ) {
                Some(found) => ConnectionCheck::Found(found),
                None => ConnectionCheck::Nothing,
            },
            SingleNodeRoutingInfo::Random => ConnectionCheck::Nothing,
        },
    }
}

/// Routing determinism: with the same container, redirect and route, the
/// next attempt goes to the same target.
pub proof fn lemma_routing_is_deterministic<C>(
    first: ContainerModel<C>,
    second: ContainerModel<C>,
    redirect: Option<RedirectModel>,
    route: SingleNodeRoutingInfo,
)
    requires
        first.nodes == second.nodes,
        first.slot_map == second.slot_map,
    ensures
        connection_check(first, redirect, route) == connection_check(second, redirect, route),
{
}

/// The error for the lack of any connection to send a request on.
pub open spec fn no_connections_error() -> ErrorModel {
    ErrorModel {
        kind: ErrorKind::NoConnectionsAvailable,
        description: "No connections available"@,
        detail: None,
    }
}

/// A random connection, for requests that any node can serve and for
/// requests whose own node cannot be found.
pub fn get_random_connection<C>(container: &ConnectionsContainer<C>) -> (r: Result<
    ConnectionAndAddress<C>,
    RedisError,
>)
    ensures
        match r {
            Ok(lease) => crate::container::lent_from(
                container@.nodes,
                crate::container::ConnectionType::User,
                lease,
            ),
            Err(e) => container@.nodes.len() == 0 && e@ == no_connections_error(),
        },
{
    let mut picked = container.random_connections(1, crate::container::ConnectionType::User);
    match picked.pop() {
        Some(lease) => Ok(lease),
        None => Err(
            RedisError::new(ErrorKind::NoConnectionsAvailable, "No connections available"),
        ),
    }
}

/// How a request is sent.
#[derive(Debug)]
pub enum Dispatch<'a, C> {
    /// To several nodes, with the policy that combines the replies.
    FanOut(&'a MultipleNodeRoutingInfo, Option<ResponsePolicy>),
    /// On the connection the request names.
    Direct(&'a str, &'a C),
    /// To the single node that the redirect or this routing leads to.
    Single(SingleNodeRoutingInfo),
}

/// How a command is sent: a redirect overrides its routing; without one a
/// multi-node routing fans it out, a named connection is used as it is, and
/// a single-node routing is followed.
pub fn plan_command<'a, C>(redirect: &Option<Redirect>, routing: &'a CommandRouting<C>) -> (plan:
    Dispatch<'a, C>)
    ensures
        match (redirect, routing) {
            (Some(_), _) => plan matches Dispatch::Single(info) && info is Random,
            (None, CommandRouting::Route(RoutingInfo::MultiNode((multi, policy)))) => {
                &&& plan matches Dispatch::FanOut(m, p)
                &&& *m == *multi
                &&& p == *policy
            },
            (None, CommandRouting::Connection { identifier, conn }) => {
                &&& plan matches Dispatch::Direct(i, c)
                &&& i@ == identifier@
                &&& *c == *conn
            },
            (None, CommandRouting::Route(RoutingInfo::SingleNode(info))) => plan
                matches Dispatch::Single(i) && i == *info,
        },
{
    if redirect.is_some() {
        return Dispatch::Single(SingleNodeRoutingInfo::Random);
    }
    match routing {
        CommandRouting::Route(RoutingInfo::MultiNode((multi, policy))) => Dispatch::FanOut(
            multi,
            *policy,
        ),
        CommandRouting::Connection { identifier, conn } => Dispatch::Direct(
            identifier.as_str(),
            conn,
        ),
        CommandRouting::Route(RoutingInfo::SingleNode(info)) => Dispatch::Single(*info),
    }
}

} // verus!
