//! Node addresses and client parameters.
//!
//! A node is named by the text `host:port`; an IPv6 host may be written in
//! square brackets.

use crate::error::{ErrorKind, ErrorModel, RedisError};
use crate::text::{
    chars_of, decimal, find_last, last_index, lemma_last_index, parse_bounded, parse_decimal,
    push_decimal,
};
use vstd::prelude::*;

verus! {

/// Whether certificates are verified on a TLS connection.
#[derive(Clone, Copy, Debug, PartialEq, Eq, Structural)]
pub enum TlsMode {
    /// Verify the certificate.
    Secure,
    /// Do not verify the certificate.
    Insecure,
}

/// How to reach one node.
#[derive(Debug, PartialEq, Eq)]
pub enum ConnectionAddr {
    /// Plain TCP to a host and port.
    Tcp(String, u16),
    /// TCP with TLS.
    TcpTls {
        /// Host name or address.
        host: String,
        /// Port.
        port: u16,
        /// True when the certificate is not verified.
        insecure: bool,
    },
    /// A Unix socket at a path.
    Unix(String),
}

/// Mathematical model of a [`ConnectionAddr`].
pub enum AddrModel {
    Tcp(Seq<char>, u16),
    TcpTls { host: Seq<char>, port: u16, insecure: bool },
    Unix(Seq<char>),
}

impl View for ConnectionAddr {
    type V = AddrModel;

    open spec fn view(&self) -> AddrModel {
        match self {
            ConnectionAddr::Tcp(host, port) => AddrModel::Tcp(host@, *port),
            ConnectionAddr::TcpTls { host, port, insecure } => AddrModel::TcpTls {
                host: host@,
                port: *port,
                insecure: *insecure,
            },
            ConnectionAddr::Unix(path) => AddrModel::Unix(path@),
        }
    }
}

/// The text `host:port`.
pub open spec fn host_port_text(host: Seq<char>, port: u16) -> Seq<char> {
    host + seq![':'] + decimal(port as nat)
}

/// The text by which an address is known in the cluster.
pub open spec fn addr_text(addr: AddrModel) -> Seq<char> {
    match addr {
        AddrModel::Tcp(host, port) => host_port_text(host, port),
        AddrModel::TcpTls { host, port, .. } => host_port_text(host, port),
        AddrModel::Unix(path) => path,
    }
}

/// The address for a host and port under the given TLS mode.
pub open spec fn connection_addr(host: Seq<char>, port: u16, tls: Option<TlsMode>) -> AddrModel {
    match tls {
        Some(TlsMode::Secure) => AddrModel::TcpTls { host, port, insecure: false },
        Some(TlsMode::Insecure) => AddrModel::TcpTls { host, port, insecure: true },
        None => AddrModel::Tcp(host, port),
    }
}

/// `s` without its leading run of `c`.
pub open spec fn trim_start(s: Seq<char>, c: char) -> Seq<char>
    decreases s.len(),
{
    if s.len() > 0 && s[0] == c {
        trim_start(s.drop_first(), c)
    } else {
        s
    }
}

/// `s` without its trailing run of `c`.
pub open spec fn trim_end(s: Seq<char>, c: char) -> Seq<char>
    decreases s.len(),
{
    if s.len() > 0 && s.last() == c {
        trim_end(s.drop_last(), c)
    } else {
        s
    }
}

/// Host and port of a node string: the port is what follows the last `:`,
/// the host is what precedes it, without enclosing square brackets. `None`
/// when there is no `:`, the host is empty, or the port is not a number
/// below 65536.
pub open spec fn node_host_port(node: Seq<char>) -> Option<(Seq<char>, u16)> {
    match last_index(node, ':') {
        None => None,
        Some(i) => {
            let host = trim_end(trim_start(node.subrange(0, i), '['), ']');
            match parse_bounded(node.subrange(i + 1, node.len() as int), 0xffff) {
                Some(port) => if host.len() > 0 {
                    Some((host, port as u16))
                } else {
                    None
                },
                None => None,
            }
        },
    }
}

/// Host and port of an address that has exactly one `:`. `None` otherwise,
/// or when the port is not a number below 65536.
pub open spec fn simple_host_port(addr: Seq<char>) -> Option<(Seq<char>, u16)> {
    match last_index(addr, ':') {
        None => None,
        Some(i) => if last_index(addr.subrange(0, i), ':') is Some {
            None
        } else {
            match parse_bounded(addr.subrange(i + 1, addr.len() as int), 0xffff) {
                Some(port) => Some((addr.subrange(0, i), port as u16)),
                None => None,
            }
        },
    }
}

proof fn lemma_trim_start(s: Seq<char>, c: char, k: int)
    requires
        0 <= k <= s.len(),
        forall|j: int| 0 <= j < k ==> s[j] == c,
        k < s.len() ==> s[k] != c,
    ensures
        trim_start(s, c) == s.subrange(k, s.len() as int),
    decreases k,
{
    if k > 0 {
        lemma_trim_start(s.drop_first(), c, k - 1);
    }
}

proof fn lemma_trim_end(s: Seq<char>, c: char, k: int)
    requires
        0 <= k <= s.len(),
        forall|j: int| k <= j < s.len() ==> s[j] == c,
        k > 0 ==> s[k - 1] != c,
    ensures
        trim_end(s, c) == s.subrange(0, k),
    decreases s.len() - k,
{
    if k < s.len() {
        lemma_trim_end(s.drop_last(), c, k);
    }
}

impl ConnectionAddr {
    /// The text by which this address is known in the cluster.
    pub fn to_text(&self) -> (text: String)
        ensures
            text@ == addr_text(self@),
    {
        match self {
            ConnectionAddr::Tcp(host, port) => host_port(host.as_str(), *port),
            ConnectionAddr::TcpTls { host, port, .. } => host_port(host.as_str(), *port),
            ConnectionAddr::Unix(path) => path.clone(),
        }
    }
}

/// The text `host:port`.
pub fn host_port(host: &str, port: u16) -> (text: String)
    ensures
        text@ == host_port_text(host@, port),
{
    let mut text = host.to_owned();
    proof {
        reveal_strlit(":");
    }
    text.append(":");
    push_decimal(&mut text, port as u64);
    text
}

/// The address for a host and port under the given TLS mode.
pub fn get_connection_addr(host: String, port: u16, tls: Option<TlsMode>) -> (addr: ConnectionAddr)
    ensures
        addr@ == connection_addr(host@, port, tls),
{
    match tls {
        Some(TlsMode::Secure) => ConnectionAddr::TcpTls { host, port, insecure: false },
        Some(TlsMode::Insecure) => ConnectionAddr::TcpTls { host, port, insecure: true },
        None => ConnectionAddr::Tcp(host, port),
    }
}

/// Credentials and database for one connection.
#[derive(Debug, PartialEq, Eq)]
pub struct RedisConnectionInfo {
    /// Database number; always 0 in a cluster.
    pub db: i64,
    /// User name, if any.
    pub username: Option<String>,
    /// Password, if any.
    pub password: Option<String>,
}

/// Everything needed to open a connection to one node.
#[derive(Debug, PartialEq, Eq)]
pub struct ConnectionInfo {
    /// Where the node is.
    pub addr: ConnectionAddr,
    /// How to log in.
    pub redis: RedisConnectionInfo,
}

/// Bounds on retrying one request.
#[derive(Clone, Copy, Debug, PartialEq, Eq, Structural)]
pub struct RetryParams {
    /// How often a failed request is sent again before its error is surfaced.
    pub number_of_retries: u32,
    /// Wait before the first retry, in milliseconds.
    pub base_wait: u64,
    /// Longest wait between retries, in milliseconds.
    pub max_wait: u64,
}

/// Parameters shared by all connections of one cluster client.
#[derive(Debug)]
pub struct ClusterParams {
    /// Password, if any.
    pub password: Option<String>,
    /// User name, if any.
    pub username: Option<String>,
    /// True when reads may go to replicas.
    pub read_from_replicas: bool,
    /// TLS mode; `None` for plain TCP.
    pub tls: Option<TlsMode>,
    /// Retry bounds.
    pub retry_params: RetryParams,
    /// Bound on connection establishment, in milliseconds.
    pub connection_timeout: u64,
    /// Bound on waiting for a response, in milliseconds; `None` for no bound.
    pub response_timeout: Option<u64>,
    /// Pause between periodic topology checks, in milliseconds; `None` turns them off.
    pub topology_checks_interval: Option<u64>,
}

fn copy_text(text: &Option<String>) -> (copy: Option<String>)
    ensures
        match text {
            Some(t) => copy matches Some(c) && c@ == t@,
            None => copy is None,
        },
{
    match text {
        Some(t) => Some(t.clone()),
        None => None,
    }
}

impl ClusterParams {
    /// A copy of these parameters.
    pub fn duplicate(&self) -> (copy: ClusterParams)
        ensures
            copy.read_from_replicas == self.read_from_replicas,
            copy.tls == self.tls,
            copy.retry_params == self.retry_params,
            copy.connection_timeout == self.connection_timeout,
            copy.response_timeout == self.response_timeout,
            copy.topology_checks_interval == self.topology_checks_interval,
            match self.username {
                Some(t) => copy.username matches Some(c) && c@ == t@,
                None => copy.username is None,
            },
            match self.password {
                Some(t) => copy.password matches Some(c) && c@ == t@,
                None => copy.password is None,
            },
    {
        ClusterParams {
            password: copy_text(&self.password),
            username: copy_text(&self.username),
            read_from_replicas: self.read_from_replicas,
            tls: self.tls,
            retry_params: self.retry_params,
            connection_timeout: self.connection_timeout,
            response_timeout: self.response_timeout,
            topology_checks_interval: self.topology_checks_interval,
        }
    }
}

impl Default for RetryParams {
    fn default() -> (params: RetryParams)
        ensures
            params == (RetryParams { number_of_retries: 16, base_wait: 1280, max_wait: 655360 }),
    {
        RetryParams { number_of_retries: 16, base_wait: 1280, max_wait: 655360 }
    }
}

impl Default for ClusterParams {
    fn default() -> (params: ClusterParams)
        ensures
            params.password is None,
            params.username is None,
            !params.read_from_replicas,
            params.tls is None,
            params.retry_params == (RetryParams {
                number_of_retries: 16,
                base_wait: 1280,
                max_wait: 655360,
            }),
            params.connection_timeout == 1000,
            params.response_timeout is None,
            params.topology_checks_interval is None,
    {
        ClusterParams {
            password: None,
            username: None,
            read_from_replicas: false,
            tls: None,
            retry_params: RetryParams { number_of_retries: 16, base_wait: 1280, max_wait: 655360 },
            connection_timeout: 1000,
            response_timeout: None,
            topology_checks_interval: None,
        }
    }
}

/// The fixed error for a node string that cannot be read.
pub open spec fn invalid_node_error() -> ErrorModel {
    ErrorModel {
        kind: ErrorKind::InvalidClientConfig,
        description: "Invalid node string"@,
        detail: None,
    }
}

/// Splits `chars` at its last `:` into a trimmed host range and a port.
fn split_node(chars: &Vec<char>) -> (r: Option<(usize, usize, u16)>)
    ensures
        match r {
            Some((a, b, port)) => a < b <= chars.len() && node_host_port(chars@) == Some(
                (chars@.subrange(a as int, b as int), port),
            ),
            None => node_host_port(chars@) is None,
        },
{
    let n = chars.len();
    let i = match find_last(chars, ':') {
        Some(i) => i,
        None => {
            return None;
        },
    };
    proof {
        lemma_last_index(chars@, ':');
    }
    let ghost raw = chars@.subrange(0, i as int);
    let mut a: usize = 0;
    while a < i && chars[a] == '['
        invariant
            a <= i < n == chars.len(),
            forall|j: int| 0 <= j < a ==> chars@[j] == '[',
        decreases i - a,
    {
        a += 1;
    }
    proof {
        lemma_trim_start(raw, '[', a as int);
    }
    let ghost front = raw.subrange(a as int, i as int);
    let mut b: usize = i;
    while b > a && chars[b - 1] == ']'
        invariant
            a <= b <= i < n == chars.len(),
            forall|j: int| b <= j < i ==> chars@[j] == ']',
        decreases b - a,
    {
        b -= 1;
    }
    proof {
        lemma_trim_end(front, ']', b - a);
    }
    match parse_decimal(chars, i + 1, n, 0xffff) {
        Some(port) => if a < b {
            Some((a, b, port as u16))
        } else {
            None
        },
        None => None,
    }
}

/// Reads a node string `host:port` into the information needed to connect
/// to it, taking credentials and TLS mode from the parameters.
pub fn get_connection_info(node: &str, cluster_params: ClusterParams) -> (r: Result<
    ConnectionInfo,
    RedisError,
>)
    ensures
        match r {
            Ok(info) => {
                &&& node_host_port(node@) matches Some((host, port))
                &&& info.addr@ == connection_addr(host, port, cluster_params.tls)
                &&& info.redis.db == 0
                &&& info.redis.username == cluster_params.username
                &&& info.redis.password == cluster_params.password
            },
            Err(e) => node_host_port(node@) is None && e@ == invalid_node_error(),
        },
{
    let chars = chars_of(node);
    match split_node(&chars) {
        None => Err(RedisError::new(ErrorKind::InvalidClientConfig, "Invalid node string")),
        Some((a, b, port)) => {
            let host = node.substring_char(a, b).to_owned();
            Ok(
                ConnectionInfo {
                    addr: get_connection_addr(host, port, cluster_params.tls),
                    redis: RedisConnectionInfo {
                        db: 0,
                        username: cluster_params.username,
                        password: cluster_params.password,
                    },
                },
            )
        },
    }
}

/// Splits an address of the form `host:port` that holds exactly one `:`.
pub fn get_host_and_port_from_addr(addr: &str) -> (r: Option<(String, u16)>)
    ensures
        match r {
            Some((host, port)) => simple_host_port(addr@) == Some((host@, port)),
            None => simple_host_port(addr@) is None,
        },
{
    let chars = chars_of(addr);
    let n = chars.len();
    let i = match find_last(&chars, ':') {
        Some(i) => i,
        None => {
            return None;
        },
    };
    proof {
        lemma_last_index(chars@, ':');
    }
    let mut j: usize = 0;
    while j < i
        invariant
            chars@ == addr@,
            last_index(chars@, ':') == Some(i as int),
            j <= i < n == chars.len(),
            forall|k: int| 0 <= k < j ==> chars@[k] != ':',
        decreases i - j,
    {
        if chars[j] == ':' {
            proof {
                lemma_last_index(chars@.subrange(0, i as int), ':');
                assert(chars@.subrange(0, i as int)[j as int] == ':');
            }
            return None;
        }
        j += 1;
    }
    proof {
        lemma_last_index(chars@.subrange(0, i as int), ':');
    }
    match parse_decimal(&chars, i + 1, n, 0xffff) {
        Some(port) => Some((addr.substring_char(0, i).to_owned(), port as u16)),
        None => None,
    }
}

/// A timeout may be absent or positive; zero is refused.
pub fn validate_timeout(millis: Option<u64>) -> (r: Result<(), RedisError>)
    ensures
        match r {
            Ok(_) => millis != Some(0u64),
            Err(e) => millis == Some(0u64) && e@ == (ErrorModel {
                kind: ErrorKind::InvalidClientConfig,
                description: "Duration should be None or non-zero."@,
                detail: None,
            }),
        },
{
    match millis {
        Some(0) => Err(
            RedisError::new(ErrorKind::InvalidClientConfig, "Duration should be None or non-zero."),
        ),
        _ => Ok(()),
    }
}

} // verus!
