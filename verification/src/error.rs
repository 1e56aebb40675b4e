//! Errors: the kinds a caller can see, how server error lines are read, and
//! which kinds the request loop may recover from.

use crate::text::{
    chars_of, find_from, first_index_from, lemma_first_index_from, parse_bounded, parse_decimal,
    scan, scan_from, spells,
};
use vstd::prelude::*;

verus! {

/// What went wrong, in the terms the retry logic distinguishes.
#[derive(Clone, Copy, Debug, PartialEq, Eq, Hash, Structural)]
pub enum ErrorKind {
    /// The server answered with an error that has no more specific kind.
    ResponseError,
    /// The credentials were refused.
    AuthenticationFailed,
    /// A reply did not have the expected shape.
    TypeError,
    /// A transaction was aborted.
    ExecAbortError,
    /// The server is still loading its dataset.
    BusyLoadingError,
    /// A script was not found.
    NoScriptError,
    /// The client was configured with invalid parameters.
    InvalidClientConfig,
    /// The slot has permanently moved to another node.
    Moved,
    /// The slot is being migrated; ask the other node once.
    Ask,
    /// The operation should be tried again.
    TryAgain,
    /// The cluster is down.
    ClusterDown,
    /// The request touches keys in more than one slot.
    CrossSlot,
    /// The primary is down.
    MasterDown,
    /// The connection failed or timed out.
    IoError,
    /// The command cannot be routed in cluster mode.
    ClientError,
    /// An error code this client does not know.
    ExtensionError,
    /// A write was sent to a read-only replica.
    ReadOnly,
    /// The node has no management connection.
    NoneManagementConn,
    /// No connection is available to send the request on.
    NoConnectionsAvailable,
}

/// An error with its kind, a fixed description, and an optional detail.
#[derive(Debug, PartialEq, Eq)]
pub struct RedisError {
    kind: ErrorKind,
    description: String,
    detail: Option<String>,
}

/// Mathematical model of a [`RedisError`].
pub struct ErrorModel {
    pub kind: ErrorKind,
    pub description: Seq<char>,
    pub detail: Option<Seq<char>>,
}

impl View for RedisError {
    type V = ErrorModel;

    closed spec fn view(&self) -> ErrorModel {
        ErrorModel {
            kind: self.kind,
            description: self.description@,
            detail: match self.detail {
                Some(d) => Some(d@),
                None => None,
            },
        }
    }
}

/// An error as one line of text.
pub open spec fn error_text(err: ErrorModel) -> Seq<char> {
    match err.detail {
        Some(d) => err.description + ": "@ + d,
        None => err.description,
    }
}

/// Kinds that may succeed if the same request is sent again.
pub open spec fn kind_is_retryable(kind: ErrorKind) -> bool {
    kind is BusyLoadingError || kind is Moved || kind is Ask || kind is TryAgain
        || kind is MasterDown || kind is IoError || kind is ReadOnly || kind is ClusterDown
}

/// Kinds by which the cluster steers the client.
pub open spec fn kind_is_cluster_error(kind: ErrorKind) -> bool {
    kind is Moved || kind is Ask || kind is TryAgain || kind is ClusterDown
}

/// The kind that a server error code stands for, if the client knows the code.
pub open spec fn kind_of_code(code: Seq<char>) -> Option<ErrorKind> {
    if code == "ERR"@ {
        Some(ErrorKind::ResponseError)
    } else if code == "EXECABORT"@ {
        Some(ErrorKind::ExecAbortError)
    } else if code == "LOADING"@ {
        Some(ErrorKind::BusyLoadingError)
    } else if code == "NOSCRIPT"@ {
        Some(ErrorKind::NoScriptError)
    } else if code == "MOVED"@ {
        Some(ErrorKind::Moved)
    } else if code == "ASK"@ {
        Some(ErrorKind::Ask)
    } else if code == "TRYAGAIN"@ {
        Some(ErrorKind::TryAgain)
    } else if code == "CLUSTERDOWN"@ {
        Some(ErrorKind::ClusterDown)
    } else if code == "CROSSSLOT"@ {
        Some(ErrorKind::CrossSlot)
    } else if code == "MASTERDOWN"@ {
        Some(ErrorKind::MasterDown)
    } else if code == "READONLY"@ {
        Some(ErrorKind::ReadOnly)
    } else {
        None
    }
}

/// The error that a server error line denotes. The code is the text before
/// the first space; what follows the space, if anything, is the detail.
pub open spec fn server_error(line: Seq<char>) -> ErrorModel {
    let split = first_index_from(line, ' ', 0);
    let code = match split {
        Some(i) => line.subrange(0, i),
        None => line,
    };
    let rest = match split {
        Some(i) => Some(line.subrange(i + 1, line.len() as int)),
        None => None,
    };
    match kind_of_code(code) {
        Some(kind) => ErrorModel {
            kind,
            description: "An error was signalled by the server"@,
            detail: rest,
        },
        None => ErrorModel {
            kind: ErrorKind::ExtensionError,
            description: code,
            detail: Some(
                match rest {
                    Some(d) => d,
                    None => "Unknown extension error encountered"@,
                },
            ),
        },
    }
}

/// Where a redirection points: the first two words of the detail are the
/// slot number and the node address.
pub open spec fn redirect_target(err: ErrorModel) -> Option<(Seq<char>, u16)> {
    if !(err.kind is Moved || err.kind is Ask) {
        None
    } else {
        match err.detail {
            None => None,
            Some(d) => {
                let a = scan(d, 0, false);
                let b = scan(d, a, true);
                let c = scan(d, b, false);
                let e = scan(d, c, true);
                if a >= d.len() {
                    None
                } else {
                    match parse_bounded(d.subrange(a, b), 0xffff) {
                        None => None,
                        Some(slot) => if c >= d.len() {
                            None
                        } else {
                            Some((d.subrange(c, e), slot as u16))
                        },
                    }
                }
            },
        }
    }
}

fn code_kind(chars: &Vec<char>, to: usize) -> (kind: Option<ErrorKind>)
    requires
        to <= chars.len(),
    ensures
        kind == kind_of_code(chars@.subrange(0, to as int)),
{
    if spells(chars, 0, to, "ERR") {
        Some(ErrorKind::ResponseError)
    } else if spells(chars, 0, to, "EXECABORT") {
        Some(ErrorKind::ExecAbortError)
    } else if spells(chars, 0, to, "LOADING") {
        Some(ErrorKind::BusyLoadingError)
    } else if spells(chars, 0, to, "NOSCRIPT") {
        Some(ErrorKind::NoScriptError)
    } else if spells(chars, 0, to, "MOVED") {
        Some(ErrorKind::Moved)
    } else if spells(chars, 0, to, "ASK") {
        Some(ErrorKind::Ask)
    } else if spells(chars, 0, to, "TRYAGAIN") {
        Some(ErrorKind::TryAgain)
    } else if spells(chars, 0, to, "CLUSTERDOWN") {
        Some(ErrorKind::ClusterDown)
    } else if spells(chars, 0, to, "CROSSSLOT") {
        Some(ErrorKind::CrossSlot)
    } else if spells(chars, 0, to, "MASTERDOWN") {
        Some(ErrorKind::MasterDown)
    } else if spells(chars, 0, to, "READONLY") {
        Some(ErrorKind::ReadOnly)
    } else {
        None
    }
}

impl ErrorKind {
    /// See [`kind_is_retryable`].
    pub fn is_retryable(self) -> (r: bool)
        ensures
            r == kind_is_retryable(self),
    {
        match self {
            ErrorKind::BusyLoadingError
            | ErrorKind::Moved
            | ErrorKind::Ask
            | ErrorKind::TryAgain
            | ErrorKind::MasterDown
            | ErrorKind::IoError
            | ErrorKind::ReadOnly
            | ErrorKind::ClusterDown => true,
            _ => false,
        }
    }

    /// See [`kind_is_cluster_error`].
    pub fn is_cluster_error(self) -> (r: bool)
        ensures
            r == kind_is_cluster_error(self),
    {
        match self {
            ErrorKind::Moved | ErrorKind::Ask | ErrorKind::TryAgain | ErrorKind::ClusterDown => true,
            _ => false,
        }
    }
}

impl RedisError {
    /// An error of the given kind, with a description and no detail.
    pub fn new(kind: ErrorKind, description: &str) -> (err: RedisError)
        ensures
            err@ == (ErrorModel { kind, description: description@, detail: None }),
    {
        RedisError { kind, description: description.to_owned(), detail: None }
    }

    /// An error of the given kind, with a description and a detail.
    pub fn with_detail(kind: ErrorKind, description: &str, detail: String) -> (err: RedisError)
        ensures
            err@ == (ErrorModel { kind, description: description@, detail: Some(detail@) }),
    {
        RedisError { kind, description: description.to_owned(), detail: Some(detail) }
    }

    /// Reads an error line as a server sends it, without the leading `-`.
    pub fn from_server_line(line: &str) -> (err: RedisError)
        ensures
            err@ == server_error(line@),
    {
        let chars = chars_of(line);
        let n = chars.len();
        let split = find_from(&chars, ' ', 0);
        let code_end = match split {
            Some(i) => i,
            None => n,
        };
        proof {
            lemma_first_index_from(chars@, ' ', 0);
            assert(chars@.subrange(0, n as int) =~= chars@);
        }
        let rest: Option<String> = match split {
            Some(i) => Some(line.substring_char(i + 1, n).to_owned()),
            None => None,
        };
        match code_kind(&chars, code_end) {
            Some(kind) => RedisError {
                kind,
                description: "An error was signalled by the server".to_owned(),
                detail: rest,
            },
            None => {
                let detail = match rest {
                    Some(d) => d,
                    None => "Unknown extension error encountered".to_owned(),
                };
                RedisError {
                    kind: ErrorKind::ExtensionError,
                    description: line.substring_char(0, code_end).to_owned(),
                    detail: Some(detail),
                }
            },
        }
    }

    /// The kind of this error.
    pub fn kind(&self) -> (kind: ErrorKind)
        ensures
            kind == self@.kind,
    {
        self.kind
    }

    /// The fixed description.
    pub fn description(&self) -> (text: &str)
        ensures
            text@ == self@.description,
    {
        self.description.as_str()
    }

    /// The detail, where there is one.
    pub fn detail(&self) -> (text: Option<&str>)
        ensures
            match text {
                Some(t) => self@.detail == Some(t@),
                None => self@.detail is None,
            },
    {
        match &self.detail {
            Some(d) => Some(d.as_str()),
            None => None,
        }
    }

    /// The error as one line of text: the description, followed by a colon
    /// and the detail where there is one.
    pub fn to_text(&self) -> (text: String)
        ensures
            text@ == error_text(self@),
    {
        let mut text = self.description.clone();
        match &self.detail {
            Some(d) => {
                text.append(": ");
                text.append(d.as_str());
            },
            None => {},
        }
        text
    }

    /// A copy of this error.
    pub fn duplicate(&self) -> (copy: RedisError)
        ensures
            copy@ == self@,
    {
        RedisError {
            kind: self.kind,
            description: self.description.clone(),
            detail: match &self.detail {
                Some(d) => Some(d.clone()),
                None => None,
            },
        }
    }

    /// True when sending the same request again may succeed.
    pub fn is_retryable(&self) -> (r: bool)
        ensures
            r == kind_is_retryable(self@.kind),
    {
        self.kind.is_retryable()
    }

    /// True for the four kinds by which the cluster steers the client.
    pub fn is_cluster_error(&self) -> (r: bool)
        ensures
            r == kind_is_cluster_error(self@.kind),
    {
        self.kind.is_cluster_error()
    }

    /// True when the error means that the connection is gone.
    pub fn is_connection_dropped(&self) -> (r: bool)
        ensures
            r == (self@.kind is IoError),
    {
        match self.kind {
            ErrorKind::IoError => true,
            _ => false,
        }
    }

    /// For a `MOVED` or `ASK` error, the address to go to and the slot.
    pub fn redirect_node(&self) -> (target: Option<(String, u16)>)
        ensures
            match target {
                Some((addr, slot)) => redirect_target(self@) == Some((addr@, slot)),
                None => redirect_target(self@) is None,
            },
    {
        match self.kind {
            ErrorKind::Moved | ErrorKind::Ask => {},
            _ => {
                return None;
            },
        }
        let text = match &self.detail {
            Some(d) => d.as_str(),
            None => {
                return None;
            },
        };
        let chars = chars_of(text);
        let n = chars.len();
        let a = scan_from(&chars, 0, false);
        let b = scan_from(&chars, a, true);
        let c = scan_from(&chars, b, false);
        let e = scan_from(&chars, c, true);
        if a >= n {
            return None;
        }
        match parse_decimal(&chars, a, b, 0xffff) {
            None => None,
            Some(slot) => {
                if c >= n {
                    None
                } else {
                    Some((text.substring_char(c, e).to_owned(), slot as u16))
                }
            },
        }
    }
}

} // verus!
