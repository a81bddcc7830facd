//! The failures the agent can report.

use crate::text::joined;
use vstd::prelude::*;
use vstd::string::*;

verus! {

/// What went wrong, without the detail text.
#[derive(Clone, Copy, Debug, PartialEq, Eq, Structural)]
pub enum ErrorKind {
    Config,
    Api,
    Hardware,
    Auth,
    GpuDetection,
    Training,
    Storage,
    Http,
    Json,
    Io,
    Jwt,
    Toml,
    NotRegistered,
    AlreadyRegistered,
    Other,
}

/// A failure of the agent: its kind and, for all kinds but `NotRegistered`,
/// a detail text.
///
/// `Http`, `Json`, `Io`, `Jwt` and `Toml` carry the rendered message of the
/// transport, parser or operating-system error that caused them.
#[derive(Debug)]
pub enum ClientError {
    Config(String),
    Api(String),
    Hardware(String),
    Auth(String),
    GpuDetection(String),
    Training(String),
    Storage(String),
    Http(String),
    Json(String),
    Io(String),
    Jwt(String),
    Toml(String),
    NotRegistered,
    AlreadyRegistered(String),
    Other(String),
}

/// Result of an operation of the agent.
pub type Result<T> = core::result::Result<T, ClientError>;

/// The fixed text that `to_string` puts in front of the detail.
pub open spec fn prefix_of(kind: ErrorKind) -> Seq<char> {
    match kind {
        ErrorKind::Config => "Configuration error: "@,
        ErrorKind::Api => "API error: "@,
        ErrorKind::Hardware => "Hardware detection error: "@,
        ErrorKind::Auth => "Authentication error: "@,
        ErrorKind::GpuDetection => "GPU detection error: "@,
        ErrorKind::Training => "Training error: "@,
        ErrorKind::Storage => "Storage error: "@,
        ErrorKind::Http => "HTTP request failed: "@,
        ErrorKind::Json => "JSON error: "@,
        ErrorKind::Io => "IO error: "@,
        ErrorKind::Jwt => "JWT error: "@,
        ErrorKind::Toml => "TOML error: "@,
        ErrorKind::NotRegistered => "Not registered: Please run 'glin-client register' first"@,
        ErrorKind::AlreadyRegistered => "Already registered: Provider ID: "@,
        ErrorKind::Other => Seq::empty(),
    }
}

/// The message of a failure of kind `kind` with detail `detail`.
pub open spec fn message_of(kind: ErrorKind, detail: Seq<char>) -> Seq<char> {
    prefix_of(kind) + detail
}

impl View for ClientError {
    type V = (ErrorKind, Seq<char>);

    /// The kind and the detail text; the detail of `NotRegistered` is empty.
    open spec fn view(&self) -> (ErrorKind, Seq<char>) {
        match self {
            ClientError::Config(m) => (ErrorKind::Config, m@),
            ClientError::Api(m) => (ErrorKind::Api, m@),
            ClientError::Hardware(m) => (ErrorKind::Hardware, m@),
            ClientError::Auth(m) => (ErrorKind::Auth, m@),
            ClientError::GpuDetection(m) => (ErrorKind::GpuDetection, m@),
            ClientError::Training(m) => (ErrorKind::Training, m@),
            ClientError::Storage(m) => (ErrorKind::Storage, m@),
            ClientError::Http(m) => (ErrorKind::Http, m@),
            ClientError::Json(m) => (ErrorKind::Json, m@),
            ClientError::Io(m) => (ErrorKind::Io, m@),
            ClientError::Jwt(m) => (ErrorKind::Jwt, m@),
            ClientError::Toml(m) => (ErrorKind::Toml, m@),
            ClientError::NotRegistered => (ErrorKind::NotRegistered, Seq::empty()),
            ClientError::AlreadyRegistered(m) => (ErrorKind::AlreadyRegistered, m@),
            ClientError::Other(m) => (ErrorKind::Other, m@),
        }
    }
}

impl ClientError {
    /// The kind of this failure.
    pub fn kind(&self) -> (k: ErrorKind)
        ensures
            k == self@.0,
    {
        match self {
            ClientError::Config(_) => ErrorKind::Config,
            ClientError::Api(_) => ErrorKind::Api,
            ClientError::Hardware(_) => ErrorKind::Hardware,
            ClientError::Auth(_) => ErrorKind::Auth,
            ClientError::GpuDetection(_) => ErrorKind::GpuDetection,
            ClientError::Training(_) => ErrorKind::Training,
            ClientError::Storage(_) => ErrorKind::Storage,
            ClientError::Http(_) => ErrorKind::Http,
            ClientError::Json(_) => ErrorKind::Json,
            ClientError::Io(_) => ErrorKind::Io,
            ClientError::Jwt(_) => ErrorKind::Jwt,
            ClientError::Toml(_) => ErrorKind::Toml,
            ClientError::NotRegistered => ErrorKind::NotRegistered,
            ClientError::AlreadyRegistered(_) => ErrorKind::AlreadyRegistered,
            ClientError::Other(_) => ErrorKind::Other,
        }
    }

    /// The message shown to the operator: the text of the kind, then the
    /// detail.
    pub fn to_string(&self) -> (s: String)
        ensures
            s@ == message_of(self@.0, self@.1),
    {
        let s = match self {
            ClientError::Config(m) => joined("Configuration error: ", m.as_str()),
            ClientError::Api(m) => joined("API error: ", m.as_str()),
            ClientError::Hardware(m) => joined("Hardware detection error: ", m.as_str()),
            ClientError::Auth(m) => joined("Authentication error: ", m.as_str()),
            ClientError::GpuDetection(m) => joined("GPU detection error: ", m.as_str()),
            ClientError::Training(m) => joined("Training error: ", m.as_str()),
            ClientError::Storage(m) => joined("Storage error: ", m.as_str()),
            ClientError::Http(m) => joined("HTTP request failed: ", m.as_str()),
            ClientError::Json(m) => joined("JSON error: ", m.as_str()),
            ClientError::Io(m) => joined("IO error: ", m.as_str()),
            ClientError::Jwt(m) => joined("JWT error: ", m.as_str()),
            ClientError::Toml(m) => joined("TOML error: ", m.as_str()),
            ClientError::NotRegistered => joined(
                "Not registered: Please run 'glin-client register' first",
                "",
            ),
            ClientError::AlreadyRegistered(m) => joined(
                "Already registered: Provider ID: ",
                m.as_str(),
            ),
            ClientError::Other(m) => joined("", m.as_str()),
        };
        proof {
            reveal_strlit("");
        }
        assert(s@ =~= message_of(self@.0, self@.1));
        s
    }
}

} // verus!
