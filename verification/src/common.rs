//! The uniform response envelope, the error taxonomy, and the service
//! configuration record with its defaults.

pub mod service;

use vstd::prelude::*;
use vstd::string::StringExecFns;

verus! {

/// Typed error kinds, each carrying a stable numeric code and message.
#[derive(Debug)]
pub enum BusinessError {
    /// A required identifier is missing or unparseable, or a required
    /// input is malformed. Carries the offending field name.
    ValidationError { field: String },
    /// The inbound body failed to deserialize into the expected shape.
    ArgumentError,
    /// The underlying storage call failed. The cause stays server-side
    /// and is never exposed to the client.
    InternalError { cause: String },
}

impl BusinessError {
    /// The stable numeric code of this error kind.
    pub open spec fn code_spec(&self) -> i32 {
        match self {
            BusinessError::ValidationError { .. } => 10001,
            BusinessError::ArgumentError => 10002,
            BusinessError::InternalError { .. } => 10000,
        }
    }

    /// The client-visible message of this error kind.
    pub open spec fn message_spec(&self) -> Seq<char> {
        match self {
            BusinessError::ValidationError { field } => "Validation error on field: "@ + field@,
            BusinessError::ArgumentError => "argument error"@,
            BusinessError::InternalError { .. } => "An internal error occurred. Please try again later."@,
        }
    }

    pub fn to_code(&self) -> (code: i32)
        ensures
            code == self.code_spec(),
    {
        match self {
            BusinessError::ValidationError { .. } => 10001,
            BusinessError::ArgumentError => 10002,
            BusinessError::InternalError { .. } => 10000,
        }
    }

    pub fn to_message(&self) -> (message: String)
        ensures
            message@ == self.message_spec(),
    {
        match self {
            BusinessError::ValidationError { field } => {
                let mut message = "Validation error on field: ".to_owned();
                message.append(field.as_str());
                message
            },
            BusinessError::ArgumentError => "argument error".to_owned(),
            BusinessError::InternalError { .. } => {
                "An internal error occurred. Please try again later.".to_owned()
            },
        }
    }

    /// The error envelope sent for this error: its code, its message,
    /// and no data.
    pub fn error_response(&self) -> (resp: Resp<()>)
        ensures
            resp.code == self.code_spec(),
            resp.message@ == self.message_spec(),
            resp.data is None,
    {
        let message = self.to_message();
        Resp::<()>::err(self.to_code(), message.as_str())
    }
}

/// The uniform wire format of every response: a code (0 on success), a
/// human-readable message, and the payload (present only on success).
#[derive(Debug)]
pub struct Resp<T> {
    pub code: i32,
    pub message: String,
    pub data: Option<T>,
}

/// The result type every request handler returns: a success envelope or
/// a typed error, which the HTTP layer renders as an error envelope.
pub type RespResult<T> = Result<Resp<T>, BusinessError>;

impl<T> Resp<T> {
    /// The success envelope: code 0, message "ok", and the payload.
    pub fn ok(data: T) -> (resp: Self)
        ensures
            resp.code == 0,
            resp.message@ == "ok"@,
            resp.data == Some(data),
    {
        Resp { code: 0, message: "ok".to_owned(), data: Some(data) }
    }
}

impl Resp<()> {
    /// The error envelope: a nonzero code, a message, and no payload.
    pub fn err(error: i32, message: &str) -> (resp: Self)
        ensures
            resp.code == error,
            resp.message@ == message@,
            resp.data is None,
    {
        Resp { code: error, message: message.to_owned(), data: None }
    }
}

/// Service configuration: where to listen and which store to talk to.
#[derive(Debug)]
pub struct BlogConfig {
    pub host: String,
    pub port: u16,
    pub mongodb_uri: String,
}

pub fn default_host() -> (host: String)
    ensures
        host@ == "0.0.0.0"@,
{
    "0.0.0.0".to_owned()
}

pub fn default_port() -> (port: u16)
    ensures
        port == 8000,
{
    8000
}

pub fn default_mongodb_uri() -> (uri: String)
    ensures
        uri@ == "mongodb://localhost:27017"@,
{
    "mongodb://localhost:27017".to_owned()
}

impl Default for BlogConfig {
    /// The configuration used when a field is absent from the config file.
    fn default() -> (config: Self)
        ensures
            config.host@ == "0.0.0.0"@,
            config.port == 8000,
            config.mongodb_uri@ == "mongodb://localhost:27017"@,
    {
        BlogConfig {
            host: default_host(),
            port: default_port(),
            mongodb_uri: default_mongodb_uri(),
        }
    }
}

} // verus!
