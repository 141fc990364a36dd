use vstd::prelude::*;
use reqwest::Error as ReqwestError;
use serde_json::Error as JsonError;
use serde_qs::Error as QsError;
use tokio_tungstenite::tungstenite::Error as TungsteniteError;

verus! {

// The error types of the crates the library works with, and the JSON values
// a venue error may carry: held and handed on as they are, never looked into.
#[verifier::external_type_specification]
#[verifier::external_body]
pub struct ExReqwestError(ReqwestError);

#[verifier::external_type_specification]
#[verifier::external_body]
pub struct ExInvalidHeaderValue(reqwest::header::InvalidHeaderValue);

#[verifier::external_type_specification]
#[verifier::external_body]
pub struct ExIoError(std::io::Error);

#[verifier::external_type_specification]
#[verifier::external_body]
pub struct ExParseFloatError(std::num::ParseFloatError);

#[verifier::external_type_specification]
#[verifier::external_body]
pub struct ExUrlParseError(url::ParseError);

#[verifier::external_type_specification]
#[verifier::external_body]
pub struct ExJsonError(JsonError);

#[verifier::external_type_specification]
#[verifier::external_body]
pub struct ExQsError(QsError);

#[verifier::external_type_specification]
#[verifier::external_body]
pub struct ExTungsteniteError(TungsteniteError);

#[verifier::external_type_specification]
#[verifier::external_body]
pub struct ExSystemTimeError(std::time::SystemTimeError);

#[verifier::external_type_specification]
#[verifier::external_body]
pub struct ExUtf8Error(std::str::Utf8Error);

#[verifier::external_type_specification]
#[verifier::external_body]
pub struct ExJsonValue(serde_json::Value);

#[verifier::external_type_specification]
#[verifier::external_body]
#[verifier::reject_recursive_types(K)]
#[verifier::reject_recursive_types(V)]
pub struct ExJsonMap<K, V>(serde_json::Map<K, V>);

/// An error reported by the venue itself: its numeric code, its message and
/// every further field it attached, kept as they came.
#[derive(Debug)]
pub struct HuobiContentError {
    pub code: i16,
    pub msg: String,
    pub extra: serde_json::Map<String, serde_json::Value>,
}

impl HuobiContentError {
    pub fn new(code: i16, msg: String, extra: serde_json::Map<String, serde_json::Value>) -> (r: Self)
        ensures
            r.code == code,
            r.msg@ == msg@,
            r.extra == extra,
    {
        HuobiContentError { code, msg, extra }
    }

}

/// The origin of a failure, one for each variant of [`Error`].
#[derive(Debug, Clone, Copy, PartialEq, Eq, Structural)]
pub enum ErrorKind {
    /// Network, handshake, header, I/O or socket-protocol failure.
    Transport,
    /// Malformed numbers, URLs, JSON, query strings or UTF-8, or a clock failure.
    Encoding,
    /// A decoded event could not be handed to its consumer.
    Delivery,
    /// A structured error returned by the venue.
    Venue,
    /// A request the venue or the library refused as invalid.
    Validation,
    /// A failure not otherwise classified.
    Other,
}

/// Every failure the library reports.
///
/// The first variants wrap the technical errors of the crates the library
/// works with; errors the venue reports are kept structured in
/// `HuobiError`; the remaining variants are the failures the library or the
/// venue names itself. `Msg` is for what nothing else describes.
#[derive(Debug)]
pub enum Error {
    ReqError(ReqwestError),
    InvalidHeaderError(reqwest::header::InvalidHeaderValue),
    IoError(std::io::Error),
    ParseFloatError(std::num::ParseFloatError),
    UrlParserError(url::ParseError),
    Json(JsonError),
    Qs(QsError),
    Tungstenite(TungsteniteError),
    /// An event could not be handed to the consumer; holds a description of it.
    SendError(String),
    TimestampError(std::time::SystemTimeError),
    UTF8Err(std::str::Utf8Error),
    HuobiError { response: HuobiContentError },
    InvalidListenKey(String),
    UnknownSymbol(String),
    InvalidOrderError { msg: String },
    InvalidPrice,
    InvalidPeriod(String),
    InternalServerError,
    ServiceUnavailable,
    Unauthorized,
    /// An operation needed a live connection and there was none.
    NotConnected,
    /// The handshake failed; holds the cause.
    Handshake(String),
    /// The peer closed the stream; holds the close reason.
    Closed(String),
    /// The socket delivered a malformed frame or none at all; holds the cause.
    Protocol(String),
    /// The socket yielded no further frame.
    StreamEnded,
    /// A text frame was neither an event nor an acknowledgement; holds its bytes.
    ParseFailed(Vec<u8>),
    Msg(String),
}

impl Error {
    pub open spec fn spec_kind(&self) -> ErrorKind {
        match self {
            Error::ReqError(_) | Error::InvalidHeaderError(_) | Error::IoError(_)
            | Error::Tungstenite(_) | Error::NotConnected | Error::Handshake(_)
            | Error::Closed(_) | Error::Protocol(_) | Error::StreamEnded => ErrorKind::Transport,
            Error::ParseFloatError(_) | Error::UrlParserError(_) | Error::Json(_)
            | Error::Qs(_) | Error::TimestampError(_) | Error::UTF8Err(_)
            | Error::ParseFailed(_) => ErrorKind::Encoding,
            Error::SendError(_) => ErrorKind::Delivery,
            Error::HuobiError { .. } => ErrorKind::Venue,
            Error::InvalidListenKey(_) | Error::UnknownSymbol(_) | Error::InvalidOrderError { .. }
            | Error::InvalidPrice | Error::InvalidPeriod(_) | Error::InternalServerError
            | Error::ServiceUnavailable | Error::Unauthorized => ErrorKind::Validation,
            Error::Msg(_) => ErrorKind::Other,
        }
    }

    /// The origin of this failure.
    #[verifier::when_used_as_spec(spec_kind)]
    pub fn kind(&self) -> (r: ErrorKind)
        ensures
            r == self.spec_kind(),
    {
        match self {
            Error::ReqError(_) | Error::InvalidHeaderError(_) | Error::IoError(_)
            | Error::Tungstenite(_) | Error::NotConnected | Error::Handshake(_)
            | Error::Closed(_) | Error::Protocol(_) | Error::StreamEnded => ErrorKind::Transport,
            Error::ParseFloatError(_) | Error::UrlParserError(_) | Error::Json(_)
            | Error::Qs(_) | Error::TimestampError(_) | Error::UTF8Err(_)
            | Error::ParseFailed(_) => ErrorKind::Encoding,
            Error::SendError(_) => ErrorKind::Delivery,
            Error::HuobiError { .. } => ErrorKind::Venue,
            Error::InvalidListenKey(_) | Error::UnknownSymbol(_) | Error::InvalidOrderError { .. }
            | Error::InvalidPrice | Error::InvalidPeriod(_) | Error::InternalServerError
            | Error::ServiceUnavailable | Error::Unauthorized => ErrorKind::Validation,
            Error::Msg(_) => ErrorKind::Other,
        }
    }
}

impl From<ReqwestError> for Error {
    fn from(e: ReqwestError) -> (r: Error)
        ensures
            r == Error::ReqError(e),
    {
        Error::ReqError(e)
    }
}

impl vstd::std_specs::convert::FromSpecImpl<ReqwestError> for Error {
    open spec fn obeys_from_spec() -> bool {
        true
    }

    open spec fn from_spec(e: ReqwestError) -> Error {
        Error::ReqError(e)
    }
}

impl From<reqwest::header::InvalidHeaderValue> for Error {
    fn from(e: reqwest::header::InvalidHeaderValue) -> (r: Error)
        ensures
            r == Error::InvalidHeaderError(e),
    {
        Error::InvalidHeaderError(e)
    }
}

impl vstd::std_specs::convert::FromSpecImpl<reqwest::header::InvalidHeaderValue> for Error {
    open spec fn obeys_from_spec() -> bool {
        true
    }

    open spec fn from_spec(e: reqwest::header::InvalidHeaderValue) -> Error {
        Error::InvalidHeaderError(e)
    }
}

impl From<std::io::Error> for Error {
    fn from(e: std::io::Error) -> (r: Error)
        ensures
            r == Error::IoError(e),
    {
        Error::IoError(e)
    }
}

impl vstd::std_specs::convert::FromSpecImpl<std::io::Error> for Error {
    open spec fn obeys_from_spec() -> bool {
        true
    }

    open spec fn from_spec(e: std::io::Error) -> Error {
        Error::IoError(e)
    }
}

impl From<std::num::ParseFloatError> for Error {
    fn from(e: std::num::ParseFloatError) -> (r: Error)
        ensures
            r == Error::ParseFloatError(e),
    {
        Error::ParseFloatError(e)
    }
}

impl vstd::std_specs::convert::FromSpecImpl<std::num::ParseFloatError> for Error {
    open spec fn obeys_from_spec() -> bool {
        true
    }

    open spec fn from_spec(e: std::num::ParseFloatError) -> Error {
        Error::ParseFloatError(e)
    }
}

impl From<url::ParseError> for Error {
    fn from(e: url::ParseError) -> (r: Error)
        ensures
            r == Error::UrlParserError(e),
    {
        Error::UrlParserError(e)
    }
}

impl vstd::std_specs::convert::FromSpecImpl<url::ParseError> for Error {
    open spec fn obeys_from_spec() -> bool {
        true
    }

    open spec fn from_spec(e: url::ParseError) -> Error {
        Error::UrlParserError(e)
    }
}

impl From<JsonError> for Error {
    fn from(e: JsonError) -> (r: Error)
        ensures
            r == Error::Json(e),
    {
        Error::Json(e)
    }
}

impl vstd::std_specs::convert::FromSpecImpl<JsonError> for Error {
    open spec fn obeys_from_spec() -> bool {
        true
    }

    open spec fn from_spec(e: JsonError) -> Error {
        Error::Json(e)
    }
}

impl From<QsError> for Error {
    fn from(e: QsError) -> (r: Error)
        ensures
            r == Error::Qs(e),
    {
        Error::Qs(e)
    }
}

impl vstd::std_specs::convert::FromSpecImpl<QsError> for Error {
    open spec fn obeys_from_spec() -> bool {
        true
    }

    open spec fn from_spec(e: QsError) -> Error {
        Error::Qs(e)
    }
}

impl From<TungsteniteError> for Error {
    fn from(e: TungsteniteError) -> (r: Error)
        ensures
            r == Error::Tungstenite(e),
    {
        Error::Tungstenite(e)
    }
}

impl vstd::std_specs::convert::FromSpecImpl<TungsteniteError> for Error {
    open spec fn obeys_from_spec() -> bool {
        true
    }

    open spec fn from_spec(e: TungsteniteError) -> Error {
        Error::Tungstenite(e)
    }
}

impl From<std::time::SystemTimeError> for Error {
    fn from(e: std::time::SystemTimeError) -> (r: Error)
        ensures
            r == Error::TimestampError(e),
    {
        Error::TimestampError(e)
    }
}

impl vstd::std_specs::convert::FromSpecImpl<std::time::SystemTimeError> for Error {
    open spec fn obeys_from_spec() -> bool {
        true
    }

    open spec fn from_spec(e: std::time::SystemTimeError) -> Error {
        Error::TimestampError(e)
    }
}

impl From<std::str::Utf8Error> for Error {
    fn from(e: std::str::Utf8Error) -> (r: Error)
        ensures
            r == Error::UTF8Err(e),
    {
        Error::UTF8Err(e)
    }
}

impl vstd::std_specs::convert::FromSpecImpl<std::str::Utf8Error> for Error {
    open spec fn obeys_from_spec() -> bool {
        true
    }

    open spec fn from_spec(e: std::str::Utf8Error) -> Error {
        Error::UTF8Err(e)
    }
}

impl From<HuobiContentError> for Error {
    fn from(response: HuobiContentError) -> (r: Error)
        ensures
            r == (Error::HuobiError { response }),
    {
        Error::HuobiError { response }
    }
}

impl vstd::std_specs::convert::FromSpecImpl<HuobiContentError> for Error {
    open spec fn obeys_from_spec() -> bool {
        true
    }

    open spec fn from_spec(response: HuobiContentError) -> Error {
        Error::HuobiError { response }
    }
}

} // verus!
