//! The error types of the proxy core.

use vstd::prelude::*;
use vstd::string::*;

use crate::text::{decimal_text, to_decimal};

verus! {

/// What an `AuthParsingError` holds.
pub enum ParsingFailure {
    /// The digest is not hex text; with the decoder's report.
    Digest(Seq<char>),
    /// The key is empty.
    EmptyKey,
    /// The target is not hex text; with the decoder's report.
    Target(Seq<char>),
    /// The decoded target is not UTF-8; with the decoder's report.
    NotUtf8(Seq<char>),
}

/// Error returned while parsing the digest and the target of a request. The
/// variants for input that a decoder refused carry the decoder's report.
#[derive(Debug, Clone)]
#[non_exhaustive]
pub enum AuthParsingError {
    /// The digest is not encoded as hex.
    DigestEncodingError(String),
    /// The provided key is empty.
    EmptyKeyError,
    /// The target is not encoded as hex.
    TargetEncodingError(String),
    /// The decoded target is not a UTF-8 string.
    TargetNotUtf8(String),
}

impl View for AuthParsingError {
    type V = ParsingFailure;

    open spec fn view(&self) -> ParsingFailure {
        match self {
            AuthParsingError::DigestEncodingError(report) => ParsingFailure::Digest(report@),
            AuthParsingError::EmptyKeyError => ParsingFailure::EmptyKey,
            AuthParsingError::TargetEncodingError(report) => ParsingFailure::Target(report@),
            AuthParsingError::TargetNotUtf8(report) => ParsingFailure::NotUtf8(report@),
        }
    }
}

/// Error returned when the digest of a request does not match its target.
#[derive(Debug, Clone, Copy, PartialEq, Eq, Structural)]
#[non_exhaustive]
pub enum AuthValidationError {
    /// The digest is not the HMAC of the target under the key.
    HmacInvalid,
}

/// How loudly a failure is logged.
#[derive(Debug, Clone, Copy, PartialEq, Eq, Structural)]
pub enum Severity {
    /// Expected from scanners and broken links.
    Info,
    /// A misbehaving origin or a misconfigured proxy.
    Warn,
}

impl AuthParsingError {
    /// The message of this error: what failed, then the decoder's report
    /// where there is one.
    pub open spec fn message_text(&self) -> Seq<char> {
        match self {
            AuthParsingError::DigestEncodingError(report) => "digest is not encoded as hex: "@
                + report@,
            AuthParsingError::EmptyKeyError => "the provided key is empty"@,
            AuthParsingError::TargetEncodingError(report) => "target url is not encoded as hex: "@
                + report@,
            AuthParsingError::TargetNotUtf8(report) => "target url is not a utf8 string: "@
                + report@,
        }
    }

    /// The message of this error.
    pub fn message(&self) -> (text: String)
        ensures
            text@ == self.message_text(),
    {
        match self {
            AuthParsingError::DigestEncodingError(report) => {
                let mut text = "digest is not encoded as hex: ".to_owned();
                text.append(report.as_str());
                text
            },
            AuthParsingError::EmptyKeyError => "the provided key is empty".to_owned(),
            AuthParsingError::TargetEncodingError(report) => {
                let mut text = "target url is not encoded as hex: ".to_owned();
                text.append(report.as_str());
                text
            },
            AuthParsingError::TargetNotUtf8(report) => {
                let mut text = "target url is not a utf8 string: ".to_owned();
                text.append(report.as_str());
                text
            },
        }
    }
}

impl AuthValidationError {
    /// The message of this error.
    pub open spec fn message_text(&self) -> Seq<char> {
        "HMAC is invalid"@
    }

    /// The message of this error.
    pub fn message(&self) -> (text: String)
        ensures
            text@ == self.message_text(),
    {
        "HMAC is invalid".to_owned()
    }
}

/// Error returned when the request to the upstream failed. Each variant
/// carries what the transport reported.
#[derive(Debug, Clone)]
#[non_exhaustive]
pub enum ProxyError {
    /// The upstream request could not be built, mostly because of a target
    /// or a header that is not valid.
    RequestBuildingFailed(String),
    /// The request to the upstream failed.
    UpstreamError(String),
    /// The upstream did not answer before the timeout expired.
    UpstreamTimeout(String),
}

/// What a `ProxyError` holds.
pub enum ProxyFailure {
    RequestBuildingFailed(Seq<char>),
    UpstreamError(Seq<char>),
    UpstreamTimeout(Seq<char>),
}

impl View for ProxyError {
    type V = ProxyFailure;

    open spec fn view(&self) -> ProxyFailure {
        match self {
            ProxyError::RequestBuildingFailed(detail) => ProxyFailure::RequestBuildingFailed(
                detail@,
            ),
            ProxyError::UpstreamError(detail) => ProxyFailure::UpstreamError(detail@),
            ProxyError::UpstreamTimeout(detail) => ProxyFailure::UpstreamTimeout(detail@),
        }
    }
}

impl ProxyError {
    /// The message of this error.
    pub open spec fn message_text(&self) -> Seq<char> {
        match self {
            ProxyError::RequestBuildingFailed(detail) => "building the upstream request failed: "@
                + detail@,
            ProxyError::UpstreamError(detail) => "upstream error: "@ + detail@,
            ProxyError::UpstreamTimeout(detail) => "upstream request timed out: "@ + detail@,
        }
    }

    /// The message of this error.
    pub fn message(&self) -> (text: String)
        ensures
            text@ == self.message_text(),
    {
        match self {
            ProxyError::RequestBuildingFailed(detail) => {
                let mut text = "building the upstream request failed: ".to_owned();
                text.append(detail.as_str());
                text
            },
            ProxyError::UpstreamError(detail) => {
                let mut text = "upstream error: ".to_owned();
                text.append(detail.as_str());
                text
            },
            ProxyError::UpstreamTimeout(detail) => {
                let mut text = "upstream request timed out: ".to_owned();
                text.append(detail.as_str());
                text
            },
        }
    }
}

/// Error returned by the request pipeline.
#[derive(Debug, Clone)]
#[non_exhaustive]
pub enum CamoError {
    /// The digest and target of the request could not be parsed.
    AuthParsingError(AuthParsingError),
    /// The digest of the request does not match its target.
    AuthValidationError(AuthValidationError),
    /// The upstream sent a content type that is not accepted.
    ContentTypeNotAccepted(String),
    /// The upstream sent no content type.
    MissingContentType,
    /// The request to the upstream failed.
    ProxyError(ProxyError),
    /// The upstream answered with a status that is neither success nor
    /// redirect.
    UnexpectedUpstreamStatus(u16),
    /// The upstream sent a redirect whose location cannot be processed.
    UpstreamRedirectLocationUnprocessable,
    /// The upstream declared a content length above the limit.
    UpstreamResponseTooLong(usize),
}

/// What a `CamoError` holds.
pub enum Failure {
    AuthParsing(ParsingFailure),
    AuthValidation(AuthValidationError),
    ContentTypeNotAccepted(Seq<char>),
    MissingContentType,
    Proxy(ProxyFailure),
    UnexpectedUpstreamStatus(u16),
    UpstreamRedirectLocationUnprocessable,
    UpstreamResponseTooLong(usize),
}

impl View for CamoError {
    type V = Failure;

    open spec fn view(&self) -> Failure {
        match self {
            CamoError::AuthParsingError(e) => Failure::AuthParsing(e@),
            CamoError::AuthValidationError(e) => Failure::AuthValidation(*e),
            CamoError::ContentTypeNotAccepted(content_type) => Failure::ContentTypeNotAccepted(
                content_type@,
            ),
            CamoError::MissingContentType => Failure::MissingContentType,
            CamoError::ProxyError(e) => Failure::Proxy(e@),
            CamoError::UnexpectedUpstreamStatus(code) => Failure::UnexpectedUpstreamStatus(*code),
            CamoError::UpstreamRedirectLocationUnprocessable => Failure::UpstreamRedirectLocationUnprocessable,
            CamoError::UpstreamResponseTooLong(length) => Failure::UpstreamResponseTooLong(*length),
        }
    }
}

/// Whether `code` can be the status of an HTTP response: 100 to 999.
pub open spec fn is_status_code(code: u16) -> bool {
    100 <= code && code < 1000
}

/// The content type of every error response.
pub const ERROR_CONTENT_TYPE: &'static str = "text/plain; charset=utf-8";

/// What is sent back for a failed request.
#[derive(Debug, Clone)]
pub struct ErrorReply {
    /// The status of the response.
    pub status: u16,
    /// The content type of the response.
    pub content_type: &'static str,
    /// The body of the response: the message of the error.
    pub body: String,
}

impl CamoError {
    /// The status that the proxy answers with: 403 for a request that is not
    /// authenticated, 422 for a response that the policy rejects, 500 for a
    /// failed fetch. An unexpected upstream status is passed on as it is,
    /// unless it cannot be the status of a response: then 500.
    pub open spec fn status(&self) -> u16 {
        match self {
            CamoError::AuthParsingError(_) | CamoError::AuthValidationError(_) => 403,
            CamoError::ContentTypeNotAccepted(_)
            | CamoError::MissingContentType
            | CamoError::UpstreamRedirectLocationUnprocessable
            | CamoError::UpstreamResponseTooLong(_) => 422,
            CamoError::ProxyError(_) => 500,
            CamoError::UnexpectedUpstreamStatus(code) => if is_status_code(*code) {
                *code
            } else {
                500
            },
        }
    }

    /// The status that the proxy answers with.
    pub fn status_code(&self) -> (code: u16)
        ensures
            code == self.status(),
            is_status_code(code),
    {
        match self {
            CamoError::AuthParsingError(_) | CamoError::AuthValidationError(_) => 403,
            CamoError::ContentTypeNotAccepted(_)
            | CamoError::MissingContentType
            | CamoError::UpstreamRedirectLocationUnprocessable
            | CamoError::UpstreamResponseTooLong(_) => 422,
            CamoError::ProxyError(_) => 500,
            CamoError::UnexpectedUpstreamStatus(code) => {
                if 100 <= *code && *code < 1000 {
                    *code
                } else {
                    500
                }
            },
        }
    }

    /// How loudly this failure is logged: a request that is not
    /// authenticated at `Info`, everything else at `Warn`.
    pub open spec fn level(&self) -> Severity {
        match self {
            CamoError::AuthParsingError(_) | CamoError::AuthValidationError(_) => Severity::Info,
            _ => Severity::Warn,
        }
    }

    /// How loudly this failure is logged.
    pub fn severity(&self) -> (severity: Severity)
        ensures
            severity == self.level(),
    {
        match self {
            CamoError::AuthParsingError(_) | CamoError::AuthValidationError(_) => Severity::Info,
            _ => Severity::Warn,
        }
    }

    /// The message of this error: one line, fit for the body of the
    /// response.
    pub open spec fn message_text(&self) -> Seq<char> {
        match self {
            CamoError::AuthParsingError(e) => "authentication data could not be parsed: "@
                + e.message_text(),
            CamoError::AuthValidationError(e) => "authentication data was invalid: "@
                + e.message_text(),
            CamoError::ContentTypeNotAccepted(content_type) => "upstream content-type not accepted: "@
                + content_type@,
            CamoError::MissingContentType => "upstream did not provide a content-type"@,
            CamoError::ProxyError(e) => "upstream proxy failed: "@ + e.message_text(),
            CamoError::UnexpectedUpstreamStatus(code) => "unexpected upstream status: "@
                + decimal_text(*code as nat),
            CamoError::UpstreamRedirectLocationUnprocessable => "upstream redirect location: header not processable"@,
            CamoError::UpstreamResponseTooLong(_) => "upstream content-length exceeds limit"@,
        }
    }

    /// The message of this error.
    pub fn message(&self) -> (text: String)
        ensures
            text@ == self.message_text(),
    {
        match self {
            CamoError::AuthParsingError(e) => {
                let mut text = "authentication data could not be parsed: ".to_owned();
                text.append(e.message().as_str());
                text
            },
            CamoError::AuthValidationError(e) => {
                let mut text = "authentication data was invalid: ".to_owned();
                text.append(e.message().as_str());
                text
            },
            CamoError::ContentTypeNotAccepted(content_type) => {
                let mut text = "upstream content-type not accepted: ".to_owned();
                text.append(content_type.as_str());
                text
            },
            CamoError::MissingContentType => "upstream did not provide a content-type".to_owned(),
            CamoError::ProxyError(e) => {
                let mut text = "upstream proxy failed: ".to_owned();
                text.append(e.message().as_str());
                text
            },
            CamoError::UnexpectedUpstreamStatus(code) => {
                let mut text = "unexpected upstream status: ".to_owned();
                text.append(to_decimal(*code as usize).as_str());
                text
            },
            CamoError::UpstreamRedirectLocationUnprocessable => {
                "upstream redirect location: header not processable".to_owned()
            },
            CamoError::UpstreamResponseTooLong(_) => {
                "upstream content-length exceeds limit".to_owned()
            },
        }
    }

    /// The response for this failure: its status, a plain text content type,
    /// and the message as the body.
    pub fn reply(&self) -> (reply: ErrorReply)
        ensures
            reply.status == self.status(),
            reply.content_type@ == ERROR_CONTENT_TYPE@,
            reply.body@ == self.message_text(),
    {
        ErrorReply { status: self.status_code(), content_type: ERROR_CONTENT_TYPE, body: self.message() }
    }
}

} // verus!
