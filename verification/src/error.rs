use crate::text::{int_decimal, push_int_decimal};
use vstd::prelude::*;
use vstd::string::*;

verus! {

/// The two services of the portal that the library speaks to.
#[derive(Clone, Copy, Debug, PartialEq, Eq)]
pub enum Endpoint {
    /// The public catalog of streams.
    Catalog,
    /// The validation service, which resolves a stream's manifest.
    Manifest,
}

/// Why a service could not be used.
#[derive(Debug, PartialEq, Eq)]
pub enum Upstream {
    /// It answered with this status, which is none of 200 to 299.
    Status(u16),
    /// The request brought no answer; the text says why.
    Unreachable(String),
    /// The body of the answer could not be read; the text says why.
    Unreadable(String),
    /// The body of the answer is not of the expected shape; the text says
    /// why.
    Malformed(String),
}

/// What an `Upstream` holds.
pub enum UpstreamView {
    Status(u16),
    Unreachable(Seq<char>),
    Unreadable(Seq<char>),
    Malformed(Seq<char>),
}

impl View for Upstream {
    type V = UpstreamView;

    open spec fn view(&self) -> UpstreamView {
        match *self {
            Upstream::Status(code) => UpstreamView::Status(code),
            Upstream::Unreachable(why) => UpstreamView::Unreachable(why@),
            Upstream::Unreadable(why) => UpstreamView::Unreadable(why@),
            Upstream::Malformed(why) => UpstreamView::Malformed(why@),
        }
    }
}

/// A failure that the library reports to its caller.
#[derive(Debug, PartialEq, Eq)]
pub enum PortalError {
    /// The stream URL does not end in a media number.
    InvalidInput,
    /// There is no live session.
    NotAuthenticated,
    /// The validation service refused the session's cookies.
    SessionExpired,
    /// A service could not be used.
    UpstreamUnavailable { endpoint: Endpoint, cause: Upstream },
    /// The validation service answered, and its answer carries an error
    /// code other than zero.
    ApplicationError { code: i32, message: String },
}

/// What a `PortalError` holds.
pub enum PortalErrorView {
    InvalidInput,
    NotAuthenticated,
    SessionExpired,
    UpstreamUnavailable { endpoint: Endpoint, cause: UpstreamView },
    ApplicationError { code: i32, message: Seq<char> },
}

impl View for PortalError {
    type V = PortalErrorView;

    open spec fn view(&self) -> PortalErrorView {
        match *self {
            PortalError::InvalidInput => PortalErrorView::InvalidInput,
            PortalError::NotAuthenticated => PortalErrorView::NotAuthenticated,
            PortalError::SessionExpired => PortalErrorView::SessionExpired,
            PortalError::UpstreamUnavailable { endpoint, cause } => {
                PortalErrorView::UpstreamUnavailable { endpoint, cause: cause@ }
            },
            PortalError::ApplicationError { code, message } => {
                PortalErrorView::ApplicationError { code, message: message@ }
            },
        }
    }
}

/// The sentence that reports a failure of a service.
pub open spec fn upstream_text(endpoint: Endpoint, cause: UpstreamView) -> Seq<char> {
    match cause {
        UpstreamView::Status(code) => match endpoint {
            Endpoint::Catalog => "Catalog API returned status: "@ + int_decimal(code as int),
            Endpoint::Manifest => "Manifest API returned status: "@ + int_decimal(code as int),
        },
        UpstreamView::Unreachable(why) => match endpoint {
            Endpoint::Catalog => "Failed to fetch catalog: "@ + why,
            Endpoint::Manifest => "Failed to fetch stream manifest: "@ + why,
        },
        UpstreamView::Unreadable(why) => "Failed to get response text: "@ + why,
        UpstreamView::Malformed(why) => match endpoint {
            Endpoint::Catalog => "Failed to parse catalog response: "@ + why,
            Endpoint::Manifest => "Failed to parse manifest response: "@ + why,
        },
    }
}

/// The sentence that reports a failure to the host.
pub open spec fn error_text(error: PortalErrorView) -> Seq<char> {
    match error {
        PortalErrorView::InvalidInput => "Invalid stream URL format"@,
        PortalErrorView::NotAuthenticated => "Not authenticated"@,
        PortalErrorView::SessionExpired => "Session expired - please login again"@,
        PortalErrorView::UpstreamUnavailable { endpoint, cause } => upstream_text(endpoint, cause),
        PortalErrorView::ApplicationError { code, message } => "API error "@ + int_decimal(
            code as int,
        ) + ": "@ + message,
    }
}

fn sentence(head: &str, tail: &str) -> (text: String)
    ensures
        text@ == head@ + tail@,
{
    let mut text = String::from_str(head);
    text.append(tail);
    text
}

fn sentence_with_number(head: &str, number: i64) -> (text: String)
    ensures
        text@ == head@ + int_decimal(number as int),
{
    let mut text = String::from_str(head);
    push_int_decimal(&mut text, number);
    text
}

impl PortalError {
    /// The sentence that reports this failure to the host.
    pub fn message(&self) -> (text: String)
        ensures
            text@ == error_text(self@),
    {
        match self {
            PortalError::InvalidInput => String::from_str("Invalid stream URL format"),
            PortalError::NotAuthenticated => String::from_str("Not authenticated"),
            PortalError::SessionExpired => String::from_str("Session expired - please login again"),
            PortalError::UpstreamUnavailable { endpoint, cause } => match cause {
                Upstream::Status(code) => match endpoint {
                    Endpoint::Catalog => sentence_with_number(
                        "Catalog API returned status: ",
                        *code as i64,
                    ),
                    Endpoint::Manifest => sentence_with_number(
                        "Manifest API returned status: ",
                        *code as i64,
                    ),
                },
                Upstream::Unreachable(why) => match endpoint {
                    Endpoint::Catalog => sentence("Failed to fetch catalog: ", why.as_str()),
                    Endpoint::Manifest => sentence(
                        "Failed to fetch stream manifest: ",
                        why.as_str(),
                    ),
                },
                Upstream::Unreadable(why) => sentence(
                    "Failed to get response text: ",
                    why.as_str(),
                ),
                Upstream::Malformed(why) => match endpoint {
                    Endpoint::Catalog => sentence(
                        "Failed to parse catalog response: ",
                        why.as_str(),
                    ),
                    Endpoint::Manifest => sentence(
                        "Failed to parse manifest response: ",
                        why.as_str(),
                    ),
                },
            },
            PortalError::ApplicationError { code, message } => {
                let mut text = sentence_with_number("API error ", *code as i64);
                text.append(": ");
                text.append(message.as_str());
                assert(text@ =~= error_text(self@));
                text
            },
        }
    }
}

} // verus!
