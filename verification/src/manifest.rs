use crate::error::{Endpoint, PortalError, PortalErrorView, Upstream, UpstreamView};
use crate::request::{is_success, is_success_status, Request, RequestView};
use crate::session::{cookie_header, AuthState};
use crate::text::{chars_of, int_decimal, opt_text, parse_i64, parse_i64_from, push_int_decimal};
use vstd::prelude::*;
use vstd::string::*;

verus! {

/// One variant of a stream: its bit rate, its picture size and its label.
#[derive(Debug)]
pub struct BitrateInfo {
    pub bitrate: u32,
    pub width: u32,
    pub height: u32,
    pub lines: String,
}

/// What a `BitrateInfo` holds.
pub struct BitrateView {
    pub bitrate: u32,
    pub width: u32,
    pub height: u32,
    pub lines: Seq<char>,
}

impl View for BitrateInfo {
    type V = BitrateView;

    open spec fn view(&self) -> BitrateView {
        BitrateView {
            bitrate: self.bitrate,
            width: self.width,
            height: self.height,
            lines: self.lines@,
        }
    }
}

/// The playable description of a stream.
#[derive(Debug)]
pub struct StreamManifest {
    pub url: String,
    pub error_code: i32,
    pub message: Option<String>,
    pub bitrates: Vec<BitrateInfo>,
}

/// What a `StreamManifest` holds.
pub struct ManifestView {
    pub url: Seq<char>,
    pub error_code: i32,
    pub message: Option<Seq<char>>,
    pub bitrates: Seq<BitrateView>,
}

impl View for StreamManifest {
    type V = ManifestView;

    open spec fn view(&self) -> ManifestView {
        ManifestView {
            url: self.url@,
            error_code: self.error_code,
            message: opt_text(self.message),
            bitrates: Seq::new(self.bitrates@.len(), |i: int| self.bitrates@[i]@),
        }
    }
}

/// One variant of a stream as the validation service names it.
#[derive(Debug)]
pub struct ValidationBitrate {
    pub bitrate: u32,
    pub width: u32,
    pub height: u32,
    pub lines: String,
}

/// The answer of the validation service, read from its body.
#[derive(Debug)]
pub struct ValidationResponse {
    pub url: String,
    pub message: Option<String>,
    pub error_code: i32,
    pub bitrates: Vec<ValidationBitrate>,
}

impl View for ValidationBitrate {
    type V = BitrateView;

    open spec fn view(&self) -> BitrateView {
        BitrateView {
            bitrate: self.bitrate,
            width: self.width,
            height: self.height,
            lines: self.lines@,
        }
    }
}

/// An answer of the validation service holds what a manifest holds: the
/// same fields, the variants in the order received.
impl View for ValidationResponse {
    type V = ManifestView;

    open spec fn view(&self) -> ManifestView {
        ManifestView {
            url: self.url@,
            error_code: self.error_code,
            message: opt_text(self.message),
            bitrates: Seq::new(self.bitrates@.len(), |i: int| self.bitrates@[i]@),
        }
    }
}

/// What came of reading the body of the validation service's answer.
#[derive(Debug)]
pub enum ManifestBody {
    /// The body could not be read; the text says why.
    Unreadable(String),
    /// The body is not of the expected shape; the text says why.
    Malformed(String),
    /// The body, read.
    Parsed(ValidationResponse),
}

/// The address of the validation service up to the media number.
pub const VALIDATION_URL_HEAD: &'static str =
    "https://services.radio-canada.ca/media/validation/v2/?appCode=medianetlive&connectionType=hd&deviceType=ipad&idMedia=";

/// The address of the validation service after the media number.
pub const VALIDATION_URL_TAIL: &'static str =
    "&multibitrate=true&output=json&tech=hls&manifestVersion=2&manifestType=desktop";

/// The position of the last `-` of `s`, or -1 where it has none.
pub open spec fn last_dash(s: Seq<char>) -> int
    decreases s.len(),
{
    if s.len() == 0 {
        -1
    } else if s.last() == '-' {
        s.len() - 1
    } else {
        last_dash(s.drop_last())
    }
}

/// What follows the last `-` of `s`; all of `s` where it has none.
pub open spec fn trailing_segment(s: Seq<char>) -> Seq<char> {
    s.skip(last_dash(s) + 1)
}

/// The media number that a stream URL ends in: what follows its last `-`,
/// read as a decimal numeral.
pub open spec fn media_id_of(stream_url: Seq<char>) -> Option<i64> {
    parse_i64(trailing_segment(stream_url))
}

/// The address at which the validation service resolves a media number.
pub open spec fn validation_url_text(id_media: i64) -> Seq<char> {
    VALIDATION_URL_HEAD@ + int_decimal(id_media as int) + VALIDATION_URL_TAIL@
}

/// The request that resolves a media number for the holder of `cookies`.
pub open spec fn manifest_request(
    id_media: i64,
    cookies: Seq<(Seq<char>, Seq<char>)>,
) -> RequestView {
    RequestView {
        url: validation_url_text(id_media),
        headers: seq![
            ("Accept"@, "application/json"@),
            ("Cookie"@, cookie_header(cookies)),
        ],
    }
}

/// The last `-` is where no `-` follows.
proof fn lemma_last_dash(s: Seq<char>, at: int)
    requires
        -1 <= at < s.len(),
        at >= 0 ==> s[at] == '-',
        forall|k: int| at < k < s.len() ==> s[k] != '-',
    ensures
        last_dash(s) == at,
    decreases s.len(),
{
    if s.len() > 0 && at < s.len() - 1 {
        lemma_last_dash(s.drop_last(), at);
    }
}

/// A stream URL never ends in a negative media number: what follows the
/// last `-` holds no `-`.
pub proof fn law_media_id_is_not_negative(stream_url: Seq<char>)
    ensures
        media_id_of(stream_url) matches Some(id) ==> id >= 0,
{
    lemma_no_dash_after_last(stream_url);
    let segment = trailing_segment(stream_url);
    if segment.len() > 0 {
        assert(segment[0] == stream_url[last_dash(stream_url) + 1]);
    }
}

proof fn lemma_no_dash_after_last(s: Seq<char>)
    ensures
        -1 <= last_dash(s) < s.len(),
        forall|k: int| last_dash(s) < k < s.len() ==> s[k] != '-',
    decreases s.len(),
{
    if s.len() > 0 && s.last() != '-' {
        lemma_no_dash_after_last(s.drop_last());
        assert forall|k: int| last_dash(s) < k < s.len() implies s[k] != '-' by {
            if k < s.len() - 1 {
                assert(s.drop_last()[k] == s[k]);
            }
        }
    }
}

/// The media number that `stream_url` ends in.
pub fn extract_media_id(stream_url: &str) -> (id_media: Option<i64>)
    ensures
        id_media == media_id_of(stream_url@),
{
    let chars = chars_of(stream_url);
    let mut start: usize = chars.len();
    while start > 0 && chars[start - 1] != '-'
        invariant
            start <= chars.len(),
            forall|k: int| start <= k < chars.len() ==> chars@[k] != '-',
        decreases start,
    {
        start -= 1;
    }
    proof {
        lemma_last_dash(chars@, start - 1);
    }
    parse_i64_from(&chars, start)
}

/// The address at which the validation service resolves `id_media`.
pub fn validation_url(id_media: i64) -> (url: String)
    ensures
        url@ == validation_url_text(id_media),
{
    let mut url = String::from_str(VALIDATION_URL_HEAD);
    push_int_decimal(&mut url, id_media);
    url.append(VALIDATION_URL_TAIL);
    url
}

/// What a planned request holds, and what a failure holds.
pub open spec fn plan_view(plan: Result<Request, PortalError>) -> Result<
    RequestView,
    PortalErrorView,
> {
    match plan {
        Ok(request) => Ok(request@),
        Err(error) => Err(error@),
    }
}

/// The request that resolves the manifest of `stream_url`, before anything
/// is sent. A URL that does not end in a media number is refused first;
/// then a store without a session. Otherwise the request goes to the
/// validation service, with the session's cookies in one `Cookie` header.
pub fn get_stream_manifest(stream_url: &str, state: &AuthState) -> (plan: Result<
    Request,
    PortalError,
>)
    ensures
        plan_view(plan) == match media_id_of(stream_url@) {
            None => Err(PortalErrorView::InvalidInput),
            Some(id_media) => match state@.session {
                None => Err(PortalErrorView::NotAuthenticated),
                Some(session) => Ok(manifest_request(id_media, session.cookies)),
            },
        },
{
    let id_media = match extract_media_id(stream_url) {
        Some(id_media) => id_media,
        None => { return Err(PortalError::InvalidInput); },
    };
    let session = match &state.session {
        Some(session) => session,
        None => { return Err(PortalError::NotAuthenticated); },
    };
    let mut headers: Vec<(String, String)> = Vec::new();
    headers.push((String::from_str("Accept"), String::from_str("application/json")));
    headers.push((String::from_str("Cookie"), session.cookies.header()));
    let request = Request { url: validation_url(id_media), headers };
    assert(request@.headers =~= manifest_request(id_media, session.cookies@).headers);
    Ok(request)
}

/// What the body of an answer holds, as characters.
pub enum BodyView {
    Unreadable(Seq<char>),
    Malformed(Seq<char>),
    Parsed(ManifestView),
}

impl View for ManifestBody {
    type V = BodyView;

    open spec fn view(&self) -> BodyView {
        match *self {
            ManifestBody::Unreadable(why) => BodyView::Unreadable(why@),
            ManifestBody::Malformed(why) => BodyView::Malformed(why@),
            ManifestBody::Parsed(answer) => BodyView::Parsed(answer@),
        }
    }
}

/// What a status of the validation service means before its body is read:
/// 401 is an expired session, whatever else the answer holds; any other
/// status outside 200 to 299 is a failure of the service.
pub open spec fn status_verdict(status: u16) -> Option<PortalErrorView> {
    if status == 401 {
        Some(PortalErrorView::SessionExpired)
    } else if !is_success(status) {
        Some(
            PortalErrorView::UpstreamUnavailable {
                endpoint: Endpoint::Manifest,
                cause: UpstreamView::Status(status),
            },
        )
    } else {
        None
    }
}

/// What the body of a successful answer means: an error code other than
/// zero is an application error, with the answer's message or
/// `Unknown error`; with error code zero the answer is the manifest, its
/// fields as they are and its variants in the order received.
pub open spec fn body_verdict(body: BodyView) -> Result<ManifestView, PortalErrorView> {
    match body {
        BodyView::Unreadable(why) => Err(
            PortalErrorView::UpstreamUnavailable {
                endpoint: Endpoint::Manifest,
                cause: UpstreamView::Unreadable(why),
            },
        ),
        BodyView::Malformed(why) => Err(
            PortalErrorView::UpstreamUnavailable {
                endpoint: Endpoint::Manifest,
                cause: UpstreamView::Malformed(why),
            },
        ),
        BodyView::Parsed(answer) => if answer.error_code != 0 {
            Err(
                PortalErrorView::ApplicationError {
                    code: answer.error_code,
                    message: match answer.message {
                        Some(message) => message,
                        None => "Unknown error"@,
                    },
                },
            )
        } else {
            Ok(answer)
        },
    }
}

/// What an answer of the validation service resolves to: the status
/// decides first, then the body.
pub open spec fn manifest_outcome(status: u16, body: BodyView) -> Result<
    ManifestView,
    PortalErrorView,
> {
    match status_verdict(status) {
        Some(error) => Err(error),
        None => body_verdict(body),
    }
}

/// What a resolved manifest holds, and what a failure holds.
pub open spec fn outcome_view(outcome: Result<StreamManifest, PortalError>) -> Result<
    ManifestView,
    PortalErrorView,
> {
    match outcome {
        Ok(manifest) => Ok(manifest@),
        Err(error) => Err(error@),
    }
}

/// Judges the status of the validation service's answer, before its body
/// is read.
pub fn check_manifest_status(status: u16) -> (verdict: Result<(), PortalError>)
    ensures
        match verdict {
            Ok(_) => status_verdict(status) is None,
            Err(error) => status_verdict(status) == Some(error@),
        },
{
    if status == 401 {
        Err(PortalError::SessionExpired)
    } else if !is_success_status(status) {
        Err(
            PortalError::UpstreamUnavailable {
                endpoint: Endpoint::Manifest,
                cause: Upstream::Status(status),
            },
        )
    } else {
        Ok(())
    }
}

/// Judges the body of an answer whose status was accepted.
pub fn read_manifest(body: ManifestBody) -> (outcome: Result<StreamManifest, PortalError>)
    ensures
        outcome_view(outcome) == body_verdict(body@),
{
    match body {
        ManifestBody::Unreadable(why) => Err(
            PortalError::UpstreamUnavailable {
                endpoint: Endpoint::Manifest,
                cause: Upstream::Unreadable(why),
            },
        ),
        ManifestBody::Malformed(why) => Err(
            PortalError::UpstreamUnavailable {
                endpoint: Endpoint::Manifest,
                cause: Upstream::Malformed(why),
            },
        ),
        ManifestBody::Parsed(answer) => {
            if answer.error_code != 0 {
                let message = match answer.message {
                    Some(message) => message,
                    None => String::from_str("Unknown error"),
                };
                return Err(PortalError::ApplicationError { code: answer.error_code, message });
            }
            let ghost wanted = answer@;
            let ValidationResponse { url, message, error_code, bitrates } = answer;
            let mut variants: Vec<BitrateInfo> = Vec::new();
            for variant in it: bitrates
                invariant
                    it.seq() == bitrates@,
                    variants@.len() == it.index(),
                    forall|k: int|
                        0 <= k < variants@.len() ==> (#[trigger] variants@[k])@ == bitrates@[k]@,
            {
                variants.push(
                    BitrateInfo {
                        bitrate: variant.bitrate,
                        width: variant.width,
                        height: variant.height,
                        lines: variant.lines,
                    },
                );
            }
            let manifest = StreamManifest { url, error_code, message, bitrates: variants };
            assert(manifest@.bitrates =~= wanted.bitrates);
            Ok(manifest)
        },
    }
}

/// Resolves an answer of the validation service: the manifest, or the
/// failure that the answer stands for.
pub fn resolve_manifest(status: u16, body: ManifestBody) -> (outcome: Result<
    StreamManifest,
    PortalError,
>)
    ensures
        outcome_view(outcome) == manifest_outcome(status, body@),
{
    match check_manifest_status(status) {
        Err(error) => Err(error),
        Ok(_) => read_manifest(body),
    }
}

/// A refused session is reported as such whatever the answer's body
/// holds.
pub proof fn law_unauthorized_is_session_expired(body: BodyView)
    ensures
        manifest_outcome(401, body) == Err::<ManifestView, PortalErrorView>(
            PortalErrorView::SessionExpired,
        ),
{
}

/// An answer that the transport calls a success and that carries an error
/// code other than zero is an application error with that code, not a
/// manifest.
pub proof fn law_application_error_on_success(status: u16, answer: ManifestView)
    requires
        is_success(status),
        answer.error_code != 0,
    ensures
        manifest_outcome(status, BodyView::Parsed(answer)) matches Err(
            PortalErrorView::ApplicationError { code, .. },
        ) && code == answer.error_code,
{
}

/// Only the error code decides whether an answer that was read is a
/// manifest: every manifest that is handed out has error code zero, and
/// every successful answer with error code zero is handed out as it is.
pub proof fn law_manifest_has_error_code_zero(status: u16, body: BodyView)
    ensures
        manifest_outcome(status, body) matches Ok(manifest) ==> manifest.error_code == 0,
        is_success(status) && body is Parsed && body->Parsed_0.error_code == 0
            ==> manifest_outcome(status, body) == Ok::<ManifestView, PortalErrorView>(
            body->Parsed_0,
        ),
{
}

} // verus!
