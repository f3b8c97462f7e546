use crate::metadata_api::JsonPayload;
use crate::text::chars_to_string;
use crate::text::push_str_chars;
use vstd::prelude::*;

verus! {

/// Query flags recognised by the metadata operations: `?info` asks for file
/// metadata, `?list` for a directory listing.
pub struct ApiParams {
    pub info: bool,
    pub list: bool,
}

/// Server-wide configuration shared by every request handler: the serving
/// root and whether single-page-application fallback is active.
pub struct AppState {
    pub public_dir: String,
    pub index_router_mode: bool,
}

/// Where a request goes once its path has been looked at.
pub enum RoutePlan {
    /// The raw path could not be sanitized: respond 403 before any
    /// filesystem access.
    RespondForbidden,
    /// `?info` present while SPA mode is off: run the file-info operation.
    ApiFileInfo,
    /// `?list` present, `?info` absent, SPA mode off: run the
    /// directory-listing operation.
    ApiListDirectory,
    /// Serve the path as a static resource; a miss goes to the fallback
    /// engine.
    TryStatic,
}

/// Fixed evaluation order of the request engine: a sanitization failure wins
/// over everything, then `?info`, then `?list` (both ignored in SPA mode),
/// then static serving.
pub fn route_request(spa_mode: bool, params: &ApiParams, sanitize_ok: bool) -> (r: RoutePlan)
    ensures
        !sanitize_ok ==> r is RespondForbidden,
        sanitize_ok && !spa_mode && params.info ==> r is ApiFileInfo,
        sanitize_ok && !spa_mode && !params.info && params.list ==> r is ApiListDirectory,
        sanitize_ok && (spa_mode || (!params.info && !params.list)) ==> r is TryStatic,
{
    if !sanitize_ok {
        RoutePlan::RespondForbidden
    } else if !spa_mode && params.info {
        RoutePlan::ApiFileInfo
    } else if !spa_mode && params.list {
        RoutePlan::ApiListDirectory
    } else {
        RoutePlan::TryStatic
    }
}

/// The one response every request ends in.
pub enum ResponseOutcome {
    /// An existing file's bytes, served with the guessed content type (200).
    StaticContent { bytes: Vec<u8>, content_type: String },
    /// A metadata answer: JSON envelope and its own status.
    JsonPayload { status: u16, body: String },
    /// The SPA entry point, served for any miss while SPA mode is on (200).
    SpaIndex { content: String },
    /// The root's own `404.html` (404).
    NotFoundCustom { content: String },
    /// The page bundled with the server, when no `404.html` exists (404).
    NotFoundBuiltin { content: String },
    /// A traversal attempt, rejected before any filesystem access (403).
    Forbidden,
    /// An I/O failure, or SPA mode with no readable index (500).
    InternalError { message: String },
}

impl ResponseOutcome {
    /// The HTTP status each outcome is sent with.
    pub open spec fn spec_status(&self) -> u16 {
        match self {
            ResponseOutcome::StaticContent { .. } => 200,
            ResponseOutcome::JsonPayload { status, .. } => *status,
            ResponseOutcome::SpaIndex { .. } => 200,
            ResponseOutcome::NotFoundCustom { .. } => 404,
            ResponseOutcome::NotFoundBuiltin { .. } => 404,
            ResponseOutcome::Forbidden => 403,
            ResponseOutcome::InternalError { .. } => 500,
        }
    }

    pub fn status(&self) -> (s: u16)
        ensures
            s == self.spec_status(),
    {
        match self {
            ResponseOutcome::StaticContent { .. } => 200,
            ResponseOutcome::JsonPayload { status, .. } => *status,
            ResponseOutcome::SpaIndex { .. } => 200,
            ResponseOutcome::NotFoundCustom { .. } => 404,
            ResponseOutcome::NotFoundBuiltin { .. } => 404,
            ResponseOutcome::Forbidden => 403,
            ResponseOutcome::InternalError { .. } => 500,
        }
    }
}

/// The body sent with a rejected traversal attempt.
pub open spec fn forbidden_text() -> Seq<char> {
    "Path traversal is not allowed."@
}

pub fn forbidden_message() -> (r: String)
    ensures
        r@ == forbidden_text(),
{
    let mut out: Vec<char> = Vec::new();
    push_str_chars(&mut out, "Path traversal is not allowed.");
    proof {
        assert(out@ =~= forbidden_text());
    }
    chars_to_string(&out)
}

/// The configuration error reported when SPA mode promises an index page
/// that cannot be read.
pub open spec fn spa_index_missing_text() -> Seq<char> {
    "SPA mode is on, but index.html could not be found."@
}

/// The page bundled with the server, answering a miss when the root holds
/// no `404.html` of its own.
pub open spec fn builtin_404_text() -> Seq<char> {
    "<!DOCTYPE html><html><head><title>404 Not Found</title></head><body><h1>404</h1><p>The requested resource was not found on this server.</p></body></html>"@
}

pub fn builtin_404_page() -> (r: String)
    ensures
        r@ == builtin_404_text(),
{
    let mut out: Vec<char> = Vec::new();
    push_str_chars(
        &mut out,
        "<!DOCTYPE html><html><head><title>404 Not Found</title></head><body><h1>404</h1><p>The requested resource was not found on this server.</p></body></html>",
    );
    proof {
        assert(out@ =~= builtin_404_text());
    }
    chars_to_string(&out)
}

/// The file of the root the fallback engine consults on a static miss:
/// the SPA entry point when SPA mode is on, the custom not-found page
/// otherwise.
pub fn fallback_target(spa_mode: bool) -> (r: &'static str)
    ensures
        spa_mode ==> r@ == "index.html"@,
        !spa_mode ==> r@ == "404.html"@,
{
    if spa_mode {
        "index.html"
    } else {
        "404.html"
    }
}

/// The fallback decision engine, entered only on a static miss. `page` is
/// the attempted read of the file `fallback_target` named. SPA mode on:
/// the index is served (200) whatever was requested, and a missing index is
/// a configuration error (500). SPA mode off: the custom page if it could
/// be read, else the bundled page (404 either way). Every miss ends in
/// exactly one of these four outcomes.
pub fn fallback_decision(spa_mode: bool, page: Option<String>) -> (r: ResponseOutcome)
    ensures
        spa_mode && page is Some ==> (r matches ResponseOutcome::SpaIndex { content } && Some(
            content,
        ) == page),
        spa_mode && page is None ==> (r matches ResponseOutcome::InternalError { message }
            && message@ == spa_index_missing_text()),
        !spa_mode && page is Some ==> (r matches ResponseOutcome::NotFoundCustom { content }
            && Some(content) == page),
        !spa_mode && page is None ==> (r matches ResponseOutcome::NotFoundBuiltin { content }
            && content@ == builtin_404_text()),
{
    if spa_mode {
        match page {
            Some(content) => ResponseOutcome::SpaIndex { content },
            None => {
                let mut out: Vec<char> = Vec::new();
                push_str_chars(&mut out, "SPA mode is on, but index.html could not be found.");
                proof {
                    assert(out@ =~= spa_index_missing_text());
                }
                ResponseOutcome::InternalError { message: chars_to_string(&out) }
            },
        }
    } else {
        match page {
            Some(content) => ResponseOutcome::NotFoundCustom { content },
            None => ResponseOutcome::NotFoundBuiltin { content: builtin_404_page() },
        }
    }
}

/// Wraps a finished metadata answer as the request's outcome.
pub fn json_outcome(payload: JsonPayload) -> (r: ResponseOutcome)
    ensures
        r matches ResponseOutcome::JsonPayload { status, body } && status == payload.status && body
            == payload.body,
{
    ResponseOutcome::JsonPayload { status: payload.status, body: payload.body }
}

} // verus!
