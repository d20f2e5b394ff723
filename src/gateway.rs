use vstd::prelude::*;
use vstd::string::*;

use crate::bytes::{contains_bytes, contains_seq, is_visible_text, lower_seq, occurs_at, text_html, text_html_bytes, to_ascii_lowercase, visible_text};
use crate::context::RequestHead;
use crate::headers::{first_value, HeaderSeq};
use crate::response::{accept_bytes, accept_name};

verus! {

pub const NOT_FOUND_HEAD: &'static str = "No server function found for path: ";

pub const NOT_FOUND_TAIL: &'static str = "\nYou may need to rebuild your wasm binary to update a server function link or make sure the prefix your server and client use for server functions match.";

pub const RENDER_ERROR_HEAD: &'static str = "Error: ";

/// Status 400, Bad Request.
pub const BAD_REQUEST: u16 = 400;

/// Status 406, Not Acceptable.
pub const NOT_ACCEPTABLE: u16 = 406;

/// Status 500, Internal Server Error.
pub const INTERNAL_SERVER_ERROR: u16 = 500;

/// The body of the reply to a call of a path with no function.
pub open spec fn not_found_body(path: Seq<u8>) -> Seq<u8> {
    NOT_FOUND_HEAD.spec_bytes() + path + NOT_FOUND_TAIL.spec_bytes()
}

/// The body of the reply to a failed render.
pub open spec fn render_error_body(message: Seq<u8>) -> Seq<u8> {
    RENDER_ERROR_HEAD.spec_bytes() + message
}

/// Why a request ends without reaching a render or a function.
#[derive(Debug)]
pub enum GatewayError {
    /// The request does not accept HTML.
    NotAcceptable,
    /// The request target has neither path nor query.
    BadUri,
    /// No function is registered under the path.
    NoSuchFunction(Vec<u8>),
    /// The render failed, with a diagnostic message.
    RenderFailed(Vec<u8>),
}

/// A complete reply: status and body.
#[derive(Debug)]
pub struct Reply {
    pub status: u16,
    pub body: Vec<u8>,
}

impl GatewayError {
    pub open spec fn spec_status(&self) -> u16 {
        match self {
            GatewayError::NotAcceptable => NOT_ACCEPTABLE,
            GatewayError::BadUri => BAD_REQUEST,
            GatewayError::NoSuchFunction(_) => BAD_REQUEST,
            GatewayError::RenderFailed(_) => INTERNAL_SERVER_ERROR,
        }
    }

    pub open spec fn spec_body(&self) -> Seq<u8> {
        match self {
            GatewayError::NotAcceptable => Seq::empty(),
            GatewayError::BadUri => Seq::empty(),
            GatewayError::NoSuchFunction(path) => not_found_body(path@),
            GatewayError::RenderFailed(message) => render_error_body(message@),
        }
    }

    /// The reply this error is answered with.
    pub fn into_reply(self) -> (r: Reply)
        ensures
            r.status == self.spec_status(),
            r.body@ == self.spec_body(),
    {
        match self {
            GatewayError::NotAcceptable => Reply { status: NOT_ACCEPTABLE, body: Vec::new() },
            GatewayError::BadUri => Reply { status: BAD_REQUEST, body: Vec::new() },
            GatewayError::NoSuchFunction(path) => {
                let mut body = NOT_FOUND_HEAD.as_bytes_vec();
                let mut p = path;
                body.append(&mut p);
                let mut tail = NOT_FOUND_TAIL.as_bytes_vec();
                body.append(&mut tail);
                Reply { status: BAD_REQUEST, body }
            },
            GatewayError::RenderFailed(message) => {
                let mut body = RENDER_ERROR_HEAD.as_bytes_vec();
                let mut m = message;
                body.append(&mut m);
                Reply { status: INTERNAL_SERVER_ERROR, body }
            },
        }
    }
}

/// The not-found body holds the path it was made for.
pub proof fn not_found_body_names_path(path: Seq<u8>)
    ensures
        contains_seq(not_found_body(path), path),
{
    let b = not_found_body(path);
    let k = NOT_FOUND_HEAD.spec_bytes().len() as int;
    assert(b.subrange(k, k + path.len()) =~= path);
    assert(occurs_at(b, path, k));
}

/// A request the render path does not accept is answered with 406 and an empty body.
pub proof fn not_acceptable_reply_is_empty()
    ensures
        GatewayError::NotAcceptable.spec_status() == 406,
        GatewayError::NotAcceptable.spec_body().len() == 0,
{
}

/// The render path serves a request whose first `accept` value, if any, reads as text and
/// names HTML in any case.
pub open spec fn render_accepts(headers: HeaderSeq) -> bool {
    match first_value(headers, accept_name()) {
        Some(v) => is_visible_text(v) && contains_seq(lower_seq(v), text_html()),
        None => true,
    }
}

/// Checks a request for the render path and gives the URL to render.
pub fn check_render_request(req: &RequestHead) -> (r: Result<Vec<u8>, GatewayError>)
    ensures
        !render_accepts(req.headers@) <==> r matches Err(GatewayError::NotAcceptable),
        (render_accepts(req.headers@) && req.path_and_query.is_none()) <==> r matches Err(GatewayError::BadUri),
        r.is_ok() <==> (render_accepts(req.headers@) && req.path_and_query.is_some()),
        r.is_ok() ==> r.unwrap()@ == req.path_and_query.unwrap()@,
{
    let accept_name = accept_bytes();
    match req.headers.get(&accept_name) {
        Some(v) => {
            if !visible_text(v) {
                return Err(GatewayError::NotAcceptable);
            }
            let lower = to_ascii_lowercase(v);
            if !contains_bytes(&lower, &text_html_bytes()) {
                return Err(GatewayError::NotAcceptable);
            }
        },
        None => {},
    }
    match &req.path_and_query {
        Some(pq) => Ok(crate::headers::copy_bytes(pq)),
        None => Err(GatewayError::BadUri),
    }
}

} // verus!
