//! Routing of requests and the responses of each route.
//!
//! The decisions live here; reading files, reading the request body and
//! writing the upload are left to the caller, which hands the outcome back
//! as plain values.

use vstd::prelude::*;
use crate::content_type::{content_type_for_path, mime_for, path_extension};
use crate::multipart::{extract_filename, uploaded_filename};
use crate::storage::{storage_path, stored_path, Timestamp, UPLOAD_DIR};
use crate::text::{has_prefix, starts_with, str_eq};

verus! {

/// The request methods that routing tells apart.
#[derive(Clone, Copy, Debug, PartialEq, Eq, Structural)]
pub enum Method {
    Get,
    Post,
    Options,
    Other,
}

/// The handler that a request goes to.
#[derive(Clone, Copy, Debug, PartialEq, Eq, Structural)]
pub enum Route {
    /// CORS preflight of an upload.
    Preflight,
    /// The index document.
    Index,
    /// A file under one of the static roots.
    StaticFile,
    /// An upload.
    Upload,
    NotFound,
}

pub open spec fn upload_url() -> Seq<char> {
    "/upload"@
}

pub open spec fn index_url() -> Seq<char> {
    "/"@
}

/// The URL lies under one of the roots that static files are served from.
pub open spec fn is_static_url(url: Seq<char>) -> bool {
    starts_with(url, "/assets/"@) || starts_with(url, "/pkg/"@) || starts_with(url, "/static/"@)
}

/// The routing table, in order of priority.
pub open spec fn route_of(method: Method, url: Seq<char>) -> Route {
    if method == Method::Options && url == upload_url() {
        Route::Preflight
    } else if method == Method::Get && url == index_url() {
        Route::Index
    } else if is_static_url(url) {
        Route::StaticFile
    } else if method == Method::Post && url == upload_url() {
        Route::Upload
    } else {
        Route::NotFound
    }
}

/// Picks the handler for a request from its method and URL alone.
pub fn route(method: Method, url: &str) -> (r: Route)
    ensures
        r == route_of(method, url@),
{
    let is_upload = str_eq(url, "/upload");
    if method == Method::Options && is_upload {
        Route::Preflight
    } else if method == Method::Get && str_eq(url, "/") {
        Route::Index
    } else if has_prefix(url, "/assets/") || has_prefix(url, "/pkg/") || has_prefix(
        url,
        "/static/",
    ) {
        Route::StaticFile
    } else if method == Method::Post && is_upload {
        Route::Upload
    } else {
        Route::NotFound
    }
}

/// A static file is looked up only for a URL under one of the static roots.
pub proof fn lemma_static_only_under_roots(method: Method, url: Seq<char>)
    requires
        !is_static_url(url),
    ensures
        route_of(method, url) != Route::StaticFile,
{
}

/// The file that a static URL names: the URL without its leading `'/'`,
/// relative to the working directory.
pub fn static_file_path(url: &str) -> (r: String)
    ensures
        r@ == (if url@.len() > 0 {
            url@.skip(1)
        } else {
            url@
        }),
{
    let s = crate::text::chars_of(url);
    if s.len() == 0 {
        return url.to_owned();
    }
    let rest = url.substring_char(1, s.len());
    assert(url@.subrange(1, url@.len() as int) =~= url@.skip(1));
    rest.to_owned()
}

/// A response header.
#[derive(Clone, Debug)]
pub struct Header {
    pub name: String,
    pub value: String,
}

/// What a response carries.
#[derive(Clone, Debug)]
pub enum Body {
    Empty,
    Text(String),
    Bytes(Vec<u8>),
}

/// A response, with the headers that the handler sets itself.
#[derive(Clone, Debug)]
pub struct Response {
    pub status: u16,
    pub headers: Vec<Header>,
    pub body: Body,
}

pub open spec fn header_pair(h: Header) -> (Seq<char>, Seq<char>) {
    (h.name@, h.value@)
}

impl Response {
    /// The headers as (name, value) pairs, in order.
    pub open spec fn header_pairs(&self) -> Seq<(Seq<char>, Seq<char>)> {
        self.headers@.map_values(|h: Header| header_pair(h))
    }

    /// The body is the text `t`.
    pub open spec fn has_text(&self, t: Seq<char>) -> bool {
        match self.body {
            Body::Text(s) => s@ == t,
            _ => false,
        }
    }
}

pub open spec fn allow_origin() -> (Seq<char>, Seq<char>) {
    ("Access-Control-Allow-Origin"@, "*"@)
}

fn header(name: &str, value: &str) -> (r: Header)
    ensures
        header_pair(r) == (name@, value@),
{
    Header { name: name.to_owned(), value: value.to_owned() }
}

/// `Access-Control-Allow-Origin: *`.
pub fn cors_header() -> (r: Header)
    ensures
        header_pair(r) == allow_origin(),
{
    header("Access-Control-Allow-Origin", "*")
}

fn text_response(status: u16, headers: Vec<Header>, text: String) -> (r: Response)
    ensures
        r.status == status,
        r.headers@ == headers@,
        r.body == Body::Text(text),
{
    Response { status, headers, body: Body::Text(text) }
}

pub open spec fn preflight_headers() -> Seq<(Seq<char>, Seq<char>)> {
    seq![
        allow_origin(),
        ("Access-Control-Allow-Methods"@, "POST, OPTIONS"@),
        ("Access-Control-Allow-Headers"@, "Content-Type"@),
    ]
}

/// The three CORS headers of a preflight answer: any origin, the methods
/// `POST, OPTIONS` and the header `Content-Type`.
pub fn cors_headers_for_options() -> (r: Vec<Header>)
    ensures
        r@.map_values(|h: Header| header_pair(h)) == preflight_headers(),
{
    let mut headers: Vec<Header> = Vec::new();
    headers.push(cors_header());
    headers.push(header("Access-Control-Allow-Methods", "POST, OPTIONS"));
    headers.push(header("Access-Control-Allow-Headers", "Content-Type"));
    assert(headers@.map_values(|h: Header| header_pair(h)) =~= preflight_headers());
    headers
}

/// The answer to a CORS preflight: 200, no body, and the three CORS headers.
pub fn preflight_response() -> (r: Response)
    ensures
        r.status == 200,
        r.header_pairs() == preflight_headers(),
        r.body is Empty,
{
    Response { status: 200, headers: cors_headers_for_options(), body: Body::Empty }
}

/// The index page: the document as HTML, or 404 where it could not be read.
pub fn index_response(document: Option<String>) -> (r: Response)
    ensures
        match document {
            Some(doc) => r.status == 200 && r.header_pairs() == seq![
                ("Content-Type"@, "text/html"@),
            ] && r.has_text(doc@),
            None => r.status == 404 && r.header_pairs().len() == 0 && r.has_text(
                "404 Not Found"@,
            ),
        },
{
    match document {
        Some(doc) => {
            let mut headers: Vec<Header> = Vec::new();
            headers.push(header("Content-Type", "text/html"));
            let r = text_response(200, headers, doc);
            assert(r.header_pairs() =~= seq![("Content-Type"@, "text/html"@)]);
            r
        },
        None => {
            let r = text_response(404, Vec::new(), String::from_str("404 Not Found"));
            assert(r.header_pairs() =~= Seq::empty());
            r
        },
    }
}

/// A static file: its bytes with the content type of its extension, or 404
/// where it could not be read.
pub fn static_response(path: &str, contents: Option<Vec<u8>>) -> (r: Response)
    ensures
        match contents {
            Some(bytes) => r.status == 200 && r.header_pairs() == seq![
                ("Content-Type"@, mime_for(path_extension(path@))),
            ] && r.body == Body::Bytes(bytes),
            None => r.status == 404 && r.header_pairs().len() == 0 && r.has_text("404"@),
        },
{
    match contents {
        Some(bytes) => {
            let mut headers: Vec<Header> = Vec::new();
            headers.push(header("Content-Type", content_type_for_path(path)));
            let r = Response { status: 200, headers, body: Body::Bytes(bytes) };
            assert(r.header_pairs() =~= seq![("Content-Type"@, mime_for(path_extension(path@)))]);
            r
        },
        None => {
            let r = text_response(404, Vec::new(), String::from_str("404"));
            assert(r.header_pairs() =~= Seq::empty());
            r
        },
    }
}

/// The answer to a request that no route takes.
pub fn not_found_response() -> (r: Response)
    ensures
        r.status == 404,
        r.header_pairs().len() == 0,
        r.has_text("Not Found"@),
{
    let r = text_response(404, Vec::new(), String::from_str("Not Found"));
    assert(r.header_pairs() =~= Seq::empty());
    r
}

/// What the upload handler does next.
#[derive(Clone, Debug)]
pub enum UploadStep {
    /// Answer at once; nothing is written.
    Reply(Response),
    /// Create `dir` (and its parents), write `contents` to `path`, then
    /// answer with `upload_reply`.
    Store { dir: String, path: String, contents: String },
}

/// The first step of an upload, from the outcome of reading its body and
/// the moment it arrived. A body that could not be read is answered with
/// 500 and its error; a body that was read is stored whole under
/// `uploads/<YYYYMMDDHHMMSS>-<name it was sent under>`.
pub fn plan_upload(body: Result<String, String>, now: &Timestamp) -> (r: UploadStep)
    requires
        now.wf(),
    ensures
        match body {
            Err(e) => match r {
                UploadStep::Reply(resp) => resp.status == 500 && resp.header_pairs() == seq![
                    allow_origin(),
                ] && resp.has_text("Failed to read body: "@ + e@),
                UploadStep::Store { .. } => false,
            },
            Ok(b) => match r {
                UploadStep::Store { dir, path, contents } => dir@ == "uploads"@ && path@
                    == stored_path(*now, uploaded_filename(b@)) && contents == b,
                UploadStep::Reply(_) => false,
            },
        },
{
    match body {
        Err(e) => {
            let mut text = String::from_str("Failed to read body: ");
            text.append(e.as_str());
            let mut headers: Vec<Header> = Vec::new();
            headers.push(cors_header());
            let resp = text_response(500, headers, text);
            assert(resp.header_pairs() =~= seq![allow_origin()]);
            UploadStep::Reply(resp)
        },
        Ok(b) => {
            let name = extract_filename(b.as_str());
            let path = storage_path(now, name.as_str());
            UploadStep::Store { dir: UPLOAD_DIR.to_owned(), path, contents: b }
        },
    }
}

/// The answer to an upload once storing it was tried: 200 where the file
/// was written, 500 with the error where it was not. Both carry the CORS
/// header.
pub fn upload_reply(stored: Result<(), String>) -> (r: Response)
    ensures
        r.header_pairs() == seq![allow_origin()],
        match stored {
            Ok(()) => r.status == 200 && r.has_text("JSON received and saved"@),
            Err(e) => r.status == 500 && r.has_text("Failed to save upload: "@ + e@),
        },
{
    let mut headers: Vec<Header> = Vec::new();
    headers.push(cors_header());
    let r = match stored {
        Ok(()) => text_response(200, headers, String::from_str("JSON received and saved")),
        Err(e) => {
            let mut text = String::from_str("Failed to save upload: ");
            text.append(e.as_str());
            text_response(500, headers, text)
        },
    };
    assert(r.header_pairs() =~= seq![allow_origin()]);
    r
}

} // verus!
