//! Responses: the status, headers and body that the server answers with,
//! and the page it writes itself when no error page is at hand.

use vstd::prelude::*;
use vstd::string::StrSliceExecFns;
use vstd::utf8::encode_utf8;
use crate::text::{decimal, push_decimal};

verus! {

/// A response, ready to be sent.
#[derive(Debug)]
pub struct HttpResponse {
    pub status: u16,
    pub headers: Vec<(String, String)>,
    pub body: Vec<u8>,
}

/// A response as a value.
pub struct HttpResponseView {
    pub status: u16,
    pub headers: Seq<(Seq<char>, Seq<char>)>,
    pub body: Seq<u8>,
}

/// The names and values of a list of headers.
pub open spec fn header_views(headers: Seq<(String, String)>) -> Seq<(Seq<char>, Seq<char>)> {
    Seq::new(headers.len(), |i: int| (headers[i].0@, headers[i].1@))
}

impl View for HttpResponse {
    type V = HttpResponseView;

    open spec fn view(&self) -> HttpResponseView {
        HttpResponseView {
            status: self.status,
            headers: header_views(self.headers@),
            body: self.body@,
        }
    }
}

/// Any origin may read the response.
pub open spec fn allow_origin() -> (Seq<char>, Seq<char>) {
    ("Access-Control-Allow-Origin"@, "*"@)
}

/// The methods that a cross-origin request may use.
pub open spec fn allow_methods() -> (Seq<char>, Seq<char>) {
    ("Access-Control-Allow-Methods"@, "GET, POST, PUT, DELETE, OPTIONS"@)
}

/// The headers that a cross-origin request may carry.
pub open spec fn allow_headers() -> (Seq<char>, Seq<char>) {
    ("Access-Control-Allow-Headers"@, "Content-Type, Authorization"@)
}

/// How the server names itself.
pub open spec fn server_header() -> (Seq<char>, Seq<char>) {
    ("Server"@, "RouterWay"@)
}

/// The headers of the answer to a preflight request, which are also the
/// headers added to every proxied response.
pub open spec fn cors_headers() -> Seq<(Seq<char>, Seq<char>)> {
    seq![allow_origin(), allow_methods(), allow_headers(), server_header()]
}

/// The headers of a file served with content type `mime`: it may be kept
/// for an hour by any cache.
pub open spec fn content_headers(mime: Seq<char>) -> Seq<(Seq<char>, Seq<char>)> {
    seq![
        ("Content-Type"@, mime),
        ("Cache-Control"@, "public, max-age=3600"@),
        allow_origin(),
        server_header(),
    ]
}

/// The headers of an error page.
pub open spec fn error_headers() -> Seq<(Seq<char>, Seq<char>)> {
    seq![("Content-Type"@, "text/html; charset=utf-8"@), allow_origin(), server_header()]
}

/// The page that is written when no error page is at hand, up to the status
/// in its title.
pub open spec fn page_head() -> Seq<char> {
    "<!DOCTYPE html>\n<html>\n<head>\n    <meta charset=\"utf-8\">\n    <title>"@
}

/// From the title to the status in the heading.
pub open spec fn page_style() -> Seq<char> {
    " - RouterWay</title>\n    <style>\n        body { font-family: Arial, sans-serif; text-align: center; margin-top: 50px; }\n        .error { color: #e74c3c; }\n    </style>\n</head>\n<body>\n    <h1 class=\"error\">"@
}

/// From the heading to the message.
pub open spec fn page_heading_end() -> Seq<char> {
    "</h1>\n    <p>"@
}

/// From the message to the end of the page.
pub open spec fn page_tail() -> Seq<char> {
    "</p>\n    <hr>\n    <small>RouterWay Server</small>\n</body>\n</html>"@
}

/// The text of the written error page: the status in decimal, in the title
/// and in the heading, and the message below it.
pub open spec fn error_html(status: u16, message: Seq<char>) -> Seq<char> {
    page_head() + decimal(status as nat) + page_style() + decimal(status as nat)
        + page_heading_end() + message + page_tail()
}

/// The written error page as a response.
pub open spec fn error_response(status: u16, message: Seq<char>) -> HttpResponseView {
    HttpResponseView {
        status,
        headers: error_headers(),
        body: encode_utf8(error_html(status, message)),
    }
}

/// The file that holds the error page of a status.
pub open spec fn error_file(status: u16) -> Seq<char> {
    if status == 404 {
        "404.html"@
    } else if status == 400 {
        "400.html"@
    } else if status == 403 {
        "403.html"@
    } else if status == 500 {
        "500.html"@
    } else if status == 502 {
        "502.html"@
    } else if status == 503 {
        "503.html"@
    } else {
        "error.html"@
    }
}

/// The message of the written error page of a status.
pub open spec fn default_message(status: u16) -> Seq<char> {
    if status == 404 {
        "404 - 页面未找到"@
    } else if status == 500 {
        "500 - 内部服务器错误"@
    } else if status == 403 {
        "403 - 访问被拒绝"@
    } else {
        "发生错误"@
    }
}

/// One header.
fn header(name: &str, value: &str) -> (h: (String, String))
    ensures
        h.0@ == name@,
        h.1@ == value@,
{
    (name.to_owned(), value.to_owned())
}

/// Appends the headers that every response carries last: the permissive
/// origin and the server's name.
fn push_common(headers: &mut Vec<(String, String)>)
    ensures
        header_views(final(headers)@) == header_views(old(headers)@).push(allow_origin()).push(
            server_header(),
        ),
{
    headers.push(header("Access-Control-Allow-Origin", "*"));
    headers.push(header("Server", "RouterWay"));
    assert(header_views(headers@) =~= header_views(old(headers)@).push(allow_origin()).push(
        server_header(),
    ));
}

/// The headers that are added to a proxied response, and that a preflight
/// request is answered with.
pub fn cors_header_list() -> (headers: Vec<(String, String)>)
    ensures
        header_views(headers@) == cors_headers(),
{
    let mut headers: Vec<(String, String)> = Vec::new();
    headers.push(header("Access-Control-Allow-Origin", "*"));
    headers.push(header("Access-Control-Allow-Methods", "GET, POST, PUT, DELETE, OPTIONS"));
    headers.push(header("Access-Control-Allow-Headers", "Content-Type, Authorization"));
    headers.push(header("Server", "RouterWay"));
    assert(header_views(headers@) =~= cors_headers());
    headers
}

/// A response with the permissive cross-origin headers.
pub fn create_cors_response(status: u16, body: Vec<u8>) -> (response: HttpResponse)
    ensures
        response@ == (HttpResponseView { status, headers: cors_headers(), body: body@ }),
{
    HttpResponse { status, headers: cors_header_list(), body }
}

/// A file served with status 200 and content type `mime`.
pub fn content_response(mime: &str, body: Vec<u8>) -> (response: HttpResponse)
    ensures
        response@ == (HttpResponseView {
            status: 200,
            headers: content_headers(mime@),
            body: body@,
        }),
{
    let mut headers: Vec<(String, String)> = Vec::new();
    headers.push(header("Content-Type", mime));
    headers.push(header("Cache-Control", "public, max-age=3600"));
    push_common(&mut headers);
    assert(header_views(headers@) =~= content_headers(mime@));
    HttpResponse { status: 200, headers, body }
}

/// An error page that was found, served as HTML under `status`.
pub fn error_page_response(status: u16, body: Vec<u8>) -> (response: HttpResponse)
    ensures
        response@ == (HttpResponseView { status, headers: error_headers(), body: body@ }),
{
    let mut headers: Vec<(String, String)> = Vec::new();
    headers.push(header("Content-Type", "text/html; charset=utf-8"));
    push_common(&mut headers);
    assert(header_views(headers@) =~= error_headers());
    HttpResponse { status, headers, body }
}

/// The written error page: a small HTML page that shows the status and
/// `message`.
pub fn create_error_response(status: u16, message: &str) -> (response: HttpResponse)
    ensures
        response@ == error_response(status, message@),
{
    let mut html = String::new();
    html.push_str("<!DOCTYPE html>\n<html>\n<head>\n    <meta charset=\"utf-8\">\n    <title>");
    push_decimal(&mut html, status as u32);
    html.push_str(
        " - RouterWay</title>\n    <style>\n        body { font-family: Arial, sans-serif; text-align: center; margin-top: 50px; }\n        .error { color: #e74c3c; }\n    </style>\n</head>\n<body>\n    <h1 class=\"error\">",
    );
    push_decimal(&mut html, status as u32);
    html.push_str("</h1>\n    <p>");
    html.push_str(message);
    html.push_str("</p>\n    <hr>\n    <small>RouterWay Server</small>\n</body>\n</html>");
    assert(html@ =~= error_html(status, message@));
    let body = html.as_str().as_bytes_vec();
    error_page_response(status, body)
}

/// The name of the file that holds the error page of `status`.
pub fn error_file_name(status: u16) -> (name: &'static str)
    ensures
        name@ == error_file(status),
{
    if status == 404 {
        "404.html"
    } else if status == 400 {
        "400.html"
    } else if status == 403 {
        "403.html"
    } else if status == 500 {
        "500.html"
    } else if status == 502 {
        "502.html"
    } else if status == 503 {
        "503.html"
    } else {
        "error.html"
    }
}

/// The written error page of `status` with its fixed message.
pub fn default_error_response(status: u16) -> (response: HttpResponse)
    ensures
        response@ == error_response(status, default_message(status)),
{
    let message = if status == 404 {
        "404 - 页面未找到"
    } else if status == 500 {
        "500 - 内部服务器错误"
    } else if status == 403 {
        "403 - 访问被拒绝"
    } else {
        "发生错误"
    };
    create_error_response(status, message)
}

} // verus!
