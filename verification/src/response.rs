//! A received response and the checks made while a request is sent: which client it goes
//! through, the upload names and paths, and the response size limit.
use vstd::prelude::*;
use crate::files::{file_name, has_parent_part, path_file_name};
use crate::text::{
    copy_str, eq_ignore_case, eq_ignore_case_str, eq_str, join, push_str, split, starts_with,
    starts_with_str, trim, trim_str, decimal, decimal_string,
};

verus! {

/// The host that the `url` crate finds in a text parsed as a URL; `None` when the text is
/// no URL or has no host.
pub uninterp spec fn url_host(text: Seq<char>) -> Option<Seq<char>>;

/// Parses the text with `reqwest::Url::parse` and takes `host_str`; named by `url_host`.
#[verifier::external_body]
fn parsed_host(text: &str) -> (r: Option<String>)
    ensures
        match r {
            Some(h) => url_host(text@) == Some(h@),
            None => url_host(text@) is None,
        },
{
    match reqwest::Url::parse(text) {
        Ok(url) => url.host_str().map(|h| h.to_string()),
        Err(_) => None,
    }
}

/// A request to this URL goes out without a proxy: its host is `localhost`, `127.0.0.1`
/// or `::1`.
pub open spec fn spec_is_loopback_url(url: Seq<char>) -> bool {
    match url_host(url) {
        Some(h) => h == "localhost"@ || h == "127.0.0.1"@ || h == "::1"@,
        None => false,
    }
}

pub fn is_loopback_url(url: &str) -> (r: bool)
    ensures
        r == spec_is_loopback_url(url@),
{
    match parsed_host(url) {
        Some(h) => eq_str(h.as_str(), "localhost") || eq_str(h.as_str(), "127.0.0.1") || eq_str(h.as_str(), "::1"),
        None => false,
    }
}

/// The seconds a request may take: its timeout, at least one.
pub fn effective_timeout(seconds: u64) -> (r: u64)
    ensures
        r == if seconds < 1 {
            1
        } else {
            seconds
        },
{
    if seconds < 1 {
        1
    } else {
        seconds
    }
}

/// The file name an upload is sent under: the one configured when it is not blank, else the
/// file name of its path, else `upload.bin`.
pub open spec fn spec_upload_file_name(filename: Option<Seq<char>>, path: Seq<char>) -> Seq<char> {
    match filename {
        Some(f) => if trim(f).len() > 0 {
            f
        } else {
            match file_name(path) {
                Some(n) => n,
                None => "upload.bin"@,
            }
        },
        None => match file_name(path) {
            Some(n) => n,
            None => "upload.bin"@,
        },
    }
}

pub fn upload_file_name(filename: Option<&str>, path: &str) -> (r: String)
    ensures
        r@ == spec_upload_file_name(
            match filename {
                Some(f) => Some(f@),
                None => None,
            },
            path@,
        ),
{
    if let Some(f) = filename {
        if !trim_str(f).as_str().is_empty() {
            return copy_str(f);
        }
    }
    match path_file_name(path) {
        Some(n) => n,
        None => copy_str("upload.bin"),
    }
}

/// Why an upload's configured path is refused before the file is looked up: it is blank,
/// or it is relative and climbs out with `..`.
pub open spec fn spec_upload_path_problem(configured: Seq<char>) -> Option<Seq<char>> {
    let p = trim(configured);
    if p.len() == 0 {
        Some("文件路径不能为空"@)
    } else if !starts_with(p, "/"@) && split(p, '/').contains(".."@) {
        Some("上传文件相对路径不能包含 .."@)
    } else {
        None
    }
}

pub fn upload_path_problem(configured: &str) -> (r: Option<String>)
    ensures
        r.deep_view() == spec_upload_path_problem(configured@),
{
    let p = trim_str(configured);
    if p.as_str().is_empty() {
        return Some(copy_str("文件路径不能为空"));
    }
    if !starts_with_str(p.as_str(), "/") && has_parent_part(p.as_str()) {
        return Some(copy_str("上传文件相对路径不能包含 .."));
    }
    None
}

/// A declared response length within the limit; none declared passes.
pub fn declared_length_fits(content_length: Option<u64>, max_response_bytes: usize) -> (r: bool)
    ensures
        r == match content_length {
            Some(n) => n <= max_response_bytes,
            None => true,
        },
{
    match content_length {
        Some(n) => n <= max_response_bytes as u64,
        None => true,
    }
}

/// One more chunk keeps the body within the limit.
pub fn chunk_fits(received: usize, chunk: usize, max_response_bytes: usize) -> (r: bool)
    ensures
        r == (received + chunk <= max_response_bytes || (received > max_response_bytes && chunk == 0)),
{
    let room = max_response_bytes.saturating_sub(received);
    chunk <= room
}

/// `std::str::from_utf8` accepts exactly the UTF-8 byte sequences.
#[verifier::external_body]
fn is_utf8(bytes: &[u8]) -> (r: bool)
    ensures
        r == vstd::utf8::valid_utf8(bytes@),
{
    std::str::from_utf8(bytes).is_ok()
}

/// A body shows as binary when it is not UTF-8 or holds a zero byte.
pub open spec fn spec_is_binary(body: Seq<u8>) -> bool {
    !vstd::utf8::valid_utf8(body) || body.contains(0u8)
}

pub fn binary_body(body: &[u8]) -> (r: bool)
    ensures
        r == spec_is_binary(body@),
{
    if !is_utf8(body) {
        return true;
    }
    let mut i: usize = 0;
    while i < body.len()
        invariant
            i <= body@.len(),
            forall|j: int| 0 <= j < i ==> body@[j] != 0u8,
        decreases body@.len() - i,
    {
        if body[i] == 0u8 {
            assert(body@[i as int] == 0u8);
            return true;
        }
        i = i + 1;
    }
    false
}

/// A received response: where it ended up, its status and reason, its headers, its body,
/// how long it took, and whether the body shows as binary.
pub struct ResponseData {
    pub final_url: String,
    pub status: u16,
    pub reason: String,
    pub headers: Vec<(String, String)>,
    pub body_bytes: Vec<u8>,
    pub elapsed_ms: u64,
    binary: bool,
}

pub open spec fn header_pairs(hs: Seq<(String, String)>) -> Seq<(Seq<char>, Seq<char>)> {
    hs.map_values(|h: (String, String)| (h.0@, h.1@))
}

/// The value of the first header named `content-type`, in any ASCII case.
pub open spec fn spec_content_type(hs: Seq<(Seq<char>, Seq<char>)>) -> Option<Seq<char>>
    decreases hs.len(),
{
    if hs.len() == 0 {
        None
    } else if eq_ignore_case(hs[0].0, "content-type"@) {
        Some(hs[0].1)
    } else {
        spec_content_type(hs.drop_first())
    }
}

/// The headers as lines `name: value`.
pub open spec fn spec_headers_text(hs: Seq<(Seq<char>, Seq<char>)>) -> Seq<char> {
    join(hs.map_values(|h: (Seq<char>, Seq<char>)| h.0 + ": "@ + h.1), "\n"@)
}

impl ResponseData {
    pub closed spec fn spec_final_url(&self) -> Seq<char> {
        self.final_url@
    }

    pub closed spec fn spec_status(&self) -> u16 {
        self.status
    }

    pub closed spec fn spec_reason(&self) -> Seq<char> {
        self.reason@
    }

    /// The headers as pairs of name and value.
    pub closed spec fn spec_headers(&self) -> Seq<(Seq<char>, Seq<char>)> {
        header_pairs(self.headers@)
    }

    pub closed spec fn spec_body(&self) -> Seq<u8> {
        self.body_bytes@
    }

    pub closed spec fn spec_elapsed_ms(&self) -> u64 {
        self.elapsed_ms
    }

    pub closed spec fn spec_binary(&self) -> bool {
        self.binary
    }

    pub fn new(
        final_url: String,
        status: u16,
        reason: String,
        headers: Vec<(String, String)>,
        body_bytes: Vec<u8>,
        elapsed_ms: u64,
    ) -> (r: ResponseData)
        ensures
            r.spec_final_url() == final_url@,
            r.spec_status() == status,
            r.spec_reason() == reason@,
            r.spec_headers() == header_pairs(headers@),
            r.spec_body() == body_bytes@,
            r.spec_elapsed_ms() == elapsed_ms,
            r.spec_binary() == spec_is_binary(body_bytes@),
    {
        let binary = binary_body(body_bytes.as_slice());
        ResponseData { final_url, status, reason, headers, body_bytes, elapsed_ms, binary }
    }

    pub fn is_binary(&self) -> (r: bool)
        ensures
            r == self.spec_binary(),
    {
        self.binary
    }

    pub fn content_type(&self) -> (r: Option<&str>)
        ensures
            match r {
                Some(v) => spec_content_type(self.spec_headers()) == Some(v@),
                None => spec_content_type(self.spec_headers()) is None,
            },
    {
        let ghost hs = header_pairs(self.headers@);
        assert(hs.skip(0) =~= hs);
        let mut i: usize = 0;
        while i < self.headers.len()
            invariant
                hs == header_pairs(self.headers@),
                i <= hs.len(),
                spec_content_type(hs) == spec_content_type(hs.skip(i as int)),
            decreases hs.len() - i,
        {
            assert(hs.skip(i as int)[0] == hs[i as int]);
            assert(hs.skip(i as int).drop_first() =~= hs.skip(i + 1));
            if eq_ignore_case_str(self.headers[i].0.as_str(), "content-type") {
                return Some(self.headers[i].1.as_str());
            }
            i = i + 1;
        }
        assert(hs.skip(i as int) =~= Seq::<(Seq<char>, Seq<char>)>::empty());
        None
    }

    pub fn headers_text(&self) -> (r: String)
        ensures
            r@ == spec_headers_text(self.spec_headers()),
    {
        let ghost hs = header_pairs(self.headers@);
        let ghost lines = hs.map_values(|h: (Seq<char>, Seq<char>)| h.0 + ": "@ + h.1);
        let mut out = String::new();
        let mut i: usize = 0;
        while i < self.headers.len()
            invariant
                hs == header_pairs(self.headers@),
                lines == hs.map_values(|h: (Seq<char>, Seq<char>)| h.0 + ": "@ + h.1),
                i <= hs.len(),
                out@ == join(lines.take(i as int), "\n"@),
            decreases hs.len() - i,
        {
            let ghost before = out@;
            if i > 0 {
                push_str(&mut out, "\n");
            }
            push_str(&mut out, self.headers[i].0.as_str());
            push_str(&mut out, ": ");
            push_str(&mut out, self.headers[i].1.as_str());
            proof {
                let t = lines.take(i + 1);
                assert(t.drop_last() =~= lines.take(i as int));
                assert(t.last() == lines[i as int]);
                if i == 0 {
                    assert(lines.take(0) =~= Seq::<Seq<char>>::empty());
                    assert(out@ =~= lines[0]);
                } else {
                    assert(out@ =~= before + "\n"@ + lines[i as int]);
                }
            }
            i = i + 1;
        }
        proof {
            assert(lines.take(hs.len() as int) =~= lines);
        }
        out
    }
}

/// Why sending a request failed. A transport failure keeps only its kind here; the
/// message of an invalid request or of an upload is kept as text.
pub enum HttpError {
    InvalidRequest(String),
    Upload(String),
    Timeout,
    Connection,
    Transport,
    ResponseTooLarge(usize),
    ClientInitialization,
}

/// The text shown for an error.
pub open spec fn spec_http_error_message(e: HttpError) -> Seq<char> {
    match e {
        HttpError::InvalidRequest(m) => m@,
        HttpError::Upload(m) => m@,
        HttpError::Timeout => "HTTP request timed out"@,
        HttpError::Connection => "HTTP connection failed"@,
        HttpError::Transport => "HTTP transport failed"@,
        HttpError::ResponseTooLarge(limit) => "Response exceeds max_response_bytes ("@
            + decimal(limit as nat) + " bytes)"@,
        HttpError::ClientInitialization => "HTTP client initialization failed"@,
    }
}

impl HttpError {
    /// Classifies a failure of the HTTP client by what it reports of itself: a timeout
    /// first, then a failed connection, then a request that could not be built (kept with
    /// its message), else any other transport failure.
    pub fn from_transport(timeout: bool, connect: bool, builder: bool, message: String) -> (r: HttpError)
        ensures
            timeout ==> r is Timeout,
            !timeout && connect ==> r is Connection,
            !timeout && !connect && builder ==> r == HttpError::InvalidRequest(message),
            !timeout && !connect && !builder ==> r is Transport,
    {
        if timeout {
            HttpError::Timeout
        } else if connect {
            HttpError::Connection
        } else if builder {
            HttpError::InvalidRequest(message)
        } else {
            HttpError::Transport
        }
    }

    pub fn is_timeout(&self) -> (r: bool)
        ensures
            r == (*self is Timeout),
    {
        match self {
            HttpError::Timeout => true,
            _ => false,
        }
    }

    pub fn message(&self) -> (r: String)
        ensures
            r@ == spec_http_error_message(*self),
    {
        match self {
            HttpError::InvalidRequest(m) => copy_str(m.as_str()),
            HttpError::Upload(m) => copy_str(m.as_str()),
            HttpError::Timeout => copy_str("HTTP request timed out"),
            HttpError::Connection => copy_str("HTTP connection failed"),
            HttpError::Transport => copy_str("HTTP transport failed"),
            HttpError::ResponseTooLarge(limit) => {
                let mut out = copy_str("Response exceeds max_response_bytes (");
                let n = decimal_string(*limit as u64);
                push_str(&mut out, n.as_str());
                push_str(&mut out, " bytes)");
                out
            },
            HttpError::ClientInitialization => copy_str("HTTP client initialization failed"),
        }
    }
}

/// Which of the four clients a request goes through: with or without the system proxy,
/// with or without certificate checks.
#[derive(PartialEq, Eq, Structural, Clone, Copy, Debug)]
pub enum ClientKind {
    Regular,
    NoProxy,
    Insecure,
    InsecureNoProxy,
}

impl ClientKind {
    /// Loopback requests bypass the proxy; skipping SSL verification picks an insecure client.
    pub fn for_request(loopback: bool, skip_ssl_verification: bool) -> (r: ClientKind)
        ensures
            r == (if loopback {
                if skip_ssl_verification { ClientKind::InsecureNoProxy } else { ClientKind::NoProxy }
            } else {
                if skip_ssl_verification { ClientKind::Insecure } else { ClientKind::Regular }
            }),
    {
        match (loopback, skip_ssl_verification) {
            (false, false) => ClientKind::Regular,
            (true, false) => ClientKind::NoProxy,
            (false, true) => ClientKind::Insecure,
            (true, true) => ClientKind::InsecureNoProxy,
        }
    }

    pub fn no_proxy(&self) -> (r: bool)
        ensures
            r == (*self is NoProxy || *self is InsecureNoProxy),
    {
        match self {
            ClientKind::NoProxy | ClientKind::InsecureNoProxy => true,
            _ => false,
        }
    }

    pub fn skips_ssl_verification(&self) -> (r: bool)
        ensures
            r == (*self is Insecure || *self is InsecureNoProxy),
    {
        match self {
            ClientKind::Insecure | ClientKind::InsecureNoProxy => true,
            _ => false,
        }
    }

    /// The name a client is logged under.
    pub fn label(&self) -> (r: &'static str)
        ensures
            r@ == match *self {
                ClientKind::Regular => "regular"@,
                ClientKind::NoProxy => "no_proxy"@,
                ClientKind::Insecure => "insecure"@,
                ClientKind::InsecureNoProxy => "insecure_no_proxy"@,
            },
    {
        match self {
            ClientKind::Regular => "regular",
            ClientKind::NoProxy => "no_proxy",
            ClientKind::Insecure => "insecure",
            ClientKind::InsecureNoProxy => "insecure_no_proxy",
        }
    }
}

/// The user agent every client sends.
pub const USER_AGENT: &'static str = "postui/0.1";

} // verus!
