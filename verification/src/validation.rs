//! Checks and normalization of what request and scenario files declare.
use vstd::prelude::*;
use crate::config::{
    ApiRequest, DataPart, FileUpload, FileView, NameValue, OverrideView, ParamView, PartView,
    RequestOverride, RequestParam, RequestView, ResponseExtract,
};
use crate::documents::{RequestDocument, RequestOverrideDocument};
use crate::files::ParsedRequest;
use crate::http_method::{is_token, parse, spec_parse_method};
use crate::files::{file_name, file_stem_chars, path_file_name, stem_of};
use crate::text::{
    chars_of, contains_char, copy_str, string_of, ends_with, ends_with_str, eq_str, push_str, split, split_str,
    starts_with, starts_with_str, strip_prefix, strip_prefix_str, strip_suffix, strip_suffix_str,
    trim, trim_str, views,
};

verus! {

/// `Request <id><rest>`: how the messages about one request begin.
pub open spec fn request_msg(id: Seq<char>, rest: Seq<char>) -> Seq<char> {
    "Request "@ + id + rest
}

pub fn request_message(id: &str, rest: &str) -> (r: String)
    ensures
        r@ == request_msg(id@, rest@),
{
    let mut m = copy_str("Request ");
    push_str(&mut m, id);
    push_str(&mut m, rest);
    m
}

fn request_message_with(id: &str, rest: &str, value: &str) -> (r: String)
    ensures
        r@ == request_msg(id@, rest@ + value@),
{
    let mut m = request_message(id, rest);
    push_str(&mut m, value);
    assert(m@ =~= request_msg(id@, rest@ + value@));
    m
}

/// A variable name as written, with or without `{{ }}` round it: trimmed, unwrapped,
/// trimmed again; none when empty, when braces are left, or when only one side is wrapped.
pub open spec fn spec_variable_name(value: Seq<char>) -> Option<Seq<char>> {
    let t = trim(value);
    let inner = if starts_with(t, "{{"@) || ends_with(t, "}}"@) {
        match strip_prefix(t, "{{"@) {
            Some(a) => match strip_suffix(a, "}}"@) {
                Some(b) => Some(trim(b)),
                None => None,
            },
            None => None,
        }
    } else {
        Some(t)
    };
    match inner {
        Some(x) => if x.len() == 0 || x.contains('{') || x.contains('}') {
            None
        } else {
            Some(x)
        },
        None => None,
    }
}

pub fn normalize_variable_name(value: &str) -> (r: Option<String>)
    ensures
        r.deep_view() == spec_variable_name(value@),
{
    let t = trim_str(value);
    let inner = if starts_with_str(t.as_str(), "{{") || ends_with_str(t.as_str(), "}}") {
        match strip_prefix_str(t.as_str(), "{{") {
            Some(a) => match strip_suffix_str(a.as_str(), "}}") {
                Some(b) => trim_str(b.as_str()),
                None => return None,
            },
            None => return None,
        }
    } else {
        t
    };
    if inner.as_str().is_empty() || contains_char(inner.as_str(), '{') || contains_char(
        inner.as_str(),
        '}',
    ) {
        None
    } else {
        Some(inner)
    }
}

pub open spec fn timeout_msg() -> Seq<char> {
    "timeout must be a positive integer in seconds; omit it to use the default"@
}

/// A timeout in seconds: any but zero.
pub fn validate_timeout(seconds: u64) -> (r: Result<u64, String>)
    ensures
        seconds > 0 ==> r == Ok::<u64, String>(seconds),
        seconds == 0 ==> (r matches Err(e) && e@ == timeout_msg()),
{
    if seconds == 0 {
        return Err(copy_str("timeout must be a positive integer in seconds; omit it to use the default"));
    }
    Ok(seconds)
}

pub open spec fn trimmed_param(p: ParamView) -> ParamView {
    ParamView { name: trim(p.name), ..p }
}

/// Parameters with their names trimmed; refused when a name is blank.
pub open spec fn spec_normalize_params(ps: Seq<ParamView>, id: Seq<char>, field: Seq<char>) -> Result<
    Seq<ParamView>,
    Seq<char>,
> {
    if exists|i: int| 0 <= i < ps.len() && trim(#[trigger] ps[i].name).len() == 0 {
        Err(request_msg(id, " "@ + field + " parameter name cannot be empty"@))
    } else {
        Ok(ps.map_values(|p: ParamView| trimmed_param(p)))
    }
}

pub fn normalize_params(params: &Vec<RequestParam>, request_id: &str, field: &str) -> (r: Result<
    Vec<RequestParam>,
    String,
>)
    ensures
        match r {
            Ok(v) => spec_normalize_params(params.deep_view(), request_id@, field@) == Ok::<
                Seq<ParamView>,
                Seq<char>,
            >(v.deep_view()),
            Err(e) => spec_normalize_params(params.deep_view(), request_id@, field@) == Err::<
                Seq<ParamView>,
                Seq<char>,
            >(e@),
        },
{
    let ghost pv = params.deep_view();
    let mut out: Vec<RequestParam> = Vec::new();
    let mut i: usize = 0;
    while i < params.len()
        invariant
            pv == params.deep_view(),
            i <= pv.len(),
            out@.len() == i,
            forall|j: int| 0 <= j < i ==> trim(#[trigger] pv[j].name).len() != 0,
            forall|j: int| 0 <= j < i ==> #[trigger] out@[j]@ == trimmed_param(pv[j]),
        decreases pv.len() - i,
    {
        let name = trim_str(params[i].name.as_str());
        assert(pv[i as int] == params@[i as int]@);
        if name.as_str().is_empty() {
            let mut rest = copy_str(" ");
            push_str(&mut rest, field);
            push_str(&mut rest, " parameter name cannot be empty");
            let m = request_message(request_id, rest.as_str());
            assert(trim(pv[i as int].name).len() == 0);
            assert(rest@ =~= " "@ + field@ + " parameter name cannot be empty"@);
            return Err(m);
        }
        out.push(RequestParam { name, value: params[i].value.clone(), has_equals: params[i].has_equals });
        i = i + 1;
    }
    assert(out.deep_view() =~= pv.map_values(|p: ParamView| trimmed_param(p)));
    Ok(out)
}

/// Whether a path, read with `/` between its parts, has a `..` part.
pub open spec fn has_parent_part(path: Seq<char>) -> bool {
    split(path, '/').contains(".."@)
}

/// An upload is refused when its field or path is blank, or when its path is relative
/// and climbs out through `..`.
pub open spec fn spec_validate_file(id: Seq<char>, f: FileView) -> Option<Seq<char>> {
    if trim(f.field).len() == 0 {
        Some(request_msg(id, " upload file is missing field"@))
    } else if trim(f.path).len() == 0 {
        Some(request_msg(id, " upload file is missing path"@))
    } else if !starts_with(trim(f.path), "/"@) && has_parent_part(trim(f.path)) {
        Some(request_msg(id, " upload file path cannot contain .."@))
    } else {
        None
    }
}

fn has_parent_component(path: &str) -> (r: bool)
    ensures
        r == has_parent_part(path@),
{
    let parts = split_str(path, '/');
    let ghost pv = views(parts@);
    let mut i: usize = 0;
    while i < parts.len()
        invariant
            pv == views(parts@),
            pv == split(path@, '/'),
            i <= pv.len(),
            forall|j: int| 0 <= j < i ==> #[trigger] pv[j] != ".."@,
        decreases pv.len() - i,
    {
        assert(pv[i as int] == parts@[i as int]@);
        if eq_str(parts[i].as_str(), "..") {
            assert(pv.contains(".."@));
            return true;
        }
        i = i + 1;
    }
    false
}

pub fn validate_file(request_id: &str, file: &FileUpload) -> (r: Result<(), String>)
    ensures
        match r {
            Ok(()) => spec_validate_file(request_id@, file@) is None,
            Err(e) => spec_validate_file(request_id@, file@) == Some(e@),
        },
{
    if trim_str(file.field.as_str()).as_str().is_empty() {
        return Err(request_message(request_id, " upload file is missing field"));
    }
    let trimmed = trim_str(file.path.as_str());
    if trimmed.as_str().is_empty() {
        return Err(request_message(request_id, " upload file is missing path"));
    }
    if !starts_with_str(trimmed.as_str(), "/") && has_parent_component(trimmed.as_str()) {
        return Err(request_message(request_id, " upload file path cannot contain .."));
    }
    Ok(())
}

/// Uploads are kept as they are once each passes `spec_validate_file`; the first that
/// does not decides the error.
pub open spec fn first_file_error(id: Seq<char>, fs: Seq<FileView>) -> Option<Seq<char>>
    decreases fs.len(),
{
    if fs.len() == 0 {
        None
    } else {
        match first_file_error(id, fs.drop_last()) {
            Some(e) => Some(e),
            None => spec_validate_file(id, fs.last()),
        }
    }
}

pub fn normalize_files(files: &Vec<FileUpload>, request_id: &str) -> (r: Result<Vec<FileUpload>, String>)
    ensures
        match r {
            Ok(v) => first_file_error(request_id@, files.deep_view()) is None && v.deep_view()
                == files.deep_view(),
            Err(e) => first_file_error(request_id@, files.deep_view()) == Some(e@),
        },
{
    let ghost fv = files.deep_view();
    let mut out: Vec<FileUpload> = Vec::new();
    let mut i: usize = 0;
    assert(fv.take(0) =~= Seq::<FileView>::empty());
    while i < files.len()
        invariant
            fv == files.deep_view(),
            i <= fv.len(),
            first_file_error(request_id@, fv.take(i as int)) is None,
            out.deep_view() == fv.take(i as int),
        decreases fv.len() - i,
    {
        assert(fv.take(i + 1).drop_last() =~= fv.take(i as int));
        assert(fv.take(i + 1).last() == files@[i as int]@);
        match validate_file(request_id, &files[i]) {
            Ok(()) => {},
            Err(e) => {
                proof {
                    lemma_first_file_error_prefix(request_id@, fv, i as int + 1);
                }
                return Err(e);
            },
        }
        let ghost before = out.deep_view();
        let f = files[i].clone();
        out.push(f);
        assert(out.deep_view() =~= before.push(f@));
        assert(out.deep_view() =~= fv.take(i + 1));
        i = i + 1;
    }
    assert(fv.take(fv.len() as int) =~= fv);
    Ok(out)
}

proof fn lemma_first_file_error_prefix(id: Seq<char>, fs: Seq<FileView>, k: int)
    requires
        0 <= k <= fs.len(),
        first_file_error(id, fs.take(k)) is Some,
    ensures
        first_file_error(id, fs) == first_file_error(id, fs.take(k)),
    decreases fs.len() - k,
{
    if k < fs.len() {
        assert(fs.take(k + 1).drop_last() =~= fs.take(k));
        lemma_first_file_error_prefix(id, fs, k + 1);
    } else {
        assert(fs.take(k) =~= fs);
    }
}


/// One extraction: its variable name normalized and its path trimmed, neither blank.
pub open spec fn spec_normalize_extract(e: (Seq<char>, Seq<char>), id: Seq<char>) -> Result<
    (Seq<char>, Seq<char>),
    Seq<char>,
> {
    match spec_variable_name(e.0) {
        None => Err(request_msg(id, " has an invalid response extraction variable: "@ + e.0)),
        Some(v) => if trim(e.1).len() == 0 {
            Err(request_msg(id, " response extraction is missing path"@))
        } else {
            Ok((v, trim(e.1)))
        },
    }
}

/// Extractions normalized in order; the first bad one, or the first that repeats a
/// variable, decides the error.
pub open spec fn spec_normalize_extracts(es: Seq<(Seq<char>, Seq<char>)>, id: Seq<char>) -> Result<
    Seq<(Seq<char>, Seq<char>)>,
    Seq<char>,
>
    decreases es.len(),
{
    if es.len() == 0 {
        Ok(Seq::empty())
    } else {
        match spec_normalize_extracts(es.drop_last(), id) {
            Err(e) => Err(e),
            Ok(done) => match spec_normalize_extract(es.last(), id) {
                Err(e) => Err(e),
                Ok(x) => if exists|j: int| 0 <= j < done.len() && (#[trigger] done[j]).0 == x.0 {
                    Err(request_msg(id, " declares response extraction variable more than once: "@ + x.0))
                } else {
                    Ok(done.push(x))
                },
            },
        }
    }
}

proof fn lemma_extracts_error_stays(es: Seq<(Seq<char>, Seq<char>)>, id: Seq<char>, k: int)
    requires
        0 <= k <= es.len(),
        spec_normalize_extracts(es.take(k), id) is Err,
    ensures
        spec_normalize_extracts(es, id) == spec_normalize_extracts(es.take(k), id),
    decreases es.len() - k,
{
    if k < es.len() {
        assert(es.take(k + 1).drop_last() =~= es.take(k));
        lemma_extracts_error_stays(es, id, k + 1);
    } else {
        assert(es.take(k) =~= es);
    }
}

pub fn normalize_extract(request_id: &str, extract: &ResponseExtract) -> (r: Result<ResponseExtract, String>)
    ensures
        match r {
            Ok(x) => spec_normalize_extract(extract@, request_id@) == Ok::<
                (Seq<char>, Seq<char>),
                Seq<char>,
            >(x@),
            Err(e) => spec_normalize_extract(extract@, request_id@) == Err::<
                (Seq<char>, Seq<char>),
                Seq<char>,
            >(e@),
        },
{
    let variable = match normalize_variable_name(extract.variable.as_str()) {
        Some(v) => v,
        None => {
            return Err(
                request_message_with(
                    request_id,
                    " has an invalid response extraction variable: ",
                    extract.variable.as_str(),
                ),
            );
        },
    };
    let path = trim_str(extract.path.as_str());
    if path.as_str().is_empty() {
        return Err(request_message(request_id, " response extraction is missing path"));
    }
    Ok(ResponseExtract { variable, path })
}

fn has_variable(extracts: &Vec<ResponseExtract>, name: &str) -> (r: bool)
    ensures
        r == exists|j: int| 0 <= j < extracts.deep_view().len() && (#[trigger] extracts.deep_view()[j]).0 == name@,
{
    let ghost ev = extracts.deep_view();
    let mut j: usize = 0;
    while j < extracts.len()
        invariant
            ev == extracts.deep_view(),
            j <= ev.len(),
            forall|k: int| 0 <= k < j ==> (#[trigger] ev[k]).0 != name@,
        decreases ev.len() - j,
    {
        assert(ev[j as int] == extracts@[j as int]@);
        if eq_str(extracts[j].variable.as_str(), name) {
            return true;
        }
        j = j + 1;
    }
    false
}

pub fn normalize_extracts(extracts: &Vec<ResponseExtract>, request_id: &str) -> (r: Result<
    Vec<ResponseExtract>,
    String,
>)
    ensures
        match r {
            Ok(v) => spec_normalize_extracts(extracts.deep_view(), request_id@) == Ok::<
                Seq<(Seq<char>, Seq<char>)>,
                Seq<char>,
            >(v.deep_view()),
            Err(e) => spec_normalize_extracts(extracts.deep_view(), request_id@) == Err::<
                Seq<(Seq<char>, Seq<char>)>,
                Seq<char>,
            >(e@),
        },
{
    let ghost ev = extracts.deep_view();
    let mut out: Vec<ResponseExtract> = Vec::new();
    let mut i: usize = 0;
    assert(ev.take(0) =~= Seq::<(Seq<char>, Seq<char>)>::empty());
    assert(out.deep_view() =~= Seq::<(Seq<char>, Seq<char>)>::empty());
    while i < extracts.len()
        invariant
            ev == extracts.deep_view(),
            i <= ev.len(),
            spec_normalize_extracts(ev.take(i as int), request_id@) == Ok::<
                Seq<(Seq<char>, Seq<char>)>,
                Seq<char>,
            >(out.deep_view()),
        decreases ev.len() - i,
    {
        assert(ev.take(i + 1).drop_last() =~= ev.take(i as int));
        assert(ev.take(i + 1).last() == extracts@[i as int]@);
        let x = match normalize_extract(request_id, &extracts[i]) {
            Ok(x) => x,
            Err(e) => {
                proof {
                    lemma_extracts_error_stays(ev, request_id@, i + 1);
                }
                return Err(e);
            },
        };
        let ghost done = out.deep_view();
        if has_variable(&out, x.variable.as_str()) {
            proof {
                lemma_extracts_error_stays(ev, request_id@, i + 1);
            }
            return Err(
                request_message_with(
                    request_id,
                    " declares response extraction variable more than once: ",
                    x.variable.as_str(),
                ),
            );
        }
        out.push(x);
        assert(out.deep_view() =~= done.push(x@));
        i = i + 1;
    }
    assert(ev.take(ev.len() as int) =~= ev);
    Ok(out)
}


/// What `HeaderName::from_bytes` accepts: 1 to 65535 bytes, each a token character.
pub open spec fn header_name_allowed(name: Seq<char>) -> bool {
    is_token(name) && name.len() <= 65535
}

/// A character that `HeaderValue::from_str` accepts: a tab, or any but the control
/// characters below a space and DEL.
pub open spec fn header_value_char(c: char) -> bool {
    c == '\t' || (c as u32 >= 32 && c as u32 != 127)
}

pub open spec fn header_value_allowed(value: Seq<char>) -> bool {
    forall|i: int| 0 <= i < value.len() ==> header_value_char(#[trigger] value[i])
}

/// `reqwest::header::HeaderName::from_bytes` (the http crate's) on the bytes of `name`.
/// Its table `HEADER_CHARS` maps exactly the token characters to non-zero bytes, and it
/// takes 1 to 65535 bytes; a non-ASCII character encodes to bytes of 128 or more, which the
/// table refuses. Its error displays as `invalid HTTP header name`.
#[verifier::external_body]
pub(crate) fn check_header_name(name: &str) -> (r: Result<(), String>)
    ensures
        r is Ok <==> header_name_allowed(name@),
        r matches Err(e) ==> e@ == "invalid HTTP header name"@,
{
    match reqwest::header::HeaderName::from_bytes(name.as_bytes()) {
        Ok(_) => Ok(()),
        Err(error) => Err(error.to_string()),
    }
}

/// `reqwest::header::HeaderValue::from_str` (the http crate's): refuses a text with a byte
/// below 32 other than a tab, or the byte 127; a non-ASCII character encodes to bytes of
/// 128 or more, which it takes. Its error displays as `failed to parse header value`.
#[verifier::external_body]
pub(crate) fn check_header_value(value: &str) -> (r: Result<(), String>)
    ensures
        r is Ok <==> header_value_allowed(value@),
        r matches Err(e) ==> e@ == "failed to parse header value"@,
{
    match reqwest::header::HeaderValue::from_str(value) {
        Ok(_) => Ok(()),
        Err(error) => Err(error.to_string()),
    }
}

/// One header: its name trimmed and valid, its value valid and on one line, then trimmed.
pub open spec fn spec_normalize_header(h: (Seq<char>, Seq<char>)) -> Result<(Seq<char>, Seq<char>), Seq<char>> {
    let name = trim(h.0);
    if name.len() == 0 {
        Err("Header name cannot be empty"@)
    } else if !header_name_allowed(name) {
        Err("Invalid Header name ("@ + name + "): "@ + "invalid HTTP header name"@)
    } else if !header_value_allowed(h.1) {
        Err("Invalid Header value ("@ + name + "): "@ + "failed to parse header value"@)
    } else if h.1.contains('\n') || h.1.contains('\r') {
        Err("Header value must not contain line breaks ("@ + name + ")"@)
    } else {
        Ok((name, trim(h.1)))
    }
}

/// Headers normalized in order; the first bad one decides the error.
pub open spec fn spec_normalize_headers(hs: Seq<(Seq<char>, Seq<char>)>) -> Result<
    Seq<(Seq<char>, Seq<char>)>,
    Seq<char>,
>
    decreases hs.len(),
{
    if hs.len() == 0 {
        Ok(Seq::empty())
    } else {
        match spec_normalize_headers(hs.drop_last()) {
            Err(e) => Err(e),
            Ok(done) => match spec_normalize_header(hs.last()) {
                Err(e) => Err(e),
                Ok(h) => Ok(done.push(h)),
            },
        }
    }
}

proof fn lemma_headers_error_stays(hs: Seq<(Seq<char>, Seq<char>)>, k: int)
    requires
        0 <= k <= hs.len(),
        spec_normalize_headers(hs.take(k)) is Err,
    ensures
        spec_normalize_headers(hs) == spec_normalize_headers(hs.take(k)),
    decreases hs.len() - k,
{
    if k < hs.len() {
        assert(hs.take(k + 1).drop_last() =~= hs.take(k));
        lemma_headers_error_stays(hs, k + 1);
    } else {
        assert(hs.take(k) =~= hs);
    }
}

fn wrapped(before: &str, name: &str, after: &str) -> (r: String)
    ensures
        r@ == before@ + name@ + after@,
{
    let mut m = copy_str(before);
    push_str(&mut m, name);
    push_str(&mut m, after);
    m
}

pub fn normalize_header(header: &NameValue) -> (r: Result<NameValue, String>)
    ensures
        match r {
            Ok(h) => spec_normalize_header(header@) == Ok::<(Seq<char>, Seq<char>), Seq<char>>(h@),
            Err(e) => spec_normalize_header(header@) == Err::<(Seq<char>, Seq<char>), Seq<char>>(e@),
        },
{
    let name = trim_str(header.name.as_str());
    if name.as_str().is_empty() {
        return Err(copy_str("Header name cannot be empty"));
    }
    match check_header_name(name.as_str()) {
        Ok(()) => {},
        Err(error) => {
            let mut m = wrapped("Invalid Header name (", name.as_str(), "): ");
            push_str(&mut m, error.as_str());
            assert(m@ =~= "Invalid Header name ("@ + name@ + "): "@ + "invalid HTTP header name"@);
            return Err(m);
        },
    }
    match check_header_value(header.value.as_str()) {
        Ok(()) => {},
        Err(error) => {
            let mut m = wrapped("Invalid Header value (", name.as_str(), "): ");
            push_str(&mut m, error.as_str());
            assert(m@ =~= "Invalid Header value ("@ + name@ + "): "@ + "failed to parse header value"@);
            return Err(m);
        },
    }
    if contains_char(header.value.as_str(), '\n') || contains_char(header.value.as_str(), '\r') {
        return Err(wrapped("Header value must not contain line breaks (", name.as_str(), ")"));
    }
    Ok(NameValue { name, value: trim_str(header.value.as_str()) })
}

pub fn normalize_headers(headers: &Vec<NameValue>) -> (r: Result<Vec<NameValue>, String>)
    ensures
        match r {
            Ok(v) => spec_normalize_headers(headers.deep_view()) == Ok::<
                Seq<(Seq<char>, Seq<char>)>,
                Seq<char>,
            >(v.deep_view()),
            Err(e) => spec_normalize_headers(headers.deep_view()) == Err::<
                Seq<(Seq<char>, Seq<char>)>,
                Seq<char>,
            >(e@),
        },
{
    let ghost hv = headers.deep_view();
    let mut out: Vec<NameValue> = Vec::new();
    let mut i: usize = 0;
    assert(hv.take(0) =~= Seq::<(Seq<char>, Seq<char>)>::empty());
    assert(out.deep_view() =~= Seq::<(Seq<char>, Seq<char>)>::empty());
    while i < headers.len()
        invariant
            hv == headers.deep_view(),
            i <= hv.len(),
            spec_normalize_headers(hv.take(i as int)) == Ok::<Seq<(Seq<char>, Seq<char>)>, Seq<char>>(
                out.deep_view(),
            ),
        decreases hv.len() - i,
    {
        assert(hv.take(i + 1).drop_last() =~= hv.take(i as int));
        assert(hv.take(i + 1).last() == headers@[i as int]@);
        let h = match normalize_header(&headers[i]) {
            Ok(h) => h,
            Err(e) => {
                proof {
                    lemma_headers_error_stays(hv, i + 1);
                }
                return Err(e);
            },
        };
        let ghost done = out.deep_view();
        out.push(h);
        assert(out.deep_view() =~= done.push(h@));
        i = i + 1;
    }
    assert(hv.take(hv.len() as int) =~= hv);
    Ok(out)
}

pub open spec fn spec_normalize_method(value: Seq<char>, id: Seq<char>) -> Result<Seq<char>, Seq<char>> {
    match spec_parse_method(value) {
        Some(m) => Ok(m),
        None => Err(request_msg(id, " has an invalid method: "@ + value)),
    }
}

pub fn normalize_method(value: &str, request_id: &str) -> (r: Result<String, String>)
    ensures
        match r {
            Ok(m) => spec_normalize_method(value@, request_id@) == Ok::<Seq<char>, Seq<char>>(m@),
            Err(e) => spec_normalize_method(value@, request_id@) == Err::<Seq<char>, Seq<char>>(e@),
        },
{
    match parse(value) {
        Some(m) => Ok(m),
        None => Err(request_message_with(request_id, " has an invalid method: ", value)),
    }
}


/// The index of the first `-` or `_` at or after `i`, or -1.
pub open spec fn separator_from(s: Seq<char>, i: int) -> int
    decreases s.len() - i,
{
    if i < 0 || i >= s.len() {
        -1
    } else if s[i] == '-' || s[i] == '_' {
        i
    } else {
        separator_from(s, i + 1)
    }
}

pub open spec fn is_ascii_digit(c: char) -> bool {
    '0' <= c && c <= '9'
}

/// The name shown for a request that gives none: its file's stem, less a leading
/// number and separator such as `01-`, and `request` where the path has no stem.
pub open spec fn spec_display_name(path: Seq<char>) -> Seq<char> {
    display_from_stem(stem_for(path))
}

/// The stem that names a request file: `request` where the path has none.
pub open spec fn stem_for(path: Seq<char>) -> Seq<char> {
    match file_name(path) {
        Some(n) => if stem_of(n).len() > 0 {
            stem_of(n)
        } else {
            "request"@
        },
        None => "request"@,
    }
}

pub open spec fn numbered(stem: Seq<char>, k: int) -> bool {
    k > 0 && forall|j: int| 0 <= j < k ==> is_ascii_digit(#[trigger] stem[j])
}

pub open spec fn display_from_stem(stem: Seq<char>) -> Seq<char> {
    let k = separator_from(stem, 0);
    if numbered(stem, k) && trim(stem.skip(k + 1)).len() > 0 {
        trim(stem.skip(k + 1))
    } else {
        stem
    }
}

fn digits_before(v: &Vec<char>, k: usize) -> (r: bool)
    requires
        k <= v@.len(),
    ensures
        r == forall|j: int| 0 <= j < k ==> is_ascii_digit(#[trigger] v@[j]),
{
    let mut j: usize = 0;
    while j < k
        invariant
            k <= v@.len(),
            j <= k,
            forall|i: int| 0 <= i < j ==> is_ascii_digit(#[trigger] v@[i]),
        decreases k - j,
    {
        if !('0' <= v[j] && v[j] <= '9') {
            assert(!is_ascii_digit(v@[j as int]));
            return false;
        }
        j = j + 1;
    }
    true
}

pub fn request_display_name(path: &str) -> (r: String)
    ensures
        r@ == spec_display_name(path@),
{
    let stem: Vec<char> = match path_file_name(path) {
        Some(n) => {
            let s = file_stem_chars(n.as_str());
            if s.len() > 0 {
                s
            } else {
                chars_of("request")
            }
        },
        None => chars_of("request"),
    };
    let mut k: usize = 0;
    while k < stem.len() && stem[k] != '-' && stem[k] != '_'
        invariant
            k <= stem@.len(),
            separator_from(stem@, 0) == separator_from(stem@, k as int),
        decreases stem@.len() - k,
    {
        k = k + 1;
    }
    if k == stem.len() || k == 0 {
        return string_of(stem.as_slice());
    }
    assert(stem@ == stem_for(path@));
    if !digits_before(&stem, k) {
        assert(!numbered(stem@, k as int));
        return string_of(stem.as_slice());
    }
    let mut rest: Vec<char> = Vec::new();
    let mut i: usize = k + 1;
    while i < stem.len()
        invariant
            k < stem@.len(),
            k + 1 <= i <= stem@.len(),
            rest@ == stem@.subrange(k + 1, i as int),
        decreases stem@.len() - i,
    {
        rest.push(stem[i]);
        assert(rest@ =~= stem@.subrange(k + 1, i + 1));
        i = i + 1;
    }
    assert(rest@ =~= stem@.skip(k + 1));
    let display = trim_str(string_of(rest.as_slice()).as_str());
    if display.as_str().is_empty() {
        string_of(stem.as_slice())
    } else {
        display
    }
}


/// The body parts of a request's `body`: none for a missing or empty body, else the one raw part.
pub open spec fn body_parts_of(body: Option<Seq<char>>) -> Seq<PartView> {
    match body {
        Some(b) => if b.len() > 0 {
            seq![PartView::Raw(b)]
        } else {
            Seq::empty()
        },
        None => Seq::empty(),
    }
}

pub open spec fn encoded_parts(ps: Seq<ParamView>) -> Seq<PartView> {
    ps.map_values(|p: ParamView| PartView::UrlEncoded(p))
}

/// A request as its file declares it, checked and normalized: name, method, URL, headers,
/// parameters, form, uploads, extractions and timeout, each refused in that order; the
/// defaults fill in a timeout and a TLS choice that the file leaves out.
pub open spec fn spec_normalize_request(id: Seq<char>, d: RequestDocument, dt: u64, ds: bool) -> Result<
    RequestView,
    Seq<char>,
> {
    let name = if trim(d.name@).len() == 0 {
        spec_display_name(id)
    } else {
        trim(d.name@)
    };
    let url = trim(d.url@);
    match spec_normalize_method(d.method@, id) {
        Err(e) => Err(e),
        Ok(method) => if url.len() == 0 {
            Err(request_msg(id, " is missing url"@))
        } else {
            match spec_normalize_headers(d.headers.deep_view()) {
                Err(e) => Err(e),
                Ok(headers) => match spec_normalize_params(d.params.deep_view(), id, "params"@) {
                    Err(e) => Err(e),
                    Ok(query) => match spec_normalize_params(d.form.deep_view(), id, "form"@) {
                        Err(e) => Err(e),
                        Ok(form) => match first_file_error(id, d.files.deep_view()) {
                            Some(e) => Err(e),
                            None => match spec_normalize_extracts(d.extracts.deep_view(), id) {
                                Err(e) => Err(e),
                                Ok(extracts) => if d.timeout == Some(0u64) {
                                    Err(timeout_msg())
                                } else {
                                    Ok(
                                        RequestView {
                                            id,
                                            name,
                                            method,
                                            url,
                                            timeout_seconds: match d.timeout {
                                                Some(t) => t,
                                                None => dt,
                                            },
                                            skip_ssl_verification: match d.skip_ssl_verification {
                                                Some(b) => b,
                                                None => ds,
                                            },
                                            description: trim(d.description@),
                                            headers,
                                            body_parts: body_parts_of(d.body.deep_view()),
                                            query_parts: encoded_parts(query),
                                            form,
                                            files: d.files.deep_view(),
                                            extracts,
                                        },
                                    )
                                },
                            },
                        },
                    },
                },
            }
        },
    }
}

fn encode_params(params: Vec<RequestParam>) -> (r: Vec<DataPart>)
    ensures
        r.deep_view() == encoded_parts(params.deep_view()),
{
    let ghost pv = params.deep_view();
    let mut out: Vec<DataPart> = Vec::new();
    let mut i: usize = 0;
    while i < params.len()
        invariant
            pv == params.deep_view(),
            i <= pv.len(),
            out@.len() == i,
            forall|j: int| 0 <= j < i ==> #[trigger] out@[j]@ == PartView::UrlEncoded(pv[j]),
        decreases pv.len() - i,
    {
        assert(pv[i as int] == params@[i as int]@);
        out.push(DataPart::UrlEncoded(params[i].clone()));
        i = i + 1;
    }
    assert(out.deep_view() =~= encoded_parts(pv));
    out
}

fn body_parts_from(body: &Option<String>) -> (r: Vec<DataPart>)
    ensures
        r.deep_view() == body_parts_of(body.deep_view()),
{
    match body {
        Some(b) => if b.as_str().is_empty() {
            let v: Vec<DataPart> = Vec::new();
            assert(v.deep_view() =~= Seq::<PartView>::empty());
            v
        } else {
            let v = vec![DataPart::Raw(b.clone())];
            assert(v.deep_view() =~= seq![PartView::Raw(b@)]);
            v
        },
        None => {
            let v: Vec<DataPart> = Vec::new();
            assert(v.deep_view() =~= Seq::<PartView>::empty());
            v
        },
    }
}

/// Checks and normalizes a request read from its file.
pub fn normalize_request(raw: &ParsedRequest, default_timeout_seconds: u64, default_skip_ssl_verification: bool) -> (r: Result<ApiRequest, String>)
    ensures
        match r {
            Ok(req) => spec_normalize_request(
                raw.id@,
                raw.document,
                default_timeout_seconds,
                default_skip_ssl_verification,
            ) == Ok::<RequestView, Seq<char>>(req@),
            Err(e) => spec_normalize_request(
                raw.id@,
                raw.document,
                default_timeout_seconds,
                default_skip_ssl_verification,
            ) == Err::<RequestView, Seq<char>>(e@),
        },
{
    let id = raw.id.clone();
    let d = &raw.document;
    let trimmed_name = trim_str(d.name.as_str());
    let name = if trimmed_name.as_str().is_empty() {
        request_display_name(id.as_str())
    } else {
        trimmed_name
    };
    let method = match normalize_method(d.method.as_str(), id.as_str()) {
        Ok(m) => m,
        Err(e) => return Err(e),
    };
    let url = trim_str(d.url.as_str());
    if url.as_str().is_empty() {
        return Err(request_message(id.as_str(), " is missing url"));
    }
    let headers = match normalize_headers(&d.headers) {
        Ok(h) => h,
        Err(e) => return Err(e),
    };
    let query = match normalize_params(&d.params, id.as_str(), "params") {
        Ok(p) => p,
        Err(e) => return Err(e),
    };
    let form = match normalize_params(&d.form, id.as_str(), "form") {
        Ok(p) => p,
        Err(e) => return Err(e),
    };
    let ghost fv = d.files.deep_view();
    let files = match normalize_files(&d.files, id.as_str()) {
        Ok(f) => f,
        Err(e) => return Err(e),
    };
    let extracts = match normalize_extracts(&d.extracts, id.as_str()) {
        Ok(x) => x,
        Err(e) => return Err(e),
    };
    let timeout_seconds = match d.timeout {
        Some(t) => match validate_timeout(t) {
            Ok(t) => t,
            Err(e) => return Err(e),
        },
        None => default_timeout_seconds,
    };
    let skip_ssl_verification = match d.skip_ssl_verification {
        Some(b) => b,
        None => default_skip_ssl_verification,
    };
    let body_parts = body_parts_from(&d.body);
    let query_parts = encode_params(query);
    let req = ApiRequest {
        id,
        name,
        method,
        url,
        timeout_seconds,
        skip_ssl_verification,
        description: trim_str(d.description.as_str()),
        headers,
        body_parts,
        query_parts,
        form,
        files,
        extracts,
    };
    Ok(req)
}


/// `Scenario <configuration> request <id><rest>`: how the messages about an override begin.
pub open spec fn scenario_msg(configuration: Seq<char>, id: Seq<char>, rest: Seq<char>) -> Seq<char> {
    "Scenario "@ + configuration + " request "@ + id + rest
}

fn scenario_message(configuration: &str, id: &str, rest: &str) -> (r: String)
    ensures
        r@ == scenario_msg(configuration@, id@, rest@),
{
    let mut m = copy_str("Scenario ");
    push_str(&mut m, configuration);
    push_str(&mut m, " request ");
    push_str(&mut m, id);
    push_str(&mut m, rest);
    m
}

pub open spec fn override_view_empty(o: OverrideView) -> bool {
    &&& o.method is None
    &&& o.url is None
    &&& o.timeout_seconds is None
    &&& o.skip_ssl_verification is None
    &&& o.headers is None
    &&& o.query_parts is None
    &&& o.body_parts is None
    &&& o.form is None
    &&& o.files is None
    &&& o.extracts is None
}

pub open spec fn opt_method(m: Option<Seq<char>>, id: Seq<char>) -> Result<Option<Seq<char>>, Seq<char>> {
    match m {
        None => Ok(None),
        Some(v) => match spec_normalize_method(v, id) {
            Ok(x) => Ok(Some(x)),
            Err(e) => Err(e),
        },
    }
}

pub open spec fn opt_headers(h: Option<Seq<(Seq<char>, Seq<char>)>>) -> Result<
    Option<Seq<(Seq<char>, Seq<char>)>>,
    Seq<char>,
> {
    match h {
        None => Ok(None),
        Some(v) => match spec_normalize_headers(v) {
            Ok(x) => Ok(Some(x)),
            Err(e) => Err(e),
        },
    }
}

pub open spec fn opt_params(p: Option<Seq<ParamView>>, id: Seq<char>, field: Seq<char>) -> Result<
    Option<Seq<ParamView>>,
    Seq<char>,
> {
    match p {
        None => Ok(None),
        Some(v) => match spec_normalize_params(v, id, field) {
            Ok(x) => Ok(Some(x)),
            Err(e) => Err(e),
        },
    }
}

pub open spec fn opt_extracts(x: Option<Seq<(Seq<char>, Seq<char>)>>, id: Seq<char>) -> Result<
    Option<Seq<(Seq<char>, Seq<char>)>>,
    Seq<char>,
> {
    match x {
        None => Ok(None),
        Some(v) => match spec_normalize_extracts(v, id) {
            Ok(y) => Ok(Some(y)),
            Err(e) => Err(e),
        },
    }
}

pub open spec fn opt_files_error(f: Option<Seq<FileView>>, id: Seq<char>) -> Option<Seq<char>> {
    match f {
        None => None,
        Some(v) => first_file_error(id, v),
    }
}

pub open spec fn opt_body(b: Option<Seq<char>>) -> Option<Seq<PartView>> {
    match b {
        None => None,
        Some(v) => Some(body_parts_of(Some(v))),
    }
}

pub open spec fn opt_encoded(p: Option<Seq<ParamView>>) -> Option<Seq<PartView>> {
    match p {
        None => None,
        Some(v) => Some(encoded_parts(v)),
    }
}

/// An override as a scenario file declares it, checked and normalized field by field in
/// the order method, URL, headers, parameters, form, uploads, extractions, timeout; one
/// that sets nothing is refused.
pub open spec fn spec_normalize_override(d: RequestOverrideDocument, id: Seq<char>, configuration: Seq<char>) -> Result<
    OverrideView,
    Seq<char>,
> {
    let url = match d.url.deep_view() {
        Some(u) => Some(trim(u)),
        None => None,
    };
    match opt_method(d.method.deep_view(), id) {
        Err(e) => Err(e),
        Ok(method) => if url == Some(Seq::<char>::empty()) {
            Err(scenario_msg(configuration, id, " override url cannot be empty"@))
        } else {
            match opt_headers(d.headers.deep_view()) {
                Err(e) => Err(e),
                Ok(headers) => match opt_params(d.params.deep_view(), id, "params"@) {
                    Err(e) => Err(e),
                    Ok(query) => match opt_params(d.form.deep_view(), id, "form"@) {
                        Err(e) => Err(e),
                        Ok(form) => match opt_files_error(d.files.deep_view(), id) {
                            Some(e) => Err(e),
                            None => match opt_extracts(d.extracts.deep_view(), id) {
                                Err(e) => Err(e),
                                Ok(extracts) => if d.timeout == Some(0u64) {
                                    Err(timeout_msg())
                                } else {
                                    let o = OverrideView {
                                        method,
                                        url,
                                        timeout_seconds: d.timeout,
                                        skip_ssl_verification: d.skip_ssl_verification,
                                        headers,
                                        query_parts: opt_encoded(query),
                                        body_parts: opt_body(d.body.deep_view()),
                                        form,
                                        files: d.files.deep_view(),
                                        extracts,
                                    };
                                    if override_view_empty(o) {
                                        Err(scenario_msg(configuration, id, " override cannot be empty"@))
                                    } else {
                                        Ok(o)
                                    }
                                },
                            },
                        },
                    },
                },
            }
        },
    }
}

/// Checks and normalizes an override of request `request_id` in scenario `configuration`.
pub fn normalize_override(raw: &RequestOverrideDocument, request_id: &str, configuration: &str) -> (r: Result<
    RequestOverride,
    String,
>)
    ensures
        match r {
            Ok(o) => spec_normalize_override(*raw, request_id@, configuration@) == Ok::<
                OverrideView,
                Seq<char>,
            >(o@),
            Err(e) => spec_normalize_override(*raw, request_id@, configuration@) == Err::<
                OverrideView,
                Seq<char>,
            >(e@),
        },
{
    let method = match &raw.method {
        Some(m) => match normalize_method(m.as_str(), request_id) {
            Ok(x) => Some(x),
            Err(e) => return Err(e),
        },
        None => None,
    };
    let url = match &raw.url {
        Some(u) => Some(trim_str(u.as_str())),
        None => None,
    };
    if let Some(u) = &url {
        if u.as_str().is_empty() {
            assert(u@ =~= Seq::<char>::empty());
            return Err(scenario_message(configuration, request_id, " override url cannot be empty"));
        }
    }
    let headers = match &raw.headers {
        Some(h) => match normalize_headers(h) {
            Ok(x) => Some(x),
            Err(e) => return Err(e),
        },
        None => None,
    };
    let query = match &raw.params {
        Some(p) => match normalize_params(p, request_id, "params") {
            Ok(x) => Some(x),
            Err(e) => return Err(e),
        },
        None => None,
    };
    let form = match &raw.form {
        Some(p) => match normalize_params(p, request_id, "form") {
            Ok(x) => Some(x),
            Err(e) => return Err(e),
        },
        None => None,
    };
    let files = match &raw.files {
        Some(f) => match normalize_files(f, request_id) {
            Ok(x) => Some(x),
            Err(e) => return Err(e),
        },
        None => None,
    };
    let extracts = match &raw.extracts {
        Some(x) => match normalize_extracts(x, request_id) {
            Ok(y) => Some(y),
            Err(e) => return Err(e),
        },
        None => None,
    };
    let timeout_seconds = match raw.timeout {
        Some(t) => match validate_timeout(t) {
            Ok(t) => Some(t),
            Err(e) => return Err(e),
        },
        None => None,
    };
    let body_parts = match &raw.body {
        Some(b) => {
            let copy = Some(b.clone());
            Some(body_parts_from(&copy))
        },
        None => None,
    };
    let query_parts = match query {
        Some(q) => Some(encode_params(q)),
        None => None,
    };
    let request_override = RequestOverride {
        method,
        url,
        timeout_seconds,
        skip_ssl_verification: raw.skip_ssl_verification,
        headers,
        query_parts,
        body_parts,
        form,
        files,
        extracts,
    };
    if request_override.is_empty() {
        return Err(scenario_message(configuration, request_id, " override cannot be empty"));
    }
    Ok(request_override)
}

} // verus!
