//! What the request log may show of a value: fields with sensitive names are hidden, known
//! secrets are replaced, and long values are cut.
use vstd::prelude::*;
use vstd::string::StringSliceAdditionalSpecFns;
use vstd::utf8::{encode_scalar, encode_utf8};
use crate::text::{
    chars_of, contains, contains_str, copy_str, decimal, decimal_string, join, join_strs,
    lower_seq, matches_at, matches_here, push_char, push_str, split, split_once, split_once_str,
    split_str, string_of, to_lower_str, views,
};
use crate::curl_import::{json_parses, parses_as_json};
use crate::response_search::{lossy_text, utf8_lossy};

verus! {

/// The longest value, in UTF-8 bytes, that the log shows whole.
pub const MAX_LOG_VALUE_BYTES: usize = 65536;

/// What stands in the log for a hidden value.
pub open spec fn hidden() -> Seq<char> {
    "<已隐藏>"@
}

/// The characters of a name without `-`, `_` and spaces.
pub open spec fn without_separators(s: Seq<char>) -> Seq<char>
    decreases s.len(),
{
    if s.len() == 0 {
        s
    } else {
        let rest = without_separators(s.drop_last());
        let c = s.last();
        if c == '-' || c == '_' || c == ' ' {
            rest
        } else {
            rest.push(c)
        }
    }
}

/// A field whose name, in lower case, mentions authorization, a cookie, a token, a secret or
/// a password, or, without separators, an API key.
pub open spec fn spec_is_sensitive_name(name: Seq<char>) -> bool {
    let n = lower_seq(name);
    contains(n, "authorization"@) || contains(n, "cookie"@) || contains(n, "token"@) || contains(
        n,
        "secret"@,
    ) || contains(n, "password"@) || contains(without_separators(n), "apikey"@)
}

fn strip_separators(s: &str) -> (r: String)
    ensures
        r@ == without_separators(s@),
{
    let v = chars_of(s);
    let mut out = String::new();
    let mut i: usize = 0;
    while i < v.len()
        invariant
            i <= v@.len(),
            v@ == s@,
            out@ == without_separators(v@.take(i as int)),
        decreases v@.len() - i,
    {
        let c = v[i];
        proof {
            assert(v@.take(i + 1).drop_last() =~= v@.take(i as int));
            assert(v@.take(i + 1).last() == c);
        }
        if c != '-' && c != '_' && c != ' ' {
            push_char(&mut out, c);
        }
        i = i + 1;
    }
    assert(v@.take(i as int) =~= v@);
    out
}

pub fn is_sensitive_name(name: &str) -> (r: bool)
    ensures
        r == spec_is_sensitive_name(name@),
{
    let n = to_lower_str(name);
    let c = strip_separators(n.as_str());
    contains_str(n.as_str(), "authorization") || contains_str(n.as_str(), "cookie")
        || contains_str(n.as_str(), "token") || contains_str(n.as_str(), "secret")
        || contains_str(n.as_str(), "password") || contains_str(c.as_str(), "apikey")
}

/// The UTF-8 length of a text.
pub open spec fn byte_len(s: Seq<char>) -> nat {
    encode_utf8(s).len()
}

/// `k` is where a long text is cut: the first character that starts at or beyond the limit,
/// or the end when none does.
pub open spec fn is_cut(s: Seq<char>, k: int) -> bool {
    &&& 0 <= k <= s.len()
    &&& k < s.len() ==> byte_len(s.take(k)) >= MAX_LOG_VALUE_BYTES
    &&& forall|j: int| 0 <= j < k ==> #[trigger] byte_len(s.take(j)) < MAX_LOG_VALUE_BYTES
}

pub open spec fn cut(s: Seq<char>) -> int {
    choose|k: int| is_cut(s, k)
}

/// A value as the log shows it: whole when it fits, else cut, with its length in bytes.
pub open spec fn spec_log_text(s: Seq<char>) -> Seq<char> {
    if byte_len(s) <= MAX_LOG_VALUE_BYTES {
        s
    } else {
        s.take(cut(s)) + "…<日志字段已截断，原始长度 "@ + decimal(byte_len(s)) + " 字节>"@
    }
}

proof fn lemma_encode_push(s: Seq<char>, c: char)
    ensures
        encode_utf8(s.push(c)) == encode_utf8(s) + encode_scalar(c as u32),
    decreases s.len(),
{
    if s.len() == 0 {
        assert(s.push(c).drop_first() =~= Seq::<char>::empty());
        assert(encode_utf8(Seq::<char>::empty()) =~= Seq::<u8>::empty());
        assert(encode_utf8(s) =~= Seq::<u8>::empty());
        assert(encode_utf8(s.push(c)) =~= encode_scalar(c as u32) + Seq::<u8>::empty());
    } else {
        lemma_encode_push(s.drop_first(), c);
        assert(s.push(c).drop_first() =~= s.drop_first().push(c));
        assert(s.push(c)[0] == s[0]);
        assert(encode_utf8(s.push(c)) =~= encode_scalar(s[0] as u32) + encode_utf8(s.drop_first().push(c)));
    }
}

fn utf8_width(c: char) -> (r: usize)
    ensures
        r == encode_scalar(c as u32).len(),
        1 <= r <= 4,
{
    proof {
        vstd::utf8::char_is_scalar(c);
    }
    let u = c as u32;
    if u < 0x80 {
        1
    } else if u < 0x800 {
        2
    } else if u < 0x10000 {
        3
    } else {
        4
    }
}

fn cut_position(v: &[char]) -> (r: usize)
    ensures
        is_cut(v@, r as int),
        r == cut(v@),
{
    let mut i: usize = 0;
    let mut off: usize = 0;
    assert(v@.take(0) =~= Seq::<char>::empty());
    assert(encode_utf8(Seq::<char>::empty()) =~= Seq::<u8>::empty());
    while i < v.len() && off < MAX_LOG_VALUE_BYTES
        invariant
            i <= v@.len(),
            off == byte_len(v@.take(i as int)),
            forall|j: int| 0 <= j < i ==> #[trigger] byte_len(v@.take(j)) < MAX_LOG_VALUE_BYTES,
        decreases v@.len() - i,
    {
        let w = utf8_width(v[i]);
        proof {
            lemma_encode_push(v@.take(i as int), v@[i as int]);
            assert(v@.take(i + 1) =~= v@.take(i as int).push(v@[i as int]));
        }
        off = off + w;
        i = i + 1;
    }
    proof {
        assert(is_cut(v@, i as int));
        let k = cut(v@);
        assert(is_cut(v@, k));
        if k < i {
            assert(byte_len(v@.take(k)) < MAX_LOG_VALUE_BYTES);
        } else if k > i {
            assert(byte_len(v@.take(i as int)) < MAX_LOG_VALUE_BYTES);
        }
    }
    i
}

pub fn log_text(value: &str) -> (r: String)
    ensures
        r@ == spec_log_text(value@),
{
    let total = value.as_bytes().len();
    assert(total == byte_len(value@)) by {
        assert(value.spec_bytes() == encode_utf8(value@));
    }
    if total <= MAX_LOG_VALUE_BYTES {
        return copy_str(value);
    }
    let v = chars_of(value);
    let k = cut_position(v.as_slice());
    let mut out = string_of(&v.as_slice()[0..k]);
    assert(v@.subrange(0, k as int) =~= v@.take(k as int));
    push_str(&mut out, "…<日志字段已截断，原始长度 ");
    let n = decimal_string(total as u64);
    push_str(&mut out, n.as_str());
    push_str(&mut out, " 字节>");
    out
}

/// A field as the log shows it: hidden when its name is sensitive.
pub open spec fn spec_log_field_value(name: Seq<char>, value: Seq<char>) -> Seq<char> {
    if spec_is_sensitive_name(name) {
        hidden()
    } else {
        spec_log_text(value)
    }
}

pub fn log_field_value(name: &str, value: &str) -> (r: String)
    ensures
        r@ == spec_log_field_value(name@, value@),
{
    if is_sensitive_name(name) {
        copy_str("<已隐藏>")
    } else {
        log_text(value)
    }
}

/// `rep` before, between and after the characters of `s`: what `str::replace` gives for an
/// empty pattern.
pub open spec fn interleave(s: Seq<char>, rep: Seq<char>) -> Seq<char>
    decreases s.len(),
{
    if s.len() == 0 {
        rep
    } else {
        rep + seq![s[0]] + interleave(s.drop_first(), rep)
    }
}

/// `str::replace`: every occurrence of `pat`, from the left and not overlapping, replaced by
/// `rep`.
pub open spec fn replace_all(s: Seq<char>, pat: Seq<char>, rep: Seq<char>) -> Seq<char>
    decreases s.len(),
{
    if pat.len() == 0 {
        interleave(s, rep)
    } else if s.len() == 0 {
        s
    } else if matches_at(s, pat, 0) {
        rep + replace_all(s.skip(pat.len() as int), pat, rep)
    } else {
        seq![s[0]] + replace_all(s.drop_first(), pat, rep)
    }
}

pub fn replace_str(s: &str, pat: &str, rep: &str) -> (r: String)
    ensures
        r@ == replace_all(s@, pat@, rep@),
{
    let v = chars_of(s);
    let p = chars_of(pat);
    let mut out = String::new();
    let mut i: usize = 0;
    assert(s@.skip(0) =~= s@);
    assert(out@ + interleave(s@, rep@) =~= interleave(s@, rep@));
    assert(out@ + replace_all(s@, pat@, rep@) =~= replace_all(s@, pat@, rep@));
    if p.len() == 0 {
        while i < v.len()
            invariant
                i <= v@.len(),
                v@ == s@,
                p@.len() == 0,
                interleave(s@, rep@) == out@ + interleave(s@.skip(i as int), rep@),
            decreases v@.len() - i,
        {
            proof {
                assert(s@.skip(i as int).drop_first() =~= s@.skip(i + 1));
                assert(s@.skip(i as int)[0] == v@[i as int]);
            }
            push_str(&mut out, rep);
            push_char(&mut out, v[i]);
            proof {
                assert(interleave(s@, rep@) =~= out@ + interleave(s@.skip(i + 1), rep@));
            }
            i = i + 1;
        }
        assert(s@.skip(i as int) =~= Seq::<char>::empty());
        push_str(&mut out, rep);
        return out;
    }
    assert(s@.skip(0) =~= s@);
    while i < v.len()
        invariant
            i <= v@.len(),
            v@ == s@,
            p@ == pat@,
            p@.len() > 0,
            replace_all(s@, pat@, rep@) == out@ + replace_all(s@.skip(i as int), pat@, rep@),
        decreases v@.len() - i,
    {
        let t = Ghost(s@.skip(i as int));
        let here = matches_here(v.as_slice(), p.as_slice(), i);
        proof {
            assert(t@.len() > 0);
            if here {
                assert(t@.subrange(0, p@.len() as int) =~= v@.subrange(i as int, i + p@.len()));
            } else if matches_at(t@, pat@, 0) {
                assert(t@.subrange(0, p@.len() as int) =~= v@.subrange(i as int, i + p@.len()));
            }
        }
        if here {
            push_str(&mut out, rep);
            proof {
                assert(t@.skip(p@.len() as int) =~= s@.skip(i + p@.len()));
            }
            i = i + p.len();
        } else {
            push_char(&mut out, v[i]);
            proof {
                assert(t@.drop_first() =~= s@.skip(i + 1));
                assert(t@[0] == v@[i as int]);
                assert(out@ + replace_all(s@.skip(i + 1), pat@, rep@) =~= (out@.drop_last()) + (seq![v@[i as int]] + replace_all(t@.drop_first(), pat@, rep@)));
            }
            i = i + 1;
        }
    }
    assert(s@.skip(i as int) =~= Seq::<char>::empty());
    assert(out@ + Seq::<char>::empty() =~= out@);
    out
}

/// Every known secret, in order, replaced where it occurs.
pub open spec fn spec_redact_secret_values(value: Seq<char>, secrets: Seq<Seq<char>>) -> Seq<char>
    decreases secrets.len(),
{
    if secrets.len() == 0 {
        value
    } else {
        replace_all(spec_redact_secret_values(value, secrets.drop_last()), secrets.last(), hidden())
    }
}

pub fn redact_secret_values(value: &str, secret_values: &[String]) -> (r: String)
    ensures
        r@ == spec_redact_secret_values(value@, views(secret_values@)),
{
    let ghost secrets = views(secret_values@);
    let mut out = copy_str(value);
    let mut i: usize = 0;
    assert(secrets.take(0) =~= Seq::<Seq<char>>::empty());
    while i < secret_values.len()
        invariant
            i <= secrets.len(),
            secrets == views(secret_values@),
            out@ == spec_redact_secret_values(value@, secrets.take(i as int)),
        decreases secrets.len() - i,
    {
        proof {
            assert(secrets.take(i + 1).drop_last() =~= secrets.take(i as int));
            assert(secrets.take(i + 1).last() == secret_values@[i as int]@);
        }
        out = replace_str(out.as_str(), secret_values[i].as_str(), "<已隐藏>");
        i = i + 1;
    }
    assert(secrets.take(i as int) =~= secrets);
    out
}

/// One `&`-separated part of a form body as the log shows it: a field with a sensitive name
/// hidden, another field's value cut, a part without `=` cut as it stands.
pub open spec fn logged_form_part(part: Seq<char>) -> Seq<char> {
    match split_once(part, "="@) {
        None => spec_log_text(part),
        Some((name, value)) => if spec_is_sensitive_name(name) {
            name + "=<已隐藏>"@
        } else {
            name + "="@ + spec_log_text(value)
        },
    }
}

/// A part that has `=` with nothing before it.
pub open spec fn nameless_field(part: Seq<char>) -> bool {
    match split_once(part, "="@) {
        Some((name, _)) => name.len() == 0,
        None => false,
    }
}

/// A body reads as a form when one of its parts is a field and none is a field without a
/// name; the log shows its parts as `logged_form_part` does, the whole cut.
pub open spec fn spec_log_form_body(body: Seq<char>) -> Option<Seq<char>> {
    let parts = split(body, '&');
    if (exists|i: int| 0 <= i < parts.len() && nameless_field(#[trigger] parts[i]))
        || !(exists|i: int| 0 <= i < parts.len() && (#[trigger] split_once(parts[i], "="@)) is Some) {
        None
    } else {
        Some(spec_log_text(join(parts.map_values(|p: Seq<char>| logged_form_part(p)), "&"@)))
    }
}

fn log_form_part(part: &str) -> (r: (String, bool, bool))
    ensures
        r.0@ == logged_form_part(part@),
        r.1 == (split_once(part@, "="@) is Some),
        r.2 == nameless_field(part@),
{
    match split_once_str(part, "=") {
        None => (log_text(part), false, false),
        Some((name, value)) => {
            let nameless = name.as_str().is_empty();
            let mut out = copy_str(name.as_str());
            if is_sensitive_name(name.as_str()) {
                push_str(&mut out, "=<已隐藏>");
            } else {
                push_str(&mut out, "=");
                let v = log_text(value.as_str());
                push_str(&mut out, v.as_str());
            }
            (out, true, nameless)
        },
    }
}

pub fn log_form_body(body: &str) -> (r: Option<String>)
    ensures
        match r {
            Some(t) => spec_log_form_body(body@) == Some(t@),
            None => spec_log_form_body(body@) is None,
        },
{
    let parts = split_str(body, '&');
    let ghost ps = split(body@, '&');
    let mut fields: Vec<String> = Vec::new();
    let mut has_field = false;
    let mut i: usize = 0;
    while i < parts.len()
        invariant
            i <= ps.len(),
            ps == views(parts@),
            ps == split(body@, '&'),
            views(fields@) == ps.take(i as int).map_values(|p: Seq<char>| logged_form_part(p)),
            has_field == (exists|j: int| 0 <= j < i && (#[trigger] split_once(ps[j], "="@)) is Some),
            forall|j: int| 0 <= j < i ==> !nameless_field(#[trigger] ps[j]),
        decreases ps.len() - i,
    {
        let (text, field, nameless) = log_form_part(parts[i].as_str());
        assert(parts@[i as int]@ == ps[i as int]);
        if nameless {
            assert(nameless_field(ps[i as int]));
            return None;
        }
        if field {
            has_field = true;
        }
        let ghost before = views(fields@);
        fields.push(text);
        proof {
            assert(views(fields@) =~= before.push(logged_form_part(ps[i as int])));
            assert(ps.take(i + 1).map_values(|p: Seq<char>| logged_form_part(p)) =~= ps.take(i as int).map_values(
                |p: Seq<char>| logged_form_part(p),
            ).push(logged_form_part(ps[i as int])));
        }
        i = i + 1;
    }
    if !has_field {
        return None;
    }
    assert(ps.take(i as int) =~= ps);
    let joined = join_strs(fields.as_slice(), "&");
    Some(log_text(joined.as_str()))
}

/// One query part of a URL as the log shows it: a sensitive parameter hidden, another
/// parameter's value cut, a part without `=` as it stands.
pub open spec fn logged_query_part(part: Seq<char>) -> Seq<char> {
    match split_once(part, "="@) {
        None => part,
        Some((name, value)) => if spec_is_sensitive_name(name) {
            name + "=<已隐藏>"@
        } else {
            name + "="@ + spec_log_text(value)
        },
    }
}

/// A URL as the log shows it: its query parameters as `logged_query_part` does, the whole
/// cut.
pub open spec fn spec_log_url(url: Seq<char>) -> Seq<char> {
    match split_once(url, "?"@) {
        None => spec_log_text(url),
        Some((path, query)) => spec_log_text(
            path + "?"@ + join(split(query, '&').map_values(|p: Seq<char>| logged_query_part(p)), "&"@),
        ),
    }
}

pub fn log_url(url: &str) -> (r: String)
    ensures
        r@ == spec_log_url(url@),
{
    let (path, query) = match split_once_str(url, "?") {
        None => return log_text(url),
        Some(pq) => pq,
    };
    let parts = split_str(query.as_str(), '&');
    let ghost ps = split(query@, '&');
    let mut logged: Vec<String> = Vec::new();
    let mut i: usize = 0;
    while i < parts.len()
        invariant
            i <= ps.len(),
            ps == views(parts@),
            views(logged@) == ps.take(i as int).map_values(|p: Seq<char>| logged_query_part(p)),
        decreases ps.len() - i,
    {
        let part = parts[i].as_str();
        assert(part@ == ps[i as int]);
        let text = match split_once_str(part, "=") {
            None => copy_str(part),
            Some((name, value)) => {
                let mut out = copy_str(name.as_str());
                if is_sensitive_name(name.as_str()) {
                    push_str(&mut out, "=<已隐藏>");
                } else {
                    push_str(&mut out, "=");
                    let v = log_text(value.as_str());
                    push_str(&mut out, v.as_str());
                }
                out
            },
        };
        let ghost before = views(logged@);
        logged.push(text);
        proof {
            assert(views(logged@) =~= before.push(logged_query_part(ps[i as int])));
            assert(ps.take(i + 1).map_values(|p: Seq<char>| logged_query_part(p)) =~= ps.take(i as int).map_values(
                |p: Seq<char>| logged_query_part(p),
            ).push(logged_query_part(ps[i as int])));
        }
        i = i + 1;
    }
    assert(ps.take(i as int) =~= ps);
    let joined = join_strs(logged.as_slice(), "&");
    let mut whole = copy_str(path.as_str());
    push_str(&mut whole, "?");
    push_str(&mut whole, joined.as_str());
    log_text(whole.as_str())
}

/// What the log shows of a body too long to look at.
pub open spec fn omitted(len: nat) -> Seq<char> {
    "<日志字段已省略，原始长度 "@ + decimal(len) + " 字节>"@
}

fn omitted_text(len: usize) -> (r: String)
    ensures
        r@ == omitted(len as nat),
{
    let mut out = copy_str("<日志字段已省略，原始长度 ");
    let n = decimal_string(len as u64);
    push_str(&mut out, n.as_str());
    push_str(&mut out, " 字节>");
    out
}

/// A body as the log shows it. `json` is the text of the body's JSON with its sensitive
/// fields hidden (`redact_json_value`), written out again; it counts only when the body
/// reads as JSON. A body over the limit is left out; JSON is shown cut; a form as
/// `spec_log_form_body` shows it; any other text cut.
pub open spec fn spec_log_body(body: Seq<char>, json: Option<Seq<char>>) -> Seq<char> {
    if byte_len(body) > MAX_LOG_VALUE_BYTES {
        omitted(byte_len(body))
    } else if json_parses(body) && json is Some {
        spec_log_text(json->0)
    } else {
        match spec_log_form_body(body) {
            Some(f) => f,
            None => spec_log_text(body),
        }
    }
}

pub fn log_body(body: &str, json: Option<&str>) -> (r: String)
    ensures
        r@ == spec_log_body(body@, match json {
            Some(j) => Some(j@),
            None => None,
        }),
{
    let total = body.as_bytes().len();
    assert(total == byte_len(body@)) by {
        assert(body.spec_bytes() == encode_utf8(body@));
    }
    if total > MAX_LOG_VALUE_BYTES {
        return omitted_text(total);
    }
    if let Some(j) = json {
        if parses_as_json(body) {
            return log_text(j);
        }
    }
    match log_form_body(body) {
        Some(f) => f,
        None => log_text(body),
    }
}

/// Received bytes as the log shows them: left out over the limit, else their text as
/// `spec_log_body` shows it.
pub open spec fn spec_log_body_bytes(body: Seq<u8>, json: Option<Seq<char>>) -> Seq<char> {
    if body.len() > MAX_LOG_VALUE_BYTES {
        omitted(body.len())
    } else {
        spec_log_body(utf8_lossy(body), json)
    }
}

pub fn log_body_bytes(body: &[u8], json: Option<&str>) -> (r: String)
    ensures
        r@ == spec_log_body_bytes(body@, match json {
            Some(j) => Some(j@),
            None => None,
        }),
{
    if body.len() > MAX_LOG_VALUE_BYTES {
        return omitted_text(body.len());
    }
    let text = lossy_text(body);
    log_body(text.as_str(), json)
}

/// A JSON value as the log handles it: numbers keep their text; an object keeps its fields
/// in order.
pub enum JsonValue {
    Null,
    Bool(bool),
    Number(String),
    Text(String),
    Array(Vec<JsonValue>),
    Object(Vec<(String, JsonValue)>),
}

/// A JSON value with its texts as character sequences.
pub enum JsonView {
    Null,
    Bool(bool),
    Number(Seq<char>),
    Text(Seq<char>),
    Array(Seq<JsonView>),
    Object(Seq<(Seq<char>, JsonView)>),
}

pub open spec fn json_view(v: JsonValue) -> JsonView
    decreases v,
{
    match v {
        JsonValue::Null => JsonView::Null,
        JsonValue::Bool(b) => JsonView::Bool(b),
        JsonValue::Number(n) => JsonView::Number(n@),
        JsonValue::Text(t) => JsonView::Text(t@),
        JsonValue::Array(items) => JsonView::Array(items_view(items@)),
        JsonValue::Object(fields) => JsonView::Object(fields_view(fields@)),
    }
}

pub open spec fn items_view(items: Seq<JsonValue>) -> Seq<JsonView>
    decreases items,
{
    if items.len() == 0 {
        Seq::empty()
    } else {
        items_view(items.drop_last()).push(json_view(items.last()))
    }
}

pub open spec fn fields_view(fields: Seq<(String, JsonValue)>) -> Seq<(Seq<char>, JsonView)>
    decreases fields,
{
    if fields.len() == 0 {
        Seq::empty()
    } else {
        fields_view(fields.drop_last()).push((fields.last().0@, json_view(fields.last().1)))
    }
}

/// A JSON value with the value of every field whose name is sensitive hidden, at any depth.
pub open spec fn redacted(v: JsonView) -> JsonView
    decreases v,
{
    match v {
        JsonView::Array(items) => JsonView::Array(redacted_items(items)),
        JsonView::Object(fields) => JsonView::Object(redacted_fields(fields)),
        _ => v,
    }
}

pub open spec fn redacted_items(items: Seq<JsonView>) -> Seq<JsonView>
    decreases items,
{
    if items.len() == 0 {
        items
    } else {
        redacted_items(items.drop_last()).push(redacted(items.last()))
    }
}

pub open spec fn redacted_fields(fields: Seq<(Seq<char>, JsonView)>) -> Seq<(Seq<char>, JsonView)>
    decreases fields,
{
    if fields.len() == 0 {
        fields
    } else {
        let (name, value) = fields.last();
        redacted_fields(fields.drop_last()).push(
            (name, if spec_is_sensitive_name(name) { JsonView::Text(hidden()) } else { redacted(value) }),
        )
    }
}

pub fn redact_json_value(v: &JsonValue) -> (r: JsonValue)
    ensures
        json_view(r) == redacted(json_view(*v)),
    decreases v,
{
    match v {
        JsonValue::Null => JsonValue::Null,
        JsonValue::Bool(b) => JsonValue::Bool(*b),
        JsonValue::Number(n) => JsonValue::Number(copy_str(n.as_str())),
        JsonValue::Text(t) => JsonValue::Text(copy_str(t.as_str())),
        JsonValue::Array(items) => {
            let mut out: Vec<JsonValue> = Vec::new();
            let mut i: usize = 0;
            assert(items@.take(0) =~= Seq::<JsonValue>::empty());
            while i < items.len()
                invariant
                    i <= items@.len(),
                    (*v) is Array && (*v)->Array_0 == *items,
                    items_view(out@) == redacted_items(items_view(items@.take(i as int))),
                decreases items@.len() - i,
            {
                proof {
                    assert(decreases_to!(*v => (*v)->Array_0));
                    assert(decreases_to!(*items => items@));
                    assert(decreases_to!(items@ => items@[i as int]));
                }
                let x = redact_json_value(&items[i]);
                let ghost before = out@;
                out.push(x);
                proof {
                    let s = items_view(items@.take(i as int));
                    assert(items@.take(i + 1).drop_last() =~= items@.take(i as int));
                    assert(items@.take(i + 1).last() == items@[i as int]);
                    assert(items_view(items@.take(i + 1)) == s.push(json_view(items@[i as int])));
                    assert(s.push(json_view(items@[i as int])).drop_last() =~= s);
                    assert(out@.drop_last() =~= before);
                    assert(items_view(out@) == items_view(before).push(json_view(x)));
                }
                i = i + 1;
            }
            assert(items@.take(i as int) =~= items@);
            JsonValue::Array(out)
        },
        JsonValue::Object(fields) => {
            let mut out: Vec<(String, JsonValue)> = Vec::new();
            let mut i: usize = 0;
            assert(fields@.take(0) =~= Seq::<(String, JsonValue)>::empty());
            while i < fields.len()
                invariant
                    i <= fields@.len(),
                    (*v) is Object && (*v)->Object_0 == *fields,
                    fields_view(out@) == redacted_fields(fields_view(fields@.take(i as int))),
                decreases fields@.len() - i,
            {
                let name = &fields[i].0;
                let value = if is_sensitive_name(name.as_str()) {
                    JsonValue::Text(copy_str("<已隐藏>"))
                } else {
                    proof {
                        assert(decreases_to!(*v => (*v)->Object_0));
                        assert(decreases_to!(*fields => fields@));
                        assert(decreases_to!(fields@ => fields@[i as int]));
                        assert(decreases_to!(fields@[i as int] => fields@[i as int].1));
                    }
                    redact_json_value(&fields[i].1)
                };
                let ghost before = out@;
                out.push((copy_str(name.as_str()), value));
                proof {
                    let s = fields_view(fields@.take(i as int));
                    let f = fields@[i as int];
                    assert(fields@.take(i + 1).drop_last() =~= fields@.take(i as int));
                    assert(fields@.take(i + 1).last() == f);
                    assert(fields_view(fields@.take(i + 1)) == s.push((f.0@, json_view(f.1))));
                    assert(s.push((f.0@, json_view(f.1))).drop_last() =~= s);
                    assert(out@.drop_last() =~= before);
                    assert(fields_view(out@) == fields_view(before).push((out@.last().0@, json_view(out@.last().1))));
                }
                i = i + 1;
            }
            assert(fields@.take(i as int) =~= fields@);
            JsonValue::Object(out)
        },
    }
}

/// No field with a sensitive name shows anything but the hidden mark, at any depth.
pub open spec fn nothing_exposed(v: JsonView) -> bool
    decreases v,
{
    match v {
        JsonView::Array(items) => items_exposed_none(items),
        JsonView::Object(fields) => fields_exposed_none(fields),
        _ => true,
    }
}

pub open spec fn items_exposed_none(items: Seq<JsonView>) -> bool
    decreases items,
{
    items.len() == 0 || (items_exposed_none(items.drop_last()) && nothing_exposed(items.last()))
}

pub open spec fn fields_exposed_none(fields: Seq<(Seq<char>, JsonView)>) -> bool
    decreases fields,
{
    fields.len() == 0 || (fields_exposed_none(fields.drop_last()) && ({
        let (name, value) = fields.last();
        if spec_is_sensitive_name(name) {
            value == JsonView::Text(hidden())
        } else {
            nothing_exposed(value)
        }
    }))
}

/// Whatever JSON a body holds, its redacted form shows nothing under a sensitive name but the
/// hidden mark.
pub proof fn law_redacted_json_hides_sensitive_fields(v: JsonView)
    ensures
        nothing_exposed(redacted(v)),
    decreases v,
{
    match v {
        JsonView::Array(items) => lemma_items_hidden(items),
        JsonView::Object(fields) => lemma_fields_hidden(fields),
        _ => {},
    }
}

proof fn lemma_items_hidden(items: Seq<JsonView>)
    ensures
        items_exposed_none(redacted_items(items)),
    decreases items,
{
    if items.len() > 0 {
        lemma_items_hidden(items.drop_last());
        law_redacted_json_hides_sensitive_fields(items.last());
        let r = redacted_items(items);
        assert(r.drop_last() =~= redacted_items(items.drop_last()));
    }
}

proof fn lemma_fields_hidden(fields: Seq<(Seq<char>, JsonView)>)
    ensures
        fields_exposed_none(redacted_fields(fields)),
    decreases fields,
{
    if fields.len() > 0 {
        lemma_fields_hidden(fields.drop_last());
        law_redacted_json_hides_sensitive_fields(fields.last().1);
        let r = redacted_fields(fields);
        assert(r.drop_last() =~= redacted_fields(fields.drop_last()));
    }
}

} // verus!
