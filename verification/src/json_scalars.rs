//! A JSON body's scalar values as the preview edits them one at a time: what the user typed
//! turned back into JSON of the value's kind.
use vstd::prelude::*;
use vstd::string::StringSliceAdditionalSpecFns;
use crate::text::{copy_str, eq_str};

verus! {

/// The kind of a scalar value in a JSON document.
#[derive(PartialEq, Eq, Structural, Clone, Copy, Debug)]
pub enum JsonScalarKind {
    String,
    Number,
    Boolean,
    Null,
}

/// The JSON string literal that `serde_json` writes for a text: quoted, with the characters
/// JSON requires escaped.
pub uninterp spec fn json_string_literal(text: Seq<char>) -> Seq<char>;

/// The text that `serde_json` writes for a number it reads from the input, or `None` when the
/// input is no JSON number.
pub uninterp spec fn json_number_text(input: Seq<char>) -> Option<Seq<char>>;

/// Calls `serde_json::to_string` on a text; the literal is named by `json_string_literal`.
/// Writing a `str` does not fail; were it to, the empty text stands in, so nothing is claimed
/// of that case beyond the name.
#[verifier::external_body]
fn string_literal(text: &str) -> (r: String)
    ensures
        r@ == json_string_literal(text@),
{
    serde_json::to_string(text).unwrap_or_default()
}

/// Reads the input with `serde_json::from_str::<serde_json::Number>` and writes the number
/// back with `to_string`; named by `json_number_text`.
#[verifier::external_body]
fn number_text(input: &str) -> (r: Option<String>)
    ensures
        match r {
            Some(t) => json_number_text(input@) == Some(t@),
            None => json_number_text(input@) is None,
        },
{
    serde_json::from_str::<serde_json::Number>(input).ok().map(|number| number.to_string())
}

/// What the user typed for a value of the given kind, as JSON: a string quoted; a number as
/// `serde_json` writes it; `true` or `false` as typed; `null` only as typed; anything else
/// refused.
pub open spec fn spec_convert_json_scalar(kind: JsonScalarKind, input: Seq<char>) -> Option<Seq<char>> {
    match kind {
        JsonScalarKind::String => Some(json_string_literal(input)),
        JsonScalarKind::Number => json_number_text(input),
        JsonScalarKind::Boolean => if input == "true"@ || input == "false"@ {
            Some(input)
        } else {
            None
        },
        JsonScalarKind::Null => if input == "null"@ {
            Some("null"@)
        } else {
            None
        },
    }
}

/// A boolean takes exactly the two texts `true` and `false`, each as itself, and refuses
/// every other text; `null` takes only the text `null`.
pub proof fn law_boolean_and_null_texts(input: Seq<char>)
    ensures
        spec_convert_json_scalar(JsonScalarKind::Boolean, input) == (if input == seq!['t', 'r', 'u', 'e']
            || input == seq!['f', 'a', 'l', 's', 'e'] {
            Some(input)
        } else {
            None
        }),
        spec_convert_json_scalar(JsonScalarKind::Null, input) == (if input == seq!['n', 'u', 'l', 'l'] {
            Some(input)
        } else {
            None
        }),
{
    reveal_strlit("true");
    reveal_strlit("false");
    reveal_strlit("null");
    assert("true"@ =~= seq!['t', 'r', 'u', 'e']);
    assert("false"@ =~= seq!['f', 'a', 'l', 's', 'e']);
    assert("null"@ =~= seq!['n', 'u', 'l', 'l']);
}

pub fn convert_json_scalar(kind: JsonScalarKind, input: &str) -> (r: Option<String>)
    ensures
        r.deep_view() == spec_convert_json_scalar(kind, input@),
{
    match kind {
        JsonScalarKind::String => Some(string_literal(input)),
        JsonScalarKind::Number => number_text(input),
        JsonScalarKind::Boolean => {
            if eq_str(input, "true") || eq_str(input, "false") {
                Some(copy_str(input))
            } else {
                None
            }
        },
        JsonScalarKind::Null => {
            if eq_str(input, "null") {
                Some(copy_str("null"))
            } else {
                None
            }
        },
    }
}

/// Where a string token that starts before `j` ends: after its closing quote, a backslash
/// taking the next byte with it; the end of the document when it is not closed.
pub open spec fn string_end(b: Seq<u8>, j: int) -> int
    decreases b.len() - j,
{
    if j >= b.len() {
        if j < 0 { 0 } else { j }
    } else if b[j] == 92u8 {
        let n = if j + 2 <= b.len() { j + 2 } else { b.len() as int };
        string_end(b, n)
    } else if b[j] == 34u8 {
        j + 1
    } else {
        string_end(b, j + 1)
    }
}

pub open spec fn is_number_byte(c: u8) -> bool {
    (48u8 <= c <= 57u8) || c == 46u8 || c == 101u8 || c == 69u8 || c == 43u8 || c == 45u8
}

/// Where a number token that goes on at `j` ends.
pub open spec fn number_end(b: Seq<u8>, j: int) -> int
    decreases b.len() - j,
{
    if 0 <= j < b.len() && is_number_byte(b[j]) {
        number_end(b, j + 1)
    } else {
        j
    }
}

pub open spec fn is_ascii_space(c: u8) -> bool {
    c == 32u8 || (9u8 <= c <= 13u8)
}

/// The first byte from `j` on that is not white space.
pub open spec fn skip_space(b: Seq<u8>, j: int) -> int
    decreases b.len() - j,
{
    if 0 <= j < b.len() && is_ascii_space(b[j]) {
        skip_space(b, j + 1)
    } else {
        j
    }
}

pub open spec fn bytes_at(b: Seq<u8>, i: int, w: Seq<u8>) -> bool {
    0 <= i && i + w.len() <= b.len() && b.subrange(i, i + w.len()) == w
}

pub proof fn lemma_ends(b: Seq<u8>, j: int)
    requires
        0 <= j,
    ensures
        j <= string_end(b, j) <= if j <= b.len() { b.len() as int } else { j },
        j <= number_end(b, j),
        number_end(b, j) <= if j <= b.len() { b.len() as int } else { j },
    decreases b.len() - j,
{
    if j < b.len() {
        if b[j] == 92u8 {
            let n = if j + 2 <= b.len() { j + 2 } else { b.len() as int };
            lemma_ends(b, n);
        } else if b[j] != 34u8 {
            lemma_ends(b, j + 1);
        }
        if is_number_byte(b[j]) {
            lemma_ends(b, j + 1);
        }
    }
}

/// The scalar values that the preview can edit, from byte `i` on, each with its byte range
/// and kind: strings that are no object keys (a key's closing quote is followed, after white
/// space, by `:`), numbers, `true`, `false` and `null`. The second part says that the scan
/// meets a byte inside a character outside any string, where the document cannot be cut.
pub open spec fn scan(b: Seq<u8>, i: int) -> (Seq<(int, int, JsonScalarKind)>, bool)
    decreases b.len() - i,
{
    if i < 0 || i >= b.len() {
        (Seq::empty(), false)
    } else {
        let c = b[i];
        if c == 34u8 {
            proof {
                lemma_ends(b, i + 1);
            }
            let e = string_end(b, i + 1);
            let p = skip_space(b, e);
            let rest = scan(b, e);
            if p < b.len() && b[p] == 58u8 {
                rest
            } else {
                (seq![(i, e, JsonScalarKind::String)] + rest.0, rest.1)
            }
        } else if c == 45u8 || (48u8 <= c <= 57u8) {
            proof {
                lemma_ends(b, i + 1);
            }
            let e = number_end(b, i + 1);
            let rest = scan(b, e);
            (seq![(i, e, JsonScalarKind::Number)] + rest.0, rest.1)
        } else if 128u8 <= c <= 191u8 {
            (Seq::empty(), true)
        } else if bytes_at(b, i, seq![116u8, 114u8, 117u8, 101u8]) {
            let rest = scan(b, i + 4);
            (seq![(i, i + 4, JsonScalarKind::Boolean)] + rest.0, rest.1)
        } else if bytes_at(b, i, seq![102u8, 97u8, 108u8, 115u8, 101u8]) {
            let rest = scan(b, i + 5);
            (seq![(i, i + 5, JsonScalarKind::Boolean)] + rest.0, rest.1)
        } else if bytes_at(b, i, seq![110u8, 117u8, 108u8, 108u8]) {
            let rest = scan(b, i + 4);
            (seq![(i, i + 4, JsonScalarKind::Null)] + rest.0, rest.1)
        } else {
            scan(b, i + 1)
        }
    }
}

fn string_end_exec(b: &[u8], j: usize) -> (r: usize)
    requires
        j <= b@.len(),
    ensures
        r == string_end(b@, j as int),
{
    let mut k = j;
    while k < b.len()
        invariant
            j <= k <= b@.len(),
            string_end(b@, j as int) == string_end(b@, k as int),
        decreases b@.len() - k,
    {
        if b[k] == 92u8 {
            k = if b.len() - k >= 2 { k + 2 } else { b.len() };
        } else if b[k] == 34u8 {
            return k + 1;
        } else {
            k = k + 1;
        }
    }
    k
}

fn number_end_exec(b: &[u8], j: usize) -> (r: usize)
    requires
        j <= b@.len(),
    ensures
        r == number_end(b@, j as int),
{
    let mut k = j;
    while k < b.len() && ((48u8 <= b[k] && b[k] <= 57u8) || b[k] == 46u8 || b[k] == 101u8 || b[k] == 69u8 || b[k] == 43u8 || b[k] == 45u8)
        invariant
            j <= k <= b@.len(),
            number_end(b@, j as int) == number_end(b@, k as int),
        decreases b@.len() - k,
    {
        k = k + 1;
    }
    k
}

fn skip_space_exec(b: &[u8], j: usize) -> (r: usize)
    requires
        j <= b@.len(),
    ensures
        r == skip_space(b@, j as int),
{
    let mut k = j;
    while k < b.len() && (b[k] == 32u8 || (9u8 <= b[k] && b[k] <= 13u8))
        invariant
            j <= k <= b@.len(),
            skip_space(b@, j as int) == skip_space(b@, k as int),
        decreases b@.len() - k,
    {
        k = k + 1;
    }
    k
}

fn bytes_at_exec(b: &[u8], i: usize, w: &[u8]) -> (r: bool)
    ensures
        r == bytes_at(b@, i as int, w@),
{
    if i > b.len() || w.len() > b.len() - i {
        return false;
    }
    let mut k: usize = 0;
    while k < w.len()
        invariant
            i + w@.len() <= b@.len(),
            b@.len() == b.len(),
            w@.len() == w.len(),
            k <= w@.len(),
            forall|q: int| 0 <= q < k ==> b@[i + q] == w@[q],
        decreases w@.len() - k,
    {
        if b[i + k] != w[k] {
            assert(b@.subrange(i as int, i + w@.len())[k as int] != w@[k as int]);
            return false;
        }
        k = k + 1;
    }
    assert(b@.subrange(i as int, i + w@.len()) =~= w@);
    true
}

/// The byte ranges of the scalar values of a document, in order.
pub fn json_scalar_ranges(document: &str) -> (r: Vec<(usize, usize)>)
    requires
        !scan(document.spec_bytes(), 0).1,
    ensures
        r@.len() == scan(document.spec_bytes(), 0).0.len(),
        forall|k: int| 0 <= k < r@.len() ==> (#[trigger] r@[k]).0 == scan(document.spec_bytes(), 0).0[k].0
            && r@[k].1 == scan(document.spec_bytes(), 0).0[k].1,
{
    let b = document.as_bytes();
    let ghost bs = b@;
    let mut out: Vec<(usize, usize)> = Vec::new();
    let ghost mut done: Seq<(int, int, JsonScalarKind)> = Seq::empty();
    let mut i: usize = 0;
    while i < b.len()
        invariant
            bs == b@,
            bs == document.spec_bytes(),
            i <= bs.len(),
            scan(bs, 0).0 == done + scan(bs, i as int).0,
            !scan(bs, i as int).1,
            out@.len() == done.len(),
            forall|k: int| 0 <= k < out@.len() ==> (#[trigger] out@[k]).0 == done[k].0 && out@[k].1 == done[k].1,
        decreases bs.len() - i,
    {
        let c = b[i];
        let ghost before = done;
        if c == 34u8 {
            proof { lemma_ends(bs, i + 1); }
            let e = string_end_exec(b, i + 1);
            let p = skip_space_exec(b, e);
            proof { lemma_ends(bs, e as int); }
            if !(p < b.len() && b[p] == 58u8) {
                out.push((i, e));
                proof { done = done.push((i as int, e as int, JsonScalarKind::String)); }
            }
            proof {
                assert(done + scan(bs, e as int).0 =~= before + scan(bs, i as int).0);
            }
            i = e;
        } else if c == 45u8 || (48u8 <= c && c <= 57u8) {
            proof { lemma_ends(bs, i + 1); }
            let e = number_end_exec(b, i + 1);
            out.push((i, e));
            proof {
                done = done.push((i as int, e as int, JsonScalarKind::Number));
                assert(done + scan(bs, e as int).0 =~= before + scan(bs, i as int).0);
            }
            i = e;
        } else if bytes_at_exec(b, i, &[116u8, 114u8, 117u8, 101u8]) {
            out.push((i, i + 4));
            proof {
                done = done.push((i as int, i + 4, JsonScalarKind::Boolean));
                assert(done + scan(bs, i + 4).0 =~= before + scan(bs, i as int).0);
            }
            i = i + 4;
        } else if bytes_at_exec(b, i, &[102u8, 97u8, 108u8, 115u8, 101u8]) {
            out.push((i, i + 5));
            proof {
                done = done.push((i as int, i + 5, JsonScalarKind::Boolean));
                assert(done + scan(bs, i + 5).0 =~= before + scan(bs, i as int).0);
            }
            i = i + 5;
        } else if bytes_at_exec(b, i, &[110u8, 117u8, 108u8, 108u8]) {
            out.push((i, i + 4));
            proof {
                done = done.push((i as int, i + 4, JsonScalarKind::Null));
                assert(done + scan(bs, i + 4).0 =~= before + scan(bs, i as int).0);
            }
            i = i + 4;
        } else {
            i = i + 1;
        }
    }
    proof {
        assert(done + scan(bs, i as int).0 =~= done);
    }
    out
}

} // verus!
