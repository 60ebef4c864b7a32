//! Rewriting the `body:` block of a request file so that a JSON body reads pretty-printed,
//! leaving every other line of the file as it was.
use vstd::prelude::*;
use crate::text::{chars_of, contains, eq_str, is_space, string_of};

verus! {

/// The end of the line that starts at `at`: just past its `\n`, or the end of the text.
pub open spec fn line_end(s: Seq<char>, at: int) -> int
    decreases s.len() - at,
{
    if at < 0 || at >= s.len() {
        s.len() as int
    } else if s[at] == '\n' {
        at + 1
    } else {
        line_end(s, at + 1)
    }
}

pub proof fn lemma_line_end_bounds(s: Seq<char>, at: int)
    requires
        0 <= at < s.len(),
    ensures
        at < line_end(s, at) <= s.len(),
    decreases s.len() - at,
{
    if s[at] != '\n' {
        assert(line_end(s, at) == line_end(s, at + 1));
        if at + 1 < s.len() {
            lemma_line_end_bounds(s, at + 1);
        } else {
            assert(line_end(s, at + 1) == s.len());
        }
    }
}

/// A line without all of its trailing `\r` and `\n` characters.
pub open spec fn trim_newlines(line: Seq<char>) -> Seq<char>
    decreases line.len(),
{
    if line.len() > 0 && (line.last() == '\r' || line.last() == '\n') {
        trim_newlines(line.drop_last())
    } else {
        line
    }
}

/// The line opens the body: it starts with `body:`, followed by nothing or white space.
pub open spec fn is_body_key(content: Seq<char>) -> bool {
    &&& content.len() >= 5
    &&& content.take(5) == seq!['b', 'o', 'd', 'y', ':']
    &&& (content.len() == 5 || is_space(content[5]))
}

/// The line ends the body block: it is not empty and not indented.
pub open spec fn ends_block(content: Seq<char>) -> bool {
    content.len() > 0 && content[0] != ' ' && content[0] != '\t'
}

/// Scans the lines from `offset` on: where the first `body:` line starts, and where its
/// block ends (at the next line that is neither empty nor indented, or at the end).
pub open spec fn scan_body(s: Seq<char>, offset: int, start: Option<int>) -> (Option<int>, int)
    decreases s.len() - offset,
{
    if offset < 0 || offset >= s.len() {
        (start, s.len() as int)
    } else {
        let next = line_end(s, offset);
        let content = trim_newlines(s.subrange(offset, next));
        if start is Some && ends_block(content) {
            (start, offset)
        } else {
            let start2 = if is_body_key(content) {
                Some(offset)
            } else {
                start
            };
            proof {
                lemma_line_end_bounds(s, offset);
            }
            scan_body(s, next, start2)
        }
    }
}

/// A line as `str::lines` gives it: without its `\n`, and without a `\r` just before it.
pub open spec fn strip_line_ending(piece: Seq<char>) -> Seq<char> {
    if piece.len() > 0 && piece.last() == '\n' {
        let p = piece.drop_last();
        if p.len() > 0 && p.last() == '\r' {
            p.drop_last()
        } else {
            p
        }
    } else {
        piece
    }
}

/// Each line of `f` from `at` on, indented by two spaces and ended with `nl`.
pub open spec fn indented_lines(f: Seq<char>, at: int, nl: Seq<char>) -> Seq<char>
    decreases f.len() - at,
{
    if at < 0 || at >= f.len() {
        Seq::empty()
    } else {
        let next = line_end(f, at);
        let line = strip_line_ending(f.subrange(at, next));
        proof {
            lemma_line_end_bounds(f, at);
        }
        seq![' ', ' '] + line + nl + indented_lines(f, next, nl)
    }
}

/// The line ending of the document: `\r\n` where it holds one, else `\n`.
pub open spec fn newline_of(s: Seq<char>) -> Seq<char> {
    if contains(s, seq!['\r', '\n']) {
        seq!['\r', '\n']
    } else {
        seq!['\n']
    }
}

/// The document with its body block replaced by a literal block holding `formatted`;
/// `None` when the document has no `body:` line.
pub open spec fn spec_replace_body(s: Seq<char>, formatted: Seq<char>) -> Option<Seq<char>> {
    match scan_body(s, 0, None) {
        (None, _) => None,
        (Some(a), b) => Some(
            s.take(a) + seq!['b', 'o', 'd', 'y', ':', ' ', '|', '-'] + newline_of(s)
                + indented_lines(formatted, 0, newline_of(s)) + s.skip(b),
        ),
    }
}

pub proof fn lemma_scan_bounds(s: Seq<char>, offset: int, start: Option<int>)
    requires
        0 <= offset <= s.len(),
        start matches Some(a) ==> 0 <= a <= offset,
    ensures
        scan_body(s, offset, start) matches (Some(a), b) ==> 0 <= a <= b <= s.len(),
    decreases s.len() - offset,
{
    if offset < s.len() {
        lemma_line_end_bounds(s, offset);
        let next = line_end(s, offset);
        let content = trim_newlines(s.subrange(offset, next));
        if !(start is Some && ends_block(content)) {
            let start2 = if is_body_key(content) {
                Some(offset)
            } else {
                start
            };
            lemma_scan_bounds(s, next, start2);
        }
    }
}

fn find_line_end(s: &Vec<char>, at: usize) -> (r: usize)
    requires
        at < s@.len(),
    ensures
        r == line_end(s@, at as int),
        at < r <= s@.len(),
{
    let mut j = at;
    while j < s.len()
        invariant
            at <= j <= s@.len(),
            line_end(s@, j as int) == line_end(s@, at as int),
            forall|k: int| at <= k < j ==> s@[k] != '\n',
        decreases s@.len() - j,
    {
        if s[j] == '\n' {
            proof {
                lemma_line_end_bounds(s@, at as int);
            }
            return j + 1;
        }
        j = j + 1;
    }
    proof {
        lemma_line_end_bounds(s@, at as int);
    }
    j
}

/// The content of `s[from..to]` without its trailing `\r`/`\n`, as bounds.
fn content_end(s: &Vec<char>, from: usize, to: usize) -> (r: usize)
    requires
        from <= to <= s@.len(),
    ensures
        from <= r <= to,
        s@.subrange(from as int, r as int) == trim_newlines(s@.subrange(from as int, to as int)),
{
    let mut e = to;
    while e > from && (s[e - 1] == '\r' || s[e - 1] == '\n')
        invariant
            from <= e <= to <= s@.len(),
            trim_newlines(s@.subrange(from as int, e as int)) == trim_newlines(
                s@.subrange(from as int, to as int),
            ),
        decreases e,
    {
        proof {
            assert(s@.subrange(from as int, e as int).drop_last() =~= s@.subrange(
                from as int,
                e - 1,
            ));
        }
        e = e - 1;
    }
    e
}

fn body_key_at(s: &Vec<char>, from: usize, to: usize) -> (r: bool)
    requires
        from <= to <= s@.len(),
    ensures
        r == is_body_key(s@.subrange(from as int, to as int)),
{
    let ghost c = s@.subrange(from as int, to as int);
    if to - from < 5 {
        return false;
    }
    let key = s[from] == 'b' && s[from + 1] == 'o' && s[from + 2] == 'd' && s[from + 3] == 'y'
        && s[from + 4] == ':';
    proof {
        assert(key == (c.take(5) =~= seq!['b', 'o', 'd', 'y', ':']));
    }
    if !key {
        return false;
    }
    to - from == 5 || crate::text::space_char(s[from + 5])
}

fn push_range(out: &mut Vec<char>, s: &Vec<char>, from: usize, to: usize)
    requires
        from <= to <= s@.len(),
    ensures
        final(out)@ == old(out)@ + s@.subrange(from as int, to as int),
{
    let mut i = from;
    while i < to
        invariant
            from <= i <= to <= s@.len(),
            out@ == old(out)@ + s@.subrange(from as int, i as int),
        decreases to - i,
    {
        out.push(s[i]);
        i = i + 1;
        proof {
            assert(s@.subrange(from as int, i as int) =~= s@.subrange(from as int, i - 1).push(
                s@[i - 1],
            ));
        }
    }
}

fn push_seq(out: &mut Vec<char>, t: &[char])
    ensures
        final(out)@ == old(out)@ + t@,
{
    let mut i: usize = 0;
    while i < t.len()
        invariant
            i <= t@.len(),
            out@ == old(out)@ + t@.take(i as int),
        decreases t@.len() - i,
    {
        out.push(t[i]);
        i = i + 1;
        proof {
            assert(t@.take(i as int) =~= t@.take(i - 1).push(t@[i - 1]));
        }
    }
    proof {
        assert(t@.take(t@.len() as int) =~= t@);
    }
}

fn has_crlf(s: &Vec<char>) -> (r: bool)
    ensures
        r == contains(s@, seq!['\r', '\n']),
{
    let mut i: usize = 0;
    while i < s.len()
        invariant
            i <= s@.len(),
            forall|k: int| 0 <= k < i && k + 1 < s@.len() ==> !(s@[k] == '\r' && #[trigger] s@[k + 1] == '\n'),
        decreases s@.len() - i,
    {
        if i + 1 < s.len() && s[i] == '\r' && s[i + 1] == '\n' {
            proof {
                assert(s@.subrange(i as int, i + 2) =~= seq!['\r', '\n']);
                assert(crate::text::matches_at(s@, seq!['\r', '\n'], i as int));
                crate::text::lemma_find_bounds(s@, seq!['\r', '\n']);
            }
            return true;
        }
        i = i + 1;
    }
    proof {
        let p = seq!['\r', '\n'];
        crate::text::lemma_find_bounds(s@, p);
        if crate::text::find(s@, p) >= 0 {
            let k = crate::text::find(s@, p);
            assert(s@.subrange(k, k + 2)[0] == s@[k] && s@.subrange(k, k + 2)[1] == s@[k + 1]);
            assert(s@[k] == '\r' && s@[k + 1] == '\n');
        }
    }
    false
}

fn scan(s: &Vec<char>) -> (r: (Option<usize>, usize))
    ensures
        scan_body(s@, 0, None) == (match r.0 {
            Some(a) => Some(a as int),
            None => None,
        }, r.1 as int),
{
    let mut offset: usize = 0;
    let mut start: Option<usize> = None;
    while offset < s.len()
        invariant
            offset <= s@.len(),
            scan_body(s@, offset as int, match start {
                Some(a) => Some(a as int),
                None => None,
            }) == scan_body(s@, 0, None),
        decreases s@.len() - offset,
    {
        let next = find_line_end(s, offset);
        let cend = content_end(s, offset, next);
        let ends = cend > offset && s[offset] != ' ' && s[offset] != '\t';
        proof {
            assert(ends == ends_block(trim_newlines(s@.subrange(offset as int, next as int))));
        }
        if start.is_some() && ends {
            return (start, offset);
        }
        if body_key_at(s, offset, cend) {
            start = Some(offset);
        }
        offset = next;
    }
    (start, s.len())
}

/// Replaces the `body:` block of a request file with `formatted` as a literal block;
/// `None` when the file has no `body:` line.
pub fn replace_body(document: &str, formatted: &str) -> (r: Option<String>)
    ensures
        match r {
            Some(t) => spec_replace_body(document@, formatted@) == Some(t@),
            None => spec_replace_body(document@, formatted@) is None,
        },
{
    let s = chars_of(document);
    let f = chars_of(formatted);
    let crlf = has_crlf(&s);
    let (start, end) = scan(&s);
    proof {
        lemma_scan_bounds(s@, 0, None);
    }
    let a = match start {
        Some(a) => a,
        None => {
            return None;
        },
    };
    let nl: &[char] = if crlf {
        &['\r', '\n']
    } else {
        &['\n']
    };
    proof {
        assert(nl@ == newline_of(s@));
    }
    let mut out: Vec<char> = Vec::new();
    push_range(&mut out, &s, 0, a);
    push_seq(&mut out, &['b', 'o', 'd', 'y', ':', ' ', '|', '-']);
    push_seq(&mut out, nl);
    let ghost head = out@;
    let mut at: usize = 0;
    while at < f.len()
        invariant
            at <= f@.len(),
            out@ + indented_lines(f@, at as int, nl@) == head + indented_lines(f@, 0, nl@),
        decreases f@.len() - at,
    {
        let next = find_line_end(&f, at);
        let mut e = next;
        if e > at && f[e - 1] == '\n' {
            e = e - 1;
            if e > at && f[e - 1] == '\r' {
                e = e - 1;
            }
        }
        proof {
            let piece = f@.subrange(at as int, next as int);
            if piece.len() > 0 && piece.last() == '\n' {
                assert(piece.drop_last() =~= f@.subrange(at as int, next - 1));
                if next - 1 > at && f@[next - 2] == '\r' {
                    assert(piece.drop_last().drop_last() =~= f@.subrange(at as int, next - 2));
                }
            }
            assert(f@.subrange(at as int, e as int) == strip_line_ending(piece));
        }
        let ghost before = out@;
        push_seq(&mut out, &[' ', ' ']);
        push_range(&mut out, &f, at, e);
        push_seq(&mut out, nl);
        proof {
            assert(out@ =~= before + (seq![' ', ' '] + f@.subrange(at as int, e as int) + nl@));
            assert(out@ + indented_lines(f@, next as int, nl@) =~= before + indented_lines(
                f@,
                at as int,
                nl@,
            ));
        }
        at = next;
    }
    push_range(&mut out, &s, end, s.len());
    proof {
        assert(s@.subrange(0, a as int) =~= s@.take(a as int));
        assert(s@.subrange(end as int, s@.len() as int) =~= s@.skip(end as int));
        assert(indented_lines(f@, at as int, nl@) =~= Seq::<char>::empty());
        assert(out@ =~= s@.take(a as int) + seq!['b', 'o', 'd', 'y', ':', ' ', '|', '-']
            + newline_of(s@) + indented_lines(f@, 0, newline_of(s@)) + s@.skip(end as int));
    }
    Some(string_of(out.as_slice()))
}


/// What `serde_json` pretty-prints for a text that it reads as one JSON value, `None` when
/// it does not read it.
pub uninterp spec fn pretty_json(text: Seq<char>) -> Option<Seq<char>>;

/// Reads the text with `serde_json::from_str::<serde_json::Value>` and prints the value with
/// `serde_json::to_string_pretty`; the outcome is named by `pretty_json`.
#[verifier::external_body]
pub(crate) fn pretty_json_text(text: &str) -> (r: Option<String>)
    ensures
        match r {
            Some(t) => pretty_json(text@) == Some(t@),
            None => pretty_json(text@) is None,
        },
{
    match serde_json::from_str::<serde_json::Value>(text) {
        Ok(value) => match serde_json::to_string_pretty(&value) {
            Ok(t) => Some(t),
            Err(_) => None,
        },
        Err(_) => None,
    }
}

/// The request file after its body is pretty-printed, given the file, its body and what
/// the body pretty-prints to: nothing when there is no body, when it is not JSON, when it
/// already reads that way, or when the file has no `body:` line.
pub open spec fn spec_reformatted(
    original: Seq<char>,
    body: Option<Seq<char>>,
    pretty: Option<Seq<char>>,
) -> Option<Seq<char>> {
    match body {
        None => None,
        Some(b) => match pretty {
            None => None,
            Some(f) => if f == b {
                None
            } else {
                spec_replace_body(original, f)
            },
        },
    }
}

/// The rewrite of a request file for the pretty-printed form `pretty` of its body.
pub fn reformat_with(original: &str, body: Option<&str>, pretty: Option<&str>) -> (r: Option<String>)
    ensures
        match r {
            Some(t) => spec_reformatted(original@, match body {
                Some(b) => Some(b@),
                None => None,
            }, match pretty {
                Some(p) => Some(p@),
                None => None,
            }) == Some(t@),
            None => spec_reformatted(original@, match body {
                Some(b) => Some(b@),
                None => None,
            }, match pretty {
                Some(p) => Some(p@),
                None => None,
            }) is None,
        },
{
    let b = match body {
        Some(b) => b,
        None => {
            return None;
        },
    };
    let f = match pretty {
        Some(f) => f,
        None => {
            return None;
        },
    };
    if eq_str(f, b) {
        return None;
    }
    replace_body(original, f)
}

/// The rewrite of a request file whose body is JSON that does not read pretty-printed:
/// the file with that body pretty-printed; `None` when nothing is to be written.
pub fn reformatted_request(original: &str, body: Option<&str>) -> (r: Option<String>)
    ensures
        match r {
            Some(t) => spec_reformatted(original@, match body {
                Some(b) => Some(b@),
                None => None,
            }, match body {
                Some(b) => pretty_json(b@),
                None => None,
            }) == Some(t@),
            None => spec_reformatted(original@, match body {
                Some(b) => Some(b@),
                None => None,
            }, match body {
                Some(b) => pretty_json(b@),
                None => None,
            }) is None,
        },
{
    match body {
        None => None,
        Some(b) => {
            let pretty = pretty_json_text(b);
            match pretty {
                Some(p) => reformat_with(original, body, Some(p.as_str())),
                None => reformat_with(original, body, None),
            }
        },
    }
}

} // verus!
