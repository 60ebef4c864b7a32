//! Turning a pasted cURL command into a request.
use vstd::prelude::*;
use crate::config::{param_from_text, DataPart, FileUpload, FileView, NameValue, ParamView, PartView, RequestParam};
use crate::headers::{
    header_index, header_views, with_header_if_missing, with_header_replaced, find_header,
    insert_header_if_missing, replace_header,
};
use crate::text::{
    chars_of, contains, contains_char, contains_str, copy_str, eq_ignore_case, eq_ignore_case_str,
    eq_str, ends_with, find, is_space, join, lower_seq, push_char, push_str, space_char, split,
    split_once, split_once_str, split_str, starts_with, starts_with_str, string_of, strip_prefix,
    strip_prefix_str, to_lower_str, to_upper_str, trim, trim_start, trim_start_str, trim_str,
    upper_seq, views,
};

verus! {

/// A failed import, with the message that the interface shows.
pub struct ParseError {
    message: String,
}

impl ParseError {
    pub closed spec fn spec_message(&self) -> Seq<char> {
        self.message@
    }

    fn new(message: String) -> (r: Self)
        ensures
            r.spec_message() == message@,
    {
        ParseError { message }
    }

    pub fn message(&self) -> (r: &str)
        ensures
            r@ == self.spec_message(),
    {
        self.message.as_str()
    }
}

/// Where the tokenizer stands: the position, the tokens so far, the token being read,
/// the open quote and whether the current token has begun.
pub struct TokState {
    pub pos: int,
    pub tokens: Seq<Seq<char>>,
    pub token: Seq<char>,
    pub quote: Option<char>,
    pub started: bool,
}

/// After blanks (spaces and tabs) from `k`, the first other position.
pub open spec fn skip_blanks(v: Seq<char>, k: int) -> int
    decreases v.len() - k,
{
    if 0 <= k < v.len() && (v[k] == ' ' || v[k] == '\t') {
        skip_blanks(v, k + 1)
    } else {
        k
    }
}

/// A line continuation that starts at `k`: blanks, then a line break. Gives the
/// position after it.
pub open spec fn continuation(v: Seq<char>, k: int) -> Option<int> {
    let j = skip_blanks(v, k);
    if 0 <= j < v.len() && v[j] == '\n' {
        Some(j + 1)
    } else if 0 <= j < v.len() && v[j] == '\r' {
        if j + 1 < v.len() && v[j + 1] == '\n' {
            Some(j + 2)
        } else {
            Some(j + 1)
        }
    } else {
        None
    }
}

/// A finished token is split off at a line continuation only when it is `curl` or an option.
pub open spec fn flush_at_continuation(st: TokState, next: int) -> TokState {
    if st.started && (eq_ignore_case(st.token, "curl"@) || starts_with(st.token, seq!['-'])) {
        TokState { pos: next, tokens: st.tokens.push(st.token), token: Seq::empty(), started: false, ..st }
    } else {
        TokState { pos: next, ..st }
    }
}

/// One step of the tokenizer at `st.pos`; `None` when a backslash ends the command.
pub open spec fn tok_step(v: Seq<char>, st: TokState) -> Option<TokState> {
    let i = st.pos;
    let c = v[i];
    match st.quote {
        Some(q) => if q == '\'' {
            if c == '\'' {
                Some(TokState { pos: i + 1, quote: None, ..st })
            } else {
                Some(TokState { pos: i + 1, token: st.token.push(c), ..st })
            }
        } else {
            if c == '"' {
                Some(TokState { pos: i + 1, quote: None, ..st })
            } else if c == '\\' && continuation(v, i + 1) is Some {
                Some(TokState { pos: continuation(v, i + 1)->0, ..st })
            } else if c == '\\' {
                if i + 1 < v.len() && (v[i + 1] == '"' || v[i + 1] == '\\' || v[i + 1] == '$'
                    || v[i + 1] == '`') {
                    Some(TokState { pos: i + 2, token: st.token.push(v[i + 1]), ..st })
                } else {
                    Some(TokState { pos: i + 1, token: st.token.push('\\'), ..st })
                }
            } else {
                Some(TokState { pos: i + 1, token: st.token.push(c), ..st })
            }
        },
        None => if c == '\'' || c == '"' {
            Some(TokState { pos: i + 1, quote: Some(c), started: true, ..st })
        } else if c == '\\' && continuation(v, i + 1) is Some {
            Some(flush_at_continuation(st, continuation(v, i + 1)->0))
        } else if c == '\\' {
            if i + 1 < v.len() {
                Some(TokState { pos: i + 2, token: st.token.push(v[i + 1]), started: true, ..st })
            } else {
                None
            }
        } else if (c == '^' || c == '`') && continuation(v, i + 1) is Some {
            Some(flush_at_continuation(st, continuation(v, i + 1)->0))
        } else if is_space(c) {
            if st.started {
                Some(
                    TokState {
                        pos: i + 1,
                        tokens: st.tokens.push(st.token),
                        token: Seq::empty(),
                        started: false,
                        ..st
                    },
                )
            } else {
                Some(TokState { pos: i + 1, ..st })
            }
        } else {
            Some(TokState { pos: i + 1, token: st.token.push(c), started: true, ..st })
        },
    }
}

/// The tokenizer run from `st` to the end of `v`.
pub open spec fn tok_run(v: Seq<char>, st: TokState) -> Option<TokState>
    decreases v.len() - st.pos,
{
    if st.pos < 0 || st.pos >= v.len() {
        Some(st)
    } else {
        match tok_step(v, st) {
            None => None,
            Some(next) => if next.pos <= st.pos {
                None
            } else {
                tok_run(v, next)
            },
        }
    }
}

pub open spec fn tok_start() -> TokState {
    TokState { pos: 0, tokens: Seq::empty(), token: Seq::empty(), quote: None, started: false }
}

pub open spec fn is_shell_prompt(value: Seq<char>) -> bool {
    value == seq!['$'] || value == seq!['>'] || value == seq!['#'] || ends_with(value, seq!['>'])
}

/// The position of the first token that is `curl` (ignoring ASCII case), or -1.
pub open spec fn curl_index(tokens: Seq<Seq<char>>) -> int
    decreases tokens.len(),
{
    if tokens.len() == 0 {
        -1
    } else if eq_ignore_case(tokens[0], "curl"@) {
        0
    } else {
        let r = curl_index(tokens.drop_first());
        if r < 0 {
            -1
        } else {
            r + 1
        }
    }
}

/// The tokens of a command: shell-like words, starting at the `curl` word.
pub open spec fn spec_tokenize(command: Seq<char>) -> Result<Seq<Seq<char>>, Seq<char>> {
    match tok_run(command, tok_start()) {
        None => Err("cURL 命令末尾存在未完成的转义"@),
        Some(end) => if end.quote is Some {
            Err("cURL 命令存在未闭合的引号"@)
        } else {
            let tokens = if end.started {
                end.tokens.push(end.token)
            } else {
                end.tokens
            };
            let k = curl_index(tokens);
            if k > 1 || (k == 1 && !is_shell_prompt(tokens[0])) || k < 0 {
                Err("命令必须以 curl 开头"@)
            } else {
                let tokens = if k == 1 {
                    tokens.drop_first()
                } else {
                    tokens
                };
                if tokens.len() == 1 {
                    Err("cURL 命令中没有请求地址"@)
                } else {
                    Ok(tokens)
                }
            }
        },
    }
}

pub proof fn lemma_skip_blanks(v: Seq<char>, k: int)
    requires
        0 <= k,
    ensures
        k <= skip_blanks(v, k),
        k <= v.len() ==> skip_blanks(v, k) <= v.len(),
    decreases v.len() - k,
{
    if 0 <= k < v.len() && (v[k] == ' ' || v[k] == '\t') {
        lemma_skip_blanks(v, k + 1);
    }
}

/// The position after a line continuation that starts at `k`, if one does.
fn consume_line_continuation(v: &[char], k: usize) -> (r: Option<usize>)
    requires
        k <= v@.len(),
    ensures
        match r {
            Some(j) => continuation(v@, k as int) == Some(j as int) && k < j <= v@.len(),
            None => continuation(v@, k as int) is None,
        },
{
    let mut j = k;
    while j < v.len() && (v[j] == ' ' || v[j] == '\t')
        invariant
            k <= j <= v@.len(),
            skip_blanks(v@, k as int) == skip_blanks(v@, j as int),
        decreases v@.len() - j,
    {
        j = j + 1;
    }
    if j < v.len() && v[j] == '\n' {
        Some(j + 1)
    } else if j < v.len() && v[j] == '\r' {
        if j + 1 < v.len() && v[j + 1] == '\n' {
            Some(j + 2)
        } else {
            Some(j + 1)
        }
    } else {
        None
    }
}

fn is_shell_prompt_text(value: &str) -> (r: bool)
    ensures
        r == is_shell_prompt(value@),
{
    let v = chars_of(value);
    let single = v.len() == 1 && (v[0] == '$' || v[0] == '>' || v[0] == '#');
    let closes = v.len() >= 1 && v[v.len() - 1] == '>';
    proof {
        if single {
            assert(v@ =~= seq![v@[0]]);
        }
        if v@ == seq!['$'] || v@ == seq!['>'] || v@ == seq!['#'] {
            assert(v@.len() == 1);
        }
        if v@.len() >= 1 {
            assert(v@.skip(v@.len() - 1) =~= seq![v@[v@.len() - 1]]);
        }
        if ends_with(v@, seq!['>']) {
            assert(v@.skip(v@.len() - 1)[0] == v@[v@.len() - 1]);
        }
    }
    single || closes
}

fn token_is_option_or_curl(token: &Vec<char>) -> (r: bool)
    ensures
        r == (eq_ignore_case(token@, "curl"@) || starts_with(token@, seq!['-'])),
{
    let text = string_of(token.as_slice());
    let is_curl = eq_ignore_case_str(text.as_str(), "curl");
    proof {
        if token@.len() > 0 && token@[0] == '-' {
            assert(token@.take(1) =~= seq!['-']);
        }
        if starts_with(token@, seq!['-']) {
            assert(token@.take(1)[0] == token@[0]);
        }
    }
    is_curl || (token.len() > 0 && token[0] == '-')
}

/// Splits a command into tokens the way a shell would, then drops a leading prompt.
pub fn tokenize(command: &str) -> (r: Result<Vec<String>, ParseError>)
    ensures
        match r {
            Ok(tokens) => spec_tokenize(command@) == Ok::<Seq<Seq<char>>, Seq<char>>(views(tokens@)),
            Err(e) => spec_tokenize(command@) == Err::<Seq<Seq<char>>, Seq<char>>(e.spec_message()),
        },
{
    let v = chars_of(command);
    let mut tokens: Vec<String> = Vec::new();
    let mut token: Vec<char> = Vec::new();
    let mut quote: Option<char> = None;
    let mut started = false;
    let mut i: usize = 0;
    assert(views(tokens@) =~= Seq::<Seq<char>>::empty());
    assert(token@ =~= Seq::<char>::empty());
    while i < v.len()
        invariant
            v@ == command@,
            i <= v@.len(),
            tok_run(v@, tok_start()) == tok_run(
                v@,
                TokState { pos: i as int, tokens: views(tokens@), token: token@, quote, started },
            ),
        decreases v@.len() - i,
    {
        let ghost st = TokState {
            pos: i as int,
            tokens: views(tokens@),
            token: token@,
            quote,
            started,
        };
        let c = v[i];
        let ghost tokens_before = views(tokens@);
        match quote {
            Some(q) => {
                if q == '\'' {
                    if c == '\'' {
                        quote = None;
                    } else {
                        token.push(c);
                    }
                    i = i + 1;
                } else {
                    if c == '"' {
                        quote = None;
                        i = i + 1;
                    } else if c == '\\' {
                        match consume_line_continuation(v.as_slice(), i + 1) {
                            Some(j) => {
                                i = j;
                            },
                            None => {
                                if i + 1 < v.len() && (v[i + 1] == '"' || v[i + 1] == '\\' || v[i
                                    + 1] == '$' || v[i + 1] == '`') {
                                    token.push(v[i + 1]);
                                    i = i + 2;
                                } else {
                                    token.push('\\');
                                    i = i + 1;
                                }
                            },
                        }
                    } else {
                        token.push(c);
                        i = i + 1;
                    }
                }
            },
            None => {
                if c == '\'' || c == '"' {
                    quote = Some(c);
                    started = true;
                    i = i + 1;
                } else if c == '\\' || c == '^' || c == '`' {
                    match consume_line_continuation(v.as_slice(), i + 1) {
                        Some(j) => {
                            if started && token_is_option_or_curl(&token) {
                                tokens.push(string_of(token.as_slice()));
                                token = Vec::new();
                                started = false;
                            }
                            i = j;
                        },
                        None => {
                            if c == '\\' {
                                if i + 1 < v.len() {
                                    token.push(v[i + 1]);
                                    started = true;
                                    i = i + 2;
                                } else {
                                    assert(tok_step(v@, st) is None);
                                    return Err(
                                        ParseError::new(
                                            "cURL 命令末尾存在未完成的转义".to_owned(),
                                        ),
                                    );
                                }
                            } else {
                                token.push(c);
                                started = true;
                                i = i + 1;
                            }
                        },
                    }
                } else if space_char(c) {
                    if started {
                        tokens.push(string_of(token.as_slice()));
                        token = Vec::new();
                        started = false;
                    }
                    i = i + 1;
                } else {
                    token.push(c);
                    started = true;
                    i = i + 1;
                }
            },
        }
        proof {
            assert(views(tokens@) =~= tokens_before || views(tokens@) =~= tokens_before.push(st.token));
            let next = TokState { pos: i as int, tokens: views(tokens@), token: token@, quote, started };
            assert(tok_step(v@, st) == Some(next));
        }
    }
    let ghost end = TokState { pos: i as int, tokens: views(tokens@), token: token@, quote, started };
    assert(tok_run(v@, end) == Some(end));
    if quote.is_some() {
        return Err(ParseError::new("cURL 命令存在未闭合的引号".to_owned()));
    }
    if started {
        tokens.push(string_of(token.as_slice()));
    }
    // the first token that is `curl`
    let ghost all = views(tokens@);
    let mut k: usize = 0;
    assert(all.skip(0) =~= all);
    while k < tokens.len() && !eq_ignore_case_str(tokens[k].as_str(), "curl")
        invariant
            all == views(tokens@),
            k <= tokens@.len(),
            curl_index(all) == (if curl_index(all.skip(k as int)) < 0 {
                -1
            } else {
                curl_index(all.skip(k as int)) + k
            }),
        decreases tokens@.len() - k,
    {
        assert(all.skip(k as int).drop_first() =~= all.skip(k + 1));
        assert(all.skip(k as int)[0] == all[k as int]);
        k = k + 1;
    }
    proof {
        let tks = if end.started {
            end.tokens.push(end.token)
        } else {
            end.tokens
        };
        assert(all =~= tks);
        if k < tokens@.len() {
            assert(all.skip(k as int)[0] == all[k as int]);
            assert(curl_index(all.skip(k as int)) == 0);
            assert(curl_index(all) == k);
        } else {
            assert(all.skip(k as int) =~= Seq::<Seq<char>>::empty());
            assert(curl_index(all) == -1);
        }
    }
    if k > 1 {
        return Err(ParseError::new("命令必须以 curl 开头".to_owned()));
    }
    if k == tokens.len() {
        return Err(ParseError::new("命令必须以 curl 开头".to_owned()));
    }
    if k == 1 {
        if !is_shell_prompt_text(tokens[0].as_str()) {
            return Err(ParseError::new("命令必须以 curl 开头".to_owned()));
        }
        tokens.remove(0);
        assert(views(tokens@) =~= all.drop_first());
    }
    if tokens.len() == 1 {
        return Err(ParseError::new("cURL 命令中没有请求地址".to_owned()));
    }
    Ok(tokens)
}

/// Repairs `- X` written for `-X` (a marker split from its letter).
pub open spec fn is_marker_letter(t: Seq<char>) -> bool {
    ||| t == "X"@ ||| t == "H"@ ||| t == "d"@ ||| t == "F"@ ||| t == "u"@
    ||| t == "A"@ ||| t == "e"@ ||| t == "b"@ ||| t == "m"@
}

pub open spec fn repair(tokens: Seq<Seq<char>>) -> Seq<Seq<char>>
    decreases tokens.len(),
{
    if tokens.len() == 0 {
        tokens
    } else if tokens[0] == "-"@ && tokens.len() > 1 && is_marker_letter(tokens[1]) {
        seq!["-"@ + tokens[1]] + repair(tokens.skip(2))
    } else {
        seq![tokens[0]] + repair(tokens.drop_first())
    }
}

fn marker_letter(t: &str) -> (r: bool)
    ensures
        r == is_marker_letter(t@),
{
    eq_str(t, "X") || eq_str(t, "H") || eq_str(t, "d") || eq_str(t, "F") || eq_str(t, "u")
        || eq_str(t, "A") || eq_str(t, "e") || eq_str(t, "b") || eq_str(t, "m")
}

pub fn repair_option_markers(tokens: Vec<String>) -> (r: Vec<String>)
    ensures
        views(r@) == repair(views(tokens@)),
{
    let ghost all = views(tokens@);
    let mut out: Vec<String> = Vec::new();
    let mut i: usize = 0;
    assert(all.skip(0) =~= all);
    assert(views(out@) =~= Seq::<Seq<char>>::empty());
    while i < tokens.len()
        invariant
            all == views(tokens@),
            i <= tokens@.len(),
            views(out@) + repair(all.skip(i as int)) == repair(all),
        decreases tokens@.len() - i,
    {
        let ghost rest = all.skip(i as int);
        let ghost before = views(out@);
        assert(rest[0] == all[i as int]);
        if eq_str(tokens[i].as_str(), "-") && i + 1 < tokens.len() && marker_letter(tokens[i + 1].as_str()) {
            assert(rest[1] == all[i + 1]);
            assert(rest.skip(2) =~= all.skip(i + 2));
            let mut joined = copy_str("-");
            push_str(&mut joined, tokens[i + 1].as_str());
            out.push(joined);
            assert(views(out@) =~= before + seq!["-"@ + all[i + 1]]);
            i = i + 2;
        } else {
            assert(rest.drop_first() =~= all.skip(i + 1));
            out.push(tokens[i].clone());
            assert(views(out@) =~= before + seq![all[i as int]]);
            i = i + 1;
        }
    }
    assert(all.skip(i as int) =~= Seq::<Seq<char>>::empty());
    assert(views(out@) + repair(all.skip(i as int)) =~= views(out@));
    out
}

/// An option written with its value attached, as `-XPOST`.
pub open spec fn is_attached_option(p: Seq<char>) -> bool {
    ||| p == "-X"@ ||| p == "-H"@ ||| p == "-d"@ ||| p == "-F"@ ||| p == "-u"@
    ||| p == "-A"@ ||| p == "-e"@ ||| p == "-b"@ ||| p == "-m"@
}

/// An option token split into its name and the value written inside the token.
pub open spec fn spec_split_option(t: Seq<char>) -> (Seq<char>, Option<Seq<char>>) {
    if starts_with(t, "--"@) {
        match split_once(t, "="@) {
            Some((option, value)) => (option, Some(value)),
            None => (t, None),
        }
    } else if t.len() > 2 && is_attached_option(t.take(2)) {
        (t.take(2), Some(t.skip(2)))
    } else {
        (t, None)
    }
}

fn attached_option_text(p: &str) -> (r: bool)
    ensures
        r == is_attached_option(p@),
{
    eq_str(p, "-X") || eq_str(p, "-H") || eq_str(p, "-d") || eq_str(p, "-F") || eq_str(p, "-u")
        || eq_str(p, "-A") || eq_str(p, "-e") || eq_str(p, "-b") || eq_str(p, "-m")
}

pub fn split_option(token: &str) -> (r: (String, Option<String>))
    ensures
        (r.0@, r.1.deep_view()) == spec_split_option(token@),
{
    if starts_with_str(token, "--") {
        match split_once_str(token, "=") {
            Some((option, value)) => (option, Some(value)),
            None => (copy_str(token), None),
        }
    } else {
        let v = chars_of(token);
        if v.len() > 2 {
            let head = string_of(&v.as_slice()[0..2]);
            assert(v@.subrange(0, 2) =~= v@.take(2));
            if attached_option_text(head.as_str()) {
                let rest = string_of(&v.as_slice()[2..v.len()]);
                assert(v@.subrange(2, v@.len() as int) =~= v@.skip(2));
                return (head, Some(rest));
            }
        }
        (copy_str(token), None)
    }
}

/// The dotted-quad form of an IPv4 address: four decimal parts, each at most three
/// digits, no leading zero, at most 255. Text without `:` is an IP address exactly then.
pub open spec fn is_digit(c: char) -> bool {
    48 <= (c as u32) && (c as u32) <= 57
}

pub open spec fn digits_value(s: Seq<char>) -> int
    decreases s.len(),
{
    if s.len() == 0 {
        0
    } else {
        digits_value(s.drop_last()) * 10 + ((s.last() as u32) - 48)
    }
}

pub open spec fn is_octet(s: Seq<char>) -> bool {
    &&& 1 <= s.len() <= 3
    &&& forall|i: int| 0 <= i < s.len() ==> is_digit(#[trigger] s[i])
    &&& (s.len() == 1 || s[0] != '0')
    &&& digits_value(s) <= 255
}

pub open spec fn is_ipv4(s: Seq<char>) -> bool {
    let parts = split(s, '.');
    parts.len() == 4 && forall|i: int| 0 <= i < 4 ==> is_octet(#[trigger] parts[i])
}

fn octet_text(s: &str) -> (r: bool)
    ensures
        r == is_octet(s@),
{
    let v = chars_of(s);
    if v.len() < 1 || v.len() > 3 {
        return false;
    }
    let mut i: usize = 0;
    let mut value: u32 = 0;
    while i < v.len()
        invariant
            v@ == s@,
            1 <= v@.len() <= 3,
            i <= v@.len(),
            forall|j: int| 0 <= j < i ==> is_digit(#[trigger] v@[j]),
            value == digits_value(v@.take(i as int)),
            value < 1000,
        decreases v@.len() - i,
    {
        let c = v[i];
        if !((c as u32) >= 48 && (c as u32) <= 57) {
            return false;
        }
        assert(v@.take(i + 1).drop_last() =~= v@.take(i as int));
        assert(v@.take(i + 1).last() == c);
        proof {
            lemma_digits_small(v@.take(i as int));
        }
        assert(value <= 99);
        value = value * 10 + ((c as u32) - 48);
        i = i + 1;
    }
    assert(v@.take(v@.len() as int) =~= v@);
    (v.len() == 1 || v[0] != '0') && value <= 255
}

proof fn lemma_digits_small(s: Seq<char>)
    requires
        forall|i: int| 0 <= i < s.len() ==> is_digit(#[trigger] s[i]),
    ensures
        s.len() <= 2 ==> digits_value(s) <= 99,
        s.len() <= 1 ==> digits_value(s) <= 9,
        0 <= digits_value(s),
    decreases s.len(),
{
    if s.len() > 0 {
        assert(is_digit(s[s.len() - 1]));
        lemma_digits_small(s.drop_last());
    }
}

fn ipv4_text(s: &str) -> (r: bool)
    ensures
        r == is_ipv4(s@),
{
    let parts = split_str(s, '.');
    if parts.len() != 4 {
        return false;
    }
    let mut i: usize = 0;
    while i < 4
        invariant
            views(parts@) == split(s@, '.'),
            parts@.len() == 4,
            i <= 4,
            forall|j: int| 0 <= j < i ==> is_octet(#[trigger] split(s@, '.')[j]),
        decreases 4 - i,
    {
        assert(views(parts@)[i as int] == parts@[i as int]@);
        if !octet_text(parts[i].as_str()) {
            return false;
        }
        i = i + 1;
    }
    true
}

/// A token that begins a URL: with a scheme, a template, or an IP address host.
pub open spec fn looks_like_url_start(value: Seq<char>) -> bool {
    let host = match split_once(value, ":"@) {
        Some((host, _)) => host,
        None => value,
    };
    contains(value, "://"@) || starts_with(value, "{{"@) || is_ipv4(host)
}

pub fn url_start(value: &str) -> (r: bool)
    ensures
        r == looks_like_url_start(value@),
{
    if contains_str(value, "://") || starts_with_str(value, "{{") {
        return true;
    }
    match split_once_str(value, ":") {
        Some((host, _)) => ipv4_text(host.as_str()),
        None => ipv4_text(value),
    }
}

/// The standard base64 encoding of the UTF-8 bytes of a text.
pub uninterp spec fn base64_of(text: Seq<char>) -> Seq<char>;

/// `base64::Engine::encode` with the `STANDARD` engine (standard alphabet, padded) on the
/// UTF-8 bytes of `text`. The result is named, not described.
#[verifier::external_body]
fn encode_base64(text: &str) -> (r: String)
    ensures
        r@ == base64_of(text@),
{
    base64::Engine::encode(&base64::engine::general_purpose::STANDARD, text.as_bytes())
}

pub enum DataArg {
    Plain(Seq<char>),
    UrlEncoded(Seq<char>),
}

pub enum FormArg {
    Form(Seq<char>),
    Literal(Seq<char>),
}

/// What the options of a command have collected.
pub struct ArgsView {
    pub method: Option<Seq<char>>,
    pub urls: Seq<Seq<char>>,
    pub headers: Seq<(Seq<char>, Seq<char>)>,
    pub data: Seq<DataArg>,
    pub forms: Seq<FormArg>,
    pub timeout: Option<Seq<char>>,
    pub skip_ssl_verification: bool,
    pub use_get: bool,
}

pub enum DataArgument {
    Plain(String),
    UrlEncoded(String),
}

pub enum FormArgument {
    Form(String),
    Literal(String),
}

impl View for DataArgument {
    type V = DataArg;

    open spec fn view(&self) -> DataArg {
        match self {
            DataArgument::Plain(v) => DataArg::Plain(v@),
            DataArgument::UrlEncoded(v) => DataArg::UrlEncoded(v@),
        }
    }
}

impl View for FormArgument {
    type V = FormArg;

    open spec fn view(&self) -> FormArg {
        match self {
            FormArgument::Form(v) => FormArg::Form(v@),
            FormArgument::Literal(v) => FormArg::Literal(v@),
        }
    }
}

pub struct ParsedArguments {
    pub method: Option<String>,
    pub urls: Vec<String>,
    pub headers: Vec<NameValue>,
    pub data: Vec<DataArgument>,
    pub forms: Vec<FormArgument>,
    pub timeout: Option<String>,
    pub skip_ssl_verification: bool,
    pub use_get: bool,
}

impl View for ParsedArguments {
    type V = ArgsView;

    open spec fn view(&self) -> ArgsView {
        ArgsView {
            method: self.method.deep_view(),
            urls: views(self.urls@),
            headers: header_views(self.headers@),
            data: self.data@.map_values(|d: DataArgument| d@),
            forms: self.forms@.map_values(|f: FormArgument| f@),
            timeout: self.timeout.deep_view(),
            skip_ssl_verification: self.skip_ssl_verification,
            use_get: self.use_get,
        }
    }
}

pub open spec fn args_start() -> ArgsView {
    ArgsView {
        method: None,
        urls: Seq::empty(),
        headers: Seq::empty(),
        data: Seq::empty(),
        forms: Seq::empty(),
        timeout: None,
        skip_ssl_verification: false,
        use_get: false,
    }
}

/// The value of option `o` at `idx`: the attached value, else the next token.
/// Gives the value and the index of the last token read.
pub open spec fn opt_value(
    tokens: Seq<Seq<char>>,
    idx: int,
    o: Seq<char>,
    inline: Option<Seq<char>>,
) -> Result<(Seq<char>, int), Seq<char>> {
    match inline {
        Some(v) => Ok((v, idx)),
        None => if 0 <= idx + 1 < tokens.len() {
            Ok((tokens[idx + 1], idx + 1))
        } else {
            Err(o + " 缺少参数值"@)
        },
    }
}

/// The next token may continue a header value.
pub open spec fn continues_header(tokens: Seq<Seq<char>>, idx: int) -> bool {
    0 <= idx + 1 < tokens.len() && !starts_with(tokens[idx + 1], "-"@) && !looks_like_url_start(
        tokens[idx + 1],
    )
}

/// A header value split over several tokens is joined until it holds a `:`.
pub open spec fn extend_header(tokens: Seq<Seq<char>>, idx: int, value: Seq<char>) -> (Seq<char>, int)
    decreases tokens.len() - idx,
{
    if !contains(value, ":"@) && continues_header(tokens, idx) {
        extend_header(tokens, idx + 1, value + tokens[idx + 1])
    } else {
        (value, idx)
    }
}

pub open spec fn spec_header_value(
    tokens: Seq<Seq<char>>,
    idx: int,
    o: Seq<char>,
    inline: Option<Seq<char>>,
) -> Result<(Seq<char>, int), Seq<char>> {
    match opt_value(tokens, idx, o, inline) {
        Err(e) => Err(e),
        Ok((v, i)) => {
            let (v2, i2) = extend_header(tokens, i, v);
            if ends_with(v2, ":"@) && continues_header(tokens, i2) {
                Ok((v2 + tokens[i2 + 1], i2 + 1))
            } else {
                Ok((v2, i2))
            }
        },
    }
}

/// A `name: value` header added to the list.
pub open spec fn spec_parse_header(value: Seq<char>, headers: Seq<(Seq<char>, Seq<char>)>) -> Result<
    Seq<(Seq<char>, Seq<char>)>,
    Seq<char>,
> {
    match split_once(value, ":"@) {
        None => Err("请求头格式无效: "@ + value),
        Some((name, rest)) => if trim(name).len() == 0 {
            Err("请求头名称为空"@)
        } else {
            Ok(headers.push((trim(name), trim_start(rest))))
        },
    }
}

/// The cookie added to the first `Cookie` header, with `; ` between, or as a new header.
pub open spec fn cookie_appended(headers: Seq<(Seq<char>, Seq<char>)>, value: Seq<char>) -> Seq<
    (Seq<char>, Seq<char>),
> {
    let k = header_index(headers, "Cookie"@);
    if k >= 0 {
        let old = headers[k].1;
        let sep = if old.len() > 0 && value.len() > 0 {
            "; "@
        } else {
            Seq::empty()
        };
        headers.update(k, (headers[k].0, old + sep + value))
    } else {
        headers.push(("Cookie"@, value))
    }
}

pub open spec fn is_data_option(o: Seq<char>) -> bool {
    o == "-d"@ || o == "--data"@ || o == "--data-raw"@ || o == "--data-binary"@
}

pub open spec fn is_ignored_option(o: Seq<char>) -> bool {
    ||| o == "-L"@ ||| o == "--location"@ ||| o == "--compressed"@ ||| o == "-s"@
    ||| o == "--silent"@ ||| o == "-S"@ ||| o == "--show-error"@
}

/// What option `o` at `idx` does to the collected arguments, with the index of the last
/// token it read.
pub open spec fn apply_option(
    tokens: Seq<Seq<char>>,
    idx: int,
    o: Seq<char>,
    inline: Option<Seq<char>>,
    p: ArgsView,
) -> Result<(ArgsView, int), Seq<char>> {
    if o == "-X"@ || o == "--request"@ {
        match opt_value(tokens, idx, o, inline) {
            Err(e) => Err(e),
            Ok((v, i)) => Ok((ArgsView { method: Some(v), ..p }, i)),
        }
    } else if o == "-H"@ || o == "--header"@ {
        match spec_header_value(tokens, idx, o, inline) {
            Err(e) => Err(e),
            Ok((v, i)) => match spec_parse_header(v, p.headers) {
                Err(e) => Err(e),
                Ok(headers) => Ok((ArgsView { headers, ..p }, i)),
            },
        }
    } else if is_data_option(o) || o == "--data-urlencode"@ || o == "--json"@ || o == "-F"@
        || o == "--form"@ || o == "--form-string"@ || o == "-u"@ || o == "--user"@ || o == "-A"@
        || o == "--user-agent"@ || o == "-e"@ || o == "--referer"@ || o == "-b"@ || o
        == "--cookie"@ || o == "-m"@ || o == "--max-time"@ || o == "--url"@ {
        match opt_value(tokens, idx, o, inline) {
            Err(e) => Err(e),
            Ok((v, i)) => Ok(
                (
                    if is_data_option(o) {
                        ArgsView { data: p.data.push(DataArg::Plain(v)), ..p }
                    } else if o == "--data-urlencode"@ {
                        ArgsView { data: p.data.push(DataArg::UrlEncoded(v)), ..p }
                    } else if o == "--json"@ {
                        ArgsView {
                            data: p.data.push(DataArg::Plain(v)),
                            headers: with_header_if_missing(
                                with_header_if_missing(
                                    p.headers,
                                    "Content-Type"@,
                                    "application/json"@,
                                ),
                                "Accept"@,
                                "application/json"@,
                            ),
                            ..p
                        }
                    } else if o == "-F"@ || o == "--form"@ {
                        ArgsView { forms: p.forms.push(FormArg::Form(v)), ..p }
                    } else if o == "--form-string"@ {
                        ArgsView { forms: p.forms.push(FormArg::Literal(v)), ..p }
                    } else if o == "-u"@ || o == "--user"@ {
                        ArgsView {
                            headers: with_header_replaced(
                                p.headers,
                                "Authorization"@,
                                "Basic "@ + base64_of(v),
                            ),
                            ..p
                        }
                    } else if o == "-A"@ || o == "--user-agent"@ {
                        ArgsView { headers: with_header_replaced(p.headers, "User-Agent"@, v), ..p }
                    } else if o == "-e"@ || o == "--referer"@ {
                        ArgsView { headers: with_header_replaced(p.headers, "Referer"@, v), ..p }
                    } else if o == "-b"@ || o == "--cookie"@ {
                        ArgsView { headers: cookie_appended(p.headers, v), ..p }
                    } else if o == "-m"@ || o == "--max-time"@ {
                        ArgsView { timeout: Some(v), ..p }
                    } else {
                        ArgsView { urls: p.urls.push(v), ..p }
                    },
                    i,
                ),
            ),
        }
    } else if o == "-k"@ || o == "--insecure"@ {
        Ok((ArgsView { skip_ssl_verification: true, ..p }, idx))
    } else if o == "-G"@ || o == "--get"@ {
        Ok((ArgsView { use_get: true, ..p }, idx))
    } else if o == "-I"@ || o == "--head"@ {
        Ok((ArgsView { method: Some("HEAD"@), ..p }, idx))
    } else if is_ignored_option(o) {
        Ok((p, idx))
    } else {
        Err("不支持的 cURL 参数: "@ + o)
    }
}

/// `-I` and `--head` make the request a HEAD request, whatever was collected before, and
/// read no further token.
pub proof fn law_head_option_sets_head(
    tokens: Seq<Seq<char>>,
    idx: int,
    inline: Option<Seq<char>>,
    p: ArgsView,
)
    ensures
        apply_option(tokens, idx, "-I"@, inline, p) == Ok::<(ArgsView, int), Seq<char>>(
            (ArgsView { method: Some(seq!['H', 'E', 'A', 'D']), ..p }, idx),
        ),
        apply_option(tokens, idx, "--head"@, inline, p) == Ok::<(ArgsView, int), Seq<char>>(
            (ArgsView { method: Some(seq!['H', 'E', 'A', 'D']), ..p }, idx),
        ),
{
    reveal_strlit("-X");
    reveal_strlit("--request");
    reveal_strlit("-H");
    reveal_strlit("--header");
    reveal_strlit("-d");
    reveal_strlit("--data");
    reveal_strlit("--data-raw");
    reveal_strlit("--data-binary");
    reveal_strlit("--data-urlencode");
    reveal_strlit("--json");
    reveal_strlit("-F");
    reveal_strlit("--form");
    reveal_strlit("--form-string");
    reveal_strlit("-u");
    reveal_strlit("--user");
    reveal_strlit("-A");
    reveal_strlit("--user-agent");
    reveal_strlit("-e");
    reveal_strlit("--referer");
    reveal_strlit("-b");
    reveal_strlit("--cookie");
    reveal_strlit("-m");
    reveal_strlit("--max-time");
    reveal_strlit("--url");
    reveal_strlit("-k");
    reveal_strlit("--insecure");
    reveal_strlit("-G");
    reveal_strlit("--get");
    reveal_strlit("-I");
    reveal_strlit("--head");
    reveal_strlit("HEAD");
    reveal_strlit("-L");
    assert("HEAD"@ =~= seq!['H', 'E', 'A', 'D']);
    let o = "-I"@;
    assert(o[1] != "-X"@[1] && o[1] != "-H"@[1] && o[1] != "-d"@[1] && o[1] != "-F"@[1]);
    assert(o[1] != "-u"@[1] && o[1] != "-A"@[1] && o[1] != "-e"@[1] && o[1] != "-b"@[1]);
    assert(o[1] != "-m"@[1] && o[1] != "-k"@[1] && o[1] != "-G"@[1]);
    let h = "--head"@;
    assert(h[2] != "--header"@[2] || h.len() != "--header"@.len());
    assert(h[2] != "--insecure"@[2] && h[2] != "--get"@[2] && h[2] != "--json"@[2]);
    assert(h[2] != "--form"@[2] && h[2] != "--user"@[2] && h[2] != "--url"@[2]);
    assert(h[2] != "--data"@[2] && h[2] != "--cookie"@[2]);
}

/// `-k` and `--insecure` turn certificate checks off, `-G` and `--get` send the data in the
/// query, and `-X` or `--request` with a value written on it sets the method to that value;
/// none of them reads a further token.
pub proof fn law_flag_options(
    tokens: Seq<Seq<char>>,
    idx: int,
    inline: Option<Seq<char>>,
    p: ArgsView,
    m: Seq<char>,
)
    ensures
        apply_option(tokens, idx, seq!['-', 'k'], inline, p) == Ok::<(ArgsView, int), Seq<char>>(
            (ArgsView { skip_ssl_verification: true, ..p }, idx),
        ),
        apply_option(tokens, idx, seq!['-', '-', 'i', 'n', 's', 'e', 'c', 'u', 'r', 'e'], inline, p)
            == Ok::<(ArgsView, int), Seq<char>>((ArgsView { skip_ssl_verification: true, ..p }, idx)),
        apply_option(tokens, idx, seq!['-', 'G'], inline, p) == Ok::<(ArgsView, int), Seq<char>>(
            (ArgsView { use_get: true, ..p }, idx),
        ),
        apply_option(tokens, idx, seq!['-', '-', 'g', 'e', 't'], inline, p) == Ok::<
            (ArgsView, int),
            Seq<char>,
        >((ArgsView { use_get: true, ..p }, idx)),
        apply_option(tokens, idx, seq!['-', 'X'], Some(m), p) == Ok::<(ArgsView, int), Seq<char>>(
            (ArgsView { method: Some(m), ..p }, idx),
        ),
        apply_option(tokens, idx, seq!['-', '-', 'r', 'e', 'q', 'u', 'e', 's', 't'], Some(m), p)
            == Ok::<(ArgsView, int), Seq<char>>((ArgsView { method: Some(m), ..p }, idx)),
{
    reveal_strlit("-X");
    reveal_strlit("--request");
    reveal_strlit("-H");
    reveal_strlit("--header");
    reveal_strlit("-d");
    reveal_strlit("--data");
    reveal_strlit("--data-raw");
    reveal_strlit("--data-binary");
    reveal_strlit("--data-urlencode");
    reveal_strlit("--json");
    reveal_strlit("-F");
    reveal_strlit("--form");
    reveal_strlit("--form-string");
    reveal_strlit("-u");
    reveal_strlit("--user");
    reveal_strlit("-A");
    reveal_strlit("--user-agent");
    reveal_strlit("-e");
    reveal_strlit("--referer");
    reveal_strlit("-b");
    reveal_strlit("--cookie");
    reveal_strlit("-m");
    reveal_strlit("--max-time");
    reveal_strlit("--url");
    reveal_strlit("-k");
    reveal_strlit("--insecure");
    reveal_strlit("-G");
    reveal_strlit("--get");
    assert("-X"@ =~= seq!['-', 'X']);
    assert("--request"@ =~= seq!['-', '-', 'r', 'e', 'q', 'u', 'e', 's', 't']);
    assert("-k"@ =~= seq!['-', 'k']);
    assert("--insecure"@ =~= seq!['-', '-', 'i', 'n', 's', 'e', 'c', 'u', 'r', 'e']);
    assert("-G"@ =~= seq!['-', 'G']);
    assert("--get"@ =~= seq!['-', '-', 'g', 'e', 't']);
    let k = "-k"@;
    assert(k[1] != "-X"@[1] && k[1] != "-H"@[1] && k[1] != "-d"@[1] && k[1] != "-F"@[1]);
    assert(k[1] != "-u"@[1] && k[1] != "-A"@[1] && k[1] != "-e"@[1] && k[1] != "-b"@[1]);
    assert(k[1] != "-m"@[1]);
    let g = "-G"@;
    assert(g[1] != "-X"@[1] && g[1] != "-H"@[1] && g[1] != "-d"@[1] && g[1] != "-F"@[1]);
    assert(g[1] != "-u"@[1] && g[1] != "-A"@[1] && g[1] != "-e"@[1] && g[1] != "-b"@[1]);
    assert(g[1] != "-m"@[1] && g[1] != "-k"@[1]);
    let i = "--insecure"@;
    assert(i[2] != "--request"@[2] && i[2] != "--header"@[2] && i[2] != "--data"@[2]);
    assert(i[2] != "--data-urlencode"@[2] && i[2] != "--json"@[2] && i[2] != "--form"@[2]);
    assert(i[2] != "--form-string"@[2] && i[2] != "--user"@[2] && i[2] != "--user-agent"@[2]);
    assert(i[2] != "--referer"@[2] && i[2] != "--cookie"@[2] && i[2] != "--max-time"@[2]);
    assert(i[2] != "--url"@[2] && i[2] != "--data-raw"@[2] && i[2] != "--data-binary"@[2]);
    let t = "--get"@;
    assert(t[2] != "--request"@[2] && t[2] != "--header"@[2] && t[2] != "--data"@[2]);
    assert(t[2] != "--data-urlencode"@[2] && t[2] != "--json"@[2] && t[2] != "--form"@[2]);
    assert(t[2] != "--form-string"@[2] && t[2] != "--user"@[2] && t[2] != "--user-agent"@[2]);
    assert(t[2] != "--referer"@[2] && t[2] != "--cookie"@[2] && t[2] != "--max-time"@[2]);
    assert(t[2] != "--url"@[2] && t[2] != "--data-raw"@[2] && t[2] != "--data-binary"@[2]);
    assert(t[2] != "--insecure"@[2]);
}

/// How an import picks its method: the method written, in upper case; else `GET` when the
/// data goes in the query; else `POST` when there is data or a form; else `GET`. Data sent
/// in the query leaves the body empty, and certificate checks stay as the command set them.
pub proof fn law_import_method(a: ArgsView)
    requires
        spec_build(a) is Ok,
    ensures
        ({
            let r = spec_build(a)->Ok_0;
            &&& (a.method matches Some(m) ==> r.method == upper_seq(m))
            &&& (a.method is None && a.use_get ==> r.method == seq!['G', 'E', 'T'])
            &&& (a.method is None && !a.use_get && (a.data.len() > 0 || a.forms.len() > 0)
                ==> r.method == seq!['P', 'O', 'S', 'T'])
            &&& (a.method is None && !a.use_get && a.data.len() == 0 && a.forms.len() == 0
                ==> r.method == seq!['G', 'E', 'T'])
            &&& (a.use_get ==> r.body_parts.len() == 0)
            &&& r.skip_ssl_verification == a.skip_ssl_verification
            &&& r.max_time == a.timeout
            &&& r.headers == a.headers
        }),
{
    reveal_strlit("GET");
    reveal_strlit("POST");
    assert(upper_seq("GET"@) =~= seq!['G', 'E', 'T']);
    assert(upper_seq("POST"@) =~= seq!['P', 'O', 'S', 'T']);
}

pub struct ArgState {
    pub index: int,
    pub options: bool,
    pub parsed: ArgsView,
}

pub open spec fn arg_step(tokens: Seq<Seq<char>>, st: ArgState) -> Result<ArgState, Seq<char>> {
    let t = tokens[st.index];
    if st.options && t == "--"@ {
        Ok(ArgState { index: st.index + 1, options: false, parsed: st.parsed })
    } else if st.options && starts_with(t, "-"@) && t != "-"@ {
        let (o, inline) = spec_split_option(t);
        match apply_option(tokens, st.index, o, inline, st.parsed) {
            Err(e) => Err(e),
            Ok((parsed, i)) => Ok(ArgState { index: i + 1, options: st.options, parsed }),
        }
    } else {
        Ok(
            ArgState {
                index: st.index + 1,
                options: st.options,
                parsed: ArgsView { urls: st.parsed.urls.push(t), ..st.parsed },
            },
        )
    }
}

pub open spec fn arg_run(tokens: Seq<Seq<char>>, st: ArgState) -> Result<ArgsView, Seq<char>>
    decreases tokens.len() - st.index,
{
    if st.index < 0 || st.index >= tokens.len() {
        Ok(st.parsed)
    } else {
        match arg_step(tokens, st) {
            Err(e) => Err(e),
            Ok(next) => if next.index <= st.index || next.index > tokens.len() {
                Ok(next.parsed)
            } else {
                arg_run(tokens, next)
            },
        }
    }
}

/// The arguments that the tokens after `curl` give.
pub open spec fn spec_parse_arguments(tokens: Seq<Seq<char>>) -> Result<ArgsView, Seq<char>> {
    arg_run(tokens, ArgState { index: 0, options: true, parsed: args_start() })
}

fn message_with(prefix: &str, value: &str) -> (r: ParseError)
    ensures
        r.spec_message() == prefix@ + value@,
{
    let mut m = copy_str(prefix);
    push_str(&mut m, value);
    ParseError::new(m)
}

fn option_value(
    tokens: &Vec<String>,
    index: usize,
    option: &str,
    inline_value: &Option<String>,
) -> (r: Result<(String, usize), ParseError>)
    requires
        index < tokens.len(),
    ensures
        match r {
            Ok((v, i)) => opt_value(views(tokens@), index as int, option@, inline_value.deep_view())
                == Ok::<(Seq<char>, int), Seq<char>>((v@, i as int)) && i < tokens@.len() && index <= i,
            Err(e) => opt_value(views(tokens@), index as int, option@, inline_value.deep_view())
                == Err::<(Seq<char>, int), Seq<char>>(e.spec_message()),
        },
{
    match inline_value {
        Some(value) => Ok((value.clone(), index)),
        None => {
            if index + 1 < tokens.len() {
                assert(views(tokens@)[index + 1] == tokens@[index + 1]@);
                Ok((tokens[index + 1].clone(), index + 1))
            } else {
                Err(message_with(option, " 缺少参数值"))
            }
        },
    }
}

fn continues_header_at(tokens: &Vec<String>, index: usize) -> (r: bool)
    requires
        index < tokens.len(),
    ensures
        r == continues_header(views(tokens@), index as int),
{
    if index + 1 < tokens.len() {
        assert(views(tokens@)[index + 1] == tokens@[index + 1]@);
        !starts_with_str(tokens[index + 1].as_str(), "-") && !url_start(tokens[index + 1].as_str())
    } else {
        false
    }
}

fn header_value(
    tokens: &Vec<String>,
    index: usize,
    option: &str,
    inline_value: &Option<String>,
) -> (r: Result<(String, usize), ParseError>)
    requires
        index < tokens.len(),
    ensures
        match r {
            Ok((v, i)) => spec_header_value(
                views(tokens@),
                index as int,
                option@,
                inline_value.deep_view(),
            ) == Ok::<(Seq<char>, int), Seq<char>>((v@, i as int)) && i < tokens@.len() && index <= i,
            Err(e) => spec_header_value(views(tokens@), index as int, option@, inline_value.deep_view())
                == Err::<(Seq<char>, int), Seq<char>>(e.spec_message()),
        },
{
    let ghost tv = views(tokens@);
    let (mut value, mut i) = match option_value(tokens, index, option, inline_value) {
        Ok(found) => found,
        Err(e) => return Err(e),
    };
    let ghost first = (value@, i as int);
    while !contains_str(value.as_str(), ":") && continues_header_at(tokens, i)
        invariant
            tv == views(tokens@),
            i < tokens.len(),
            index <= i,
            extend_header(tv, first.1, first.0) == extend_header(tv, i as int, value@),
        decreases tokens@.len() - i,
    {
        assert(tv[i + 1] == tokens@[i + 1]@);
        push_str(&mut value, tokens[i + 1].as_str());
        i = i + 1;
    }
    if ends_with_str_char(value.as_str()) && continues_header_at(tokens, i) {
        assert(tv[i + 1] == tokens@[i + 1]@);
        push_str(&mut value, tokens[i + 1].as_str());
        i = i + 1;
    }
    Ok((value, i))
}

fn ends_with_str_char(value: &str) -> (r: bool)
    ensures
        r == ends_with(value@, ":"@),
{
    crate::text::ends_with_str(value, ":")
}

pub fn parse_header(value: &str, headers: &mut Vec<NameValue>) -> (r: Result<(), ParseError>)
    ensures
        match r {
            Ok(()) => spec_parse_header(value@, header_views(old(headers)@)) == Ok::<
                Seq<(Seq<char>, Seq<char>)>,
                Seq<char>,
            >(header_views(final(headers)@)),
            Err(e) => spec_parse_header(value@, header_views(old(headers)@)) == Err::<
                Seq<(Seq<char>, Seq<char>)>,
                Seq<char>,
            >(e.spec_message()) && final(headers)@ == old(headers)@,
        },
{
    match split_once_str(value, ":") {
        None => Err(message_with("请求头格式无效: ", value)),
        Some((name, rest)) => {
            let name = trim_str(name.as_str());
            if name.as_str().is_empty() {
                return Err(ParseError::new("请求头名称为空".to_owned()));
            }
            let ghost before = header_views(headers@);
            headers.push(NameValue { name, value: trim_start_str(rest.as_str()) });
            assert(header_views(headers@) =~= before.push((name@, trim_start(rest@))));
            Ok(())
        },
    }
}

pub fn append_cookie(headers: &mut Vec<NameValue>, value: String)
    ensures
        header_views(final(headers)@) == cookie_appended(header_views(old(headers)@), value@),
{
    let ghost before = header_views(headers@);
    proof {
        crate::headers::lemma_header_index(before, "Cookie"@);
    }
    match find_header(headers, "Cookie") {
        Some(k) => {
            let mut cookie = headers[k].value.clone();
            let name = headers[k].name.clone();
            if !cookie.as_str().is_empty() && !value.as_str().is_empty() {
                push_str(&mut cookie, "; ");
            }
            push_str(&mut cookie, value.as_str());
            assert(before[k as int] == headers@[k as int]@);
            headers.set(k, NameValue { name, value: cookie });
            assert(header_views(headers@) =~= cookie_appended(before, value@));
        },
        None => {
            headers.push(NameValue { name: "Cookie".to_owned(), value });
            assert(header_views(headers@) =~= before.push(("Cookie"@, value@)));
        },
    }
}

/// Adds `Authorization: Basic <credentials>`, replacing any authorization header.
pub fn set_basic_credentials(headers: &mut Vec<NameValue>, credentials: &str)
    ensures
        header_views(final(headers)@) == with_header_replaced(
            header_views(old(headers)@),
            "Authorization"@,
            "Basic "@ + credentials@,
        ),
{
    let mut value = copy_str("Basic ");
    push_str(&mut value, credentials);
    replace_header(headers, "Authorization", value);
}

fn data_option_text(o: &str) -> (r: bool)
    ensures
        r == is_data_option(o@),
{
    eq_str(o, "-d") || eq_str(o, "--data") || eq_str(o, "--data-raw") || eq_str(o, "--data-binary")
}

fn ignored_option_text(o: &str) -> (r: bool)
    ensures
        r == is_ignored_option(o@),
{
    eq_str(o, "-L") || eq_str(o, "--location") || eq_str(o, "--compressed") || eq_str(o, "-s")
        || eq_str(o, "--silent") || eq_str(o, "-S") || eq_str(o, "--show-error")
}

fn apply_option_to(
    tokens: &Vec<String>,
    index: usize,
    option: &str,
    inline_value: &Option<String>,
    parsed: &mut ParsedArguments,
) -> (r: Result<usize, ParseError>)
    requires
        index < tokens.len(),
    ensures
        match r {
            Ok(i) => apply_option(
                views(tokens@),
                index as int,
                option@,
                inline_value.deep_view(),
                old(parsed)@,
            ) == Ok::<(ArgsView, int), Seq<char>>((final(parsed)@, i as int)) && i < tokens.len()
                && index <= i,
            Err(e) => apply_option(
                views(tokens@),
                index as int,
                option@,
                inline_value.deep_view(),
                old(parsed)@,
            ) == Err::<(ArgsView, int), Seq<char>>(e.spec_message()),
        },
{
    let ghost p = parsed@;
    if eq_str(option, "-X") || eq_str(option, "--request") {
        let (value, i) = option_value(tokens, index, option, inline_value)?;
        parsed.method = Some(value);
        return Ok(i);
    }
    if eq_str(option, "-H") || eq_str(option, "--header") {
        let (value, i) = header_value(tokens, index, option, inline_value)?;
        parse_header(value.as_str(), &mut parsed.headers)?;
        assert(parsed@ == ArgsView { headers: parsed@.headers, ..p });
        return Ok(i);
    }
    let takes_value = data_option_text(option) || eq_str(option, "--data-urlencode") || eq_str(
        option,
        "--json",
    ) || eq_str(option, "-F") || eq_str(option, "--form") || eq_str(option, "--form-string")
        || eq_str(option, "-u") || eq_str(option, "--user") || eq_str(option, "-A") || eq_str(
        option,
        "--user-agent",
    ) || eq_str(option, "-e") || eq_str(option, "--referer") || eq_str(option, "-b") || eq_str(
        option,
        "--cookie",
    ) || eq_str(option, "-m") || eq_str(option, "--max-time") || eq_str(option, "--url");
    if takes_value {
        let (value, i) = option_value(tokens, index, option, inline_value)?;
        if data_option_text(option) {
            parsed.data.push(DataArgument::Plain(value));
            assert(parsed@.data =~= p.data.push(DataArg::Plain(value@)));
        } else if eq_str(option, "--data-urlencode") {
            parsed.data.push(DataArgument::UrlEncoded(value));
            assert(parsed@.data =~= p.data.push(DataArg::UrlEncoded(value@)));
        } else if eq_str(option, "--json") {
            parsed.data.push(DataArgument::Plain(value));
            assert(parsed@.data =~= p.data.push(DataArg::Plain(value@)));
            insert_header_if_missing(&mut parsed.headers, "Content-Type", "application/json");
            insert_header_if_missing(&mut parsed.headers, "Accept", "application/json");
        } else if eq_str(option, "-F") || eq_str(option, "--form") {
            parsed.forms.push(FormArgument::Form(value));
            assert(parsed@.forms =~= p.forms.push(FormArg::Form(value@)));
        } else if eq_str(option, "--form-string") {
            parsed.forms.push(FormArgument::Literal(value));
            assert(parsed@.forms =~= p.forms.push(FormArg::Literal(value@)));
        } else if eq_str(option, "-u") || eq_str(option, "--user") {
            let credentials = encode_base64(value.as_str());
            set_basic_credentials(&mut parsed.headers, credentials.as_str());
        } else if eq_str(option, "-A") || eq_str(option, "--user-agent") {
            replace_header(&mut parsed.headers, "User-Agent", value);
        } else if eq_str(option, "-e") || eq_str(option, "--referer") {
            replace_header(&mut parsed.headers, "Referer", value);
        } else if eq_str(option, "-b") || eq_str(option, "--cookie") {
            append_cookie(&mut parsed.headers, value);
        } else if eq_str(option, "-m") || eq_str(option, "--max-time") {
            parsed.timeout = Some(value);
        } else {
            parsed.urls.push(value);
            assert(parsed@.urls =~= p.urls.push(value@));
        }
        return Ok(i);
    }
    if eq_str(option, "-k") || eq_str(option, "--insecure") {
        parsed.skip_ssl_verification = true;
        return Ok(index);
    }
    if eq_str(option, "-G") || eq_str(option, "--get") {
        parsed.use_get = true;
        return Ok(index);
    }
    if eq_str(option, "-I") || eq_str(option, "--head") {
        parsed.method = Some("HEAD".to_owned());
        return Ok(index);
    }
    if ignored_option_text(option) {
        return Ok(index);
    }
    Err(message_with("不支持的 cURL 参数: ", option))
}

pub fn parse_arguments(tokens: &Vec<String>) -> (r: Result<ParsedArguments, ParseError>)
    ensures
        match r {
            Ok(parsed) => spec_parse_arguments(views(tokens@)) == Ok::<ArgsView, Seq<char>>(
                parsed@,
            ),
            Err(e) => spec_parse_arguments(views(tokens@)) == Err::<ArgsView, Seq<char>>(
                e.spec_message(),
            ),
        },
{
    let ghost tv = views(tokens@);
    let mut parsed = ParsedArguments {
        method: None,
        urls: Vec::new(),
        headers: Vec::new(),
        data: Vec::new(),
        forms: Vec::new(),
        timeout: None,
        skip_ssl_verification: false,
        use_get: false,
    };
    assert(parsed@.urls =~= Seq::<Seq<char>>::empty());
    assert(parsed@.headers =~= Seq::<(Seq<char>, Seq<char>)>::empty());
    assert(parsed@.data =~= Seq::<DataArg>::empty());
    assert(parsed@.forms =~= Seq::<FormArg>::empty());
    assert(parsed@ == args_start());
    let mut index: usize = 0;
    let mut options = true;
    while index < tokens.len()
        invariant
            tv == views(tokens@),
            index <= tokens@.len(),
            spec_parse_arguments(tv) == arg_run(
                tv,
                ArgState { index: index as int, options, parsed: parsed@ },
            ),
        decreases tokens@.len() - index,
    {
        let ghost st = ArgState { index: index as int, options, parsed: parsed@ };
        let token = &tokens[index];
        assert(tv[index as int] == token@);
        if options && eq_str(token.as_str(), "--") {
            options = false;
            index = index + 1;
        } else if options && starts_with_str(token.as_str(), "-") && !eq_str(token.as_str(), "-") {
            let (option, inline_value) = split_option(token.as_str());
            match apply_option_to(tokens, index, option.as_str(), &inline_value, &mut parsed) {
                Ok(i) => {
                    index = i + 1;
                },
                Err(e) => {
                    return Err(e);
                },
            }
        } else {
            let ghost before = parsed@;
            parsed.urls.push(token.clone());
            assert(parsed@.urls =~= before.urls.push(token@));
            assert(parsed@ == ArgsView { urls: before.urls.push(token@), ..before });
            index = index + 1;
        }
        assert(arg_step(tv, st) == Ok::<ArgState, Seq<char>>(
            ArgState { index: index as int, options, parsed: parsed@ },
        ));
    }
    Ok(parsed)
}

/// Fragments of a URL that the command spread over several tokens are joined.
pub open spec fn url_start_count(fragments: Seq<Seq<char>>) -> nat
    decreases fragments.len(),
{
    if fragments.len() == 0 {
        0
    } else {
        url_start_count(fragments.drop_last()) + (if looks_like_url_start(fragments.last()) {
            1nat
        } else {
            0nat
        })
    }
}

pub open spec fn spec_merge_urls(fragments: Seq<Seq<char>>) -> Result<Seq<char>, Seq<char>> {
    if fragments.len() == 0 {
        Err("cURL 命令中没有请求地址"@)
    } else if url_start_count(fragments) > 1 {
        Err("一条 cURL 命令只能包含一个请求地址"@)
    } else {
        Ok(join(fragments, Seq::empty()))
    }
}

/// A URL split into the part before `?`, the query and the fragment after `#`.
pub open spec fn url_parts(url: Seq<char>) -> (Seq<char>, Seq<char>, Seq<char>) {
    let (before_hash, fragment) = match split_once(url, "#"@) {
        Some((a, b)) => (a, b),
        None => (url, Seq::empty()),
    };
    match split_once(before_hash, "?"@) {
        Some((base, query)) => (base, query, fragment),
        None => (before_hash, Seq::empty(), fragment),
    }
}

pub open spec fn raw_parts(pieces: Seq<Seq<char>>) -> Seq<PartView> {
    pieces.map_values(|t: Seq<char>| PartView::Raw(t))
}

/// The request URL (with its fragment) and its query parts; a URL without a scheme is
/// taken as `http://`.
pub open spec fn spec_split_url(value: Seq<char>) -> Result<(Seq<char>, Seq<PartView>), Seq<char>> {
    let v = trim(value);
    let normalized = if contains(v, "{{"@) || contains(v, "://"@) {
        v
    } else {
        "http://"@ + v
    };
    let scheme_ok = match split_once(normalized, "://"@) {
        Some((scheme, _)) => scheme == "http"@ || scheme == "https"@,
        None => false,
    };
    if v.len() == 0 {
        Err("请求地址为空"@)
    } else if !contains(normalized, "{{"@) && !scheme_ok {
        Err("请求地址必须使用 http 或 https"@)
    } else {
        let (base, query, fragment) = url_parts(normalized);
        let parts = if query.len() == 0 {
            Seq::empty()
        } else {
            raw_parts(split(query, '&'))
        };
        let url = if fragment.len() == 0 {
            base
        } else {
            base + "#"@ + fragment
        };
        Ok((url, parts))
    }
}

pub open spec fn data_part(d: DataArg) -> PartView {
    match d {
        DataArg::Plain(v) => PartView::Raw(v),
        DataArg::UrlEncoded(v) => PartView::UrlEncoded(param_from_text(v)),
    }
}

/// Data that does not open a JSON object or array reads as form fields.
pub open spec fn looks_like_form(value: Seq<char>) -> bool {
    !(starts_with(trim_start(value), "{"@) || starts_with(trim_start(value), "["@))
}

/// The lower-case value of the first `Content-Type` header.
pub open spec fn content_type(headers: Seq<(Seq<char>, Seq<char>)>) -> Option<Seq<char>> {
    let k = header_index(headers, "Content-Type"@);
    if k >= 0 {
        Some(lower_seq(headers[k].1))
    } else {
        None
    }
}

pub open spec fn form_encoded(ct: Option<Seq<char>>, data: Seq<DataArg>) -> bool {
    match ct {
        Some(t) => starts_with(t, "application/x-www-form-urlencoded"@),
        None => forall|i: int|
            0 <= i < data.len() ==> (#[trigger] data[i] matches DataArg::Plain(t) && looks_like_form(
                t,
            )),
    }
}

/// Form data as body parts: plain data split at `&`, encoded data as one parameter each.
pub open spec fn form_body(data: Seq<DataArg>) -> Seq<PartView>
    decreases data.len(),
{
    if data.len() == 0 {
        Seq::empty()
    } else {
        form_body(data.drop_last()) + match data.last() {
            DataArg::Plain(v) => raw_parts(split(v, '&')),
            DataArg::UrlEncoded(v) => seq![PartView::UrlEncoded(param_from_text(v))],
        }
    }
}

/// The value of the last attribute that starts with `key`.
pub open spec fn attribute(attrs: Seq<Seq<char>>, key: Seq<char>) -> Option<Seq<char>>
    decreases attrs.len(),
{
    if attrs.len() == 0 {
        None
    } else if starts_with(attrs.last(), key) {
        Some(attrs.last().skip(key.len() as int))
    } else {
        attribute(attrs.drop_last(), key)
    }
}

/// One `-F` or `--form-string` value added to the form fields or the uploads.
pub open spec fn form_part(
    value: Seq<char>,
    form: Seq<ParamView>,
    files: Seq<FileView>,
    allow_file: bool,
) -> Result<(Seq<ParamView>, Seq<FileView>), Seq<char>> {
    match split_once(value, "="@) {
        None => Err("表单字段格式无效: "@ + value),
        Some((field, content)) => if field.len() == 0 {
            Err("表单字段名称为空"@)
        } else if allow_file && starts_with(content, "@"@) {
            let attrs = split(content.skip(1), ';');
            if attrs[0].len() == 0 {
                Err("上传字段 "@ + field + " 没有文件路径"@)
            } else {
                Ok(
                    (
                        form,
                        files.push(
                            FileView {
                                field,
                                path: attrs[0],
                                filename: attribute(attrs.drop_first(), "filename="@),
                                content_type: attribute(attrs.drop_first(), "type="@),
                            },
                        ),
                    ),
                )
            }
        } else {
            Ok((form.push(ParamView { name: field, value: content, has_equals: true }), files))
        },
    }
}

pub open spec fn forms_run(
    forms: Seq<FormArg>,
    form: Seq<ParamView>,
    files: Seq<FileView>,
) -> Result<(Seq<ParamView>, Seq<FileView>), Seq<char>>
    decreases forms.len(),
{
    if forms.len() == 0 {
        Ok((form, files))
    } else {
        let step = match forms[0] {
            FormArg::Form(v) => form_part(v, form, files, true),
            FormArg::Literal(v) => form_part(v, form, files, false),
        };
        match step {
            Err(e) => Err(e),
            Ok((f, u)) => forms_run(forms.drop_first(), f, u),
        }
    }
}

/// The imported request, as plain values.
pub struct ImportedView {
    pub method: Seq<char>,
    pub url: Seq<char>,
    pub headers: Seq<(Seq<char>, Seq<char>)>,
    pub query_parts: Seq<PartView>,
    pub body_parts: Seq<PartView>,
    pub form: Seq<ParamView>,
    pub files: Seq<FileView>,
    pub max_time: Option<Seq<char>>,
    pub skip_ssl_verification: bool,
}

pub open spec fn spec_build(a: ArgsView) -> Result<ImportedView, Seq<char>> {
    match spec_merge_urls(a.urls) {
        Err(e) => Err(e),
        Ok(source) => match spec_split_url(source) {
            Err(e) => Err(e),
            Ok((url, q)) => {
                let data_parts = a.data.map_values(|d: DataArg| data_part(d));
                let query = if a.use_get {
                    q + data_parts
                } else {
                    q
                };
                let body = if a.use_get {
                    Seq::empty()
                } else if form_encoded(content_type(a.headers), a.data) {
                    form_body(a.data)
                } else {
                    data_parts
                };
                match forms_run(a.forms, Seq::empty(), Seq::empty()) {
                    Err(e) => Err(e),
                    Ok((form, files)) => {
                        let method = match a.method {
                            Some(m) => m,
                            None => if a.use_get {
                                "GET"@
                            } else if a.data.len() > 0 || a.forms.len() > 0 {
                                "POST"@
                            } else {
                                "GET"@
                            },
                        };
                        if crate::http_method::spec_parse_method(method) is None {
                            Err("HTTP 方法无效: "@ + method)
                        } else {
                            Ok(
                                ImportedView {
                                    method: upper_seq(method),
                                    url,
                                    headers: a.headers,
                                    query_parts: query,
                                    body_parts: body,
                                    form,
                                    files,
                                    max_time: a.timeout,
                                    skip_ssl_verification: a.skip_ssl_verification,
                                },
                            )
                        }
                    },
                }
            },
        },
    }
}

/// The largest command accepted, in bytes.
pub const MAX_COMMAND_BYTES: usize = 4194304;

/// What a pasted command imports as.
pub open spec fn spec_parse(command: Seq<char>) -> Result<ImportedView, Seq<char>> {
    if (vstd::utf8::encode_utf8(command).len() as usize) > MAX_COMMAND_BYTES {
        Err("cURL 命令超过 4 MiB"@)
    } else {
        match spec_tokenize(command) {
            Err(e) => Err(e),
            Ok(tokens) => match spec_parse_arguments(repair(tokens).drop_first()) {
                Err(e) => Err(e),
                Ok(a) => spec_build(a),
            },
        }
    }
}

/// A request imported from a cURL command. `max_time` is the `-m` value as written.
pub struct ImportedRequest {
    pub method: String,
    pub url: String,
    pub headers: Vec<NameValue>,
    pub query_parts: Vec<DataPart>,
    pub body_parts: Vec<DataPart>,
    pub form: Vec<RequestParam>,
    pub files: Vec<FileUpload>,
    pub max_time: Option<String>,
    pub skip_ssl_verification: bool,
}

impl View for ImportedRequest {
    type V = ImportedView;

    open spec fn view(&self) -> ImportedView {
        ImportedView {
            method: self.method@,
            url: self.url@,
            headers: header_views(self.headers@),
            query_parts: self.query_parts.deep_view(),
            body_parts: self.body_parts.deep_view(),
            form: self.form.deep_view(),
            files: self.files.deep_view(),
            max_time: self.max_time.deep_view(),
            skip_ssl_verification: self.skip_ssl_verification,
        }
    }
}

pub fn merge_url_fragments(fragments: &Vec<String>) -> (r: Result<String, ParseError>)
    ensures
        match r {
            Ok(url) => spec_merge_urls(views(fragments@)) == Ok::<Seq<char>, Seq<char>>(url@),
            Err(e) => spec_merge_urls(views(fragments@)) == Err::<Seq<char>, Seq<char>>(
                e.spec_message(),
            ),
        },
{
    let ghost fv = views(fragments@);
    if fragments.len() == 0 {
        return Err(ParseError::new("cURL 命令中没有请求地址".to_owned()));
    }
    let mut count: usize = 0;
    let mut i: usize = 0;
    while i < fragments.len()
        invariant
            fv == views(fragments@),
            i <= fragments@.len(),
            count == url_start_count(fv.take(i as int)),
            count <= i,
        decreases fragments@.len() - i,
    {
        assert(fv.take(i + 1).drop_last() =~= fv.take(i as int));
        assert(fv.take(i + 1).last() == fragments@[i as int]@);
        if url_start(fragments[i].as_str()) {
            count = count + 1;
        }
        i = i + 1;
    }
    assert(fv.take(fv.len() as int) =~= fv);
    proof {
        reveal_strlit("");
        assert(""@ =~= Seq::<char>::empty());
    }
    if count > 1 {
        return Err(ParseError::new("一条 cURL 命令只能包含一个请求地址".to_owned()));
    }
    Ok(crate::text::join_strs(fragments.as_slice(), ""))
}

fn raw_parts_of(pieces: Vec<String>) -> (r: Vec<DataPart>)
    ensures
        r.deep_view() == raw_parts(views(pieces@)),
{
    let mut out: Vec<DataPart> = Vec::new();
    let mut i: usize = 0;
    while i < pieces.len()
        invariant
            i <= pieces@.len(),
            out@.len() == i,
            forall|j: int| 0 <= j < i ==> #[trigger] out@[j]@ == PartView::Raw(pieces@[j]@),
        decreases pieces@.len() - i,
    {
        out.push(DataPart::Raw(pieces[i].clone()));
        i = i + 1;
    }
    assert(out.deep_view() =~= raw_parts(views(pieces@)));
    out
}

pub fn split_url(value: &str) -> (r: Result<(String, Vec<DataPart>), ParseError>)
    ensures
        match r {
            Ok((url, parts)) => spec_split_url(value@) == Ok::<(Seq<char>, Seq<PartView>), Seq<char>>(
                (url@, parts.deep_view()),
            ),
            Err(e) => spec_split_url(value@) == Err::<(Seq<char>, Seq<PartView>), Seq<char>>(
                e.spec_message(),
            ),
        },
{
    let v = trim_str(value);
    if v.as_str().is_empty() {
        return Err(ParseError::new("请求地址为空".to_owned()));
    }
    let normalized = if contains_str(v.as_str(), "{{") || contains_str(v.as_str(), "://") {
        v
    } else {
        let mut n = copy_str("http://");
        push_str(&mut n, v.as_str());
        n
    };
    if !contains_str(normalized.as_str(), "{{") {
        let scheme_ok = match split_once_str(normalized.as_str(), "://") {
            Some((scheme, _)) => eq_str(scheme.as_str(), "http") || eq_str(scheme.as_str(), "https"),
            None => false,
        };
        if !scheme_ok {
            return Err(ParseError::new("请求地址必须使用 http 或 https".to_owned()));
        }
    }
    let (before_hash, fragment) = match split_once_str(normalized.as_str(), "#") {
        Some((a, b)) => (a, b),
        None => (normalized.clone(), String::new()),
    };
    let (base, query) = match split_once_str(before_hash.as_str(), "?") {
        Some((a, b)) => (a, b),
        None => (before_hash.clone(), String::new()),
    };
    let parts = if query.as_str().is_empty() {
        Vec::new()
    } else {
        raw_parts_of(split_str(query.as_str(), '&'))
    };
    proof {
        if query@.len() == 0 {
            assert(parts.deep_view() =~= Seq::<PartView>::empty());
        }
    }
    let mut url = base;
    if !fragment.as_str().is_empty() {
        push_str(&mut url, "#");
        push_str(&mut url, fragment.as_str());
    }
    Ok((url, parts))
}

pub fn data_argument_to_part(argument: &DataArgument) -> (r: DataPart)
    ensures
        r@ == data_part(argument@),
{
    match argument {
        DataArgument::Plain(value) => DataPart::Raw(value.clone()),
        DataArgument::UrlEncoded(value) => DataPart::UrlEncoded(RequestParam::from_text(value.as_str())),
    }
}

pub fn form_like(value: &str) -> (r: bool)
    ensures
        r == looks_like_form(value@),
{
    let t = trim_start_str(value);
    !(starts_with_str(t.as_str(), "{") || starts_with_str(t.as_str(), "["))
}

fn content_type_of(headers: &Vec<NameValue>) -> (r: Option<String>)
    ensures
        r.deep_view() == content_type(header_views(headers@)),
{
    proof {
        crate::headers::lemma_header_index(header_views(headers@), "Content-Type"@);
    }
    match find_header(headers, "Content-Type") {
        Some(k) => {
            assert(header_views(headers@)[k as int] == headers@[k as int]@);
            Some(to_lower_str(headers[k].value.as_str()))
        },
        None => None,
    }
}

fn attribute_of(attrs: &Vec<String>, key: &str) -> (r: Option<String>)
    requires
        attrs@.len() >= 1,
    ensures
        r.deep_view() == attribute(views(attrs@).drop_first(), key@),
{
    let ghost av = views(attrs@).drop_first();
    let mut found: Option<String> = None;
    let mut i: usize = 1;
    assert(av.take(0) =~= Seq::<Seq<char>>::empty());
    while i < attrs.len()
        invariant
            av == views(attrs@).drop_first(),
            1 <= i <= attrs@.len(),
            found.deep_view() == attribute(av.take(i - 1), key@),
        decreases attrs@.len() - i,
    {
        assert(av.take(i as int).drop_last() =~= av.take(i - 1));
        assert(av.take(i as int).last() == attrs@[i as int]@);
        match strip_prefix_str(attrs[i].as_str(), key) {
            Some(rest) => {
                found = Some(rest);
            },
            None => {},
        }
        i = i + 1;
    }
    assert(av.take(i - 1) =~= av);
    found
}

pub fn parse_form_part(
    value: &str,
    form: &mut Vec<RequestParam>,
    files: &mut Vec<FileUpload>,
    allow_file: bool,
) -> (r: Result<(), ParseError>)
    ensures
        match r {
            Ok(()) => form_part(value@, old(form).deep_view(), old(files).deep_view(), allow_file)
                == Ok::<(Seq<ParamView>, Seq<FileView>), Seq<char>>(
                (final(form).deep_view(), final(files).deep_view()),
            ),
            Err(e) => form_part(value@, old(form).deep_view(), old(files).deep_view(), allow_file)
                == Err::<(Seq<ParamView>, Seq<FileView>), Seq<char>>(e.spec_message())
                && final(form)@ == old(form)@ && final(files)@ == old(files)@,
        },
{
    let (field, content) = match split_once_str(value, "=") {
        Some(pair) => pair,
        None => return Err(message_with("表单字段格式无效: ", value)),
    };
    if field.as_str().is_empty() {
        return Err(ParseError::new("表单字段名称为空".to_owned()));
    }
    if allow_file && starts_with_str(content.as_str(), "@") {
        let rest = match strip_prefix_str(content.as_str(), "@") {
            Some(rest) => rest,
            None => String::new(),
        };
        let attrs = split_str(rest.as_str(), ';');
        proof {
            reveal_strlit("@");
            crate::text::lemma_split_nonempty(rest@, ';');
            assert(rest@ == content@.skip(1));
        }
        assert(views(attrs@)[0] == attrs@[0]@);
        if attrs[0].as_str().is_empty() {
            let mut m = copy_str("上传字段 ");
            push_str(&mut m, field.as_str());
            push_str(&mut m, " 没有文件路径");
            return Err(ParseError::new(m));
        }
        let upload = FileUpload {
            field: field,
            path: attrs[0].clone(),
            filename: attribute_of(&attrs, "filename="),
            content_type: attribute_of(&attrs, "type="),
        };
        let ghost before = files.deep_view();
        files.push(upload);
        assert(files.deep_view() =~= before.push(upload@));
    } else {
        let ghost before = form.deep_view();
        let param = RequestParam::new(field, content, true);
        form.push(param);
        assert(form.deep_view() =~= before.push(param@));
    }
    Ok(())
}

/// The query and body parts that the data arguments give, after the URL's own query.
fn query_and_body(arguments: &ParsedArguments, query_parts: Vec<DataPart>) -> (r: (
    Vec<DataPart>,
    Vec<DataPart>,
))
    ensures
        ({
            let a = arguments@;
            let data_parts = a.data.map_values(|d: DataArg| data_part(d));
            &&& r.0.deep_view() == (if a.use_get {
                query_parts.deep_view() + data_parts
            } else {
                query_parts.deep_view()
            })
            &&& r.1.deep_view() == (if a.use_get {
                Seq::empty()
            } else if form_encoded(content_type(a.headers), a.data) {
                form_body(a.data)
            } else {
                data_parts
            })
        }),
{
    let ghost a = arguments@;
    let mut query_parts = query_parts;
    let mut data_parts: Vec<DataPart> = Vec::new();
    let mut i: usize = 0;
    while i < arguments.data.len()
        invariant
            a == arguments@,
            i <= arguments.data@.len(),
            data_parts@.len() == i,
            forall|j: int|
                0 <= j < i ==> #[trigger] data_parts@[j]@ == data_part(arguments.data@[j]@),
        decreases arguments.data@.len() - i,
    {
        data_parts.push(data_argument_to_part(&arguments.data[i]));
        i = i + 1;
    }
    assert(data_parts.deep_view() =~= a.data.map_values(|d: DataArg| data_part(d)));
    if arguments.use_get {
        let ghost q = query_parts.deep_view();
        query_parts.append(&mut data_parts);
        assert(query_parts.deep_view() =~= q + a.data.map_values(|d: DataArg| data_part(d)));
        let empty: Vec<DataPart> = Vec::new();
        assert(empty.deep_view() =~= Seq::<PartView>::empty());
        return (query_parts, empty);
    }
    let ct = content_type_of(&arguments.headers);
    let encoded = match &ct {
        Some(t) => starts_with_str(t.as_str(), "application/x-www-form-urlencoded"),
        None => {
            let mut all = true;
            let mut j: usize = 0;
            while j < arguments.data.len()
                invariant
                    a == arguments@,
                    j <= arguments.data@.len(),
                    all == (forall|k: int|
                        0 <= k < j ==> (#[trigger] a.data[k] matches DataArg::Plain(t)
                            && looks_like_form(t))),
                decreases arguments.data@.len() - j,
            {
                assert(a.data[j as int] == arguments.data@[j as int]@);
                let ok = match &arguments.data[j] {
                    DataArgument::Plain(text) => form_like(text.as_str()),
                    DataArgument::UrlEncoded(_) => false,
                };
                all = all && ok;
                j = j + 1;
            }
            all
        },
    };
    if !encoded {
        return (query_parts, data_parts);
    }
    let mut body_parts: Vec<DataPart> = Vec::new();
    let mut k: usize = 0;
    assert(body_parts.deep_view() =~= form_body(a.data.take(0)));
    while k < arguments.data.len()
        invariant
            a == arguments@,
            k <= arguments.data@.len(),
            body_parts.deep_view() == form_body(a.data.take(k as int)),
        decreases arguments.data@.len() - k,
    {
        assert(a.data.take(k + 1).drop_last() =~= a.data.take(k as int));
        assert(a.data.take(k + 1).last() == arguments.data@[k as int]@);
        let ghost before = body_parts.deep_view();
        match &arguments.data[k] {
            DataArgument::Plain(value) => {
                let mut pieces = raw_parts_of(split_str(value.as_str(), '&'));
                body_parts.append(&mut pieces);
            },
            DataArgument::UrlEncoded(value) => {
                let part = DataPart::UrlEncoded(RequestParam::from_text(value.as_str()));
                body_parts.push(part);
                assert(body_parts.deep_view() =~= before + seq![part@]);
            },
        }
        proof {
            assert(body_parts.deep_view() =~= form_body(a.data.take(k + 1)));
        }
        k = k + 1;
    }
    assert(a.data.take(a.data.len() as int) =~= a.data);
    (query_parts, body_parts)
}

/// The form fields and uploads that the `-F` and `--form-string` values give.
fn collect_forms(forms: &Vec<FormArgument>) -> (r: Result<
    (Vec<RequestParam>, Vec<FileUpload>),
    ParseError,
>)
    ensures
        ({
            let fv = forms@.map_values(|f: FormArgument| f@);
            match r {
                Ok((form, files)) => forms_run(fv, Seq::empty(), Seq::empty()) == Ok::<
                    (Seq<ParamView>, Seq<FileView>),
                    Seq<char>,
                >((form.deep_view(), files.deep_view())),
                Err(e) => forms_run(fv, Seq::empty(), Seq::empty()) == Err::<
                    (Seq<ParamView>, Seq<FileView>),
                    Seq<char>,
                >(e.spec_message()),
            }
        }),
{
    let ghost fv = forms@.map_values(|f: FormArgument| f@);
    let mut form: Vec<RequestParam> = Vec::new();
    let mut files: Vec<FileUpload> = Vec::new();
    let mut m: usize = 0;
    assert(fv.skip(0) =~= fv);
    assert(form.deep_view() =~= Seq::<ParamView>::empty());
    assert(files.deep_view() =~= Seq::<FileView>::empty());
    while m < forms.len()
        invariant
            fv == forms@.map_values(|f: FormArgument| f@),
            m <= forms@.len(),
            forms_run(fv, Seq::empty(), Seq::empty()) == forms_run(
                fv.skip(m as int),
                form.deep_view(),
                files.deep_view(),
            ),
        decreases forms@.len() - m,
    {
        assert(fv.skip(m as int)[0] == forms@[m as int]@);
        assert(fv.skip(m as int).drop_first() =~= fv.skip(m + 1));
        let outcome = match &forms[m] {
            FormArgument::Form(value) => parse_form_part(value.as_str(), &mut form, &mut files, true),
            FormArgument::Literal(value) => parse_form_part(
                value.as_str(),
                &mut form,
                &mut files,
                false,
            ),
        };
        if let Err(e) = outcome {
            return Err(e);
        }
        m = m + 1;
    }
    assert(fv.skip(m as int) =~= Seq::<FormArg>::empty());
    Ok((form, files))
}

pub fn build_request(arguments: ParsedArguments) -> (r: Result<ImportedRequest, ParseError>)
    ensures
        match r {
            Ok(request) => spec_build(arguments@) == Ok::<ImportedView, Seq<char>>(request@),
            Err(e) => spec_build(arguments@) == Err::<ImportedView, Seq<char>>(e.spec_message()),
        },
{
    let ghost a = arguments@;
    let has_body = arguments.data.len() > 0 || arguments.forms.len() > 0;
    let source_url = match merge_url_fragments(&arguments.urls) {
        Ok(u) => u,
        Err(e) => return Err(e),
    };
    let (url, query_parts) = match split_url(source_url.as_str()) {
        Ok(pair) => pair,
        Err(e) => return Err(e),
    };
    let (query_parts, body_parts) = query_and_body(&arguments, query_parts);
    let (form, files) = match collect_forms(&arguments.forms) {
        Ok(pair) => pair,
        Err(e) => return Err(e),
    };
    let method = match arguments.method {
        Some(method) => method,
        None => if arguments.use_get {
            "GET".to_owned()
        } else if has_body {
            "POST".to_owned()
        } else {
            "GET".to_owned()
        },
    };
    if crate::http_method::parse(method.as_str()).is_none() {
        return Err(message_with("HTTP 方法无效: ", method.as_str()));
    }
    Ok(
        ImportedRequest {
            method: to_upper_str(method.as_str()),
            url,
            headers: arguments.headers,
            query_parts,
            body_parts,
            form,
            files,
            max_time: arguments.timeout,
            skip_ssl_verification: arguments.skip_ssl_verification,
        },
    )
}

proof fn lemma_curl_index(tokens: Seq<Seq<char>>)
    ensures
        -1 <= curl_index(tokens) < tokens.len(),
    decreases tokens.len(),
{
    if tokens.len() > 0 {
        lemma_curl_index(tokens.drop_first());
    }
}

proof fn lemma_tokenize_len(command: Seq<char>)
    ensures
        spec_tokenize(command) is Ok ==> spec_tokenize(command)->Ok_0.len() >= 2,
{
    match tok_run(command, tok_start()) {
        None => {},
        Some(end) => {
            let tokens = if end.started {
                end.tokens.push(end.token)
            } else {
                end.tokens
            };
            lemma_curl_index(tokens);
        },
    }
}

proof fn lemma_repair_nonempty(tokens: Seq<Seq<char>>)
    requires
        tokens.len() >= 1,
    ensures
        repair(tokens).len() >= 1,
{
}

/// Imports a pasted cURL command.
pub fn parse(command: &str) -> (r: Result<ImportedRequest, ParseError>)
    ensures
        match r {
            Ok(request) => spec_parse(command@) == Ok::<ImportedView, Seq<char>>(request@),
            Err(e) => spec_parse(command@) == Err::<ImportedView, Seq<char>>(e.spec_message()),
        },
{
    if command.len() > MAX_COMMAND_BYTES {
        return Err(ParseError::new("cURL 命令超过 4 MiB".to_owned()));
    }
    let tokenized = match tokenize(command) {
        Ok(t) => t,
        Err(e) => return Err(e),
    };
    proof {
        lemma_tokenize_len(command@);
        lemma_repair_nonempty(views(tokenized@));
    }
    let tokens = repair_option_markers(tokenized);
    let ghost all = views(tokens@);
    let mut rest: Vec<String> = Vec::new();
    let mut i: usize = 1;
    while i < tokens.len()
        invariant
            all == views(tokens@),
            1 <= i <= tokens@.len(),
            views(rest@) =~= all.subrange(1, i as int),
        decreases tokens@.len() - i,
    {
        assert(all[i as int] == tokens@[i as int]@);
        let ghost before = views(rest@);
        rest.push(tokens[i].clone());
        assert(views(rest@) =~= before.push(all[i as int]));
        assert(all.subrange(1, i + 1) =~= all.subrange(1, i as int).push(all[i as int]));
        i = i + 1;
    }
    assert(all.subrange(1, all.len() as int) =~= all.drop_first());
    let arguments = match parse_arguments(&rest) {
        Ok(a) => a,
        Err(e) => return Err(e),
    };
    build_request(arguments)
}

} // verus!
