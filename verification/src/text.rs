//! Character-level text helpers shared by the parsers and editors.
use vstd::prelude::*;

verus! {

/// The Unicode `White_Space` property, which is what `char::is_whitespace` tests.
pub open spec fn is_space(c: char) -> bool {
    let v = c as u32;
    ||| v == 0x20
    ||| (0x09 <= v && v <= 0x0D)
    ||| v == 0x85
    ||| v == 0xA0
    ||| v == 0x1680
    ||| (0x2000 <= v && v <= 0x200A)
    ||| v == 0x2028
    ||| v == 0x2029
    ||| v == 0x202F
    ||| v == 0x205F
    ||| v == 0x3000
}

pub fn space_char(c: char) -> (r: bool)
    ensures
        r == is_space(c),
{
    let v = c as u32;
    v == 0x20 || (0x09 <= v && v <= 0x0D) || v == 0x85 || v == 0xA0 || v == 0x1680 || (0x2000
        <= v && v <= 0x200A) || v == 0x2028 || v == 0x2029 || v == 0x202F || v == 0x205F || v
        == 0x3000
}

/// `s` without its leading white space.
pub open spec fn trim_start(s: Seq<char>) -> Seq<char>
    decreases s.len(),
{
    if s.len() > 0 && is_space(s[0]) {
        trim_start(s.drop_first())
    } else {
        s
    }
}

/// `s` without its trailing white space.
pub open spec fn trim_end(s: Seq<char>) -> Seq<char>
    decreases s.len(),
{
    if s.len() > 0 && is_space(s.last()) {
        trim_end(s.drop_last())
    } else {
        s
    }
}

/// `s` without leading and trailing white space, as `str::trim` gives it.
pub open spec fn trim(s: Seq<char>) -> Seq<char> {
    trim_end(trim_start(s))
}

#[verifier::external_body]
pub fn chars_of(s: &str) -> (r: Vec<char>)
    ensures
        r@ == s@,
{
    s.chars().collect()
}

#[verifier::external_body]
pub fn string_of(v: &[char]) -> (r: String)
    ensures
        r@ == v@,
{
    v.iter().collect()
}

/// The bounds `(start, end)` of `v` without surrounding white space.
pub fn trim_bounds(v: &[char]) -> (r: (usize, usize))
    ensures
        r.0 <= r.1 <= v@.len(),
        v@.subrange(r.0 as int, r.1 as int) == trim(v@),
        trim_start(v@) == v@.skip(r.0 as int),
{
    let mut i: usize = 0;
    assert(v@.skip(0) =~= v@);
    while i < v.len() && space_char(v[i])
        invariant
            i <= v@.len(),
            trim_start(v@) == trim_start(v@.skip(i as int)),
        decreases v@.len() - i,
    {
        assert(v@.skip(i as int).drop_first() =~= v@.skip(i + 1));
        i = i + 1;
    }
    assert(trim_start(v@.skip(i as int)) == v@.skip(i as int));
    let mut j: usize = v.len();
    while j > i && space_char(v[j - 1])
        invariant
            i <= j <= v@.len(),
            trim_start(v@) == v@.skip(i as int),
            trim(v@) == trim_end(v@.subrange(i as int, j as int)),
        decreases j,
    {
        assert(v@.subrange(i as int, j as int).drop_last() =~= v@.subrange(i as int, j - 1));
        j = j - 1;
    }
    assert(trim_end(v@.subrange(i as int, j as int)) == v@.subrange(i as int, j as int));
    (i, j)
}


/// ASCII lowercase of one character, as `char::to_ascii_lowercase` gives it.
pub open spec fn lower(c: char) -> char {
    if 65 <= (c as u32) && (c as u32) <= 90 {
        ((c as u32) + 32) as char
    } else {
        c
    }
}

/// ASCII uppercase of one character, as `char::to_ascii_uppercase` gives it.
pub open spec fn upper(c: char) -> char {
    if 97 <= (c as u32) && (c as u32) <= 122 {
        ((c as u32) - 32) as char
    } else {
        c
    }
}

pub open spec fn lower_seq(s: Seq<char>) -> Seq<char> {
    s.map_values(|c: char| lower(c))
}

pub open spec fn upper_seq(s: Seq<char>) -> Seq<char> {
    s.map_values(|c: char| upper(c))
}

/// The two texts are equal up to ASCII case.
pub open spec fn eq_ignore_case(a: Seq<char>, b: Seq<char>) -> bool {
    lower_seq(a) == lower_seq(b)
}

/// `p` occurs in `s` at offset `k`.
pub open spec fn matches_at(s: Seq<char>, p: Seq<char>, k: int) -> bool {
    0 <= k && k + p.len() <= s.len() && s.subrange(k, k + p.len()) == p
}

/// The offset of the first occurrence of `p` in `s`, or -1.
pub open spec fn find(s: Seq<char>, p: Seq<char>) -> int
    decreases s.len(),
{
    if p.is_prefix_of(s) {
        0
    } else if s.len() == 0 {
        -1
    } else {
        let r = find(s.drop_first(), p);
        if r < 0 {
            -1
        } else {
            r + 1
        }
    }
}

pub open spec fn contains(s: Seq<char>, p: Seq<char>) -> bool {
    find(s, p) >= 0
}

pub open spec fn starts_with(s: Seq<char>, p: Seq<char>) -> bool {
    p.is_prefix_of(s)
}

pub open spec fn ends_with(s: Seq<char>, p: Seq<char>) -> bool {
    p.len() <= s.len() && s.skip(s.len() - p.len()) == p
}

/// `str::split_once`: the text before and after the first occurrence of `p`.
pub open spec fn split_once(s: Seq<char>, p: Seq<char>) -> Option<(Seq<char>, Seq<char>)> {
    let k = find(s, p);
    if k < 0 {
        None
    } else {
        Some((s.take(k), s.skip(k + p.len())))
    }
}

pub open spec fn strip_prefix(s: Seq<char>, p: Seq<char>) -> Option<Seq<char>> {
    if starts_with(s, p) {
        Some(s.skip(p.len() as int))
    } else {
        None
    }
}

pub open spec fn strip_suffix(s: Seq<char>, p: Seq<char>) -> Option<Seq<char>> {
    if ends_with(s, p) {
        Some(s.take(s.len() - p.len()))
    } else {
        None
    }
}

/// `str::split` on one separator character.
pub open spec fn split(s: Seq<char>, c: char) -> Seq<Seq<char>>
    decreases s.len(),
{
    let k = find(s, seq![c]);
    if k < 0 {
        seq![s]
    } else {
        proof {
            lemma_find_bounds(s, seq![c]);
        }
        seq![s.take(k)] + split(s.skip(k + 1), c)
    }
}

/// `join` of the pieces with `sep` between consecutive pieces.
pub open spec fn join(parts: Seq<Seq<char>>, sep: Seq<char>) -> Seq<char>
    decreases parts.len(),
{
    if parts.len() == 0 {
        Seq::empty()
    } else if parts.len() == 1 {
        parts[0]
    } else {
        join(parts.drop_last(), sep) + sep + parts.last()
    }
}

pub proof fn lemma_find_bounds(s: Seq<char>, p: Seq<char>)
    ensures
        -1 <= find(s, p),
        find(s, p) >= 0 ==> find(s, p) <= s.len() - p.len(),
        find(s, p) >= 0 ==> matches_at(s, p, find(s, p)),
        find(s, p) >= 0 ==> forall|j: int| 0 <= j < find(s, p) ==> !matches_at(s, p, j),
        find(s, p) < 0 ==> forall|j: int| !matches_at(s, p, j),
    decreases s.len(),
{
    if p.is_prefix_of(s) {
        assert(s.subrange(0, p.len() as int) =~= p);
    } else {
        if !(p.len() <= s.len()) {
        } else {
            assert(!(s.subrange(0, p.len() as int) =~= p)) by {
                if s.subrange(0, p.len() as int) =~= p {
                    assert forall|i: int| 0 <= i < p.len() implies p[i] == s[i] by {
                        assert(s.subrange(0, p.len() as int)[i] == s[i]);
                    }
                }
            }
        }
        if s.len() > 0 {
            lemma_find_bounds(s.drop_first(), p);
            assert forall|j: int| 1 <= j implies #[trigger] matches_at(s, p, j) == matches_at(
                s.drop_first(),
                p,
                j - 1,
            ) by {
                if 0 <= j - 1 && j - 1 + p.len() <= s.drop_first().len() {
                    assert(s.drop_first().subrange(j - 1, j - 1 + p.len()) =~= s.subrange(
                        j,
                        j + p.len(),
                    ));
                }
            }
            assert(!matches_at(s, p, 0));
        } else {
            assert forall|j: int| !matches_at(s, p, j) by {}
        }
    }
}

/// Matching at offset zero is the same as being a prefix.
pub proof fn lemma_prefix_matches(s: Seq<char>, p: Seq<char>)
    ensures
        p.is_prefix_of(s) == matches_at(s, p, 0),
{
    if matches_at(s, p, 0) {
        assert forall|i: int| 0 <= i < p.len() implies p[i] == s[i] by {
            assert(s.subrange(0, p.len() as int)[i] == s[i]);
        }
    }
    if p.is_prefix_of(s) {
        assert(s.subrange(0, p.len() as int) =~= p);
    }
}

#[verifier::external_body]
pub fn lower_char(c: char) -> (r: char)
    ensures
        r == lower(c),
{
    c.to_ascii_lowercase()
}

#[verifier::external_body]
pub fn upper_char(c: char) -> (r: char)
    ensures
        r == upper(c),
{
    c.to_ascii_uppercase()
}

/// Whether `p` occurs in `s` at offset `k`.
pub fn matches_here(s: &[char], p: &[char], k: usize) -> (r: bool)
    ensures
        r == matches_at(s@, p@, k as int),
{
    if k > s.len() || p.len() > s.len() - k {
        return false;
    }
    let mut i: usize = 0;
    while i < p.len()
        invariant
            k + p.len() <= s.len(),
            i <= p@.len(),
            forall|j: int| 0 <= j < i ==> s@[k + j] == p@[j],
        decreases p@.len() - i,
    {
        assert(k + i < s.len());
        if s[k + i] != p[i] {
            assert(s@.subrange(k as int, k + p@.len())[i as int] != p@[i as int]);
            return false;
        }
        i = i + 1;
    }
    assert(s@.subrange(k as int, k + p@.len()) =~= p@);
    true
}

/// The first offset at which `p` occurs in `s`.
pub fn find_in(s: &[char], p: &[char]) -> (r: Option<usize>)
    ensures
        match r {
            Some(k) => find(s@, p@) == k,
            None => find(s@, p@) < 0,
        },
{
    proof {
        lemma_find_bounds(s@, p@);
    }
    if p.len() > s.len() {
        return None;
    }
    let mut k: usize = 0;
    while k <= s.len() - p.len()
        invariant
            p@.len() <= s@.len(),
            k <= s@.len() - p@.len() + 1,
            forall|j: int| 0 <= j < k ==> !matches_at(s@, p@, j),
            -1 <= find(s@, p@),
            find(s@, p@) >= 0 ==> matches_at(s@, p@, find(s@, p@)),
            find(s@, p@) >= 0 ==> forall|j: int| 0 <= j < find(s@, p@) ==> !matches_at(s@, p@, j),
            find(s@, p@) < 0 ==> forall|j: int| !matches_at(s@, p@, j),
        decreases s@.len() - k,
    {
        if matches_here(s, p, k) {
            return Some(k);
        }
        k = k + 1;
    }
    None
}


pub open spec fn views(v: Seq<String>) -> Seq<Seq<char>> {
    v.map_values(|x: String| x@)
}

pub fn trim_str(s: &str) -> (r: String)
    ensures
        r@ == trim(s@),
{
    let v = chars_of(s);
    let (a, b) = trim_bounds(v.as_slice());
    string_of(&v.as_slice()[a..b])
}

pub fn trim_start_str(s: &str) -> (r: String)
    ensures
        r@ == trim_start(s@),
{
    let v = chars_of(s);
    let (a, _b) = trim_bounds(v.as_slice());
    string_of(&v.as_slice()[a..v.len()])
}

pub fn trim_end_str(s: &str) -> (r: String)
    ensures
        r@ == trim_end(s@),
{
    let v = chars_of(s);
    let mut j: usize = v.len();
    assert(v@.take(v@.len() as int) =~= v@);
    while j > 0 && space_char(v[j - 1])
        invariant
            j <= v@.len(),
            trim_end(v@) == trim_end(v@.take(j as int)),
        decreases j,
    {
        assert(v@.take(j as int).drop_last() =~= v@.take(j - 1));
        j = j - 1;
    }
    assert(v@.take(v@.len() as int) =~= v@);
    string_of(&v.as_slice()[0..j])
}

pub fn eq_chars(a: &[char], b: &[char]) -> (r: bool)
    ensures
        r == (a@ == b@),
{
    if a.len() != b.len() {
        return false;
    }
    let mut i: usize = 0;
    while i < a.len()
        invariant
            a@.len() == b@.len(),
            i <= a@.len(),
            forall|j: int| 0 <= j < i ==> a@[j] == b@[j],
        decreases a@.len() - i,
    {
        if a[i] != b[i] {
            return false;
        }
        i = i + 1;
    }
    assert(a@ =~= b@);
    true
}

pub fn eq_str(a: &str, b: &str) -> (r: bool)
    ensures
        r == (a@ == b@),
{
    let x = chars_of(a);
    let y = chars_of(b);
    eq_chars(x.as_slice(), y.as_slice())
}

pub fn eq_ignore_case_str(a: &str, b: &str) -> (r: bool)
    ensures
        r == eq_ignore_case(a@, b@),
{
    let x = chars_of(a);
    let y = chars_of(b);
    if x.len() != y.len() {
        assert(lower_seq(a@).len() != lower_seq(b@).len());
        return false;
    }
    let mut i: usize = 0;
    while i < x.len()
        invariant
            x@ == a@,
            y@ == b@,
            x@.len() == y@.len(),
            i <= x@.len(),
            forall|j: int| 0 <= j < i ==> lower(x@[j]) == lower(y@[j]),
        decreases x@.len() - i,
    {
        if lower_char(x[i]) != lower_char(y[i]) {
            assert(lower_seq(a@)[i as int] != lower_seq(b@)[i as int]);
            return false;
        }
        i = i + 1;
    }
    assert(lower_seq(a@) =~= lower_seq(b@));
    true
}

pub fn to_lower_str(s: &str) -> (r: String)
    ensures
        r@ == lower_seq(s@),
{
    let v = chars_of(s);
    let mut out: Vec<char> = Vec::new();
    let mut i: usize = 0;
    while i < v.len()
        invariant
            i <= v@.len(),
            out@ =~= lower_seq(v@.take(i as int)),
        decreases v@.len() - i,
    {
        out.push(lower_char(v[i]));
        i = i + 1;
        assert(out@ =~= lower_seq(v@.take(i as int)));
    }
    assert(v@.take(v@.len() as int) =~= v@);
    string_of(out.as_slice())
}

pub fn to_upper_str(s: &str) -> (r: String)
    ensures
        r@ == upper_seq(s@),
{
    let v = chars_of(s);
    let mut out: Vec<char> = Vec::new();
    let mut i: usize = 0;
    while i < v.len()
        invariant
            i <= v@.len(),
            out@ =~= upper_seq(v@.take(i as int)),
        decreases v@.len() - i,
    {
        out.push(upper_char(v[i]));
        i = i + 1;
        assert(out@ =~= upper_seq(v@.take(i as int)));
    }
    assert(v@.take(v@.len() as int) =~= v@);
    string_of(out.as_slice())
}

pub fn find_str(s: &str, p: &str) -> (r: Option<usize>)
    ensures
        match r {
            Some(k) => find(s@, p@) == k,
            None => find(s@, p@) < 0,
        },
{
    let v = chars_of(s);
    let w = chars_of(p);
    find_in(v.as_slice(), w.as_slice())
}

pub fn contains_str(s: &str, p: &str) -> (r: bool)
    ensures
        r == contains(s@, p@),
{
    find_str(s, p).is_some()
}

pub fn contains_char(s: &str, c: char) -> (r: bool)
    ensures
        r == contains(s@, seq![c]),
        r == s@.contains(c),
{
    let v = chars_of(s);
    let w = vec![c];
    assert(w@ =~= seq![c]);
    let r = find_in(v.as_slice(), w.as_slice()).is_some();
    proof {
        lemma_find_bounds(s@, seq![c]);
        if r {
            let k = find(s@, seq![c]);
            assert(s@.subrange(k, k + 1)[0] == s@[k]);
        } else {
            assert forall|i: int| 0 <= i < s@.len() implies s@[i] != c by {
                if s@[i] == c {
                    assert(s@.subrange(i, i + 1) =~= seq![c]);
                    assert(matches_at(s@, seq![c], i));
                }
            }
        }
    }
    r
}

pub fn starts_with_str(s: &str, p: &str) -> (r: bool)
    ensures
        r == starts_with(s@, p@),
{
    let v = chars_of(s);
    let w = chars_of(p);
    proof {
        lemma_prefix_matches(s@, p@);
    }
    matches_here(v.as_slice(), w.as_slice(), 0)
}

pub fn ends_with_str(s: &str, p: &str) -> (r: bool)
    ensures
        r == ends_with(s@, p@),
{
    let v = chars_of(s);
    let w = chars_of(p);
    if w.len() > v.len() {
        return false;
    }
    let r = matches_here(v.as_slice(), w.as_slice(), v.len() - w.len());
    assert(v@.subrange(v@.len() - w@.len(), v@.len() as int) =~= v@.skip(v@.len() - w@.len()));
    r
}

pub fn strip_prefix_str(s: &str, p: &str) -> (r: Option<String>)
    ensures
        match r {
            Some(x) => strip_prefix(s@, p@) == Some(x@),
            None => strip_prefix(s@, p@) is None,
        },
{
    if starts_with_str(s, p) {
        let v = chars_of(s);
        let n = chars_of(p).len();
        Some(string_of(&v.as_slice()[n..v.len()]))
    } else {
        None
    }
}

pub fn strip_suffix_str(s: &str, p: &str) -> (r: Option<String>)
    ensures
        match r {
            Some(x) => strip_suffix(s@, p@) == Some(x@),
            None => strip_suffix(s@, p@) is None,
        },
{
    if ends_with_str(s, p) {
        let v = chars_of(s);
        let n = chars_of(p).len();
        Some(string_of(&v.as_slice()[0..v.len() - n]))
    } else {
        None
    }
}

pub fn split_once_str(s: &str, p: &str) -> (r: Option<(String, String)>)
    ensures
        match r {
            Some((a, b)) => split_once(s@, p@) == Some((a@, b@)),
            None => split_once(s@, p@) is None,
        },
{
    let v = chars_of(s);
    let w = chars_of(p);
    proof {
        lemma_find_bounds(s@, p@);
    }
    match find_in(v.as_slice(), w.as_slice()) {
        Some(k) => {
            assert(k + w@.len() <= v@.len());
            assert(k + w.len() <= v.len());
            let a = string_of(&v.as_slice()[0..k]);
            let b = string_of(&v.as_slice()[k + w.len()..v.len()]);
            Some((a, b))
        },
        None => None,
    }
}

#[verifier::external_body]
pub fn push_char(s: &mut String, c: char)
    ensures
        final(s)@ == old(s)@.push(c),
{
    s.push(c);
}

#[verifier::external_body]
pub fn push_str(s: &mut String, t: &str)
    ensures
        final(s)@ == old(s)@ + t@,
{
    s.push_str(t);
}

pub fn copy_str(s: &str) -> (r: String)
    ensures
        r@ == s@,
{
    s.to_owned()
}

pub proof fn lemma_split_step(s: Seq<char>, c: char, k: int)
    requires
        find(s, seq![c]) == k,
        k >= 0,
    ensures
        split(s, c) == seq![s.take(k)] + split(s.skip(k + 1), c),
{
    lemma_find_bounds(s, seq![c]);
}

pub proof fn lemma_split_nonempty(s: Seq<char>, c: char)
    ensures
        split(s, c).len() >= 1,
        split(s, c)[0] == (if find(s, seq![c]) < 0 {
            s
        } else {
            s.take(find(s, seq![c]))
        }),
{
}

pub fn split_str(s: &str, c: char) -> (r: Vec<String>)
    ensures
        views(r@) == split(s@, c),
{
    let v = chars_of(s);
    let sep = vec![c];
    assert(sep@ =~= seq![c]);
    let mut out: Vec<String> = Vec::new();
    let mut start: usize = 0;
    assert(v@.skip(0) =~= v@);
    loop
        invariant
            start <= v@.len(),
            v@ == s@,
            sep@ == seq![c],
            views(out@) + split(v@.skip(start as int), c) == split(v@, c),
        decreases v@.len() - start,
    {
        let rest = &v.as_slice()[start..v.len()];
        assert(rest@ =~= v@.skip(start as int));
        proof {
            lemma_find_bounds(rest@, sep@);
        }
        match find_in(rest, sep.as_slice()) {
            Some(k) => {
                let piece = string_of(&rest[0..k]);
                proof {
                    lemma_split_step(rest@, c, k as int);
                    assert(rest@.skip(k + 1) =~= v@.skip(start + k + 1));
                    assert(rest@.take(k as int) =~= rest@.subrange(0, k as int));
                }
                let ghost before = views(out@);
                out.push(piece);
                assert(views(out@) =~= before + seq![piece@]);
                start = start + k + 1;
            },
            None => {
                assert(split(rest@, c) == seq![rest@]);
                let piece = string_of(rest);
                let ghost before = views(out@);
                out.push(piece);
                assert(views(out@) =~= before + seq![piece@]);
                return out;
            },
        }
    }
}

pub fn join_strs(parts: &[String], sep: &str) -> (r: String)
    ensures
        r@ == join(views(parts@), sep@),
{
    let mut out = String::new();
    let mut i: usize = 0;
    while i < parts.len()
        invariant
            i <= parts@.len(),
            out@ == join(views(parts@.take(i as int)), sep@),
        decreases parts@.len() - i,
    {
        let ghost prev = parts@.take(i as int);
        if i > 0 {
            push_str(&mut out, sep);
        }
        push_str(&mut out, parts[i].as_str());
        i = i + 1;
        proof {
            let cur = views(parts@.take(i as int));
            assert(cur.drop_last() =~= views(prev));
            assert(views(prev).len() == i - 1);
            if i == 1 {
                assert(cur =~= seq![parts@[0]@]);
            }
        }
    }
    assert(parts@.take(parts@.len() as int) =~= parts@);
    out
}

} // verus!


verus! {

pub open spec fn digit(d: nat) -> char {
    ((d + 48) as u32) as char
}

/// The decimal numeral of `n`, as `n.to_string()` writes it.
pub open spec fn decimal(n: nat) -> Seq<char>
    decreases n,
{
    if n < 10 {
        seq![digit(n)]
    } else {
        decimal(n / 10).push(digit(n % 10))
    }
}

pub fn digit_char(d: u64) -> (r: char)
    requires
        d < 10,
    ensures
        r == digit(d as nat),
{
    let b: u8 = (d as u8) + 48;
    b as char
}

pub fn decimal_string(n: u64) -> (r: String)
    ensures
        r@ == decimal(n as nat),
    decreases n,
{
    if n < 10 {
        let mut s = String::new();
        push_char(&mut s, digit_char(n));
        assert(s@ =~= seq![digit(n as nat)]);
        s
    } else {
        let mut s = decimal_string(n / 10);
        push_char(&mut s, digit_char(n % 10));
        s
    }
}

} // verus!
