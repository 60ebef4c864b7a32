//! Where a workspace keeps its files, and the names and identifiers taken from their paths.
use vstd::prelude::*;
use crate::documents::RequestDocument;
use crate::text::{
    chars_of, copy_str, ends_with, ends_with_str, eq_str, join, join_strs, push_str, split, split_str, starts_with,
    starts_with_str, string_of, trim, trim_str, views,
};

verus! {

/// A request file once read: its identifier (its path below the workspace) and its document.
pub struct ParsedRequest {
    pub id: String,
    pub document: RequestDocument,
}

/// The file name that a path ends in: its last part that is neither empty nor `.`,
/// and none when that part is `..`.
pub open spec fn last_name(parts: Seq<Seq<char>>) -> Option<Seq<char>>
    decreases parts.len(),
{
    if parts.len() == 0 {
        None
    } else if parts.last().len() == 0 || parts.last() == "."@ {
        last_name(parts.drop_last())
    } else if parts.last() == ".."@ {
        None
    } else {
        Some(parts.last())
    }
}

pub open spec fn file_name(path: Seq<char>) -> Option<Seq<char>> {
    last_name(split(path, '/'))
}

pub fn path_file_name(path: &str) -> (r: Option<String>)
    ensures
        r.deep_view() == file_name(path@),
{
    let parts = split_str(path, '/');
    let ghost pv = views(parts@);
    let mut i: usize = parts.len();
    assert(pv.take(pv.len() as int) =~= pv);
    while i > 0 && (parts[i - 1].as_str().is_empty() || eq_str(parts[i - 1].as_str(), "."))
        invariant
            pv == views(parts@),
            i <= parts@.len(),
            last_name(pv) == last_name(pv.take(i as int)),
        decreases i,
    {
        assert(pv.take(i as int).last() == parts@[i - 1]@);
        assert(pv.take(i as int).drop_last() =~= pv.take(i - 1));
        i = i - 1;
    }
    if i == 0 {
        assert(pv.take(0) =~= Seq::<Seq<char>>::empty());
        return None;
    }
    assert(pv.take(i as int).last() == parts@[i - 1]@);
    if eq_str(parts[i - 1].as_str(), "..") {
        return None;
    }
    Some(parts[i - 1].clone())
}

/// The index of the last `.` among the first `i` characters, or -1.
pub open spec fn last_dot_before(s: Seq<char>, i: int) -> int
    decreases i,
{
    if i <= 0 {
        -1
    } else if s[i - 1] == '.' {
        i - 1
    } else {
        last_dot_before(s, i - 1)
    }
}

/// A file name without its extension, as `Path::file_stem` gives it: what comes before
/// the last dot, unless that dot is the first character.
pub open spec fn stem_of(name: Seq<char>) -> Seq<char> {
    let i = last_dot_before(name, name.len() as int);
    if i <= 0 {
        name
    } else {
        name.take(i)
    }
}

pub fn file_stem_chars(name: &str) -> (r: Vec<char>)
    ensures
        r@ == stem_of(name@),
{
    let v = chars_of(name);
    let mut i: usize = v.len();
    while i > 0 && v[i - 1] != '.'
        invariant
            v@ == name@,
            i <= v@.len(),
            last_dot_before(v@, v@.len() as int) == last_dot_before(v@, i as int),
        decreases i,
    {
        i = i - 1;
    }
    if i <= 1 {
        return v;
    }
    let mut out: Vec<char> = Vec::new();
    let mut j: usize = 0;
    while j < i - 1
        invariant
            v@ == name@,
            1 < i <= v@.len(),
            j <= i - 1,
            out@ == v@.take(j as int),
        decreases i - 1 - j,
    {
        out.push(v[j]);
        assert(out@ =~= v@.take(j + 1));
        j = j + 1;
    }
    out
}


/// One part of a path applied to the parts kept so far: empty parts and `.` vanish, `..`
/// takes back the last part, or stays at the front of a relative path, or vanishes at the root.
pub open spec fn path_step(acc: Seq<Seq<char>>, rooted: bool, part: Seq<char>) -> Seq<Seq<char>> {
    if part.len() == 0 || part == "."@ {
        acc
    } else if part == ".."@ {
        if acc.len() > 0 && acc.last() != ".."@ {
            acc.drop_last()
        } else if !rooted {
            acc.push(".."@)
        } else {
            acc
        }
    } else {
        acc.push(part)
    }
}

pub open spec fn path_parts(ps: Seq<Seq<char>>, rooted: bool) -> Seq<Seq<char>>
    decreases ps.len(),
{
    if ps.len() == 0 {
        Seq::empty()
    } else {
        path_step(path_parts(ps.drop_last(), rooted), rooted, ps.last())
    }
}

/// A path with `.` and `..` resolved in its text, read with `/` between parts; `.` when
/// nothing is left.
pub open spec fn spec_normalize_path(p: Seq<char>) -> Seq<char> {
    let rooted = starts_with(p, "/"@);
    let text = (if rooted {
        "/"@
    } else {
        Seq::empty()
    }) + join(path_parts(split(p, '/'), rooted), "/"@);
    if text.len() == 0 {
        "."@
    } else {
        text
    }
}

pub fn normalize_path(path: &str) -> (r: String)
    ensures
        r@ == spec_normalize_path(path@),
{
    let rooted = starts_with_str(path, "/");
    let pieces = split_str(path, '/');
    let ghost pv = views(pieces@);
    let mut parts: Vec<String> = Vec::new();
    let mut i: usize = 0;
    assert(pv.take(0) =~= Seq::<Seq<char>>::empty());
    assert(views(parts@) =~= Seq::<Seq<char>>::empty());
    while i < pieces.len()
        invariant
            pv == views(pieces@),
            i <= pv.len(),
            views(parts@) == path_parts(pv.take(i as int), rooted),
        decreases pv.len() - i,
    {
        assert(pv.take(i + 1).drop_last() =~= pv.take(i as int));
        assert(pv.take(i + 1).last() == pieces@[i as int]@);
        let ghost before = views(parts@);
        let part = pieces[i].as_str();
        if part.is_empty() || eq_str(part, ".") {
        } else if eq_str(part, "..") {
            let n = parts.len();
            if n > 0 && !eq_str(parts[n - 1].as_str(), "..") {
                assert(before.last() == parts@[n - 1]@);
                parts.pop();
                assert(views(parts@) =~= before.drop_last());
            } else if !rooted {
                parts.push(copy_str(".."));
                assert(views(parts@) =~= before.push(".."@));
            }
        } else {
            parts.push(copy_str(part));
            assert(views(parts@) =~= before.push(part@));
        }
        i = i + 1;
    }
    assert(pv.take(pv.len() as int) =~= pv);
    let mut text = if rooted {
        copy_str("/")
    } else {
        String::new()
    };
    let joined = join_strs(parts.as_slice(), "/");
    push_str(&mut text, joined.as_str());
    if text.as_str().is_empty() {
        copy_str(".")
    } else {
        text
    }
}

/// The text with every `from` character turned into `to`.
pub open spec fn replace_char(s: Seq<char>, from: char, to: char) -> Seq<char> {
    s.map_values(|c: char| if c == from { to } else { c })
}

pub fn replace_char_str(s: &str, from: char, to: char) -> (r: String)
    ensures
        r@ == replace_char(s@, from, to),
{
    let v = chars_of(s);
    let mut out: Vec<char> = Vec::new();
    let mut i: usize = 0;
    while i < v.len()
        invariant
            v@ == s@,
            i <= v@.len(),
            out@ == replace_char(v@.take(i as int), from, to),
        decreases v@.len() - i,
    {
        let c = if v[i] == from { to } else { v[i] };
        out.push(c);
        assert(out@ =~= replace_char(v@.take(i + 1), from, to));
        i = i + 1;
    }
    assert(v@.take(v@.len() as int) =~= v@);
    string_of(out.as_slice())
}

pub open spec fn request_id_msg(value: Seq<char>) -> Seq<char> {
    "Request override path is invalid: "@ + value
}

/// The identifier of the request that a scenario's override names: the path, trimmed and
/// with `/` for `\`, must be relative and stay below the requests directory.
pub open spec fn spec_normalize_request_id(value: Seq<char>) -> Result<Seq<char>, Seq<char>> {
    let v = replace_char(trim(value), '\\', '/');
    if v.len() == 0 || starts_with(v, "/"@) || split(v, '/').contains(".."@) {
        Err(request_id_msg(v))
    } else {
        Ok("requests/"@ + spec_normalize_path(v))
    }
}

pub fn has_parent_part(path: &str) -> (r: bool)
    ensures
        r == split(path@, '/').contains(".."@),
{
    let parts = split_str(path, '/');
    let ghost pv = views(parts@);
    let mut i: usize = 0;
    while i < parts.len()
        invariant
            pv == views(parts@),
            pv == split(path@, '/'),
            i <= pv.len(),
            forall|j: int| 0 <= j < i ==> #[trigger] pv[j] != ".."@,
        decreases pv.len() - i,
    {
        assert(pv[i as int] == parts@[i as int]@);
        if eq_str(parts[i].as_str(), "..") {
            assert(pv.contains(".."@));
            return true;
        }
        i = i + 1;
    }
    false
}

pub fn normalize_request_id(value: &str) -> (r: Result<String, String>)
    ensures
        match r {
            Ok(id) => spec_normalize_request_id(value@) == Ok::<Seq<char>, Seq<char>>(id@),
            Err(e) => spec_normalize_request_id(value@) == Err::<Seq<char>, Seq<char>>(e@),
        },
{
    let trimmed = trim_str(value);
    let v = replace_char_str(trimmed.as_str(), '\\', '/');
    if v.as_str().is_empty() || starts_with_str(v.as_str(), "/") || has_parent_part(v.as_str()) {
        let mut m = copy_str("Request override path is invalid: ");
        push_str(&mut m, v.as_str());
        return Err(m);
    }
    let mut id = copy_str("requests/");
    push_str(&mut id, normalize_path(v.as_str()).as_str());
    Ok(id)
}

pub open spec fn is_ascii_alphanumeric(c: char) -> bool {
    ('0' <= c && c <= '9') || ('a' <= c && c <= 'z') || ('A' <= c && c <= 'Z')
}

pub open spec fn name_char(c: char) -> bool {
    is_ascii_alphanumeric(c) || c == '-' || c == '_' || c == '.'
}

/// A scenario's name: trimmed, not empty, of ASCII letters, digits, `-`, `_` and `.`.
pub open spec fn spec_configuration_name(value: Seq<char>) -> Option<Seq<char>> {
    let t = trim(value);
    if t.len() > 0 && forall|i: int| 0 <= i < t.len() ==> name_char(#[trigger] t[i]) {
        Some(t)
    } else {
        None
    }
}

pub fn normalize_configuration_name(value: &str) -> (r: Option<String>)
    ensures
        r.deep_view() == spec_configuration_name(value@),
{
    let t = trim_str(value);
    let v = chars_of(t.as_str());
    if v.len() == 0 {
        return None;
    }
    let mut i: usize = 0;
    while i < v.len()
        invariant
            v@ == t@,
            t@ == trim(value@),
            i <= v@.len(),
            forall|j: int| 0 <= j < i ==> name_char(#[trigger] v@[j]),
        decreases v@.len() - i,
    {
        let c = v[i];
        if !(('0' <= c && c <= '9') || ('a' <= c && c <= 'z') || ('A' <= c && c <= 'Z') || c == '-'
            || c == '_' || c == '.') {
            assert(!name_char(v@[i as int]));
            return None;
        }
        i = i + 1;
    }
    Some(t)
}

pub open spec fn ascii_lower(c: char) -> char {
    if 'A' <= c && c <= 'Z' {
        ((c as u32) + 32) as char
    } else {
        c
    }
}

/// The extension of a path's file name: what follows its last dot, unless that dot is
/// its first character.
pub open spec fn spec_extension(path: Seq<char>) -> Option<Seq<char>> {
    match file_name(path) {
        Some(n) => {
            let i = last_dot_before(n, n.len() as int);
            if i <= 0 {
                None
            } else {
                Some(n.skip(i + 1))
            }
        },
        None => None,
    }
}

/// A YAML file: one whose extension is `yaml` or `yml` in any ASCII case.
pub open spec fn spec_is_yaml_file(path: Seq<char>) -> bool {
    match spec_extension(path) {
        Some(e) => {
            let l = e.map_values(|c: char| ascii_lower(c));
            l == "yaml"@ || l == "yml"@
        },
        None => false,
    }
}

pub fn is_yaml_file(path: &str) -> (r: bool)
    ensures
        r == spec_is_yaml_file(path@),
{
    let name = match path_file_name(path) {
        Some(n) => n,
        None => return false,
    };
    let v = chars_of(name.as_str());
    let mut i: usize = v.len();
    while i > 0 && v[i - 1] != '.'
        invariant
            v@ == name@,
            i <= v@.len(),
            last_dot_before(v@, v@.len() as int) == last_dot_before(v@, i as int),
        decreases i,
    {
        i = i - 1;
    }
    if i <= 1 {
        return false;
    }
    let mut lowered: Vec<char> = Vec::new();
    let mut j: usize = i;
    while j < v.len()
        invariant
            v@ == name@,
            1 < i <= j <= v@.len(),
            lowered@ == v@.subrange(i as int, j as int).map_values(|c: char| ascii_lower(c)),
        decreases v@.len() - j,
    {
        let c = v[j];
        let l = if 'A' <= c && c <= 'Z' {
            let b: u8 = (c as u32) as u8;
            (b + 32) as char
        } else {
            c
        };
        lowered.push(l);
        assert(lowered@ =~= v@.subrange(i as int, j + 1).map_values(|c: char| ascii_lower(c)));
        j = j + 1;
    }
    assert(v@.subrange(i as int, v@.len() as int) =~= v@.skip(i as int));
    let l = string_of(lowered.as_slice());
    eq_str(l.as_str(), "yaml") || eq_str(l.as_str(), "yml")
}


/// The parts of a path that name something: neither empty nor `.`.
pub open spec fn kept_parts(p: Seq<char>) -> Seq<Seq<char>> {
    split(p, '/').filter(|x: Seq<char>| x.len() > 0 && x != "."@)
}

fn kept_parts_of(p: &str) -> (r: Vec<String>)
    ensures
        views(r@) == kept_parts(p@),
{
    let pieces = split_str(p, '/');
    let ghost pv = views(pieces@);
    let mut out: Vec<String> = Vec::new();
    let mut i: usize = 0;
    assert(pv.take(0).filter(|x: Seq<char>| x.len() > 0 && x != "."@) =~= Seq::<Seq<char>>::empty());
    while i < pieces.len()
        invariant
            pv == views(pieces@),
            pv == split(p@, '/'),
            i <= pv.len(),
            views(out@) == pv.take(i as int).filter(|x: Seq<char>| x.len() > 0 && x != "."@),
        decreases pv.len() - i,
    {
        assert(pv.take(i + 1).drop_last() =~= pv.take(i as int));
        assert(pv.take(i + 1).last() == pieces@[i as int]@);
        proof {
            reveal_with_fuel(Seq::<_>::filter, 1);
        }
        let ghost before = views(out@);
        if !pieces[i].as_str().is_empty() && !eq_str(pieces[i].as_str(), ".") {
            out.push(pieces[i].clone());
            assert(views(out@) =~= before.push(pieces@[i as int]@));
        }
        i = i + 1;
    }
    assert(pv.take(pv.len() as int) =~= pv);
    out
}

/// The directory that holds a path, as `Path::parent` gives it (up to `.` parts): none
/// for an empty path or the root.
pub open spec fn spec_parent(p: Seq<char>) -> Option<Seq<char>> {
    let ks = kept_parts(p);
    let rooted = starts_with(p, "/"@);
    if ks.len() == 0 {
        if rooted || p.len() == 0 {
            None
        } else {
            Some(Seq::empty())
        }
    } else {
        Some(
            (if rooted {
                "/"@
            } else {
                Seq::empty()
            }) + join(ks.drop_last(), "/"@),
        )
    }
}

pub fn parent_path(p: &str) -> (r: Option<String>)
    ensures
        r.deep_view() == spec_parent(p@),
{
    let ks = kept_parts_of(p);
    let rooted = starts_with_str(p, "/");
    if ks.len() == 0 {
        if rooted || p.is_empty() {
            return None;
        }
        return Some(String::new());
    }
    let mut front: Vec<String> = Vec::new();
    let mut i: usize = 0;
    let last = ks.len() - 1;
    while i < last
        invariant
            last == ks@.len() - 1,
            i <= last,
            views(front@) == views(ks@).take(i as int),
        decreases last - i,
    {
        let ghost before = views(front@);
        let w = ks[i].clone();
        assert(w@ == views(ks@)[i as int]);
        front.push(w);
        assert(views(front@) =~= before.push(w@));
        assert(views(front@) =~= views(ks@).take(i + 1));
        i = i + 1;
    }
    assert(views(ks@).take(i as int) =~= views(ks@).drop_last());
    let mut text = if rooted {
        copy_str("/")
    } else {
        String::new()
    };
    push_str(&mut text, join_strs(front.as_slice(), "/").as_str());
    Some(text)
}

/// `PathBuf::join`: a path that starts at the root replaces the base; otherwise it follows
/// the base after a `/` unless the base is empty or already ends with one.
pub open spec fn join_path(base: Seq<char>, rel: Seq<char>) -> Seq<char> {
    if starts_with(rel, "/"@) || base.len() == 0 {
        rel
    } else if ends_with(base, "/"@) {
        base + rel
    } else {
        base + "/"@ + rel
    }
}

pub fn join_path_str(base: &str, rel: &str) -> (r: String)
    ensures
        r@ == join_path(base@, rel@),
{
    if starts_with_str(rel, "/") || base.is_empty() {
        return copy_str(rel);
    }
    let mut out = copy_str(base);
    if !ends_with_str(base, "/") {
        push_str(&mut out, "/");
    }
    push_str(&mut out, rel);
    out
}

/// Where a configured directory lies: an absolute one as it is, a relative one below the
/// directory that holds the workspace, resolved in its text.
pub open spec fn spec_resolve_directory(workspace: Seq<char>, configured: Seq<char>) -> Seq<char> {
    let project = match spec_parent(workspace) {
        Some(p) => p,
        None => "."@,
    };
    if starts_with(configured, "/"@) {
        spec_normalize_path(configured)
    } else {
        spec_normalize_path(join_path(project, configured))
    }
}

pub fn resolve_directory(workspace: &str, configured: &str) -> (r: String)
    ensures
        r@ == spec_resolve_directory(workspace@, configured@),
{
    let project = match parent_path(workspace) {
        Some(p) => p,
        None => copy_str("."),
    };
    if starts_with_str(configured, "/") {
        normalize_path(configured)
    } else {
        normalize_path(join_path_str(project.as_str(), configured).as_str())
    }
}

/// The identifier of a request file: its path below the workspace, with `/` between
/// parts; the whole path, with `\` turned into `/`, when it is not below the workspace.
pub open spec fn spec_request_id(path: Seq<char>, workspace: Seq<char>) -> Seq<char> {
    let kp = kept_parts(path);
    let kw = kept_parts(workspace);
    let below = starts_with(path, "/"@) == starts_with(workspace, "/"@) && kw.len() <= kp.len()
        && kp.take(kw.len() as int) == kw;
    replace_char(
        if below {
            join(kp.skip(kw.len() as int), "/"@)
        } else {
            path
        },
        '\\',
        '/',
    )
}

fn parts_prefix(kp: &Vec<String>, kw: &Vec<String>) -> (r: bool)
    ensures
        r == (kw@.len() <= kp@.len() && views(kp@).take(kw@.len() as int) == views(kw@)),
{
    if kw.len() > kp.len() {
        return false;
    }
    let ghost vp = views(kp@);
    let ghost vw = views(kw@);
    let mut i: usize = 0;
    while i < kw.len()
        invariant
            vp == views(kp@),
            vw == views(kw@),
            kw@.len() <= kp@.len(),
            i <= kw@.len(),
            vp.take(i as int) == vw.take(i as int),
        decreases kw@.len() - i,
    {
        if !eq_str(kp[i].as_str(), kw[i].as_str()) {
            assert(vp.take(kw@.len() as int)[i as int] != vw[i as int]);
            return false;
        }
        assert(vp.take(i + 1) =~= vw.take(i + 1));
        i = i + 1;
    }
    assert(vw.take(vw.len() as int) =~= vw);
    true
}

pub fn request_id_for(path: &str, workspace: &str) -> (r: String)
    ensures
        r@ == spec_request_id(path@, workspace@),
{
    let kp = kept_parts_of(path);
    let kw = kept_parts_of(workspace);
    let ghost vp = views(kp@);
    let ghost vw = views(kw@);
    let below = starts_with_str(path, "/") == starts_with_str(workspace, "/") && parts_prefix(&kp, &kw);
    let text = if below {
        let mut rest: Vec<String> = Vec::new();
        let mut j: usize = kw.len();
        while j < kp.len()
            invariant
                vp == views(kp@),
                kw@.len() <= j <= kp@.len(),
                views(rest@) == vp.subrange(kw@.len() as int, j as int),
            decreases kp@.len() - j,
        {
            let ghost before = views(rest@);
            let w = kp[j].clone();
            assert(w@ == vp[j as int]);
            rest.push(w);
            assert(views(rest@) =~= before.push(w@));
            assert(views(rest@) =~= vp.subrange(kw@.len() as int, j + 1));
            j = j + 1;
        }
        assert(vp.subrange(kw@.len() as int, kp@.len() as int) =~= vp.skip(kw@.len() as int));
        join_strs(rest.as_slice(), "/")
    } else {
        copy_str(path)
    };
    replace_char_str(text.as_str(), '\\', '/')
}

} // verus!
