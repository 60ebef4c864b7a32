//! Operations on ordered header lists, where names compare without ASCII case.
use vstd::prelude::*;
use crate::config::NameValue;
use crate::text::{eq_ignore_case, eq_ignore_case_str, push_str};

verus! {

pub open spec fn header_views(headers: Seq<NameValue>) -> Seq<(Seq<char>, Seq<char>)> {
    headers.map_values(|h: NameValue| h@)
}

/// The position of the first header called `name` (ignoring ASCII case), or -1.
pub open spec fn header_index(headers: Seq<(Seq<char>, Seq<char>)>, name: Seq<char>) -> int
    decreases headers.len(),
{
    if headers.len() == 0 {
        -1
    } else if eq_ignore_case(headers[0].0, name) {
        0
    } else {
        let r = header_index(headers.drop_first(), name);
        if r < 0 {
            -1
        } else {
            r + 1
        }
    }
}

pub proof fn lemma_header_index(headers: Seq<(Seq<char>, Seq<char>)>, name: Seq<char>)
    ensures
        -1 <= header_index(headers, name) < headers.len(),
        header_index(headers, name) >= 0 ==> eq_ignore_case(
            headers[header_index(headers, name)].0,
            name,
        ),
        header_index(headers, name) >= 0 ==> forall|j: int|
            0 <= j < header_index(headers, name) ==> !eq_ignore_case(headers[j].0, name),
        header_index(headers, name) < 0 ==> forall|j: int|
            0 <= j < headers.len() ==> !eq_ignore_case(headers[j].0, name),
    decreases headers.len(),
{
    if headers.len() > 0 {
        lemma_header_index(headers.drop_first(), name);
        assert forall|j: int| 1 <= j < headers.len() implies headers[j] == headers.drop_first()[j
            - 1] by {}
    }
}

/// The headers with a header `name: value` added unless one of that name is there.
pub open spec fn with_header_if_missing(
    headers: Seq<(Seq<char>, Seq<char>)>,
    name: Seq<char>,
    value: Seq<char>,
) -> Seq<(Seq<char>, Seq<char>)> {
    if header_index(headers, name) >= 0 {
        headers
    } else {
        headers.push((name, value))
    }
}

/// The headers without any called `name`.
pub open spec fn without_header(headers: Seq<(Seq<char>, Seq<char>)>, name: Seq<char>) -> Seq<
    (Seq<char>, Seq<char>),
>
    decreases headers.len(),
{
    if headers.len() == 0 {
        headers
    } else {
        let rest = without_header(headers.drop_last(), name);
        if eq_ignore_case(headers.last().0, name) {
            rest
        } else {
            rest.push(headers.last())
        }
    }
}

/// The headers with every header called `name` replaced by one `name: value` at the end.
pub open spec fn with_header_replaced(
    headers: Seq<(Seq<char>, Seq<char>)>,
    name: Seq<char>,
    value: Seq<char>,
) -> Seq<(Seq<char>, Seq<char>)> {
    without_header(headers, name).push((name, value))
}

/// Finds the first header called `name`.
pub fn find_header(headers: &Vec<NameValue>, name: &str) -> (r: Option<usize>)
    ensures
        match r {
            Some(i) => header_index(header_views(headers@), name@) == i,
            None => header_index(header_views(headers@), name@) < 0,
        },
{
    let ghost hv = header_views(headers@);
    proof {
        lemma_header_index(hv, name@);
    }
    let mut i: usize = 0;
    while i < headers.len()
        invariant
            hv == header_views(headers@),
            i <= headers@.len(),
            forall|j: int| 0 <= j < i ==> !eq_ignore_case(hv[j].0, name@),
            -1 <= header_index(hv, name@) < hv.len(),
            header_index(hv, name@) >= 0 ==> eq_ignore_case(hv[header_index(hv, name@)].0, name@),
            header_index(hv, name@) >= 0 ==> forall|j: int|
                0 <= j < header_index(hv, name@) ==> !eq_ignore_case(hv[j].0, name@),
            header_index(hv, name@) < 0 ==> forall|j: int|
                0 <= j < hv.len() ==> !eq_ignore_case(hv[j].0, name@),
        decreases headers@.len() - i,
    {
        assert(hv[i as int] == headers@[i as int]@);
        if eq_ignore_case_str(headers[i].name.as_str(), name) {
            return Some(i);
        }
        i = i + 1;
    }
    None
}

pub fn new_header(name: &str, value: &str) -> (r: NameValue)
    ensures
        r@ == (name@, value@),
{
    NameValue { name: name.to_owned(), value: value.to_owned() }
}

/// Adds `name: value` unless a header of that name is there.
pub fn insert_header_if_missing(headers: &mut Vec<NameValue>, name: &str, value: &str)
    ensures
        header_views(final(headers)@) == with_header_if_missing(
            header_views(old(headers)@),
            name@,
            value@,
        ),
{
    if find_header(headers, name).is_none() {
        headers.push(new_header(name, value));
        assert(header_views(final(headers)@) =~= header_views(old(headers)@).push((name@, value@)));
    }
}

/// Replaces every header called `name` by one `name: value` at the end.
pub fn replace_header(headers: &mut Vec<NameValue>, name: &str, value: String)
    ensures
        header_views(final(headers)@) == with_header_replaced(
            header_views(old(headers)@),
            name@,
            value@,
        ),
{
    let ghost hv = header_views(headers@);
    let mut kept: Vec<NameValue> = Vec::new();
    let mut i: usize = 0;
    while i < headers.len()
        invariant
            hv == header_views(headers@),
            i <= headers@.len(),
            header_views(kept@) == without_header(hv.take(i as int), name@),
        decreases headers@.len() - i,
    {
        let ghost before = header_views(kept@);
        if !eq_ignore_case_str(headers[i].name.as_str(), name) {
            kept.push(headers[i].clone());
            assert(header_views(kept@) =~= before.push(hv[i as int]));
        }
        assert(hv.take(i + 1).drop_last() =~= hv.take(i as int));
        i = i + 1;
    }
    assert(hv.take(hv.len() as int) =~= hv);
    let ghost before = header_views(kept@);
    kept.push(NameValue { name: name.to_owned(), value });
    assert(header_views(kept@) =~= before.push((name@, value@)));
    *headers = kept;
}

} // verus!
