//! The request list: which requests a search shows, and moving the selection through them.
use vstd::prelude::*;
use crate::config::ApiRequest;
use crate::text::{contains, contains_str, trim, trim_str};

verus! {

/// What `str::to_lowercase` gives for a text: the full Unicode lowercase mapping, which
/// can change a text's length.
pub uninterp spec fn unicode_lowercase(s: Seq<char>) -> Seq<char>;

/// Calls `str::to_lowercase`; the result is named by `unicode_lowercase`.
#[verifier::external_body]
pub(crate) fn lowercase_str(s: &str) -> (r: String)
    ensures
        r@ == unicode_lowercase(s@),
{
    s.to_lowercase()
}

/// The query of the request search: the text being typed while the search is open, else
/// the confirmed filter when it is not empty.
pub open spec fn spec_search_query(search: Option<Seq<char>>, filter: Seq<char>) -> Option<Seq<char>> {
    match search {
        Some(s) => Some(s),
        None => if filter.len() == 0 {
            None
        } else {
            Some(filter)
        },
    }
}

pub fn request_search_query<'a>(search: Option<&'a str>, filter: &'a str) -> (r: Option<&'a str>)
    ensures
        match r {
            Some(q) => spec_search_query(
                match search {
                    Some(s) => Some(s@),
                    None => None,
                },
                filter@,
            ) == Some(q@),
            None => spec_search_query(
                match search {
                    Some(s) => Some(s@),
                    None => None,
                },
                filter@,
            ) is None,
        },
{
    match search {
        Some(s) => Some(s),
        None => if filter.is_empty() {
            None
        } else {
            Some(filter)
        },
    }
}

/// A request shows for a lowercased query when the query is empty or occurs in the
/// lowercased name, id, URL or method.
pub open spec fn shows_for(r: ApiRequest, query: Seq<char>) -> bool {
    ||| query.len() == 0
    ||| contains(unicode_lowercase(r.name@), query)
    ||| contains(unicode_lowercase(r.id@), query)
    ||| contains(unicode_lowercase(r.url@), query)
    ||| contains(unicode_lowercase(r.method@), query)
}

/// The indices, in order, of the requests that show for a lowercased query.
pub open spec fn shown_indices(requests: Seq<ApiRequest>, query: Seq<char>) -> Seq<usize>
    decreases requests.len(),
{
    if requests.len() == 0 {
        Seq::empty()
    } else {
        let before = shown_indices(requests.drop_last(), query);
        if shows_for(requests.last(), query) {
            before.push((requests.len() - 1) as usize)
        } else {
            before
        }
    }
}

/// The query as it is matched: trimmed, then lowercased; no query matches everything.
pub open spec fn normalized_query(query: Option<Seq<char>>) -> Seq<char> {
    match query {
        Some(q) => unicode_lowercase(trim(q)),
        None => unicode_lowercase(Seq::empty()),
    }
}

fn request_shows(r: &ApiRequest, query: &str) -> (b: bool)
    ensures
        b == shows_for(*r, query@),
{
    if query.is_empty() {
        return true;
    }
    contains_str(lowercase_str(r.name.as_str()).as_str(), query)
        || contains_str(lowercase_str(r.id.as_str()).as_str(), query)
        || contains_str(lowercase_str(r.url.as_str()).as_str(), query)
        || contains_str(lowercase_str(r.method.as_str()).as_str(), query)
}

/// The indices of the requests that the list shows for a search query.
pub fn visible_request_indices(requests: &Vec<ApiRequest>, query: Option<&str>) -> (r: Vec<usize>)
    ensures
        r@ == shown_indices(
            requests@,
            normalized_query(
                match query {
                    Some(q) => Some(q@),
                    None => None,
                },
            ),
        ),
{
    let trimmed = match query {
        Some(q) => trim_str(q),
        None => String::new(),
    };
    proof {
        assert(trim(Seq::<char>::empty()) =~= Seq::<char>::empty());
    }
    let lowered = lowercase_str(trimmed.as_str());
    let ghost q = lowered@;
    let mut out: Vec<usize> = Vec::new();
    let mut i: usize = 0;
    while i < requests.len()
        invariant
            i <= requests@.len(),
            lowered@ == q,
            out@ == shown_indices(requests@.take(i as int), q),
        decreases requests@.len() - i,
    {
        proof {
            assert(requests@.take(i + 1).drop_last() =~= requests@.take(i as int));
        }
        if request_shows(&requests[i], lowered.as_str()) {
            out.push(i);
        }
        i = i + 1;
    }
    proof {
        assert(requests@.take(requests@.len() as int) =~= requests@);
    }
    out
}

/// Where moving by `delta` from position `current` lands in a list of `count` entries,
/// wrapping around at both ends.
pub open spec fn spec_wrap_index(current: int, delta: int, count: int) -> int {
    (current + delta) % count
}

/// Moves a position by `delta` within `0..count`, wrapping around at both ends.
pub fn wrap_index(current: usize, delta: isize, count: usize) -> (r: usize)
    requires
        count > 0,
    ensures
        r == spec_wrap_index(current as int, delta as int, count as int),
        r < count,
{
    let n = count as u128;
    if delta >= 0 {
        let r = ((current as u128 + delta as u128) % n) as usize;
        r
    } else {
        let back: u128 = if delta == isize::MIN {
            (isize::MAX as u128) + 1
        } else {
            (-delta) as u128
        };
        let b = back % n;
        let r = ((current as u128 + n - b) % n) as usize;
        proof {
            let m = back as int;
            let q = m / (n as int);
            vstd::arithmetic::div_mod::lemma_fundamental_div_mod(m, n as int);
            assert(m == (n as int) * q + b);
            assert((n as int) * (-(q + 1)) + (current + n - b) == current - m) by (nonlinear_arith)
                requires
                    m == (n as int) * q + b,
            ;
            vstd::arithmetic::div_mod::lemma_mod_multiples_vanish(-(q + 1), current + n - b, n as int);
            assert(delta as int == -m);
        }
        r
    }
}

/// The request that moving the selection by `delta` selects: the visible request `delta`
/// places after the selected one (or after the first, when the selected one is hidden),
/// wrapping around; none when no request is visible.
pub open spec fn spec_moved_request(visible: Seq<usize>, selected: Option<usize>, delta: int) -> Option<usize> {
    if visible.len() == 0 {
        None
    } else {
        let current = match selected {
            Some(s) => if visible.contains(s) {
                visible.index_of_first(s).unwrap()
            } else {
                0
            },
            None => 0,
        };
        Some(visible[spec_wrap_index(current, delta, visible.len() as int)])
    }
}

pub fn moved_request(visible: &Vec<usize>, selected: Option<usize>, delta: isize) -> (r: Option<usize>)
    ensures
        r == spec_moved_request(visible@, selected, delta as int),
{
    let count = visible.len();
    if count == 0 {
        return None;
    }
    let mut current: usize = 0;
    if let Some(s) = selected {
        let mut i: usize = 0;
        while i < count
            invariant
                count == visible@.len(),
                i <= count,
                forall|j: int| 0 <= j < i ==> visible@[j] != s,
            ensures
                i <= count,
                i < count ==> visible@[i as int] == s,
                forall|j: int| 0 <= j < i ==> visible@[j] != s,
            decreases count - i,
        {
            if visible[i] == s {
                break;
            }
            i = i + 1;
        }
        if i < count {
            proof {
                visible@.index_of_first_ensures(s);
            }
            current = i;
        } else {
            proof {
                assert(!visible@.contains(s));
            }
        }
    }
    Some(visible[wrap_index(current, delta, count)])
}

} // verus!
