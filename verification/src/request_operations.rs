//! The bookkeeping of requests sent in the background: the name each send gets, the sends
//! still running, the options handed to the sender, and the variables a response yields.
use vstd::prelude::*;
use crate::text::{copy_str, decimal, decimal_string, eq_str, push_str, views};

verus! {

/// How many requests may be handled at once.
pub const MAX_CONCURRENT_REQUESTS: usize = 8;

/// The message a send gets when the limit of requests handled at once is reached.
pub fn busy_message() -> (r: String)
    ensures
        r@ == "最多同时处理 8 个请求，请稍后重试"@,
{
    copy_str("最多同时处理 8 个请求，请稍后重试")
}

/// One send of a request: the request and the name of this send.
pub struct RequestOperation {
    pub request_id: String,
    pub operation_id: String,
}

/// What a send is handed, once per send.
pub struct RequestExecutionOptions {
    pub timeout_seconds: u64,
    pub file_directory: String,
    pub skip_ssl_verification: bool,
    pub secret_values: Vec<String>,
    pub max_display_bytes: usize,
    pub max_response_bytes: usize,
}

/// What the HTTP sender reads of those options.
pub struct RequestOptions<'a> {
    pub timeout_seconds: u64,
    pub file_directory: &'a str,
    pub skip_ssl_verification: bool,
    pub secret_values: &'a [String],
    pub max_response_bytes: usize,
}

impl RequestExecutionOptions {
    pub fn request_options(&self) -> (r: RequestOptions<'_>)
        ensures
            r.timeout_seconds == self.timeout_seconds,
            r.file_directory@ == self.file_directory@,
            r.skip_ssl_verification == self.skip_ssl_verification,
            r.secret_values@ == self.secret_values@,
            r.max_response_bytes == self.max_response_bytes,
    {
        RequestOptions {
            timeout_seconds: self.timeout_seconds,
            file_directory: self.file_directory.as_str(),
            skip_ssl_verification: self.skip_ssl_verification,
            secret_values: self.secret_values.as_slice(),
            max_response_bytes: self.max_response_bytes,
        }
    }
}

/// The name of a send: the request and the sequence number, joined by `-`.
pub open spec fn spec_operation_id(request_id: Seq<char>, sequence: u64) -> Seq<char> {
    request_id + "-"@ + decimal(sequence as nat)
}

/// The sends of requests: the next sequence number and the names of the sends still running.
pub struct RequestOperations {
    next_operation_sequence: u64,
    active: Vec<String>,
}

impl RequestOperations {
    pub closed spec fn spec_next(&self) -> u64 {
        self.next_operation_sequence
    }

    /// The names of the sends still running.
    pub closed spec fn spec_active(&self) -> Set<Seq<char>> {
        views(self.active@).to_set()
    }

    pub closed spec fn wf(&self) -> bool {
        views(self.active@).no_duplicates()
    }

    /// Numbering starts at one, with nothing running.
    pub fn new() -> (r: RequestOperations)
        ensures
            r.spec_next() == 1,
            r.spec_active() == Set::<Seq<char>>::empty(),
            r.wf(),
    {
        let r = RequestOperations { next_operation_sequence: 1, active: Vec::new() };
        assert(views(r.active@) =~= Seq::<Seq<char>>::empty());
        assert(views(r.active@).to_set() =~= Set::<Seq<char>>::empty());
        r
    }

    /// Names the next send of a request; the number moves on, wrapping past the largest.
    pub fn prepare(&mut self, request_id: &str) -> (r: RequestOperation)
        ensures
            r.request_id@ == request_id@,
            r.operation_id@ == spec_operation_id(request_id@, old(self).spec_next()),
            final(self).spec_next() == (if old(self).spec_next() == u64::MAX { 0 } else { old(self).spec_next() + 1 }),
            final(self).spec_active() == old(self).spec_active(),
            final(self).wf() == old(self).wf(),
    {
        let sequence = self.next_operation_sequence;
        self.next_operation_sequence = sequence.wrapping_add(1);
        let mut operation_id = copy_str(request_id);
        push_str(&mut operation_id, "-");
        let n = decimal_string(sequence);
        push_str(&mut operation_id, n.as_str());
        RequestOperation { request_id: copy_str(request_id), operation_id }
    }

    fn position(&self, operation_id: &str) -> (r: Option<usize>)
        ensures
            match r {
                Some(i) => i < self.active@.len() && self.active@[i as int]@ == operation_id@,
                None => !views(self.active@).contains(operation_id@),
            },
    {
        let mut i: usize = 0;
        while i < self.active.len()
            invariant
                i <= self.active@.len(),
                forall|j: int| 0 <= j < i ==> (#[trigger] self.active@[j])@ != operation_id@,
            decreases self.active@.len() - i,
        {
            if eq_str(self.active[i].as_str(), operation_id) {
                return Some(i);
            }
            i = i + 1;
        }
        proof {
            if views(self.active@).contains(operation_id@) {
                let k = choose|k: int| 0 <= k < views(self.active@).len() && views(self.active@)[k] == operation_id@;
                assert(self.active@[k]@ == operation_id@);
            }
        }
        None
    }

    pub fn is_active(&self, operation_id: &str) -> (r: bool)
        ensures
            r == self.spec_active().contains(operation_id@),
    {
        match self.position(operation_id) {
            Some(i) => {
                assert(views(self.active@)[i as int] == operation_id@);
                true
            },
            None => false,
        }
    }

    /// A send started running.
    pub fn started(&mut self, operation_id: String)
        requires
            old(self).wf(),
        ensures
            final(self).spec_active() == old(self).spec_active().insert(operation_id@),
            final(self).spec_next() == old(self).spec_next(),
            final(self).wf(),
    {
        if self.position(operation_id.as_str()).is_some() {
            proof {
                let i = choose|i: int| 0 <= i < self.active@.len() && self.active@[i]@ == operation_id@;
                assert(views(self.active@)[i] == operation_id@);
                assert(self.spec_active().insert(operation_id@) =~= self.spec_active());
            }
            return;
        }
        let ghost before = views(self.active@);
        self.active.push(operation_id);
        proof {
            let after = views(self.active@);
            assert(after =~= before.push(operation_id@));
            assert forall|x: Seq<char>| after.contains(x) == (before.contains(x) || x == operation_id@) by {
                if after.contains(x) {
                    let k = choose|k: int| 0 <= k < after.len() && after[k] == x;
                    if k < before.len() {
                        assert(before[k] == x);
                    }
                }
                if before.contains(x) {
                    let k = choose|k: int| 0 <= k < before.len() && before[k] == x;
                    assert(after[k] == x);
                }
                if x == operation_id@ {
                    assert(after[before.len() as int] == x);
                }
            }
            assert(after.to_set() =~= before.to_set().insert(operation_id@));
            assert forall|a: int, b: int| 0 <= a < after.len() && 0 <= b < after.len() && a != b
                implies after[a] != after[b] by {
                if a < before.len() && b < before.len() {
                    assert(after[a] == before[a] && after[b] == before[b]);
                } else if a < before.len() {
                    assert(after[a] == before[a]);
                    assert(before.contains(before[a]));
                } else {
                    assert(after[b] == before[b]);
                    assert(before.contains(before[b]));
                }
            }
        }
    }

    /// A send ended, or is cancelled: it no longer runs. Says whether it was running.
    pub fn cancel(&mut self, operation_id: &str) -> (r: bool)
        requires
            old(self).wf(),
        ensures
            r == old(self).spec_active().contains(operation_id@),
            final(self).spec_active() == old(self).spec_active().remove(operation_id@),
            final(self).spec_next() == old(self).spec_next(),
            final(self).wf(),
    {
        match self.position(operation_id) {
            Some(i) => {
                let ghost before = views(self.active@);
                assert(before[i as int] == operation_id@);
                self.active.remove(i);
                proof {
                    let after = views(self.active@);
                    assert(after =~= before.remove(i as int));
                    assert forall|x: Seq<char>| after.to_set().contains(x)
                        == before.to_set().remove(operation_id@).contains(x) by {
                        if after.contains(x) {
                            let k = choose|k: int| 0 <= k < after.len() && after[k] == x;
                            let f = if k < i { k } else { k + 1 };
                            assert(before[f] == x);
                            assert(f != i);
                        }
                        if before.contains(x) && x != operation_id@ {
                            let k = choose|k: int| 0 <= k < before.len() && before[k] == x;
                            assert(k != i);
                            let g = if k < i { k } else { k - 1 };
                            assert(after[g] == x);
                        }
                    }
                    assert(after.to_set() =~= before.to_set().remove(operation_id@));
                    assert forall|a: int, b: int| 0 <= a < after.len() && 0 <= b < after.len() && a != b
                        implies after[a] != after[b] by {
                        let fa = if a < i { a } else { a + 1 };
                        let fb = if b < i { b } else { b + 1 };
                        assert(after[a] == before[fa] && after[b] == before[fb]);
                    }
                }
                true
            },
            None => {
                assert(self.spec_active().remove(operation_id@) =~= self.spec_active());
                false
            },
        }
    }
}

/// A send that was started is found running by the first cancel and no longer by a
/// second: over the running names that `started` and `cancel` state.
pub proof fn law_cancel_after_start(active: Set<Seq<char>>, operation_id: Seq<char>)
    ensures
        active.insert(operation_id).contains(operation_id),
        !active.insert(operation_id).remove(operation_id).contains(operation_id),
        active.insert(operation_id).remove(operation_id) == active.remove(operation_id),
{
    assert(active.insert(operation_id).remove(operation_id) =~= active.remove(operation_id));
}

/// The variables a response yields, and how many could not be extracted: none when the
/// status is an error or nothing is to be extracted; all fail when the body is no JSON;
/// else each value found, in order, beside its variable.
pub open spec fn spec_extracted(
    status: u16,
    variables: Seq<Seq<char>>,
    values: Option<Seq<Option<Seq<char>>>>,
) -> (Seq<(Seq<char>, Seq<char>)>, nat) {
    if status >= 400 || variables.len() == 0 {
        (Seq::empty(), 0)
    } else {
        match values {
            None => (Seq::empty(), variables.len()),
            Some(vs) => found_values(variables, vs),
        }
    }
}

pub open spec fn found_values(variables: Seq<Seq<char>>, values: Seq<Option<Seq<char>>>) -> (Seq<(Seq<char>, Seq<char>)>, nat)
    decreases values.len(),
{
    if values.len() == 0 || variables.len() == 0 {
        (Seq::empty(), 0)
    } else {
        let (found, failed) = found_values(variables.drop_last(), values.drop_last());
        match values.last() {
            Some(v) => (found.push((variables.last(), v)), failed),
            None => (found, failed + 1),
        }
    }
}

/// An error response (status 400 or above) yields no variable and no failure, whatever
/// was to be extracted and whatever its body held.
pub proof fn law_error_response_extracts_nothing(
    status: u16,
    variables: Seq<Seq<char>>,
    values: Option<Seq<Option<Seq<char>>>>,
)
    requires
        status >= 400,
    ensures
        spec_extracted(status, variables, values).0.len() == 0,
        spec_extracted(status, variables, values).1 == 0,
{
}

/// A successful response whose body is no JSON fails every variable; one whose body is JSON
/// accounts for every variable once, as a value found or as a failure.
pub proof fn law_success_accounts_for_every_variable(
    status: u16,
    variables: Seq<Seq<char>>,
    values: Option<Seq<Option<Seq<char>>>>,
)
    requires
        status < 400,
        match values {
            Some(vs) => vs.len() == variables.len(),
            None => true,
        },
    ensures
        values is None ==> spec_extracted(status, variables, values)
            == (Seq::<(Seq<char>, Seq<char>)>::empty(), variables.len()),
        spec_extracted(status, variables, values).0.len() + spec_extracted(status, variables, values).1
            == variables.len(),
{
    if let Some(vs) = values {
        lemma_found_values_count(variables, vs);
    }
}

proof fn lemma_found_values_count(variables: Seq<Seq<char>>, values: Seq<Option<Seq<char>>>)
    requires
        values.len() == variables.len(),
    ensures
        found_values(variables, values).0.len() + found_values(variables, values).1 == variables.len(),
    decreases values.len(),
{
    if values.len() > 0 {
        lemma_found_values_count(variables.drop_last(), values.drop_last());
    }
}

pub open spec fn option_views(values: Seq<Option<String>>) -> Seq<Option<Seq<char>>> {
    values.map_values(|v: Option<String>| match v {
        Some(s) => Some(s@),
        None => None,
    })
}

/// Puts the extraction results beside their variables. `values` is `None` when the body did
/// not parse as JSON, else one result for each variable, `None` where its path found nothing.
pub fn extract_response_variables(
    status: u16,
    variables: &[String],
    values: Option<Vec<Option<String>>>,
) -> (r: (Vec<(String, String)>, usize))
    requires
        match values {
            Some(vs) => vs.len() == variables.len(),
            None => true,
        },
    ensures
        ({
            let (found, failed) = spec_extracted(
                status,
                views(variables@),
                match values {
                    Some(vs) => Some(option_views(vs@)),
                    None => None,
                },
            );
            r.0@.map_values(|p: (String, String)| (p.0@, p.1@)) == found && r.1 == failed
        }),
{
    let mut found: Vec<(String, String)> = Vec::new();
    if status >= 400 || variables.len() == 0 {
        assert(found@.map_values(|p: (String, String)| (p.0@, p.1@)) =~= Seq::<(Seq<char>, Seq<char>)>::empty());
        return (found, 0);
    }
    let vs = match values {
        None => {
            assert(found@.map_values(|p: (String, String)| (p.0@, p.1@)) =~= Seq::<(Seq<char>, Seq<char>)>::empty());
            return (found, variables.len());
        },
        Some(vs) => vs,
    };
    let ghost vars = views(variables@);
    let ghost vals = option_views(vs@);
    let mut failed: usize = 0;
    let mut i: usize = 0;
    while i < vs.len()
        invariant
            i <= vs@.len(),
            vs@.len() == variables@.len(),
            vars == views(variables@),
            vals == option_views(vs@),
            found@.map_values(|p: (String, String)| (p.0@, p.1@)) == found_values(vars.take(i as int), vals.take(i as int)).0,
            failed == found_values(vars.take(i as int), vals.take(i as int)).1,
            failed <= i,
        decreases vs@.len() - i,
    {
        proof {
            assert(vars.take(i + 1).drop_last() =~= vars.take(i as int));
            assert(vals.take(i + 1).drop_last() =~= vals.take(i as int));
            assert(vars.take(i + 1).last() == variables@[i as int]@);
            assert(vals.take(i + 1).last() == option_views(vs@)[i as int]);
        }
        match &vs[i] {
            Some(v) => {
                let ghost before = found@.map_values(|p: (String, String)| (p.0@, p.1@));
                found.push((copy_str(variables[i].as_str()), copy_str(v.as_str())));
                assert(found@.map_values(|p: (String, String)| (p.0@, p.1@)) =~= before.push((vars[i as int], v@)));
            },
            None => {
                failed = failed + 1;
            },
        }
        i = i + 1;
    }
    proof {
        assert(vars.take(i as int) =~= vars);
        assert(vals.take(i as int) =~= vals);
    }
    (found, failed)
}

} // verus!
