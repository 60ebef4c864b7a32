//! A request's session across scenarios: the draft and temporary variables of the active
//! scenario, and those left in the other scenarios, which come back when the user returns.
use vstd::prelude::*;
use crate::config::{spec_for_configuration, ApiRequest, ConfigurationView, NameValue, RequestView, WorkspaceConfiguration};
use crate::runtime::{phase_status, RequestRuntimeState};
use crate::session::{
    commit_draft, draft_of, effective_request, headers_match, spec_commit_default, spec_committed_overrides,
    spec_effective_request, spec_headers_match, DraftView, HeaderRow, RequestDraft, RequestStatus, RowView,
};
use crate::keyed::{
    has_key, keys_unique, lemma_pairs_unique, lemma_stash_at, pairs_unique, stash_position, stash_view,
    put_stashed, take_stashed,
};

verus! {


/// What a request's session holds: the request, its draft, its temporary variables, and the
/// header rows and temporary variables left in other scenarios.
pub struct SessionView {
    pub source: RequestView,
    pub draft: DraftView,
    pub temporary: Seq<(Seq<char>, Seq<char>)>,
    pub stashed_headers: Map<Seq<char>, Seq<RowView>>,
    pub stashed_variables: Map<Seq<char>, Seq<(Seq<char>, Seq<char>)>>,
}

/// A request being worked on in the active scenario. The answer to a send is held as `T`.
pub struct RequestSession<T> {
    pub source: ApiRequest,
    pub draft: RequestDraft,
    pub temporary_variables: Vec<(String, String)>,
    pub runtime: RequestRuntimeState<T>,
    pub inactive_headers: Vec<(String, Vec<HeaderRow>)>,
    pub inactive_temporary_variables: Vec<(String, Vec<(String, String)>)>,
}

/// The session as it stands in a scenario switched to: the draft starts afresh from the
/// request in that scenario, with the header rows left there when there are any; the
/// temporary variables left there come back, else the scenario's first ones; what the
/// previous scenario had is left under its name.
pub open spec fn spec_activate(
    s: SessionView,
    previous: Seq<char>,
    name: Seq<char>,
    c: ConfigurationView,
    initial: Seq<(Seq<char>, Seq<char>)>,
) -> SessionView {
    let fresh = draft_of(spec_for_configuration(s.source, c));
    SessionView {
        source: s.source,
        draft: DraftView {
            headers: if s.stashed_headers.contains_key(name) {
                s.stashed_headers[name]
            } else {
                fresh.headers
            },
            ..fresh
        },
        temporary: if s.stashed_variables.contains_key(name) {
            s.stashed_variables[name]
        } else {
            initial
        },
        stashed_headers: s.stashed_headers.remove(name).insert(previous, s.draft.headers),
        stashed_variables: s.stashed_variables.remove(name).insert(previous, s.temporary),
    }
}

/// Switching to another scenario and back gives the header rows and temporary variables
/// the user had left, whatever the other scenario held.
pub proof fn law_switch_back_restores(
    s: SessionView,
    a: Seq<char>,
    b: Seq<char>,
    ca: ConfigurationView,
    cb: ConfigurationView,
    ia: Seq<(Seq<char>, Seq<char>)>,
    ib: Seq<(Seq<char>, Seq<char>)>,
)
    requires
        a != b,
    ensures
        spec_activate(spec_activate(s, a, b, cb, ib), b, a, ca, ia).draft.headers == s.draft.headers,
        spec_activate(spec_activate(s, a, b, cb, ib), b, a, ca, ia).temporary == s.temporary,
{
    let s1 = spec_activate(s, a, b, cb, ib);
    assert(s1.stashed_headers.contains_key(a));
    assert(s1.stashed_headers[a] == s.draft.headers);
    assert(s1.stashed_variables[a] == s.temporary);
}

impl<T> RequestSession<T> {
    pub open spec fn session_view(&self) -> SessionView {
        SessionView {
            source: self.source@,
            draft: self.draft@,
            temporary: self.temporary_variables.deep_view(),
            stashed_headers: stash_view(self.inactive_headers@),
            stashed_variables: stash_view(self.inactive_temporary_variables@),
        }
    }

    /// Nothing is left twice under one scenario, and no temporary variable is held twice.
    pub open spec fn wf(&self) -> bool {
        &&& keys_unique(self.inactive_headers@)
        &&& keys_unique(self.inactive_temporary_variables@)
        &&& keys_unique(self.temporary_variables@)
        &&& forall|k: Seq<char>| #[trigger] stash_view(self.inactive_temporary_variables@).contains_key(k)
            ==> pairs_unique(stash_view(self.inactive_temporary_variables@)[k])
    }

    /// A session for the request in a scenario: its draft from the request as the scenario
    /// sends it, the given temporary variables, nothing sent, nothing left elsewhere.
    pub fn new(source: ApiRequest, configuration: &WorkspaceConfiguration, temporary_variables: Vec<(String, String)>) -> (r: RequestSession<T>)
        requires
            keys_unique(temporary_variables@),
        ensures
            r.session_view().source == source@,
            r.session_view().draft == draft_of(spec_for_configuration(source@, configuration@)),
            r.session_view().temporary == temporary_variables.deep_view(),
            r.session_view().stashed_headers == Map::<Seq<char>, Seq<RowView>>::empty(),
            r.session_view().stashed_variables == Map::<Seq<char>, Seq<(Seq<char>, Seq<char>)>>::empty(),
            r.runtime.phase is Idle,
            r.runtime.feedback is None,
            r.wf(),
    {
        let effective = source.for_configuration(configuration);
        let draft = RequestDraft::from_request(&effective);
        let r = RequestSession {
            source,
            draft,
            temporary_variables,
            runtime: RequestRuntimeState::new(),
            inactive_headers: Vec::new(),
            inactive_temporary_variables: Vec::new(),
        };
        assert(stash_view(r.inactive_headers@) =~= Map::<Seq<char>, Seq<RowView>>::empty());
        assert(stash_view(r.inactive_temporary_variables@) =~= Map::<Seq<char>, Seq<(Seq<char>, Seq<char>)>>::empty());
        r
    }

    /// Moves the session from scenario `previous_name` to scenario `name`, as
    /// `spec_activate` says; what was sent is forgotten. `initial` holds the temporary
    /// variables the request starts with in the new scenario.
    pub fn activate_configuration(
        &mut self,
        previous_name: &str,
        name: &str,
        configuration: &WorkspaceConfiguration,
        initial: Vec<(String, String)>,
    )
        requires
            old(self).wf(),
            keys_unique(initial@),
        ensures
            final(self).wf(),
            final(self).session_view() == spec_activate(
                old(self).session_view(),
                previous_name@,
                name@,
                configuration@,
                initial.deep_view(),
            ),
            final(self).runtime.phase is Idle,
            final(self).runtime.feedback is None,
    {
        let ghost before = self.session_view();
        let effective = self.source.for_configuration(configuration);
        let mut draft = RequestDraft::from_request(&effective);
        if let Some(headers) = take_stashed(&mut self.inactive_headers, name) {
            draft.headers = headers;
        }
        let mut previous = draft;
        std::mem::swap(&mut self.draft, &mut previous);
        put_stashed(&mut self.inactive_headers, crate::text::copy_str(previous_name), previous.headers);
        let next = match take_stashed(&mut self.inactive_temporary_variables, name) {
            Some(v) => v,
            None => initial,
        };
        let mut previous_variables = next;
        std::mem::swap(&mut self.temporary_variables, &mut previous_variables);
        put_stashed(&mut self.inactive_temporary_variables, crate::text::copy_str(previous_name), previous_variables);
        self.runtime.reset();
        proof {
            let want = spec_activate(before, previous_name@, name@, configuration@, initial.deep_view());
            lemma_pairs_unique(initial);
            lemma_pairs_unique(self.temporary_variables);
            lemma_pairs_unique(previous_variables);
            assert(self.session_view().draft == want.draft);
            assert(self.session_view().stashed_headers =~= want.stashed_headers);
            assert(self.session_view().stashed_variables =~= want.stashed_variables);
        }
    }
}

/// The headers a scenario gives the request when its draft is not edited: those of the
/// scenario's override for it when it has them, else the request's own.
pub open spec fn baseline_headers(c: WorkspaceConfiguration, baseline: ApiRequest) -> Seq<(Seq<char>, Seq<char>)> {
    match c.spec_override_for(baseline.id@) {
        Some(o) => match o.headers {
            Some(h) => h.deep_view(),
            None => baseline.headers.deep_view(),
        },
        None => baseline.headers.deep_view(),
    }
}

/// The scenario named `name`.
pub open spec fn configuration_named(cs: Seq<(String, WorkspaceConfiguration)>, name: Seq<char>) -> WorkspaceConfiguration {
    cs[choose|i: int| 0 <= i < cs.len() && (#[trigger] cs[i]).0@ == name].1
}

/// Header rows left in scenario `name` differ from what that scenario gives the request, or
/// the scenario is gone.
pub open spec fn stashed_rows_changed(
    rows: Seq<RowView>,
    cs: Seq<(String, WorkspaceConfiguration)>,
    name: Seq<char>,
    baseline: ApiRequest,
) -> bool {
    !has_key(cs, name) || !spec_headers_match(rows, baseline_headers(configuration_named(cs, name), baseline))
}

/// The temporary variables after the request's variables changed: those still asked for keep
/// their values, new ones take their first values, the others are dropped.
pub open spec fn spec_synced(old_vars: Map<Seq<char>, Seq<char>>, initial: Map<Seq<char>, Seq<char>>) -> Map<Seq<char>, Seq<char>> {
    Map::new(
        |k: Seq<char>| initial.contains_key(k),
        |k: Seq<char>| if old_vars.contains_key(k) { old_vars[k] } else { initial[k] },
    )
}

impl<T> RequestSession<T> {
    /// Whether header rows left in another scenario differ from what that scenario gives the
    /// request (`baseline`), or that scenario is gone.
    pub fn has_inactive_header_changes(&self, baseline: &ApiRequest, configurations: &Vec<(String, WorkspaceConfiguration)>) -> (r: bool)
        requires
            keys_unique(configurations@),
            self.wf(),
        ensures
            r == exists|k: Seq<char>| #[trigger] stash_view(self.inactive_headers@).contains_key(k)
                && stashed_rows_changed(stash_view(self.inactive_headers@)[k], configurations@, k, *baseline),
    {
        let ghost st = stash_view(self.inactive_headers@);
        let mut i: usize = 0;
        while i < self.inactive_headers.len()
            invariant
                i <= self.inactive_headers@.len(),
                keys_unique(self.inactive_headers@),
                keys_unique(configurations@),
                st == stash_view(self.inactive_headers@),
                forall|j: int| 0 <= j < i ==> !stashed_rows_changed(
                    st[(#[trigger] self.inactive_headers@[j]).0@],
                    configurations@,
                    self.inactive_headers@[j].0@,
                    *baseline,
                ),
            decreases self.inactive_headers@.len() - i,
        {
            let name = self.inactive_headers[i].0.as_str();
            proof {
                lemma_stash_at(self.inactive_headers@, i as int);
            }
            match stash_position(configurations, name) {
                None => {
                    assert(st.contains_key(name@));
                    assert(stashed_rows_changed(st[name@], configurations@, name@, *baseline));
                    return true;
                },
                Some(p) => {
                    proof {
                        let c = choose|j: int| 0 <= j < configurations@.len() && (#[trigger] configurations@[j]).0@ == name@;
                        assert(c == p);
                    }
                    let c = &configurations[p].1;
                    let headers = match c.override_for(baseline.id.as_str()) {
                        Some(o) => match &o.headers {
                            Some(h) => h,
                            None => &baseline.headers,
                        },
                        None => &baseline.headers,
                    };
                    if !headers_match(&self.inactive_headers[i].1, headers) {
                        assert(st.contains_key(name@));
                        assert(configuration_named(configurations@, name@) == *c);
                        assert(stashed_rows_changed(st[name@], configurations@, name@, *baseline));
                        return true;
                    }
                },
            }
            i = i + 1;
        }
        proof {
            assert forall|k: Seq<char>| #[trigger] st.contains_key(k) implies !stashed_rows_changed(st[k], configurations@, k, *baseline) by {
                let j = choose|j: int| 0 <= j < self.inactive_headers@.len() && (#[trigger] self.inactive_headers@[j]).0@ == k;
                assert(!stashed_rows_changed(st[self.inactive_headers@[j].0@], configurations@, self.inactive_headers@[j].0@, *baseline));
            }
        }
        false
    }

    /// Brings the temporary variables in line with those the request now asks for, given
    /// with their first values in `initial`.
    pub fn sync_temporary_variables(&mut self, initial: &Vec<(String, String)>)
        requires
            old(self).wf(),
            keys_unique(initial@),
        ensures
            final(self).wf(),
            stash_view(final(self).temporary_variables@) == spec_synced(
                stash_view(old(self).temporary_variables@),
                stash_view(initial@),
            ),
            final(self).source == old(self).source,
            final(self).draft == old(self).draft,
            final(self).inactive_headers == old(self).inactive_headers,
            final(self).inactive_temporary_variables == old(self).inactive_temporary_variables,
            final(self).runtime == old(self).runtime,
    {
        let ghost old_vars = self.temporary_variables@;
        let mut kept: Vec<(String, String)> = Vec::new();
        let mut i: usize = 0;
        while i < self.temporary_variables.len()
            invariant
                i <= old_vars.len(),
                self.temporary_variables@ == old_vars,
                keys_unique(old_vars),
                keys_unique(initial@),
                keys_unique(kept@),
                forall|k: Seq<char>| #[trigger] has_key(kept@, k) == (has_key(initial@, k) && exists|j: int| 0 <= j < i && (#[trigger] old_vars[j]).0@ == k),
                forall|j: int| 0 <= j < kept@.len() ==> old_vars.take(i as int).contains(#[trigger] kept@[j]),
            decreases old_vars.len() - i,
        {
            let entry = &self.temporary_variables[i];
            if stash_position(initial, entry.0.as_str()).is_some() {
                let ghost before = kept@;
                kept.push((entry.0.clone(), entry.1.clone()));
                proof {
                    let t = kept@;
                    assert(t[before.len() as int] == old_vars[i as int]);
                    assert forall|a: int, b: int| 0 <= a < t.len() && 0 <= b < t.len() && a != b implies t[a].0@ != t[b].0@ by {
                        if a < before.len() && b < before.len() {
                            assert(t[a] == before[a] && t[b] == before[b]);
                        } else {
                            let o = if a < before.len() { a } else { b };
                            assert(t[o] == before[o]);
                            let m = choose|m: int| 0 <= m < i && old_vars.take(i as int)[m] == before[o];
                            assert(old_vars[m] == before[o]);
                            assert(m != i);
                        }
                    }
                    assert forall|k: Seq<char>| #[trigger] has_key(t, k) == (has_key(initial@, k) && exists|j: int| 0 <= j < i + 1 && (#[trigger] old_vars[j]).0@ == k) by {
                        if has_key(t, k) {
                            let j = choose|j: int| 0 <= j < t.len() && (#[trigger] t[j]).0@ == k;
                            if j < before.len() {
                                assert(t[j] == before[j]);
                                assert(has_key(before, k));
                            } else {
                                assert(old_vars[i as int].0@ == k);
                            }
                        }
                        if has_key(initial@, k) && exists|j: int| 0 <= j < i + 1 && (#[trigger] old_vars[j]).0@ == k {
                            let j = choose|j: int| 0 <= j < i + 1 && (#[trigger] old_vars[j]).0@ == k;
                            if j < i {
                                assert(has_key(before, k));
                                let q = choose|q: int| 0 <= q < before.len() && (#[trigger] before[q]).0@ == k;
                                assert(t[q] == before[q]);
                            } else {
                                assert(t[before.len() as int].0@ == k);
                            }
                        }
                    }
                    assert forall|j: int| 0 <= j < t.len() implies old_vars.take(i + 1).contains(#[trigger] t[j]) by {
                        if j < before.len() {
                            assert(t[j] == before[j]);
                            let m = choose|m: int| 0 <= m < i && old_vars.take(i as int)[m] == before[j];
                            assert(old_vars.take(i + 1)[m] == t[j]);
                        } else {
                            assert(t[j] == old_vars[i as int]);
                            assert(old_vars.take(i + 1)[i as int] == t[j]);
                        }
                    }
                }
            } else {
                proof {
                    assert forall|j: int| 0 <= j < kept@.len() implies old_vars.take(i + 1).contains(#[trigger] kept@[j]) by {
                        let m = choose|m: int| 0 <= m < i && old_vars.take(i as int)[m] == kept@[j];
                        assert(old_vars.take(i + 1)[m] == kept@[j]);
                    }
                    assert forall|k: Seq<char>| #[trigger] has_key(kept@, k) == (has_key(initial@, k) && exists|j: int| 0 <= j < i + 1 && (#[trigger] old_vars[j]).0@ == k) by {
                        if has_key(initial@, k) && exists|j: int| 0 <= j < i + 1 && (#[trigger] old_vars[j]).0@ == k {
                            let j = choose|j: int| 0 <= j < i + 1 && (#[trigger] old_vars[j]).0@ == k;
                            if j == i {
                                assert(!has_key(initial@, old_vars[i as int].0@));
                            }
                        }
                    }
                }
            }
            i = i + 1;
        }
        let ghost after_keep = kept@;
        proof {
            assert(old_vars.take(i as int) =~= old_vars);
            assert forall|key: Seq<char>| #[trigger] has_key(after_keep, key) == (has_key(initial@, key) && has_key(old_vars, key)) by {
                assert(has_key(kept@, key) == (has_key(initial@, key) && exists|j: int| 0 <= j < i && (#[trigger] old_vars[j]).0@ == key));
            }
        }
        let mut k: usize = 0;
        while k < initial.len()
            invariant
                k <= initial@.len(),
                keys_unique(initial@),
                keys_unique(kept@),
                keys_unique(old_vars),
                after_keep.len() <= kept@.len(),
                forall|j: int| 0 <= j < after_keep.len() ==> #[trigger] kept@[j] == after_keep[j],
                forall|j: int| after_keep.len() <= j < kept@.len() ==> initial@.contains(#[trigger] kept@[j]) && !has_key(old_vars, kept@[j].0@),
                forall|key: Seq<char>| #[trigger] has_key(after_keep, key) == (has_key(initial@, key) && has_key(old_vars, key)),
                forall|j: int| 0 <= j < after_keep.len() ==> old_vars.contains(#[trigger] after_keep[j]),
                forall|key: Seq<char>| #[trigger] has_key(kept@, key) == (has_key(after_keep, key) || exists|m: int| 0 <= m < k && (#[trigger] initial@[m]).0@ == key),
            decreases initial@.len() - k,
        {
            let name = initial[k].0.as_str();
            if stash_position(&kept, name).is_none() {
                let ghost before = kept@;
                kept.push((initial[k].0.clone(), initial[k].1.clone()));
                proof {
                    let t = kept@;
                    assert(t[before.len() as int] == initial@[k as int]);
                    assert(!has_key(old_vars, name@)) by {
                        if has_key(old_vars, name@) {
                            assert(has_key(initial@, name@));
                            assert(has_key(after_keep, name@));
                            let q = choose|q: int| 0 <= q < after_keep.len() && (#[trigger] after_keep[q]).0@ == name@;
                            assert(before[q] == after_keep[q]);
                        }
                    }
                    assert forall|a: int, b: int| 0 <= a < t.len() && 0 <= b < t.len() && a != b implies t[a].0@ != t[b].0@ by {
                        if a < before.len() && b < before.len() {
                            assert(t[a] == before[a] && t[b] == before[b]);
                        } else if a < before.len() {
                            assert(t[a] == before[a]);
                        } else {
                            assert(t[b] == before[b]);
                        }
                    }
                    assert forall|j: int| after_keep.len() <= j < t.len() implies initial@.contains(#[trigger] t[j]) && !has_key(old_vars, t[j].0@) by {
                        if j < before.len() {
                            assert(t[j] == before[j]);
                        } else {
                            assert(t[j] == initial@[k as int]);
                        }
                    }
                    assert forall|key: Seq<char>| #[trigger] has_key(t, key) == (has_key(after_keep, key) || exists|m: int| 0 <= m < k + 1 && (#[trigger] initial@[m]).0@ == key) by {
                        if has_key(t, key) {
                            let j = choose|j: int| 0 <= j < t.len() && (#[trigger] t[j]).0@ == key;
                            if j < before.len() {
                                assert(t[j] == before[j]);
                                assert(has_key(before, key));
                            } else {
                                assert(initial@[k as int].0@ == key);
                            }
                        }
                        if has_key(before, key) {
                            let q = choose|q: int| 0 <= q < before.len() && (#[trigger] before[q]).0@ == key;
                            assert(t[q] == before[q]);
                        }
                        if exists|m: int| 0 <= m < k + 1 && (#[trigger] initial@[m]).0@ == key {
                            let m = choose|m: int| 0 <= m < k + 1 && (#[trigger] initial@[m]).0@ == key;
                            if m == k {
                                assert(t[before.len() as int].0@ == key);
                            } else {
                                assert(has_key(before, key));
                                let q = choose|q: int| 0 <= q < before.len() && (#[trigger] before[q]).0@ == key;
                                assert(t[q] == before[q]);
                            }
                        }
                    }
                }
            } else {
                proof {
                    assert forall|key: Seq<char>| #[trigger] has_key(kept@, key) == (has_key(after_keep, key) || exists|m: int| 0 <= m < k + 1 && (#[trigger] initial@[m]).0@ == key) by {
                        if exists|m: int| 0 <= m < k + 1 && (#[trigger] initial@[m]).0@ == key {
                            let m = choose|m: int| 0 <= m < k + 1 && (#[trigger] initial@[m]).0@ == key;
                            if m == k {
                                assert(has_key(kept@, name@));
                            }
                        }
                    }
                }
            }
            k = k + 1;
        }
        proof {
            let t = kept@;
            let want = spec_synced(stash_view(old_vars), stash_view(initial@));
            assert forall|key: Seq<char>| #[trigger] stash_view(t).contains_key(key) == want.contains_key(key) by {
                if has_key(initial@, key) {
                    let m = choose|m: int| 0 <= m < initial@.len() && (#[trigger] initial@[m]).0@ == key;
                    assert(m < k);
                }
                if has_key(after_keep, key) {
                    assert(has_key(initial@, key));
                }
            }
            assert forall|key: Seq<char>| #[trigger] stash_view(t).contains_key(key) implies stash_view(t)[key] == want[key] by {
                let j = choose|j: int| 0 <= j < t.len() && (#[trigger] t[j]).0@ == key;
                lemma_stash_at(t, j);
                if j < after_keep.len() {
                    assert(t[j] == after_keep[j]);
                    let m = choose|m: int| 0 <= m < old_vars.len() && old_vars[m] == after_keep[j];
                    lemma_stash_at(old_vars, m);
                    assert(has_key(initial@, key));
                    let q = choose|q: int| 0 <= q < initial@.len() && (#[trigger] initial@[q]).0@ == key;
                    lemma_stash_at(initial@, q);
                } else {
                    let m = choose|m: int| 0 <= m < initial@.len() && initial@[m] == t[j];
                    lemma_stash_at(initial@, m);
                    assert(!stash_view(old_vars).contains_key(key));
                }
            }
            assert(stash_view(t) =~= want);
        }
        self.temporary_variables = kept;
    }
}

impl<T> RequestSession<T> {
    pub fn status(&self) -> (r: RequestStatus)
        ensures
            r == phase_status(self.runtime.phase),
    {
        self.runtime.status()
    }

    /// What the request sends in the scenario with its draft, as `spec_effective_request`
    /// says.
    pub fn effective_request(&self, configuration: &WorkspaceConfiguration, workspace_headers: &Vec<NameValue>) -> (r: ApiRequest)
        ensures
            r@ == spec_effective_request(self.source@, self.draft@, configuration@, workspace_headers.deep_view()),
    {
        effective_request(&self.source, &self.draft, configuration, workspace_headers)
    }

    /// The temporary variables start over from those given.
    pub fn reset_temporary_variables(&mut self, initial: Vec<(String, String)>)
        requires
            old(self).wf(),
            keys_unique(initial@),
        ensures
            final(self).wf(),
            final(self).temporary_variables == initial,
            final(self).source == old(self).source,
            final(self).draft == old(self).draft,
            final(self).inactive_headers == old(self).inactive_headers,
            final(self).inactive_temporary_variables == old(self).inactive_temporary_variables,
    {
        self.temporary_variables = initial;
    }

    /// Commits the draft into the scenario, as `commit_draft` does.
    pub fn commit_draft(&mut self, configuration: &mut WorkspaceConfiguration)
        ensures
            old(configuration).path is None ==> final(self).source@ == spec_commit_default(old(self).source@, old(self).draft@)
                && final(configuration)@ == old(configuration)@,
            old(configuration).path is Some ==> final(self).source@ == old(self).source@ && final(configuration)@
                == (ConfigurationView {
                request_overrides: spec_committed_overrides(old(self).source@, old(self).draft@, old(configuration)@),
                ..old(configuration)@
            }),
            final(self).draft == old(self).draft,
            final(self).temporary_variables == old(self).temporary_variables,
            final(self).inactive_headers == old(self).inactive_headers,
            final(self).inactive_temporary_variables == old(self).inactive_temporary_variables,
    {
        commit_draft(&mut self.source, &self.draft, configuration);
    }
}

} // verus!
