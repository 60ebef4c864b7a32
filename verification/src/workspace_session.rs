//! The workspace as the user works in it: the active scenario, its variables, the sessions
//! of the requests, and the variables kept for the other scenarios.
use vstd::prelude::*;
use crate::config::{ConfigurationView, RequestView, WorkspaceConfiguration};
use crate::keyed::{
    has_key, keys_unique, lemma_pairs_unique, lemma_stash_at, put_stashed, stash_position, stash_view, take_stashed,
};
use crate::request_session::{RequestSession, SessionView};
use crate::variables::VariableDefinition;
use crate::session::{spec_commit_default, spec_committed_overrides};
use crate::text::{copy_str, eq_str};

verus! {

/// The definition of a variable: the scenario's, else the workspace's.
pub open spec fn definition_of(
    workspace: Seq<(String, VariableDefinition)>,
    scenario: Seq<(String, VariableDefinition)>,
    name: Seq<char>,
) -> Option<VariableDefinition> {
    if has_key(scenario, name) {
        Some(scenario[choose|i: int| 0 <= i < scenario.len() && (#[trigger] scenario[i]).0@ == name].1)
    } else if has_key(workspace, name) {
        Some(workspace[choose|i: int| 0 <= i < workspace.len() && (#[trigger] workspace[i]).0@ == name].1)
    } else {
        None
    }
}

/// The first value of a variable: its definition's, else empty.
pub open spec fn first_value(d: Option<VariableDefinition>) -> Seq<char> {
    match d {
        Some(v) => match v.default {
            Some(t) => t@,
            None => Seq::empty(),
        },
        None => Seq::empty(),
    }
}

fn lookup<'a>(entries: &'a Vec<(String, VariableDefinition)>, name: &str) -> (r: Option<&'a VariableDefinition>)
    requires
        keys_unique(entries@),
    ensures
        match r {
            Some(d) => has_key(entries@, name@) && *d == entries@[choose|i: int| 0 <= i < entries@.len()
                && (#[trigger] entries@[i]).0@ == name@].1,
            None => !has_key(entries@, name@),
        },
{
    match stash_position(entries, name) {
        Some(p) => {
            proof {
                let c = choose|i: int| 0 <= i < entries@.len() && (#[trigger] entries@[i]).0@ == name@;
                assert(c == p);
            }
            Some(&entries[p].1)
        },
        None => None,
    }
}

fn definition<'a>(
    workspace: &'a Vec<(String, VariableDefinition)>,
    scenario: &'a Vec<(String, VariableDefinition)>,
    name: &str,
) -> (r: Option<&'a VariableDefinition>)
    requires
        keys_unique(workspace@),
        keys_unique(scenario@),
    ensures
        match r {
            Some(d) => definition_of(workspace@, scenario@, name@) == Some(*d),
            None => definition_of(workspace@, scenario@, name@) is None,
        },
{
    match lookup(scenario, name) {
        Some(d) => Some(d),
        None => lookup(workspace, name),
    }
}

fn first_value_text(d: Option<&VariableDefinition>) -> (r: String)
    ensures
        r@ == first_value(match d {
            Some(v) => Some(*v),
            None => None,
        }),
{
    match d {
        Some(v) => match &v.default {
            Some(t) => copy_str(t.as_str()),
            None => String::new(),
        },
        None => String::new(),
    }
}

/// Adds `name` with `value` unless it is there already.
fn add_new(out: &mut Vec<(String, String)>, name: &str, value: String)
    requires
        keys_unique(old(out)@),
    ensures
        keys_unique(final(out)@),
        stash_view(final(out)@) == if stash_view(old(out)@).contains_key(name@) {
            stash_view(old(out)@)
        } else {
            stash_view(old(out)@).insert(name@, value@)
        },
{
    if stash_position(out, name).is_some() {
        proof {
            let j = choose|j: int| 0 <= j < out@.len() && (#[trigger] out@[j]).0@ == name@;
            lemma_stash_at(out@, j);
        }
        return;
    }
    put_stashed(out, copy_str(name), value);
}

/// The variables a scenario starts with: each editable variable, with its first value.
pub open spec fn spec_initial_variables(
    editable: Seq<Seq<char>>,
    workspace: Seq<(String, VariableDefinition)>,
    scenario: Seq<(String, VariableDefinition)>,
) -> Map<Seq<char>, Seq<char>> {
    Map::new(|k: Seq<char>| editable.contains(k), |k: Seq<char>| first_value(definition_of(workspace, scenario, k)))
}

pub fn initial_variables(
    editable: &Vec<String>,
    workspace: &Vec<(String, VariableDefinition)>,
    scenario: &Vec<(String, VariableDefinition)>,
) -> (r: Vec<(String, String)>)
    requires
        keys_unique(workspace@),
        keys_unique(scenario@),
    ensures
        keys_unique(r@),
        stash_view(r@) == spec_initial_variables(crate::text::views(editable@), workspace@, scenario@),
{
    let ghost names = crate::text::views(editable@);
    let mut out: Vec<(String, String)> = Vec::new();
    assert(stash_view(out@) =~= spec_initial_variables(names.take(0), workspace@, scenario@));
    let mut i: usize = 0;
    while i < editable.len()
        invariant
            i <= names.len(),
            names == crate::text::views(editable@),
            keys_unique(workspace@),
            keys_unique(scenario@),
            keys_unique(out@),
            stash_view(out@) == spec_initial_variables(names.take(i as int), workspace@, scenario@),
        decreases names.len() - i,
    {
        let name = editable[i].as_str();
        let d = definition(workspace, scenario, name);
        let value = first_value_text(d);
        let ghost before = stash_view(out@);
        add_new(&mut out, name, value);
        proof {
            assert(names[i as int] == name@);
            assert forall|k: Seq<char>| #[trigger] names.take(i + 1).contains(k) == (names.take(i as int).contains(k) || k == name@) by {
                if names.take(i + 1).contains(k) {
                    let j = choose|j: int| 0 <= j < i + 1 && #[trigger] names.take(i + 1)[j] == k;
                    if j < i {
                        assert(names.take(i as int)[j] == k);
                    }
                }
                if names.take(i as int).contains(k) {
                    let j = choose|j: int| 0 <= j < i && #[trigger] names.take(i as int)[j] == k;
                    assert(names.take(i + 1)[j] == k);
                }
                if k == name@ {
                    assert(names.take(i + 1)[i as int] == k);
                }
            }
            assert(stash_view(out@) =~= spec_initial_variables(names.take(i + 1), workspace@, scenario@));
        }
        i = i + 1;
    }
    assert(names.take(i as int) =~= names);
    out
}

/// The temporary variables a request starts with in a scenario: each of the variables it
/// uses (`names`) that is defined as temporary, with its first value.
pub open spec fn spec_initial_temporary(
    names: Seq<Seq<char>>,
    workspace: Seq<(String, VariableDefinition)>,
    scenario: Seq<(String, VariableDefinition)>,
) -> Map<Seq<char>, Seq<char>> {
    Map::new(
        |k: Seq<char>| names.contains(k) && match definition_of(workspace, scenario, k) {
            Some(d) => d.temporary,
            None => false,
        },
        |k: Seq<char>| first_value(definition_of(workspace, scenario, k)),
    )
}

pub fn initial_temporary_variables(
    names: &Vec<String>,
    workspace: &Vec<(String, VariableDefinition)>,
    scenario: &Vec<(String, VariableDefinition)>,
) -> (r: Vec<(String, String)>)
    requires
        keys_unique(workspace@),
        keys_unique(scenario@),
    ensures
        keys_unique(r@),
        stash_view(r@) == spec_initial_temporary(crate::text::views(names@), workspace@, scenario@),
{
    let ghost ns = crate::text::views(names@);
    let mut out: Vec<(String, String)> = Vec::new();
    assert(stash_view(out@) =~= spec_initial_temporary(ns.take(0), workspace@, scenario@));
    let mut i: usize = 0;
    while i < names.len()
        invariant
            i <= ns.len(),
            ns == crate::text::views(names@),
            keys_unique(workspace@),
            keys_unique(scenario@),
            keys_unique(out@),
            stash_view(out@) == spec_initial_temporary(ns.take(i as int), workspace@, scenario@),
        decreases ns.len() - i,
    {
        let name = names[i].as_str();
        let d = definition(workspace, scenario, name);
        let temporary = match d {
            Some(v) => v.temporary,
            None => false,
        };
        proof {
            assert(ns[i as int] == name@);
            assert forall|k: Seq<char>| #[trigger] ns.take(i + 1).contains(k) == (ns.take(i as int).contains(k) || k == name@) by {
                if ns.take(i + 1).contains(k) {
                    let j = choose|j: int| 0 <= j < i + 1 && #[trigger] ns.take(i + 1)[j] == k;
                    if j < i {
                        assert(ns.take(i as int)[j] == k);
                    }
                }
                if ns.take(i as int).contains(k) {
                    let j = choose|j: int| 0 <= j < i && #[trigger] ns.take(i as int)[j] == k;
                    assert(ns.take(i + 1)[j] == k);
                }
                if k == name@ {
                    assert(ns.take(i + 1)[i as int] == k);
                }
            }
        }
        if temporary {
            let value = first_value_text(d);
            add_new(&mut out, name, value);
            assert(stash_view(out@) =~= spec_initial_temporary(ns.take(i + 1), workspace@, scenario@));
        } else {
            assert(stash_view(out@) =~= spec_initial_temporary(ns.take(i + 1), workspace@, scenario@));
        }
        i = i + 1;
    }
    assert(ns.take(i as int) =~= ns);
    out
}

fn copy_pairs(v: &Vec<(String, String)>) -> (r: Vec<(String, String)>)
    ensures
        r.deep_view() == v.deep_view(),
        keys_unique(r@) == keys_unique(v@),
{
    let mut out: Vec<(String, String)> = Vec::new();
    let mut i: usize = 0;
    while i < v.len()
        invariant
            i <= v@.len(),
            out.deep_view() == v.deep_view().take(i as int),
        decreases v@.len() - i,
    {
        let ghost before = out.deep_view();
        out.push((copy_str(v[i].0.as_str()), copy_str(v[i].1.as_str())));
        assert(out.deep_view() =~= before.push(v.deep_view()[i as int]));
        assert(v.deep_view().take(i + 1) =~= v.deep_view().take(i as int).push(v.deep_view()[i as int]));
        i = i + 1;
    }
    assert(v.deep_view().take(i as int) =~= v.deep_view());
    proof {
        lemma_pairs_unique(out);
        lemma_pairs_unique(*v);
    }
    out
}

/// The workspace's variables across scenarios: the active scenario, its variables, and the
/// variables kept for each scenario.
pub struct VariablesView {
    pub active: Seq<char>,
    pub variables: Seq<(Seq<char>, Seq<char>)>,
    pub stored: Map<Seq<char>, Seq<(Seq<char>, Seq<char>)>>,
}

/// Committing keeps the active scenario's variables under its name.
pub open spec fn spec_commit_variables(v: VariablesView) -> VariablesView {
    VariablesView { stored: v.stored.insert(v.active, v.variables), ..v }
}

/// Switching to a scenario takes the variables kept for it, or keeps and takes its first
/// ones when none are.
pub open spec fn spec_switch_variables(v: VariablesView, name: Seq<char>, initial: Seq<(Seq<char>, Seq<char>)>) -> VariablesView {
    let stored = if v.stored.contains_key(name) {
        v.stored
    } else {
        v.stored.insert(name, initial)
    };
    VariablesView { active: name, variables: stored[name], stored }
}

/// Leaving a scenario and coming back gives its variables as they were left, whatever was
/// done in the other scenario.
pub proof fn law_variables_survive_a_round_trip(
    v: VariablesView,
    other: Seq<char>,
    initial_other: Seq<(Seq<char>, Seq<char>)>,
    edited_other: Seq<(Seq<char>, Seq<char>)>,
    initial_back: Seq<(Seq<char>, Seq<char>)>,
)
    requires
        other != v.active,
    ensures
        ({
            let there = spec_switch_variables(spec_commit_variables(v), other, initial_other);
            let edited = VariablesView { variables: edited_other, ..there };
            let back = spec_switch_variables(spec_commit_variables(edited), v.active, initial_back);
            back.variables == v.variables && back.active == v.active
        }),
{
}

/// The sessions' requests and the scenario once every draft is committed in order.
pub open spec fn spec_commit_all(sessions: Seq<SessionView>, c: ConfigurationView) -> (Seq<RequestView>, ConfigurationView)
    decreases sessions.len(),
{
    if sessions.len() == 0 {
        (Seq::empty(), c)
    } else {
        let (sources, c1) = spec_commit_all(sessions.drop_last(), c);
        let s = sessions.last();
        if c1.path is None {
            (sources.push(spec_commit_default(s.source, s.draft)), c1)
        } else {
            (sources.push(s.source), ConfigurationView {
                request_overrides: spec_committed_overrides(s.source, s.draft, c1),
                ..c1
            })
        }
    }
}

/// The workspace as it is worked in. The answers to sends are held as `T`.
pub struct WorkspaceSession<T> {
    pub active_configuration: String,
    pub variables: Vec<(String, String)>,
    pub requests: Vec<RequestSession<T>>,
    pub selected_request: Option<usize>,
    pub configuration_variables: Vec<(String, Vec<(String, String)>)>,
}

impl<T> WorkspaceSession<T> {
    pub open spec fn variables_view(&self) -> VariablesView {
        VariablesView {
            active: self.active_configuration@,
            variables: self.variables.deep_view(),
            stored: stash_view(self.configuration_variables@),
        }
    }

    pub open spec fn sessions(&self) -> Seq<SessionView> {
        self.requests@.map_values(|s: RequestSession<T>| s.session_view())
    }

    /// Each scenario's variables are kept once, each request session is well formed.
    pub open spec fn wf(&self) -> bool {
        &&& keys_unique(self.configuration_variables@)
        &&& forall|i: int| 0 <= i < self.requests@.len() ==> (#[trigger] self.requests@[i]).wf()
    }

    /// The workspace in its default scenario with the variables each scenario starts with,
    /// the first request selected when there is one.
    pub fn from_config(
        default_configuration: String,
        configuration_variables: Vec<(String, Vec<(String, String)>)>,
        requests: Vec<RequestSession<T>>,
    ) -> (r: WorkspaceSession<T>)
        requires
            keys_unique(configuration_variables@),
            forall|i: int| 0 <= i < requests@.len() ==> (#[trigger] requests@[i]).wf(),
        ensures
            r.wf(),
            r.variables_view().active == default_configuration@,
            r.variables_view().stored == stash_view(configuration_variables@),
            r.variables_view().variables == (if stash_view(configuration_variables@).contains_key(default_configuration@) {
                stash_view(configuration_variables@)[default_configuration@]
            } else {
                Seq::empty()
            }),
            r.requests == requests,
            r.selected_request == (if requests@.len() > 0 {
                Some(0usize)
            } else {
                None
            }),
    {
        let variables = match stash_position(&configuration_variables, default_configuration.as_str()) {
            Some(p) => {
                proof {
                    lemma_stash_at(configuration_variables@, p as int);
                }
                copy_pairs(&configuration_variables[p].1)
            },
            None => Vec::new(),
        };
        let selected_request = if requests.len() > 0 {
            Some(0)
        } else {
            None
        };
        WorkspaceSession {
            active_configuration: default_configuration,
            variables,
            requests,
            selected_request,
            configuration_variables,
        }
    }

    /// Whether switching to `name` does anything: it is another scenario, and one that exists.
    pub fn should_switch(&self, name: &str, configurations: &Vec<(String, WorkspaceConfiguration)>) -> (r: bool)
        ensures
            r == (name@ != self.active_configuration@ && has_key(configurations@, name@)),
    {
        !eq_str(name, self.active_configuration.as_str()) && stash_position(configurations, name).is_some()
    }

    /// Commits every request's draft into the active scenario, in order, and keeps the active
    /// scenario's variables.
    pub fn commit_configuration(&mut self, configuration: &mut WorkspaceConfiguration)
        requires
            old(self).wf(),
        ensures
            final(self).wf(),
            final(self).variables_view() == spec_commit_variables(old(self).variables_view()),
            final(configuration)@ == spec_commit_all(old(self).sessions(), old(configuration)@).1,
            final(self).requests@.len() == old(self).requests@.len(),
            forall|i: int| 0 <= i < old(self).requests@.len() ==> (#[trigger] final(self).sessions()[i]) == (SessionView {
                source: spec_commit_all(old(self).sessions(), old(configuration)@).0[i],
                ..old(self).sessions()[i]
            }),
            final(self).selected_request == old(self).selected_request,
    {
        let ghost old_sessions = self.sessions();
        let ghost c0 = configuration@;
        let mut i: usize = 0;
        while i < self.requests.len()
            invariant
                i <= self.requests@.len(),
                self.requests@.len() == old_sessions.len(),
                old_sessions == old(self).sessions(),
                self.configuration_variables == old(self).configuration_variables,
                self.variables == old(self).variables,
                self.active_configuration == old(self).active_configuration,
                self.selected_request == old(self).selected_request,
                c0 == old(configuration)@,
                keys_unique(self.configuration_variables@),
                forall|j: int| 0 <= j < self.requests@.len() ==> (#[trigger] self.requests@[j]).wf(),
                configuration@ == spec_commit_all(old_sessions.take(i as int), c0).1,
                forall|j: int| 0 <= j < i ==> (#[trigger] self.sessions()[j]) == (SessionView {
                    source: spec_commit_all(old_sessions.take(i as int), c0).0[j],
                    ..old_sessions[j]
                }),
                forall|j: int| i <= j < self.requests@.len() ==> (#[trigger] self.sessions()[j]) == old_sessions[j],
                spec_commit_all(old_sessions.take(i as int), c0).0.len() == i,
            decreases self.requests@.len() - i,
        {
            let ghost before = self.sessions();
            let ghost cb = configuration@;
            let ghost prefix = spec_commit_all(old_sessions.take(i as int), c0);
            assert(configuration.path is None <==> configuration@.path is None);
            assert(self.sessions()[i as int] == old_sessions[i as int]);
            let session = &mut self.requests[i];
            session.commit_draft(configuration);
            proof {
                assert(self.sessions()[i as int].source == self.requests@[i as int].source@);
                assert(old_sessions.take(i + 1).drop_last() =~= old_sessions.take(i as int));
                assert(old_sessions.take(i + 1).last() == old_sessions[i as int]);
                let next = spec_commit_all(old_sessions.take(i + 1), c0);
                assert forall|j: int| 0 <= j < i + 1 implies (#[trigger] self.sessions()[j]) == (SessionView {
                    source: next.0[j],
                    ..old_sessions[j]
                }) by {
                    if j < i {
                        assert(self.sessions()[j] == before[j]);
                    }
                }
                assert forall|j: int| i + 1 <= j < self.requests@.len() implies (#[trigger] self.sessions()[j]) == old_sessions[j] by {
                    assert(self.sessions()[j] == before[j]);
                }
            }
            i = i + 1;
        }
        assert(old_sessions.take(i as int) =~= old_sessions);
        assert(i == old_sessions.len());
        let ghost loop_sessions = self.sessions();
        assert(forall|j: int| 0 <= j < old_sessions.len() ==> loop_sessions[j] == (SessionView {
            source: spec_commit_all(old_sessions.take(i as int), c0).0[j],
            ..old_sessions[j]
        }));
        let ghost after_loop = self.requests@;
        let kept = copy_pairs(&self.variables);
        let name = copy_str(self.active_configuration.as_str());
        put_stashed(&mut self.configuration_variables, name, kept);
        proof {
            assert(self.requests@ == after_loop);
            let all = spec_commit_all(old_sessions, c0);
            assert forall|j: int| 0 <= j < old_sessions.len() implies (#[trigger] self.sessions()[j]) == (SessionView {
                source: all.0[j],
                ..old_sessions[j]
            }) by {
                assert(self.sessions()[j] == (SessionView {
                    source: spec_commit_all(old_sessions.take(i as int), c0).0[j],
                    ..old_sessions[j]
                }));
            }
        }
    }

    /// Moves to scenario `name`, whose drafts are already committed: each request session
    /// moves as `activate_configuration` says, with its first temporary variables in
    /// `temporaries`; the variables are those kept for `name`, else `initial`, now kept.
    pub fn switch_to(
        &mut self,
        name: &str,
        target: &WorkspaceConfiguration,
        initial: Vec<(String, String)>,
        temporaries_in: Vec<Vec<(String, String)>>,
    )
        requires
            old(self).wf(),
            keys_unique(initial@),
            temporaries_in@.len() == old(self).requests@.len(),
            forall|i: int| 0 <= i < temporaries_in@.len() ==> keys_unique((#[trigger] temporaries_in@[i])@),
        ensures
            final(self).wf(),
            final(self).variables_view() == spec_switch_variables(old(self).variables_view(), name@, initial.deep_view()),
            final(self).requests@.len() == old(self).requests@.len(),
            forall|i: int| 0 <= i < old(self).requests@.len() ==> (#[trigger] final(self).sessions()[i])
                == crate::request_session::spec_activate(
                old(self).sessions()[i],
                old(self).active_configuration@,
                name@,
                target@,
                temporaries_in@[i].deep_view(),
            ),
            final(self).selected_request == old(self).selected_request,
    {
        let ghost old_sessions = self.sessions();
        let ghost previous = self.active_configuration@;
        let mut temporaries = temporaries_in;
        let ghost temps = temporaries@;
        let mut i: usize = 0;
        while i < self.requests.len()
            invariant
                i <= self.requests@.len(),
                self.requests@.len() == old_sessions.len(),
                temps.len() == old_sessions.len(),
                temporaries@.len() + i == temps.len(),
                forall|j: int| 0 <= j < temporaries@.len() ==> temporaries@[j] == temps[j + i],
                forall|j: int| 0 <= j < temps.len() ==> keys_unique((#[trigger] temps[j])@),
                self.active_configuration@ == previous,
                old_sessions == old(self).sessions(),
                temps == temporaries_in@,
                self.configuration_variables == old(self).configuration_variables,
                self.variables == old(self).variables,
                self.active_configuration == old(self).active_configuration,
                self.selected_request == old(self).selected_request,
                keys_unique(self.configuration_variables@),
                forall|j: int| 0 <= j < self.requests@.len() ==> (#[trigger] self.requests@[j]).wf(),
                forall|j: int| 0 <= j < i ==> (#[trigger] self.sessions()[j]) == crate::request_session::spec_activate(
                    old_sessions[j],
                    previous,
                    name@,
                    target@,
                    temps[j].deep_view(),
                ),
                forall|j: int| i <= j < self.requests@.len() ==> (#[trigger] self.sessions()[j]) == old_sessions[j],
            decreases self.requests@.len() - i,
        {
            let ghost before = self.sessions();
            let first = temporaries.remove(0);
            assert(first == temps[i as int]);
            let session = &mut self.requests[i];
            session.activate_configuration(self.active_configuration.as_str(), name, target, first);
            proof {
                assert forall|j: int| 0 <= j < i + 1 implies (#[trigger] self.sessions()[j]) == crate::request_session::spec_activate(
                    old_sessions[j],
                    previous,
                    name@,
                    target@,
                    temps[j].deep_view(),
                ) by {
                    if j < i {
                        assert(self.sessions()[j] == before[j]);
                    }
                }
                assert forall|j: int| i + 1 <= j < self.requests@.len() implies (#[trigger] self.sessions()[j]) == old_sessions[j] by {
                    assert(self.sessions()[j] == before[j]);
                }
            }
            i = i + 1;
        }
        let ghost loop_sessions = self.sessions();
        assert(forall|j: int| 0 <= j < old_sessions.len() ==> loop_sessions[j]
            == crate::request_session::spec_activate(old_sessions[j], previous, name@, target@, temps[j].deep_view()));
        let ghost after_loop = self.requests@;
        self.active_configuration = copy_str(name);
        let ghost stored = stash_view(self.configuration_variables@);
        let taken = take_stashed(&mut self.configuration_variables, name);
        let chosen = match taken {
            Some(v) => v,
            None => initial,
        };
        let variables = copy_pairs(&chosen);
        put_stashed(&mut self.configuration_variables, copy_str(name), chosen);
        self.variables = variables;
        proof {
            let want = spec_switch_variables(
                VariablesView { active: previous, variables: old(self).variables.deep_view(), stored },
                name@,
                initial.deep_view(),
            );
            assert(stash_view(self.configuration_variables@) =~= want.stored);
            assert(self.requests@ == after_loop);
            assert(self.sessions() =~= loop_sessions);
        }
    }
}

impl<T> WorkspaceSession<T> {
    /// The selected request's session.
    pub fn current(&self) -> (r: Option<&RequestSession<T>>)
        ensures
            match r {
                Some(s) => match self.selected_request {
                    Some(i) => i < self.requests@.len() && *s == self.requests@[i as int],
                    None => false,
                },
                None => match self.selected_request {
                    Some(i) => i >= self.requests@.len(),
                    None => true,
                },
            },
    {
        match self.selected_request {
            Some(i) => if i < self.requests.len() {
                Some(&self.requests[i])
            } else {
                None
            },
            None => None,
        }
    }

    /// The session of the first request with id `request_id`.
    pub fn request(&self, request_id: &str) -> (r: Option<&RequestSession<T>>)
        ensures
            match r {
                Some(s) => exists|i: int| 0 <= i < self.requests@.len() && *s == self.requests@[i]
                    && s.source.id@ == request_id@ && forall|j: int| 0 <= j < i ==> (#[trigger] self.requests@[j]).source.id@ != request_id@,
                None => forall|j: int| 0 <= j < self.requests@.len() ==> (#[trigger] self.requests@[j]).source.id@ != request_id@,
            },
    {
        let mut i: usize = 0;
        while i < self.requests.len()
            invariant
                i <= self.requests@.len(),
                forall|j: int| 0 <= j < i ==> (#[trigger] self.requests@[j]).source.id@ != request_id@,
            decreases self.requests@.len() - i,
        {
            if eq_str(self.requests[i].source.id.as_str(), request_id) {
                return Some(&self.requests[i]);
            }
            i = i + 1;
        }
        None
    }
}

} // verus!
