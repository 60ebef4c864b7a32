//! Variables as workspace and scenario files define them, and what loading makes of them.
use vstd::prelude::*;
use crate::keyed::{insert_ordered, keyed_views, keys_unique, lemma_stash_at, stash_position, stash_view};
use crate::loading::ordered_by_name;
use crate::text::copy_str;

verus! {

/// A variable as a scenario or the workspace defines it: its first value as text, whether it
/// is secret, and whether each request holds its own value of it.
pub struct VariableDefinition {
    pub default: Option<String>,
    pub secret: bool,
    pub temporary: bool,
}

/// A variable as a workspace or scenario file writes it: a bare value, or a definition. A
/// value is held as the text it stands for.
pub enum RawVariableDefinition {
    Value(String),
    Definition { value: Option<String>, secret: bool, temporary: bool },
}

pub struct DefinitionView {
    pub default: Option<Seq<char>>,
    pub secret: bool,
    pub temporary: bool,
}

impl DeepView for VariableDefinition {
    type V = DefinitionView;

    open spec fn deep_view(&self) -> DefinitionView {
        DefinitionView { default: self.default.deep_view(), secret: self.secret, temporary: self.temporary }
    }
}

/// What a variable written in a file defines: nothing written is a temporary variable
/// without a value; a bare value is a temporary variable with that value; a definition
/// says for itself.
pub open spec fn spec_definition(raw: Option<RawVariableDefinition>) -> DefinitionView {
    match raw {
        None => DefinitionView { default: None, secret: false, temporary: true },
        Some(RawVariableDefinition::Value(v)) => DefinitionView { default: Some(v@), secret: false, temporary: true },
        Some(RawVariableDefinition::Definition { value, secret, temporary }) => DefinitionView {
            default: value.deep_view(),
            secret,
            temporary,
        },
    }
}

/// The variables of a file, by name: each name normalized, refused when it is invalid or
/// when two entries come to the same name.
pub open spec fn spec_normalize_variables(raw: Seq<(String, Option<RawVariableDefinition>)>) -> Result<
    Map<Seq<char>, DefinitionView>,
    Seq<char>,
>
    decreases raw.len(),
{
    if raw.len() == 0 {
        Ok(Map::empty())
    } else {
        match spec_normalize_variables(raw.drop_last()) {
            Err(e) => Err(e),
            Ok(m) => {
                let (raw_name, raw_definition) = raw.last();
                match crate::validation::spec_variable_name(raw_name@) {
                    None => Err("Variable name is invalid: "@ + raw_name@),
                    Some(name) => if m.contains_key(name) {
                        Err("Variable name is declared more than once: "@ + name)
                    } else {
                        Ok(m.insert(name, spec_definition(raw_definition)))
                    },
                }
            },
        }
    }
}

pub fn normalize_variables(raw: &Vec<(String, Option<RawVariableDefinition>)>) -> (r: Result<Vec<(String, VariableDefinition)>, String>)
    ensures
        match r {
            Ok(vs) => keys_unique(vs@) && ordered_by_name(keyed_views(vs@)) && spec_normalize_variables(raw@)
                == Ok::<Map<Seq<char>, DefinitionView>, Seq<char>>(stash_view(vs@)),
            Err(e) => spec_normalize_variables(raw@) == Err::<Map<Seq<char>, DefinitionView>, Seq<char>>(e@),
        },
{
    let ghost rv = raw@;
    let mut out: Vec<(String, VariableDefinition)> = Vec::new();
    let mut i: usize = 0;
    assert(rv.take(0) =~= Seq::<(String, Option<RawVariableDefinition>)>::empty());
    assert(stash_view(out@) =~= Map::<Seq<char>, DefinitionView>::empty());
    assert(keyed_views(out@) =~= Seq::<(Seq<char>, DefinitionView)>::empty());
    while i < raw.len()
        invariant
            i <= rv.len(),
            rv == raw@,
            keys_unique(out@),
            ordered_by_name(keyed_views(out@)),
            spec_normalize_variables(rv.take(i as int)) == Ok::<Map<Seq<char>, DefinitionView>, Seq<char>>(stash_view(out@)),
        decreases rv.len() - i,
    {
        proof {
            assert(rv.take(i + 1).drop_last() =~= rv.take(i as int));
            assert(rv.take(i + 1).last() == rv[i as int]);
        }
        let raw_name = raw[i].0.as_str();
        let name = match crate::validation::normalize_variable_name(raw_name) {
            Some(n) => n,
            None => {
                let mut e = copy_str("Variable name is invalid: ");
                crate::text::push_str(&mut e, raw_name);
                proof {
                    lemma_normalize_prefix_error(rv, i as int + 1, e@);
                    assert(rv.take(rv.len() as int) =~= rv);
                }
                return Err(e);
            },
        };
        let definition = match &raw[i].1 {
            None => VariableDefinition { default: None, secret: false, temporary: true },
            Some(RawVariableDefinition::Value(v)) => VariableDefinition {
                default: Some(copy_str(v.as_str())),
                secret: false,
                temporary: true,
            },
            Some(RawVariableDefinition::Definition { value, secret, temporary }) => VariableDefinition {
                default: match value {
                    Some(v) => Some(copy_str(v.as_str())),
                    None => None,
                },
                secret: *secret,
                temporary: *temporary,
            },
        };
        if stash_position(&out, name.as_str()).is_some() {
            let mut e = copy_str("Variable name is declared more than once: ");
            crate::text::push_str(&mut e, name.as_str());
            proof {
                let j = choose|j: int| 0 <= j < out@.len() && (#[trigger] out@[j]).0@ == name@;
                lemma_stash_at(out@, j);
                lemma_normalize_prefix_error(rv, i as int + 1, e@);
                assert(rv.take(rv.len() as int) =~= rv);
            }
            return Err(e);
        }
        insert_ordered(&mut out, name, definition);
        i = i + 1;
    }
    assert(rv.take(i as int) =~= rv);
    Ok(out)
}

/// Once a prefix of the entries is refused, so is every longer one, with the same message.
proof fn lemma_normalize_prefix_error(raw: Seq<(String, Option<RawVariableDefinition>)>, k: int, e: Seq<char>)
    requires
        0 <= k <= raw.len(),
        spec_normalize_variables(raw.take(k)) == Err::<Map<Seq<char>, DefinitionView>, Seq<char>>(e),
    ensures
        spec_normalize_variables(raw) == Err::<Map<Seq<char>, DefinitionView>, Seq<char>>(e),
    decreases raw.len() - k,
{
    if k < raw.len() {
        assert(raw.take(k + 1).drop_last() =~= raw.take(k));
        lemma_normalize_prefix_error(raw, k + 1, e);
    } else {
        assert(raw.take(k) =~= raw);
    }
}

/// Each entry of a file that loads stands in the result under its normalized name, with the
/// definition it writes.
proof fn lemma_normalized_entry(raw: Seq<(String, Option<RawVariableDefinition>)>, k: int)
    requires
        0 <= k < raw.len(),
        spec_normalize_variables(raw) is Ok,
    ensures
        match (crate::validation::spec_variable_name(raw[k].0@), spec_normalize_variables(raw)) {
            (Some(name), Ok(m)) => m.contains_key(name) && m[name] == spec_definition(raw[k].1),
            _ => false,
        },
    decreases raw.len(),
{
    let prefix = raw.drop_last();
    if k < raw.len() - 1 {
        assert(prefix[k] == raw[k]);
        lemma_normalized_entry(prefix, k);
    }
}

/// A variable written as a bare value loads as a variable that is not secret, is
/// temporary, and has that value as its default; one written with nothing after its name
/// loads as a temporary variable with no default.
pub proof fn law_bare_value_is_temporary(
    raw: Seq<(String, Option<RawVariableDefinition>)>,
    k: int,
    v: String,
)
    requires
        0 <= k < raw.len(),
        spec_normalize_variables(raw) is Ok,
    ensures
        raw[k].1 == Some(RawVariableDefinition::Value(v)) ==> match (
            crate::validation::spec_variable_name(raw[k].0@),
            spec_normalize_variables(raw),
        ) {
            (Some(name), Ok(m)) => m.contains_key(name) && m[name] == DefinitionView {
                default: Some(v@),
                secret: false,
                temporary: true,
            },
            _ => false,
        },
        raw[k].1 is None ==> match (
            crate::validation::spec_variable_name(raw[k].0@),
            spec_normalize_variables(raw),
        ) {
            (Some(name), Ok(m)) => m.contains_key(name) && m[name] == DefinitionView {
                default: None,
                secret: false,
                temporary: true,
            },
            _ => false,
        },
{
    lemma_normalized_entry(raw, k);
}

/// The document that writes a definition: as a definition, with its value.
pub fn definition_document(d: &VariableDefinition) -> (r: RawVariableDefinition)
    ensures
        spec_definition(Some(r)) == d.deep_view(),
        r is Definition,
{
    RawVariableDefinition::Definition {
        value: match &d.default {
            Some(v) => Some(copy_str(v.as_str())),
            None => None,
        },
        secret: d.secret,
        temporary: d.temporary,
    }
}

} // verus!
