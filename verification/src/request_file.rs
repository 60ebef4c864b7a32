//! Where request files of a workspace are written: their paths and file names.
use vstd::prelude::*;
use crate::files::{has_parent_part, join_path, join_path_str};
use crate::text::{
    chars_of, copy_str, decimal, decimal_string, push_str, split, starts_with, starts_with_str,
    string_of, strip_prefix, strip_prefix_str, trim, trim_str,
};

verus! {

/// Whether `char::is_alphanumeric` holds of a character (Unicode's alphabetic or numeric).
pub uninterp spec fn alphanumeric(c: char) -> bool;

/// `char::is_alphanumeric`. Its answer rests on Unicode's tables and is named, not described.
#[verifier::external_body]
fn is_alphanumeric(c: char) -> (r: bool)
    ensures
        r == alphanumeric(c),
{
    c.is_alphanumeric()
}

/// Where a workspace's request files are kept.
pub struct RequestFileStore {
    workspace_path: String,
}

impl View for RequestFileStore {
    type V = Seq<char>;

    closed spec fn view(&self) -> Seq<char> {
        self.workspace_path@
    }
}

impl Clone for RequestFileStore {
    fn clone(&self) -> (r: Self)
        ensures
            r@ == self@,
    {
        RequestFileStore { workspace_path: self.workspace_path.clone() }
    }
}

/// The file that a request identifier names: below `requests/` of the workspace, refused
/// when the identifier is not below `requests/` or climbs out of it.
pub open spec fn spec_path_for_id(workspace: Seq<char>, id: Seq<char>) -> Result<Seq<char>, Seq<char>> {
    match strip_prefix(id, "requests/"@) {
        Some(relative) => if relative.len() == 0 {
            Err("Request has no writable source file"@)
        } else if starts_with(relative, "/"@) || split(relative, '/').contains(".."@) {
            Err("Invalid request source path"@)
        } else {
            Ok(join_path(join_path(workspace, "requests"@), relative))
        },
        None => Err("Request has no writable source file"@),
    }
}

impl RequestFileStore {
    pub fn new(workspace_path: String) -> (r: Self)
        ensures
            r@ == workspace_path@,
    {
        RequestFileStore { workspace_path }
    }

    pub fn workspace_path(&self) -> (r: &str)
        ensures
            r@ == self@,
    {
        self.workspace_path.as_str()
    }

    /// The file of the request `request_id`.
    pub fn path_for_id(&self, request_id: &str) -> (r: Result<String, String>)
        ensures
            match r {
                Ok(p) => spec_path_for_id(self@, request_id@) == Ok::<Seq<char>, Seq<char>>(p@),
                Err(e) => spec_path_for_id(self@, request_id@) == Err::<Seq<char>, Seq<char>>(e@),
            },
    {
        let relative = match strip_prefix_str(request_id, "requests/") {
            Some(r) => r,
            None => return Err(copy_str("Request has no writable source file")),
        };
        if relative.as_str().is_empty() {
            return Err(copy_str("Request has no writable source file"));
        }
        if starts_with_str(relative.as_str(), "/") || has_parent_part(relative.as_str()) {
            return Err(copy_str("Invalid request source path"));
        }
        let directory = join_path_str(self.workspace_path.as_str(), "requests");
        Ok(join_path_str(directory.as_str(), relative.as_str()))
    }

    /// The directory that new request files go to.
    pub fn requests_directory(&self) -> (r: String)
        ensures
            r@ == join_path(self@, "requests"@),
    {
        join_path_str(self.workspace_path.as_str(), "requests")
    }
}

/// What the file name keeps of a character: letters, digits, `-` and `_`.
pub open spec fn stem_char(c: char) -> bool {
    alphanumeric(c) || c == '-' || c == '_'
}

/// The stem built so far from some characters, and whether it ends in a separator that
/// stands for a run of other characters.
pub open spec fn stem_run(cs: Seq<char>) -> (Seq<char>, bool)
    decreases cs.len(),
{
    if cs.len() == 0 {
        (Seq::empty(), false)
    } else {
        let (stem, separator) = stem_run(cs.drop_last());
        let c = cs.last();
        if stem_char(c) {
            (stem.push(c), false)
        } else if stem.len() > 0 && !separator {
            (stem.push('-'), true)
        } else {
            (stem, separator)
        }
    }
}

/// The text without the `-` characters it ends with.
pub open spec fn without_trailing_dashes(s: Seq<char>) -> Seq<char>
    decreases s.len(),
{
    if s.len() > 0 && s.last() == '-' {
        without_trailing_dashes(s.drop_last())
    } else {
        s
    }
}

/// The stem of a new request's file name: its name trimmed, with letters, digits, `-` and
/// `_` kept, each run of other characters after the first kept one made a `-`, trailing
/// `-` dropped; `request` when nothing is left.
pub open spec fn spec_request_file_stem(name: Seq<char>) -> Seq<char> {
    let s = without_trailing_dashes(stem_run(trim(name)).0);
    if s.len() == 0 {
        "request"@
    } else {
        s
    }
}

pub fn request_file_stem(name: &str) -> (r: String)
    ensures
        r@ == spec_request_file_stem(name@),
{
    let t = trim_str(name);
    let v = chars_of(t.as_str());
    let mut stem: Vec<char> = Vec::new();
    let mut separator = false;
    let mut i: usize = 0;
    assert(v@.take(0) =~= Seq::<char>::empty());
    while i < v.len()
        invariant
            v@ == trim(name@),
            i <= v@.len(),
            (stem@, separator) == stem_run(v@.take(i as int)),
        decreases v@.len() - i,
    {
        assert(v@.take(i + 1).drop_last() =~= v@.take(i as int));
        assert(v@.take(i + 1).last() == v@[i as int]);
        let c = v[i];
        if is_alphanumeric(c) || c == '-' || c == '_' {
            stem.push(c);
            separator = false;
        } else if stem.len() > 0 && !separator {
            stem.push('-');
            separator = true;
        }
        i = i + 1;
    }
    assert(v@.take(v@.len() as int) =~= v@);
    while stem.len() > 0 && stem[stem.len() - 1] == '-'
        invariant
            without_trailing_dashes(stem_run(v@).0) == without_trailing_dashes(stem@),
        decreases stem@.len(),
    {
        let ghost before = stem@;
        stem.pop();
        assert(stem@ =~= before.drop_last());
    }
    if stem.len() == 0 {
        copy_str("request")
    } else {
        string_of(stem.as_slice())
    }
}

/// The file name that the `suffix`-th attempt to create a request file tries:
/// `stem.yaml`, then `stem-2.yaml`, `stem-3.yaml` and so on.
pub open spec fn spec_candidate_file_name(stem: Seq<char>, suffix: u32) -> Seq<char> {
    if suffix == 1 {
        stem + ".yaml"@
    } else {
        stem + "-"@ + decimal(suffix as nat) + ".yaml"@
    }
}

pub fn candidate_file_name(stem: &str, suffix: u32) -> (r: String)
    ensures
        r@ == spec_candidate_file_name(stem@, suffix),
{
    let mut out = copy_str(stem);
    if suffix != 1 {
        push_str(&mut out, "-");
        push_str(&mut out, decimal_string(suffix as u64).as_str());
    }
    push_str(&mut out, ".yaml");
    out
}

/// The name of the temporary file that a file is first written to:
/// `.<name>.<process>.<sequence>.tmp`.
pub open spec fn spec_temporary_file_name(file_name: Seq<char>, process: u32, sequence: u64) -> Seq<char> {
    "."@ + file_name + "."@ + decimal(process as nat) + "."@ + decimal(sequence as nat) + ".tmp"@
}

pub fn temporary_file_name(file_name: &str, process: u32, sequence: u64) -> (r: String)
    ensures
        r@ == spec_temporary_file_name(file_name@, process, sequence),
{
    let mut out = copy_str(".");
    push_str(&mut out, file_name);
    push_str(&mut out, ".");
    push_str(&mut out, decimal_string(process as u64).as_str());
    push_str(&mut out, ".");
    push_str(&mut out, decimal_string(sequence).as_str());
    push_str(&mut out, ".tmp");
    out
}


/// How linking the written file under a candidate name went.
pub enum LinkOutcome {
    Linked,
    AlreadyExists,
    Failed(String),
}

/// What creating a request file does after an attempt.
pub enum CreateStep {
    /// The file stands under the name just tried.
    Done,
    /// The name is taken: the next candidate is tried.
    TryNext(u32),
    /// Saving failed, with this message.
    Fail(String),
}

pub enum CreateStepView {
    Done,
    TryNext(u32),
    Fail(Seq<char>),
}

impl View for CreateStep {
    type V = CreateStepView;

    open spec fn view(&self) -> CreateStepView {
        match self {
            CreateStep::Done => CreateStepView::Done,
            CreateStep::TryNext(n) => CreateStepView::TryNext(*n),
            CreateStep::Fail(m) => CreateStepView::Fail(m@),
        }
    }
}

/// After trying candidate `suffix` at `path`: done once linked; on a taken name the next
/// suffix, until none is left; any other failure stops with the path named.
pub open spec fn spec_create_step(suffix: u32, path: Seq<char>, outcome: LinkOutcome) -> CreateStepView {
    match outcome {
        LinkOutcome::Linked => CreateStepView::Done,
        LinkOutcome::AlreadyExists => if suffix < u32::MAX {
            CreateStepView::TryNext((suffix + 1) as u32)
        } else {
            CreateStepView::Fail("Could not choose a unique request file name"@)
        },
        LinkOutcome::Failed(e) => CreateStepView::Fail("Could not save request file: "@ + path + ": "@ + e@),
    }
}

pub fn create_step(suffix: u32, path: &str, outcome: LinkOutcome) -> (r: CreateStep)
    ensures
        r@ == spec_create_step(suffix, path@, outcome),
{
    match outcome {
        LinkOutcome::Linked => CreateStep::Done,
        LinkOutcome::AlreadyExists => if suffix < u32::MAX {
            CreateStep::TryNext(suffix + 1)
        } else {
            CreateStep::Fail(copy_str("Could not choose a unique request file name"))
        },
        LinkOutcome::Failed(e) => {
            let mut m = copy_str("Could not save request file: ");
            push_str(&mut m, path);
            push_str(&mut m, ": ");
            push_str(&mut m, e.as_str());
            CreateStep::Fail(m)
        },
    }
}

} // verus!
