//! Staging the files of a repository's `.github` directory: which desired
//! files to add or update on the comparison branch, and which files of the
//! branch to remove.

use vstd::prelude::*;
use crate::sets::canonical_path;
use crate::sets::has_path;
use crate::sets::holds_path;
use crate::sets::short_github_path;
use crate::sets::IssueTemplateFile;
use crate::sets::IssueTemplateFileView;
use crate::text::ends_with;
use crate::text::owned;
use crate::text::starts_with;

verus! {

/// A file as a branch of the repository holds it.
#[derive(Debug)]
pub struct RepoFile {
    pub sha: String,
    pub content: String,
}

/// The value of a `RepoFile`.
pub ghost struct RepoFileView {
    pub sha: Seq<char>,
    pub content: Seq<char>,
}

impl DeepView for RepoFile {
    type V = RepoFileView;

    open spec fn deep_view(&self) -> RepoFileView {
        RepoFileView { sha: self.sha@, content: self.content@ }
    }
}

impl Clone for RepoFile {
    fn clone(&self) -> (r: Self)
        ensures
            r.deep_view() == self.deep_view(),
    {
        RepoFile { sha: self.sha.clone(), content: self.content.clone() }
    }
}

/// What to do with one desired file.
#[derive(Debug)]
pub enum FileAction {
    /// The branch does not hold the file.
    Add,
    /// The branch holds the file with other contents, under this SHA.
    Update(String),
    /// The branch holds the file as desired.
    Keep,
}

/// The value of a `FileAction`.
pub ghost enum FileActionView {
    Add,
    Update(Seq<char>),
    Keep,
}

impl DeepView for FileAction {
    type V = FileActionView;

    open spec fn deep_view(&self) -> FileActionView {
        match self {
            FileAction::Add => FileActionView::Add,
            FileAction::Update(sha) => FileActionView::Update(sha@),
            FileAction::Keep => FileActionView::Keep,
        }
    }
}

/// A desired file together with what the comparison branch holds at its
/// path.
pub type ObservedFile = (IssueTemplateFile, Option<RepoFile>);

/// A path of the comparison branch together with the file read from it.
pub type ObservedPath = (String, Option<RepoFile>);

/// The path of the index of the issue templates.
pub open spec fn index_path() -> Seq<char> {
    ".github/ISSUE_TEMPLATE/config.yml"@
}

/// The directory of the issue templates.
pub open spec fn template_dir() -> Seq<char> {
    ".github/ISSUE_TEMPLATE/"@
}

/// `p` is the path of an index of issue templates.
pub open spec fn is_index_path(p: Seq<char>) -> bool {
    "config.yml"@.is_suffix_of(canonical_path(p))
}

/// The files that are templates, not an index.
pub open spec fn is_template() -> spec_fn(IssueTemplateFileView) -> bool {
    |t: IssueTemplateFileView| !is_index_path(t.path)
}

/// The desired files of a repository: its templates in their order, then
/// the index that was built for them.
pub open spec fn desired_file_list(
    templates: Seq<IssueTemplateFileView>,
    index: Option<IssueTemplateFileView>,
) -> Seq<IssueTemplateFileView> {
    templates.filter(is_template()) + match index {
        Some(f) => seq![f],
        None => Seq::empty(),
    }
}

/// What to do with a desired file, given what the branch holds.
pub open spec fn file_action(f: IssueTemplateFileView, remote: Option<RepoFileView>) -> FileActionView {
    match remote {
        None => FileActionView::Add,
        Some(r) => if r.content != f.contents {
            FileActionView::Update(r.sha)
        } else {
            FileActionView::Keep
        },
    }
}

pub open spec fn addition() -> spec_fn((IssueTemplateFileView, Option<RepoFileView>)) -> Option<
    IssueTemplateFileView,
> {
    |p: (IssueTemplateFileView, Option<RepoFileView>)|
        if file_action(p.0, p.1) is Add {
            Some(p.0)
        } else {
            None
        }
}

pub open spec fn replacement() -> spec_fn(
    (IssueTemplateFileView, Option<RepoFileView>),
) -> Option<(IssueTemplateFileView, Seq<char>)> {
    |p: (IssueTemplateFileView, Option<RepoFileView>)|
        match file_action(p.0, p.1) {
            FileActionView::Update(sha) => Some((p.0, sha)),
            _ => None,
        }
}

/// The desired files that the branch lacks.
pub open spec fn files_to_add(observed: Seq<(IssueTemplateFileView, Option<RepoFileView>)>) -> Seq<
    IssueTemplateFileView,
> {
    observed.filter_map(addition())
}

/// The desired files that the branch holds with other contents, each with
/// the SHA of the file to replace.
pub open spec fn files_to_update(
    observed: Seq<(IssueTemplateFileView, Option<RepoFileView>)>,
) -> Seq<(IssueTemplateFileView, Seq<char>)> {
    observed.filter_map(replacement())
}

/// The paths of the branch that lie in the template directory and are the
/// canonical path of no desired file.
pub open spec fn is_stale_path(desired: Seq<IssueTemplateFileView>) -> spec_fn(Seq<char>) -> bool {
    |p: Seq<char>| template_dir().is_prefix_of(p) && !holds_path(desired, p)
}

/// The paths of the branch whose files are to be removed.
pub open spec fn stale_path_list(current: Seq<Seq<char>>, desired: Seq<IssueTemplateFileView>) -> Seq<
    Seq<char>,
> {
    current.filter(is_stale_path(desired))
}

pub open spec fn removal() -> spec_fn((Seq<char>, Option<RepoFileView>)) -> Option<
    (Seq<char>, Seq<char>),
> {
    |p: (Seq<char>, Option<RepoFileView>)|
        match p.1 {
            Some(f) => Some((p.0, f.sha)),
            None => None,
        }
}

/// The files to remove, each with its SHA: the stale paths at which a file
/// was read.
pub open spec fn files_to_remove(observed: Seq<(Seq<char>, Option<RepoFileView>)>) -> Seq<
    (Seq<char>, Seq<char>),
> {
    observed.filter_map(removal())
}

/// Whether `path` is the path of an index of issue templates.
pub fn is_index(path: &str) -> (r: bool)
    ensures
        r == is_index_path(path@),
{
    let short = short_github_path(path);
    ends_with(short.as_str(), "config.yml")
}

/// The index file with the contents `contents`.
pub fn index_file(contents: String) -> (r: IssueTemplateFile)
    ensures
        r.path@ == index_path(),
        r.contents@ == contents@,
{
    IssueTemplateFile { path: owned(".github/ISSUE_TEMPLATE/config.yml"), contents }
}

/// The desired files of a repository: the templates of its merged
/// configuration, without any index among them, and then `index`, the
/// index built for them.
pub fn desired_files(templates: &Vec<IssueTemplateFile>, index: Option<IssueTemplateFile>) -> (r:
    Vec<IssueTemplateFile>)
    ensures
        r.deep_view() == desired_file_list(templates.deep_view(), index.deep_view()),
{
    let ghost all = templates.deep_view();
    let mut files: Vec<IssueTemplateFile> = Vec::new();
    let mut i: usize = 0;
    assert(all.take(0) =~= Seq::<IssueTemplateFileView>::empty());
    assert(files.deep_view() =~= all.take(0).filter(is_template())) by {
        reveal(Seq::filter);
    }
    while i < templates.len()
        invariant
            i <= templates.len(),
            all == templates.deep_view(),
            files.deep_view() == all.take(i as int).filter(is_template()),
        decreases templates.len() - i,
    {
        proof {
            assert(all.take(i + 1) =~= all.take(i as int).push(all[i as int]));
            all.take(i as int).lemma_filter_push(all[i as int], is_template());
        }
        let ghost before = files.deep_view();
        if !is_index(templates[i].path.as_str()) {
            files.push(templates[i].clone());
            assert(files.deep_view() =~= before.push(all[i as int]));
        }
        i += 1;
    }
    assert(all.take(i as int) =~= all);
    let ghost kept = files.deep_view();
    let ghost extra = index.deep_view();
    if let Some(f) = index {
        files.push(f);
        assert(files.deep_view() =~= kept + seq![extra->0]);
    } else {
        assert(files.deep_view() =~= kept + Seq::<IssueTemplateFileView>::empty());
    }
    files
}

/// Decides what to do with one desired file: add it where the branch lacks
/// it, update it where the contents differ, else keep it.
pub fn stage_file(file: &IssueTemplateFile, remote: Option<&RepoFile>) -> (r: FileAction)
    ensures
        r.deep_view() == file_action(file.deep_view(), remote.deep_view()),
{
    match remote {
        None => FileAction::Add,
        Some(f) => {
            if f.content != file.contents {
                FileAction::Update(f.sha.clone())
            } else {
                FileAction::Keep
            }
        },
    }
}

/// The files to add and the files to update, from each desired file and
/// what the comparison branch holds at its path.
pub fn stage_files(observed: &Vec<ObservedFile>) -> (r: (
    Vec<IssueTemplateFile>,
    Vec<(IssueTemplateFile, String)>,
))
    ensures
        r.0.deep_view() == files_to_add(observed.deep_view()),
        r.1.deep_view() == files_to_update(observed.deep_view()),
{
    let ghost all = observed.deep_view();
    let mut add: Vec<IssueTemplateFile> = Vec::new();
    let mut update: Vec<(IssueTemplateFile, String)> = Vec::new();
    let mut i: usize = 0;
    assert(add.deep_view() =~= all.take(0).filter_map(addition()));
    assert(update.deep_view() =~= all.take(0).filter_map(replacement()));
    while i < observed.len()
        invariant
            i <= observed.len(),
            all == observed.deep_view(),
            add.deep_view() == all.take(i as int).filter_map(addition()),
            update.deep_view() == all.take(i as int).filter_map(replacement()),
        decreases observed.len() - i,
    {
        proof {
            all.lemma_filter_map_take_succ(addition(), i as int);
            all.lemma_filter_map_take_succ(replacement(), i as int);
            assert(all[i as int] == observed[i as int].deep_view());
        }
        let ghost added = add.deep_view();
        let ghost updated = update.deep_view();
        let pair = &observed[i];
        let remote = match &pair.1 {
            Some(f) => Some(f),
            None => None,
        };
        match stage_file(&pair.0, remote) {
            FileAction::Add => {
                add.push(pair.0.clone());
                assert(add.deep_view() =~= added.push(all[i as int].0));
            },
            FileAction::Update(sha) => {
                let ghost s = sha@;
                update.push((pair.0.clone(), sha));
                assert(update.deep_view() =~= updated.push((all[i as int].0, s)));
            },
            FileAction::Keep => {},
        }
        i += 1;
    }
    assert(all.take(i as int) =~= all);
    (add, update)
}

/// The paths among `current`, the paths of the comparison branch, whose
/// files are to be removed: those in the template directory that no
/// desired file has as its canonical path.
pub fn stale_paths(current: &Vec<String>, desired: &Vec<IssueTemplateFile>) -> (r: Vec<String>)
    ensures
        r.deep_view() == stale_path_list(current.deep_view(), desired.deep_view()),
{
    let ghost all = current.deep_view();
    let ghost want = desired.deep_view();
    let mut stale: Vec<String> = Vec::new();
    let mut i: usize = 0;
    assert(all.take(0) =~= Seq::<Seq<char>>::empty());
    assert(stale.deep_view() =~= all.take(0).filter(is_stale_path(want))) by {
        reveal(Seq::filter);
    }
    while i < current.len()
        invariant
            i <= current.len(),
            all == current.deep_view(),
            want == desired.deep_view(),
            stale.deep_view() == all.take(i as int).filter(is_stale_path(want)),
        decreases current.len() - i,
    {
        proof {
            assert(all.take(i + 1) =~= all.take(i as int).push(all[i as int]));
            all.take(i as int).lemma_filter_push(all[i as int], is_stale_path(want));
            assert(all[i as int] == current[i as int]@);
        }
        let ghost before = stale.deep_view();
        let path = &current[i];
        if starts_with(path.as_str(), ".github/ISSUE_TEMPLATE/") && !has_path(desired, path) {
            stale.push(path.clone());
            assert(stale.deep_view() =~= before.push(all[i as int]));
        }
        i += 1;
    }
    assert(all.take(i as int) =~= all);
    stale
}

/// The files to remove, each with its SHA, from each stale path and the
/// file read from it. A path from which no file could be read is left out.
pub fn stage_removals(observed: &Vec<ObservedPath>) -> (r: Vec<(String, String)>)
    ensures
        r.deep_view() == files_to_remove(observed.deep_view()),
{
    let ghost all = observed.deep_view();
    let mut remove: Vec<(String, String)> = Vec::new();
    let mut i: usize = 0;
    assert(remove.deep_view() =~= all.take(0).filter_map(removal()));
    while i < observed.len()
        invariant
            i <= observed.len(),
            all == observed.deep_view(),
            remove.deep_view() == all.take(i as int).filter_map(removal()),
        decreases observed.len() - i,
    {
        proof {
            all.lemma_filter_map_take_succ(removal(), i as int);
            assert(all[i as int] == observed[i as int].deep_view());
        }
        let ghost before = remove.deep_view();
        let pair = &observed[i];
        match &pair.1 {
            Some(f) => {
                remove.push((pair.0.clone(), f.sha.clone()));
                assert(remove.deep_view() =~= before.push((all[i as int].0, all[i as int].1->0.sha)));
            },
            None => {},
        }
        i += 1;
    }
    assert(all.take(i as int) =~= all);
    remove
}

/// A desired file that the branch holds unchanged is neither added nor
/// updated; one that the branch lacks is added; one that differs is
/// updated under the SHA of the file on the branch.
pub proof fn lemma_stage_one(f: IssueTemplateFileView, remote: Option<RepoFileView>)
    ensures
        files_to_add(seq![(f, remote)]) == if remote is None {
            seq![f]
        } else {
            Seq::<IssueTemplateFileView>::empty()
        },
        files_to_update(seq![(f, remote)]) == if remote is Some && remote->0.content
            != f.contents {
            seq![(f, remote->0.sha)]
        } else {
            Seq::<(IssueTemplateFileView, Seq<char>)>::empty()
        },
{
    let s = seq![(f, remote)];
    Seq::lemma_filter_map_singleton((f, remote), addition());
    Seq::lemma_filter_map_singleton((f, remote), replacement());
}

/// Files that the branch holds as desired ask for nothing: where every
/// desired file was read from the branch with the desired contents, no
/// file is added or updated.
pub proof fn lemma_files_in_sync(observed: Seq<(IssueTemplateFileView, Option<RepoFileView>)>)
    requires
        forall|i: int|
            0 <= i < observed.len() ==> ((#[trigger] observed[i]).1 matches Some(f) && f.content
                == observed[i].0.contents),
    ensures
        files_to_add(observed) == Seq::<IssueTemplateFileView>::empty(),
        files_to_update(observed) == Seq::<(IssueTemplateFileView, Seq<char>)>::empty(),
    decreases observed.len(),
{
    reveal(Seq::filter_map);
    if observed.len() > 0 {
        let rest = observed.drop_last();
        assert forall|i: int| 0 <= i < rest.len() implies ((#[trigger] rest[i]).1 matches Some(f)
            && f.content == rest[i].0.contents) by {
            assert(rest[i] == observed[i]);
        }
        lemma_files_in_sync(rest);
        assert(observed.last() == observed[observed.len() - 1]);
    }
}

} // verus!
