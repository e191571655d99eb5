//! Resolving the desired state of each repository: which sets it takes,
//! whether they can stand together, and what they merge to.

use vstd::prelude::*;
use crate::config::RepoConfig;
use crate::config::RootConfig;
use crate::merge::merge_error_text;
use crate::merge::MergeError;
use crate::merge::MergeErrorView;
use crate::merge::merge_sets_for_repo;
use crate::merge::merged;
use crate::merge::MergedRepoConfig;
use crate::merge::MergedRepoConfigView;
use crate::sets::canonical_path;
use crate::sets::has_path;
use crate::sets::holds_path;
use crate::sets::names_label;
use crate::sets::short_github_path;
use crate::sets::IssueTemplateFileView;
use crate::sets::SetDefinition;
use crate::sets::SetDefinitionView;
use crate::text::join2;
use crate::text::owned;

verus! {

/// A file seen while looking for conflicts: its canonical path, its
/// contents, and the set that brought it first.
pub ghost struct SeenFile {
    pub key: Seq<char>,
    pub contents: Seq<char>,
    pub set: Seq<char>,
}

/// A file noted while looking for conflicts.
#[derive(Debug)]
pub struct Seen {
    pub key: String,
    pub contents: String,
    pub set: String,
}

impl DeepView for Seen {
    type V = SeenFile;

    open spec fn deep_view(&self) -> SeenFile {
        SeenFile { key: self.key@, contents: self.contents@, set: self.set@ }
    }
}

/// The first file seen under the canonical path `key`.
pub open spec fn seen_under(seen: Seq<SeenFile>, key: Seq<char>) -> Option<SeenFile>
    decreases seen.len(),
{
    if seen.len() == 0 {
        None
    } else if seen[0].key == key {
        Some(seen[0])
    } else {
        seen_under(seen.drop_first(), key)
    }
}

/// Two sets that bring different files for one canonical path.
#[derive(Debug)]
pub struct FileConflict {
    /// The canonical path.
    pub key: String,
    /// The set that brought a file for the path first.
    pub first: String,
    /// The set that brought another file for it.
    pub second: String,
}

/// The value of a `FileConflict`.
pub ghost struct FileConflictView {
    pub key: Seq<char>,
    pub first: Seq<char>,
    pub second: Seq<char>,
}

impl DeepView for FileConflict {
    type V = FileConflictView;

    open spec fn deep_view(&self) -> FileConflictView {
        FileConflictView { key: self.key@, first: self.first@, second: self.second@ }
    }
}

/// The sentence that reports two sets that bring different files for one
/// path.
pub open spec fn file_conflict_text(c: FileConflictView) -> Seq<char> {
    "conflicting .github file '"@ + c.key + "' between sets '"@ + c.first + "' and '"@ + c.second
        + "'"@
}

impl FileConflict {
    /// The sentence that reports this conflict.
    pub fn message(&self) -> (r: String)
        ensures
            r@ == file_conflict_text(self.deep_view()),
    {
        let a = join2("conflicting .github file '", self.key.as_str());
        let b = join2(a.as_str(), "' between sets '");
        let c = join2(b.as_str(), self.first.as_str());
        let d = join2(c.as_str(), "' and '");
        let e = join2(d.as_str(), self.second.as_str());
        join2(e.as_str(), "'")
    }
}

/// One more file, brought by the set `set`: noted where its path is new,
/// passed over where it repeats the contents seen under its path, and a
/// conflict where the contents differ.
pub open spec fn note_file(seen: Seq<SeenFile>, t: IssueTemplateFileView, set: Seq<char>) -> Result<
    Seq<SeenFile>,
    FileConflictView,
> {
    let key = canonical_path(t.path);
    match seen_under(seen, key) {
        Some(first) => if first.contents != t.contents {
            Err(FileConflictView { key, first: first.set, second: set })
        } else {
            Ok(seen)
        },
        None => Ok(seen.push(SeenFile { key, contents: t.contents, set })),
    }
}

/// The files of one set, one after the other, up to the first conflict.
pub open spec fn note_files(
    seen: Seq<SeenFile>,
    files: Seq<IssueTemplateFileView>,
    set: Seq<char>,
) -> Result<Seq<SeenFile>, FileConflictView>
    decreases files.len(),
{
    if files.len() == 0 {
        Ok(seen)
    } else {
        match note_file(seen, files[0], set) {
            Ok(next) => note_files(next, files.drop_first(), set),
            Err(e) => Err(e),
        }
    }
}

/// The files of the sets, set after set, up to the first conflict.
pub open spec fn note_sets(seen: Seq<SeenFile>, sets: Seq<SetDefinitionView>) -> Result<
    Seq<SeenFile>,
    FileConflictView,
>
    decreases sets.len(),
{
    if sets.len() == 0 {
        Ok(seen)
    } else {
        match note_files(seen, sets[0].issue_templates, sets[0].name) {
            Ok(next) => note_sets(next, sets.drop_first()),
            Err(e) => Err(e),
        }
    }
}

/// The first conflict between the files of the sets; `None` where the
/// sets bring no two different files for one canonical path.
pub open spec fn file_conflict(sets: Seq<SetDefinitionView>) -> Option<FileConflictView> {
    match note_sets(Seq::empty(), sets) {
        Ok(_) => None,
        Err(e) => Some(e),
    }
}

/// The first conflict between the files of the sets, in words.
pub open spec fn template_conflict(sets: Seq<SetDefinitionView>) -> Option<Seq<char>> {
    match file_conflict(sets) {
        Some(c) => Some(file_conflict_text(c)),
        None => None,
    }
}

fn find_seen(seen: &Vec<Seen>, key: &String) -> (r: Option<usize>)
    ensures
        match r {
            Some(i) => i < seen.len() && seen_under(seen.deep_view(), key@) == Some(
                seen.deep_view()[i as int],
            ),
            None => seen_under(seen.deep_view(), key@) is None,
        },
{
    let ghost all = seen.deep_view();
    let mut i: usize = 0;
    assert(all.skip(0) =~= all);
    while i < seen.len()
        invariant
            i <= seen.len(),
            all == seen.deep_view(),
            seen_under(all, key@) == seen_under(all.skip(i as int), key@),
        decreases seen.len() - i,
    {
        assert(all.skip(i as int)[0] == all[i as int]);
        if seen[i].key == *key {
            return Some(i);
        }
        assert(all.skip(i as int).drop_first() =~= all.skip(i + 1));
        i += 1;
    }
    None
}

fn note_set(seen: &mut Vec<Seen>, set: &SetDefinition) -> (r: Result<(), FileConflict>)
    ensures
        note_files(old(seen).deep_view(), set.issue_templates.deep_view(), set.name@) == match r {
            Ok(_) => Ok::<Seq<SeenFile>, FileConflictView>(final(seen).deep_view()),
            Err(e) => Err(e.deep_view()),
        },
{
    let ghost start = seen.deep_view();
    let ghost all = set.issue_templates.deep_view();
    let mut i: usize = 0;
    assert(all.skip(0) =~= all);
    while i < set.issue_templates.len()
        invariant
            i <= set.issue_templates.len(),
            all == set.issue_templates.deep_view(),
            start == old(seen).deep_view(),
            note_files(start, all, set.name@) == note_files(
                seen.deep_view(),
                all.skip(i as int),
                set.name@,
            ),
        decreases set.issue_templates.len() - i,
    {
        let tpl = &set.issue_templates[i];
        let ghost before = seen.deep_view();
        proof {
            assert(all.skip(i as int)[0] == all[i as int]);
            assert(all.skip(i as int).drop_first() =~= all.skip(i + 1));
            assert(all[i as int] == tpl.deep_view());
        }
        let key = short_github_path(tpl.path.as_str());
        match find_seen(seen, &key) {
            Some(k) => {
                if seen[k].contents != tpl.contents {
                    return Err(
                        FileConflict {
                            key,
                            first: seen[k].set.clone(),
                            second: set.name.clone(),
                        },
                    );
                }
            },
            None => {
                seen.push(Seen { key, contents: tpl.contents.clone(), set: set.name.clone() });
                assert(seen.deep_view() =~= before.push(
                    SeenFile {
                        key: canonical_path(all[i as int].path),
                        contents: all[i as int].contents,
                        set: set.name@,
                    },
                ));
            },
        }
        i += 1;
    }
    Ok(())
}

/// Looks for two sets that bring different files for one canonical path.
/// Files with the same contents may be brought more than once.
pub fn first_file_conflict(sets: &[SetDefinition]) -> (r: Option<FileConflict>)
    ensures
        r.deep_view() == file_conflict(sets.deep_view()),
{
    let ghost all = sets.deep_view();
    let mut seen: Vec<Seen> = Vec::new();
    let mut i: usize = 0;
    assert(all.skip(0) =~= all);
    assert(seen.deep_view() =~= Seq::<SeenFile>::empty());
    while i < sets.len()
        invariant
            i <= sets.len(),
            all == sets.deep_view(),
            note_sets(Seq::empty(), all) == note_sets(seen.deep_view(), all.skip(i as int)),
        decreases sets.len() - i,
    {
        proof {
            assert(all.skip(i as int)[0] == all[i as int]);
            assert(all.skip(i as int).drop_first() =~= all.skip(i + 1));
            assert(all[i as int] == sets[i as int].deep_view());
        }
        match note_set(&mut seen, &sets[i]) {
            Err(e) => {
                return Some(e);
            },
            Ok(_) => {},
        }
        i += 1;
    }
    None
}

/// Looks for two sets that bring different files for one canonical path.
/// Files with the same contents may be brought more than once. The error
/// names the path and the two sets.
pub fn detect_template_conflicts(sets: &[SetDefinition]) -> (r: Result<(), String>)
    ensures
        template_conflict(sets.deep_view()) == match r {
            Ok(_) => None::<Seq<char>>,
            Err(e) => Some(e@),
        },
{
    match first_file_conflict(sets) {
        Some(c) => Err(c.message()),
        None => Ok(()),
    }
}

/// The set defines the resource that a merge error is about: a label of
/// the name, a file of the canonical path, or a value of the kind.
pub open spec fn is_involved(e: MergeErrorView) -> spec_fn(SetDefinitionView) -> bool {
    |set: SetDefinitionView|
        match e {
            MergeErrorView::LabelConflict(name) => names_label(set.labels, name),
            MergeErrorView::TemplateConflict(key) => holds_path(set.issue_templates, key),
            MergeErrorView::GenericConflict(kind) => if kind == "repo settings"@ {
                set.repo_settings is Some
            } else if kind == "branch protection"@ {
                set.branch_protection is Some
            } else if kind == "checks"@ {
                set.checks is Some
            } else {
                false
            },
        }
}

/// The names of the sets.
pub open spec fn set_names(sets: Seq<SetDefinitionView>) -> Seq<Seq<char>> {
    sets.map_values(|s: SetDefinitionView| s.name)
}

/// The names of the sets that a merge error is about, in their order.
pub open spec fn involved_sets(sets: Seq<SetDefinitionView>, e: MergeErrorView) -> Seq<Seq<char>> {
    set_names(sets.filter(is_involved(e)))
}

fn defines_label(set: &SetDefinition, name: &String) -> (r: bool)
    ensures
        r == names_label(set.labels.deep_view(), name@),
{
    let mut i: usize = 0;
    while i < set.labels.len()
        invariant
            i <= set.labels.len(),
            forall|k: int| 0 <= k < i ==> (#[trigger] set.labels.deep_view()[k]).name != name@,
        decreases set.labels.len() - i,
    {
        if set.labels[i].name == *name {
            assert(set.labels.deep_view()[i as int].name == name@);
            return true;
        }
        i += 1;
    }
    false
}

fn defines_kind(set: &SetDefinition, kind: &String) -> (r: bool)
    ensures
        r == is_involved(MergeErrorView::GenericConflict(kind@))(set.deep_view()),
{
    if *kind == owned("repo settings") {
        set.repo_settings.is_some()
    } else if *kind == owned("branch protection") {
        set.branch_protection.is_some()
    } else if *kind == owned("checks") {
        set.checks.is_some()
    } else {
        false
    }
}

/// The names of the sets that the merge error `error` is about: those
/// that define the label, bring a file for the path, or give a value of
/// the kind.
pub fn offending_sets(sets: &[SetDefinition], error: &MergeError) -> (r: Vec<String>)
    ensures
        r.deep_view() == involved_sets(sets.deep_view(), error.deep_view()),
{
    let ghost all = sets.deep_view();
    let ghost f = is_involved(error.deep_view());
    let mut names: Vec<String> = Vec::new();
    let mut i: usize = 0;
    assert(all.take(0) =~= Seq::<SetDefinitionView>::empty());
    assert(all.take(0).filter(f) =~= Seq::<SetDefinitionView>::empty()) by {
        reveal(Seq::filter);
    }
    assert(names.deep_view() =~= set_names(all.take(0).filter(f)));
    while i < sets.len()
        invariant
            i <= sets.len(),
            all == sets.deep_view(),
            f == is_involved(error.deep_view()),
            names.deep_view() == set_names(all.take(i as int).filter(f)),
        decreases sets.len() - i,
    {
        proof {
            assert(all.take(i + 1) =~= all.take(i as int).push(all[i as int]));
            all.take(i as int).lemma_filter_push(all[i as int], f);
            assert(all[i as int] == sets[i as int].deep_view());
        }
        let ghost before = names.deep_view();
        let ghost kept = all.take(i as int).filter(f);
        let set = &sets[i];
        let involved = match error {
            MergeError::LabelConflict(name) => defines_label(set, name),
            MergeError::TemplateConflict(key) => has_path(&set.issue_templates, key),
            MergeError::GenericConflict(kind) => defines_kind(set, kind),
        };
        if involved {
            names.push(set.name.clone());
            assert(names.deep_view() =~= before.push(all[i as int].name));
            assert(set_names(kept.push(all[i as int])) =~= set_names(kept).push(
                all[i as int].name,
            ));
        }
        i += 1;
    }
    assert(all.take(i as int) =~= all);
    names
}

/// Why the sets of a repository cannot be resolved: the repository, the
/// conflict in words, and the sets that the conflict is between.
#[derive(Debug)]
pub struct RepoConflict {
    pub repo: String,
    pub reason: String,
    pub sets: Vec<String>,
}

/// The value of a `RepoConflict`.
pub ghost struct RepoConflictView {
    pub repo: Seq<char>,
    pub reason: Seq<char>,
    pub sets: Seq<Seq<char>>,
}

impl DeepView for RepoConflict {
    type V = RepoConflictView;

    open spec fn deep_view(&self) -> RepoConflictView {
        RepoConflictView { repo: self.repo@, reason: self.reason@, sets: self.sets.deep_view() }
    }
}

/// The sentence that reports a repository whose sets conflict.
pub open spec fn repo_conflict_text(c: RepoConflictView) -> Seq<char> {
    "repo '"@ + c.repo + "' has conflicting config: "@ + c.reason
}

impl RepoConflict {
    /// The sentence that reports this conflict.
    pub fn message(&self) -> (r: String)
        ensures
            r@ == repo_conflict_text(self.deep_view()),
    {
        let a = join2("repo '", self.repo.as_str());
        let b = join2(a.as_str(), "' has conflicting config: ");
        join2(b.as_str(), self.reason.as_str())
    }
}

/// What the sets of one repository come to.
#[derive(Debug)]
pub enum Resolution {
    /// No set applies to the repository: there is nothing to reconcile.
    NoSets,
    /// The desired state of the repository.
    Merged(MergedRepoConfig),
    /// The sets conflict. Only this repository is given up.
    Conflict(RepoConflict),
}

/// The value of a `Resolution`.
pub ghost enum ResolutionView {
    NoSets,
    Merged(MergedRepoConfigView),
    Conflict(RepoConflictView),
}

impl DeepView for Resolution {
    type V = ResolutionView;

    open spec fn deep_view(&self) -> ResolutionView {
        match self {
            Resolution::NoSets => ResolutionView::NoSets,
            Resolution::Merged(m) => ResolutionView::Merged(m.deep_view()),
            Resolution::Conflict(c) => ResolutionView::Conflict(c.deep_view()),
        }
    }
}

/// What the sets `sets` of the repository `repo` come to: nothing without
/// sets; a conflict where two sets bring different files for one path, or
/// where merging them fails; else their merge. A conflict names the sets
/// it is between: the two sets of the files, or the sets that define what
/// could not be merged.
pub open spec fn resolution(repo: Seq<char>, sets: Seq<SetDefinitionView>) -> ResolutionView {
    if sets.len() == 0 {
        ResolutionView::NoSets
    } else {
        match file_conflict(sets) {
            Some(c) => ResolutionView::Conflict(
                RepoConflictView {
                    repo,
                    reason: file_conflict_text(c),
                    sets: seq![c.first, c.second],
                },
            ),
            None => match merged(sets) {
                Ok(m) => ResolutionView::Merged(m),
                Err(e) => ResolutionView::Conflict(
                    RepoConflictView {
                        repo,
                        reason: merge_error_text(e),
                        sets: involved_sets(sets, e),
                    },
                ),
            },
        }
    }
}

/// Resolves the desired state of the repository `repo` from its sets, in
/// their order.
pub fn resolve_repo(repo: &str, sets: &[SetDefinition]) -> (r: Resolution)
    ensures
        r.deep_view() == resolution(repo@, sets.deep_view()),
{
    if sets.len() == 0 {
        return Resolution::NoSets;
    }
    match first_file_conflict(sets) {
        Some(c) => {
            let mut between: Vec<String> = Vec::new();
            between.push(c.first.clone());
            between.push(c.second.clone());
            assert(between.deep_view() =~= seq![c.first@, c.second@]);
            return Resolution::Conflict(
                RepoConflict { repo: owned(repo), reason: c.message(), sets: between },
            );
        },
        None => {},
    }
    match merge_sets_for_repo(sets) {
        Ok(m) => Resolution::Merged(m),
        Err(e) => Resolution::Conflict(
            RepoConflict {
                repo: owned(repo),
                reason: e.message(),
                sets: offending_sets(sets, &e),
            },
        ),
    }
}

/// Whether a run limited to the repositories `only` takes in the
/// repository `name`: every repository, where the run is not limited.
pub fn is_selected(only: &Vec<String>, name: &String) -> (r: bool)
    ensures
        r == (only.len() == 0 || only.deep_view().contains(name@)),
{
    if only.len() == 0 {
        return true;
    }
    let mut i: usize = 0;
    while i < only.len()
        invariant
            i <= only.len(),
            forall|k: int| 0 <= k < i ==> only.deep_view()[k] != name@,
        decreases only.len() - i,
    {
        if only[i] == *name {
            assert(only.deep_view()[i as int] == name@);
            return true;
        }
        i += 1;
    }
    false
}

/// The names of the sets of a repository: the default sets, then its own.
pub fn set_names_for(root: &RootConfig, repo: &RepoConfig) -> (r: Vec<String>)
    ensures
        r.deep_view() == root.deep_view().default_sets + repo.deep_view().sets,
{
    let mut names: Vec<String> = Vec::new();
    let mut i: usize = 0;
    while i < root.default_sets.len()
        invariant
            i <= root.default_sets.len(),
            names.deep_view() == root.default_sets.deep_view().take(i as int),
        decreases root.default_sets.len() - i,
    {
        let ghost before = names.deep_view();
        names.push(root.default_sets[i].clone());
        assert(names.deep_view() =~= before.push(root.default_sets.deep_view()[i as int]));
        assert(names.deep_view() =~= root.default_sets.deep_view().take(i + 1));
        i += 1;
    }
    assert(root.default_sets.deep_view().take(i as int) =~= root.default_sets.deep_view());
    let mut j: usize = 0;
    while j < repo.sets.len()
        invariant
            j <= repo.sets.len(),
            names.deep_view() == root.default_sets.deep_view() + repo.sets.deep_view().take(
                j as int,
            ),
        decreases repo.sets.len() - j,
    {
        let ghost before = names.deep_view();
        names.push(repo.sets[j].clone());
        assert(names.deep_view() =~= before.push(repo.sets.deep_view()[j as int]));
        assert(names.deep_view() =~= root.default_sets.deep_view() + repo.sets.deep_view().take(
            j + 1,
        ));
        j += 1;
    }
    assert(repo.sets.deep_view().take(j as int) =~= repo.sets.deep_view());
    names
}

/// The sets loaded in one run, each held once under its name.
pub struct SetCache {
    sets: Vec<SetDefinition>,
}

impl SetCache {
    /// The sets that the cache holds, in the order in which they came.
    pub closed spec fn held(&self) -> Seq<SetDefinitionView> {
        self.sets.deep_view()
    }

    /// No two sets of the cache have the same name.
    pub open spec fn wf(&self) -> bool {
        forall|i: int, j: int|
            0 <= i < j < self.held().len() ==> self.held()[i].name != self.held()[j].name
    }

    /// Some set of the cache has the name `name`.
    pub open spec fn has(&self, name: Seq<char>) -> bool {
        exists|i: int| 0 <= i < self.held().len() && self.held()[i].name == name
    }

    /// The set of the cache that has the name `name`.
    pub open spec fn named(&self, name: Seq<char>) -> SetDefinitionView {
        self.held()[choose|i: int| 0 <= i < self.held().len() && self.held()[i].name == name]
    }

    /// A cache that holds no set.
    pub fn new() -> (r: Self)
        ensures
            r.wf(),
            r.held().len() == 0,
    {
        let r = SetCache { sets: Vec::new() };
        assert(r.held() =~= Seq::empty());
        r
    }

    fn position(&self, name: &String) -> (r: Option<usize>)
        ensures
            match r {
                Some(i) => i < self.sets.len() && self.held()[i as int].name == name@,
                None => !self.has(name@),
            },
    {
        let mut i: usize = 0;
        while i < self.sets.len()
            invariant
                i <= self.sets.len(),
                forall|k: int| 0 <= k < i ==> self.held()[k].name != name@,
            decreases self.sets.len() - i,
        {
            if self.sets[i].name == *name {
                return Some(i);
            }
            i += 1;
        }
        None
    }

    /// Whether the cache holds a set named `name`.
    pub fn contains(&self, name: &String) -> (r: bool)
        ensures
            r == self.has(name@),
    {
        self.position(name).is_some()
    }

    /// The set named `name`, where the cache holds one.
    pub fn get(&self, name: &String) -> (r: Option<&SetDefinition>)
        requires
            self.wf(),
        ensures
            match r {
                Some(set) => self.has(name@) && set.deep_view() == self.named(name@),
                None => !self.has(name@),
            },
    {
        match self.position(name) {
            Some(i) => {
                proof {
                    let k = choose|k: int|
                        0 <= k < self.held().len() && self.held()[k].name == name@;
                    assert(k == i);
                }
                Some(&self.sets[i])
            },
            None => None,
        }
    }

    /// Puts a set into the cache, unless the cache holds one of its name:
    /// a set is loaded once per run.
    pub fn insert(&mut self, set: SetDefinition)
        requires
            old(self).wf(),
        ensures
            final(self).wf(),
            final(self).held() == if old(self).has(set.deep_view().name) {
                old(self).held()
            } else {
                old(self).held().push(set.deep_view())
            },
    {
        let ghost before = self.held();
        if self.position(&set.name).is_none() {
            let ghost v = set.deep_view();
            self.sets.push(set);
            assert(self.held() =~= before.push(v));
        }
    }
}

/// The sets named `names`, in this order.
pub open spec fn sets_named(cache: SetCache, names: Seq<Seq<char>>) -> Seq<SetDefinitionView> {
    names.map_values(|n: Seq<char>| cache.named(n))
}

/// The sets named `names`, in this order, out of the cache; `None` where
/// the cache lacks one of them.
pub fn cached_sets(cache: &SetCache, names: &Vec<String>) -> (r: Option<Vec<SetDefinition>>)
    requires
        cache.wf(),
    ensures
        match r {
            Some(sets) => {
                &&& forall|i: int| 0 <= i < names.len() ==> cache.has(#[trigger] names[i]@)
                &&& sets.deep_view() == sets_named(*cache, names.deep_view())
            },
            None => exists|i: int| 0 <= i < names.len() && !cache.has(#[trigger] names[i]@),
        },
{
    let mut sets: Vec<SetDefinition> = Vec::new();
    let mut i: usize = 0;
    while i < names.len()
        invariant
            i <= names.len(),
            cache.wf(),
            sets.len() == i,
            forall|k: int| 0 <= k < i ==> cache.has(#[trigger] names[k]@),
            forall|k: int| 0 <= k < i ==> sets.deep_view()[k] == cache.named(names[k]@),
        decreases names.len() - i,
    {
        match cache.get(&names[i]) {
            Some(set) => {
                let ghost before = sets.deep_view();
                sets.push(set.clone());
                assert(sets.deep_view() =~= before.push(cache.named(names[i as int]@)));
            },
            None => {
                return None;
            },
        }
        i += 1;
    }
    assert(sets.deep_view() =~= sets_named(*cache, names.deep_view()));
    Some(sets)
}

} // verus!
