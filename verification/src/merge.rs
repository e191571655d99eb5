//! Merging the configuration sets of one repository into one desired state.
//!
//! Merging never overrides in silence. Two definitions of a label agree when
//! they have the same colour up to normal form and the same description; the
//! first one is kept. A file path may be defined once, whatever the files
//! hold: two sets that bring the same path are an authoring error. Settings,
//! branch protection and checks may be repeated only unchanged.

use vstd::prelude::*;
use crate::diff::normalize_color;
use crate::diff::normalized_color;
use crate::diff::same_look;
use crate::merge_laws::lemma_merged_is_well_merged;
use crate::order::distinct_keys;
use crate::order::is_sorted;
use crate::order::sort_by_key;
use crate::order::sorted_seq;
use crate::sets::canonical_path;
use crate::sets::has_path;
use crate::sets::holds_path;
use crate::sets::short_github_path;
use crate::sets::ChecksConfig;
use crate::sets::IssueTemplateFile;
use crate::sets::IssueTemplateFileView;
use crate::sets::LabelSpec;
use crate::sets::LabelSpecView;
use crate::sets::SetDefinition;
use crate::sets::SetDefinitionView;
use crate::settings::BranchProtectionConfig;
use crate::settings::BranchProtectionConfigView;
use crate::settings::RepoSettings;
use crate::text::join2;
use crate::text::owned;

verus! {

/// Why a repository's sets cannot be merged.
#[derive(Debug)]
pub enum MergeError {
    /// Two sets define the label of this name differently.
    LabelConflict(String),
    /// Two sets bring a file for this path.
    TemplateConflict(String),
    /// Two sets give different values for the resource of this kind.
    GenericConflict(String),
}

/// The value of a `MergeError`.
pub ghost enum MergeErrorView {
    LabelConflict(Seq<char>),
    TemplateConflict(Seq<char>),
    GenericConflict(Seq<char>),
}

impl DeepView for MergeError {
    type V = MergeErrorView;

    open spec fn deep_view(&self) -> MergeErrorView {
        match self {
            MergeError::LabelConflict(n) => MergeErrorView::LabelConflict(n@),
            MergeError::TemplateConflict(p) => MergeErrorView::TemplateConflict(p@),
            MergeError::GenericConflict(w) => MergeErrorView::GenericConflict(w@),
        }
    }
}

/// The sentence that reports a merge error.
pub open spec fn merge_error_text(e: MergeErrorView) -> Seq<char> {
    match e {
        MergeErrorView::LabelConflict(n) => "label conflict for '"@ + n
            + "' between sets; definitions differ"@,
        MergeErrorView::TemplateConflict(p) => "issue template conflict for '"@ + p
            + "' between sets"@,
        MergeErrorView::GenericConflict(w) => w + " conflict between sets"@,
    }
}

impl MergeError {
    /// The sentence that reports this error.
    pub fn message(&self) -> (r: String)
        ensures
            r@ == merge_error_text(self.deep_view()),
    {
        match self {
            MergeError::LabelConflict(n) => {
                let head = join2("label conflict for '", n.as_str());
                join2(head.as_str(), "' between sets; definitions differ")
            },
            MergeError::TemplateConflict(p) => {
                let head = join2("issue template conflict for '", p.as_str());
                join2(head.as_str(), "' between sets")
            },
            MergeError::GenericConflict(w) => join2(w.as_str(), " conflict between sets"),
        }
    }
}

pub type MergeResult<T> = Result<T, MergeError>;

/// The desired state of one repository, resolved from its sets.
#[derive(Debug)]
pub struct MergedRepoConfig {
    pub labels: Vec<LabelSpec>,
    pub issue_templates: Vec<IssueTemplateFile>,
    pub repo_settings: Option<RepoSettings>,
    pub branch_protection: Option<BranchProtectionConfig>,
    pub checks: Option<ChecksConfig>,
}

/// The value of a `MergedRepoConfig`, and of a merge under way.
pub ghost struct MergedRepoConfigView {
    pub labels: Seq<LabelSpecView>,
    pub issue_templates: Seq<IssueTemplateFileView>,
    pub repo_settings: Option<RepoSettings>,
    pub branch_protection: Option<BranchProtectionConfigView>,
    pub checks: Option<ChecksConfig>,
}

impl DeepView for MergedRepoConfig {
    type V = MergedRepoConfigView;

    open spec fn deep_view(&self) -> MergedRepoConfigView {
        MergedRepoConfigView {
            labels: self.labels.deep_view(),
            issue_templates: self.issue_templates.deep_view(),
            repo_settings: self.repo_settings,
            branch_protection: self.branch_protection.deep_view(),
            checks: self.checks,
        }
    }
}

impl Clone for MergedRepoConfig {
    fn clone(&self) -> (r: Self)
        ensures
            r.deep_view() == self.deep_view(),
    {
        MergedRepoConfig {
            labels: crate::sets::labels_clone(&self.labels),
            issue_templates: crate::sets::templates_clone(&self.issue_templates),
            repo_settings: self.repo_settings,
            branch_protection: match &self.branch_protection {
                Some(b) => Some(b.clone()),
                None => None,
            },
            checks: self.checks,
        }
    }
}

/// A resource of which a repository has one value: sets may repeat it, but
/// not change it.
pub trait Scalar: DeepView + Sized {
    /// Whether two values are the same value.
    fn same(&self, other: &Self) -> (r: bool)
        ensures
            r == (self.deep_view() == other.deep_view()),
    ;
}

impl Scalar for RepoSettings {
    fn same(&self, other: &Self) -> (r: bool) {
        *self == *other
    }
}

impl Scalar for ChecksConfig {
    fn same(&self, other: &Self) -> (r: bool) {
        *self == *other
    }
}

impl Scalar for BranchProtectionConfig {
    fn same(&self, other: &Self) -> (r: bool) {
        *self == *other
    }
}

/// Two definitions of a label that may stand together.
pub open spec fn equivalent(a: LabelSpecView, b: LabelSpecView) -> bool {
    &&& a.name == b.name
    &&& normalized_color(a.color) == normalized_color(b.color)
    &&& a.description == b.description
}

/// The first label of `acc` that has the name `name`.
pub open spec fn lookup_label(acc: Seq<LabelSpecView>, name: Seq<char>) -> Option<LabelSpecView>
    decreases acc.len(),
{
    if acc.len() == 0 {
        None
    } else if acc[0].name == name {
        Some(acc[0])
    } else {
        lookup_label(acc.drop_first(), name)
    }
}

/// One more definition of a label: kept where its name is new, dropped
/// where it repeats what is there, a conflict otherwise.
pub open spec fn add_label(acc: Seq<LabelSpecView>, l: LabelSpecView) -> Result<
    Seq<LabelSpecView>,
    MergeErrorView,
> {
    match lookup_label(acc, l.name) {
        Some(existing) => if equivalent(existing, l) {
            Ok(acc)
        } else {
            Err(MergeErrorView::LabelConflict(l.name))
        },
        None => Ok(acc.push(l)),
    }
}

/// The labels of one set, one after the other, up to the first conflict.
pub open spec fn add_labels(acc: Seq<LabelSpecView>, labels: Seq<LabelSpecView>) -> Result<
    Seq<LabelSpecView>,
    MergeErrorView,
>
    decreases labels.len(),
{
    if labels.len() == 0 {
        Ok(acc)
    } else {
        match add_label(acc, labels[0]) {
            Ok(next) => add_labels(next, labels.drop_first()),
            Err(e) => Err(e),
        }
    }
}

/// One more file: a conflict where its canonical path is taken.
pub open spec fn add_template(acc: Seq<IssueTemplateFileView>, t: IssueTemplateFileView) -> Result<
    Seq<IssueTemplateFileView>,
    MergeErrorView,
> {
    if holds_path(acc, canonical_path(t.path)) {
        Err(MergeErrorView::TemplateConflict(canonical_path(t.path)))
    } else {
        Ok(acc.push(t))
    }
}

/// The files of one set, one after the other, up to the first conflict.
pub open spec fn add_templates(
    acc: Seq<IssueTemplateFileView>,
    templates: Seq<IssueTemplateFileView>,
) -> Result<Seq<IssueTemplateFileView>, MergeErrorView>
    decreases templates.len(),
{
    if templates.len() == 0 {
        Ok(acc)
    } else {
        match add_template(acc, templates[0]) {
            Ok(next) => add_templates(next, templates.drop_first()),
            Err(e) => Err(e),
        }
    }
}

/// One more value of a scalar resource: `None` where it differs from the
/// value that is there.
pub open spec fn merge_scalar<V>(existing: Option<V>, incoming: Option<V>) -> Option<Option<V>> {
    match (existing, incoming) {
        (Some(current), Some(value)) => if current == value {
            Some(existing)
        } else {
            None
        },
        (None, Some(value)) => Some(incoming),
        (_, None) => Some(existing),
    }
}

/// The state of a merge after one more set: its labels, then its files,
/// then its settings, its branch protection and its checks.
pub open spec fn merge_set(st: MergedRepoConfigView, set: SetDefinitionView) -> Result<
    MergedRepoConfigView,
    MergeErrorView,
> {
    match add_labels(st.labels, set.labels) {
        Err(e) => Err(e),
        Ok(labels) => match add_templates(st.issue_templates, set.issue_templates) {
            Err(e) => Err(e),
            Ok(issue_templates) => match merge_scalar(st.repo_settings, set.repo_settings) {
                None => Err(MergeErrorView::GenericConflict("repo settings"@)),
                Some(repo_settings) => match merge_scalar(
                    st.branch_protection,
                    set.branch_protection,
                ) {
                    None => Err(MergeErrorView::GenericConflict("branch protection"@)),
                    Some(branch_protection) => match merge_scalar(st.checks, set.checks) {
                        None => Err(MergeErrorView::GenericConflict("checks"@)),
                        Some(checks) => Ok(
                            MergedRepoConfigView {
                                labels,
                                issue_templates,
                                repo_settings,
                                branch_protection,
                                checks,
                            },
                        ),
                    },
                },
            },
        },
    }
}

/// The state of a merge after the sets `sets`, up to the first conflict.
pub open spec fn merge_from(st: MergedRepoConfigView, sets: Seq<SetDefinitionView>) -> Result<
    MergedRepoConfigView,
    MergeErrorView,
>
    decreases sets.len(),
{
    if sets.len() == 0 {
        Ok(st)
    } else {
        match merge_set(st, sets[0]) {
            Ok(next) => merge_from(next, sets.drop_first()),
            Err(e) => Err(e),
        }
    }
}

/// A merge that has seen no set.
pub open spec fn nothing_merged() -> MergedRepoConfigView {
    MergedRepoConfigView {
        labels: Seq::empty(),
        issue_templates: Seq::empty(),
        repo_settings: None,
        branch_protection: None,
        checks: None,
    }
}

/// The desired state that the sets `sets` give in this order, or the first
/// conflict among them. The labels come out in the order of their names,
/// the files in the order in which the sets bring them.
pub open spec fn merged(sets: Seq<SetDefinitionView>) -> Result<
    MergedRepoConfigView,
    MergeErrorView,
> {
    match merge_from(nothing_merged(), sets) {
        Ok(st) => Ok(
            MergedRepoConfigView { labels: sorted_seq::<LabelSpec>(st.labels), ..st },
        ),
        Err(e) => Err(e),
    }
}

/// No two files of `files` have the same canonical path.
pub open spec fn distinct_paths(files: Seq<IssueTemplateFileView>) -> bool {
    forall|i: int, j: int|
        0 <= i < j < files.len() ==> canonical_path(files[i].path) != canonical_path(
            files[j].path,
        )
}

/// A desired state as merging gives it: the labels in the order of their
/// names, no name twice, and no canonical path twice among the files.
pub open spec fn well_merged(m: MergedRepoConfigView) -> bool {
    &&& is_sorted::<LabelSpec>(m.labels)
    &&& distinct_keys::<LabelSpec>(m.labels)
    &&& distinct_paths(m.issue_templates)
}

/// What an executable merge step says of its outcome.
pub open spec fn agrees<T: DeepView, E: DeepView>(
    r: Result<T, E>,
    expected: Result<T::V, E::V>,
) -> bool {
    match r {
        Ok(v) => expected == Ok::<T::V, E::V>(v.deep_view()),
        Err(e) => expected == Err::<T::V, E::V>(e.deep_view()),
    }
}

/// Keeps `existing` where `incoming` repeats it, takes `incoming` where
/// nothing is there, and reports a conflict of the kind `what` otherwise.
pub fn merge_or_conflict<T: Scalar>(existing: Option<T>, incoming: T, what: &str) -> (r:
    MergeResult<Option<T>>)
    ensures
        match r {
            Ok(v) => merge_scalar(existing.deep_view(), Some(incoming.deep_view())) == Some(
                v.deep_view(),
            ),
            Err(e) => merge_scalar(existing.deep_view(), Some(incoming.deep_view())) is None
                && e.deep_view() == MergeErrorView::GenericConflict(what@),
        },
{
    match existing {
        Some(current) => {
            if !current.same(&incoming) {
                Err(MergeError::GenericConflict(owned(what)))
            } else {
                Ok(Some(current))
            }
        },
        None => Ok(Some(incoming)),
    }
}

fn find_label(acc: &Vec<LabelSpec>, name: &String) -> (r: Option<usize>)
    ensures
        match r {
            Some(i) => i < acc.len() && acc.deep_view()[i as int].name == name@
                && lookup_label(acc.deep_view(), name@) == Some(acc.deep_view()[i as int]),
            None => lookup_label(acc.deep_view(), name@) is None,
        },
{
    let ghost all = acc.deep_view();
    let mut i: usize = 0;
    assert(all.skip(0) =~= all);
    while i < acc.len()
        invariant
            i <= acc.len(),
            all == acc.deep_view(),
            lookup_label(all, name@) == lookup_label(all.skip(i as int), name@),
        decreases acc.len() - i,
    {
        assert(all.skip(i as int)[0] == all[i as int]);
        if acc[i].name == *name {
            return Some(i);
        }
        assert(all.skip(i as int).drop_first() =~= all.skip(i + 1));
        i += 1;
    }
    None
}

fn same_definition(a: &LabelSpec, b: &LabelSpec) -> (r: bool)
    requires
        a.name@ == b.name@,
    ensures
        r == equivalent(a.deep_view(), b.deep_view()),
{
    same_look(
        &normalize_color(&a.color),
        &a.description,
        &normalize_color(&b.color),
        &b.description,
    )
}

fn merge_labels(acc: &mut Vec<LabelSpec>, labels: &Vec<LabelSpec>) -> (r: Result<(), MergeError>)
    ensures
        add_labels(old(acc).deep_view(), labels.deep_view()) == match r {
            Ok(_) => Ok::<Seq<LabelSpecView>, MergeErrorView>(final(acc).deep_view()),
            Err(e) => Err(e.deep_view()),
        },
{
    let ghost start = acc.deep_view();
    let ghost all = labels.deep_view();
    let mut i: usize = 0;
    assert(all.skip(0) =~= all);
    while i < labels.len()
        invariant
            i <= labels.len(),
            all == labels.deep_view(),
            start == old(acc).deep_view(),
            add_labels(start, all) == add_labels(acc.deep_view(), all.skip(i as int)),
        decreases labels.len() - i,
    {
        let label = &labels[i];
        let ghost before = acc.deep_view();
        proof {
            assert(all.skip(i as int)[0] == all[i as int]);
            assert(all.skip(i as int).drop_first() =~= all.skip(i + 1));
            assert(all[i as int] == label.deep_view());
        }
        match find_label(acc, &label.name) {
            Some(k) => {
                if !same_definition(&acc[k], label) {
                    return Err(MergeError::LabelConflict(label.name.clone()));
                }
            },
            None => {
                acc.push(label.clone());
                assert(acc.deep_view() =~= before.push(all[i as int]));
            },
        }
        i += 1;
    }
    Ok(())
}

fn merge_templates(acc: &mut Vec<IssueTemplateFile>, templates: &Vec<IssueTemplateFile>) -> (r:
    Result<(), MergeError>)
    ensures
        add_templates(old(acc).deep_view(), templates.deep_view()) == match r {
            Ok(_) => Ok::<Seq<IssueTemplateFileView>, MergeErrorView>(final(acc).deep_view()),
            Err(e) => Err(e.deep_view()),
        },
{
    let ghost start = acc.deep_view();
    let ghost all = templates.deep_view();
    let mut i: usize = 0;
    assert(all.skip(0) =~= all);
    while i < templates.len()
        invariant
            i <= templates.len(),
            all == templates.deep_view(),
            start == old(acc).deep_view(),
            add_templates(start, all) == add_templates(acc.deep_view(), all.skip(i as int)),
        decreases templates.len() - i,
    {
        let template = &templates[i];
        let ghost before = acc.deep_view();
        proof {
            assert(all.skip(i as int)[0] == all[i as int]);
            assert(all.skip(i as int).drop_first() =~= all.skip(i + 1));
            assert(all[i as int] == template.deep_view());
        }
        let key = short_github_path(template.path.as_str());
        if has_path(acc, &key) {
            return Err(MergeError::TemplateConflict(key));
        }
        acc.push(template.clone());
        assert(acc.deep_view() =~= before.push(all[i as int]));
        i += 1;
    }
    Ok(())
}

/// Merges the sets of one repository, in their order, into its desired
/// state, or reports the first conflict among them.
pub fn merge_sets_for_repo(sets: &[SetDefinition]) -> (r: MergeResult<MergedRepoConfig>)
    ensures
        agrees(r, merged(sets.deep_view())),
        r matches Ok(m) ==> well_merged(m.deep_view()),
{
    let ghost all = sets.deep_view();
    let mut labels: Vec<LabelSpec> = Vec::new();
    let mut templates: Vec<IssueTemplateFile> = Vec::new();
    let mut repo_settings: Option<RepoSettings> = None;
    let mut branch_protection: Option<BranchProtectionConfig> = None;
    let mut checks: Option<ChecksConfig> = None;

    let mut i: usize = 0;
    assert(all.skip(0) =~= all);
    assert(labels.deep_view() =~= Seq::<LabelSpecView>::empty());
    assert(templates.deep_view() =~= Seq::<IssueTemplateFileView>::empty());
    while i < sets.len()
        invariant
            i <= sets.len(),
            all == sets.deep_view(),
            merge_from(nothing_merged(), all) == merge_from(
                MergedRepoConfigView {
                    labels: labels.deep_view(),
                    issue_templates: templates.deep_view(),
                    repo_settings,
                    branch_protection: branch_protection.deep_view(),
                    checks,
                },
                all.skip(i as int),
            ),
        decreases sets.len() - i,
    {
        let set = &sets[i];
        proof {
            assert(all.skip(i as int)[0] == all[i as int]);
            assert(all.skip(i as int).drop_first() =~= all.skip(i + 1));
        }
        match merge_labels(&mut labels, &set.labels) {
            Err(e) => {
                return Err(e);
            },
            Ok(_) => {},
        }
        match merge_templates(&mut templates, &set.issue_templates) {
            Err(e) => {
                return Err(e);
            },
            Ok(_) => {},
        }
        if let Some(settings) = &set.repo_settings {
            match merge_or_conflict(repo_settings, *settings, "repo settings") {
                Err(e) => {
                    return Err(e);
                },
                Ok(v) => {
                    repo_settings = v;
                },
            }
        }
        if let Some(bp) = &set.branch_protection {
            match merge_or_conflict(branch_protection, bp.clone(), "branch protection") {
                Err(e) => {
                    return Err(e);
                },
                Ok(v) => {
                    branch_protection = v;
                },
            }
        }
        if let Some(chk) = &set.checks {
            match merge_or_conflict(checks, *chk, "checks") {
                Err(e) => {
                    return Err(e);
                },
                Ok(v) => {
                    checks = v;
                },
            }
        }
        i += 1;
    }
    let config = MergedRepoConfig {
        labels: sort_by_key(labels),
        issue_templates: templates,
        repo_settings,
        branch_protection,
        checks,
    };
    proof {
        assert(merged(all) == Ok::<MergedRepoConfigView, MergeErrorView>(config.deep_view()));
        lemma_merged_is_well_merged(all);
    }
    Ok(config)
}

} // verus!
