//! Configuration sets: named bundles of desired policy, as they are held in
//! memory once loaded.

use std::path::PathBuf;
use vstd::prelude::*;
use vstd::std_specs::cmp::PartialEqSpecImpl;
use crate::order::is_sorted;
use crate::order::sort_by_key;
use crate::order::sorted_seq;
use crate::order::Keyed;
use crate::settings::BranchProtectionConfig;
use crate::settings::BranchProtectionConfigView;
use crate::settings::RepoSettings;
use crate::text::chars_of;
use crate::text::find;
use crate::text::index_of;
use crate::text::occurs_in;
use crate::text::opt_text_clone;
use crate::text::opt_text_eq;
use crate::text::owned;
use crate::text::suffix_from;

verus! {

/// `std::path::PathBuf`, carried through as an opaque value.
#[verifier::external_type_specification]
#[verifier::external_body]
pub struct ExPathBuf(PathBuf);

/// `PathBuf::clone` returns a copy of the path it is called on.
pub assume_specification[ <PathBuf as Clone>::clone ](p: &PathBuf) -> (r: PathBuf)
    ensures
        r == *p,
;

/// One issue label as a configuration set defines it.
#[derive(Debug)]
pub struct LabelSpec {
    pub name: String,
    pub color: Option<String>,
    pub description: Option<String>,
}

/// The value of a `LabelSpec`.
pub ghost struct LabelSpecView {
    pub name: Seq<char>,
    pub color: Option<Seq<char>>,
    pub description: Option<Seq<char>>,
}

impl DeepView for LabelSpec {
    type V = LabelSpecView;

    open spec fn deep_view(&self) -> LabelSpecView {
        LabelSpecView {
            name: self.name@,
            color: self.color.deep_view(),
            description: self.description.deep_view(),
        }
    }
}

impl Clone for LabelSpec {
    fn clone(&self) -> (r: Self)
        ensures
            r.deep_view() == self.deep_view(),
    {
        LabelSpec {
            name: self.name.clone(),
            color: opt_text_clone(&self.color),
            description: opt_text_clone(&self.description),
        }
    }
}

impl PartialEq for LabelSpec {
    fn eq(&self, other: &Self) -> (r: bool) {
        self.name == other.name && opt_text_eq(&self.color, &other.color) && opt_text_eq(
            &self.description,
            &other.description,
        )
    }
}

impl PartialEqSpecImpl for LabelSpec {
    open spec fn obeys_eq_spec() -> bool {
        true
    }

    open spec fn eq_spec(&self, other: &Self) -> bool {
        self.deep_view() == other.deep_view()
    }
}

impl Eq for LabelSpec {}

impl Keyed for LabelSpec {
    open spec fn key_of(v: LabelSpecView) -> Seq<char> {
        v.name
    }

    fn key(&self) -> (k: &String) {
        &self.name
    }
}

/// Some label of `labels` has the name `name`.
pub open spec fn names_label(labels: Seq<LabelSpecView>, name: Seq<char>) -> bool {
    exists|i: int| 0 <= i < labels.len() && (#[trigger] labels[i]).name == name
}

/// One file of a repository's `.github` directory: its path, and its text.
#[derive(Debug)]
pub struct IssueTemplateFile {
    pub path: String,
    pub contents: String,
}

/// The value of an `IssueTemplateFile`.
pub ghost struct IssueTemplateFileView {
    pub path: Seq<char>,
    pub contents: Seq<char>,
}

impl DeepView for IssueTemplateFile {
    type V = IssueTemplateFileView;

    open spec fn deep_view(&self) -> IssueTemplateFileView {
        IssueTemplateFileView { path: self.path@, contents: self.contents@ }
    }
}

impl Clone for IssueTemplateFile {
    fn clone(&self) -> (r: Self)
        ensures
            r.deep_view() == self.deep_view(),
    {
        IssueTemplateFile { path: self.path.clone(), contents: self.contents.clone() }
    }
}

impl PartialEq for IssueTemplateFile {
    fn eq(&self, other: &Self) -> (r: bool) {
        self.path == other.path && self.contents == other.contents
    }
}

impl PartialEqSpecImpl for IssueTemplateFile {
    open spec fn obeys_eq_spec() -> bool {
        true
    }

    open spec fn eq_spec(&self, other: &Self) -> bool {
        self.deep_view() == other.deep_view()
    }
}

impl Eq for IssueTemplateFile {}

impl Keyed for IssueTemplateFile {
    open spec fn key_of(v: IssueTemplateFileView) -> Seq<char> {
        v.path
    }

    fn key(&self) -> (k: &String) {
        &self.path
    }
}

/// The canonical form of a file path: what is left of it from the first
/// `.github/` on, or the whole path where it holds none.
pub open spec fn canonical_path(p: Seq<char>) -> Seq<char> {
    if occurs_in(p, ".github/"@) {
        p.skip(index_of(p, ".github/"@))
    } else {
        p
    }
}

/// The canonical form of `path`.
pub fn short_github_path(path: &str) -> (r: String)
    ensures
        r@ == canonical_path(path@),
{
    let s = chars_of(path);
    let p = chars_of(".github/");
    match find(&s, &p) {
        Some(i) => suffix_from(path, i),
        None => owned(path),
    }
}

/// Some file of `acc` has the canonical path `key`.
pub open spec fn holds_path(acc: Seq<IssueTemplateFileView>, key: Seq<char>) -> bool {
    exists|i: int| 0 <= i < acc.len() && canonical_path(acc[i].path) == key
}

/// Whether some file of `acc` has the canonical path `key`.
pub fn has_path(acc: &Vec<IssueTemplateFile>, key: &String) -> (r: bool)
    ensures
        r == holds_path(acc.deep_view(), key@),
{
    let mut i: usize = 0;
    while i < acc.len()
        invariant
            i <= acc.len(),
            forall|k: int| 0 <= k < i ==> canonical_path(acc.deep_view()[k].path) != key@,
        decreases acc.len() - i,
    {
        let p = short_github_path(acc[i].path.as_str());
        if p == *key {
            assert(canonical_path(acc.deep_view()[i as int].path) == key@);
            return true;
        }
        i += 1;
    }
    false
}

/// Which repository checks a set asks for.
#[derive(Debug, Clone, Copy, PartialEq, Eq, Structural)]
pub struct ChecksConfig {
    pub require_codeowners: bool,
    pub warn_on_inactive_owners: bool,
}

impl DeepView for ChecksConfig {
    type V = ChecksConfig;

    open spec fn deep_view(&self) -> ChecksConfig {
        *self
    }
}

impl ChecksConfig {
    /// A set that does not say so still requires code owners.
    pub fn default_require_codeowners() -> (r: bool)
        ensures
            r,
    {
        true
    }

    /// A set that does not say so still warns on inactive owners.
    pub fn default_warn_on_inactive() -> (r: bool)
        ensures
            r,
    {
        true
    }
}

impl Default for ChecksConfig {
    fn default() -> (r: Self)
        ensures
            r.require_codeowners,
            r.warn_on_inactive_owners,
    {
        ChecksConfig { require_codeowners: true, warn_on_inactive_owners: true }
    }
}

/// What a labels file says of one label, the label's name being the key
/// under which it stands.
#[derive(Debug)]
pub struct LabelFields {
    pub color: Option<String>,
    pub description: Option<String>,
}

/// The value of a `LabelFields`.
pub ghost struct LabelFieldsView {
    pub color: Option<Seq<char>>,
    pub description: Option<Seq<char>>,
}

impl DeepView for LabelFields {
    type V = LabelFieldsView;

    open spec fn deep_view(&self) -> LabelFieldsView {
        LabelFieldsView {
            color: self.color.deep_view(),
            description: self.description.deep_view(),
        }
    }
}

impl Clone for LabelFields {
    fn clone(&self) -> (r: Self)
        ensures
            r.deep_view() == self.deep_view(),
    {
        LabelFields {
            color: opt_text_clone(&self.color),
            description: opt_text_clone(&self.description),
        }
    }
}

impl PartialEq for LabelFields {
    fn eq(&self, other: &Self) -> (r: bool) {
        opt_text_eq(&self.color, &other.color) && opt_text_eq(
            &self.description,
            &other.description,
        )
    }
}

impl PartialEqSpecImpl for LabelFields {
    open spec fn obeys_eq_spec() -> bool {
        true
    }

    open spec fn eq_spec(&self, other: &Self) -> bool {
        self.deep_view() == other.deep_view()
    }
}

impl Eq for LabelFields {}

impl Default for LabelFields {
    fn default() -> (r: Self)
        ensures
            r.color is None,
            r.description is None,
    {
        LabelFields { color: None, description: None }
    }
}

/// The label that an entry of a labels file stands for.
pub open spec fn label_of_entry(e: (Seq<char>, LabelFieldsView)) -> LabelSpecView {
    LabelSpecView { name: e.0, color: e.1.color, description: e.1.description }
}

/// The labels of a labels file, given as its entries of name and fields, in
/// the order of their names.
pub fn labels_from_map(map: Vec<(String, LabelFields)>) -> (r: Vec<LabelSpec>)
    ensures
        r.deep_view() == sorted_seq::<LabelSpec>(
            map.deep_view().map_values(|e: (Seq<char>, LabelFieldsView)| label_of_entry(e)),
        ),
        is_sorted::<LabelSpec>(r.deep_view()),
{
    let mut labels: Vec<LabelSpec> = Vec::new();
    let mut i: usize = 0;
    while i < map.len()
        invariant
            i <= map.len(),
            labels.len() == i,
            forall|k: int|
                0 <= k < i ==> labels@[k].deep_view() == label_of_entry(map@[k].deep_view()),
        decreases map.len() - i,
    {
        let entry = &map[i];
        labels.push(
            LabelSpec {
                name: entry.0.clone(),
                color: opt_text_clone(&entry.1.color),
                description: opt_text_clone(&entry.1.description),
            },
        );
        i += 1;
    }
    assert(labels.deep_view() =~= map.deep_view().map_values(
        |e: (Seq<char>, LabelFieldsView)| label_of_entry(e),
    ));
    sort_by_key(labels)
}

/// A named bundle of desired policy, loaded from one configuration source.
#[derive(Debug)]
pub struct SetDefinition {
    pub name: String,
    pub path: PathBuf,
    pub labels: Vec<LabelSpec>,
    pub issue_templates: Vec<IssueTemplateFile>,
    pub repo_settings: Option<RepoSettings>,
    pub branch_protection: Option<BranchProtectionConfig>,
    pub checks: Option<ChecksConfig>,
}

/// The value of a `SetDefinition`: what merging and reporting read of it.
pub ghost struct SetDefinitionView {
    pub name: Seq<char>,
    pub labels: Seq<LabelSpecView>,
    pub issue_templates: Seq<IssueTemplateFileView>,
    pub repo_settings: Option<RepoSettings>,
    pub branch_protection: Option<BranchProtectionConfigView>,
    pub checks: Option<ChecksConfig>,
}

impl DeepView for SetDefinition {
    type V = SetDefinitionView;

    open spec fn deep_view(&self) -> SetDefinitionView {
        SetDefinitionView {
            name: self.name@,
            labels: self.labels.deep_view(),
            issue_templates: self.issue_templates.deep_view(),
            repo_settings: self.repo_settings,
            branch_protection: self.branch_protection.deep_view(),
            checks: self.checks,
        }
    }
}

/// A copy of a list of labels.
pub fn labels_clone(a: &Vec<LabelSpec>) -> (r: Vec<LabelSpec>)
    ensures
        r.deep_view() == a.deep_view(),
{
    let mut r: Vec<LabelSpec> = Vec::new();
    let mut i: usize = 0;
    while i < a.len()
        invariant
            i <= a.len(),
            r.len() == i,
            forall|k: int| 0 <= k < i ==> r@[k].deep_view() == a@[k].deep_view(),
        decreases a.len() - i,
    {
        r.push(a[i].clone());
        i += 1;
    }
    assert(r.deep_view() =~= a.deep_view());
    r
}

/// A copy of a list of files.
pub fn templates_clone(a: &Vec<IssueTemplateFile>) -> (r: Vec<IssueTemplateFile>)
    ensures
        r.deep_view() == a.deep_view(),
{
    let mut r: Vec<IssueTemplateFile> = Vec::new();
    let mut i: usize = 0;
    while i < a.len()
        invariant
            i <= a.len(),
            r.len() == i,
            forall|k: int| 0 <= k < i ==> r@[k].deep_view() == a@[k].deep_view(),
        decreases a.len() - i,
    {
        r.push(a[i].clone());
        i += 1;
    }
    assert(r.deep_view() =~= a.deep_view());
    r
}

impl Clone for SetDefinition {
    fn clone(&self) -> (r: Self)
        ensures
            r.deep_view() == self.deep_view(),
            r.path == self.path,
    {
        SetDefinition {
            name: self.name.clone(),
            path: self.path.clone(),
            labels: labels_clone(&self.labels),
            issue_templates: templates_clone(&self.issue_templates),
            repo_settings: self.repo_settings,
            branch_protection: match &self.branch_protection {
                Some(b) => Some(b.clone()),
                None => None,
            },
            checks: self.checks,
        }
    }
}

} // verus!
