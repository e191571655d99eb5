//! Generating configuration from repositories as they are: what all of
//! them share becomes the `core` set, and what is left of each becomes
//! component sets shared by the repositories that agree on it.

use vstd::prelude::*;
use crate::config::RepoConfig;
use crate::config::RepoConfigView;
use crate::merge::Scalar;
use crate::order::is_sorted;
use crate::order::sort_by_key;
use crate::order::sorted_seq;
use crate::sets::labels_clone;
use crate::sets::names_label;
use crate::sets::templates_clone;
use crate::sets::IssueTemplateFile;
use crate::sets::IssueTemplateFileView;
use crate::sets::LabelSpec;
use crate::sets::LabelSpecView;
use crate::settings::RepoSettings;
use crate::templates::empty_index;
use crate::templates::IssueTemplateConfig;
use crate::templates::IssueTemplateConfigView;
use crate::text::ends_with;
use crate::text::join;
use crate::text::joined;
use crate::text::owned;
use crate::text::texts_clone;

verus! {

/// The format in which generated configuration is written.
#[derive(Debug, Clone, Copy, PartialEq, Eq, Structural)]
pub enum OutputFormat {
    Toml,
    Yml,
    Json,
}

impl OutputFormat {
    /// The file extension of the format.
    pub fn ext(&self) -> (r: &'static str)
        ensures
            r@ == match *self {
                OutputFormat::Toml => "toml"@,
                OutputFormat::Yml => "yml"@,
                OutputFormat::Json => "json"@,
            },
    {
        match self {
            OutputFormat::Toml => "toml",
            OutputFormat::Yml => "yml",
            OutputFormat::Json => "json",
        }
    }
}

/// What was read of one repository.
#[derive(Debug)]
pub struct RepoSnapshot {
    pub name: String,
    pub labels: Vec<LabelSpec>,
    pub settings: Option<RepoSettings>,
    pub templates: Vec<IssueTemplateFile>,
}

/// The value of a `RepoSnapshot`.
pub ghost struct RepoSnapshotView {
    pub name: Seq<char>,
    pub labels: Seq<LabelSpecView>,
    pub settings: Option<RepoSettings>,
    pub templates: Seq<IssueTemplateFileView>,
}

impl DeepView for RepoSnapshot {
    type V = RepoSnapshotView;

    open spec fn deep_view(&self) -> RepoSnapshotView {
        RepoSnapshotView {
            name: self.name@,
            labels: self.labels.deep_view(),
            settings: self.settings,
            templates: self.templates.deep_view(),
        }
    }
}

impl Clone for RepoSnapshot {
    fn clone(&self) -> (r: Self)
        ensures
            r.deep_view() == self.deep_view(),
    {
        RepoSnapshot {
            name: self.name.clone(),
            labels: labels_clone(&self.labels),
            settings: self.settings,
            templates: templates_clone(&self.templates),
        }
    }
}

/// The labels that every snapshot holds, the same in name, colour and
/// description.
pub open spec fn label_in_all(snaps: Seq<RepoSnapshotView>) -> spec_fn(LabelSpecView) -> bool {
    |l: LabelSpecView| forall|i: int| 0 <= i < snaps.len() ==> (#[trigger] snaps[i]).labels.contains(l)
}

/// The labels that all repositories share, in the order of their names.
pub open spec fn common_labels(snaps: Seq<RepoSnapshotView>) -> Seq<LabelSpecView> {
    if snaps.len() == 0 {
        Seq::empty()
    } else {
        sorted_seq::<LabelSpec>(snaps[0].labels.filter(label_in_all(snaps)))
    }
}

/// The files that every snapshot holds, the same in path and contents.
pub open spec fn file_in_all(snaps: Seq<RepoSnapshotView>) -> spec_fn(IssueTemplateFileView) -> bool {
    |t: IssueTemplateFileView|
        forall|i: int| 0 <= i < snaps.len() ==> (#[trigger] snaps[i]).templates.contains(t)
}

/// The position of the first file of `acc` with the path `path`.
pub open spec fn position_of_path(acc: Seq<IssueTemplateFileView>, path: Seq<char>) -> Option<int>
    decreases acc.len(),
{
    if acc.len() == 0 {
        None
    } else if acc.last().path == path && position_of_path(acc.drop_last(), path) is None {
        Some(acc.len() - 1)
    } else {
        position_of_path(acc.drop_last(), path)
    }
}

/// `acc` with the file `t` under its path: in place of the file that had
/// the path, or at the end.
pub open spec fn upsert(acc: Seq<IssueTemplateFileView>, t: IssueTemplateFileView) -> Seq<
    IssueTemplateFileView,
> {
    match position_of_path(acc, t.path) {
        Some(i) => acc.update(i, t),
        None => acc.push(t),
    }
}

/// The files `files`, one per path: of two files with one path the later
/// one stands, at the place of the earlier.
pub open spec fn one_per_path(files: Seq<IssueTemplateFileView>) -> Seq<IssueTemplateFileView>
    decreases files.len(),
{
    if files.len() == 0 {
        Seq::empty()
    } else {
        upsert(one_per_path(files.drop_last()), files.last())
    }
}

/// The files that all repositories share, one per path, in the order of
/// their paths.
pub open spec fn common_templates(snaps: Seq<RepoSnapshotView>) -> Seq<IssueTemplateFileView> {
    if snaps.len() == 0 {
        Seq::empty()
    } else {
        sorted_seq::<IssueTemplateFile>(one_per_path(snaps[0].templates.filter(file_in_all(snaps))))
    }
}

/// The settings that all repositories share: those of the first, where
/// every repository has the same.
pub open spec fn common_settings(snaps: Seq<RepoSnapshotView>) -> Option<RepoSettings> {
    if snaps.len() == 0 {
        None
    } else {
        match snaps[0].settings {
            Some(first) => if forall|i: int|
                0 <= i < snaps.len() ==> (#[trigger] snaps[i]).settings == Some(first) {
                Some(first)
            } else {
                None
            },
            None => None,
        }
    }
}

fn holds_label(labels: &Vec<LabelSpec>, l: &LabelSpec) -> (r: bool)
    ensures
        r == labels.deep_view().contains(l.deep_view()),
{
    let mut i: usize = 0;
    while i < labels.len()
        invariant
            i <= labels.len(),
            forall|k: int| 0 <= k < i ==> labels.deep_view()[k] != l.deep_view(),
        decreases labels.len() - i,
    {
        if labels[i] == *l {
            assert(labels.deep_view()[i as int] == l.deep_view());
            return true;
        }
        i += 1;
    }
    false
}

fn holds_file(files: &Vec<IssueTemplateFile>, t: &IssueTemplateFile) -> (r: bool)
    ensures
        r == files.deep_view().contains(t.deep_view()),
{
    let mut i: usize = 0;
    while i < files.len()
        invariant
            i <= files.len(),
            forall|k: int| 0 <= k < i ==> files.deep_view()[k] != t.deep_view(),
        decreases files.len() - i,
    {
        if files[i] == *t {
            assert(files.deep_view()[i as int] == t.deep_view());
            return true;
        }
        i += 1;
    }
    false
}

fn all_hold_label(snapshots: &Vec<RepoSnapshot>, l: &LabelSpec) -> (r: bool)
    ensures
        r == label_in_all(snapshots.deep_view())(l.deep_view()),
{
    let mut i: usize = 0;
    while i < snapshots.len()
        invariant
            i <= snapshots.len(),
            forall|k: int|
                0 <= k < i ==> (#[trigger] snapshots.deep_view()[k]).labels.contains(
                    l.deep_view(),
                ),
        decreases snapshots.len() - i,
    {
        if !holds_label(&snapshots[i].labels, l) {
            assert(!snapshots.deep_view()[i as int].labels.contains(l.deep_view()));
            return false;
        }
        i += 1;
    }
    true
}

fn all_hold_file(snapshots: &Vec<RepoSnapshot>, t: &IssueTemplateFile) -> (r: bool)
    ensures
        r == file_in_all(snapshots.deep_view())(t.deep_view()),
{
    let mut i: usize = 0;
    while i < snapshots.len()
        invariant
            i <= snapshots.len(),
            forall|k: int|
                0 <= k < i ==> (#[trigger] snapshots.deep_view()[k]).templates.contains(
                    t.deep_view(),
                ),
        decreases snapshots.len() - i,
    {
        if !holds_file(&snapshots[i].templates, t) {
            assert(!snapshots.deep_view()[i as int].templates.contains(t.deep_view()));
            return false;
        }
        i += 1;
    }
    true
}

/// The labels that all repositories share, in the order of their names.
pub fn compute_common_labels(snapshots: &Vec<RepoSnapshot>) -> (r: Vec<LabelSpec>)
    ensures
        r.deep_view() == common_labels(snapshots.deep_view()),
        is_sorted::<LabelSpec>(r.deep_view()),
{
    if snapshots.len() == 0 {
        let empty: Vec<LabelSpec> = Vec::new();
        assert(empty.deep_view() =~= Seq::<LabelSpecView>::empty());
        return empty;
    }
    let ghost snaps = snapshots.deep_view();
    let first = &snapshots[0].labels;
    let ghost all = first.deep_view();
    assert(all == snaps[0].labels);
    let mut common: Vec<LabelSpec> = Vec::new();
    let mut i: usize = 0;
    assert(all.take(0) =~= Seq::<LabelSpecView>::empty());
    assert(common.deep_view() =~= all.take(0).filter(label_in_all(snaps))) by {
        reveal(Seq::filter);
    }
    while i < first.len()
        invariant
            i <= first.len(),
            snaps == snapshots.deep_view(),
            all == first.deep_view(),
            common.deep_view() == all.take(i as int).filter(label_in_all(snaps)),
        decreases first.len() - i,
    {
        proof {
            assert(all.take(i + 1) =~= all.take(i as int).push(all[i as int]));
            all.take(i as int).lemma_filter_push(all[i as int], label_in_all(snaps));
        }
        let ghost before = common.deep_view();
        if all_hold_label(snapshots, &first[i]) {
            common.push(first[i].clone());
            assert(common.deep_view() =~= before.push(all[i as int]));
        }
        i += 1;
    }
    assert(all.take(i as int) =~= all);
    sort_by_key(common)
}

/// The settings that all repositories share.
pub fn compute_common_settings(snapshots: &Vec<RepoSnapshot>) -> (r: Option<RepoSettings>)
    ensures
        r == common_settings(snapshots.deep_view()),
{
    if snapshots.len() == 0 {
        return None;
    }
    let first = match snapshots[0].settings {
        Some(s) => s,
        None => {
            return None;
        },
    };
    assert(snapshots.deep_view()[0].settings == Some(first));
    let mut i: usize = 0;
    while i < snapshots.len()
        invariant
            i <= snapshots.len(),
            snapshots.len() > 0,
            snapshots.deep_view()[0].settings == Some(first),
            forall|k: int|
                0 <= k < i ==> (#[trigger] snapshots.deep_view()[k]).settings == Some(first),
        decreases snapshots.len() - i,
    {
        let same = match snapshots[i].settings {
            Some(s) => s == first,
            None => false,
        };
        if !same {
            assert(snapshots.deep_view()[i as int].settings != Some(first));
            return None;
        }
        i += 1;
    }
    Some(first)
}

fn find_path(acc: &Vec<IssueTemplateFile>, path: &String) -> (r: Option<usize>)
    ensures
        match r {
            Some(i) => i < acc.len() && position_of_path(acc.deep_view(), path@) == Some(i as int),
            None => position_of_path(acc.deep_view(), path@) is None,
        },
{
    let ghost all = acc.deep_view();
    let mut n: usize = acc.len();
    let mut found: Option<usize> = None;
    assert(all.take(n as int) =~= all);
    // Walks from the back, so that the file found last is the first with the path.
    while n > 0
        invariant
            n <= acc.len(),
            all == acc.deep_view(),
            found matches Some(i) ==> n <= i < acc.len() && all[i as int].path == path@,
            forall|k: int| n <= k < acc.len() && all[k].path == path@ ==> found is Some && found->0 <= k,
        decreases n,
    {
        n -= 1;
        if acc[n].path == *path {
            found = Some(n);
        }
    }
    proof {
        lemma_position_of_path(all, path@);
    }
    found
}

/// `position_of_path` gives the first position with the path.
pub proof fn lemma_position_of_path(acc: Seq<IssueTemplateFileView>, path: Seq<char>)
    ensures
        match position_of_path(acc, path) {
            Some(i) => {
                &&& 0 <= i < acc.len()
                &&& acc[i].path == path
                &&& forall|k: int| 0 <= k < i ==> acc[k].path != path
            },
            None => forall|k: int| 0 <= k < acc.len() ==> acc[k].path != path,
        },
    decreases acc.len(),
{
    if acc.len() > 0 {
        lemma_position_of_path(acc.drop_last(), path);
        let rest = acc.drop_last();
        assert forall|k: int| 0 <= k < rest.len() implies rest[k] == acc[k] by {}
    }
}

/// The files that all repositories share, one per path, in the order of
/// their paths.
pub fn compute_common_templates(snapshots: &Vec<RepoSnapshot>) -> (r: Vec<IssueTemplateFile>)
    ensures
        r.deep_view() == common_templates(snapshots.deep_view()),
        is_sorted::<IssueTemplateFile>(r.deep_view()),
{
    if snapshots.len() == 0 {
        let empty: Vec<IssueTemplateFile> = Vec::new();
        assert(empty.deep_view() =~= Seq::<IssueTemplateFileView>::empty());
        return empty;
    }
    let ghost snaps = snapshots.deep_view();
    let first = &snapshots[0].templates;
    let ghost all = first.deep_view();
    assert(all == snaps[0].templates);
    let mut common: Vec<IssueTemplateFile> = Vec::new();
    let mut i: usize = 0;
    assert(all.take(0) =~= Seq::<IssueTemplateFileView>::empty());
    assert(all.take(0).filter(file_in_all(snaps)) =~= Seq::<IssueTemplateFileView>::empty()) by {
        reveal(Seq::filter);
    }
    assert(common.deep_view() =~= one_per_path(all.take(0).filter(file_in_all(snaps))));
    while i < first.len()
        invariant
            i <= first.len(),
            snaps == snapshots.deep_view(),
            all == first.deep_view(),
            common.deep_view() == one_per_path(all.take(i as int).filter(file_in_all(snaps))),
        decreases first.len() - i,
    {
        proof {
            assert(all.take(i + 1) =~= all.take(i as int).push(all[i as int]));
            all.take(i as int).lemma_filter_push(all[i as int], file_in_all(snaps));
        }
        let ghost before = common.deep_view();
        let ghost kept = all.take(i as int).filter(file_in_all(snaps));
        if all_hold_file(snapshots, &first[i]) {
            proof {
                assert(kept.push(all[i as int]).drop_last() =~= kept);
            }
            match find_path(&common, &first[i].path) {
                Some(k) => {
                    common[k] = first[i].clone();
                    assert(common.deep_view() =~= before.update(k as int, all[i as int]));
                },
                None => {
                    common.push(first[i].clone());
                    assert(common.deep_view() =~= before.push(all[i as int]));
                },
            }
        }
        i += 1;
    }
    assert(all.take(i as int) =~= all);
    sort_by_key(common)
}

/// Whether anything is shared, so that there is a `core` set.
pub fn has_core(
    labels: &Vec<LabelSpec>,
    settings: &Option<RepoSettings>,
    templates: &Vec<IssueTemplateFile>,
) -> (r: bool)
    ensures
        r == (labels.len() > 0 || settings is Some || templates.len() > 0),
{
    labels.len() > 0 || settings.is_some() || templates.len() > 0
}

/// The shared files lack an index and hold a template, so that an index
/// is generated for them.
pub open spec fn lacks_index(files: Seq<IssueTemplateFileView>) -> bool {
    &&& forall|i: int|
        0 <= i < files.len() ==> !".github/ISSUE_TEMPLATE/config.yml"@.is_suffix_of(
            #[trigger] files[i].path,
        )
    &&& exists|i: int| 0 <= i < files.len() && !"config.yml"@.is_suffix_of(#[trigger] files[i].path)
}

/// Whether an index is to be generated for the shared files: they hold
/// none, and they hold a file that is not an index.
pub fn needs_index(files: &Vec<IssueTemplateFile>) -> (r: bool)
    ensures
        r == lacks_index(files.deep_view()),
{
    let mut has_template = false;
    let mut i: usize = 0;
    while i < files.len()
        invariant
            i <= files.len(),
            forall|k: int|
                0 <= k < i ==> !".github/ISSUE_TEMPLATE/config.yml"@.is_suffix_of(
                    #[trigger] files.deep_view()[k].path,
                ),
            has_template == exists|k: int|
                0 <= k < i && !"config.yml"@.is_suffix_of(#[trigger] files.deep_view()[k].path),
        decreases files.len() - i,
    {
        let path = files[i].path.as_str();
        if ends_with(path, ".github/ISSUE_TEMPLATE/config.yml") {
            assert(".github/ISSUE_TEMPLATE/config.yml"@.is_suffix_of(
                files.deep_view()[i as int].path,
            ));
            return false;
        }
        if !ends_with(path, "config.yml") {
            has_template = true;
            assert(!"config.yml"@.is_suffix_of(files.deep_view()[i as int].path));
        }
        i += 1;
    }
    has_template
}

/// The generated index: what the index that was there says, without
/// entries for the templates.
pub fn generated_index(base: Option<IssueTemplateConfig>) -> (r: IssueTemplateConfig)
    ensures
        r.deep_view() == (IssueTemplateConfigView {
            issue_templates: None,
            ..match base.deep_view() {
                Some(b) => b,
                None => empty_index(),
            }
        }),
{
    match base {
        Some(b) => IssueTemplateConfig {
            blank_issues_enabled: b.blank_issues_enabled,
            contact_links: b.contact_links,
            issue_templates: None,
        },
        None => IssueTemplateConfig::default(),
    }
}

/// What is left of one repository once the shared part is taken out.
#[derive(Debug)]
pub struct Residual {
    pub name: String,
    pub labels: Vec<LabelSpec>,
    pub settings: Option<RepoSettings>,
    pub templates: Vec<IssueTemplateFile>,
}

/// The value of a `Residual`.
pub ghost struct ResidualView {
    pub name: Seq<char>,
    pub labels: Seq<LabelSpecView>,
    pub settings: Option<RepoSettings>,
    pub templates: Seq<IssueTemplateFileView>,
}

impl DeepView for Residual {
    type V = ResidualView;

    open spec fn deep_view(&self) -> ResidualView {
        ResidualView {
            name: self.name@,
            labels: self.labels.deep_view(),
            settings: self.settings,
            templates: self.templates.deep_view(),
        }
    }
}

/// The labels whose name no shared label has.
pub open spec fn label_left(common: Seq<LabelSpecView>) -> spec_fn(LabelSpecView) -> bool {
    |l: LabelSpecView| !names_label(common, l.name)
}

/// The files that are not shared and are no index.
pub open spec fn file_left(common: Seq<IssueTemplateFileView>) -> spec_fn(
    IssueTemplateFileView,
) -> bool {
    |t: IssueTemplateFileView| !common.contains(t) && !"config.yml"@.is_suffix_of(t.path)
}

/// What is left of a repository: the labels whose names are not shared,
/// its settings unless they are the shared ones, and the files that are
/// neither shared nor an index.
pub open spec fn residual(
    snap: RepoSnapshotView,
    labels: Seq<LabelSpecView>,
    settings: Option<RepoSettings>,
    templates: Seq<IssueTemplateFileView>,
) -> ResidualView {
    ResidualView {
        name: snap.name,
        labels: snap.labels.filter(label_left(labels)),
        settings: if snap.settings == settings {
            None
        } else {
            snap.settings
        },
        templates: snap.templates.filter(file_left(templates)),
    }
}

fn has_label_named(common: &Vec<LabelSpec>, name: &String) -> (r: bool)
    ensures
        r == names_label(common.deep_view(), name@),
{
    let mut i: usize = 0;
    while i < common.len()
        invariant
            i <= common.len(),
            forall|k: int| 0 <= k < i ==> (#[trigger] common.deep_view()[k]).name != name@,
        decreases common.len() - i,
    {
        if common[i].name == *name {
            assert(common.deep_view()[i as int].name == name@);
            return true;
        }
        i += 1;
    }
    false
}

/// Takes the shared part out of one repository.
pub fn residual_of(
    snapshot: &RepoSnapshot,
    labels: &Vec<LabelSpec>,
    settings: &Option<RepoSettings>,
    templates: &Vec<IssueTemplateFile>,
) -> (r: Residual)
    ensures
        r.deep_view() == residual(
            snapshot.deep_view(),
            labels.deep_view(),
            *settings,
            templates.deep_view(),
        ),
{
    let ghost mine = snapshot.labels.deep_view();
    let ghost shared = labels.deep_view();
    let mut left: Vec<LabelSpec> = Vec::new();
    let mut i: usize = 0;
    assert(mine.take(0) =~= Seq::<LabelSpecView>::empty());
    assert(left.deep_view() =~= mine.take(0).filter(label_left(shared))) by {
        reveal(Seq::filter);
    }
    while i < snapshot.labels.len()
        invariant
            i <= snapshot.labels.len(),
            mine == snapshot.labels.deep_view(),
            shared == labels.deep_view(),
            left.deep_view() == mine.take(i as int).filter(label_left(shared)),
        decreases snapshot.labels.len() - i,
    {
        proof {
            assert(mine.take(i + 1) =~= mine.take(i as int).push(mine[i as int]));
            mine.take(i as int).lemma_filter_push(mine[i as int], label_left(shared));
        }
        let ghost before = left.deep_view();
        if !has_label_named(labels, &snapshot.labels[i].name) {
            left.push(snapshot.labels[i].clone());
            assert(left.deep_view() =~= before.push(mine[i as int]));
        }
        i += 1;
    }
    assert(mine.take(i as int) =~= mine);

    let rest = match (&snapshot.settings, settings) {
        (Some(s), Some(common)) => if *s != *common {
            Some(*s)
        } else {
            None
        },
        (Some(s), None) => Some(*s),
        _ => None,
    };

    let ghost files = snapshot.templates.deep_view();
    let ghost common_files = templates.deep_view();
    let mut other: Vec<IssueTemplateFile> = Vec::new();
    let mut j: usize = 0;
    assert(files.take(0) =~= Seq::<IssueTemplateFileView>::empty());
    assert(other.deep_view() =~= files.take(0).filter(file_left(common_files))) by {
        reveal(Seq::filter);
    }
    while j < snapshot.templates.len()
        invariant
            j <= snapshot.templates.len(),
            files == snapshot.templates.deep_view(),
            common_files == templates.deep_view(),
            other.deep_view() == files.take(j as int).filter(file_left(common_files)),
        decreases snapshot.templates.len() - j,
    {
        proof {
            assert(files.take(j + 1) =~= files.take(j as int).push(files[j as int]));
            files.take(j as int).lemma_filter_push(files[j as int], file_left(common_files));
        }
        let ghost before = other.deep_view();
        let t = &snapshot.templates[j];
        if !holds_file(templates, t) && !ends_with(t.path.as_str(), "config.yml") {
            other.push(t.clone());
            assert(other.deep_view() =~= before.push(files[j as int]));
        }
        j += 1;
    }
    assert(files.take(j as int) =~= files);

    Residual { name: snapshot.name.clone(), labels: left, settings: rest, templates: other }
}

/// The repositories that agree on one payload: their names in the order in
/// which they were seen, and the payload of the first.
pub type Group<T> = (Vec<String>, T);

/// The position of the first group with the payload `value`.
pub open spec fn group_of<V>(groups: Seq<(Seq<Seq<char>>, V)>, value: V) -> Option<int>
    decreases groups.len(),
{
    if groups.len() == 0 {
        None
    } else if groups[0].1 == value {
        Some(0)
    } else {
        match group_of(groups.drop_first(), value) {
            Some(i) => Some(i + 1),
            None => None,
        }
    }
}

/// `groups` with one more repository: in the group of its payload, or in a
/// new group at the end.
pub open spec fn grouped_with<V>(groups: Seq<(Seq<Seq<char>>, V)>, item: (Seq<char>, V)) -> Seq<
    (Seq<Seq<char>>, V),
> {
    match group_of(groups, item.1) {
        Some(i) => groups.update(i, (groups[i].0.push(item.0), groups[i].1)),
        None => groups.push((seq![item.0], item.1)),
    }
}

/// The groups of the repositories `items` by their payloads.
pub open spec fn grouped<V>(items: Seq<(Seq<char>, V)>) -> Seq<(Seq<Seq<char>>, V)>
    decreases items.len(),
{
    if items.len() == 0 {
        Seq::empty()
    } else {
        grouped_with(grouped(items.drop_last()), items.last())
    }
}

impl Scalar for Vec<LabelSpec> {
    fn same(&self, other: &Self) -> (r: bool) {
        if self.len() != other.len() {
            assert(self.deep_view().len() != other.deep_view().len());
            return false;
        }
        let mut i: usize = 0;
        while i < self.len()
            invariant
                i <= self.len(),
                self.len() == other.len(),
                forall|k: int| 0 <= k < i ==> self@[k].deep_view() == other@[k].deep_view(),
            decreases self.len() - i,
        {
            if self[i] != other[i] {
                assert(self.deep_view()[i as int] != other.deep_view()[i as int]);
                return false;
            }
            i += 1;
        }
        assert(self.deep_view() =~= other.deep_view());
        true
    }
}

impl Scalar for Vec<IssueTemplateFile> {
    fn same(&self, other: &Self) -> (r: bool) {
        if self.len() != other.len() {
            assert(self.deep_view().len() != other.deep_view().len());
            return false;
        }
        let mut i: usize = 0;
        while i < self.len()
            invariant
                i <= self.len(),
                self.len() == other.len(),
                forall|k: int| 0 <= k < i ==> self@[k].deep_view() == other@[k].deep_view(),
            decreases self.len() - i,
        {
            if self[i] != other[i] {
                assert(self.deep_view()[i as int] != other.deep_view()[i as int]);
                return false;
            }
            i += 1;
        }
        assert(self.deep_view() =~= other.deep_view());
        true
    }
}

fn find_group<T: Scalar>(groups: &Vec<Group<T>>, value: &T) -> (r: Option<usize>)
    ensures
        match r {
            Some(i) => i < groups.len() && group_of(groups.deep_view(), value.deep_view()) == Some(
                i as int,
            ),
            None => group_of(groups.deep_view(), value.deep_view()) is None,
        },
{
    let ghost all = groups.deep_view();
    let ghost v = value.deep_view();
    let mut i: usize = 0;
    assert(all.skip(0) =~= all);
    while i < groups.len()
        invariant
            i <= groups.len(),
            all == groups.deep_view(),
            v == value.deep_view(),
            group_of(all, v) == match group_of(all.skip(i as int), v) {
                Some(k) => Some(k + i),
                None => None,
            },
        decreases groups.len() - i,
    {
        assert(all.skip(i as int)[0] == all[i as int]);
        assert(all[i as int] == groups[i as int].deep_view());
        if groups[i].1.same(value) {
            return Some(i);
        }
        assert(all.skip(i as int).drop_first() =~= all.skip(i + 1));
        i += 1;
    }
    None
}

/// Groups repositories by what is left of them: the repositories with the
/// same payload form one group, and the groups stand in the order in which
/// their payloads were first seen.
pub fn group_signatures<T: Scalar>(items: Vec<(String, T)>) -> (r: Vec<Group<T>>)
    ensures
        r.deep_view() == grouped(items.deep_view()),
{
    let ghost all = items.deep_view();
    let ghost total = items.len();
    // The items are moved, not copied: they are turned round first, so that
    // they can be taken from the back in their order.
    let mut rest = items;
    let mut reversed: Vec<(String, T)> = Vec::new();
    while rest.len() > 0
        invariant
            rest.len() + reversed.len() == total,
            total == all.len(),
            rest.deep_view() == all.take(rest.len() as int),
            forall|k: int|
                0 <= k < reversed.len() ==> (#[trigger] reversed.deep_view()[k]) == all[total - 1
                    - k],
        decreases rest.len(),
    {
        let ghost before = rest.deep_view();
        let ghost done = reversed.deep_view();
        let item = rest.pop().unwrap();
        assert(item.deep_view() == before[before.len() - 1]);
        assert(rest.deep_view() =~= all.take(rest.len() as int));
        reversed.push(item);
        assert(reversed.deep_view() =~= done.push(before[before.len() - 1]));
    }
    let mut groups: Vec<Group<T>> = Vec::new();
    assert(groups.deep_view() =~= grouped(all.take(0)));
    while reversed.len() > 0
        invariant
            reversed.len() <= total,
            total == all.len(),
            forall|k: int|
                0 <= k < reversed.len() ==> (#[trigger] reversed.deep_view()[k]) == all[total - 1
                    - k],
            groups.deep_view() == grouped(all.take(total - reversed.len())),
        decreases reversed.len(),
    {
        let ghost n = total - reversed.len();
        let ghost before = groups.deep_view();
        let ghost pending = reversed.deep_view();
        let (repo, value) = reversed.pop().unwrap();
        proof {
            assert(pending[pending.len() - 1] == all[n as int]);
            assert((repo@, value.deep_view()) == all[n as int]);
            assert(all.take(n + 1).drop_last() =~= all.take(n as int));
            assert(all.take(n + 1).last() == all[n as int]);
            assert(reversed.deep_view() =~= pending.take(pending.len() - 1));
        }
        match find_group(&groups, &value) {
            Some(i) => {
                let ghost names = groups[i as int].0.deep_view();
                let mut members = texts_clone(&groups[i].0);
                members.push(repo);
                assert(members.deep_view() =~= names.push(all[n as int].0));
                let ghost payload = groups[i as int].1.deep_view();
                assert(before[i as int] == groups[i as int].deep_view());
                groups[i].0 = members;
                assert(groups.deep_view() =~= before.update(
                    i as int,
                    (names.push(all[n as int].0), payload),
                ));
            },
            None => {
                let mut members: Vec<String> = Vec::new();
                members.push(repo);
                assert(members.deep_view() =~= seq![all[n as int].0]);
                groups.push((members, value));
                assert(groups.deep_view() =~= before.push((seq![all[n as int].0], all[n as int].1)));
            },
        }
    }
    assert(all.take(total as int) =~= all);
    groups
}

/// The name `name` with `k` times `-dup` behind it.
pub open spec fn with_dups(name: Seq<char>, k: nat) -> Seq<char>
    decreases k,
{
    if k == 0 {
        name
    } else {
        with_dups(name, (k - 1) as nat) + "-dup"@
    }
}

/// The name of a component set before it is made unique: the prefix, and
/// the names of its repositories in their order, joined by `+`.
pub open spec fn component_name(prefix: Seq<char>, repos: Seq<Seq<char>>) -> Seq<char> {
    prefix + "-"@ + joined(sorted_seq::<String>(repos), "+"@)
}

/// The length of the longest of `names`.
pub open spec fn longest(names: Seq<Seq<char>>) -> nat
    decreases names.len(),
{
    if names.len() == 0 {
        0
    } else if names.last().len() > longest(names.drop_last()) {
        names.last().len()
    } else {
        longest(names.drop_last())
    }
}

proof fn lemma_longest(names: Seq<Seq<char>>, name: Seq<char>)
    requires
        names.contains(name),
    ensures
        name.len() <= longest(names),
    decreases names.len(),
{
    let k = choose|k: int| 0 <= k < names.len() && names[k] == name;
    if k < names.len() - 1 {
        assert(names.drop_last()[k] == name);
        lemma_longest(names.drop_last(), name);
    }
}

fn is_used(used: &Vec<String>, name: &String) -> (r: bool)
    ensures
        r == used.deep_view().contains(name@),
{
    let mut i: usize = 0;
    while i < used.len()
        invariant
            i <= used.len(),
            forall|k: int| 0 <= k < i ==> used.deep_view()[k] != name@,
        decreases used.len() - i,
    {
        if used[i] == *name {
            assert(used.deep_view()[i as int] == name@);
            return true;
        }
        i += 1;
    }
    false
}

/// Names the component set of the repositories `repos` and notes the name
/// as used. The name is the prefix and the repositories' names in their
/// order, with `-dup` added as often as it takes to differ from every
/// name used so far.
pub fn name_component_set(prefix: &str, repos: &Vec<String>, used: &mut Vec<String>) -> (r: String)
    ensures
        exists|k: nat|
            {
                &&& r@ == #[trigger] with_dups(component_name(prefix@, repos.deep_view()), k)
                &&& forall|j: nat|
                    j < k ==> old(used).deep_view().contains(
                        #[trigger] with_dups(component_name(prefix@, repos.deep_view()), j),
                    )
            },
        !old(used).deep_view().contains(r@),
        final(used).deep_view() == old(used).deep_view().push(r@),
{
    let sorted = sort_by_key(texts_clone(repos));
    let mut name = owned(prefix);
    name.append("-");
    name.append(join(&sorted, "+").as_str());
    let ghost base = component_name(prefix@, repos.deep_view());
    assert(name@ =~= base);
    let ghost taken = used.deep_view();
    let ghost k: nat = 0;
    while is_used(used, &name)
        invariant
            taken == used.deep_view(),
            taken == old(used).deep_view(),
            name@ == with_dups(base, k),
            forall|j: nat| j < k ==> taken.contains(#[trigger] with_dups(base, j)),
        decreases longest(taken) + 4 - name@.len(),
    {
        proof {
            lemma_longest(taken, name@);
            reveal_strlit("-dup");
            k = k + 1;
        }
        name.append("-dup");
    }
    used.push(name.clone());
    assert(used.deep_view() =~= taken.push(name@));
    name
}

/// The sets assigned to repositories: for each repository that has any,
/// its name and its sets in the order in which they were assigned.
pub type SetMapping = Vec<(String, Vec<String>)>;

/// The position of the repository `repo` in a mapping.
pub open spec fn mapped_at(mapping: Seq<(Seq<char>, Seq<Seq<char>>)>, repo: Seq<char>) -> Option<
    int,
>
    decreases mapping.len(),
{
    if mapping.len() == 0 {
        None
    } else if mapping[0].0 == repo {
        Some(0)
    } else {
        match mapped_at(mapping.drop_first(), repo) {
            Some(i) => Some(i + 1),
            None => None,
        }
    }
}

/// The sets assigned to the repository `repo`: none where it is not in
/// the mapping.
pub open spec fn sets_of(mapping: Seq<(Seq<char>, Seq<Seq<char>>)>, repo: Seq<char>) -> Seq<
    Seq<char>,
> {
    match mapped_at(mapping, repo) {
        Some(i) => mapping[i].1,
        None => Seq::empty(),
    }
}

/// A mapping with one more set for the repository `repo`.
pub open spec fn assigned(
    mapping: Seq<(Seq<char>, Seq<Seq<char>>)>,
    repo: Seq<char>,
    set: Seq<char>,
) -> Seq<(Seq<char>, Seq<Seq<char>>)> {
    match mapped_at(mapping, repo) {
        Some(i) => mapping.update(i, (repo, mapping[i].1.push(set))),
        None => mapping.push((repo, seq![set])),
    }
}

fn find_mapped(mapping: &SetMapping, repo: &String) -> (r: Option<usize>)
    ensures
        match r {
            Some(i) => i < mapping.len() && mapped_at(mapping.deep_view(), repo@) == Some(i as int)
                && mapping.deep_view()[i as int].0 == repo@,
            None => mapped_at(mapping.deep_view(), repo@) is None,
        },
{
    let ghost all = mapping.deep_view();
    let mut i: usize = 0;
    assert(all.skip(0) =~= all);
    while i < mapping.len()
        invariant
            i <= mapping.len(),
            all == mapping.deep_view(),
            mapped_at(all, repo@) == match mapped_at(all.skip(i as int), repo@) {
                Some(k) => Some(k + i),
                None => None,
            },
        decreases mapping.len() - i,
    {
        assert(all.skip(i as int)[0] == all[i as int]);
        assert(all[i as int] == mapping[i as int].deep_view());
        if mapping[i].0 == *repo {
            return Some(i);
        }
        assert(all.skip(i as int).drop_first() =~= all.skip(i + 1));
        i += 1;
    }
    None
}

/// Assigns the set `set` to the repository `repo`.
pub fn assign_set(mapping: &mut SetMapping, repo: &String, set: &String)
    ensures
        final(mapping).deep_view() == assigned(old(mapping).deep_view(), repo@, set@),
{
    let ghost before = mapping.deep_view();
    match find_mapped(mapping, repo) {
        Some(i) => {
            assert(before[i as int] == mapping[i as int].deep_view());
            let ghost sets = mapping[i as int].1.deep_view();
            let mut next = texts_clone(&mapping[i].1);
            next.push(set.clone());
            assert(next.deep_view() =~= sets.push(set@));
            mapping[i].1 = next;
            assert(mapping.deep_view() =~= before.update(i as int, (repo@, sets.push(set@))));
        },
        None => {
            let mut sets: Vec<String> = Vec::new();
            sets.push(set.clone());
            assert(sets.deep_view() =~= seq![set@]);
            mapping.push((repo.clone(), sets));
            assert(mapping.deep_view() =~= before.push((repo@, seq![set@])));
        },
    }
}

/// The entry of a repository in the generated root configuration: `core`
/// first where there is a core set, then its component sets in the order
/// of their names.
pub open spec fn generated_entry(
    mapping: Seq<(Seq<char>, Seq<Seq<char>>)>,
    repo: Seq<char>,
    with_core: bool,
) -> RepoConfigView {
    let sets = sorted_seq::<String>(sets_of(mapping, repo));
    RepoConfigView {
        name: repo,
        sets: if with_core {
            seq!["core"@] + sets
        } else {
            sets
        },
    }
}

/// The entry of the repository `repo` in the generated root
/// configuration.
pub fn repo_entry(mapping: &SetMapping, repo: &String, with_core: bool) -> (r: RepoConfig)
    ensures
        r.deep_view() == generated_entry(mapping.deep_view(), repo@, with_core),
{
    let own = match find_mapped(mapping, repo) {
        Some(i) => {
            assert(mapping.deep_view()[i as int] == mapping[i as int].deep_view());
            texts_clone(&mapping[i].1)
        },
        None => {
            let none: Vec<String> = Vec::new();
            assert(none.deep_view() =~= Seq::<Seq<char>>::empty());
            none
        },
    };
    let mut sets = sort_by_key(own);
    if with_core {
        let ghost before = sets.deep_view();
        sets.insert(0, owned("core"));
        assert(sets.deep_view() =~= seq!["core"@] + before);
    }
    RepoConfig { name: repo.clone(), sets }
}

} // verus!
