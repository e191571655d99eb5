//! The plan of one repository: its merged configuration held against what
//! was observed of the repository, dimension by dimension.

use vstd::prelude::*;
use crate::diff::diff_labels;
use crate::diff::diff_repo_settings;
use crate::diff::find_label;
use crate::diff::in_sync;
use crate::diff::is_desired;
use crate::diff::labels_to_add;
use crate::diff::labels_to_remove;
use crate::diff::labels_to_update;
use crate::diff::lemma_labels_in_sync;
use crate::diff::settings_changes;
use crate::diff::RemoteLabel;
use crate::diff::RemoteLabelView;
use crate::gate::blocked_removals;
use crate::gate::gate_removals;
use crate::gate::pair_usage;
use crate::gate::paired;
use crate::gate::LabelUsageEntry;
use crate::gate::lemma_gate_parts;
use crate::gate::removable_labels;
use crate::gate::LabelUsageEntryView;
use crate::merge::MergedRepoConfig;
use crate::merge::MergedRepoConfigView;
use crate::protection::plan_branch_protection;
use crate::protection::protection_change;
use crate::protection::protection_changes;
use crate::protection::BranchProtectionChangeView;
use crate::reconcile::delete_label_write;
use crate::reconcile::is_settled;
use crate::reconcile::label_writes;
use crate::reconcile::lemma_settled_plan_writes_nothing;
use crate::reconcile::pr_body_text;
use crate::reconcile::writes_of;
use crate::reconcile::PullRequestInfoView;
use crate::reconcile::RepoPlan;
use crate::reconcile::RepoPlanView;
use crate::reconcile::WriteView;
use crate::sets::IssueTemplateFileView;
use crate::sets::LabelSpecView;
use crate::settings::BranchProtectionRule;
use crate::settings::BranchProtectionRuleView;
use crate::settings::RepoSettings;
use crate::staging::files_to_add;
use crate::staging::files_to_remove;
use crate::staging::files_to_update;
use crate::staging::lemma_files_in_sync;
use crate::staging::stage_files;
use crate::staging::stage_removals;
use crate::staging::ObservedFile;
use crate::staging::ObservedPath;
use crate::staging::RepoFileView;

verus! {

/// What was read of one repository to plan its reconciliation.
#[derive(Debug)]
pub struct Observations {
    /// The settings that the repository has.
    pub settings: RepoSettings,
    /// Each desired rule with the rule observed for its pattern.
    pub protection: Vec<(BranchProtectionRule, Option<BranchProtectionRule>)>,
    /// Each desired file with what the comparison branch holds at its path.
    pub files: Vec<ObservedFile>,
    /// Each stale path of the comparison branch with the file read from it.
    pub stale: Vec<ObservedPath>,
    /// The labels that the repository has.
    pub labels: Vec<RemoteLabel>,
    /// What the scan of its usage said of each label of the repository
    /// that is not desired, in the order of the labels' names.
    pub usage: Vec<Option<Vec<LabelUsageEntry>>>,
}

/// The value of an `Observations`.
pub ghost struct ObservationsView {
    pub settings: RepoSettings,
    pub protection: Seq<(BranchProtectionRuleView, Option<BranchProtectionRuleView>)>,
    pub files: Seq<(IssueTemplateFileView, Option<RepoFileView>)>,
    pub stale: Seq<(Seq<char>, Option<RepoFileView>)>,
    pub labels: Seq<RemoteLabelView>,
    pub usage: Seq<Option<Seq<LabelUsageEntryView>>>,
}

impl DeepView for Observations {
    type V = ObservationsView;

    open spec fn deep_view(&self) -> ObservationsView {
        ObservationsView {
            settings: self.settings,
            protection: self.protection.deep_view(),
            files: self.files.deep_view(),
            stale: self.stale.deep_view(),
            labels: self.labels.deep_view(),
            usage: self.usage.deep_view(),
        }
    }
}

/// The labels to remove, each with what the scan of its usage said.
pub open spec fn scanned(config: MergedRepoConfigView, seen: ObservationsView) -> Seq<
    (LabelSpecView, Option<Seq<LabelUsageEntryView>>),
> {
    paired(labels_to_remove(config.labels, seen.labels), seen.usage)
}

/// The plan that a merged configuration and the observations of its
/// repository come to: the settings that differ, where settings are
/// desired; the rules to write; the files to add, update and remove; the
/// labels to create and update; and the removals, parted into those that
/// are withheld and those that go ahead.
pub open spec fn plan_of(config: MergedRepoConfigView, seen: ObservationsView) -> RepoPlanView {
    RepoPlanView {
        settings_diff: match config.repo_settings {
            Some(desired) => Some(settings_changes(desired, seen.settings)),
            None => None,
        },
        desired_settings: config.repo_settings,
        bp_changes: protection_changes(seen.protection),
        templates_add: files_to_add(seen.files),
        templates_update: files_to_update(seen.files),
        templates_remove: files_to_remove(seen.stale),
        labels_add: labels_to_add(config.labels, seen.labels),
        labels_update: labels_to_update(config.labels, seen.labels),
        blocked_removals: blocked_removals(scanned(config, seen)),
        removable: removable_labels(scanned(config, seen)),
    }
}

/// Plans the reconciliation of one repository.
pub fn plan_repo(config: &MergedRepoConfig, seen: &Observations) -> (r: RepoPlan)
    ensures
        r.deep_view() == plan_of(config.deep_view(), seen.deep_view()),
{
    let settings_diff = match &config.repo_settings {
        Some(desired) => Some(diff_repo_settings(desired, &seen.settings)),
        None => None,
    };
    let bp_changes = plan_branch_protection(&seen.protection);
    let (templates_add, templates_update) = stage_files(&seen.files);
    let templates_remove = stage_removals(&seen.stale);
    let labels = diff_labels(config.labels.as_slice(), seen.labels.as_slice());
    let (blocked, removable) = gate_removals(&pair_usage(&labels.to_remove, &seen.usage));
    RepoPlan {
        settings_diff,
        desired_settings: config.repo_settings,
        bp_changes,
        templates_add,
        templates_update,
        templates_remove,
        labels_add: labels.to_add,
        labels_update: labels.to_update,
        blocked_removals: blocked,
        removable,
    }
}

/// A repository that is as desired: its settings give no entry, it has
/// every desired rule in effect, its comparison branch holds every desired
/// file unchanged and no stale file, and its labels are in sync.
pub open spec fn as_desired(config: MergedRepoConfigView, seen: ObservationsView) -> bool {
    &&& config.repo_settings matches Some(desired) ==> settings_changes(
        desired,
        seen.settings,
    ).len() == 0
    &&& forall|i: int|
        0 <= i < seen.protection.len() ==> protection_change(
            (#[trigger] seen.protection[i]).0,
            seen.protection[i].1,
        ) is None
    &&& forall|i: int|
        0 <= i < seen.files.len() ==> ((#[trigger] seen.files[i]).1 matches Some(f) && f.content
            == seen.files[i].0.contents)
    &&& seen.stale.len() == 0
    &&& forall|i: int|
        0 <= i < config.labels.len() ==> ((#[trigger] find_label(
            seen.labels,
            config.labels[i].name,
        )) matches Some(have) && in_sync(config.labels[i], have))
    &&& forall|j: int|
        0 <= j < seen.labels.len() ==> is_desired(config.labels, (#[trigger] seen.labels[j]).name)
}

proof fn lemma_no_protection_change(
    observed: Seq<(BranchProtectionRuleView, Option<BranchProtectionRuleView>)>,
)
    requires
        forall|i: int|
            0 <= i < observed.len() ==> protection_change(
                (#[trigger] observed[i]).0,
                observed[i].1,
            ) is None,
    ensures
        protection_changes(observed) == Seq::<BranchProtectionChangeView>::empty(),
    decreases observed.len(),
{
    reveal(Seq::filter_map);
    if observed.len() > 0 {
        let rest = observed.drop_last();
        assert forall|i: int| 0 <= i < rest.len() implies protection_change(
            (#[trigger] rest[i]).0,
            rest[i].1,
        ) is None by {
            assert(rest[i] == observed[i]);
        }
        lemma_no_protection_change(rest);
        assert(observed.last() == observed[observed.len() - 1]);
    }
}

/// A repository that is as desired is left alone: its plan is settled, so
/// that an apply run makes no write, provided that the governance pull
/// request, if one is open, has the desired title and body.
///
/// This is what a second run finds when nothing changed since the first
/// one had its effect. It does not hold of settings that manage a merge
/// option: such an option is written on every run, because the repository
/// does not tell which option it has, and `as_desired` leaves such
/// settings out.
pub proof fn lemma_second_run_writes_nothing(
    config: MergedRepoConfigView,
    seen: ObservationsView,
    existing: Option<PullRequestInfoView>,
    base: Seq<char>,
    title: Seq<char>,
)
    requires
        as_desired(config, seen),
        existing matches Some(pr) ==> pr.title == Some(title) && pr.body == Some(pr_body_text()),
    ensures
        is_settled(plan_of(config, seen)),
        writes_of(plan_of(config, seen), existing, base, title) == Seq::<WriteView>::empty(),
{
    let plan = plan_of(config, seen);
    lemma_no_protection_change(seen.protection);
    lemma_files_in_sync(seen.files);
    assert(files_to_remove(seen.stale) =~= Seq::<(Seq<char>, Seq<char>)>::empty()) by {
        reveal(Seq::filter_map);
    }
    lemma_labels_in_sync(config.labels, seen.labels);
    assert(scanned(config, seen) =~= Seq::empty());
    assert(plan.removable =~= Seq::<LabelSpecView>::empty()) by {
        reveal(Seq::filter_map);
    }
    lemma_settled_plan_writes_nothing(plan, existing, base, title);
}

/// A label that is in use is never deleted: every label that the label
/// writes of a plan delete is a label of the repository that is not
/// desired, and the scan of its usage found nothing.
pub proof fn lemma_only_unused_labels_are_deleted(
    config: MergedRepoConfigView,
    seen: ObservationsView,
    name: Seq<char>,
)
    requires
        label_writes(plan_of(config, seen)).contains(WriteView::DeleteLabel(name)),
    ensures
        exists|i: int|
            0 <= i < seen.usage.len() && i < labels_to_remove(config.labels, seen.labels).len()
                && (#[trigger] labels_to_remove(config.labels, seen.labels)[i]).name == name
                && seen.usage[i] is None,
{
    let plan = plan_of(config, seen);
    let writes = label_writes(plan);
    let target = WriteView::DeleteLabel(name);
    let k = choose|k: int| 0 <= k < writes.len() && writes[k] == target;
    let created = plan.labels_add.len();
    let updated = plan.labels_update.len();
    if k < created {
        assert(writes[k] == WriteView::CreateLabel(plan.labels_add[k]));
    } else if k < created + updated {
        assert(writes[k] == WriteView::UpdateLabel(plan.labels_update[k - created]));
    } else {
        let l = plan.removable[k - created - updated];
        assert(writes[k] == delete_label_write()(l));
        assert(plan.removable.contains(l));
        let pairs = scanned(config, seen);
        lemma_gate_parts(pairs);
        assert(pairs.contains((l, None)));
        let i = choose|i: int|
            0 <= i < pairs.len() && pairs[i] == (l, None::<Seq<LabelUsageEntryView>>);
        assert(labels_to_remove(config.labels, seen.labels)[i].name == name);
    }
}

} // verus!
