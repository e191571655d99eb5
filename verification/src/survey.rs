//! What is to be read of a repository before its reconciliation can be
//! planned, in two rounds: what the second round reads depends on what the
//! first one found.

use vstd::prelude::*;
use crate::diff::diff_labels;
use crate::diff::labels_to_remove;
use crate::diff::RemoteLabel;
use crate::diff::RemoteLabelView;
use crate::gate::LabelUsageEntry;
use crate::gate::LabelUsageEntryView;
use crate::merge::MergedRepoConfig;
use crate::merge::MergedRepoConfigView;
use crate::plan::Observations;
use crate::plan::ObservationsView;
use crate::sets::IssueTemplateFile;
use crate::sets::IssueTemplateFileView;
use crate::sets::LabelSpecView;
use crate::settings::BranchProtectionRule;
use crate::settings::BranchProtectionRuleView;
use crate::settings::RepoSettings;
use crate::staging::stale_path_list;
use crate::staging::stale_paths;
use crate::staging::RepoFile;
use crate::staging::RepoFileView;
use crate::text::owned;

verus! {

/// The reads of the first round.
#[derive(Debug)]
pub struct FirstReads {
    /// Whether the settings of the repository are read: they are where
    /// settings are desired.
    pub settings: bool,
    /// The patterns whose branch protection is read: those of the desired
    /// rules, in their order.
    pub patterns: Vec<String>,
    /// The paths of the files to read: those of the desired files, in
    /// their order.
    pub paths: Vec<String>,
    /// The branch that the files are read from; `None` is the default
    /// branch.
    pub branch: Option<String>,
    /// Whether the files of the comparison branch are listed: they are
    /// where a governance branch exists, under `.github/`.
    pub tree: bool,
}

/// The value of a `FirstReads`.
pub ghost struct FirstReadsView {
    pub settings: bool,
    pub patterns: Seq<Seq<char>>,
    pub paths: Seq<Seq<char>>,
    pub branch: Option<Seq<char>>,
    pub tree: bool,
}

impl DeepView for FirstReads {
    type V = FirstReadsView;

    open spec fn deep_view(&self) -> FirstReadsView {
        FirstReadsView {
            settings: self.settings,
            patterns: self.patterns.deep_view(),
            paths: self.paths.deep_view(),
            branch: self.branch.deep_view(),
            tree: self.tree,
        }
    }
}

/// What the first round read.
#[derive(Debug)]
pub struct FirstAnswers {
    /// The settings of the repository, where they were read.
    pub settings: Option<RepoSettings>,
    /// For each pattern, the rule that the repository has for it.
    pub protection: Vec<Option<BranchProtectionRule>>,
    /// For each path, the file that the branch holds at it.
    pub files: Vec<Option<RepoFile>>,
    /// The paths of the files of the comparison branch, where they were
    /// listed and the listing succeeded.
    pub tree: Option<Vec<String>>,
    /// The labels of the repository.
    pub labels: Vec<RemoteLabel>,
}

/// The value of a `FirstAnswers`.
pub ghost struct FirstAnswersView {
    pub settings: Option<RepoSettings>,
    pub protection: Seq<Option<BranchProtectionRuleView>>,
    pub files: Seq<Option<RepoFileView>>,
    pub tree: Option<Seq<Seq<char>>>,
    pub labels: Seq<RemoteLabelView>,
}

impl DeepView for FirstAnswers {
    type V = FirstAnswersView;

    open spec fn deep_view(&self) -> FirstAnswersView {
        FirstAnswersView {
            settings: self.settings,
            protection: self.protection.deep_view(),
            files: self.files.deep_view(),
            tree: self.tree.deep_view(),
            labels: self.labels.deep_view(),
        }
    }
}

/// The reads of the second round.
#[derive(Debug)]
pub struct SecondReads {
    /// The stale paths of the comparison branch, whose files are read for
    /// their SHA.
    pub stale: Vec<String>,
    /// The names of the labels whose usage is scanned: the labels of the
    /// repository that are not desired, in the order of their names.
    pub scans: Vec<String>,
}

/// The value of a `SecondReads`.
pub ghost struct SecondReadsView {
    pub stale: Seq<Seq<char>>,
    pub scans: Seq<Seq<char>>,
}

impl DeepView for SecondReads {
    type V = SecondReadsView;

    open spec fn deep_view(&self) -> SecondReadsView {
        SecondReadsView { stale: self.stale.deep_view(), scans: self.scans.deep_view() }
    }
}

/// What the second round read.
#[derive(Debug)]
pub struct SecondAnswers {
    /// For each stale path, the file read from it.
    pub stale: Vec<Option<RepoFile>>,
    /// For each scanned label, what the scan said.
    pub usage: Vec<Option<Vec<LabelUsageEntry>>>,
}

/// The value of a `SecondAnswers`.
pub ghost struct SecondAnswersView {
    pub stale: Seq<Option<RepoFileView>>,
    pub usage: Seq<Option<Seq<LabelUsageEntryView>>>,
}

impl DeepView for SecondAnswers {
    type V = SecondAnswersView;

    open spec fn deep_view(&self) -> SecondAnswersView {
        SecondAnswersView { stale: self.stale.deep_view(), usage: self.usage.deep_view() }
    }
}

/// The desired rules of a configuration.
pub open spec fn rules_of(config: MergedRepoConfigView) -> Seq<BranchProtectionRuleView> {
    match config.branch_protection {
        Some(bp) => bp.rules,
        None => Seq::empty(),
    }
}

/// The reads of the first round, for a configuration, its desired files
/// and the governance branch, if there is one.
pub open spec fn first_round(
    config: MergedRepoConfigView,
    desired: Seq<IssueTemplateFileView>,
    compare: Option<Seq<char>>,
) -> FirstReadsView {
    FirstReadsView {
        settings: config.repo_settings is Some,
        patterns: rules_of(config).map_values(|r: BranchProtectionRuleView| r.pattern),
        paths: desired.map_values(|f: IssueTemplateFileView| f.path),
        branch: compare,
        tree: compare is Some,
    }
}

/// The paths that the comparison branch is known to hold: none where they
/// were not listed.
pub open spec fn listed_paths(first: FirstAnswersView) -> Seq<Seq<char>> {
    match first.tree {
        Some(paths) => paths,
        None => Seq::empty(),
    }
}

/// The reads of the second round, given what the first one found.
pub open spec fn second_round(
    config: MergedRepoConfigView,
    desired: Seq<IssueTemplateFileView>,
    first: FirstAnswersView,
) -> SecondReadsView {
    SecondReadsView {
        stale: stale_path_list(listed_paths(first), desired),
        scans: labels_to_remove(config.labels, first.labels).map_values(
            |l: LabelSpecView| l.name,
        ),
    }
}

/// The answers fit the reads: there is one answer for each read.
pub open spec fn answers_fit(
    config: MergedRepoConfigView,
    desired: Seq<IssueTemplateFileView>,
    first: FirstAnswersView,
    second: SecondAnswersView,
) -> bool {
    &&& first.protection.len() == rules_of(config).len()
    &&& first.files.len() == desired.len()
    &&& second.stale.len() == second_round(config, desired, first).stale.len()
    &&& second.usage.len() == second_round(config, desired, first).scans.len()
}

/// What the two rounds observed of the repository: each desired rule and
/// file with what was read for it, each stale path with its file, and the
/// scan of each label to remove.
pub open spec fn observed(
    config: MergedRepoConfigView,
    desired: Seq<IssueTemplateFileView>,
    first: FirstAnswersView,
    second: SecondAnswersView,
) -> ObservationsView {
    ObservationsView {
        settings: match first.settings {
            Some(s) => s,
            None => RepoSettings { pull_requests: None },
        },
        protection: Seq::new(rules_of(config).len(), |i: int| (rules_of(config)[i], first.protection[i])),
        files: Seq::new(desired.len(), |i: int| (desired[i], first.files[i])),
        stale: Seq::new(
            second.stale.len(),
            |i: int| (second_round(config, desired, first).stale[i], second.stale[i]),
        ),
        labels: first.labels,
        usage: second.usage,
    }
}

/// Lists what the first round reads.
pub fn first_reads(
    config: &MergedRepoConfig,
    desired: &Vec<IssueTemplateFile>,
    compare: Option<&str>,
) -> (r: FirstReads)
    ensures
        r.deep_view() == first_round(
            config.deep_view(),
            desired.deep_view(),
            match compare {
                Some(b) => Some(b@),
                None => None,
            },
        ),
{
    let mut patterns: Vec<String> = Vec::new();
    if let Some(bp) = &config.branch_protection {
        let mut i: usize = 0;
        while i < bp.rules.len()
            invariant
                i <= bp.rules.len(),
                patterns.len() == i,
                forall|k: int|
                    0 <= k < i ==> (#[trigger] patterns.deep_view()[k])
                        == bp.rules.deep_view()[k].pattern,
            decreases bp.rules.len() - i,
        {
            let ghost before = patterns.deep_view();
            patterns.push(bp.rules[i].pattern.clone());
            assert(patterns.deep_view() =~= before.push(bp.rules.deep_view()[i as int].pattern));
            i += 1;
        }
    }
    assert(patterns.deep_view() =~= rules_of(config.deep_view()).map_values(
        |r: BranchProtectionRuleView| r.pattern,
    ));
    let mut paths: Vec<String> = Vec::new();
    let mut j: usize = 0;
    while j < desired.len()
        invariant
            j <= desired.len(),
            paths.len() == j,
            forall|k: int|
                0 <= k < j ==> (#[trigger] paths.deep_view()[k]) == desired.deep_view()[k].path,
        decreases desired.len() - j,
    {
        let ghost before = paths.deep_view();
        paths.push(desired[j].path.clone());
        assert(paths.deep_view() =~= before.push(desired.deep_view()[j as int].path));
        j += 1;
    }
    assert(paths.deep_view() =~= desired.deep_view().map_values(
        |f: IssueTemplateFileView| f.path,
    ));
    FirstReads {
        settings: config.repo_settings.is_some(),
        patterns,
        paths,
        branch: match compare {
            Some(b) => Some(owned(b)),
            None => None,
        },
        tree: compare.is_some(),
    }
}

/// Lists what the second round reads, given what the first one found.
pub fn second_reads(
    config: &MergedRepoConfig,
    desired: &Vec<IssueTemplateFile>,
    first: &FirstAnswers,
) -> (r: SecondReads)
    ensures
        r.deep_view() == second_round(
            config.deep_view(),
            desired.deep_view(),
            first.deep_view(),
        ),
{
    let stale = match &first.tree {
        Some(paths) => stale_paths(paths, desired),
        None => {
            let none: Vec<String> = Vec::new();
            assert(none.deep_view() =~= Seq::<Seq<char>>::empty());
            stale_paths(&none, desired)
        },
    };
    let diff = diff_labels(config.labels.as_slice(), first.labels.as_slice());
    let mut scans: Vec<String> = Vec::new();
    let mut i: usize = 0;
    while i < diff.to_remove.len()
        invariant
            i <= diff.to_remove.len(),
            scans.len() == i,
            forall|k: int|
                0 <= k < i ==> (#[trigger] scans.deep_view()[k])
                    == diff.to_remove.deep_view()[k].name,
        decreases diff.to_remove.len() - i,
    {
        let ghost before = scans.deep_view();
        scans.push(diff.to_remove[i].name.clone());
        assert(scans.deep_view() =~= before.push(diff.to_remove.deep_view()[i as int].name));
        i += 1;
    }
    assert(scans.deep_view() =~= diff.to_remove.deep_view().map_values(
        |l: LabelSpecView| l.name,
    ));
    SecondReads { stale, scans }
}

fn file_clone(f: &Option<RepoFile>) -> (r: Option<RepoFile>)
    ensures
        r.deep_view() == f.deep_view(),
{
    match f {
        Some(x) => Some(x.clone()),
        None => None,
    }
}

/// Puts together what the two rounds read. There is no result where the
/// answers do not fit the reads one for one.
pub fn assemble(
    config: &MergedRepoConfig,
    desired: &Vec<IssueTemplateFile>,
    first: FirstAnswers,
    second: SecondAnswers,
) -> (r: Option<Observations>)
    ensures
        r.deep_view() == if answers_fit(
            config.deep_view(),
            desired.deep_view(),
            first.deep_view(),
            second.deep_view(),
        ) {
            Some(
                observed(
                    config.deep_view(),
                    desired.deep_view(),
                    first.deep_view(),
                    second.deep_view(),
                ),
            )
        } else {
            None
        },
{
    let ghost c = config.deep_view();
    let ghost d = desired.deep_view();
    let ghost a = first.deep_view();
    let ghost b = second.deep_view();
    let reads = second_reads(config, desired, &first);
    let rule_count = match &config.branch_protection {
        Some(bp) => bp.rules.len(),
        None => 0,
    };
    if first.protection.len() != rule_count || first.files.len() != desired.len()
        || second.stale.len() != reads.stale.len() || second.usage.len() != reads.scans.len() {
        return None;
    }
    let mut protection: Vec<(BranchProtectionRule, Option<BranchProtectionRule>)> = Vec::new();
    if let Some(bp) = &config.branch_protection {
        let mut i: usize = 0;
        while i < bp.rules.len()
            invariant
                i <= bp.rules.len(),
                protection.len() == i,
                first.protection.len() == bp.rules.len(),
                a == first.deep_view(),
                forall|k: int|
                    0 <= k < i ==> (#[trigger] protection.deep_view()[k]) == (
                        bp.rules.deep_view()[k],
                        a.protection[k],
                    ),
            decreases bp.rules.len() - i,
        {
            let ghost before = protection.deep_view();
            let current = match &first.protection[i] {
                Some(r) => Some(r.clone()),
                None => None,
            };
            assert(current.deep_view() == a.protection[i as int]);
            protection.push((bp.rules[i].clone(), current));
            assert(protection.deep_view() =~= before.push(
                (bp.rules.deep_view()[i as int], a.protection[i as int]),
            ));
            i += 1;
        }
    }
    let mut files: Vec<(IssueTemplateFile, Option<RepoFile>)> = Vec::new();
    let mut j: usize = 0;
    while j < desired.len()
        invariant
            j <= desired.len(),
            files.len() == j,
            first.files.len() == desired.len(),
            a == first.deep_view(),
            forall|k: int|
                0 <= k < j ==> (#[trigger] files.deep_view()[k]) == (
                    desired.deep_view()[k],
                    a.files[k],
                ),
        decreases desired.len() - j,
    {
        let ghost before = files.deep_view();
        let remote = file_clone(&first.files[j]);
        assert(remote.deep_view() == a.files[j as int]);
        files.push((desired[j].clone(), remote));
        assert(files.deep_view() =~= before.push((desired.deep_view()[j as int], a.files[j as int])));
        j += 1;
    }
    let mut stale: Vec<(String, Option<RepoFile>)> = Vec::new();
    let mut k: usize = 0;
    while k < reads.stale.len()
        invariant
            k <= reads.stale.len(),
            stale.len() == k,
            second.stale.len() == reads.stale.len(),
            b == second.deep_view(),
            forall|m: int|
                0 <= m < k ==> (#[trigger] stale.deep_view()[m]) == (
                    reads.stale.deep_view()[m],
                    b.stale[m],
                ),
        decreases reads.stale.len() - k,
    {
        let ghost before = stale.deep_view();
        let file = file_clone(&second.stale[k]);
        assert(file.deep_view() == b.stale[k as int]);
        stale.push((reads.stale[k].clone(), file));
        assert(stale.deep_view() =~= before.push((reads.stale.deep_view()[k as int], b.stale[k as int])));
        k += 1;
    }
    let settings = match first.settings {
        Some(s) => s,
        None => RepoSettings { pull_requests: None },
    };
    let seen = Observations {
        settings,
        protection,
        files,
        stale,
        labels: first.labels,
        usage: second.usage,
    };
    proof {
        let want = observed(c, d, a, b);
        assert(seen.deep_view().protection =~= want.protection);
        assert(seen.deep_view().files =~= want.files);
        assert(seen.deep_view().stale =~= want.stale);
    }
    Some(seen)
}

} // verus!
