//! The reconciliation of one repository: the governance branch and pull
//! request, and the ordered writes that bring the repository to its plan.

use vstd::prelude::*;
use crate::diff::RepoSettingsDiff;
use crate::diff::SettingChangeView;
use crate::gate::BlockedRemoval;
use crate::gate::LabelUsageEntryView;
use crate::protection::BranchProtectionChange;
use crate::protection::BranchProtectionChangeView;
use crate::sets::IssueTemplateFile;
use crate::sets::IssueTemplateFileView;
use crate::sets::LabelSpec;
use crate::sets::LabelSpecView;
use crate::settings::BranchProtectionRule;
use crate::settings::BranchProtectionRuleView;
use crate::settings::RepoSettings;
use crate::text::join2;
use crate::text::opt_text_eq;
use crate::text::owned;
use crate::text::starts_with;

verus! {

/// Whether a run only reports what it would do, or does it.
#[derive(Debug, Clone, Copy, PartialEq, Eq, Structural)]
pub enum Mode {
    Plan,
    Apply,
}

/// The prefix of the name of every governance branch.
pub open spec fn branch_prefix() -> Seq<char> {
    "gh-governor/updates-"@
}

/// The body of every governance pull request.
pub open spec fn pr_body_text() -> Seq<char> {
    "Automated .github updates via gh-governor"@
}

/// The prefix of the name of every governance branch.
pub fn pr_branch_prefix() -> (r: &'static str)
    ensures
        r@ == branch_prefix(),
{
    "gh-governor/updates-"
}

/// The name of the governance branch for a base branch.
pub open spec fn governance_branch_name(base: Seq<char>) -> Seq<char> {
    branch_prefix() + base
}

/// The name of the governance branch for the base branch `base`.
pub fn governance_branch(base: &str) -> (r: String)
    ensures
        r@ == governance_branch_name(base@),
{
    join2("gh-governor/updates-", base)
}

/// The title of the governance pull request opened or refreshed on a
/// day: it bears the date, so that it changes from day to day.
pub open spec fn pr_title_text(date: Seq<char>) -> Seq<char> {
    "gh-governor updates ("@ + date + ")"@
}

/// The title of the governance pull request for the day `date`.
pub fn pr_title(date: &str) -> (r: String)
    ensures
        r@ == pr_title_text(date@),
{
    let head = join2("gh-governor updates (", date);
    join2(head.as_str(), ")")
}

/// The body of every governance pull request.
pub fn pr_body() -> (r: &'static str)
    ensures
        r@ == pr_body_text(),
{
    "Automated .github updates via gh-governor"
}

/// A pull request as the repository lists it.
#[derive(Debug)]
pub struct PullRequestInfo {
    pub number: u64,
    pub open: bool,
    pub head_ref: String,
    pub base_ref: String,
    pub title: Option<String>,
    pub body: Option<String>,
    pub html_url: Option<String>,
}

/// The value of a `PullRequestInfo`.
pub ghost struct PullRequestInfoView {
    pub number: u64,
    pub open: bool,
    pub head_ref: Seq<char>,
    pub base_ref: Seq<char>,
    pub title: Option<Seq<char>>,
    pub body: Option<Seq<char>>,
    pub html_url: Option<Seq<char>>,
}

impl DeepView for PullRequestInfo {
    type V = PullRequestInfoView;

    open spec fn deep_view(&self) -> PullRequestInfoView {
        PullRequestInfoView {
            number: self.number,
            open: self.open,
            head_ref: self.head_ref@,
            base_ref: self.base_ref@,
            title: self.title.deep_view(),
            body: self.body.deep_view(),
            html_url: self.html_url.deep_view(),
        }
    }
}

/// An open pull request from a governance branch into the base branch.
pub open spec fn is_governance_pr(pr: PullRequestInfoView, prefix: Seq<char>, base: Seq<char>) -> bool {
    &&& pr.open
    &&& prefix.is_prefix_of(pr.head_ref)
    &&& pr.base_ref == base
}

/// The position of the first pull request among `prs` that is open, comes
/// from a branch whose name begins with `prefix`, and goes into `base`.
pub fn find_governance_pr(prs: &Vec<PullRequestInfo>, prefix: &str, base: &str) -> (r: Option<
    usize,
>)
    ensures
        match r {
            Some(i) => {
                &&& i < prs.len()
                &&& is_governance_pr(prs.deep_view()[i as int], prefix@, base@)
                &&& forall|k: int|
                    0 <= k < i ==> !is_governance_pr(prs.deep_view()[k], prefix@, base@)
            },
            None => forall|k: int|
                0 <= k < prs.len() ==> !is_governance_pr(prs.deep_view()[k], prefix@, base@),
        },
{
    let base_name = owned(base);
    let mut i: usize = 0;
    while i < prs.len()
        invariant
            i <= prs.len(),
            base_name@ == base@,
            forall|k: int| 0 <= k < i ==> !is_governance_pr(prs.deep_view()[k], prefix@, base@),
        decreases prs.len() - i,
    {
        let pr = &prs[i];
        if pr.open && starts_with(pr.head_ref.as_str(), prefix) && pr.base_ref == base_name {
            return Some(i);
        }
        i += 1;
    }
    None
}

/// The branch that the desired files are compared with: the head of the
/// open governance pull request, where there is one. Without one the files
/// are compared with the base branch, which `None` stands for.
pub fn comparison_branch(existing: Option<&PullRequestInfo>) -> (r: Option<String>)
    ensures
        r.deep_view() == match existing.deep_view() {
            Some(pr) => Some(pr.head_ref),
            None => None,
        },
{
    match existing {
        Some(pr) => Some(pr.head_ref.clone()),
        None => None,
    }
}

/// What reconciling one repository comes to.
#[derive(Debug)]
pub struct RepoPlan {
    /// The settings that differ; `None` where no settings are desired.
    pub settings_diff: Option<RepoSettingsDiff>,
    /// The desired settings, written whole when any of them differs.
    pub desired_settings: Option<RepoSettings>,
    pub bp_changes: Vec<BranchProtectionChange>,
    pub templates_add: Vec<IssueTemplateFile>,
    pub templates_update: Vec<(IssueTemplateFile, String)>,
    pub templates_remove: Vec<(String, String)>,
    pub labels_add: Vec<LabelSpec>,
    pub labels_update: Vec<LabelSpec>,
    pub blocked_removals: Vec<BlockedRemoval>,
    pub removable: Vec<LabelSpec>,
}

/// The value of a `RepoPlan`.
pub ghost struct RepoPlanView {
    pub settings_diff: Option<Seq<SettingChangeView>>,
    pub desired_settings: Option<RepoSettings>,
    pub bp_changes: Seq<BranchProtectionChangeView>,
    pub templates_add: Seq<IssueTemplateFileView>,
    pub templates_update: Seq<(IssueTemplateFileView, Seq<char>)>,
    pub templates_remove: Seq<(Seq<char>, Seq<char>)>,
    pub labels_add: Seq<LabelSpecView>,
    pub labels_update: Seq<LabelSpecView>,
    pub blocked_removals: Seq<(LabelSpecView, Seq<LabelUsageEntryView>)>,
    pub removable: Seq<LabelSpecView>,
}

impl DeepView for RepoPlan {
    type V = RepoPlanView;

    open spec fn deep_view(&self) -> RepoPlanView {
        RepoPlanView {
            settings_diff: match self.settings_diff {
                Some(d) => Some(d.changes.deep_view()),
                None => None,
            },
            desired_settings: self.desired_settings,
            bp_changes: self.bp_changes.deep_view(),
            templates_add: self.templates_add.deep_view(),
            templates_update: self.templates_update.deep_view(),
            templates_remove: self.templates_remove.deep_view(),
            labels_add: self.labels_add.deep_view(),
            labels_update: self.labels_update.deep_view(),
            blocked_removals: self.blocked_removals.deep_view(),
            removable: self.removable.deep_view(),
        }
    }
}

/// One write to the repository.
#[derive(Debug)]
#[allow(inconsistent_fields)]
pub enum Write {
    UpdateRepoSettings(RepoSettings),
    SetBranchProtection(BranchProtectionRule),
    /// Create the branch `name` at the head of the branch `from`.
    CreateBranch { name: String, from: String },
    PutFile { path: String, content: String, sha: Option<String>, message: String, branch: String },
    DeleteFile { path: String, sha: String, message: String, branch: String },
    CreateLabel(LabelSpec),
    UpdateLabel(LabelSpec),
    DeleteLabel(String),
    UpdatePullRequest { number: u64, title: String, body: Option<String> },
    CreatePullRequest { title: String, head: String, base: String, body: Option<String>, draft: bool },
}

/// The value of a `Write`.
#[allow(inconsistent_fields)]
pub ghost enum WriteView {
    UpdateRepoSettings(RepoSettings),
    SetBranchProtection(BranchProtectionRuleView),
    CreateBranch { name: Seq<char>, from: Seq<char> },
    PutFile {
        path: Seq<char>,
        content: Seq<char>,
        sha: Option<Seq<char>>,
        message: Seq<char>,
        branch: Seq<char>,
    },
    DeleteFile { path: Seq<char>, sha: Seq<char>, message: Seq<char>, branch: Seq<char> },
    CreateLabel(LabelSpecView),
    UpdateLabel(LabelSpecView),
    DeleteLabel(Seq<char>),
    UpdatePullRequest { number: u64, title: Seq<char>, body: Option<Seq<char>> },
    CreatePullRequest {
        title: Seq<char>,
        head: Seq<char>,
        base: Seq<char>,
        body: Option<Seq<char>>,
        draft: bool,
    },
}

impl DeepView for Write {
    type V = WriteView;

    open spec fn deep_view(&self) -> WriteView {
        match self {
            Write::UpdateRepoSettings(s) => WriteView::UpdateRepoSettings(*s),
            Write::SetBranchProtection(r) => WriteView::SetBranchProtection(r.deep_view()),
            Write::CreateBranch { name, from } => WriteView::CreateBranch {
                name: name@,
                from: from@,
            },
            Write::PutFile { path, content, sha, message, branch } => WriteView::PutFile {
                path: path@,
                content: content@,
                sha: sha.deep_view(),
                message: message@,
                branch: branch@,
            },
            Write::DeleteFile { path, sha, message, branch } => WriteView::DeleteFile {
                path: path@,
                sha: sha@,
                message: message@,
                branch: branch@,
            },
            Write::CreateLabel(l) => WriteView::CreateLabel(l.deep_view()),
            Write::UpdateLabel(l) => WriteView::UpdateLabel(l.deep_view()),
            Write::DeleteLabel(n) => WriteView::DeleteLabel(n@),
            Write::UpdatePullRequest { number, title, body } => WriteView::UpdatePullRequest {
                number: *number,
                title: title@,
                body: body.deep_view(),
            },
            Write::CreatePullRequest { title, head, base, body, draft } => WriteView::CreatePullRequest {
                title: title@,
                head: head@,
                base: base@,
                body: body.deep_view(),
                draft: *draft,
            },
        }
    }
}

/// The commit message of a file write: what is done, to which file.
pub open spec fn commit_message(verb: Seq<char>, path: Seq<char>) -> Seq<char> {
    verb + " .github file "@ + path + " via gh-governor"@
}

/// Files are added or updated. Removals alone open no branch: they are
/// found only on a governance branch that exists.
pub open spec fn brings_files(plan: RepoPlanView) -> bool {
    plan.templates_add.len() > 0 || plan.templates_update.len() > 0
}

/// The branch that the files are written to: the head of the open
/// governance pull request where there is one, else the governance branch
/// of the base branch where files are added or updated, else none.
pub open spec fn staging_branch(
    plan: RepoPlanView,
    existing: Option<PullRequestInfoView>,
    base: Seq<char>,
) -> Option<Seq<char>> {
    match existing {
        Some(pr) => Some(pr.head_ref),
        None => if brings_files(plan) {
            Some(governance_branch_name(base))
        } else {
            None
        },
    }
}

/// The settings are written whole when any managed setting differs.
pub open spec fn settings_writes(plan: RepoPlanView) -> Seq<WriteView> {
    match (plan.settings_diff, plan.desired_settings) {
        (Some(changes), Some(desired)) => if changes.len() > 0 {
            seq![WriteView::UpdateRepoSettings(desired)]
        } else {
            Seq::empty()
        },
        _ => Seq::empty(),
    }
}

pub open spec fn protection_write() -> spec_fn(BranchProtectionChangeView) -> WriteView {
    |c: BranchProtectionChangeView| WriteView::SetBranchProtection(c.target)
}

/// One write per rule that differs, in the order of the rules.
pub open spec fn protection_writes(plan: RepoPlanView) -> Seq<WriteView> {
    plan.bp_changes.map_values(protection_write())
}

/// The governance branch is created where files are to be written and no
/// governance pull request is open.
pub open spec fn branch_writes(
    plan: RepoPlanView,
    existing: Option<PullRequestInfoView>,
    base: Seq<char>,
) -> Seq<WriteView> {
    if existing is None && brings_files(plan) {
        seq![WriteView::CreateBranch { name: governance_branch_name(base), from: base }]
    } else {
        Seq::empty()
    }
}

pub open spec fn add_write(branch: Seq<char>) -> spec_fn(IssueTemplateFileView) -> WriteView {
    |f: IssueTemplateFileView|
        WriteView::PutFile {
            path: f.path,
            content: f.contents,
            sha: None,
            message: commit_message("Add"@, f.path),
            branch,
        }
}

pub open spec fn update_write(branch: Seq<char>) -> spec_fn(
    (IssueTemplateFileView, Seq<char>),
) -> WriteView {
    |u: (IssueTemplateFileView, Seq<char>)|
        WriteView::PutFile {
            path: u.0.path,
            content: u.0.contents,
            sha: Some(u.1),
            message: commit_message("Update"@, u.0.path),
            branch,
        }
}

pub open spec fn remove_write(branch: Seq<char>) -> spec_fn((Seq<char>, Seq<char>)) -> WriteView {
    |d: (Seq<char>, Seq<char>)|
        WriteView::DeleteFile {
            path: d.0,
            sha: d.1,
            message: commit_message("Remove"@, d.0),
            branch,
        }
}

/// The file writes on the staging branch: additions, then updates, then
/// removals. Without a staging branch no file is written.
pub open spec fn file_writes(plan: RepoPlanView, branch: Option<Seq<char>>) -> Seq<WriteView> {
    match branch {
        Some(b) => plan.templates_add.map_values(add_write(b)) + plan.templates_update.map_values(
            update_write(b),
        ) + plan.templates_remove.map_values(remove_write(b)),
        None => Seq::empty(),
    }
}

pub open spec fn create_label_write() -> spec_fn(LabelSpecView) -> WriteView {
    |l: LabelSpecView| WriteView::CreateLabel(l)
}

pub open spec fn update_label_write() -> spec_fn(LabelSpecView) -> WriteView {
    |l: LabelSpecView| WriteView::UpdateLabel(l)
}

pub open spec fn delete_label_write() -> spec_fn(LabelSpecView) -> WriteView {
    |l: LabelSpecView| WriteView::DeleteLabel(l.name)
}

/// The label writes: creations, then updates, then the deletions that are
/// not withheld.
pub open spec fn label_writes(plan: RepoPlanView) -> Seq<WriteView> {
    plan.labels_add.map_values(create_label_write()) + plan.labels_update.map_values(
        update_label_write(),
    ) + plan.removable.map_values(delete_label_write())
}

/// The pull-request write. An open governance pull request is kept, and
/// its title and body are rewritten only where they differ from the
/// desired text. Without one, a draft pull request is opened from the
/// staging branch into the base branch where files were added or updated.
pub open spec fn pr_writes(
    plan: RepoPlanView,
    existing: Option<PullRequestInfoView>,
    base: Seq<char>,
    title: Seq<char>,
) -> Seq<WriteView> {
    match existing {
        Some(pr) => if pr.title != Some(title) || pr.body != Some(pr_body_text()) {
            seq![
                WriteView::UpdatePullRequest {
                    number: pr.number,
                    title,
                    body: Some(pr_body_text()),
                },
            ]
        } else {
            Seq::empty()
        },
        None => if brings_files(plan) {
            seq![
                WriteView::CreatePullRequest {
                    title,
                    head: governance_branch_name(base),
                    base,
                    body: Some(pr_body_text()),
                    draft: true,
                },
            ]
        } else {
            Seq::empty()
        },
    }
}

/// The writes of an apply run, in the order in which they are made:
/// settings, branch protection, the governance branch, files, labels, and
/// the pull request.
pub open spec fn writes_of(
    plan: RepoPlanView,
    existing: Option<PullRequestInfoView>,
    base: Seq<char>,
    title: Seq<char>,
) -> Seq<WriteView> {
    settings_writes(plan) + protection_writes(plan) + branch_writes(plan, existing, base)
        + file_writes(plan, staging_branch(plan, existing, base)) + label_writes(plan) + pr_writes(
        plan,
        existing,
        base,
        title,
    )
}

/// Whether a plan adds or updates files.
pub fn plan_brings_files(plan: &RepoPlan) -> (r: bool)
    ensures
        r == brings_files(plan.deep_view()),
{
    plan.templates_add.len() > 0 || plan.templates_update.len() > 0
}

/// Whether an apply run looks for the governance pull request once more
/// before it writes: it does where files are to be written or a pull
/// request was found when the run was planned.
pub fn looks_up_pull_request(plan: &RepoPlan, planned_with: Option<&PullRequestInfo>) -> (r: bool)
    ensures
        r == (brings_files(plan.deep_view()) || planned_with is Some),
{
    plan_brings_files(plan) || planned_with.is_some()
}

/// The branch that an apply run writes its files to.
pub fn staging_branch_of(plan: &RepoPlan, existing: Option<&PullRequestInfo>, base: &str) -> (r:
    Option<String>)
    ensures
        r.deep_view() == staging_branch(plan.deep_view(), existing.deep_view(), base@),
{
    match existing {
        Some(pr) => Some(pr.head_ref.clone()),
        None => {
            if plan_brings_files(plan) {
                Some(governance_branch(base))
            } else {
                None
            }
        },
    }
}

/// Whether an apply run looks for the governance pull request after its
/// writes: it does where it opened one.
pub fn opens_pull_request(plan: &RepoPlan, existing: Option<&PullRequestInfo>) -> (r: bool)
    ensures
        r == (existing is None && brings_files(plan.deep_view())),
{
    existing.is_none() && plan_brings_files(plan)
}

fn message_for(verb: &str, path: &str) -> (r: String)
    ensures
        r@ == commit_message(verb@, path@),
{
    let a = join2(verb, " .github file ");
    let b = join2(a.as_str(), path);
    join2(b.as_str(), " via gh-governor")
}

fn push_protection_writes(out: &mut Vec<Write>, changes: &Vec<BranchProtectionChange>)
    ensures
        final(out).deep_view() == old(out).deep_view() + changes.deep_view().map_values(
            protection_write(),
        ),
{
    let ghost start = out.deep_view();
    let ghost all = changes.deep_view();
    let mut i: usize = 0;
    assert(out.deep_view() =~= start + all.take(0).map_values(protection_write()));
    while i < changes.len()
        invariant
            i <= changes.len(),
            all == changes.deep_view(),
            out.deep_view() == start + all.take(i as int).map_values(protection_write()),
        decreases changes.len() - i,
    {
        let ghost before = out.deep_view();
        out.push(Write::SetBranchProtection(changes[i].target.clone()));
        assert(out.deep_view() =~= before.push(protection_write()(all[i as int])));
        assert(out.deep_view() =~= start + all.take(i + 1).map_values(protection_write()));
        i += 1;
    }
    assert(all.take(i as int) =~= all);
}

fn push_add_writes(out: &mut Vec<Write>, files: &Vec<IssueTemplateFile>, branch: &String)
    ensures
        final(out).deep_view() == old(out).deep_view() + files.deep_view().map_values(
            add_write(branch@),
        ),
{
    let ghost start = out.deep_view();
    let ghost all = files.deep_view();
    let ghost f = add_write(branch@);
    let mut i: usize = 0;
    assert(out.deep_view() =~= start + all.take(0).map_values(f));
    while i < files.len()
        invariant
            i <= files.len(),
            all == files.deep_view(),
            f == add_write(branch@),
            out.deep_view() == start + all.take(i as int).map_values(f),
        decreases files.len() - i,
    {
        let ghost before = out.deep_view();
        let file = &files[i];
        out.push(
            Write::PutFile {
                path: file.path.clone(),
                content: file.contents.clone(),
                sha: None,
                message: message_for("Add", file.path.as_str()),
                branch: branch.clone(),
            },
        );
        assert(out.deep_view() =~= before.push(f(all[i as int])));
        assert(out.deep_view() =~= start + all.take(i + 1).map_values(f));
        i += 1;
    }
    assert(all.take(i as int) =~= all);
}

fn push_update_writes(
    out: &mut Vec<Write>,
    files: &Vec<(IssueTemplateFile, String)>,
    branch: &String,
)
    ensures
        final(out).deep_view() == old(out).deep_view() + files.deep_view().map_values(
            update_write(branch@),
        ),
{
    let ghost start = out.deep_view();
    let ghost all = files.deep_view();
    let ghost f = update_write(branch@);
    let mut i: usize = 0;
    assert(out.deep_view() =~= start + all.take(0).map_values(f));
    while i < files.len()
        invariant
            i <= files.len(),
            all == files.deep_view(),
            f == update_write(branch@),
            out.deep_view() == start + all.take(i as int).map_values(f),
        decreases files.len() - i,
    {
        let ghost before = out.deep_view();
        let entry = &files[i];
        assert(all[i as int] == entry.deep_view());
        out.push(
            Write::PutFile {
                path: entry.0.path.clone(),
                content: entry.0.contents.clone(),
                sha: Some(entry.1.clone()),
                message: message_for("Update", entry.0.path.as_str()),
                branch: branch.clone(),
            },
        );
        assert(out.deep_view() =~= before.push(f(all[i as int])));
        assert(out.deep_view() =~= start + all.take(i + 1).map_values(f));
        i += 1;
    }
    assert(all.take(i as int) =~= all);
}

fn push_remove_writes(out: &mut Vec<Write>, files: &Vec<(String, String)>, branch: &String)
    ensures
        final(out).deep_view() == old(out).deep_view() + files.deep_view().map_values(
            remove_write(branch@),
        ),
{
    let ghost start = out.deep_view();
    let ghost all = files.deep_view();
    let ghost f = remove_write(branch@);
    let mut i: usize = 0;
    assert(out.deep_view() =~= start + all.take(0).map_values(f));
    while i < files.len()
        invariant
            i <= files.len(),
            all == files.deep_view(),
            f == remove_write(branch@),
            out.deep_view() == start + all.take(i as int).map_values(f),
        decreases files.len() - i,
    {
        let ghost before = out.deep_view();
        let entry = &files[i];
        assert(all[i as int] == entry.deep_view());
        out.push(
            Write::DeleteFile {
                path: entry.0.clone(),
                sha: entry.1.clone(),
                message: message_for("Remove", entry.0.as_str()),
                branch: branch.clone(),
            },
        );
        assert(out.deep_view() =~= before.push(f(all[i as int])));
        assert(out.deep_view() =~= start + all.take(i + 1).map_values(f));
        i += 1;
    }
    assert(all.take(i as int) =~= all);
}

fn push_label_writes(out: &mut Vec<Write>, labels: &Vec<LabelSpec>, kind: u8)
    requires
        kind < 3,
    ensures
        final(out).deep_view() == old(out).deep_view() + labels.deep_view().map_values(
            if kind == 0 {
                create_label_write()
            } else if kind == 1 {
                update_label_write()
            } else {
                delete_label_write()
            },
        ),
{
    let ghost start = out.deep_view();
    let ghost all = labels.deep_view();
    let ghost f = if kind == 0 {
        create_label_write()
    } else if kind == 1 {
        update_label_write()
    } else {
        delete_label_write()
    };
    let mut i: usize = 0;
    assert(out.deep_view() =~= start + all.take(0).map_values(f));
    while i < labels.len()
        invariant
            i <= labels.len(),
            kind < 3,
            all == labels.deep_view(),
            f == if kind == 0 {
                create_label_write()
            } else if kind == 1 {
                update_label_write()
            } else {
                delete_label_write()
            },
            out.deep_view() == start + all.take(i as int).map_values(f),
        decreases labels.len() - i,
    {
        let ghost before = out.deep_view();
        let label = &labels[i];
        let write = if kind == 0 {
            Write::CreateLabel(label.clone())
        } else if kind == 1 {
            Write::UpdateLabel(label.clone())
        } else {
            Write::DeleteLabel(label.name.clone())
        };
        out.push(write);
        assert(out.deep_view() =~= before.push(f(all[i as int])));
        assert(out.deep_view() =~= start + all.take(i + 1).map_values(f));
        i += 1;
    }
    assert(all.take(i as int) =~= all);
}

/// The writes that bring a repository to its plan, in the order in which
/// they are to be made.
///
/// `existing` is the open governance pull request as found at the start of
/// the apply run, `base` the repository's default branch, and `title` the
/// title that the pull request is to have.
pub fn apply_writes(
    plan: &RepoPlan,
    existing: Option<&PullRequestInfo>,
    base: &str,
    title: &str,
) -> (r: Vec<Write>)
    ensures
        r.deep_view() == writes_of(plan.deep_view(), existing.deep_view(), base@, title@),
{
    let ghost p = plan.deep_view();
    let ghost e = existing.deep_view();
    let mut out: Vec<Write> = Vec::new();
    assert(out.deep_view() =~= Seq::<WriteView>::empty());

    if let Some(diff) = &plan.settings_diff {
        if let Some(desired) = &plan.desired_settings {
            if diff.changes.len() > 0 {
                out.push(Write::UpdateRepoSettings(*desired));
            }
        }
    }
    assert(out.deep_view() =~= settings_writes(p));

    push_protection_writes(&mut out, &plan.bp_changes);

    let brings = plan.templates_add.len() > 0 || plan.templates_update.len() > 0;
    let branch: Option<String> = match existing {
        Some(pr) => Some(pr.head_ref.clone()),
        None => {
            if brings {
                let name = governance_branch(base);
                let ghost before = out.deep_view();
                out.push(Write::CreateBranch { name: name.clone(), from: owned(base) });
                assert(out.deep_view() =~= before + branch_writes(p, e, base@));
                Some(name)
            } else {
                None
            }
        },
    };
    assert(branch.deep_view() == staging_branch(p, e, base@));
    assert(out.deep_view() =~= settings_writes(p) + protection_writes(p) + branch_writes(
        p,
        e,
        base@,
    ));

    if let Some(b) = &branch {
        push_add_writes(&mut out, &plan.templates_add, b);
        push_update_writes(&mut out, &plan.templates_update, b);
        push_remove_writes(&mut out, &plan.templates_remove, b);
    }
    assert(out.deep_view() =~= settings_writes(p) + protection_writes(p) + branch_writes(
        p,
        e,
        base@,
    ) + file_writes(p, staging_branch(p, e, base@)));

    push_label_writes(&mut out, &plan.labels_add, 0);
    push_label_writes(&mut out, &plan.labels_update, 1);
    push_label_writes(&mut out, &plan.removable, 2);
    assert(out.deep_view() =~= settings_writes(p) + protection_writes(p) + branch_writes(
        p,
        e,
        base@,
    ) + file_writes(p, staging_branch(p, e, base@)) + label_writes(p));

    let ghost before = out.deep_view();
    let body = Some(owned("Automated .github updates via gh-governor"));
    match existing {
        Some(pr) => {
            let same_title = opt_text_eq(&pr.title, &Some(owned(title)));
            let same_body = opt_text_eq(&pr.body, &body);
            if !same_title || !same_body {
                out.push(
                    Write::UpdatePullRequest { number: pr.number, title: owned(title), body },
                );
            }
        },
        None => {
            if brings {
                out.push(
                    Write::CreatePullRequest {
                        title: owned(title),
                        head: governance_branch(base),
                        base: owned(base),
                        body,
                        draft: true,
                    },
                );
            }
        },
    }
    assert(out.deep_view() =~= before + pr_writes(p, e, base@, title@));
    out
}

/// A plan in which nothing differs.
pub open spec fn is_settled(plan: RepoPlanView) -> bool {
    &&& plan.settings_diff matches Some(changes) ==> changes.len() == 0
    &&& plan.bp_changes.len() == 0
    &&& plan.templates_add.len() == 0
    &&& plan.templates_update.len() == 0
    &&& plan.templates_remove.len() == 0
    &&& plan.labels_add.len() == 0
    &&& plan.labels_update.len() == 0
    &&& plan.removable.len() == 0
}

/// A run whose plan finds nothing to change makes no write: neither with
/// no governance pull request open, nor with one that has the desired
/// title and body. Labels whose removal is withheld do not count as
/// changes.
pub proof fn lemma_settled_plan_writes_nothing(
    plan: RepoPlanView,
    existing: Option<PullRequestInfoView>,
    base: Seq<char>,
    title: Seq<char>,
)
    requires
        is_settled(plan),
        existing matches Some(pr) ==> pr.title == Some(title) && pr.body == Some(pr_body_text()),
    ensures
        writes_of(plan, existing, base, title) == Seq::<WriteView>::empty(),
{
    assert(writes_of(plan, existing, base, title) =~= Seq::<WriteView>::empty());
}

/// With no governance pull request open, a plan that adds a file creates
/// the governance branch of the base branch from the base branch, writes
/// the file to that branch, and opens a draft pull request from it into
/// the base branch; the branch is created before the file is written, and
/// the pull request is opened last.
pub proof fn lemma_first_file_opens_pull_request(
    plan: RepoPlanView,
    base: Seq<char>,
    title: Seq<char>,
)
    requires
        plan.templates_add.len() > 0,
    ensures
        ({
            let writes = writes_of(plan, None, base, title);
            let branch = governance_branch_name(base);
            let create = settings_writes(plan).len() + protection_writes(plan).len();
            &&& writes.len() > create + plan.templates_add.len()
            &&& writes[create as int] == WriteView::CreateBranch { name: branch, from: base }
            &&& forall|i: int|
                0 <= i < plan.templates_add.len() ==> writes[create + 1 + i] == add_write(branch)(
                    #[trigger] plan.templates_add[i],
                )
            &&& writes.last() == WriteView::CreatePullRequest {
                title,
                head: branch,
                base,
                body: Some(pr_body_text()),
                draft: true,
            }
        }),
{
}

/// Labels are deleted by the label writes only: a deletion among the
/// writes of a run is one of its label writes.
pub proof fn lemma_deletions_are_label_writes(
    plan: RepoPlanView,
    existing: Option<PullRequestInfoView>,
    base: Seq<char>,
    title: Seq<char>,
    name: Seq<char>,
)
    requires
        writes_of(plan, existing, base, title).contains(WriteView::DeleteLabel(name)),
    ensures
        label_writes(plan).contains(WriteView::DeleteLabel(name)),
{
    let writes = writes_of(plan, existing, base, title);
    let target = WriteView::DeleteLabel(name);
    let k = choose|k: int| 0 <= k < writes.len() && writes[k] == target;
    let settings = settings_writes(plan);
    let protection = protection_writes(plan);
    let branch = branch_writes(plan, existing, base);
    let files = file_writes(plan, staging_branch(plan, existing, base));
    let labels = label_writes(plan);
    let pr = pr_writes(plan, existing, base, title);
    let a = settings.len() as int;
    let b = a + protection.len();
    let c = b + branch.len();
    let d = c + files.len();
    let e = d + labels.len();
    if k < a {
        assert(writes[k] == settings[k]);
    } else if k < b {
        assert(writes[k] == protection[k - a]);
    } else if k < c {
        assert(writes[k] == branch[k - b]);
    } else if k < d {
        assert(writes[k] == files[k - c]);
        let f = files[k - c];
        match staging_branch(plan, existing, base) {
            Some(on) => {
                let adds = plan.templates_add.len() as int;
                let updates = plan.templates_update.len() as int;
                let i = k - c;
                if i < adds {
                    assert(f == add_write(on)(plan.templates_add[i]));
                } else if i < adds + updates {
                    assert(f == update_write(on)(plan.templates_update[i - adds]));
                } else {
                    assert(f == remove_write(on)(plan.templates_remove[i - adds - updates]));
                }
            },
            None => {},
        }
    } else if k < e {
        assert(writes[k] == labels[k - d]);
    } else {
        assert(writes[k] == pr[k - e]);
    }
}

} // verus!
