//! Repository settings and branch-protection rules as configuration sets
//! state them: every field is optional, and an unset field defers to what
//! the repository already has.

use vstd::prelude::*;
use vstd::std_specs::cmp::PartialEqSpecImpl;
use crate::text::opt_texts_clone;
use crate::text::opt_texts_eq;

verus! {

#[derive(Debug, Clone, Copy, PartialEq, Eq, Structural)]
pub enum SquashMergeCommitMessage {
    PrBody,
    CommitMessages,
    Blank,
}

#[derive(Debug, Clone, Copy, PartialEq, Eq, Structural)]
pub enum SquashMergeCommitTitle {
    PrTitle,
    CommitOrPrTitle,
}

#[derive(Debug, Clone, Copy, PartialEq, Eq, Structural)]
pub enum MergeCommitMessage {
    PrTitle,
    PrBody,
    Blank,
}

#[derive(Debug, Clone, Copy, PartialEq, Eq, Structural)]
pub enum MergeCommitTitle {
    PrTitle,
    MergeMessage,
}

#[derive(Debug, Clone, Copy, PartialEq, Eq, Structural)]
pub enum SquashMergeOption {
    DefaultMessage,
    PullRequestTitle,
    PullRequestTitleAndCommitDetails,
    PullRequestTitleAndDescription,
}

#[derive(Debug, Clone, Copy, PartialEq, Eq, Structural)]
pub enum MergeCommitMessageOption {
    DefaultMessage,
    PullRequestTitle,
    PullRequestTitleAndDescription,
}

/// Pull-request merge settings. A `None` field is not managed.
#[derive(Debug, Clone, Copy, PartialEq, Eq, Structural)]
pub struct PullRequestSettings {
    pub allow_merge_commit: Option<bool>,
    pub allow_squash_merge: Option<bool>,
    pub allow_rebase_merge: Option<bool>,
    pub allow_auto_merge: Option<bool>,
    pub delete_branch_on_merge: Option<bool>,
    pub merge_commit_message_option: Option<MergeCommitMessageOption>,
    pub squash_merge_option: Option<SquashMergeOption>,
}

#[derive(Debug, Clone, Copy, PartialEq, Eq, Structural)]
pub struct RepoSettings {
    pub pull_requests: Option<PullRequestSettings>,
}

impl DeepView for RepoSettings {
    type V = RepoSettings;

    open spec fn deep_view(&self) -> RepoSettings {
        *self
    }
}

impl Default for RepoSettings {
    fn default() -> (r: Self)
        ensures
            r.pull_requests is None,
    {
        RepoSettings { pull_requests: None }
    }
}

/// The title and message that a squash-merge option stands for.
pub open spec fn squash_pair(opt: SquashMergeOption) -> (
    Option<SquashMergeCommitTitle>,
    Option<SquashMergeCommitMessage>,
) {
    match opt {
        SquashMergeOption::DefaultMessage => (
            Some(SquashMergeCommitTitle::CommitOrPrTitle),
            Some(SquashMergeCommitMessage::CommitMessages),
        ),
        SquashMergeOption::PullRequestTitle => (
            Some(SquashMergeCommitTitle::PrTitle),
            Some(SquashMergeCommitMessage::Blank),
        ),
        SquashMergeOption::PullRequestTitleAndCommitDetails => (
            Some(SquashMergeCommitTitle::PrTitle),
            Some(SquashMergeCommitMessage::CommitMessages),
        ),
        SquashMergeOption::PullRequestTitleAndDescription => (
            Some(SquashMergeCommitTitle::PrTitle),
            Some(SquashMergeCommitMessage::PrBody),
        ),
    }
}

/// The title and message that a merge-commit option stands for.
pub open spec fn merge_message_pair(opt: MergeCommitMessageOption) -> (
    Option<MergeCommitTitle>,
    Option<MergeCommitMessage>,
) {
    match opt {
        MergeCommitMessageOption::DefaultMessage => (
            Some(MergeCommitTitle::MergeMessage),
            Some(MergeCommitMessage::PrTitle),
        ),
        MergeCommitMessageOption::PullRequestTitle => (
            Some(MergeCommitTitle::PrTitle),
            Some(MergeCommitMessage::PrTitle),
        ),
        MergeCommitMessageOption::PullRequestTitleAndDescription => (
            Some(MergeCommitTitle::PrTitle),
            Some(MergeCommitMessage::PrBody),
        ),
    }
}

/// Expands a squash-merge option into the title and message written to the
/// repository. Every option has both.
pub fn map_squash_option(opt: &SquashMergeOption) -> (r: (
    Option<SquashMergeCommitTitle>,
    Option<SquashMergeCommitMessage>,
))
    ensures
        r == squash_pair(*opt),
        r.0 is Some,
        r.1 is Some,
{
    match opt {
        SquashMergeOption::DefaultMessage => (
            Some(SquashMergeCommitTitle::CommitOrPrTitle),
            Some(SquashMergeCommitMessage::CommitMessages),
        ),
        SquashMergeOption::PullRequestTitle => (
            Some(SquashMergeCommitTitle::PrTitle),
            Some(SquashMergeCommitMessage::Blank),
        ),
        SquashMergeOption::PullRequestTitleAndCommitDetails => (
            Some(SquashMergeCommitTitle::PrTitle),
            Some(SquashMergeCommitMessage::CommitMessages),
        ),
        SquashMergeOption::PullRequestTitleAndDescription => (
            Some(SquashMergeCommitTitle::PrTitle),
            Some(SquashMergeCommitMessage::PrBody),
        ),
    }
}

/// Expands a merge-commit option into the title and message written to the
/// repository. Every option has both.
pub fn map_merge_message_option(opt: &MergeCommitMessageOption) -> (r: (
    Option<MergeCommitTitle>,
    Option<MergeCommitMessage>,
))
    ensures
        r == merge_message_pair(*opt),
        r.0 is Some,
        r.1 is Some,
{
    match opt {
        MergeCommitMessageOption::DefaultMessage => (
            Some(MergeCommitTitle::MergeMessage),
            Some(MergeCommitMessage::PrTitle),
        ),
        MergeCommitMessageOption::PullRequestTitle => (
            Some(MergeCommitTitle::PrTitle),
            Some(MergeCommitMessage::PrTitle),
        ),
        MergeCommitMessageOption::PullRequestTitleAndDescription => (
            Some(MergeCommitTitle::PrTitle),
            Some(MergeCommitMessage::PrBody),
        ),
    }
}

/// A required status check: a context, and the app that must report it.
#[derive(Debug)]
pub struct StatusCheck {
    pub context: String,
    pub app_id: Option<u64>,
}

pub ghost struct StatusCheckView {
    pub context: Seq<char>,
    pub app_id: Option<u64>,
}

impl DeepView for StatusCheck {
    type V = StatusCheckView;

    open spec fn deep_view(&self) -> StatusCheckView {
        StatusCheckView { context: self.context@, app_id: self.app_id }
    }
}

impl Clone for StatusCheck {
    fn clone(&self) -> (r: Self)
        ensures
            r.deep_view() == self.deep_view(),
    {
        StatusCheck { context: self.context.clone(), app_id: self.app_id }
    }
}

impl PartialEq for StatusCheck {
    fn eq(&self, other: &Self) -> (r: bool) {
        self.context == other.context && self.app_id == other.app_id
    }
}

impl PartialEqSpecImpl for StatusCheck {
    open spec fn obeys_eq_spec() -> bool {
        true
    }

    open spec fn eq_spec(&self, other: &Self) -> bool {
        self.deep_view() == other.deep_view()
    }
}

impl Eq for StatusCheck {}

fn checks_eq(a: &Vec<StatusCheck>, b: &Vec<StatusCheck>) -> (r: bool)
    ensures
        r == (a.deep_view() == b.deep_view()),
{
    if a.len() != b.len() {
        assert(a.deep_view().len() != b.deep_view().len());
        return false;
    }
    let mut i: usize = 0;
    while i < a.len()
        invariant
            i <= a.len(),
            a.len() == b.len(),
            forall|k: int| 0 <= k < i ==> a@[k].deep_view() == b@[k].deep_view(),
        decreases a.len() - i,
    {
        if a[i] != b[i] {
            assert(a.deep_view()[i as int] != b.deep_view()[i as int]);
            return false;
        }
        i += 1;
    }
    assert(a.deep_view() =~= b.deep_view());
    true
}

fn checks_clone(a: &Vec<StatusCheck>) -> (r: Vec<StatusCheck>)
    ensures
        r.deep_view() == a.deep_view(),
{
    let mut r: Vec<StatusCheck> = Vec::new();
    let mut i: usize = 0;
    while i < a.len()
        invariant
            i <= a.len(),
            r.len() == i,
            forall|k: int| 0 <= k < i ==> r@[k].deep_view() == a@[k].deep_view(),
        decreases a.len() - i,
    {
        r.push(a[i].clone());
        i += 1;
    }
    assert(r.deep_view() =~= a.deep_view());
    r
}

#[derive(Debug)]
pub struct RequiredStatusChecks {
    pub strict: Option<bool>,
    pub contexts: Option<Vec<String>>,
    pub checks: Option<Vec<StatusCheck>>,
}

pub ghost struct RequiredStatusChecksView {
    pub strict: Option<bool>,
    pub contexts: Option<Seq<Seq<char>>>,
    pub checks: Option<Seq<StatusCheckView>>,
}

impl DeepView for RequiredStatusChecks {
    type V = RequiredStatusChecksView;

    open spec fn deep_view(&self) -> RequiredStatusChecksView {
        RequiredStatusChecksView {
            strict: self.strict,
            contexts: self.contexts.deep_view(),
            checks: self.checks.deep_view(),
        }
    }
}

impl Clone for RequiredStatusChecks {
    fn clone(&self) -> (r: Self)
        ensures
            r.deep_view() == self.deep_view(),
    {
        RequiredStatusChecks {
            strict: self.strict,
            contexts: opt_texts_clone(&self.contexts),
            checks: match &self.checks {
                Some(c) => Some(checks_clone(c)),
                None => None,
            },
        }
    }
}

impl PartialEq for RequiredStatusChecks {
    fn eq(&self, other: &Self) -> (r: bool) {
        let same_checks = match &self.checks {
            Some(x) => match &other.checks {
                Some(y) => checks_eq(x, y),
                None => false,
            },
            None => other.checks.is_none(),
        };
        self.strict == other.strict && opt_texts_eq(&self.contexts, &other.contexts) && same_checks
    }
}

impl PartialEqSpecImpl for RequiredStatusChecks {
    open spec fn obeys_eq_spec() -> bool {
        true
    }

    open spec fn eq_spec(&self, other: &Self) -> bool {
        self.deep_view() == other.deep_view()
    }
}

impl Eq for RequiredStatusChecks {}

#[derive(Debug)]
pub struct ReviewDismissalRestrictions {
    pub users: Option<Vec<String>>,
    pub teams: Option<Vec<String>>,
}

pub ghost struct ReviewDismissalRestrictionsView {
    pub users: Option<Seq<Seq<char>>>,
    pub teams: Option<Seq<Seq<char>>>,
}

impl DeepView for ReviewDismissalRestrictions {
    type V = ReviewDismissalRestrictionsView;

    open spec fn deep_view(&self) -> ReviewDismissalRestrictionsView {
        ReviewDismissalRestrictionsView {
            users: self.users.deep_view(),
            teams: self.teams.deep_view(),
        }
    }
}

impl Clone for ReviewDismissalRestrictions {
    fn clone(&self) -> (r: Self)
        ensures
            r.deep_view() == self.deep_view(),
    {
        ReviewDismissalRestrictions {
            users: opt_texts_clone(&self.users),
            teams: opt_texts_clone(&self.teams),
        }
    }
}

impl PartialEq for ReviewDismissalRestrictions {
    fn eq(&self, other: &Self) -> (r: bool) {
        opt_texts_eq(&self.users, &other.users) && opt_texts_eq(&self.teams, &other.teams)
    }
}

impl PartialEqSpecImpl for ReviewDismissalRestrictions {
    open spec fn obeys_eq_spec() -> bool {
        true
    }

    open spec fn eq_spec(&self, other: &Self) -> bool {
        self.deep_view() == other.deep_view()
    }
}

impl Eq for ReviewDismissalRestrictions {}

#[derive(Debug)]
pub struct RequiredPullRequestReviews {
    pub dismiss_stale_reviews: Option<bool>,
    pub require_code_owner_reviews: Option<bool>,
    pub required_approving_review_count: Option<u8>,
    pub require_last_push_approval: Option<bool>,
    pub dismissal_restrictions: Option<ReviewDismissalRestrictions>,
}

pub ghost struct RequiredPullRequestReviewsView {
    pub dismiss_stale_reviews: Option<bool>,
    pub require_code_owner_reviews: Option<bool>,
    pub required_approving_review_count: Option<u8>,
    pub require_last_push_approval: Option<bool>,
    pub dismissal_restrictions: Option<ReviewDismissalRestrictionsView>,
}

impl DeepView for RequiredPullRequestReviews {
    type V = RequiredPullRequestReviewsView;

    open spec fn deep_view(&self) -> RequiredPullRequestReviewsView {
        RequiredPullRequestReviewsView {
            dismiss_stale_reviews: self.dismiss_stale_reviews,
            require_code_owner_reviews: self.require_code_owner_reviews,
            required_approving_review_count: self.required_approving_review_count,
            require_last_push_approval: self.require_last_push_approval,
            dismissal_restrictions: self.dismissal_restrictions.deep_view(),
        }
    }
}

impl Clone for RequiredPullRequestReviews {
    fn clone(&self) -> (r: Self)
        ensures
            r.deep_view() == self.deep_view(),
    {
        RequiredPullRequestReviews {
            dismiss_stale_reviews: self.dismiss_stale_reviews,
            require_code_owner_reviews: self.require_code_owner_reviews,
            required_approving_review_count: self.required_approving_review_count,
            require_last_push_approval: self.require_last_push_approval,
            dismissal_restrictions: match &self.dismissal_restrictions {
                Some(d) => Some(d.clone()),
                None => None,
            },
        }
    }
}

impl PartialEq for RequiredPullRequestReviews {
    fn eq(&self, other: &Self) -> (r: bool) {
        let same_dismissals = match &self.dismissal_restrictions {
            Some(x) => match &other.dismissal_restrictions {
                Some(y) => *x == *y,
                None => false,
            },
            None => other.dismissal_restrictions.is_none(),
        };
        self.dismiss_stale_reviews == other.dismiss_stale_reviews
            && self.require_code_owner_reviews == other.require_code_owner_reviews
            && self.required_approving_review_count == other.required_approving_review_count
            && self.require_last_push_approval == other.require_last_push_approval
            && same_dismissals
    }
}

impl PartialEqSpecImpl for RequiredPullRequestReviews {
    open spec fn obeys_eq_spec() -> bool {
        true
    }

    open spec fn eq_spec(&self, other: &Self) -> bool {
        self.deep_view() == other.deep_view()
    }
}

impl Eq for RequiredPullRequestReviews {}

#[derive(Debug)]
pub struct BranchRestrictions {
    pub users: Option<Vec<String>>,
    pub teams: Option<Vec<String>>,
    pub apps: Option<Vec<String>>,
}

pub ghost struct BranchRestrictionsView {
    pub users: Option<Seq<Seq<char>>>,
    pub teams: Option<Seq<Seq<char>>>,
    pub apps: Option<Seq<Seq<char>>>,
}

impl DeepView for BranchRestrictions {
    type V = BranchRestrictionsView;

    open spec fn deep_view(&self) -> BranchRestrictionsView {
        BranchRestrictionsView {
            users: self.users.deep_view(),
            teams: self.teams.deep_view(),
            apps: self.apps.deep_view(),
        }
    }
}

impl Clone for BranchRestrictions {
    fn clone(&self) -> (r: Self)
        ensures
            r.deep_view() == self.deep_view(),
    {
        BranchRestrictions {
            users: opt_texts_clone(&self.users),
            teams: opt_texts_clone(&self.teams),
            apps: opt_texts_clone(&self.apps),
        }
    }
}

impl PartialEq for BranchRestrictions {
    fn eq(&self, other: &Self) -> (r: bool) {
        opt_texts_eq(&self.users, &other.users) && opt_texts_eq(&self.teams, &other.teams)
            && opt_texts_eq(&self.apps, &other.apps)
    }
}

impl PartialEqSpecImpl for BranchRestrictions {
    open spec fn obeys_eq_spec() -> bool {
        true
    }

    open spec fn eq_spec(&self, other: &Self) -> bool {
        self.deep_view() == other.deep_view()
    }
}

impl Eq for BranchRestrictions {}

/// The protection of the branches that match `pattern`. An unset field
/// defers to the value the repository has; it does not mean "off".
#[derive(Debug)]
pub struct BranchProtectionRule {
    pub pattern: String,
    pub required_status_checks: Option<RequiredStatusChecks>,
    pub required_pull_request_reviews: Option<RequiredPullRequestReviews>,
    pub enforce_admins: Option<bool>,
    pub restrictions: Option<BranchRestrictions>,
    pub allow_force_pushes: Option<bool>,
    pub allow_deletions: Option<bool>,
    pub block_creations: Option<bool>,
    pub require_linear_history: Option<bool>,
    pub required_conversation_resolution: Option<bool>,
    pub required_signatures: Option<bool>,
}

pub ghost struct BranchProtectionRuleView {
    pub pattern: Seq<char>,
    pub required_status_checks: Option<RequiredStatusChecksView>,
    pub required_pull_request_reviews: Option<RequiredPullRequestReviewsView>,
    pub enforce_admins: Option<bool>,
    pub restrictions: Option<BranchRestrictionsView>,
    pub allow_force_pushes: Option<bool>,
    pub allow_deletions: Option<bool>,
    pub block_creations: Option<bool>,
    pub require_linear_history: Option<bool>,
    pub required_conversation_resolution: Option<bool>,
    pub required_signatures: Option<bool>,
}

impl DeepView for BranchProtectionRule {
    type V = BranchProtectionRuleView;

    open spec fn deep_view(&self) -> BranchProtectionRuleView {
        BranchProtectionRuleView {
            pattern: self.pattern@,
            required_status_checks: self.required_status_checks.deep_view(),
            required_pull_request_reviews: self.required_pull_request_reviews.deep_view(),
            enforce_admins: self.enforce_admins,
            restrictions: self.restrictions.deep_view(),
            allow_force_pushes: self.allow_force_pushes,
            allow_deletions: self.allow_deletions,
            block_creations: self.block_creations,
            require_linear_history: self.require_linear_history,
            required_conversation_resolution: self.required_conversation_resolution,
            required_signatures: self.required_signatures,
        }
    }
}

/// A copy of an optional status-check requirement.
pub fn status_checks_clone(a: &Option<RequiredStatusChecks>) -> (r: Option<RequiredStatusChecks>)
    ensures
        r.deep_view() == a.deep_view(),
{
    match a {
        Some(x) => Some(x.clone()),
        None => None,
    }
}

/// A copy of an optional review requirement.
pub fn reviews_clone(a: &Option<RequiredPullRequestReviews>) -> (r: Option<
    RequiredPullRequestReviews,
>)
    ensures
        r.deep_view() == a.deep_view(),
{
    match a {
        Some(x) => Some(x.clone()),
        None => None,
    }
}

/// A copy of an optional push restriction.
pub fn restrictions_clone(a: &Option<BranchRestrictions>) -> (r: Option<BranchRestrictions>)
    ensures
        r.deep_view() == a.deep_view(),
{
    match a {
        Some(x) => Some(x.clone()),
        None => None,
    }
}

impl Clone for BranchProtectionRule {
    fn clone(&self) -> (r: Self)
        ensures
            r.deep_view() == self.deep_view(),
    {
        BranchProtectionRule {
            pattern: self.pattern.clone(),
            required_status_checks: status_checks_clone(&self.required_status_checks),
            required_pull_request_reviews: reviews_clone(&self.required_pull_request_reviews),
            enforce_admins: self.enforce_admins,
            restrictions: restrictions_clone(&self.restrictions),
            allow_force_pushes: self.allow_force_pushes,
            allow_deletions: self.allow_deletions,
            block_creations: self.block_creations,
            require_linear_history: self.require_linear_history,
            required_conversation_resolution: self.required_conversation_resolution,
            required_signatures: self.required_signatures,
        }
    }
}

impl PartialEq for BranchProtectionRule {
    fn eq(&self, other: &Self) -> (r: bool) {
        let same_checks = match &self.required_status_checks {
            Some(x) => match &other.required_status_checks {
                Some(y) => *x == *y,
                None => false,
            },
            None => other.required_status_checks.is_none(),
        };
        let same_reviews = match &self.required_pull_request_reviews {
            Some(x) => match &other.required_pull_request_reviews {
                Some(y) => *x == *y,
                None => false,
            },
            None => other.required_pull_request_reviews.is_none(),
        };
        let same_restrictions = match &self.restrictions {
            Some(x) => match &other.restrictions {
                Some(y) => *x == *y,
                None => false,
            },
            None => other.restrictions.is_none(),
        };
        self.pattern == other.pattern && same_checks && same_reviews && self.enforce_admins
            == other.enforce_admins && same_restrictions && self.allow_force_pushes
            == other.allow_force_pushes && self.allow_deletions == other.allow_deletions
            && self.block_creations == other.block_creations && self.require_linear_history
            == other.require_linear_history && self.required_conversation_resolution
            == other.required_conversation_resolution && self.required_signatures
            == other.required_signatures
    }
}

impl PartialEqSpecImpl for BranchProtectionRule {
    open spec fn obeys_eq_spec() -> bool {
        true
    }

    open spec fn eq_spec(&self, other: &Self) -> bool {
        self.deep_view() == other.deep_view()
    }
}

impl Eq for BranchProtectionRule {}

/// The branch-protection rules of one configuration set.
#[derive(Debug)]
pub struct BranchProtectionConfig {
    pub rules: Vec<BranchProtectionRule>,
}

pub ghost struct BranchProtectionConfigView {
    pub rules: Seq<BranchProtectionRuleView>,
}

impl DeepView for BranchProtectionConfig {
    type V = BranchProtectionConfigView;

    open spec fn deep_view(&self) -> BranchProtectionConfigView {
        BranchProtectionConfigView { rules: self.rules.deep_view() }
    }
}

impl Default for BranchProtectionConfig {
    fn default() -> (r: Self)
        ensures
            r.rules@.len() == 0,
    {
        BranchProtectionConfig { rules: Vec::new() }
    }
}

impl Clone for BranchProtectionConfig {
    fn clone(&self) -> (r: Self)
        ensures
            r.deep_view() == self.deep_view(),
    {
        let mut rules: Vec<BranchProtectionRule> = Vec::new();
        let mut i: usize = 0;
        while i < self.rules.len()
            invariant
                i <= self.rules.len(),
                rules.len() == i,
                forall|k: int| 0 <= k < i ==> rules@[k].deep_view() == self.rules@[k].deep_view(),
            decreases self.rules.len() - i,
        {
            rules.push(self.rules[i].clone());
            i += 1;
        }
        assert(rules.deep_view() =~= self.rules.deep_view());
        BranchProtectionConfig { rules }
    }
}

impl PartialEq for BranchProtectionConfig {
    fn eq(&self, other: &Self) -> (r: bool) {
        if self.rules.len() != other.rules.len() {
            assert(self.rules.deep_view().len() != other.rules.deep_view().len());
            return false;
        }
        let mut i: usize = 0;
        while i < self.rules.len()
            invariant
                i <= self.rules.len(),
                self.rules.len() == other.rules.len(),
                forall|k: int|
                    0 <= k < i ==> self.rules@[k].deep_view() == other.rules@[k].deep_view(),
            decreases self.rules.len() - i,
        {
            if self.rules[i] != other.rules[i] {
                assert(self.rules.deep_view()[i as int] != other.rules.deep_view()[i as int]);
                return false;
            }
            i += 1;
        }
        assert(self.rules.deep_view() =~= other.rules.deep_view());
        true
    }
}

impl PartialEqSpecImpl for BranchProtectionConfig {
    open spec fn obeys_eq_spec() -> bool {
        true
    }

    open spec fn eq_spec(&self, other: &Self) -> bool {
        self.deep_view() == other.deep_view()
    }
}

impl Eq for BranchProtectionConfig {}

} // verus!
