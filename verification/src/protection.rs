//! Reconciling a desired branch-protection rule with the rule a repository
//! has: what the desired rule leaves unset is kept as it is.

use vstd::prelude::*;
use crate::settings::restrictions_clone;
use crate::settings::reviews_clone;
use crate::settings::status_checks_clone;
use crate::settings::BranchProtectionRule;
use crate::settings::BranchProtectionRuleView;

verus! {

/// Whether a rule is written for the first time or over an existing one.
#[derive(Debug, Clone, Copy, PartialEq, Eq, Structural)]
pub enum ChangeAction {
    Create,
    Update,
}

/// A rule to write: the pattern, the kind of write, and the whole rule that
/// the repository will have.
#[derive(Debug)]
pub struct BranchProtectionChange {
    pub pattern: String,
    pub action: ChangeAction,
    pub target: BranchProtectionRule,
}

/// The value of a `BranchProtectionChange`.
pub ghost struct BranchProtectionChangeView {
    pub pattern: Seq<char>,
    pub action: ChangeAction,
    pub target: BranchProtectionRuleView,
}

impl DeepView for BranchProtectionChange {
    type V = BranchProtectionChangeView;

    open spec fn deep_view(&self) -> BranchProtectionChangeView {
        BranchProtectionChangeView {
            pattern: self.pattern@,
            action: self.action,
            target: self.target.deep_view(),
        }
    }
}

impl Clone for BranchProtectionChange {
    fn clone(&self) -> (r: Self)
        ensures
            r.deep_view() == self.deep_view(),
    {
        BranchProtectionChange {
            pattern: self.pattern.clone(),
            action: self.action,
            target: self.target.clone(),
        }
    }
}

/// A desired field where it is set, else the field the repository has.
pub open spec fn prefer<A>(desired: Option<A>, current: Option<A>) -> Option<A> {
    if desired is Some {
        desired
    } else {
        current
    }
}

/// The rule that the repository is to have: field by field the desired
/// value where it is set, else the current one. Without a current rule it
/// is the desired rule.
pub open spec fn effective_rule(
    desired: BranchProtectionRuleView,
    current: Option<BranchProtectionRuleView>,
) -> BranchProtectionRuleView {
    match current {
        None => desired,
        Some(cur) => BranchProtectionRuleView {
            pattern: desired.pattern,
            required_status_checks: prefer(
                desired.required_status_checks,
                cur.required_status_checks,
            ),
            required_pull_request_reviews: prefer(
                desired.required_pull_request_reviews,
                cur.required_pull_request_reviews,
            ),
            enforce_admins: prefer(desired.enforce_admins, cur.enforce_admins),
            restrictions: prefer(desired.restrictions, cur.restrictions),
            allow_force_pushes: prefer(desired.allow_force_pushes, cur.allow_force_pushes),
            allow_deletions: prefer(desired.allow_deletions, cur.allow_deletions),
            block_creations: prefer(desired.block_creations, cur.block_creations),
            require_linear_history: prefer(
                desired.require_linear_history,
                cur.require_linear_history,
            ),
            required_conversation_resolution: prefer(
                desired.required_conversation_resolution,
                cur.required_conversation_resolution,
            ),
            required_signatures: prefer(desired.required_signatures, cur.required_signatures),
        },
    }
}

/// The write that brings the repository to the effective rule: none where
/// it has that rule already, a creation where it has no rule.
pub open spec fn protection_change(
    desired: BranchProtectionRuleView,
    current: Option<BranchProtectionRuleView>,
) -> Option<BranchProtectionChangeView> {
    let target = effective_rule(desired, current);
    if current == Some(target) {
        None
    } else {
        Some(
            BranchProtectionChangeView {
                pattern: desired.pattern,
                action: if current is Some {
                    ChangeAction::Update
                } else {
                    ChangeAction::Create
                },
                target,
            },
        )
    }
}

/// The rule that the repository is to have, from the desired rule and the
/// rule it has.
pub fn merge_branch_rule(
    desired: &BranchProtectionRule,
    current: Option<&BranchProtectionRule>,
) -> (r: BranchProtectionRule)
    ensures
        r.deep_view() == effective_rule(desired.deep_view(), current.deep_view()),
{
    let mut merged = desired.clone();
    if let Some(cur) = current {
        if merged.required_status_checks.is_none() {
            merged.required_status_checks = status_checks_clone(&cur.required_status_checks);
        }
        if merged.required_pull_request_reviews.is_none() {
            merged.required_pull_request_reviews = reviews_clone(
                &cur.required_pull_request_reviews,
            );
        }
        if merged.enforce_admins.is_none() {
            merged.enforce_admins = cur.enforce_admins;
        }
        if merged.restrictions.is_none() {
            merged.restrictions = restrictions_clone(&cur.restrictions);
        }
        if merged.allow_force_pushes.is_none() {
            merged.allow_force_pushes = cur.allow_force_pushes;
        }
        if merged.allow_deletions.is_none() {
            merged.allow_deletions = cur.allow_deletions;
        }
        if merged.block_creations.is_none() {
            merged.block_creations = cur.block_creations;
        }
        if merged.require_linear_history.is_none() {
            merged.require_linear_history = cur.require_linear_history;
        }
        if merged.required_conversation_resolution.is_none() {
            merged.required_conversation_resolution = cur.required_conversation_resolution;
        }
        if merged.required_signatures.is_none() {
            merged.required_signatures = cur.required_signatures;
        }
    }
    merged
}

/// Decides the write for one desired rule, given the rule the repository
/// has for its pattern.
pub fn plan_branch_rule(desired: &BranchProtectionRule, current: Option<&BranchProtectionRule>) -> (r:
    Option<BranchProtectionChange>)
    ensures
        r.deep_view() == protection_change(desired.deep_view(), current.deep_view()),
{
    let target = merge_branch_rule(desired, current);
    let unchanged = match current {
        Some(cur) => *cur == target,
        None => false,
    };
    if unchanged {
        None
    } else {
        Some(
            BranchProtectionChange {
                pattern: desired.pattern.clone(),
                action: if current.is_some() {
                    ChangeAction::Update
                } else {
                    ChangeAction::Create
                },
                target,
            },
        )
    }
}

/// The write, if any, for a desired rule paired with the rule observed for
/// its pattern.
pub open spec fn change_of_pair() -> spec_fn(
    (BranchProtectionRuleView, Option<BranchProtectionRuleView>),
) -> Option<BranchProtectionChangeView> {
    |p: (BranchProtectionRuleView, Option<BranchProtectionRuleView>)| protection_change(p.0, p.1)
}

/// The writes for the desired rules, each paired with the rule that the
/// repository has for its pattern, in the order of the rules.
pub open spec fn protection_changes(
    observed: Seq<(BranchProtectionRuleView, Option<BranchProtectionRuleView>)>,
) -> Seq<BranchProtectionChangeView> {
    observed.filter_map(change_of_pair())
}

/// Decides the writes for all desired rules, in their order. `observed`
/// holds each desired rule with the rule observed for its pattern.
pub fn plan_branch_protection(
    observed: &Vec<(BranchProtectionRule, Option<BranchProtectionRule>)>,
) -> (r: Vec<BranchProtectionChange>)
    ensures
        r.deep_view() == protection_changes(observed.deep_view()),
{
    let ghost all = observed.deep_view();
    let mut changes: Vec<BranchProtectionChange> = Vec::new();
    let mut i: usize = 0;
    assert(changes.deep_view() =~= all.take(0).filter_map(change_of_pair()));
    while i < observed.len()
        invariant
            i <= observed.len(),
            all == observed.deep_view(),
            changes.deep_view() == all.take(i as int).filter_map(change_of_pair()),
        decreases observed.len() - i,
    {
        proof {
            all.lemma_filter_map_take_succ(change_of_pair(), i as int);
            assert(all[i as int] == observed[i as int].deep_view());
        }
        let ghost before = changes.deep_view();
        let pair = &observed[i];
        let current = match &pair.1 {
            Some(c) => Some(c),
            None => None,
        };
        match plan_branch_rule(&pair.0, current) {
            Some(change) => {
                changes.push(change);
                assert(changes.deep_view() =~= before.push(
                    protection_change(all[i as int].0, all[i as int].1)->0,
                ));
            },
            None => {},
        }
        i += 1;
    }
    assert(all.take(i as int) =~= all);
    changes
}

/// A field that the desired rule leaves unset keeps the value that the
/// repository has; a field that it sets has the desired value.
pub proof fn lemma_unset_fields_preserved(
    desired: BranchProtectionRuleView,
    current: BranchProtectionRuleView,
)
    ensures
        ({
            let r = effective_rule(desired, Some(current));
            &&& r.pattern == desired.pattern
            &&& desired.required_status_checks is None ==> r.required_status_checks
                == current.required_status_checks
            &&& desired.required_pull_request_reviews is None ==> r.required_pull_request_reviews
                == current.required_pull_request_reviews
            &&& desired.enforce_admins is None ==> r.enforce_admins == current.enforce_admins
            &&& desired.restrictions is None ==> r.restrictions == current.restrictions
            &&& desired.allow_force_pushes is None ==> r.allow_force_pushes
                == current.allow_force_pushes
            &&& desired.allow_deletions is None ==> r.allow_deletions == current.allow_deletions
            &&& desired.block_creations is None ==> r.block_creations == current.block_creations
            &&& desired.require_linear_history is None ==> r.require_linear_history
                == current.require_linear_history
            &&& desired.required_conversation_resolution is None
                ==> r.required_conversation_resolution == current.required_conversation_resolution
            &&& desired.required_signatures is None ==> r.required_signatures
                == current.required_signatures
            &&& desired.required_status_checks is Some ==> r.required_status_checks
                == desired.required_status_checks
            &&& desired.required_pull_request_reviews is Some ==> r.required_pull_request_reviews
                == desired.required_pull_request_reviews
            &&& desired.enforce_admins is Some ==> r.enforce_admins == desired.enforce_admins
            &&& desired.restrictions is Some ==> r.restrictions == desired.restrictions
            &&& desired.allow_force_pushes is Some ==> r.allow_force_pushes
                == desired.allow_force_pushes
            &&& desired.allow_deletions is Some ==> r.allow_deletions == desired.allow_deletions
            &&& desired.block_creations is Some ==> r.block_creations == desired.block_creations
            &&& desired.require_linear_history is Some ==> r.require_linear_history
                == desired.require_linear_history
            &&& desired.required_conversation_resolution is Some
                ==> r.required_conversation_resolution == desired.required_conversation_resolution
            &&& desired.required_signatures is Some ==> r.required_signatures
                == desired.required_signatures
        }),
{
}

/// Once the repository has the effective rule, the same desired rule asks
/// for no further write.
pub proof fn lemma_protection_converges(
    desired: BranchProtectionRuleView,
    current: Option<BranchProtectionRuleView>,
)
    ensures
        effective_rule(desired, Some(effective_rule(desired, current))) == effective_rule(
            desired,
            current,
        ),
        protection_change(desired, Some(effective_rule(desired, current))) is None,
{
}

} // verus!
