use gh_governor::protection::merge_branch_rule;
use gh_governor::protection::plan_branch_protection;
use gh_governor::protection::plan_branch_rule;
use gh_governor::protection::ChangeAction;
use gh_governor::settings::BranchProtectionRule;
use gh_governor::settings::BranchRestrictions;
use gh_governor::settings::RequiredPullRequestReviews;
use gh_governor::settings::RequiredStatusChecks;
use gh_governor::settings::StatusCheck;

fn rule(pattern: &str) -> BranchProtectionRule {
    BranchProtectionRule {
        pattern: pattern.to_string(),
        required_status_checks: None,
        required_pull_request_reviews: None,
        enforce_admins: None,
        restrictions: None,
        allow_force_pushes: None,
        allow_deletions: None,
        block_creations: None,
        require_linear_history: None,
        required_conversation_resolution: None,
        required_signatures: None,
    }
}

fn checks(strict: bool) -> RequiredStatusChecks {
    RequiredStatusChecks {
        strict: Some(strict),
        contexts: Some(vec!["ci".to_string()]),
        checks: Some(vec![StatusCheck {
            context: "build".to_string(),
            app_id: Some(7),
        }]),
    }
}

#[test]
fn unset_desired_fields_keep_the_current_value() {
    let desired = rule("main");
    let mut current = rule("main");
    current.enforce_admins = Some(true);
    current.allow_deletions = Some(false);
    current.required_status_checks = Some(checks(true));
    let merged = merge_branch_rule(&desired, Some(&current));
    assert_eq!(merged.enforce_admins, Some(true));
    assert_eq!(merged.allow_deletions, Some(false));
    assert_eq!(merged.required_status_checks, Some(checks(true)));
    assert_eq!(merged, current);
}

#[test]
fn set_desired_fields_win() {
    let mut desired = rule("main");
    desired.enforce_admins = Some(false);
    desired.required_status_checks = Some(checks(false));
    desired.required_signatures = Some(true);
    let mut current = rule("main");
    current.enforce_admins = Some(true);
    current.required_status_checks = Some(checks(true));
    current.require_linear_history = Some(true);
    current.restrictions = Some(BranchRestrictions {
        users: Some(vec!["u".to_string()]),
        teams: None,
        apps: None,
    });
    let merged = merge_branch_rule(&desired, Some(&current));
    assert_eq!(merged.enforce_admins, Some(false));
    assert_eq!(merged.required_status_checks, Some(checks(false)));
    assert_eq!(merged.required_signatures, Some(true));
    assert_eq!(merged.require_linear_history, Some(true));
    assert_eq!(merged.restrictions, current.restrictions);
    assert_eq!(merged.pattern, "main");
}

#[test]
fn without_a_current_rule_the_desired_rule_stands() {
    let mut desired = rule("release/*");
    desired.block_creations = Some(true);
    let merged = merge_branch_rule(&desired, None);
    assert_eq!(merged, desired);
}

#[test]
fn a_missing_rule_is_created() {
    let mut desired = rule("main");
    desired.enforce_admins = Some(true);
    let change = plan_branch_rule(&desired, None).expect("a change");
    assert_eq!(change.action, ChangeAction::Create);
    assert_eq!(change.pattern, "main");
    assert_eq!(change.target, desired);
}

#[test]
fn a_differing_rule_is_updated_to_the_effective_rule() {
    let mut desired = rule("main");
    desired.enforce_admins = Some(true);
    let mut current = rule("main");
    current.enforce_admins = Some(false);
    current.allow_force_pushes = Some(false);
    let change = plan_branch_rule(&desired, Some(&current)).expect("a change");
    assert_eq!(change.action, ChangeAction::Update);
    let mut target = rule("main");
    target.enforce_admins = Some(true);
    target.allow_force_pushes = Some(false);
    assert_eq!(change.target, target);
}

#[test]
fn a_rule_in_effect_asks_for_no_write() {
    let mut desired = rule("main");
    desired.enforce_admins = Some(true);
    let mut current = rule("main");
    current.enforce_admins = Some(true);
    current.required_pull_request_reviews = Some(RequiredPullRequestReviews {
        dismiss_stale_reviews: Some(true),
        require_code_owner_reviews: None,
        required_approving_review_count: Some(2),
        require_last_push_approval: None,
        dismissal_restrictions: None,
    });
    assert!(plan_branch_rule(&desired, Some(&current)).is_none());
}

#[test]
fn applying_a_change_converges() {
    let mut desired = rule("main");
    desired.enforce_admins = Some(true);
    desired.allow_deletions = Some(false);
    let mut current = rule("main");
    current.enforce_admins = Some(false);
    current.required_signatures = Some(true);
    let change = plan_branch_rule(&desired, Some(&current)).expect("a change");
    assert!(plan_branch_rule(&desired, Some(&change.target)).is_none());
}

#[test]
fn rules_are_planned_in_their_order() {
    let mut a = rule("main");
    a.enforce_admins = Some(true);
    let b = rule("dev");
    let mut c = rule("release");
    c.allow_deletions = Some(false);
    let mut c_current = rule("release");
    c_current.allow_deletions = Some(true);
    let observed = vec![
        (a.clone(), None),
        (b.clone(), Some(rule("dev"))),
        (c.clone(), Some(c_current)),
    ];
    let changes = plan_branch_protection(&observed);
    assert_eq!(changes.len(), 2);
    assert_eq!(changes[0].pattern, "main");
    assert_eq!(changes[0].action, ChangeAction::Create);
    assert_eq!(changes[1].pattern, "release");
    assert_eq!(changes[1].action, ChangeAction::Update);
    assert!(plan_branch_protection(&Vec::new()).is_empty());
}
