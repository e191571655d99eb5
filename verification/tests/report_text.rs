use gh_governor::diff::RepoSettingsDiff;
use gh_governor::diff::SettingChange;
use gh_governor::gate::LabelUsageEntry;
use gh_governor::protection::BranchProtectionChange;
use gh_governor::protection::ChangeAction;
use gh_governor::reconcile::PullRequestInfo;
use gh_governor::reconcile::RepoPlan;
use gh_governor::report::apply_color;
use gh_governor::report::apply_pr_status;
use gh_governor::report::branch_rule_details;
use gh_governor::report::format_blocked_lines;
use gh_governor::report::format_branch_protection;
use gh_governor::report::format_count;
use gh_governor::report::format_label_lines;
use gh_governor::report::format_remove_lines;
use gh_governor::report::format_repo_settings;
use gh_governor::report::format_template_lines;
use gh_governor::report::plan_pr_note;
use gh_governor::report::render_apply;
use gh_governor::report::render_plan;
use gh_governor::report::skipped_notice;
use gh_governor::report::ColorKind;
use gh_governor::sets::IssueTemplateFile;
use gh_governor::sets::LabelSpec;
use gh_governor::settings::BranchProtectionRule;
use gh_governor::settings::BranchRestrictions;
use gh_governor::settings::RequiredPullRequestReviews;
use gh_governor::settings::RequiredStatusChecks;
use gh_governor::settings::ReviewDismissalRestrictions;
use gh_governor::settings::StatusCheck;

fn label(name: &str, color: Option<&str>, desc: Option<&str>) -> LabelSpec {
    LabelSpec {
        name: name.to_string(),
        color: color.map(|s| s.to_string()),
        description: desc.map(|s| s.to_string()),
    }
}

fn file(path: &str) -> IssueTemplateFile {
    IssueTemplateFile {
        path: path.to_string(),
        contents: String::new(),
    }
}

fn rule(pattern: &str) -> BranchProtectionRule {
    BranchProtectionRule {
        pattern: pattern.to_string(),
        required_status_checks: None,
        required_pull_request_reviews: None,
        enforce_admins: None,
        restrictions: None,
        allow_force_pushes: None,
        allow_deletions: None,
        block_creations: None,
        require_linear_history: None,
        required_conversation_resolution: None,
        required_signatures: None,
    }
}

fn empty_plan() -> RepoPlan {
    RepoPlan {
        settings_diff: None,
        desired_settings: None,
        bp_changes: Vec::new(),
        templates_add: Vec::new(),
        templates_update: Vec::new(),
        templates_remove: Vec::new(),
        labels_add: Vec::new(),
        labels_update: Vec::new(),
        blocked_removals: Vec::new(),
        removable: Vec::new(),
    }
}

fn names(v: &[&str]) -> Option<Vec<String>> {
    Some(v.iter().map(|s| s.to_string()).collect())
}

#[test]
fn colours_are_bold_and_by_kind() {
    assert_eq!(apply_color("x", ColorKind::Add, false), "x");
    assert_eq!(
        apply_color("x", ColorKind::Add, true),
        "\x1b[1m\x1b[32mx\x1b[39m\x1b[0m"
    );
    assert_eq!(
        apply_color("up", ColorKind::Update, true),
        "\x1b[1m\x1b[36mup\x1b[39m\x1b[0m"
    );
    assert_eq!(
        apply_color("rm", ColorKind::Remove, true),
        "\x1b[1m\x1b[35mrm\x1b[39m\x1b[0m"
    );
    assert_eq!(
        apply_color("no", ColorKind::Blocked, true),
        "\x1b[1m\x1b[31mno\x1b[39m\x1b[0m"
    );
    assert_eq!(
        apply_color("", ColorKind::Blocked, true),
        "\x1b[1m\x1b[31m\x1b[39m\x1b[0m"
    );
}

#[test]
fn a_zero_count_is_never_styled() {
    assert_eq!(format_count(0, ColorKind::Add, true), "0");
    assert_eq!(format_count(0, ColorKind::Add, false), "0");
    assert_eq!(format_count(12, ColorKind::Add, false), "12");
    assert_eq!(
        format_count(3, ColorKind::Remove, true),
        "\x1b[1m\x1b[35m3\x1b[39m\x1b[0m"
    );
}

#[test]
fn label_lines() {
    assert_eq!(format_label_lines(&Vec::new(), ColorKind::Add, false), " none");
    let labels = vec![
        label("bug", Some("ff0000"), Some("A bug")),
        label("new", None, None),
        label("doc", None, Some("Docs")),
    ];
    assert_eq!(
        format_label_lines(&labels, ColorKind::Add, false),
        "\n    - bug (#ff0000) \"A bug\"\n    - new\n    - doc \"Docs\""
    );
    assert_eq!(
        format_label_lines(&labels[1..2].to_vec(), ColorKind::Add, true),
        "\n    - \x1b[1m\x1b[32mnew\x1b[39m\x1b[0m"
    );
}

#[test]
fn template_and_remove_lines() {
    assert_eq!(
        format_template_lines(&Vec::new(), ColorKind::Add, false),
        " none"
    );
    let files = vec![
        file("sets/core/.github/ISSUE_TEMPLATE/bug.yml"),
        file(".github/ISSUE_TEMPLATE/feature.yml"),
    ];
    assert_eq!(
        format_template_lines(&files, ColorKind::Update, false),
        "\n    - .github/ISSUE_TEMPLATE/bug.yml\n    - .github/ISSUE_TEMPLATE/feature.yml"
    );
    assert_eq!(format_remove_lines(&Vec::new(), false), " none");
    assert_eq!(
        format_remove_lines(
            &vec![(".github/ISSUE_TEMPLATE/old.yml".to_string(), "s".to_string())],
            true
        ),
        "\n    - \x1b[1m\x1b[35m.github/ISSUE_TEMPLATE/old.yml\x1b[39m\x1b[0m"
    );
}

#[test]
fn blocked_lines() {
    assert_eq!(format_blocked_lines(&Vec::new(), true, false), " none");
    let blocked = vec![
        (
            label("busy", Some("aaaaaa"), None),
            vec![
                LabelUsageEntry {
                    number: 5,
                    url: Some("https://x/5".to_string()),
                    is_pr: false,
                },
                LabelUsageEntry {
                    number: 0,
                    url: Some("https://x/0".to_string()),
                    is_pr: true,
                },
                LabelUsageEntry {
                    number: 7,
                    url: None,
                    is_pr: true,
                },
                LabelUsageEntry {
                    number: 0,
                    url: None,
                    is_pr: false,
                },
            ],
        ),
        (label("quiet", None, Some("q")), Vec::new()),
    ];
    assert_eq!(
        format_blocked_lines(&blocked, false, false),
        "\n    - busy (#aaaaaa)\n    - quiet \"q\""
    );
    assert_eq!(
        format_blocked_lines(&blocked, true, false),
        "\n    - busy (#aaaaaa) -> in use by:\n      - Issue 5 (https://x/5)\n      - PR (https://x/0)\n      - PR 7\n      - Issue\n    - quiet \"q\""
    );
}

#[test]
fn settings_report() {
    assert_eq!(
        format_repo_settings(None, false),
        ("not configured".to_string(), " not configured".to_string())
    );
    let empty = RepoSettingsDiff {
        changes: Vec::new(),
    };
    assert_eq!(
        format_repo_settings(Some(&empty), true),
        ("0".to_string(), " none".to_string())
    );
    let diff = RepoSettingsDiff {
        changes: vec![
            SettingChange {
                field: "allow_merge_commit",
                current: Some("true".to_string()),
                desired: "false".to_string(),
            },
            SettingChange {
                field: "squash_merge_option",
                current: None,
                desired: "PrTitle / Blank".to_string(),
            },
        ],
    };
    assert_eq!(
        format_repo_settings(Some(&diff), false),
        (
            "2".to_string(),
            "\n    - allow_merge_commit: true -> false\n    - squash_merge_option: unset -> PrTitle / Blank"
                .to_string()
        )
    );
}

fn full_rule() -> BranchProtectionRule {
    BranchProtectionRule {
        pattern: "main".to_string(),
        required_status_checks: Some(RequiredStatusChecks {
            strict: Some(true),
            contexts: names(&["ci", "lint"]),
            checks: Some(vec![
                StatusCheck {
                    context: "build".to_string(),
                    app_id: Some(15368),
                },
                StatusCheck {
                    context: "test".to_string(),
                    app_id: None,
                },
            ]),
        }),
        required_pull_request_reviews: Some(RequiredPullRequestReviews {
            dismiss_stale_reviews: Some(true),
            require_code_owner_reviews: Some(false),
            required_approving_review_count: Some(2),
            require_last_push_approval: Some(true),
            dismissal_restrictions: Some(ReviewDismissalRestrictions {
                users: names(&["alice", "bob"]),
                teams: names(&["core"]),
            }),
        }),
        enforce_admins: Some(true),
        restrictions: Some(BranchRestrictions {
            users: names(&["alice"]),
            teams: names(&[]),
            apps: names(&["bot", "ci"]),
        }),
        allow_force_pushes: Some(false),
        allow_deletions: Some(false),
        block_creations: Some(true),
        require_linear_history: Some(true),
        required_conversation_resolution: Some(true),
        required_signatures: Some(false),
    }
}

#[test]
fn rule_details() {
    assert!(branch_rule_details(&rule("main")).is_empty());
    assert_eq!(
        branch_rule_details(&full_rule()),
        vec![
            "status checks strict: true",
            "status contexts: ci, lint",
            "status checks: build (app 15368), test",
            "dismiss stale reviews: true",
            "require code owner reviews: false",
            "required approvals: 2",
            "require last push approval: true",
            "dismissal restrictions: users [alice, bob]; teams [core]",
            "enforce admins: true",
            "allow force pushes: false",
            "allow deletions: false",
            "block creations: true",
            "require linear history: true",
            "require conversation resolution: true",
            "require signatures: false",
            "restrictions: users [alice]; apps [bot, ci]",
        ]
    );
    let mut sparse = rule("main");
    sparse.required_status_checks = Some(RequiredStatusChecks {
        strict: None,
        contexts: names(&[]),
        checks: Some(Vec::new()),
    });
    sparse.restrictions = Some(BranchRestrictions {
        users: None,
        teams: names(&[""]),
        apps: None,
    });
    assert!(branch_rule_details(&sparse).is_empty());
}

#[test]
fn protection_report() {
    assert_eq!(
        format_branch_protection(&Vec::new(), true, false),
        ("0".to_string(), " none".to_string())
    );
    let mut target = rule("main");
    target.enforce_admins = Some(true);
    target.allow_deletions = Some(false);
    let changes = vec![
        BranchProtectionChange {
            pattern: "main".to_string(),
            action: ChangeAction::Create,
            target,
        },
        BranchProtectionChange {
            pattern: "dev".to_string(),
            action: ChangeAction::Update,
            target: rule("dev"),
        },
    ];
    assert_eq!(
        format_branch_protection(&changes, false, false),
        (
            "2".to_string(),
            "\n    - main: create\n    - dev: update".to_string()
        )
    );
    assert_eq!(
        format_branch_protection(&changes, true, false),
        (
            "2".to_string(),
            "\n    - main: create\n      - enforce admins: true\n      - allow deletions: false\n    - dev: update"
                .to_string()
        )
    );
}

fn pr(number: u64, url: Option<&str>) -> PullRequestInfo {
    PullRequestInfo {
        number,
        open: true,
        head_ref: "gh-governor/updates-main".to_string(),
        base_ref: "main".to_string(),
        title: None,
        body: None,
        html_url: url.map(|s| s.to_string()),
    }
}

#[test]
fn pull_request_notes() {
    let mut plan = empty_plan();
    assert_eq!(
        plan_pr_note(&plan, None, "main"),
        ("no PR (no .github file changes)".to_string(), None)
    );
    assert_eq!(
        plan_pr_note(&plan, Some(&pr(7, None)), "main"),
        (
            "existing draft PR #7 already present for .github files".to_string(),
            Some("gh-governor/updates-main".to_string())
        )
    );
    plan.templates_remove
        .push(("p".to_string(), "s".to_string()));
    assert_eq!(
        plan_pr_note(&plan, Some(&pr(7, None)), "main"),
        (
            "draft PR will be updated for .github file updates (reusing #7)".to_string(),
            Some("gh-governor/updates-main".to_string())
        )
    );
    assert_eq!(
        plan_pr_note(&plan, None, "trunk"),
        (
            "draft PR will be created for .github file updates".to_string(),
            Some("gh-governor/updates-trunk".to_string())
        )
    );
}

#[test]
fn pull_request_status() {
    assert_eq!(
        apply_pr_status(None, Some(&pr(7, None)), "main", "org", "repo"),
        "no PR (no .github file changes)"
    );
    assert_eq!(
        apply_pr_status(Some("b"), None, "main", "org", "repo"),
        "no PR created for branch 'b' (no changes to apply)"
    );
    assert_eq!(
        apply_pr_status(Some("b"), Some(&pr(7, None)), "main", "org", "repo"),
        "draft PR #7 (b -> main) [https://github.com/org/repo/pull/7]"
    );
    assert_eq!(
        apply_pr_status(
            Some("b"),
            Some(&pr(7, Some("https://example.com/7"))),
            "main",
            "org",
            "repo"
        ),
        "draft PR #7 (b -> main) [https://example.com/7]"
    );
}

#[test]
fn plan_report() {
    let mut plan = empty_plan();
    plan.templates_add
        .push(file(".github/ISSUE_TEMPLATE/bug.yml"));
    plan.labels_add.push(label("new", None, None));
    plan.blocked_removals
        .push((label("busy", None, None), Vec::new()));
    assert_eq!(
        render_plan("web", &plan, None, "main", false, false),
        "Repo web (plan):\n  Repo settings changes (not configured) : not configured\n  Branch protection (0) : none\n  PR:\n    draft PR will be created for .github file updates on branch 'gh-governor/updates-main'\n\n    .github files add (1) :\n    - .github/ISSUE_TEMPLATE/bug.yml\n    .github files update (0) : none\n    .github files remove (0) : none\n  Add labels (1) :\n    - new\n  Update labels (0) : none\n  Remove labels (0) : none\n  Blocked removals (1) :\n    - busy"
    );
    assert_eq!(
        render_plan("web", &empty_plan(), None, "main", false, true),
        "Repo web (plan):\n  Repo settings changes (not configured) : not configured\n  Branch protection (0) : none\n  PR:\n    no PR (no .github file changes)\n    .github files add (0) : none\n    .github files update (0) : none\n    .github files remove (0) : none\n  Add labels (0) : none\n  Update labels (0) : none\n  Remove labels (0) : none\n  Blocked removals (0) : none"
    );
}

#[test]
fn apply_report() {
    let mut plan = empty_plan();
    plan.templates_update.push((
        file("sets/a/.github/ISSUE_TEMPLATE/bug.yml"),
        "s".to_string(),
    ));
    plan.removable.push(label("gone", Some("aaaaaa"), None));
    assert_eq!(
        render_apply("web", &plan, "no PR (no .github file changes)", false, false),
        "Repo web (apply):\n  Repo settings changes (not configured) : not configured\n  Branch protection (0) : none\n  PR:\n    no PR (no .github file changes)\n    .github files added (0) : none\n    .github files updated (1) :\n    - .github/ISSUE_TEMPLATE/bug.yml\n    .github files removed (0) : none\n  Added labels (0) : none\n  Updated labels (0) : none\n  Removed labels (1) :\n    - gone (#aaaaaa)"
    );
    assert_eq!(skipped_notice("web", &plan, false, false), None);
    plan.blocked_removals
        .push((label("busy", None, None), Vec::new()));
    assert_eq!(
        skipped_notice("web", &plan, false, false),
        Some(
            "Repo web (apply): skipped removal of labels with issues/PRs:\n    - busy".to_string()
        )
    );
}
