use gh_governor::diff::RemoteLabel;
use gh_governor::diff::RepoSettingsDiff;
use gh_governor::diff::SettingChange;
use gh_governor::gate::LabelUsageEntry;
use gh_governor::merge::MergedRepoConfig;
use gh_governor::plan::plan_repo;
use gh_governor::plan::Observations;
use gh_governor::protection::BranchProtectionChange;
use gh_governor::protection::ChangeAction;
use gh_governor::reconcile::apply_writes;
use gh_governor::reconcile::comparison_branch;
use gh_governor::reconcile::find_governance_pr;
use gh_governor::reconcile::governance_branch;
use gh_governor::reconcile::looks_up_pull_request;
use gh_governor::reconcile::opens_pull_request;
use gh_governor::reconcile::pr_body;
use gh_governor::reconcile::pr_title;
use gh_governor::reconcile::staging_branch_of;
use gh_governor::reconcile::pr_branch_prefix;
use gh_governor::reconcile::PullRequestInfo;
use gh_governor::reconcile::RepoPlan;
use gh_governor::reconcile::Write;
use gh_governor::sets::IssueTemplateFile;
use gh_governor::sets::LabelSpec;
use gh_governor::settings::BranchProtectionRule;
use gh_governor::settings::PullRequestSettings;
use gh_governor::settings::RepoSettings;
use gh_governor::staging::RepoFile;

const TITLE: &str = "gh-governor updates (2026-01-31)";
const BODY: &str = "Automated .github updates via gh-governor";

fn empty_plan() -> RepoPlan {
    RepoPlan {
        settings_diff: None,
        desired_settings: None,
        bp_changes: Vec::new(),
        templates_add: Vec::new(),
        templates_update: Vec::new(),
        templates_remove: Vec::new(),
        labels_add: Vec::new(),
        labels_update: Vec::new(),
        blocked_removals: Vec::new(),
        removable: Vec::new(),
    }
}

fn file(path: &str, contents: &str) -> IssueTemplateFile {
    IssueTemplateFile {
        path: path.to_string(),
        contents: contents.to_string(),
    }
}

fn label(name: &str) -> LabelSpec {
    LabelSpec {
        name: name.to_string(),
        color: None,
        description: None,
    }
}

fn rule(pattern: &str) -> BranchProtectionRule {
    BranchProtectionRule {
        pattern: pattern.to_string(),
        required_status_checks: None,
        required_pull_request_reviews: None,
        enforce_admins: Some(true),
        restrictions: None,
        allow_force_pushes: None,
        allow_deletions: None,
        block_creations: None,
        require_linear_history: None,
        required_conversation_resolution: None,
        required_signatures: None,
    }
}

fn pr(number: u64, head: &str, title: Option<&str>, body: Option<&str>) -> PullRequestInfo {
    PullRequestInfo {
        number,
        open: true,
        head_ref: head.to_string(),
        base_ref: "main".to_string(),
        title: title.map(|s| s.to_string()),
        body: body.map(|s| s.to_string()),
        html_url: None,
    }
}

fn settings(allow_merge_commit: Option<bool>) -> RepoSettings {
    RepoSettings {
        pull_requests: Some(PullRequestSettings {
            allow_merge_commit,
            allow_squash_merge: None,
            allow_rebase_merge: None,
            allow_auto_merge: None,
            delete_branch_on_merge: None,
            merge_commit_message_option: None,
            squash_merge_option: None,
        }),
    }
}

#[test]
fn governance_branch_is_prefix_and_base() {
    assert_eq!(pr_branch_prefix(), "gh-governor/updates-");
    assert_eq!(governance_branch("main"), "gh-governor/updates-main");
    assert_eq!(governance_branch(""), "gh-governor/updates-");
}

#[test]
fn the_first_open_governance_pr_into_the_base_is_found() {
    let mut closed = pr(1, "gh-governor/updates-main", None, None);
    closed.open = false;
    let mut other_base = pr(2, "gh-governor/updates-dev", None, None);
    other_base.base_ref = "dev".to_string();
    let prs = vec![
        pr(3, "feature/x", None, None),
        closed,
        other_base,
        pr(4, "gh-governor/updates-main", None, None),
        pr(5, "gh-governor/updates-main-2", None, None),
    ];
    assert_eq!(
        find_governance_pr(&prs, "gh-governor/updates-", "main"),
        Some(3)
    );
    assert_eq!(
        find_governance_pr(&prs, "gh-governor/updates-", "dev"),
        Some(2)
    );
    assert_eq!(
        find_governance_pr(&prs, "gh-governor/updates-", "release"),
        None
    );
    assert_eq!(find_governance_pr(&Vec::new(), "x", "main"), None);
    assert_eq!(
        comparison_branch(Some(&prs[3])),
        Some("gh-governor/updates-main".to_string())
    );
    assert_eq!(comparison_branch(None), None);
}

#[test]
fn a_new_file_opens_a_branch_and_a_draft_pull_request() {
    let mut plan = empty_plan();
    plan.templates_add
        .push(file(".github/ISSUE_TEMPLATE/bug.yml", "name: Bug\n"));
    let writes = apply_writes(&plan, None, "main", TITLE);
    assert_eq!(writes.len(), 3);
    match &writes[0] {
        Write::CreateBranch { name, from } => {
            assert_eq!(name, "gh-governor/updates-main");
            assert_eq!(from, "main");
        }
        other => panic!("expected a branch, got {:?}", other),
    }
    match &writes[1] {
        Write::PutFile {
            path,
            content,
            sha,
            message,
            branch,
        } => {
            assert_eq!(path, ".github/ISSUE_TEMPLATE/bug.yml");
            assert_eq!(content, "name: Bug\n");
            assert_eq!(sha, &None);
            assert_eq!(
                message,
                "Add .github file .github/ISSUE_TEMPLATE/bug.yml via gh-governor"
            );
            assert_eq!(branch, "gh-governor/updates-main");
        }
        other => panic!("expected a file, got {:?}", other),
    }
    match &writes[2] {
        Write::CreatePullRequest {
            title,
            head,
            base,
            body,
            draft,
        } => {
            assert_eq!(title, TITLE);
            assert_eq!(head, "gh-governor/updates-main");
            assert_eq!(base, "main");
            assert_eq!(body.as_deref(), Some(BODY));
            assert!(*draft);
        }
        other => panic!("expected a pull request, got {:?}", other),
    }
}

#[test]
fn an_open_pull_request_is_reused_and_refreshed_only_when_it_differs() {
    let mut plan = empty_plan();
    plan.templates_update.push((
        file(".github/ISSUE_TEMPLATE/bug.yml", "new"),
        "sha1".to_string(),
    ));
    plan.templates_remove.push((
        ".github/ISSUE_TEMPLATE/old.yml".to_string(),
        "sha2".to_string(),
    ));
    let existing = pr(
        9,
        "gh-governor/updates-main",
        Some("gh-governor updates (2026-01-30)"),
        Some(BODY),
    );
    let writes = apply_writes(&plan, Some(&existing), "main", TITLE);
    assert_eq!(writes.len(), 3);
    match &writes[0] {
        Write::PutFile {
            sha,
            message,
            branch,
            ..
        } => {
            assert_eq!(sha.as_deref(), Some("sha1"));
            assert_eq!(
                message,
                "Update .github file .github/ISSUE_TEMPLATE/bug.yml via gh-governor"
            );
            assert_eq!(branch, "gh-governor/updates-main");
        }
        other => panic!("expected a file, got {:?}", other),
    }
    match &writes[1] {
        Write::DeleteFile {
            path,
            sha,
            message,
            branch,
        } => {
            assert_eq!(path, ".github/ISSUE_TEMPLATE/old.yml");
            assert_eq!(sha, "sha2");
            assert_eq!(
                message,
                "Remove .github file .github/ISSUE_TEMPLATE/old.yml via gh-governor"
            );
            assert_eq!(branch, "gh-governor/updates-main");
        }
        other => panic!("expected a removal, got {:?}", other),
    }
    match &writes[2] {
        Write::UpdatePullRequest {
            number,
            title,
            body,
        } => {
            assert_eq!(*number, 9);
            assert_eq!(title, TITLE);
            assert_eq!(body.as_deref(), Some(BODY));
        }
        other => panic!("expected an update of the pull request, got {:?}", other),
    }

    let current = pr(9, "gh-governor/updates-main", Some(TITLE), Some(BODY));
    let writes = apply_writes(&plan, Some(&current), "main", TITLE);
    assert_eq!(writes.len(), 2);
    assert!(!writes
        .iter()
        .any(|w| matches!(w, Write::UpdatePullRequest { .. })));
}

#[test]
fn a_settled_plan_writes_nothing() {
    let mut plan = empty_plan();
    plan.settings_diff = Some(RepoSettingsDiff {
        changes: Vec::new(),
    });
    plan.desired_settings = Some(settings(Some(true)));
    plan.blocked_removals.push((label("busy"), Vec::new()));
    assert!(apply_writes(&plan, None, "main", TITLE).is_empty());
    let current = pr(9, "gh-governor/updates-main", Some(TITLE), Some(BODY));
    assert!(apply_writes(&plan, Some(&current), "main", TITLE).is_empty());
}

#[test]
fn removals_alone_open_no_branch() {
    let mut plan = empty_plan();
    plan.templates_remove.push((
        ".github/ISSUE_TEMPLATE/old.yml".to_string(),
        "sha2".to_string(),
    ));
    assert!(apply_writes(&plan, None, "main", TITLE).is_empty());
}

#[test]
fn writes_come_in_the_order_of_the_stages() {
    let mut plan = empty_plan();
    plan.settings_diff = Some(RepoSettingsDiff {
        changes: vec![SettingChange {
            field: "allow_merge_commit",
            current: Some("true".to_string()),
            desired: "false".to_string(),
        }],
    });
    plan.desired_settings = Some(settings(Some(false)));
    plan.bp_changes.push(BranchProtectionChange {
        pattern: "main".to_string(),
        action: ChangeAction::Create,
        target: rule("main"),
    });
    plan.templates_add
        .push(file(".github/ISSUE_TEMPLATE/a.yml", "a"));
    plan.labels_add.push(label("new"));
    plan.labels_update.push(label("changed"));
    plan.removable.push(label("gone"));
    plan.blocked_removals.push((
        label("busy"),
        vec![LabelUsageEntry {
            number: 1,
            url: None,
            is_pr: false,
        }],
    ));
    let writes = apply_writes(&plan, None, "main", TITLE);
    let kinds: Vec<&str> = writes
        .iter()
        .map(|w| match w {
            Write::UpdateRepoSettings(_) => "settings",
            Write::SetBranchProtection(_) => "protection",
            Write::CreateBranch { .. } => "branch",
            Write::PutFile { .. } => "put",
            Write::DeleteFile { .. } => "delete",
            Write::CreateLabel(_) => "create-label",
            Write::UpdateLabel(_) => "update-label",
            Write::DeleteLabel(_) => "delete-label",
            Write::UpdatePullRequest { .. } => "update-pr",
            Write::CreatePullRequest { .. } => "create-pr",
        })
        .collect();
    assert_eq!(
        kinds,
        vec![
            "settings",
            "protection",
            "branch",
            "put",
            "create-label",
            "update-label",
            "delete-label",
            "create-pr"
        ]
    );
    match &writes[0] {
        Write::UpdateRepoSettings(s) => assert_eq!(*s, settings(Some(false))),
        other => panic!("expected settings, got {:?}", other),
    }
    match &writes[1] {
        Write::SetBranchProtection(r) => assert_eq!(*r, rule("main")),
        other => panic!("expected a rule, got {:?}", other),
    }
    match &writes[6] {
        Write::DeleteLabel(name) => assert_eq!(name, "gone"),
        other => panic!("expected a label deletion, got {:?}", other),
    }
    assert!(!writes
        .iter()
        .any(|w| matches!(w, Write::DeleteLabel(name) if name == "busy")));
}

fn config() -> MergedRepoConfig {
    MergedRepoConfig {
        labels: vec![
            LabelSpec {
                name: "bug".to_string(),
                color: Some("#ff0000".to_string()),
                description: Some("bug".to_string()),
            },
            label("new"),
        ],
        issue_templates: vec![file(".github/ISSUE_TEMPLATE/bug.yml", "name: Bug\n")],
        repo_settings: Some(settings(Some(false))),
        branch_protection: None,
        checks: None,
    }
}

#[test]
fn a_plan_holds_every_dimension() {
    let config = config();
    let old = LabelSpec {
        name: "old".to_string(),
        color: Some("aaaaaa".to_string()),
        description: Some("old".to_string()),
    };
    let stale = LabelSpec {
        name: "stale".to_string(),
        color: Some("bbbbbb".to_string()),
        description: None,
    };
    let seen = Observations {
        settings: settings(Some(true)),
        protection: vec![(rule("main"), None)],
        files: vec![(config.issue_templates[0].clone(), None)],
        stale: vec![(
            ".github/ISSUE_TEMPLATE/old.yml".to_string(),
            Some(RepoFile {
                sha: "s".to_string(),
                content: "x".to_string(),
            }),
        )],
        labels: vec![
            RemoteLabel {
                name: "bug".to_string(),
                color: "00ff00".to_string(),
                description: Some("bug".to_string()),
            },
            RemoteLabel {
                name: "old".to_string(),
                color: "aaaaaa".to_string(),
                description: Some("old".to_string()),
            },
            RemoteLabel {
                name: "stale".to_string(),
                color: "bbbbbb".to_string(),
                description: None,
            },
        ],
        usage: vec![
            Some(vec![LabelUsageEntry {
                number: 5,
                url: None,
                is_pr: false,
            }]),
            None,
        ],
    };
    let plan = plan_repo(&config, &seen);
    assert_eq!(plan.settings_diff.as_ref().map(|d| d.changes.len()), Some(1));
    assert_eq!(plan.desired_settings, config.repo_settings);
    assert_eq!(plan.bp_changes.len(), 1);
    assert_eq!(plan.templates_add, config.issue_templates);
    assert!(plan.templates_update.is_empty());
    assert_eq!(plan.templates_remove.len(), 1);
    assert_eq!(plan.labels_add, vec![label("new")]);
    assert_eq!(plan.labels_update, vec![config.labels[0].clone()]);
    assert_eq!(plan.blocked_removals.len(), 1);
    assert_eq!(plan.blocked_removals[0].0, old);
    assert_eq!(plan.removable, vec![stale]);
}

#[test]
fn a_label_whose_scan_is_missing_is_not_deleted() {
    let mut config = config();
    config.labels = Vec::new();
    config.issue_templates = Vec::new();
    config.repo_settings = None;
    let seen = Observations {
        settings: RepoSettings::default(),
        protection: Vec::new(),
        files: Vec::new(),
        stale: Vec::new(),
        labels: vec![
            RemoteLabel {
                name: "b".to_string(),
                color: "BBBBBB".to_string(),
                description: None,
            },
            RemoteLabel {
                name: "a".to_string(),
                color: "aaaaaa".to_string(),
                description: None,
            },
        ],
        usage: vec![None],
    };
    let plan = plan_repo(&config, &seen);
    let removable: Vec<&str> = plan.removable.iter().map(|l| l.name.as_str()).collect();
    assert_eq!(removable, vec!["a"]);
    assert_eq!(plan.blocked_removals.len(), 1);
    assert_eq!(plan.blocked_removals[0].0.name, "b");
    assert_eq!(plan.blocked_removals[0].0.color.as_deref(), Some("bbbbbb"));
    assert!(plan.blocked_removals[0].1.is_empty());
    let writes = apply_writes(&plan, None, "main", TITLE);
    assert_eq!(writes.len(), 1);
    assert!(matches!(&writes[0], Write::DeleteLabel(name) if name == "a"));
}

#[test]
fn a_second_run_against_an_unchanged_state_writes_nothing() {
    let mut config = config();
    config.labels = vec![LabelSpec {
        name: "bug".to_string(),
        color: Some("#FF0000".to_string()),
        description: Some("bug".to_string()),
    }];
    let desired_rule = rule("main");
    let seen = Observations {
        settings: settings(Some(false)),
        protection: vec![(desired_rule.clone(), Some(desired_rule))],
        files: vec![(
            config.issue_templates[0].clone(),
            Some(RepoFile {
                sha: "s".to_string(),
                content: "name: Bug\n".to_string(),
            }),
        )],
        stale: Vec::new(),
        labels: vec![RemoteLabel {
            name: "bug".to_string(),
            color: "ff0000".to_string(),
            description: Some("bug".to_string()),
        }],
        usage: Vec::new(),
    };
    let plan = plan_repo(&config, &seen);
    let current = pr(9, "gh-governor/updates-main", Some(TITLE), Some(BODY));
    assert!(apply_writes(&plan, Some(&current), "main", TITLE).is_empty());
    assert!(apply_writes(&plan, None, "main", TITLE).is_empty());
}

#[test]
fn the_pull_request_is_looked_up_around_the_writes() {
    let mut plan = empty_plan();
    let open = pr(9, "gh-governor/updates-trunk", None, None);
    assert!(!looks_up_pull_request(&plan, None));
    assert!(looks_up_pull_request(&plan, Some(&open)));
    assert!(!opens_pull_request(&plan, None));
    assert_eq!(staging_branch_of(&plan, None, "main"), None);
    assert_eq!(
        staging_branch_of(&plan, Some(&open), "main").as_deref(),
        Some("gh-governor/updates-trunk")
    );
    plan.templates_add.push(file("p", "c"));
    assert!(looks_up_pull_request(&plan, None));
    assert!(opens_pull_request(&plan, None));
    assert!(!opens_pull_request(&plan, Some(&open)));
    assert_eq!(
        staging_branch_of(&plan, None, "main").as_deref(),
        Some("gh-governor/updates-main")
    );
}

#[test]
fn the_title_bears_the_date() {
    assert_eq!(pr_title("2026-01-31"), TITLE);
    assert_eq!(pr_body(), BODY);
}
