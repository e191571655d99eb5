use gh_governor::diff::diff_repo_settings;
use gh_governor::settings::MergeCommitMessageOption;
use gh_governor::settings::PullRequestSettings;
use gh_governor::settings::RepoSettings;
use gh_governor::settings::SquashMergeOption;

fn unset() -> PullRequestSettings {
    PullRequestSettings {
        allow_merge_commit: None,
        allow_squash_merge: None,
        allow_rebase_merge: None,
        allow_auto_merge: None,
        delete_branch_on_merge: None,
        merge_commit_message_option: None,
        squash_merge_option: None,
    }
}

#[test]
fn computes_repo_settings_diff() {
    let desired = RepoSettings {
        pull_requests: Some(PullRequestSettings {
            allow_merge_commit: Some(false),
            allow_squash_merge: Some(true),
            allow_rebase_merge: None,
            allow_auto_merge: Some(true),
            delete_branch_on_merge: Some(true),
            merge_commit_message_option: None,
            squash_merge_option: None,
        }),
    };
    let current = RepoSettings {
        pull_requests: Some(PullRequestSettings {
            allow_merge_commit: Some(true),
            allow_squash_merge: Some(true),
            allow_rebase_merge: Some(true),
            allow_auto_merge: Some(false),
            delete_branch_on_merge: Some(false),
            merge_commit_message_option: None,
            squash_merge_option: None,
        }),
    };

    let diff = diff_repo_settings(&desired, &current);
    assert_eq!(diff.changes.len(), 3);
    assert!(diff.changes.iter().any(|c| c.field == "allow_merge_commit"
        && c.current == Some("true".to_string())
        && c.desired == "false"));
    assert!(diff.changes.iter().any(|c| c.field == "allow_auto_merge"
        && c.current == Some("false".to_string())
        && c.desired == "true"));
    assert!(diff
        .changes
        .iter()
        .any(|c| c.field == "delete_branch_on_merge"
            && c.current == Some("false".to_string())
            && c.desired == "true"));
    // unchanged or unspecified fields should not show up
    assert!(!diff.changes.iter().any(|c| c.field == "allow_squash_merge"));
    assert!(!diff.changes.iter().any(|c| c.field == "allow_rebase_merge"));
}

#[test]
fn detects_squash_and_merge_options_change() {
    let desired = RepoSettings {
        pull_requests: Some(PullRequestSettings {
            merge_commit_message_option: Some(
                MergeCommitMessageOption::PullRequestTitleAndDescription,
            ),
            squash_merge_option: Some(SquashMergeOption::PullRequestTitleAndDescription),
            ..unset()
        }),
    };
    let current = RepoSettings {
        pull_requests: Some(unset()),
    };

    let diff = diff_repo_settings(&desired, &current);
    assert_eq!(diff.changes.len(), 2);
    assert!(diff
        .changes
        .iter()
        .any(|c| c.field == "squash_merge_option"));
    assert!(diff
        .changes
        .iter()
        .any(|c| c.field == "merge_commit_message_option"));
}

#[test]
fn only_the_one_desired_setting_is_entered() {
    let desired = RepoSettings {
        pull_requests: Some(PullRequestSettings {
            allow_merge_commit: Some(false),
            ..unset()
        }),
    };
    let current = RepoSettings {
        pull_requests: Some(PullRequestSettings {
            allow_merge_commit: Some(true),
            allow_squash_merge: Some(true),
            allow_rebase_merge: Some(false),
            allow_auto_merge: Some(true),
            ..unset()
        }),
    };
    let diff = diff_repo_settings(&desired, &current);
    assert_eq!(diff.changes.len(), 1);
    assert_eq!(diff.changes[0].field, "allow_merge_commit");
    assert_eq!(diff.changes[0].current, Some("true".to_string()));
    assert_eq!(diff.changes[0].desired, "false");
}

#[test]
fn no_desired_pull_request_settings_give_no_entry() {
    let desired = RepoSettings { pull_requests: None };
    let current = RepoSettings {
        pull_requests: Some(PullRequestSettings {
            allow_merge_commit: Some(true),
            ..unset()
        }),
    };
    assert!(diff_repo_settings(&desired, &current).changes.is_empty());
    assert!(diff_repo_settings(&RepoSettings::default(), &current)
        .changes
        .is_empty());
}

#[test]
fn an_unobserved_setting_is_reported_as_unset() {
    let desired = RepoSettings {
        pull_requests: Some(PullRequestSettings {
            allow_auto_merge: Some(true),
            delete_branch_on_merge: Some(false),
            ..unset()
        }),
    };
    let diff = diff_repo_settings(&desired, &RepoSettings { pull_requests: None });
    assert_eq!(diff.changes.len(), 2);
    assert_eq!(diff.changes[0].field, "allow_auto_merge");
    assert_eq!(diff.changes[0].current, None);
    assert_eq!(diff.changes[0].desired, "true");
    assert_eq!(diff.changes[1].field, "delete_branch_on_merge");
    assert_eq!(diff.changes[1].current, None);
    assert_eq!(diff.changes[1].desired, "false");
}

#[test]
fn entries_follow_the_order_of_the_settings() {
    let desired = RepoSettings {
        pull_requests: Some(PullRequestSettings {
            allow_merge_commit: Some(true),
            allow_squash_merge: Some(true),
            allow_rebase_merge: Some(true),
            allow_auto_merge: Some(true),
            delete_branch_on_merge: Some(true),
            merge_commit_message_option: Some(MergeCommitMessageOption::DefaultMessage),
            squash_merge_option: Some(SquashMergeOption::PullRequestTitleAndCommitDetails),
        }),
    };
    let diff = diff_repo_settings(&desired, &RepoSettings { pull_requests: None });
    let fields: Vec<&str> = diff.changes.iter().map(|c| c.field).collect();
    assert_eq!(
        fields,
        vec![
            "allow_merge_commit",
            "allow_squash_merge",
            "allow_rebase_merge",
            "allow_auto_merge",
            "delete_branch_on_merge",
            "merge_commit_message_option",
            "squash_merge_option"
        ]
    );
    assert_eq!(diff.changes[5].desired, "MergeMessage / PrTitle");
    assert_eq!(diff.changes[5].current, None);
    assert_eq!(diff.changes[6].desired, "PrTitle / CommitMessages");
}

#[test]
fn an_option_is_entered_even_when_nothing_else_differs() {
    let desired = RepoSettings {
        pull_requests: Some(PullRequestSettings {
            allow_merge_commit: Some(true),
            squash_merge_option: Some(SquashMergeOption::PullRequestTitle),
            ..unset()
        }),
    };
    let current = RepoSettings {
        pull_requests: Some(PullRequestSettings {
            allow_merge_commit: Some(true),
            ..unset()
        }),
    };
    let diff = diff_repo_settings(&desired, &current);
    assert_eq!(diff.changes.len(), 1);
    assert_eq!(diff.changes[0].field, "squash_merge_option");
    assert_eq!(diff.changes[0].desired, "PrTitle / Blank");
}
