use gh_governor::merge::merge_or_conflict;
use gh_governor::merge::merge_sets_for_repo;
use gh_governor::merge::MergeError;
use gh_governor::sets::ChecksConfig;
use gh_governor::sets::IssueTemplateFile;
use gh_governor::sets::LabelSpec;
use gh_governor::sets::SetDefinition;
use gh_governor::settings::BranchProtectionConfig;
use gh_governor::settings::PullRequestSettings;
use gh_governor::settings::RepoSettings;

fn base_set(name: &str) -> SetDefinition {
    SetDefinition {
        name: name.to_string(),
        path: "".into(),
        labels: Vec::new(),
        issue_templates: Vec::new(),
        repo_settings: None,
        branch_protection: None,
        checks: None,
    }
}

fn label(name: &str, color: Option<&str>, desc: Option<&str>) -> LabelSpec {
    LabelSpec {
        name: name.to_string(),
        color: color.map(|s| s.to_string()),
        description: desc.map(|s| s.to_string()),
    }
}

fn settings(allow_merge_commit: bool) -> RepoSettings {
    RepoSettings {
        pull_requests: Some(PullRequestSettings {
            allow_merge_commit: Some(allow_merge_commit),
            allow_squash_merge: None,
            allow_rebase_merge: None,
            allow_auto_merge: None,
            delete_branch_on_merge: None,
            merge_commit_message_option: None,
            squash_merge_option: None,
        }),
    }
}

#[test]
fn merges_labels_without_conflict() {
    let mut a = base_set("a");
    a.labels.push(LabelSpec {
        name: "bug".to_string(),
        color: Some("ff0000".to_string()),
        description: Some("A bug".to_string()),
    });
    let mut b = base_set("b");
    b.labels.push(LabelSpec {
        name: "feature".to_string(),
        color: None,
        description: None,
    });
    let merged = merge_sets_for_repo(&[a, b]).unwrap();
    assert_eq!(merged.labels.len(), 2);
}

#[test]
fn detects_label_conflict() {
    let mut a = base_set("a");
    a.labels.push(LabelSpec {
        name: "bug".to_string(),
        color: Some("ff0000".to_string()),
        description: None,
    });
    let mut b = base_set("b");
    b.labels.push(LabelSpec {
        name: "bug".to_string(),
        color: Some("00ff00".to_string()),
        description: None,
    });
    assert!(matches!(
        merge_sets_for_repo(&[a, b]),
        Err(MergeError::LabelConflict(_))
    ));
}

#[test]
fn detects_template_conflict() {
    let mut a = base_set("a");
    a.issue_templates.push(IssueTemplateFile {
        path: ".github/ISSUE_TEMPLATE/bug.yml".to_string(),
        contents: String::new(),
    });
    let mut b = base_set("b");
    b.issue_templates.push(IssueTemplateFile {
        path: ".github/ISSUE_TEMPLATE/bug.yml".to_string(),
        contents: String::new(),
    });
    assert!(matches!(
        merge_sets_for_repo(&[a, b]),
        Err(MergeError::TemplateConflict(_))
    ));
}

#[test]
fn label_conflict_names_the_label_in_either_order() {
    let mut a = base_set("a");
    a.labels.push(label("bug", Some("ff0000"), None));
    let mut b = base_set("b");
    b.labels.push(label("bug", Some("00ff00"), None));
    match merge_sets_for_repo(&[a.clone(), b.clone()]) {
        Err(MergeError::LabelConflict(name)) => assert_eq!(name, "bug"),
        other => panic!("expected a label conflict, got {:?}", other),
    }
    match merge_sets_for_repo(&[b, a]) {
        Err(MergeError::LabelConflict(name)) => assert_eq!(name, "bug"),
        other => panic!("expected a label conflict, got {:?}", other),
    }
}

#[test]
fn identical_redefinition_merges_the_same_in_either_order() {
    let mut a = base_set("a");
    a.labels.push(label("bug", Some("ff0000"), Some("A bug")));
    a.labels.push(label("zeta", None, None));
    let mut b = base_set("b");
    b.labels.push(label("alpha", Some("00ff00"), None));
    b.labels.push(label("bug", Some("ff0000"), Some("A bug")));
    let ab = merge_sets_for_repo(&[a.clone(), b.clone()]).unwrap();
    let ba = merge_sets_for_repo(&[b, a]).unwrap();
    assert_eq!(ab.labels, ba.labels);
    assert_eq!(
        ab.labels,
        vec![
            label("alpha", Some("00ff00"), None),
            label("bug", Some("ff0000"), Some("A bug")),
            label("zeta", None, None)
        ]
    );
}

#[test]
fn colors_that_differ_only_in_form_do_not_conflict() {
    let mut a = base_set("a");
    a.labels.push(label("bug", Some("#FF0000"), None));
    let mut b = base_set("b");
    b.labels.push(label("bug", Some("ff0000"), None));
    let merged = merge_sets_for_repo(&[a, b]).unwrap();
    assert_eq!(merged.labels, vec![label("bug", Some("#FF0000"), None)]);
}

#[test]
fn a_differing_description_is_a_label_conflict() {
    let mut a = base_set("a");
    a.labels.push(label("bug", Some("ff0000"), Some("one")));
    let mut b = base_set("b");
    b.labels.push(label("bug", Some("ff0000"), Some("two")));
    assert!(matches!(
        merge_sets_for_repo(&[a, b]),
        Err(MergeError::LabelConflict(_))
    ));
}

#[test]
fn template_conflict_is_keyed_by_canonical_path() {
    let mut a = base_set("a");
    a.issue_templates.push(IssueTemplateFile {
        path: "sets/a/.github/ISSUE_TEMPLATE/bug.yml".to_string(),
        contents: "one".to_string(),
    });
    let mut b = base_set("b");
    b.issue_templates.push(IssueTemplateFile {
        path: "sets/b/.github/ISSUE_TEMPLATE/bug.yml".to_string(),
        contents: "one".to_string(),
    });
    match merge_sets_for_repo(&[a, b]) {
        Err(MergeError::TemplateConflict(path)) => {
            assert_eq!(path, ".github/ISSUE_TEMPLATE/bug.yml")
        }
        other => panic!("expected a template conflict, got {:?}", other),
    }
}

#[test]
fn templates_keep_the_order_of_the_sets() {
    let mut a = base_set("a");
    a.issue_templates.push(IssueTemplateFile {
        path: ".github/ISSUE_TEMPLATE/z.yml".to_string(),
        contents: "z".to_string(),
    });
    let mut b = base_set("b");
    b.issue_templates.push(IssueTemplateFile {
        path: ".github/ISSUE_TEMPLATE/a.yml".to_string(),
        contents: "a".to_string(),
    });
    let merged = merge_sets_for_repo(&[a, b]).unwrap();
    let paths: Vec<&str> = merged
        .issue_templates
        .iter()
        .map(|t| t.path.as_str())
        .collect();
    assert_eq!(
        paths,
        vec![".github/ISSUE_TEMPLATE/z.yml", ".github/ISSUE_TEMPLATE/a.yml"]
    );
}

#[test]
fn scalar_resources_may_repeat_but_not_differ() {
    let mut a = base_set("a");
    a.repo_settings = Some(settings(true));
    a.checks = Some(ChecksConfig::default());
    let mut b = base_set("b");
    b.repo_settings = Some(settings(true));
    b.checks = Some(ChecksConfig::default());
    let merged = merge_sets_for_repo(&[a.clone(), b.clone()]).unwrap();
    assert_eq!(merged.repo_settings, Some(settings(true)));
    assert_eq!(merged.checks, Some(ChecksConfig::default()));

    b.repo_settings = Some(settings(false));
    match merge_sets_for_repo(&[a.clone(), b.clone()]) {
        Err(MergeError::GenericConflict(what)) => assert_eq!(what, "repo settings"),
        other => panic!("expected a conflict, got {:?}", other),
    }

    b.repo_settings = None;
    b.checks = Some(ChecksConfig {
        require_codeowners: false,
        warn_on_inactive_owners: true,
    });
    match merge_sets_for_repo(&[a.clone(), b.clone()]) {
        Err(MergeError::GenericConflict(what)) => assert_eq!(what, "checks"),
        other => panic!("expected a conflict, got {:?}", other),
    }

    b.checks = None;
    a.branch_protection = Some(BranchProtectionConfig { rules: Vec::new() });
    b.branch_protection = Some(BranchProtectionConfig::default());
    assert!(merge_sets_for_repo(&[a, b]).is_ok());
}

#[test]
fn no_sets_merge_to_nothing() {
    let merged = merge_sets_for_repo(&[]).unwrap();
    assert!(merged.labels.is_empty());
    assert!(merged.issue_templates.is_empty());
    assert!(merged.repo_settings.is_none());
    assert!(merged.branch_protection.is_none());
    assert!(merged.checks.is_none());
}

#[test]
fn the_first_conflict_in_order_is_reported() {
    let mut a = base_set("a");
    a.labels.push(label("bug", Some("ff0000"), None));
    a.repo_settings = Some(settings(true));
    let mut b = base_set("b");
    b.labels.push(label("bug", Some("00ff00"), None));
    b.repo_settings = Some(settings(false));
    assert!(matches!(
        merge_sets_for_repo(&[a, b]),
        Err(MergeError::LabelConflict(_))
    ));
}

#[test]
fn merge_or_conflict_keeps_takes_or_refuses() {
    assert_eq!(
        merge_or_conflict(None, settings(true), "repo settings").unwrap(),
        Some(settings(true))
    );
    assert_eq!(
        merge_or_conflict(Some(settings(true)), settings(true), "repo settings").unwrap(),
        Some(settings(true))
    );
    match merge_or_conflict(Some(settings(true)), settings(false), "repo settings") {
        Err(MergeError::GenericConflict(what)) => assert_eq!(what, "repo settings"),
        other => panic!("expected a conflict, got {:?}", other),
    }
}

#[test]
fn merge_errors_are_reported_in_words() {
    assert_eq!(
        MergeError::LabelConflict("bug".to_string()).message(),
        "label conflict for 'bug' between sets; definitions differ"
    );
    assert_eq!(
        MergeError::TemplateConflict(".github/x.yml".to_string()).message(),
        "issue template conflict for '.github/x.yml' between sets"
    );
    assert_eq!(
        MergeError::GenericConflict("checks".to_string()).message(),
        "checks conflict between sets"
    );
}
