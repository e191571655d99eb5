use gh_governor::diff::RemoteLabel;
use gh_governor::gate::LabelUsageEntry;
use gh_governor::merge::MergedRepoConfig;
use gh_governor::plan::plan_repo;
use gh_governor::sets::IssueTemplateFile;
use gh_governor::sets::LabelSpec;
use gh_governor::settings::BranchProtectionConfig;
use gh_governor::settings::BranchProtectionRule;
use gh_governor::settings::RepoSettings;
use gh_governor::staging::RepoFile;
use gh_governor::survey::assemble;
use gh_governor::survey::first_reads;
use gh_governor::survey::second_reads;
use gh_governor::survey::FirstAnswers;
use gh_governor::survey::SecondAnswers;

fn rule(pattern: &str) -> BranchProtectionRule {
    BranchProtectionRule {
        pattern: pattern.to_string(),
        required_status_checks: None,
        required_pull_request_reviews: None,
        enforce_admins: Some(true),
        restrictions: None,
        allow_force_pushes: None,
        allow_deletions: None,
        block_creations: None,
        require_linear_history: None,
        required_conversation_resolution: None,
        required_signatures: None,
    }
}

fn file(path: &str, contents: &str) -> IssueTemplateFile {
    IssueTemplateFile {
        path: path.to_string(),
        contents: contents.to_string(),
    }
}

fn remote(name: &str) -> RemoteLabel {
    RemoteLabel {
        name: name.to_string(),
        color: "aaaaaa".to_string(),
        description: None,
    }
}

fn config() -> MergedRepoConfig {
    MergedRepoConfig {
        labels: vec![LabelSpec {
            name: "bug".to_string(),
            color: Some("aaaaaa".to_string()),
            description: None,
        }],
        issue_templates: vec![file(".github/ISSUE_TEMPLATE/bug.yml", "b")],
        repo_settings: Some(RepoSettings::default()),
        branch_protection: Some(BranchProtectionConfig {
            rules: vec![rule("main"), rule("release/*")],
        }),
        checks: None,
    }
}

fn first_answers() -> FirstAnswers {
    FirstAnswers {
        settings: Some(RepoSettings::default()),
        protection: vec![None, Some(rule("release/*"))],
        files: vec![Some(RepoFile {
            sha: "s1".to_string(),
            content: "old".to_string(),
        })],
        tree: Some(vec![
            ".github/ISSUE_TEMPLATE/bug.yml".to_string(),
            ".github/ISSUE_TEMPLATE/old.yml".to_string(),
            ".github/workflows/ci.yml".to_string(),
        ]),
        labels: vec![remote("zeta"), remote("bug"), remote("alpha")],
    }
}

#[test]
fn the_first_round_reads_what_is_desired() {
    let config = config();
    let desired = config.issue_templates.clone();
    let reads = first_reads(&config, &desired, Some("gh-governor/updates-main"));
    assert!(reads.settings);
    assert_eq!(reads.patterns, vec!["main", "release/*"]);
    assert_eq!(reads.paths, vec![".github/ISSUE_TEMPLATE/bug.yml"]);
    assert_eq!(reads.branch.as_deref(), Some("gh-governor/updates-main"));
    assert!(reads.tree);

    let mut bare = config;
    bare.repo_settings = None;
    bare.branch_protection = None;
    let reads = first_reads(&bare, &Vec::new(), None);
    assert!(!reads.settings);
    assert!(reads.patterns.is_empty());
    assert!(reads.paths.is_empty());
    assert_eq!(reads.branch, None);
    assert!(!reads.tree);
}

#[test]
fn the_second_round_reads_stale_files_and_scans_unwanted_labels() {
    let config = config();
    let desired = config.issue_templates.clone();
    let reads = second_reads(&config, &desired, &first_answers());
    assert_eq!(reads.stale, vec![".github/ISSUE_TEMPLATE/old.yml"]);
    assert_eq!(reads.scans, vec!["alpha", "zeta"]);

    let mut unlisted = first_answers();
    unlisted.tree = None;
    unlisted.labels = vec![remote("bug")];
    let reads = second_reads(&config, &desired, &unlisted);
    assert!(reads.stale.is_empty());
    assert!(reads.scans.is_empty());
}

#[test]
fn answers_are_put_together_one_for_one() {
    let config = config();
    let desired = config.issue_templates.clone();
    let second = SecondAnswers {
        stale: vec![Some(RepoFile {
            sha: "s2".to_string(),
            content: "x".to_string(),
        })],
        usage: vec![
            None,
            Some(vec![LabelUsageEntry {
                number: 3,
                url: None,
                is_pr: false,
            }]),
        ],
    };
    let seen = assemble(&config, &desired, first_answers(), second).expect("observations");
    assert_eq!(seen.protection.len(), 2);
    assert_eq!(seen.protection[0].0, rule("main"));
    assert!(seen.protection[0].1.is_none());
    assert_eq!(seen.protection[1].1, Some(rule("release/*")));
    assert_eq!(seen.files.len(), 1);
    assert_eq!(seen.files[0].0, desired[0]);
    assert_eq!(seen.files[0].1.as_ref().map(|f| f.sha.as_str()), Some("s1"));
    assert_eq!(seen.stale.len(), 1);
    assert_eq!(seen.stale[0].0, ".github/ISSUE_TEMPLATE/old.yml");
    assert_eq!(seen.labels.len(), 3);
    assert_eq!(seen.usage.len(), 2);

    let plan = plan_repo(&config, &seen);
    assert_eq!(plan.bp_changes.len(), 1);
    assert_eq!(plan.templates_update.len(), 1);
    assert_eq!(plan.templates_remove.len(), 1);
    let removable: Vec<&str> = plan.removable.iter().map(|l| l.name.as_str()).collect();
    assert_eq!(removable, vec!["alpha"]);
    assert_eq!(plan.blocked_removals.len(), 1);
    assert_eq!(plan.blocked_removals[0].0.name, "zeta");
}

#[test]
fn answers_that_do_not_fit_are_refused() {
    let config = config();
    let desired = config.issue_templates.clone();
    let complete = || SecondAnswers {
        stale: vec![None],
        usage: vec![None, None],
    };
    assert!(assemble(&config, &desired, first_answers(), complete()).is_some());

    let mut short = first_answers();
    short.protection.pop();
    assert!(assemble(&config, &desired, short, complete()).is_none());

    let mut long = first_answers();
    long.files.push(None);
    assert!(assemble(&config, &desired, long, complete()).is_none());

    let mut missing_scan = complete();
    missing_scan.usage.pop();
    assert!(assemble(&config, &desired, first_answers(), missing_scan).is_none());

    let mut extra_file = complete();
    extra_file.stale.push(None);
    assert!(assemble(&config, &desired, first_answers(), extra_file).is_none());
}
