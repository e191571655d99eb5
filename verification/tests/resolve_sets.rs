use gh_governor::config::RepoConfig;
use gh_governor::config::RootConfig;
use gh_governor::resolve::cached_sets;
use gh_governor::merge::merge_sets_for_repo;
use gh_governor::merge::MergeError;
use gh_governor::resolve::detect_template_conflicts;
use gh_governor::resolve::first_file_conflict;
use gh_governor::resolve::offending_sets;
use gh_governor::sets::ChecksConfig;
use gh_governor::resolve::is_selected;
use gh_governor::resolve::resolve_repo;
use gh_governor::resolve::set_names_for;
use gh_governor::resolve::RepoConflict;
use gh_governor::resolve::Resolution;
use gh_governor::resolve::SetCache;
use gh_governor::sets::IssueTemplateFile;
use gh_governor::sets::LabelSpec;
use gh_governor::sets::SetDefinition;
use std::path::PathBuf;

fn set_with_tpl(name: &str, path: &str, contents: &str) -> SetDefinition {
    SetDefinition {
        name: name.to_string(),
        path: PathBuf::new(),
        labels: Vec::new(),
        issue_templates: vec![IssueTemplateFile {
            path: path.to_string(),
            contents: contents.to_string(),
        }],
        repo_settings: None,
        branch_protection: None,
        checks: None,
    }
}

fn set_with_label(name: &str, label: &str, color: &str) -> SetDefinition {
    SetDefinition {
        name: name.to_string(),
        path: PathBuf::from(name),
        labels: vec![LabelSpec {
            name: label.to_string(),
            color: Some(color.to_string()),
            description: None,
        }],
        issue_templates: Vec::new(),
        repo_settings: None,
        branch_protection: None,
        checks: None,
    }
}

#[test]
fn detects_template_conflict_between_sets() {
    let a = set_with_tpl("a", ".github/ISSUE_TEMPLATE/bug.yml", "one");
    let b = set_with_tpl("b", ".github/ISSUE_TEMPLATE/bug.yml", "two");
    let err = detect_template_conflicts(&[a, b]).unwrap_err();
    assert!(err.contains(
        "conflicting .github file '.github/ISSUE_TEMPLATE/bug.yml' between sets 'a' and 'b'"
    ));
}

#[test]
fn allows_identical_templates_across_sets() {
    let a = set_with_tpl("a", ".github/ISSUE_TEMPLATE/bug.yml", "same");
    let b = set_with_tpl("b", ".github/ISSUE_TEMPLATE/bug.yml", "same");
    assert!(detect_template_conflicts(&[a, b]).is_ok());
}

#[test]
fn the_conflict_names_the_set_that_brought_the_file_first() {
    let a = set_with_tpl("a", "x/.github/ISSUE_TEMPLATE/bug.yml", "one");
    let b = set_with_tpl("b", ".github/ISSUE_TEMPLATE/bug.yml", "one");
    let c = set_with_tpl("c", "y/.github/ISSUE_TEMPLATE/bug.yml", "two");
    assert_eq!(
        detect_template_conflicts(&[a, b, c]).unwrap_err(),
        "conflicting .github file '.github/ISSUE_TEMPLATE/bug.yml' between sets 'a' and 'c'"
    );
    assert!(detect_template_conflicts(&[]).is_ok());
}

#[test]
fn a_repository_without_sets_resolves_to_nothing() {
    assert!(matches!(resolve_repo("r", &[]), Resolution::NoSets));
}

#[test]
fn compatible_sets_resolve_to_their_merge() {
    let a = set_with_label("a", "bug", "ff0000");
    let b = set_with_label("b", "feature", "00ff00");
    match resolve_repo("r", &[a, b]) {
        Resolution::Merged(m) => {
            let names: Vec<&str> = m.labels.iter().map(|l| l.name.as_str()).collect();
            assert_eq!(names, vec!["bug", "feature"]);
        }
        other => panic!("expected a merge, got {:?}", other),
    }
}

#[test]
fn a_conflict_gives_up_only_the_repository() {
    let a = set_with_label("a", "bug", "ff0000");
    let b = set_with_label("b", "bug", "00ff00");
    match resolve_repo("r", &[a, b]) {
        Resolution::Conflict(c) => {
            assert_eq!(c.repo, "r");
            assert_eq!(
                c.reason,
                "label conflict for 'bug' between sets; definitions differ"
            );
            assert_eq!(c.sets, vec!["a", "b"]);
            assert_eq!(
                c.message(),
                "repo 'r' has conflicting config: label conflict for 'bug' between sets; definitions differ"
            );
        }
        other => panic!("expected a conflict, got {:?}", other),
    }
    let a = set_with_tpl("a", ".github/ISSUE_TEMPLATE/bug.yml", "one");
    let b = set_with_tpl("b", ".github/ISSUE_TEMPLATE/bug.yml", "two");
    match resolve_repo("r", &[a, b]) {
        Resolution::Conflict(c) => {
            assert!(c.reason.starts_with("conflicting .github file"));
            assert_eq!(c.sets, vec!["a", "b"]);
        }
        other => panic!("expected a conflict, got {:?}", other),
    }
    let a = set_with_tpl("a", ".github/ISSUE_TEMPLATE/bug.yml", "same");
    let b = set_with_tpl("b", ".github/ISSUE_TEMPLATE/bug.yml", "same");
    match resolve_repo("r", &[a, b]) {
        Resolution::Conflict(c) => {
            assert_eq!(
                c.reason,
                "issue template conflict for '.github/ISSUE_TEMPLATE/bug.yml' between sets"
            );
            assert_eq!(c.sets, vec!["a", "b"]);
        }
        other => panic!("expected a conflict, got {:?}", other),
    }
}

#[test]
fn a_conflict_names_the_sets_that_define_the_resource() {
    let a = set_with_label("a", "bug", "ff0000");
    let b = set_with_label("b", "feature", "00ff00");
    let c = set_with_label("c", "bug", "0000ff");
    let d = set_with_label("d", "bug", "ff0000");
    let sets = [a, b, c, d];
    let error = merge_sets_for_repo(&sets).unwrap_err();
    assert_eq!(offending_sets(&sets, &error), vec!["a", "c", "d"]);

    let mut with_checks = set_with_label("x", "one", "111111");
    with_checks.checks = Some(ChecksConfig::default());
    let plain = set_with_label("y", "two", "222222");
    let mut other_checks = set_with_label("z", "three", "333333");
    other_checks.checks = Some(ChecksConfig {
        require_codeowners: false,
        warn_on_inactive_owners: false,
    });
    let sets = [with_checks, plain, other_checks];
    let error = merge_sets_for_repo(&sets).unwrap_err();
    assert_eq!(offending_sets(&sets, &error), vec!["x", "z"]);
    assert!(offending_sets(&sets, &MergeError::GenericConflict("other".to_string())).is_empty());
}

#[test]
fn the_first_file_conflict_is_found() {
    let a = set_with_tpl("a", "x/.github/ISSUE_TEMPLATE/bug.yml", "one");
    let b = set_with_tpl("b", ".github/ISSUE_TEMPLATE/bug.yml", "two");
    let conflict = first_file_conflict(&[a, b]).expect("conflict");
    assert_eq!(conflict.key, ".github/ISSUE_TEMPLATE/bug.yml");
    assert_eq!(conflict.first, "a");
    assert_eq!(conflict.second, "b");
    assert!(first_file_conflict(&[]).is_none());
}

#[test]
fn repo_conflicts_are_reported_in_words() {
    let c = RepoConflict {
        repo: "web".to_string(),
        reason: "checks conflict between sets".to_string(),
        sets: vec!["a".to_string(), "b".to_string()],
    };
    assert_eq!(
        c.message(),
        "repo 'web' has conflicting config: checks conflict between sets"
    );
}

#[test]
fn selection_of_repositories() {
    let only = vec!["a".to_string(), "b".to_string()];
    assert!(is_selected(&only, &"a".to_string()));
    assert!(is_selected(&only, &"b".to_string()));
    assert!(!is_selected(&only, &"c".to_string()));
    assert!(is_selected(&Vec::new(), &"c".to_string()));
}

#[test]
fn default_sets_come_before_the_sets_of_the_repository() {
    let repo = RepoConfig {
        name: "r".to_string(),
        sets: vec!["x".to_string(), "core".to_string()],
    };
    let root = RootConfig {
        org: "o".to_string(),
        default_sets: vec!["core".to_string(), "base".to_string()],
        repos: vec![repo.clone()],
        config_sets_dir: None,
    };
    assert_eq!(set_names_for(&root, &repo), vec!["core", "base", "x", "core"]);
}

#[test]
fn the_cache_holds_each_set_once() {
    let mut cache = SetCache::new();
    assert!(!cache.contains(&"a".to_string()));
    assert!(cache.get(&"a".to_string()).is_none());
    cache.insert(set_with_label("a", "bug", "111111"));
    cache.insert(set_with_label("b", "feature", "222222"));
    cache.insert(set_with_label("a", "other", "333333"));
    assert!(cache.contains(&"a".to_string()));
    assert_eq!(cache.get(&"a".to_string()).unwrap().labels[0].name, "bug");
    assert_eq!(
        cache.get(&"a".to_string()).unwrap().path,
        PathBuf::from("a")
    );
    let sets = cached_sets(
        &cache,
        &vec!["b".to_string(), "a".to_string(), "b".to_string()],
    )
    .expect("sets");
    let names: Vec<&str> = sets.iter().map(|s| s.name.as_str()).collect();
    assert_eq!(names, vec!["b", "a", "b"]);
    assert!(cached_sets(&cache, &vec!["a".to_string(), "zzz".to_string()]).is_none());
    assert_eq!(cached_sets(&cache, &Vec::new()).map(|s| s.len()), Some(0));
}
