use gh_governor::sets::IssueTemplateFile;
use gh_governor::staging::desired_files;
use gh_governor::staging::index_file;
use gh_governor::staging::is_index;
use gh_governor::staging::stage_file;
use gh_governor::staging::stage_files;
use gh_governor::staging::stage_removals;
use gh_governor::staging::stale_paths;
use gh_governor::staging::FileAction;
use gh_governor::staging::RepoFile;

fn file(path: &str, contents: &str) -> IssueTemplateFile {
    IssueTemplateFile {
        path: path.to_string(),
        contents: contents.to_string(),
    }
}

fn remote(sha: &str, content: &str) -> RepoFile {
    RepoFile {
        sha: sha.to_string(),
        content: content.to_string(),
    }
}

#[test]
fn a_file_is_added_updated_or_kept() {
    let f = file(".github/ISSUE_TEMPLATE/bug.yml", "one");
    assert!(matches!(stage_file(&f, None), FileAction::Add));
    match stage_file(&f, Some(&remote("abc", "two"))) {
        FileAction::Update(sha) => assert_eq!(sha, "abc"),
        other => panic!("expected an update, got {:?}", other),
    }
    assert!(matches!(
        stage_file(&f, Some(&remote("abc", "one"))),
        FileAction::Keep
    ));
}

#[test]
fn files_are_staged_in_their_order() {
    let a = file(".github/ISSUE_TEMPLATE/a.yml", "a");
    let b = file(".github/ISSUE_TEMPLATE/b.yml", "b");
    let c = file(".github/ISSUE_TEMPLATE/c.yml", "c");
    let d = file(".github/ISSUE_TEMPLATE/d.yml", "d");
    let observed = vec![
        (a.clone(), None),
        (b.clone(), Some(remote("s1", "old b"))),
        (c.clone(), Some(remote("s2", "c"))),
        (d.clone(), None),
    ];
    let (add, update) = stage_files(&observed);
    assert_eq!(add, vec![a, d]);
    assert_eq!(update, vec![(b, "s1".to_string())]);
    let (add, update) = stage_files(&Vec::new());
    assert!(add.is_empty() && update.is_empty());
}

#[test]
fn desired_files_leave_out_any_index_and_end_with_the_built_one() {
    let templates = vec![
        file("sets/core/.github/ISSUE_TEMPLATE/bug.yml", "b"),
        file(".github/ISSUE_TEMPLATE/config.yml", "old"),
        file(".github/ISSUE_TEMPLATE/feature.yml", "f"),
    ];
    let index = index_file("new".to_string());
    assert_eq!(index.path, ".github/ISSUE_TEMPLATE/config.yml");
    assert_eq!(index.contents, "new");
    let files = desired_files(&templates, Some(index.clone()));
    assert_eq!(
        files,
        vec![templates[0].clone(), templates[2].clone(), index]
    );
    let files = desired_files(&templates, None);
    assert_eq!(files, vec![templates[0].clone(), templates[2].clone()]);
}

#[test]
fn an_index_is_known_by_its_canonical_path() {
    assert!(is_index(".github/ISSUE_TEMPLATE/config.yml"));
    assert!(is_index("x/y/.github/ISSUE_TEMPLATE/config.yml"));
    assert!(is_index("myconfig.yml"));
    assert!(!is_index(".github/ISSUE_TEMPLATE/bug.yml"));
    assert!(!is_index("config.yml/.github/bug.yml"));
}

#[test]
fn stale_paths_are_template_files_that_are_not_desired() {
    let current = vec![
        ".github/ISSUE_TEMPLATE/bug.yml".to_string(),
        ".github/ISSUE_TEMPLATE/old.yml".to_string(),
        ".github/workflows/ci.yml".to_string(),
        ".github/ISSUE_TEMPLATE/config.yml".to_string(),
        ".github/ISSUE_TEMPLATE/gone.yml".to_string(),
    ];
    let desired = vec![
        file("sets/core/.github/ISSUE_TEMPLATE/bug.yml", "b"),
        file(".github/ISSUE_TEMPLATE/config.yml", "c"),
    ];
    assert_eq!(
        stale_paths(&current, &desired),
        vec![
            ".github/ISSUE_TEMPLATE/old.yml".to_string(),
            ".github/ISSUE_TEMPLATE/gone.yml".to_string()
        ]
    );
    assert!(stale_paths(&Vec::new(), &desired).is_empty());
}

#[test]
fn removals_carry_the_sha_of_the_file_read() {
    let observed = vec![
        (
            ".github/ISSUE_TEMPLATE/old.yml".to_string(),
            Some(remote("s9", "x")),
        ),
        (".github/ISSUE_TEMPLATE/unreadable.yml".to_string(), None),
    ];
    assert_eq!(
        stage_removals(&observed),
        vec![(
            ".github/ISSUE_TEMPLATE/old.yml".to_string(),
            "s9".to_string()
        )]
    );
}
