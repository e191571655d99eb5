use gh_governor::order::sort_by_key;
use gh_governor::sets::labels_from_map;
use gh_governor::sets::short_github_path;
use gh_governor::sets::ChecksConfig;
use gh_governor::sets::LabelFields;
use gh_governor::sets::LabelSpec;
use gh_governor::text::chars_of;
use gh_governor::text::decimal_string;
use gh_governor::text::ends_with;
use gh_governor::text::find;
use gh_governor::text::join;
use gh_governor::text::list_lines;
use gh_governor::text::starts_with;
use gh_governor::text::text_precedes;
use gh_governor::text::trim_leading;

#[test]
fn chars_are_read_in_order() {
    assert_eq!(chars_of("aé∑"), vec!['a', 'é', '∑']);
    assert_eq!(chars_of(""), Vec::<char>::new());
}

#[test]
fn find_gives_the_leftmost_occurrence() {
    let s = chars_of("a/.github/b/.github/c");
    let p = chars_of(".github/");
    assert_eq!(find(&s, &p), Some(2));
    assert_eq!(find(&chars_of("abc"), &p), None);
    assert_eq!(find(&chars_of("abc"), &chars_of("")), Some(0));
    assert_eq!(find(&chars_of(""), &chars_of("")), Some(0));
    assert_eq!(find(&chars_of("ab"), &chars_of("abc")), None);
    assert_eq!(find(&chars_of("xxabc"), &chars_of("abc")), Some(2));
}

#[test]
fn prefixes_and_suffixes() {
    assert!(starts_with(".github/ISSUE_TEMPLATE/bug.yml", ".github/"));
    assert!(!starts_with("x.github/", ".github/"));
    assert!(starts_with("abc", ""));
    assert!(!starts_with("ab", "abc"));
    assert!(ends_with("a/config.yml", "config.yml"));
    assert!(!ends_with("a/config.yaml", "config.yml"));
    assert!(ends_with("abc", ""));
    assert!(!ends_with("bc", "abc"));
}

#[test]
fn trim_leading_takes_only_the_front() {
    assert_eq!(trim_leading("##a#b", '#'), "a#b");
    assert_eq!(trim_leading("###", '#'), "");
    assert_eq!(trim_leading("abc", '#'), "abc");
    assert_eq!(trim_leading("", '#'), "");
}

#[test]
fn text_order_is_the_order_of_strings() {
    let samples = ["", "a", "A", "ab", "b", "é", "z", "aa", "a-b", "Z", "10", "9"];
    for a in samples {
        for b in samples {
            assert_eq!(text_precedes(a, b), a < b, "{:?} < {:?}", a, b);
        }
    }
}

#[test]
fn decimal_of_numbers() {
    assert_eq!(decimal_string(0), "0");
    assert_eq!(decimal_string(7), "7");
    assert_eq!(decimal_string(10), "10");
    assert_eq!(decimal_string(1234567890), "1234567890");
    assert_eq!(decimal_string(u64::MAX), u64::MAX.to_string());
}

#[test]
fn joining_and_listing() {
    let items = vec!["a".to_string(), "b".to_string(), "c".to_string()];
    assert_eq!(join(&items, ", "), "a, b, c");
    assert_eq!(join(&items[..1].to_vec(), ", "), "a");
    assert_eq!(join(&Vec::new(), ", "), "");
    assert_eq!(list_lines(&items), "\na\nb\nc");
    assert_eq!(list_lines(&Vec::new()), "");
}

#[test]
fn sort_is_stable_and_by_key() {
    let v = vec![
        "pear".to_string(),
        "Apple".to_string(),
        "apple".to_string(),
        "fig".to_string(),
        "apple".to_string(),
    ];
    let mut expected = v.clone();
    expected.sort();
    assert_eq!(sort_by_key(v), expected);

    let labels = vec![
        LabelSpec {
            name: "b".to_string(),
            color: Some("1".to_string()),
            description: None,
        },
        LabelSpec {
            name: "a".to_string(),
            color: Some("2".to_string()),
            description: None,
        },
        LabelSpec {
            name: "b".to_string(),
            color: Some("3".to_string()),
            description: None,
        },
    ];
    let sorted = sort_by_key(labels);
    let colors: Vec<&str> = sorted
        .iter()
        .map(|l| l.color.as_deref().unwrap())
        .collect();
    assert_eq!(colors, vec!["2", "1", "3"]);
    assert_eq!(sort_by_key(Vec::<String>::new()), Vec::<String>::new());
}

#[test]
fn canonical_path_starts_at_the_first_github_directory() {
    assert_eq!(
        short_github_path("example-conf/toml/config-sets/core/.github/ISSUE_TEMPLATE/bug.yml"),
        ".github/ISSUE_TEMPLATE/bug.yml"
    );
    assert_eq!(
        short_github_path(".github/ISSUE_TEMPLATE/bug.yml"),
        ".github/ISSUE_TEMPLATE/bug.yml"
    );
    assert_eq!(short_github_path("docs/readme.md"), "docs/readme.md");
    assert_eq!(
        short_github_path("a/.github/b/.github/c"),
        ".github/b/.github/c"
    );
    assert_eq!(short_github_path(""), "");
}

#[test]
fn labels_of_a_file_come_sorted_by_name() {
    let map = vec![
        (
            "zeta".to_string(),
            LabelFields {
                color: Some("ff0000".to_string()),
                description: None,
            },
        ),
        ("alpha".to_string(), LabelFields::default()),
        (
            "mid".to_string(),
            LabelFields {
                color: None,
                description: Some("m".to_string()),
            },
        ),
    ];
    let labels = labels_from_map(map);
    assert_eq!(
        labels,
        vec![
            LabelSpec {
                name: "alpha".to_string(),
                color: None,
                description: None
            },
            LabelSpec {
                name: "mid".to_string(),
                color: None,
                description: Some("m".to_string())
            },
            LabelSpec {
                name: "zeta".to_string(),
                color: Some("ff0000".to_string()),
                description: None
            },
        ]
    );
}

#[test]
fn checks_default_to_on() {
    let c = ChecksConfig::default();
    assert!(c.require_codeowners);
    assert!(c.warn_on_inactive_owners);
    assert!(ChecksConfig::default_require_codeowners());
    assert!(ChecksConfig::default_warn_on_inactive());
}
