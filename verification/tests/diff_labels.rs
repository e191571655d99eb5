use gh_governor::diff::diff_labels;
use gh_governor::diff::normalize_color;
use gh_governor::diff::same_look;
use gh_governor::diff::RemoteLabel;
use gh_governor::sets::LabelSpec;

fn lbl(name: &str, color: Option<&str>, desc: Option<&str>) -> LabelSpec {
    LabelSpec {
        name: name.to_string(),
        color: color.map(|s| s.to_string()),
        description: desc.map(|s| s.to_string()),
    }
}

fn remote(name: &str, color: &str, desc: Option<&str>) -> RemoteLabel {
    RemoteLabel {
        name: name.to_string(),
        color: color.to_string(),
        description: desc.map(|s| s.to_string()),
    }
}

#[test]
fn computes_add_and_update() {
    let desired = vec![
        lbl("bug", Some("ff0000"), Some("bug")),
        lbl("new", None, None),
    ];
    let current = vec![
        remote("bug", "00ff00", Some("bug")),
        remote("old", "aaaaaa", Some("old")),
    ];

    let diff = diff_labels(&desired, &current);
    assert_eq!(diff.to_add.len(), 1);
    assert_eq!(diff.to_update.len(), 1);
    assert_eq!(diff.to_add[0].name, "new");
    assert_eq!(diff.to_update[0].name, "bug");
    assert_eq!(diff.to_remove.len(), 1);
    assert_eq!(diff.to_remove[0].name, "old");
}

#[test]
fn scenario_with_hash_prefixed_colors() {
    let desired = vec![
        lbl("bug", Some("#ff0000"), Some("bug")),
        lbl("new", None, None),
    ];
    let current = vec![
        remote("bug", "#00ff00", Some("bug")),
        remote("old", "#aaaaaa", Some("old")),
    ];
    let diff = diff_labels(&desired, &current);
    assert_eq!(diff.to_add, vec![lbl("new", None, None)]);
    assert_eq!(diff.to_update, vec![lbl("bug", Some("#ff0000"), Some("bug"))]);
    assert_eq!(diff.to_remove, vec![lbl("old", Some("aaaaaa"), Some("old"))]);
}

#[test]
fn equal_normalized_color_and_description_is_no_update() {
    let desired = vec![lbl("bug", Some("#FF0000"), Some("a bug"))];
    let current = vec![remote("bug", "ff0000", Some("a bug"))];
    let diff = diff_labels(&desired, &current);
    assert!(diff.to_add.is_empty());
    assert!(diff.to_update.is_empty());
    assert!(diff.to_remove.is_empty());
}

#[test]
fn a_differing_color_is_one_update() {
    let desired = vec![lbl("bug", Some("ff0001"), Some("a bug"))];
    let current = vec![remote("bug", "ff0000", Some("a bug"))];
    let diff = diff_labels(&desired, &current);
    assert_eq!(diff.to_update, desired);
    assert!(diff.to_add.is_empty());
    assert!(diff.to_remove.is_empty());
}

#[test]
fn a_differing_description_is_one_update() {
    let desired = vec![lbl("bug", Some("ff0000"), Some("a bug"))];
    let current = vec![remote("bug", "ff0000", None)];
    let diff = diff_labels(&desired, &current);
    assert_eq!(diff.to_update, desired);
}

#[test]
fn an_unset_desired_color_differs_from_any_remote_color() {
    let desired = vec![lbl("bug", None, None)];
    let current = vec![remote("bug", "ededed", None)];
    let diff = diff_labels(&desired, &current);
    assert_eq!(diff.to_update, desired);
}

#[test]
fn lists_are_sorted_by_name() {
    let desired = vec![
        lbl("zeta", None, None),
        lbl("alpha", None, None),
        lbl("mid", Some("000000"), None),
        lbl("Beta", None, None),
    ];
    let current = vec![
        remote("mid", "ffffff", None),
        remote("y-old", "AAAAAA", None),
        remote("a-old", "#BBBBBB", Some("x")),
    ];
    let diff = diff_labels(&desired, &current);
    let added: Vec<&str> = diff.to_add.iter().map(|l| l.name.as_str()).collect();
    assert_eq!(added, vec!["Beta", "alpha", "zeta"]);
    assert_eq!(diff.to_update, vec![lbl("mid", Some("000000"), None)]);
    assert_eq!(
        diff.to_remove,
        vec![
            lbl("a-old", Some("bbbbbb"), Some("x")),
            lbl("y-old", Some("aaaaaa"), None)
        ]
    );
}

#[test]
fn a_desired_label_is_matched_with_the_first_remote_of_its_name() {
    let desired = vec![lbl("dup", Some("111111"), None)];
    let current = vec![remote("dup", "111111", None), remote("dup", "222222", None)];
    let diff = diff_labels(&desired, &current);
    assert!(diff.to_update.is_empty());
    let current = vec![remote("dup", "222222", None), remote("dup", "111111", None)];
    let diff = diff_labels(&desired, &current);
    assert_eq!(diff.to_update, desired);
}

#[test]
fn empty_inputs_give_an_empty_diff() {
    let diff = diff_labels(&[], &[]);
    assert!(diff.to_add.is_empty() && diff.to_update.is_empty() && diff.to_remove.is_empty());
}

#[test]
fn normalize_color_strips_hashes_and_lowercases() {
    assert_eq!(normalize_color(&None), None);
    assert_eq!(
        normalize_color(&Some("#FFaa00".to_string())),
        Some("ffaa00".to_string())
    );
    assert_eq!(
        normalize_color(&Some("##AB".to_string())),
        Some("ab".to_string())
    );
    assert_eq!(
        normalize_color(&Some("a#B".to_string())),
        Some("a#b".to_string())
    );
    assert_eq!(normalize_color(&Some("#".to_string())), Some(String::new()));
}

#[test]
fn labels_look_the_same_when_colours_and_descriptions_agree() {
    let c = |s: &str| Some(s.to_string());
    assert!(same_look(&c("ff0000"), &c("d"), &c("ff0000"), &c("d")));
    assert!(same_look(&None, &None, &None, &None));
    assert!(!same_look(&c("ff0000"), &c("d"), &c("00ff00"), &c("d")));
    assert!(!same_look(&c("ff0000"), &c("d"), &c("ff0000"), &None));
    assert!(!same_look(&None, &c("d"), &c(""), &c("d")));
}
