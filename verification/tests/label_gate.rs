use gh_governor::gate::collect_issue_refs;
use gh_governor::gate::gate_removals;
use gh_governor::gate::pair_usage;
use gh_governor::gate::usage_first_page;
use gh_governor::gate::usage_next_page;
use gh_governor::gate::usage_page_limit;
use gh_governor::gate::usage_result;
use gh_governor::gate::IssueRef;
use gh_governor::gate::LabelUsageEntry;
use gh_governor::sets::LabelSpec;

fn issue(number: u64, is_pull_request: bool) -> IssueRef {
    IssueRef {
        number,
        html_url: format!("https://github.com/o/r/issues/{}", number),
        is_pull_request,
    }
}

fn issues(from: u64, count: u64) -> Vec<IssueRef> {
    (from..from + count).map(|n| issue(n, false)).collect()
}

fn label(name: &str) -> LabelSpec {
    LabelSpec {
        name: name.to_string(),
        color: Some("aaaaaa".to_string()),
        description: None,
    }
}

#[test]
fn page_limit_depends_on_details() {
    assert_eq!(usage_page_limit(true), 10);
    assert_eq!(usage_page_limit(false), 1);
}

#[test]
fn issue_refs_become_usage_entries() {
    let entries = collect_issue_refs(&vec![issue(3, false), issue(4, true)]);
    assert_eq!(entries.len(), 2);
    assert_eq!(entries[0].number, 3);
    assert_eq!(
        entries[0].url.as_deref(),
        Some("https://github.com/o/r/issues/3")
    );
    assert!(!entries[0].is_pr);
    assert!(entries[1].is_pr);
}

#[test]
fn an_unused_label_is_safe_to_delete() {
    let scan = usage_first_page(&Vec::new(), false, false);
    assert!(!scan.more);
    assert!(usage_result(scan).is_none());
    let scan = usage_first_page(&Vec::new(), false, true);
    assert!(!scan.more);
    assert!(usage_result(scan).is_none());
}

#[test]
fn without_details_one_issue_is_enough() {
    let scan = usage_first_page(&issues(1, 1), false, false);
    assert!(!scan.more);
    let usage = usage_result(scan).expect("usage");
    assert_eq!(usage.len(), 1);
    assert_eq!(usage[0].number, 1);
}

#[test]
fn without_details_a_further_page_is_only_noted() {
    let scan = usage_first_page(&issues(1, 1), true, false);
    assert!(!scan.more);
    let usage = usage_result(scan).expect("usage");
    assert_eq!(usage.len(), 2);
    assert_eq!(usage[1].number, 0);
    assert_eq!(usage[1].url, None);
    assert!(!usage[1].is_pr);
}

#[test]
fn with_details_pages_are_read_until_ten_entries_are_listed() {
    let scan = usage_first_page(&issues(1, 4), true, true);
    assert!(scan.more);
    assert_eq!(scan.entries.len(), 4);
    let scan = usage_next_page(scan, &issues(5, 4), true);
    assert!(scan.more);
    assert_eq!(scan.entries.len(), 8);
    let scan = usage_next_page(scan, &issues(9, 4), true);
    assert!(!scan.more);
    assert_eq!(scan.entries.len(), 12);
    let usage = usage_result(scan).expect("usage");
    let numbers: Vec<u64> = usage.iter().map(|u| u.number).collect();
    assert_eq!(numbers, (1..=12).collect::<Vec<u64>>());
}

#[test]
fn with_details_the_scan_ends_with_the_last_page() {
    let scan = usage_first_page(&issues(1, 2), false, true);
    assert!(!scan.more);
    let scan = usage_first_page(&issues(1, 10), true, true);
    assert!(scan.more);
    let scan = usage_next_page(scan, &Vec::new(), false);
    assert!(!scan.more);
    assert_eq!(scan.entries.len(), 10);
}

#[test]
fn a_label_in_use_is_blocked_and_not_deleted() {
    let usage = vec![LabelUsageEntry {
        number: 42,
        url: Some("https://github.com/o/r/issues/42".to_string()),
        is_pr: false,
    }];
    let observed = vec![
        (label("keep-me"), Some(usage)),
        (label("unused"), None),
        (label("also-unused"), None),
    ];
    let (blocked, removable) = gate_removals(&observed);
    assert_eq!(blocked.len(), 1);
    assert_eq!(blocked[0].0, label("keep-me"));
    assert_eq!(blocked[0].1.len(), 1);
    assert_eq!(blocked[0].1[0].number, 42);
    assert_eq!(removable, vec![label("unused"), label("also-unused")]);
    assert!(!removable.iter().any(|l| l.name == "keep-me"));
}

#[test]
fn nothing_to_remove_gives_nothing() {
    let (blocked, removable) = gate_removals(&Vec::new());
    assert!(blocked.is_empty());
    assert!(removable.is_empty());
}

#[test]
fn scans_are_paired_with_labels_in_order() {
    let labels = vec![label("a"), label("b"), label("c")];
    let usage = vec![
        None,
        Some(vec![LabelUsageEntry {
            number: 1,
            url: None,
            is_pr: true,
        }]),
    ];
    let pairs = pair_usage(&labels, &usage);
    assert_eq!(pairs.len(), 3);
    assert_eq!(pairs[0].0, label("a"));
    assert!(pairs[0].1.is_none());
    assert_eq!(pairs[1].1.as_ref().map(|u| u.len()), Some(1));
    assert_eq!(pairs[2].0, label("c"));
    assert_eq!(pairs[2].1.as_ref().map(|u| u.len()), Some(0));
    assert!(pair_usage(&Vec::new(), &usage).is_empty());
}
