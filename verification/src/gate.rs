//! The safety gate on label removal: a label that an issue or a pull
//! request still carries is not deleted, it is reported.

use vstd::prelude::*;
use crate::sets::LabelSpec;
use crate::sets::LabelSpecView;
use crate::text::opt_text_clone;

verus! {

/// One issue or pull request that carries a label.
#[derive(Debug)]
pub struct LabelUsageEntry {
    pub number: u64,
    pub url: Option<String>,
    pub is_pr: bool,
}

/// The value of a `LabelUsageEntry`.
pub ghost struct LabelUsageEntryView {
    pub number: u64,
    pub url: Option<Seq<char>>,
    pub is_pr: bool,
}

impl DeepView for LabelUsageEntry {
    type V = LabelUsageEntryView;

    open spec fn deep_view(&self) -> LabelUsageEntryView {
        LabelUsageEntryView { number: self.number, url: self.url.deep_view(), is_pr: self.is_pr }
    }
}

impl Clone for LabelUsageEntry {
    fn clone(&self) -> (r: Self)
        ensures
            r.deep_view() == self.deep_view(),
    {
        LabelUsageEntry { number: self.number, url: opt_text_clone(&self.url), is_pr: self.is_pr }
    }
}

/// An issue as a page of the repository's issues lists it. A pull request
/// is listed as an issue that says so.
#[derive(Debug)]
pub struct IssueRef {
    pub number: u64,
    pub html_url: String,
    pub is_pull_request: bool,
}

/// The value of an `IssueRef`.
pub ghost struct IssueRefView {
    pub number: u64,
    pub html_url: Seq<char>,
    pub is_pull_request: bool,
}

impl DeepView for IssueRef {
    type V = IssueRefView;

    open spec fn deep_view(&self) -> IssueRefView {
        IssueRefView {
            number: self.number,
            html_url: self.html_url@,
            is_pull_request: self.is_pull_request,
        }
    }
}

/// The usage entry of a listed issue.
pub open spec fn usage_of(issue: IssueRefView) -> LabelUsageEntryView {
    LabelUsageEntryView {
        number: issue.number,
        url: Some(issue.html_url),
        is_pr: issue.is_pull_request,
    }
}

/// The usage entries of a page of issues.
pub open spec fn usages_of(issues: Seq<IssueRefView>) -> Seq<LabelUsageEntryView> {
    issues.map_values(|i: IssueRefView| usage_of(i))
}

/// The entry that stands for usage that was seen but not listed.
pub open spec fn unlisted_usage() -> LabelUsageEntryView {
    LabelUsageEntryView { number: 0, url: None, is_pr: false }
}

/// How many issues to ask for per page, and how many entries to collect
/// before the scan stops asking for more: ten with details, one without.
pub open spec fn page_limit(include_details: bool) -> nat {
    if include_details {
        10
    } else {
        1
    }
}

/// A scan of the issues that carry a label: the entries seen so far, and
/// whether another page is to be read.
#[derive(Debug)]
pub struct UsageScan {
    pub entries: Vec<LabelUsageEntry>,
    pub more: bool,
}

/// The value of a `UsageScan`.
pub ghost struct UsageScanView {
    pub entries: Seq<LabelUsageEntryView>,
    pub more: bool,
}

impl DeepView for UsageScan {
    type V = UsageScanView;

    open spec fn deep_view(&self) -> UsageScanView {
        UsageScanView { entries: self.entries.deep_view(), more: self.more }
    }
}

/// The scan after the first page. With details every issue of the page is
/// listed and the next page, if any, is to be read. Without details the one
/// issue asked for is listed, a further page only adds the entry for
/// unlisted usage, and nothing more is read.
pub open spec fn scan_first(issues: Seq<IssueRefView>, has_next: bool, include_details: bool) -> UsageScanView {
    if include_details {
        UsageScanView { entries: usages_of(issues), more: has_next }
    } else if has_next {
        UsageScanView { entries: usages_of(issues).push(unlisted_usage()), more: false }
    } else {
        UsageScanView { entries: usages_of(issues), more: false }
    }
}

/// The scan after one more page: its issues are listed, and the scan goes
/// on while fewer than ten entries are listed and a page is left.
pub open spec fn scan_next(scan: UsageScanView, issues: Seq<IssueRefView>, has_next: bool) -> UsageScanView {
    let entries = scan.entries + usages_of(issues);
    UsageScanView { entries, more: entries.len() < page_limit(true) && has_next }
}

/// What a scan says of a label: `None` where nothing carries it, else the
/// entries seen.
pub open spec fn scan_result(scan: UsageScanView) -> Option<Seq<LabelUsageEntryView>> {
    if scan.entries.len() == 0 {
        None
    } else {
        Some(scan.entries)
    }
}

/// The number of issues to ask for per page.
pub fn usage_page_limit(include_details: bool) -> (r: u8)
    ensures
        r == page_limit(include_details),
{
    if include_details {
        10
    } else {
        1
    }
}

/// The usage entries of a page of issues.
pub fn collect_issue_refs(issues: &Vec<IssueRef>) -> (r: Vec<LabelUsageEntry>)
    ensures
        r.deep_view() == usages_of(issues.deep_view()),
{
    let mut entries: Vec<LabelUsageEntry> = Vec::new();
    append_issue_refs(&mut entries, issues);
    assert(entries.deep_view() =~= usages_of(issues.deep_view()));
    entries
}

fn append_issue_refs(entries: &mut Vec<LabelUsageEntry>, issues: &Vec<IssueRef>)
    ensures
        final(entries).deep_view() == old(entries).deep_view() + usages_of(issues.deep_view()),
{
    let ghost start = entries.deep_view();
    let ghost all = issues.deep_view();
    let mut i: usize = 0;
    assert(entries.deep_view() =~= start + usages_of(all.take(0)));
    while i < issues.len()
        invariant
            i <= issues.len(),
            all == issues.deep_view(),
            entries.deep_view() == start + usages_of(all.take(i as int)),
        decreases issues.len() - i,
    {
        let issue = &issues[i];
        let ghost before = entries.deep_view();
        entries.push(
            LabelUsageEntry {
                number: issue.number,
                url: Some(issue.html_url.clone()),
                is_pr: issue.is_pull_request,
            },
        );
        assert(entries.deep_view() =~= before.push(usage_of(all[i as int])));
        assert(entries.deep_view() =~= start + usages_of(all.take(i + 1)));
        i += 1;
    }
    assert(all.take(i as int) =~= all);
}

/// Starts a scan from the first page of the issues that carry a label.
pub fn usage_first_page(issues: &Vec<IssueRef>, has_next: bool, include_details: bool) -> (r:
    UsageScan)
    ensures
        r.deep_view() == scan_first(issues.deep_view(), has_next, include_details),
{
    let mut entries = collect_issue_refs(issues);
    if include_details {
        UsageScan { entries, more: has_next }
    } else {
        if has_next {
            let ghost before = entries.deep_view();
            entries.push(LabelUsageEntry { number: 0, url: None, is_pr: false });
            assert(entries.deep_view() =~= before.push(unlisted_usage()));
        }
        UsageScan { entries, more: false }
    }
}

/// Continues a scan with one more page.
pub fn usage_next_page(scan: UsageScan, issues: &Vec<IssueRef>, has_next: bool) -> (r: UsageScan)
    ensures
        r.deep_view() == scan_next(scan.deep_view(), issues.deep_view(), has_next),
{
    let mut entries = scan.entries;
    append_issue_refs(&mut entries, issues);
    let more = entries.len() < 10 && has_next;
    UsageScan { entries, more }
}

/// Ends a scan: `None` where no issue or pull request carries the label,
/// so that it may be deleted, else the entries seen.
pub fn usage_result(scan: UsageScan) -> (r: Option<Vec<LabelUsageEntry>>)
    ensures
        r.deep_view() == scan_result(scan.deep_view()),
{
    if scan.entries.len() == 0 {
        None
    } else {
        Some(scan.entries)
    }
}

/// A label that is to be removed, with what the scan said of it.
pub type ObservedUsage = (LabelSpec, Option<Vec<LabelUsageEntry>>);

/// A label whose removal is withheld, with the usage that withholds it.
pub type BlockedRemoval = (LabelSpec, Vec<LabelUsageEntry>);

/// Each label to remove with what the scan of its usage said. A label
/// whose scan is missing counts as in use, with no usage listed: what is
/// not known to be unused is not deleted.
pub open spec fn paired(
    labels: Seq<LabelSpecView>,
    usage: Seq<Option<Seq<LabelUsageEntryView>>>,
) -> Seq<(LabelSpecView, Option<Seq<LabelUsageEntryView>>)> {
    Seq::new(
        labels.len(),
        |i: int|
            (
                labels[i],
                if i < usage.len() {
                    usage[i]
                } else {
                    Some(Seq::empty())
                },
            ),
    )
}

/// Pairs each label to remove with what the scan of its usage said:
/// `usage[i]` is the result for `labels[i]`.
pub fn pair_usage(labels: &Vec<LabelSpec>, usage: &Vec<Option<Vec<LabelUsageEntry>>>) -> (r: Vec<
    ObservedUsage,
>)
    ensures
        r.deep_view() == paired(labels.deep_view(), usage.deep_view()),
{
    let mut pairs: Vec<ObservedUsage> = Vec::new();
    let mut i: usize = 0;
    while i < labels.len()
        invariant
            i <= labels.len(),
            pairs.len() == i,
            forall|k: int|
                0 <= k < i ==> (#[trigger] pairs.deep_view()[k]) == paired(
                    labels.deep_view(),
                    usage.deep_view(),
                )[k],
        decreases labels.len() - i,
    {
        let ghost before = pairs.deep_view();
        let seen = if i < usage.len() {
            match &usage[i] {
                Some(u) => Some(usage_clone(u)),
                None => None,
            }
        } else {
            let none: Vec<LabelUsageEntry> = Vec::new();
            assert(none.deep_view() =~= Seq::<LabelUsageEntryView>::empty());
            Some(none)
        };
        let ghost entry = (labels.deep_view()[i as int], seen.deep_view());
        pairs.push((labels[i].clone(), seen));
        assert(pairs.deep_view() =~= before.push(entry));
        i += 1;
    }
    assert(pairs.deep_view() =~= paired(labels.deep_view(), usage.deep_view()));
    pairs
}

pub open spec fn blocked() -> spec_fn((LabelSpecView, Option<Seq<LabelUsageEntryView>>)) -> Option<
    (LabelSpecView, Seq<LabelUsageEntryView>),
> {
    |p: (LabelSpecView, Option<Seq<LabelUsageEntryView>>)|
        match p.1 {
            Some(usage) => Some((p.0, usage)),
            None => None,
        }
}

pub open spec fn unblocked() -> spec_fn((LabelSpecView, Option<Seq<LabelUsageEntryView>>)) -> Option<
    LabelSpecView,
> {
    |p: (LabelSpecView, Option<Seq<LabelUsageEntryView>>)|
        match p.1 {
            Some(usage) => None,
            None => Some(p.0),
        }
}

/// The removals that are withheld: the labels in use, each with its usage.
pub open spec fn blocked_removals(
    observed: Seq<(LabelSpecView, Option<Seq<LabelUsageEntryView>>)>,
) -> Seq<(LabelSpecView, Seq<LabelUsageEntryView>)> {
    observed.filter_map(blocked())
}

/// The removals that go ahead: the labels that nothing carries.
pub open spec fn removable_labels(
    observed: Seq<(LabelSpecView, Option<Seq<LabelUsageEntryView>>)>,
) -> Seq<LabelSpecView> {
    observed.filter_map(unblocked())
}

fn usage_clone(a: &Vec<LabelUsageEntry>) -> (r: Vec<LabelUsageEntry>)
    ensures
        r.deep_view() == a.deep_view(),
{
    let mut r: Vec<LabelUsageEntry> = Vec::new();
    let mut i: usize = 0;
    while i < a.len()
        invariant
            i <= a.len(),
            r.len() == i,
            forall|k: int| 0 <= k < i ==> r@[k].deep_view() == a@[k].deep_view(),
        decreases a.len() - i,
    {
        r.push(a[i].clone());
        i += 1;
    }
    assert(r.deep_view() =~= a.deep_view());
    r
}

/// Parts the labels that are to be removed into those whose removal is
/// withheld, each with its usage, and those that may be deleted. Both keep
/// the order of `observed`.
pub fn gate_removals(observed: &Vec<ObservedUsage>) -> (r: (Vec<BlockedRemoval>, Vec<LabelSpec>))
    ensures
        r.0.deep_view() == blocked_removals(observed.deep_view()),
        r.1.deep_view() == removable_labels(observed.deep_view()),
{
    let ghost all = observed.deep_view();
    let mut withheld: Vec<BlockedRemoval> = Vec::new();
    let mut removable: Vec<LabelSpec> = Vec::new();
    let mut i: usize = 0;
    assert(withheld.deep_view() =~= all.take(0).filter_map(blocked()));
    assert(removable.deep_view() =~= all.take(0).filter_map(unblocked()));
    while i < observed.len()
        invariant
            i <= observed.len(),
            all == observed.deep_view(),
            withheld.deep_view() == all.take(i as int).filter_map(blocked()),
            removable.deep_view() == all.take(i as int).filter_map(unblocked()),
        decreases observed.len() - i,
    {
        proof {
            all.lemma_filter_map_take_succ(blocked(), i as int);
            all.lemma_filter_map_take_succ(unblocked(), i as int);
            assert(all[i as int] == observed[i as int].deep_view());
        }
        let ghost kept = withheld.deep_view();
        let ghost freed = removable.deep_view();
        let pair = &observed[i];
        match &pair.1 {
            Some(usage) => {
                withheld.push((pair.0.clone(), usage_clone(usage)));
                assert(withheld.deep_view() =~= kept.push((all[i as int].0, all[i as int].1->0)));
            },
            None => {
                removable.push(pair.0.clone());
                assert(removable.deep_view() =~= freed.push(all[i as int].0));
            },
        }
        i += 1;
    }
    assert(all.take(i as int) =~= all);
    (withheld, removable)
}

/// Every label to remove is either withheld or deleted, never both: a
/// label is deleted only if its scan found nothing, and withheld only with
/// the usage that its scan found.
pub proof fn lemma_gate_parts(observed: Seq<(LabelSpecView, Option<Seq<LabelUsageEntryView>>)>)
    ensures
        blocked_removals(observed).len() + removable_labels(observed).len() == observed.len(),
        forall|l: LabelSpecView| #[trigger]
            removable_labels(observed).contains(l) ==> observed.contains((l, None)),
        forall|b: (LabelSpecView, Seq<LabelUsageEntryView>)| #[trigger]
            blocked_removals(observed).contains(b) ==> observed.contains((b.0, Some(b.1))),
        forall|i: int|
            0 <= i < observed.len() && observed[i].1 is Some ==> blocked_removals(
                observed,
            ).contains((observed[i].0, #[trigger] observed[i].1->0)),
        forall|i: int|
            0 <= i < observed.len() && observed[i].1 is None ==> removable_labels(
                observed,
            ).contains(#[trigger] observed[i].0),
    decreases observed.len(),
{
    reveal(Seq::filter_map);
    if observed.len() > 0 {
        let rest = observed.drop_last();
        let last = observed.last();
        lemma_gate_parts(rest);
        let b = blocked_removals(observed);
        let r = removable_labels(observed);
        let b0 = blocked_removals(rest);
        let r0 = removable_labels(rest);
        assert forall|l: LabelSpecView| #[trigger] r.contains(l) implies observed.contains(
            (l, None),
        ) by {
            let k = choose|k: int| 0 <= k < r.len() && r[k] == l;
            if k < r0.len() {
                assert(r0[k] == l);
                assert(r0.contains(l));
                let m = choose|m: int| 0 <= m < rest.len() && rest[m] == (l, None::<Seq<LabelUsageEntryView>>);
                assert(observed[m] == rest[m]);
            } else {
                assert(observed[observed.len() - 1] == (l, None::<Seq<LabelUsageEntryView>>));
            }
        }
        assert forall|x: (LabelSpecView, Seq<LabelUsageEntryView>)| #[trigger]
            b.contains(x) implies observed.contains((x.0, Some(x.1))) by {
            let k = choose|k: int| 0 <= k < b.len() && b[k] == x;
            if k < b0.len() {
                assert(b0[k] == x);
                assert(b0.contains(x));
                let m = choose|m: int| 0 <= m < rest.len() && rest[m] == (x.0, Some(x.1));
                assert(observed[m] == rest[m]);
            } else {
                assert(observed[observed.len() - 1] == (x.0, Some(x.1)));
            }
        }
        assert forall|i: int| 0 <= i < observed.len() && observed[i].1 is Some implies b.contains(
            (observed[i].0, #[trigger] observed[i].1->0),
        ) by {
            if i < rest.len() {
                assert(rest[i] == observed[i]);
                assert(b0.contains((rest[i].0, rest[i].1->0)));
                let k = choose|k: int| 0 <= k < b0.len() && b0[k] == (rest[i].0, rest[i].1->0);
                assert(b[k] == b0[k]);
            } else {
                assert(b[b.len() - 1] == (observed[i].0, observed[i].1->0));
            }
        }
        assert forall|i: int| 0 <= i < observed.len() && observed[i].1 is None implies r.contains(
            #[trigger] observed[i].0,
        ) by {
            if i < rest.len() {
                assert(rest[i] == observed[i]);
                assert(r0.contains(rest[i].0));
                let k = choose|k: int| 0 <= k < r0.len() && r0[k] == rest[i].0;
                assert(r[k] == r0[k]);
            } else {
                assert(r[r.len() - 1] == observed[i].0);
            }
        }
    }
}

} // verus!
