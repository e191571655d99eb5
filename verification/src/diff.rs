//! Minimal differences between the desired state of a repository and the
//! state observed on it: labels, and pull-request settings.

use vstd::prelude::*;
use crate::order::is_sorted;
use crate::order::lemma_sorted_small;
use crate::order::sort_by_key;
use crate::order::sorted_seq;
use crate::sets::labels_clone;
use crate::sets::LabelSpec;
use crate::sets::LabelSpecView;
use crate::settings::map_merge_message_option;
use crate::settings::map_squash_option;
use crate::settings::merge_message_pair;
use crate::settings::squash_pair;
use crate::settings::MergeCommitMessage;
use crate::settings::MergeCommitTitle;
use crate::settings::PullRequestSettings;
use crate::settings::RepoSettings;
use crate::settings::SquashMergeCommitMessage;
use crate::settings::SquashMergeCommitTitle;
use crate::text::join2;
use crate::text::lowercase_of;
use crate::text::opt_text_clone;
use crate::text::opt_text_eq;
use crate::text::owned;
use crate::text::strip_leading;
use crate::text::to_lowercase;
use crate::text::trim_leading;

verus! {

/// A label as the repository holds it: it always has a colour.
#[derive(Debug)]
pub struct RemoteLabel {
    pub name: String,
    pub color: String,
    pub description: Option<String>,
}

/// The value of a `RemoteLabel`.
pub ghost struct RemoteLabelView {
    pub name: Seq<char>,
    pub color: Seq<char>,
    pub description: Option<Seq<char>>,
}

impl DeepView for RemoteLabel {
    type V = RemoteLabelView;

    open spec fn deep_view(&self) -> RemoteLabelView {
        RemoteLabelView {
            name: self.name@,
            color: self.color@,
            description: self.description.deep_view(),
        }
    }
}

impl Clone for RemoteLabel {
    fn clone(&self) -> (r: Self)
        ensures
            r.deep_view() == self.deep_view(),
    {
        RemoteLabel {
            name: self.name.clone(),
            color: self.color.clone(),
            description: opt_text_clone(&self.description),
        }
    }
}

/// What has to be done to the labels of a repository, each list in the
/// order of the labels' names.
#[derive(Debug)]
pub struct LabelDiff {
    pub to_add: Vec<LabelSpec>,
    pub to_update: Vec<LabelSpec>,
    pub to_remove: Vec<LabelSpec>,
}

impl Clone for LabelDiff {
    fn clone(&self) -> (r: Self)
        ensures
            r.to_add.deep_view() == self.to_add.deep_view(),
            r.to_update.deep_view() == self.to_update.deep_view(),
            r.to_remove.deep_view() == self.to_remove.deep_view(),
    {
        LabelDiff {
            to_add: labels_clone(&self.to_add),
            to_update: labels_clone(&self.to_update),
            to_remove: labels_clone(&self.to_remove),
        }
    }
}

/// A colour without leading `#` characters and in lower case.
pub open spec fn normalized_text(c: Seq<char>) -> Seq<char> {
    lowercase_of(strip_leading(c, '#'))
}

/// The normal form of an optional colour: an unset colour stays unset.
pub open spec fn normalized_color(c: Option<Seq<char>>) -> Option<Seq<char>> {
    match c {
        Some(t) => Some(normalized_text(t)),
        None => None,
    }
}

/// The first of `current` that has the name `name`.
pub open spec fn find_label(current: Seq<RemoteLabelView>, name: Seq<char>) -> Option<
    RemoteLabelView,
>
    decreases current.len(),
{
    if current.len() == 0 {
        None
    } else if current[0].name == name {
        Some(current[0])
    } else {
        find_label(current.drop_first(), name)
    }
}

/// Some label of `desired` has the name `name`.
pub open spec fn is_desired(desired: Seq<LabelSpecView>, name: Seq<char>) -> bool {
    exists|i: int| 0 <= i < desired.len() && desired[i].name == name
}

/// The repository's label says what the desired one says: the same colour
/// up to normal form, and the same description.
pub open spec fn in_sync(want: LabelSpecView, have: RemoteLabelView) -> bool {
    &&& normalized_color(Some(have.color)) == normalized_color(want.color)
    &&& have.description == want.description
}

/// Whether two labels say the same, given their colours in normal form
/// and their descriptions.
pub fn same_look(
    color: &Option<String>,
    description: &Option<String>,
    other_color: &Option<String>,
    other_description: &Option<String>,
) -> (r: bool)
    ensures
        r == (color.deep_view() == other_color.deep_view() && description.deep_view()
            == other_description.deep_view()),
{
    opt_text_eq(color, other_color) && opt_text_eq(description, other_description)
}

/// The desired labels that the repository lacks.
pub open spec fn is_absent(current: Seq<RemoteLabelView>) -> spec_fn(LabelSpecView) -> bool {
    |w: LabelSpecView| find_label(current, w.name) is None
}

/// The desired labels that the repository has, but not as desired.
pub open spec fn is_stale(current: Seq<RemoteLabelView>) -> spec_fn(LabelSpecView) -> bool {
    |w: LabelSpecView|
        match find_label(current, w.name) {
            Some(have) => !in_sync(w, have),
            None => false,
        }
}

/// The labels of the repository that no desired label names.
pub open spec fn is_unwanted(desired: Seq<LabelSpecView>) -> spec_fn(RemoteLabelView) -> bool {
    |c: RemoteLabelView| !is_desired(desired, c.name)
}

/// How a label of the repository is reported when it is to be removed: with
/// its colour in normal form.
pub open spec fn removal_of(c: RemoteLabelView) -> LabelSpecView {
    LabelSpecView {
        name: c.name,
        color: normalized_color(Some(c.color)),
        description: c.description,
    }
}

/// The labels to create: the desired names that the repository lacks.
pub open spec fn labels_to_add(
    desired: Seq<LabelSpecView>,
    current: Seq<RemoteLabelView>,
) -> Seq<LabelSpecView> {
    sorted_seq::<LabelSpec>(desired.filter(is_absent(current)))
}

/// The labels to change: the desired names that the repository has with
/// another colour or description.
pub open spec fn labels_to_update(
    desired: Seq<LabelSpecView>,
    current: Seq<RemoteLabelView>,
) -> Seq<LabelSpecView> {
    sorted_seq::<LabelSpec>(desired.filter(is_stale(current)))
}

/// The labels to delete: the repository's names that are not desired.
pub open spec fn labels_to_remove(
    desired: Seq<LabelSpecView>,
    current: Seq<RemoteLabelView>,
) -> Seq<LabelSpecView> {
    sorted_seq::<LabelSpec>(
        current.filter(is_unwanted(desired)).map_values(|c: RemoteLabelView| removal_of(c)),
    )
}

/// The normal form of a colour text.
pub fn normalize_text(c: &str) -> (r: String)
    ensures
        r@ == normalized_text(c@),
{
    let trimmed = trim_leading(c, '#');
    to_lowercase(trimmed.as_str())
}

/// The normal form of an optional colour.
pub fn normalize_color(color: &Option<String>) -> (r: Option<String>)
    ensures
        r.deep_view() == normalized_color(color.deep_view()),
{
    match color {
        Some(c) => Some(normalize_text(c.as_str())),
        None => None,
    }
}

/// The index of the first label of `current` named `name`.
fn position_of(current: &[RemoteLabel], name: &String) -> (r: Option<usize>)
    ensures
        match r {
            Some(i) => i < current.len() && find_label(current.deep_view(), name@) == Some(
                current.deep_view()[i as int],
            ),
            None => find_label(current.deep_view(), name@) is None,
        },
{
    let ghost all = current.deep_view();
    let mut i: usize = 0;
    assert(all.skip(0) =~= all);
    while i < current.len()
        invariant
            i <= current.len(),
            all == current.deep_view(),
            find_label(all, name@) == find_label(all.skip(i as int), name@),
        decreases current.len() - i,
    {
        assert(all.skip(i as int)[0] == all[i as int]);
        if current[i].name == *name {
            return Some(i);
        }
        assert(all.skip(i as int).drop_first() =~= all.skip(i + 1));
        i += 1;
    }
    None
}

/// Whether a label of `desired` is named `name`.
fn names(desired: &[LabelSpec], name: &String) -> (r: bool)
    ensures
        r == is_desired(desired.deep_view(), name@),
{
    let mut i: usize = 0;
    while i < desired.len()
        invariant
            i <= desired.len(),
            forall|k: int| 0 <= k < i ==> desired.deep_view()[k].name != name@,
        decreases desired.len() - i,
    {
        if desired[i].name == *name {
            assert(desired.deep_view()[i as int].name == name@);
            return true;
        }
        i += 1;
    }
    false
}

/// Compares the desired labels with the labels of the repository.
///
/// A desired label is matched with the first label of the repository that
/// has its name. A label to remove is reported with its colour in normal
/// form. Each list is in the order of the names.
pub fn diff_labels(desired: &[LabelSpec], current: &[RemoteLabel]) -> (r: LabelDiff)
    ensures
        r.to_add.deep_view() == labels_to_add(desired.deep_view(), current.deep_view()),
        r.to_update.deep_view() == labels_to_update(desired.deep_view(), current.deep_view()),
        r.to_remove.deep_view() == labels_to_remove(desired.deep_view(), current.deep_view()),
        is_sorted::<LabelSpec>(r.to_add.deep_view()),
        is_sorted::<LabelSpec>(r.to_update.deep_view()),
        is_sorted::<LabelSpec>(r.to_remove.deep_view()),
{
    let ghost want = desired.deep_view();
    let ghost have = current.deep_view();
    let mut to_add: Vec<LabelSpec> = Vec::new();
    let mut to_update: Vec<LabelSpec> = Vec::new();
    let mut to_remove: Vec<LabelSpec> = Vec::new();

    let mut i: usize = 0;
    assert(want.take(0) =~= Seq::<LabelSpecView>::empty());
    assert(to_add.deep_view() =~= want.take(0).filter(is_absent(have))) by {
        reveal(Seq::filter);
    }
    assert(to_update.deep_view() =~= want.take(0).filter(is_stale(have))) by {
        reveal(Seq::filter);
    }
    while i < desired.len()
        invariant
            i <= desired.len(),
            want == desired.deep_view(),
            have == current.deep_view(),
            to_add.deep_view() == want.take(i as int).filter(is_absent(have)),
            to_update.deep_view() == want.take(i as int).filter(is_stale(have)),
        decreases desired.len() - i,
    {
        let w = &desired[i];
        proof {
            assert(want.take(i + 1) =~= want.take(i as int).push(want[i as int]));
            want.take(i as int).lemma_filter_push(want[i as int], is_absent(have));
            want.take(i as int).lemma_filter_push(want[i as int], is_stale(have));
        }
        let ghost added = to_add.deep_view();
        let ghost updated = to_update.deep_view();
        match position_of(current, &w.name) {
            None => {
                to_add.push(w.clone());
                assert(to_add.deep_view() =~= added.push(want[i as int]));
            },
            Some(k) => {
                let existing = &current[k];
                let same = same_look(
                    &normalize_color(&w.color),
                    &w.description,
                    &Some(normalize_text(existing.color.as_str())),
                    &existing.description,
                );
                if !same {
                    to_update.push(w.clone());
                    assert(to_update.deep_view() =~= updated.push(want[i as int]));
                }
            },
        }
        i += 1;
    }
    assert(want.take(i as int) =~= want);

    let ghost removal = |c: RemoteLabelView| removal_of(c);
    let mut j: usize = 0;
    assert(have.take(0) =~= Seq::<RemoteLabelView>::empty());
    assert(to_remove.deep_view() =~= have.take(0).filter(is_unwanted(want)).map_values(removal))
        by {
        reveal(Seq::filter);
    }
    while j < current.len()
        invariant
            j <= current.len(),
            want == desired.deep_view(),
            have == current.deep_view(),
            removal == |c: RemoteLabelView| removal_of(c),
            to_remove.deep_view() == have.take(j as int).filter(is_unwanted(want)).map_values(
                removal,
            ),
        decreases current.len() - j,
    {
        let existing = &current[j];
        proof {
            assert(have.take(j + 1) =~= have.take(j as int).push(have[j as int]));
            have.take(j as int).lemma_filter_push(have[j as int], is_unwanted(want));
        }
        let ghost removed = to_remove.deep_view();
        if !names(desired, &existing.name) {
            to_remove.push(
                LabelSpec {
                    name: existing.name.clone(),
                    color: Some(normalize_text(existing.color.as_str())),
                    description: opt_text_clone(&existing.description),
                },
            );
            assert(to_remove.deep_view() =~= removed.push(removal_of(have[j as int])));
            assert(have.take(j as int).filter(is_unwanted(want)).push(have[j as int]).map_values(
                removal,
            ) =~= removed.push(removal_of(have[j as int])));
        }
        j += 1;
    }
    assert(have.take(j as int) =~= have);

    LabelDiff {
        to_add: sort_by_key(to_add),
        to_update: sort_by_key(to_update),
        to_remove: sort_by_key(to_remove),
    }
}

/// Diffing one desired label against the one label of the repository that
/// has its name: nothing is added or removed, and the label is updated
/// exactly when the two are not in sync, that is, when their colours in
/// normal form or their descriptions differ.
pub proof fn lemma_update_iff_out_of_sync(want: LabelSpecView, have: RemoteLabelView)
    requires
        want.name == have.name,
    ensures
        labels_to_add(seq![want], seq![have]) == Seq::<LabelSpecView>::empty(),
        labels_to_remove(seq![want], seq![have]) == Seq::<LabelSpecView>::empty(),
        labels_to_update(seq![want], seq![have]) == if in_sync(want, have) {
            Seq::<LabelSpecView>::empty()
        } else {
            seq![want]
        },
{
    let desired = seq![want];
    let current = seq![have];
    assert(find_label(current, want.name) == Some(have));
    assert(is_desired(desired, have.name)) by {
        assert(desired[0].name == have.name);
    }
    let none = Seq::<LabelSpecView>::empty();
    assert(desired =~= none.push(want));
    assert(none.filter(is_absent(current)) =~= none && none.filter(is_stale(current)) =~= none)
        by {
        reveal(Seq::filter);
    }
    none.lemma_filter_push(want, is_absent(current));
    none.lemma_filter_push(want, is_stale(current));
    let gone = Seq::<RemoteLabelView>::empty();
    assert(current =~= gone.push(have));
    assert(gone.filter(is_unwanted(desired)) =~= gone) by {
        reveal(Seq::filter);
    }
    gone.lemma_filter_push(have, is_unwanted(desired));
    assert(gone.map_values(|c: RemoteLabelView| removal_of(c)) =~= none);
    lemma_sorted_small::<LabelSpec>(none);
    lemma_sorted_small::<LabelSpec>(seq![want]);
}

/// Labels that are in sync ask for nothing: where every desired label
/// finds the label of its name in sync, and every label of the repository
/// is desired, nothing is added, updated or removed.
pub proof fn lemma_labels_in_sync(desired: Seq<LabelSpecView>, current: Seq<RemoteLabelView>)
    requires
        forall|i: int|
            0 <= i < desired.len() ==> ((#[trigger] find_label(current, desired[i].name)) matches Some(
                have,
            ) && in_sync(desired[i], have)),
        forall|j: int| 0 <= j < current.len() ==> is_desired(desired, (#[trigger] current[j]).name),
    ensures
        labels_to_add(desired, current) == Seq::<LabelSpecView>::empty(),
        labels_to_update(desired, current) == Seq::<LabelSpecView>::empty(),
        labels_to_remove(desired, current) == Seq::<LabelSpecView>::empty(),
{
    let none = Seq::<LabelSpecView>::empty();
    let absent = desired.filter(is_absent(current));
    let stale = desired.filter(is_stale(current));
    let unwanted = current.filter(is_unwanted(desired));
    assert(absent.len() == 0) by {
        if absent.len() > 0 {
            desired.lemma_filter_pred(is_absent(current), 0);
            let x = absent[0];
            assert(absent.contains(x));
            desired.lemma_filter_contains_rev(is_absent(current), x);
            assert(desired.contains(x));
            let i = choose|i: int| 0 <= i < desired.len() && desired[i] == x;
            assert(find_label(current, desired[i].name) is Some);
        }
    }
    assert(stale.len() == 0) by {
        if stale.len() > 0 {
            desired.lemma_filter_pred(is_stale(current), 0);
            let x = stale[0];
            assert(stale.contains(x));
            desired.lemma_filter_contains_rev(is_stale(current), x);
            assert(desired.contains(x));
            let i = choose|i: int| 0 <= i < desired.len() && desired[i] == x;
            assert(find_label(current, desired[i].name) is Some);
        }
    }
    assert(unwanted.len() == 0) by {
        if unwanted.len() > 0 {
            current.lemma_filter_pred(is_unwanted(desired), 0);
            let x = unwanted[0];
            assert(unwanted.contains(x));
            current.lemma_filter_contains_rev(is_unwanted(desired), x);
            assert(current.contains(x));
            let j = choose|j: int| 0 <= j < current.len() && current[j] == x;
            assert(is_desired(desired, current[j].name));
        }
    }
    assert(absent =~= none);
    assert(stale =~= none);
    assert(unwanted.map_values(|c: RemoteLabelView| removal_of(c)) =~= none);
    lemma_sorted_small::<LabelSpec>(none);
}

/// One setting that the repository does not have as desired.
#[derive(Debug)]
pub struct SettingChange {
    pub field: &'static str,
    pub current: Option<String>,
    pub desired: String,
}

/// The value of a `SettingChange`.
pub ghost struct SettingChangeView {
    pub field: Seq<char>,
    pub current: Option<Seq<char>>,
    pub desired: Seq<char>,
}

impl DeepView for SettingChange {
    type V = SettingChangeView;

    open spec fn deep_view(&self) -> SettingChangeView {
        SettingChangeView {
            field: self.field@,
            current: self.current.deep_view(),
            desired: self.desired@,
        }
    }
}

impl Clone for SettingChange {
    fn clone(&self) -> (r: Self)
        ensures
            r.deep_view() == self.deep_view(),
    {
        SettingChange {
            field: self.field,
            current: opt_text_clone(&self.current),
            desired: self.desired.clone(),
        }
    }
}

/// The settings to write, in the order of the settings' declaration.
#[derive(Debug)]
pub struct RepoSettingsDiff {
    pub changes: Vec<SettingChange>,
}

impl Clone for RepoSettingsDiff {
    fn clone(&self) -> (r: Self)
        ensures
            r.changes.deep_view() == self.changes.deep_view(),
    {
        let mut changes: Vec<SettingChange> = Vec::new();
        let mut i: usize = 0;
        while i < self.changes.len()
            invariant
                i <= self.changes.len(),
                changes.len() == i,
                forall|k: int|
                    0 <= k < i ==> changes@[k].deep_view() == self.changes@[k].deep_view(),
            decreases self.changes.len() - i,
        {
            changes.push(self.changes[i].clone());
            i += 1;
        }
        assert(changes.deep_view() =~= self.changes.deep_view());
        RepoSettingsDiff { changes }
    }
}

/// How a flag is written in a report.
pub open spec fn flag_text(b: bool) -> Seq<char> {
    if b {
        "true"@
    } else {
        "false"@
    }
}

/// The entry for one flag: none where the flag is not managed or the
/// repository has it as desired.
pub open spec fn flag_change(field: Seq<char>, want: Option<bool>, have: Option<bool>) -> Seq<
    SettingChangeView,
> {
    match want {
        Some(target) if have != Some(target) => seq![
            SettingChangeView {
                field,
                current: match have {
                    Some(v) => Some(flag_text(v)),
                    None => None,
                },
                desired: flag_text(target),
            },
        ],
        _ => Seq::empty(),
    }
}

pub open spec fn merge_title_text(t: MergeCommitTitle) -> Seq<char> {
    match t {
        MergeCommitTitle::PrTitle => "PrTitle"@,
        MergeCommitTitle::MergeMessage => "MergeMessage"@,
    }
}

pub open spec fn merge_message_text(m: MergeCommitMessage) -> Seq<char> {
    match m {
        MergeCommitMessage::PrTitle => "PrTitle"@,
        MergeCommitMessage::PrBody => "PrBody"@,
        MergeCommitMessage::Blank => "Blank"@,
    }
}

pub open spec fn squash_title_text(t: SquashMergeCommitTitle) -> Seq<char> {
    match t {
        SquashMergeCommitTitle::PrTitle => "PrTitle"@,
        SquashMergeCommitTitle::CommitOrPrTitle => "CommitOrPrTitle"@,
    }
}

pub open spec fn squash_message_text(m: SquashMergeCommitMessage) -> Seq<char> {
    match m {
        SquashMergeCommitMessage::PrBody => "PrBody"@,
        SquashMergeCommitMessage::CommitMessages => "CommitMessages"@,
        SquashMergeCommitMessage::Blank => "Blank"@,
    }
}

/// A title and a message as one text.
pub open spec fn pair_text(title: Seq<char>, message: Seq<char>) -> Seq<char> {
    title + " / "@ + message
}

/// The entry for an option whose present value the repository does not
/// tell: the option counts as changed whenever it is managed.
pub open spec fn option_change(field: Seq<char>, desired: Option<Seq<char>>) -> Seq<
    SettingChangeView,
> {
    match desired {
        Some(text) => seq![SettingChangeView { field, current: None, desired: text }],
        None => Seq::empty(),
    }
}

/// The text of a managed merge-commit option.
pub open spec fn merge_option_text(d: PullRequestSettings) -> Option<Seq<char>> {
    match d.merge_commit_message_option {
        Some(opt) => Some(
            pair_text(
                merge_title_text(merge_message_pair(opt).0->0),
                merge_message_text(merge_message_pair(opt).1->0),
            ),
        ),
        None => None,
    }
}

/// The text of a managed squash-merge option.
pub open spec fn squash_option_text(d: PullRequestSettings) -> Option<Seq<char>> {
    match d.squash_merge_option {
        Some(opt) => Some(
            pair_text(
                squash_title_text(squash_pair(opt).0->0),
                squash_message_text(squash_pair(opt).1->0),
            ),
        ),
        None => None,
    }
}

/// What the repository is known to have: nothing, where its pull-request
/// settings were not observed.
pub open spec fn observed(current: RepoSettings) -> PullRequestSettings {
    match current.pull_requests {
        Some(p) => p,
        None => PullRequestSettings {
            allow_merge_commit: None,
            allow_squash_merge: None,
            allow_rebase_merge: None,
            allow_auto_merge: None,
            delete_branch_on_merge: None,
            merge_commit_message_option: None,
            squash_merge_option: None,
        },
    }
}

/// The entries of a settings diff. Only what `desired` manages is compared;
/// the two options are entered whenever they are managed.
pub open spec fn settings_changes(desired: RepoSettings, current: RepoSettings) -> Seq<
    SettingChangeView,
> {
    match desired.pull_requests {
        None => Seq::empty(),
        Some(d) => {
            let c = observed(current);
            flag_change("allow_merge_commit"@, d.allow_merge_commit, c.allow_merge_commit)
                + flag_change("allow_squash_merge"@, d.allow_squash_merge, c.allow_squash_merge)
                + flag_change("allow_rebase_merge"@, d.allow_rebase_merge, c.allow_rebase_merge)
                + flag_change("allow_auto_merge"@, d.allow_auto_merge, c.allow_auto_merge)
                + flag_change(
                "delete_branch_on_merge"@,
                d.delete_branch_on_merge,
                c.delete_branch_on_merge,
            ) + option_change("merge_commit_message_option"@, merge_option_text(d))
                + option_change("squash_merge_option"@, squash_option_text(d))
        },
    }
}

/// The text of a flag.
pub fn flag_string(b: bool) -> (r: String)
    ensures
        r@ == flag_text(b),
{
    if b {
        owned("true")
    } else {
        owned("false")
    }
}

fn merge_title_name(t: MergeCommitTitle) -> (r: &'static str)
    ensures
        r@ == merge_title_text(t),
{
    match t {
        MergeCommitTitle::PrTitle => "PrTitle",
        MergeCommitTitle::MergeMessage => "MergeMessage",
    }
}

fn merge_message_name(m: MergeCommitMessage) -> (r: &'static str)
    ensures
        r@ == merge_message_text(m),
{
    match m {
        MergeCommitMessage::PrTitle => "PrTitle",
        MergeCommitMessage::PrBody => "PrBody",
        MergeCommitMessage::Blank => "Blank",
    }
}

fn squash_title_name(t: SquashMergeCommitTitle) -> (r: &'static str)
    ensures
        r@ == squash_title_text(t),
{
    match t {
        SquashMergeCommitTitle::PrTitle => "PrTitle",
        SquashMergeCommitTitle::CommitOrPrTitle => "CommitOrPrTitle",
    }
}

fn squash_message_name(m: SquashMergeCommitMessage) -> (r: &'static str)
    ensures
        r@ == squash_message_text(m),
{
    match m {
        SquashMergeCommitMessage::PrBody => "PrBody",
        SquashMergeCommitMessage::CommitMessages => "CommitMessages",
        SquashMergeCommitMessage::Blank => "Blank",
    }
}

fn pair_string(title: &str, message: &str) -> (r: String)
    ensures
        r@ == pair_text(title@, message@),
{
    let head = join2(title, " / ");
    join2(head.as_str(), message)
}

fn check_flag(
    changes: &mut Vec<SettingChange>,
    field: &'static str,
    want: Option<bool>,
    have: Option<bool>,
)
    ensures
        final(changes).deep_view() == old(changes).deep_view() + flag_change(field@, want, have),
{
    let ghost before = changes.deep_view();
    if let Some(target) = want {
        if have != Some(target) {
            changes.push(
                SettingChange {
                    field,
                    current: match have {
                        Some(v) => Some(flag_string(v)),
                        None => None,
                    },
                    desired: flag_string(target),
                },
            );
            assert(changes.deep_view() =~= before + flag_change(field@, want, have));
            return ;
        }
    }
    assert(changes.deep_view() =~= before + flag_change(field@, want, have));
}

fn enter_option(changes: &mut Vec<SettingChange>, field: &'static str, desired: Option<String>)
    ensures
        final(changes).deep_view() == old(changes).deep_view() + option_change(
            field@,
            desired.deep_view(),
        ),
{
    let ghost before = changes.deep_view();
    let ghost wanted = desired.deep_view();
    if let Some(text) = desired {
        changes.push(SettingChange { field, current: None, desired: text });
    }
    assert(changes.deep_view() =~= before + option_change(field@, wanted));
}

/// Compares the desired pull-request settings with those of the repository.
///
/// A setting that `desired` leaves unset gives no entry. A flag gives an
/// entry where the repository has another value or none. Each of the two
/// options gives an entry whenever it is set, with the current value
/// unknown: the repository does not tell which option it has.
pub fn diff_repo_settings(desired: &RepoSettings, current: &RepoSettings) -> (r: RepoSettingsDiff)
    ensures
        r.changes.deep_view() == settings_changes(*desired, *current),
{
    let mut changes: Vec<SettingChange> = Vec::new();
    assert(changes.deep_view() =~= Seq::<SettingChangeView>::empty());
    let d = match &desired.pull_requests {
        Some(pr) => pr,
        None => {
            return RepoSettingsDiff { changes };
        },
    };
    let c = match &current.pull_requests {
        Some(p) => *p,
        None => PullRequestSettings {
            allow_merge_commit: None,
            allow_squash_merge: None,
            allow_rebase_merge: None,
            allow_auto_merge: None,
            delete_branch_on_merge: None,
            merge_commit_message_option: None,
            squash_merge_option: None,
        },
    };
    assert(c == observed(*current));

    check_flag(&mut changes, "allow_merge_commit", d.allow_merge_commit, c.allow_merge_commit);
    check_flag(&mut changes, "allow_squash_merge", d.allow_squash_merge, c.allow_squash_merge);
    check_flag(&mut changes, "allow_rebase_merge", d.allow_rebase_merge, c.allow_rebase_merge);
    check_flag(&mut changes, "allow_auto_merge", d.allow_auto_merge, c.allow_auto_merge);
    check_flag(
        &mut changes,
        "delete_branch_on_merge",
        d.delete_branch_on_merge,
        c.delete_branch_on_merge,
    );

    let merge_text = match &d.merge_commit_message_option {
        Some(opt) => {
            let (title, message) = map_merge_message_option(opt);
            Some(
                pair_string(
                    merge_title_name(title.unwrap()),
                    merge_message_name(message.unwrap()),
                ),
            )
        },
        None => None,
    };
    enter_option(&mut changes, "merge_commit_message_option", merge_text);

    let squash_text = match &d.squash_merge_option {
        Some(opt) => {
            let (title, message) = map_squash_option(opt);
            Some(
                pair_string(
                    squash_title_name(title.unwrap()),
                    squash_message_name(message.unwrap()),
                ),
            )
        },
        None => None,
    };
    enter_option(&mut changes, "squash_merge_option", squash_text);

    assert(changes.deep_view() =~= settings_changes(*desired, *current));
    RepoSettingsDiff { changes }
}

/// A flag that the desired settings leave unset, or that the repository
/// has as desired, gives no entry.
pub open spec fn flag_settled(want: Option<bool>, have: Option<bool>) -> bool {
    want is None || have == want
}

/// Settings in which nothing differs give no entry: every managed flag is
/// as the repository has it, and no option is managed. A managed option
/// always gives an entry, because the repository does not tell which
/// option it has.
pub proof fn lemma_settings_in_sync(desired: RepoSettings, current: RepoSettings)
    ensures
        match desired.pull_requests {
            None => settings_changes(desired, current).len() == 0,
            Some(d) => {
                let c = observed(current);
                (settings_changes(desired, current).len() == 0) <==> {
                    &&& flag_settled(d.allow_merge_commit, c.allow_merge_commit)
                    &&& flag_settled(d.allow_squash_merge, c.allow_squash_merge)
                    &&& flag_settled(d.allow_rebase_merge, c.allow_rebase_merge)
                    &&& flag_settled(d.allow_auto_merge, c.allow_auto_merge)
                    &&& flag_settled(d.delete_branch_on_merge, c.delete_branch_on_merge)
                    &&& d.merge_commit_message_option is None
                    &&& d.squash_merge_option is None
                }
            },
        },
{
}

/// Settings that leave a flag unset give no entry for it, whatever the
/// repository has.
pub proof fn lemma_unset_flag_is_not_entered(field: Seq<char>, have: Option<bool>)
    ensures
        flag_change(field, None, have) == Seq::<SettingChangeView>::empty(),
{
}

} // verus!
