//! The report of a run, as text: counts and line items for every kind of
//! change. Whether the terminal takes colours is decided by the caller and
//! handed in as `colored`.

use owo_colors::OwoColorize;
use vstd::prelude::*;
use vstd::string::StringExecFns;
use crate::diff::RepoSettingsDiff;
use crate::diff::SettingChange;
use crate::diff::SettingChangeView;
use crate::gate::BlockedRemoval;
use crate::gate::LabelUsageEntry;
use crate::gate::LabelUsageEntryView;
use crate::sets::canonical_path;
use crate::sets::short_github_path;
use crate::sets::IssueTemplateFile;
use crate::sets::IssueTemplateFileView;
use crate::sets::LabelSpec;
use crate::sets::LabelSpecView;
use crate::diff::flag_string;
use crate::diff::flag_text;
use crate::protection::BranchProtectionChange;
use crate::protection::BranchProtectionChangeView;
use crate::protection::ChangeAction;
use crate::reconcile::governance_branch;
use crate::reconcile::governance_branch_name;
use crate::reconcile::PullRequestInfo;
use crate::reconcile::PullRequestInfoView;
use crate::reconcile::RepoPlan;
use crate::reconcile::RepoPlanView;
use crate::settings::BranchProtectionRule;
use crate::settings::BranchProtectionRuleView;
use crate::settings::BranchRestrictionsView;
use crate::settings::RequiredPullRequestReviewsView;
use crate::settings::RequiredStatusChecksView;
use crate::settings::StatusCheck;
use crate::settings::StatusCheckView;
use crate::text::decimal;
use crate::text::join;
use crate::text::joined;
use crate::text::decimal_string;
use crate::text::list_lines;
use crate::text::listed;
use crate::text::owned;

verus! {

/// What a piece of a report stands for; each kind has its colour.
#[derive(Debug, Clone, Copy, PartialEq, Eq, Structural)]
pub enum ColorKind {
    Add,
    Update,
    Remove,
    Blocked,
}

/// The escape sequence that starts the colour of a kind: green for what is
/// added, cyan for what is updated, magenta for what is removed, red for
/// what is blocked.
pub open spec fn color_code(kind: ColorKind) -> Seq<char> {
    match kind {
        ColorKind::Add => "\x1b[32m"@,
        ColorKind::Update => "\x1b[36m"@,
        ColorKind::Remove => "\x1b[35m"@,
        ColorKind::Blocked => "\x1b[31m"@,
    }
}

/// A text in bold and in the colour of a kind: between the escape
/// sequences that switch bold and the colour on, and those that switch
/// them off.
pub open spec fn styled_text(text: Seq<char>, kind: ColorKind) -> Seq<char> {
    "\x1b[1m"@ + color_code(kind) + text + "\x1b[39m"@ + "\x1b[0m"@
}

/// A text as it stands in a report: styled where colours are on.
pub open spec fn painted(text: Seq<char>, kind: ColorKind, colored: bool) -> Seq<char> {
    if colored {
        styled_text(text, kind)
    } else {
        text
    }
}

/// Formats `text` through `OwoColorize::green` and `OwoColorize::bold`:
/// the text between the sequences for bold and green and their resets.
#[verifier::external_body]
fn green_bold(text: &str) -> (r: String)
    ensures
        r@ == styled_text(text@, ColorKind::Add),
{
    text.green().bold().to_string()
}

/// Formats `text` through `OwoColorize::cyan` and `OwoColorize::bold`:
/// the text between the sequences for bold and cyan and their resets.
#[verifier::external_body]
fn cyan_bold(text: &str) -> (r: String)
    ensures
        r@ == styled_text(text@, ColorKind::Update),
{
    text.cyan().bold().to_string()
}

/// Formats `text` through `OwoColorize::magenta` and `OwoColorize::bold`:
/// the text between the sequences for bold and magenta and their resets.
#[verifier::external_body]
fn magenta_bold(text: &str) -> (r: String)
    ensures
        r@ == styled_text(text@, ColorKind::Remove),
{
    text.magenta().bold().to_string()
}

/// Formats `text` through `OwoColorize::red` and `OwoColorize::bold`: the
/// text between the sequences for bold and red and their resets.
#[verifier::external_body]
fn red_bold(text: &str) -> (r: String)
    ensures
        r@ == styled_text(text@, ColorKind::Blocked),
{
    text.red().bold().to_string()
}

/// `text` as it stands in a report: in bold and in the colour of `kind`
/// where colours are on, unchanged where they are off.
pub fn apply_color(text: &str, kind: ColorKind, colored: bool) -> (r: String)
    ensures
        r@ == painted(text@, kind, colored),
{
    if !colored {
        return owned(text);
    }
    match kind {
        ColorKind::Add => green_bold(text),
        ColorKind::Update => cyan_bold(text),
        ColorKind::Remove => magenta_bold(text),
        ColorKind::Blocked => red_bold(text),
    }
}

/// A count as it stands in a report: zero is never styled.
pub open spec fn count_text(count: nat, kind: ColorKind, colored: bool) -> Seq<char> {
    if count == 0 {
        decimal(0)
    } else {
        painted(decimal(count), kind, colored)
    }
}

/// The count `count` as it stands in a report.
pub fn format_count(count: usize, kind: ColorKind, colored: bool) -> (r: String)
    ensures
        r@ == count_text(count as nat, kind, colored),
{
    let digits = decimal_string(count as u64);
    if count == 0 {
        return digits;
    }
    apply_color(digits.as_str(), kind, colored)
}

/// What a report says where a list is empty.
pub open spec fn none_text() -> Seq<char> {
    " none"@
}

/// The colour of a label in brackets, where it has one.
pub open spec fn color_note(color: Option<Seq<char>>) -> Seq<char> {
    match color {
        Some(c) => " (#"@ + c + ")"@,
        None => Seq::empty(),
    }
}

/// The description of a label in quotes, where it has one.
pub open spec fn description_note(description: Option<Seq<char>>) -> Seq<char> {
    match description {
        Some(d) => " \""@ + d + "\""@,
        None => Seq::empty(),
    }
}

/// The line of one label: its name, its colour, its description.
pub open spec fn label_line_text(l: LabelSpecView, kind: ColorKind, colored: bool) -> Seq<char> {
    "    - "@ + painted(l.name, kind, colored) + color_note(l.color) + description_note(
        l.description,
    )
}

pub open spec fn label_line(kind: ColorKind, colored: bool) -> spec_fn(LabelSpecView) -> Seq<char> {
    |l: LabelSpecView| label_line_text(l, kind, colored)
}

/// The lines of a list of labels, or ` none`.
pub open spec fn label_lines_text(labels: Seq<LabelSpecView>, kind: ColorKind, colored: bool) -> Seq<
    char,
> {
    if labels.len() == 0 {
        none_text()
    } else {
        listed(labels.map_values(label_line(kind, colored)))
    }
}

fn label_line_string(label: &LabelSpec, kind: ColorKind, colored: bool) -> (r: String)
    ensures
        r@ == label_line_text(label.deep_view(), kind, colored),
{
    let mut line = owned("    - ");
    let name = apply_color(label.name.as_str(), kind, colored);
    line.append(name.as_str());
    if let Some(color) = &label.color {
        line.append(" (#");
        line.append(color.as_str());
        line.append(")");
    }
    let ghost with_color = line@;
    assert(with_color =~= "    - "@ + painted(label.name@, kind, colored) + color_note(
        label.color.deep_view(),
    ));
    if let Some(desc) = &label.description {
        line.append(" \"");
        line.append(desc.as_str());
        line.append("\"");
    }
    assert(line@ =~= with_color + description_note(label.description.deep_view()));
    line
}

/// The lines of a list of labels, one per label, or ` none`.
pub fn format_label_lines(labels: &Vec<LabelSpec>, kind: ColorKind, colored: bool) -> (r: String)
    ensures
        r@ == label_lines_text(labels.deep_view(), kind, colored),
{
    if labels.len() == 0 {
        return owned(" none");
    }
    let ghost all = labels.deep_view();
    let ghost f = label_line(kind, colored);
    let mut lines: Vec<String> = Vec::new();
    let mut i: usize = 0;
    while i < labels.len()
        invariant
            i <= labels.len(),
            all == labels.deep_view(),
            f == label_line(kind, colored),
            lines.deep_view() =~= all.take(i as int).map_values(f),
        decreases labels.len() - i,
    {
        let ghost before = lines.deep_view();
        lines.push(label_line_string(&labels[i], kind, colored));
        assert(lines.deep_view() =~= before.push(f(all[i as int])));
        i += 1;
    }
    assert(all.take(i as int) =~= all);
    list_lines(&lines)
}

pub open spec fn template_line(kind: ColorKind, colored: bool) -> spec_fn(
    IssueTemplateFileView,
) -> Seq<char> {
    |t: IssueTemplateFileView| "    - "@ + painted(canonical_path(t.path), kind, colored)
}

/// The lines of a list of files, each under its canonical path, or
/// ` none`.
pub open spec fn template_lines_text(
    files: Seq<IssueTemplateFileView>,
    kind: ColorKind,
    colored: bool,
) -> Seq<char> {
    if files.len() == 0 {
        none_text()
    } else {
        listed(files.map_values(template_line(kind, colored)))
    }
}

/// The lines of a list of files, one per file, or ` none`.
pub fn format_template_lines(templates: &Vec<IssueTemplateFile>, kind: ColorKind, colored: bool) -> (r:
    String)
    ensures
        r@ == template_lines_text(templates.deep_view(), kind, colored),
{
    if templates.len() == 0 {
        return owned(" none");
    }
    let ghost all = templates.deep_view();
    let ghost f = template_line(kind, colored);
    let mut lines: Vec<String> = Vec::new();
    let mut i: usize = 0;
    while i < templates.len()
        invariant
            i <= templates.len(),
            all == templates.deep_view(),
            f == template_line(kind, colored),
            lines.deep_view() =~= all.take(i as int).map_values(f),
        decreases templates.len() - i,
    {
        let ghost before = lines.deep_view();
        let short = short_github_path(templates[i].path.as_str());
        let shown = apply_color(short.as_str(), kind, colored);
        lines.push(owned("    - ").concat(shown.as_str()));
        assert(lines.deep_view() =~= before.push(f(all[i as int])));
        i += 1;
    }
    assert(all.take(i as int) =~= all);
    list_lines(&lines)
}

/// The files of a list of updates.
pub open spec fn updated_files(updates: Seq<(IssueTemplateFileView, Seq<char>)>) -> Seq<
    IssueTemplateFileView,
> {
    updates.map_values(|u: (IssueTemplateFileView, Seq<char>)| u.0)
}

/// The files of a list of updates, without the SHAs they replace.
pub fn files_of_updates(updates: &Vec<(IssueTemplateFile, String)>) -> (r: Vec<IssueTemplateFile>)
    ensures
        r.deep_view() == updated_files(updates.deep_view()),
{
    let mut files: Vec<IssueTemplateFile> = Vec::new();
    let mut i: usize = 0;
    while i < updates.len()
        invariant
            i <= updates.len(),
            files.len() == i,
            forall|k: int| 0 <= k < i ==> files.deep_view()[k] == updates.deep_view()[k].0,
        decreases updates.len() - i,
    {
        let ghost before = files.deep_view();
        assert(updates.deep_view()[i as int] == updates[i as int].deep_view());
        files.push(updates[i].0.clone());
        assert(files.deep_view() =~= before.push(updates.deep_view()[i as int].0));
        i += 1;
    }
    assert(files.deep_view() =~= updated_files(updates.deep_view()));
    files
}

pub open spec fn remove_line(colored: bool) -> spec_fn((Seq<char>, Seq<char>)) -> Seq<char> {
    |d: (Seq<char>, Seq<char>)| "    - "@ + painted(d.0, ColorKind::Remove, colored)
}

/// The lines of the files to remove, each under its path, or ` none`.
pub open spec fn remove_lines_text(files: Seq<(Seq<char>, Seq<char>)>, colored: bool) -> Seq<char> {
    if files.len() == 0 {
        none_text()
    } else {
        listed(files.map_values(remove_line(colored)))
    }
}

/// The lines of the files to remove, one per file, or ` none`.
pub fn format_remove_lines(files: &Vec<(String, String)>, colored: bool) -> (r: String)
    ensures
        r@ == remove_lines_text(files.deep_view(), colored),
{
    if files.len() == 0 {
        return owned(" none");
    }
    let ghost all = files.deep_view();
    let ghost f = remove_line(colored);
    let mut lines: Vec<String> = Vec::new();
    let mut i: usize = 0;
    while i < files.len()
        invariant
            i <= files.len(),
            all == files.deep_view(),
            f == remove_line(colored),
            lines.deep_view() =~= all.take(i as int).map_values(f),
        decreases files.len() - i,
    {
        let ghost before = lines.deep_view();
        assert(all[i as int] == files[i as int].deep_view());
        let shown = apply_color(files[i].0.as_str(), ColorKind::Remove, colored);
        lines.push(owned("    - ").concat(shown.as_str()));
        assert(lines.deep_view() =~= before.push(f(all[i as int])));
        i += 1;
    }
    assert(all.take(i as int) =~= all);
    list_lines(&lines)
}

/// What a usage entry says: whether it is an issue or a pull request, its
/// number where it has one, and its address where it has one.
pub open spec fn usage_text(u: LabelUsageEntryView) -> Seq<char> {
    let kind = if u.is_pr {
        "PR"@
    } else {
        "Issue"@
    };
    match u.url {
        Some(url) => if u.number > 0 {
            kind + " "@ + decimal(u.number as nat) + " ("@ + url + ")"@
        } else {
            kind + " ("@ + url + ")"@
        },
        None => if u.number > 0 {
            kind + " "@ + decimal(u.number as nat)
        } else {
            kind
        },
    }
}

pub open spec fn usage_line() -> spec_fn(LabelUsageEntryView) -> Seq<char> {
    |u: LabelUsageEntryView| "      - "@ + usage_text(u)
}

/// The lines of one blocked removal: the label, and with details the
/// entries of its usage below it.
pub open spec fn blocked_item_lines(
    item: (LabelSpecView, Seq<LabelUsageEntryView>),
    verbose: bool,
    colored: bool,
) -> Seq<Seq<char>> {
    let line = label_line_text(item.0, ColorKind::Blocked, colored);
    if verbose && item.1.len() > 0 {
        seq![line + " -> in use by:"@] + item.1.map_values(usage_line())
    } else {
        seq![line]
    }
}

/// The lines of all blocked removals, in their order.
pub open spec fn blocked_lines(
    items: Seq<(LabelSpecView, Seq<LabelUsageEntryView>)>,
    verbose: bool,
    colored: bool,
) -> Seq<Seq<char>>
    decreases items.len(),
{
    if items.len() == 0 {
        Seq::empty()
    } else {
        blocked_lines(items.drop_last(), verbose, colored) + blocked_item_lines(
            items.last(),
            verbose,
            colored,
        )
    }
}

/// The lines of the blocked removals, or ` none`.
pub open spec fn blocked_lines_text(
    items: Seq<(LabelSpecView, Seq<LabelUsageEntryView>)>,
    verbose: bool,
    colored: bool,
) -> Seq<char> {
    if items.len() == 0 {
        none_text()
    } else {
        listed(blocked_lines(items, verbose, colored))
    }
}

fn usage_string(u: &LabelUsageEntry) -> (r: String)
    ensures
        r@ == usage_text(u.deep_view()),
{
    let mut entry = owned(if u.is_pr {
        "PR"
    } else {
        "Issue"
    });
    if u.number > 0 {
        entry.append(" ");
        entry.append(decimal_string(u.number).as_str());
    }
    if let Some(url) = &u.url {
        entry.append(" (");
        entry.append(url.as_str());
        entry.append(")");
    }
    assert(entry@ =~= usage_text(u.deep_view()));
    entry
}

fn push_blocked_lines(lines: &mut Vec<String>, item: &BlockedRemoval, verbose: bool, colored: bool)
    ensures
        final(lines).deep_view() == old(lines).deep_view() + blocked_item_lines(
            item.deep_view(),
            verbose,
            colored,
        ),
{
    let ghost start = lines.deep_view();
    let ghost usage = item.1.deep_view();
    let mut line = label_line_string(&item.0, ColorKind::Blocked, colored);
    if verbose && item.1.len() > 0 {
        line.append(" -> in use by:");
        lines.push(line);
        let ghost head = lines.deep_view();
        assert(head =~= start + seq![
            label_line_text(item.0.deep_view(), ColorKind::Blocked, colored) + " -> in use by:"@,
        ]);
        let mut i: usize = 0;
        while i < item.1.len()
            invariant
                i <= item.1.len(),
                usage == item.1.deep_view(),
                lines.deep_view() =~= head + usage.take(i as int).map_values(usage_line()),
            decreases item.1.len() - i,
        {
            let ghost before = lines.deep_view();
            let entry = usage_string(&item.1[i]);
            lines.push(owned("      - ").concat(entry.as_str()));
            assert(lines.deep_view() =~= before.push(usage_line()(usage[i as int])));
            i += 1;
        }
        assert(usage.take(i as int) =~= usage);
        assert(lines.deep_view() =~= start + blocked_item_lines(
            item.deep_view(),
            verbose,
            colored,
        ));
    } else {
        lines.push(line);
        assert(lines.deep_view() =~= start + blocked_item_lines(
            item.deep_view(),
            verbose,
            colored,
        ));
    }
}

/// The lines of the blocked removals, or ` none`. With `verbose`, the
/// usage of each label is listed below it.
pub fn format_blocked_lines(blocked: &Vec<BlockedRemoval>, verbose: bool, colored: bool) -> (r:
    String)
    ensures
        r@ == blocked_lines_text(blocked.deep_view(), verbose, colored),
{
    if blocked.len() == 0 {
        return owned(" none");
    }
    let ghost all = blocked.deep_view();
    let mut lines: Vec<String> = Vec::new();
    let mut i: usize = 0;
    assert(lines.deep_view() =~= blocked_lines(all.take(0), verbose, colored));
    while i < blocked.len()
        invariant
            i <= blocked.len(),
            all == blocked.deep_view(),
            lines.deep_view() == blocked_lines(all.take(i as int), verbose, colored),
        decreases blocked.len() - i,
    {
        proof {
            assert(all.take(i + 1).drop_last() =~= all.take(i as int));
            assert(all.take(i + 1).last() == blocked[i as int].deep_view());
        }
        push_blocked_lines(&mut lines, &blocked[i], verbose, colored);
        i += 1;
    }
    assert(all.take(i as int) =~= all);
    list_lines(&lines)
}

/// The line of one setting: its name, what the repository has, and what
/// is desired.
pub open spec fn setting_line(colored: bool) -> spec_fn(SettingChangeView) -> Seq<char> {
    |c: SettingChangeView|
        "    - "@ + c.field + ": "@ + (match c.current {
            Some(v) => v,
            None => "unset"@,
        }) + " -> "@ + painted(c.desired, ColorKind::Update, colored)
}

/// The count and the lines of a settings diff: `not configured` where no
/// settings are desired.
pub open spec fn settings_report(diff: Option<Seq<SettingChangeView>>, colored: bool) -> (
    Seq<char>,
    Seq<char>,
) {
    match diff {
        None => ("not configured"@, " not configured"@),
        Some(changes) => if changes.len() == 0 {
            ("0"@, none_text())
        } else {
            (
                count_text(changes.len(), ColorKind::Update, colored),
                listed(changes.map_values(setting_line(colored))),
            )
        },
    }
}

fn setting_line_string(change: &SettingChange, colored: bool) -> (r: String)
    ensures
        r@ == setting_line(colored)(change.deep_view()),
{
    let mut line = owned("    - ");
    line.append(change.field);
    line.append(": ");
    match &change.current {
        Some(v) => line.append(v.as_str()),
        None => line.append("unset"),
    }
    line.append(" -> ");
    let shown = apply_color(change.desired.as_str(), ColorKind::Update, colored);
    line.append(shown.as_str());
    assert(line@ =~= setting_line(colored)(change.deep_view()));
    line
}

/// The count and the lines of a settings diff.
pub fn format_repo_settings(diff: Option<&RepoSettingsDiff>, colored: bool) -> (r: (String, String))
    ensures
        (r.0@, r.1@) == settings_report(
            match diff {
                Some(d) => Some(d.changes.deep_view()),
                None => None,
            },
            colored,
        ),
{
    match diff {
        None => (owned("not configured"), owned(" not configured")),
        Some(d) => {
            if d.changes.len() == 0 {
                return (owned("0"), owned(" none"));
            }
            let ghost all = d.changes.deep_view();
            let ghost f = setting_line(colored);
            let mut lines: Vec<String> = Vec::new();
            let mut i: usize = 0;
            while i < d.changes.len()
                invariant
                    i <= d.changes.len(),
                    all == d.changes.deep_view(),
                    f == setting_line(colored),
                    lines.deep_view() =~= all.take(i as int).map_values(f),
                decreases d.changes.len() - i,
            {
                let ghost before = lines.deep_view();
                lines.push(setting_line_string(&d.changes[i], colored));
                assert(lines.deep_view() =~= before.push(f(all[i as int])));
                i += 1;
            }
            assert(all.take(i as int) =~= all);
            (format_count(d.changes.len(), ColorKind::Update, colored), list_lines(&lines))
        },
    }
}

/// The detail of a flag of a rule, where the rule sets it.
pub open spec fn flag_detail(label: Seq<char>, v: Option<bool>) -> Seq<Seq<char>> {
    match v {
        Some(b) => seq![label + flag_text(b)],
        None => Seq::empty(),
    }
}

/// The detail of a list of names, where the rule gives one that is not
/// empty.
pub open spec fn names_detail(label: Seq<char>, names: Option<Seq<Seq<char>>>) -> Seq<Seq<char>> {
    match names {
        Some(v) => if v.len() > 0 {
            seq![label + joined(v, ", "@)]
        } else {
            Seq::empty()
        },
        None => Seq::empty(),
    }
}

/// A status check in words: its context, and its app where it names one.
pub open spec fn check_text(c: StatusCheckView) -> Seq<char> {
    match c.app_id {
        Some(app) => c.context + " (app "@ + decimal(app as nat) + ")"@,
        None => c.context,
    }
}

pub open spec fn check_texts(checks: Seq<StatusCheckView>) -> Seq<Seq<char>> {
    checks.map_values(|c: StatusCheckView| check_text(c))
}

/// The details of the status checks that a rule requires.
pub open spec fn status_details(sc: Option<RequiredStatusChecksView>) -> Seq<Seq<char>> {
    match sc {
        Some(s) => flag_detail("status checks strict: "@, s.strict) + names_detail(
            "status contexts: "@,
            s.contexts,
        ) + names_detail(
            "status checks: "@,
            match s.checks {
                Some(c) => Some(check_texts(c)),
                None => None,
            },
        ),
        None => Seq::empty(),
    }
}

/// One group of a restriction: its kind and its names in brackets, where
/// the names joined are not empty.
pub open spec fn group_part(kind: Seq<char>, names: Option<Seq<Seq<char>>>) -> Seq<Seq<char>> {
    let text = match names {
        Some(v) => joined(v, ", "@),
        None => Seq::empty(),
    };
    if text.len() > 0 {
        seq![kind + " ["@ + text + "]"@]
    } else {
        Seq::empty()
    }
}

/// The detail of a restriction, where it has a group to show.
pub open spec fn groups_detail(label: Seq<char>, parts: Seq<Seq<char>>) -> Seq<Seq<char>> {
    if parts.len() > 0 {
        seq![label + joined(parts, "; "@)]
    } else {
        Seq::empty()
    }
}

/// The details of the reviews that a rule requires.
pub open spec fn review_details(pr: Option<RequiredPullRequestReviewsView>) -> Seq<Seq<char>> {
    match pr {
        Some(r) => flag_detail("dismiss stale reviews: "@, r.dismiss_stale_reviews) + flag_detail(
            "require code owner reviews: "@,
            r.require_code_owner_reviews,
        ) + (match r.required_approving_review_count {
            Some(n) => seq!["required approvals: "@ + decimal(n as nat)],
            None => Seq::empty(),
        }) + flag_detail("require last push approval: "@, r.require_last_push_approval) + (match r.dismissal_restrictions {
            Some(d) => groups_detail(
                "dismissal restrictions: "@,
                group_part("users"@, d.users) + group_part("teams"@, d.teams),
            ),
            None => Seq::empty(),
        }),
        None => Seq::empty(),
    }
}

/// The details of the push restrictions of a rule.
pub open spec fn restriction_details(r: Option<BranchRestrictionsView>) -> Seq<Seq<char>> {
    match r {
        Some(b) => groups_detail(
            "restrictions: "@,
            group_part("users"@, b.users) + group_part("teams"@, b.teams) + group_part(
                "apps"@,
                b.apps,
            ),
        ),
        None => Seq::empty(),
    }
}

/// What a rule sets, one line per setting: status checks, reviews, the
/// flags, and the push restrictions.
pub open spec fn rule_details(rule: BranchProtectionRuleView) -> Seq<Seq<char>> {
    status_details(rule.required_status_checks) + review_details(
        rule.required_pull_request_reviews,
    ) + flag_detail("enforce admins: "@, rule.enforce_admins) + flag_detail(
        "allow force pushes: "@,
        rule.allow_force_pushes,
    ) + flag_detail("allow deletions: "@, rule.allow_deletions) + flag_detail(
        "block creations: "@,
        rule.block_creations,
    ) + flag_detail("require linear history: "@, rule.require_linear_history) + flag_detail(
        "require conversation resolution: "@,
        rule.required_conversation_resolution,
    ) + flag_detail("require signatures: "@, rule.required_signatures) + restriction_details(
        rule.restrictions,
    )
}

fn push_flag_detail(lines: &mut Vec<String>, label: &str, v: Option<bool>)
    ensures
        final(lines).deep_view() == old(lines).deep_view() + flag_detail(label@, v),
{
    let ghost start = lines.deep_view();
    if let Some(b) = v {
        lines.push(owned(label).concat(flag_string(b).as_str()));
    }
    assert(lines.deep_view() =~= start + flag_detail(label@, v));
}

fn push_names_detail(lines: &mut Vec<String>, label: &str, names: &Option<Vec<String>>)
    ensures
        final(lines).deep_view() == old(lines).deep_view() + names_detail(
            label@,
            names.deep_view(),
        ),
{
    let ghost start = lines.deep_view();
    if let Some(v) = names {
        if v.len() > 0 {
            lines.push(owned(label).concat(join(v, ", ").as_str()));
        }
    }
    assert(lines.deep_view() =~= start + names_detail(label@, names.deep_view()));
}

fn check_strings(checks: &Vec<StatusCheck>) -> (r: Vec<String>)
    ensures
        r.deep_view() == check_texts(checks.deep_view()),
{
    let mut texts: Vec<String> = Vec::new();
    let mut i: usize = 0;
    while i < checks.len()
        invariant
            i <= checks.len(),
            texts.len() == i,
            forall|k: int| 0 <= k < i ==> texts.deep_view()[k] == check_text(checks.deep_view()[k]),
        decreases checks.len() - i,
    {
        let ghost before = texts.deep_view();
        let c = &checks[i];
        let mut text = c.context.clone();
        if let Some(app) = c.app_id {
            text.append(" (app ");
            text.append(decimal_string(app).as_str());
            text.append(")");
        }
        assert(text@ =~= check_text(checks.deep_view()[i as int]));
        texts.push(text);
        assert(texts.deep_view() =~= before.push(check_text(checks.deep_view()[i as int])));
        i += 1;
    }
    assert(texts.deep_view() =~= check_texts(checks.deep_view()));
    texts
}

fn push_group_part(parts: &mut Vec<String>, kind: &str, names: &Option<Vec<String>>)
    ensures
        final(parts).deep_view() == old(parts).deep_view() + group_part(kind@, names.deep_view()),
{
    let ghost start = parts.deep_view();
    let text = match names {
        Some(v) => join(v, ", "),
        None => String::new(),
    };
    if !text.as_str().is_empty() {
        let mut part = owned(kind);
        part.append(" [");
        part.append(text.as_str());
        part.append("]");
        assert(part@ =~= kind@ + " ["@ + text@ + "]"@);
        parts.push(part);
    }
    assert(parts.deep_view() =~= start + group_part(kind@, names.deep_view()));
}

fn push_groups_detail(lines: &mut Vec<String>, label: &str, parts: &Vec<String>)
    ensures
        final(lines).deep_view() == old(lines).deep_view() + groups_detail(
            label@,
            parts.deep_view(),
        ),
{
    let ghost start = lines.deep_view();
    if parts.len() > 0 {
        lines.push(owned(label).concat(join(parts, "; ").as_str()));
    }
    assert(lines.deep_view() =~= start + groups_detail(label@, parts.deep_view()));
}

fn push_status_details(lines: &mut Vec<String>, rule: &BranchProtectionRule)
    ensures
        final(lines).deep_view() == old(lines).deep_view() + status_details(
            rule.deep_view().required_status_checks,
        ),
{
    let ghost start = lines.deep_view();
    if let Some(sc) = &rule.required_status_checks {
        push_flag_detail(lines, "status checks strict: ", sc.strict);
        push_names_detail(lines, "status contexts: ", &sc.contexts);
        let texts = match &sc.checks {
            Some(c) => Some(check_strings(c)),
            None => None,
        };
        push_names_detail(lines, "status checks: ", &texts);
    }
    assert(lines.deep_view() =~= start + status_details(
        rule.deep_view().required_status_checks,
    ));
}

fn push_review_details(lines: &mut Vec<String>, rule: &BranchProtectionRule)
    ensures
        final(lines).deep_view() == old(lines).deep_view() + review_details(
            rule.deep_view().required_pull_request_reviews,
        ),
{
    let ghost start = lines.deep_view();
    if let Some(pr) = &rule.required_pull_request_reviews {
        push_flag_detail(lines, "dismiss stale reviews: ", pr.dismiss_stale_reviews);
        push_flag_detail(lines, "require code owner reviews: ", pr.require_code_owner_reviews);
        let ghost flags = lines.deep_view();
        if let Some(n) = pr.required_approving_review_count {
            lines.push(owned("required approvals: ").concat(decimal_string(n as u64).as_str()));
        }
        assert(lines.deep_view() =~= flags + (match pr.required_approving_review_count {
            Some(n) => seq!["required approvals: "@ + decimal(n as nat)],
            None => Seq::empty(),
        }));
        push_flag_detail(lines, "require last push approval: ", pr.require_last_push_approval);
        let ghost counted = lines.deep_view();
        if let Some(d) = &pr.dismissal_restrictions {
            let mut parts: Vec<String> = Vec::new();
            assert(parts.deep_view() =~= Seq::<Seq<char>>::empty());
            push_group_part(&mut parts, "users", &d.users);
            push_group_part(&mut parts, "teams", &d.teams);
            assert(parts.deep_view() =~= group_part("users"@, d.deep_view().users) + group_part(
                "teams"@,
                d.deep_view().teams,
            ));
            push_groups_detail(lines, "dismissal restrictions: ", &parts);
        }
        assert(lines.deep_view() =~= counted + (match pr.deep_view().dismissal_restrictions {
            Some(d) => groups_detail(
                "dismissal restrictions: "@,
                group_part("users"@, d.users) + group_part("teams"@, d.teams),
            ),
            None => Seq::empty(),
        }));
    }
    assert(lines.deep_view() =~= start + review_details(
        rule.deep_view().required_pull_request_reviews,
    ));
}

fn push_restriction_details(lines: &mut Vec<String>, rule: &BranchProtectionRule)
    ensures
        final(lines).deep_view() == old(lines).deep_view() + restriction_details(
            rule.deep_view().restrictions,
        ),
{
    let ghost start = lines.deep_view();
    if let Some(r) = &rule.restrictions {
        let mut parts: Vec<String> = Vec::new();
        assert(parts.deep_view() =~= Seq::<Seq<char>>::empty());
        push_group_part(&mut parts, "users", &r.users);
        push_group_part(&mut parts, "teams", &r.teams);
        push_group_part(&mut parts, "apps", &r.apps);
        assert(parts.deep_view() =~= group_part("users"@, r.deep_view().users) + group_part(
            "teams"@,
            r.deep_view().teams,
        ) + group_part("apps"@, r.deep_view().apps));
        push_groups_detail(lines, "restrictions: ", &parts);
    }
    assert(lines.deep_view() =~= start + restriction_details(rule.deep_view().restrictions));
}

/// What a rule sets, one line per setting.
pub fn branch_rule_details(rule: &BranchProtectionRule) -> (r: Vec<String>)
    ensures
        r.deep_view() == rule_details(rule.deep_view()),
{
    let mut lines: Vec<String> = Vec::new();
    assert(lines.deep_view() =~= Seq::<Seq<char>>::empty());
    push_status_details(&mut lines, rule);
    push_review_details(&mut lines, rule);
    push_flag_detail(&mut lines, "enforce admins: ", rule.enforce_admins);
    push_flag_detail(&mut lines, "allow force pushes: ", rule.allow_force_pushes);
    push_flag_detail(&mut lines, "allow deletions: ", rule.allow_deletions);
    push_flag_detail(&mut lines, "block creations: ", rule.block_creations);
    push_flag_detail(&mut lines, "require linear history: ", rule.require_linear_history);
    push_flag_detail(
        &mut lines,
        "require conversation resolution: ",
        rule.required_conversation_resolution,
    );
    push_flag_detail(&mut lines, "require signatures: ", rule.required_signatures);
    push_restriction_details(&mut lines, rule);
    assert(lines.deep_view() =~= rule_details(rule.deep_view()));
    lines
}

/// How the kind of a rule write is named.
pub open spec fn action_text(action: ChangeAction) -> Seq<char> {
    match action {
        ChangeAction::Create => "create"@,
        ChangeAction::Update => "update"@,
    }
}

pub open spec fn detail_line() -> spec_fn(Seq<char>) -> Seq<char> {
    |d: Seq<char>| "      - "@ + d
}

/// The lines of one rule write: its pattern and kind, and with details
/// what the rule sets below it.
pub open spec fn change_lines(c: BranchProtectionChangeView, verbose: bool, colored: bool) -> Seq<
    Seq<char>,
> {
    let head = "    - "@ + painted(c.pattern, ColorKind::Update, colored) + ": "@ + action_text(
        c.action,
    );
    if verbose {
        seq![head] + rule_details(c.target).map_values(detail_line())
    } else {
        seq![head]
    }
}

/// The lines of all rule writes, in their order.
pub open spec fn protection_lines(
    changes: Seq<BranchProtectionChangeView>,
    verbose: bool,
    colored: bool,
) -> Seq<Seq<char>>
    decreases changes.len(),
{
    if changes.len() == 0 {
        Seq::empty()
    } else {
        protection_lines(changes.drop_last(), verbose, colored) + change_lines(
            changes.last(),
            verbose,
            colored,
        )
    }
}

/// The count and the lines of the rule writes.
pub open spec fn protection_report(
    changes: Seq<BranchProtectionChangeView>,
    verbose: bool,
    colored: bool,
) -> (Seq<char>, Seq<char>) {
    if changes.len() == 0 {
        ("0"@, none_text())
    } else {
        (
            count_text(changes.len(), ColorKind::Update, colored),
            listed(protection_lines(changes, verbose, colored)),
        )
    }
}

fn push_change_lines(
    lines: &mut Vec<String>,
    change: &BranchProtectionChange,
    verbose: bool,
    colored: bool,
)
    ensures
        final(lines).deep_view() == old(lines).deep_view() + change_lines(
            change.deep_view(),
            verbose,
            colored,
        ),
{
    let ghost start = lines.deep_view();
    let mut head = owned("    - ");
    head.append(apply_color(change.pattern.as_str(), ColorKind::Update, colored).as_str());
    head.append(": ");
    head.append(
        match change.action {
            ChangeAction::Create => "create",
            ChangeAction::Update => "update",
        },
    );
    let ghost head_text = head@;
    assert(head_text =~= "    - "@ + painted(change.pattern@, ColorKind::Update, colored) + ": "@
        + action_text(change.action));
    lines.push(head);
    let ghost with_head = lines.deep_view();
    assert(with_head =~= start + seq![head_text]);
    if verbose {
        let details = branch_rule_details(&change.target);
        let ghost all = details.deep_view();
        let mut i: usize = 0;
        while i < details.len()
            invariant
                i <= details.len(),
                all == details.deep_view(),
                lines.deep_view() =~= with_head + all.take(i as int).map_values(detail_line()),
            decreases details.len() - i,
        {
            let ghost before = lines.deep_view();
            lines.push(owned("      - ").concat(details[i].as_str()));
            assert(lines.deep_view() =~= before.push(detail_line()(all[i as int])));
            i += 1;
        }
        assert(all.take(i as int) =~= all);
    }
    assert(lines.deep_view() =~= start + change_lines(change.deep_view(), verbose, colored));
}

/// The count and the lines of the rule writes. With `verbose`, what each
/// rule sets is listed below it.
pub fn format_branch_protection(changes: &Vec<BranchProtectionChange>, verbose: bool, colored: bool) -> (r:
    (String, String))
    ensures
        (r.0@, r.1@) == protection_report(changes.deep_view(), verbose, colored),
{
    if changes.len() == 0 {
        return (owned("0"), owned(" none"));
    }
    let ghost all = changes.deep_view();
    let mut lines: Vec<String> = Vec::new();
    let mut i: usize = 0;
    assert(lines.deep_view() =~= protection_lines(all.take(0), verbose, colored));
    while i < changes.len()
        invariant
            i <= changes.len(),
            all == changes.deep_view(),
            lines.deep_view() == protection_lines(all.take(i as int), verbose, colored),
        decreases changes.len() - i,
    {
        proof {
            assert(all.take(i + 1).drop_last() =~= all.take(i as int));
            assert(all.take(i + 1).last() == changes[i as int].deep_view());
        }
        push_change_lines(&mut lines, &changes[i], verbose, colored);
        i += 1;
    }
    assert(all.take(i as int) =~= all);
    (format_count(changes.len(), ColorKind::Update, colored), list_lines(&lines))
}

/// A plan changes files: it adds, updates or removes some.
pub open spec fn changes_files(plan: RepoPlanView) -> bool {
    plan.templates_add.len() > 0 || plan.templates_update.len() > 0 || plan.templates_remove.len()
        > 0
}

/// What a plan says of the governance pull request, and the branch that
/// it names: the pull request will be updated or created where files
/// change, and is only mentioned, if it is there, where they do not.
pub open spec fn plan_pr_note_text(
    plan: RepoPlanView,
    existing: Option<PullRequestInfoView>,
    base: Seq<char>,
) -> (Seq<char>, Option<Seq<char>>) {
    match existing {
        Some(pr) => if changes_files(plan) {
            (
                "draft PR will be updated for .github file updates (reusing #"@ + decimal(
                    pr.number as nat,
                ) + ")"@,
                Some(pr.head_ref),
            )
        } else {
            (
                "existing draft PR #"@ + decimal(pr.number as nat)
                    + " already present for .github files"@,
                Some(pr.head_ref),
            )
        },
        None => if changes_files(plan) {
            (
                "draft PR will be created for .github file updates"@,
                Some(governance_branch_name(base)),
            )
        } else {
            ("no PR (no .github file changes)"@, None)
        },
    }
}

/// What a plan says of the governance pull request, and the branch that
/// it names.
pub fn plan_pr_note(plan: &RepoPlan, existing: Option<&PullRequestInfo>, base: &str) -> (r: (
    String,
    Option<String>,
))
    ensures
        (r.0@, r.1.deep_view()) == plan_pr_note_text(
            plan.deep_view(),
            existing.deep_view(),
            base@,
        ),
{
    let any = plan.templates_add.len() > 0 || plan.templates_update.len() > 0
        || plan.templates_remove.len() > 0;
    match existing {
        Some(pr) => {
            let number = decimal_string(pr.number);
            if any {
                let mut note = owned("draft PR will be updated for .github file updates (reusing #");
                note.append(number.as_str());
                note.append(")");
                (note, Some(pr.head_ref.clone()))
            } else {
                let mut note = owned("existing draft PR #");
                note.append(number.as_str());
                note.append(" already present for .github files");
                (note, Some(pr.head_ref.clone()))
            }
        },
        None => {
            if any {
                (
                    owned("draft PR will be created for .github file updates"),
                    Some(governance_branch(base)),
                )
            } else {
                (owned("no PR (no .github file changes)"), None)
            }
        },
    }
}

/// The address of a pull request: the one it was listed with, or the one
/// that its number gives.
pub open spec fn pr_address(pr: PullRequestInfoView, org: Seq<char>, repo: Seq<char>) -> Seq<char> {
    match pr.html_url {
        Some(url) => url,
        None => "https://github.com/"@ + org + "/"@ + repo + "/pull/"@ + decimal(pr.number as nat),
    }
}

/// What an apply run says of the governance pull request at its end.
pub open spec fn apply_pr_status_text(
    branch: Option<Seq<char>>,
    pr: Option<PullRequestInfoView>,
    base: Seq<char>,
    org: Seq<char>,
    repo: Seq<char>,
) -> Seq<char> {
    match branch {
        None => "no PR (no .github file changes)"@,
        Some(b) => match pr {
            Some(p) => "draft PR #"@ + decimal(p.number as nat) + " ("@ + b + " -> "@ + base
                + ") ["@ + pr_address(p, org, repo) + "]"@,
            None => "no PR created for branch '"@ + b + "' (no changes to apply)"@,
        },
    }
}

/// What an apply run says of the governance pull request at its end.
/// `branch` is the staging branch of the run and `pr` the open governance
/// pull request as found after the writes.
pub fn apply_pr_status(
    branch: Option<&str>,
    pr: Option<&PullRequestInfo>,
    base: &str,
    org: &str,
    repo: &str,
) -> (r: String)
    ensures
        r@ == apply_pr_status_text(
            match branch {
                Some(b) => Some(b@),
                None => None,
            },
            pr.deep_view(),
            base@,
            org@,
            repo@,
        ),
{
    match branch {
        None => owned("no PR (no .github file changes)"),
        Some(b) => match pr {
            Some(p) => {
                let number = decimal_string(p.number);
                let url = match &p.html_url {
                    Some(u) => u.clone(),
                    None => {
                        let mut u = owned("https://github.com/");
                        u.append(org);
                        u.append("/");
                        u.append(repo);
                        u.append("/pull/");
                        u.append(number.as_str());
                        u
                    },
                };
                assert(url@ =~= pr_address(p.deep_view(), org@, repo@));
                let mut status = owned("draft PR #");
                status.append(number.as_str());
                status.append(" (");
                status.append(b);
                status.append(" -> ");
                status.append(base);
                status.append(") [");
                status.append(url.as_str());
                status.append("]");
                status
            },
            None => {
                let mut status = owned("no PR created for branch '");
                status.append(b);
                status.append("' (no changes to apply)");
                status
            },
        },
    }
}

/// One section of a report: its heading, its count in brackets, and its
/// lines.
pub open spec fn section(heading: Seq<char>, count: Seq<char>, lines: Seq<char>) -> Seq<char> {
    heading + " ("@ + count + ") :"@ + lines
}

fn push_section(out: &mut String, heading: &str, count: &String, lines: &String)
    ensures
        final(out)@ == old(out)@ + section(heading@, count@, lines@),
{
    let ghost start = out@;
    out.append(heading);
    out.append(" (");
    out.append(count.as_str());
    out.append(") :");
    out.append(lines.as_str());
    assert(out@ =~= start + section(heading@, count@, lines@));
}

/// The sections of a report that a plan and an apply report share, up to
/// the pull request: settings and branch protection.
pub open spec fn head_sections(plan: RepoPlanView, verbose: bool, colored: bool) -> Seq<char> {
    section(
        "\n  Repo settings changes"@,
        settings_report(plan.settings_diff, colored).0,
        settings_report(plan.settings_diff, colored).1,
    ) + section(
        "\n  Branch protection"@,
        protection_report(plan.bp_changes, verbose, colored).0,
        protection_report(plan.bp_changes, verbose, colored).1,
    )
}

/// The sections on files: `done` tells a plan, which names what is to be
/// done, from an apply report, which names what was done.
pub open spec fn file_sections(plan: RepoPlanView, done: bool, colored: bool) -> Seq<char> {
    section(
        if done {
            "\n    .github files added"@
        } else {
            "\n    .github files add"@
        },
        count_text(plan.templates_add.len(), ColorKind::Add, colored),
        template_lines_text(plan.templates_add, ColorKind::Add, colored),
    ) + section(
        if done {
            "\n    .github files updated"@
        } else {
            "\n    .github files update"@
        },
        count_text(plan.templates_update.len(), ColorKind::Update, colored),
        template_lines_text(updated_files(plan.templates_update), ColorKind::Update, colored),
    ) + section(
        if done {
            "\n    .github files removed"@
        } else {
            "\n    .github files remove"@
        },
        count_text(plan.templates_remove.len(), ColorKind::Remove, colored),
        remove_lines_text(plan.templates_remove, colored),
    )
}

/// The sections on labels. The labels counted as removed are those that
/// are not withheld.
pub open spec fn label_sections(plan: RepoPlanView, done: bool, colored: bool) -> Seq<char> {
    section(
        if done {
            "\n  Added labels"@
        } else {
            "\n  Add labels"@
        },
        count_text(plan.labels_add.len(), ColorKind::Add, colored),
        label_lines_text(plan.labels_add, ColorKind::Add, colored),
    ) + section(
        if done {
            "\n  Updated labels"@
        } else {
            "\n  Update labels"@
        },
        count_text(plan.labels_update.len(), ColorKind::Update, colored),
        label_lines_text(plan.labels_update, ColorKind::Update, colored),
    ) + section(
        if done {
            "\n  Removed labels"@
        } else {
            "\n  Remove labels"@
        },
        count_text(plan.removable.len(), ColorKind::Remove, colored),
        label_lines_text(plan.removable, ColorKind::Remove, colored),
    )
}

/// The report of a plan run for one repository.
pub open spec fn plan_report_text(
    repo: Seq<char>,
    plan: RepoPlanView,
    existing: Option<PullRequestInfoView>,
    base: Seq<char>,
    verbose: bool,
    colored: bool,
) -> Seq<char> {
    let note = plan_pr_note_text(plan, existing, base);
    "Repo "@ + repo + " (plan):"@ + head_sections(plan, verbose, colored) + "\n  PR:\n    "@
        + note.0 + (match note.1 {
        Some(b) => " on branch '"@ + b + "'\n"@,
        None => Seq::empty(),
    }) + file_sections(plan, false, colored) + label_sections(plan, false, colored) + section(
        "\n  Blocked removals"@,
        count_text(plan.blocked_removals.len(), ColorKind::Blocked, colored),
        blocked_lines_text(plan.blocked_removals, verbose, colored),
    )
}

/// The report of an apply run for one repository; `status` is what the
/// run says of the governance pull request.
pub open spec fn apply_report_text(
    repo: Seq<char>,
    plan: RepoPlanView,
    status: Seq<char>,
    verbose: bool,
    colored: bool,
) -> Seq<char> {
    "Repo "@ + repo + " (apply):"@ + head_sections(plan, verbose, colored) + "\n  PR:\n    "@
        + status + file_sections(plan, true, colored) + label_sections(plan, true, colored)
}

/// The notice of an apply run on the labels that it did not remove.
pub open spec fn skipped_notice_text(
    repo: Seq<char>,
    plan: RepoPlanView,
    verbose: bool,
    colored: bool,
) -> Option<Seq<char>> {
    if plan.blocked_removals.len() > 0 {
        Some(
            "Repo "@ + repo + " (apply): skipped removal of labels with issues/PRs:"@
                + blocked_lines_text(plan.blocked_removals, verbose, colored),
        )
    } else {
        None
    }
}

fn push_head_sections(out: &mut String, plan: &RepoPlan, verbose: bool, colored: bool)
    ensures
        final(out)@ == old(out)@ + head_sections(plan.deep_view(), verbose, colored),
{
    let ghost start = out@;
    let diff = match &plan.settings_diff {
        Some(d) => Some(d),
        None => None,
    };
    let (settings_count, settings_lines) = format_repo_settings(diff, colored);
    let (bp_count, bp_lines) = format_branch_protection(&plan.bp_changes, verbose, colored);
    push_section(out, "\n  Repo settings changes", &settings_count, &settings_lines);
    push_section(out, "\n  Branch protection", &bp_count, &bp_lines);
    assert(out@ =~= start + head_sections(plan.deep_view(), verbose, colored));
}

fn push_file_sections(out: &mut String, plan: &RepoPlan, done: bool, colored: bool)
    ensures
        final(out)@ == old(out)@ + file_sections(plan.deep_view(), done, colored),
{
    let ghost start = out@;
    push_section(
        out,
        if done {
            "\n    .github files added"
        } else {
            "\n    .github files add"
        },
        &format_count(plan.templates_add.len(), ColorKind::Add, colored),
        &format_template_lines(&plan.templates_add, ColorKind::Add, colored),
    );
    push_section(
        out,
        if done {
            "\n    .github files updated"
        } else {
            "\n    .github files update"
        },
        &format_count(plan.templates_update.len(), ColorKind::Update, colored),
        &format_template_lines(
            &files_of_updates(&plan.templates_update),
            ColorKind::Update,
            colored,
        ),
    );
    push_section(
        out,
        if done {
            "\n    .github files removed"
        } else {
            "\n    .github files remove"
        },
        &format_count(plan.templates_remove.len(), ColorKind::Remove, colored),
        &format_remove_lines(&plan.templates_remove, colored),
    );
    assert(out@ =~= start + file_sections(plan.deep_view(), done, colored));
}

fn push_label_sections(out: &mut String, plan: &RepoPlan, done: bool, colored: bool)
    ensures
        final(out)@ == old(out)@ + label_sections(plan.deep_view(), done, colored),
{
    let ghost start = out@;
    push_section(
        out,
        if done {
            "\n  Added labels"
        } else {
            "\n  Add labels"
        },
        &format_count(plan.labels_add.len(), ColorKind::Add, colored),
        &format_label_lines(&plan.labels_add, ColorKind::Add, colored),
    );
    push_section(
        out,
        if done {
            "\n  Updated labels"
        } else {
            "\n  Update labels"
        },
        &format_count(plan.labels_update.len(), ColorKind::Update, colored),
        &format_label_lines(&plan.labels_update, ColorKind::Update, colored),
    );
    push_section(
        out,
        if done {
            "\n  Removed labels"
        } else {
            "\n  Remove labels"
        },
        &format_count(plan.removable.len(), ColorKind::Remove, colored),
        &format_label_lines(&plan.removable, ColorKind::Remove, colored),
    );
    assert(out@ =~= start + label_sections(plan.deep_view(), done, colored));
}

/// The report of a plan run for the repository `repo`: what would be
/// written, section by section.
pub fn render_plan(
    repo: &str,
    plan: &RepoPlan,
    existing: Option<&PullRequestInfo>,
    base: &str,
    verbose: bool,
    colored: bool,
) -> (r: String)
    ensures
        r@ == plan_report_text(
            repo@,
            plan.deep_view(),
            existing.deep_view(),
            base@,
            verbose,
            colored,
        ),
{
    let ghost p = plan.deep_view();
    let mut out = owned("Repo ");
    out.append(repo);
    out.append(" (plan):");
    push_head_sections(&mut out, plan, verbose, colored);
    out.append("\n  PR:\n    ");
    let (note, branch) = plan_pr_note(plan, existing, base);
    out.append(note.as_str());
    if let Some(b) = &branch {
        out.append(" on branch '");
        out.append(b.as_str());
        out.append("'\n");
    }
    let ghost shown = plan_pr_note_text(p, existing.deep_view(), base@);
    assert(out@ =~= "Repo "@ + repo@ + " (plan):"@ + head_sections(p, verbose, colored)
        + "\n  PR:\n    "@ + shown.0 + (match shown.1 {
        Some(b) => " on branch '"@ + b + "'\n"@,
        None => Seq::empty(),
    }));
    push_file_sections(&mut out, plan, false, colored);
    push_label_sections(&mut out, plan, false, colored);
    push_section(
        &mut out,
        "\n  Blocked removals",
        &format_count(plan.blocked_removals.len(), ColorKind::Blocked, colored),
        &format_blocked_lines(&plan.blocked_removals, verbose, colored),
    );
    out
}

/// The report of an apply run for the repository `repo`: what was
/// written, section by section. `status` is what `apply_pr_status` says.
pub fn render_apply(repo: &str, plan: &RepoPlan, status: &str, verbose: bool, colored: bool) -> (r:
    String)
    ensures
        r@ == apply_report_text(repo@, plan.deep_view(), status@, verbose, colored),
{
    let ghost p = plan.deep_view();
    let mut out = owned("Repo ");
    out.append(repo);
    out.append(" (apply):");
    push_head_sections(&mut out, plan, verbose, colored);
    out.append("\n  PR:\n    ");
    out.append(status);
    assert(out@ =~= "Repo "@ + repo@ + " (apply):"@ + head_sections(p, verbose, colored)
        + "\n  PR:\n    "@ + status@);
    push_file_sections(&mut out, plan, true, colored);
    push_label_sections(&mut out, plan, true, colored);
    out
}

/// The notice of an apply run on the labels that it did not remove
/// because issues or pull requests carry them; none where no removal was
/// withheld.
pub fn skipped_notice(repo: &str, plan: &RepoPlan, verbose: bool, colored: bool) -> (r: Option<
    String,
>)
    ensures
        r.deep_view() == skipped_notice_text(repo@, plan.deep_view(), verbose, colored),
{
    if plan.blocked_removals.len() == 0 {
        return None;
    }
    let mut out = owned("Repo ");
    out.append(repo);
    out.append(" (apply): skipped removal of labels with issues/PRs:");
    out.append(format_blocked_lines(&plan.blocked_removals, verbose, colored).as_str());
    Some(out)
}

} // verus!
