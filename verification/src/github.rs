//! What the exchange with GitHub computes: the texts sent, the contents
//! received, which failures are tolerated, and how a branch-protection
//! answer reads as a rule. The requests themselves are made elsewhere.

use base64::Engine;
use vstd::prelude::*;
use vstd::string::StringExecFns;
use vstd::utf8::encode_utf8;
use crate::diff::normalized_color;
use crate::settings::map_merge_message_option;
use crate::settings::map_squash_option;
use crate::settings::merge_message_pair;
use crate::settings::squash_pair;
use crate::settings::BranchProtectionRule;
use crate::settings::BranchProtectionRuleView;
use crate::settings::BranchRestrictions;
use crate::settings::BranchRestrictionsView;
use crate::settings::MergeCommitMessage;
use crate::settings::MergeCommitTitle;
use crate::settings::RepoSettings;
use crate::settings::RequiredPullRequestReviews;
use crate::settings::RequiredPullRequestReviewsView;
use crate::settings::RequiredStatusChecks;
use crate::settings::RequiredStatusChecksView;
use crate::settings::ReviewDismissalRestrictions;
use crate::settings::ReviewDismissalRestrictionsView;
use crate::settings::SquashMergeCommitMessage;
use crate::settings::SquashMergeCommitTitle;
use crate::staging::RepoFile;
use crate::staging::RepoFileView;
use crate::text::chars_of;
use crate::text::opt_text_clone;
use crate::text::owned;
use crate::text::starts_with;

verus! {

/// A colour in normal form, or `ededed` where there is none or an empty
/// one.
pub open spec fn or_default_color(normal: Option<Seq<char>>) -> Seq<char> {
    match normal {
        Some(c) => if c.len() > 0 {
            c
        } else {
            "ededed"@
        },
        None => "ededed"@,
    }
}

/// The colour that a label is written with: its normal form, or `ededed`
/// where it has none or an empty one.
pub open spec fn wire_color(color: Option<Seq<char>>) -> Seq<char> {
    or_default_color(normalized_color(color))
}

/// The colour `normal`, which is in normal form, or the default colour
/// where it is missing or empty.
pub fn color_or_default(normal: Option<String>) -> (r: String)
    ensures
        r@ == or_default_color(normal.deep_view()),
{
    match normal {
        Some(c) => {
            if c.as_str().is_empty() {
                owned("ededed")
            } else {
                c
            }
        },
        None => owned("ededed"),
    }
}

/// The colour that a label is written with.
pub fn normalize_color(color: &Option<String>) -> (r: String)
    ensures
        r@ == wire_color(color.deep_view()),
{
    color_or_default(crate::diff::normalize_color(color))
}

/// The bytes that stand for themselves in an encoded name: the ASCII
/// letters and digits.
pub open spec fn is_plain(b: u8) -> bool {
    (0x30 <= b <= 0x39) || (0x41 <= b <= 0x5A) || (0x61 <= b <= 0x7A)
}

/// The upper-case hexadecimal digit of a number below sixteen.
pub open spec fn hex_char(n: u8) -> char {
    if n < 10 {
        ((0x30 + n) as u8) as char
    } else {
        ((0x37 + n) as u8) as char
    }
}

/// A byte as it stands in an encoded name: itself where it is plain, else
/// `%` and its two hexadecimal digits.
pub open spec fn encoded_byte(b: u8) -> Seq<char> {
    if is_plain(b) {
        seq![b as char]
    } else {
        seq!['%', hex_char(b / 16), hex_char(b % 16)]
    }
}

/// The percent-encoding of a text: of each byte of its UTF-8 form.
pub open spec fn percent_encoded(name: Seq<char>) -> Seq<char> {
    encode_utf8(name).map_values(|b: u8| encoded_byte(b)).flatten()
}

/// Calls `percent_encoding::utf8_percent_encode` with the set
/// `NON_ALPHANUMERIC`: every byte of the text's UTF-8 form that is not an
/// ASCII letter or digit is written as `%` and two upper-case hexadecimal
/// digits, the others as they are.
#[verifier::external_body]
fn percent_encode(name: &str) -> (r: String)
    ensures
        r@ == percent_encoded(name@),
{
    percent_encoding::utf8_percent_encode(name, percent_encoding::NON_ALPHANUMERIC).to_string()
}

/// The name of a label as it stands in an address.
pub fn encode_label_name(name: &str) -> (r: String)
    ensures
        r@ == percent_encoded(name@),
{
    percent_encode(name)
}

/// The address of a label of a repository.
pub open spec fn label_route_text(org: Seq<char>, repo: Seq<char>, name: Seq<char>) -> Seq<char> {
    "/repos/"@ + org + "/"@ + repo + "/labels/"@ + percent_encoded(name)
}

/// The address of the label `name` of the repository `repo` of `org`.
pub fn label_route(org: &str, repo: &str, name: &str) -> (r: String)
    ensures
        r@ == label_route_text(org@, repo@, name@),
{
    let mut route = owned("/repos/");
    route.append(org);
    route.append("/");
    route.append(repo);
    route.append("/labels/");
    route.append(encode_label_name(name).as_str());
    route
}

/// What the standard Base64 alphabet with padding decodes a text to, as
/// `base64` decodes it; `None` where the text is not valid.
pub uninterp spec fn base64_decoded(text: Seq<char>) -> Option<Seq<u8>>;

/// The standard Base64 form with padding of some bytes, as `base64`
/// encodes them.
pub uninterp spec fn base64_encoded(bytes: Seq<u8>) -> Seq<char>;

/// The text that `String::from_utf8_lossy` reads from some bytes.
pub uninterp spec fn lossy_text(bytes: Seq<u8>) -> Seq<char>;

/// Calls `Engine::decode` on the engine `general_purpose::STANDARD`. The
/// contract names the result; an invalid text gives `None`.
#[verifier::external_body]
fn base64_decode(text: &str) -> (r: Option<Vec<u8>>)
    ensures
        base64_decoded(text@) == match r {
            Some(bytes) => Some(bytes@),
            None => None,
        },
{
    base64::engine::general_purpose::STANDARD.decode(text).ok()
}

/// Calls `Engine::encode` on the engine `general_purpose::STANDARD`. The
/// contract names the result. The call fails where the length of the
/// encoded form does not fit the machine; such input is left out.
#[verifier::external_body]
fn base64_encode(bytes: &[u8]) -> (r: String)
    requires
        bytes@.len() / 3 < usize::MAX / 4,
    ensures
        r@ == base64_encoded(bytes@),
{
    base64::engine::general_purpose::STANDARD.encode(bytes)
}

/// Calls `String::from_utf8_lossy`. The contract names the result.
#[verifier::external_body]
fn utf8_lossy(bytes: &Vec<u8>) -> (r: String)
    ensures
        r@ == lossy_text(bytes@),
{
    String::from_utf8_lossy(bytes).to_string()
}

/// The characters that are no line break.
pub open spec fn not_newline() -> spec_fn(char) -> bool {
    |c: char| c != '\n'
}

/// `text` without its line breaks.
pub fn without_newlines(text: &str) -> (r: String)
    ensures
        r@ == text@.filter(not_newline()),
{
    let v = chars_of(text);
    let ghost all = text@;
    let mut out = String::new();
    let mut i: usize = 0;
    assert(all.take(0) =~= Seq::<char>::empty());
    assert(all.take(0).filter(not_newline()) =~= Seq::<char>::empty()) by {
        reveal(Seq::filter);
    }
    while i < v.len()
        invariant
            i <= v.len(),
            v@ == all,
            all == text@,
            out@ == all.take(i as int).filter(not_newline()),
        decreases v.len() - i,
    {
        proof {
            assert(all.take(i + 1) =~= all.take(i as int).push(all[i as int]));
            all.take(i as int).lemma_filter_push(all[i as int], not_newline());
        }
        if v[i] != '\n' {
            let piece = crate::text::sub_text(text, i, i + 1);
            assert(piece@ =~= seq![all[i as int]]);
            let ghost before = out@;
            out.append(piece.as_str());
            assert(out@ =~= before.push(all[i as int]));
        }
        i += 1;
    }
    assert(all.take(i as int) =~= all);
    out
}

/// The file that an answer of the contents API holds: none unless the
/// encoding is `base64` and the content, without its line breaks, is valid
/// Base64; else the decoded bytes read as text, under the answer's SHA.
pub open spec fn decoded_file(content: Seq<char>, sha: Seq<char>, encoding: Seq<char>) -> Option<
    RepoFileView,
> {
    if encoding != "base64"@ {
        None
    } else {
        match base64_decoded(content.filter(not_newline())) {
            Some(bytes) => Some(RepoFileView { sha, content: lossy_text(bytes) }),
            None => None,
        }
    }
}

/// Reads the file out of an answer of the contents API.
pub fn decode_file(content: &str, sha: &str, encoding: &str) -> (r: Option<RepoFile>)
    ensures
        r.deep_view() == decoded_file(content@, sha@, encoding@),
{
    if owned(encoding) != owned("base64") {
        return None;
    }
    let joined = without_newlines(content);
    match base64_decode(joined.as_str()) {
        Some(bytes) => Some(RepoFile { sha: owned(sha), content: utf8_lossy(&bytes) }),
        None => None,
    }
}

/// Whether a content is short enough for its Base64 form to fit the
/// machine.
pub open spec fn encodable(content: Seq<char>) -> bool {
    encode_utf8(content).len() / 3 < usize::MAX / 4
}

/// The Base64 form of the content of a file to write; `None` for a
/// content too long to encode.
pub fn encode_content(content: &str) -> (r: Option<String>)
    ensures
        r.deep_view() == if encodable(content@) {
            Some(base64_encoded(encode_utf8(content@)))
        } else {
            None
        },
{
    let bytes = content.as_bytes();
    if bytes.len() / 3 < usize::MAX / 4 {
        Some(base64_encode(bytes))
    } else {
        None
    }
}

/// The calls whose failures are judged by their status.
#[derive(Debug, Clone, Copy, PartialEq, Eq, Structural)]
pub enum Call {
    GetFile,
    GetBranchProtection,
    SetBranchProtection,
    CreateBranch,
    Other,
}

/// What a failed call comes to.
#[derive(Debug, Clone, Copy, PartialEq, Eq, Structural)]
pub enum Disposition {
    /// What was asked for is not there: the call answers with nothing.
    Absent,
    /// The write counts as made.
    Done,
    /// The repository does not exist.
    RepoNotFound,
    /// The failure is reported as it is.
    Fail,
}

/// What a call that GitHub refused with the status `status` comes to. A
/// file or a rule that is not found is absent. Branch protection that is
/// forbidden is passed over, on reading and on writing: the plan of the
/// organization may not offer it. A branch that cannot be created exists
/// already. Whatever else is not found means that the repository is
/// missing; every other failure is reported.
pub open spec fn disposition_of(call: Call, status: u16) -> Disposition {
    if call == Call::GetFile && status == 404 {
        Disposition::Absent
    } else if call == Call::GetBranchProtection && (status == 404 || status == 403) {
        Disposition::Absent
    } else if call == Call::SetBranchProtection && status == 403 {
        Disposition::Done
    } else if call == Call::CreateBranch && status == 422 {
        Disposition::Done
    } else if status == 404 {
        Disposition::RepoNotFound
    } else {
        Disposition::Fail
    }
}

/// What the call `call`, refused with the status `status`, comes to.
pub fn disposition(call: Call, status: u16) -> (r: Disposition)
    ensures
        r == disposition_of(call, status),
{
    match call {
        Call::GetFile => {
            if status == 404 {
                return Disposition::Absent;
            }
        },
        Call::GetBranchProtection => {
            if status == 404 || status == 403 {
                return Disposition::Absent;
            }
        },
        Call::SetBranchProtection => {
            if status == 403 {
                return Disposition::Done;
            }
        },
        Call::CreateBranch => {
            if status == 422 {
                return Disposition::Done;
            }
        },
        Call::Other => {},
    }
    if status == 404 {
        Disposition::RepoNotFound
    } else {
        Disposition::Fail
    }
}

/// The base branch of a repository: its default branch, or `main` where
/// it names none.
pub fn base_branch(default_branch: &Option<String>) -> (r: String)
    ensures
        r@ == match default_branch.deep_view() {
            Some(b) => b,
            None => "main"@,
        },
{
    match default_branch {
        Some(b) => b.clone(),
        None => owned("main"),
    }
}

/// An entry of the tree of a branch.
#[derive(Debug)]
pub struct TreeEntry {
    pub path: String,
    pub entry_type: String,
}

/// The value of a `TreeEntry`.
pub ghost struct TreeEntryView {
    pub path: Seq<char>,
    pub entry_type: Seq<char>,
}

impl DeepView for TreeEntry {
    type V = TreeEntryView;

    open spec fn deep_view(&self) -> TreeEntryView {
        TreeEntryView { path: self.path@, entry_type: self.entry_type@ }
    }
}

pub open spec fn file_under(prefix: Seq<char>) -> spec_fn(TreeEntryView) -> Option<Seq<char>> {
    |e: TreeEntryView|
        if e.entry_type == "blob"@ && prefix.is_prefix_of(e.path) {
            Some(e.path)
        } else {
            None
        }
}

/// The paths of the files of a tree that lie under `prefix`.
pub fn tree_paths(entries: &Vec<TreeEntry>, prefix: &str) -> (r: Vec<String>)
    ensures
        r.deep_view() == entries.deep_view().filter_map(file_under(prefix@)),
{
    let ghost all = entries.deep_view();
    let ghost f = file_under(prefix@);
    let mut paths: Vec<String> = Vec::new();
    let mut i: usize = 0;
    assert(paths.deep_view() =~= all.take(0).filter_map(f));
    while i < entries.len()
        invariant
            i <= entries.len(),
            all == entries.deep_view(),
            f == file_under(prefix@),
            paths.deep_view() == all.take(i as int).filter_map(f),
        decreases entries.len() - i,
    {
        proof {
            all.lemma_filter_map_take_succ(f, i as int);
        }
        let ghost before = paths.deep_view();
        let e = &entries[i];
        if e.entry_type == owned("blob") && starts_with(e.path.as_str(), prefix) {
            paths.push(e.path.clone());
            assert(paths.deep_view() =~= before.push(all[i as int].path));
        }
        i += 1;
    }
    assert(all.take(i as int) =~= all);
    paths
}

/// The settings that a write to the repository carries: the managed flags,
/// and the titles and messages that the managed options stand for.
#[derive(Debug, Clone, Copy, PartialEq, Eq, Structural)]
pub struct SettingsPatch {
    pub allow_merge_commit: Option<bool>,
    pub allow_squash_merge: Option<bool>,
    pub allow_rebase_merge: Option<bool>,
    pub allow_auto_merge: Option<bool>,
    pub delete_branch_on_merge: Option<bool>,
    pub merge_commit_message: Option<MergeCommitMessage>,
    pub merge_commit_title: Option<MergeCommitTitle>,
    pub squash_merge_commit_message: Option<SquashMergeCommitMessage>,
    pub squash_merge_commit_title: Option<SquashMergeCommitTitle>,
}

/// The patch that settings stand for.
pub open spec fn patch_of(settings: RepoSettings) -> SettingsPatch {
    match settings.pull_requests {
        Some(p) => SettingsPatch {
            allow_merge_commit: p.allow_merge_commit,
            allow_squash_merge: p.allow_squash_merge,
            allow_rebase_merge: p.allow_rebase_merge,
            allow_auto_merge: p.allow_auto_merge,
            delete_branch_on_merge: p.delete_branch_on_merge,
            merge_commit_message: match p.merge_commit_message_option {
                Some(o) => merge_message_pair(o).1,
                None => None,
            },
            merge_commit_title: match p.merge_commit_message_option {
                Some(o) => merge_message_pair(o).0,
                None => None,
            },
            squash_merge_commit_message: match p.squash_merge_option {
                Some(o) => squash_pair(o).1,
                None => None,
            },
            squash_merge_commit_title: match p.squash_merge_option {
                Some(o) => squash_pair(o).0,
                None => None,
            },
        },
        None => empty_patch(),
    }
}

/// A patch that carries nothing.
pub open spec fn empty_patch() -> SettingsPatch {
    SettingsPatch {
        allow_merge_commit: None,
        allow_squash_merge: None,
        allow_rebase_merge: None,
        allow_auto_merge: None,
        delete_branch_on_merge: None,
        merge_commit_message: None,
        merge_commit_title: None,
        squash_merge_commit_message: None,
        squash_merge_commit_title: None,
    }
}

/// The patch to send for the settings `settings`; `None` where they manage
/// nothing, so that nothing is sent.
pub fn settings_patch(settings: &RepoSettings) -> (r: Option<SettingsPatch>)
    ensures
        r == if patch_of(*settings) == empty_patch() {
            None
        } else {
            Some(patch_of(*settings))
        },
{
    let p = match &settings.pull_requests {
        Some(p) => p,
        None => {
            return None;
        },
    };
    let (merge_commit_title, merge_commit_message) = match &p.merge_commit_message_option {
        Some(o) => map_merge_message_option(o),
        None => (None, None),
    };
    let (squash_merge_commit_title, squash_merge_commit_message) = match &p.squash_merge_option {
        Some(o) => map_squash_option(o),
        None => (None, None),
    };
    let patch = SettingsPatch {
        allow_merge_commit: p.allow_merge_commit,
        allow_squash_merge: p.allow_squash_merge,
        allow_rebase_merge: p.allow_rebase_merge,
        allow_auto_merge: p.allow_auto_merge,
        delete_branch_on_merge: p.delete_branch_on_merge,
        merge_commit_message,
        merge_commit_title,
        squash_merge_commit_message,
        squash_merge_commit_title,
    };
    let empty = patch.allow_merge_commit.is_none() && patch.allow_squash_merge.is_none()
        && patch.allow_rebase_merge.is_none() && patch.allow_auto_merge.is_none()
        && patch.delete_branch_on_merge.is_none() && patch.merge_commit_message.is_none()
        && patch.merge_commit_title.is_none() && patch.squash_merge_commit_message.is_none()
        && patch.squash_merge_commit_title.is_none();
    if empty {
        None
    } else {
        Some(patch)
    }
}

/// A user, a team or an app as a branch-protection answer names it.
#[derive(Debug)]
pub struct SimpleActor {
    pub login: Option<String>,
    pub slug: Option<String>,
}

/// The value of a `SimpleActor`.
pub ghost struct SimpleActorView {
    pub login: Option<Seq<char>>,
    pub slug: Option<Seq<char>>,
}

impl DeepView for SimpleActor {
    type V = SimpleActorView;

    open spec fn deep_view(&self) -> SimpleActorView {
        SimpleActorView { login: self.login.deep_view(), slug: self.slug.deep_view() }
    }
}

/// A switch as a branch-protection answer states it.
#[derive(Debug, Clone, Copy, PartialEq, Eq, Structural)]
pub struct EnabledFlag {
    pub enabled: Option<bool>,
}

#[derive(Debug)]
pub struct ReviewDismissalRestrictionsResponse {
    pub users: Option<Vec<SimpleActor>>,
    pub teams: Option<Vec<SimpleActor>>,
}

pub ghost struct ReviewDismissalRestrictionsResponseView {
    pub users: Option<Seq<SimpleActorView>>,
    pub teams: Option<Seq<SimpleActorView>>,
}

impl DeepView for ReviewDismissalRestrictionsResponse {
    type V = ReviewDismissalRestrictionsResponseView;

    open spec fn deep_view(&self) -> ReviewDismissalRestrictionsResponseView {
        ReviewDismissalRestrictionsResponseView {
            users: self.users.deep_view(),
            teams: self.teams.deep_view(),
        }
    }
}

#[derive(Debug)]
pub struct RequiredPullRequestReviewsResponse {
    pub dismiss_stale_reviews: Option<bool>,
    pub require_code_owner_reviews: Option<bool>,
    pub required_approving_review_count: Option<u8>,
    pub require_last_push_approval: Option<bool>,
    pub dismissal_restrictions: Option<ReviewDismissalRestrictionsResponse>,
}

pub ghost struct RequiredPullRequestReviewsResponseView {
    pub dismiss_stale_reviews: Option<bool>,
    pub require_code_owner_reviews: Option<bool>,
    pub required_approving_review_count: Option<u8>,
    pub require_last_push_approval: Option<bool>,
    pub dismissal_restrictions: Option<ReviewDismissalRestrictionsResponseView>,
}

impl DeepView for RequiredPullRequestReviewsResponse {
    type V = RequiredPullRequestReviewsResponseView;

    open spec fn deep_view(&self) -> RequiredPullRequestReviewsResponseView {
        RequiredPullRequestReviewsResponseView {
            dismiss_stale_reviews: self.dismiss_stale_reviews,
            require_code_owner_reviews: self.require_code_owner_reviews,
            required_approving_review_count: self.required_approving_review_count,
            require_last_push_approval: self.require_last_push_approval,
            dismissal_restrictions: self.dismissal_restrictions.deep_view(),
        }
    }
}

#[derive(Debug)]
pub struct BranchRestrictionsResponse {
    pub users: Option<Vec<SimpleActor>>,
    pub teams: Option<Vec<SimpleActor>>,
    pub apps: Option<Vec<SimpleActor>>,
}

pub ghost struct BranchRestrictionsResponseView {
    pub users: Option<Seq<SimpleActorView>>,
    pub teams: Option<Seq<SimpleActorView>>,
    pub apps: Option<Seq<SimpleActorView>>,
}

impl DeepView for BranchRestrictionsResponse {
    type V = BranchRestrictionsResponseView;

    open spec fn deep_view(&self) -> BranchRestrictionsResponseView {
        BranchRestrictionsResponseView {
            users: self.users.deep_view(),
            teams: self.teams.deep_view(),
            apps: self.apps.deep_view(),
        }
    }
}

/// The answer of GitHub on the protection of a branch.
#[derive(Debug)]
pub struct BranchProtectionResponse {
    pub required_status_checks: Option<RequiredStatusChecks>,
    pub enforce_admins: Option<EnabledFlag>,
    pub required_pull_request_reviews: Option<RequiredPullRequestReviewsResponse>,
    pub restrictions: Option<BranchRestrictionsResponse>,
    pub allow_force_pushes: Option<EnabledFlag>,
    pub allow_deletions: Option<EnabledFlag>,
    pub block_creations: Option<EnabledFlag>,
    pub required_linear_history: Option<EnabledFlag>,
    pub required_conversation_resolution: Option<EnabledFlag>,
    pub required_signatures: Option<EnabledFlag>,
}

/// The value of a `BranchProtectionResponse`.
pub ghost struct BranchProtectionResponseView {
    pub required_status_checks: Option<RequiredStatusChecksView>,
    pub enforce_admins: Option<EnabledFlag>,
    pub required_pull_request_reviews: Option<RequiredPullRequestReviewsResponseView>,
    pub restrictions: Option<BranchRestrictionsResponseView>,
    pub allow_force_pushes: Option<EnabledFlag>,
    pub allow_deletions: Option<EnabledFlag>,
    pub block_creations: Option<EnabledFlag>,
    pub required_linear_history: Option<EnabledFlag>,
    pub required_conversation_resolution: Option<EnabledFlag>,
    pub required_signatures: Option<EnabledFlag>,
}

impl DeepView for BranchProtectionResponse {
    type V = BranchProtectionResponseView;

    open spec fn deep_view(&self) -> BranchProtectionResponseView {
        BranchProtectionResponseView {
            required_status_checks: self.required_status_checks.deep_view(),
            enforce_admins: self.enforce_admins,
            required_pull_request_reviews: self.required_pull_request_reviews.deep_view(),
            restrictions: self.restrictions.deep_view(),
            allow_force_pushes: self.allow_force_pushes,
            allow_deletions: self.allow_deletions,
            block_creations: self.block_creations,
            required_linear_history: self.required_linear_history,
            required_conversation_resolution: self.required_conversation_resolution,
            required_signatures: self.required_signatures,
        }
    }
}

/// What a switch says: nothing where it is missing or does not say.
pub open spec fn switch(flag: Option<EnabledFlag>) -> Option<bool> {
    match flag {
        Some(f) => f.enabled,
        None => None,
    }
}

/// The name of a user: the login, or else the slug.
pub open spec fn user_name() -> spec_fn(SimpleActorView) -> Option<Seq<char>> {
    |a: SimpleActorView|
        if a.login is Some {
            a.login
        } else {
            a.slug
        }
}

/// The name of a team or an app: the slug, or else the login.
pub open spec fn group_name() -> spec_fn(SimpleActorView) -> Option<Seq<char>> {
    |a: SimpleActorView|
        if a.slug is Some {
            a.slug
        } else {
            a.login
        }
}

/// The names of the actors that have one, in their order.
pub open spec fn actor_names(
    actors: Option<Seq<SimpleActorView>>,
    name: spec_fn(SimpleActorView) -> Option<Seq<char>>,
) -> Option<Seq<Seq<char>>> {
    match actors {
        Some(a) => Some(a.filter_map(name)),
        None => None,
    }
}

/// The rule that an answer on the branches of `pattern` states.
pub open spec fn rule_of_response(pattern: Seq<char>, resp: BranchProtectionResponseView) -> BranchProtectionRuleView {
    BranchProtectionRuleView {
        pattern,
        required_status_checks: resp.required_status_checks,
        required_pull_request_reviews: match resp.required_pull_request_reviews {
            Some(r) => Some(
                RequiredPullRequestReviewsView {
                    dismiss_stale_reviews: r.dismiss_stale_reviews,
                    require_code_owner_reviews: r.require_code_owner_reviews,
                    required_approving_review_count: r.required_approving_review_count,
                    require_last_push_approval: r.require_last_push_approval,
                    dismissal_restrictions: match r.dismissal_restrictions {
                        Some(d) => Some(
                            ReviewDismissalRestrictionsView {
                                users: actor_names(d.users, user_name()),
                                teams: actor_names(d.teams, group_name()),
                            },
                        ),
                        None => None,
                    },
                },
            ),
            None => None,
        },
        enforce_admins: switch(resp.enforce_admins),
        restrictions: match resp.restrictions {
            Some(r) => Some(
                BranchRestrictionsView {
                    users: actor_names(r.users, user_name()),
                    teams: actor_names(r.teams, group_name()),
                    apps: actor_names(r.apps, group_name()),
                },
            ),
            None => None,
        },
        allow_force_pushes: switch(resp.allow_force_pushes),
        allow_deletions: switch(resp.allow_deletions),
        block_creations: switch(resp.block_creations),
        require_linear_history: switch(resp.required_linear_history),
        required_conversation_resolution: switch(resp.required_conversation_resolution),
        required_signatures: switch(resp.required_signatures),
    }
}

fn enabled(flag: &Option<EnabledFlag>) -> (r: Option<bool>)
    ensures
        r == switch(*flag),
{
    match flag {
        Some(f) => f.enabled,
        None => None,
    }
}

fn names_of(actors: &Option<Vec<SimpleActor>>, login_first: bool) -> (r: Option<Vec<String>>)
    ensures
        r.deep_view() == actor_names(
            actors.deep_view(),
            if login_first {
                user_name()
            } else {
                group_name()
            },
        ),
{
    let list = match actors {
        Some(a) => a,
        None => {
            return None;
        },
    };
    let ghost all = list.deep_view();
    let ghost f = if login_first {
        user_name()
    } else {
        group_name()
    };
    let mut names: Vec<String> = Vec::new();
    let mut i: usize = 0;
    assert(names.deep_view() =~= all.take(0).filter_map(f));
    while i < list.len()
        invariant
            i <= list.len(),
            all == list.deep_view(),
            f == if login_first {
                user_name()
            } else {
                group_name()
            },
            names.deep_view() == all.take(i as int).filter_map(f),
        decreases list.len() - i,
    {
        proof {
            all.lemma_filter_map_take_succ(f, i as int);
        }
        let ghost before = names.deep_view();
        let a = &list[i];
        let (first, second) = if login_first {
            (&a.login, &a.slug)
        } else {
            (&a.slug, &a.login)
        };
        let name = match first {
            Some(n) => Some(n.clone()),
            None => opt_text_clone(second),
        };
        if let Some(n) = name {
            let ghost text = n@;
            names.push(n);
            assert(names.deep_view() =~= before.push(text));
        }
        i += 1;
    }
    assert(all.take(i as int) =~= all);
    Some(names)
}

/// Reads an answer on the protection of the branches of `pattern` as a
/// rule. A user is named by login, a team or an app by slug, each by the
/// other name where the first is missing; an actor without a name is left
/// out. A switch that is missing or does not say leaves its field unset.
pub fn map_branch_protection_response(pattern: &str, resp: BranchProtectionResponse) -> (r:
    BranchProtectionRule)
    ensures
        r.deep_view() == rule_of_response(pattern@, resp.deep_view()),
{
    let reviews = match &resp.required_pull_request_reviews {
        Some(r) => Some(
            RequiredPullRequestReviews {
                dismiss_stale_reviews: r.dismiss_stale_reviews,
                require_code_owner_reviews: r.require_code_owner_reviews,
                required_approving_review_count: r.required_approving_review_count,
                require_last_push_approval: r.require_last_push_approval,
                dismissal_restrictions: match &r.dismissal_restrictions {
                    Some(d) => Some(
                        ReviewDismissalRestrictions {
                            users: names_of(&d.users, true),
                            teams: names_of(&d.teams, false),
                        },
                    ),
                    None => None,
                },
            },
        ),
        None => None,
    };
    let restrictions = match &resp.restrictions {
        Some(r) => Some(
            BranchRestrictions {
                users: names_of(&r.users, true),
                teams: names_of(&r.teams, false),
                apps: names_of(&r.apps, false),
            },
        ),
        None => None,
    };
    BranchProtectionRule {
        pattern: owned(pattern),
        required_status_checks: crate::settings::status_checks_clone(&resp.required_status_checks),
        required_pull_request_reviews: reviews,
        enforce_admins: enabled(&resp.enforce_admins),
        restrictions,
        allow_force_pushes: enabled(&resp.allow_force_pushes),
        allow_deletions: enabled(&resp.allow_deletions),
        block_creations: enabled(&resp.block_creations),
        require_linear_history: enabled(&resp.required_linear_history),
        required_conversation_resolution: enabled(&resp.required_conversation_resolution),
        required_signatures: enabled(&resp.required_signatures),
    }
}

} // verus!
