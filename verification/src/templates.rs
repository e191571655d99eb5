//! The index of a repository's issue templates: one entry per template,
//! named by the template's front matter or, without one, by its file.

use vstd::prelude::*;
use crate::sets::IssueTemplateFile;
use crate::sets::IssueTemplateFileView;
use crate::staging::is_index;
use crate::staging::is_index_path;
use crate::text::chars_of;
use crate::text::last_index;
use crate::text::last_index_of;
use crate::text::opt_text_clone;
use crate::text::owned;
use crate::text::sub_text;

verus! {

/// What the front matter of a template says of it.
#[derive(Debug)]
pub struct FrontMatter {
    pub name: Option<String>,
    pub description: Option<String>,
}

/// The value of a `FrontMatter`.
pub ghost struct FrontMatterView {
    pub name: Option<Seq<char>>,
    pub description: Option<Seq<char>>,
}

impl DeepView for FrontMatter {
    type V = FrontMatterView;

    open spec fn deep_view(&self) -> FrontMatterView {
        FrontMatterView {
            name: self.name.deep_view(),
            description: self.description.deep_view(),
        }
    }
}

/// One entry of the index: a template's file, and how it is presented.
#[derive(Debug)]
pub struct IssueTemplateEntry {
    pub name: Option<String>,
    pub description: Option<String>,
    pub file: String,
}

/// The value of an `IssueTemplateEntry`.
pub ghost struct IssueTemplateEntryView {
    pub name: Option<Seq<char>>,
    pub description: Option<Seq<char>>,
    pub file: Seq<char>,
}

impl DeepView for IssueTemplateEntry {
    type V = IssueTemplateEntryView;

    open spec fn deep_view(&self) -> IssueTemplateEntryView {
        IssueTemplateEntryView {
            name: self.name.deep_view(),
            description: self.description.deep_view(),
            file: self.file@,
        }
    }
}

impl Clone for IssueTemplateEntry {
    fn clone(&self) -> (r: Self)
        ensures
            r.deep_view() == self.deep_view(),
    {
        IssueTemplateEntry {
            name: opt_text_clone(&self.name),
            description: opt_text_clone(&self.description),
            file: self.file.clone(),
        }
    }
}

/// A contact link of the index.
#[derive(Debug)]
pub struct ContactLink {
    pub name: Option<String>,
    pub url: Option<String>,
    pub about: Option<String>,
}

/// The value of a `ContactLink`.
pub ghost struct ContactLinkView {
    pub name: Option<Seq<char>>,
    pub url: Option<Seq<char>>,
    pub about: Option<Seq<char>>,
}

impl DeepView for ContactLink {
    type V = ContactLinkView;

    open spec fn deep_view(&self) -> ContactLinkView {
        ContactLinkView {
            name: self.name.deep_view(),
            url: self.url.deep_view(),
            about: self.about.deep_view(),
        }
    }
}

/// The index of the issue templates of a repository.
#[derive(Debug)]
pub struct IssueTemplateConfig {
    pub blank_issues_enabled: Option<bool>,
    pub contact_links: Option<Vec<ContactLink>>,
    pub issue_templates: Option<Vec<IssueTemplateEntry>>,
}

/// The value of an `IssueTemplateConfig`.
pub ghost struct IssueTemplateConfigView {
    pub blank_issues_enabled: Option<bool>,
    pub contact_links: Option<Seq<ContactLinkView>>,
    pub issue_templates: Option<Seq<IssueTemplateEntryView>>,
}

impl DeepView for IssueTemplateConfig {
    type V = IssueTemplateConfigView;

    open spec fn deep_view(&self) -> IssueTemplateConfigView {
        IssueTemplateConfigView {
            blank_issues_enabled: self.blank_issues_enabled,
            contact_links: self.contact_links.deep_view(),
            issue_templates: self.issue_templates.deep_view(),
        }
    }
}

impl Default for IssueTemplateConfig {
    fn default() -> (r: Self)
        ensures
            r.deep_view() == empty_index(),
    {
        IssueTemplateConfig {
            blank_issues_enabled: None,
            contact_links: None,
            issue_templates: None,
        }
    }
}

/// An index that says nothing.
pub open spec fn empty_index() -> IssueTemplateConfigView {
    IssueTemplateConfigView {
        blank_issues_enabled: None,
        contact_links: None,
        issue_templates: None,
    }
}

/// What follows the last `/` of a path, or the path where it has none.
pub open spec fn last_component(p: Seq<char>) -> Seq<char> {
    match last_index_of(p, '/') {
        Some(i) => p.subrange(i + 1, p.len() as int),
        None => p,
    }
}

/// The name of the file that a repository path leads to. A path that ends
/// in `/`, in `.` or in `..` leads to no file.
pub open spec fn file_name_of(p: Seq<char>) -> Option<Seq<char>> {
    let n = last_component(p);
    if n.len() == 0 || n == "."@ || n == ".."@ {
        None
    } else {
        Some(n)
    }
}

/// A file name without its extension: what stands before its last `.`,
/// unless that is the name's first character.
pub open spec fn stem_of_name(n: Seq<char>) -> Seq<char> {
    match last_index_of(n, '.') {
        Some(i) => if i > 0 {
            n.subrange(0, i)
        } else {
            n
        },
        None => n,
    }
}

/// The stem of the file that a repository path leads to.
pub open spec fn file_stem_of(p: Seq<char>) -> Option<Seq<char>> {
    match file_name_of(p) {
        Some(n) => Some(stem_of_name(n)),
        None => None,
    }
}

/// The name of the file that `path` leads to.
pub fn file_name(path: &str) -> (r: Option<String>)
    ensures
        r.deep_view() == file_name_of(path@),
{
    let v = chars_of(path);
    let name = match last_index(&v, '/') {
        Some(i) => sub_text(path, i + 1, v.len()),
        None => owned(path),
    };
    if name.as_str().is_empty() || name == owned(".") || name == owned("..") {
        None
    } else {
        Some(name)
    }
}

/// The stem of the file that `path` leads to.
pub fn file_stem(path: &str) -> (r: Option<String>)
    ensures
        r.deep_view() == file_stem_of(path@),
{
    match file_name(path) {
        None => None,
        Some(name) => {
            let v = chars_of(name.as_str());
            match last_index(&v, '.') {
                Some(i) => {
                    if i > 0 {
                        Some(sub_text(name.as_str(), 0, i))
                    } else {
                        Some(name)
                    }
                },
                None => Some(name),
            }
        },
    }
}

/// A template together with what its front matter says.
pub type ParsedTemplate = (IssueTemplateFile, FrontMatter);

/// The entry of a template: named by its front matter or else by the stem
/// of its file, described by its front matter, and filed under the name of
/// its file or else under its whole path.
pub open spec fn entry_of(p: (IssueTemplateFileView, FrontMatterView)) -> IssueTemplateEntryView {
    IssueTemplateEntryView {
        name: if p.1.name is Some {
            p.1.name
        } else {
            file_stem_of(p.0.path)
        },
        description: p.1.description,
        file: match file_name_of(p.0.path) {
            Some(n) => n,
            None => p.0.path,
        },
    }
}

/// The entry of a file that is a template; an index has no entry.
pub open spec fn entry_if_template() -> spec_fn((IssueTemplateFileView, FrontMatterView)) -> Option<
    IssueTemplateEntryView,
> {
    |p: (IssueTemplateFileView, FrontMatterView)|
        if is_index_path(p.0.path) {
            None
        } else {
            Some(entry_of(p))
        }
}

/// The entries of the index: one for each template, in their order.
pub open spec fn index_entries(templates: Seq<(IssueTemplateFileView, FrontMatterView)>) -> Seq<
    IssueTemplateEntryView,
> {
    templates.filter_map(entry_if_template())
}

/// Some file among `files` is an index.
pub open spec fn has_index(files: Seq<IssueTemplateFileView>) -> bool {
    exists|i: int| 0 <= i < files.len() && is_index_path(files[i].path)
}

/// The files of the parsed templates.
pub open spec fn files_of(templates: Seq<(IssueTemplateFileView, FrontMatterView)>) -> Seq<
    IssueTemplateFileView,
> {
    templates.map_values(|p: (IssueTemplateFileView, FrontMatterView)| p.0)
}

/// The index to write for the files `templates`: none where they hold
/// neither a template nor an index; else what `base` says, the index that
/// was there, with its entries replaced by those of the templates.
pub open spec fn index_config(
    templates: Seq<(IssueTemplateFileView, FrontMatterView)>,
    base: Option<IssueTemplateConfigView>,
) -> Option<IssueTemplateConfigView> {
    let entries = index_entries(templates);
    if entries.len() == 0 && !has_index(files_of(templates)) {
        None
    } else {
        let start = match base {
            Some(b) => b,
            None => empty_index(),
        };
        Some(IssueTemplateConfigView { issue_templates: Some(entries), ..start })
    }
}

/// The position of the first index among `files`: the file whose contents
/// the new index starts from.
pub fn index_base(files: &Vec<IssueTemplateFile>) -> (r: Option<usize>)
    ensures
        match r {
            Some(i) => {
                &&& i < files.len()
                &&& is_index_path(files.deep_view()[i as int].path)
                &&& forall|k: int| 0 <= k < i ==> !is_index_path(files.deep_view()[k].path)
            },
            None => !has_index(files.deep_view()),
        },
{
    let mut i: usize = 0;
    while i < files.len()
        invariant
            i <= files.len(),
            forall|k: int| 0 <= k < i ==> !is_index_path(files.deep_view()[k].path),
        decreases files.len() - i,
    {
        if is_index(files[i].path.as_str()) {
            return Some(i);
        }
        i += 1;
    }
    None
}

/// Builds the index of the issue templates.
///
/// `templates` holds every file of the merged configuration with what its
/// front matter says; `base` is what the first index among them says, where
/// there is one and it can be read. The index gets one entry per template.
/// There is no index where the files hold neither a template nor an index.
pub fn build_issue_template_config(
    templates: &Vec<ParsedTemplate>,
    base: Option<IssueTemplateConfig>,
) -> (r: Option<IssueTemplateConfig>)
    ensures
        r.deep_view() == index_config(templates.deep_view(), base.deep_view()),
{
    let ghost all = templates.deep_view();
    let mut entries: Vec<IssueTemplateEntry> = Vec::new();
    let mut found_index = false;
    let mut i: usize = 0;
    assert(entries.deep_view() =~= all.take(0).filter_map(entry_if_template()));
    while i < templates.len()
        invariant
            i <= templates.len(),
            all == templates.deep_view(),
            entries.deep_view() == all.take(i as int).filter_map(entry_if_template()),
            found_index == has_index(files_of(all.take(i as int))),
        decreases templates.len() - i,
    {
        proof {
            all.lemma_filter_map_take_succ(entry_if_template(), i as int);
            assert(all[i as int] == templates[i as int].deep_view());
        }
        let ghost before = entries.deep_view();
        let ghost seen = files_of(all.take(i as int));
        let ghost next = files_of(all.take(i + 1));
        let pair = &templates[i];
        if is_index(pair.0.path.as_str()) {
            found_index = true;
            assert(next[i as int].path == all[i as int].0.path);
        } else {
            let name = match &pair.1.name {
                Some(n) => Some(n.clone()),
                None => file_stem(pair.0.path.as_str()),
            };
            let file = match file_name(pair.0.path.as_str()) {
                Some(n) => n,
                None => pair.0.path.clone(),
            };
            entries.push(
                IssueTemplateEntry { name, description: opt_text_clone(&pair.1.description), file },
            );
            assert(entries.deep_view() =~= before.push(entry_of(all[i as int])));
            proof {
                if has_index(next) {
                    let k = choose|k: int| 0 <= k < next.len() && is_index_path(next[k].path);
                    assert(k < i);
                    assert(seen[k] == next[k]);
                }
                if has_index(seen) {
                    let k = choose|k: int| 0 <= k < seen.len() && is_index_path(seen[k].path);
                    assert(seen[k] == next[k]);
                }
            }
        }
        i += 1;
    }
    assert(all.take(i as int) =~= all);
    if entries.len() == 0 && !found_index {
        return None;
    }
    let start = match base {
        Some(b) => b,
        None => IssueTemplateConfig::default(),
    };
    Some(
        IssueTemplateConfig {
            blank_issues_enabled: start.blank_issues_enabled,
            contact_links: start.contact_links,
            issue_templates: Some(entries),
        },
    )
}

} // verus!
