//! The root configuration: the organization, its repositories, and the
//! sets that each repository takes.

use std::path::Path;
use std::path::PathBuf;
use vstd::prelude::*;
use crate::text::join2;
use crate::text::owned;
use crate::text::texts_clone;

verus! {

/// `std::path::Path`, carried through as an opaque value.
#[verifier::external_type_specification]
#[verifier::external_body]
pub struct ExPath(Path);

/// One repository and the sets that apply to it besides the default ones.
#[derive(Debug)]
pub struct RepoConfig {
    pub name: String,
    pub sets: Vec<String>,
}

/// The value of a `RepoConfig`.
pub ghost struct RepoConfigView {
    pub name: Seq<char>,
    pub sets: Seq<Seq<char>>,
}

impl DeepView for RepoConfig {
    type V = RepoConfigView;

    open spec fn deep_view(&self) -> RepoConfigView {
        RepoConfigView { name: self.name@, sets: self.sets.deep_view() }
    }
}

impl Clone for RepoConfig {
    fn clone(&self) -> (r: Self)
        ensures
            r.deep_view() == self.deep_view(),
    {
        RepoConfig { name: self.name.clone(), sets: texts_clone(&self.sets) }
    }
}

/// The root configuration of a run.
#[derive(Debug)]
pub struct RootConfig {
    /// The organization to operate on.
    pub org: String,
    /// The sets applied to every repository, before its own.
    pub default_sets: Vec<String>,
    /// The repositories, each with its own sets in their order.
    pub repos: Vec<RepoConfig>,
    /// The directory of the sets, relative to the base directory.
    pub config_sets_dir: Option<String>,
}

/// The value of a `RootConfig`.
pub ghost struct RootConfigView {
    pub org: Seq<char>,
    pub default_sets: Seq<Seq<char>>,
    pub repos: Seq<RepoConfigView>,
    pub config_sets_dir: Option<Seq<char>>,
}

impl DeepView for RootConfig {
    type V = RootConfigView;

    open spec fn deep_view(&self) -> RootConfigView {
        RootConfigView {
            org: self.org@,
            default_sets: self.default_sets.deep_view(),
            repos: self.repos.deep_view(),
            config_sets_dir: self.config_sets_dir.deep_view(),
        }
    }
}

impl Clone for RootConfig {
    fn clone(&self) -> (r: Self)
        ensures
            r.deep_view() == self.deep_view(),
    {
        let mut repos: Vec<RepoConfig> = Vec::new();
        let mut i: usize = 0;
        while i < self.repos.len()
            invariant
                i <= self.repos.len(),
                repos.len() == i,
                forall|k: int| 0 <= k < i ==> repos@[k].deep_view() == self.repos@[k].deep_view(),
            decreases self.repos.len() - i,
        {
            repos.push(self.repos[i].clone());
            i += 1;
        }
        assert(repos.deep_view() =~= self.repos.deep_view());
        RootConfig {
            org: self.org.clone(),
            default_sets: texts_clone(&self.default_sets),
            repos,
            config_sets_dir: crate::text::opt_text_clone(&self.config_sets_dir),
        }
    }
}

/// The name of the directory of the sets: the configured one, or
/// `config-sets`.
pub open spec fn sets_dir_text(root: RootConfigView) -> Seq<char> {
    match root.config_sets_dir {
        Some(dir) => dir,
        None => "config-sets"@,
    }
}

/// The name of the directory of the sets, relative to the base directory.
pub fn sets_dir_name(root: &RootConfig) -> (r: String)
    ensures
        r@ == sets_dir_text(root.deep_view()),
{
    match &root.config_sets_dir {
        Some(dir) => dir.clone(),
        None => owned("config-sets"),
    }
}

/// The path that `Path::join` gives for a base path and the text of a
/// path to adjoin to it.
pub uninterp spec fn adjoined(base: &Path, dir: Seq<char>) -> PathBuf;

/// Calls `Path::join`. How a path is adjoined follows the rules of the
/// platform, which are not restated: the contract only names the result,
/// `adjoined` of the base path and the text adjoined to it.
#[verifier::external_body]
fn join_path(base: &Path, dir: &str) -> (r: PathBuf)
    ensures
        r == adjoined(base, dir@),
{
    base.join(dir)
}

/// The directory of the sets: the directory that the root configuration
/// names, or `config-sets` where it names none, adjoined to the base
/// directory.
pub fn resolve_sets_dir(base: &Path, root: &RootConfig) -> (r: PathBuf)
    ensures
        r == adjoined(base, sets_dir_text(root.deep_view())),
{
    let name = sets_dir_name(root);
    join_path(base, name.as_str())
}

/// The formats in which a configuration file may be written.
#[derive(Debug, Clone, Copy, PartialEq, Eq, Structural)]
pub enum ConfigFormat {
    Toml,
    Yaml,
    Json,
}

/// The format that a file extension stands for.
pub open spec fn format_of(ext: Seq<char>) -> Option<ConfigFormat> {
    if ext == "toml"@ {
        Some(ConfigFormat::Toml)
    } else if ext == "yml"@ || ext == "yaml"@ {
        Some(ConfigFormat::Yaml)
    } else if ext == "json"@ {
        Some(ConfigFormat::Json)
    } else {
        None
    }
}

/// The format of a configuration file with the extension `ext`; `None`
/// for an extension that is not supported.
pub fn format_of_extension(ext: &str) -> (r: Option<ConfigFormat>)
    ensures
        r == format_of(ext@),
{
    let e = owned(ext);
    if e == owned("toml") {
        Some(ConfigFormat::Toml)
    } else if e == owned("yml") || e == owned("yaml") {
        Some(ConfigFormat::Yaml)
    } else if e == owned("json") {
        Some(ConfigFormat::Json)
    } else {
        None
    }
}

/// The extensions of configuration files, in the order in which files are
/// looked for.
pub open spec fn supported_exts() -> Seq<Seq<char>> {
    seq!["toml"@, "yml"@, "yaml"@, "json"@]
}

/// The file names under which the configuration called `stem` is looked
/// for, in this order: the stem with each supported extension.
pub open spec fn candidate_names(stem: Seq<char>) -> Seq<Seq<char>> {
    supported_exts().map_values(|e: Seq<char>| stem + "."@ + e)
}

fn named(stem: &str, ext: &str) -> (r: String)
    ensures
        r@ == stem@ + "."@ + ext@,
{
    let a = join2(stem, ".");
    join2(a.as_str(), ext)
}

/// The file names under which the configuration called `stem` is looked
/// for; the first that exists is the one that is read.
pub fn config_candidates(stem: &str) -> (r: Vec<String>)
    ensures
        r.deep_view() == candidate_names(stem@),
{
    let mut names: Vec<String> = Vec::new();
    names.push(named(stem, "toml"));
    names.push(named(stem, "yml"));
    names.push(named(stem, "yaml"));
    names.push(named(stem, "json"));
    assert(names.deep_view() =~= candidate_names(stem@));
    names
}

/// The name, without extension, of the root configuration file.
pub fn main_config_basename() -> (r: &'static str)
    ensures
        r@ == "gh-governor-conf"@,
{
    "gh-governor-conf"
}

} // verus!
