use gh_governor::sets::IssueTemplateFile;
use gh_governor::staging::index_file;
use gh_governor::templates::build_issue_template_config;
use gh_governor::templates::file_name;
use gh_governor::templates::file_stem;
use gh_governor::templates::index_base;
use gh_governor::templates::ContactLink;
use gh_governor::templates::FrontMatter;
use gh_governor::templates::IssueTemplateConfig;

fn front_matter(contents: &str) -> FrontMatter {
    let value: Option<serde_yaml::Value> = serde_yaml::from_str(contents).ok();
    let text = |key: &str| {
        value
            .as_ref()
            .and_then(|v| v.get(key))
            .and_then(|v| v.as_str())
            .map(|s| s.to_string())
    };
    FrontMatter {
        name: text("name"),
        description: text("description"),
    }
}

fn to_yaml(config: &IssueTemplateConfig) -> String {
    let mut root = serde_yaml::Mapping::new();
    if let Some(b) = config.blank_issues_enabled {
        root.insert("blank_issues_enabled".into(), b.into());
    }
    if let Some(entries) = &config.issue_templates {
        let mut list = Vec::new();
        for e in entries {
            let mut m = serde_yaml::Mapping::new();
            if let Some(n) = &e.name {
                m.insert("name".into(), n.as_str().into());
            }
            if let Some(d) = &e.description {
                m.insert("description".into(), d.as_str().into());
            }
            m.insert("file".into(), e.file.as_str().into());
            list.push(serde_yaml::Value::Mapping(m));
        }
        root.insert("issue_templates".into(), serde_yaml::Value::Sequence(list));
    }
    serde_yaml::to_string(&serde_yaml::Value::Mapping(root)).unwrap()
}

fn parsed(path: &str, contents: &str) -> (IssueTemplateFile, FrontMatter) {
    (
        IssueTemplateFile {
            path: path.to_string(),
            contents: contents.to_string(),
        },
        front_matter(contents),
    )
}

#[test]
fn builds_config_including_templates() {
    let templates = vec![
        parsed(
            "example-conf/toml/config-sets/core/.github/ISSUE_TEMPLATE/bug.yml",
            "name: Bug\ndescription: A bug\n",
        ),
        parsed(".github/ISSUE_TEMPLATE/feature.yml", "name: Feature\n"),
    ];
    let config = build_issue_template_config(&templates, None).expect("config");
    let cfg = index_file(to_yaml(&config));
    assert_eq!(cfg.path, ".github/ISSUE_TEMPLATE/config.yml");
    assert!(cfg.contents.contains("bug.yml"));
    assert!(cfg.contents.contains("feature.yml"));
}

#[test]
fn entries_are_named_by_front_matter_or_file_stem() {
    let templates = vec![
        parsed(
            "sets/core/.github/ISSUE_TEMPLATE/bug.yml",
            "name: Bug\ndescription: A bug\n",
        ),
        parsed(".github/ISSUE_TEMPLATE/feature.request.yml", "body: []\n"),
    ];
    let config = build_issue_template_config(&templates, None).expect("config");
    assert_eq!(config.blank_issues_enabled, None);
    assert!(config.contact_links.is_none());
    let entries = config.issue_templates.expect("entries");
    assert_eq!(entries.len(), 2);
    assert_eq!(entries[0].name.as_deref(), Some("Bug"));
    assert_eq!(entries[0].description.as_deref(), Some("A bug"));
    assert_eq!(entries[0].file, "bug.yml");
    assert_eq!(entries[1].name.as_deref(), Some("feature.request"));
    assert_eq!(entries[1].description, None);
    assert_eq!(entries[1].file, "feature.request.yml");
}

#[test]
fn the_index_itself_has_no_entry_and_its_other_fields_are_kept() {
    let templates = vec![
        parsed(".github/ISSUE_TEMPLATE/config.yml", "blank_issues_enabled: false\n"),
        parsed(".github/ISSUE_TEMPLATE/bug.yml", "name: Bug\n"),
    ];
    let files: Vec<IssueTemplateFile> = templates.iter().map(|t| t.0.clone()).collect();
    assert_eq!(index_base(&files), Some(0));
    let base = IssueTemplateConfig {
        blank_issues_enabled: Some(false),
        contact_links: Some(vec![ContactLink {
            name: Some("Chat".to_string()),
            url: Some("https://example.com".to_string()),
            about: None,
        }]),
        issue_templates: None,
    };
    let config = build_issue_template_config(&templates, Some(base)).expect("config");
    assert_eq!(config.blank_issues_enabled, Some(false));
    assert_eq!(config.contact_links.as_ref().map(|l| l.len()), Some(1));
    let entries = config.issue_templates.expect("entries");
    assert_eq!(entries.len(), 1);
    assert_eq!(entries[0].file, "bug.yml");
}

#[test]
fn no_files_give_no_index_but_an_index_alone_is_rebuilt() {
    assert!(build_issue_template_config(&Vec::new(), None).is_none());
    assert_eq!(index_base(&Vec::new()), None);
    let only_index = vec![parsed(".github/ISSUE_TEMPLATE/config.yml", "")];
    let config = build_issue_template_config(&only_index, None).expect("config");
    assert_eq!(config.issue_templates.map(|e| e.len()), Some(0));
}

#[test]
fn file_names_and_stems() {
    assert_eq!(file_name("a/b/bug.yml").as_deref(), Some("bug.yml"));
    assert_eq!(file_name("bug.yml").as_deref(), Some("bug.yml"));
    assert_eq!(file_name("a/b/"), None);
    assert_eq!(file_name(""), None);
    assert_eq!(file_name("a/.."), None);
    assert_eq!(file_name("."), None);
    assert_eq!(file_stem("a/b/bug.yml").as_deref(), Some("bug"));
    assert_eq!(file_stem("a/archive.tar.gz").as_deref(), Some("archive.tar"));
    assert_eq!(file_stem(".gitignore").as_deref(), Some(".gitignore"));
    assert_eq!(file_stem("a/noext").as_deref(), Some("noext"));
    assert_eq!(file_stem("a/trailing.").as_deref(), Some("trailing"));
    assert_eq!(file_stem("a/"), None);
    for path in ["a/b/bug.yml", "x.y.z", ".hidden", "plain", "dir/.cfg.yml"] {
        let std_name = std::path::Path::new(path)
            .file_name()
            .and_then(|s| s.to_str())
            .map(|s| s.to_string());
        let std_stem = std::path::Path::new(path)
            .file_stem()
            .and_then(|s| s.to_str())
            .map(|s| s.to_string());
        assert_eq!(file_name(path), std_name);
        assert_eq!(file_stem(path), std_stem);
    }
}
