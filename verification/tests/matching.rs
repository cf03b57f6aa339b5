use spin_hub::commands::{CloneCommand, InstallPluginCommand, RunCommand, SearchCommand};
use spin_hub::hub_api::{Category, IndexEntry, Language};

fn entry(title: &str, category: &str, language: &str, tags: &[&str]) -> IndexEntry {
    IndexEntry::new(
        title.to_string(),
        "A summary".to_string(),
        category.to_string(),
        language.to_string(),
        "someone".to_string(),
        tags.iter().map(|t| t.to_string()).collect(),
        String::new(),
        None,
        None,
    )
}

#[test]
fn terms_match_tags_and_title_words_case_folded() {
    let e = entry("Zola SSG", "Template", "Rust", &["static", "blog"]);
    let hit = |terms: &[&str]| SearchCommand {
        terms: terms.iter().map(|t| t.to_string()).collect(),
        language: None,
        category: None,
    }
    .is_terms_match(&e);
    assert!(hit(&["STATIC"]));
    assert!(hit(&["zola"]));
    assert!(hit(&["Ssg", "blog"]));
    assert!(!hit(&["static", "missing"]));
    assert!(!hit(&["zol"]));
}

#[test]
fn empty_terms_act_as_wildcard() {
    let e = entry("Anything", "Sample", "Go", &[]);
    let cmd = SearchCommand { terms: vec![], language: None, category: None };
    assert!(cmd.is_terms_match(&e));
}

#[test]
fn category_parse_is_case_insensitive() {
    assert!(matches!(Category::parse("Template"), Category::Template));
    assert!(matches!(Category::parse("TEMPLATE"), Category::Template));
    assert!(matches!(Category::parse("sample"), Category::Sample));
    assert!(matches!(Category::parse("Plugin"), Category::Plugin));
    assert!(matches!(Category::parse("library"), Category::Library));
}

#[test]
fn category_unrecognized_becomes_other_with_raw_text() {
    assert_eq!(Category::parse("Widget"), Category::Other("Widget".to_string()));
    assert_ne!(Category::parse("Widget"), Category::parse("Template"));
    assert_ne!(Category::parse("Widget"), Category::parse("widget"));
}

#[test]
fn category_filter_requires_exact_parsed_match() {
    let template = entry("T", "Template", "Rust", &[]);
    let widget = entry("W", "widget", "Rust", &[]);
    let search = |cat: &str| SearchCommand {
        terms: vec![],
        language: None,
        category: Some(cat.to_string()),
    };
    assert!(search("template").is_category_match(&template));
    assert!(search("TEMPLATE").is_category_match(&template));
    assert!(!search("sample").is_category_match(&template));
    assert!(!search("template").is_category_match(&widget));
    assert!(search("widget").is_category_match(&widget));
}

#[test]
fn language_aliases_resolve_many_to_one() {
    for raw in ["go", "tinygo", "Go"] {
        let e = entry("E", "Sample", raw, &[]);
        for alias in ["go", "golang", "tinygo", "GOLANG"] {
            let cmd = SearchCommand {
                terms: vec![],
                language: Some(alias.to_string()),
                category: None,
            };
            assert!(cmd.is_lang_match(&e), "{raw} should match {alias}");
        }
        let cmd = SearchCommand { terms: vec![], language: Some("rust".to_string()), category: None };
        assert!(!cmd.is_lang_match(&e));
    }
    for raw in ["JS/TS", "JavaScript", "typescript"] {
        let e = entry("E", "Sample", raw, &[]);
        for alias in ["js", "ts", "javascript", "TypeScript"] {
            let cmd = SearchCommand {
                terms: vec![],
                language: Some(alias.to_string()),
                category: None,
            };
            assert!(cmd.is_lang_match(&e), "{raw} should match {alias}");
        }
    }
}

#[test]
fn language_is_match_accepts_fixed_alias_sets() {
    assert!(Language::Rust.is_match("RS"));
    assert!(Language::Rust.is_match("rust"));
    assert!(!Language::Rust.is_match("go"));
    assert!(Language::Python.is_match("python3"));
    assert!(Language::Python.is_match("py"));
    assert!(Language::JavaScript.is_match("ts"));
    assert!(Language::Go.is_match("TinyGo"));
    assert!(Language::Neutral.is_match("anything"));
}

#[test]
fn language_other_matches_its_raw_text_case_insensitively() {
    let zig = entry("E", "Sample", "zig", &[]);
    let lang = |f: &str| SearchCommand {
        terms: vec![],
        language: Some(f.to_string()),
        category: None,
    };
    assert!(lang("zig").is_lang_match(&zig));
    assert!(lang("Zig").is_lang_match(&zig));
    assert!(!lang("rust").is_lang_match(&zig));
    let cased = entry("E", "Sample", "Zig", &[]);
    assert!(lang("zig").is_lang_match(&cased));
    assert!(lang("ZIG").is_lang_match(&cased));
    assert!(!lang("zag").is_lang_match(&cased));
}

#[test]
fn install_plugin_command_matches_only_plugins() {
    let plugin = entry("SQS Trigger", "Plugin", "Rust", &["queue"]);
    let sample = entry("SQS Sample", "Sample", "Rust", &["queue"]);
    let cmd = InstallPluginCommand { terms: vec!["queue".to_string()] };
    assert!(cmd.is_match(&plugin));
    assert!(!cmd.is_match(&sample));
    let matched = cmd.matching_entries(vec![
        entry("SQS Sample", "Sample", "Rust", &["queue"]),
        entry("SQS Trigger", "Plugin", "Rust", &["queue"]),
    ]);
    assert_eq!(matched.len(), 1);
    assert_eq!(matched[0].title(), "SQS Trigger");
}

#[test]
fn run_command_matches_samples_like_clone() {
    let sample = entry("Redirect", "Sample", "Rust", &["http"]);
    let plugin = entry("Redirect P", "Plugin", "Rust", &["http"]);
    let cmd = RunCommand { terms: vec!["http".to_string()], deploy: false };
    assert!(cmd.is_match(&sample));
    assert!(!cmd.is_match(&plugin));
}

#[test]
fn clone_command_matches_only_samples() {
    let sample = entry("Redirect", "Sample", "Rust", &["http"]);
    let template = entry("Redirect T", "Template", "Rust", &["http"]);
    let cmd = CloneCommand { terms: vec!["http".to_string()] };
    assert!(cmd.is_match(&sample));
    assert!(cmd.is_category_match(&sample));
    assert!(!cmd.is_match(&template));
    assert!(!cmd.is_category_match(&template));
}
