use spin_hub::commands::{NewCommand, SearchCommand};
use spin_hub::hub_api::{Error, IndexEntry};
use spin_hub::commands::new::{check_scaffold_target, get_repo_and_id};
use spin_hub::selection::{decide_selection, needs_prompt};

fn entry(title: &str, category: &str, tags: &[&str]) -> IndexEntry {
    IndexEntry::new(
        title.to_string(),
        "A summary".to_string(),
        category.to_string(),
        "Rust".to_string(),
        "someone".to_string(),
        tags.iter().map(|t| t.to_string()).collect(),
        String::new(),
        Some("https://example.com/org/repo.git".to_string()),
        Some("zola-ssg".to_string()),
    )
}

fn browse_all() -> SearchCommand {
    SearchCommand { terms: vec![], language: None, category: None }
}

#[test]
fn matching_entries_sorted_by_title() {
    let entries = vec![
        entry("banana", "Sample", &[]),
        entry("apple", "Sample", &[]),
        entry("cherry", "Sample", &[]),
    ];
    let sorted = browse_all().matching_entries(entries);
    let titles: Vec<&str> = sorted.iter().map(|e| e.title()).collect();
    assert_eq!(titles, vec!["apple", "banana", "cherry"]);
}

#[test]
fn matching_entries_keep_input_order_on_equal_titles() {
    let with_author = |author: &str| {
        IndexEntry::new(
            "same title".to_string(),
            "A summary".to_string(),
            "Sample".to_string(),
            "Rust".to_string(),
            author.to_string(),
            vec![],
            String::new(),
            None,
            None,
        )
    };
    let sorted = browse_all().matching_entries(vec![
        with_author("first"),
        entry("zz tail", "Sample", &[]),
        with_author("second"),
    ]);
    let authors: Vec<&str> = sorted.iter().map(|e| e.author()).collect();
    assert_eq!(authors, vec!["first", "second", "someone"]);
    let sorted = browse_all().matching_entries(vec![
        with_author("second"),
        with_author("first"),
    ]);
    let authors: Vec<&str> = sorted.iter().map(|e| e.author()).collect();
    assert_eq!(authors, vec!["second", "first"]);
}

#[test]
fn selection_zero_matches_is_none() {
    assert!(decide_selection(vec![], None).is_none());
    assert!(decide_selection(vec![], Some(0)).is_none());
}

#[test]
fn selection_single_match_needs_no_prompt() {
    let one = vec![entry("only", "Sample", &[])];
    assert!(!needs_prompt(&one));
    let picked = decide_selection(one, None).unwrap();
    assert_eq!(picked.title(), "only");
}

#[test]
fn selection_among_many_follows_the_choice() {
    let many = vec![
        entry("a", "Sample", &[]),
        entry("b", "Sample", &[]),
        entry("c", "Sample", &[]),
    ];
    assert!(needs_prompt(&many));
    let picked = decide_selection(many, Some(1)).unwrap();
    assert_eq!(picked.title(), "b");
}

#[test]
fn selection_cancel_or_bad_index_selects_nothing() {
    let many = vec![entry("a", "Sample", &[]), entry("b", "Sample", &[])];
    assert!(decide_selection(many, None).is_none());
    let many = vec![entry("a", "Sample", &[]), entry("b", "Sample", &[])];
    assert!(decide_selection(many, Some(5)).is_none());
}

#[test]
fn scaffold_scenario_resolves_the_one_template() {
    let catalog = vec![
        entry("Zola SSG", "Template", &["static", "blog"]),
        entry("Other Sample", "Sample", &["static"]),
        entry("Unrelated", "Template", &["api"]),
    ];
    let cmd = NewCommand { terms: vec!["static".to_string()], name: Some("myblog".to_string()) };
    let matches = cmd.matching_entries(catalog);
    assert_eq!(matches.len(), 1);
    assert!(!needs_prompt(&matches));
    let selected = decide_selection(matches, None).unwrap();
    assert_eq!(selected.title(), "Zola SSG");

    let (repo, id) = get_repo_and_id(&selected).unwrap();
    assert_eq!(repo, "https://example.com/org/repo.git");
    assert_eq!(id, "zola-ssg");

    let collision = check_scaffold_target("myblog", true, false);
    assert!(matches!(collision, Err(Error::DirectoryAlreadyExists(n)) if n == "myblog"));
    assert!(check_scaffold_target("myblog", false, false).is_ok());
    assert!(check_scaffold_target("myblog", true, true).is_ok());
}

#[test]
fn no_match_scenario_is_a_quiet_no_op() {
    let catalog = vec![
        entry("Zola SSG", "Template", &["static", "blog"]),
        entry("Other Sample", "Sample", &["static"]),
    ];
    let matches = SearchCommand {
        terms: vec!["nonexistent".to_string()],
        language: None,
        category: None,
    }
    .matching_entries(catalog);
    assert!(matches.is_empty());
    assert!(!needs_prompt(&matches));
    assert!(decide_selection(matches, None).is_none());
}
