use spin_hub::commands::clone::get_repo;
use spin_hub::commands::install_plugin::get_install_args;
use spin_hub::commands::new::template_found;
use spin_hub::commands::run::{get_repo_and_manifest_path, manifest_in_dir, RunCommand};
use spin_hub::git::{clone_dir, clone_outcome};
use spin_hub::hub_api::{response_outcome, Error, IndexEntry};
use spin_hub::paths::{checked_subpath, is_safe};
use spin_hub::spin::{bin_path_from, version_or_default};

fn entry(repo_url: Option<&str>) -> IndexEntry {
    IndexEntry::new(
        "Redirect".to_string(),
        "A summary".to_string(),
        "Sample".to_string(),
        "Rust".to_string(),
        "someone".to_string(),
        vec![],
        String::new(),
        repo_url.map(|u| u.to_string()),
        None,
    )
}

#[test]
fn safe_paths_are_accepted() {
    assert!(is_safe("samples/redirect"));
    assert!(is_safe(""));
    assert!(is_safe("a.b/c.d"));
}

#[test]
fn unsafe_paths_are_rejected() {
    assert!(!is_safe("../etc"));
    assert!(!is_safe("a;rm -rf /"));
    assert!(!is_safe("a$b"));
    assert!(!is_safe("nested/../up"));
}

#[test]
fn checked_subpath_surfaces_unsafe_path() {
    assert!(checked_subpath("samples/redirect").is_ok());
    let r = checked_subpath("../etc");
    assert!(matches!(r, Err(Error::UnsafePath(p)) if p == "../etc"));
}

#[test]
fn clone_dir_strips_git_suffix() {
    let first = clone_dir("https://example.com/org/my-sample.git").unwrap();
    let second = clone_dir("https://example.com/org/my-sample.git").unwrap();
    assert_eq!(first, "my-sample");
    assert_eq!(first, second);
    assert_eq!(clone_dir("https://example.com/org/my-sample").unwrap(), "my-sample");
}

#[test]
fn clone_dir_fails_without_a_usable_url() {
    assert!(matches!(clone_dir("not a url"), Err(Error::MissingLocatorData(_))));
    assert!(matches!(clone_dir("mailto:someone@example.com"), Err(Error::MissingLocatorData(_))));
}

#[test]
fn clone_dir_fails_when_the_name_is_empty() {
    assert!(matches!(clone_dir("https://example.com/"), Err(Error::MissingLocatorData(_))));
    assert!(matches!(clone_dir("https://example.com/org/.git"), Err(Error::MissingLocatorData(_))));
}

#[test]
fn clone_outcome_reports_process_failure() {
    assert!(clone_outcome(true).is_ok());
    assert!(matches!(clone_outcome(false), Err(Error::ExternalProcessFailed(_))));
}

#[test]
fn get_repo_requires_locator_data() {
    assert_eq!(get_repo(&entry(Some("https://example.com/r.git"))).unwrap(), "https://example.com/r.git");
    let r = get_repo(&entry(None));
    assert!(matches!(r, Err(Error::MissingLocatorData(t)) if t == "Redirect"));
}

#[test]
fn install_args_prefer_manifest_url() {
    let args = get_install_args(&entry(Some("https://example.com/plugin.json")));
    assert_eq!(args, vec!["--url".to_string(), "https://example.com/plugin.json".to_string()]);
    let args = get_install_args(&entry(None));
    assert_eq!(args, vec!["Redirect".to_string()]);
}

#[test]
fn run_flow_derives_repo_and_manifest() {
    let (repo, manifest) = get_repo_and_manifest_path(&entry(Some("https://example.com/r.git"))).unwrap();
    assert_eq!(repo, "https://example.com/r.git");
    assert_eq!(manifest, "spin.toml");
    assert!(matches!(
        get_repo_and_manifest_path(&entry(None)),
        Err(Error::MissingLocatorData(_))
    ));
    assert_eq!(manifest_in_dir("r", "spin.toml"), "r/spin.toml");
}

#[test]
fn run_verb_follows_deploy_intent() {
    let run = RunCommand { terms: vec![], deploy: false };
    let deploy = RunCommand { terms: vec![], deploy: true };
    assert_eq!(run.verb(), "up");
    assert_eq!(deploy.verb(), "deploy");
}

#[test]
fn template_absence_is_fatal() {
    assert_eq!(template_found(Some(7u32)).unwrap(), 7);
    assert!(matches!(template_found::<u32>(None), Err(Error::TemplateNotFound)));
}

#[test]
fn configuration_decisions() {
    assert_eq!(version_or_default(None), "2.0.0");
    assert_eq!(version_or_default(Some("3.1.0".to_string())), "3.1.0");
    assert_eq!(bin_path_from(Some("/usr/bin/spin".to_string())).unwrap(), "/usr/bin/spin");
    assert!(matches!(
        bin_path_from(None),
        Err(Error::MissingConfiguration(v)) if v == "SPIN_BIN_PATH"
    ));
}

#[test]
fn catalog_response_check() {
    assert!(response_outcome(true, "200 OK").is_ok());
    assert!(matches!(
        response_outcome(false, "503 Service Unavailable"),
        Err(Error::CatalogFetchFailed(s)) if s == "503 Service Unavailable"
    ));
}
