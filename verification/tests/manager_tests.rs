//! The manager's decisions: install and removal planning, platform
//! resolution, listing, searching, and the refresh checks.

use leaf::config::Config;
use leaf::error::LeafError;
use leaf::manager::{
    MaterializeKind, PackageManager, RemoveAction, SearchResult,
};
use leaf::package::{ExecutablesItem, ExecutablesValue, Package, PlatformDetails};
use leaf::refresh::{classify_manifest_text, update_decision, ManifestTextClass, UpdateOutcome};
use leaf::strmap::StrMap;

const LINUX: &str = "linux-x86_64";

fn variant(url: &str, package_type: Option<&str>, executables: ExecutablesValue) -> PlatformDetails {
    PlatformDetails {
        url: url.to_string(),
        package_type: package_type.map(|t| t.to_string()),
        executables,
        build_commands: None,
    }
}

fn package(description: &str, version: &str, tags: Option<&[&str]>, platform: &str, details: PlatformDetails) -> Package {
    let mut platforms = StrMap::new();
    platforms.insert(platform.to_string(), details);
    Package {
        description: description.to_string(),
        version: version.to_string(),
        tags: tags.map(|ts| ts.iter().map(|t| t.to_string()).collect()),
        platforms,
    }
}

fn manager_with(packages: Vec<(&str, Package)>, installed: Vec<(&str, Package)>, platform: &str) -> PackageManager {
    let config = Config::under_home("/home/user");
    let mut pkgs = StrMap::new();
    for (name, p) in packages {
        pkgs.insert(name.to_string(), p);
    }
    let mut inst = StrMap::new();
    for (name, p) in installed {
        inst.insert(name.to_string(), p);
    }
    PackageManager::new(config, pkgs, inst, platform.to_string())
}

fn foo_package() -> Package {
    package(
        "d",
        "1.0",
        None,
        LINUX,
        variant(
            "http://x/foo.tar.gz",
            None,
            ExecutablesValue::Items(vec![ExecutablesItem::Path("bin/foo".to_string())]),
        ),
    )
}

#[test]
fn config_layout_under_home() {
    let c = Config::under_home("/home/user");
    assert_eq!(c.install_dir, "/home/user/.local/leaf");
    assert_eq!(c.bin_dir, "/home/user/.local/bin");
    assert_eq!(c.packages_dir, "/home/user/.local/leaf/packages");
    assert_eq!(c.cache_dir, "/home/user/.local/leaf/cache");
    assert_eq!(c.packages_file(), "/home/user/.local/leaf/packages.json");
    assert_eq!(c.config_file(), "/home/user/.local/leaf/config.json");
}

#[test]
fn scenario_install_foo_on_linux() {
    // Installing "foo" downloads foo.tar.gz, extracts into packages/foo, and
    // links bin/foo to packages/foo/bin/foo.
    let pm = manager_with(vec![("foo", foo_package())], vec![], LINUX);
    let plan = pm.install_package("foo").unwrap();
    assert_eq!(plan.name, "foo");
    assert_eq!(plan.url, "http://x/foo.tar.gz");
    assert_eq!(plan.package_dir, "/home/user/.local/leaf/packages/foo");
    assert_eq!(plan.cache_dir, "/home/user/.local/leaf/cache");
    assert_eq!(plan.resolve_kind().unwrap(), MaterializeKind::Archive);

    let filename = leaf::filename::derive_download_filename(None, plan.url.as_str(), false);
    assert_eq!(filename, "foo.tar.gz");
    assert_eq!(
        leaf::archive::classify_archive(filename.as_str()).unwrap(),
        leaf::archive::ArchiveFormat::TarGz
    );

    assert_eq!(plan.links.len(), 1);
    assert_eq!(plan.links[0].target, "/home/user/.local/leaf/packages/foo/bin/foo");
    assert_eq!(plan.links[0].alias, "foo");
    assert_eq!(plan.links[0].link_path, "/home/user/.local/bin/foo");
}

#[test]
fn installing_an_installed_package_is_a_warning_with_no_plan() {
    let pm = manager_with(vec![("foo", foo_package())], vec![("foo", foo_package())], LINUX);
    let err = pm.install_package("foo").unwrap_err();
    assert_eq!(err, LeafError::AlreadyInstalled("foo".to_string()));
    assert!(err.is_warning());
}

#[test]
fn installing_an_unknown_package_fails() {
    let pm = manager_with(vec![("foo", foo_package())], vec![], LINUX);
    let err = pm.install_package("bar").unwrap_err();
    assert_eq!(err, LeafError::PackageNotFound("bar".to_string()));
    assert!(!err.is_warning());
}

#[test]
fn unrecognized_platform_is_unsupported() {
    let pm = manager_with(vec![("foo", foo_package())], vec![], "freebsd-x86_64");
    let err = pm.install_package("foo").unwrap_err();
    assert_eq!(err, LeafError::PlatformUnsupported("freebsd-x86_64".to_string()));
}

#[test]
fn missing_variant_is_unavailable() {
    let pm = manager_with(vec![("foo", foo_package())], vec![], "macos-aarch64");
    let err = pm.install_package("foo").unwrap_err();
    assert_eq!(err, LeafError::VariantUnavailable("macos-aarch64".to_string()));
}

#[test]
fn unknown_package_type_is_refused_when_resolved() {
    let pkg = package("d", "1", None, LINUX, variant("http://x/a.tar.gz", Some("wheel"), ExecutablesValue::Absent));
    let pm = manager_with(vec![("a", pkg)], vec![], LINUX);
    let plan = pm.install_package("a").unwrap();
    assert_eq!(plan.resolve_kind().unwrap_err(), LeafError::UnsupportedPackageType("wheel".to_string()));
}

#[test]
fn binary_kind_resolves_first_executable_dest() {
    let pkg = package(
        "d",
        "1",
        None,
        LINUX,
        variant("http://x/tool", Some("binary"), ExecutablesValue::Text("bin/tool".to_string())),
    );
    let pm = manager_with(vec![("tool", pkg)], vec![], LINUX);
    let plan = pm.install_package("tool").unwrap();
    assert_eq!(plan.resolve_kind().unwrap(), MaterializeKind::Binary);
    assert_eq!(plan.binary_dest().unwrap(), "/home/user/.local/leaf/packages/tool/bin/tool");
}

#[test]
fn binary_kind_without_executables_is_refused() {
    let pkg = package("d", "1", None, LINUX, variant("http://x/tool", Some("binary"), ExecutablesValue::Absent));
    let pm = manager_with(vec![("tool", pkg)], vec![], LINUX);
    let plan = pm.install_package("tool").unwrap();
    assert_eq!(plan.binary_dest().unwrap_err(), LeafError::NoExecutables("tool".to_string()));
}

#[test]
fn scenario_remove_without_record_warns_and_plans_nothing() {
    let pm = manager_with(vec![("foo", foo_package())], vec![], LINUX);
    let err = pm.remove_package("foo").unwrap_err();
    assert_eq!(err, LeafError::NotInstalled("foo".to_string()));
    assert!(err.is_warning());
}

#[test]
fn removal_deletes_record_first_and_directory_last() {
    let pm = manager_with(vec![], vec![("foo", foo_package())], LINUX);
    let actions = pm.remove_package("foo").unwrap();
    assert_eq!(
        actions,
        vec![
            RemoveAction::DeleteRecord(
                "/home/user/.local/leaf/packages/foo/leaf-package.json".to_string()
            ),
            RemoveAction::RemoveBinEntry("/home/user/.local/bin/foo".to_string()),
            RemoveAction::DeletePackageDir("/home/user/.local/leaf/packages/foo".to_string()),
        ]
    );
}

#[test]
fn removal_on_unresolvable_platform_still_clears_the_directory() {
    let pm = manager_with(vec![], vec![("foo", foo_package())], "freebsd-x86_64");
    let actions = pm.remove_package("foo").unwrap();
    assert_eq!(
        actions,
        vec![
            RemoveAction::DeleteRecord(
                "/home/user/.local/leaf/packages/foo/leaf-package.json".to_string()
            ),
            RemoveAction::DeletePackageDir("/home/user/.local/leaf/packages/foo".to_string()),
        ]
    );
}

#[test]
fn record_keeping_tracks_install_and_remove() {
    let mut pm = manager_with(vec![("foo", foo_package())], vec![], LINUX);
    assert!(pm.install_package("foo").is_ok());
    pm.record_installed("foo".to_string(), foo_package());
    assert!(pm.install_package("foo").unwrap_err().is_warning());
    pm.record_removed("foo");
    assert!(pm.install_package("foo").is_ok());
}

#[test]
fn list_shows_installed_packages_with_metadata() {
    let mut pm = manager_with(vec![], vec![], LINUX);
    assert!(pm.list_packages().is_empty());
    pm.record_installed("foo".to_string(), foo_package());
    let listed = pm.list_packages();
    assert_eq!(listed.len(), 1);
    assert_eq!(listed[0].name, "foo");
    assert_eq!(listed[0].description, "d");
    assert_eq!(listed[0].version, "1.0");
}

#[test]
fn list_only_shows_packages_for_the_platform() {
    let elsewhere = package(
        "w",
        "2",
        None,
        "windows-x86_64",
        variant("http://x/w.zip", None, ExecutablesValue::Absent),
    );
    let pm = manager_with(vec![], vec![("foo", foo_package()), ("won", elsewhere)], LINUX);
    let listed = pm.list_packages();
    assert_eq!(listed.len(), 1);
    assert_eq!(listed[0].name, "foo");
}

#[test]
fn list_is_empty_when_no_installed_package_matches_the_platform() {
    let pm = manager_with(vec![], vec![("foo", foo_package())], "freebsd-x86_64");
    assert!(pm.list_packages().is_empty());
}

fn names(results: &[SearchResult]) -> Vec<&str> {
    results.iter().map(|r| r.name.as_str()).collect()
}

#[test]
fn search_only_surfaces_packages_for_the_platform() {
    let here = package("editor for here", "1", None, LINUX, variant("http://x/a.tgz", None, ExecutablesValue::Absent));
    let elsewhere = package(
        "editor for elsewhere",
        "1",
        None,
        "windows-x86_64",
        variant("http://x/b.zip", None, ExecutablesValue::Absent),
    );
    let pm = manager_with(vec![("avim", here), ("bvim", elsewhere)], vec![], LINUX);
    let found = pm.search_packages("editor");
    assert_eq!(names(&found), vec!["avim"]);
}

#[test]
fn search_is_case_insensitive_over_name_description_and_tags() {
    let rg = package(
        "Fast Search tool",
        "14",
        Some(&["Grep", "CLI"]),
        LINUX,
        variant("http://x/rg.tar.gz", None, ExecutablesValue::Absent),
    );
    let pm = manager_with(vec![("RipGrep", rg)], vec![], LINUX);
    assert_eq!(names(&pm.search_packages("ripg")).len(), 1);
    assert_eq!(names(&pm.search_packages("SEARCH")).len(), 1);
    assert_eq!(names(&pm.search_packages("grep")).len(), 1);
    assert_eq!(names(&pm.search_packages("cli")).len(), 1);
    assert!(pm.search_packages("python").is_empty());
}

#[test]
fn search_marks_installed_packages() {
    let pm = manager_with(
        vec![("foo", foo_package()), ("bar", package("d", "1", None, LINUX, variant("http://x/b.tgz", None, ExecutablesValue::Absent)))],
        vec![("foo", foo_package())],
        LINUX,
    );
    let found = pm.search_packages("d");
    assert_eq!(found.len(), 2);
    for r in &found {
        assert_eq!(r.installed, r.name == "foo");
    }
}

#[test]
fn blank_or_html_manifest_copies_are_rejected() {
    assert_eq!(classify_manifest_text(""), ManifestTextClass::Blank);
    assert_eq!(classify_manifest_text("  \n\t"), ManifestTextClass::Blank);
    assert_eq!(
        classify_manifest_text("<!DOCTYPE html><html><body>404</body></html>"),
        ManifestTextClass::Html
    );
    assert_eq!(classify_manifest_text("\n  <html lang=\"en\">"), ManifestTextClass::Html);
    // Unicode whitespace before the tag is trimmed like ASCII whitespace.
    assert_eq!(classify_manifest_text("\u{00A0}\u{2028} <html>"), ManifestTextClass::Html);
    assert_eq!(classify_manifest_text("\u{3000}"), ManifestTextClass::Blank);
    // A zero-width space is not whitespace, so the body is a parse candidate.
    assert_eq!(classify_manifest_text("\u{200B}<html>"), ManifestTextClass::Candidate);
    assert_eq!(classify_manifest_text("{\"foo\":{}}"), ManifestTextClass::Candidate);
}

#[test]
fn refresh_accepts_only_successful_json_responses() {
    assert_eq!(update_decision(true, "{\"foo\":{\"version\":\"1\"}}"), UpdateOutcome::Accept);
    assert_eq!(update_decision(true, "[1, 2, 3]"), UpdateOutcome::Accept);
    assert_eq!(update_decision(true, "{not json"), UpdateOutcome::RejectBody);
    assert_eq!(update_decision(false, "{}"), UpdateOutcome::RejectStatus);
}

#[test]
fn rejected_refreshes_report_the_right_errors() {
    assert_eq!(
        leaf::refresh::update_error(UpdateOutcome::RejectStatus, "HTTP 404".to_string()),
        Some(LeafError::NetworkError("HTTP 404".to_string()))
    );
    assert_eq!(
        leaf::refresh::update_error(UpdateOutcome::RejectBody, "bad body".to_string()),
        Some(LeafError::InvalidManifest("bad body".to_string()))
    );
}

#[test]
fn nuke_removes_only_links_into_the_packages_tree() {
    assert!(leaf::manager::should_remove_bin_symlink(
        "/home/user/.local/leaf/packages/foo/bin/foo"
    ));
    assert!(!leaf::manager::should_remove_bin_symlink("/usr/bin/vim"));
}

#[test]
fn nuke_recognizes_installed_bin_files_by_name() {
    let pm = manager_with(vec![], vec![("foo", foo_package())], LINUX);
    assert!(pm.owns_bin_file("foo"));
    assert!(pm.owns_bin_file("foo.exe"));
    assert!(!pm.owns_bin_file("bar.exe"));
}
