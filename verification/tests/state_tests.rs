//! The disk model: an install followed by the matching removal restores the
//! bin directory and package directory tree, and re-running the link step
//! changes nothing.

use leaf::manager::LinkAction;
use leaf::state::{DiskModel, PackageDirModel};

fn foo_links() -> Vec<LinkAction> {
    vec![LinkAction {
        target: "/pkgs/foo/bin/foo".to_string(),
        alias: "foo".to_string(),
        link_path: "/bin/foo".to_string(),
    }]
}

fn foo_dir() -> PackageDirModel {
    PackageDirModel { files: vec!["bin/foo".to_string()], has_record: true }
}

#[test]
fn install_then_remove_restores_the_initial_state() {
    let mut disk = DiskModel::empty();
    disk.bin.insert("vim".to_string(), "/elsewhere/vim".to_string());

    disk.apply_install("foo", foo_dir(), &foo_links());
    assert_eq!(disk.bin.get("foo").unwrap().as_str(), "/pkgs/foo/bin/foo");
    assert!(disk.pkgs.get("foo").unwrap().has_record);

    disk.apply_remove("foo", &vec!["foo".to_string()]);
    assert!(disk.bin.get("foo").is_none());
    assert!(disk.pkgs.get("foo").is_none());
    assert_eq!(disk.bin.get("vim").unwrap().as_str(), "/elsewhere/vim");
    assert_eq!(disk.bin.len(), 1);
    assert_eq!(disk.pkgs.len(), 0);
}

#[test]
fn removing_an_absent_package_changes_nothing() {
    let mut disk = DiskModel::empty();
    disk.bin.insert("vim".to_string(), "/elsewhere/vim".to_string());
    disk.apply_remove("foo", &Vec::new());
    assert_eq!(disk.bin.len(), 1);
    assert_eq!(disk.pkgs.len(), 0);
}

#[test]
fn relinking_is_idempotent() {
    let mut disk = DiskModel::empty();
    disk.apply_install("foo", foo_dir(), &foo_links());
    let len_after_first = disk.bin.len();
    disk.apply_install("foo", foo_dir(), &foo_links());
    assert_eq!(disk.bin.len(), len_after_first);
    assert_eq!(disk.bin.get("foo").unwrap().as_str(), "/pkgs/foo/bin/foo");
}

#[test]
fn multiple_aliases_round_trip() {
    let links = vec![
        LinkAction {
            target: "/pkgs/t/bin/a".to_string(),
            alias: "a".to_string(),
            link_path: "/bin/a".to_string(),
        },
        LinkAction {
            target: "/pkgs/t/bin/b".to_string(),
            alias: "b".to_string(),
            link_path: "/bin/b".to_string(),
        },
    ];
    let mut disk = DiskModel::empty();
    disk.apply_install("t", PackageDirModel { files: Vec::new(), has_record: true }, &links);
    assert_eq!(disk.bin.len(), 2);
    disk.apply_remove("t", &vec!["a".to_string(), "b".to_string()]);
    assert_eq!(disk.bin.len(), 0);
    assert_eq!(disk.pkgs.len(), 0);
}
