//! Normalizing the polymorphic executables field into the canonical list.

use leaf::package::{ExecutableInfo, ExecutablesItem, ExecutablesValue, PlatformDetails};

fn details(executables: ExecutablesValue, build_commands: Option<Vec<String>>) -> PlatformDetails {
    PlatformDetails {
        url: "http://x/a.tar.gz".to_string(),
        package_type: None,
        executables,
        build_commands,
    }
}

fn paths(execs: &[ExecutableInfo]) -> Vec<&str> {
    execs.iter().map(|e| e.path.as_str()).collect()
}

#[test]
fn a_single_path_string_is_one_executable() {
    let d = details(ExecutablesValue::Text("bin/foo".to_string()), None);
    let execs = d.get_executables();
    assert_eq!(paths(&execs), vec!["bin/foo"]);
    assert!(execs[0].name.is_none());
}

#[test]
fn a_missing_or_odd_shape_yields_no_executables() {
    assert!(details(ExecutablesValue::Absent, None).get_executables().is_empty());
    assert!(details(ExecutablesValue::OtherShape, None).get_executables().is_empty());
}

#[test]
fn a_list_normalizes_item_by_item() {
    let d = details(
        ExecutablesValue::Items(vec![
            ExecutablesItem::Path("bin/a".to_string()),
            ExecutablesItem::Entry {
                path: Some("bin/b".to_string()),
                name: Some("bee".to_string()),
            },
            ExecutablesItem::Entry { path: None, name: Some("dropped".to_string()) },
            ExecutablesItem::Other,
            ExecutablesItem::Entry { path: Some("c".to_string()), name: None },
        ]),
        None,
    );
    let execs = d.get_executables();
    assert_eq!(paths(&execs), vec!["bin/a", "bin/b", "c"]);
    assert_eq!(execs[0].name, None);
    assert_eq!(execs[1].name, Some("bee".to_string()));
    assert_eq!(execs[2].name, None);
}

#[test]
fn build_commands_default_to_empty() {
    assert!(details(ExecutablesValue::Absent, None).get_build_commands().is_empty());
    let cmds = vec!["./configure".to_string(), "make".to_string()];
    assert_eq!(
        details(ExecutablesValue::Absent, Some(cmds.clone())).get_build_commands(),
        cmds
    );
}
