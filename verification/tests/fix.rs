use lockpick::fix::{fix_result, fix_without_command, get_pm_command, removal_names};
use lockpick::outdated::registry::encode_package_name;
use lockpick::{DepType, LockfileType, UnusedDep};

#[test]
fn test_get_pm_command_pnpm() {
    let (bin, sub) = get_pm_command(&LockfileType::Pnpm);
    assert_eq!(bin, "pnpm");
    assert_eq!(sub, "remove");
}

#[test]
fn test_get_pm_command_npm() {
    let (bin, sub) = get_pm_command(&LockfileType::Npm);
    assert_eq!(bin, "npm");
    assert_eq!(sub, "uninstall");
}

#[test]
fn test_get_pm_command_yarn() {
    let (bin, sub) = get_pm_command(&LockfileType::Yarn);
    assert_eq!(bin, "yarn");
    assert_eq!(sub, "remove");
}

#[test]
fn test_get_pm_command_bun() {
    let (bin, sub) = get_pm_command(&LockfileType::Bun);
    assert_eq!(bin, "bun");
    assert_eq!(sub, "remove");
}

#[test]
fn test_fix_empty_unused() {
    let result = fix_without_command(&[], false).unwrap();
    assert!(result.removed.is_empty());
    assert!(result.failed.is_empty());
}

#[test]
fn test_fix_dry_run() {
    let deps = vec![
        UnusedDep {
            name: "foo".to_string(),
            version: "1.0.0".to_string(),
            dep_type: DepType::Prod,
        },
        UnusedDep {
            name: "bar".to_string(),
            version: "2.0.0".to_string(),
            dep_type: DepType::Dev,
        },
    ];
    let result = fix_without_command(&deps, true).unwrap();
    assert_eq!(result.removed, vec!["foo", "bar"]);
    assert!(result.failed.is_empty());
}

#[test]
fn fix_needs_command_when_not_dry_run() {
    let deps = vec![UnusedDep {
        name: "foo".to_string(),
        version: "1.0.0".to_string(),
        dep_type: DepType::Prod,
    }];
    assert!(fix_without_command(&deps, false).is_none());
    assert_eq!(removal_names(&deps), vec!["foo"]);
}

#[test]
fn fix_result_batch_success_removes_all() {
    let names = vec!["a".to_string(), "b".to_string()];
    let r = fix_result(&names, true, &vec![]);
    assert_eq!(r.removed, vec!["a", "b"]);
    assert!(r.failed.is_empty());
}

#[test]
fn fix_result_single_removals_partition_names() {
    let names = vec!["a".to_string(), "b".to_string(), "c".to_string()];
    let outcomes = vec![
        (true, String::new()),
        (false, "not found".to_string()),
        (true, String::new()),
    ];
    let r = fix_result(&names, false, &outcomes);
    assert_eq!(r.removed, vec!["a", "c"]);
    assert_eq!(r.failed, vec![("b".to_string(), "not found".to_string())]);
}

#[test]
fn test_encode_scoped_package() {
    assert_eq!(encode_package_name("@scope/pkg"), "@scope%2fpkg");
}

#[test]
fn test_encode_normal_package() {
    assert_eq!(encode_package_name("lodash"), "lodash");
}
