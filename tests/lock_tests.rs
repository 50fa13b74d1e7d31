use macdev::manifest::{lock_package, Lock, LockedPackage, TOOL_VERSION};

#[test]
fn test_lock_new() {
    let lock = Lock::new();

    assert!(lock.packages.is_empty());
    assert!(lock.dependencies.is_empty());
    assert!(lock.impure.is_empty());
    assert_eq!(lock.metadata.macdev_version, TOOL_VERSION);
    assert!(!lock.metadata.generated.is_empty());
}

#[test]
fn test_lock_add_package() {
    let mut lock = Lock::new();

    lock.add_package(
        "python".to_string(),
        "3.11.7".to_string(),
        "python@3.11".to_string(),
    );

    assert_eq!(lock.packages.len(), 1);
    let pkg = lock.packages.get("python").unwrap();
    assert_eq!(pkg.version, "3.11.7");
    assert_eq!(pkg.formula, "python@3.11");
}

#[test]
fn test_lock_add_dependency() {
    let mut lock = Lock::new();

    lock.add_dependency(
        "python".to_string(),
        "readline".to_string(),
        "8.3.1".to_string(),
        "readline".to_string(),
    );

    assert_eq!(lock.dependencies.len(), 1);
    let dep = lock.dependencies.get("python:readline").unwrap();
    assert_eq!(dep.version, "8.3.1");
    assert_eq!(dep.formula, "readline");
}

#[test]
fn test_lock_multiple_dependencies() {
    let mut lock = Lock::new();

    lock.add_dependency(
        "python".to_string(),
        "readline".to_string(),
        "8.3.1".to_string(),
        "readline".to_string(),
    );

    lock.add_dependency(
        "python".to_string(),
        "sqlite".to_string(),
        "3.51.0".to_string(),
        "sqlite".to_string(),
    );

    assert_eq!(lock.dependencies.len(), 2);
    assert!(lock.dependencies.contains_key("python:readline"));
    assert!(lock.dependencies.contains_key("python:sqlite"));
}

#[test]
fn lock_with_timestamp_is_empty() {
    let lock = Lock::with_timestamp("2025-11-20T18:25:24+00:00".to_string());
    assert_eq!(lock.metadata.generated, "2025-11-20T18:25:24+00:00");
    assert_eq!(lock.metadata.macdev_version, "0.1.0");
    assert!(lock.packages.is_empty());
}

#[test]
fn lock_default_is_stamped() {
    let lock = Lock::default();
    assert!(!lock.metadata.generated.is_empty());
    assert!(lock.dependencies.is_empty());
}

#[test]
fn lock_package_pins_found_dependencies() {
    let mut lock = Lock::with_timestamp("t".to_string());
    let deps = vec![
        (
            "readline".to_string(),
            Some(LockedPackage { version: "8.3.1".to_string(), formula: "readline".to_string() }),
        ),
        ("mystery".to_string(), None),
        (
            "sqlite".to_string(),
            Some(LockedPackage { version: "3.51.0".to_string(), formula: "sqlite".to_string() }),
        ),
    ];
    lock_package(
        &mut lock,
        "python".to_string(),
        LockedPackage { version: "3.11.7".to_string(), formula: "python@3.11".to_string() },
        &deps,
    );

    assert_eq!(lock.packages.len(), 1);
    assert_eq!(lock.packages.get("python").unwrap().formula, "python@3.11");
    assert_eq!(lock.dependencies.len(), 2);
    assert_eq!(lock.dependencies.get("python:readline").unwrap().version, "8.3.1");
    assert_eq!(lock.dependencies.get("python:sqlite").unwrap().version, "3.51.0");
    assert!(!lock.dependencies.contains_key("python:mystery"));
}
