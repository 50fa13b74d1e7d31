use macdev::environment::{
    add_precheck, check_outcome, check_untap, decide_tap, deps_to_unlink, forget_collected, gc_targets,
    install_spec, local_key_to_remove, missing_packages, packages_to_sync, plan_add, plan_upgrade,
    profile_specs, python_like, record_add, record_installed, record_tap, remove_from_global,
    upgrade_changed, CheckOutcome, TapAction, UpgradeTarget,
};
use macdev::error::MacdevError;
use macdev::manifest::{Lock, Manifest};
use macdev::profile::{link_plan, needs_python_venv, shell_path};

fn strings(items: &[&str]) -> Vec<String> {
    items.iter().map(|s| s.to_string()).collect()
}

#[test]
fn add_precheck_errors() {
    assert_eq!(add_precheck(false, true, true), Err(MacdevError::BrewMissing));
    assert_eq!(add_precheck(true, false, false), Err(MacdevError::NoManifest));
    assert_eq!(add_precheck(true, true, false), Ok(()));
    assert_eq!(add_precheck(true, false, true), Ok(()));
}

#[test]
fn fresh_machine_add_python() {
    let mut local = Manifest::default();
    let mut global = Manifest::default();

    let plan = plan_add("python@3.11", false);
    assert_eq!(plan.package, "python@3.11");
    assert_eq!(plan.name, "python");
    assert_eq!(plan.version, "3.11");
    assert!(!plan.impure);

    local.add_package(plan.name.clone(), plan.version.clone());
    let was_in_gc = record_add(&mut global, &plan);

    assert!(!was_in_gc);
    assert_eq!(local.packages.len(), 1);
    assert_eq!(local.packages.get("python"), Some(&"3.11".to_string()));
    assert_eq!(global.packages.len(), 1);
    assert_eq!(global.packages.get("python"), Some(&"3.11".to_string()));
    assert!(global.impure.is_empty());

    let links = link_plan("/opt/homebrew/opt/python@3.11");
    assert_eq!(links[0], ("/opt/homebrew/opt/python@3.11/bin".to_string(), ".macdev/profile/bin".to_string()));
    assert!(needs_python_venv(&plan.package));
}

#[test]
fn add_unversioned_records_any_version() {
    let plan = plan_add("rust", false);
    assert_eq!(plan.name, "rust");
    assert_eq!(plan.version, "*");
}

#[test]
fn add_impure_records_only_impure() {
    let mut global = Manifest::default();
    let plan = plan_add("git", true);
    record_add(&mut global, &plan);
    assert_eq!(global.impure.get("git"), Some(&true));
    assert!(global.packages.is_empty());
}

#[test]
fn add_restores_from_gc() {
    let mut global = Manifest::default();
    global.gc.insert("python".to_string(), "3.11".to_string());
    let plan = plan_add("python@3.11", false);
    let was_in_gc = record_add(&mut global, &plan);
    assert!(was_in_gc);
    assert!(global.gc.is_empty());
    assert_eq!(global.packages.get("python"), Some(&"3.11".to_string()));
    assert!(global.impure.is_empty());
}

#[test]
fn deps_tracked_by_base_name_stay_linked() {
    let mut global = Manifest::default();
    global.add_package("python".to_string(), "3.12".to_string());
    global.add_impure("openssl@3".to_string());
    global.gc.insert("sqlite".to_string(), "*".to_string());
    let deps = strings(&["python@3.14", "openssl@3", "sqlite", "readline", "xz@5"]);
    assert_eq!(deps_to_unlink(&global, &deps), strings(&["readline", "xz@5"]));
}

#[test]
fn remove_untracked_fails() {
    let mut global = Manifest::default();
    let r = remove_from_global(&mut global, "python");
    assert_eq!(r, Err(MacdevError::NotTracked("python".to_string())));
    assert!(global.gc.is_empty());
}

#[test]
fn remove_pure_moves_to_gc_with_version() {
    let mut global = Manifest::default();
    global.add_package("python".to_string(), "3.11".to_string());
    assert_eq!(remove_from_global(&mut global, "python"), Ok(false));
    assert!(global.packages.is_empty());
    assert_eq!(global.gc.get("python"), Some(&"3.11".to_string()));
    assert!(!global.gc.contains_key("python@3.11"));
    assert_eq!(
        gc_targets(&global),
        vec![("python".to_string(), "python@3.11".to_string())]
    );
}

#[test]
fn remove_then_add_restores_versioned_package() {
    let mut global = Manifest::default();
    global.add_package("python".to_string(), "3.11".to_string());
    assert_eq!(remove_from_global(&mut global, "python"), Ok(false));
    let plan = plan_add("python@3.11", false);
    assert!(record_add(&mut global, &plan));
    assert!(global.gc.is_empty());
    assert!(gc_targets(&global).is_empty());
    assert_eq!(global.packages.get("python"), Some(&"3.11".to_string()));
}

#[test]
fn gc_targets_name_what_to_uninstall() {
    let mut global = Manifest::default();
    global.gc.insert("rust".to_string(), "*".to_string());
    global.gc.insert("node@22".to_string(), "*".to_string());
    global.gc.insert("python".to_string(), "3.12".to_string());
    global.gc.insert("go@1.22".to_string(), "1.22".to_string());
    assert_eq!(
        gc_targets(&global),
        vec![
            ("rust".to_string(), "rust".to_string()),
            ("node@22".to_string(), "node@22".to_string()),
            ("python".to_string(), "python@3.12".to_string()),
            ("go@1.22".to_string(), "go@1.22".to_string()),
        ]
    );
}

#[test]
fn add_moves_between_active_sections() {
    let mut global = Manifest::default();
    global.add_impure("python".to_string());
    record_add(&mut global, &plan_add("python@3.11", false));
    assert!(global.impure.is_empty());
    assert_eq!(global.packages.get("python"), Some(&"3.11".to_string()));

    record_add(&mut global, &plan_add("python", true));
    assert!(global.packages.is_empty());
    assert_eq!(global.impure.get("python"), Some(&true));
}

#[test]
fn install_takes_packages_out_of_gc_and_impure() {
    let mut local = Manifest::default();
    local.add_package("python".to_string(), "3.11".to_string());
    local.add_package("rust".to_string(), "*".to_string());
    let mut global = Manifest::default();
    global.gc.insert("python".to_string(), "3.11".to_string());
    global.gc.insert("node".to_string(), "*".to_string());
    global.add_impure("rust".to_string());
    record_installed(&mut global, &local);
    assert!(!global.gc.contains_key("python"));
    assert!(global.gc.contains_key("node"));
    assert!(global.impure.is_empty());
    assert_eq!(global.packages.len(), 2);
}

#[test]
fn remove_then_gc_clears_name() {
    let mut global = Manifest::default();
    global.add_package("rust".to_string(), "*".to_string());
    assert_eq!(remove_from_global(&mut global, "rust"), Ok(false));
    assert_eq!(global.gc.get("rust"), Some(&"*".to_string()));
    assert!(!global.packages.contains_key("rust"));
    assert!(!global.impure.contains_key("rust"));

    forget_collected(&mut global, &strings(&["rust"]));
    assert!(!global.gc.contains_key("rust"));
}

#[test]
fn remove_then_gc_clears_versioned_pure_name() {
    let mut global = Manifest::default();
    global.add_package("python".to_string(), "3.11".to_string());
    assert_eq!(remove_from_global(&mut global, "python"), Ok(false));
    assert!(global.gc.contains_key("python"));
    let uninstalled: Vec<String> = gc_targets(&global).into_iter().map(|(name, _)| name).collect();
    forget_collected(&mut global, &uninstalled);
    assert!(global.gc.is_empty());
    assert!(global.packages.is_empty());
    assert!(global.impure.is_empty());
}

#[test]
fn remove_impure_moves_to_gc_any() {
    let mut global = Manifest::default();
    global.add_impure("git".to_string());
    assert_eq!(remove_from_global(&mut global, "git"), Ok(true));
    assert!(global.impure.is_empty());
    assert_eq!(global.gc.get("git"), Some(&"*".to_string()));
}

#[test]
fn remove_versioned_prefers_pure_base() {
    let mut global = Manifest::default();
    global.add_package("node".to_string(), "22".to_string());
    global.add_impure("node".to_string());
    assert_eq!(remove_from_global(&mut global, "node@22"), Ok(false));
    assert!(global.packages.is_empty());
    assert_eq!(global.impure.get("node"), Some(&true));
    assert_eq!(global.gc.get("node"), Some(&"22".to_string()));
}

#[test]
fn remove_exact_impure_wins() {
    let mut global = Manifest::default();
    global.add_package("node".to_string(), "*".to_string());
    global.add_impure("node@22".to_string());
    assert_eq!(remove_from_global(&mut global, "node@22"), Ok(true));
    assert!(global.impure.is_empty());
    assert_eq!(global.gc.get("node@22"), Some(&"*".to_string()));
    assert_eq!(global.packages.get("node"), Some(&"*".to_string()));
}

#[test]
fn remove_unversioned_falls_back_to_impure_base() {
    let mut global = Manifest::default();
    global.add_impure("git".to_string());
    global.add_package("python".to_string(), "*".to_string());
    assert_eq!(remove_from_global(&mut global, "git"), Ok(true));
    assert!(global.impure.is_empty());
}

#[test]
fn local_key_prefers_exact_name() {
    let mut local = Manifest::default();
    local.add_package("python".to_string(), "3.12".to_string());
    assert_eq!(local_key_to_remove(&local, "python@3.12", false), Some("python".to_string()));
    assert_eq!(local_key_to_remove(&local, "python@3.12", true), None);
    assert_eq!(local_key_to_remove(&local, "rust", false), None);
    local.add_package("python@3.12".to_string(), "*".to_string());
    assert_eq!(local_key_to_remove(&local, "python@3.12", false), Some("python@3.12".to_string()));
}

#[test]
fn gc_keeps_failed_uninstalls() {
    let mut global = Manifest::default();
    global.gc.insert("a".to_string(), "*".to_string());
    global.gc.insert("b@2".to_string(), "2".to_string());
    forget_collected(&mut global, &strings(&["a"]));
    assert!(!global.gc.contains_key("a"));
    assert!(global.gc.contains_key("b@2"));
}

#[test]
fn sync_lists_packages_not_installed() {
    let mut local = Manifest::default();
    local.add_package("python".to_string(), "3.11".to_string());
    local.add_package("rust".to_string(), "*".to_string());
    local.add_package("node".to_string(), "22".to_string());
    let mut global = Manifest::default();
    global.add_package("rust".to_string(), "*".to_string());

    assert_eq!(packages_to_sync(&local, &global), strings(&["python@3.11", "node@22"]));
    assert_eq!(missing_packages(&local, &global), strings(&["python", "node"]));
}

#[test]
fn synced_environment_adds_nothing() {
    let mut local = Manifest::default();
    local.add_package("rust".to_string(), "*".to_string());
    let mut global = Manifest::default();
    global.add_package("rust".to_string(), "*".to_string());
    global.add_package("go".to_string(), "*".to_string());
    assert!(packages_to_sync(&local, &global).is_empty());
}

#[test]
fn profile_specs_in_order() {
    let mut local = Manifest::default();
    local.add_package("python".to_string(), "3.11".to_string());
    local.add_package("rust".to_string(), "*".to_string());
    assert_eq!(profile_specs(&local), strings(&["python@3.11", "rust"]));
}

#[test]
fn install_prefers_locked_formula() {
    let mut lock = Lock::with_timestamp("t".to_string());
    lock.add_package("python".to_string(), "3.11.7".to_string(), "python@3.11".to_string());
    assert_eq!(install_spec("python", "*", Some(&lock)), "python@3.11");
    assert_eq!(install_spec("node", "22", Some(&lock)), "node@22");
    assert_eq!(install_spec("python", "*", None), "python");
}

#[test]
fn install_records_project_packages() {
    let mut local = Manifest::default();
    local.add_package("python".to_string(), "3.11".to_string());
    local.add_package("rust".to_string(), "*".to_string());
    let mut global = Manifest::default();
    global.add_package("python".to_string(), "3.10".to_string());
    global.add_package("go".to_string(), "*".to_string());
    record_installed(&mut global, &local);
    assert_eq!(global.packages.len(), 3);
    assert_eq!(global.packages.get("python"), Some(&"3.11".to_string()));
    assert_eq!(global.packages.get("rust"), Some(&"*".to_string()));
    assert_eq!(global.packages.get("go"), Some(&"*".to_string()));
}

#[test]
fn upgrade_needs_managed_package() {
    let mut local = Manifest::default();
    local.add_package("python".to_string(), "3.11".to_string());
    let mut global = Manifest::default();
    global.add_impure("git".to_string());

    assert_eq!(
        plan_upgrade(Some(&local), &global, "python@3.11"),
        Ok(UpgradeTarget { pure: true, python: true })
    );
    assert_eq!(plan_upgrade(None, &global, "git"), Ok(UpgradeTarget { pure: false, python: false }));
    assert_eq!(
        plan_upgrade(Some(&local), &global, "rust"),
        Err(MacdevError::NotManaged("rust".to_string()))
    );
    assert_eq!(
        plan_upgrade(None, &global, "python"),
        Err(MacdevError::NotManaged("python".to_string()))
    );
}

#[test]
fn upgrade_detects_no_change() {
    assert!(upgrade_changed(true, "==> Upgrading rust"));
    assert!(!upgrade_changed(true, "Warning: rust 1.80 already installed"));
    assert!(!upgrade_changed(false, ""));
    assert!(python_like("python", "python"));
    assert!(python_like("py", "python@3.12"));
    assert!(!python_like("pythonista", "pythonista"));
}

#[test]
fn check_outcomes() {
    let global = Manifest::default();
    assert!(matches!(check_outcome(None, &global, true), CheckOutcome::NoManifest));

    let mut local = Manifest::default();
    local.add_package("python".to_string(), "3.11".to_string());
    match check_outcome(Some(&local), &global, true) {
        CheckOutcome::Missing(v) => assert_eq!(v, strings(&["python"])),
        other => panic!("unexpected {:?}", other),
    }

    let mut global = Manifest::default();
    global.add_package("python".to_string(), "3.11".to_string());
    assert!(matches!(check_outcome(Some(&local), &global, false), CheckOutcome::EmptyProfile));
    assert!(matches!(check_outcome(Some(&local), &global, true), CheckOutcome::Ready));
}

#[test]
fn tap_twice_tracks_once() {
    let mut global = Manifest::default();
    assert_eq!(decide_tap(&global, "homebrew/cask", false), TapAction::Register);
    record_tap(&mut global, "homebrew/cask");
    assert_eq!(decide_tap(&global, "homebrew/cask", false), TapAction::AlreadyTracked);
    record_tap(&mut global, "homebrew/cask");
    assert_eq!(global.taps.len(), 1);
    assert_eq!(global.taps.get("homebrew/cask"), Some(&true));
}

#[test]
fn tap_known_to_brew_is_only_recorded() {
    let global = Manifest::default();
    assert_eq!(decide_tap(&global, "x/y", true), TapAction::RecordOnly);
}

#[test]
fn untap_needs_tracked_tap() {
    let mut global = Manifest::default();
    assert_eq!(check_untap(&global, "x/y"), Err(MacdevError::TapNotTracked("x/y".to_string())));
    global.add_tap("x/y".to_string());
    assert_eq!(check_untap(&global, "x/y"), Ok(()));
}

#[test]
fn link_plan_covers_three_directories() {
    let links = link_plan("/opt/p/");
    assert_eq!(links.len(), 3);
    assert_eq!(links[1], ("/opt/p/libexec/bin".to_string(), ".macdev/profile/bin".to_string()));
    assert_eq!(links[2], ("/opt/p/lib".to_string(), ".macdev/profile/lib".to_string()));
    assert!(!needs_python_venv("pyenv"));
}

#[test]
fn shell_path_puts_profile_first() {
    assert_eq!(shell_path("/p/bin", "/usr/bin:/bin"), "/p/bin:/usr/bin:/bin");
}
