use macdev::homebrew::{
    ensure_package, lines, parse_deps_output, parse_version_listing, tap_listed, trim,
    unlink_output_shown, EnsureSteps,
};

#[test]
fn ensure_steps() {
    assert_eq!(ensure_package(false, true), EnsureSteps { install: true, unlink: false });
    assert_eq!(ensure_package(false, false), EnsureSteps { install: true, unlink: true });
    assert_eq!(ensure_package(true, false), EnsureSteps { install: false, unlink: true });
    assert_eq!(ensure_package(true, true), EnsureSteps { install: false, unlink: false });
}

#[test]
fn trim_strips_white_space() {
    assert_eq!(trim("  /opt/homebrew/opt/python@3.11\n"), "/opt/homebrew/opt/python@3.11");
    assert_eq!(trim(" \t\r\n"), "");
    assert_eq!(trim("a b"), "a b");
    assert_eq!(trim("\u{3000}x\u{a0}"), "x");
}

#[test]
fn lines_like_std() {
    for s in ["", "a", "a\n", "a\n\nb", "\n", "a\r\nb\n"] {
        let expected: Vec<String> = s.split('\n').map(|l| l.to_string()).collect::<Vec<_>>();
        let mut expected = expected;
        if expected.last().map_or(false, |l| l.is_empty()) {
            expected.pop();
        }
        assert_eq!(lines(s), expected);
    }
}

#[test]
fn deps_output_skips_blank_lines() {
    assert_eq!(
        parse_deps_output("readline\n  sqlite \n\nxz\n"),
        vec!["readline".to_string(), "sqlite".to_string(), "xz".to_string()]
    );
    assert!(parse_deps_output("").is_empty());
}

#[test]
fn tap_list_matching() {
    let out = "homebrew/core\n  homebrew/cask  \n";
    assert!(tap_listed(out, "homebrew/cask"));
    assert!(!tap_listed(out, "homebrew/bundle"));
    assert!(!tap_listed(out, "homebrew"));
    assert!(!tap_listed("", ""));
}

#[test]
fn unlink_output() {
    assert!(!unlink_output_shown("Unlinking /opt/homebrew/Cellar/xz/5.4... 0 symlinks removed.\n"));
    assert!(unlink_output_shown("Unlinking /opt/homebrew/Cellar/xz/5.4... 12 symlinks removed.\n"));
}

#[test]
fn version_listing() {
    let p = parse_version_listing("python@3.11 3.11.6 3.11.7\n").unwrap();
    assert_eq!(p.formula, "python@3.11");
    assert_eq!(p.version, "3.11.7");
    assert!(parse_version_listing("").is_none());
    assert!(parse_version_listing("python@3.11\n").is_none());
}
