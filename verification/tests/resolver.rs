//! The path and alias resolver, exercised from outside.

use ludo::errors::ResolveError;
use ludo::luaurc::CanonicalLuauRc;
use ludo::resolve::resolve_module_path;

fn empty_rc() -> CanonicalLuauRc {
    CanonicalLuauRc { aliases: Vec::new() }
}

fn hello_rc() -> CanonicalLuauRc {
    CanonicalLuauRc {
        aliases: vec![(String::from("hello"), String::from("different/path"))],
    }
}

#[test]
fn resolve_empty_path() {
    let result = resolve_module_path(&empty_rc(), "root/ancestor/script", "");
    assert!(result.is_err(), "Empty paths should throw an error");
}

#[test]
fn resolve_absolute_path_slash() {
    let result = resolve_module_path(&empty_rc(), "root/ancestor/script", "/foo/bar/baz");
    assert!(
        result.is_err(),
        "Paths starting with / are absolute and should throw an error"
    );
}

#[test]
fn resolve_absolute_path_prefix() {
    let result = resolve_module_path(&empty_rc(), "root/ancestor/script", "C:/foo/bar/baz");
    assert!(
        result.is_err(),
        "Paths starting with a prefix are absolute and should throw an error"
    );
}

#[test]
fn resolve_relative_path() {
    let result = resolve_module_path(&empty_rc(), "root/ancestor/script", "./foo")
        .expect("Relative paths should not error");
    assert_eq!(result, "root/ancestor/foo");
}

#[test]
fn resolve_parent_path() {
    let result = resolve_module_path(&empty_rc(), "root/ancestor/script", "../foo")
        .expect("Parent paths should not error");
    assert_eq!(result, "root/foo");
}

#[test]
fn resolve_alias() {
    let result = resolve_module_path(&hello_rc(), "root/ancestor/script", "@hello")
        .expect("Alias should not error");
    assert_eq!(result, "different/path");
}

#[test]
fn resolve_alias_nested() {
    let result = resolve_module_path(&hello_rc(), "root/ancestor/script", "@hello/@world")
        .expect("Alias should not error");
    assert_eq!(result, "different/path/@world");
}

#[test]
fn resolve_alias_path() {
    let result = resolve_module_path(&hello_rc(), "root/ancestor/script", "@hello/foo/bar")
        .expect("Alias should not error");
    assert_eq!(result, "different/path/foo/bar");
}

#[test]
fn resolve_empty_reports_empty_specifier() {
    let result = resolve_module_path(&empty_rc(), "root/script", "");
    assert_eq!(result.unwrap_err(), ResolveError::EmptySpecifier);
}

#[test]
fn resolve_absolute_reports_absolute_specifier() {
    let result = resolve_module_path(&empty_rc(), "root/script", "/etc");
    assert_eq!(result.unwrap_err(), ResolveError::AbsoluteSpecifier);
    let result = resolve_module_path(&empty_rc(), "root/script", "D:/data");
    assert_eq!(result.unwrap_err(), ResolveError::AbsoluteSpecifier);
}

#[test]
fn resolve_bare_name_reports_missing_prefix() {
    let result = resolve_module_path(&empty_rc(), "root/script", "plain/name");
    assert_eq!(result.unwrap_err(), ResolveError::MissingPrefix);
}

#[test]
fn resolve_undefined_alias_reports_name() {
    let result = resolve_module_path(&hello_rc(), "root/ancestor/script", "@world");
    assert_eq!(
        result.unwrap_err(),
        ResolveError::UndefinedAlias {
            alias: String::from("world")
        }
    );
}

#[test]
fn resolve_current_marker_returns_own_directory() {
    let result = resolve_module_path(&empty_rc(), "root/ancestor/script", ".")
        .expect("The current-directory marker should resolve");
    assert_eq!(result, "root/ancestor");
}

#[test]
fn resolve_parent_marker_fails_at_root() {
    // The script's directory is the root: the parent marker has
    // nowhere to go.
    let result = resolve_module_path(&empty_rc(), "/script", "../foo");
    assert_eq!(result.unwrap_err(), ResolveError::NoParent);
}

#[test]
fn resolve_current_marker_fails_without_directory() {
    let result = resolve_module_path(&empty_rc(), "", "./foo");
    assert_eq!(result.unwrap_err(), ResolveError::NoParent);
}

#[test]
fn resolve_rest_is_never_re_expanded() {
    // An alias-shaped tail segment joins on verbatim.
    let rc = CanonicalLuauRc {
        aliases: vec![
            (String::from("a"), String::from("one")),
            (String::from("b"), String::from("two")),
        ],
    };
    let result =
        resolve_module_path(&rc, "root/script", "@a/@b").expect("Alias should not error");
    assert_eq!(result, "one/@b");
}
