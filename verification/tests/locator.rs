//! The module script locator, path helpers and the CLI surface.

use ludo::cli::{Args, Commands};
use ludo::context::ScriptContext;
use ludo::luaurc::CanonicalLuauRc;
use ludo::ludorc::{UserRc, WorkspaceRc};
use ludo::paths::{ancestors_of, normalize, parent_of};
use ludo::resolve::{locate_luau_script, locate_module_script, select_native_binary, FsView};

fn view(files: &[&str]) -> FsView {
    FsView {
        files: files.iter().map(|s| String::from(*s)).collect(),
    }
}

#[test]
fn locate_prefers_the_first_extension() {
    let fs = view(&["ws/mod.luau", "ws/mod.lua"]);
    let found = locate_luau_script("ws/mod", &fs).expect("a script is present");
    assert_eq!(found, "ws/mod.luau");
}

#[test]
fn locate_falls_back_to_the_second_extension() {
    let fs = view(&["ws/mod.lua"]);
    let found = locate_luau_script("ws/mod", &fs).expect("a script is present");
    assert_eq!(found, "ws/mod.lua");
}

#[test]
fn locate_replaces_an_existing_extension() {
    let fs = view(&["ws/mod.luau"]);
    let found = locate_luau_script("ws/mod.txt", &fs).expect("a script is present");
    assert_eq!(found, "ws/mod.luau");
}

#[test]
fn locate_module_tries_the_index_file() {
    let fs = view(&["ws/mod/init.lua"]);
    let found = locate_module_script("ws/mod", &fs).expect("a script is present");
    assert_eq!(found, "ws/mod/init.lua");
}

#[test]
fn locate_module_reports_nothing_when_no_candidate_exists() {
    let fs = view(&["ws/other.luau"]);
    assert!(locate_module_script("ws/mod", &fs).is_none());
}

#[test]
fn native_binary_name_is_decorated_below_the_parent() {
    let path = select_native_binary("ext", "bin");
    assert!(path.starts_with("bin/"));
    assert!(path.contains("ext"));
    // Every platform decorates the bare name somehow.
    assert_ne!(path, "bin/ext");
}

#[test]
fn parent_of_walks_one_level() {
    assert_eq!(parent_of("root/a/b").as_deref(), Some("root/a"));
    assert_eq!(parent_of("root").as_deref(), Some(""));
    assert_eq!(parent_of("/a").as_deref(), Some("/"));
    assert_eq!(parent_of("/"), None);
    assert_eq!(parent_of(""), None);
}

#[test]
fn ancestors_walk_to_the_top() {
    let chain = ancestors_of("a/b/c");
    let expected: Vec<String> = ["a/b/c", "a/b", "a", ""]
        .iter()
        .map(|s| String::from(*s))
        .collect();
    assert_eq!(chain, expected);
}

#[test]
fn normalization_is_lexical() {
    assert_eq!(normalize("a/./b//c/../d"), "a/b/d");
    assert_eq!(normalize("/a/../.."), "/");
    assert_eq!(normalize("../x"), "../x");
}

#[test]
fn chunk_names_carry_the_stem() {
    let ctx = ScriptContext::new(
        UserRc::default(),
        WorkspaceRc::default(),
        CanonicalLuauRc { aliases: Vec::new() },
        String::from("ws/tool/main.luau"),
    );
    assert_eq!(ctx.lua_chunk_name(), "@ludo/main");
}

#[test]
fn no_args_means_no_file_and_no_command() {
    let bare = Args {
        file_to_run: None,
        command: None,
    };
    assert!(bare.no_args_passed());

    let with_file = Args {
        file_to_run: Some(String::from("x.luau")),
        command: None,
    };
    assert!(!with_file.no_args_passed());

    let with_command = Args {
        file_to_run: None,
        command: Some(Commands::Bless),
    };
    assert!(!with_command.no_args_passed());
}
