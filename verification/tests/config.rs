//! Composition of alias tables and workspace declarations along an
//! ancestor chain.

use ludo::errors::ConfigError;
use ludo::luaurc::{compose_luau_chain, CanonicalLuauRc, LuauRc};
use ludo::ludorc::{
    compose_workspace_chain, Native, Permissions, UserRc, WorkspaceRc,
};

fn lookup<'a>(rc: &'a CanonicalLuauRc, name: &str) -> Option<&'a str> {
    rc.aliases
        .iter()
        .find(|(k, _)| k == name)
        .map(|(_, v)| v.as_str())
}

#[test]
fn canonicalise_joins_targets_onto_declaring_directory() {
    let rc = LuauRc {
        aliases: vec![(String::from("lib"), String::from("vendor/lib"))],
    };
    let canonical = rc.canonicalise("root/ws").expect("canonicalise should succeed");
    assert_eq!(lookup(&canonical, "lib"), Some("root/ws/vendor/lib"));
}

#[test]
fn canonicalise_normalizes_targets_lexically() {
    let rc = LuauRc {
        aliases: vec![(String::from("up"), String::from("../shared/./lib"))],
    };
    let canonical = rc.canonicalise("root/ws").expect("canonicalise should succeed");
    assert_eq!(lookup(&canonical, "up"), Some("root/shared/lib"));
}

#[test]
fn canonicalise_rejects_duplicate_aliases() {
    let rc = LuauRc {
        aliases: vec![
            (String::from("lib"), String::from("one")),
            (String::from("lib"), String::from("two")),
        ],
    };
    let err = rc.canonicalise("root/ws").unwrap_err();
    assert_eq!(
        err,
        ConfigError::DuplicateAlias {
            dir: String::from("root/ws"),
            alias: String::from("lib"),
        }
    );
}

#[test]
fn closer_alias_declaration_wins() {
    // Outermost first: the root binds both aliases, the inner
    // directory redeclares one of them.
    let chain = vec![
        (
            String::from("root"),
            Some(LuauRc {
                aliases: vec![
                    (String::from("lib"), String::from("old")),
                    (String::from("keep"), String::from("kept")),
                ],
            }),
        ),
        (String::from("root/mid"), None),
        (
            String::from("root/mid/leaf"),
            Some(LuauRc {
                aliases: vec![(String::from("lib"), String::from("new"))],
            }),
        ),
    ];
    let composed = compose_luau_chain(chain).expect("composition should succeed");
    assert_eq!(lookup(&composed, "lib"), Some("root/mid/leaf/new"));
    assert_eq!(lookup(&composed, "keep"), Some("root/kept"));
}

fn native_decl(name: &str) -> Native {
    Native {
        name: String::from(name),
        parent: String::from("bin"),
        entry_point: String::from("entry"),
    }
}

fn ws_with_native(name: &str) -> WorkspaceRc {
    WorkspaceRc {
        version: 1,
        permissions: Vec::new(),
        native: Some(native_decl(name)),
    }
}

#[test]
fn conflicting_native_declarations_fail_composition() {
    let chain = vec![
        (String::from("root"), Some(ws_with_native("outer"))),
        (String::from("root/leaf"), Some(ws_with_native("inner"))),
    ];
    let err = compose_workspace_chain(chain).unwrap_err();
    assert_eq!(
        err,
        ConfigError::ConflictingNatives {
            dir: String::from("root/leaf"),
        }
    );
}

#[test]
fn ancestor_native_survives_composition() {
    let chain = vec![
        (String::from("root"), Some(ws_with_native("outer"))),
        (String::from("root/leaf"), None),
    ];
    let composed = compose_workspace_chain(chain).expect("composition should succeed");
    let native = composed.native.expect("the ancestor's native should survive");
    assert_eq!(native.name, "outer");
}

#[test]
fn closer_permission_entry_wins() {
    let chain = vec![
        (
            String::from("root"),
            Some(WorkspaceRc {
                version: 1,
                permissions: vec![
                    (String::from("lib"), Permissions { native: true }),
                    (String::from("other"), Permissions { native: true }),
                ],
                native: None,
            }),
        ),
        (
            String::from("root/leaf"),
            Some(WorkspaceRc {
                version: 1,
                permissions: vec![(String::from("lib"), Permissions { native: false })],
                native: None,
            }),
        ),
    ];
    let composed = compose_workspace_chain(chain).expect("composition should succeed");
    assert_eq!(composed.permissions.len(), 2);
    // The ancestor's entry order is kept, the closer value wins.
    assert_eq!(composed.permissions[0].0, "lib");
    assert!(!composed.permissions[0].1.native);
    assert_eq!(composed.permissions[1].0, "other");
    assert!(composed.permissions[1].1.native);
}

#[test]
fn unsupported_workspace_version_is_fatal() {
    let chain = vec![(
        String::from("root"),
        Some(WorkspaceRc {
            version: 2,
            permissions: Vec::new(),
            native: None,
        }),
    )];
    let err = compose_workspace_chain(chain).unwrap_err();
    assert_eq!(
        err,
        ConfigError::UnsupportedVersion {
            dir: String::from("root"),
            version: 2,
        }
    );
}

#[test]
fn unsupported_store_version_is_fatal() {
    let err = UserRc::from_parts(3, Vec::new()).unwrap_err();
    assert_eq!(err, ConfigError::UnsupportedStoreVersion { version: 3 });
    let store = UserRc::from_parts(1, vec![String::from("h")]).expect("version 1 is supported");
    assert_eq!(store.version, 1);
    assert_eq!(store.blessed, vec![String::from("h")]);
}

#[test]
fn absent_chain_composes_to_defaults() {
    let ws = compose_workspace_chain(vec![
        (String::from("root"), None),
        (String::from("root/leaf"), None),
    ])
    .expect("an absent chain must compose");
    assert_eq!(ws.version, 1);
    assert!(ws.permissions.is_empty());
    assert!(ws.native.is_none());

    let aliases = compose_luau_chain(vec![(String::from("root"), None)])
        .expect("an absent chain must compose");
    assert!(aliases.aliases.is_empty());
}
