//! End-to-end gate scenarios, driven over an in-memory workspace.

use ludo::bless::{BlessInfo, TransitiveNative};
use ludo::collect::{CollectStep, Collector};
use ludo::context::ScriptContext;
use ludo::errors::CollectError;
use ludo::gate::{gate_verdict, Verdict};
use ludo::luaurc::{compose_luau_chain, CanonicalLuauRc, LuauRc};
use ludo::ludorc::{compose_workspace_chain, Native, Permissions, UserRc, WorkspaceRc};
use ludo::paths::{ancestors_of, parent_of};
use ludo::resolve::FsView;

/// A small in-memory workspace: which script files exist, which
/// directories carry declarations, and the bytes of the one binary.
struct Workspace {
    script_files: Vec<String>,
    ludorcs: Vec<(String, WorkspaceRc)>,
    luaurcs: Vec<(String, LuauRc)>,
    binary: Vec<u8>,
}

impl Workspace {
    fn ludorc(&self, dir: &str) -> Option<WorkspaceRc> {
        self.ludorcs
            .iter()
            .find(|(d, _)| d == dir)
            .map(|(_, rc)| rc.clone())
    }

    fn luaurc(&self, dir: &str) -> Option<LuauRc> {
        self.luaurcs
            .iter()
            .find(|(d, _)| d == dir)
            .map(|(_, rc)| rc.clone())
    }

    fn build_context(&self, store: &UserRc, script: &str) -> ScriptContext {
        let ws = parent_of(script).expect("scripts must exist inside of a workspace");
        let ancestors = ancestors_of(ws.as_str());
        let mut ws_chain = Vec::new();
        let mut luau_chain = Vec::new();
        for dir in ancestors.iter().rev() {
            ws_chain.push((dir.clone(), self.ludorc(dir)));
            luau_chain.push((dir.clone(), self.luaurc(dir)));
        }
        let workspace_rc = compose_workspace_chain(ws_chain).expect("workspace composition");
        let luau_rc = compose_luau_chain(luau_chain).expect("alias composition");
        ScriptContext::new(store.duplicate(), workspace_rc, luau_rc, String::from(script))
    }

    /// Run the collector the way the surrounding layer would, with
    /// this workspace standing in for the filesystem.
    fn collect(&self, store: &UserRc, entry: &str) -> Result<Vec<TransitiveNative>, CollectError> {
        let mut collector = Collector::new(self.build_context(store, entry));
        loop {
            match collector.next() {
                CollectStep::Working => {}
                CollectStep::ReadBinary { .. } => {
                    collector.supply_binary(&self.binary);
                }
                CollectStep::ProbeDir { .. } => {
                    let view = FsView {
                        files: self.script_files.clone(),
                    };
                    collector.supply_probe(&view);
                }
                CollectStep::BuildContext { script } => {
                    let sub = self.build_context(store, &script);
                    collector.supply_context(sub);
                }
                CollectStep::Halted | CollectStep::Finished => return collector.finish(),
            }
        }
    }

    fn gate(&self, store: &UserRc, entry: &str) -> Verdict {
        let natives = self.collect(store, entry).expect("collection must complete");
        gate_verdict(&natives)
    }
}

fn strings(items: &[&str]) -> Vec<String> {
    items.iter().map(|s| String::from(*s)).collect()
}

fn plain_workspace() -> Workspace {
    Workspace {
        script_files: strings(&["ws/main.luau"]),
        ludorcs: vec![(
            String::from("ws"),
            WorkspaceRc {
                version: 1,
                permissions: vec![(String::from("./side"), Permissions { native: false })],
                native: None,
            },
        )],
        luaurcs: Vec::new(),
        binary: Vec::new(),
    }
}

fn native_workspace() -> Workspace {
    Workspace {
        script_files: strings(&["ws/main.luau"]),
        ludorcs: vec![(
            String::from("ws"),
            WorkspaceRc {
                version: 1,
                permissions: Vec::new(),
                native: Some(Native {
                    name: String::from("ext"),
                    parent: String::from("bin"),
                    entry_point: String::from("entry"),
                }),
            },
        )],
        luaurcs: Vec::new(),
        binary: vec![0x4c, 0x55, 0x44, 0x4f],
    }
}

fn nested_workspace() -> Workspace {
    Workspace {
        script_files: strings(&["ws/main.luau", "ws/sub/init.luau"]),
        ludorcs: vec![
            (
                String::from("ws"),
                WorkspaceRc {
                    version: 1,
                    permissions: vec![(String::from("@sub"), Permissions { native: true })],
                    native: None,
                },
            ),
            (
                String::from("ws/sub"),
                WorkspaceRc {
                    version: 1,
                    permissions: Vec::new(),
                    native: Some(Native {
                        name: String::from("nested"),
                        parent: String::from("bin"),
                        entry_point: String::from("entry"),
                    }),
                },
            ),
        ],
        luaurcs: vec![(
            String::from("ws"),
            LuauRc {
                aliases: vec![(String::from("sub"), String::from("sub"))],
            },
        )],
        binary: vec![1, 2, 3],
    }
}

#[test]
fn scenario_no_natives_is_clear() {
    let ws = plain_workspace();
    let store = UserRc::default();
    let natives = ws.collect(&store, "ws/main.luau").expect("collection");
    assert!(natives.is_empty());
    assert!(matches!(ws.gate(&store, "ws/main.luau"), Verdict::Clear));
}

#[test]
fn scenario_unblessed_native_is_blocked() {
    let ws = native_workspace();
    let store = UserRc::default();
    let verdict = ws.gate(&store, "ws/main.luau");
    let report = match verdict {
        Verdict::Blocked { report } => report,
        Verdict::Clear => panic!("an unblessed native must be blocked"),
    };
    assert_eq!(report.len(), 1);
    let entry = &report[0];
    assert_eq!(entry.title, "ext");
    assert!(entry.path.starts_with("ws/bin/"));
    assert!(entry.path.contains("ext"));
    // The reported hash is exactly the hash of (title, path, bytes).
    let recomputed = BlessInfo::new(entry.title.clone(), entry.path.clone(), &ws.binary);
    assert_eq!(entry.hash, recomputed.hash);
}

#[test]
fn scenario_alias_recursion_reports_nested_native() {
    let ws = nested_workspace();
    let store = UserRc::default();
    let natives = ws.collect(&store, "ws/main.luau").expect("collection");
    assert_eq!(natives.len(), 1);
    assert_eq!(natives[0].native.name, "nested");
    assert_eq!(natives[0].bless.title, "nested");
    assert!(natives[0].bless.path.starts_with("ws/sub/bin/"));
    assert!(matches!(
        ws.gate(&store, "ws/main.luau"),
        Verdict::Blocked { .. }
    ));
}

#[test]
fn scenario_blessing_the_hash_clears_the_gate() {
    let ws = native_workspace();
    let store = UserRc::default();
    let report = match ws.gate(&store, "ws/main.luau") {
        Verdict::Blocked { report } => report,
        Verdict::Clear => panic!("an unblessed native must be blocked"),
    };

    // Approve exactly the computed hash and run the same gate again.
    let mut blessed_store = UserRc::default();
    blessed_store.bless(report[0].hash.clone());
    assert!(matches!(
        ws.gate(&blessed_store, "ws/main.luau"),
        Verdict::Clear
    ));
}

#[test]
fn collection_fails_on_undefined_alias() {
    let mut ws = plain_workspace();
    ws.ludorcs[0]
        .1
        .permissions
        .push((String::from("@missing"), Permissions { native: true }));
    let store = UserRc::default();
    let err = ws.collect(&store, "ws/main.luau").unwrap_err();
    assert!(matches!(err, CollectError::Resolution { .. }));
}

#[test]
fn collection_fails_when_no_script_matches() {
    let mut ws = plain_workspace();
    ws.ludorcs[0].1.permissions =
        vec![(String::from("./nowhere"), Permissions { native: true })];
    let store = UserRc::default();
    let err = ws.collect(&store, "ws/main.luau").unwrap_err();
    match err {
        CollectError::ScriptNotFound { alias, dir, .. } => {
            assert_eq!(alias, "./nowhere");
            assert_eq!(dir, "ws/nowhere");
        }
        other => panic!("expected a location failure, got {:?}", other),
    }
}

#[test]
fn cyclic_alias_graphs_terminate() {
    // The entry grants native capability to itself through its own
    // directory: the revisit is a no-op and collection finishes.
    let ws = Workspace {
        script_files: strings(&["ws/main.luau"]),
        ludorcs: vec![(
            String::from("ws"),
            WorkspaceRc {
                version: 1,
                permissions: vec![(String::from("./main"), Permissions { native: true })],
                native: None,
            },
        )],
        luaurcs: Vec::new(),
        binary: Vec::new(),
    };
    let store = UserRc::default();
    let natives = ws.collect(&store, "ws/main.luau").expect("collection");
    assert!(natives.is_empty());
}

#[test]
fn collection_fails_outside_any_workspace() {
    // A script path without a containing directory cannot anchor the
    // workspace its native binary lives in.
    let ctx = ScriptContext::new(
        UserRc::default(),
        WorkspaceRc {
            version: 1,
            permissions: Vec::new(),
            native: Some(Native {
                name: String::from("ext"),
                parent: String::from("bin"),
                entry_point: String::from("entry"),
            }),
        },
        CanonicalLuauRc { aliases: Vec::new() },
        String::from(""),
    );
    let mut collector = Collector::new(ctx);
    loop {
        match collector.next() {
            CollectStep::Working => {}
            CollectStep::Halted | CollectStep::Finished => break,
            other => panic!("no outside work should be asked for, got a request {:?}", stub(&other)),
        }
    }
    match collector.finish() {
        Err(CollectError::NoWorkspace { script }) => assert_eq!(script, ""),
        other => panic!("expected the missing-workspace failure, got {:?}", other),
    }
}

fn stub(step: &CollectStep) -> &'static str {
    match step {
        CollectStep::Working => "working",
        CollectStep::ReadBinary { .. } => "read-binary",
        CollectStep::ProbeDir { .. } => "probe-dir",
        CollectStep::BuildContext { .. } => "build-context",
        CollectStep::Halted => "halted",
        CollectStep::Finished => "finished",
    }
}
