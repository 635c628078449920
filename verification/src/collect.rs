//! The transitive native collector.
//!
//! A breadth-first traversal from one entry context over a work
//! queue.  For each dequeued context, the native extension it
//! declares — if any — is recorded with a freshly computed identity,
//! and every alias granted native capability is resolved, located and
//! enqueued as a new context.  Revisits of a canonical script path
//! are no-ops, so cyclic alias graphs terminate.  Any resolution or
//! location failure is fatal to the whole collection: the execution
//! gate must reason over the complete set or refuse.
//!
//! The collector itself never touches the filesystem.  It runs as a
//! stepped machine: `next` advances until it needs outside input —
//! the bytes of a binary, which files exist near a directory, or a
//! freshly built context — and the surrounding layer supplies what
//! was asked for, whatever it turns out to be.

use vstd::prelude::*;
use vstd::string::*;
use crate::bless::{spec_bless_hash, BlessInfo, TransitiveNative};
use crate::context::ScriptContext;
use crate::errors::{CollectError, CollectIssue};
use crate::ludorc::Native;
use crate::paths::{normal_path, normalize, parent_of, parent_path, seq_views, contains_str};
use crate::resolve::{
    decorated_name,
    locate_module_spec,
    locate_module_script,
    resolve_module_path,
    resolve_spec,
    select_native_binary,
    FsView,
};

verus! {

/// What the collector is doing, or waiting for.
pub enum Phase {
    /// Ready to take the next context off the queue.
    Dispatch,
    /// Waiting for the bytes of the declared native's binary at `path`.
    Native { ctx: ScriptContext, native: Native, path: String },
    /// Walking the permission entries of `ctx`, the next one at `idx`.
    Aliases { ctx: ScriptContext, idx: usize },
    /// Waiting to learn which script files exist for the directory
    /// that the alias at `idx` resolved to.
    Script { ctx: ScriptContext, idx: usize, alias: String, dir: String },
    /// Waiting for a freshly built context for the located script.
    Context { ctx: ScriptContext, idx: usize, script: String },
    /// The whole closure has been collected.
    Done,
    /// Collection failed; nothing more will be asked.
    Failed { error: CollectError },
}

/// What the surrounding layer must do next.
pub enum CollectStep {
    /// Call `next` again; no outside work is needed yet.
    Working,
    /// Read the file at `path` and call `supply_binary`.
    ReadBinary { path: String },
    /// Probe which script candidates exist for `dir` and call
    /// `supply_probe`.
    ProbeDir { dir: String },
    /// Build a context for the script at `script` and call
    /// `supply_context`.
    BuildContext { script: String },
    /// Collection failed; take the error with `finish`.
    Halted,
    /// Collection is complete; take the result with `finish`.
    Finished,
}

/// The stepped breadth-first traversal.
pub struct Collector {
    /// Contexts dequeued in order; every queued context was enqueued
    /// for an unvisited canonical script path.
    pub queue: Vec<ScriptContext>,
    /// Canonical script paths already enqueued; revisits are no-ops.
    pub visited: Vec<String>,
    /// The natives recorded so far, in traversal order.
    pub collected: Vec<TransitiveNative>,
    pub phase: Phase,
}

impl Collector {
    /// No canonical script path is marked visited twice.
    pub open spec fn visited_distinct(self) -> bool {
        forall|i: int, j: int|
            0 <= i < j < self.visited@.len() ==> seq_views(self.visited@)[i] != seq_views(
                self.visited@,
            )[j]
    }

    /// The walking index never runs past the permission entries of
    /// the context it walks; a context is only awaited for a script
    /// not yet visited; and the visited set never holds a canonical
    /// path twice — which is why collection cannot enqueue forever.
    pub open spec fn wf(self) -> bool {
        &&& match self.phase {
            Phase::Aliases { ctx, idx } => idx <= ctx.workspace_rc.permissions@.len(),
            Phase::Script { ctx, idx, .. } => idx < ctx.workspace_rc.permissions@.len(),
            Phase::Context { ctx, idx, script } => idx < ctx.workspace_rc.permissions@.len()
                && !seq_views(self.visited@).contains(normal_path(script@)),
            _ => true,
        }
        &&& self.visited_distinct()
    }

    /// Start a collection at the entry context.
    pub fn new(entry: ScriptContext) -> (r: Self)
        ensures
            r.queue@ == seq![entry],
            seq_views(r.visited@) == seq![normal_path(entry.script_location@)],
            r.collected@ == Seq::<TransitiveNative>::empty(),
            r.phase is Dispatch,
            r.wf(),
    {
        let canon = normalize(entry.script_location.as_str());
        let mut queue: Vec<ScriptContext> = Vec::new();
        let mut visited: Vec<String> = Vec::new();
        visited.push(canon);
        queue.push(entry);
        proof {
            assert(seq_views(visited@) =~= seq![normal_path(entry.script_location@)]);
            assert(queue@ =~= seq![entry]);
        }
        Collector { queue, visited, collected: Vec::new(), phase: Phase::Dispatch }
    }

    /// Advance one step and say what is needed next.
    ///
    /// In a waiting phase the pending request is repeated unchanged.
    pub fn next(&mut self) -> (step: CollectStep)
        requires
            old(self).wf(),
        ensures
            final(self).wf(),
            match old(self).phase {
                Phase::Dispatch => {
                    &&& final(self).visited@ == old(self).visited@
                    &&& final(self).collected@ == old(self).collected@
                    &&& if old(self).queue@.len() == 0 {
                        &&& final(self).queue@ == old(self).queue@
                        &&& final(self).phase is Done
                        &&& step is Finished
                    } else {
                        let c = old(self).queue@[0];
                        &&& final(self).queue@ == old(self).queue@.skip(1)
                        &&& match c.workspace_rc.native {
                            Some(n) => match parent_path(c.script_location@) {
                                None => {
                                    &&& final(self).phase matches Phase::Failed { error }
                                        && error.model() == (CollectIssue::NoWorkspace {
                                        script: c.script_location@,
                                    })
                                    &&& step is Halted
                                },
                                Some(ws) => {
                                    &&& final(self).phase matches Phase::Native {
                                        ctx,
                                        native,
                                        path,
                                    } && ctx == c && native == n && (exists|fname: Seq<char>|
                                        #[trigger] decorated_name(n.name@, fname) && path@
                                            == join_ws_binary(ws, n.parent@, fname)) && (
                                    step matches CollectStep::ReadBinary { path: p2 } && p2@
                                        == path@)
                                },
                            },
                            None => {
                                &&& final(self).phase matches Phase::Aliases { ctx, idx } && ctx
                                    == c && idx == 0
                                &&& step is Working
                            },
                        }
                    }
                },
                Phase::Aliases { ctx, idx } => {
                    &&& final(self).queue@ == old(self).queue@
                    &&& final(self).visited@ == old(self).visited@
                    &&& final(self).collected@ == old(self).collected@
                    &&& if idx >= ctx.workspace_rc.permissions@.len() {
                        &&& final(self).phase is Dispatch
                        &&& step is Working
                    } else {
                        let entry = ctx.workspace_rc.permissions@[idx as int];
                        if !entry.1.native {
                            &&& final(self).phase matches Phase::Aliases { ctx: c2, idx: i2 }
                                && c2 == ctx && i2 == idx + 1
                            &&& step is Working
                        } else {
                            match resolve_spec(
                                ctx.luau_rc.model(),
                                ctx.script_location@,
                                entry.0@,
                            ) {
                                Ok(dir) => {
                                    &&& final(self).phase matches Phase::Script {
                                        ctx: c2,
                                        idx: i2,
                                        alias,
                                        dir: d2,
                                    } && c2 == ctx && i2 == idx && alias@ == entry.0@ && d2@
                                        == dir
                                    &&& (step matches CollectStep::ProbeDir { dir: d3 } && d3@
                                        == dir)
                                },
                                Err(e) => {
                                    &&& final(self).phase matches Phase::Failed { error }
                                        && error.model() == (CollectIssue::Resolution {
                                        script: ctx.script_location@,
                                        alias: entry.0@,
                                        error: e,
                                    })
                                    &&& step is Halted
                                },
                            }
                        }
                    }
                },
                Phase::Native { .. } => {
                    &&& *final(self) == *old(self)
                    &&& (old(self).phase matches Phase::Native { path, .. } ==> (
                    step matches CollectStep::ReadBinary { path: p2 } && p2@ == path@))
                },
                Phase::Script { .. } => {
                    &&& *final(self) == *old(self)
                    &&& (old(self).phase matches Phase::Script { dir, .. } ==> (
                    step matches CollectStep::ProbeDir { dir: d2 } && d2@ == dir@))
                },
                Phase::Context { .. } => {
                    &&& *final(self) == *old(self)
                    &&& (old(self).phase matches Phase::Context { script, .. } ==> (
                    step matches CollectStep::BuildContext { script: s2 } && s2@ == script@))
                },
                Phase::Done => *final(self) == *old(self) && step is Finished,
                Phase::Failed { .. } => *final(self) == *old(self) && step is Halted,
            },
    {
        let mut phase = Phase::Dispatch;
        core::mem::swap(&mut phase, &mut self.phase);
        match phase {
            Phase::Dispatch => {
                if self.queue.len() == 0 {
                    self.phase = Phase::Done;
                    return CollectStep::Finished;
                }
                let ctx = self.queue.remove(0);
                proof {
                    assert(self.queue@ =~= old(self).queue@.skip(1));
                }
                match &ctx.workspace_rc.native {
                    Some(n) => {
                        let native = n.duplicate();
                        let ws = match parent_of(ctx.script_location.as_str()) {
                            None => {
                                let error = CollectError::NoWorkspace {
                                    script: ctx.script_location,
                                };
                                self.phase = Phase::Failed { error };
                                return CollectStep::Halted;
                            },
                            Some(ws) => ws,
                        };
                        let below = select_native_binary(
                            native.name.as_str(),
                            native.parent.as_str(),
                        );
                        let path = crate::paths::join(ws.as_str(), below.as_str());
                        let out = path.clone();
                        self.phase = Phase::Native { ctx, native, path };
                        CollectStep::ReadBinary { path: out }
                    },
                    None => {
                        self.phase = Phase::Aliases { ctx, idx: 0 };
                        CollectStep::Working
                    },
                }
            },
            Phase::Aliases { ctx, idx } => {
                if idx >= ctx.workspace_rc.permissions.len() {
                    self.phase = Phase::Dispatch;
                    return CollectStep::Working;
                }
                let grants = ctx.workspace_rc.permissions[idx].1.native;
                if !grants {
                    self.phase = Phase::Aliases { ctx, idx: idx + 1 };
                    return CollectStep::Working;
                }
                let alias = ctx.workspace_rc.permissions[idx].0.clone();
                match resolve_module_path(
                    &ctx.luau_rc,
                    ctx.script_location.as_str(),
                    alias.as_str(),
                ) {
                    Err(e) => {
                        let error = CollectError::Resolution {
                            script: ctx.script_location,
                            alias,
                            error: e,
                        };
                        self.phase = Phase::Failed { error };
                        CollectStep::Halted
                    },
                    Ok(dir) => {
                        let out = dir.clone();
                        self.phase = Phase::Script { ctx, idx, alias, dir };
                        CollectStep::ProbeDir { dir: out }
                    },
                }
            },
            Phase::Native { ctx, native, path } => {
                let out = path.clone();
                self.phase = Phase::Native { ctx, native, path };
                CollectStep::ReadBinary { path: out }
            },
            Phase::Script { ctx, idx, alias, dir } => {
                let out = dir.clone();
                self.phase = Phase::Script { ctx, idx, alias, dir };
                CollectStep::ProbeDir { dir: out }
            },
            Phase::Context { ctx, idx, script } => {
                let out = script.clone();
                self.phase = Phase::Context { ctx, idx, script };
                CollectStep::BuildContext { script: out }
            },
            Phase::Done => {
                self.phase = Phase::Done;
                CollectStep::Finished
            },
            Phase::Failed { error } => {
                self.phase = Phase::Failed { error };
                CollectStep::Halted
            },
        }
    }

    /// Hand over the bytes read from the requested binary.  The
    /// native is recorded with its identity computed over the
    /// declared title, the binary's path and exactly these bytes —
    /// whatever they turned out to be.
    pub fn supply_binary(&mut self, bytes: &[u8])
        requires
            old(self).wf(),
            old(self).phase is Native,
        ensures
            final(self).wf(),
            old(self).phase matches Phase::Native { ctx, native, path } ==> {
                &&& final(self).queue@ == old(self).queue@
                &&& final(self).visited@ == old(self).visited@
                &&& final(self).collected@.len() == old(self).collected@.len() + 1
                &&& forall|i: int|
                    0 <= i < old(self).collected@.len() ==> final(self).collected@[i] == old(
                        self,
                    ).collected@[i]
                &&& {
                    let tn = final(self).collected@.last();
                    &&& tn.context.model() == ctx.model()
                    &&& tn.native == native
                    &&& tn.bless.title@ == native.name@
                    &&& tn.bless.path@ == path@
                    &&& tn.bless.hash@ == spec_bless_hash(native.name@, path@, bytes@)
                }
                &&& final(self).phase matches Phase::Aliases { ctx: c2, idx } && c2 == ctx && idx
                    == 0
            },
    {
        let mut phase = Phase::Dispatch;
        core::mem::swap(&mut phase, &mut self.phase);
        match phase {
            Phase::Native { ctx, native, path } => {
                let title = native.name.clone();
                let bless = BlessInfo::new(title, path, bytes);
                let tn = TransitiveNative { context: ctx.duplicate(), native, bless };
                self.collected.push(tn);
                self.phase = Phase::Aliases { ctx, idx: 0 };
            },
            _ => {
                proof {
                    assert(false);
                }
                self.phase = phase;
            },
        }
    }

    /// Hand over which files were found present for the requested
    /// directory.  The locator picks the first candidate; a directory
    /// without a script is fatal; a script already visited is skipped.
    pub fn supply_probe(&mut self, fs: &FsView)
        requires
            old(self).wf(),
            old(self).phase is Script,
        ensures
            final(self).wf(),
            old(self).phase matches Phase::Script { ctx, idx, alias, dir } ==> {
                &&& final(self).queue@ == old(self).queue@
                &&& final(self).visited@ == old(self).visited@
                &&& final(self).collected@ == old(self).collected@
                &&& match locate_module_spec(dir@, fs.model()) {
                    None => final(self).phase matches Phase::Failed { error } && error.model()
                        == (CollectIssue::ScriptNotFound {
                        script: ctx.script_location@,
                        alias: alias@,
                        dir: dir@,
                    }),
                    Some(script) => {
                        if seq_views(old(self).visited@).contains(normal_path(script)) {
                            final(self).phase matches Phase::Aliases { ctx: c2, idx: i2 } && c2
                                == ctx && i2 == idx + 1
                        } else {
                            final(self).phase matches Phase::Context {
                                ctx: c2,
                                idx: i2,
                                script: s2,
                            } && c2 == ctx && i2 == idx && s2@ == script
                        }
                    },
                }
            },
    {
        let mut phase = Phase::Dispatch;
        core::mem::swap(&mut phase, &mut self.phase);
        match phase {
            Phase::Script { ctx, idx, alias, dir } => {
                match locate_module_script(dir.as_str(), fs) {
                    None => {
                        let error = CollectError::ScriptNotFound {
                            script: ctx.script_location.clone(),
                            alias,
                            dir,
                        };
                        self.phase = Phase::Failed { error };
                    },
                    Some(script) => {
                        let perm_count = ctx.workspace_rc.permissions.len();
                        proof {
                            assert(idx < perm_count);
                        }
                        let canon = normalize(script.as_str());
                        if contains_str(&self.visited, canon.as_str()) {
                            self.phase = Phase::Aliases { ctx, idx: idx + 1 };
                        } else {
                            self.phase = Phase::Context { ctx, idx, script };
                        }
                    },
                }
            },
            _ => {
                proof {
                    assert(false);
                }
                self.phase = phase;
            },
        }
    }

    /// Hand over the context built for the requested script.  It is
    /// enqueued, and the script's canonical path is marked visited.
    pub fn supply_context(&mut self, sub: ScriptContext)
        requires
            old(self).wf(),
            old(self).phase matches Phase::Context { script, .. } && sub.script_location@
                == script@,
        ensures
            final(self).wf(),
            old(self).phase matches Phase::Context { ctx, idx, script } ==> {
                &&& final(self).queue@ == old(self).queue@.push(sub)
                &&& seq_views(final(self).visited@) == seq_views(old(self).visited@).push(
                    normal_path(script@),
                )
                &&& final(self).collected@ == old(self).collected@
                &&& final(self).phase matches Phase::Aliases { ctx: c2, idx: i2 } && c2 == ctx
                    && i2 == idx + 1
            },
    {
        let mut phase = Phase::Dispatch;
        core::mem::swap(&mut phase, &mut self.phase);
        match phase {
            Phase::Context { ctx, idx, script } => {
                let perm_count = ctx.workspace_rc.permissions.len();
                proof {
                    assert(idx < perm_count);
                }
                let ghost pre = seq_views(self.visited@);
                let canon = normalize(script.as_str());
                self.visited.push(canon);
                self.queue.push(sub);
                self.phase = Phase::Aliases { ctx, idx: idx + 1 };
                proof {
                    assert(seq_views(self.visited@) =~= pre.push(normal_path(script@)));
                }
            },
            _ => {
                proof {
                    assert(false);
                }
                self.phase = phase;
            },
        }
    }

    /// Take the outcome once the machine reports `Finished` or `Halted`.
    pub fn finish(self) -> (r: Result<Vec<TransitiveNative>, CollectError>)
        requires
            self.phase is Done || self.phase is Failed,
        ensures
            self.phase is Done ==> (r matches Ok(natives) && natives@ == self.collected@),
            self.phase matches Phase::Failed { error } ==> (r matches Err(e) && e == error),
    {
        let Collector { queue: _, visited: _, collected, phase } = self;
        match phase {
            Phase::Done => Ok(collected),
            Phase::Failed { error } => Err(error),
            _ => {
                proof {
                    assert(false);
                }
                Ok(collected)
            },
        }
    }
}

/// Where a declared native's binary lives: its decorated file name
/// below the declared parent, below the workspace directory.
pub open spec fn join_ws_binary(ws: Seq<char>, parent: Seq<char>, fname: Seq<char>) -> Seq<char> {
    crate::paths::join_path(ws, crate::paths::join_path(parent, fname))
}

} // verus!
