//! The user trust store and the per-directory workspace declaration.
//!
//! The store is loaded once per run and shared read-only.  Workspace
//! declarations are composed along the ancestor chain: permission
//! entries of closer directories override farther ones, while a native
//! extension may be declared by at most one directory on the chain —
//! a descendant of a declaring ancestor must not declare another.

use vstd::prelude::*;
use vstd::string::*;
use crate::assoc::{assoc_compose, assoc_index, assoc_set, lemma_assoc_index};
use crate::bless::BlessInfo;
use crate::errors::{ConfigError, ConfigIssue};
use crate::paths::{seq_views, str_eq, contains_str};

verus! {

/// The one declaration-format version this library reads.
pub const SUPPORTED_RC_VERSION: u32 = 1;

/// The persisted, user-global trust store: a format version and the
/// set of approved hash strings.
#[derive(Debug, Clone)]
pub struct UserRc {
    pub version: u32,
    pub blessed: Vec<String>,
}

/// Ghost mirror of `UserRc`.
pub ghost struct UserModel {
    pub version: int,
    pub blessed: Seq<Seq<char>>,
}

impl UserRc {
    pub open spec fn model(self) -> UserModel {
        UserModel { version: self.version as int, blessed: seq_views(self.blessed@) }
    }

    /// Whether `hash` is an exact member of the approved set.
    pub open spec fn spec_is_blessed(self, hash: Seq<char>) -> bool {
        self.model().blessed.contains(hash)
    }

    /// Validate a freshly decoded store: only the supported format
    /// version is accepted.
    pub fn from_parts(version: u32, blessed: Vec<String>) -> (r: Result<UserRc, ConfigError>)
        ensures
            version == SUPPORTED_RC_VERSION ==> (r matches Ok(rc) && rc.version == version
                && rc.blessed@ == blessed@),
            version != SUPPORTED_RC_VERSION ==> (r matches Err(e) && e.model()
                == (ConfigIssue::UnsupportedStoreVersion { version: version as int })),
    {
        if version != SUPPORTED_RC_VERSION {
            Err(ConfigError::UnsupportedStoreVersion { version })
        } else {
            Ok(UserRc { version, blessed })
        }
    }

    /// Whether the hash recorded in `info` is approved: an exact
    /// string match against the store, with no normalization.
    pub fn is_blessed(&self, info: &BlessInfo) -> (r: bool)
        ensures
            r == self.spec_is_blessed(info.hash@),
    {
        contains_str(&self.blessed, info.hash.as_str())
    }

    /// Approve `hash`: after the call it is a member of the set.  A
    /// hash already approved is not recorded twice.
    pub fn bless(&mut self, hash: String) -> (added: bool)
        ensures
            final(self).version == old(self).version,
            old(self).spec_is_blessed(hash@) ==> !added && final(self).blessed@ == old(
                self,
            ).blessed@,
            !old(self).spec_is_blessed(hash@) ==> added && final(self).blessed@ == old(
                self,
            ).blessed@.push(hash),
            final(self).spec_is_blessed(hash@),
    {
        if contains_str(&self.blessed, hash.as_str()) {
            false
        } else {
            let ghost pre = seq_views(self.blessed@);
            self.blessed.push(hash);
            proof {
                assert(seq_views(self.blessed@) =~= pre.push(hash@));
                assert(seq_views(self.blessed@)[pre.len() as int] == hash@);
            }
            true
        }
    }

}

impl Default for UserRc {
    /// An absent store file means an empty store at the default version.
    fn default() -> (r: Self)
        ensures
            r.version == SUPPORTED_RC_VERSION,
            r.blessed@.len() == 0,
    {
        UserRc { version: SUPPORTED_RC_VERSION, blessed: Vec::new() }
    }
}

/// Approving a hash flips its membership to approved and revokes
/// nothing: every hash approved before stays approved.
pub proof fn lemma_bless_flips(before: UserModel, after: UserModel, hash: Seq<char>)
    requires
        after.blessed == before.blessed.push(hash),
    ensures
        after.blessed.contains(hash),
        forall|h: Seq<char>| before.blessed.contains(h) ==> after.blessed.contains(h),
{
    assert(after.blessed[before.blessed.len() as int] == hash);
    assert forall|h: Seq<char>| before.blessed.contains(h) implies after.blessed.contains(h) by {
        let w = choose|w: int| 0 <= w < before.blessed.len() && before.blessed[w] == h;
        assert(after.blessed[w] == h);
    }
}

/// What an alias grants to the directory it is declared for.
#[derive(Debug, Clone, Copy, PartialEq, Eq)]
pub struct Permissions {
    pub native: bool,
}

/// A native extension declaration: its identifier, the directory of
/// its binary relative to the workspace, and the exported entry-point
/// symbol name.
#[derive(Debug, Clone)]
pub struct Native {
    pub name: String,
    pub parent: String,
    pub entry_point: String,
}

/// Ghost mirror of `Native`.
pub ghost struct NativeModel {
    pub name: Seq<char>,
    pub parent: Seq<char>,
    pub entry_point: Seq<char>,
}

impl Native {
    pub open spec fn model(self) -> NativeModel {
        NativeModel { name: self.name@, parent: self.parent@, entry_point: self.entry_point@ }
    }

    /// A copy whose fields hold the same characters.
    pub fn duplicate(&self) -> (r: Self)
        ensures
            r == *self,
            r.model() == self.model(),
    {
        Native {
            name: self.name.clone(),
            parent: self.parent.clone(),
            entry_point: self.entry_point.clone(),
        }
    }
}

/// The per-directory workspace declaration: a format version, an
/// ordered alias→permission map, and at most one native extension.
#[derive(Debug, Clone)]
pub struct WorkspaceRc {
    pub version: u32,
    pub permissions: Vec<(String, Permissions)>,
    pub native: Option<Native>,
}

/// Ghost mirror of `WorkspaceRc`.
pub ghost struct WorkspaceModel {
    pub version: int,
    pub permissions: Seq<(Seq<char>, bool)>,
    pub native: Option<NativeModel>,
}

/// The composition identity: current version, no permissions, no native.
pub open spec fn ws_default() -> WorkspaceModel {
    WorkspaceModel {
        version: SUPPORTED_RC_VERSION as int,
        permissions: Seq::empty(),
        native: None,
    }
}

/// The permission entries of `v`, as (alias, grants-native) pairs.
pub open spec fn perm_model(v: Seq<(String, Permissions)>) -> Seq<(Seq<char>, bool)> {
    v.map_values(|e: (String, Permissions)| (e.0@, e.1.native))
}

impl WorkspaceRc {
    pub open spec fn model(self) -> WorkspaceModel {
        WorkspaceModel {
            version: self.version as int,
            permissions: perm_model(self.permissions@),
            native: match self.native {
                Some(n) => Some(n.model()),
                None => None,
            },
        }
    }
}

impl Default for WorkspaceRc {
    /// A directory without a declaration contributes nothing.
    fn default() -> (r: Self)
        ensures
            r.model() == ws_default(),
    {
        let r = WorkspaceRc {
            version: SUPPORTED_RC_VERSION,
            permissions: Vec::new(),
            native: None,
        };
        proof {
            assert(perm_model(r.permissions@) =~= Seq::<(Seq<char>, bool)>::empty());
        }
        r
    }
}

/// Permission maps merge with the closer directory winning each entry.
pub open spec fn merge_permissions_spec(
    anc: Seq<(Seq<char>, bool)>,
    desc: Seq<(Seq<char>, bool)>,
) -> Seq<(Seq<char>, bool)> {
    assoc_compose(anc, desc)
}

/// Native declarations merge the opposite way: the ancestor's stands,
/// and a descendant declaring a second one is a composition error.
pub open spec fn merge_natives_spec(
    anc: Option<NativeModel>,
    desc: Option<NativeModel>,
    dir: Seq<char>,
) -> Result<Option<NativeModel>, ConfigIssue> {
    if anc is Some && desc is Some {
        Err(ConfigIssue::ConflictingNatives { dir })
    } else if desc is Some {
        Ok(desc)
    } else {
        Ok(anc)
    }
}

/// One chain step: the declaration of the directory `dir`, laid over
/// everything composed from its ancestors.
pub open spec fn ws_compose_one(
    acc: WorkspaceModel,
    dir: Seq<char>,
    rc: WorkspaceModel,
) -> Result<WorkspaceModel, ConfigIssue> {
    if rc.version != SUPPORTED_RC_VERSION as int {
        Err(ConfigIssue::UnsupportedVersion { dir, version: rc.version })
    } else {
        match merge_natives_spec(acc.native, rc.native, dir) {
            Err(e) => Err(e),
            Ok(native) => Ok(
                WorkspaceModel {
                    version: SUPPORTED_RC_VERSION as int,
                    permissions: merge_permissions_spec(acc.permissions, rc.permissions),
                    native,
                },
            ),
        }
    }
}

/// The whole chain, outermost first; an absent declaration contributes
/// nothing.
pub open spec fn ws_chain_fold(
    acc: WorkspaceModel,
    items: Seq<(Seq<char>, Option<WorkspaceModel>)>,
) -> Result<WorkspaceModel, ConfigIssue>
    decreases items.len(),
{
    if items.len() == 0 {
        Ok(acc)
    } else {
        match items[0].1 {
            None => ws_chain_fold(acc, items.skip(1)),
            Some(rc) => match ws_compose_one(acc, items[0].0, rc) {
                Err(e) => Err(e),
                Ok(acc2) => ws_chain_fold(acc2, items.skip(1)),
            },
        }
    }
}

/// What composing the given chain must yield.
pub open spec fn ws_chain_spec(
    items: Seq<(Seq<char>, Option<WorkspaceModel>)>,
) -> Result<WorkspaceModel, ConfigIssue> {
    ws_chain_fold(ws_default(), items)
}

/// The ghost chain carried by a vector of (directory, declaration) pairs.
pub open spec fn chain_model(v: Seq<(String, Option<WorkspaceRc>)>) -> Seq<
    (Seq<char>, Option<WorkspaceModel>),
> {
    v.map_values(
        |it: (String, Option<WorkspaceRc>)|
            (
                it.0@,
                match it.1 {
                    Some(rc) => Some(rc.model()),
                    None => None,
                },
            ),
    )
}

/// Once a native declaration is in hand, meeting another anywhere
/// further down the chain fails the whole composition.
proof fn lemma_ws_fold_conflict(
    acc: WorkspaceModel,
    items: Seq<(Seq<char>, Option<WorkspaceModel>)>,
    j: int,
)
    requires
        acc.native is Some,
        0 <= j < items.len(),
        items[j].1 matches Some(rc) && rc.native is Some,
    ensures
        ws_chain_fold(acc, items) is Err,
    decreases items.len(),
{
    match items[0].1 {
        None => {
            lemma_ws_fold_conflict(acc, items.skip(1), j - 1);
        },
        Some(rc0) => {
            if rc0.version != SUPPORTED_RC_VERSION as int {
                // the version failure is fatal even sooner
            } else if rc0.native is Some {
                // the conflict strikes at this very step
            } else {
                let acc2 = ws_compose_one(acc, items[0].0, rc0)->Ok_0;
                if j == 0 {
                    assert(rc0.native is None);
                } else {
                    lemma_ws_fold_conflict(acc2, items.skip(1), j - 1);
                }
            }
        },
    }
}

/// Declaring a native extension in both an ancestor and a descendant
/// along one chain always fails composition, wherever on the chain
/// the two declarations stand.
pub proof fn lemma_native_conflict(
    items: Seq<(Seq<char>, Option<WorkspaceModel>)>,
    i: int,
    j: int,
)
    requires
        0 <= i < j < items.len(),
        items[i].1 matches Some(a) && a.native is Some,
        items[j].1 matches Some(b) && b.native is Some,
    ensures
        ws_chain_spec(items) is Err,
{
    lemma_fold_conflict_pair(ws_default(), items, i, j);
}

proof fn lemma_fold_conflict_pair(
    acc: WorkspaceModel,
    items: Seq<(Seq<char>, Option<WorkspaceModel>)>,
    i: int,
    j: int,
)
    requires
        0 <= i < j < items.len(),
        items[i].1 matches Some(a) && a.native is Some,
        items[j].1 matches Some(b) && b.native is Some,
    ensures
        ws_chain_fold(acc, items) is Err,
    decreases items.len(),
{
    match items[0].1 {
        None => {
            lemma_fold_conflict_pair(acc, items.skip(1), i - 1, j - 1);
        },
        Some(rc0) => {
            if rc0.version != SUPPORTED_RC_VERSION as int {
                // the version failure is fatal even sooner
            } else if acc.native is Some && rc0.native is Some {
                // a conflict with what was already composed
            } else {
                let acc2 = ws_compose_one(acc, items[0].0, rc0)->Ok_0;
                if i == 0 {
                    assert(acc2.native is Some);
                    lemma_ws_fold_conflict(acc2, items.skip(1), j - 1);
                } else {
                    lemma_fold_conflict_pair(acc2, items.skip(1), i - 1, j - 1);
                }
            }
        },
    }
}

/// Index of the first permission entry for `k`, or none.
fn find_permission(v: &Vec<(String, Permissions)>, k: &str) -> (r: Option<usize>)
    ensures
        match r {
            Some(i) => i == assoc_index(perm_model(v@), k@) && i < v@.len(),
            None => assoc_index(perm_model(v@), k@) == -1,
        },
{
    proof {
        lemma_assoc_index(perm_model(v@), k@);
    }
    let n = v.len();
    let mut i: usize = 0;
    while i < n
        invariant
            0 <= i <= n,
            n == v@.len(),
            forall|j: int| 0 <= j < i ==> perm_model(v@)[j].0 != k@,
            -1 <= assoc_index(perm_model(v@), k@) < v@.len(),
            assoc_index(perm_model(v@), k@) >= 0 ==> perm_model(v@)[assoc_index(
                perm_model(v@),
                k@,
            )].0 == k@,
            forall|j: int|
                0 <= j < v@.len() && (j < assoc_index(perm_model(v@), k@) || assoc_index(
                    perm_model(v@),
                    k@,
                ) == -1) ==> perm_model(v@)[j].0 != k@,
        decreases n - i,
    {
        if str_eq(v[i].0.as_str(), k) {
            assert(perm_model(v@)[i as int].0 == k@);
            return Some(i);
        }
        assert(perm_model(v@)[i as int].0 == v@[i as int].0@);
        i = i + 1;
    }
    None
}

/// Lay the permission entries of a closer declaration over an
/// ancestor's: the closer value wins each alias, the ancestor's entry
/// order is kept, and new aliases append in their declared order.
pub fn merge_permissions(
    anc: Vec<(String, Permissions)>,
    desc: Vec<(String, Permissions)>,
) -> (r: Vec<(String, Permissions)>)
    ensures
        perm_model(r@) == merge_permissions_spec(perm_model(anc@), perm_model(desc@)),
{
    let ghost full = perm_model(desc@);
    let mut acc = anc;
    let mut rest = desc;
    proof {
        assert(full.skip(0) =~= full);
    }
    let ghost done: int = 0;
    while rest.len() > 0
        invariant
            0 <= done <= full.len(),
            perm_model(rest@) =~= full.skip(done),
            assoc_compose(perm_model(acc@), full.skip(done)) == assoc_compose(
                perm_model(anc@),
                full,
            ),
        decreases rest.len(),
    {
        let ghost pre = perm_model(acc@);
        let ghost prev = rest@;
        let (k, p) = rest.remove(0);
        proof {
            assert(rest@ =~= prev.skip(1));
            assert(perm_model(rest@) =~= perm_model(prev).skip(1));
            assert(full.skip(done).skip(1) =~= full.skip(done + 1));
            assert(perm_model(rest@) =~= full.skip(done + 1));
            assert(full.skip(done)[0] == perm_model(prev)[0]);
            assert(full.skip(done)[0] == (k@, p.native));
            lemma_assoc_index(pre, k@);
        }
        match find_permission(&acc, k.as_str()) {
            Some(i) => {
                acc[i] = (k, p);
                proof {
                    assert(perm_model(acc@) =~= pre.update(i as int, (k@, p.native)));
                    assert(perm_model(acc@) =~= assoc_set(pre, k@, p.native));
                }
            },
            None => {
                acc.push((k, p));
                proof {
                    assert(perm_model(acc@) =~= pre.push((k@, p.native)));
                    assert(perm_model(acc@) =~= assoc_set(pre, k@, p.native));
                }
            },
        }
        proof {
            done = done + 1;
        }
    }
    proof {
        assert(full.skip(done) =~= Seq::<(Seq<char>, bool)>::empty());
    }
    acc
}

/// Compose the declarations found along an ancestor chain, outermost
/// first.  Each present declaration must carry the supported version;
/// permission entries of closer directories win; a second native
/// declaration along the chain is fatal, with the declaring
/// directory's path attached.
pub fn compose_workspace_chain(items: Vec<(String, Option<WorkspaceRc>)>) -> (r: Result<
    WorkspaceRc,
    ConfigError,
>)
    ensures
        match r {
            Ok(rc) => ws_chain_spec(chain_model(items@)) == Ok::<WorkspaceModel, ConfigIssue>(
                rc.model(),
            ),
            Err(e) => ws_chain_spec(chain_model(items@)) == Err::<WorkspaceModel, ConfigIssue>(
                e.model(),
            ),
        },
{
    let ghost full = chain_model(items@);
    let mut acc = WorkspaceRc::default();
    let mut rest = items;
    proof {
        assert(full.skip(0) =~= full);
    }
    let ghost done: int = 0;
    while rest.len() > 0
        invariant
            full == chain_model(items@),
            0 <= done <= full.len(),
            chain_model(rest@) =~= full.skip(done),
            acc.version == SUPPORTED_RC_VERSION,
            ws_chain_fold(acc.model(), full.skip(done)) == ws_chain_spec(full),
        decreases rest.len(),
    {
        let ghost pre = acc.model();
        let ghost prev = rest@;
        let (dir, orc) = rest.remove(0);
        proof {
            assert(rest@ =~= prev.skip(1));
            assert(chain_model(rest@) =~= chain_model(prev).skip(1));
            assert(full.skip(done).skip(1) =~= full.skip(done + 1));
            assert(chain_model(rest@) =~= full.skip(done + 1));
            assert(full.skip(done)[0] == chain_model(prev)[0]);
            assert(full.skip(done)[0] == (
                dir@,
                match orc {
                    Some(rc) => Some(rc.model()),
                    None => None,
                },
            ));
        }
        match orc {
            None => {},
            Some(rc) => {
                if rc.version != SUPPORTED_RC_VERSION {
                    let e = ConfigError::UnsupportedVersion { dir, version: rc.version };
                    proof {
                        assert(ws_compose_one(pre, full.skip(done)[0].0, rc.model()) == Err::<
                            WorkspaceModel,
                            ConfigIssue,
                        >(e.model()));
                        assert(ws_chain_fold(pre, full.skip(done)) == Err::<
                            WorkspaceModel,
                            ConfigIssue,
                        >(e.model()));
                    }
                    return Err(e);
                }
                if acc.native.is_some() && rc.native.is_some() {
                    let e = ConfigError::ConflictingNatives { dir };
                    proof {
                        assert(ws_compose_one(pre, full.skip(done)[0].0, rc.model()) == Err::<
                            WorkspaceModel,
                            ConfigIssue,
                        >(e.model()));
                        assert(ws_chain_fold(pre, full.skip(done)) == Err::<
                            WorkspaceModel,
                            ConfigIssue,
                        >(e.model()));
                    }
                    return Err(e);
                }
                let native = if rc.native.is_some() {
                    rc.native
                } else {
                    acc.native
                };
                let permissions = merge_permissions(acc.permissions, rc.permissions);
                acc = WorkspaceRc { version: SUPPORTED_RC_VERSION, permissions, native };
            },
        }
        proof {
            done = done + 1;
        }
    }
    proof {
        assert(full.skip(done) =~= Seq::<(Seq<char>, Option<WorkspaceModel>)>::empty());
    }
    Ok(acc)
}

} // verus!
