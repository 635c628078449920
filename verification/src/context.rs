//! The per-script context: everything the traversal needs to know
//! about one visited script.
//!
//! A context is assembled once per traversal node from the shared
//! trust store, the composed workspace declaration, the composed
//! alias table and the script's absolute path, and never changes.

use vstd::prelude::*;
use vstd::string::*;
use crate::ludorc::{Native, Permissions, UserModel, UserRc, WorkspaceModel, WorkspaceRc};
use crate::luaurc::CanonicalLuauRc;
use crate::paths::{find_last, last_index_of, lemma_last_index_of};

verus! {

/// One visited script: the shared read-only trust store, the composed
/// declarations governing its directory, and its absolute path.
#[derive(Debug)]
pub struct ScriptContext {
    pub user_rc: UserRc,
    pub workspace_rc: WorkspaceRc,
    pub luau_rc: CanonicalLuauRc,
    pub script_location: String,
}

/// Ghost mirror of `ScriptContext`.
pub ghost struct ContextModel {
    pub user: UserModel,
    pub workspace: WorkspaceModel,
    pub aliases: Seq<(Seq<char>, Seq<char>)>,
    pub script_location: Seq<char>,
}

/// A vector of strings, each holding the same characters as its
/// original.
fn clone_strings(v: &Vec<String>) -> (r: Vec<String>)
    ensures
        r@ == v@,
{
    let mut r: Vec<String> = Vec::new();
    let n = v.len();
    let mut i: usize = 0;
    while i < n
        invariant
            0 <= i <= n,
            n == v@.len(),
            r@ =~= v@.take(i as int),
        decreases n - i,
    {
        r.push(v[i].clone());
        proof {
            assert(r@ =~= v@.take(i + 1));
        }
        i = i + 1;
    }
    proof {
        assert(v@.take(n as int) =~= v@);
    }
    r
}

impl UserRc {
    /// A copy of the store with the same version and the same set.
    pub fn duplicate(&self) -> (r: Self)
        ensures
            r.version == self.version,
            r.blessed@ == self.blessed@,
            r.model() == self.model(),
    {
        UserRc { version: self.version, blessed: clone_strings(&self.blessed) }
    }
}

impl CanonicalLuauRc {
    /// A copy of the table with the same entries in the same order.
    pub fn duplicate(&self) -> (r: Self)
        ensures
            r.aliases@ == self.aliases@,
            r.model() == self.model(),
    {
        let mut aliases: Vec<(String, String)> = Vec::new();
        let n = self.aliases.len();
        let mut i: usize = 0;
        while i < n
            invariant
                0 <= i <= n,
                n == self.aliases@.len(),
                aliases@ =~= self.aliases@.take(i as int),
            decreases n - i,
        {
            let entry = (self.aliases[i].0.clone(), self.aliases[i].1.clone());
            aliases.push(entry);
            proof {
                assert(aliases@ =~= self.aliases@.take(i + 1));
            }
            i = i + 1;
        }
        proof {
            assert(self.aliases@.take(n as int) =~= self.aliases@);
        }
        CanonicalLuauRc { aliases }
    }
}

impl WorkspaceRc {
    /// A copy of the declaration with the same entries and the same
    /// native declaration.
    pub fn duplicate(&self) -> (r: Self)
        ensures
            r.version == self.version,
            r.permissions@ == self.permissions@,
            r.native == self.native,
            r.model() == self.model(),
    {
        let mut permissions: Vec<(String, Permissions)> = Vec::new();
        let n = self.permissions.len();
        let mut i: usize = 0;
        while i < n
            invariant
                0 <= i <= n,
                n == self.permissions@.len(),
                permissions@ =~= self.permissions@.take(i as int),
            decreases n - i,
        {
            let entry = (self.permissions[i].0.clone(), self.permissions[i].1);
            permissions.push(entry);
            proof {
                assert(permissions@ =~= self.permissions@.take(i + 1));
            }
            i = i + 1;
        }
        proof {
            assert(self.permissions@.take(n as int) =~= self.permissions@);
        }
        let native = match &self.native {
            Some(n) => Some(n.duplicate()),
            None => None,
        };
        WorkspaceRc { version: self.version, permissions, native }
    }
}

/// The name a script is reported under: its final segment with the
/// extension removed, or the whole path where it has no file name.
pub open spec fn friendly_name(p: Seq<char>) -> Seq<char> {
    let cut = last_index_of(p, '/') + 1;
    let name = p.skip(cut);
    if name.len() == 0 {
        p
    } else if name.len() == 1 && name[0] == '.' {
        p
    } else if name.len() == 2 && name[0] == '.' && name[1] == '.' {
        p
    } else {
        let d = last_index_of(name, '.');
        if d <= 0 {
            name
        } else {
            name.take(d)
        }
    }
}

/// The prefix every chunk name carries.
pub open spec fn chunk_prefix() -> Seq<char> {
    seq!['@', 'l', 'u', 'd', 'o', '/']
}

impl ScriptContext {
    pub open spec fn model(self) -> ContextModel {
        ContextModel {
            user: self.user_rc.model(),
            workspace: self.workspace_rc.model(),
            aliases: self.luau_rc.model(),
            script_location: self.script_location@,
        }
    }

    /// Assemble a context from its parts.
    pub fn new(
        user_rc: UserRc,
        workspace_rc: WorkspaceRc,
        luau_rc: CanonicalLuauRc,
        script_location: String,
    ) -> (r: Self)
        ensures
            r.user_rc == user_rc,
            r.workspace_rc == workspace_rc,
            r.luau_rc == luau_rc,
            r.script_location == script_location,
    {
        ScriptContext { user_rc, workspace_rc, luau_rc, script_location }
    }

    /// A copy describing the same script under the same declarations.
    pub fn duplicate(&self) -> (r: Self)
        ensures
            r.model() == self.model(),
            r.script_location@ == self.script_location@,
    {
        ScriptContext {
            user_rc: self.user_rc.duplicate(),
            workspace_rc: self.workspace_rc.duplicate(),
            luau_rc: self.luau_rc.duplicate(),
            script_location: self.script_location.clone(),
        }
    }

    /// The name the engine reports this script under.
    pub fn lua_chunk_name(&self) -> (r: String)
        ensures
            r@ == chunk_prefix() + friendly_name(self.script_location@),
    {
        let p = self.script_location.as_str();
        let n = p.unicode_len();
        proof {
            lemma_last_index_of(p@, '/');
        }
        let cut: usize = match find_last(p, '/') {
            None => 0,
            Some(i) => i + 1,
        };
        let name = p.substring_char(cut, n);
        proof {
            assert(name@ =~= p@.skip(cut as int));
        }
        let name_len = n - cut;
        let use_whole = name_len == 0 || (name_len == 1 && name.get_char(0) == '.') || (name_len
            == 2 && name.get_char(0) == '.' && name.get_char(1) == '.');
        let mut r = String::new();
        r.append("@ludo/");
        proof {
            reveal_strlit("@ludo/");
            assert(r@ =~= chunk_prefix());
        }
        if use_whole {
            r.append(p);
            return r;
        }
        proof {
            lemma_last_index_of(name@, '.');
        }
        let stem_end: usize = match find_last(name, '.') {
            None => name_len,
            Some(d) => {
                if d == 0 {
                    name_len
                } else {
                    d
                }
            },
        };
        let stem = name.substring_char(0, stem_end);
        proof {
            assert(stem@ =~= friendly_name(self.script_location@));
        }
        r.append(stem);
        r
    }
}

} // verus!
