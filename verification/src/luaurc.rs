//! Per-directory alias declarations and their composition.
//!
//! Each directory may bind aliases to filesystem paths.  A relative
//! target is canonicalized against the directory that declared it,
//! never against the leaf.  Along an ancestor chain the closer
//! declaration wins each alias.

use vstd::prelude::*;
use vstd::string::*;
use crate::assoc::{
    assoc_compose,
    assoc_has,
    assoc_index,
    distinct_keys,
    lemma_assoc_compose_distinct,
    lemma_assoc_index,
    assoc_set,
};
use crate::errors::{ConfigError, ConfigIssue};
use crate::paths::{join, join_path, normal_path, normalize, str_eq};

verus! {

/// The alias entries of `v`, as (alias, target) pairs.
pub open spec fn alias_model(v: Seq<(String, String)>) -> Seq<(Seq<char>, Seq<char>)> {
    v.map_values(|e: (String, String)| (e.0@, e.1@))
}

/// A freshly decoded alias declaration, targets still relative to the
/// directory that declared them.
#[derive(Debug, Default, Clone)]
pub struct LuauRc {
    pub aliases: Vec<(String, String)>,
}

/// An alias table whose targets are canonical: joined onto their
/// declaring directory and lexically normalized.
#[derive(Debug, Clone)]
pub struct CanonicalLuauRc {
    pub aliases: Vec<(String, String)>,
}

/// Where a declared target canonicalizes to.
pub open spec fn canon_target(root: Seq<char>, target: Seq<char>) -> Seq<char> {
    normal_path(join_path(root, target))
}

/// Canonicalization walks the declared entries in order; an alias
/// bound twice in one declaration is rejected.
pub open spec fn canon_fold(
    acc: Seq<(Seq<char>, Seq<char>)>,
    items: Seq<(Seq<char>, Seq<char>)>,
    root: Seq<char>,
) -> Result<Seq<(Seq<char>, Seq<char>)>, ConfigIssue>
    decreases items.len(),
{
    if items.len() == 0 {
        Ok(acc)
    } else if assoc_has(acc, items[0].0) {
        Err(ConfigIssue::DuplicateAlias { dir: root, alias: items[0].0 })
    } else {
        canon_fold(acc.push((items[0].0, canon_target(root, items[0].1))), items.skip(1), root)
    }
}

/// What canonicalizing a declaration against its directory must yield.
pub open spec fn canonicalise_spec(
    items: Seq<(Seq<char>, Seq<char>)>,
    root: Seq<char>,
) -> Result<Seq<(Seq<char>, Seq<char>)>, ConfigIssue> {
    canon_fold(Seq::empty(), items, root)
}

/// Index of the first alias entry for `k`, or none.
pub fn find_alias(v: &Vec<(String, String)>, k: &str) -> (r: Option<usize>)
    ensures
        match r {
            Some(i) => i == assoc_index(alias_model(v@), k@) && i < v@.len(),
            None => assoc_index(alias_model(v@), k@) == -1,
        },
{
    proof {
        lemma_assoc_index(alias_model(v@), k@);
    }
    let n = v.len();
    let mut i: usize = 0;
    while i < n
        invariant
            0 <= i <= n,
            n == v@.len(),
            forall|j: int| 0 <= j < i ==> alias_model(v@)[j].0 != k@,
            -1 <= assoc_index(alias_model(v@), k@) < v@.len(),
            assoc_index(alias_model(v@), k@) >= 0 ==> alias_model(v@)[assoc_index(
                alias_model(v@),
                k@,
            )].0 == k@,
            forall|j: int|
                0 <= j < v@.len() && (j < assoc_index(alias_model(v@), k@) || assoc_index(
                    alias_model(v@),
                    k@,
                ) == -1) ==> alias_model(v@)[j].0 != k@,
        decreases n - i,
    {
        if str_eq(v[i].0.as_str(), k) {
            assert(alias_model(v@)[i as int].0 == k@);
            return Some(i);
        }
        assert(alias_model(v@)[i as int].0 == v@[i as int].0@);
        i = i + 1;
    }
    None
}

impl LuauRc {
    pub open spec fn model(self) -> Seq<(Seq<char>, Seq<char>)> {
        alias_model(self.aliases@)
    }

    /// Canonicalize every target against `workspace_root`, the
    /// directory this declaration was found in.  An alias bound twice
    /// is rejected with the declaring directory attached.
    pub fn canonicalise(self, workspace_root: &str) -> (r: Result<CanonicalLuauRc, ConfigError>)
        ensures
            match r {
                Ok(rc) => canonicalise_spec(self.model(), workspace_root@) == Ok::<
                    Seq<(Seq<char>, Seq<char>)>,
                    ConfigIssue,
                >(rc.model()) && rc.wf(),
                Err(e) => canonicalise_spec(self.model(), workspace_root@) == Err::<
                    Seq<(Seq<char>, Seq<char>)>,
                    ConfigIssue,
                >(e.model()),
            },
    {
        let ghost full = alias_model(self.aliases@);
        let mut acc: Vec<(String, String)> = Vec::new();
        let mut rest = self.aliases;
        proof {
            assert(full.skip(0) =~= full);
            assert(alias_model(acc@) =~= Seq::<(Seq<char>, Seq<char>)>::empty());
        }
        let ghost done: int = 0;
        while rest.len() > 0
            invariant
                full == alias_model(self.aliases@),
                0 <= done <= full.len(),
                alias_model(rest@) =~= full.skip(done),
                distinct_keys(alias_model(acc@)),
                canon_fold(alias_model(acc@), full.skip(done), workspace_root@)
                    == canonicalise_spec(full, workspace_root@),
            decreases rest.len(),
        {
            let ghost pre = alias_model(acc@);
            let ghost prev = rest@;
            let (alias, target) = rest.remove(0);
            proof {
                assert(rest@ =~= prev.skip(1));
                assert(alias_model(rest@) =~= alias_model(prev).skip(1));
                assert(full.skip(done).skip(1) =~= full.skip(done + 1));
                assert(alias_model(rest@) =~= full.skip(done + 1));
                assert(full.skip(done)[0] == alias_model(prev)[0]);
                assert(full.skip(done)[0] == (alias@, target@));
                lemma_assoc_index(pre, alias@);
            }
            match find_alias(&acc, alias.as_str()) {
                Some(_) => {
                    let e = ConfigError::DuplicateAlias { dir: workspace_root.to_owned(), alias };
                    proof {
                        assert(canon_fold(pre, full.skip(done), workspace_root@) == Err::<
                            Seq<(Seq<char>, Seq<char>)>,
                            ConfigIssue,
                        >(e.model()));
                    }
                    return Err(e);
                },
                None => {
                    let canonical = normalize(join(workspace_root, target.as_str()).as_str());
                    acc.push((alias, canonical));
                    proof {
                        assert(alias_model(acc@) =~= pre.push(
                            (alias@, canon_target(workspace_root@, target@)),
                        ));
                        assert(distinct_keys(alias_model(acc@)));
                    }
                },
            }
            proof {
                done = done + 1;
            }
        }
        proof {
            assert(full.skip(done) =~= Seq::<(Seq<char>, Seq<char>)>::empty());
        }
        Ok(CanonicalLuauRc { aliases: acc })
    }
}

impl CanonicalLuauRc {
    pub open spec fn model(self) -> Seq<(Seq<char>, Seq<char>)> {
        alias_model(self.aliases@)
    }

    /// A canonical table binds each alias at most once.
    pub open spec fn wf(self) -> bool {
        distinct_keys(self.model())
    }

    /// Lay this table, the closer one, over an ancestor's: every
    /// binding of this table wins, bindings only the ancestor has
    /// survive, and the ancestor's entry order is kept.
    pub fn compose_atop(self, ancestor: Self) -> (r: Self)
        ensures
            r.model() == assoc_compose(ancestor.model(), self.model()),
            ancestor.wf() ==> r.wf(),
    {
        let ghost anc_model = alias_model(ancestor.aliases@);
        let ghost full = alias_model(self.aliases@);
        let mut acc = ancestor.aliases;
        let mut rest = self.aliases;
        proof {
            assert(full.skip(0) =~= full);
            if distinct_keys(anc_model) {
                lemma_assoc_compose_distinct(anc_model, full);
            }
        }
        let ghost done: int = 0;
        while rest.len() > 0
            invariant
                0 <= done <= full.len(),
                alias_model(rest@) =~= full.skip(done),
                assoc_compose(alias_model(acc@), full.skip(done)) == assoc_compose(
                    anc_model,
                    full,
                ),
            decreases rest.len(),
        {
            let ghost pre = alias_model(acc@);
            let ghost prev = rest@;
            let (alias, target) = rest.remove(0);
            proof {
                assert(rest@ =~= prev.skip(1));
                assert(alias_model(rest@) =~= alias_model(prev).skip(1));
                assert(full.skip(done).skip(1) =~= full.skip(done + 1));
                assert(alias_model(rest@) =~= full.skip(done + 1));
                assert(full.skip(done)[0] == alias_model(prev)[0]);
                assert(full.skip(done)[0] == (alias@, target@));
                lemma_assoc_index(pre, alias@);
            }
            match find_alias(&acc, alias.as_str()) {
                Some(i) => {
                    acc[i] = (alias, target);
                    proof {
                        assert(alias_model(acc@) =~= pre.update(i as int, (alias@, target@)));
                        assert(alias_model(acc@) =~= assoc_set(pre, alias@, target@));
                    }
                },
                None => {
                    acc.push((alias, target));
                    proof {
                        assert(alias_model(acc@) =~= pre.push((alias@, target@)));
                        assert(alias_model(acc@) =~= assoc_set(pre, alias@, target@));
                    }
                },
            }
            proof {
                done = done + 1;
            }
        }
        proof {
            assert(full.skip(done) =~= Seq::<(Seq<char>, Seq<char>)>::empty());
        }
        CanonicalLuauRc { aliases: acc }
    }
}

impl Default for CanonicalLuauRc {
    /// A chain without declarations yields an empty table.
    fn default() -> (r: Self)
        ensures
            r.model() == Seq::<(Seq<char>, Seq<char>)>::empty(),
            r.wf(),
    {
        let r = CanonicalLuauRc { aliases: Vec::new() };
        proof {
            assert(alias_model(r.aliases@) =~= Seq::<(Seq<char>, Seq<char>)>::empty());
        }
        r
    }
}

/// The whole chain, outermost first: each present declaration is
/// canonicalized against its own directory, then laid over what the
/// ancestors composed, so the closest declaration wins each alias.
pub open spec fn luau_chain_fold(
    acc: Seq<(Seq<char>, Seq<char>)>,
    items: Seq<(Seq<char>, Option<Seq<(Seq<char>, Seq<char>)>>)>,
) -> Result<Seq<(Seq<char>, Seq<char>)>, ConfigIssue>
    decreases items.len(),
{
    if items.len() == 0 {
        Ok(acc)
    } else {
        match items[0].1 {
            None => luau_chain_fold(acc, items.skip(1)),
            Some(aliases) => match canonicalise_spec(aliases, items[0].0) {
                Err(e) => Err(e),
                Ok(canonical) => luau_chain_fold(assoc_compose(acc, canonical), items.skip(1)),
            },
        }
    }
}

/// What composing the given chain must yield.
pub open spec fn luau_chain_spec(
    items: Seq<(Seq<char>, Option<Seq<(Seq<char>, Seq<char>)>>)>,
) -> Result<Seq<(Seq<char>, Seq<char>)>, ConfigIssue> {
    luau_chain_fold(Seq::empty(), items)
}

/// The ghost chain carried by a vector of (directory, declaration) pairs.
pub open spec fn luau_chain_model(v: Seq<(String, Option<LuauRc>)>) -> Seq<
    (Seq<char>, Option<Seq<(Seq<char>, Seq<char>)>>),
> {
    v.map_values(
        |it: (String, Option<LuauRc>)|
            (
                it.0@,
                match it.1 {
                    Some(rc) => Some(rc.model()),
                    None => None,
                },
            ),
    )
}

/// Compose the alias declarations found along an ancestor chain,
/// outermost first.
pub fn compose_luau_chain(items: Vec<(String, Option<LuauRc>)>) -> (r: Result<
    CanonicalLuauRc,
    ConfigError,
>)
    ensures
        match r {
            Ok(rc) => luau_chain_spec(luau_chain_model(items@)) == Ok::<
                Seq<(Seq<char>, Seq<char>)>,
                ConfigIssue,
            >(rc.model()),
            Err(e) => luau_chain_spec(luau_chain_model(items@)) == Err::<
                Seq<(Seq<char>, Seq<char>)>,
                ConfigIssue,
            >(e.model()),
        },
{
    let ghost full = luau_chain_model(items@);
    let mut acc = CanonicalLuauRc::default();
    let mut rest = items;
    proof {
        assert(full.skip(0) =~= full);
    }
    let ghost done: int = 0;
    while rest.len() > 0
        invariant
            full == luau_chain_model(items@),
            0 <= done <= full.len(),
            luau_chain_model(rest@) =~= full.skip(done),
            luau_chain_fold(acc.model(), full.skip(done)) == luau_chain_spec(full),
        decreases rest.len(),
    {
        let ghost pre = acc.model();
        let ghost prev = rest@;
        let (dir, orc) = rest.remove(0);
        proof {
            assert(rest@ =~= prev.skip(1));
            assert(luau_chain_model(rest@) =~= luau_chain_model(prev).skip(1));
            assert(full.skip(done).skip(1) =~= full.skip(done + 1));
            assert(luau_chain_model(rest@) =~= full.skip(done + 1));
            assert(full.skip(done)[0] == luau_chain_model(prev)[0]);
            assert(full.skip(done)[0] == (
                dir@,
                match orc {
                    Some(rc) => Some(rc.model()),
                    None => None,
                },
            ));
        }
        match orc {
            None => {},
            Some(rc) => {
                match rc.canonicalise(dir.as_str()) {
                    Err(e) => {
                        proof {
                            assert(luau_chain_fold(pre, full.skip(done)) == Err::<
                                Seq<(Seq<char>, Seq<char>)>,
                                ConfigIssue,
                            >(e.model()));
                        }
                        return Err(e);
                    },
                    Ok(canonical) => {
                        acc = canonical.compose_atop(acc);
                    },
                }
            },
        }
        proof {
            done = done + 1;
        }
    }
    proof {
        assert(full.skip(done) =~= Seq::<(Seq<char>, Option<Seq<(Seq<char>, Seq<char>)>>)>::empty());
    }
    Ok(acc)
}

} // verus!
