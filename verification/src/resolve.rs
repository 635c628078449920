//! Resolution of module specifiers and location of module scripts.
//!
//! A specifier's first segment is either the current-directory marker,
//! the parent-directory marker, or an alias token carrying the `@`
//! sigil.  Everything after the first segment joins onto the resolved
//! base verbatim and is never re-expanded, even if alias-shaped.  All
//! references are workspace-relative: absolute specifiers are rejected.

use vstd::prelude::*;
use vstd::string::*;
use crate::assoc::{assoc_get, assoc_has, assoc_index, lemma_assoc_index};
use crate::errors::{ResolveError, ResolveIssue};
use crate::luaurc::{find_alias, CanonicalLuauRc};
use crate::paths::{
    find_first,
    is_dot,
    is_dot_dot,
    join,
    join_all,
    join_path,
    join_segments,
    parent_of,
    parent_path,
    seq_views,
    split_path,
    split_segments,
    with_ext,
    with_extension,
    contains_str,
};

verus! {

/// Whether `c` occurs in `s`.
pub open spec fn has_char(s: Seq<char>, c: char) -> bool {
    exists|i: int| 0 <= i < s.len() && s[i] == c
}

/// Keep the segments that contribute to a joined path: empty segments
/// and the current-directory marker vanish.
pub open spec fn clean_fold(acc: Seq<Seq<char>>, segs: Seq<Seq<char>>) -> Seq<Seq<char>>
    decreases segs.len(),
{
    if segs.len() == 0 {
        acc
    } else if segs[0].len() == 0 || is_dot(segs[0]) {
        clean_fold(acc, segs.skip(1))
    } else {
        clean_fold(acc.push(segs[0]), segs.skip(1))
    }
}

/// The path the segments after the first one contribute.
pub open spec fn rest_of(pieces: Seq<Seq<char>>) -> Seq<char> {
    join_segments(clean_fold(Seq::empty(), pieces.skip(1)))
}

/// Where a specifier must resolve, or why it must not.
pub open spec fn resolve_spec(
    aliases: Seq<(Seq<char>, Seq<char>)>,
    script: Seq<char>,
    module: Seq<char>,
) -> Result<Seq<char>, ResolveIssue> {
    if module.len() == 0 {
        Err(ResolveIssue::EmptySpecifier)
    } else {
        let pieces = split_path(module);
        let first = pieces[0];
        if first.len() == 0 {
            Err(ResolveIssue::AbsoluteSpecifier)
        } else if has_char(first, ':') {
            Err(ResolveIssue::AbsoluteSpecifier)
        } else if is_dot(first) {
            match parent_path(script) {
                None => Err(ResolveIssue::NoParent),
                Some(base) => Ok(join_path(base, rest_of(pieces))),
            }
        } else if is_dot_dot(first) {
            match parent_path(script) {
                None => Err(ResolveIssue::NoParent),
                Some(own) => match parent_path(own) {
                    None => Err(ResolveIssue::NoParent),
                    Some(base) => Ok(join_path(base, rest_of(pieces))),
                },
            }
        } else if first[0] == '@' {
            let name = first.skip(1);
            if assoc_has(aliases, name) {
                Ok(join_path(assoc_get(aliases, name), rest_of(pieces)))
            } else {
                Err(ResolveIssue::UndefinedAlias { alias: name })
            }
        } else {
            Err(ResolveIssue::MissingPrefix)
        }
    }
}

/// The joined path carried by the segments after the first one.
fn rest_exec(segs: &Vec<String>) -> (r: String)
    requires
        segs@.len() >= 1,
    ensures
        r@ == rest_of(seq_views(segs@)),
{
    let ghost pieces = seq_views(segs@);
    let ghost tail = pieces.skip(1);
    let mut acc: Vec<String> = Vec::new();
    proof {
        assert(seq_views(acc@) =~= Seq::<Seq<char>>::empty());
        assert(tail.skip(0) =~= tail);
    }
    let n = segs.len();
    let mut i: usize = 1;
    while i < n
        invariant
            1 <= i <= n,
            n == segs@.len(),
            pieces == seq_views(segs@),
            tail == pieces.skip(1),
            clean_fold(seq_views(acc@), tail.skip(i - 1)) == clean_fold(Seq::empty(), tail),
        decreases n - i,
    {
        let seg = &segs[i];
        let ghost pre = seq_views(acc@);
        let seg_len = seg.as_str().unicode_len();
        proof {
            assert(tail.skip(i - 1)[0] == pieces[i as int]);
            assert(tail.skip(i - 1).skip(1) =~= tail.skip(i as int));
        }
        if seg_len == 0 || (seg_len == 1 && seg.as_str().get_char(0) == '.') {
            // contributes nothing
        } else {
            acc.push(seg.clone());
            proof {
                assert(seq_views(acc@) =~= pre.push(pieces[i as int]));
            }
        }
        i = i + 1;
    }
    proof {
        assert(tail.skip(n - 1) =~= Seq::<Seq<char>>::empty());
    }
    join_all(&acc)
}

/// Resolve a module specifier against the referencing script's
/// location and the composed alias table.
///
/// Empty, root-absolute and drive-absolute specifiers are rejected.
/// The current-directory marker resolves to the script's own
/// directory, the parent marker to that directory's parent, and an
/// `@`-prefixed token through the alias table; anything else carries
/// no valid prefix.  The remaining segments join on verbatim.
pub fn resolve_module_path(
    luau_rc: &CanonicalLuauRc,
    script_location: &str,
    specifier: &str,
) -> (r: Result<String, ResolveError>)
    ensures
        match r {
            Ok(p) => resolve_spec(luau_rc.model(), script_location@, specifier@) == Ok::<
                Seq<char>,
                ResolveIssue,
            >(p@),
            Err(e) => resolve_spec(luau_rc.model(), script_location@, specifier@) == Err::<
                Seq<char>,
                ResolveIssue,
            >(e.model()),
        },
{
    let n = specifier.unicode_len();
    if n == 0 {
        return Err(ResolveError::EmptySpecifier);
    }
    let segs = split_segments(specifier);
    let ghost pieces = seq_views(segs@);
    proof {
        assert(pieces[0] == segs@[0]@);
    }
    let first_len = segs[0].as_str().unicode_len();
    if first_len == 0 {
        return Err(ResolveError::AbsoluteSpecifier);
    }
    if find_first(segs[0].as_str(), ':').is_some() {
        proof {
            crate::paths::lemma_first_index_of(pieces[0], ':');
        }
        return Err(ResolveError::AbsoluteSpecifier);
    }
    proof {
        crate::paths::lemma_first_index_of(pieces[0], ':');
        assert(!has_char(pieces[0], ':'));
    }
    let first_char = segs[0].as_str().get_char(0);
    if first_len == 1 && first_char == '.' {
        let base = match parent_of(script_location) {
            None => {
                return Err(ResolveError::NoParent);
            },
            Some(b) => b,
        };
        let rest = rest_exec(&segs);
        return Ok(join(base.as_str(), rest.as_str()));
    }
    if first_len == 2 && first_char == '.' && segs[0].as_str().get_char(1) == '.' {
        let own = match parent_of(script_location) {
            None => {
                return Err(ResolveError::NoParent);
            },
            Some(b) => b,
        };
        let base = match parent_of(own.as_str()) {
            None => {
                return Err(ResolveError::NoParent);
            },
            Some(b) => b,
        };
        let rest = rest_exec(&segs);
        return Ok(join(base.as_str(), rest.as_str()));
    }
    if first_char == '@' {
        let name = segs[0].as_str().substring_char(1, first_len);
        proof {
            assert(name@ =~= pieces[0].skip(1));
            lemma_assoc_index(luau_rc.model(), name@);
        }
        match find_alias(&luau_rc.aliases, name) {
            None => {
                return Err(ResolveError::UndefinedAlias { alias: name.to_owned() });
            },
            Some(i) => {
                proof {
                    assert(luau_rc.model()[i as int].1 == luau_rc.aliases@[i as int].1@);
                }
                let base = &luau_rc.aliases[i].1;
                let rest = rest_exec(&segs);
                return Ok(join(base.as_str(), rest.as_str()));
            },
        }
    }
    Err(ResolveError::MissingPrefix)
}

/// The set of files the surrounding layer found present: the locator
/// decides against this view, never against the filesystem itself.
#[derive(Debug)]
pub struct FsView {
    pub files: Vec<String>,
}

impl FsView {
    pub open spec fn model(self) -> Seq<Seq<char>> {
        seq_views(self.files@)
    }

    pub open spec fn spec_contains(self, p: Seq<char>) -> bool {
        self.model().contains(p)
    }

    /// Whether `p` is among the files found present.
    pub fn contains(&self, p: &str) -> (r: bool)
        ensures
            r == self.spec_contains(p@),
    {
        contains_str(&self.files, p)
    }
}

/// The recognized script extensions, in the order they are tried.
pub open spec fn luau_ext() -> Seq<char> {
    seq!['l', 'u', 'a', 'u']
}

pub open spec fn lua_ext() -> Seq<char> {
    seq!['l', 'u', 'a']
}

/// The implicit index file name tried inside a resolved directory.
pub open spec fn init_seg() -> Seq<char> {
    seq!['i', 'n', 'i', 't']
}

/// The first extension candidate present, directly against `p`.
pub open spec fn locate_luau_spec(p: Seq<char>, files: Seq<Seq<char>>) -> Option<Seq<char>> {
    if files.contains(with_ext(p, luau_ext())) {
        Some(with_ext(p, luau_ext()))
    } else if files.contains(with_ext(p, lua_ext())) {
        Some(with_ext(p, lua_ext()))
    } else {
        None
    }
}

/// The candidates directly against `dir` first, then against the
/// implicit index file below it.
pub open spec fn locate_module_spec(dir: Seq<char>, files: Seq<Seq<char>>) -> Option<Seq<char>> {
    match locate_luau_spec(dir, files) {
        Some(p) => Some(p),
        None => locate_luau_spec(join_path(dir, init_seg()), files),
    }
}

/// Try each recognized script extension directly against `script_path`.
pub fn locate_luau_script(script_path: &str, fs: &FsView) -> (r: Option<String>)
    ensures
        match r {
            Some(p) => locate_luau_spec(script_path@, fs.model()) == Some(p@),
            None => locate_luau_spec(script_path@, fs.model()) is None,
        },
{
    proof {
        reveal_strlit("luau");
        reveal_strlit("lua");
        assert("luau"@ =~= luau_ext());
        assert("lua"@ =~= lua_ext());
    }
    let direct = with_extension(script_path, "luau");
    if fs.contains(direct.as_str()) {
        return Some(direct);
    }
    let fallback = with_extension(script_path, "lua");
    if fs.contains(fallback.as_str()) {
        return Some(fallback);
    }
    None
}

/// Find the module script for a resolved directory: each extension
/// directly against the path first, then against the implicit index
/// file appended below it.
pub fn locate_module_script(module_dir: &str, fs: &FsView) -> (r: Option<String>)
    ensures
        match r {
            Some(p) => locate_module_spec(module_dir@, fs.model()) == Some(p@),
            None => locate_module_spec(module_dir@, fs.model()) is None,
        },
{
    if let Some(direct) = locate_luau_script(module_dir, fs) {
        return Some(direct);
    }
    proof {
        reveal_strlit("init");
        assert("init"@ =~= init_seg());
    }
    let nested = join(module_dir, "init");
    locate_luau_script(nested.as_str(), fs)
}

/// A specifier without separators is one single segment.
proof fn lemma_split_single(s: Seq<char>)
    requires
        forall|k: int| 0 <= k < s.len() ==> s[k] != '/',
    ensures
        split_path(s) == seq![s],
{
    crate::paths::lemma_first_index_of(s, '/');
    assert(crate::paths::first_index_of(s, '/') == -1);
}

/// The segments after a lone first segment contribute nothing.
proof fn lemma_rest_of_single(s: Seq<char>)
    ensures
        rest_of(seq![s]) == Seq::<char>::empty(),
{
    let pieces = seq![s];
    assert(pieces.skip(1) =~= Seq::<Seq<char>>::empty());
    assert(clean_fold(Seq::empty(), pieces.skip(1)) =~= Seq::<Seq<char>>::empty());
    assert(rest_of(pieces) =~= Seq::<char>::empty());
}

/// Empty, root-absolute and drive-absolute specifiers always fail
/// resolution, whatever the alias table and the referencing script.
pub proof fn lemma_resolve_rejects_absolute(
    aliases: Seq<(Seq<char>, Seq<char>)>,
    script: Seq<char>,
    module: Seq<char>,
)
    requires
        module.len() == 0 || module[0] == '/' || has_char(split_path(module)[0], ':'),
    ensures
        resolve_spec(aliases, script, module) is Err,
{
    if module.len() > 0 && module[0] == '/' {
        assert(crate::paths::first_index_of(module, '/') == 0);
        assert(split_path(module)[0] =~= module.take(0));
        assert(split_path(module)[0].len() == 0);
    }
}

/// The current-directory marker resolves to the referencing script's
/// own directory, and fails exactly where the script has none.
pub proof fn lemma_resolve_current_marker(aliases: Seq<(Seq<char>, Seq<char>)>, script: Seq<char>)
    ensures
        parent_path(script) matches Some(own) ==> resolve_spec(aliases, script, seq!['.'])
            == Ok::<Seq<char>, ResolveIssue>(own),
        parent_path(script) is None ==> resolve_spec(aliases, script, seq!['.']) == Err::<
            Seq<char>,
            ResolveIssue,
        >(ResolveIssue::NoParent),
{
    let module = seq!['.'];
    lemma_split_single(module);
    assert(split_path(module)[0] == module);
    assert(!has_char(module, ':'));
    assert(is_dot(module));
    lemma_rest_of_single(module);
    if parent_path(script) is Some {
        let own = parent_path(script)->Some_0;
        assert(join_path(own, rest_of(seq![module])) == own);
    }
}

/// The parent-directory marker resolves to the parent of the script's
/// own directory, and fails at a root: where the script has no
/// directory, or its directory no parent.
pub proof fn lemma_resolve_parent_marker(aliases: Seq<(Seq<char>, Seq<char>)>, script: Seq<char>)
    ensures
        parent_path(script) matches Some(own) ==> parent_path(own) matches Some(base)
            ==> resolve_spec(aliases, script, seq!['.', '.']) == Ok::<Seq<char>, ResolveIssue>(
            base,
        ),
        parent_path(script) is None ==> resolve_spec(aliases, script, seq!['.', '.']) == Err::<
            Seq<char>,
            ResolveIssue,
        >(ResolveIssue::NoParent),
        (parent_path(script) matches Some(own) && parent_path(own) is None) ==> resolve_spec(
            aliases,
            script,
            seq!['.', '.'],
        ) == Err::<Seq<char>, ResolveIssue>(ResolveIssue::NoParent),
{
    let module = seq!['.', '.'];
    lemma_split_single(module);
    assert(split_path(module)[0] == module);
    assert(!has_char(module, ':'));
    assert(!is_dot(module));
    assert(is_dot_dot(module));
    lemma_rest_of_single(module);
    if parent_path(script) is Some {
        let own = parent_path(script)->Some_0;
        if parent_path(own) is Some {
            let base = parent_path(own)->Some_0;
            assert(join_path(base, rest_of(seq![module])) == base);
        }
    }
}

/// Resolving an alias returns exactly the path bound by the nearest
/// declaring ancestor: where the closer table binds the alias, its
/// binding wins; where only the farther table binds it, that binding
/// survives; where neither does, resolution fails.
pub proof fn lemma_resolve_nearest_alias(
    anc: Seq<(Seq<char>, Seq<char>)>,
    desc: Seq<(Seq<char>, Seq<char>)>,
    script: Seq<char>,
    name: Seq<char>,
)
    requires
        crate::assoc::distinct_keys(desc),
        name.len() > 0,
        !has_char(name, '/'),
        !has_char(name, ':'),
        name[0] != '.',
    ensures
        assoc_has(desc, name) ==> resolve_spec(
            crate::assoc::assoc_compose(anc, desc),
            script,
            seq!['@'] + name,
        ) == Ok::<Seq<char>, ResolveIssue>(assoc_get(desc, name)),
        !assoc_has(desc, name) && assoc_has(anc, name) ==> resolve_spec(
            crate::assoc::assoc_compose(anc, desc),
            script,
            seq!['@'] + name,
        ) == Ok::<Seq<char>, ResolveIssue>(assoc_get(anc, name)),
        !assoc_has(desc, name) && !assoc_has(anc, name) ==> resolve_spec(
            crate::assoc::assoc_compose(anc, desc),
            script,
            seq!['@'] + name,
        ) == Err::<Seq<char>, ResolveIssue>(ResolveIssue::UndefinedAlias { alias: name }),
{
    let composed = crate::assoc::assoc_compose(anc, desc);
    let module = seq!['@'] + name;
    assert(module.len() == name.len() + 1);
    assert(module[0] == '@');
    assert(forall|k: int| 1 <= k < module.len() ==> module[k] == name[k - 1]);
    assert(forall|k: int| 0 <= k < module.len() ==> module[k] != '/');
    lemma_split_single(module);
    assert(split_path(module)[0] == module);
    assert(!has_char(module, ':'));
    assert(!is_dot(module));
    assert(!is_dot_dot(module));
    assert(module.skip(1) =~= name);
    lemma_rest_of_single(module);
    crate::assoc::lemma_assoc_compose(anc, desc, name);
    crate::assoc::lemma_assoc_index(desc, name);
    crate::assoc::lemma_assoc_index(anc, name);
    crate::assoc::lemma_assoc_index(composed, name);
    if assoc_has(composed, name) {
        assert(join_path(assoc_get(composed, name), rest_of(seq![module])) == assoc_get(
            composed,
            name,
        ));
    }
}

/// Whether `fname` is `name` with something before and something after,
/// as a platform decorates a shared-library name.
pub open spec fn decorated_name(name: Seq<char>, fname: Seq<char>) -> bool {
    exists|pre: Seq<char>, suf: Seq<char>| fname == pre + name + suf
}

/// Relies on libloading::library_filename: the platform's file name
/// for a shared library, the bare name with the platform's prefix
/// prepended and its suffix appended.
#[verifier::external_body]
fn library_filename_str(name: &str) -> (r: String)
    ensures
        decorated_name(name@, r@),
{
    match libloading::library_filename(name).into_string() {
        Ok(s) => s,
        Err(_) => name.to_owned(),
    }
}

/// The path of a native binary below its declared parent directory:
/// the platform's shared-library file name joined onto `parent`.
pub fn select_native_binary(name: &str, parent: &str) -> (r: String)
    ensures
        exists|fname: Seq<char>|
            #[trigger] decorated_name(name@, fname) && r@ == join_path(parent@, fname),
{
    let fname = library_filename_str(name);
    let r = join(parent, fname.as_str());
    proof {
        assert(decorated_name(name@, fname@) && r@ == join_path(parent@, fname@));
    }
    r
}

} // verus!
