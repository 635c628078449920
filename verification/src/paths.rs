//! A lexical model of slash-separated filesystem paths.
//!
//! Paths are plain strings whose segments are separated by `/`.  A path
//! beginning with `/` is root-absolute.  The functions here are purely
//! lexical: they never touch the filesystem.

use vstd::prelude::*;
use vstd::string::*;

verus! {

/// Index of the first occurrence of `c` in `s`, or `-1` if `c` does not occur.
pub open spec fn first_index_of(s: Seq<char>, c: char) -> int
    decreases s.len(),
{
    if s.len() == 0 {
        -1
    } else if s[0] == c {
        0
    } else {
        let r = first_index_of(s.skip(1), c);
        if r == -1 {
            -1
        } else {
            1 + r
        }
    }
}

/// Index of the last occurrence of `c` in `s`, or `-1` if `c` does not occur.
pub open spec fn last_index_of(s: Seq<char>, c: char) -> int
    decreases s.len(),
{
    if s.len() == 0 {
        -1
    } else if s[s.len() - 1] == c {
        s.len() - 1
    } else {
        last_index_of(s.drop_last(), c)
    }
}

pub proof fn lemma_first_index_of(s: Seq<char>, c: char)
    ensures
        -1 <= first_index_of(s, c) < s.len(),
        first_index_of(s, c) >= 0 ==> s[first_index_of(s, c)] == c,
        forall|k: int| 0 <= k < s.len() && (k < first_index_of(s, c) || first_index_of(s, c) == -1)
            ==> s[k] != c,
    decreases s.len(),
{
    if s.len() > 0 && s[0] != c {
        lemma_first_index_of(s.skip(1), c);
        assert(forall|k: int| 1 <= k < s.len() ==> s[k] == s.skip(1)[k - 1]);
    }
}

pub proof fn lemma_last_index_of(s: Seq<char>, c: char)
    ensures
        -1 <= last_index_of(s, c) < s.len(),
        last_index_of(s, c) >= 0 ==> s[last_index_of(s, c)] == c,
        forall|k: int| 0 <= k < s.len() && k > last_index_of(s, c) ==> s[k] != c,
    decreases s.len(),
{
    if s.len() > 0 && s[s.len() - 1] != c {
        lemma_last_index_of(s.drop_last(), c);
        assert(forall|k: int| 0 <= k < s.len() - 1 ==> s[k] == s.drop_last()[k]);
    }
}

/// Find the first occurrence of `c` in `s`.
pub fn find_first(s: &str, c: char) -> (r: Option<usize>)
    ensures
        match r {
            Some(i) => i == first_index_of(s@, c),
            None => first_index_of(s@, c) == -1,
        },
{
    let n = s.unicode_len();
    proof {
        lemma_first_index_of(s@, c);
    }
    let mut i: usize = 0;
    while i < n
        invariant
            0 <= i <= n,
            n == s@.len(),
            first_index_of(s@, c) == -1 || first_index_of(s@, c) >= i,
        decreases n - i,
    {
        proof {
            lemma_first_index_of(s@, c);
        }
        if s.get_char(i) == c {
            return Some(i);
        }
        i = i + 1;
    }
    proof {
        lemma_first_index_of(s@, c);
    }
    None
}

/// Find the last occurrence of `c` in `s`.
pub fn find_last(s: &str, c: char) -> (r: Option<usize>)
    ensures
        match r {
            Some(i) => i == last_index_of(s@, c),
            None => last_index_of(s@, c) == -1,
        },
{
    let n = s.unicode_len();
    proof {
        lemma_last_index_of(s@, c);
    }
    let mut i: usize = n;
    while i > 0
        invariant
            0 <= i <= n,
            n == s@.len(),
            last_index_of(s@, c) < i,
        decreases i,
    {
        proof {
            lemma_last_index_of(s@, c);
        }
        i = i - 1;
        if s.get_char(i) == c {
            proof {
                lemma_last_index_of(s@, c);
            }
            return Some(i);
        }
    }
    proof {
        lemma_last_index_of(s@, c);
    }
    None
}

/// The directory containing `p`: everything before the last separator.
///
/// The empty path and the root have no parent.  A path without a
/// separator has the empty path as its parent; a child of the root has
/// the root itself.  Inputs are assumed not to carry a trailing
/// separator.
pub open spec fn parent_path(p: Seq<char>) -> Option<Seq<char>> {
    let i = last_index_of(p, '/');
    if p.len() == 0 {
        None
    } else if p.len() == 1 && p[0] == '/' {
        None
    } else if i == -1 {
        Some(Seq::empty())
    } else if i == 0 {
        Some(seq!['/'])
    } else {
        Some(p.take(i))
    }
}

/// The directory containing `p`, or `None` for the empty path and the root.
pub fn parent_of(p: &str) -> (r: Option<String>)
    ensures
        match r {
            Some(q) => parent_path(p@) == Some(q@),
            None => parent_path(p@) is None,
        },
{
    let n = s_len(p);
    if n == 0 {
        return None;
    }
    if n == 1 && p.get_char(0) == '/' {
        return None;
    }
    proof {
        lemma_last_index_of(p@, '/');
    }
    match find_last(p, '/') {
        None => Some(String::new()),
        Some(i) => {
            if i == 0 {
                Some(p.substring_char(0, 1).to_owned())
            } else {
                Some(p.substring_char(0, i).to_owned())
            }
        },
    }
}

/// Append `rest` below `base`.
///
/// An empty `rest` leaves `base` as it is; a root-absolute `rest`
/// replaces `base`, as the standard library's path join does.
pub open spec fn join_path(base: Seq<char>, rest: Seq<char>) -> Seq<char> {
    if rest.len() == 0 {
        base
    } else if rest[0] == '/' {
        rest
    } else if base.len() == 0 {
        rest
    } else if base[base.len() - 1] == '/' {
        base + rest
    } else {
        base + seq!['/'] + rest
    }
}

/// Append `rest` below `base`.
pub fn join(base: &str, rest: &str) -> (r: String)
    ensures
        r@ == join_path(base@, rest@),
{
    let nb = s_len(base);
    let nr = s_len(rest);
    if nr == 0 {
        return base.to_owned();
    }
    if rest.get_char(0) == '/' {
        return rest.to_owned();
    }
    if nb == 0 {
        return rest.to_owned();
    }
    let mut r = base.to_owned();
    if base.get_char(nb - 1) != '/' {
        r.append("/");
        proof {
            reveal_strlit("/");
            assert(r@ =~= base@ + seq!['/']);
        }
    }
    r.append(rest);
    proof {
        assert(r@ =~= join_path(base@, rest@));
    }
    r
}

/// Length of `s` in characters.
fn s_len(s: &str) -> (n: usize)
    ensures
        n == s@.len(),
{
    s.unicode_len()
}

/// `p` with its extension replaced by `ext`.
///
/// The extension is the part of the final segment after its last `.`,
/// except that a leading `.` does not begin an extension.  A path whose
/// final segment is empty, `.` or `..` has no file name and is returned
/// unchanged, as the standard library's `with_extension` behaves.
pub open spec fn with_ext(p: Seq<char>, ext: Seq<char>) -> Seq<char> {
    let cut = last_index_of(p, '/') + 1;
    let dir = p.take(cut);
    let name = p.skip(cut);
    if name.len() == 0 {
        p
    } else if name.len() == 1 && name[0] == '.' {
        p
    } else if name.len() == 2 && name[0] == '.' && name[1] == '.' {
        p
    } else {
        let d = last_index_of(name, '.');
        let stem = if d <= 0 {
            name
        } else {
            name.take(d)
        };
        dir + stem + seq!['.'] + ext
    }
}

/// `p` with its extension replaced by `ext`.
pub fn with_extension(p: &str, ext: &str) -> (r: String)
    ensures
        r@ == with_ext(p@, ext@),
{
    let n = s_len(p);
    proof {
        lemma_last_index_of(p@, '/');
    }
    let cut: usize = match find_last(p, '/') {
        None => 0,
        Some(i) => i + 1,
    };
    let name = p.substring_char(cut, n);
    proof {
        assert(name@ =~= p@.skip(cut as int));
    }
    let name_len = n - cut;
    if name_len == 0 {
        return p.to_owned();
    }
    if name_len == 1 && name.get_char(0) == '.' {
        return p.to_owned();
    }
    if name_len == 2 && name.get_char(0) == '.' && name.get_char(1) == '.' {
        return p.to_owned();
    }
    proof {
        lemma_last_index_of(name@, '.');
    }
    let stem_end: usize = match find_last(name, '.') {
        None => n,
        Some(k) => {
            if k == 0 {
                n
            } else {
                cut + k
            }
        },
    };
    let mut r = p.substring_char(0, stem_end).to_owned();
    r.append(".");
    r.append(ext);
    proof {
        reveal_strlit(".");
        let namev = p@.skip(cut as int);
        let d = last_index_of(namev, '.');
        let stem = if d <= 0 {
            namev
        } else {
            namev.take(d)
        };
        assert(p@.take(stem_end as int) =~= p@.take(cut as int) + stem);
        assert(r@ =~= p@.take(cut as int) + stem + seq!['.'] + ext@);
    }
    r
}

/// The character views of a sequence of strings.
pub open spec fn seq_views(v: Seq<String>) -> Seq<Seq<char>> {
    v.map_values(|x: String| x@)
}

/// The `/`-delimited pieces of `s`, empty pieces included.
pub open spec fn split_path(s: Seq<char>) -> Seq<Seq<char>>
    decreases s.len(),
    via split_path_decreases
{
    let i = first_index_of(s, '/');
    if i == -1 {
        seq![s]
    } else {
        seq![s.take(i)] + split_path(s.skip(i + 1))
    }
}

#[via_fn]
proof fn split_path_decreases(s: Seq<char>) {
    lemma_first_index_of(s, '/');
}

/// The `/`-delimited pieces of `s`.
pub fn split_segments(s: &str) -> (r: Vec<String>)
    ensures
        seq_views(r@) == split_path(s@),
    decreases s@.len(),
{
    let n = s_len(s);
    match find_first(s, '/') {
        None => {
            let mut v: Vec<String> = Vec::new();
            v.push(s.to_owned());
            proof {
                assert(seq_views(v@) =~= split_path(s@));
            }
            v
        },
        Some(i) => {
            proof {
                lemma_first_index_of(s@, '/');
            }
            let head = s.substring_char(0, i).to_owned();
            let mut rest = split_segments(s.substring_char(i + 1, n));
            rest.insert(0, head);
            proof {
                assert(s@.subrange(i + 1, n as int) =~= s@.skip(i + 1));
                assert(seq_views(rest@) =~= split_path(s@));
            }
            rest
        },
    }
}

/// The segments joined with `/` between them.
pub open spec fn join_segments(segs: Seq<Seq<char>>) -> Seq<char>
    decreases segs.len(),
{
    if segs.len() == 0 {
        Seq::empty()
    } else if segs.len() == 1 {
        segs[0]
    } else {
        segs[0] + seq!['/'] + join_segments(segs.skip(1))
    }
}

proof fn lemma_join_segments_push(segs: Seq<Seq<char>>, x: Seq<char>)
    ensures
        join_segments(segs.push(x)) == if segs.len() == 0 {
            x
        } else {
            join_segments(segs) + seq!['/'] + x
        },
    decreases segs.len(),
{
    if segs.len() == 0 {
        assert(segs.push(x) =~= seq![x]);
        assert(join_segments(seq![x]) == x);
    } else if segs.len() == 1 {
        assert(segs.push(x)[0] == segs[0]);
        assert(segs.push(x).skip(1) =~= seq![x]);
        assert(join_segments(seq![x]) == x);
        assert(join_segments(segs.push(x)) =~= join_segments(segs) + seq!['/'] + x);
    } else {
        lemma_join_segments_push(segs.skip(1), x);
        assert(segs.push(x)[0] == segs[0]);
        assert(segs.push(x).skip(1) =~= segs.skip(1).push(x));
        assert(join_segments(segs.push(x)) =~= join_segments(segs) + seq!['/'] + x);
    }
}

/// The segments joined with `/` between them.
pub fn join_all(segs: &Vec<String>) -> (r: String)
    ensures
        r@ == join_segments(seq_views(segs@)),
{
    let mut r = String::new();
    let n = segs.len();
    let mut i: usize = 0;
    while i < n
        invariant
            0 <= i <= n,
            n == segs@.len(),
            r@ == join_segments(seq_views(segs@).take(i as int)),
        decreases n - i,
    {
        if i > 0 {
            r.append("/");
            proof {
                reveal_strlit("/");
            }
        }
        r.append(segs[i].as_str());
        proof {
            lemma_join_segments_push(seq_views(segs@).take(i as int), segs@[i as int]@);
            assert(seq_views(segs@).take(i + 1) =~= seq_views(segs@).take(i as int).push(
                segs@[i as int]@,
            ));
            assert(seq_views(segs@).take(i as int).len() == i);
        }
        i = i + 1;
    }
    proof {
        assert(seq_views(segs@).take(n as int) =~= seq_views(segs@));
    }
    r
}

/// Whether `seg` is the current-directory marker.
pub open spec fn is_dot(seg: Seq<char>) -> bool {
    seg.len() == 1 && seg[0] == '.'
}

/// Whether `seg` is the parent-directory marker.
pub open spec fn is_dot_dot(seg: Seq<char>) -> bool {
    seg.len() == 2 && seg[0] == '.' && seg[1] == '.'
}

/// One step of lexical normalization: empty segments and `.` vanish,
/// `..` removes the preceding segment where one can be removed.
pub open spec fn norm_step(acc: Seq<Seq<char>>, seg: Seq<char>, abs: bool) -> Seq<Seq<char>> {
    if seg.len() == 0 || is_dot(seg) {
        acc
    } else if is_dot_dot(seg) {
        if acc.len() > 0 && !is_dot_dot(acc.last()) {
            acc.drop_last()
        } else if abs {
            acc
        } else {
            acc.push(seg)
        }
    } else {
        acc.push(seg)
    }
}

pub open spec fn norm_fold(acc: Seq<Seq<char>>, segs: Seq<Seq<char>>, abs: bool) -> Seq<
    Seq<char>,
>
    decreases segs.len(),
{
    if segs.len() == 0 {
        acc
    } else {
        norm_fold(norm_step(acc, segs[0], abs), segs.skip(1), abs)
    }
}

/// `p` with empty segments, `.` and resolvable `..` removed lexically.
pub open spec fn normal_path(p: Seq<char>) -> Seq<char> {
    let abs = p.len() > 0 && p[0] == '/';
    let segs = norm_fold(Seq::empty(), split_path(p), abs);
    if abs {
        seq!['/'] + join_segments(segs)
    } else {
        join_segments(segs)
    }
}

/// `p` with empty segments, `.` and resolvable `..` removed lexically.
pub fn normalize(p: &str) -> (r: String)
    ensures
        r@ == normal_path(p@),
{
    let n = s_len(p);
    let abs = n > 0 && p.get_char(0) == '/';
    let segs = split_segments(p);
    let ghost all = seq_views(segs@);
    let mut acc: Vec<String> = Vec::new();
    proof {
        assert(seq_views(acc@) =~= Seq::<Seq<char>>::empty());
        assert(all.skip(0) =~= all);
    }
    let m = segs.len();
    let mut i: usize = 0;
    while i < m
        invariant
            0 <= i <= m,
            m == segs@.len(),
            all == seq_views(segs@),
            norm_fold(seq_views(acc@), all.skip(i as int), abs) == norm_fold(
                Seq::empty(),
                all,
                abs,
            ),
        decreases m - i,
    {
        let seg = &segs[i];
        let seg_len = s_len(seg.as_str());
        let ghost pre = seq_views(acc@);
        if seg_len == 0 || (seg_len == 1 && seg.as_str().get_char(0) == '.') {
            // nothing
        } else if seg_len == 2 && seg.as_str().get_char(0) == '.' && seg.as_str().get_char(1)
            == '.' {
            let keep = if acc.len() > 0 {
                let last = &acc[acc.len() - 1];
                let last_len = s_len(last.as_str());
                !(last_len == 2 && last.as_str().get_char(0) == '.' && last.as_str().get_char(1)
                    == '.')
            } else {
                false
            };
            if keep {
                acc.pop();
                proof {
                    assert(seq_views(acc@) =~= pre.drop_last());
                }
            } else if abs {
                // at the root already: stay there
            } else {
                acc.push(seg.clone());
                proof {
                    assert(seq_views(acc@) =~= pre.push(seg@));
                }
            }
        } else {
            acc.push(seg.clone());
            proof {
                assert(seq_views(acc@) =~= pre.push(seg@));
            }
        }
        proof {
            assert(seq_views(acc@) =~= norm_step(pre, all.skip(i as int)[0], abs));
            assert(all.skip(i as int).skip(1) =~= all.skip(i + 1));
        }
        i = i + 1;
    }
    proof {
        assert(all.skip(m as int) =~= Seq::<Seq<char>>::empty());
    }
    let joined = join_all(&acc);
    if abs {
        let mut r = String::new();
        r.append("/");
        r.append(joined.as_str());
        proof {
            reveal_strlit("/");
            assert(r@ =~= normal_path(p@));
        }
        r
    } else {
        joined
    }
}

/// Whether two string slices hold the same characters.
pub fn str_eq(a: &str, b: &str) -> (r: bool)
    ensures
        r == (a@ == b@),
{
    let sa = a.to_owned();
    let sb = b.to_owned();
    sa == sb
}

/// Whether some element of `v` holds the characters of `s`.
pub fn contains_str(v: &Vec<String>, s: &str) -> (r: bool)
    ensures
        r == seq_views(v@).contains(s@),
{
    let n = v.len();
    let mut i: usize = 0;
    while i < n
        invariant
            0 <= i <= n,
            n == v@.len(),
            forall|j: int| 0 <= j < i ==> v@[j]@ != s@,
        decreases n - i,
    {
        if str_eq(v[i].as_str(), s) {
            assert(seq_views(v@)[i as int] == s@);
            return true;
        }
        i = i + 1;
    }
    assert(forall|j: int| 0 <= j < v@.len() ==> seq_views(v@)[j] == v@[j]@);
    false
}

/// `p` followed by each of its ancestors, ending at the empty path or
/// the root, as the standard library's `ancestors` iterates them.
pub open spec fn ancestor_chain(p: Seq<char>) -> Seq<Seq<char>>
    decreases p.len(),
    via ancestor_chain_decreases
{
    match parent_path(p) {
        None => seq![p],
        Some(q) => seq![p] + ancestor_chain(q),
    }
}

#[via_fn]
proof fn ancestor_chain_decreases(p: Seq<char>) {
    lemma_last_index_of(p, '/');
}

/// `p` followed by each of its ancestors, innermost first.
pub fn ancestors_of(p: &str) -> (r: Vec<String>)
    ensures
        seq_views(r@) == ancestor_chain(p@),
{
    let mut r: Vec<String> = Vec::new();
    let mut cur = p.to_owned();
    loop
        invariant
            ancestor_chain(p@) == seq_views(r@) + ancestor_chain(cur@),
        decreases cur@.len(),
    {
        let ghost pre = seq_views(r@);
        r.push(cur.clone());
        proof {
            assert(seq_views(r@) =~= pre.push(cur@));
            lemma_last_index_of(cur@, '/');
        }
        match parent_of(cur.as_str()) {
            None => {
                proof {
                    assert(ancestor_chain(cur@) =~= seq![cur@]);
                    assert(seq_views(r@) =~= ancestor_chain(p@));
                }
                return r;
            },
            Some(q) => {
                proof {
                    assert(seq![cur@] + ancestor_chain(q@) =~= ancestor_chain(cur@));
                    assert(pre.push(cur@) + ancestor_chain(q@) =~= pre + ancestor_chain(cur@));
                }
                cur = q;
            },
        }
    }
}

} // verus!
