//! Path arithmetic on textual paths: locating the source root in an entry,
//! projecting the entry onto the destination root, and the file-name and
//! parent operations that the executor needs.
use vstd::prelude::*;
use vstd::string::*;

verus! {

/// `p` occurs in `s` at position `i`.
pub open spec fn occurs_at(s: Seq<char>, p: Seq<char>, i: int) -> bool {
    0 <= i && i + p.len() <= s.len() && s.subrange(i, i + p.len()) == p
}

/// The first position at or after `k` where `p` occurs in `s`.
pub open spec fn first_from(s: Seq<char>, p: Seq<char>, k: int) -> Option<int>
    decreases s.len() + 1 - k,
{
    if k < 0 || k + p.len() > s.len() {
        None
    } else if occurs_at(s, p, k) {
        Some(k)
    } else {
        first_from(s, p, k + 1)
    }
}

/// The first position where `p` occurs in `s`, if any.
pub open spec fn first_occurrence(s: Seq<char>, p: Seq<char>) -> Option<int> {
    first_from(s, p, 0)
}

/// `s` without its leading separators.
pub open spec fn strip_slashes(s: Seq<char>) -> Seq<char>
    decreases s.len(),
{
    if s.len() > 0 && s[0] == '/' {
        strip_slashes(s.drop_first())
    } else {
        s
    }
}

/// Cutting `p` after its first `cut` characters falls on a component boundary.
pub open spec fn on_boundary(p: Seq<char>, cut: int) -> bool {
    cut == p.len() || p[cut] == '/' || (cut > 0 && p[cut - 1] == '/')
}

/// Where the root's first match in `p` ends.
pub open spec fn root_end(p: Seq<char>, root: Seq<char>) -> int {
    first_occurrence(p, root).unwrap() + root.len()
}

/// The part of `p` below `root`: what follows the first match of `root` in
/// `p`, without leading separators. `None` when `root` does not occur in `p`
/// or its match does not end on a component boundary.
pub open spec fn relative(p: Seq<char>, root: Seq<char>) -> Option<Seq<char>> {
    if first_occurrence(p, root) is None {
        None
    } else if !on_boundary(p, root_end(p, root)) {
        None
    } else {
        Some(strip_slashes(p.subrange(root_end(p, root), p.len() as int)))
    }
}

/// `base / rel`: one separator between them, `base` itself for an empty `rel`.
pub open spec fn join(base: Seq<char>, rel: Seq<char>) -> Seq<char> {
    if rel.len() == 0 {
        base
    } else if base.len() > 0 && base.last() == '/' {
        base + rel
    } else {
        base + seq!['/'] + rel
    }
}

/// The destination counterpart of `p`.
pub open spec fn mapped(source: Seq<char>, destination: Seq<char>, p: Seq<char>) -> Option<Seq<char>> {
    match relative(p, source) {
        Some(rel) => Some(join(destination, rel)),
        None => None,
    }
}

/// Position of the last separator of `p`, or -1.
pub open spec fn last_slash(p: Seq<char>) -> int
    decreases p.len(),
{
    if p.len() == 0 {
        -1
    } else if p.last() == '/' {
        p.len() - 1
    } else {
        last_slash(p.drop_last())
    }
}

/// What follows the last separator of `p`.
pub open spec fn last_segment(p: Seq<char>) -> Seq<char> {
    p.subrange(last_slash(p) + 1, p.len() as int)
}

/// The final component of `p`; `None` where it is empty, `.` or `..`.
pub open spec fn file_name(p: Seq<char>) -> Option<Seq<char>> {
    let name = last_segment(p);
    if name.len() == 0 || name == seq!['.'] || name == seq!['.', '.'] {
        None
    } else {
        Some(name)
    }
}

/// `p` with its final component replaced by `name`.
pub open spec fn with_file_name(p: Seq<char>, name: Seq<char>) -> Seq<char> {
    p.subrange(0, last_slash(p) + 1) + name
}

/// The directory that holds `p`: `None` for a path without separator or for
/// the root itself.
pub open spec fn parent(p: Seq<char>) -> Option<Seq<char>> {
    let k = last_slash(p);
    if k < 0 || p.len() <= 1 {
        None
    } else if k == 0 {
        Some(seq!['/'])
    } else {
        Some(p.subrange(0, k))
    }
}

proof fn lemma_last_slash_bounds(p: Seq<char>)
    ensures
        -1 <= last_slash(p) < p.len(),
        last_slash(p) >= 0 ==> p[last_slash(p)] == '/',
        forall|j: int| last_slash(p) < j < p.len() ==> p[j] != '/',
    decreases p.len(),
{
    if p.len() > 0 && p.last() != '/' {
        lemma_last_slash_bounds(p.drop_last());
        assert forall|j: int| last_slash(p) < j < p.len() implies p[j] != '/' by {
            if j < p.len() - 1 {
                assert(p.drop_last()[j] == p[j]);
            }
        }
    }
}

proof fn lemma_first_from_bounds(s: Seq<char>, p: Seq<char>, k: int)
    ensures
        first_from(s, p, k) matches Some(i) ==> k <= i && occurs_at(s, p, i),
    decreases s.len() + 1 - k,
{
    if !(k < 0 || k + p.len() > s.len()) && !occurs_at(s, p, k) {
        lemma_first_from_bounds(s, p, k + 1);
    }
}

proof fn lemma_strip_slashes(s: Seq<char>)
    ensures
        strip_slashes(s).len() == 0 || strip_slashes(s)[0] != '/',
        s.len() == 0 || s[0] != '/' ==> strip_slashes(s) == s,
    decreases s.len(),
{
    if s.len() > 0 && s[0] == '/' {
        lemma_strip_slashes(s.drop_first());
    }
}

/// Whether `p` occurs in `e` at `i`.
fn matches_at(e: &str, p: &str, i: usize, n: usize) -> (r: bool)
    requires
        n == e@.len(),
        i + p@.len() <= e@.len(),
    ensures
        r == occurs_at(e@, p@, i as int),
{
    let m = p.unicode_len();
    let mut j: usize = 0;
    while j < m
        invariant
            m == p@.len(),
            n == e@.len(),
            i + m <= e@.len(),
            j <= m,
            forall|k: int| 0 <= k < j ==> e@[i + k] == p@[k],
        decreases m - j,
    {
        if e.get_char(i + j) != p.get_char(j) {
            assert(e@.subrange(i as int, i + m)[j as int] != p@[j as int]);
            return false;
        }
        j = j + 1;
    }
    assert(e@.subrange(i as int, i + m) =~= p@);
    true
}

/// The first position where `p` occurs in `e`.
pub fn find(e: &str, p: &str) -> (r: Option<usize>)
    ensures
        r matches Some(i) ==> first_occurrence(e@, p@) == Some(i as int),
        r is None ==> first_occurrence(e@, p@) is None,
{
    let n = e.unicode_len();
    let m = p.unicode_len();
    if m > n {
        return None;
    }
    if m == 0 {
        assert(e@.subrange(0, 0) =~= p@);
        return Some(0);
    }
    let mut i: usize = 0;
    while i <= n - m
        invariant
            n == e@.len(),
            m == p@.len(),
            0 < m <= n,
            i <= n - m + 1,
            first_from(e@, p@, 0) == first_from(e@, p@, i as int),
        decreases n - i,
    {
        if matches_at(e, p, i, n) {
            return Some(i);
        }
        i = i + 1;
    }
    None
}

/// Position of the last separator of `p`, if there is one.
fn find_last_slash(p: &str) -> (r: Option<usize>)
    ensures
        r matches Some(k) ==> last_slash(p@) == k as int && k < p@.len(),
        r is None ==> last_slash(p@) == -1,
        p@.len() <= usize::MAX,
{
    let n = p.unicode_len();
    let mut k: usize = n;
    assert(p@.subrange(0, n as int) =~= p@);
    while k > 0
        invariant
            k <= n == p@.len(),
            last_slash(p@) == last_slash(p@.subrange(0, k as int)),
        decreases k,
    {
        let ghost q = p@.subrange(0, k as int);
        assert(q.drop_last() =~= p@.subrange(0, k - 1));
        if p.get_char(k - 1) == '/' {
            return Some(k - 1);
        }
        k = k - 1;
    }
    None
}

/// Outcome of projecting an entry path below the source root.
pub enum MapFault {
    /// The root does not occur in the entry.
    RootNotFound,
    /// The root's match does not end on a component boundary.
    NotOnBoundary,
}

/// Projects `entry` from below `source` onto `destination`.
pub fn map_path(source: &str, destination: &str, entry: &str) -> (r: Result<String, MapFault>)
    ensures
        r matches Ok(q) ==> mapped(source@, destination@, entry@) == Some(q@),
        r is Err <==> mapped(source@, destination@, entry@) is None,
        r matches Err(MapFault::RootNotFound) <==> first_occurrence(entry@, source@) is None,
{
    let found = find(entry, source);
    let pos = match found {
        None => {
            return Err(MapFault::RootNotFound);
        },
        Some(pos) => pos,
    };
    proof {
        lemma_first_from_bounds(entry@, source@, 0);
    }
    let n = entry.unicode_len();
    let cut = pos + source.unicode_len();
    let ok = cut == n || entry.get_char(cut) == '/' || (cut > 0 && entry.get_char(cut - 1) == '/');
    if !ok {
        return Err(MapFault::NotOnBoundary);
    }
    let mut k: usize = cut;
    while k < n && entry.get_char(k) == '/'
        invariant
            cut <= k <= n == entry@.len(),
            strip_slashes(entry@.subrange(cut as int, n as int)) == strip_slashes(
                entry@.subrange(k as int, n as int),
            ),
        decreases n - k,
    {
        assert(entry@.subrange(k as int, n as int).drop_first() =~= entry@.subrange(k + 1, n as int));
        k = k + 1;
    }
    proof {
        lemma_strip_slashes(entry@.subrange(k as int, n as int));
    }
    let rel = entry.substring_char(k, n);
    let mut out = destination.to_owned();
    if k == n {
        return Ok(out);
    }
    let dn = destination.unicode_len();
    if dn == 0 || destination.get_char(dn - 1) != '/' {
        out.append("/");
        proof {
            reveal_strlit("/");
        }
    }
    out.append(rel);
    Ok(out)
}

/// The final component of `p`.
pub fn path_file_name(p: &str) -> (r: Option<String>)
    ensures
        r matches Some(s) ==> file_name(p@) == Some(s@),
        r is None <==> file_name(p@) is None,
{
    proof {
        lemma_last_slash_bounds(p@);
    }
    let n = p.unicode_len();
    let start = match find_last_slash(p) {
        Some(k) => k + 1,
        None => 0,
    };
    let name = p.substring_char(start, n);
    let len = n - start;
    if len == 0 {
        return None;
    }
    if name.get_char(0) == '.' {
        if len == 1 {
            assert(name@ =~= seq!['.']);
            return None;
        }
        if len == 2 && name.get_char(1) == '.' {
            assert(name@ =~= seq!['.', '.']);
            return None;
        }
    }
    assert(name@ != seq!['.'] && name@ != seq!['.', '.']) by {
        if name@ == seq!['.'] {
            assert(name@[0] == '.');
        }
        if name@ == seq!['.', '.'] {
            assert(name@[1] == '.');
        }
    }
    Some(name.to_owned())
}

/// `p` with its final component replaced by `name`.
pub fn path_with_file_name(p: &str, name: &str) -> (r: String)
    ensures
        r@ == with_file_name(p@, name@),
{
    proof {
        lemma_last_slash_bounds(p@);
    }
    let end = match find_last_slash(p) {
        Some(k) => k + 1,
        None => 0,
    };
    let mut out = p.substring_char(0, end).to_owned();
    out.append(name);
    out
}

/// The directory that holds `p`.
pub fn path_parent(p: &str) -> (r: Option<String>)
    ensures
        r matches Some(s) ==> parent(p@) == Some(s@),
        r is None <==> parent(p@) is None,
{
    proof {
        lemma_last_slash_bounds(p@);
    }
    let n = p.unicode_len();
    match find_last_slash(p) {
        None => None,
        Some(k) => {
            if n <= 1 {
                None
            } else if k == 0 {
                proof {
                    reveal_strlit("/");
                }
                Some("/".to_owned())
            } else {
                Some(p.substring_char(0, k).to_owned())
            }
        },
    }
}

proof fn lemma_prefix_first(d: Seq<char>, t: Seq<char>)
    ensures
        first_occurrence(d + t, d) == Some(0int),
{
    assert((d + t).subrange(0, d.len() as int) =~= d);
}

/// Mapping a path and taking it relative to the destination root gives the
/// path taken relative to the source root.
pub proof fn lemma_map_round_trip(source: Seq<char>, destination: Seq<char>, p: Seq<char>)
    requires
        relative(p, source) is Some,
    ensures
        mapped(source, destination, p) is Some,
        relative(mapped(source, destination, p).unwrap(), destination) == relative(p, source),
{
    let rel = relative(p, source).unwrap();
    lemma_strip_slashes(p.subrange(root_end(p, source), p.len() as int));
    let q = join(destination, rel);
    if rel.len() == 0 {
        lemma_prefix_first(destination, seq![]);
        assert(destination + seq![] =~= destination);
        assert(q.subrange(destination.len() as int, q.len() as int) =~= seq![]);
    } else if destination.len() > 0 && destination.last() == '/' {
        lemma_prefix_first(destination, rel);
        assert(q.subrange(destination.len() as int, q.len() as int) =~= rel);
        lemma_strip_slashes(rel);
    } else {
        let t = seq!['/'] + rel;
        lemma_prefix_first(destination, t);
        assert(q =~= destination + t);
        assert(q.subrange(destination.len() as int, q.len() as int) =~= t);
        assert(t.drop_first() =~= rel);
        lemma_strip_slashes(rel);
    }
}

} // verus!
