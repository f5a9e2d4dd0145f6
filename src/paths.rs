//! Text-level operations on path strings: substring and suffix tests,
//! component counting, component-wise prefix tests and ancestor arithmetic.
use vstd::prelude::*;
use vstd::string::*;

verus! {

/// `p` occurs in `s` starting at position `i`.
pub open spec fn occurs_at(s: Seq<char>, p: Seq<char>, i: int) -> bool {
    0 <= i && i + p.len() <= s.len() && s.subrange(i, i + p.len()) == p
}

/// `p` occurs somewhere in `s`.
pub open spec fn contains(s: Seq<char>, p: Seq<char>) -> bool {
    exists|i: int| occurs_at(s, p, i)
}

/// `s` ends with `p`.
pub open spec fn ends_with(s: Seq<char>, p: Seq<char>) -> bool {
    p.len() <= s.len() && occurs_at(s, p, s.len() - p.len())
}

/// Component count of a path: the root of an absolute path counts as one
/// component, and every maximal run of non-separator characters as one more.
pub open spec fn depth(s: Seq<char>) -> nat {
    (if absolute(s) {
        1nat
    } else {
        0nat
    }) + components_from(s, 0).len()
}

/// Length of `s[0..n]` once its trailing separators are removed.
pub open spec fn trimmed_len(s: Seq<char>, n: int) -> int
    decreases n,
{
    if n > 0 && s[n - 1] == '/' {
        trimmed_len(s, n - 1)
    } else {
        n
    }
}

/// Position of the last separator in `s[0..n]`, or -1.
pub open spec fn last_sep(s: Seq<char>, n: int) -> int
    decreases n,
{
    if n <= 0 {
        -1
    } else if s[n - 1] == '/' {
        n - 1
    } else {
        last_sep(s, n - 1)
    }
}

/// First separator at or after `i`, or the end of `s`.
pub open spec fn component_end(s: Seq<char>, i: int) -> int
    decreases s.len() - i,
{
    if 0 <= i < s.len() && s[i] != '/' {
        component_end(s, i + 1)
    } else {
        i
    }
}

/// The components of `s` from position `i` on: its maximal runs of
/// non-separator characters, in order.
pub open spec fn components_from(s: Seq<char>, i: int) -> Seq<Seq<char>>
    decreases s.len() - i,
{
    let b = skip_seps(s, i);
    let e = component_end(s, b);
    if i < 0 || b >= s.len() || b < i || e <= b || e > s.len() {
        Seq::empty()
    } else {
        seq![s.subrange(b, e)] + components_from(s, e)
    }
}

/// `a` is a prefix of `b`.
pub open spec fn is_prefix<A>(a: Seq<A>, b: Seq<A>) -> bool {
    a.len() <= b.len() && b.subrange(0, a.len() as int) == a
}

/// The path starts at the root directory.
pub open spec fn absolute(s: Seq<char>) -> bool {
    s.len() > 0 && s[0] == '/'
}

/// `p` lies at or below the directory `root`, compared component by component:
/// both are absolute or both relative, and the list of components of `root`
/// is a prefix of the list of components of `p`, so `/home` covers `/home`
/// and `/home//u` but not `/home2`. The empty path is a prefix of every path.
pub open spec fn is_under(p: Seq<char>, root: Seq<char>) -> bool {
    root.len() == 0 || (absolute(p) == absolute(root) && is_prefix(
        components_from(root, 0),
        components_from(p, 0),
    ))
}

/// Length of the parent of the path `s[0..n]`: `None` for the root, for the
/// empty path and for a single relative component.
pub open spec fn parent_len(s: Seq<char>, n: int) -> Option<int> {
    let t = trimmed_len(s, n);
    let j = last_sep(s, t);
    if t == 0 || j < 0 {
        None
    } else if j == 0 {
        Some(1)
    } else {
        Some(j)
    }
}

/// First position at or after `i` that is not a separator.
pub open spec fn skip_seps(s: Seq<char>, i: int) -> int
    decreases s.len() - i,
{
    if 0 <= i < s.len() && s[i] == '/' {
        skip_seps(s, i + 1)
    } else {
        i
    }
}

/// `base` with the relative path `rest` appended, one separator between them.
pub open spec fn joined(base: Seq<char>, rest: Seq<char>) -> Seq<char> {
    if rest.len() == 0 {
        base
    } else if base.len() > 0 && base.last() == '/' {
        base + rest
    } else {
        base + seq!['/'] + rest
    }
}

proof fn lemma_skip_seps(s: Seq<char>, i: int)
    requires
        0 <= i,
    ensures
        i <= skip_seps(s, i),
        i <= s.len() ==> skip_seps(s, i) <= s.len(),
        skip_seps(s, i) < s.len() ==> s[skip_seps(s, i)] != '/',
    decreases s.len() - i,
{
    if 0 <= i < s.len() && s[i] == '/' {
        lemma_skip_seps(s, i + 1);
    }
}

proof fn lemma_component_end(s: Seq<char>, i: int)
    requires
        0 <= i <= s.len(),
    ensures
        i <= component_end(s, i) <= s.len(),
        i < s.len() && s[i] != '/' ==> component_end(s, i) > i,
    decreases s.len() - i,
{
    if i < s.len() && s[i] != '/' {
        lemma_component_end(s, i + 1);
    }
}

/// One step of comparing component lists: the components of `root` from `j`
/// are a prefix of those of `p` from `i` when `root` has none left, not when
/// `p` has none left, and otherwise when the next components agree and the
/// rest is again a prefix.
proof fn lemma_prefix_step(p: Seq<char>, i: int, root: Seq<char>, j: int)
    requires
        0 <= i <= p.len(),
        0 <= j <= root.len(),
    ensures
        skip_seps(root, j) >= root.len() ==> is_prefix(components_from(root, j), components_from(p, i)),
        skip_seps(root, j) < root.len() && skip_seps(p, i) >= p.len() ==> !is_prefix(
            components_from(root, j),
            components_from(p, i),
        ),
        skip_seps(root, j) < root.len() && skip_seps(p, i) < p.len() ==> (is_prefix(
            components_from(root, j),
            components_from(p, i),
        ) == (p.subrange(skip_seps(p, i), component_end(p, skip_seps(p, i))) == root.subrange(
            skip_seps(root, j),
            component_end(root, skip_seps(root, j)),
        ) && is_prefix(
            components_from(root, component_end(root, skip_seps(root, j))),
            components_from(p, component_end(p, skip_seps(p, i))),
        ))),
{
    lemma_skip_seps(p, i);
    lemma_skip_seps(root, j);
    let i2 = skip_seps(p, i);
    let j2 = skip_seps(root, j);
    if j2 >= root.len() {
        assert(components_from(root, j) =~= Seq::<Seq<char>>::empty());
        assert(components_from(p, i).subrange(0, 0) =~= Seq::<Seq<char>>::empty());
    } else if i2 >= p.len() {
        lemma_component_end(root, j2);
        assert(components_from(p, i) =~= Seq::<Seq<char>>::empty());
    } else {
        lemma_component_end(p, i2);
        lemma_component_end(root, j2);
        let e1 = component_end(p, i2);
        let e2 = component_end(root, j2);
        let rs = components_from(root, j);
        let ps = components_from(p, i);
        let rt = components_from(root, e2);
        let pt = components_from(p, e1);
        assert(rs == seq![root.subrange(j2, e2)] + rt);
        assert(ps == seq![p.subrange(i2, e1)] + pt);
        assert(rs.drop_first() =~= rt);
        assert(ps.drop_first() =~= pt);
        if is_prefix(rs, ps) {
            assert(ps[0] == ps.subrange(0, rs.len() as int)[0]);
            assert(pt.subrange(0, rt.len() as int) =~= ps.subrange(0, rs.len() as int).drop_first());
        }
        if p.subrange(i2, e1) == root.subrange(j2, e2) && is_prefix(rt, pt) {
            assert(ps.subrange(0, rs.len() as int) =~= rs);
        }
    }
}

proof fn lemma_trimmed_len_bounds(s: Seq<char>, n: int)
    requires
        0 <= n <= s.len(),
    ensures
        0 <= trimmed_len(s, n) <= n,
        trimmed_len(s, n) > 0 ==> s[trimmed_len(s, n) - 1] != '/',
    decreases n,
{
    if n > 0 && s[n - 1] == '/' {
        lemma_trimmed_len_bounds(s, n - 1);
    }
}

proof fn lemma_last_sep_bounds(s: Seq<char>, n: int)
    requires
        0 <= n <= s.len(),
    ensures
        -1 <= last_sep(s, n) < n,
        last_sep(s, n) >= 0 ==> s[last_sep(s, n)] == '/',
    decreases n,
{
    if n > 0 && s[n - 1] != '/' {
        lemma_last_sep_bounds(s, n - 1);
    }
}

proof fn lemma_components_step(s: Seq<char>, i: int)
    requires
        0 <= i <= s.len(),
    ensures
        skip_seps(s, i) >= s.len() ==> components_from(s, i).len() == 0,
        skip_seps(s, i) < s.len() ==> components_from(s, i).len() == 1 + components_from(
            s,
            component_end(s, skip_seps(s, i)),
        ).len(),
{
    lemma_skip_seps(s, i);
    if skip_seps(s, i) < s.len() {
        lemma_component_end(s, skip_seps(s, i));
    }
}

/// Whether `p` occurs in `s` at position `i`.
pub fn matches_at(s: &str, p: &str, i: usize) -> (r: bool)
    requires
        i <= s@.len(),
    ensures
        r == occurs_at(s@, p@, i as int),
{
    let slen = s.unicode_len();
    let plen = p.unicode_len();
    if plen > slen - i {
        return false;
    }
    let mut j: usize = 0;
    while j < plen
        invariant
            slen == s@.len(),
            plen == p@.len(),
            i + plen <= slen,
            j <= plen,
            forall|k: int| 0 <= k < j ==> s@[i + k] == p@[k],
        decreases plen - j,
    {
        if s.get_char(i + j) != p.get_char(j) {
            assert(s@.subrange(i as int, i + plen)[j as int] != p@[j as int]);
            return false;
        }
        j = j + 1;
    }
    assert(s@.subrange(i as int, i + plen) =~= p@);
    true
}

/// Whether `p` occurs anywhere in `s`.
pub fn str_contains(s: &str, p: &str) -> (r: bool)
    ensures
        r == contains(s@, p@),
{
    let slen = s.unicode_len();
    let plen = p.unicode_len();
    if plen > slen {
        return false;
    }
    let last = slen - plen;
    let mut i: usize = 0;
    loop
        invariant
            slen == s@.len(),
            plen == p@.len(),
            last == slen - plen,
            i <= last,
            forall|k: int| 0 <= k < i ==> !occurs_at(s@, p@, k),
        decreases last - i,
    {
        if matches_at(s, p, i) {
            return true;
        }
        if i == last {
            assert forall|k: int| !occurs_at(s@, p@, k) by {
                if occurs_at(s@, p@, k) {
                    assert(k <= last);
                }
            }
            return false;
        }
        i = i + 1;
    }
}

/// Whether `s` ends with `p`.
pub fn str_ends_with(s: &str, p: &str) -> (r: bool)
    ensures
        r == ends_with(s@, p@),
{
    let slen = s.unicode_len();
    let plen = p.unicode_len();
    if plen > slen {
        return false;
    }
    matches_at(s, p, slen - plen)
}

/// Number of components of the path `s`.
pub fn path_depth(s: &str) -> (r: usize)
    ensures
        r == depth(s@),
{
    let n = s.unicode_len();
    let abs = n > 0 && s.get_char(0) == '/';
    let mut count: usize = 0;
    let mut i: usize = 0;
    loop
        invariant
            n == s@.len(),
            i <= n,
            abs == absolute(s@),
            count + components_from(s@, i as int).len() == components_from(s@, 0).len(),
            count <= i,
            abs && i > 0 ==> count < i,
        ensures
            count == components_from(s@, 0).len(),
            abs && n > 0 ==> count < n,
        decreases n - i,
    {
        proof {
            lemma_components_step(s@, i as int);
        }
        let b = skip_separators(s, i);
        if b >= n {
            proof {
                if abs && i == 0 {
                    assert(b > 0);
                }
            }
            break;
        }
        let e = end_of_component(s, b);
        proof {
            if abs && i == 0 {
                assert(b > 0);
            }
        }
        count = count + 1;
        i = e;
    }
    if abs {
        count + 1
    } else {
        count
    }
}

/// Length of `s[0..n]` without its trailing separators.
pub fn trim_separators(s: &str, n: usize) -> (r: usize)
    requires
        n <= s@.len(),
    ensures
        r == trimmed_len(s@, n as int),
{
    let mut k = n;
    while k > 0 && s.get_char(k - 1) == '/'
        invariant
            k <= n <= s@.len(),
            trimmed_len(s@, k as int) == trimmed_len(s@, n as int),
        decreases k,
    {
        k = k - 1;
    }
    k
}

/// Position of the last separator in `s[0..n]`, if there is one.
pub fn last_separator(s: &str, n: usize) -> (r: Option<usize>)
    requires
        n <= s@.len(),
    ensures
        match r {
            Some(j) => last_sep(s@, n as int) == j as int,
            None => last_sep(s@, n as int) == -1,
        },
{
    let mut k = n;
    while k > 0
        invariant
            k <= n <= s@.len(),
            last_sep(s@, k as int) == last_sep(s@, n as int),
        decreases k,
    {
        if s.get_char(k - 1) == '/' {
            return Some(k - 1);
        }
        k = k - 1;
    }
    None
}

/// First separator at or after `i`, or the end of `s`.
pub fn end_of_component(s: &str, i: usize) -> (r: usize)
    requires
        i <= s@.len(),
    ensures
        r == component_end(s@, i as int),
        i <= r <= s@.len(),
        i < s@.len() && s@[i as int] != '/' ==> r > i,
{
    let n = s.unicode_len();
    let mut k = i;
    while k < n && s.get_char(k) != '/'
        invariant
            n == s@.len(),
            i <= k <= n,
            component_end(s@, k as int) == component_end(s@, i as int),
        decreases n - k,
    {
        k = k + 1;
    }
    k
}

/// Whether the path `p` lies at or below the directory `root`, component-wise.
pub fn path_is_under(p: &str, root: &str) -> (r: bool)
    ensures
        r == is_under(p@, root@),
{
    let plen = p.unicode_len();
    let rlen = root.unicode_len();
    if rlen == 0 {
        return true;
    }
    let p_abs = plen > 0 && p.get_char(0) == '/';
    if p_abs != (root.get_char(0) == '/') {
        return false;
    }
    let mut i: usize = 0;
    let mut j: usize = 0;
    loop
        invariant
            plen == p@.len(),
            rlen == root@.len(),
            i <= plen,
            j <= rlen,
            rlen > 0,
            absolute(p@) == absolute(root@),
            is_prefix(components_from(root@, j as int), components_from(p@, i as int)) == is_prefix(
                components_from(root@, 0),
                components_from(p@, 0),
            ),
        decreases rlen - j,
    {
        proof {
            lemma_prefix_step(p@, i as int, root@, j as int);
        }
        let i2 = skip_separators(p, i);
        let j2 = skip_separators(root, j);
        if j2 >= rlen {
            return true;
        }
        if i2 >= plen {
            return false;
        }
        let e1 = end_of_component(p, i2);
        let e2 = end_of_component(root, j2);
        let same = e1 - i2 == e2 - j2 && matches_at(p, root.substring_char(j2, e2), i2);
        if !same {
            proof {
                if p@.subrange(i2 as int, e1 as int) == root@.subrange(j2 as int, e2 as int) {
                    assert(p@.subrange(i2 as int, e1 as int).len() == root@.subrange(j2 as int, e2 as int).len());
                }
            }
            return false;
        }
        assert(p@.subrange(i2 as int, e1 as int) =~= root@.subrange(j2 as int, e2 as int));
        i = e1;
        j = e2;
    }
}

/// Length of the parent of the path `s[0..n]`, if it has one; the parent is
/// always strictly shorter.
pub fn parent_length(s: &str, n: usize) -> (r: Option<usize>)
    requires
        n <= s@.len(),
    ensures
        match r {
            Some(k) => parent_len(s@, n as int) == Some(k as int) && 0 < k < n,
            None => parent_len(s@, n as int) is None,
        },
{
    let t = trim_separators(s, n);
    proof {
        lemma_trimmed_len_bounds(s@, n as int);
        lemma_last_sep_bounds(s@, t as int);
    }
    if t == 0 {
        return None;
    }
    match last_separator(s, t) {
        None => None,
        Some(j) => {
            if j == 0 {
                Some(1)
            } else {
                Some(j)
            }
        },
    }
}

/// Position of the first non-separator at or after `i`.
pub fn skip_separators(s: &str, i: usize) -> (r: usize)
    requires
        i <= s@.len(),
    ensures
        r == skip_seps(s@, i as int),
        i <= r <= s@.len(),
        r < s@.len() ==> s@[r as int] != '/',
{
    let n = s.unicode_len();
    let mut k = i;
    while k < n && s.get_char(k) == '/'
        invariant
            n == s@.len(),
            i <= k <= n,
            skip_seps(s@, k as int) == skip_seps(s@, i as int),
        decreases n - k,
    {
        k = k + 1;
    }
    k
}

/// `base` with `rest` appended, one separator between them.
pub fn join_path(base: String, rest: &str) -> (r: String)
    ensures
        r@ == joined(base@, rest@),
{
    if rest.unicode_len() == 0 {
        return base;
    }
    let blen = base.as_str().unicode_len();
    if blen > 0 && base.as_str().get_char(blen - 1) == '/' {
        base.concat(rest)
    } else {
        let sep = "/";
        proof {
            reveal_strlit("/");
        }
        base.concat(sep).concat(rest)
    }
}

} // verus!
