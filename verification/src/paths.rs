use vstd::prelude::*;

verus! {

// A path is modelled as its sequence of components: the non-empty segments
// between `/` separators, with `.` segments dropped (they name the directory
// they stand in). Whether the path is absolute is carried separately: the
// leading `/` is not a component. `..` is kept as an ordinary component and
// only resolved by `spec_normalize`.

/// The component `.`.
pub open spec fn dot_comp() -> Seq<char> {
    seq!['.']
}

/// The component `..`.
pub open spec fn parent_comp() -> Seq<char> {
    seq!['.', '.']
}

/// Index of the first `/` in `s`, or `s.len()` if there is none.
pub open spec fn first_slash(s: Seq<char>) -> int
    decreases s.len(),
{
    if s.len() == 0 {
        0
    } else if s[0] == '/' {
        0
    } else {
        1 + first_slash(s.drop_first())
    }
}

pub proof fn lemma_first_slash(s: Seq<char>)
    ensures
        0 <= first_slash(s) <= s.len(),
        forall|j: int| 0 <= j < first_slash(s) ==> s[j] != '/',
        first_slash(s) < s.len() ==> s[first_slash(s)] == '/',
    decreases s.len(),
{
    if s.len() == 0 {
    } else if s[0] == '/' {
    } else {
        lemma_first_slash(s.drop_first());
        assert forall|j: int| 0 <= j < first_slash(s) implies s[j] != '/' by {
            if j > 0 {
                assert(s.drop_first()[j - 1] != '/');
            }
        }
    }
}

/// If a position scan shows no `/` before `m` and a `/` (or the end) at `m`,
/// then `m` is exactly `first_slash(s)`.
pub proof fn lemma_first_slash_at(s: Seq<char>, m: int)
    requires
        0 <= m <= s.len(),
        forall|j: int| 0 <= j < m ==> s[j] != '/',
        m < s.len() ==> s[m] == '/',
    ensures
        first_slash(s) == m,
    decreases s.len(),
{
    if s.len() == 0 {
    } else if s[0] == '/' {
        assert(m == 0);
    } else {
        assert(m >= 1);
        let t = s.drop_first();
        assert forall|j: int| 0 <= j < m - 1 implies t[j] != '/' by {
            assert(s[j + 1] != '/');
        }
        lemma_first_slash_at(t, m - 1);
    }
}

/// The components of a path string.
pub open spec fn spec_components(s: Seq<char>) -> Seq<Seq<char>>
    decreases s.len(),
    via spec_components_decreases
{
    if s.len() == 0 {
        Seq::empty()
    } else if s[0] == '/' {
        spec_components(s.drop_first())
    } else {
        let m = first_slash(s);
        let seg = s.take(m);
        let rest = spec_components(s.skip(m));
        if seg == dot_comp() {
            rest
        } else {
            seq![seg] + rest
        }
    }
}

#[via_fn]
proof fn spec_components_decreases(s: Seq<char>) {
    if s.len() > 0 && s[0] != '/' {
        lemma_first_slash(s);
        assert(first_slash(s) >= 1);
    }
}

/// A path string is absolute when it starts with `/`.
pub open spec fn spec_is_absolute(s: Seq<char>) -> bool {
    s.len() > 0 && s[0] == '/'
}

/// A well-formed component: non-empty, holds no separator, and is not `.`.
/// (`..` is well-formed; it is resolved only by normalization.)
pub open spec fn wf_comp(c: Seq<char>) -> bool {
    &&& c.len() > 0
    &&& forall|j: int| 0 <= j < c.len() ==> c[j] != '/'
    &&& c != dot_comp()
}

pub open spec fn wf_comps(cs: Seq<Seq<char>>) -> bool {
    forall|i: int| 0 <= i < cs.len() ==> wf_comp(#[trigger] cs[i])
}

/// No component is `..`.
pub open spec fn no_parent(cs: Seq<Seq<char>>) -> bool {
    forall|i: int| 0 <= i < cs.len() ==> #[trigger] cs[i] != parent_comp()
}

/// Every component a split produces is well-formed.
pub proof fn lemma_components_wf(s: Seq<char>)
    ensures
        wf_comps(spec_components(s)),
    decreases s.len(),
{
    if s.len() == 0 {
    } else if s[0] == '/' {
        lemma_components_wf(s.drop_first());
    } else {
        let m = first_slash(s);
        lemma_first_slash(s);
        lemma_components_wf(s.skip(m));
        let seg = s.take(m);
        let rest = spec_components(s.skip(m));
        if seg == dot_comp() {
        } else {
            assert(wf_comp(seg)) by {
                assert(m >= 1);
                assert(forall|j: int| 0 <= j < m ==> s[j] != '/');
                assert(forall|j: int| 0 <= j < seg.len() ==> seg[j] != '/');
            }
            assert forall|i: int| 0 <= i < (seq![seg] + rest).len()
                implies wf_comp(#[trigger] (seq![seg] + rest)[i]) by {
                if i > 0 {
                    assert((seq![seg] + rest)[i] == rest[i - 1]);
                }
            }
        }
    }
}

/// Dropping a leading `/` does not change the components.
pub proof fn lemma_components_skip_slash(s: Seq<char>, i: int)
    requires
        0 <= i < s.len(),
        s[i] == '/',
    ensures
        spec_components(s.skip(i)) == spec_components(s.skip(i + 1)),
{
    let t = s.skip(i);
    assert(t.len() > 0);
    assert(t[0] == '/');
    assert(t.drop_first() =~= s.skip(i + 1));
}

/// Joining relative components with `/`.
pub open spec fn spec_join_rel(cs: Seq<Seq<char>>) -> Seq<char>
    decreases cs.len(),
{
    if cs.len() == 0 {
        Seq::empty()
    } else if cs.len() == 1 {
        cs[0]
    } else {
        cs[0] + seq!['/'] + spec_join_rel(cs.drop_first())
    }
}

/// Joining components into an absolute path string. The empty sequence is
/// the root `/` itself.
pub open spec fn spec_join_abs(cs: Seq<Seq<char>>) -> Seq<char> {
    if cs.len() == 0 {
        seq!['/']
    } else {
        seq!['/'] + spec_join_rel(cs)
    }
}

/// Appending one more component to a relative join.
pub proof fn lemma_join_rel_push(cs: Seq<Seq<char>>, c: Seq<char>)
    ensures
        spec_join_rel(cs.push(c)) == if cs.len() == 0 {
            c
        } else {
            spec_join_rel(cs) + seq!['/'] + c
        },
    decreases cs.len(),
{
    if cs.len() == 0 {
        assert(cs.push(c).len() == 1);
        assert(cs.push(c)[0] == c);
    } else if cs.len() == 1 {
        let p = cs.push(c);
        assert(p.len() == 2);
        assert(p[0] == cs[0]);
        assert(p.drop_first() =~= seq![c]);
        assert(seq![c].len() == 1);
        assert(spec_join_rel(seq![c]) == c);
        assert(spec_join_rel(p) == cs[0] + seq!['/'] + c);
        assert(spec_join_rel(cs) == cs[0]);
    } else {
        let p = cs.push(c);
        assert(p.drop_first() =~= cs.drop_first().push(c));
        lemma_join_rel_push(cs.drop_first(), c);
        assert(spec_join_rel(p) == p[0] + seq!['/'] + spec_join_rel(cs.drop_first().push(c)));
        assert(p[0] == cs[0]);
        assert(spec_join_rel(cs.drop_first()).len() >= 0);
        assert(spec_join_rel(p) == cs[0] + seq!['/'] + (spec_join_rel(cs.drop_first()) + seq![
            '/',
        ] + c)) by {
            assert(cs.drop_first().len() > 0);
        }
        assert(cs[0] + seq!['/'] + (spec_join_rel(cs.drop_first()) + seq!['/'] + c) =~= (cs[0]
            + seq!['/'] + spec_join_rel(cs.drop_first())) + seq!['/'] + c);
    }
}

/// Splitting a relative join of well-formed components gives them back.
pub proof fn lemma_components_of_join_rel(cs: Seq<Seq<char>>)
    requires
        wf_comps(cs),
    ensures
        spec_components(spec_join_rel(cs)) == cs,
    decreases cs.len(),
{
    if cs.len() == 0 {
        assert(spec_components(spec_join_rel(cs)) =~= cs);
    } else if cs.len() == 1 {
        let s = cs[0];
        assert(wf_comp(s));
        assert(s.len() > 0);
        assert(s[0] != '/');
        lemma_first_slash_at(s, s.len() as int);
        let seg = s.take(s.len() as int);
        assert(seg =~= s);
        let rem = s.skip(s.len() as int);
        assert(rem =~= Seq::<char>::empty());
        assert(spec_components(rem) =~= Seq::<Seq<char>>::empty());
        assert(seg != dot_comp());
        assert(spec_components(s) == seq![seg] + spec_components(rem));
        assert(seq![seg] + spec_components(rem) =~= seq![s]);
        assert(spec_components(spec_join_rel(cs)) =~= cs);
    } else {
        let s = spec_join_rel(cs);
        let h = cs[0];
        let t = spec_join_rel(cs.drop_first());
        assert(s == h + seq!['/'] + t);
        assert(wf_comp(h));
        let hl = h.len() as int;
        assert(s.len() == hl + 1 + t.len());
        assert forall|j: int| 0 <= j < hl implies s[j] != '/' by {
            assert(s[j] == h[j]);
        }
        assert(s[hl] == '/');
        lemma_first_slash_at(s, hl);
        assert(s.len() > 0);
        assert(s[0] == h[0]);
        assert(s[0] != '/');
        let seg = s.take(hl);
        assert(seg =~= h);
        assert(seg != dot_comp());
        let rem = s.skip(hl);
        assert(rem.len() > 0);
        assert(rem[0] == '/');
        assert(rem.drop_first() =~= t);
        lemma_components_of_join_rel(cs.drop_first());
        assert(spec_components(rem) == spec_components(t));
        assert(spec_components(s) == seq![h] + cs.drop_first());
        assert(seq![h] + cs.drop_first() =~= cs);
    }
}

/// Splitting an absolute join of well-formed components gives them back.
pub proof fn lemma_components_of_join_abs(cs: Seq<Seq<char>>)
    requires
        wf_comps(cs),
    ensures
        spec_components(spec_join_abs(cs)) == cs,
        spec_is_absolute(spec_join_abs(cs)),
{
    let s = spec_join_abs(cs);
    assert(s.len() > 0);
    assert(s[0] == '/');
    if cs.len() == 0 {
        assert(s.drop_first() =~= Seq::<char>::empty());
        assert(spec_components(Seq::<char>::empty()) =~= Seq::<Seq<char>>::empty());
        assert(spec_components(s) == spec_components(s.drop_first()));
        assert(spec_components(s) =~= cs);
    } else {
        assert(s == seq!['/'] + spec_join_rel(cs));
        assert(s.drop_first() =~= spec_join_rel(cs));
        lemma_components_of_join_rel(cs);
    }
}

/// Resolving `..` components, with absolute-path semantics: a `..` at the
/// root stays at the root. The result never holds a `..`.
pub open spec fn spec_normalize(cs: Seq<Seq<char>>) -> Seq<Seq<char>>
    decreases cs.len(),
{
    if cs.len() == 0 {
        Seq::empty()
    } else {
        let p = spec_normalize(cs.drop_last());
        if cs.last() == parent_comp() {
            if p.len() == 0 {
                p
            } else {
                p.drop_last()
            }
        } else {
            p.push(cs.last())
        }
    }
}

/// Normalization keeps only components of the input, so well-formedness is
/// kept, and it never leaves a `..` behind.
pub proof fn lemma_normalize_wf(cs: Seq<Seq<char>>)
    ensures
        no_parent(spec_normalize(cs)),
        wf_comps(cs) ==> wf_comps(spec_normalize(cs)),
        spec_normalize(cs).len() <= cs.len(),
    decreases cs.len(),
{
    if cs.len() == 0 {
    } else {
        lemma_normalize_wf(cs.drop_last());
        let p = spec_normalize(cs.drop_last());
        if cs.last() == parent_comp() {
        } else {
            let r = p.push(cs.last());
            assert forall|i: int| 0 <= i < r.len() implies #[trigger] r[i] != parent_comp() by {
                if i < p.len() {
                    assert(r[i] == p[i]);
                }
            }
            if wf_comps(cs) {
                assert(wf_comp(cs.last()));
                assert forall|i: int| 0 <= i < r.len() implies wf_comp(#[trigger] r[i]) by {
                    if i < p.len() {
                        assert(r[i] == p[i]);
                    }
                }
            }
        }
    }
}

/// A sequence without `..` normalizes to itself.
pub proof fn lemma_normalize_no_parent(cs: Seq<Seq<char>>)
    requires
        no_parent(cs),
    ensures
        spec_normalize(cs) == cs,
    decreases cs.len(),
{
    if cs.len() == 0 {
        assert(spec_normalize(cs) =~= cs);
    } else {
        assert(no_parent(cs.drop_last())) by {
            assert(forall|i: int| 0 <= i < cs.drop_last().len() ==> cs.drop_last()[i] == cs[i]);
        }
        lemma_normalize_no_parent(cs.drop_last());
        assert(cs.last() != parent_comp());
        assert(cs.drop_last().push(cs.last()) =~= cs);
    }
}

/// Appending components free of `..` just extends the normal form.
pub proof fn lemma_normalize_append_no_parent(x: Seq<Seq<char>>, t: Seq<Seq<char>>)
    requires
        no_parent(t),
    ensures
        spec_normalize(x + t) == spec_normalize(x) + t,
    decreases t.len(),
{
    if t.len() == 0 {
        assert(x + t =~= x);
        assert(spec_normalize(x) + t =~= spec_normalize(x));
    } else {
        let t0 = t.drop_last();
        assert(no_parent(t0)) by {
            assert(forall|i: int| 0 <= i < t0.len() ==> t0[i] == t[i]);
        }
        lemma_normalize_append_no_parent(x, t0);
        let w = x + t;
        assert(w.len() > 0);
        assert(w.last() == t.last());
        assert(w.drop_last() =~= x + t0);
        assert(t.last() != parent_comp());
        assert(spec_normalize(w) == (spec_normalize(x) + t0).push(t.last()));
        assert((spec_normalize(x) + t0).push(t.last()) =~= spec_normalize(x) + t);
    }
}

/// A run of `k` components `..`.
pub open spec fn repeat_parent(k: int) -> Seq<Seq<char>>
    decreases k,
{
    if k <= 0 {
        Seq::empty()
    } else {
        repeat_parent(k - 1).push(parent_comp())
    }
}

pub proof fn lemma_repeat_parent_len(k: int)
    ensures
        repeat_parent(k).len() == if k <= 0 {
            0
        } else {
            k
        },
        forall|i: int| 0 <= i < repeat_parent(k).len() ==> repeat_parent(k)[i] == parent_comp(),
    decreases k,
{
    if k > 0 {
        lemma_repeat_parent_len(k - 1);
    }
}

/// Climbing `k` levels with `..` removes the last `k` components of a
/// `..`-free base.
pub proof fn lemma_normalize_climb(b: Seq<Seq<char>>, k: int)
    requires
        no_parent(b),
        0 <= k <= b.len(),
    ensures
        spec_normalize(b + repeat_parent(k)) == b.take(b.len() - k),
    decreases k,
{
    lemma_repeat_parent_len(k);
    if k == 0 {
        assert(b + repeat_parent(0) =~= b);
        lemma_normalize_no_parent(b);
        assert(b.take(b.len() as int) =~= b);
    } else {
        lemma_repeat_parent_len(k - 1);
        lemma_normalize_climb(b, k - 1);
        let w = b + repeat_parent(k);
        assert(w.len() == b.len() + k);
        assert(w.last() == repeat_parent(k).last());
        assert(repeat_parent(k).last() == parent_comp());
        assert(w.drop_last() =~= b + repeat_parent(k - 1));
        let p = spec_normalize(b + repeat_parent(k - 1));
        assert(p == b.take(b.len() - (k - 1)));
        assert(p.len() == b.len() - k + 1 > 0);
        assert(spec_normalize(w) == p.drop_last());
        assert(p.drop_last() =~= b.take(b.len() - k));
    }
}

/// The length of the longest common prefix of two component sequences.
pub open spec fn common_len(a: Seq<Seq<char>>, b: Seq<Seq<char>>) -> int
    decreases a.len(),
{
    if a.len() == 0 || b.len() == 0 || a[0] != b[0] {
        0
    } else {
        1 + common_len(a.drop_first(), b.drop_first())
    }
}

pub proof fn lemma_common_len(a: Seq<Seq<char>>, b: Seq<Seq<char>>)
    ensures
        0 <= common_len(a, b) <= a.len(),
        common_len(a, b) <= b.len(),
        a.take(common_len(a, b)) == b.take(common_len(a, b)),
        common_len(a, b) < a.len() && common_len(a, b) < b.len() ==> a[common_len(a, b)]
            != b[common_len(a, b)],
    decreases a.len(),
{
    if a.len() == 0 || b.len() == 0 || a[0] != b[0] {
        assert(a.take(0) =~= b.take(0));
    } else {
        lemma_common_len(a.drop_first(), b.drop_first());
        let c = common_len(a, b);
        assert(c == 1 + common_len(a.drop_first(), b.drop_first()));
        assert(a.drop_first().take(c - 1) == b.drop_first().take(c - 1));
        assert(a.take(c) =~= seq![a[0]] + a.drop_first().take(c - 1));
        assert(b.take(c) =~= seq![b[0]] + b.drop_first().take(c - 1));
        if c < a.len() && c < b.len() {
            assert(a[c] == a.drop_first()[c - 1]);
            assert(b[c] == b.drop_first()[c - 1]);
        }
    }
}

/// The views of a sequence of strings: each as its character sequence.
pub open spec fn views(v: Seq<String>) -> Seq<Seq<char>> {
    v.map_values(|x: String| x@)
}

/// Whether a path string is absolute.
pub fn is_absolute(s: &str) -> (b: bool)
    ensures
        b == spec_is_absolute(s@),
{
    s.unicode_len() > 0 && s.get_char(0) == '/'
}

/// Splits a path string into its components.
pub fn split_components(s: &str) -> (r: Vec<String>)
    ensures
        views(r@) == spec_components(s@),
{
    let n = s.unicode_len();
    let mut r: Vec<String> = Vec::new();
    let mut i: usize = 0;
    proof {
        assert(s@.skip(0) =~= s@);
        assert(views(r@) + spec_components(s@.skip(0)) =~= spec_components(s@));
    }
    while i < n
        invariant
            i <= n,
            n == s@.len(),
            views(r@) + spec_components(s@.skip(i as int)) == spec_components(s@),
        decreases n - i,
    {
        if s.get_char(i) == '/' {
            proof {
                lemma_components_skip_slash(s@, i as int);
            }
            i = i + 1;
        } else {
            let start = i;
            i = i + 1;
            while i < n && s.get_char(i) != '/'
                invariant
                    start < i <= n,
                    n == s@.len(),
                    forall|j: int| start <= j < i ==> s@[j] != '/',
                decreases n - i,
            {
                i = i + 1;
            }
            let seg = s.substring_char(start, i);
            let is_dot = seg.unicode_len() == 1 && seg.get_char(0) == '.';
            proof {
                let t = s@.skip(start as int);
                let m = i - start as int;
                assert forall|j: int| 0 <= j < m implies t[j] != '/' by {
                    assert(t[j] == s@[start + j]);
                }
                if i < n {
                    assert(t[m] == s@[i as int]);
                }
                lemma_first_slash_at(t, m);
                assert(t.take(m) =~= s@.subrange(start as int, i as int));
                assert(t.take(m) == seg@);
                assert(t.skip(m) =~= s@.skip(i as int));
                if is_dot {
                    assert(seg@ =~= dot_comp());
                    assert(spec_components(t) == spec_components(s@.skip(i as int)));
                } else {
                    assert(seg@ != dot_comp()) by {
                        if seg@ == dot_comp() {
                            assert(seg@.len() == 1);
                            assert(seg@[0] == '.');
                        }
                    }
                    assert(spec_components(t) == seq![seg@] + spec_components(s@.skip(i as int)));
                }
            }
            if !is_dot {
                let ghost old_r = r@;
                r.push(String::from_str(seg));
                proof {
                    assert(views(r@) =~= views(old_r).push(seg@));
                    assert(views(old_r).push(seg@) + spec_components(s@.skip(i as int)) =~= views(
                        old_r,
                    ) + (seq![seg@] + spec_components(s@.skip(i as int))));
                }
            }
        }
    }
    proof {
        assert(s@.skip(n as int) =~= Seq::<char>::empty());
        assert(spec_components(Seq::<char>::empty()) =~= Seq::<Seq<char>>::empty());
        assert(views(r@) + Seq::<Seq<char>>::empty() =~= views(r@));
    }
    r
}

/// Joins components into a relative path string, `/`-separated.
pub fn join_relative(comps: &Vec<String>) -> (r: String)
    ensures
        r@ == spec_join_rel(views(comps@)),
{
    let mut r = String::new();
    let n = comps.len();
    let mut k: usize = 0;
    proof {
        assert(views(comps@).take(0) =~= Seq::<Seq<char>>::empty());
    }
    while k < n
        invariant
            k <= n,
            n == comps@.len(),
            r@ == spec_join_rel(views(comps@).take(k as int)),
        decreases n - k,
    {
        if k > 0 {
            r.append("/");
        }
        r.append(comps[k].as_str());
        proof {
            reveal_strlit("/");
            assert("/"@ =~= seq!['/']);
            let cs = views(comps@).take(k as int);
            lemma_join_rel_push(cs, comps@[k as int]@);
            assert(views(comps@).take(k + 1) =~= cs.push(comps@[k as int]@));
            if k == 0 {
                assert(r@ =~= comps@[k as int]@);
            } else {
                assert(r@ =~= spec_join_rel(cs) + seq!['/'] + comps@[k as int]@);
            }
        }
        k = k + 1;
    }
    proof {
        assert(views(comps@).take(n as int) =~= views(comps@));
    }
    r
}

/// Joins components into an absolute path string; no components is `/`.
pub fn join_absolute(comps: &Vec<String>) -> (r: String)
    ensures
        r@ == spec_join_abs(views(comps@)),
{
    let mut r = String::from_str("/");
    let rel = join_relative(comps);
    r.append(rel.as_str());
    proof {
        reveal_strlit("/");
        assert("/"@ =~= seq!['/']);
        if comps@.len() == 0 {
            assert(views(comps@).len() == 0);
            assert(r@ =~= seq!['/']);
        } else {
            assert(views(comps@).len() > 0);
            assert(r@ =~= seq!['/'] + spec_join_rel(views(comps@)));
        }
    }
    r
}

/// Whether this string is the component `..`.
pub fn is_parent_str(c: &str) -> (b: bool)
    ensures
        b == (c@ == parent_comp()),
{
    let b = c.unicode_len() == 2 && c.get_char(0) == '.' && c.get_char(1) == '.';
    proof {
        if b {
            assert(c@ =~= parent_comp());
        } else {
            assert(c@ != parent_comp()) by {
                if c@ == parent_comp() {
                    assert(c@.len() == 2);
                    assert(c@[0] == '.');
                    assert(c@[1] == '.');
                }
            }
        }
    }
    b
}

/// Resolves `..` components, with absolute-path semantics.
pub fn normalize_components(comps: &Vec<String>) -> (r: Vec<String>)
    ensures
        views(r@) == spec_normalize(views(comps@)),
{
    let mut r: Vec<String> = Vec::new();
    let n = comps.len();
    let mut k: usize = 0;
    proof {
        assert(views(comps@).take(0) =~= Seq::<Seq<char>>::empty());
        assert(views(r@) =~= spec_normalize(views(comps@).take(0)));
    }
    while k < n
        invariant
            k <= n,
            n == comps@.len(),
            views(r@) == spec_normalize(views(comps@).take(k as int)),
        decreases n - k,
    {
        let ghost pre = views(comps@).take(k as int);
        let ghost cur = views(comps@).take(k + 1);
        proof {
            assert(cur.drop_last() =~= pre);
            assert(cur.last() == comps@[k as int]@);
        }
        let ghost old_r = r@;
        if is_parent_str(comps[k].as_str()) {
            if r.len() > 0 {
                r.pop();
                proof {
                    assert(views(r@) =~= views(old_r).drop_last());
                }
            }
        } else {
            r.push(comps[k].clone());
            proof {
                assert(views(r@) =~= views(old_r).push(comps@[k as int]@));
            }
        }
        k = k + 1;
    }
    proof {
        assert(views(comps@).take(n as int) =~= views(comps@));
    }
    r
}

/// The path itself, or `.` for the empty path (which names the current
/// directory).
pub fn dot_if_empty(p: &str) -> (r: String)
    ensures
        p@.len() == 0 ==> r@ == dot_comp(),
        p@.len() > 0 ==> r@ == p@,
{
    if p.unicode_len() == 0 {
        let s = String::from_str(".");
        proof {
            reveal_strlit(".");
            assert(s@ =~= dot_comp());
        }
        s
    } else {
        String::from_str(p)
    }
}

} // verus!
