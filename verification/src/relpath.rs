use vstd::prelude::*;

use crate::paths::{
    common_len, dot_comp, join_relative, lemma_common_len, lemma_components_of_join_rel, lemma_components_wf,
    lemma_normalize_append_no_parent, lemma_normalize_climb, lemma_repeat_parent_len, no_parent,
    parent_comp, repeat_parent, spec_components, spec_is_absolute, spec_join_rel, spec_normalize,
    split_components, views, wf_comp,
};

verus! {

// Expressing one absolute path relative to an absolute base directory: climb
// out of the part of the base that the two paths do not share, then descend
// into the subject's own tail.

/// The components of `subject` relative to the directory `base`: one `..`
/// for each base component past the common prefix, then the subject's
/// components past the common prefix.
pub open spec fn spec_relative_comps(s: Seq<Seq<char>>, b: Seq<Seq<char>>) -> Seq<Seq<char>> {
    repeat_parent(b.len() - common_len(s, b)) + s.skip(common_len(s, b))
}

/// A scan that found the first disagreement (or ran off an end) found the
/// common prefix length.
proof fn lemma_common_len_at(a: Seq<Seq<char>>, b: Seq<Seq<char>>, c: int)
    requires
        0 <= c <= a.len(),
        c <= b.len(),
        forall|j: int| 0 <= j < c ==> a[j] == b[j],
        c < a.len() && c < b.len() ==> a[c] != b[c],
    ensures
        common_len(a, b) == c,
    decreases c,
{
    if c == 0 {
        if a.len() > 0 && b.len() > 0 {
            assert(a[0] != b[0]);
        }
    } else {
        assert(a[0] == b[0]);
        let a1 = a.drop_first();
        let b1 = b.drop_first();
        assert forall|j: int| 0 <= j < c - 1 implies a1[j] == b1[j] by {
            assert(a[j + 1] == b[j + 1]);
        }
        if c - 1 < a1.len() && c - 1 < b1.len() {
            assert(a1[c - 1] == a[c]);
            assert(b1[c - 1] == b[c]);
        }
        lemma_common_len_at(a1, b1, c - 1);
    }
}

/// The path of `subject` relative to the directory `base`, both absolute.
/// Running from `base`, the result names the same file as `subject`.
///
/// A `..` left in the base past the common prefix would need the caller to
/// have canonicalized first; such bases are not handled.
pub fn relative_to_dir(subject: &str, base: &str) -> (r: String)
    requires
        spec_is_absolute(subject@),
        spec_is_absolute(base@),
        forall|i: int|
            common_len(spec_components(subject@), spec_components(base@)) <= i < spec_components(
                base@,
            ).len() ==> spec_components(base@)[i] != parent_comp(),
    ensures
        r@ == spec_join_rel(
            spec_relative_comps(spec_components(subject@), spec_components(base@)),
        ),
        spec_components(r@) == spec_relative_comps(
            spec_components(subject@),
            spec_components(base@),
        ),
{
    let ghost s_comps = spec_components(subject@);
    let ghost b_comps = spec_components(base@);
    let sc = split_components(subject);
    let bc = split_components(base);
    let mut c: usize = 0;
    while c < sc.len() && c < bc.len() && sc[c] == bc[c]
        invariant
            c <= sc@.len(),
            c <= bc@.len(),
            views(sc@) == s_comps,
            views(bc@) == b_comps,
            forall|j: int| 0 <= j < c ==> s_comps[j] == b_comps[j],
        decreases sc@.len() - c,
    {
        proof {
            assert(s_comps[c as int] == sc@[c as int]@);
        }
        c = c + 1;
    }
    proof {
        if c < sc@.len() && c < bc@.len() {
            assert(s_comps[c as int] == sc@[c as int]@);
            assert(b_comps[c as int] == bc@[c as int]@);
        }
        lemma_common_len_at(s_comps, b_comps, c as int);
    }
    let mut out: Vec<String> = Vec::new();
    let mut k: usize = c;
    proof {
        assert(views(out@) =~= repeat_parent(0));
    }
    while k < bc.len()
        invariant
            c <= k <= bc@.len(),
            views(bc@) == b_comps,
            views(out@) == repeat_parent(k - c),
        decreases bc@.len() - k,
    {
        let ghost old_out = out@;
        out.push(String::from_str(".."));
        proof {
            reveal_strlit("..");
            assert(".."@ =~= parent_comp());
            assert(views(out@) =~= views(old_out).push(parent_comp()));
        }
        k = k + 1;
    }
    let ghost climb = views(out@);
    let mut m: usize = c;
    while m < sc.len()
        invariant
            c <= m <= sc@.len(),
            views(sc@) == s_comps,
            views(out@) == climb + s_comps.subrange(c as int, m as int),
        decreases sc@.len() - m,
    {
        let ghost old_out = out@;
        out.push(sc[m].clone());
        proof {
            assert(views(out@) =~= views(old_out).push(s_comps[m as int]));
            assert(views(old_out).push(s_comps[m as int]) =~= climb + s_comps.subrange(
                c as int,
                m + 1,
            ));
        }
        m = m + 1;
    }
    proof {
        assert(s_comps.subrange(c as int, s_comps.len() as int) =~= s_comps.skip(c as int));
        assert(views(out@) == spec_relative_comps(s_comps, b_comps));
        lemma_components_wf(subject@);
        lemma_repeat_parent_len(b_comps.len() - c);
        assert(wf_comp(parent_comp())) by {
            assert(parent_comp().len() == 2);
            assert(parent_comp()[0] != '/');
            assert(parent_comp()[1] != '/');
            assert(parent_comp() != dot_comp());
        }
        assert forall|i: int| 0 <= i < views(out@).len() implies wf_comp(
            #[trigger] views(out@)[i],
        ) by {
            let rel = spec_relative_comps(s_comps, b_comps);
            if i < b_comps.len() - c {
                assert(rel[i] == repeat_parent(b_comps.len() - c)[i]);
            } else {
                assert(rel[i] == s_comps.skip(c as int)[i - (b_comps.len() - c)]);
                assert(s_comps.skip(c as int)[i - (b_comps.len() - c)] == s_comps[i - (b_comps.len()
                    - c) + c]);
            }
        }
        lemma_components_of_join_rel(views(out@));
    }
    join_relative(&out)
}

/// Law: relativization round-trips. For absolute, canonical paths (their
/// components hold no `..`), joining the base directory with the relative
/// expression of the subject and normalizing the result yields exactly the
/// subject again. `relative_to_dir` ensures that the components of the
/// string it returns are `spec_relative_comps` of its two arguments, so
/// this holds of every path it produces.
pub proof fn lemma_relative_round_trip(s: Seq<Seq<char>>, b: Seq<Seq<char>>)
    requires
        no_parent(s),
        no_parent(b),
    ensures
        spec_normalize(b + spec_relative_comps(s, b)) == s,
{
    let c = common_len(s, b);
    lemma_common_len(s, b);
    let k = b.len() - c;
    lemma_repeat_parent_len(k);
    let tail = s.skip(c);
    assert(b + spec_relative_comps(s, b) =~= (b + repeat_parent(k)) + tail);
    assert forall|i: int| 0 <= i < tail.len() implies #[trigger] tail[i] != parent_comp() by {
        assert(tail[i] == s[i + c]);
    }
    lemma_normalize_append_no_parent(b + repeat_parent(k), tail);
    lemma_normalize_climb(b, k);
    assert(b.take(b.len() - k) == b.take(c));
    assert(s.take(c) + s.skip(c) =~= s);
}

} // verus!
