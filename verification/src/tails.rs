use vstd::prelude::*;

use crate::paths::views;

verus! {

// The suffix tails of a filename: the filename itself, then each tail that
// starts at a `.` boundary, ending with the empty tail. For `foo.bar.baz`
// they are `foo.bar.baz`, `.bar.baz`, `.baz`, and ``. These are the
// extension boundaries at which a rule may match, most specific first.

/// Index of the first `.` in `s`, or `s.len()` if there is none.
pub open spec fn first_dot(s: Seq<char>) -> int
    decreases s.len(),
{
    if s.len() == 0 {
        0
    } else if s[0] == '.' {
        0
    } else {
        1 + first_dot(s.drop_first())
    }
}

pub proof fn lemma_first_dot(s: Seq<char>)
    ensures
        0 <= first_dot(s) <= s.len(),
        forall|j: int| 0 <= j < first_dot(s) ==> s[j] != '.',
        first_dot(s) < s.len() ==> s[first_dot(s)] == '.',
    decreases s.len(),
{
    if s.len() == 0 {
    } else if s[0] == '.' {
    } else {
        lemma_first_dot(s.drop_first());
        assert forall|j: int| 0 <= j < first_dot(s) implies s[j] != '.' by {
            if j > 0 {
                assert(s.drop_first()[j - 1] != '.');
            }
        }
    }
}

/// A scan that saw no `.` before `m` and a `.` (or the end) at `m` found
/// `first_dot`.
pub proof fn lemma_first_dot_at(s: Seq<char>, m: int)
    requires
        0 <= m <= s.len(),
        forall|j: int| 0 <= j < m ==> s[j] != '.',
        m < s.len() ==> s[m] == '.',
    ensures
        first_dot(s) == m,
    decreases s.len(),
{
    if s.len() == 0 {
    } else if s[0] == '.' {
        assert(m == 0);
    } else {
        assert(m >= 1);
        let t = s.drop_first();
        assert forall|j: int| 0 <= j < m - 1 implies t[j] != '.' by {
            assert(s[j + 1] != '.');
        }
        lemma_first_dot_at(t, m - 1);
    }
}

/// The suffix tails of a non-empty filename, most specific first, ending
/// with the empty tail.
pub open spec fn spec_suffix_tails(s: Seq<char>) -> Seq<Seq<char>>
    decreases s.len(),
    via spec_suffix_tails_decreases
{
    if s.len() == 0 {
        seq![Seq::<char>::empty()]
    } else {
        let t = s.drop_first();
        if first_dot(t) < t.len() {
            seq![s] + spec_suffix_tails(t.skip(first_dot(t)))
        } else {
            seq![s, Seq::<char>::empty()]
        }
    }
}

#[via_fn]
proof fn spec_suffix_tails_decreases(s: Seq<char>) {
    if s.len() > 0 {
        let t = s.drop_first();
        lemma_first_dot(t);
    }
}

/// A cursor over the suffix tails of a filename. `input` is the part of the
/// filename not yet fully consumed; `next_idx` points at the start of the
/// tail to yield next, or is `None` once only the empty tail is left.
pub struct FileSuffixTails {
    input: Option<String>,
    next_idx: Option<usize>,
}

impl FileSuffixTails {
    /// The cursor's stored index stays inside its stored text.
    pub closed spec fn wf(&self) -> bool {
        match (self.input, self.next_idx) {
            (Some(s), Some(i)) => i < s@.len(),
            _ => true,
        }
    }

    /// The tails this cursor has yet to yield.
    pub closed spec fn remaining(&self) -> Seq<Seq<char>> {
        match (self.input, self.next_idx) {
            (Some(s), Some(i)) => spec_suffix_tails(s@.skip(i as int)),
            (Some(s), None) => seq![Seq::<char>::empty()],
            (None, _) => Seq::empty(),
        }
    }

    /// A cursor that will yield exactly the suffix tails of `s`.
    pub fn new(s: &str) -> (r: FileSuffixTails)
        requires
            s@.len() > 0,
        ensures
            r.wf(),
            r.remaining() == spec_suffix_tails(s@),
    {
        let r = FileSuffixTails { input: Some(String::from_str(s)), next_idx: Some(0) };
        proof {
            assert(s@.skip(0) =~= s@);
        }
        r
    }

    /// Yields the next tail, advancing the cursor.
    pub fn next(&mut self) -> (r: Option<String>)
        requires
            old(self).wf(),
        ensures
            final(self).wf(),
            match r {
                Some(t) => {
                    &&& old(self).remaining().len() > 0
                    &&& t@ == old(self).remaining()[0]
                    &&& final(self).remaining() == old(self).remaining().drop_first()
                },
                None => {
                    &&& old(self).remaining().len() == 0
                    &&& final(self).remaining().len() == 0
                },
            },
    {
        let has_input = self.input.is_some();
        let has_idx = self.next_idx.is_some();
        if has_input && has_idx {
            let inp = match &self.input {
                Some(s) => s.clone(),
                None => String::new(),
            };
            let i = match self.next_idx {
                Some(i) => i,
                None => 0,
            };
            let n = inp.as_str().unicode_len();
            let current = String::from_str(inp.as_str().substring_char(i, n));
            let suffix = String::from_str(inp.as_str().substring_char(i + 1, n));
            let ghost cur_seq = inp@.skip(i as int);
            proof {
                assert(current@ =~= cur_seq);
                assert(suffix@ =~= cur_seq.drop_first());
            }
            // find the first `.` in the suffix
            let m = suffix.as_str().unicode_len();
            let mut j: usize = 0;
            let mut found = false;
            while j < m && !found
                invariant
                    j <= m,
                    m == suffix@.len(),
                    forall|q: int| 0 <= q < j ==> suffix@[q] != '.',
                    found ==> j < m && suffix@[j as int] == '.',
                decreases m - j + (if found {
                    0int
                } else {
                    1int
                }),
            {
                if suffix.as_str().get_char(j) == '.' {
                    found = true;
                } else {
                    j = j + 1;
                }
            }
            proof {
                if found {
                    lemma_first_dot_at(suffix@, j as int);
                } else {
                    lemma_first_dot_at(suffix@, m as int);
                }
            }
            self.input = Some(suffix);
            self.next_idx = if found {
                Some(j)
            } else {
                None
            };
            proof {
                let t = cur_seq.drop_first();
                if found {
                    assert(final(self).remaining() == spec_suffix_tails(t.skip(j as int)));
                    assert(old(self).remaining() == seq![cur_seq] + spec_suffix_tails(
                        t.skip(first_dot(t)),
                    ));
                    assert((seq![cur_seq] + spec_suffix_tails(t.skip(j as int))).drop_first()
                        =~= spec_suffix_tails(t.skip(j as int)));
                } else {
                    assert(old(self).remaining() == seq![cur_seq, Seq::<char>::empty()]);
                    assert(old(self).remaining().drop_first() =~= seq![Seq::<char>::empty()]);
                }
            }
            Some(current)
        } else if has_input {
            self.input = None;
            self.next_idx = None;
            let r = String::new();
            proof {
                assert(old(self).remaining() == seq![Seq::<char>::empty()]);
                assert(r@ == old(self).remaining()[0]);
                assert(old(self).remaining().drop_first() =~= Seq::<Seq<char>>::empty());
            }
            Some(r)
        } else {
            None
        }
    }
}

/// All suffix tails of a non-empty filename, in order.
pub fn suffix_tails(s: &str) -> (r: Vec<String>)
    requires
        s@.len() > 0,
    ensures
        views(r@) == spec_suffix_tails(s@),
{
    let mut it = FileSuffixTails::new(s);
    let mut r: Vec<String> = Vec::new();
    let mut done = false;
    proof {
        assert(views(r@) + it.remaining() =~= spec_suffix_tails(s@));
    }
    while !done
        invariant
            it.wf(),
            !done ==> views(r@) + it.remaining() == spec_suffix_tails(s@),
            done ==> views(r@) == spec_suffix_tails(s@),
        decreases it.remaining().len() + (if done {
            0int
        } else {
            1int
        }),
    {
        let ghost old_r = r@;
        let ghost old_rem = it.remaining();
        match it.next() {
            Some(t) => {
                r.push(t);
                proof {
                    assert(views(r@) =~= views(old_r).push(old_rem[0]));
                    assert(views(old_r).push(old_rem[0]) + old_rem.drop_first()
                        =~= views(old_r) + old_rem);
                }
            },
            None => {
                done = true;
                proof {
                    assert(views(old_r) + old_rem =~= views(old_r));
                }
            },
        }
    }
    r
}

} // verus!
