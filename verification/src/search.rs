use vstd::prelude::*;

use crate::builder::{default_prefix, do_suffix, Builder};
use crate::errors::{BuildError, IoKind};
use crate::item::{spec_file_name, spec_resolved_comps, Item};
use crate::paths::{
    is_absolute, join_absolute, lemma_components_of_join_abs, lemma_components_wf,
    lemma_normalize_wf, no_parent, normalize_components, parent_comp, spec_components,
    spec_is_absolute, spec_join_abs, split_components, views, wf_comp, wf_comps,
};
use crate::tails::{spec_suffix_tails, suffix_tails};

verus! {

// Finding the rule that builds a target: from the target's own directory up
// to the root, each directory is probed for the candidate rule filenames
// derived from the target's filename, most specific first. The probe is an
// existence oracle handed in by the caller; everything around it is pure.

/// No `/` anywhere in `t`.
pub open spec fn no_slash(t: Seq<char>) -> bool {
    forall|j: int| 0 <= j < t.len() ==> t[j] != '/'
}

/// The oracle `f`, asked about a path whose characters are `path`, can
/// answer `out`: some `String` holding `path` is related to `out` by the
/// oracle's postcondition. Every actual call of the oracle establishes
/// this for the answer it returned.
pub open spec fn probe_answered<F: Fn(String) -> Result<bool, String>>(
    f: F,
    path: Seq<char>,
    out: Result<bool, String>,
) -> bool {
    exists|q: String| q@ == path && #[trigger] call_ensures(f, (q,), out)
}

/// A tail is generic when it is empty or starts at a `.` boundary; such a
/// tail matches any filename that ends in it.
pub open spec fn spec_is_default(tail: Seq<char>) -> bool {
    tail.len() == 0 || tail[0] == '.'
}

/// The rule filename probed for a tail: `<tail>.do` for the specific tail,
/// `default<tail>.do` for a generic one.
pub open spec fn spec_candidate_name(tail: Seq<char>) -> Seq<char> {
    if spec_is_default(tail) {
        default_prefix() + tail + do_suffix()
    } else {
        tail + do_suffix()
    }
}

/// The candidate rule paths probed in one directory, in order: one per
/// suffix tail of the filename, most specific first. The `bool` marks a
/// generic match.
pub open spec fn spec_level_candidates(dir_comps: Seq<Seq<char>>, fname: Seq<char>) -> Seq<
    (Seq<char>, bool),
> {
    spec_suffix_tails(fname).map_values(
        |t: Seq<char>|
            (spec_join_abs(dir_comps.push(spec_candidate_name(t))), spec_is_default(t)),
    )
}

/// Every candidate probed for a target whose absolute path has components
/// `full`, in probe order: all candidates in the target's own directory,
/// then all in its parent, and so on up to the root.
pub open spec fn spec_search_sequence(full: Seq<Seq<char>>, fname: Seq<char>) -> Seq<
    (Seq<char>, bool),
>
    decreases full.len(),
{
    if full.len() == 0 {
        Seq::empty()
    } else {
        spec_level_candidates(full.drop_last(), fname) + spec_search_sequence(
            full.drop_last(),
            fname,
        )
    }
}

/// Every suffix tail of a slash-free filename is itself slash-free.
proof fn lemma_tails_no_slash(s: Seq<char>)
    requires
        no_slash(s),
    ensures
        forall|i: int|
            0 <= i < spec_suffix_tails(s).len() ==> no_slash(#[trigger] spec_suffix_tails(s)[i]),
    decreases s.len(),
{
    let ts = spec_suffix_tails(s);
    if s.len() == 0 {
        assert(ts == seq![Seq::<char>::empty()]);
        assert(no_slash(ts[0]));
    } else {
        let t = s.drop_first();
        assert(no_slash(t)) by {
            assert(forall|j: int| 0 <= j < t.len() ==> t[j] == s[j + 1]);
        }
        if crate::tails::first_dot(t) < t.len() {
            let rest = t.skip(crate::tails::first_dot(t));
            crate::tails::lemma_first_dot(t);
            assert(no_slash(rest)) by {
                assert(forall|j: int|
                    0 <= j < rest.len() ==> rest[j] == t[j + crate::tails::first_dot(t)]);
            }
            lemma_tails_no_slash(rest);
            assert forall|i: int| 0 <= i < ts.len() implies no_slash(#[trigger] ts[i]) by {
                if i == 0 {
                    assert(ts[0] == s);
                } else {
                    assert(ts[i] == spec_suffix_tails(rest)[i - 1]);
                }
            }
        } else {
            assert(ts == seq![s, Seq::<char>::empty()]);
            assert forall|i: int| 0 <= i < ts.len() implies no_slash(#[trigger] ts[i]) by {
                if i == 0 {
                    assert(ts[0] == s);
                } else {
                    assert(ts[1].len() == 0);
                }
            }
        }
    }
}

/// A candidate rule filename is a well-formed path component (and never
/// `..`): it is at least three characters and holds no `/`.
proof fn lemma_candidate_name_wf(tail: Seq<char>)
    requires
        no_slash(tail),
    ensures
        wf_comp(spec_candidate_name(tail)),
        spec_candidate_name(tail) != parent_comp(),
{
    let n = spec_candidate_name(tail);
    assert(n.len() >= 3);
    if spec_is_default(tail) {
        assert forall|j: int| 0 <= j < n.len() implies n[j] != '/' by {
            if j < 7 {
                assert(n[j] == default_prefix()[j]);
            } else if j < 7 + tail.len() {
                assert(n[j] == tail[j - 7]);
            } else {
                assert(n[j] == do_suffix()[j - 7 - tail.len()]);
            }
        }
    } else {
        assert forall|j: int| 0 <= j < n.len() implies n[j] != '/' by {
            if j < tail.len() {
                assert(n[j] == tail[j]);
            } else {
                assert(n[j] == do_suffix()[j - tail.len()]);
            }
        }
    }
    assert(n != crate::paths::dot_comp()) by {
        assert(crate::paths::dot_comp().len() == 1);
    }
    assert(n != parent_comp()) by {
        assert(parent_comp().len() == 2);
    }
}

/// What `find_builder` guarantees of its outcome `r`, for a target named
/// `name` resolved against the absolute directory `cwd`, with existence
/// oracle `f`. The candidates are probed in search order; a found rule is
/// one the oracle reported present after denying every earlier candidate;
/// no rule is found only once the oracle denied them all.
pub open spec fn spec_find_builder_result<F: Fn(String) -> Result<bool, String>>(
    f: F,
    name: Seq<char>,
    cwd: Seq<char>,
    r: Result<Builder, BuildError>,
) -> bool {
    let full = spec_resolved_comps(cwd, name);
    let fname = spec_file_name(name).unwrap();
    let cands = spec_search_sequence(full, fname);
    match r {
        Ok(b) => {
            &&& spec_file_name(name) is Some
            &&& b.wf()
            &&& exists|i: int|
                #![trigger cands[i]]
                {
                    &&& 0 <= i < cands.len()
                    &&& b.dofile@ == cands[i].0
                    &&& b.default == cands[i].1
                    &&& probe_answered(f, cands[i].0, Ok(true))
                    &&& (forall|j: int|
                        0 <= j < i ==> probe_answered(f, (#[trigger] cands[j]).0, Ok(false)))
                }
        },
        Err(e) => match e {
            BuildError::PathEncoding { .. } => spec_file_name(name) is None,
            BuildError::RuleNotFound { target } => {
                &&& spec_file_name(name) is Some
                &&& target@ == name
                &&& (forall|j: int|
                    0 <= j < cands.len() ==> probe_answered(f, (#[trigger] cands[j]).0, Ok(false)))
            },
            BuildError::Io { kind, detail } => kind is Other && exists|j: int|
                #![trigger cands[j]]
                0 <= j < cands.len() && probe_answered(f, cands[j].0, Err(detail)),
            _ => false,
        },
    }
}

/// The rule filename probed for one tail, with its generic mark.
pub fn candidate_name(tail: &str) -> (r: (String, bool))
    ensures
        r.0@ == spec_candidate_name(tail@),
        r.1 == spec_is_default(tail@),
{
    let is_default = tail.unicode_len() == 0 || tail.get_char(0) == '.';
    let mut s = if is_default {
        String::from_str("default")
    } else {
        String::new()
    };
    s.append(tail);
    s.append(".do");
    proof {
        reveal_strlit("default");
        reveal_strlit(".do");
        assert(("default")@ =~= default_prefix());
        assert((".do")@ =~= do_suffix());
        if is_default {
            assert(s@ =~= default_prefix() + tail@ + do_suffix());
        } else {
            assert(s@ =~= tail@ + do_suffix());
        }
    }
    (s, is_default)
}

impl Item {
    /// Whether this item needs building: a path with no file behind it is a
    /// target; one that already exists is a source and is left alone. The
    /// oracle answers whether a path exists, or fails with a detail string
    /// for any trouble other than absence.
    pub fn is_target<F: Fn(String) -> Result<bool, String>>(&self, fs_exists: &F) -> (r: Result<
        bool,
        BuildError,
    >)
        requires
            forall|p: String| call_requires(*fs_exists, (p,)),
        ensures
            match r {
                Ok(b) => probe_answered(*fs_exists, self.name@, Ok(!b)),
                Err(e) => match e {
                    BuildError::Io { kind, detail } => kind is Other && probe_answered(
                        *fs_exists,
                        self.name@,
                        Err(detail),
                    ),
                    _ => false,
                },
            },
    {
        let probe = self.name.clone();
        let ghost gprobe = probe;
        match fs_exists(probe) {
            Ok(b) => {
                proof {
                    assert(gprobe@ == self.name@ && call_ensures(*fs_exists, (gprobe,), Ok(b)));
                    assert(probe_answered(*fs_exists, self.name@, Ok(b)));
                }
                Ok(!b)
            },
            Err(d) => {
                let ghost gd = d;
                proof {
                    assert(gprobe@ == self.name@ && call_ensures(
                        *fs_exists,
                        (gprobe,),
                        Err::<bool, String>(gd),
                    ));
                    assert(probe_answered(*fs_exists, self.name@, Err(gd)));
                }
                Err(BuildError::Io { kind: IoKind::Other, detail: d })
            },
        }
    }

    /// Probes one directory for a rule that builds `fname`: each candidate
    /// filename, most specific first; the first one the oracle reports
    /// present wins, and carries whether the match was generic.
    pub fn search_target_in_dir<F: Fn(String) -> Result<bool, String>>(
        &self,
        fname: &String,
        dir: &String,
        fs_exists: &F,
    ) -> (r: Result<Option<Builder>, BuildError>)
        requires
            fname@.len() > 0,
            no_slash(fname@),
            spec_is_absolute(dir@),
            no_parent(spec_components(dir@)),
            forall|p: String| call_requires(*fs_exists, (p,)),
        ensures
            ({
                let cands = spec_level_candidates(spec_components(dir@), fname@);
                match r {
                    Ok(Some(b)) => {
                        &&& b.wf()
                        &&& exists|i: int|
                            #![trigger cands[i]]
                            {
                                &&& 0 <= i < cands.len()
                                &&& b.dofile@ == cands[i].0
                                &&& b.default == cands[i].1
                                &&& probe_answered(*fs_exists, cands[i].0, Ok(true))
                                &&& (forall|j: int|
                                    0 <= j < i ==> probe_answered(
                                        *fs_exists,
                                        (#[trigger] cands[j]).0,
                                        Ok(false),
                                    ))
                            }
                    },
                    Ok(None) => forall|j: int|
                        0 <= j < cands.len() ==> probe_answered(
                            *fs_exists,
                            (#[trigger] cands[j]).0,
                            Ok(false),
                        ),
                    Err(e) => match e {
                        BuildError::Io { kind, detail } => kind is Other && exists|j: int|
                            #![trigger cands[j]]
                            0 <= j < cands.len() && probe_answered(
                                *fs_exists,
                                cands[j].0,
                                Err(detail),
                            ),
                        _ => false,
                    },
                }
            }),
    {
        let ghost dir_comps = spec_components(dir@);
        let ghost cands = spec_level_candidates(dir_comps, fname@);
        let tails_vec = suffix_tails(fname.as_str());
        let mut work = split_components(dir.as_str());
        proof {
            lemma_components_wf(dir@);
            lemma_tails_no_slash(fname@);
        }
        let n = tails_vec.len();
        let mut i: usize = 0;
        while i < n
            invariant
                i <= n,
                n == tails_vec@.len(),
                views(tails_vec@) == spec_suffix_tails(fname@),
                views(work@) == dir_comps,
                dir_comps == spec_components(dir@),
                wf_comps(dir_comps),
                no_parent(dir_comps),
                cands == spec_level_candidates(dir_comps, fname@),
                forall|i2: int|
                    0 <= i2 < spec_suffix_tails(fname@).len() ==> no_slash(
                        #[trigger] spec_suffix_tails(fname@)[i2],
                    ),
                forall|p: String| call_requires(*fs_exists, (p,)),
                forall|j: int|
                    0 <= j < i ==> probe_answered(*fs_exists, (#[trigger] cands[j]).0, Ok(false)),
            decreases n - i,
        {
            let (name, is_default) = candidate_name(tails_vec[i].as_str());
            let ghost tail = spec_suffix_tails(fname@)[i as int];
            let ghost old_work = views(work@);
            work.push(name);
            proof {
                assert(views(work@) =~= dir_comps.push(spec_candidate_name(tail)));
                lemma_candidate_name_wf(tail);
                assert(wf_comps(views(work@))) by {
                    assert forall|k: int| 0 <= k < views(work@).len() implies wf_comp(
                        #[trigger] views(work@)[k],
                    ) by {
                        if k < dir_comps.len() {
                            assert(views(work@)[k] == dir_comps[k]);
                        }
                    }
                }
                lemma_components_of_join_abs(views(work@));
            }
            let path = join_absolute(&work);
            work.pop();
            proof {
                assert(views(work@) =~= old_work);
                assert(path@ == cands[i as int].0);
                assert(no_parent(spec_components(path@))) by {
                    assert forall|k: int| 0 <= k < spec_components(path@).len() implies #[trigger]
                    spec_components(path@)[k] != parent_comp() by {
                        if k < dir_comps.len() {
                            assert(spec_components(path@)[k] == dir_comps[k]);
                        } else {
                            assert(spec_components(path@)[k] == spec_candidate_name(tail));
                        }
                    }
                }
            }
            let probe = path.clone();
            let ghost gprobe = probe;
            match fs_exists(probe) {
                Ok(true) => {
                    let b = Builder::new(path, is_default);
                    proof {
                        assert(gprobe@ == cands[i as int].0 && call_ensures(
                            *fs_exists,
                            (gprobe,),
                            Ok(true),
                        ));
                        assert(probe_answered(*fs_exists, cands[i as int].0, Ok(true)));
                        assert(b.dofile@ == cands[i as int].0);
                        assert(b.default == cands[i as int].1);
                    }
                    return Ok(Some(b));
                },
                Ok(false) => {
                    proof {
                        assert(gprobe@ == cands[i as int].0 && call_ensures(
                            *fs_exists,
                            (gprobe,),
                            Ok(false),
                        ));
                        assert(probe_answered(*fs_exists, cands[i as int].0, Ok(false)));
                    }
                },
                Err(d) => {
                    let ghost gd = d;
                    proof {
                        assert(call_ensures(*fs_exists, (gprobe,), Err::<bool, String>(gd)));
                        assert(probe_answered(*fs_exists, cands[i as int].0, Err(gd)));
                    }
                    return Err(BuildError::Io { kind: IoKind::Other, detail: d });
                },
            }
            i = i + 1;
        }
        Ok(None)
    }

    /// Finds the rule that builds this target: resolves the target against
    /// the absolute invocation directory `cwd`, then probes each directory
    /// from the target's own up to the root for the candidate rule names,
    /// most specific name first within each directory. The first candidate
    /// the oracle reports present wins; a target with no filename cannot be
    /// matched; if no candidate exists anywhere, there is no rule.
    pub fn find_builder<F: Fn(String) -> Result<bool, String>>(
        &self,
        cwd: &String,
        fs_exists: &F,
    ) -> (r: Result<Builder, BuildError>)
        requires
            spec_is_absolute(cwd@),
            forall|p: String| call_requires(*fs_exists, (p,)),
        ensures
            spec_find_builder_result(*fs_exists, self.name@, cwd@, r),
    {
        let fname = match self.file_name() {
            Ok(f) => f,
            Err(e) => {
                proof {
                    let ghost rr: Result<Builder, BuildError> = Err(e);
                    assert(spec_find_builder_result(*fs_exists, self.name@, cwd@, rr));
                }
                return Err(e);
            },
        };
        let ghost full = spec_resolved_comps(cwd@, self.name@);
        let ghost cands = spec_search_sequence(full, fname@);
        let n0 = self.name.as_str();
        let joined = if is_absolute(n0) {
            split_components(n0)
        } else {
            let mut base = split_components(cwd.as_str());
            let mut tail = split_components(n0);
            base.append(&mut tail);
            proof {
                assert(views(base@) =~= spec_components(cwd@) + spec_components(n0@));
            }
            base
        };
        let mut work = normalize_components(&joined);
        proof {
            assert(views(work@) == full);
            lemma_components_wf(self.name@);
            lemma_components_wf(cwd@);
            assert(wf_comps(views(joined@))) by {
                if !spec_is_absolute(n0@) {
                    let a = spec_components(cwd@);
                    let b = spec_components(n0@);
                    assert forall|k: int| 0 <= k < (a + b).len() implies wf_comp(
                        #[trigger] (a + b)[k],
                    ) by {
                        if k < a.len() {
                            assert((a + b)[k] == a[k]);
                        } else {
                            assert((a + b)[k] == b[k - a.len()]);
                        }
                    }
                }
            }
            lemma_normalize_wf(views(joined@));
            assert(wf_comps(full));
            assert(no_parent(full));
            // the filename is the last component of the target's own path
            assert(wf_comp(fname@)) by {
                assert(fname@ == spec_components(self.name@).last());
            }
            assert(no_slash(fname@));
        }
        let mut i: usize = work.len();
        let ghost mut processed: Seq<(Seq<char>, bool)> = Seq::empty();
        proof {
            assert(full.take(i as int) =~= full);
            assert(cands =~= processed + spec_search_sequence(full.take(i as int), fname@));
        }
        while i > 0
            invariant
                i <= full.len(),
                views(work@) == full.take(i as int),
                full == spec_resolved_comps(cwd@, self.name@),
                cands == spec_search_sequence(full, fname@),
                wf_comps(full),
                no_parent(full),
                fname@.len() > 0,
                no_slash(fname@),
                spec_file_name(self.name@) == Some(fname@),
                forall|p: String| call_requires(*fs_exists, (p,)),
                cands == processed + spec_search_sequence(full.take(i as int), fname@),
                forall|j: int|
                    0 <= j < processed.len() ==> probe_answered(
                        *fs_exists,
                        (#[trigger] cands[j]).0,
                        Ok(false),
                    ),
            decreases i,
        {
            i = i - 1;
            work.pop();
            proof {
                assert(views(work@) =~= full.take(i as int));
                assert(wf_comps(views(work@))) by {
                    assert forall|k: int| 0 <= k < views(work@).len() implies wf_comp(
                        #[trigger] views(work@)[k],
                    ) by {
                        assert(views(work@)[k] == full[k]);
                    }
                }
                lemma_components_of_join_abs(views(work@));
            }
            let dir = join_absolute(&work);
            let ghost dprefix = full.take(i as int);
            let ghost lvl = spec_level_candidates(dprefix, fname@);
            let ghost pi = processed.len() as int;
            proof {
                assert(spec_components(dir@) == dprefix);
                assert(no_parent(spec_components(dir@))) by {
                    assert forall|k: int| 0 <= k < dprefix.len() implies #[trigger] dprefix[k]
                        != parent_comp() by {
                        assert(dprefix[k] == full[k]);
                    }
                }
                // one level unrolls off the remaining search sequence
                assert(full.take(i + 1).drop_last() =~= dprefix);
                assert(spec_search_sequence(full.take(i + 1), fname@) == lvl
                    + spec_search_sequence(dprefix, fname@));
                assert(cands == processed + (lvl + spec_search_sequence(dprefix, fname@)));
                assert forall|j: int| 0 <= j < lvl.len() implies cands[pi + j] == lvl[j] by {
                    assert((processed + (lvl + spec_search_sequence(dprefix, fname@)))[pi + j]
                        == lvl[j]);
                }
            }
            match self.search_target_in_dir(&fname, &dir, fs_exists) {
                Ok(Some(b)) => {
                    proof {
                        let lcands = spec_level_candidates(spec_components(dir@), fname@);
                        assert(lcands == lvl);
                        let il = choose|ii: int|
                            #![trigger lvl[ii]]
                            {
                                &&& 0 <= ii < lvl.len()
                                &&& b.dofile@ == lvl[ii].0
                                &&& b.default == lvl[ii].1
                                &&& probe_answered(*fs_exists, lvl[ii].0, Ok(true))
                                &&& (forall|j: int|
                                    0 <= j < ii ==> probe_answered(
                                        *fs_exists,
                                        (#[trigger] lvl[j]).0,
                                        Ok(false),
                                    ))
                            };
                        assert(cands[pi + il] == lvl[il]);
                        assert forall|j: int| 0 <= j < pi + il implies probe_answered(
                            *fs_exists,
                            (#[trigger] cands[j]).0,
                            Ok(false),
                        ) by {
                            if j >= pi {
                                assert(cands[j] == lvl[j - pi]);
                            }
                        }
                        assert(0 <= pi + il < cands.len() && b.dofile@ == cands[pi + il].0
                            && b.default == cands[pi + il].1 && probe_answered(
                            *fs_exists,
                            cands[pi + il].0,
                            Ok(true),
                        ));
                        assert(spec_file_name(self.name@).unwrap() == fname@);
                        let pcands = spec_search_sequence(
                            spec_resolved_comps(cwd@, self.name@),
                            spec_file_name(self.name@).unwrap(),
                        );
                        assert(pcands == cands);
                        assert(0 <= pi + il < pcands.len() && b.dofile@ == pcands[pi + il].0
                            && b.default == pcands[pi + il].1 && probe_answered(
                            *fs_exists,
                            pcands[pi + il].0,
                            Ok(true),
                        )) by {
                            assert(pcands[pi + il] == cands[pi + il]);
                        }
                        assert forall|j: int| 0 <= j < pi + il implies probe_answered(
                            *fs_exists,
                            (#[trigger] pcands[j]).0,
                            Ok(false),
                        ) by {
                            assert(pcands[j] == cands[j]);
                        }
                        let ghost rr: Result<Builder, BuildError> = Ok(b);
                        assert(spec_find_builder_result(*fs_exists, self.name@, cwd@, rr));
                    }
                    return Ok(b);
                },
                Ok(None) => {
                    proof {
                        let lcands = spec_level_candidates(spec_components(dir@), fname@);
                        assert(lcands == lvl);
                        processed = processed + lvl;
                        assert(cands =~= processed + spec_search_sequence(
                            full.take(i as int),
                            fname@,
                        ));
                        assert forall|j: int| 0 <= j < processed.len() implies probe_answered(
                            *fs_exists,
                            (#[trigger] cands[j]).0,
                            Ok(false),
                        ) by {
                            if j >= pi {
                                assert(cands[j] == lvl[j - pi]);
                            }
                        }
                    }
                },
                Err(e) => {
                    proof {
                        let lcands = spec_level_candidates(spec_components(dir@), fname@);
                        assert(lcands == lvl);
                        let ghost ge = e;
                        match ge {
                            BuildError::Io { kind, detail } => {
                                let jl = choose|jj: int|
                                    #![trigger lvl[jj]]
                                    0 <= jj < lvl.len() && probe_answered(
                                        *fs_exists,
                                        lvl[jj].0,
                                        Err(detail),
                                    );
                                assert(cands[pi + jl] == lvl[jl]);
                                assert(0 <= pi + jl < cands.len() && probe_answered(
                                    *fs_exists,
                                    cands[pi + jl].0,
                                    Err(detail),
                                ));
                            },
                            _ => {
                                assert(false);
                            },
                        }
                        assert(spec_file_name(self.name@).unwrap() == fname@);
                        let pcands = spec_search_sequence(
                            spec_resolved_comps(cwd@, self.name@),
                            spec_file_name(self.name@).unwrap(),
                        );
                        assert(pcands == cands);
                        match ge {
                            BuildError::Io { kind, detail } => {
                                let jl2 = choose|jj: int|
                                    #![trigger cands[jj]]
                                    0 <= jj < cands.len() && probe_answered(
                                        *fs_exists,
                                        cands[jj].0,
                                        Err(detail),
                                    );
                                assert(0 <= jl2 < pcands.len() && probe_answered(
                                    *fs_exists,
                                    pcands[jl2].0,
                                    Err(detail),
                                )) by {
                                    assert(pcands[jl2] == cands[jl2]);
                                }
                            },
                            _ => {
                                assert(false);
                            },
                        }
                        let ghost rr: Result<Builder, BuildError> = Err(ge);
                        assert(spec_find_builder_result(*fs_exists, self.name@, cwd@, rr));
                    }
                    return Err(e);
                },
            }
        }
        let target = self.name.clone();
        proof {
            assert(full.take(0) =~= Seq::<Seq<char>>::empty());
            assert(spec_search_sequence(full.take(0), fname@) =~= Seq::<(Seq<char>, bool)>::empty());
            assert(cands =~= processed);
            let ghost rr: Result<Builder, BuildError> = Err(
                BuildError::RuleNotFound { target: target },
            );
            assert(spec_find_builder_result(*fs_exists, self.name@, cwd@, rr));
        }
        Err(BuildError::RuleNotFound { target })
    }
}

} // verus!
