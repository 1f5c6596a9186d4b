use vstd::prelude::*;

use crate::errors::BuildError;
use crate::paths::{
    dot_comp, is_absolute, join_absolute, join_relative, normalize_components, spec_components,
    spec_is_absolute, spec_join_abs, spec_join_rel, spec_normalize, split_components, dot_if_empty,
    views, parent_comp,
};

verus! {

// A target the caller wants built, together with the up-to-date mark its
// persisted record may carry. The path is kept as the caller gave it,
// possibly relative to the invocation directory.

/// The directory part of a path, `None` where the path has none (the root,
/// or the empty path). The empty directory of a relative path is `.`.
pub open spec fn spec_dir_path(name: Seq<char>) -> Option<Seq<char>> {
    let cs = spec_components(name);
    if name.len() == 0 {
        None
    } else if cs.len() == 0 {
        if spec_is_absolute(name) {
            None
        } else {
            Some(dot_comp())
        }
    } else if spec_is_absolute(name) {
        Some(spec_join_abs(cs.drop_last()))
    } else if cs.len() == 1 {
        Some(dot_comp())
    } else {
        Some(spec_join_rel(cs.drop_last()))
    }
}

/// The filename part of a path: its last component, unless that is `..` or
/// there is none.
pub open spec fn spec_file_name(name: Seq<char>) -> Option<Seq<char>> {
    let cs = spec_components(name);
    if cs.len() == 0 || cs.last() == parent_comp() {
        None
    } else {
        Some(cs.last())
    }
}

/// The absolute form of `name` resolved against the absolute directory
/// `cwd`: the components of `name` (appended to those of `cwd` when `name`
/// is relative), with `.` and `..` resolved lexically.
pub open spec fn spec_resolved_comps(cwd: Seq<char>, name: Seq<char>) -> Seq<Seq<char>> {
    if spec_is_absolute(name) {
        spec_normalize(spec_components(name))
    } else {
        spec_normalize(spec_components(cwd) + spec_components(name))
    }
}

/// One build target: its path, and the up-to-date mark from its persisted
/// record, if one was read.
#[derive(Debug)]
pub struct Item {
    pub name: String,
    pub uptodate: Option<bool>,
}

impl Item {
    /// A fresh target for a path with no persisted record.
    pub fn new_target(path: &String) -> (r: Item)
        ensures
            r.name@ == path@,
            r.uptodate is None,
    {
        Item { name: path.clone(), uptodate: None }
    }

    /// The path this target was named by.
    pub fn path(&self) -> (r: &String)
        ensures
            r@ == self.name@,
    {
        &self.name
    }

    /// The directory the target lives in, `.` for a bare filename.
    pub fn dir_path(&self) -> (r: Result<String, BuildError>)
        ensures
            match r {
                Ok(d) => spec_dir_path(self.name@) == Some(d@),
                Err(e) => spec_dir_path(self.name@) is None && e is PathEncoding,
            },
    {
        let n = self.name.as_str();
        let absolute = is_absolute(n);
        if n.unicode_len() == 0 {
            return Err(BuildError::PathEncoding { detail: String::from_str(n) });
        }
        let mut cs = split_components(n);
        if cs.len() == 0 {
            if absolute {
                return Err(BuildError::PathEncoding { detail: String::from_str(n) });
            }
            let dot = String::from_str(".");
            proof {
                reveal_strlit(".");
                assert(dot@ =~= dot_comp());
            }
            return Ok(dot);
        }
        let ghost full = views(cs@);
        cs.pop();
        proof {
            assert(views(cs@) =~= full.drop_last());
        }
        if absolute {
            Ok(join_absolute(&cs))
        } else {
            let joined = join_relative(&cs);
            let r = dot_if_empty(joined.as_str());
            proof {
                if full.len() == 1 {
                    assert(views(cs@).len() == 0);
                    assert(joined@.len() == 0);
                } else {
                    assert(views(cs@).len() > 0);
                    assert(views(cs@)[0].len() > 0) by {
                        crate::paths::lemma_components_wf(n@);
                    }
                    assert(joined@.len() > 0) by {
                        assert(spec_join_rel(views(cs@)).len() >= views(cs@)[0].len()) by {
                            if views(cs@).len() > 1 {
                                assert(spec_join_rel(views(cs@)) == views(cs@)[0] + seq!['/']
                                    + spec_join_rel(views(cs@).drop_first()));
                            }
                        }
                    }
                }
            }
            Ok(r)
        }
    }

    /// The target's filename: the last path component.
    pub fn file_name(&self) -> (r: Result<String, BuildError>)
        ensures
            match r {
                Ok(f) => spec_file_name(self.name@) == Some(f@),
                Err(e) => spec_file_name(self.name@) is None && e is PathEncoding,
            },
    {
        let cs = split_components(self.name.as_str());
        if cs.len() == 0 {
            return Err(BuildError::PathEncoding { detail: self.name.clone() });
        }
        let last = &cs[cs.len() - 1];
        if crate::paths::is_parent_str(last.as_str()) {
            return Err(BuildError::PathEncoding { detail: self.name.clone() });
        }
        Ok(last.clone())
    }

    /// The target's absolute path, resolved lexically against the absolute
    /// invocation directory `cwd`: the directory is normalized and the
    /// filename appended to it.
    pub fn abs_path(&self, cwd: &String) -> (r: Result<String, BuildError>)
        requires
            spec_is_absolute(cwd@),
        ensures
            match r {
                Ok(p) => {
                    &&& spec_file_name(self.name@) is Some
                    &&& p@ == spec_join_abs(spec_resolved_comps(cwd@, self.name@))
                    &&& spec_is_absolute(p@)
                    &&& spec_components(p@) == spec_resolved_comps(cwd@, self.name@)
                    &&& spec_components(p@).len() > 0
                },
                Err(e) => spec_file_name(self.name@) is None && e is PathEncoding,
            },
    {
        match self.file_name() {
            Err(e) => Err(e),
            Ok(_) => {
                let n = self.name.as_str();
                let mut cs = if is_absolute(n) {
                    split_components(n)
                } else {
                    let mut base = split_components(cwd.as_str());
                    let mut tail = split_components(n);
                    base.append(&mut tail);
                    proof {
                        assert(views(base@) =~= spec_components(cwd@) + spec_components(n@));
                    }
                    base
                };
                let resolved = normalize_components(&cs);
                let r = join_absolute(&resolved);
                proof {
                    crate::paths::lemma_normalize_wf(views(cs@));
                    crate::paths::lemma_components_wf(n@);
                    crate::paths::lemma_components_wf(cwd@);
                    assert(crate::paths::wf_comps(views(cs@))) by {
                        if !spec_is_absolute(n@) {
                            let a = spec_components(cwd@);
                            let b = spec_components(n@);
                            assert forall|i: int|
                                0 <= i < (a + b).len() implies crate::paths::wf_comp(
                                #[trigger] (a + b)[i],
                            ) by {
                                if i < a.len() {
                                    assert((a + b)[i] == a[i]);
                                } else {
                                    assert((a + b)[i] == b[i - a.len()]);
                                }
                            }
                        }
                    }
                    crate::paths::lemma_components_of_join_abs(views(resolved@));
                    assert(spec_is_absolute(r@));
                    assert(spec_components(r@) == spec_resolved_comps(cwd@, self.name@));
                    // the target's filename survives resolution, so the
                    // resolved path has at least that one component
                    assert(spec_components(r@).len() > 0) by {
                        let joined = views(cs@);
                        assert(joined.len() > 0);
                        assert(joined.last() == spec_components(n@).last()) by {
                            if !spec_is_absolute(n@) {
                                let a = spec_components(cwd@);
                                let b = spec_components(n@);
                                assert(b.len() > 0);
                                assert((a + b).last() == b.last());
                            }
                        }
                        assert(joined.last() != crate::paths::parent_comp());
                        assert(spec_normalize(joined) == spec_normalize(joined.drop_last()).push(
                            joined.last(),
                        ));
                    }
                }
                Ok(r)
            },
        }
    }
}

} // verus!
