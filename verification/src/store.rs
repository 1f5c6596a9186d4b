use vstd::prelude::*;

use crate::errors::BuildError;
use crate::item::spec_file_name;
use crate::paths::{
    join_absolute, join_relative, spec_components, spec_is_absolute, spec_join_abs, spec_join_rel,
    split_components, views,
};

verus! {

// The per-target build record lives in a sibling file whose name is the
// target's own filename under a fixed dotted prefix. Reading and decoding
// the record is the caller's affair; the store itself only fixes where the
// record lives.

/// The fixed prefix `.redonk.` of every state filename.
pub open spec fn redonk_prefix() -> Seq<char> {
    seq!['.', 'r', 'e', 'd', 'o', 'n', 'k', '.']
}

/// Where the record for the target named `name` lives: a sibling file named
/// by the prefix and the target's filename.
pub open spec fn spec_state_file(name: Seq<char>) -> Seq<char> {
    let cs = spec_components(name);
    let f = redonk_prefix() + cs.last();
    if spec_is_absolute(name) {
        spec_join_abs(cs.drop_last().push(f))
    } else {
        spec_join_rel(cs.drop_last().push(f))
    }
}

/// The build-state store: a naming convention over sibling files.
#[derive(Debug)]
pub struct Store;

impl Store {
    /// A fresh handle on the store.
    pub fn new() -> (r: Result<Store, BuildError>)
        ensures
            r is Ok,
    {
        Ok(Store)
    }

    /// The path of the record for the target named `name`. A path with no
    /// filename has no record.
    pub fn state_file_of(&self, name: &String) -> (r: Result<String, BuildError>)
        ensures
            match r {
                Ok(p) => spec_file_name(name@) is Some && p@ == spec_state_file(name@),
                Err(e) => spec_file_name(name@) is None && e is PathEncoding,
            },
    {
        let absolute = crate::paths::is_absolute(name.as_str());
        let mut cs = split_components(name.as_str());
        if cs.len() == 0 {
            return Err(BuildError::PathEncoding { detail: name.clone() });
        }
        let last = &cs[cs.len() - 1];
        if crate::paths::is_parent_str(last.as_str()) {
            return Err(BuildError::PathEncoding { detail: name.clone() });
        }
        let ghost full = views(cs@);
        let mut state_fname = String::from_str(".redonk.");
        state_fname.append(cs[cs.len() - 1].as_str());
        proof {
            reveal_strlit(".redonk.");
            assert((".redonk.")@ =~= redonk_prefix());
            assert(state_fname@ =~= redonk_prefix() + full.last());
        }
        cs.pop();
        cs.push(state_fname);
        proof {
            assert(views(cs@) =~= full.drop_last().push(redonk_prefix() + full.last()));
        }
        if absolute {
            Ok(join_absolute(&cs))
        } else {
            Ok(join_relative(&cs))
        }
    }
}

} // verus!
