use vstd::prelude::*;

use crate::errors::BuildError;
use crate::paths::{
    join_absolute, lemma_components_of_join_abs, lemma_components_wf, no_parent, spec_components,
    spec_is_absolute, spec_join_abs, spec_join_rel, split_components, views, wf_comp, wf_comps,
};
use crate::relpath::{relative_to_dir, spec_relative_comps};

verus! {

// A discovered rule file, and the decisions taken around running it: which
// base name a generic rule is handed, and which scratch file (if any) is
// promoted to the target once the script has run.

/// The filename prefix `default` that marks a generic rule.
pub open spec fn default_prefix() -> Seq<char> {
    seq!['d', 'e', 'f', 'a', 'u', 'l', 't']
}

/// The filename suffix `.do` of every rule file.
pub open spec fn do_suffix() -> Seq<char> {
    seq!['.', 'd', 'o']
}

/// `s` starts with `p`.
pub open spec fn spec_starts_with(s: Seq<char>, p: Seq<char>) -> bool {
    p.len() <= s.len() && s.take(p.len() as int) == p
}

/// The base name a rule is handed as its second argument: for a generic
/// rule (filename `default<tail>.do`) the target name must end in exactly
/// `<tail>`, which is stripped; a specific rule gets the target name whole.
/// `None` marks the inconsistency of a generic rule whose tail is not the
/// target's tail (or a rule filename too short to carry both `default` and
/// `.do`).
pub open spec fn spec_base_of(pattern: Seq<char>, target: Seq<char>) -> Option<Seq<char>> {
    if !spec_starts_with(pattern, default_prefix()) {
        Some(target)
    } else if pattern.len() < 10 {
        None
    } else {
        let p_tail = pattern.subrange(7, pattern.len() - 3);
        if p_tail.len() <= target.len() && target.skip(target.len() - p_tail.len()) == p_tail {
            Some(target.take(target.len() - p_tail.len()))
        } else {
            None
        }
    }
}

/// Which scratch file becomes the target after a successful run.
#[derive(Debug, Clone, Copy, PartialEq, Eq, Structural)]
pub enum Promotion {
    /// Promote the file that captured the script's standard output.
    Stdout,
    /// Promote the file the script was told to write to.
    Named,
}

/// A build rule: the script that builds the target.
#[derive(Debug)]
pub struct Builder {
    /// Absolute, normalized path of the rule file.
    pub dofile: String,
    /// The rule was matched by a generic `default<tail>.do` name.
    pub default: bool,
}

impl Builder {
    /// The rule file's path is absolute, normalized, and names a file.
    pub open spec fn wf(&self) -> bool {
        &&& spec_is_absolute(self.dofile@)
        &&& spec_components(self.dofile@).len() > 0
        &&& no_parent(spec_components(self.dofile@))
    }

    /// A rule at an already-normalized absolute path.
    pub fn new(dofile: String, default: bool) -> (r: Builder)
        requires
            spec_is_absolute(dofile@),
            spec_components(dofile@).len() > 0,
            no_parent(spec_components(dofile@)),
        ensures
            r.dofile@ == dofile@,
            r.default == default,
            r.wf(),
    {
        Builder { dofile, default }
    }

    /// The base name handed to the script as its second argument: the
    /// target name with a generic rule's own suffix stripped. A generic
    /// rule whose suffix is not the target's is an inconsistency between
    /// the match and the rule name, reported as no rule for the target.
    pub fn base_of(&self, target_name: &String) -> (r: Result<String, BuildError>)
        requires
            self.wf(),
        ensures
            ({
                let pattern = spec_components(self.dofile@).last();
                match r {
                    Ok(b) => spec_base_of(pattern, target_name@) == Some(b@),
                    Err(e) => spec_base_of(pattern, target_name@) is None && (match e {
                        BuildError::RuleNotFound { target: t } => t@ == target_name@,
                        _ => false,
                    }),
                }
            }),
    {
        let cs = crate::paths::split_components(self.dofile.as_str());
        let pattern = cs[cs.len() - 1].clone();
        let ghost pat = spec_components(self.dofile@).last();
        proof {
            assert(pattern@ == pat);
        }
        let plen = pattern.as_str().unicode_len();
        let is_default_name = plen >= 7 && {
            let head = String::from_str(pattern.as_str().substring_char(0, 7));
            let lit = String::from_str("default");
            proof {
                reveal_strlit("default");
                assert(lit@ =~= default_prefix());
            }
            head == lit
        };
        proof {
            if is_default_name {
                assert(pat.take(7) == default_prefix());
            } else {
                if spec_starts_with(pat, default_prefix()) {
                    assert(pat.len() >= 7);
                    assert(pat.subrange(0, 7) == pat.take(7));
                }
            }
        }
        if !is_default_name {
            return Ok(target_name.clone());
        }
        if plen < 10 {
            return Err(BuildError::RuleNotFound { target: target_name.clone() });
        }
        let p_tail = String::from_str(pattern.as_str().substring_char(7, plen - 3));
        let tlen = target_name.as_str().unicode_len();
        let ptl = p_tail.as_str().unicode_len();
        if ptl > tlen {
            return Err(BuildError::RuleNotFound { target: target_name.clone() });
        }
        let t_tail = String::from_str(target_name.as_str().substring_char(tlen - ptl, tlen));
        proof {
            assert(p_tail@ == pat.subrange(7, pat.len() - 3));
            assert(t_tail@ == target_name@.skip(target_name@.len() - p_tail@.len()));
        }
        if p_tail == t_tail {
            let base = String::from_str(target_name.as_str().substring_char(0, tlen - ptl));
            proof {
                assert(base@ == target_name@.take(target_name@.len() - p_tail@.len()));
            }
            Ok(base)
        } else {
            Err(BuildError::RuleNotFound { target: target_name.clone() })
        }
    }

    /// What to do with the two scratch files once the script has finished:
    /// a failed script promotes nothing; a successful one must have used at
    /// most one of its two result channels, and the one it used (standard
    /// output when neither) is promoted.
    pub fn judge_result(
        &self,
        exit_ok: bool,
        exit_code: Option<i32>,
        stdout_size: u64,
        named_size: u64,
    ) -> (r: Result<Promotion, BuildError>)
        ensures
            !exit_ok ==> r == Err::<Promotion, BuildError>(
                BuildError::ScriptFailed { dofile: self.dofile, code: exit_code },
            ),
            exit_ok && named_size == 0 ==> r == Ok::<Promotion, BuildError>(Promotion::Stdout),
            exit_ok && stdout_size == 0 && named_size > 0 ==> r == Ok::<Promotion, BuildError>(
                Promotion::Named,
            ),
            exit_ok && stdout_size > 0 && named_size > 0 ==> r == Err::<Promotion, BuildError>(
                BuildError::DualOutput { dofile: self.dofile },
            ),
            r is Ok ==> exit_ok,
    {
        if !exit_ok {
            Err(BuildError::ScriptFailed { dofile: self.dofile.clone(), code: exit_code })
        } else if named_size == 0 {
            Ok(Promotion::Stdout)
        } else if stdout_size == 0 {
            Ok(Promotion::Named)
        } else {
            Err(BuildError::DualOutput { dofile: self.dofile.clone() })
        }
    }
}

/// The word `sh`: the interpreter for a rule file with no executable bit.
pub open spec fn sh_word() -> Seq<char> {
    seq!['s', 'h']
}

/// The shell option `-e`: abort on the first failing command.
pub open spec fn opt_e() -> Seq<char> {
    seq!['-', 'e']
}

/// The shell option `-x`: trace the commands as they run.
pub open spec fn opt_x() -> Seq<char> {
    seq!['-', 'x']
}

/// The environment marker `DO_BUILT` every script runs under.
pub open spec fn env_built_name() -> Seq<char> {
    seq!['D', 'O', '_', 'B', 'U', 'I', 'L', 'T']
}

/// Its value, `t`.
pub open spec fn env_built_value() -> Seq<char> {
    seq!['t']
}

/// Everything needed to run a rule script: the program and its arguments,
/// the directory to run it in, the file its standard output is captured
/// into, and the environment marker to set.
#[derive(Debug)]
pub struct CommandPlan {
    pub program: String,
    pub args: Vec<String>,
    pub cwd: String,
    pub stdout_file: String,
    pub env_name: String,
    pub env_value: String,
}

impl Builder {
    /// The full plan for running this rule against `target_abs`: the script
    /// runs from its own directory, is handed the target path and base name
    /// relative to that directory as its first two arguments and the named
    /// scratch file as its third, with standard output captured into the
    /// other scratch file. A rule with no executable bit runs under
    /// `sh -e` (plus `-x` when tracing).
    pub fn build_command(
        &self,
        target_abs: &String,
        stdout_temp: &String,
        named_temp: &String,
        xtrace: bool,
        executable: bool,
    ) -> (r: Result<CommandPlan, BuildError>)
        requires
            self.wf(),
            spec_is_absolute(target_abs@),
            spec_is_absolute(named_temp@),
        ensures
            ({
                let full = spec_components(self.dofile@);
                let bdir = full.drop_last();
                let tname = spec_join_rel(
                    spec_relative_comps(spec_components(target_abs@), bdir),
                );
                let trel = spec_join_rel(spec_relative_comps(spec_components(named_temp@), bdir));
                let base = spec_base_of(full.last(), tname);
                match r {
                    Ok(plan) => {
                        &&& plan.cwd@ == spec_join_abs(bdir)
                        &&& plan.stdout_file@ == stdout_temp@
                        &&& plan.env_name@ == env_built_name()
                        &&& plan.env_value@ == env_built_value()
                        &&& (self.default ==> base is Some)
                        &&& ({
                            let b = if self.default {
                                base.unwrap()
                            } else {
                                tname
                            };
                            if executable {
                                &&& plan.program@ == self.dofile@
                                &&& views(plan.args@) == seq![tname, b, trel]
                            } else {
                                &&& plan.program@ == sh_word()
                                &&& views(plan.args@) == (if xtrace {
                                    seq![opt_e(), opt_x(), self.dofile@, tname, b, trel]
                                } else {
                                    seq![opt_e(), self.dofile@, tname, b, trel]
                                })
                            }
                        })
                    },
                    Err(e) => self.default && base is None && (match e {
                        BuildError::RuleNotFound { target: t } => t@ == tname,
                        _ => false,
                    }),
                }
            }),
    {
        let ghost full = spec_components(self.dofile@);
        let mut dcs = split_components(self.dofile.as_str());
        dcs.pop();
        proof {
            assert(views(dcs@) =~= full.drop_last());
            lemma_components_wf(self.dofile@);
            assert(wf_comps(views(dcs@))) by {
                assert(forall|i: int|
                    0 <= i < views(dcs@).len() ==> views(dcs@)[i] == full[i] && wf_comp(
                        #[trigger] views(dcs@)[i],
                    ));
            }
            lemma_components_of_join_abs(views(dcs@));
        }
        let builder_dir = join_absolute(&dcs);
        let ghost bdir = full.drop_last();
        proof {
            assert(spec_components(builder_dir@) == bdir);
            assert forall|i: int| 0 <= i < spec_components(builder_dir@).len()
                implies #[trigger] spec_components(builder_dir@)[i]
                != crate::paths::parent_comp() by {
                assert(spec_components(builder_dir@)[i] == bdir[i]);
                assert(bdir[i] == full[i]);
                assert(full[i] != crate::paths::parent_comp());
            }
            crate::paths::lemma_common_len(
                spec_components(target_abs@),
                spec_components(builder_dir@),
            );
            crate::paths::lemma_common_len(
                spec_components(named_temp@),
                spec_components(builder_dir@),
            );
        }
        let target_name = relative_to_dir(target_abs.as_str(), builder_dir.as_str());
        let temp_rel = relative_to_dir(named_temp.as_str(), builder_dir.as_str());
        let target_base = if self.default {
            match self.base_of(&target_name) {
                Ok(b) => b,
                Err(e) => {
                    return Err(e);
                },
            }
        } else {
            target_name.clone()
        };
        let mut args: Vec<String> = Vec::new();
        let program = if executable {
            self.dofile.clone()
        } else {
            let sh = String::from_str("sh");
            args.push(String::from_str("-e"));
            if xtrace {
                args.push(String::from_str("-x"));
            }
            args.push(self.dofile.clone());
            proof {
                reveal_strlit("sh");
                reveal_strlit("-e");
                reveal_strlit("-x");
                assert(sh@ =~= sh_word());
                assert(("-e")@ =~= opt_e());
                assert(("-x")@ =~= opt_x());
                if xtrace {
                    assert(views(args@) =~= seq![opt_e(), opt_x(), self.dofile@]);
                } else {
                    assert(views(args@) =~= seq![opt_e(), self.dofile@]);
                }
            }
            sh
        };
        let ghost prefix = views(args@);
        args.push(target_name);
        args.push(target_base);
        args.push(temp_rel);
        let env_name = String::from_str("DO_BUILT");
        let env_value = String::from_str("t");
        proof {
            reveal_strlit("DO_BUILT");
            reveal_strlit("t");
            assert(env_name@ =~= env_built_name());
            assert(env_value@ =~= env_built_value());
            let tname = spec_join_rel(spec_relative_comps(spec_components(target_abs@), bdir));
            let trel = spec_join_rel(spec_relative_comps(spec_components(named_temp@), bdir));
            let b = if self.default {
                spec_base_of(full.last(), tname).unwrap()
            } else {
                tname
            };
            assert(views(args@) =~= prefix + seq![tname, b, trel]);
            if executable {
                assert(views(args@) =~= seq![tname, b, trel]);
            } else {
                if xtrace {
                    assert(views(args@) =~= seq![opt_e(), opt_x(), self.dofile@, tname, b, trel]);
                } else {
                    assert(views(args@) =~= seq![opt_e(), self.dofile@, tname, b, trel]);
                }
            }
        }
        Ok(
            CommandPlan {
                program,
                args,
                cwd: builder_dir,
                stdout_file: stdout_temp.clone(),
                env_name,
                env_value,
            },
        )
    }
}

} // verus!
