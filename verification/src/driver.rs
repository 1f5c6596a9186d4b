use vstd::prelude::*;

use crate::builder::{spec_base_of, Builder, CommandPlan, Promotion};
use crate::errors::{BuildError, IoKind};
use crate::item::{spec_file_name, spec_resolved_comps, Item};
use crate::paths::{is_absolute, spec_components, spec_is_absolute, spec_join_rel};
use crate::relpath::spec_relative_comps;
use crate::search::{probe_answered, spec_find_builder_result};
use crate::store::Store;

verus! {

// Driving a build: what the tool decides is verified here; what it does to
// the world (probe a path, create a scratch file, run a script, rename)
// is handed in as a context of operations, and every decision between two
// operations is proved against what the operations reported. Success and
// every kind of failure are tied to those reports: a body that fails
// without having been failed by an operation meets no contract below.

/// The run operation reported an exit with the given success flag and code
/// for some command it was handed.
pub open spec fn ran_exit<FR: Fn(CommandPlan) -> Result<(bool, Option<i32>), String>>(
    run: FR,
    ok: bool,
    code: Option<i32>,
) -> bool {
    exists|p: CommandPlan| #[trigger] call_ensures(run, (p,), Ok((ok, code)))
}

/// The run operation reported success for some command it was handed.
pub open spec fn ran_ok<FR: Fn(CommandPlan) -> Result<(bool, Option<i32>), String>>(
    run: FR,
) -> bool {
    exists|c: Option<i32>| #[trigger] ran_exit(run, true, c)
}

/// The rename operation reported moving some file onto the path `dst`.
pub open spec fn renamed_onto<FN: Fn(String, String) -> Result<(), String>>(
    rename: FN,
    dst: Seq<char>,
) -> bool {
    exists|a: String, b: String| b@ == dst && #[trigger] call_ensures(rename, (a, b), Ok(()))
}

/// The operation `f` reported failing with detail `d` for some argument.
pub open spec fn op_failed<A, X, F: Fn(A) -> Result<X, String>>(f: F, d: String) -> bool {
    exists|q: A| #[trigger] call_ensures(f, (q,), Err(d))
}

/// The rename operation reported failing with detail `d` for some pair.
pub open spec fn rename_failed<FN: Fn(String, String) -> Result<(), String>>(
    f: FN,
    d: String,
) -> bool {
    exists|a: String, b: String| #[trigger] call_ensures(f, (a, b), Err(d))
}

/// The allocation operation handed back the path `path` for some target.
pub open spec fn alloc_returned<FA: Fn(String) -> Result<String, String>>(
    f: FA,
    path: Seq<char>,
) -> bool {
    exists|q: String, p: String| p@ == path && #[trigger] call_ensures(f, (q,), Ok(p))
}

/// The size operation reported the file at `path` absent.
pub open spec fn size_reported_absent<FS: Fn(String) -> Result<Option<u64>, String>>(
    f: FS,
    path: Seq<char>,
) -> bool {
    exists|q: String| q@ == path && #[trigger] call_ensures(f, (q,), Ok(None::<u64>))
}

/// The operations one build needs from the world, as a per-invocation
/// context: probing a path for existence, allocating a scratch file beside
/// the target, reading a file's permission bits, running a planned command,
/// reading a file's size (`None` when absent), and renaming a file. Each
/// reports failure as a detail string.
pub struct BuildContext<FE, FA, FM, FR, FS, FN> where
    FE: Fn(String) -> Result<bool, String>,
    FA: Fn(String) -> Result<String, String>,
    FM: Fn(String) -> Result<u32, String>,
    FR: Fn(CommandPlan) -> Result<(bool, Option<i32>), String>,
    FS: Fn(String) -> Result<Option<u64>, String>,
    FN: Fn(String, String) -> Result<(), String>,
 {
    pub fs_exists: FE,
    pub alloc_temp: FA,
    pub stat_mode: FM,
    pub run: FR,
    pub file_size: FS,
    pub rename: FN,
}

impl<FE, FA, FM, FR, FS, FN> BuildContext<FE, FA, FM, FR, FS, FN> where
    FE: Fn(String) -> Result<bool, String>,
    FA: Fn(String) -> Result<String, String>,
    FM: Fn(String) -> Result<u32, String>,
    FR: Fn(CommandPlan) -> Result<(bool, Option<i32>), String>,
    FS: Fn(String) -> Result<Option<u64>, String>,
    FN: Fn(String, String) -> Result<(), String>,
 {
    /// Every operation accepts every argument.
    pub open spec fn wf(&self) -> bool {
        &&& forall|p: String| #[trigger] call_requires(self.fs_exists, (p,))
        &&& forall|p: String| #[trigger] call_requires(self.alloc_temp, (p,))
        &&& forall|p: String| #[trigger] call_requires(self.stat_mode, (p,))
        &&& forall|p: CommandPlan| #[trigger] call_requires(self.run, (p,))
        &&& forall|p: String| #[trigger] call_requires(self.file_size, (p,))
        &&& forall|a: String, b: String| #[trigger] call_requires(self.rename, (a, b))
    }
}

/// How running the rule `b` against the target named `target_name` can
/// fail. Every arm is tied to what an operation reported or to a decision
/// this library fixes: a failed script comes with its reported exit code; a
/// dual-output error only after a reported success; a mismatched generic
/// rule pins the exact base-name inconsistency; a path error means the
/// target has no filename or an allocated scratch path was not absolute;
/// an I/O error carries the very detail some operation reported (or names
/// the scratch file the size operation reported missing).
pub open spec fn spec_perform_err<FE, FA, FM, FR, FS, FN>(
    b: Builder,
    target_name: Seq<char>,
    cwd: Seq<char>,
    ctx: BuildContext<FE, FA, FM, FR, FS, FN>,
    e: BuildError,
) -> bool where
    FE: Fn(String) -> Result<bool, String>,
    FA: Fn(String) -> Result<String, String>,
    FM: Fn(String) -> Result<u32, String>,
    FR: Fn(CommandPlan) -> Result<(bool, Option<i32>), String>,
    FS: Fn(String) -> Result<Option<u64>, String>,
    FN: Fn(String, String) -> Result<(), String>,
 {
    match e {
        BuildError::ScriptFailed { dofile, code } => dofile@ == b.dofile@ && ran_exit(
            ctx.run,
            false,
            code,
        ),
        BuildError::DualOutput { dofile } => dofile@ == b.dofile@ && ran_ok(ctx.run),
        BuildError::RuleNotFound { target: t } => {
            &&& b.default
            &&& spec_file_name(target_name) is Some
            &&& ({
                let full = spec_components(b.dofile@);
                let tname = spec_join_rel(
                    spec_relative_comps(spec_resolved_comps(cwd, target_name), full.drop_last()),
                );
                spec_base_of(full.last(), tname) is None && t@ == tname
            })
        },
        BuildError::PathEncoding { detail } => spec_file_name(target_name) is None || (
        !spec_is_absolute(detail@) && alloc_returned(ctx.alloc_temp, detail@)),
        BuildError::Io { kind, detail } => {
            if kind is NotFound {
                size_reported_absent(ctx.file_size, detail@)
            } else {
                ||| op_failed(ctx.alloc_temp, detail)
                ||| op_failed(ctx.stat_mode, detail)
                ||| op_failed(ctx.run, detail)
                ||| op_failed(ctx.file_size, detail)
                ||| rename_failed(ctx.rename, detail)
            }
        },
        BuildError::StateDecode { .. } => false,
    }
}

impl Builder {
    /// Whether the permission bits mark the rule file as directly
    /// runnable: any executable bit counts.
    pub fn is_executable(&self, mode_bits: u32) -> (r: bool)
        ensures
            r == (mode_bits & 0o111 != 0),
    {
        mode_bits & 0o111 != 0
    }

    /// Runs this rule to build `target`: allocates the two scratch files,
    /// plans and runs the command, and promotes the one result channel the
    /// script used onto the target — or fails without promoting anything.
    /// Success is reported only once the script reported success and a
    /// scratch file was renamed onto the target's path; every failure is
    /// tied by `spec_perform_err` to what an operation reported.
    pub fn perform<FE, FA, FM, FR, FS, FN>(
        &self,
        target: &Item,
        xtrace: bool,
        cwd: &String,
        ctx: &BuildContext<FE, FA, FM, FR, FS, FN>,
    ) -> (r: Result<(), BuildError>) where
        FE: Fn(String) -> Result<bool, String>,
        FA: Fn(String) -> Result<String, String>,
        FM: Fn(String) -> Result<u32, String>,
        FR: Fn(CommandPlan) -> Result<(bool, Option<i32>), String>,
        FS: Fn(String) -> Result<Option<u64>, String>,
        FN: Fn(String, String) -> Result<(), String>,

        requires
            self.wf(),
            spec_is_absolute(cwd@),
            ctx.wf(),
        ensures
            match r {
                Ok(_) => ran_ok(ctx.run) && renamed_onto(ctx.rename, target.name@),
                Err(e) => spec_perform_err(*self, target.name@, cwd@, *ctx, e),
            },
    {
        let target_abs = match target.abs_path(cwd) {
            Ok(p) => p,
            Err(e) => {
                proof {
                    assert(spec_perform_err(*self, target.name@, cwd@, *ctx, e));
                }
                return Err(e);
            },
        };
        let a1 = target_abs.clone();
        let ghost ga1 = a1;
        let stdout_temp = match (ctx.alloc_temp)(a1) {
            Ok(p) => p,
            Err(d) => {
                proof {
                    assert(call_ensures(ctx.alloc_temp, (ga1,), Err::<String, String>(d)));
                    assert(op_failed(ctx.alloc_temp, d));
                    assert(spec_perform_err(
                        *self,
                        target.name@,
                        cwd@,
                        *ctx,
                        BuildError::Io { kind: IoKind::Other, detail: d },
                    ));
                }
                return Err(BuildError::Io { kind: IoKind::Other, detail: d });
            },
        };
        let a2 = target_abs.clone();
        let ghost ga2 = a2;
        let named_temp = match (ctx.alloc_temp)(a2) {
            Ok(p) => p,
            Err(d) => {
                proof {
                    assert(call_ensures(ctx.alloc_temp, (ga2,), Err::<String, String>(d)));
                    assert(op_failed(ctx.alloc_temp, d));
                    assert(spec_perform_err(
                        *self,
                        target.name@,
                        cwd@,
                        *ctx,
                        BuildError::Io { kind: IoKind::Other, detail: d },
                    ));
                }
                return Err(BuildError::Io { kind: IoKind::Other, detail: d });
            },
        };
        let ghost gnamed = named_temp;
        if !is_absolute(named_temp.as_str()) {
            proof {
                assert(call_ensures(ctx.alloc_temp, (ga2,), Ok::<String, String>(gnamed)));
                assert(alloc_returned(ctx.alloc_temp, gnamed@));
                assert(spec_perform_err(
                    *self,
                    target.name@,
                    cwd@,
                    *ctx,
                    BuildError::PathEncoding { detail: gnamed },
                ));
            }
            return Err(BuildError::PathEncoding { detail: named_temp });
        }
        let m1 = self.dofile.clone();
        let ghost gm1 = m1;
        let mode = match (ctx.stat_mode)(m1) {
            Ok(m) => m,
            Err(d) => {
                proof {
                    assert(call_ensures(ctx.stat_mode, (gm1,), Err::<u32, String>(d)));
                    assert(op_failed(ctx.stat_mode, d));
                    assert(spec_perform_err(
                        *self,
                        target.name@,
                        cwd@,
                        *ctx,
                        BuildError::Io { kind: IoKind::Other, detail: d },
                    ));
                }
                return Err(BuildError::Io { kind: IoKind::Other, detail: d });
            },
        };
        let executable = self.is_executable(mode);
        let plan = match self.build_command(&target_abs, &stdout_temp, &named_temp, xtrace, executable) {
            Ok(p) => p,
            Err(e) => {
                proof {
                    assert(spec_components(target_abs@) == spec_resolved_comps(
                        cwd@,
                        target.name@,
                    ));
                    assert(spec_perform_err(*self, target.name@, cwd@, *ctx, e));
                }
                return Err(e);
            },
        };
        let ghost gplan = plan;
        let (exit_ok, code) = match (ctx.run)(plan) {
            Ok(rc) => rc,
            Err(d) => {
                proof {
                    assert(call_ensures(
                        ctx.run,
                        (gplan,),
                        Err::<(bool, Option<i32>), String>(d),
                    ));
                    assert(op_failed(ctx.run, d));
                    assert(spec_perform_err(
                        *self,
                        target.name@,
                        cwd@,
                        *ctx,
                        BuildError::Io { kind: IoKind::Other, detail: d },
                    ));
                }
                return Err(BuildError::Io { kind: IoKind::Other, detail: d });
            },
        };
        proof {
            assert(call_ensures(ctx.run, (gplan,), Ok::<(bool, Option<i32>), String>((exit_ok, code))));
            assert(ran_exit(ctx.run, exit_ok, code));
        }
        let s1 = stdout_temp.clone();
        let ghost gs1 = s1;
        let ghost gstdout = stdout_temp;
        let stdout_size = match (ctx.file_size)(s1) {
            Ok(Some(s)) => s,
            Ok(None) => {
                proof {
                    assert(call_ensures(ctx.file_size, (gs1,), Ok::<Option<u64>, String>(None)));
                    assert(size_reported_absent(ctx.file_size, gstdout@));
                    assert(spec_perform_err(
                        *self,
                        target.name@,
                        cwd@,
                        *ctx,
                        BuildError::Io { kind: IoKind::NotFound, detail: gstdout },
                    ));
                }
                return Err(
                    BuildError::Io { kind: IoKind::NotFound, detail: stdout_temp },
                );
            },
            Err(d) => {
                proof {
                    assert(call_ensures(ctx.file_size, (gs1,), Err::<Option<u64>, String>(d)));
                    assert(op_failed(ctx.file_size, d));
                    assert(spec_perform_err(
                        *self,
                        target.name@,
                        cwd@,
                        *ctx,
                        BuildError::Io { kind: IoKind::Other, detail: d },
                    ));
                }
                return Err(BuildError::Io { kind: IoKind::Other, detail: d });
            },
        };
        // the script may delete its named output; an absent file counts as
        // an unused channel
        let s2 = named_temp.clone();
        let ghost gs2 = s2;
        let named_size = match (ctx.file_size)(s2) {
            Ok(Some(s)) => s,
            Ok(None) => 0,
            Err(d) => {
                proof {
                    assert(call_ensures(ctx.file_size, (gs2,), Err::<Option<u64>, String>(d)));
                    assert(op_failed(ctx.file_size, d));
                    assert(spec_perform_err(
                        *self,
                        target.name@,
                        cwd@,
                        *ctx,
                        BuildError::Io { kind: IoKind::Other, detail: d },
                    ));
                }
                return Err(BuildError::Io { kind: IoKind::Other, detail: d });
            },
        };
        let choice = match self.judge_result(exit_ok, code, stdout_size, named_size) {
            Ok(c) => c,
            Err(e) => {
                proof {
                    if !exit_ok {
                        assert(ran_exit(ctx.run, false, code));
                    } else {
                        assert(ran_ok(ctx.run));
                    }
                    assert(spec_perform_err(*self, target.name@, cwd@, *ctx, e));
                }
                return Err(e);
            },
        };
        proof {
            assert(exit_ok);
            assert(ran_ok(ctx.run));
        }
        let src_file = match choice {
            Promotion::Stdout => stdout_temp,
            Promotion::Named => named_temp,
        };
        let dst = target.path().clone();
        let ghost gsrc = src_file;
        let ghost gdst = dst;
        match (ctx.rename)(src_file, dst) {
            Ok(u) => {
                proof {
                    assert(gdst@ == target.name@);
                    assert(call_ensures(ctx.rename, (gsrc, gdst), Ok::<(), String>(u)));
                    assert(u == ());
                    assert(call_ensures(ctx.rename, (gsrc, gdst), Ok::<(), String>(())));
                    assert(renamed_onto(ctx.rename, target.name@));
                }
                Ok(())
            },
            Err(d) => {
                proof {
                    assert(call_ensures(ctx.rename, (gsrc, gdst), Err::<(), String>(d)));
                    assert(rename_failed(ctx.rename, d));
                    assert(spec_perform_err(
                        *self,
                        target.name@,
                        cwd@,
                        *ctx,
                        BuildError::Io { kind: IoKind::Other, detail: d },
                    ));
                }
                Err(BuildError::Io { kind: IoKind::Other, detail: d })
            },
        }
    }
}

/// A target was dealt with successfully: the probe reported it present and
/// it was left alone, or the probe reported it absent, a script reported
/// success, and a scratch file was renamed onto it.
pub open spec fn spec_redo_ok<FE, FR, FN>(
    fs_exists: FE,
    run: FR,
    rename: FN,
    name: Seq<char>,
) -> bool where
    FE: Fn(String) -> Result<bool, String>,
    FR: Fn(CommandPlan) -> Result<(bool, Option<i32>), String>,
    FN: Fn(String, String) -> Result<(), String>,
 {
    ||| probe_answered(fs_exists, name, Ok(true))
    ||| (probe_answered(fs_exists, name, Ok(false)) && ran_ok(run) && renamed_onto(rename, name))
}

/// Why a build of one target failed: the existence probe itself failed
/// with the carried detail; or rule search failed as its own contract
/// states (no filename, every candidate denied, or a probe error); or a
/// rule was found as the search contract states and running it failed as
/// `spec_perform_err` states.
pub open spec fn spec_redo_err<FE, FA, FM, FR, FS, FN>(
    ctx: BuildContext<FE, FA, FM, FR, FS, FN>,
    cwd: Seq<char>,
    name: Seq<char>,
    e: BuildError,
) -> bool where
    FE: Fn(String) -> Result<bool, String>,
    FA: Fn(String) -> Result<String, String>,
    FM: Fn(String) -> Result<u32, String>,
    FR: Fn(CommandPlan) -> Result<(bool, Option<i32>), String>,
    FS: Fn(String) -> Result<Option<u64>, String>,
    FN: Fn(String, String) -> Result<(), String>,
 {
    ||| (match e {
        BuildError::Io { kind, detail } => kind is Other && probe_answered(
            ctx.fs_exists,
            name,
            Err(detail),
        ),
        _ => false,
    })
    ||| spec_find_builder_result(ctx.fs_exists, name, cwd, Err(e))
    ||| (exists|b: Builder|
        #![trigger spec_perform_err(b, name, cwd, ctx, e)]
        spec_find_builder_result(ctx.fs_exists, name, cwd, Ok(b)) && spec_perform_err(
            b,
            name,
            cwd,
            ctx,
            e,
        ))
}

impl Item {
    /// Builds this target if it needs building: a path that already exists
    /// is a source and is left alone; otherwise its rule is found and run.
    /// Success means the target existed, or was absent and a script ran
    /// successfully and its result was renamed onto the target's path; a
    /// failure is one `spec_redo_err` ties to the probe, the search, or
    /// the run.
    pub fn redo<FE, FA, FM, FR, FS, FN>(
        &self,
        xtrace: bool,
        cwd: &String,
        ctx: &BuildContext<FE, FA, FM, FR, FS, FN>,
    ) -> (r: Result<(), BuildError>) where
        FE: Fn(String) -> Result<bool, String>,
        FA: Fn(String) -> Result<String, String>,
        FM: Fn(String) -> Result<u32, String>,
        FR: Fn(CommandPlan) -> Result<(bool, Option<i32>), String>,
        FS: Fn(String) -> Result<Option<u64>, String>,
        FN: Fn(String, String) -> Result<(), String>,

        requires
            spec_is_absolute(cwd@),
            ctx.wf(),
        ensures
            match r {
                Ok(_) => spec_redo_ok(ctx.fs_exists, ctx.run, ctx.rename, self.name@),
                Err(e) => spec_redo_err(*ctx, cwd@, self.name@, e),
            },
    {
        let needs_build = match self.is_target(&ctx.fs_exists) {
            Ok(b) => b,
            Err(e) => {
                proof {
                    assert(spec_redo_err(*ctx, cwd@, self.name@, e));
                }
                return Err(e);
            },
        };
        if needs_build {
            let dofile = match self.find_builder(cwd, &ctx.fs_exists) {
                Ok(b) => b,
                Err(e) => {
                    proof {
                        assert(spec_find_builder_result(ctx.fs_exists, self.name@, cwd@, Err(e)));
                        assert(spec_redo_err(*ctx, cwd@, self.name@, e));
                    }
                    return Err(e);
                },
            };
            proof {
                assert(spec_find_builder_result(ctx.fs_exists, self.name@, cwd@, Ok(dofile)));
            }
            match dofile.perform(self, xtrace, cwd, ctx) {
                Ok(_) => {
                    proof {
                        assert(probe_answered(ctx.fs_exists, self.name@, Ok(false)));
                        assert(spec_redo_ok(ctx.fs_exists, ctx.run, ctx.rename, self.name@));
                    }
                    Ok(())
                },
                Err(e) => {
                    proof {
                        assert(spec_perform_err(dofile, self.name@, cwd@, *ctx, e));
                        assert(spec_redo_err(*ctx, cwd@, self.name@, e));
                    }
                    Err(e)
                },
            }
        } else {
            proof {
                assert(probe_answered(ctx.fs_exists, self.name@, Ok(true)));
                assert(spec_redo_ok(ctx.fs_exists, ctx.run, ctx.rename, self.name@));
            }
            Ok(())
        }
    }
}

/// One target was dealt with: the record that was read for it (or the
/// fresh item made for it) named a path that either already existed or was
/// built and renamed into place.
pub open spec fn spec_target_done<FE, FR, FN, RS>(
    fs_exists: FE,
    run: FR,
    rename: FN,
    read_state: RS,
    t: String,
) -> bool where
    FE: Fn(String) -> Result<bool, String>,
    FR: Fn(CommandPlan) -> Result<(bool, Option<i32>), String>,
    FN: Fn(String, String) -> Result<(), String>,
    RS: Fn(String) -> Result<Option<Item>, BuildError>,
 {
    exists|it: Item|
        #![trigger call_ensures(read_state, (t,), Ok(Some(it)))]
        #![trigger spec_redo_ok(fs_exists, run, rename, it.name@)]
        {
            &&& (call_ensures(read_state, (t,), Ok(Some(it))) || (it.name@ == t@
                && it.uptodate is None))
            &&& spec_redo_ok(fs_exists, run, rename, it.name@)
        }
}

/// One target stopped the run: reading its record failed with exactly this
/// error, or the record (or fresh item) was obtained and building it
/// failed as `spec_redo_err` states.
pub open spec fn spec_target_failed<FE, FA, FM, FR, FS, FN, RS>(
    ctx: BuildContext<FE, FA, FM, FR, FS, FN>,
    cwd: Seq<char>,
    read_state: RS,
    t: String,
    e: BuildError,
) -> bool where
    FE: Fn(String) -> Result<bool, String>,
    FA: Fn(String) -> Result<String, String>,
    FM: Fn(String) -> Result<u32, String>,
    FR: Fn(CommandPlan) -> Result<(bool, Option<i32>), String>,
    FS: Fn(String) -> Result<Option<u64>, String>,
    FN: Fn(String, String) -> Result<(), String>,
    RS: Fn(String) -> Result<Option<Item>, BuildError>,
 {
    ||| call_ensures(read_state, (t,), Err::<Option<Item>, BuildError>(e))
    ||| (exists|it: Item|
        #![trigger call_ensures(read_state, (t,), Ok(Some(it)))]
        #![trigger spec_redo_err(ctx, cwd, it.name@, e)]
        {
            &&& (call_ensures(read_state, (t,), Ok(Some(it))) || (it.name@ == t@
                && it.uptodate is None))
            &&& spec_redo_err(ctx, cwd, it.name@, e)
        })
}

/// Builds every target in the list, in order: each target's record is read
/// (a missing record means a fresh target), and the target is rebuilt
/// unless it already exists. An empty list always succeeds; the first
/// failing target stops the run, after every target before it was dealt
/// with, and its error is tied to what the operations reported.
pub fn redo_ifchange<FE, FA, FM, FR, FS, FN, RS>(
    _store: &mut Store,
    targets: &Vec<String>,
    xtrace: bool,
    cwd: &String,
    ctx: &BuildContext<FE, FA, FM, FR, FS, FN>,
    read_state: &RS,
) -> (r: Result<(), BuildError>) where
    FE: Fn(String) -> Result<bool, String>,
    FA: Fn(String) -> Result<String, String>,
    FM: Fn(String) -> Result<u32, String>,
    FR: Fn(CommandPlan) -> Result<(bool, Option<i32>), String>,
    FS: Fn(String) -> Result<Option<u64>, String>,
    FN: Fn(String, String) -> Result<(), String>,
    RS: Fn(String) -> Result<Option<Item>, BuildError>,

    requires
        spec_is_absolute(cwd@),
        ctx.wf(),
        forall|p: String| #[trigger] call_requires(*read_state, (p,)),
    ensures
        targets@.len() == 0 ==> r is Ok,
        r is Ok ==> forall|i: int|
            0 <= i < targets@.len() ==> spec_target_done(
                ctx.fs_exists,
                ctx.run,
                ctx.rename,
                *read_state,
                #[trigger] targets@[i],
            ),
        match r {
            Err(e) => exists|i: int|
                #![trigger targets@[i]]
                {
                    &&& 0 <= i < targets@.len()
                    &&& (forall|j: int|
                        0 <= j < i ==> spec_target_done(
                            ctx.fs_exists,
                            ctx.run,
                            ctx.rename,
                            *read_state,
                            #[trigger] targets@[j],
                        ))
                    &&& spec_target_failed(*ctx, cwd@, *read_state, targets@[i], e)
                },
            _ => true,
        },
{
    let n = targets.len();
    let mut i: usize = 0;
    while i < n
        invariant
            i <= n,
            n == targets@.len(),
            spec_is_absolute(cwd@),
            ctx.wf(),
            forall|p: String| #[trigger] call_requires(*read_state, (p,)),
            forall|j: int|
                0 <= j < i ==> spec_target_done(
                    ctx.fs_exists,
                    ctx.run,
                    ctx.rename,
                    *read_state,
                    #[trigger] targets@[j],
                ),
        decreases n - i,
    {
        let t = targets[i].clone();
        let ghost gt = t;
        let rec = match read_state(t) {
            Ok(o) => o,
            Err(e) => {
                proof {
                    assert(call_ensures(*read_state, (gt,), Err::<Option<Item>, BuildError>(e)));
                    assert(gt == targets@[i as int]);
                    assert(spec_target_failed(*ctx, cwd@, *read_state, targets@[i as int], e));
                }
                return Err(e);
            },
        };
        let ghost grec = rec;
        let it = match rec {
            Some(it) => it,
            None => Item::new_target(&targets[i]),
        };
        proof {
            assert(call_ensures(*read_state, (gt,), Ok::<Option<Item>, BuildError>(grec)));
            assert(gt == targets@[i as int]);
            match grec {
                Some(git) => {
                    assert(git == it);
                    assert(call_ensures(
                        *read_state,
                        (targets@[i as int],),
                        Ok::<Option<Item>, BuildError>(Some(it)),
                    ));
                },
                None => {
                    assert(it.name@ == targets@[i as int]@ && it.uptodate is None);
                },
            }
        }
        match it.redo(xtrace, cwd, ctx) {
            Ok(_) => {
                proof {
                    assert(spec_target_done(
                        ctx.fs_exists,
                        ctx.run,
                        ctx.rename,
                        *read_state,
                        targets@[i as int],
                    ));
                }
            },
            Err(e) => {
                proof {
                    assert(spec_redo_err(*ctx, cwd@, it.name@, e));
                    assert(spec_target_failed(*ctx, cwd@, *read_state, targets@[i as int], e));
                }
                return Err(e);
            },
        }
        i = i + 1;
    }
    Ok(())
}

/// Forces a rebuild of every target in the list. With no change tracking
/// yet, forcing and building-if-changed coincide: everything whose output
/// file is absent is rebuilt.
pub fn redo<FE, FA, FM, FR, FS, FN, RS>(
    store: &mut Store,
    targets: &Vec<String>,
    xtrace: bool,
    cwd: &String,
    ctx: &BuildContext<FE, FA, FM, FR, FS, FN>,
    read_state: &RS,
) -> (r: Result<(), BuildError>) where
    FE: Fn(String) -> Result<bool, String>,
    FA: Fn(String) -> Result<String, String>,
    FM: Fn(String) -> Result<u32, String>,
    FR: Fn(CommandPlan) -> Result<(bool, Option<i32>), String>,
    FS: Fn(String) -> Result<Option<u64>, String>,
    FN: Fn(String, String) -> Result<(), String>,
    RS: Fn(String) -> Result<Option<Item>, BuildError>,

    requires
        spec_is_absolute(cwd@),
        ctx.wf(),
        forall|p: String| #[trigger] call_requires(*read_state, (p,)),
    ensures
        targets@.len() == 0 ==> r is Ok,
        r is Ok ==> forall|i: int|
            0 <= i < targets@.len() ==> spec_target_done(
                ctx.fs_exists,
                ctx.run,
                ctx.rename,
                *read_state,
                #[trigger] targets@[i],
            ),
        match r {
            Err(e) => exists|i: int|
                #![trigger targets@[i]]
                {
                    &&& 0 <= i < targets@.len()
                    &&& (forall|j: int|
                        0 <= j < i ==> spec_target_done(
                            ctx.fs_exists,
                            ctx.run,
                            ctx.rename,
                            *read_state,
                            #[trigger] targets@[j],
                        ))
                    &&& spec_target_failed(*ctx, cwd@, *read_state, targets@[i], e)
                },
            _ => true,
        },
{
    redo_ifchange(store, targets, xtrace, cwd, ctx, read_state)
}

/// Records interest in files that do not exist yet. Tracking is not
/// implemented, so this does nothing and succeeds.
pub fn redo_ifcreate(_store: &mut Store, _targets: &Vec<String>, _xtrace: bool) -> (r: Result<
    (),
    BuildError,
>)
    ensures
        r is Ok,
{
    Ok(())
}

} // verus!
