use redonk::optionally_exists;
use redonk::BuildError;
use redonk::Builder;
use redonk::IoKind;
use redonk::Promotion;

fn generic_rule() -> Builder {
    Builder::new(String::from("/r/a/default.c.do"), true)
}

fn specific_rule() -> Builder {
    Builder::new(String::from("/r/a/b/x.c.do"), false)
}

#[test]
fn base_of_strips_the_generic_suffix() {
    assert_eq!(
        generic_rule().base_of(&String::from("b/x.c")).unwrap(),
        "b/x"
    );
}

#[test]
fn base_of_keeps_the_name_for_a_specific_rule() {
    assert_eq!(
        specific_rule().base_of(&String::from("x.c")).unwrap(),
        "x.c"
    );
}

#[test]
fn base_of_rejects_a_mismatched_generic_suffix() {
    let b = Builder::new(String::from("/r/a/default.o.do"), true);
    let r = b.base_of(&String::from("b/x.c"));
    assert!(matches!(r, Err(BuildError::RuleNotFound { .. })));
}

#[test]
fn build_command_plans_a_shell_invocation() {
    let b = generic_rule();
    let plan = b
        .build_command(
            &String::from("/r/a/b/x.c"),
            &String::from("/r/a/b/.tmpf-redonk-1"),
            &String::from("/r/a/b/.tmpf-redonk-2"),
            false,
            false,
        )
        .unwrap();
    assert_eq!(plan.program, "sh");
    assert_eq!(
        plan.args,
        vec![
            String::from("-e"),
            String::from("/r/a/default.c.do"),
            String::from("b/x.c"),
            String::from("b/x"),
            String::from("b/.tmpf-redonk-2"),
        ]
    );
    assert_eq!(plan.cwd, "/r/a");
    assert_eq!(plan.stdout_file, "/r/a/b/.tmpf-redonk-1");
    assert_eq!(plan.env_name, "DO_BUILT");
    assert_eq!(plan.env_value, "t");
}

#[test]
fn build_command_adds_trace_flag_when_asked() {
    let b = generic_rule();
    let plan = b
        .build_command(
            &String::from("/r/a/b/x.c"),
            &String::from("/r/a/b/.tmpf-redonk-1"),
            &String::from("/r/a/b/.tmpf-redonk-2"),
            true,
            false,
        )
        .unwrap();
    assert_eq!(plan.args[0], "-e");
    assert_eq!(plan.args[1], "-x");
    assert_eq!(plan.args[2], "/r/a/default.c.do");
}

#[test]
fn build_command_runs_an_executable_rule_directly() {
    let b = specific_rule();
    let plan = b
        .build_command(
            &String::from("/r/a/b/x.c"),
            &String::from("/r/a/b/.tmpf-redonk-1"),
            &String::from("/r/a/b/.tmpf-redonk-2"),
            false,
            true,
        )
        .unwrap();
    assert_eq!(plan.program, "/r/a/b/x.c.do");
    assert_eq!(
        plan.args,
        vec![
            String::from("x.c"),
            String::from("x.c"),
            String::from(".tmpf-redonk-2"),
        ]
    );
    assert_eq!(plan.cwd, "/r/a/b");
}

#[test]
fn judge_result_rejects_a_failed_script() {
    let b = specific_rule();
    let r = b.judge_result(false, Some(2), 0, 0);
    match r {
        Err(BuildError::ScriptFailed { dofile, code }) => {
            assert_eq!(dofile, "/r/a/b/x.c.do");
            assert_eq!(code, Some(2));
        }
        other => panic!("expected a script failure, got {:?}", other),
    }
}

#[test]
fn judge_result_promotes_stdout_when_the_named_file_is_unused() {
    let b = specific_rule();
    assert_eq!(b.judge_result(true, Some(0), 0, 0).unwrap(), Promotion::Stdout);
    assert_eq!(b.judge_result(true, Some(0), 5, 0).unwrap(), Promotion::Stdout);
}

#[test]
fn judge_result_promotes_the_named_file_when_stdout_is_silent() {
    let b = specific_rule();
    assert_eq!(b.judge_result(true, Some(0), 0, 9).unwrap(), Promotion::Named);
}

#[test]
fn judge_result_rejects_dual_output() {
    let b = specific_rule();
    let r = b.judge_result(true, Some(0), 3, 9);
    assert!(matches!(r, Err(BuildError::DualOutput { .. })));
}

#[test]
fn executable_bits_mark_a_rule_runnable() {
    let b = specific_rule();
    assert!(b.is_executable(0o755));
    assert!(b.is_executable(0o100));
    assert!(!b.is_executable(0o644));
}

#[test]
fn optionally_exists_keeps_only_absence_recoverable() {
    let ok: Result<u32, BuildError> = Ok(5);
    assert_eq!(optionally_exists(ok).unwrap(), Some(5));

    let missing: Result<u32, BuildError> = Err(BuildError::Io {
        kind: IoKind::NotFound,
        detail: String::from("gone"),
    });
    assert_eq!(optionally_exists(missing).unwrap(), None);

    let fatal: Result<u32, BuildError> = Err(BuildError::Io {
        kind: IoKind::Other,
        detail: String::from("denied"),
    });
    assert!(optionally_exists(fatal).is_err());
}
