use std::cell::RefCell;
use std::collections::BTreeMap;
use std::rc::Rc;

use redonk::redo;
use redonk::redo_ifchange;
use redonk::redo_ifcreate;
use redonk::BuildContext;
use redonk::BuildError;
use redonk::CommandPlan;
use redonk::Item;
use redonk::Store;

type Files = Rc<RefCell<BTreeMap<String, Vec<u8>>>>;

// A tiny in-memory world: paths map to file contents, every rule file is a
// little script of the form `echo:<text>` (write to standard output),
// `named:<text>` (write into the named output file), `both:<text>` (use
// both channels), or `fail` (exit non-zero).
fn make_ctx(
    files: Files,
    runs: Rc<RefCell<usize>>,
) -> BuildContext<
    impl Fn(String) -> Result<bool, String>,
    impl Fn(String) -> Result<String, String>,
    impl Fn(String) -> Result<u32, String>,
    impl Fn(CommandPlan) -> Result<(bool, Option<i32>), String>,
    impl Fn(String) -> Result<Option<u64>, String>,
    impl Fn(String, String) -> Result<(), String>,
> {
    let f_exists = files.clone();
    let f_alloc = files.clone();
    let f_run = files.clone();
    let f_size = files.clone();
    let f_rename = files;
    BuildContext {
        fs_exists: move |p: String| Ok(f_exists.borrow().contains_key(&p)),
        alloc_temp: move |target_abs: String| {
            loop {
                let p = redonk::temp::fresh_temp_path(&target_abs);
                if !f_alloc.borrow().contains_key(&p) {
                    f_alloc.borrow_mut().insert(p.clone(), Vec::new());
                    return Ok(p);
                }
            }
        },
        stat_mode: move |_p: String| Ok(0o644),
        run: move |plan: CommandPlan| {
            *runs.borrow_mut() += 1;
            let dofile = plan.args[1].clone();
            let named_rel = plan.args[plan.args.len() - 1].clone();
            let named_abs = format!("{}/{}", plan.cwd, named_rel);
            let script = f_run
                .borrow()
                .get(&dofile)
                .cloned()
                .ok_or_else(|| String::from("rule file is missing"))?;
            let text = String::from_utf8(script).map_err(|e| e.to_string())?;
            if let Some(rest) = text.strip_prefix("echo:") {
                f_run
                    .borrow_mut()
                    .insert(plan.stdout_file.clone(), rest.as_bytes().to_vec());
                Ok((true, Some(0)))
            } else if let Some(rest) = text.strip_prefix("named:") {
                f_run.borrow_mut().insert(named_abs, rest.as_bytes().to_vec());
                Ok((true, Some(0)))
            } else if let Some(rest) = text.strip_prefix("both:") {
                f_run
                    .borrow_mut()
                    .insert(plan.stdout_file.clone(), rest.as_bytes().to_vec());
                f_run.borrow_mut().insert(named_abs, rest.as_bytes().to_vec());
                Ok((true, Some(0)))
            } else if text.starts_with("fail") {
                Ok((false, Some(1)))
            } else {
                Ok((true, Some(0)))
            }
        },
        file_size: move |p: String| Ok(f_size.borrow().get(&p).map(|v| v.len() as u64)),
        rename: move |src: String, dst: String| {
            let moved = f_rename
                .borrow_mut()
                .remove(&src)
                .ok_or_else(|| String::from("rename source is missing"))?;
            f_rename.borrow_mut().insert(dst, moved);
            Ok(())
        },
    }
}

fn no_records(t: String) -> Result<Option<Item>, BuildError> {
    let _ = t;
    Ok(None)
}

fn world(entries: &[(&str, &str)]) -> Files {
    let mut m = BTreeMap::new();
    for (k, v) in entries {
        m.insert(String::from(*k), v.as_bytes().to_vec());
    }
    Rc::new(RefCell::new(m))
}

#[test]
fn rule_search_finds_an_ancestor_default_rule() {
    let existing = vec![String::from("/r/a/default.c.do")];
    let exists = move |p: String| -> Result<bool, String> { Ok(existing.contains(&p)) };
    let it = Item::new_target(&String::from("a/b/x.c"));
    let b = it.find_builder(&String::from("/r"), &exists).unwrap();
    assert_eq!(b.dofile, "/r/a/default.c.do");
    assert!(b.default);
}

#[test]
fn rule_search_prefers_the_specific_rule_over_an_ancestor_default() {
    let existing = vec![
        String::from("/r/a/default.c.do"),
        String::from("/r/a/b/x.c.do"),
    ];
    let exists = move |p: String| -> Result<bool, String> { Ok(existing.contains(&p)) };
    let it = Item::new_target(&String::from("a/b/x.c"));
    let b = it.find_builder(&String::from("/r"), &exists).unwrap();
    assert_eq!(b.dofile, "/r/a/b/x.c.do");
    assert!(!b.default);
}

#[test]
fn rule_search_tries_more_specific_names_first_in_one_directory() {
    let existing = vec![
        String::from("/r/a/b/default.c.do"),
        String::from("/r/a/b/default.do"),
    ];
    let exists = move |p: String| -> Result<bool, String> { Ok(existing.contains(&p)) };
    let it = Item::new_target(&String::from("a/b/x.c"));
    let b = it.find_builder(&String::from("/r"), &exists).unwrap();
    assert_eq!(b.dofile, "/r/a/b/default.c.do");
    assert!(b.default);
}

#[test]
fn is_target_is_absence() {
    let present = move |p: String| -> Result<bool, String> { Ok(p == "here") };
    assert!(!Item::new_target(&String::from("here")).is_target(&present).unwrap());
    assert!(Item::new_target(&String::from("gone")).is_target(&present).unwrap());
}

#[test]
fn redo_builds_a_target_from_its_rule_stdout() {
    let files = world(&[("/w/hello.do", "echo:hi")]);
    let runs = Rc::new(RefCell::new(0usize));
    let ctx = make_ctx(files.clone(), runs.clone());
    let mut store = Store::new().unwrap();
    let targets = vec![String::from("hello")];

    redo(&mut store, &targets, false, &String::from("/w"), &ctx, &no_records).unwrap();

    assert_eq!(files.borrow().get("hello").unwrap(), b"hi");
    assert_eq!(*runs.borrow(), 1);

    // a second run treats the now-present file as a source and does nothing
    let before = files.borrow().clone();
    redo(&mut store, &targets, false, &String::from("/w"), &ctx, &no_records).unwrap();
    assert_eq!(*runs.borrow(), 1);
    assert_eq!(*files.borrow(), before);
}

#[test]
fn redo_promotes_the_named_output_when_stdout_is_silent() {
    let files = world(&[("/w/n.do", "named:val")]);
    let runs = Rc::new(RefCell::new(0usize));
    let ctx = make_ctx(files.clone(), runs);
    let mut store = Store::new().unwrap();
    let targets = vec![String::from("n")];

    redo(&mut store, &targets, false, &String::from("/w"), &ctx, &no_records).unwrap();
    assert_eq!(files.borrow().get("n").unwrap(), b"val");
}

#[test]
fn redo_uses_a_generic_rule_with_the_base_name() {
    let files = world(&[("/w/default.c.do", "echo:compiled")]);
    let runs = Rc::new(RefCell::new(0usize));
    let ctx = make_ctx(files.clone(), runs);
    let mut store = Store::new().unwrap();
    let targets = vec![String::from("x.c")];

    redo(&mut store, &targets, false, &String::from("/w"), &ctx, &no_records).unwrap();
    assert_eq!(files.borrow().get("x.c").unwrap(), b"compiled");
}

#[test]
fn a_failing_script_leaves_the_target_absent() {
    let files = world(&[("/w/fail.do", "fail")]);
    let runs = Rc::new(RefCell::new(0usize));
    let ctx = make_ctx(files.clone(), runs);
    let mut store = Store::new().unwrap();
    let targets = vec![String::from("fail")];

    let r = redo(&mut store, &targets, false, &String::from("/w"), &ctx, &no_records);
    match r {
        Err(BuildError::ScriptFailed { dofile, code }) => {
            assert_eq!(dofile, "/w/fail.do");
            assert_eq!(code, Some(1));
        }
        other => panic!("expected a script failure, got {:?}", other),
    }
    assert!(!files.borrow().contains_key("fail"));
}

#[test]
fn a_script_using_both_channels_leaves_the_target_unpromoted() {
    let files = world(&[("/w/dual.do", "both:zz")]);
    let runs = Rc::new(RefCell::new(0usize));
    let ctx = make_ctx(files.clone(), runs);
    let mut store = Store::new().unwrap();
    let targets = vec![String::from("dual")];

    let r = redo(&mut store, &targets, false, &String::from("/w"), &ctx, &no_records);
    assert!(matches!(r, Err(BuildError::DualOutput { .. })));
    assert!(!files.borrow().contains_key("dual"));
}

#[test]
fn a_target_with_no_rule_anywhere_is_an_error() {
    let files = world(&[]);
    let runs = Rc::new(RefCell::new(0usize));
    let ctx = make_ctx(files, runs);
    let mut store = Store::new().unwrap();
    let targets = vec![String::from("nope")];

    let r = redo(&mut store, &targets, false, &String::from("/w"), &ctx, &no_records);
    match r {
        Err(BuildError::RuleNotFound { target }) => assert_eq!(target, "nope"),
        other => panic!("expected no rule, got {:?}", other),
    }
}

#[test]
fn an_existing_target_is_left_alone_even_with_a_failing_rule() {
    let files = world(&[("/w/old.do", "fail"), ("old", "orig")]);
    let runs = Rc::new(RefCell::new(0usize));
    let ctx = make_ctx(files.clone(), runs.clone());
    let mut store = Store::new().unwrap();
    let targets = vec![String::from("old")];

    redo(&mut store, &targets, false, &String::from("/w"), &ctx, &no_records).unwrap();
    assert_eq!(files.borrow().get("old").unwrap(), b"orig");
    assert_eq!(*runs.borrow(), 0);
}

#[test]
fn a_probe_failure_is_a_fatal_io_error() {
    // an oracle that cannot answer at all
    let broken = |_p: String| -> Result<bool, String> { Err(String::from("probe broke")) };
    let it = Item::new_target(&String::from("x"));
    let r = it.is_target(&broken);
    match r {
        Err(BuildError::Io { kind, detail }) => {
            assert_eq!(kind, redonk::IoKind::Other);
            assert_eq!(detail, "probe broke");
        }
        other => panic!("expected an io error, got {:?}", other),
    }
}

#[test]
fn a_bad_state_record_stops_that_target() {
    let files = world(&[("/w/hello.do", "echo:hi")]);
    let runs = Rc::new(RefCell::new(0usize));
    let ctx = make_ctx(files, runs);
    let mut store = Store::new().unwrap();
    let targets = vec![String::from("hello")];
    let bad_record = |t: String| -> Result<Option<Item>, BuildError> {
        Err(BuildError::StateDecode { path: t })
    };

    let r = redo_ifchange(&mut store, &targets, false, &String::from("/w"), &ctx, &bad_record);
    assert!(matches!(r, Err(BuildError::StateDecode { .. })));
}

#[test]
fn a_target_with_no_filename_cannot_be_built() {
    let files = world(&[]);
    let runs = Rc::new(RefCell::new(0usize));
    let ctx = make_ctx(files, runs);
    let mut store = Store::new().unwrap();
    let targets = vec![String::from("/")];

    let r = redo(&mut store, &targets, false, &String::from("/w"), &ctx, &no_records);
    assert!(matches!(r, Err(BuildError::PathEncoding { .. })));
}

#[test]
fn an_empty_target_list_succeeds() {
    let files = world(&[]);
    let runs = Rc::new(RefCell::new(0usize));
    let ctx = make_ctx(files, runs.clone());
    let mut store = Store::new().unwrap();
    let targets: Vec<String> = Vec::new();
    assert!(redo(&mut store, &targets, false, &String::from("/w"), &ctx, &no_records).is_ok());
    assert!(
        redo_ifchange(&mut store, &targets, false, &String::from("/w"), &ctx, &no_records)
            .is_ok()
    );
    assert_eq!(*runs.borrow(), 0);
}

#[test]
fn redo_ifcreate_is_a_recorded_no_op() {
    let mut store = Store::new().unwrap();
    let targets = vec![String::from("later")];
    assert!(redo_ifcreate(&mut store, &targets, false).is_ok());
}
