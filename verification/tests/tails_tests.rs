use redonk::suffix_tails;
use redonk::FileSuffixTails;

#[test]
fn file_suffix_tails_should_return_pathname_tails() {
    let mut cs = FileSuffixTails::new("foo.bar.baz");
    let options = vec![
        String::from("foo.bar.baz"),
        String::from(".bar.baz"),
        String::from(".baz"),
        String::new(),
    ];
    let mut collected: Vec<String> = Vec::new();
    while let Some(t) = cs.next() {
        collected.push(t);
    }
    assert_eq!(collected, options);
}

#[test]
fn suffix_tails_of_a_plain_name() {
    assert_eq!(
        suffix_tails("foo"),
        vec![String::from("foo"), String::new()]
    );
}

#[test]
fn suffix_tails_of_a_single_extension() {
    assert_eq!(
        suffix_tails("a.b"),
        vec![String::from("a.b"), String::from(".b"), String::new()]
    );
}

#[test]
fn suffix_tails_of_a_leading_dot_name() {
    assert_eq!(
        suffix_tails(".hidden"),
        vec![String::from(".hidden"), String::new()]
    );
}

#[test]
fn candidate_names_follow_the_do_convention() {
    assert_eq!(
        redonk::search::candidate_name("x.c"),
        (String::from("x.c.do"), false)
    );
    assert_eq!(
        redonk::search::candidate_name(".c"),
        (String::from("default.c.do"), true)
    );
    assert_eq!(
        redonk::search::candidate_name(""),
        (String::from("default.do"), true)
    );
    assert_eq!(
        redonk::search::candidate_name(".bar.baz"),
        (String::from("default.bar.baz.do"), true)
    );
}
