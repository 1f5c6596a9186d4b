use redonk::dot_if_empty;
use redonk::relative_to_dir;
use redonk::Item;
use redonk::Store;

#[test]
fn path_relativize_should_handle_items_in_same_directory() {
    assert_eq!(relative_to_dir("/hello/world", "/hello"), "world");
}

#[test]
fn path_relativize_should_handle_subject_in_child_directory() {
    assert_eq!(relative_to_dir("/hello/world", "/."), "hello/world");
}

#[test]
fn path_relativize_should_handle_base_in_child_directory() {
    assert_eq!(relative_to_dir("/hello", "/world"), "../hello");
}

#[test]
fn path_relativize_should_handle_base_in_child_directory_trailing_slash() {
    assert_eq!(relative_to_dir("/hello", "/world/"), "../hello");
}

#[test]
fn path_relativize_should_handle_items_in_same_directory_with_common_prefix() {
    assert_eq!(relative_to_dir("/a/hello/world", "/a/hello"), "world");
}

#[test]
fn path_relativize_should_handle_subject_in_child_directory_with_common_prefix() {
    assert_eq!(relative_to_dir("/a/hello/world", "/a/"), "hello/world");
}

#[test]
fn path_relativize_should_handle_base_in_child_directory_with_common_prefix() {
    assert_eq!(relative_to_dir("/the/hello", "/the/world"), "../hello");
}

#[test]
fn path_relativize_from_root() {
    assert_eq!(relative_to_dir("/hello/world", "/"), "hello/world");
}

#[test]
fn path_relativize_deep_climb() {
    assert_eq!(relative_to_dir("/a/b", "/a/c/d"), "../../b");
}

#[test]
fn dot_if_empty_maps_empty_to_dot() {
    assert_eq!(dot_if_empty(""), ".");
    assert_eq!(dot_if_empty("a/b"), "a/b");
}

#[test]
fn item_dir_path_and_file_name() {
    let it = Item::new_target(&String::from("a/b.c"));
    assert_eq!(it.path(), "a/b.c");
    assert_eq!(it.dir_path().unwrap(), "a");
    assert_eq!(it.file_name().unwrap(), "b.c");

    let bare = Item::new_target(&String::from("x"));
    assert_eq!(bare.dir_path().unwrap(), ".");
    assert_eq!(bare.file_name().unwrap(), "x");

    let abs = Item::new_target(&String::from("/x"));
    assert_eq!(abs.dir_path().unwrap(), "/");

    let root = Item::new_target(&String::from("/"));
    assert!(root.dir_path().is_err());
    assert!(root.file_name().is_err());
}

#[test]
fn item_abs_path_resolves_against_cwd() {
    let it = Item::new_target(&String::from("a/b.c"));
    assert_eq!(it.abs_path(&String::from("/r")).unwrap(), "/r/a/b.c");

    let up = Item::new_target(&String::from("../y.c"));
    assert_eq!(up.abs_path(&String::from("/r/s")).unwrap(), "/r/y.c");

    let abs = Item::new_target(&String::from("/q/z.c"));
    assert_eq!(abs.abs_path(&String::from("/r")).unwrap(), "/q/z.c");
}

#[test]
fn state_file_is_a_prefixed_sibling() {
    let store = Store::new().unwrap();
    assert_eq!(
        store.state_file_of(&String::from("/a/b")).unwrap(),
        "/a/.redonk.b"
    );
    assert_eq!(store.state_file_of(&String::from("b")).unwrap(), ".redonk.b");
    assert!(store.state_file_of(&String::from("/")).is_err());
}

#[test]
fn temp_names_carry_the_fixed_prefix_and_hex_tag() {
    assert_eq!(redonk::temp::temp_name(0x2a), ".tmpf-redonk-2a");
    assert_eq!(redonk::temp::temp_name(0), ".tmpf-redonk-0");
    assert_eq!(redonk::temp::temp_name(u64::MAX), ".tmpf-redonk-ffffffffffffffff");
    assert_eq!(
        redonk::temp::temp_sibling_path(&String::from("/a/b/x"), 0xff),
        "/a/b/.tmpf-redonk-ff"
    );
    let fresh = redonk::temp::fresh_temp_path(&String::from("/a/b/x"));
    assert!(fresh.starts_with("/a/b/.tmpf-redonk-"));
}
