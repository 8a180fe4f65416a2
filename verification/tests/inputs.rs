use leo_compiler::inputs::{
    collect_all_inputs, get_input_file_paths, resolve_cwd, ConfigValue, Test, TestConfig,
};
use leo_compiler::paths::join;

fn test_in(dir: &str, cwd: Option<ConfigValue>, input_file: Option<ConfigValue>) -> Test {
    Test {
        dir: dir.to_string(),
        content: "function main() {}".to_string(),
        config: TestConfig { cwd, input_file },
    }
}

fn text(s: &str) -> ConfigValue {
    ConfigValue::Text(s.to_string())
}

#[test]
fn path_is_directory_slash_name() {
    assert_eq!(join("/tests/compiler", "main.in"), "/tests/compiler/main.in");
    assert_eq!(join("tests", "input/main.in"), "tests/input/main.in");
}

#[test]
fn no_second_slash_after_a_directory_that_ends_in_one() {
    assert_eq!(join("/tests/", "main.in"), "/tests/main.in");
    assert_eq!(join("/", "main.in"), "/main.in");
}

#[test]
fn absolute_name_stands_for_itself() {
    assert_eq!(join("/tests/compiler", "/etc/main.in"), "/etc/main.in");
    assert_eq!(join("", "/main.in"), "/main.in");
}

#[test]
fn empty_parts_of_a_path() {
    assert_eq!(join("", "main.in"), "main.in");
    assert_eq!(join("/tests", ""), "/tests/");
    assert_eq!(join("", ""), "");
}

#[test]
fn one_input_file_named_by_a_string() {
    let test = test_in("/tests/compiler", None, None);
    let mut list = vec!["/kept".to_string()];
    get_input_file_paths(&mut list, &test, &text("input/main.in"));
    assert_eq!(list, vec!["/kept".to_string(), "/tests/compiler/input/main.in".to_string()]);
}

#[test]
fn input_files_named_by_a_list_come_in_its_order() {
    let test = test_in("/tests/compiler", None, None);
    let names = ConfigValue::List(vec![
        Some("b.in".to_string()),
        Some("a.in".to_string()),
        Some("b.in".to_string()),
    ]);
    let mut list = Vec::new();
    get_input_file_paths(&mut list, &test, &names);
    assert_eq!(
        list,
        vec![
            "/tests/compiler/b.in".to_string(),
            "/tests/compiler/a.in".to_string(),
            "/tests/compiler/b.in".to_string()
        ]
    );
}

#[test]
fn a_value_that_names_nothing_adds_nothing() {
    let test = test_in("/tests/compiler", None, None);
    let mut list = vec!["/kept".to_string()];
    get_input_file_paths(&mut list, &test, &ConfigValue::Other);
    get_input_file_paths(&mut list, &test, &ConfigValue::List(vec![]));
    assert_eq!(list, vec!["/kept".to_string()]);
}

#[test]
fn a_list_is_checked_for_strings_only() {
    assert!(text("a").names_only());
    assert!(ConfigValue::Other.names_only());
    assert!(ConfigValue::List(vec![]).names_only());
    assert!(ConfigValue::List(vec![Some("a".to_string())]).names_only());
    assert!(!ConfigValue::List(vec![Some("a".to_string()), None]).names_only());
    assert!(text("a").is_text());
    assert!(!ConfigValue::Other.is_text());
    assert!(!ConfigValue::List(vec![]).is_text());
}

#[test]
fn a_test_without_the_key_has_no_inputs() {
    let test = test_in("/tests/compiler", None, None);
    assert_eq!(collect_all_inputs(&test), Ok(vec![]));
}

#[test]
fn all_inputs_of_a_test() {
    let one = test_in("/tests/compiler", None, Some(text("main.in")));
    assert_eq!(collect_all_inputs(&one), Ok(vec!["/tests/compiler/main.in".to_string()]));
    let two = test_in(
        "/tests/compiler",
        None,
        Some(ConfigValue::List(vec![Some("x.in".to_string()), Some("y.in".to_string())])),
    );
    assert_eq!(
        collect_all_inputs(&two),
        Ok(vec!["/tests/compiler/x.in".to_string(), "/tests/compiler/y.in".to_string()])
    );
    let other = test_in("/tests/compiler", None, Some(ConfigValue::Other));
    assert_eq!(collect_all_inputs(&other), Ok(vec![]));
}

#[test]
fn working_directory_is_seen_from_the_test() {
    let plain = test_in("/tests/compiler", None, None);
    assert_eq!(resolve_cwd(&plain), None);
    let with = test_in("/tests/compiler", Some(text("import")), None);
    assert_eq!(resolve_cwd(&with), Some("/tests/compiler/import".to_string()));
}

#[test]
fn input_under_a_working_directory_override() {
    let bare = test_in("", Some(text("override_dir")), Some(text("filename")));
    assert_eq!(resolve_cwd(&bare), Some("override_dir".to_string()));
    assert_eq!(collect_all_inputs(&bare), Ok(vec!["override_dir/filename".to_string()]));
    let test = test_in("/tests/compiler/tuple", Some(text("override_dir")), Some(text("filename")));
    assert_eq!(
        collect_all_inputs(&test),
        Ok(vec!["/tests/compiler/tuple/override_dir/filename".to_string()])
    );
    let mut list = Vec::new();
    get_input_file_paths(
        &mut list,
        &test,
        &ConfigValue::List(vec![Some("a.in".to_string()), Some("/abs/b.in".to_string())]),
    );
    assert_eq!(
        list,
        vec!["/tests/compiler/tuple/override_dir/a.in".to_string(), "/abs/b.in".to_string()]
    );
}

#[test]
fn without_an_override_inputs_lie_beside_the_test() {
    let test = test_in("/tests/compiler/tuple", None, Some(text("filename")));
    assert_eq!(collect_all_inputs(&test), Ok(vec!["/tests/compiler/tuple/filename".to_string()]));
}
