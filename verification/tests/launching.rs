use process_supervisor::paths::{parent_or_empty, path_dirname, path_join, path_relative, path_separator};
use process_supervisor::spawner::{plan_launch, Platform};

fn strings(items: &[&str]) -> Vec<String> {
    items.iter().map(|s| s.to_string()).collect()
}

#[test]
fn plan_launch_resolves_wrapper_in_working_directory() {
    let plan = plan_launch(Platform::Unix, "/proj", "", strings(&["build"]));
    assert_eq!(plan.program, "/proj/gradlew");
    assert_eq!(plan.args, strings(&["build"]));
    assert_eq!(plan.working_dir, "/proj");
    assert_eq!(plan.env, Vec::<(String, String)>::new());
}

#[test]
fn plan_launch_on_windows_uses_the_batch_wrapper() {
    let plan = plan_launch(Platform::Windows, "/proj", "", strings(&["build"]));
    assert_eq!(plan.program, "/proj/gradlew.bat");
    assert_eq!(plan.working_dir, "/proj");
    assert!(plan.env.is_empty());
}

#[test]
fn plan_launch_sets_java_home_only_when_given() {
    let with = plan_launch(Platform::Unix, "/proj", "/opt/jdk8", strings(&["run"]));
    assert_eq!(with.env, vec![("JAVA_HOME".to_string(), "/opt/jdk8".to_string())]);
    let without = plan_launch(Platform::Unix, "/proj", "", strings(&["run"]));
    assert!(without.env.is_empty());
}

#[test]
fn plan_launch_adds_no_second_separator() {
    assert_eq!(plan_launch(Platform::Unix, "/proj/", "", Vec::new()).program, "/proj/gradlew");
    assert_eq!(plan_launch(Platform::Unix, "/", "", Vec::new()).program, "/gradlew");
    assert_eq!(plan_launch(Platform::Windows, "C:\\proj\\", "", Vec::new()).program, "C:\\proj\\gradlew.bat");
    assert_eq!(plan_launch(Platform::Windows, "C:/proj/", "", Vec::new()).program, "C:/proj/gradlew.bat");
}

#[test]
fn plan_launch_backslash_is_no_separator_on_unix() {
    assert_eq!(plan_launch(Platform::Unix, "/odd\\", "", Vec::new()).program, "/odd\\/gradlew");
}

#[test]
fn plan_launch_in_empty_directory_is_the_bare_wrapper() {
    assert_eq!(plan_launch(Platform::Unix, "", "", Vec::new()).program, "gradlew");
    assert_eq!(plan_launch(Platform::Windows, "", "", Vec::new()).program, "gradlew.bat");
}

#[test]
fn plan_launch_keeps_arguments_in_order() {
    let plan = plan_launch(Platform::Unix, "/p", "", strings(&["run", "-PteamA=a", "-PteamB=b", "--offline"]));
    assert_eq!(plan.args, strings(&["run", "-PteamA=a", "-PteamB=b", "--offline"]));
}

#[test]
fn plan_launch_with_directory_outside_ascii() {
    let plan = plan_launch(Platform::Unix, "/home/zo\u{eb}/\u{30d7}\u{30ed}", "", Vec::new());
    assert_eq!(plan.program, "/home/zo\u{eb}/\u{30d7}\u{30ed}/gradlew");
}

#[test]
fn path_relative_follows_the_path_library() {
    assert_eq!(path_relative("a/b/c/d", "a/b/e/f"), "../../e/f");
    assert_eq!(path_relative("git", "git/relative-path"), "relative-path");
    assert_eq!(path_relative("git/relative-path", "git"), "..");
    assert_eq!(path_relative("a/../aaa", "b/../bbb"), "../bbb");
    assert_eq!(path_relative("../arch/foo.h", "foo/bar/bap/foo.h"), "");
    assert_eq!(path_relative("same", "same"), "");
}

#[test]
fn path_join_of_nothing_is_empty() {
    assert_eq!(path_join(&Vec::new()), "");
}

#[test]
fn path_join_by_this_systems_rule() {
    let sep = std::path::MAIN_SEPARATOR_STR;
    assert_eq!(path_join(&strings(&["a"])), "a");
    assert_eq!(path_join(&strings(&["a", "b", "c.txt"])), format!("a{}b{}c.txt", sep, sep));
}

#[test]
fn path_dirname_of_paths() {
    assert_eq!(path_dirname(""), "");
    assert_eq!(path_dirname("file.txt"), "");
    let sep = std::path::MAIN_SEPARATOR_STR;
    let nested = format!("a{}b{}c.txt", sep, sep);
    assert_eq!(path_dirname(&nested), format!("a{}b", sep));
}

#[test]
fn path_separator_of_each_platform() {
    assert_eq!(path_separator(Platform::Unix), "/");
    assert_eq!(path_separator(Platform::Windows), "\\");
}

#[test]
fn parent_or_empty_answers_the_parent_or_nothing() {
    assert_eq!(parent_or_empty(Some("/a/b".to_string())), "/a/b");
    assert_eq!(parent_or_empty(Some(String::new())), "");
    assert_eq!(parent_or_empty(None), "");
}

#[test]
fn path_join_pushes_each_component_onto_the_last_result() {
    let whole = path_join(&strings(&["a", "b", "c"]));
    let first = path_join(&strings(&["a", "b"]));
    assert_eq!(path_join(&vec![first, "c".to_string()]), whole);
    if std::path::MAIN_SEPARATOR == '/' {
        assert_eq!(path_join(&strings(&["a", "/b", "c"])), "/b/c");
        assert_eq!(path_join(&strings(&["a/", "b"])), "a/b");
    }
}

#[test]
fn path_dirname_of_a_root_is_empty() {
    if std::path::MAIN_SEPARATOR == '/' {
        assert_eq!(path_dirname("/"), "");
        assert_eq!(path_dirname("/a"), "/");
    }
}
