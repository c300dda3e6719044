use csalt::project::{gitignore_lines, main_c_lines, project_directories, project_name};
use csalt::workspace::{decide_walk_step, WalkStep};

#[test]
fn project_name_defaults() {
    assert_eq!(project_name(Some("hello")), "hello");
    assert_eq!(project_name(None), "project");
}

#[test]
fn gitignore_in_stealth_mode_hides_csalt_files() {
    assert_eq!(gitignore_lines(false), vec!["build/", ".csalt/"]);
    assert_eq!(gitignore_lines(true), vec!["build/", ".csalt/", "Salt.toml", "Salt.lock"]);
}

#[test]
fn main_c_template() {
    assert_eq!(
        main_c_lines().join("\n"),
        "#include <stdio.h>\n\nint main() {\n    printf(\"Hello, World!\\n\");\n    return 0;\n}"
    );
}

#[test]
fn walk_steps_follow_the_exclusions() {
    let dirs = vec!["excluded"];
    let files = vec!["special.txt"];
    let exts = vec!["md"];
    assert_eq!(decide_walk_step(true, "excluded", true, None, &dirs, &files, &exts), WalkStep::Skip);
    assert_eq!(decide_walk_step(false, "excluded", true, None, &dirs, &files, &exts), WalkStep::Descend);
    assert_eq!(decide_walk_step(true, "special.txt", false, Some("txt"), &dirs, &files, &exts), WalkStep::Skip);
    assert_eq!(decide_walk_step(true, "test.txt", false, Some("txt"), &dirs, &files, &exts), WalkStep::Keep);
    assert_eq!(decide_walk_step(false, "test.md", false, Some("md"), &dirs, &files, &exts), WalkStep::Skip);
    assert_eq!(decide_walk_step(true, "excluded", false, None, &dirs, &files, &exts), WalkStep::Keep);
    assert_eq!(decide_walk_step(true, "README", false, None, &dirs, &files, &Vec::new()), WalkStep::Keep);
}

#[test]
fn new_project_directories() {
    assert_eq!(project_directories(false), vec!["src", "include", "build", ".csalt"]);
    assert_eq!(
        project_directories(true),
        vec!["src", "include", "build", ".csalt", "tests", "vendor"]
    );
}
