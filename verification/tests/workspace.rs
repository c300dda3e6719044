use csalt::config::UnitKinds;
use csalt::workspace::{
    cache_excluded_dirs, cache_excluded_files, classify_source_entry, decide_walk_step, is_c_source,
    SourceEntry, WalkStep,
};

#[test]
fn walk_skips_excluded_entries_only_at_top_level() {
    let dirs = vec![".csalt", "build"];
    let files = vec!["salt.lock"];
    let filter: Vec<&str> = vec![];
    assert_eq!(
        decide_walk_step(true, "build", true, None, &dirs, &files, &filter),
        WalkStep::Skip
    );
    assert_eq!(
        decide_walk_step(false, "build", true, None, &dirs, &files, &filter),
        WalkStep::Descend
    );
    assert_eq!(
        decide_walk_step(true, "salt.lock", false, Some("lock"), &dirs, &files, &filter),
        WalkStep::Skip
    );
    assert_eq!(
        decide_walk_step(false, "salt.lock", false, Some("lock"), &dirs, &files, &filter),
        WalkStep::Keep
    );
    // A file named like an excluded directory is still kept.
    assert_eq!(
        decide_walk_step(true, "build", false, None, &dirs, &files, &filter),
        WalkStep::Keep
    );
}

#[test]
fn walk_filters_files_by_extension() {
    let none: Vec<&str> = vec![];
    let filter = vec!["o", "obj"];
    assert_eq!(
        decide_walk_step(false, "main.o", false, Some("o"), &none, &none, &filter),
        WalkStep::Skip
    );
    assert_eq!(
        decide_walk_step(false, "main.c", false, Some("c"), &none, &none, &filter),
        WalkStep::Keep
    );
    assert_eq!(
        decide_walk_step(false, "src", true, None, &none, &none, &filter),
        WalkStep::Descend
    );
    let with_empty = vec![""];
    assert_eq!(
        decide_walk_step(false, "Makefile", false, None, &none, &none, &with_empty),
        WalkStep::Skip
    );
}

#[test]
fn c_sources_are_recognised_by_extension() {
    assert!(is_c_source("src/main.c"));
    assert!(is_c_source("/proj/lib/util.c"));
    assert!(!is_c_source("src/main.h"));
    assert!(!is_c_source("src/main.cpp"));
    assert!(!is_c_source("Makefile"));
    assert!(!is_c_source("src/.c"));
}

#[test]
fn build_steps_per_unit_kind() {
    for kind in [UnitKinds::ExtLib, UnitKinds::ExtDyn, UnitKinds::Pkg] {
        let s = kind.build_steps();
        assert!(!s.compile && !s.archive && !s.link && !s.copy_dynamic);
    }
    let lib = UnitKinds::Lib.build_steps();
    assert!(lib.compile && lib.archive && !lib.link && !lib.copy_dynamic);
    let dy = UnitKinds::Dyn.build_steps();
    assert!(dy.compile && !dy.archive && dy.link && dy.copy_dynamic);
    let bin = UnitKinds::Bin.build_steps();
    assert!(bin.compile && !bin.archive && bin.link && !bin.copy_dynamic);
}

#[test]
fn walk_example_keeps_one_file() {
    // A project holding `test.txt`, `special.txt` and a directory `excluded`,
    // walked with `excluded` and `special.txt` left out and `md` filtered.
    let dirs = vec!["excluded"];
    let files = vec!["special.txt"];
    let filter = vec!["md"];
    let top = [
        ("test.txt", false, Some("txt")),
        ("excluded", true, None),
        ("special.txt", false, Some("txt")),
    ];
    let kept = top
        .iter()
        .filter(|(name, is_dir, ext)| {
            decide_walk_step(true, name, *is_dir, *ext, &dirs, &files, &filter) == WalkStep::Keep
        })
        .count();
    assert_eq!(kept, 1);
}

#[test]
fn cache_copy_leaves_out_project_files() {
    let dirs = cache_excluded_dirs();
    let files = cache_excluded_files();
    assert_eq!(dirs, vec![".csalt", ".git", "build"]);
    assert_eq!(files, vec!["Salt.toml", "Salt.lock", ".gitignore"]);
    let none: Vec<&str> = vec![];
    for name in ["Salt.toml", "Salt.lock", ".gitignore"] {
        assert_eq!(
            decide_walk_step(true, name, false, None, &dirs, &files, &none),
            WalkStep::Skip
        );
    }
    assert_eq!(
        decide_walk_step(true, ".csalt", true, None, &dirs, &files, &none),
        WalkStep::Skip
    );
    assert_eq!(
        decide_walk_step(false, "Salt.toml", false, Some("toml"), &dirs, &files, &none),
        WalkStep::Keep
    );
    assert_eq!(
        decide_walk_step(true, "src", true, None, &dirs, &files, &none),
        WalkStep::Descend
    );
}

#[test]
fn source_entries_by_what_the_file_system_says() {
    assert_eq!(classify_source_entry(false, false, false), SourceEntry::Missing);
    assert_eq!(classify_source_entry(true, true, false), SourceEntry::File);
    assert_eq!(classify_source_entry(true, false, true), SourceEntry::Directory);
    assert_eq!(classify_source_entry(true, false, false), SourceEntry::Ignored);
}
