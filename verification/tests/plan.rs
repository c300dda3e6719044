use csalt::config::{UnitKinds, UnitVector};
use csalt::plan::{resolve_dependencies, BuildMode, PlanError, PreparedUnit};

fn strings(v: &[&str]) -> Vec<String> {
    v.iter().map(|s| s.to_string()).collect()
}

fn unit(name: &str, kind: UnitKinds, src: &[&str], deps: Option<&[&str]>) -> UnitVector {
    UnitVector {
        name: name.to_string(),
        kind,
        main: "src/main.c".to_string(),
        src: strings(src),
        includes: None,
        deps: deps.map(strings),
        compiler_flags: Some(strings(&["-O2"])),
        linker_flags: None,
    }
}

#[test]
fn build_mode_names() {
    assert_eq!(BuildMode::try_from_str("managed"), Ok(BuildMode::Managed));
    assert_eq!(BuildMode::try_from_str("fresh"), Ok(BuildMode::Fresh));
    assert_eq!(BuildMode::try_from_str("Fresh"), Err(PlanError::InvalidBuildMode));
}

#[test]
fn requested_build_mode_wins_over_detection() {
    assert_eq!(BuildMode::select(Some("fresh"), true), Ok(BuildMode::Fresh));
    assert_eq!(BuildMode::select(None, true), Ok(BuildMode::Managed));
    assert_eq!(BuildMode::select(None, false), Ok(BuildMode::Fresh));
    assert_eq!(BuildMode::select(Some("other"), false), Err(PlanError::InvalidBuildMode));
}

#[test]
fn dependencies_resolve_in_order_and_skip_unknown_names() {
    let units = vec![
        unit("math", UnitKinds::Lib, &["math/"], None),
        unit("z", UnitKinds::ExtLib, &["vendor/libz.a", "other"], None),
        unit("glib", UnitKinds::Pkg, &[], None),
        unit("app", UnitKinds::Bin, &["src/"], Some(&["z", "nope", "math", "glib"])),
    ];
    let (deps, stopped) = resolve_dependencies(&units, 3, "/proj");
    assert!(stopped.is_none());
    assert_eq!(deps.len(), 3);
    assert_eq!(deps[0], ("z".to_string(), UnitKinds::ExtLib, Some("/proj/vendor/libz.a".to_string())));
    assert_eq!(deps[1], ("math".to_string(), UnitKinds::Lib, None));
    assert_eq!(deps[2], ("glib".to_string(), UnitKinds::Pkg, None));
}

#[test]
fn prebuilt_dependency_without_binary_stops_resolution() {
    let units = vec![
        unit("math", UnitKinds::Lib, &["math/"], None),
        unit("z", UnitKinds::ExtDyn, &[], None),
        unit("app", UnitKinds::Bin, &["src/"], Some(&["math", "z", "math"])),
    ];
    let (deps, stopped) = resolve_dependencies(&units, 2, "/proj");
    assert_eq!(stopped, Some(PlanError::MissingPrebuiltBinary { unit: 2, dep: 1 }));
    assert_eq!(deps.len(), 1);
    assert_eq!(deps[0].0, "math");
}

#[test]
fn last_unit_of_a_name_gives_the_kind() {
    let units = vec![
        unit("m", UnitKinds::Lib, &["a/"], None),
        unit("m", UnitKinds::Dyn, &["b/"], None),
        unit("app", UnitKinds::Bin, &["src/"], Some(&["m"])),
    ];
    let (deps, _) = resolve_dependencies(&units, 2, "/proj");
    assert_eq!(deps[0].1, UnitKinds::Dyn);
}

#[test]
fn prepared_unit_takes_flags_and_drops_empty_includes() {
    let u = unit("app", UnitKinds::Bin, &["src/"], None);
    let p = PreparedUnit::assemble(
        &u,
        strings(&["/proj/src/main.c"]),
        Vec::new(),
        Vec::new(),
        strings(&["-I/usr/include/x"]),
        strings(&["-lx"]),
    );
    assert_eq!(p.name, "app");
    assert!(p.includes.is_none());
    assert_eq!(p.compiler_flags, strings(&["-O2"]));
    assert!(p.linker_flags.is_empty());
    assert_eq!(p.unpack_linker_flags, strings(&["-lx"]));
    let p = PreparedUnit::assemble(&u, Vec::new(), strings(&["/proj/include"]), Vec::new(), Vec::new(), Vec::new());
    assert_eq!(p.includes, Some(strings(&["/proj/include"])));
}

#[test]
fn dependency_names_resolve_exactly() {
    // Validation trims dependency names; resolution matches them exactly.
    let units = vec![
        unit("math", UnitKinds::Lib, &["math/"], None),
        unit("app", UnitKinds::Bin, &["src/"], Some(&[" math "])),
    ];
    let (deps, stopped) = resolve_dependencies(&units, 1, "/proj");
    assert!(stopped.is_none());
    assert!(deps.is_empty());
}

#[test]
fn only_units_defined_before_are_consulted() {
    let units = vec![
        unit("app", UnitKinds::Bin, &["src/"], Some(&["math", "app"])),
        unit("math", UnitKinds::Lib, &["math/"], Some(&["math"])),
        unit("z", UnitKinds::ExtLib, &["vendor/libz.a"], None),
    ];
    let (deps, stopped) = resolve_dependencies(&units, 0, "/proj");
    assert!(stopped.is_none());
    assert!(deps.is_empty());
    let (deps, stopped) = resolve_dependencies(&units, 1, "/proj");
    assert!(stopped.is_none());
    assert!(deps.is_empty());
}
