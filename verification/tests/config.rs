use csalt::config::{
    BuildSection, BuildSystems, CEditions, CompilerBackend, ConfigError, NameError,
    PackageSection, SaltToml, UnitKinds, UnitVector,
};
use csalt::project::default_manifest;

fn strings(v: &[&str]) -> Vec<String> {
    v.iter().map(|s| s.to_string()).collect()
}

fn unit(name: &str, kind: UnitKinds, deps: Option<&[&str]>) -> UnitVector {
    UnitVector {
        name: name.to_string(),
        kind,
        main: "src/main.c".to_string(),
        src: strings(&["src/"]),
        includes: None,
        deps: deps.map(strings),
        compiler_flags: None,
        linker_flags: None,
    }
}

fn manifest(units: Vec<UnitVector>) -> SaltToml {
    SaltToml {
        package: PackageSection {
            name: "demo".to_string(),
            version: "0.1.0".to_string(),
            authors: strings(&[""]),
            description: String::new(),
        },
        build: BuildSection {
            build_sys: BuildSystems::CMake,
            build_sys_ver: "3.15".to_string(),
            build_dir: Some("build/".to_string()),
            edition: CEditions::C11,
            compiler: CompilerBackend::Clang,
        },
        unit: units,
    }
}

fn no_files(m: &SaltToml) -> Vec<Vec<bool>> {
    m.unit
        .iter()
        .map(|u| vec![false; u.includes.as_ref().map_or(0, |v| v.len())])
        .collect()
}

fn check(m: &SaltToml) -> Result<(), ConfigError> {
    m.validate_with(&no_files(m))
}

#[test]
fn edition_names() {
    assert_eq!(CEditions::C89.to_string(), "c89");
    assert_eq!(CEditions::C99.to_string(), "c99");
    assert_eq!(CEditions::C11.to_string(), "c11");
    assert_eq!(CEditions::C17.to_string(), "c17");
    assert_eq!(CEditions::C23.to_string(), "c23");
}

#[test]
fn unit_kind_names() {
    assert_eq!(UnitKinds::Lib.to_string(), "lib");
    assert_eq!(UnitKinds::Dyn.to_string(), "dyn");
    assert_eq!(UnitKinds::Bin.to_string(), "bin");
    assert_eq!(UnitKinds::ExtLib.to_string(), "extlib");
    assert_eq!(UnitKinds::ExtDyn.to_string(), "extdyn");
    assert_eq!(UnitKinds::Pkg.to_string(), "pkg");
}

#[test]
fn backend_names_round_trip_ignoring_case() {
    for b in [
        CompilerBackend::Clang,
        CompilerBackend::Gcc,
        CompilerBackend::Zig,
        CompilerBackend::Msvc,
        CompilerBackend::ClangCl,
    ] {
        assert_eq!(CompilerBackend::from_string(b.to_string()), Ok(b));
        assert_eq!(CompilerBackend::from_string(&b.to_string().to_uppercase()), Ok(b));
    }
    assert_eq!(CompilerBackend::Msvc.to_string(), "cl");
    assert_eq!(CompilerBackend::from_string("msvc"), Err(NameError::UnknownBackend));
    assert_eq!(CompilerBackend::from_string(" gcc"), Err(NameError::UnknownBackend));
}

#[test]
fn build_system_names() {
    assert_eq!(BuildSystems::CMake.to_string(), "cmake");
    assert_eq!(BuildSystems::from_string("CMake"), Ok(BuildSystems::CMake));
    assert_eq!(BuildSystems::from_string("make"), Err(NameError::UnknownBuildSystem));
}

#[test]
fn command_line_choice_overrides_manifest() {
    assert_eq!(
        CompilerBackend::resolve_choice(Some("ZIG"), CompilerBackend::Clang),
        Ok(CompilerBackend::Zig)
    );
    assert_eq!(
        CompilerBackend::resolve_choice(None, CompilerBackend::Gcc),
        Ok(CompilerBackend::Gcc)
    );
    assert_eq!(
        CompilerBackend::resolve_choice(Some("tcc"), CompilerBackend::Gcc),
        Err(NameError::UnknownBackend)
    );
    assert_eq!(
        BuildSystems::resolve_choice(None, BuildSystems::CMake),
        Ok(BuildSystems::CMake)
    );
}

#[test]
fn valid_manifest_with_library_before_binary() {
    let m = manifest(vec![
        unit("math", UnitKinds::Lib, None),
        unit("app", UnitKinds::Bin, Some(&[" math "])),
    ]);
    assert_eq!(check(&m), Ok(()));
}

#[test]
fn default_manifest_is_valid() {
    let m = default_manifest("hello");
    assert_eq!(check(&m), Ok(()));
    assert_eq!(m.unit[0].name, "hello");
    assert_eq!(m.build.build_dir.as_deref(), Some("build/"));
}

#[test]
fn blank_package_name_is_refused() {
    let mut m = manifest(vec![unit("app", UnitKinds::Bin, None)]);
    m.package.name = "  ".to_string();
    assert_eq!(check(&m), Err(ConfigError::EmptyPackageName));
}

#[test]
fn manifest_without_units_is_refused() {
    let m = manifest(vec![]);
    assert_eq!(check(&m), Err(ConfigError::NoUnits));
}

#[test]
fn blank_unit_name_is_refused() {
    let m = manifest(vec![unit(" ", UnitKinds::Bin, None)]);
    assert_eq!(check(&m), Err(ConfigError::EmptyUnitName { unit: 0 }));
}

#[test]
fn duplicate_library_name_is_refused() {
    let m = manifest(vec![
        unit("math", UnitKinds::Lib, None),
        unit(" math", UnitKinds::Dyn, None),
    ]);
    assert_eq!(check(&m), Err(ConfigError::DuplicateUnit { unit: 1 }));
}

#[test]
fn binaries_may_share_names() {
    let m = manifest(vec![
        unit("app", UnitKinds::Bin, None),
        unit("app", UnitKinds::Bin, None),
    ]);
    assert_eq!(check(&m), Ok(()));
}

#[test]
fn main_must_be_c_or_csal() {
    let mut u = unit("app", UnitKinds::Bin, None);
    u.main = "src/main.cpp".to_string();
    assert_eq!(check(&manifest(vec![u])), Err(ConfigError::InvalidMain { unit: 0 }));
    let mut u = unit("app", UnitKinds::Bin, None);
    u.main = "src/main.csal".to_string();
    assert_eq!(check(&manifest(vec![u])), Ok(()));
    let mut u = unit("app", UnitKinds::Bin, None);
    u.main = "src/main".to_string();
    assert_eq!(check(&manifest(vec![u])), Err(ConfigError::InvalidMain { unit: 0 }));
}

#[test]
fn unit_without_sources_is_refused() {
    let mut u = unit("app", UnitKinds::Bin, None);
    u.src = Vec::new();
    assert_eq!(check(&manifest(vec![u])), Err(ConfigError::NoSources { unit: 0 }));
}

#[test]
fn library_after_binary_is_refused() {
    let m = manifest(vec![
        unit("app", UnitKinds::Bin, None),
        unit("math", UnitKinds::Lib, None),
    ]);
    assert_eq!(check(&m), Err(ConfigError::LibraryAfterBinary { unit: 1 }));
}

#[test]
fn undeclared_dependency_is_refused() {
    let m = manifest(vec![
        unit("math", UnitKinds::Lib, None),
        unit("app", UnitKinds::Bin, Some(&["math", "gfx"])),
    ]);
    assert_eq!(
        check(&m),
        Err(ConfigError::UndeclaredDependency { unit: 1, dep: 1 })
    );
}

#[test]
fn include_that_is_a_file_is_refused() {
    let mut u = unit("app", UnitKinds::Bin, None);
    u.includes = Some(strings(&["include/", "include/x.h"]));
    let m = manifest(vec![u]);
    assert_eq!(
        m.validate_with(&vec![vec![false, true]]),
        Err(ConfigError::IncludeIsFile { unit: 0, entry: 1 })
    );
    assert_eq!(m.validate_with(&vec![vec![false, false]]), Ok(()));
}

#[test]
fn c89_with_msvc_is_refused() {
    let mut m = manifest(vec![unit("app", UnitKinds::Bin, None)]);
    m.build.edition = CEditions::C89;
    m.build.compiler = CompilerBackend::Msvc;
    assert_eq!(check(&m), Err(ConfigError::C89WithMsvc));
    m.build.compiler = CompilerBackend::Gcc;
    assert_eq!(check(&m), Ok(()));
}

#[test]
fn cmake_version_must_be_a_milestone() {
    let mut m = manifest(vec![unit("app", UnitKinds::Bin, None)]);
    m.build.build_sys_ver = "3.28".to_string();
    assert_eq!(check(&m), Ok(()));
    m.build.build_sys_ver = "3.20".to_string();
    assert_eq!(check(&m), Err(ConfigError::UnsupportedCMakeVersion));
}

#[test]
fn first_failing_check_is_reported() {
    let mut m = manifest(vec![
        unit("app", UnitKinds::Bin, Some(&["nope"])),
        unit("", UnitKinds::Lib, None),
    ]);
    m.build.build_sys_ver = "9".to_string();
    assert_eq!(
        check(&m),
        Err(ConfigError::UndeclaredDependency { unit: 0, dep: 0 })
    );
}

#[test]
fn validate_asks_the_file_system() {
    let mut u = unit("app", UnitKinds::Bin, None);
    u.includes = Some(strings(&["/definitely/not/here/include"]));
    assert_eq!(manifest(vec![u]).validate(), Ok(()));
}

#[test]
fn prefix_of_a_valid_manifest_is_valid() {
    let m = manifest(vec![
        unit("math", UnitKinds::Lib, None),
        unit("util", UnitKinds::Lib, Some(&["math"])),
        unit("app", UnitKinds::Bin, Some(&["math", "util"])),
    ]);
    assert_eq!(check(&m), Ok(()));
    for k in 1..=m.unit.len() {
        let mut prefix = m.duplicate();
        prefix.unit.truncate(k);
        assert_eq!(check(&prefix), Ok(()), "first {} units", k);
    }
}

#[test]
fn verdict_ignores_fields_validation_does_not_read() {
    let base = manifest(vec![
        unit("math", UnitKinds::Lib, None),
        unit("app", UnitKinds::Bin, Some(&["math", "nope"])),
    ]);
    let mut other = base.duplicate();
    other.package.version = "9.9.9".to_string();
    other.package.authors = strings(&["someone"]);
    other.package.description = "changed".to_string();
    other.build.build_dir = None;
    other.unit[0].name = "  math ".to_string();
    other.unit[1].deps = Some(strings(&[" math", "nope "]));
    other.unit[1].compiler_flags = Some(strings(&["-O3"]));
    other.unit[1].linker_flags = Some(strings(&["-lm"]));
    assert_eq!(check(&base), check(&other));
    assert!(check(&base).is_err());
}

#[test]
fn include_probes_are_the_include_entries() {
    let mut m = manifest(vec![
        unit("math", UnitKinds::Lib, None),
        unit("app", UnitKinds::Bin, Some(&["math"])),
    ]);
    m.unit[1].includes = Some(strings(&["include/", "vendor/include"]));
    assert_eq!(
        m.include_probes(),
        vec![Vec::<String>::new(), strings(&["include/", "vendor/include"])]
    );
}
