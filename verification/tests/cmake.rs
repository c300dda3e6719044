use std::collections::BTreeMap;

use csalt::cmake::{cmake_build_args, cmake_configure_args, emit_build_file_output, CmakeError};
use csalt::config::{
    BuildSection, BuildSystems, CEditions, CompilerBackend, PackageSection, SaltLock, SaltToml,
    UnitKinds,
};
use csalt::plan::PreparedUnit;
use csalt::version::VersionError;

fn strings(v: &[&str]) -> Vec<String> {
    v.iter().map(|s| s.to_string()).collect()
}

fn lock(version: &str) -> SaltLock {
    SaltLock {
        lock_version: "0.1.0".to_string(),
        manifest: SaltToml {
            package: PackageSection {
                name: "demo".to_string(),
                version: "0.1.0".to_string(),
                authors: strings(&[""]),
                description: String::new(),
            },
            build: BuildSection {
                build_sys: BuildSystems::CMake,
                build_sys_ver: version.to_string(),
                build_dir: None,
                edition: CEditions::C11,
                compiler: CompilerBackend::Clang,
            },
            unit: Vec::new(),
        },
        files: BTreeMap::new(),
    }
}

fn prepared(
    name: &str,
    kind: UnitKinds,
    src: &[&str],
    includes: Option<&[&str]>,
    deps: Vec<(String, UnitKinds, Option<String>)>,
) -> PreparedUnit {
    PreparedUnit {
        name: name.to_string(),
        kind,
        src: strings(src),
        includes: includes.map(strings),
        resolved_deps: deps,
        compiler_flags: Vec::new(),
        linker_flags: Vec::new(),
        unpack_compiler_flags: Vec::new(),
        unpack_linker_flags: Vec::new(),
    }
}

#[test]
fn single_binary_project() {
    let plan = vec![prepared("bin", UnitKinds::Bin, &["/proj/src/main.c"], None, Vec::new())];
    let out = emit_build_file_output(&plan, "/proj", "build", &lock("3.15")).unwrap();
    assert_eq!(
        out,
        "cmake_minimum_required(VERSION 3.15.0)\n\
         project(demo LANGUAGES C)\n\
         # !![ REMOVE the following line (output directory) if moving to main directory ]!!\n\
         set(CMAKE_RUNTIME_OUTPUT_DIRECTORY \"build\")\n\
         set(CMAKE_C_STANDARD 11)\n\
         set(CMAKE_C_STANDARD_REQUIRED ON)\n\
         \n\
         # === UNIT: bin bin ===\n\
         add_executable(bin \"src/main.c\")"
    );
}

#[test]
fn libraries_packages_and_dependencies() {
    let plan = vec![
        prepared("glib", UnitKinds::Pkg, &[], None, Vec::new()),
        prepared("z", UnitKinds::ExtLib, &["/proj/vendor/libz.a"], None, Vec::new()),
        prepared(
            "math",
            UnitKinds::Lib,
            &["/proj/math/a.c", "/proj/math/b.c"],
            Some(&["/proj/include", "/other/inc"]),
            Vec::new(),
        ),
        prepared(
            "app",
            UnitKinds::Bin,
            &["/proj/src/main.c"],
            None,
            vec![
                ("math".to_string(), UnitKinds::Lib, None),
                ("glib".to_string(), UnitKinds::Pkg, None),
                ("z".to_string(), UnitKinds::ExtLib, Some("/proj/vendor/libz.a".to_string())),
            ],
        ),
    ];
    let out = emit_build_file_output(&plan, "/proj", "C:\\out\\build", &lock("3.28")).unwrap();
    let expected = [
        "cmake_minimum_required(VERSION 3.28.0)",
        "project(demo LANGUAGES C)",
        "# !![ REMOVE the following line (output directory) if moving to main directory ]!!",
        "set(CMAKE_RUNTIME_OUTPUT_DIRECTORY \"C:/out/build\")",
        "set(CMAKE_C_STANDARD 11)",
        "set(CMAKE_C_STANDARD_REQUIRED ON)",
        "",
        "# === PACKAGES ===",
        "find_package(PkgConfig REQUIRED)",
        "",
        "pkg_check_modules(GLIB REQUIRED IMPORTED_TARGET glib)",
        "",
        "# === UNIT: extlib z ===",
        "add_library(z STATIC IMPORTED GLOBAL)",
        "set_target_properties(z PROPERTIES IMPORTED_LOCATION \"vendor/libz.a\")",
        "",
        "# === UNIT: lib math ===",
        "add_library(math STATIC \"math/a.c\" \"math/b.c\")",
        "target_include_directories(math PRIVATE include)",
        "target_include_directories(math PRIVATE /other/inc)",
        "",
        "# === UNIT: bin app ===",
        "add_executable(app \"src/main.c\")",
        "# === DEPS: app ===",
        "target_link_libraries(app PRIVATE math PkgConfig::GLIB z)",
    ]
    .join("\n");
    assert_eq!(out, expected);
}

#[test]
fn old_cmake_is_refused() {
    let plan = Vec::new();
    assert!(matches!(
        emit_build_file_output(&plan, "/proj", "build", &lock("3.10")),
        Err(CmakeError::UnsupportedVersion)
    ));
    assert!(matches!(
        emit_build_file_output(&plan, "/proj", "build", &lock("3.15.0-rc1")),
        Err(CmakeError::UnsupportedVersion)
    ));
    assert!(matches!(
        emit_build_file_output(&plan, "/proj", "build", &lock("^3.15")),
        Err(CmakeError::Version(VersionError::RangeNotSupported))
    ));
    assert!(matches!(
        emit_build_file_output(&plan, "/proj", "build", &lock("three")),
        Err(CmakeError::Version(VersionError::InvalidVersion))
    ));
}

#[test]
fn cmake_command_lines() {
    assert_eq!(
        cmake_configure_args("build", CompilerBackend::Gcc, true, &None),
        strings(&["-B", "build", "-DCMAKE_C_COMPILER=gcc"])
    );
    assert_eq!(
        cmake_configure_args("build", CompilerBackend::Zig, true, &Some("aarch64-linux".to_string())),
        strings(&["-B", "build", "-DCMAKE_C_COMPILER=zig", "-DCMAKE_C_COMPILER_ARG1=\"cc -target aarch64-linux\""])
    );
    assert_eq!(
        cmake_configure_args("build", CompilerBackend::Zig, true, &None),
        strings(&["-B", "build", "-DCMAKE_C_COMPILER=zig", "-DCMAKE_C_COMPILER_ARG1=cc"])
    );
    assert_eq!(
        cmake_configure_args("build", CompilerBackend::Zig, false, &None),
        strings(&["-B", "build"])
    );
    assert_eq!(cmake_build_args("build"), strings(&["--build", "build"]));
}

#[test]
fn releases_from_3_15_are_accepted() {
    let plan = Vec::new();
    for v in ["3.15", "3.15.0", "3.16", "4", "10.0.0+build"] {
        assert!(emit_build_file_output(&plan, "/proj", "build", &lock(v)).is_ok(), "{}", v);
    }
    for v in ["3.14.9", "2", "3.16.0-beta"] {
        assert!(matches!(
            emit_build_file_output(&plan, "/proj", "build", &lock(v)),
            Err(CmakeError::UnsupportedVersion)
        ), "{}", v);
    }
}
