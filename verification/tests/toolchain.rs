use csalt::config::{CEditions, CompilerBackend, UnitKinds};
use csalt::linker::LinkerDriver;
use csalt::plan::PreparedUnit;
use csalt::toolchain::{
    archive_command, attach_zig_target_arg, compile_source_args, dynamic_library_name,
    executable_path, object_path, relative_source, TargetOs, ToolError,
};

fn strings(v: &[&str]) -> Vec<String> {
    v.iter().map(|s| s.to_string()).collect()
}

fn prepared(kind: UnitKinds, deps: Vec<(String, UnitKinds, Option<String>)>) -> PreparedUnit {
    PreparedUnit {
        name: "app".to_string(),
        kind,
        src: strings(&["/proj/src/main.c"]),
        includes: None,
        resolved_deps: deps,
        compiler_flags: strings(&["-Wall"]),
        linker_flags: strings(&["-lm"]),
        unpack_compiler_flags: strings(&["-I/usr/include/glib"]),
        unpack_linker_flags: strings(&["-lglib"]),
    }
}

#[test]
fn file_names_per_backend_and_platform() {
    assert_eq!(CompilerBackend::Gcc.object_extension(), "o");
    assert_eq!(CompilerBackend::Msvc.object_extension(), "obj");
    assert_eq!(CompilerBackend::Clang.library_name("math"), "libmath.a");
    assert_eq!(CompilerBackend::ClangCl.library_name("math"), "math.lib");
    assert_eq!(dynamic_library_name("math", TargetOs::Other), "libmath.so");
    assert_eq!(dynamic_library_name("math", TargetOs::MacOs), "libmath.dylib");
    assert_eq!(dynamic_library_name("math", TargetOs::Windows), "math.dll");
    assert_eq!(executable_path("/proj/build", "app", TargetOs::Other), "/proj/build/app");
    assert_eq!(executable_path("/proj/build", "app", TargetOs::Windows), "/proj/build/app.exe");
}

#[test]
fn zig_runs_as_cc_with_target() {
    let mut args = Vec::new();
    attach_zig_target_arg(CompilerBackend::Zig, &mut args, &Some("x86_64-pc-windows-msvc".to_string()));
    assert_eq!(args, strings(&["cc", "-target", "x86_64-pc-windows-msvc"]));
    let mut args = Vec::new();
    attach_zig_target_arg(CompilerBackend::Gcc, &mut args, &Some("t".to_string()));
    assert!(args.is_empty());
}

#[test]
fn object_files_live_in_the_cache() {
    let rel = relative_source("/proj/src/main.c", "/proj").unwrap();
    assert_eq!(rel, "src/main.c");
    assert_eq!(object_path(CompilerBackend::Gcc, "/proj/.csalt", &rel), "/proj/.csalt/src/main.o");
    assert_eq!(object_path(CompilerBackend::Msvc, "/proj/.csalt", &rel), "/proj/.csalt/src/main.obj");
    assert!(matches!(relative_source("/elsewhere/a.c", "/proj"), Err(ToolError::SourceOutsideProject)));
}

#[test]
fn gcc_like_compile_line() {
    let unit = prepared(UnitKinds::Lib, Vec::new());
    let args = compile_source_args(
        CompilerBackend::Zig,
        CEditions::C17,
        &unit,
        &None,
        &strings(&["/proj/include"]),
        "src/main.c",
        "/proj/.csalt/src/main.o",
        "/proj/build/app",
        "/proj/.csalt/libapp.so",
    );
    assert_eq!(
        args,
        strings(&[
            "cc",
            "-I",
            "/proj/include",
            "-I/usr/include/glib",
            "-std=c17",
            "-Wall",
            "-c",
            "src/main.c",
            "-o",
            "/proj/.csalt/src/main.o",
        ])
    );
}

#[test]
fn msvc_like_compile_line() {
    let unit = prepared(UnitKinds::Dyn, Vec::new());
    let args = compile_source_args(
        CompilerBackend::ClangCl,
        CEditions::C23,
        &unit,
        &None,
        &strings(&["C:/inc"]),
        "src/main.c",
        "C:/proj/.csalt/src/main.obj",
        "C:/proj/build/app.exe",
        "C:/proj/.csalt/app.dll",
    );
    assert_eq!(
        args,
        strings(&[
            "/IC:/inc",
            "-I/usr/include/glib",
            "/std:clatest",
            "/LD",
            "/Fe:C:/proj/.csalt/app.dll",
            "src/main.c",
            "/Fo:C:/proj/.csalt/src/main.obj",
        ])
    );
}

#[test]
fn archive_lines() {
    let objs = strings(&["a.o", "b.o"]);
    let (p, args) = archive_command(CompilerBackend::Gcc, "libm.a", "/c/libm.a", &objs);
    assert_eq!(p, "ar");
    assert_eq!(args, strings(&["rcs", "libm.a", "a.o", "b.o"]));
    let (p, args) = archive_command(CompilerBackend::Msvc, "m.lib", "C:/c/m.lib", &objs);
    assert_eq!(p, "lib");
    assert_eq!(args, strings(&["/OUT:C:/c/m.lib", "a.o", "b.o"]));
}

#[test]
fn link_line_for_a_binary_with_dependencies() {
    let unit = prepared(
        UnitKinds::Bin,
        vec![
            ("math".to_string(), UnitKinds::Lib, None),
            ("z".to_string(), UnitKinds::ExtLib, Some("vendor/libz.a".to_string())),
            ("glib".to_string(), UnitKinds::Pkg, None),
        ],
    );
    let driver = LinkerDriver::new(&CompilerBackend::Gcc, None);
    let mut args = strings(&["main.o"]);
    let canonical = vec![None, Some("/proj/vendor/libz.a".to_string()), None];
    driver
        .build_flags(&mut args, &unit, "libapp.so", "libapp.so", "/proj/build/app", TargetOs::Other, &canonical)
        .unwrap();
    assert_eq!(
        args,
        strings(&["main.o", "-o", "/proj/build/app", "-L.", "-lm", "-lglib", "-lmath", "/proj/vendor/libz.a"])
    );
}

#[test]
fn link_line_for_a_dynamic_library_on_macos() {
    let unit = prepared(UnitKinds::Dyn, Vec::new());
    let driver = LinkerDriver::new(&CompilerBackend::Clang, None);
    let mut args = Vec::new();
    driver
        .build_flags(&mut args, &unit, "/c/libapp.dylib", "libapp.dylib", "/b/app", TargetOs::MacOs, &Vec::new())
        .unwrap();
    assert_eq!(
        args,
        strings(&[
            "-shared", "-fPIC", "-o", "/c/libapp.dylib", "-Xlinker", "-install_name", "-Xlinker",
            "@rpath/libapp.dylib", "-L.", "-lm", "-lglib",
        ])
    );
}

#[test]
fn link_errors_keep_the_options_added_before_them() {
    let unit = prepared(
        UnitKinds::Bin,
        vec![
            ("z".to_string(), UnitKinds::ExtDyn, Some("vendor/libz.so".to_string())),
            ("y".to_string(), UnitKinds::ExtLib, None),
        ],
    );
    let driver = LinkerDriver::new(&CompilerBackend::Gcc, None);
    let mut args = strings(&["main.o"]);
    let r = driver.build_flags(&mut args, &unit, "d", "d", "e", TargetOs::Other, &vec![None, None]);
    assert!(matches!(r, Err(ToolError::UnresolvableDependencyPath { dep: 0 })));
    assert_eq!(args, strings(&["main.o", "-o", "e", "-L.", "-lm", "-lglib"]));
    let mut args = strings(&["main.o"]);
    let r = driver.build_flags(
        &mut args,
        &unit,
        "d",
        "d",
        "e",
        TargetOs::Other,
        &vec![Some("/z".to_string()), None],
    );
    assert!(matches!(r, Err(ToolError::MissingDependencyPath { dep: 1 })));
    assert_eq!(args, strings(&["main.o", "-o", "e", "-L.", "-lm", "-lglib", "/z"]));
}

#[test]
fn msvc_driver_adds_nothing() {
    let unit = prepared(UnitKinds::Bin, Vec::new());
    let driver = LinkerDriver::new(&CompilerBackend::Msvc, None);
    assert!(matches!(driver, LinkerDriver::ClLike));
    let mut args = strings(&["main.obj"]);
    driver.build_flags(&mut args, &unit, "d", "d", "e", TargetOs::Windows, &Vec::new()).unwrap();
    assert_eq!(args, strings(&["main.obj"]));
}
