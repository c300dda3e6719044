//! What a new project starts with: its manifest, `.gitignore` and `main.c`.
use vstd::prelude::*;
use crate::config::{
    BuildSection, BuildSystems, CEditions, CompilerBackend, PackageSection, SaltToml, UnitKinds,
    UnitVector,
};
use crate::toolchain::push_arg;

verus! {

/// The name of a project: the final component of its directory, or
/// `project` when there is none.
pub open spec fn project_name_text(file_name: Option<Seq<char>>) -> Seq<char> {
    match file_name {
        Some(n) => n,
        None => "project"@,
    }
}

/// The name of a project, given the file name of its directory.
pub fn project_name(file_name: Option<&str>) -> (r: String)
    ensures
        r@ == project_name_text(
            match file_name {
                Some(n) => Some(n@),
                None => None,
            },
        ),
{
    match file_name {
        Some(n) => String::from_str(n),
        None => String::from_str("project"),
    }
}

/// The manifest of a new project: package `project_name` at version `0.1.0`
/// with one empty author, built with CMake 3.15 into `build/` as C11 with
/// clang, and one binary unit of the same name with main `src/main.c`,
/// sources in `src/` and headers in `include/`.
pub fn default_manifest(project_name: &str) -> (r: SaltToml)
    ensures
        r.package.name@ == project_name@,
        r.package.version@ == "0.1.0"@,
        r.package.authors.deep_view() == seq![Seq::<char>::empty()],
        r.package.description@ == Seq::<char>::empty(),
        r.build.build_sys == BuildSystems::CMake,
        r.build.build_sys_ver@ == "3.15"@,
        r.build.build_dir matches Some(d) && d@ == "build/"@,
        r.build.edition == CEditions::C11,
        r.build.compiler == CompilerBackend::Clang,
        r.unit@.len() == 1,
        r.unit@[0].name@ == project_name@,
        r.unit@[0].kind == UnitKinds::Bin,
        r.unit@[0].main@ == "src/main.c"@,
        r.unit@[0].src.deep_view() == seq!["src/"@],
        r.unit@[0].includes matches Some(v) && v.deep_view() == seq!["include/"@],
        r.unit@[0].deps is None,
        r.unit@[0].compiler_flags is None,
        r.unit@[0].linker_flags is None,
{
    let mut authors: Vec<String> = Vec::new();
    authors.push(String::new());
    let mut src: Vec<String> = Vec::new();
    push_arg(&mut src, "src/");
    let mut includes: Vec<String> = Vec::new();
    push_arg(&mut includes, "include/");
    let unit = UnitVector {
        name: String::from_str(project_name),
        kind: UnitKinds::Bin,
        main: String::from_str("src/main.c"),
        src,
        includes: Some(includes),
        deps: None,
        compiler_flags: None,
        linker_flags: None,
    };
    let mut units: Vec<UnitVector> = Vec::new();
    units.push(unit);
    proof {
        assert(authors.deep_view() =~= seq![Seq::<char>::empty()]);
        assert(src.deep_view() =~= seq!["src/"@]);
    }
    SaltToml {
        package: PackageSection {
            name: String::from_str(project_name),
            version: String::from_str("0.1.0"),
            authors,
            description: String::new(),
        },
        build: BuildSection {
            build_sys: BuildSystems::CMake,
            build_sys_ver: String::from_str("3.15"),
            build_dir: Some(String::from_str("build/")),
            edition: CEditions::C11,
            compiler: CompilerBackend::Clang,
        },
        unit: units,
    }
}

/// The lines of a new `.gitignore`: the build and cache directories, and in
/// stealth mode the C-Salt files themselves.
pub open spec fn gitignore_text(stealth: bool) -> Seq<Seq<char>> {
    seq!["build/"@, ".csalt/"@] + if stealth {
        seq!["Salt.toml"@, "Salt.lock"@]
    } else {
        seq![]
    }
}

/// The lines of a new `.gitignore`.
pub fn gitignore_lines(stealth: bool) -> (r: Vec<String>)
    ensures
        r.deep_view() == gitignore_text(stealth),
{
    let mut lines: Vec<String> = Vec::new();
    push_arg(&mut lines, "build/");
    push_arg(&mut lines, ".csalt/");
    if stealth {
        push_arg(&mut lines, "Salt.toml");
        push_arg(&mut lines, "Salt.lock");
    }
    assert(lines.deep_view() =~= gitignore_text(stealth));
    lines
}

/// The lines of the `main.c` a new project starts with.
pub open spec fn main_c_text() -> Seq<Seq<char>> {
    seq![
        "#include <stdio.h>"@,
        ""@,
        "int main() {"@,
        "    printf(\"Hello, World!\\n\");"@,
        "    return 0;"@,
        "}"@,
    ]
}

/// The lines of the `main.c` a new project starts with.
pub fn main_c_lines() -> (r: Vec<String>)
    ensures
        r.deep_view() == main_c_text(),
{
    let mut lines: Vec<String> = Vec::new();
    push_arg(&mut lines, "#include <stdio.h>");
    push_arg(&mut lines, "");
    push_arg(&mut lines, "int main() {");
    push_arg(&mut lines, "    printf(\"Hello, World!\\n\");");
    push_arg(&mut lines, "    return 0;");
    push_arg(&mut lines, "}");
    assert(lines.deep_view() =~= main_c_text());
    lines
}

/// The directories a new project gets: `src`, `include`, `build` and the
/// cache `.csalt`, and in a full project also `tests` and `vendor`.
pub open spec fn project_directory_names(full: bool) -> Seq<Seq<char>> {
    seq!["src"@, "include"@, "build"@, ".csalt"@] + if full {
        seq!["tests"@, "vendor"@]
    } else {
        seq![]
    }
}

/// The directories a new project gets.
pub fn project_directories(full: bool) -> (r: Vec<String>)
    ensures
        r.deep_view() == project_directory_names(full),
{
    let mut dirs: Vec<String> = Vec::new();
    push_arg(&mut dirs, "src");
    push_arg(&mut dirs, "include");
    push_arg(&mut dirs, "build");
    push_arg(&mut dirs, ".csalt");
    if full {
        push_arg(&mut dirs, "tests");
        push_arg(&mut dirs, "vendor");
    }
    assert(dirs.deep_view() =~= project_directory_names(full));
    dirs
}

} // verus!
