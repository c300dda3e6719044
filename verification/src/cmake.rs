//! Generation of a `CMakeLists.txt` from a build plan, and the CMake command
//! lines of a managed build.
use vstd::prelude::*;
use crate::config::{BuildSystems, CEditions, CompilerBackend, SaltLock, SaltToml, UnitKinds};
use crate::paths::{path_strip_prefix, stripped_path};
use crate::plan::{deps_view, PreparedUnit};
use crate::text::{
    ascii_upper, remove_char, remove_chars, replace_char, replace_chars, to_ascii_uppercase,
    trim_end, trim_end_str,
};
use crate::version::{
    normalize_semver, normalized_version, padded_version, parse_requirement, release_at_least,
    requirement_accepts, SemVer,
    VersionError,
};

verus! {

/// Why no `CMakeLists.txt` can be generated.
#[derive(Debug, Clone, Copy, PartialEq, Eq, Structural)]
pub enum CmakeError {
    /// The build-system version is not a usable version.
    Version(VersionError),
    /// The CMake version is older than 3.15, or a pre-release.
    UnsupportedVersion,
}

/// `parts` joined with `sep` between consecutive parts.
pub open spec fn join_texts(parts: Seq<Seq<char>>, sep: Seq<char>) -> Seq<char>
    decreases parts.len(),
{
    if parts.len() == 0 {
        seq![]
    } else if parts.len() == 1 {
        parts[0]
    } else {
        join_texts(parts.drop_last(), sep) + sep + parts.last()
    }
}

/// A path relative to `base` when it lies inside it, otherwise as it is.
pub open spec fn relative_or_self(p: Seq<char>, base: Seq<char>) -> Seq<char> {
    match stripped_path(p, base) {
        Some(r) => r,
        None => p,
    }
}

/// A source path as CMake reads it: relative to the project, with forward
/// slashes, in double quotes.
pub open spec fn quoted_source(p: Seq<char>, base: Seq<char>) -> Seq<char> {
    "\""@ + replace_char(relative_or_self(p, base), '\\', '/') + "\""@
}

/// The quoted sources of a unit, separated by spaces.
pub open spec fn source_list(srcs: Seq<Seq<char>>, base: Seq<char>) -> Seq<char> {
    join_texts(srcs.map_values(|p: Seq<char>| quoted_source(p, base)), " "@)
}

/// The lines that declare a unit's target.
pub open spec fn target_lines(kind: UnitKinds, name: Seq<char>, srcs: Seq<char>) -> Seq<char> {
    match kind {
        UnitKinds::Bin => "add_executable("@ + name + " "@ + srcs + ")\n"@,
        UnitKinds::Lib => "add_library("@ + name + " STATIC "@ + srcs + ")\n"@,
        UnitKinds::Dyn => "add_library("@ + name + " SHARED "@ + srcs + ")\n"@,
        UnitKinds::ExtLib => "add_library("@ + name + " STATIC IMPORTED GLOBAL)\n"@
            + "set_target_properties("@ + name + " PROPERTIES IMPORTED_LOCATION \""@
            + remove_char(srcs, '"') + "\")\n"@,
        UnitKinds::ExtDyn => "add_library("@ + name + " SHARED IMPORTED GLOBAL)\n"@
            + "set_target_properties("@ + name + " PROPERTIES IMPORTED_LOCATION \""@
            + remove_char(srcs, '"') + "\")\n"@,
        UnitKinds::Pkg => seq![],
    }
}

/// One include-directory line per include directory of a unit.
pub open spec fn include_lines(name: Seq<char>, dirs: Seq<Seq<char>>, base: Seq<char>) -> Seq<char>
    decreases dirs.len(),
{
    if dirs.len() == 0 {
        seq![]
    } else {
        include_lines(name, dirs.drop_last(), base) + "target_include_directories("@ + name
            + " PRIVATE "@ + relative_or_self(dirs.last(), base) + ")\n"@
    }
}

/// How CMake names a dependency: `PkgConfig::<NAME>` for a package, its own
/// name otherwise.
pub open spec fn link_name(d: (Seq<char>, UnitKinds, Option<Seq<char>>)) -> Seq<char> {
    if d.1 == UnitKinds::Pkg {
        "PkgConfig::"@ + ascii_upper(d.0)
    } else {
        d.0
    }
}

/// The lines that link a unit's dependencies, if it has any.
pub open spec fn dependency_lines(
    name: Seq<char>,
    deps: Seq<(Seq<char>, UnitKinds, Option<Seq<char>>)>,
) -> Seq<char> {
    if deps.len() == 0 {
        seq![]
    } else {
        "# === DEPS: "@ + name + " ===\n"@ + "target_link_libraries("@ + name + " PRIVATE "@
            + join_texts(deps.map_values(|d: (Seq<char>, UnitKinds, Option<Seq<char>>)| link_name(d)), " "@)
            + ")\n"@
    }
}

/// The include directories of a prepared unit.
pub open spec fn unit_includes(u: PreparedUnit) -> Seq<Seq<char>> {
    match u.includes {
        Some(v) => v.deep_view(),
        None => seq![],
    }
}

/// The block of a (non-package) unit, ending with an empty line.
pub open spec fn unit_block(u: PreparedUnit, base: Seq<char>) -> Seq<char> {
    "# === UNIT: "@ + u.kind.text() + " "@ + u.name@ + " ===\n"@ + target_lines(
        u.kind,
        u.name@,
        source_list(u.src.deep_view(), base),
    ) + include_lines(u.name@, unit_includes(u), base) + dependency_lines(
        u.name@,
        deps_view(u.resolved_deps@),
    ) + "\n"@
}

/// The blocks of the non-package units among the first `n`.
pub open spec fn unit_blocks(plan: Seq<PreparedUnit>, base: Seq<char>, n: nat) -> Seq<char>
    decreases n,
{
    if n == 0 {
        seq![]
    } else if plan[n - 1].kind == UnitKinds::Pkg {
        unit_blocks(plan, base, (n - 1) as nat)
    } else {
        unit_blocks(plan, base, (n - 1) as nat) + unit_block(plan[n - 1], base)
    }
}

/// One `pkg_check_modules` line per package unit among the first `n`.
pub open spec fn package_lines(plan: Seq<PreparedUnit>, n: nat) -> Seq<char>
    decreases n,
{
    if n == 0 {
        seq![]
    } else if plan[n - 1].kind == UnitKinds::Pkg {
        package_lines(plan, (n - 1) as nat) + "pkg_check_modules("@ + ascii_upper(plan[n - 1].name@)
            + " REQUIRED IMPORTED_TARGET "@ + plan[n - 1].name@ + ")\n"@
    } else {
        package_lines(plan, (n - 1) as nat)
    }
}

/// The package section: present when some unit is a package.
pub open spec fn package_section(plan: Seq<PreparedUnit>) -> Seq<char> {
    if exists|i: int| 0 <= i < plan.len() && (#[trigger] plan[i]).kind == UnitKinds::Pkg {
        "\n# === PACKAGES ===\nfind_package(PkgConfig REQUIRED)\n\n"@ + package_lines(
            plan,
            plan.len(),
        )
    } else {
        seq![]
    }
}

/// The opening lines: minimum version, project, output directory, standard.
pub open spec fn header_lines(
    version: Seq<char>,
    project: Seq<char>,
    build_dir: Seq<char>,
    edition: CEditions,
) -> Seq<char> {
    "cmake_minimum_required(VERSION "@ + version + ")\n"@ + "project("@ + project
        + " LANGUAGES C)\n"@
        + "# !![ REMOVE the following line (output directory) if moving to main directory ]!!\n"@
        + "set(CMAKE_RUNTIME_OUTPUT_DIRECTORY \""@ + replace_char(build_dir, '\\', '/')
        + "\")\n"@ + "set(CMAKE_C_STANDARD "@ + remove_char(edition.text(), 'c')
        + ")\nset(CMAKE_C_STANDARD_REQUIRED ON)\n"@
}

/// The whole generated `CMakeLists.txt`, without trailing white space.
pub open spec fn cmake_lists(
    plan: Seq<PreparedUnit>,
    base: Seq<char>,
    build_dir: Seq<char>,
    manifest: SaltToml,
    version: (u64, u64, u64, Seq<char>, Seq<char>),
) -> Seq<char> {
    trim_end(
        header_lines(
            SemVer::text(version),
            manifest.package.name@,
            build_dir,
            manifest.build.edition,
        ) + package_section(plan) + "\n"@ + unit_blocks(plan, base, plan.len()),
    )
}

/// The outcome of generating a `CMakeLists.txt` for a lock: the CMake
/// version must normalise to a release at or above 3.15.0.
pub open spec fn cmake_generation(
    plan: Seq<PreparedUnit>,
    base: Seq<char>,
    build_dir: Seq<char>,
    lock: SaltLock,
) -> Result<Seq<char>, CmakeError> {
    match normalized_version(lock.manifest.build.build_sys_ver@) {
        Err(e) => Err(CmakeError::Version(e)),
        Ok(v) => if !release_at_least(v, 3, 15, 0) {
            Err(CmakeError::UnsupportedVersion)
        } else {
            Ok(cmake_lists(plan, base, build_dir, lock.manifest, v))
        },
    }
}

/// A path relative to `base` when it lies inside it, otherwise as it is.
pub fn relative_or_whole(p: &str, base: &str) -> (r: String)
    ensures
        r@ == relative_or_self(p@, base@),
{
    match path_strip_prefix(p, base) {
        Some(r) => r,
        None => String::from_str(p),
    }
}

/// The quoted sources of a unit, separated by spaces.
pub fn source_list_text(srcs: &Vec<String>, base: &str) -> (r: String)
    ensures
        r@ == source_list(srcs.deep_view(), base@),
{
    let ghost parts = srcs.deep_view().map_values(|p: Seq<char>| quoted_source(p, base@));
    let mut out = String::new();
    let mut i: usize = 0;
    while i < srcs.len()
        invariant
            i <= srcs@.len(),
            parts == srcs.deep_view().map_values(|p: Seq<char>| quoted_source(p, base@)),
            out@ == join_texts(parts.subrange(0, i as int), " "@),
        decreases srcs.len() - i,
    {
        let ghost before = out@;
        if i > 0 {
            out.append(" ");
        }
        let rel = relative_or_whole(srcs[i].as_str(), base);
        let slashed = replace_chars(rel.as_str(), '\\', '/');
        out.append("\"");
        out.append(slashed.as_str());
        out.append("\"");
        proof {
            assert(srcs.deep_view()[i as int] == srcs@[i as int]@);
            let sub = parts.subrange(0, i + 1);
            assert(sub.drop_last() =~= parts.subrange(0, i as int));
            assert(sub.last() == quoted_source(srcs@[i as int]@, base@));
            if i == 0 {
                assert(out@ =~= join_texts(sub, " "@));
            } else {
                assert(out@ =~= join_texts(sub, " "@));
            }
        }
        i = i + 1;
    }
    assert(parts.subrange(0, srcs@.len() as int) =~= parts);
    out
}

/// The lines that declare a unit's target.
pub fn target_lines_text(kind: UnitKinds, name: &str, srcs: &str) -> (r: String)
    ensures
        r@ == target_lines(kind, name@, srcs@),
{
    let mut out = String::new();
    match kind {
        UnitKinds::Bin => {
            out.append("add_executable(");
            out.append(name);
            out.append(" ");
            out.append(srcs);
            out.append(")\n");
        },
        UnitKinds::Lib | UnitKinds::Dyn => {
            out.append("add_library(");
            out.append(name);
            match kind {
                UnitKinds::Lib => out.append(" STATIC "),
                _ => out.append(" SHARED "),
            }
            out.append(srcs);
            out.append(")\n");
        },
        UnitKinds::ExtLib | UnitKinds::ExtDyn => {
            out.append("add_library(");
            out.append(name);
            match kind {
                UnitKinds::ExtLib => out.append(" STATIC IMPORTED GLOBAL)\n"),
                _ => out.append(" SHARED IMPORTED GLOBAL)\n"),
            }
            out.append("set_target_properties(");
            out.append(name);
            out.append(" PROPERTIES IMPORTED_LOCATION \"");
            let bare = remove_chars(srcs, '"');
            out.append(bare.as_str());
            out.append("\")\n");
        },
        UnitKinds::Pkg => {},
    }
    assert(out@ =~= target_lines(kind, name@, srcs@));
    out
}

/// One include-directory line per include directory of a unit.
pub fn include_lines_text(name: &str, dirs: &Vec<String>, base: &str) -> (r: String)
    ensures
        r@ == include_lines(name@, dirs.deep_view(), base@),
{
    let mut out = String::new();
    let mut i: usize = 0;
    while i < dirs.len()
        invariant
            i <= dirs@.len(),
            out@ == include_lines(name@, dirs.deep_view().subrange(0, i as int), base@),
        decreases dirs.len() - i,
    {
        let ghost before = out@;
        out.append("target_include_directories(");
        out.append(name);
        out.append(" PRIVATE ");
        let rel = relative_or_whole(dirs[i].as_str(), base);
        out.append(rel.as_str());
        out.append(")\n");
        proof {
            let sub = dirs.deep_view().subrange(0, i + 1);
            assert(sub.drop_last() =~= dirs.deep_view().subrange(0, i as int));
            assert(sub.last() == dirs@[i as int]@);
            assert(out@ =~= include_lines(name@, sub, base@));
        }
        i = i + 1;
    }
    assert(dirs.deep_view().subrange(0, dirs@.len() as int) =~= dirs.deep_view());
    out
}

/// The lines that link a unit's dependencies, if it has any.
pub fn dependency_lines_text(name: &str, deps: &Vec<crate::plan::ResolvedDep>) -> (r: String)
    ensures
        r@ == dependency_lines(name@, deps_view(deps@)),
{
    let mut out = String::new();
    let n = deps.len();
    if n == 0 {
        assert(deps_view(deps@).len() == 0);
        return out;
    }
    let ghost dv = deps_view(deps@);
    let ghost parts = dv.map_values(|d: (Seq<char>, UnitKinds, Option<Seq<char>>)| link_name(d));
    let mut names = String::new();
    let mut i: usize = 0;
    while i < n
        invariant
            n == deps@.len(),
            i <= n,
            dv == deps_view(deps@),
            parts == dv.map_values(|d: (Seq<char>, UnitKinds, Option<Seq<char>>)| link_name(d)),
            names@ == join_texts(parts.subrange(0, i as int), " "@),
        decreases n - i,
    {
        if i > 0 {
            names.append(" ");
        }
        let d = &deps[i];
        match d.1 {
            UnitKinds::Pkg => {
                names.append("PkgConfig::");
                let upper = to_ascii_uppercase(d.0.as_str());
                names.append(upper.as_str());
            },
            _ => {
                names.append(d.0.as_str());
            },
        }
        proof {
            assert(dv[i as int] == crate::plan::dep_view(deps@[i as int]));
            let sub = parts.subrange(0, i + 1);
            assert(sub.drop_last() =~= parts.subrange(0, i as int));
            assert(sub.last() == link_name(dv[i as int]));
            assert(names@ =~= join_texts(sub, " "@));
        }
        i = i + 1;
    }
    assert(parts.subrange(0, n as int) =~= parts);
    out.append("# === DEPS: ");
    out.append(name);
    out.append(" ===\n");
    out.append("target_link_libraries(");
    out.append(name);
    out.append(" PRIVATE ");
    out.append(names.as_str());
    out.append(")\n");
    assert(out@ =~= dependency_lines(name@, dv));
    out
}

/// The block of a (non-package) unit, ending with an empty line.
pub fn unit_block_text(u: &PreparedUnit, base: &str) -> (r: String)
    ensures
        r@ == unit_block(*u, base@),
{
    let mut out = String::new();
    out.append("# === UNIT: ");
    out.append(u.kind.to_string());
    out.append(" ");
    out.append(u.name.as_str());
    out.append(" ===\n");
    let srcs = source_list_text(&u.src, base);
    let target = target_lines_text(u.kind, u.name.as_str(), srcs.as_str());
    out.append(target.as_str());
    let incs = match &u.includes {
        Some(dirs) => include_lines_text(u.name.as_str(), dirs, base),
        None => {
            assert(include_lines(u.name@, unit_includes(*u), base@) =~= Seq::<char>::empty());
            String::new()
        },
    };
    out.append(incs.as_str());
    let deps = dependency_lines_text(u.name.as_str(), &u.resolved_deps);
    out.append(deps.as_str());
    out.append("\n");
    assert(out@ =~= unit_block(*u, base@));
    out
}

/// The header lines of a generated `CMakeLists.txt`.
pub fn header_lines_text(version: &SemVer, project: &str, build_dir: &str, edition: CEditions) -> (r: String)
    ensures
        r@ == header_lines(SemVer::text(version@), project@, build_dir@, edition),
{
    let mut out = String::new();
    out.append("cmake_minimum_required(VERSION ");
    let v = version.to_text();
    out.append(v.as_str());
    out.append(")\n");
    out.append("project(");
    out.append(project);
    out.append(" LANGUAGES C)\n");
    out.append("# !![ REMOVE the following line (output directory) if moving to main directory ]!!\n");
    out.append("set(CMAKE_RUNTIME_OUTPUT_DIRECTORY \"");
    let dir = replace_chars(build_dir, '\\', '/');
    out.append(dir.as_str());
    out.append("\")\n");
    out.append("set(CMAKE_C_STANDARD ");
    let std = remove_chars(edition.to_string(), 'c');
    out.append(std.as_str());
    out.append(")\nset(CMAKE_C_STANDARD_REQUIRED ON)\n");
    assert(out@ =~= header_lines(SemVer::text(version@), project@, build_dir@, edition));
    out
}

/// The package section of a generated `CMakeLists.txt`.
pub fn package_section_text(plan: &Vec<PreparedUnit>) -> (r: String)
    ensures
        r@ == package_section(plan@),
{
    let n = plan.len();
    let mut lines = String::new();
    let mut any = false;
    let mut i: usize = 0;
    while i < n
        invariant
            n == plan@.len(),
            i <= n,
            lines@ == package_lines(plan@, i as nat),
            any <==> exists|j: int| 0 <= j < i && (#[trigger] plan@[j]).kind == UnitKinds::Pkg,
        decreases n - i,
    {
        match plan[i].kind {
            UnitKinds::Pkg => {
                lines.append("pkg_check_modules(");
                let upper = to_ascii_uppercase(plan[i].name.as_str());
                lines.append(upper.as_str());
                lines.append(" REQUIRED IMPORTED_TARGET ");
                lines.append(plan[i].name.as_str());
                lines.append(")\n");
                any = true;
                assert(lines@ =~= package_lines(plan@, (i + 1) as nat));
            },
            _ => {},
        }
        i = i + 1;
    }
    if any {
        let mut out = String::new();
        out.append("\n# === PACKAGES ===\nfind_package(PkgConfig REQUIRED)\n\n");
        out.append(lines.as_str());
        out
    } else {
        String::new()
    }
}

/// Writes the `CMakeLists.txt` of a plan for a known CMake version: the
/// header (minimum version, project, output directory `build_dir` with
/// forward slashes, C standard), the package section, then one block per
/// non-package unit (target, include directories, linked dependencies);
/// trailing white space is dropped.
pub fn render_cmake_lists(
    plan: &Vec<PreparedUnit>,
    base_dir: &str,
    build_dir: &str,
    manifest: &SaltToml,
    version: &SemVer,
) -> (r: String)
    ensures
        r@ == cmake_lists(plan@, base_dir@, build_dir@, *manifest, version@),
{
    let mut out = header_lines_text(
        version,
        manifest.package.name.as_str(),
        build_dir,
        manifest.build.edition,
    );
    let pkgs = package_section_text(plan);
    out.append(pkgs.as_str());
    out.append("\n");
    let ghost head = out@;
    let n = plan.len();
    let mut i: usize = 0;
    while i < n
        invariant
            n == plan@.len(),
            i <= n,
            out@ == head + unit_blocks(plan@, base_dir@, i as nat),
        decreases n - i,
    {
        match plan[i].kind {
            UnitKinds::Pkg => {},
            _ => {
                let block = unit_block_text(&plan[i], base_dir);
                out.append(block.as_str());
            },
        }
        assert(out@ =~= head + unit_blocks(plan@, base_dir@, (i + 1) as nat));
        i = i + 1;
    }
    String::from_str(trim_end_str(out.as_str()))
}

/// Generates the `CMakeLists.txt` of a plan: the manifest's build-system
/// version is normalised and must satisfy `>=3.15.0`; then the file is
/// rendered as `render_cmake_lists` does. A version written as three numbers
/// (after padding) succeeds exactly when it is 3.15.0 or later.
pub fn emit_build_file_output(
    build_plan: &Vec<PreparedUnit>,
    base_dir: &str,
    build_dir: &str,
    lock: &SaltLock,
) -> (r: Result<String, CmakeError>)
    ensures
        match cmake_generation(build_plan@, base_dir@, build_dir@, *lock) {
            Ok(text) => r matches Ok(s) && s@ == text,
            Err(e) => r == Err::<String, CmakeError>(e),
        },
        forall|major: u64, minor: u64, patch: u64|
            #[trigger] SemVer::text((major, minor, patch, seq![], seq![])) == padded_version(
                lock.manifest.build.build_sys_ver@,
            ) ==> (r is Ok <==> release_at_least(
                (major, minor, patch, seq![], seq![]),
                3,
                15,
                0,
            )),
{
    let version = match normalize_semver(lock.manifest.build.build_sys_ver.as_str()) {
        Ok(v) => v,
        Err(e) => {
            return Err(CmakeError::Version(e));
        },
    };
    match lock.manifest.build.build_sys {
        BuildSystems::CMake => match parse_requirement(">=3.15.0") {
            // `>=3.15.0` is a well-formed requirement, so this arm is never taken.
            None => Err(CmakeError::UnsupportedVersion),
            Some(req) => if !requirement_accepts(&req, &version) {
                Err(CmakeError::UnsupportedVersion)
            } else {
                Ok(
                    render_cmake_lists(
                        build_plan,
                        base_dir,
                        build_dir,
                        &lock.manifest,
                        version.parts(),
                    ),
                )
            },
        },
    }
}

} // verus!

verus! {

/// The arguments of the CMake configure step: the build directory, then the
/// C compiler when it was found (with `zig` run as `zig cc`, for a target if
/// one is given).
pub open spec fn configure_args(
    build_dir: Seq<char>,
    compiler: CompilerBackend,
    compiler_found: bool,
    zig_target: Option<Seq<char>>,
) -> Seq<Seq<char>> {
    seq!["-B"@, build_dir] + if compiler_found {
        seq!["-DCMAKE_C_COMPILER="@ + compiler.text()] + if compiler == CompilerBackend::Zig {
            match zig_target {
                Some(t) => seq!["-DCMAKE_C_COMPILER_ARG1=\"cc -target "@ + t + "\""@],
                None => seq!["-DCMAKE_C_COMPILER_ARG1=cc"@],
            }
        } else {
            seq![]
        }
    } else {
        seq![]
    }
}

/// The arguments of `cmake` for the configure step. `compiler_found` tells
/// whether the configured compiler is installed; when it is not, CMake picks
/// its own.
pub fn cmake_configure_args(
    build_dir: &str,
    compiler: CompilerBackend,
    compiler_found: bool,
    zig_target: &Option<String>,
) -> (r: Vec<String>)
    ensures
        r.deep_view() == configure_args(
            build_dir@,
            compiler,
            compiler_found,
            crate::toolchain::opt_text(*zig_target),
        ),
{
    let mut args: Vec<String> = Vec::new();
    crate::toolchain::push_arg(&mut args, "-B");
    crate::toolchain::push_arg(&mut args, build_dir);
    if compiler_found {
        let c = crate::toolchain::concat("-DCMAKE_C_COMPILER=", compiler.to_string());
        crate::toolchain::push_arg(&mut args, c.as_str());
        match compiler {
            CompilerBackend::Zig => match zig_target {
                Some(t) => {
                    let a = crate::toolchain::concat("-DCMAKE_C_COMPILER_ARG1=\"cc -target ", t.as_str());
                    let b = crate::toolchain::concat(a.as_str(), "\"");
                    crate::toolchain::push_arg(&mut args, b.as_str());
                },
                None => crate::toolchain::push_arg(&mut args, "-DCMAKE_C_COMPILER_ARG1=cc"),
            },
            _ => {},
        }
    }
    assert(args.deep_view() =~= configure_args(
        build_dir@,
        compiler,
        compiler_found,
        crate::toolchain::opt_text(*zig_target),
    ));
    args
}

/// The arguments of `cmake` for the build step.
pub fn cmake_build_args(build_dir: &str) -> (r: Vec<String>)
    ensures
        r.deep_view() == seq!["--build"@, build_dir@],
{
    let mut args: Vec<String> = Vec::new();
    crate::toolchain::push_arg(&mut args, "--build");
    crate::toolchain::push_arg(&mut args, build_dir);
    assert(args.deep_view() =~= seq!["--build"@, build_dir@]);
    args
}

} // verus!

verus! {

/// A generated `CMakeLists.txt` never ends in white space.
pub proof fn lemma_cmake_lists_end_clean(
    plan: Seq<PreparedUnit>,
    base: Seq<char>,
    build_dir: Seq<char>,
    manifest: SaltToml,
    version: (u64, u64, u64, Seq<char>, Seq<char>),
)
    ensures
        cmake_lists(plan, base, build_dir, manifest, version).len() > 0
            ==> !crate::text::white_space(cmake_lists(plan, base, build_dir, manifest, version).last()),
{
    crate::text::lemma_trim_end_ends_clean(
        header_lines(
            SemVer::text(version),
            manifest.package.name@,
            build_dir,
            manifest.build.edition,
        ) + package_section(plan) + "\n"@ + unit_blocks(plan, base, plan.len()),
    );
}

} // verus!

verus! {

/// A unit's target is declared by its kind: a static library for `lib`, a
/// shared library for `dyn`, an executable for `bin`, each over the unit's
/// sources; so a `lib` and a `dyn` unit of the same name and sources never get
/// the same target.
pub proof fn lemma_target_follows_unit_kind(name: Seq<char>, srcs: Seq<char>)
    ensures
        target_lines(UnitKinds::Lib, name, srcs) == "add_library("@ + name + " STATIC "@ + srcs
            + ")\n"@,
        target_lines(UnitKinds::Dyn, name, srcs) == "add_library("@ + name + " SHARED "@ + srcs
            + ")\n"@,
        target_lines(UnitKinds::Bin, name, srcs) == "add_executable("@ + name + " "@ + srcs
            + ")\n"@,
        target_lines(UnitKinds::Lib, name, srcs) != target_lines(UnitKinds::Dyn, name, srcs),
{
    let lib = target_lines(UnitKinds::Lib, name, srcs);
    let dy = target_lines(UnitKinds::Dyn, name, srcs);
    reveal_strlit("add_library(");
    reveal_strlit(" STATIC ");
    reveal_strlit(" SHARED ");
    let k: int = ("add_library("@.len() + name.len() + 1) as int;
    assert(lib[k] == 'S' && lib[k + 1] == 'T');
    assert(dy[k] == 'S' && dy[k + 1] == 'H');
}

} // verus!
