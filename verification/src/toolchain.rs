//! The command lines a direct compilation runs: one compiler call per source
//! file, an archiver call per static library, and a link per binary or
//! dynamic library. Each is built as a list of arguments.
use vstd::prelude::*;
use crate::config::{CEditions, CompilerBackend, UnitKinds};
use crate::paths::{joined_path, path_join, path_strip_prefix, path_with_extension, path_with_extension_of, stripped_path};
use crate::plan::PreparedUnit;

verus! {

/// The platform the build runs on, as far as file names and linker options
/// depend on it.
#[derive(Debug, Clone, Copy, PartialEq, Eq, Structural)]
pub enum TargetOs {
    Windows,
    MacOs,
    Other,
}

/// Why a command line cannot be built.
#[derive(Debug, Clone, Copy, PartialEq, Eq, Structural)]
pub enum ToolError {
    /// A source file does not lie inside the project directory.
    SourceOutsideProject,
    /// Dependency `dep` of the unit is a pre-compiled library without a path.
    MissingDependencyPath { dep: usize },
    /// The path of pre-compiled dependency `dep` could not be made canonical.
    UnresolvableDependencyPath { dep: usize },
}

/// `s` followed by `t`.
pub fn concat(s: &str, t: &str) -> (r: String)
    ensures
        r@ == s@ + t@,
{
    let mut r = String::from_str(s);
    r.append(t);
    r
}

/// Appends one argument.
pub fn push_arg(args: &mut Vec<String>, a: &str)
    ensures
        final(args).deep_view() == old(args).deep_view().push(a@),
{
    let ghost before = args.deep_view();
    args.push(String::from_str(a));
    assert(args.deep_view() =~= before.push(a@));
}

/// Appends a list of arguments.
pub fn push_args(args: &mut Vec<String>, more: &Vec<String>)
    ensures
        final(args).deep_view() == old(args).deep_view() + more.deep_view(),
{
    let ghost before = args.deep_view();
    let mut i: usize = 0;
    while i < more.len()
        invariant
            i <= more@.len(),
            args.deep_view() == before + more.deep_view().subrange(0, i as int),
        decreases more.len() - i,
    {
        assert(more.deep_view()[i as int] == more@[i as int]@);
        push_arg(args, more[i].as_str());
        assert(args.deep_view() =~= before + more.deep_view().subrange(0, i + 1));
        i = i + 1;
    }
    assert(more.deep_view().subrange(0, more@.len() as int) =~= more.deep_view());
}

impl CompilerBackend {
    /// Whether the backend takes MSVC-style (`cl`) options.
    pub open spec fn cl_like(self) -> bool {
        self == CompilerBackend::Msvc || self == CompilerBackend::ClangCl
    }

    /// The extension of object files.
    pub open spec fn object_ext(self) -> Seq<char> {
        if self.cl_like() {
            "obj"@
        } else {
            "o"@
        }
    }

    /// The file name of the static library of unit `unit`.
    pub open spec fn library_file(self, unit: Seq<char>) -> Seq<char> {
        if self.cl_like() {
            unit + ".lib"@
        } else {
            "lib"@ + unit + ".a"@
        }
    }

    /// The extension of object files: `obj` for MSVC-style backends, `o`
    /// otherwise.
    pub fn object_extension(&self) -> (r: &'static str)
        ensures
            r@ == self.object_ext(),
    {
        match self {
            CompilerBackend::Msvc | CompilerBackend::ClangCl => "obj",
            _ => "o",
        }
    }

    /// The file name of a unit's static library: `name.lib` for MSVC-style
    /// backends, `libname.a` otherwise.
    pub fn library_name(&self, unit: &str) -> (r: String)
        ensures
            r@ == self.library_file(unit@),
    {
        match self {
            CompilerBackend::Msvc | CompilerBackend::ClangCl => concat(unit, ".lib"),
            _ => {
                let r = concat("lib", unit);
                concat(r.as_str(), ".a")
            },
        }
    }
}

/// The extension of dynamic libraries on a platform.
pub open spec fn dyn_ext(os: TargetOs) -> Seq<char> {
    match os {
        TargetOs::Windows => "dll"@,
        TargetOs::MacOs => "dylib"@,
        TargetOs::Other => "so"@,
    }
}

/// The file name of the dynamic library of unit `unit` on a platform.
pub open spec fn dyn_file(unit: Seq<char>, os: TargetOs) -> Seq<char> {
    if os == TargetOs::Windows {
        unit + "."@ + dyn_ext(os)
    } else {
        "lib"@ + unit + "."@ + dyn_ext(os)
    }
}

/// The extension of dynamic libraries: `dll`, `dylib` or `so`.
pub fn dynamic_library_extension(os: TargetOs) -> (r: &'static str)
    ensures
        r@ == dyn_ext(os),
{
    match os {
        TargetOs::Windows => "dll",
        TargetOs::MacOs => "dylib",
        TargetOs::Other => "so",
    }
}

/// The file name of a unit's dynamic library: `name.dll` on Windows,
/// `libname.dylib` on macOS and `libname.so` elsewhere.
pub fn dynamic_library_name(unit: &str, os: TargetOs) -> (r: String)
    ensures
        r@ == dyn_file(unit@, os),
{
    let ext = dynamic_library_extension(os);
    let stem = match os {
        TargetOs::Windows => String::from_str(unit),
        _ => concat("lib", unit),
    };
    let with_dot = concat(stem.as_str(), ".");
    concat(with_dot.as_str(), ext)
}

/// The executable a binary unit produces in `out_dir`: `out_dir/name`, with
/// the `exe` extension on Windows.
pub open spec fn executable_file(out_dir: Seq<char>, unit: Seq<char>, os: TargetOs) -> Seq<char> {
    if os == TargetOs::Windows {
        path_with_extension_of(joined_path(out_dir, unit), "exe"@)
    } else {
        joined_path(out_dir, unit)
    }
}

/// The path of the executable a binary unit produces.
pub fn executable_path(out_dir: &str, unit: &str, os: TargetOs) -> (r: String)
    ensures
        r@ == executable_file(out_dir@, unit@, os),
{
    let p = path_join(out_dir, unit);
    proof {
        lemma_plain_extensions_have_no_separator();
    }
    match os {
        TargetOs::Windows => path_with_extension(p.as_str(), "exe"),
        _ => p,
    }
}

/// The arguments that make `zig` act as a C compiler for a target.
pub open spec fn zig_args(backend: CompilerBackend, target: Option<Seq<char>>) -> Seq<Seq<char>> {
    if backend == CompilerBackend::Zig {
        seq!["cc"@] + match target {
            Some(t) => seq!["-target"@, t],
            None => seq![],
        }
    } else {
        seq![]
    }
}

/// The optional text view.
pub open spec fn opt_text(o: Option<String>) -> Option<Seq<char>> {
    match o {
        Some(s) => Some(s@),
        None => None,
    }
}

/// Appends `cc` (and `-target <target>`) when the backend is `zig`.
pub fn attach_zig_target_arg(
    compiler_backend: CompilerBackend,
    args: &mut Vec<String>,
    zig_target: &Option<String>,
)
    ensures
        final(args).deep_view() == old(args).deep_view() + zig_args(
            compiler_backend,
            opt_text(*zig_target),
        ),
{
    let ghost before = args.deep_view();
    match compiler_backend {
        CompilerBackend::Zig => {
            push_arg(args, "cc");
            match zig_target {
                Some(t) => {
                    push_arg(args, "-target");
                    push_arg(args, t.as_str());
                },
                None => {},
            }
        },
        _ => {},
    }
    assert(args.deep_view() =~= before + zig_args(compiler_backend, opt_text(*zig_target)));
}

/// The options naming include directories.
pub open spec fn include_args(backend: CompilerBackend, dirs: Seq<Seq<char>>) -> Seq<Seq<char>>
    decreases dirs.len(),
{
    if dirs.len() == 0 {
        seq![]
    } else {
        include_args(backend, dirs.drop_last()) + if backend.cl_like() {
            seq!["/I"@ + dirs.last()]
        } else {
            seq!["-I"@, dirs.last()]
        }
    }
}

/// The language-standard and output-kind options of one compilation.
pub open spec fn standard_args(
    backend: CompilerBackend,
    edition: CEditions,
    kind: UnitKinds,
    unit_flags: Seq<Seq<char>>,
    out_exe: Seq<char>,
    out_dyn: Seq<char>,
) -> Seq<Seq<char>> {
    if backend.cl_like() {
        (match edition {
            CEditions::C11 => seq!["/std:c11"@],
            CEditions::C17 => seq!["/std:c17"@],
            CEditions::C23 => seq!["/std:clatest"@],
            _ => seq![],
        }) + match kind {
            UnitKinds::Bin => seq!["/Fe:"@ + out_exe],
            UnitKinds::Dyn => seq!["/LD"@, "/Fe:"@ + out_dyn],
            UnitKinds::Lib => seq!["/c"@],
            _ => seq![],
        }
    } else {
        seq!["-std="@ + edition.text()] + unit_flags + if kind == UnitKinds::Lib || kind
            == UnitKinds::Bin || kind == UnitKinds::Dyn {
            seq!["-c"@]
        } else {
            seq![]
        }
    }
}

/// The option naming the object file of one compilation.
pub open spec fn object_args(backend: CompilerBackend, object: Seq<char>) -> Seq<Seq<char>> {
    if backend.cl_like() {
        seq!["/Fo:"@ + object]
    } else {
        seq!["-o"@, object]
    }
}

/// The arguments of the compiler call for one source file of a unit.
pub open spec fn source_args(
    backend: CompilerBackend,
    edition: CEditions,
    unit: PreparedUnit,
    zig_target: Option<Seq<char>>,
    canonical_includes: Seq<Seq<char>>,
    relative_src: Seq<char>,
    object: Seq<char>,
    out_exe: Seq<char>,
    out_dyn: Seq<char>,
) -> Seq<Seq<char>> {
    zig_args(backend, zig_target) + include_args(backend, canonical_includes)
        + unit.unpack_compiler_flags.deep_view() + standard_args(
        backend,
        edition,
        unit.kind,
        unit.compiler_flags.deep_view(),
        out_exe,
        out_dyn,
    ) + seq![relative_src] + object_args(backend, object)
}

/// The arguments of the compiler call that turns one source file of `unit`
/// into an object file: the `zig` target options, the (canonical) include
/// directories, the flags found through `pkg-config`, the language standard
/// with the unit's own flags (GCC-style) or the output options (MSVC-style),
/// the source relative to the project, and the object file.
pub fn compile_source_args(
    backend: CompilerBackend,
    edition: CEditions,
    unit: &PreparedUnit,
    zig_target: &Option<String>,
    canonical_includes: &Vec<String>,
    relative_src: &str,
    object: &str,
    out_exe: &str,
    out_dyn: &str,
) -> (r: Vec<String>)
    ensures
        r.deep_view() == source_args(
            backend,
            edition,
            *unit,
            opt_text(*zig_target),
            canonical_includes.deep_view(),
            relative_src@,
            object@,
            out_exe@,
            out_dyn@,
        ),
{
    let mut args: Vec<String> = Vec::new();
    assert(args.deep_view() =~= Seq::<Seq<char>>::empty());
    attach_zig_target_arg(backend, &mut args, zig_target);
    let ghost after_zig = args.deep_view();
    let cl_like = match backend {
        CompilerBackend::Msvc | CompilerBackend::ClangCl => true,
        _ => false,
    };
    let mut i: usize = 0;
    while i < canonical_includes.len()
        invariant
            cl_like == backend.cl_like(),
            i <= canonical_includes@.len(),
            args.deep_view() == after_zig + include_args(
                backend,
                canonical_includes.deep_view().subrange(0, i as int),
            ),
        decreases canonical_includes.len() - i,
    {
        let ghost before = args.deep_view();
        let inc = canonical_includes[i].as_str();
        if cl_like {
            let a = concat("/I", inc);
            push_arg(&mut args, a.as_str());
        } else {
            push_arg(&mut args, "-I");
            push_arg(&mut args, inc);
        }
        let ghost dirs = canonical_includes.deep_view().subrange(0, i + 1);
        assert(dirs.drop_last() =~= canonical_includes.deep_view().subrange(0, i as int));
        assert(dirs.last() == inc@);
        assert(args.deep_view() =~= after_zig + include_args(backend, dirs));
        i = i + 1;
    }
    assert(canonical_includes.deep_view().subrange(0, canonical_includes@.len() as int)
        =~= canonical_includes.deep_view());
    push_args(&mut args, &unit.unpack_compiler_flags);
    let ghost before_std = args.deep_view();
    if cl_like {
        match edition {
            CEditions::C11 => push_arg(&mut args, "/std:c11"),
            CEditions::C17 => push_arg(&mut args, "/std:c17"),
            CEditions::C23 => push_arg(&mut args, "/std:clatest"),
            _ => {},
        }
        match unit.kind {
            UnitKinds::Bin => {
                let a = concat("/Fe:", out_exe);
                push_arg(&mut args, a.as_str());
            },
            UnitKinds::Dyn => {
                push_arg(&mut args, "/LD");
                let a = concat("/Fe:", out_dyn);
                push_arg(&mut args, a.as_str());
            },
            UnitKinds::Lib => push_arg(&mut args, "/c"),
            _ => {},
        }
    } else {
        let a = concat("-std=", edition.to_string());
        push_arg(&mut args, a.as_str());
        push_args(&mut args, &unit.compiler_flags);
        match unit.kind {
            UnitKinds::Lib | UnitKinds::Bin | UnitKinds::Dyn => push_arg(&mut args, "-c"),
            _ => {},
        }
    }
    assert(args.deep_view() =~= before_std + standard_args(
        backend,
        edition,
        unit.kind,
        unit.compiler_flags.deep_view(),
        out_exe@,
        out_dyn@,
    ));
    push_arg(&mut args, relative_src);
    let ghost before_obj = args.deep_view();
    if cl_like {
        let a = concat("/Fo:", object);
        push_arg(&mut args, a.as_str());
    } else {
        push_arg(&mut args, "-o");
        push_arg(&mut args, object);
    }
    assert(args.deep_view() =~= before_obj + object_args(backend, object@));
    assert(args.deep_view() =~= source_args(
        backend,
        edition,
        *unit,
        opt_text(*zig_target),
        canonical_includes.deep_view(),
        relative_src@,
        object@,
        out_exe@,
        out_dyn@,
    ));
    args
}

/// A source file relative to the project directory.
pub fn relative_source(src_file: &str, base_dir: &str) -> (r: Result<String, ToolError>)
    ensures
        match stripped_path(src_file@, base_dir@) {
            Some(rel) => r matches Ok(s) && s@ == rel,
            None => r == Err::<String, ToolError>(ToolError::SourceOutsideProject),
        },
{
    match path_strip_prefix(src_file, base_dir) {
        Some(rel) => Ok(rel),
        None => Err(ToolError::SourceOutsideProject),
    }
}

/// The object file of a source: its path relative to the project, placed in
/// the cache directory, with the backend's object extension.
pub open spec fn object_file(backend: CompilerBackend, cache_dir: Seq<char>, relative_src: Seq<char>) -> Seq<char> {
    path_with_extension_of(joined_path(cache_dir, relative_src), backend.object_ext())
}

/// The object file a source compiles to.
pub fn object_path(backend: CompilerBackend, cache_dir: &str, relative_src: &str) -> (r: String)
    ensures
        r@ == object_file(backend, cache_dir@, relative_src@),
{
    let p = path_join(cache_dir, relative_src);
    proof {
        lemma_plain_extensions_have_no_separator();
    }
    path_with_extension(p.as_str(), backend.object_extension())
}

/// The extensions given to file names hold no path separator.
proof fn lemma_plain_extensions_have_no_separator()
    ensures
        crate::paths::no_separator("exe"@),
        crate::paths::no_separator("o"@),
        crate::paths::no_separator("obj"@),
{
    reveal_strlit("exe");
    reveal_strlit("o");
    reveal_strlit("obj");
    assert("exe"@ =~= seq!['e', 'x', 'e']);
    assert("o"@ =~= seq!['o']);
    assert("obj"@ =~= seq!['o', 'b', 'j']);
}

/// The archiver a backend packs static libraries with, and its arguments
/// before the object files.
pub open spec fn archive_head(backend: CompilerBackend, lib_name: Seq<char>, out_lib: Seq<char>) -> (Seq<char>, Seq<Seq<char>>) {
    if backend.cl_like() {
        ("lib"@, seq!["/OUT:"@ + out_lib])
    } else {
        ("ar"@, seq!["rcs"@, lib_name])
    }
}

/// The archiver call that packs a static library: `lib /OUT:<out_lib>` for
/// MSVC-style backends, `ar rcs <lib_name>` otherwise, followed by the
/// objects. Returns the program and its arguments.
pub fn archive_command(
    backend: CompilerBackend,
    lib_name: &str,
    out_lib: &str,
    objects: &Vec<String>,
) -> (r: (String, Vec<String>))
    ensures
        r.0@ == archive_head(backend, lib_name@, out_lib@).0,
        r.1.deep_view() == archive_head(backend, lib_name@, out_lib@).1 + objects.deep_view(),
{
    let mut args: Vec<String> = Vec::new();
    assert(args.deep_view() =~= Seq::<Seq<char>>::empty());
    let program = match backend {
        CompilerBackend::Msvc | CompilerBackend::ClangCl => {
            let a = concat("/OUT:", out_lib);
            push_arg(&mut args, a.as_str());
            String::from_str("lib")
        },
        _ => {
            push_arg(&mut args, "rcs");
            push_arg(&mut args, lib_name);
            String::from_str("ar")
        },
    };
    assert(args.deep_view() =~= archive_head(backend, lib_name@, out_lib@).1);
    push_args(&mut args, objects);
    (program, args)
}

} // verus!

verus! {

/// The steps a direct compilation takes for a unit.
#[derive(Debug, Clone, Copy, PartialEq, Eq, Structural)]
pub struct BuildSteps {
    /// Compile each source to an object file.
    pub compile: bool,
    /// Pack the objects into a static library and copy it to the output.
    pub archive: bool,
    /// Link the objects into an executable or a dynamic library.
    pub link: bool,
    /// Copy the linked dynamic library to the output.
    pub copy_dynamic: bool,
}

impl UnitKinds {
    /// The steps a direct compilation takes for a unit of this kind:
    /// pre-compiled libraries and packages are skipped; every other unit is
    /// compiled; static libraries are archived; binaries and dynamic libraries
    /// are linked, and dynamic libraries copied to the output directory.
    pub open spec fn steps(self) -> BuildSteps {
        let skipped = self == UnitKinds::ExtLib || self == UnitKinds::ExtDyn || self
            == UnitKinds::Pkg;
        BuildSteps {
            compile: !skipped,
            archive: self == UnitKinds::Lib,
            link: self == UnitKinds::Dyn || self == UnitKinds::Bin,
            copy_dynamic: self == UnitKinds::Dyn,
        }
    }

    /// The steps a direct compilation takes for a unit of this kind.
    pub fn build_steps(&self) -> (r: BuildSteps)
        ensures
            r == self.steps(),
    {
        match self {
            UnitKinds::ExtLib | UnitKinds::ExtDyn | UnitKinds::Pkg => BuildSteps {
                compile: false,
                archive: false,
                link: false,
                copy_dynamic: false,
            },
            UnitKinds::Lib => BuildSteps { compile: true, archive: true, link: false, copy_dynamic: false },
            UnitKinds::Dyn => BuildSteps { compile: true, archive: false, link: true, copy_dynamic: true },
            UnitKinds::Bin => BuildSteps { compile: true, archive: false, link: true, copy_dynamic: false },
        }
    }
}

} // verus!

verus! {

/// With a GCC-style backend, every source of a `lib`, `bin` or `dyn` unit is
/// compiled on its own into its object file: the call ends with `-c`, the
/// source, `-o` and the object file, and names the language standard.
pub proof fn lemma_gcc_style_compiles_each_source_to_its_object(
    backend: CompilerBackend,
    edition: CEditions,
    unit: PreparedUnit,
    zig_target: Option<Seq<char>>,
    canonical_includes: Seq<Seq<char>>,
    relative_src: Seq<char>,
    object: Seq<char>,
    out_exe: Seq<char>,
    out_dyn: Seq<char>,
)
    requires
        !backend.cl_like(),
        unit.kind == UnitKinds::Lib || unit.kind == UnitKinds::Bin || unit.kind == UnitKinds::Dyn,
    ensures
        ({
            let a = source_args(
                backend,
                edition,
                unit,
                zig_target,
                canonical_includes,
                relative_src,
                object,
                out_exe,
                out_dyn,
            );
            &&& a.len() >= 4
            &&& a[a.len() - 4] == "-c"@
            &&& a[a.len() - 3] == relative_src
            &&& a[a.len() - 2] == "-o"@
            &&& a[a.len() - 1] == object
            &&& a.contains("-std="@ + edition.text())
        }),
{
    let head = zig_args(backend, zig_target) + include_args(backend, canonical_includes)
        + unit.unpack_compiler_flags.deep_view();
    let std = seq!["-std="@ + edition.text()] + unit.compiler_flags.deep_view() + seq!["-c"@];
    let a = source_args(
        backend,
        edition,
        unit,
        zig_target,
        canonical_includes,
        relative_src,
        object,
        out_exe,
        out_dyn,
    );
    assert(a =~= head + std + seq![relative_src] + seq!["-o"@, object]);
    assert(a[head.len() as int] == "-std="@ + edition.text());
}

} // verus!
