//! The `Salt.toml` manifest and the `Salt.lock` file: their data, the names of
//! their enumerations, and the validation of a manifest.
//!
//! Paths are held as UTF-8 text.
use vstd::prelude::*;
use std::collections::BTreeMap;
use crate::paths::{path_extension, path_extension_of, path_is_file};
use crate::text::{ascii_lower, ascii_text, lowercased, str_eq, to_lowercase, trim, trim_str};

verus! {

/// The kind of a compilation unit: `lib` (static library), `dyn` (dynamic
/// library), `bin` (executable), `extlib` / `extdyn` (pre-compiled static /
/// dynamic library) and `pkg` (a system package found through `pkg-config`).
#[derive(Debug, Clone, Copy, PartialEq, Eq, Structural)]
pub enum UnitKinds {
    Lib,
    Dyn,
    Bin,
    ExtLib,
    ExtDyn,
    Pkg,
}

/// A C language edition.
#[derive(Debug, Clone, Copy, PartialEq, Eq, Structural)]
pub enum CEditions {
    C89,
    C99,
    C11,
    C17,
    C23,
}

/// A build system that can drive the project.
#[derive(Debug, Clone, Copy, PartialEq, Eq, Structural)]
pub enum BuildSystems {
    CMake,
}

/// A C compiler driver.
#[derive(Debug, Clone, Copy, PartialEq, Eq, Structural)]
pub enum CompilerBackend {
    Clang,
    Gcc,
    Zig,
    Msvc,
    ClangCl,
}

impl UnitKinds {
    /// The name of the kind as written in `Salt.toml`.
    pub open spec fn text(self) -> Seq<char> {
        match self {
            UnitKinds::Lib => "lib"@,
            UnitKinds::Dyn => "dyn"@,
            UnitKinds::Bin => "bin"@,
            UnitKinds::ExtLib => "extlib"@,
            UnitKinds::ExtDyn => "extdyn"@,
            UnitKinds::Pkg => "pkg"@,
        }
    }

    /// Every kind but `bin` is a library-like unit that binaries may link.
    pub open spec fn is_library_like(self) -> bool {
        self != UnitKinds::Bin
    }

    /// The name of the kind as written in `Salt.toml`.
    pub fn to_string(&self) -> (r: &'static str)
        ensures
            r@ == self.text(),
    {
        match self {
            UnitKinds::Lib => "lib",
            UnitKinds::Dyn => "dyn",
            UnitKinds::Bin => "bin",
            UnitKinds::ExtLib => "extlib",
            UnitKinds::ExtDyn => "extdyn",
            UnitKinds::Pkg => "pkg",
        }
    }
}

impl CEditions {
    /// The name of the edition, as passed to `-std=`.
    pub open spec fn text(self) -> Seq<char> {
        match self {
            CEditions::C89 => "c89"@,
            CEditions::C99 => "c99"@,
            CEditions::C11 => "c11"@,
            CEditions::C17 => "c17"@,
            CEditions::C23 => "c23"@,
        }
    }

    /// The name of the edition, as passed to `-std=`.
    pub fn to_string(&self) -> (r: &'static str)
        ensures
            r@ == self.text(),
    {
        match self {
            CEditions::C89 => "c89",
            CEditions::C99 => "c99",
            CEditions::C11 => "c11",
            CEditions::C17 => "c17",
            CEditions::C23 => "c23",
        }
    }
}

/// The error of a failed name lookup.
#[derive(Debug, Clone, Copy, PartialEq, Eq, Structural)]
pub enum NameError {
    /// No build system has this name.
    UnknownBuildSystem,
    /// No compiler backend has this name.
    UnknownBackend,
}

impl BuildSystems {
    /// The name of the build system, which is also its command.
    pub open spec fn text(self) -> Seq<char> {
        match self {
            BuildSystems::CMake => "cmake"@,
        }
    }

    /// The name of the build system, which is also its command.
    pub fn to_string(&self) -> (r: &'static str)
        ensures
            r@ == self.text(),
    {
        match self {
            BuildSystems::CMake => "cmake",
        }
    }

    /// The build system named by an already lower-cased name.
    pub open spec fn named(l: Seq<char>) -> Result<BuildSystems, NameError> {
        if l == "cmake"@ {
            Ok(BuildSystems::CMake)
        } else {
            Err(NameError::UnknownBuildSystem)
        }
    }

    /// Looks up a build system by its lower-cased name.
    pub fn from_lowercase_name(l: &str) -> (r: Result<BuildSystems, NameError>)
        ensures
            r == BuildSystems::named(l@),
    {
        if str_eq(l, "cmake") {
            Ok(BuildSystems::CMake)
        } else {
            Err(NameError::UnknownBuildSystem)
        }
    }

    /// Looks up a build system by name, ignoring case.
    pub fn from_string(s: &str) -> (r: Result<BuildSystems, NameError>)
        ensures
            r == BuildSystems::named(lowercased(s@)),
            ascii_text(s@) ==> r == BuildSystems::named(ascii_lower(s@)),
    {
        let l = to_lowercase(s);
        BuildSystems::from_lowercase_name(l.as_str())
    }
}

impl CompilerBackend {
    /// The name of the backend, which is also the command that runs it.
    pub open spec fn text(self) -> Seq<char> {
        match self {
            CompilerBackend::Clang => "clang"@,
            CompilerBackend::Gcc => "gcc"@,
            CompilerBackend::Zig => "zig"@,
            CompilerBackend::Msvc => "cl"@,
            CompilerBackend::ClangCl => "clang-cl"@,
        }
    }

    /// The name of the backend, which is also the command that runs it.
    pub fn to_string(&self) -> (r: &'static str)
        ensures
            r@ == self.text(),
    {
        match self {
            CompilerBackend::Clang => "clang",
            CompilerBackend::Gcc => "gcc",
            CompilerBackend::Zig => "zig",
            CompilerBackend::Msvc => "cl",
            CompilerBackend::ClangCl => "clang-cl",
        }
    }

    /// The backend named by an already lower-cased name.
    pub open spec fn named(l: Seq<char>) -> Result<CompilerBackend, NameError> {
        if l == "clang"@ {
            Ok(CompilerBackend::Clang)
        } else if l == "gcc"@ {
            Ok(CompilerBackend::Gcc)
        } else if l == "zig"@ {
            Ok(CompilerBackend::Zig)
        } else if l == "cl"@ {
            Ok(CompilerBackend::Msvc)
        } else if l == "clang-cl"@ {
            Ok(CompilerBackend::ClangCl)
        } else {
            Err(NameError::UnknownBackend)
        }
    }

    /// Looks up a backend by its lower-cased name.
    pub fn from_lowercase_name(l: &str) -> (r: Result<CompilerBackend, NameError>)
        ensures
            r == CompilerBackend::named(l@),
    {
        if str_eq(l, "clang") {
            Ok(CompilerBackend::Clang)
        } else if str_eq(l, "gcc") {
            Ok(CompilerBackend::Gcc)
        } else if str_eq(l, "zig") {
            Ok(CompilerBackend::Zig)
        } else if str_eq(l, "cl") {
            Ok(CompilerBackend::Msvc)
        } else if str_eq(l, "clang-cl") {
            Ok(CompilerBackend::ClangCl)
        } else {
            Err(NameError::UnknownBackend)
        }
    }

    /// Looks up a backend by name, ignoring case.
    pub fn from_string(s: &str) -> (r: Result<CompilerBackend, NameError>)
        ensures
            r == CompilerBackend::named(lowercased(s@)),
            ascii_text(s@) ==> r == CompilerBackend::named(ascii_lower(s@)),
    {
        let l = to_lowercase(s);
        CompilerBackend::from_lowercase_name(l.as_str())
    }
}

} // verus!

verus! {

/// The `[package]` section.
pub struct PackageSection {
    pub name: String,
    pub version: String,
    pub authors: Vec<String>,
    pub description: String,
}

/// The `[build]` section.
pub struct BuildSection {
    pub build_sys: BuildSystems,
    pub build_sys_ver: String,
    pub build_dir: Option<String>,
    pub edition: CEditions,
    pub compiler: CompilerBackend,
}

/// One `[[unit]]` entry. `src` lists files and (non-recursive) directories.
pub struct UnitVector {
    pub name: String,
    pub kind: UnitKinds,
    pub main: String,
    pub src: Vec<String>,
    pub includes: Option<Vec<String>>,
    pub deps: Option<Vec<String>>,
    pub compiler_flags: Option<Vec<String>>,
    pub linker_flags: Option<Vec<String>>,
}

/// The whole `Salt.toml` manifest.
pub struct SaltToml {
    pub package: PackageSection,
    pub build: BuildSection,
    pub unit: Vec<UnitVector>,
}

/// The recorded state of one shadowed source file in `Salt.lock`.
pub struct FileState {
    pub shadow_hash: String,
    pub shadow_path: String,
    pub dependencies: Vec<String>,
}

/// The `Salt.lock` file: the manifest it was made for and the file states.
pub struct SaltLock {
    pub lock_version: String,
    pub manifest: SaltToml,
    pub files: BTreeMap<String, FileState>,
}

/// Why a manifest is refused. Units, dependencies and includes are given by
/// their position in the manifest.
#[derive(Debug, Clone, Copy, PartialEq, Eq, Structural)]
pub enum ConfigError {
    /// The package name is blank.
    EmptyPackageName,
    /// No unit is defined.
    NoUnits,
    /// The name of this unit is blank.
    EmptyUnitName { unit: usize },
    /// This unit repeats the name of an earlier library-like unit.
    DuplicateUnit { unit: usize },
    /// The main file of this unit is not a `.c` or `.csal` file.
    InvalidMain { unit: usize },
    /// This unit lists no source.
    NoSources { unit: usize },
    /// This library-like unit comes after a binary.
    LibraryAfterBinary { unit: usize },
    /// This dependency is not the name of a library-like unit declared before.
    UndeclaredDependency { unit: usize, dep: usize },
    /// This include path names a file, not a directory.
    IncludeIsFile { unit: usize, entry: usize },
    /// C89 was asked of MSVC.
    C89WithMsvc,
    /// The CMake version is not one of the milestone versions `3.15`, `3.28`.
    UnsupportedCMakeVersion,
}

/// The text views of a list of strings.
pub open spec fn texts(v: Seq<String>) -> Seq<Seq<char>> {
    v.map_values(|s: String| s@)
}

/// The include entries of a unit (none when the list is absent).
pub open spec fn include_list(u: UnitVector) -> Seq<Seq<char>> {
    match u.includes {
        Some(v) => texts(v@),
        None => seq![],
    }
}

/// The dependency entries of a unit (none when the list is absent).
pub open spec fn dep_list(u: UnitVector) -> Seq<Seq<char>> {
    match u.deps {
        Some(v) => texts(v@),
        None => seq![],
    }
}

/// Whether a main file's extension is `c` or `csal`.
pub open spec fn main_extension_ok(e: Option<Seq<char>>) -> bool {
    e == Some("c"@) || e == Some("csal"@)
}

/// The position of the first of the first `n` dependencies whose trimmed name
/// is not in `declared`.
pub open spec fn first_undeclared(deps: Seq<Seq<char>>, declared: Seq<Seq<char>>, n: nat) -> Option<
    nat,
>
    decreases n,
{
    if n == 0 {
        None
    } else {
        match first_undeclared(deps, declared, (n - 1) as nat) {
            Some(d) => Some(d),
            None => if !declared.contains(trim(deps[n - 1])) {
                Some((n - 1) as nat)
            } else {
                None
            },
        }
    }
}

/// The position of the first `true` among the first `n` flags.
pub open spec fn first_true(flags: Seq<bool>, n: nat) -> Option<nat>
    decreases n,
{
    if n == 0 {
        None
    } else {
        match first_true(flags, (n - 1) as nat) {
            Some(j) => Some(j),
            None => if flags[n - 1] {
                Some((n - 1) as nat)
            } else {
                None
            },
        }
    }
}

/// The checks of unit number `k`, given whether a binary was seen before it
/// and the trimmed names of the library-like units declared before it; on
/// success, the updated pair. `files[j]` tells whether include `j` is a file.
pub open spec fn check_unit(
    u: UnitVector,
    files: Seq<bool>,
    seen_bin: bool,
    declared: Seq<Seq<char>>,
    k: nat,
) -> Result<(bool, Seq<Seq<char>>), ConfigError> {
    let name = trim(u.name@);
    let declared2 = if u.kind.is_library_like() {
        declared.push(name)
    } else {
        declared
    };
    let deps = dep_list(u);
    if name.len() == 0 {
        Err(ConfigError::EmptyUnitName { unit: k as usize })
    } else if declared.contains(name) {
        Err(ConfigError::DuplicateUnit { unit: k as usize })
    } else if !main_extension_ok(path_extension_of(u.main@)) {
        Err(ConfigError::InvalidMain { unit: k as usize })
    } else if u.src@.len() == 0 {
        Err(ConfigError::NoSources { unit: k as usize })
    } else if u.kind.is_library_like() && seen_bin {
        Err(ConfigError::LibraryAfterBinary { unit: k as usize })
    } else if first_undeclared(deps, declared2, deps.len()) is Some {
        Err(
            ConfigError::UndeclaredDependency {
                unit: k as usize,
                dep: first_undeclared(deps, declared2, deps.len())->0 as usize,
            },
        )
    } else if first_true(files, files.len()) is Some {
        Err(
            ConfigError::IncludeIsFile {
                unit: k as usize,
                entry: first_true(files, files.len())->0 as usize,
            },
        )
    } else {
        Ok((seen_bin || u.kind == UnitKinds::Bin, declared2))
    }
}

/// The checks of the first `k` units, in order.
pub open spec fn scan_units(units: Seq<UnitVector>, files: Seq<Seq<bool>>, k: nat) -> Result<
    (bool, Seq<Seq<char>>),
    ConfigError,
>
    decreases k,
{
    if k == 0 {
        Ok((false, seq![]))
    } else {
        match scan_units(units, files, (k - 1) as nat) {
            Err(e) => Err(e),
            Ok(state) => check_unit(units[k - 1], files[k - 1], state.0, state.1, (k - 1) as nat),
        }
    }
}

/// Whether `files` has one flag per include entry of each unit.
pub open spec fn include_flags_fit(m: SaltToml, files: Seq<Seq<bool>>) -> bool {
    &&& files.len() == m.unit@.len()
    &&& forall|i: int|
        0 <= i < files.len() ==> (#[trigger] files[i]).len() == include_list(m.unit@[i]).len()
}

/// The verdict on a manifest, given for each include entry whether it names
/// a file.
pub open spec fn validation(m: SaltToml, files: Seq<Seq<bool>>) -> Result<(), ConfigError> {
    if trim(m.package.name@).len() == 0 {
        Err(ConfigError::EmptyPackageName)
    } else if m.unit@.len() == 0 {
        Err(ConfigError::NoUnits)
    } else {
        match scan_units(m.unit@, files, m.unit@.len()) {
            Err(e) => Err(e),
            Ok(_) => if m.build.edition == CEditions::C89 && m.build.compiler
                == CompilerBackend::Msvc {
                Err(ConfigError::C89WithMsvc)
            } else if m.build.build_sys == BuildSystems::CMake && m.build.build_sys_ver@
                != "3.15"@ && m.build.build_sys_ver@ != "3.28"@ {
                Err(ConfigError::UnsupportedCMakeVersion)
            } else {
                Ok(())
            },
        }
    }
}

} // verus!

verus! {

/// Whether some element of `v` equals `s`.
pub fn contains_text(v: &Vec<String>, s: &str) -> (r: bool)
    ensures
        r == v.deep_view().contains(s@),
{
    let mut j: usize = 0;
    while j < v.len()
        invariant
            j <= v.len(),
            forall|k: int| 0 <= k < j ==> v.deep_view()[k] != s@,
        decreases v.len() - j,
    {
        if str_eq(v[j].as_str(), s) {
            assert(v.deep_view()[j as int] == s@);
            return true;
        }
        j = j + 1;
    }
    false
}

proof fn lemma_scan_error_sticks(units: Seq<UnitVector>, files: Seq<Seq<bool>>, k: nat, n: nat)
    requires
        k <= n,
        scan_units(units, files, k) is Err,
    ensures
        scan_units(units, files, n) == scan_units(units, files, k),
    decreases n - k,
{
    if k < n {
        lemma_scan_error_sticks(units, files, k, (n - 1) as nat);
    }
}

impl SaltToml {
    /// The checks of one unit, as `check_unit` states them.
    #[verifier::loop_isolation(false)]
    fn check_one_unit(
        u: &UnitVector,
        files: &Vec<bool>,
        seen_bin: &mut bool,
        declared: &mut Vec<String>,
        k: usize,
    ) -> (r: Result<(), ConfigError>)
        requires
            files@.len() == include_list(*u).len(),
        ensures
            match check_unit(*u, files@, *old(seen_bin), old(declared).deep_view(), k as nat) {
                Ok(state) => r is Ok && *final(seen_bin) == state.0 && final(declared).deep_view()
                    == state.1,
                Err(e) => r == Err::<(), ConfigError>(e),
            },
    {
        let ghost declared0 = declared.deep_view();
        let ghost seen0 = *seen_bin;
        let name = trim_str(u.name.as_str());
        if name.unicode_len() == 0 {
            return Err(ConfigError::EmptyUnitName { unit: k });
        }
        if contains_text(declared, name) {
            return Err(ConfigError::DuplicateUnit { unit: k });
        }
        let main_ok = match path_extension(u.main.as_str()) {
            Some(e) => str_eq(e.as_str(), "c") || str_eq(e.as_str(), "csal"),
            None => false,
        };
        if !main_ok {
            return Err(ConfigError::InvalidMain { unit: k });
        }
        if u.src.len() == 0 {
            return Err(ConfigError::NoSources { unit: k });
        }
        let library_like = match u.kind {
            UnitKinds::Bin => false,
            _ => true,
        };
        if library_like && *seen_bin {
            return Err(ConfigError::LibraryAfterBinary { unit: k });
        }
        if library_like {
            declared.push(String::from_str(name));
        }
        assert(declared.deep_view() =~= (if u.kind.is_library_like() {
            declared0.push(trim(u.name@))
        } else {
            declared0
        }));
        let ghost declared2 = declared.deep_view();
        match &u.deps {
            Some(deps) => {
                let ghost dl = dep_list(*u);
                assert(dl =~= deps.deep_view());
                let mut j: usize = 0;
                while j < deps.len()
                    invariant
                        dl == deps.deep_view(),
                        j <= deps.len(),
                        declared.deep_view() == declared2,
                        first_undeclared(dl, declared2, j as nat) is None,
                    decreases deps.len() - j,
                {
                    let dep = trim_str(deps[j].as_str());
                    if !contains_text(declared, dep) {
                        assert(first_undeclared(dl, declared2, (j + 1) as nat) == Some(j as nat));
                        proof {
                            lemma_first_undeclared_sticks(dl, declared2, (j + 1) as nat, dl.len());
                        }
                        return Err(ConfigError::UndeclaredDependency { unit: k, dep: j });
                    }
                    j = j + 1;
                }
            },
            None => {
                assert(dep_list(*u).len() == 0);
            },
        }
        let mut j: usize = 0;
        while j < files.len()
            invariant
                j <= files@.len(),
                first_true(files@, j as nat) is None,
            decreases files.len() - j,
        {
            if files[j] {
                assert(first_true(files@, (j + 1) as nat) == Some(j as nat));
                proof {
                    lemma_first_true_sticks(files@, (j + 1) as nat, files@.len());
                }
                return Err(ConfigError::IncludeIsFile { unit: k, entry: j });
            }
            j = j + 1;
        }
        match u.kind {
            UnitKinds::Bin => {
                *seen_bin = true;
            },
            _ => {},
        }
        Ok(())
    }

    /// Validates the manifest, given for each include entry of each unit
    /// whether it names a file: the package name is not blank, there is a unit,
    /// and, unit by unit, the name is not blank and does not repeat an earlier
    /// library-like unit, the main file is `.c` or `.csal`, there is a source,
    /// library-like units come before binaries, dependencies name earlier
    /// library-like units (or the unit itself), and no include entry is a file;
    /// then C89 is not asked of MSVC and the CMake version is `3.15` or `3.28`.
    /// The first failed check is reported.
    #[verifier::loop_isolation(false)]
    pub fn validate_with(&self, include_is_file: &Vec<Vec<bool>>) -> (r: Result<(), ConfigError>)
        requires
            include_flags_fit(*self, include_is_file.deep_view()),
        ensures
            r == validation(*self, include_is_file.deep_view()),
    {
        let ghost files = include_is_file.deep_view();
        let pname = trim_str(self.package.name.as_str());
        if pname.unicode_len() == 0 {
            return Err(ConfigError::EmptyPackageName);
        }
        let n = self.unit.len();
        if n == 0 {
            return Err(ConfigError::NoUnits);
        }
        let mut seen_bin = false;
        let mut declared: Vec<String> = Vec::new();
        let mut k: usize = 0;
        assert(declared.deep_view() =~= Seq::<Seq<char>>::empty());
        while k < n
            invariant
                n == self.unit@.len(),
                k <= n,
                files == include_is_file.deep_view(),
                include_flags_fit(*self, files),
                scan_units(self.unit@, files, k as nat) == Ok::<(bool, Seq<Seq<char>>), ConfigError>(
                    (seen_bin, declared.deep_view()),
                ),
            decreases n - k,
        {
            assert(include_is_file[k as int]@ == files[k as int]);
            let res = SaltToml::check_one_unit(
                &self.unit[k],
                &include_is_file[k],
                &mut seen_bin,
                &mut declared,
                k,
            );
            if res.is_err() {
                proof {
                    lemma_scan_error_sticks(self.unit@, files, (k + 1) as nat, n as nat);
                }
                return res;
            }
            k = k + 1;
        }
        match (self.build.edition, self.build.compiler) {
            (CEditions::C89, CompilerBackend::Msvc) => {
                return Err(ConfigError::C89WithMsvc);
            },
            _ => {},
        }
        match self.build.build_sys {
            BuildSystems::CMake => {
                let ver = self.build.build_sys_ver.as_str();
                if !str_eq(ver, "3.15") && !str_eq(ver, "3.28") {
                    return Err(ConfigError::UnsupportedCMakeVersion);
                }
            },
        }
        Ok(())
    }

    /// The paths validation asks the file system about: for each unit, its
    /// include entries, as written.
    pub fn include_probes(&self) -> (r: Vec<Vec<String>>)
        ensures
            r.deep_view() == self.unit@.map_values(|u: UnitVector| include_list(u)),
    {
        let ghost want = self.unit@.map_values(|u: UnitVector| include_list(u));
        let mut all: Vec<Vec<String>> = Vec::new();
        let mut i: usize = 0;
        while i < self.unit.len()
            invariant
                i <= self.unit@.len(),
                want == self.unit@.map_values(|u: UnitVector| include_list(u)),
                all.deep_view() == want.subrange(0, i as int),
            decreases self.unit.len() - i,
        {
            let ghost before = all.deep_view();
            let list = match &self.unit[i].includes {
                Some(list) => crate::plan::copy_texts(list),
                None => Vec::new(),
            };
            proof {
                assert(list.deep_view() =~= include_list(self.unit@[i as int]));
            }
            all.push(list);
            assert(all.deep_view() =~= before.push(want[i as int]));
            assert(all.deep_view() =~= want.subrange(0, i + 1));
            i = i + 1;
        }
        assert(want.subrange(0, self.unit@.len() as int) =~= want);
        all
    }

    /// Validates the manifest, asking the file system whether each path of
    /// `include_probes` names a file. The verdict is the one `validate_with`
    /// gives for the answers the file system gave.
    pub fn validate(&self) -> (r: Result<(), ConfigError>)
        ensures
            exists|files: Seq<Seq<bool>>|
                include_flags_fit(*self, files) && r == #[trigger] validation(*self, files),
    {
        let probes = self.include_probes();
        assert(probes@.len() == probes.deep_view().len());
        let mut all: Vec<Vec<bool>> = Vec::new();
        let mut i: usize = 0;
        while i < probes.len()
            invariant
                probes.deep_view() == self.unit@.map_values(|u: UnitVector| include_list(u)),
                probes@.len() == self.unit@.len(),
                i <= probes@.len(),
                all@.len() == i,
                forall|t: int|
                    0 <= t < i ==> (#[trigger] all@[t])@.len() == include_list(self.unit@[t]).len(),
            decreases probes.len() - i,
        {
            let list = &probes[i];
            assert(list.deep_view() == probes.deep_view()[i as int]);
            assert(probes.deep_view()[i as int] == include_list(self.unit@[i as int]));
            assert(list@.len() == list.deep_view().len());
            let mut flags: Vec<bool> = Vec::new();
            let mut j: usize = 0;
            while j < list.len()
                invariant
                    j <= list@.len(),
                    flags@.len() == j,
                decreases list.len() - j,
            {
                flags.push(path_is_file(list[j].as_str()));
                j = j + 1;
            }
            all.push(flags);
            i = i + 1;
        }
        assert(include_flags_fit(*self, all.deep_view()));
        self.validate_with(&all)
    }
}

proof fn lemma_first_undeclared_sticks(
    deps: Seq<Seq<char>>,
    declared: Seq<Seq<char>>,
    j: nat,
    n: nat,
)
    requires
        j <= n,
        first_undeclared(deps, declared, j) is Some,
    ensures
        first_undeclared(deps, declared, n) == first_undeclared(deps, declared, j),
    decreases n - j,
{
    if j < n {
        lemma_first_undeclared_sticks(deps, declared, j, (n - 1) as nat);
    }
}

proof fn lemma_first_true_sticks(flags: Seq<bool>, j: nat, n: nat)
    requires
        j <= n,
        first_true(flags, j) is Some,
    ensures
        first_true(flags, n) == first_true(flags, j),
    decreases n - j,
{
    if j < n {
        lemma_first_true_sticks(flags, j, (n - 1) as nat);
    }
}

} // verus!

verus! {

/// The trimmed names of the library-like units among the first `k` units.
pub open spec fn library_names(us: Seq<UnitVector>, k: nat) -> Seq<Seq<char>>
    decreases k,
{
    if k == 0 {
        seq![]
    } else {
        let p = library_names(us, (k - 1) as nat);
        if us[k - 1].kind.is_library_like() {
            p.push(trim(us[k - 1].name@))
        } else {
            p
        }
    }
}

/// Dependency `d` of unit `i` is the trimmed name of a library-like unit
/// that comes no later than unit `i`.
pub open spec fn dependency_declared(us: Seq<UnitVector>, i: int, d: int) -> bool {
    exists|j: int|
        0 <= j <= i && (#[trigger] us[j]).kind.is_library_like() && trim(us[j].name@) == trim(
            dep_list(us[i])[d],
        )
}

/// What validation guarantees of unit `i` on its own.
pub open spec fn unit_well_formed(us: Seq<UnitVector>, files: Seq<Seq<bool>>, i: int) -> bool {
    &&& trim(us[i].name@).len() > 0
    &&& main_extension_ok(path_extension_of(us[i].main@))
    &&& us[i].src@.len() > 0
    &&& forall|d: int| 0 <= d < dep_list(us[i]).len() ==> dependency_declared(us, i, d)
    &&& forall|e: int| 0 <= e < files[i].len() ==> !files[i][e]
}

/// What validation guarantees of the first `k` units.
pub open spec fn units_well_formed(us: Seq<UnitVector>, files: Seq<Seq<bool>>, k: nat) -> bool {
    &&& forall|i: int| 0 <= i < k ==> #[trigger] unit_well_formed(us, files, i)
    &&& forall|i: int, j: int|
        0 <= i < j < k && (#[trigger] us[i]).kind == UnitKinds::Bin
            ==> !(#[trigger] us[j]).kind.is_library_like()
    &&& forall|i: int, j: int|
        0 <= i < j < k && (#[trigger] us[i]).kind.is_library_like()
            && (#[trigger] us[j]).kind.is_library_like() ==> trim(us[i].name@) != trim(us[j].name@)
}

/// Everything a valid manifest satisfies: a named package with at least one
/// unit; every unit named, with a `.c`/`.csal` main file and a source, and no
/// include entry that is a file; library-like units before binaries, under
/// distinct names; every dependency naming a library-like unit declared no
/// later than its user; no C89 with MSVC; a milestone CMake version.
pub open spec fn well_formed_manifest(m: SaltToml, files: Seq<Seq<bool>>) -> bool {
    &&& trim(m.package.name@).len() > 0
    &&& m.unit@.len() > 0
    &&& units_well_formed(m.unit@, files, m.unit@.len())
    &&& !(m.build.edition == CEditions::C89 && m.build.compiler == CompilerBackend::Msvc)
    &&& (m.build.build_sys == BuildSystems::CMake ==> (m.build.build_sys_ver@ == "3.15"@
        || m.build.build_sys_ver@ == "3.28"@))
}

proof fn lemma_library_names(us: Seq<UnitVector>, k: nat)
    requires
        k <= us.len(),
    ensures
        forall|x: Seq<char>|
            library_names(us, k).contains(x) <==> exists|j: int|
                0 <= j < k && (#[trigger] us[j]).kind.is_library_like() && trim(us[j].name@) == x,
    decreases k,
{
    if k > 0 {
        lemma_library_names(us, (k - 1) as nat);
        let p = library_names(us, (k - 1) as nat);
        assert forall|x: Seq<char>|
            library_names(us, k).contains(x) <==> exists|j: int|
                0 <= j < k && (#[trigger] us[j]).kind.is_library_like() && trim(us[j].name@)
                    == x by {
            if library_names(us, k).contains(x) {
                if us[k - 1].kind.is_library_like() && x == trim(us[k - 1].name@) {
                    assert(us[k - 1].kind.is_library_like());
                } else {
                    if us[k - 1].kind.is_library_like() {
                        let t = choose|t: int|
                            0 <= t < library_names(us, k).len() && library_names(us, k)[t] == x;
                        assert(p.push(trim(us[k - 1].name@))[t] == x);
                        assert(t < p.len());
                        assert(p.contains(x));
                    }
                }
            }
            if exists|j: int|
                0 <= j < k && (#[trigger] us[j]).kind.is_library_like() && trim(us[j].name@) == x {
                let j = choose|j: int|
                    0 <= j < k && (#[trigger] us[j]).kind.is_library_like() && trim(us[j].name@)
                        == x;
                if j == k - 1 {
                    assert(library_names(us, k)[library_names(us, k).len() - 1] == x);
                } else {
                    assert(p.contains(x));
                    let t = choose|t: int| 0 <= t < p.len() && p[t] == x;
                    if us[k - 1].kind.is_library_like() {
                        assert(library_names(us, k)[t] == x);
                    }
                }
            }
        }
    }
}

proof fn lemma_first_undeclared_none(deps: Seq<Seq<char>>, declared: Seq<Seq<char>>, n: nat)
    requires
        n <= deps.len(),
        first_undeclared(deps, declared, n) is None,
    ensures
        forall|d: int| 0 <= d < n ==> declared.contains(trim(#[trigger] deps[d])),
    decreases n,
{
    if n > 0 {
        lemma_first_undeclared_none(deps, declared, (n - 1) as nat);
    }
}

proof fn lemma_first_true_none(flags: Seq<bool>, n: nat)
    requires
        n <= flags.len(),
        first_true(flags, n) is None,
    ensures
        forall|e: int| 0 <= e < n ==> !#[trigger] flags[e],
    decreases n,
{
    if n > 0 {
        lemma_first_true_none(flags, (n - 1) as nat);
    }
}

proof fn lemma_scan_ok(us: Seq<UnitVector>, files: Seq<Seq<bool>>, k: nat)
    requires
        k <= us.len(),
        k <= files.len(),
        scan_units(us, files, k) is Ok,
    ensures
        (scan_units(us, files, k)->Ok_0).1 == library_names(us, k),
        (scan_units(us, files, k)->Ok_0).0 <==> exists|i: int|
            0 <= i < k && (#[trigger] us[i]).kind == UnitKinds::Bin,
        units_well_formed(us, files, k),
    decreases k,
{
    if k > 0 {
        let k1 = (k - 1) as nat;
        lemma_scan_ok(us, files, k1);
        lemma_library_names(us, k1);
        let state = scan_units(us, files, k1)->Ok_0;
        let u = us[k1 as int];
        let name = trim(u.name@);
        let declared2 = if u.kind.is_library_like() {
            state.1.push(name)
        } else {
            state.1
        };
        let deps = dep_list(u);
        assert(check_unit(u, files[k1 as int], state.0, state.1, k1) is Ok);
        lemma_first_undeclared_none(deps, declared2, deps.len());
        lemma_first_true_none(files[k1 as int], files[k1 as int].len());
        lemma_library_names(us, k);
        assert(declared2 == library_names(us, k));
        assert forall|d: int| 0 <= d < deps.len() implies dependency_declared(us, k1 as int, d) by {
            assert(declared2.contains(trim(deps[d])));
            let j = choose|j: int|
                0 <= j < k && (#[trigger] us[j]).kind.is_library_like() && trim(us[j].name@)
                    == trim(deps[d]);
            assert(0 <= j <= k1);
        }
        assert(unit_well_formed(us, files, k1 as int));
        assert forall|i: int, j: int|
            0 <= i < j < k && (#[trigger] us[i]).kind == UnitKinds::Bin implies !(
            #[trigger] us[j]).kind.is_library_like() by {
            if j == k1 {
                assert(state.0);
            }
        }
        assert forall|i: int, j: int|
            0 <= i < j < k && (#[trigger] us[i]).kind.is_library_like() && (
            #[trigger] us[j]).kind.is_library_like() implies trim(us[i].name@) != trim(
            us[j].name@,
        ) by {
            if j == k1 {
                if trim(us[i].name@) == trim(us[j].name@) {
                    assert(state.1.contains(name));
                }
            }
        }
        assert forall|i: int| 0 <= i < k implies #[trigger] unit_well_formed(us, files, i) by {
            if i < k1 {
                assert(unit_well_formed(us, files, i));
                assert forall|d: int| 0 <= d < dep_list(us[i]).len() implies dependency_declared(
                    us,
                    i,
                    d,
                ) by {
                    assert(dependency_declared(us, i, d));
                }
            }
        }
    }
}

/// A manifest that passes validation is well formed: every guarantee listed
/// in `well_formed_manifest` holds of it.
pub proof fn lemma_valid_manifest_is_well_formed(m: SaltToml, files: Seq<Seq<bool>>)
    requires
        include_flags_fit(m, files),
        validation(m, files) is Ok,
    ensures
        well_formed_manifest(m, files),
{
    lemma_scan_ok(m.unit@, files, m.unit@.len());
}

} // verus!

verus! {

impl BuildSystems {
    /// The build system to use: the one asked for on the command line, if
    /// any (looked up ignoring case), otherwise the configured one.
    pub fn resolve_choice(requested: Option<&str>, configured: BuildSystems) -> (r: Result<
        BuildSystems,
        NameError,
    >)
        ensures
            r == match requested {
                Some(s) => BuildSystems::named(lowercased(s@)),
                None => Ok(configured),
            },
    {
        match requested {
            Some(s) => BuildSystems::from_string(s),
            None => Ok(configured),
        }
    }
}

impl CompilerBackend {
    /// The backend to use: the one asked for on the command line, if any
    /// (looked up ignoring case), otherwise the configured one.
    pub fn resolve_choice(requested: Option<&str>, configured: CompilerBackend) -> (r: Result<
        CompilerBackend,
        NameError,
    >)
        ensures
            r == match requested {
                Some(s) => CompilerBackend::named(lowercased(s@)),
                None => Ok(configured),
            },
    {
        match requested {
            Some(s) => CompilerBackend::from_string(s),
            None => Ok(configured),
        }
    }
}

} // verus!

verus! {

/// The name of every backend is ASCII text that, read back ignoring case,
/// gives the same backend: `from_string(b.to_string())` is `Ok(b)`.
pub proof fn lemma_backend_name_round_trip(b: CompilerBackend)
    ensures
        ascii_text(b.text()),
        CompilerBackend::named(ascii_lower(b.text())) == Ok::<CompilerBackend, NameError>(b),
{
    reveal_strlit("clang");
    reveal_strlit("gcc");
    reveal_strlit("zig");
    reveal_strlit("cl");
    reveal_strlit("clang-cl");
    assert(ascii_lower(b.text()) =~= b.text());
    assert("clang"@.len() == 5 && "gcc"@.len() == 3 && "zig"@.len() == 3 && "cl"@.len() == 2
        && "clang-cl"@.len() == 8);
    assert("gcc"@[0] != "zig"@[0]);
}

/// The name of the build system is ASCII text that, read back ignoring case,
/// gives the same build system.
pub proof fn lemma_build_system_name_round_trip(b: BuildSystems)
    ensures
        ascii_text(b.text()),
        BuildSystems::named(ascii_lower(b.text())) == Ok::<BuildSystems, NameError>(b),
{
    reveal_strlit("cmake");
    assert(ascii_lower(b.text()) =~= b.text());
}

/// Distinct editions have distinct names.
pub proof fn lemma_edition_names_distinct(a: CEditions, b: CEditions)
    requires
        a != b,
    ensures
        a.text() != b.text(),
{
    reveal_strlit("c89");
    reveal_strlit("c99");
    reveal_strlit("c11");
    reveal_strlit("c17");
    reveal_strlit("c23");
    assert(a.text()[1] != b.text()[1] || a.text()[2] != b.text()[2]);
}

} // verus!

verus! {

proof fn lemma_scan_units_of_prefix(
    us: Seq<UnitVector>,
    files: Seq<Seq<bool>>,
    us2: Seq<UnitVector>,
    files2: Seq<Seq<bool>>,
    j: nat,
)
    requires
        j <= us2.len(),
        j <= files2.len(),
        us2.len() <= us.len(),
        files2.len() <= files.len(),
        forall|i: int| 0 <= i < us2.len() ==> us2[i] == us[i],
        forall|i: int| 0 <= i < files2.len() ==> files2[i] == files[i],
    ensures
        scan_units(us2, files2, j) == scan_units(us, files, j),
    decreases j,
{
    if j > 0 {
        lemma_scan_units_of_prefix(us, files, us2, files2, (j - 1) as nat);
    }
}

/// Leaving off the last units of a valid manifest keeps it valid: the units
/// are checked in order, each against the ones before it.
pub proof fn lemma_prefix_of_valid_manifest_is_valid(
    m: SaltToml,
    files: Seq<Seq<bool>>,
    m2: SaltToml,
    k: nat,
)
    requires
        include_flags_fit(m, files),
        validation(m, files) is Ok,
        1 <= k <= m.unit@.len(),
        m2.package == m.package,
        m2.build == m.build,
        m2.unit@ == m.unit@.take(k as int),
    ensures
        include_flags_fit(m2, files.take(k as int)),
        validation(m2, files.take(k as int)) is Ok,
{
    let n = m.unit@.len();
    lemma_scan_units_of_prefix(m.unit@, files, m2.unit@, files.take(k as int), k);
    if scan_units(m.unit@, files, k) is Err {
        lemma_scan_error_sticks(m.unit@, files, k, n);
    }
    assert forall|i: int| 0 <= i < files.take(k as int).len() implies (#[trigger] files.take(
        k as int,
    )[i]).len() == include_list(m2.unit@[i]).len() by {
        assert(files.take(k as int)[i] == files[i]);
        assert(m2.unit@[i] == m.unit@[i]);
    }
}

/// Two units on which validation reads the same: the same trimmed name, kind,
/// main file, number of sources and includes, and dependencies with the same
/// trimmed names.
pub open spec fn same_unit_checks(a: UnitVector, b: UnitVector) -> bool {
    &&& trim(a.name@) == trim(b.name@)
    &&& a.kind == b.kind
    &&& a.main@ == b.main@
    &&& a.src@.len() == b.src@.len()
    &&& include_list(a).len() == include_list(b).len()
    &&& dep_list(a).len() == dep_list(b).len()
    &&& forall|d: int|
        0 <= d < dep_list(a).len() ==> trim(#[trigger] dep_list(a)[d]) == trim(dep_list(b)[d])
}

/// Two manifests on which validation reads the same: they may differ in the
/// package version, authors and description, the build directory, the units'
/// flags, the source and include entries themselves, and white space around
/// names.
pub open spec fn same_validation_input(a: SaltToml, b: SaltToml) -> bool {
    &&& trim(a.package.name@) == trim(b.package.name@)
    &&& a.build.build_sys == b.build.build_sys
    &&& a.build.build_sys_ver@ == b.build.build_sys_ver@
    &&& a.build.edition == b.build.edition
    &&& a.build.compiler == b.build.compiler
    &&& a.unit@.len() == b.unit@.len()
    &&& forall|i: int| 0 <= i < a.unit@.len() ==> same_unit_checks(#[trigger] a.unit@[i], b.unit@[i])
}

proof fn lemma_first_undeclared_same(
    a: Seq<Seq<char>>,
    b: Seq<Seq<char>>,
    declared: Seq<Seq<char>>,
    n: nat,
)
    requires
        n <= a.len(),
        n <= b.len(),
        forall|d: int| 0 <= d < n ==> trim(#[trigger] a[d]) == trim(b[d]),
    ensures
        first_undeclared(a, declared, n) == first_undeclared(b, declared, n),
    decreases n,
{
    if n > 0 {
        lemma_first_undeclared_same(a, b, declared, (n - 1) as nat);
        assert(trim(a[n - 1]) == trim(b[n - 1]));
    }
}

proof fn lemma_scan_units_same(
    a: Seq<UnitVector>,
    b: Seq<UnitVector>,
    files: Seq<Seq<bool>>,
    j: nat,
)
    requires
        j <= a.len(),
        a.len() == b.len(),
        forall|i: int| 0 <= i < a.len() ==> same_unit_checks(#[trigger] a[i], b[i]),
    ensures
        scan_units(a, files, j) == scan_units(b, files, j),
    decreases j,
{
    if j > 0 {
        lemma_scan_units_same(a, b, files, (j - 1) as nat);
        let u = a[j - 1];
        let v = b[j - 1];
        assert(same_unit_checks(u, v));
        match scan_units(a, files, (j - 1) as nat) {
            Err(_) => {},
            Ok(state) => {
                let declared2 = if u.kind.is_library_like() {
                    state.1.push(trim(u.name@))
                } else {
                    state.1
                };
                lemma_first_undeclared_same(dep_list(u), dep_list(v), declared2, dep_list(u).len());
            },
        }
    }
}

/// Validation reads only the trimmed package name, the build settings, and of
/// each unit its trimmed name, kind, main file, numbers of sources and
/// includes, and the trimmed names of its dependencies: manifests that agree
/// on those get the same verdict.
pub proof fn lemma_validation_reads_only_what_it_checks(
    a: SaltToml,
    b: SaltToml,
    files: Seq<Seq<bool>>,
)
    requires
        same_validation_input(a, b),
    ensures
        validation(a, files) == validation(b, files),
{
    lemma_scan_units_same(a.unit@, b.unit@, files, a.unit@.len());
}

} // verus!
