//! The build plan: each unit of the manifest with its gathered sources and
//! include directories, its resolved dependencies and its flags.
use vstd::prelude::*;
use crate::config::{dep_list, UnitKinds, UnitVector};
use crate::paths::{resolve_path, resolved_path};
use crate::text::str_eq;

verus! {

/// One resolved dependency: its name, its kind, and for a pre-compiled library
/// the path of its binary.
pub type ResolvedDep = (String, UnitKinds, Option<String>);

/// One unit ready to be built.
pub struct PreparedUnit {
    pub name: String,
    pub kind: UnitKinds,
    pub src: Vec<String>,
    pub includes: Option<Vec<String>>,
    pub resolved_deps: Vec<ResolvedDep>,
    pub compiler_flags: Vec<String>,
    pub linker_flags: Vec<String>,
    pub unpack_compiler_flags: Vec<String>,
    pub unpack_linker_flags: Vec<String>,
}

/// How a CMake build treats the project: `Managed` defers to the user's own
/// `CMakeLists.txt`, `Fresh` generates one.
#[derive(Debug, Clone, Copy, PartialEq, Eq, Structural)]
pub enum BuildMode {
    Managed,
    Fresh,
}

/// Why a plan cannot be made.
#[derive(Debug, Clone, Copy, PartialEq, Eq, Structural)]
pub enum PlanError {
    /// The build mode is neither `managed` nor `fresh`.
    InvalidBuildMode,
    /// Dependency `dep` of unit `unit` is a pre-compiled library whose unit
    /// lists no source, so there is no binary to link.
    MissingPrebuiltBinary { unit: usize, dep: usize },
}

/// The view of a resolved dependency.
pub open spec fn dep_view(d: ResolvedDep) -> (Seq<char>, UnitKinds, Option<Seq<char>>) {
    (
        d.0@,
        d.1,
        match d.2 {
            Some(p) => Some(p@),
            None => None,
        },
    )
}

/// The views of a list of resolved dependencies.
pub open spec fn deps_view(v: Seq<ResolvedDep>) -> Seq<(Seq<char>, UnitKinds, Option<Seq<char>>)> {
    v.map_values(|d: ResolvedDep| dep_view(d))
}

impl BuildMode {
    /// The build mode a name selects.
    pub open spec fn named(s: Seq<char>) -> Result<BuildMode, PlanError> {
        if s == "managed"@ {
            Ok(BuildMode::Managed)
        } else if s == "fresh"@ {
            Ok(BuildMode::Fresh)
        } else {
            Err(PlanError::InvalidBuildMode)
        }
    }

    /// Reads a build mode: `managed` or `fresh`.
    pub fn try_from_str(s: &str) -> (r: Result<BuildMode, PlanError>)
        ensures
            r == BuildMode::named(s@),
    {
        if str_eq(s, "managed") {
            Ok(BuildMode::Managed)
        } else if str_eq(s, "fresh") {
            Ok(BuildMode::Fresh)
        } else {
            Err(PlanError::InvalidBuildMode)
        }
    }

    /// The mode a CMake build runs in: the one asked for, if any; otherwise
    /// `Managed` when the project has its own `CMakeLists.txt`, else `Fresh`.
    pub fn select(requested: Option<&str>, user_cmake_exists: bool) -> (r: Result<BuildMode, PlanError>)
        ensures
            r == match requested {
                Some(s) => BuildMode::named(s@),
                None => if user_cmake_exists {
                    Ok(BuildMode::Managed)
                } else {
                    Ok(BuildMode::Fresh)
                },
            },
    {
        match requested {
            Some(s) => BuildMode::try_from_str(s),
            None => if user_cmake_exists {
                Ok(BuildMode::Managed)
            } else {
                Ok(BuildMode::Fresh)
            },
        }
    }
}

/// The kind recorded for `name`: that of the last unit with exactly this
/// name among the first `n` units.
pub open spec fn known_kind(us: Seq<UnitVector>, name: Seq<char>, n: nat) -> Option<UnitKinds>
    decreases n,
{
    if n == 0 {
        None
    } else if us[n - 1].name@ == name {
        Some(us[n - 1].kind)
    } else {
        known_kind(us, name, (n - 1) as nat)
    }
}

/// The position of the first unit with exactly this name, at or after `from`.
pub open spec fn first_named(us: Seq<UnitVector>, name: Seq<char>, from: nat) -> Option<nat>
    decreases us.len() - from,
{
    if from >= us.len() {
        None
    } else if us[from as int].name@ == name {
        Some(from)
    } else {
        first_named(us, name, from + 1)
    }
}

/// Whether a kind is a pre-compiled library.
pub open spec fn is_prebuilt(k: UnitKinds) -> bool {
    k == UnitKinds::ExtLib || k == UnitKinds::ExtDyn
}

/// The resolution of the first `n` dependencies of unit `u_index` against
/// the units defined before it: the resolved ones in order, and the error that
/// stopped the resolution, if any. Dependencies that name no earlier unit are
/// skipped; a pre-compiled library links the first source of the first unit
/// of that name, resolved against `base`.
pub open spec fn dependency_resolution(
    us: Seq<UnitVector>,
    u_index: int,
    base: Seq<char>,
    n: nat,
) -> (Seq<(Seq<char>, UnitKinds, Option<Seq<char>>)>, Option<PlanError>)
    decreases n,
{
    if n == 0 {
        (seq![], None)
    } else {
        let prev = dependency_resolution(us, u_index, base, (n - 1) as nat);
        let d = dep_list(us[u_index])[n - 1];
        if prev.1 is Some {
            prev
        } else {
            match known_kind(us, d, u_index as nat) {
                None => prev,
                Some(k) => if is_prebuilt(k) {
                    let first = first_named(us, d, 0)->0 as int;
                    if us[first].src@.len() == 0 {
                        (
                            prev.0,
                            Some(
                                PlanError::MissingPrebuiltBinary {
                                    unit: u_index as usize,
                                    dep: (n - 1) as usize,
                                },
                            ),
                        )
                    } else {
                        (prev.0.push((d, k, Some(resolved_path(base, us[first].src@[0]@)))), None)
                    }
                } else {
                    (prev.0.push((d, k, None)), None)
                },
            }
        }
    }
}

proof fn lemma_known_kind_has_unit(us: Seq<UnitVector>, name: Seq<char>, n: nat)
    requires
        n <= us.len(),
        known_kind(us, name, n) is Some,
    ensures
        exists|i: int| 0 <= i < n && #[trigger] us[i].name@ == name,
    decreases n,
{
    if us[n - 1].name@ != name {
        lemma_known_kind_has_unit(us, name, (n - 1) as nat);
    }
}

proof fn lemma_first_named_found(us: Seq<UnitVector>, name: Seq<char>, from: nat, i: int)
    requires
        from <= i < us.len(),
        us[i].name@ == name,
    ensures
        first_named(us, name, from) is Some,
        first_named(us, name, from)->0 <= i,
        us[first_named(us, name, from)->0 as int].name@ == name,
    decreases us.len() - from,
{
    if us[from as int].name@ != name {
        lemma_first_named_found(us, name, from + 1, i);
    }
}

/// The kind of the last of the first `n` units named `name`, if any.
fn lookup_kind(units: &Vec<UnitVector>, name: &str, n: usize) -> (r: Option<UnitKinds>)
    requires
        n <= units@.len(),
    ensures
        r == known_kind(units@, name@, n as nat),
{
    let mut i = n;
    while i > 0
        invariant
            i <= n <= units@.len(),
            known_kind(units@, name@, n as nat) == known_kind(units@, name@, i as nat),
        decreases i,
    {
        if str_eq(units[i - 1].name.as_str(), name) {
            return Some(units[i - 1].kind);
        }
        i = i - 1;
    }
    None
}

/// The position of the first unit named `name`.
fn find_first_named(units: &Vec<UnitVector>, name: &str) -> (r: Option<usize>)
    ensures
        match r {
            Some(i) => first_named(units@, name@, 0) == Some(i as nat),
            None => first_named(units@, name@, 0) is None,
        },
{
    let mut i: usize = 0;
    while i < units.len()
        invariant
            i <= units@.len(),
            first_named(units@, name@, 0) == first_named(units@, name@, i as nat),
        decreases units.len() - i,
    {
        if str_eq(units[i].name.as_str(), name) {
            return Some(i);
        }
        i = i + 1;
    }
    None
}

/// Resolves the dependencies of unit `u_index` against the units defined
/// before it, in order, stopping at the first error. Dependencies naming no
/// earlier unit are skipped; a pre-compiled library (`extlib`, `extdyn`) carries the path of
/// its binary, the first source of the first unit of that name resolved
/// against `base_dir`. The flags of `pkg` dependencies are found afterwards.
pub fn resolve_dependencies(units: &Vec<UnitVector>, u_index: usize, base_dir: &str) -> (r: (
    Vec<ResolvedDep>,
    Option<PlanError>,
))
    requires
        u_index < units@.len(),
    ensures
        (deps_view(r.0@), r.1) == dependency_resolution(
            units@,
            u_index as int,
            base_dir@,
            dep_list(units@[u_index as int]).len(),
        ),
{
    let mut resolved: Vec<ResolvedDep> = Vec::new();
    let u = &units[u_index];
    let ghost dl = dep_list(units@[u_index as int]);
    match &u.deps {
        None => {
            assert(deps_view(resolved@) =~= Seq::<(Seq<char>, UnitKinds, Option<Seq<char>>)>::empty());
            (resolved, None)
        },
        Some(deps) => {
            assert(dl =~= deps.deep_view());
            let mut j: usize = 0;
            assert(deps_view(resolved@) =~= Seq::<(Seq<char>, UnitKinds, Option<Seq<char>>)>::empty());
            while j < deps.len()
                invariant
                    u_index < units@.len(),
                    *u == units@[u_index as int],
                    u.deps == Some(*deps),
                    dl == dep_list(units@[u_index as int]),
                    dl == deps.deep_view(),
                    j <= deps@.len(),
                    dependency_resolution(units@, u_index as int, base_dir@, j as nat) == (
                        deps_view(resolved@),
                        None::<PlanError>,
                    ),
                decreases deps.len() - j,
            {
                let ghost prev = deps_view(resolved@);
                let dep = deps[j].as_str();
                match lookup_kind(units, dep, u_index) {
                    None => {},
                    Some(kind) => {
                        let prebuilt = match kind {
                            UnitKinds::ExtLib => true,
                            UnitKinds::ExtDyn => true,
                            _ => false,
                        };
                        if prebuilt {
                            proof {
                                lemma_known_kind_has_unit(units@, dep@, u_index as nat);
                                let w = choose|i: int| 0 <= i < u_index && #[trigger] units@[i].name@ == dep@;
                                lemma_first_named_found(units@, dep@, 0, w);
                            }
                            let first = find_first_named(units, dep).unwrap();
                            if units[first].src.len() == 0 {
                                let err = PlanError::MissingPrebuiltBinary { unit: u_index, dep: j };
                                proof {
                                    lemma_resolution_error_sticks(
                                        units@,
                                        u_index as int,
                                        base_dir@,
                                        (j + 1) as nat,
                                        dl.len(),
                                    );
                                }
                                return (resolved, Some(err));
                            }
                            let path = resolve_path(base_dir, units[first].src[0].as_str());
                            resolved.push((String::from_str(dep), kind, Some(path)));
                        } else {
                            resolved.push((String::from_str(dep), kind, None));
                        }
                        assert(deps_view(resolved@) =~= prev.push(
                            dep_view(resolved@[resolved@.len() - 1]),
                        ));
                    },
                }
                j = j + 1;
            }
            (resolved, None)
        },
    }
}

proof fn lemma_resolution_error_sticks(
    us: Seq<UnitVector>,
    u_index: int,
    base: Seq<char>,
    j: nat,
    n: nat,
)
    requires
        j <= n,
        dependency_resolution(us, u_index, base, j).1 is Some,
    ensures
        dependency_resolution(us, u_index, base, n) == dependency_resolution(us, u_index, base, j),
    decreases n - j,
{
    if j < n {
        lemma_resolution_error_sticks(us, u_index, base, j, (n - 1) as nat);
    }
}

} // verus!

verus! {

/// A copy of a list of strings.
pub fn copy_texts(v: &Vec<String>) -> (r: Vec<String>)
    ensures
        r.deep_view() == v.deep_view(),
{
    let mut out: Vec<String> = Vec::new();
    let mut i: usize = 0;
    while i < v.len()
        invariant
            i <= v@.len(),
            out.deep_view() == v.deep_view().subrange(0, i as int),
        decreases v.len() - i,
    {
        let ghost before = out.deep_view();
        out.push(String::from_str(v[i].as_str()));
        assert(out.deep_view() =~= before.push(v[i as int]@));
        assert(v.deep_view()[i as int] == v[i as int]@);
        assert(out.deep_view() =~= v.deep_view().subrange(0, i + 1));
        i = i + 1;
    }
    assert(v.deep_view().subrange(0, v@.len() as int) =~= v.deep_view());
    out
}

/// The texts of an optional list, or none.
pub open spec fn texts_or_empty(o: Option<Vec<String>>) -> Seq<Seq<char>> {
    match o {
        Some(v) => v.deep_view(),
        None => seq![],
    }
}

/// A copy of an optional list of strings, empty when absent.
pub fn texts_or_default(o: &Option<Vec<String>>) -> (r: Vec<String>)
    ensures
        r.deep_view() == texts_or_empty(*o),
{
    match o {
        Some(v) => copy_texts(v),
        None => {
            let r: Vec<String> = Vec::new();
            assert(r.deep_view() =~= Seq::<Seq<char>>::empty());
            r
        },
    }
}

impl PreparedUnit {
    /// Puts a unit of the plan together: the unit's name and kind, the gathered
    /// sources, the gathered include directories (absent when there are none),
    /// the resolved dependencies, the unit's own compiler and linker flags
    /// (empty when absent) and the flags found through `pkg-config`.
    pub fn assemble(
        unit: &UnitVector,
        src: Vec<String>,
        includes: Vec<String>,
        resolved_deps: Vec<ResolvedDep>,
        unpack_compiler_flags: Vec<String>,
        unpack_linker_flags: Vec<String>,
    ) -> (r: PreparedUnit)
        ensures
            r.name@ == unit.name@,
            r.kind == unit.kind,
            r.src == src,
            includes@.len() == 0 ==> r.includes is None,
            includes@.len() > 0 ==> r.includes == Some(includes),
            r.resolved_deps == resolved_deps,
            r.compiler_flags.deep_view() == texts_or_empty(unit.compiler_flags),
            r.linker_flags.deep_view() == texts_or_empty(unit.linker_flags),
            r.unpack_compiler_flags == unpack_compiler_flags,
            r.unpack_linker_flags == unpack_linker_flags,
    {
        let includes = if includes.len() == 0 {
            None
        } else {
            Some(includes)
        };
        PreparedUnit {
            name: unit.name.clone(),
            kind: unit.kind,
            src,
            includes,
            resolved_deps,
            compiler_flags: texts_or_default(&unit.compiler_flags),
            linker_flags: texts_or_default(&unit.linker_flags),
            unpack_compiler_flags,
            unpack_linker_flags,
        }
    }
}

} // verus!

verus! {

/// Every resolved dependency is one the unit lists, names a unit defined
/// before it and carries that unit's kind; exactly the pre-compiled ones carry
/// a binary path; there are no more of them than listed dependencies.
pub proof fn lemma_resolved_dependencies_are_declared(
    us: Seq<UnitVector>,
    u_index: int,
    base: Seq<char>,
    n: nat,
)
    requires
        0 <= u_index < us.len(),
        n <= dep_list(us[u_index]).len(),
    ensures
        ({
            let r = dependency_resolution(us, u_index, base, n).0;
            &&& r.len() <= n
            &&& forall|i: int|
                0 <= i < r.len() ==> {
                    &&& exists|d: int| 0 <= d < n && dep_list(us[u_index])[d] == (#[trigger] r[i]).0
                    &&& known_kind(us, r[i].0, u_index as nat) == Some(r[i].1)
                    &&& (r[i].2 is Some <==> is_prebuilt(r[i].1))
                }
        }),
    decreases n,
{
    if n > 0 {
        lemma_resolved_dependencies_are_declared(us, u_index, base, (n - 1) as nat);
        let prev = dependency_resolution(us, u_index, base, (n - 1) as nat);
        let r = dependency_resolution(us, u_index, base, n).0;
        assert forall|i: int| 0 <= i < r.len() implies {
            &&& exists|d: int| 0 <= d < n && dep_list(us[u_index])[d] == (#[trigger] r[i]).0
            &&& known_kind(us, r[i].0, u_index as nat) == Some(r[i].1)
            &&& (r[i].2 is Some <==> is_prebuilt(r[i].1))
        } by {
            if i < prev.0.len() {
                assert(r[i] == prev.0[i]);
                let d = choose|d: int|
                    0 <= d < n - 1 && dep_list(us[u_index])[d] == (#[trigger] prev.0[i]).0;
                assert(dep_list(us[u_index])[d] == r[i].0);
            } else {
                assert(dep_list(us[u_index])[n - 1] == r[i].0);
            }
        }
    }
}

} // verus!

verus! {

proof fn lemma_known_kind_found(us: Seq<UnitVector>, name: Seq<char>, n: nat, j: int)
    requires
        0 <= j < n <= us.len(),
        us[j].name@ == name,
    ensures
        known_kind(us, name, n) is Some,
    decreases n,
{
    if us[n - 1].name@ != name {
        lemma_known_kind_found(us, name, (n - 1) as nat, j);
    }
}

proof fn lemma_resolution_keeps_every_dependency(
    us: Seq<UnitVector>,
    u_index: int,
    base: Seq<char>,
    n: nat,
)
    requires
        0 <= u_index < us.len(),
        n <= dep_list(us[u_index]).len(),
        forall|d: int|
            #![trigger dep_list(us[u_index])[d]]
            0 <= d < n ==> exists|j: int|
                0 <= j < u_index && #[trigger] us[j].name@ == dep_list(us[u_index])[d],
    ensures
        dependency_resolution(us, u_index, base, n).1 is Some || dependency_resolution(
            us,
            u_index,
            base,
            n,
        ).0.len() == n,
    decreases n,
{
    if n > 0 {
        lemma_resolution_keeps_every_dependency(us, u_index, base, (n - 1) as nat);
        let d = dep_list(us[u_index])[n - 1];
        assert(exists|j: int| 0 <= j < u_index && #[trigger] us[j].name@ == d);
        let j = choose|j: int| 0 <= j < u_index && #[trigger] us[j].name@ == d;
        lemma_known_kind_found(us, d, u_index as nat, j);
    }
}

/// In a valid manifest whose unit names and dependency names carry no
/// surrounding white space, no dependency of a unit that does not name the
/// unit itself is skipped: resolution
/// either stops on a pre-compiled library without a binary or resolves every
/// listed dependency.
pub proof fn lemma_valid_dependencies_resolve(
    m: crate::config::SaltToml,
    files: Seq<Seq<bool>>,
    u_index: int,
    base: Seq<char>,
)
    requires
        crate::config::include_flags_fit(m, files),
        crate::config::validation(m, files) is Ok,
        0 <= u_index < m.unit@.len(),
        forall|j: int|
            0 <= j < m.unit@.len() ==> crate::text::trim((#[trigger] m.unit@[j]).name@)
                == m.unit@[j].name@,
        forall|d: int|
            0 <= d < dep_list(m.unit@[u_index]).len() ==> crate::text::trim(
                #[trigger] dep_list(m.unit@[u_index])[d],
            ) == dep_list(m.unit@[u_index])[d],
        forall|d: int|
            0 <= d < dep_list(m.unit@[u_index]).len() ==> #[trigger] dep_list(m.unit@[u_index])[d]
                != m.unit@[u_index].name@,
    ensures
        ({
            let n = dep_list(m.unit@[u_index]).len();
            let r = dependency_resolution(m.unit@, u_index, base, n);
            r.1 is Some || r.0.len() == n
        }),
{
    let us = m.unit@;
    let deps = dep_list(us[u_index]);
    crate::config::lemma_valid_manifest_is_well_formed(m, files);
    assert(crate::config::unit_well_formed(us, files, u_index));
    assert forall|d: int| #![trigger deps[d]] 0 <= d < deps.len() implies exists|j: int|
        0 <= j < u_index && #[trigger] us[j].name@ == deps[d] by {
        assert(crate::config::dependency_declared(us, u_index, d));
        let j = choose|j: int|
            0 <= j <= u_index && (#[trigger] us[j]).kind.is_library_like() && crate::text::trim(
                us[j].name@,
            ) == crate::text::trim(deps[d]);
        assert(us[j].name@ == deps[d]);
    }
    lemma_resolution_keeps_every_dependency(us, u_index, base, deps.len());
}

} // verus!

verus! {

/// Resolution stops only on a pre-compiled library whose first unit of that
/// name lists no source: the error names this unit and one of its listed
/// dependencies, which is a pre-compiled library defined earlier, and the
/// first unit carrying that name has no source.
pub proof fn lemma_resolution_stops_only_without_binary(
    us: Seq<UnitVector>,
    u_index: int,
    base: Seq<char>,
    n: nat,
)
    requires
        0 <= u_index < us.len(),
        n <= dep_list(us[u_index]).len(),
    ensures
        dependency_resolution(us, u_index, base, n).1 matches Some(e) ==> exists|j: int|
            {
                &&& 0 <= j < n
                &&& e == PlanError::MissingPrebuiltBinary {
                    unit: u_index as usize,
                    dep: j as usize,
                }
                &&& known_kind(us, #[trigger] dep_list(us[u_index])[j], u_index as nat) matches Some(
                    k,
                ) && is_prebuilt(k)
                &&& first_named(us, dep_list(us[u_index])[j], 0) matches Some(f) && us[f as int].src@.len()
                    == 0
            },
    decreases n,
{
    if n > 0 {
        lemma_resolution_stops_only_without_binary(us, u_index, base, (n - 1) as nat);
        let prev = dependency_resolution(us, u_index, base, (n - 1) as nat);
        if prev.1 is None {
            let d = dep_list(us[u_index])[n - 1];
            match known_kind(us, d, u_index as nat) {
                None => {},
                Some(k) => {
                    if is_prebuilt(k) {
                        lemma_known_kind_has_unit(us, d, u_index as nat);
                        let w = choose|i: int| 0 <= i < u_index && #[trigger] us[i].name@ == d;
                        lemma_first_named_found(us, d, 0, w);
                        let j = n - 1;
                        assert(dep_list(us[u_index])[j] == d);
                    }
                },
            }
        }
    }
}

/// In a valid manifest every unit lists a source, so resolving the
/// dependencies of any unit never stops.
pub proof fn lemma_valid_manifest_resolution_never_stops(
    m: crate::config::SaltToml,
    files: Seq<Seq<bool>>,
    u_index: int,
    base: Seq<char>,
)
    requires
        crate::config::include_flags_fit(m, files),
        crate::config::validation(m, files) is Ok,
        0 <= u_index < m.unit@.len(),
    ensures
        dependency_resolution(m.unit@, u_index, base, dep_list(m.unit@[u_index]).len()).1 is None,
{
    let us = m.unit@;
    let n = dep_list(us[u_index]).len();
    crate::config::lemma_valid_manifest_is_well_formed(m, files);
    lemma_resolution_stops_only_without_binary(us, u_index, base, n);
    if dependency_resolution(us, u_index, base, n).1 is Some {
        let j = choose|j: int|
            {
                &&& 0 <= j < n
                &&& dependency_resolution(us, u_index, base, n).1 == Some(
                    PlanError::MissingPrebuiltBinary { unit: u_index as usize, dep: j as usize },
                )
                &&& known_kind(us, #[trigger] dep_list(us[u_index])[j], u_index as nat) matches Some(
                    k,
                ) && is_prebuilt(k)
                &&& first_named(us, dep_list(us[u_index])[j], 0) matches Some(f) && us[f as int].src@.len()
                    == 0
            };
        let d = dep_list(us[u_index])[j];
        let f = first_named(us, d, 0)->0;
        lemma_first_named_in_range(us, d, 0);
        assert(crate::config::unit_well_formed(us, files, f as int));
    }
}

proof fn lemma_first_named_in_range(us: Seq<UnitVector>, name: Seq<char>, from: nat)
    ensures
        first_named(us, name, from) matches Some(f) ==> from <= f < us.len(),
    decreases us.len() - from,
{
    if from < us.len() && us[from as int].name@ != name {
        lemma_first_named_in_range(us, name, from + 1);
    }
}

} // verus!
