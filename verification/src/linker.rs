//! The link step of a direct compilation: which options a linker driver adds
//! for a binary or a dynamic library and its dependencies.
use vstd::prelude::*;
use crate::config::{CompilerBackend, UnitKinds};
use crate::plan::{dep_view, PreparedUnit};
use crate::toolchain::{attach_zig_target_arg, concat, opt_text, push_arg, push_args, zig_args, TargetOs, ToolError};

verus! {

/// How the link step is driven: through a GCC-style driver (with the `zig`
/// target, if any), or MSVC-style.
pub enum LinkerDriver {
    GnuLike { backend: CompilerBackend, zig_target: Option<String> },
    ClLike,
}

/// The macOS options that let a binary find libraries next to it.
pub open spec fn rpath_args() -> Seq<Seq<char>> {
    seq!["-Xlinker"@, "-rpath"@, "-Xlinker"@, "@executable_path"@]
}

/// The options that name the output of the link.
pub open spec fn output_args(
    kind: UnitKinds,
    out_dyn: Seq<char>,
    dyn_name: Seq<char>,
    out_exe: Seq<char>,
    os: TargetOs,
) -> Seq<Seq<char>> {
    if kind == UnitKinds::Dyn {
        seq!["-shared"@, "-fPIC"@, "-o"@, out_dyn] + if os == TargetOs::MacOs {
            seq!["-Xlinker"@, "-install_name"@, "-Xlinker"@, "@rpath/"@ + dyn_name]
        } else {
            seq![]
        }
    } else {
        seq!["-o"@, out_exe] + if os == TargetOs::MacOs {
            rpath_args()
        } else {
            seq![]
        }
    }
}

/// The options that link the first `n` dependencies, up to the first one
/// that cannot be linked, and the error of that one, if any. `canonical[i]`
/// is the canonical path of dependency `i`, if it could be found.
pub open spec fn dependency_link_args(
    unit_kind: UnitKinds,
    deps: Seq<(Seq<char>, UnitKinds, Option<Seq<char>>)>,
    canonical: Seq<Option<Seq<char>>>,
    os: TargetOs,
    n: nat,
) -> (Seq<Seq<char>>, Option<ToolError>)
    decreases n,
{
    if n == 0 {
        (seq![], None)
    } else {
        let prev = dependency_link_args(unit_kind, deps, canonical, os, (n - 1) as nat);
        if prev.1 is Some {
            prev
        } else {
            let d = deps[n - 1];
            match d.1 {
                UnitKinds::Lib | UnitKinds::Dyn => (prev.0.push("-l"@ + d.0), None),
                UnitKinds::ExtLib | UnitKinds::ExtDyn => match d.2 {
                    None => (prev.0, Some(ToolError::MissingDependencyPath { dep: (n - 1) as usize })),
                    Some(path) => match canonical[n - 1] {
                        None => (
                            prev.0,
                            Some(ToolError::UnresolvableDependencyPath { dep: (n - 1) as usize }),
                        ),
                        Some(c) => (
                            prev.0.push(c) + if unit_kind == UnitKinds::ExtDyn && os
                                == TargetOs::MacOs {
                                rpath_args().push(path)
                            } else {
                                seq![]
                            },
                            None,
                        ),
                    },
                },
                _ => prev,
            }
        }
    }
}

impl LinkerDriver {
    /// The driver of a backend: GCC-style for `clang`, `gcc` and `zig`,
    /// MSVC-style for `cl` and `clang-cl`.
    pub fn new(backend: &CompilerBackend, zig_target: Option<String>) -> (r: LinkerDriver)
        ensures
            match *backend {
                CompilerBackend::Clang | CompilerBackend::Gcc | CompilerBackend::Zig => r
                    == LinkerDriver::GnuLike { backend: *backend, zig_target },
                _ => r is ClLike,
            },
    {
        match backend {
            CompilerBackend::Clang | CompilerBackend::Gcc | CompilerBackend::Zig => {
                LinkerDriver::GnuLike { backend: *backend, zig_target }
            },
            _ => LinkerDriver::ClLike,
        }
    }

    /// The options this driver adds to a link of `unit`, up to the first
    /// dependency that cannot be linked, and the error of that one, if any.
    pub open spec fn link_flags(
        self,
        unit: PreparedUnit,
        out_dyn: Seq<char>,
        dyn_name: Seq<char>,
        out_exe: Seq<char>,
        os: TargetOs,
        canonical: Seq<Option<Seq<char>>>,
    ) -> (Seq<Seq<char>>, Option<ToolError>) {
        match self {
            LinkerDriver::GnuLike { backend, zig_target } => {
                let deps = dependency_link_args(
                    unit.kind,
                    crate::plan::deps_view(unit.resolved_deps@),
                    canonical,
                    os,
                    unit.resolved_deps@.len(),
                );
                (
                    zig_args(backend, opt_text(zig_target)) + output_args(
                        unit.kind,
                        out_dyn,
                        dyn_name,
                        out_exe,
                        os,
                    ) + seq!["-L."@] + unit.linker_flags.deep_view()
                        + unit.unpack_linker_flags.deep_view() + deps.0,
                    deps.1,
                )
            },
            LinkerDriver::ClLike => (seq![], None),
        }
    }

    /// Adds the link options of `unit` to `args`: for a GCC-style driver, the
    /// `zig` target, the output (`-shared -fPIC -o <out_dyn>` for a dynamic
    /// library, `-o <out_exe>` otherwise, with the macOS install name or rpath),
    /// `-L.`, the unit's linker flags and those found through `pkg-config`,
    /// then `-l<name>` for each library unit and the canonical path for each
    /// pre-compiled library. `canonical_dep_paths[i]` is the canonical path of
    /// dependency `i`, if it could be found. On an error, the options added
    /// before the dependency that cannot be linked stay in `args`.
    #[verifier::rlimit(40)]
    pub fn build_flags(
        &self,
        args: &mut Vec<String>,
        unit: &PreparedUnit,
        out_dyn: &str,
        dyn_name: &str,
        out_exe: &str,
        os: TargetOs,
        canonical_dep_paths: &Vec<Option<String>>,
    ) -> (r: Result<(), ToolError>)
        requires
            canonical_dep_paths@.len() == unit.resolved_deps@.len(),
        ensures
            ({
                let flags = self.link_flags(
                    *unit,
                    out_dyn@,
                    dyn_name@,
                    out_exe@,
                    os,
                    canonical_dep_paths@.map_values(|o: Option<String>| opt_text(o)),
                );
                &&& final(args).deep_view() == old(args).deep_view() + flags.0
                &&& r == match flags.1 {
                    None => Ok::<(), ToolError>(()),
                    Some(e) => Err(e),
                }
            }),
    {
        let ghost canonical = canonical_dep_paths@.map_values(|o: Option<String>| opt_text(o));
        match self {
            LinkerDriver::GnuLike { backend, zig_target } => {
                let (deps_args, stopped) = dependency_args(unit, os, canonical_dep_paths);
                let ghost before = args.deep_view();
                attach_zig_target_arg(*backend, args, zig_target);
                let ghost after_zig = args.deep_view();
                match unit.kind {
                    UnitKinds::Dyn => {
                        push_arg(args, "-shared");
                        push_arg(args, "-fPIC");
                        push_arg(args, "-o");
                        push_arg(args, out_dyn);
                        match os {
                            TargetOs::MacOs => {
                                push_arg(args, "-Xlinker");
                                push_arg(args, "-install_name");
                                push_arg(args, "-Xlinker");
                                let a = concat("@rpath/", dyn_name);
                                push_arg(args, a.as_str());
                            },
                            _ => {},
                        }
                    },
                    _ => {
                        push_arg(args, "-o");
                        push_arg(args, out_exe);
                        match os {
                            TargetOs::MacOs => {
                                push_arg(args, "-Xlinker");
                                push_arg(args, "-rpath");
                                push_arg(args, "-Xlinker");
                                push_arg(args, "@executable_path");
                            },
                            _ => {},
                        }
                    },
                }
                assert(args.deep_view() =~= after_zig + output_args(
                    unit.kind,
                    out_dyn@,
                    dyn_name@,
                    out_exe@,
                    os,
                ));
                push_arg(args, "-L.");
                push_args(args, &unit.linker_flags);
                push_args(args, &unit.unpack_linker_flags);
                push_args(args, &deps_args);
                assert(args.deep_view() =~= before + self.link_flags(
                    *unit,
                    out_dyn@,
                    dyn_name@,
                    out_exe@,
                    os,
                    canonical,
                ).0);
                match stopped {
                    None => Ok(()),
                    Some(e) => Err(e),
                }
            },
            LinkerDriver::ClLike => {
                assert(args.deep_view() =~= args.deep_view() + Seq::<Seq<char>>::empty());
                Ok(())
            },
        }
    }
}

/// The options that link the dependencies of `unit`, in order, up to the
/// first one that cannot be linked, and the error of that one, if any.
fn dependency_args(unit: &PreparedUnit, os: TargetOs, canonical_dep_paths: &Vec<Option<String>>) -> (r: (Vec<String>, Option<ToolError>))
    requires
        canonical_dep_paths@.len() == unit.resolved_deps@.len(),
    ensures
        (r.0.deep_view(), r.1) == dependency_link_args(
            unit.kind,
            crate::plan::deps_view(unit.resolved_deps@),
            canonical_dep_paths@.map_values(|o: Option<String>| opt_text(o)),
            os,
            unit.resolved_deps@.len(),
        ),
{
    let ghost canonical = canonical_dep_paths@.map_values(|o: Option<String>| opt_text(o));
    let mut deps_args: Vec<String> = Vec::new();
    let n = unit.resolved_deps.len();
    let ghost deps = crate::plan::deps_view(unit.resolved_deps@);
    let mut i: usize = 0;
    assert(deps_args.deep_view() =~= Seq::<Seq<char>>::empty());
    while i < n
        invariant
            n == unit.resolved_deps@.len(),
            deps == crate::plan::deps_view(unit.resolved_deps@),
            canonical_dep_paths@.len() == n,
            canonical == canonical_dep_paths@.map_values(|o: Option<String>| opt_text(o)),
            i <= n,
            dependency_link_args(unit.kind, deps, canonical, os, i as nat) == (
                deps_args.deep_view(),
                None::<ToolError>,
            ),
        decreases n - i,
    {
        let ghost prev = deps_args.deep_view();
        let d = &unit.resolved_deps[i];
        assert(deps[i as int] == dep_view(*d));
        assert(canonical[i as int] == opt_text(canonical_dep_paths@[i as int]));
        match d.1 {
            UnitKinds::Lib | UnitKinds::Dyn => {
                let a = concat("-l", d.0.as_str());
                push_arg(&mut deps_args, a.as_str());
            },
            UnitKinds::ExtLib | UnitKinds::ExtDyn => {
                match &d.2 {
                    None => {
                        proof {
                            lemma_link_error_sticks(unit.kind, deps, canonical, os, (i + 1) as nat, n as nat);
                        }
                        return (deps_args, Some(ToolError::MissingDependencyPath { dep: i }));
                    },
                    Some(path) => {
                        match &canonical_dep_paths[i] {
                            None => {
                                proof {
                                    lemma_link_error_sticks(unit.kind, deps, canonical, os, (i + 1) as nat, n as nat);
                                }
                                return (
                                    deps_args,
                                    Some(ToolError::UnresolvableDependencyPath { dep: i }),
                                );
                            },
                            Some(c) => {
                                push_arg(&mut deps_args, c.as_str());
                                let extra = match (unit.kind, os) {
                                    (UnitKinds::ExtDyn, TargetOs::MacOs) => true,
                                    _ => false,
                                };
                                if extra {
                                    push_arg(&mut deps_args, "-Xlinker");
                                    push_arg(&mut deps_args, "-rpath");
                                    push_arg(&mut deps_args, "-Xlinker");
                                    push_arg(&mut deps_args, "@executable_path");
                                    push_arg(&mut deps_args, path.as_str());
                                }
                                assert(deps_args.deep_view() =~= prev.push(c@) + if unit.kind
                                    == UnitKinds::ExtDyn && os == TargetOs::MacOs {
                                    rpath_args().push(path@)
                                } else {
                                    seq![]
                                });
                            },
                        }
                    },
                }
            },
            _ => {},
        }
        i = i + 1;
    }
    (deps_args, None)
}

proof fn lemma_link_error_sticks(
    unit_kind: UnitKinds,
    deps: Seq<(Seq<char>, UnitKinds, Option<Seq<char>>)>,
    canonical: Seq<Option<Seq<char>>>,
    os: TargetOs,
    j: nat,
    n: nat,
)
    requires
        j <= n,
        dependency_link_args(unit_kind, deps, canonical, os, j).1 is Some,
    ensures
        dependency_link_args(unit_kind, deps, canonical, os, n) == dependency_link_args(
            unit_kind,
            deps,
            canonical,
            os,
            j,
        ),
    decreases n - j,
{
    if j < n {
        lemma_link_error_sticks(unit_kind, deps, canonical, os, j, (n - 1) as nat);
    }
}

} // verus!

verus! {

proof fn lemma_dependency_args_extend(
    unit_kind: UnitKinds,
    deps: Seq<(Seq<char>, UnitKinds, Option<Seq<char>>)>,
    canonical: Seq<Option<Seq<char>>>,
    os: TargetOs,
    j: nat,
    n: nat,
)
    requires
        j <= n <= deps.len(),
        n <= canonical.len(),
    ensures
        ({
            let small = dependency_link_args(unit_kind, deps, canonical, os, j).0;
            let big = dependency_link_args(unit_kind, deps, canonical, os, n).0;
            small.len() <= big.len() && forall|p: int| 0 <= p < small.len() ==> big[p] == small[p]
        }),
    decreases n - j,
{
    if j < n {
        lemma_dependency_args_extend(unit_kind, deps, canonical, os, j, (n - 1) as nat);
    }
}

proof fn lemma_library_dependency_linked(
    unit_kind: UnitKinds,
    deps: Seq<(Seq<char>, UnitKinds, Option<Seq<char>>)>,
    canonical: Seq<Option<Seq<char>>>,
    os: TargetOs,
    i: int,
    n: nat,
)
    requires
        0 <= i < n <= deps.len(),
        n <= canonical.len(),
        deps[i].1 == UnitKinds::Lib || deps[i].1 == UnitKinds::Dyn,
        dependency_link_args(unit_kind, deps, canonical, os, n).1 is None,
    ensures
        dependency_link_args(unit_kind, deps, canonical, os, n).0.contains("-l"@ + deps[i].0),
    decreases n,
{
    let prev = dependency_link_args(unit_kind, deps, canonical, os, (n - 1) as nat);
    let cur = dependency_link_args(unit_kind, deps, canonical, os, n);
    assert(prev.1 is None);
    lemma_dependency_args_extend(unit_kind, deps, canonical, os, (n - 1) as nat, n);
    if i == n - 1 {
        assert(cur.0 == prev.0.push("-l"@ + deps[i].0));
        assert(cur.0[prev.0.len() as int] == "-l"@ + deps[i].0);
    } else {
        lemma_library_dependency_linked(unit_kind, deps, canonical, os, i, (n - 1) as nat);
        let p = choose|p: int| 0 <= p < prev.0.len() && prev.0[p] == "-l"@ + deps[i].0;
        assert(cur.0[p] == prev.0[p]);
    }
}

/// A GCC-style link that succeeds links every `lib` and `dyn` dependency of
/// the unit by name: the options hold `-l<name>` for each of them.
pub proof fn lemma_library_dependencies_are_linked_by_name(
    driver: LinkerDriver,
    unit: PreparedUnit,
    out_dyn: Seq<char>,
    dyn_name: Seq<char>,
    out_exe: Seq<char>,
    os: TargetOs,
    canonical: Seq<Option<Seq<char>>>,
)
    requires
        driver is GnuLike,
        canonical.len() == unit.resolved_deps@.len(),
        driver.link_flags(unit, out_dyn, dyn_name, out_exe, os, canonical).1 is None,
    ensures
        forall|i: int|
            0 <= i < unit.resolved_deps@.len() && ((#[trigger] unit.resolved_deps@[i]).1
                == UnitKinds::Lib || unit.resolved_deps@[i].1 == UnitKinds::Dyn) ==> driver.link_flags(
                unit,
                out_dyn,
                dyn_name,
                out_exe,
                os,
                canonical,
            ).0.contains("-l"@ + unit.resolved_deps@[i].0@),
{
    let deps = crate::plan::deps_view(unit.resolved_deps@);
    let n = unit.resolved_deps@.len();
    let flags = driver.link_flags(unit, out_dyn, dyn_name, out_exe, os, canonical).0;
    let dl = dependency_link_args(unit.kind, deps, canonical, os, n);
    assert forall|i: int|
        0 <= i < n && ((#[trigger] unit.resolved_deps@[i]).1 == UnitKinds::Lib
            || unit.resolved_deps@[i].1 == UnitKinds::Dyn) implies flags.contains(
        "-l"@ + unit.resolved_deps@[i].0@,
    ) by {
        assert(deps[i] == dep_view(unit.resolved_deps@[i]));
        lemma_library_dependency_linked(unit.kind, deps, canonical, os, i, n);
        let p = choose|p: int| 0 <= p < dl.0.len() && dl.0[p] == "-l"@ + deps[i].0;
        let off = flags.len() - dl.0.len();
        assert(flags[off + p] == dl.0[p]);
    }
}

} // verus!
