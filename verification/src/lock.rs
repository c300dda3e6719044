//! Keeping `Salt.lock` in step with `Salt.toml`, and the manifest a new
//! project starts from.
use vstd::prelude::*;
use std::collections::BTreeMap;
use crate::config::{
    BuildSection, BuildSystems, CEditions, CompilerBackend, PackageSection, SaltLock, SaltToml,
    UnitKinds, UnitVector,
};
use crate::paths::{paths_equal, same_path};
use crate::plan::copy_texts;
use crate::text::{str_eq, trim, trim_str};

verus! {

/// The version of the lock format this library writes.
pub open spec fn lock_version_text() -> Seq<char> {
    "0.1.0"@
}

/// Optional texts, by view.
pub open spec fn opt_texts(o: Option<Vec<String>>) -> Option<Seq<Seq<char>>> {
    match o {
        Some(v) => Some(v.deep_view()),
        None => None,
    }
}

impl View for PackageSection {
    type V = (Seq<char>, Seq<char>, Seq<Seq<char>>, Seq<char>);

    open spec fn view(&self) -> Self::V {
        (self.name@, self.version@, self.authors.deep_view(), self.description@)
    }
}

impl View for BuildSection {
    type V = (BuildSystems, Seq<char>, Option<Seq<char>>, CEditions, CompilerBackend);

    open spec fn view(&self) -> Self::V {
        (
            self.build_sys,
            self.build_sys_ver@,
            match self.build_dir {
                Some(d) => Some(d@),
                None => None,
            },
            self.edition,
            self.compiler,
        )
    }
}

impl View for UnitVector {
    type V = (
        Seq<char>,
        UnitKinds,
        Seq<char>,
        Seq<Seq<char>>,
        Option<Seq<Seq<char>>>,
        Option<Seq<Seq<char>>>,
        Option<Seq<Seq<char>>>,
        Option<Seq<Seq<char>>>,
    );

    open spec fn view(&self) -> Self::V {
        (
            self.name@,
            self.kind,
            self.main@,
            self.src.deep_view(),
            opt_texts(self.includes),
            opt_texts(self.deps),
            opt_texts(self.compiler_flags),
            opt_texts(self.linker_flags),
        )
    }
}

impl View for SaltToml {
    type V = (
        <PackageSection as View>::V,
        <BuildSection as View>::V,
        Seq<<UnitVector as View>::V>,
    );

    open spec fn view(&self) -> Self::V {
        (self.package@, self.build@, unit_views(self.unit@))
    }
}

/// The views of a list of units.
pub open spec fn unit_views(s: Seq<UnitVector>) -> Seq<<UnitVector as View>::V> {
    s.map_values(|u: UnitVector| u@)
}

/// Two lists of paths that are equal path by path.
pub open spec fn same_paths(a: Seq<Seq<char>>, b: Seq<Seq<char>>) -> bool {
    a.len() == b.len() && forall|i: int| 0 <= i < a.len() ==> same_path(#[trigger] a[i], b[i])
}

/// Two optional lists of paths that are equal path by path.
pub open spec fn same_opt_paths(a: Option<Seq<Seq<char>>>, b: Option<Seq<Seq<char>>>) -> bool {
    match (a, b) {
        (Some(x), Some(y)) => same_paths(x, y),
        (None, None) => true,
        _ => false,
    }
}

/// Two units that are equal, their paths compared as paths.
pub open spec fn same_unit(a: UnitVector, b: UnitVector) -> bool {
    &&& a.name@ == b.name@
    &&& a.kind == b.kind
    &&& same_path(a.main@, b.main@)
    &&& same_paths(a.src.deep_view(), b.src.deep_view())
    &&& same_opt_paths(opt_texts(a.includes), opt_texts(b.includes))
    &&& opt_texts(a.deps) == opt_texts(b.deps)
    &&& opt_texts(a.compiler_flags) == opt_texts(b.compiler_flags)
    &&& opt_texts(a.linker_flags) == opt_texts(b.linker_flags)
}

/// Two manifests that are equal, their paths compared as paths.
pub open spec fn same_manifest(a: SaltToml, b: SaltToml) -> bool {
    &&& a.package@ == b.package@
    &&& a.build.build_sys == b.build.build_sys
    &&& a.build.build_sys_ver@ == b.build.build_sys_ver@
    &&& same_opt_paths(
        match a.build.build_dir {
            Some(d) => Some(seq![d@]),
            None => None,
        },
        match b.build.build_dir {
            Some(d) => Some(seq![d@]),
            None => None,
        },
    )
    &&& a.build.edition == b.build.edition
    &&& a.build.compiler == b.build.compiler
    &&& a.unit@.len() == b.unit@.len()
    &&& forall|i: int| 0 <= i < a.unit@.len() ==> same_unit(#[trigger] a.unit@[i], b.unit@[i])
}

/// Whether two lists of strings are equal.
fn texts_equal(a: &Vec<String>, b: &Vec<String>) -> (r: bool)
    ensures
        r == (a.deep_view() == b.deep_view()),
{
    if a.len() != b.len() {
        assert(a.deep_view().len() != b.deep_view().len());
        return false;
    }
    let mut i: usize = 0;
    while i < a.len()
        invariant
            a@.len() == b@.len(),
            i <= a@.len(),
            forall|k: int| 0 <= k < i ==> a.deep_view()[k] == b.deep_view()[k],
        decreases a.len() - i,
    {
        if !str_eq(a[i].as_str(), b[i].as_str()) {
            assert(a.deep_view()[i as int] != b.deep_view()[i as int]);
            return false;
        }
        i = i + 1;
    }
    assert(a.deep_view() =~= b.deep_view());
    true
}

/// Whether two optional lists of strings are equal.
fn opt_texts_equal(a: &Option<Vec<String>>, b: &Option<Vec<String>>) -> (r: bool)
    ensures
        r == (opt_texts(*a) == opt_texts(*b)),
{
    match (a, b) {
        (Some(x), Some(y)) => texts_equal(x, y),
        (None, None) => true,
        _ => false,
    }
}

/// Whether two lists of paths are equal path by path.
fn path_lists_equal(a: &Vec<String>, b: &Vec<String>) -> (r: bool)
    ensures
        r == same_paths(a.deep_view(), b.deep_view()),
{
    if a.len() != b.len() {
        return false;
    }
    let mut i: usize = 0;
    while i < a.len()
        invariant
            a@.len() == b@.len(),
            i <= a@.len(),
            forall|k: int| 0 <= k < i ==> same_path(a.deep_view()[k], b.deep_view()[k]),
        decreases a.len() - i,
    {
        if !paths_equal(a[i].as_str(), b[i].as_str()) {
            assert(!same_path(a.deep_view()[i as int], b.deep_view()[i as int]));
            return false;
        }
        i = i + 1;
    }
    true
}

/// Whether two optional lists of paths are equal path by path.
fn opt_path_lists_equal(a: &Option<Vec<String>>, b: &Option<Vec<String>>) -> (r: bool)
    ensures
        r == same_opt_paths(opt_texts(*a), opt_texts(*b)),
{
    match (a, b) {
        (Some(x), Some(y)) => path_lists_equal(x, y),
        (None, None) => true,
        _ => false,
    }
}

/// Whether two units are equal, their paths compared as paths.
fn units_equal(a: &UnitVector, b: &UnitVector) -> (r: bool)
    ensures
        r == same_unit(*a, *b),
{
    str_eq(a.name.as_str(), b.name.as_str()) && a.kind == b.kind && paths_equal(
        a.main.as_str(),
        b.main.as_str(),
    ) && path_lists_equal(&a.src, &b.src) && opt_path_lists_equal(&a.includes, &b.includes)
        && opt_texts_equal(&a.deps, &b.deps) && opt_texts_equal(
        &a.compiler_flags,
        &b.compiler_flags,
    ) && opt_texts_equal(&a.linker_flags, &b.linker_flags)
}

impl SaltToml {
    /// Whether two manifests are equal, their paths compared as paths.
    pub fn same_as(&self, other: &SaltToml) -> (r: bool)
        ensures
            r == same_manifest(*self, *other),
    {
        let package_same = str_eq(self.package.name.as_str(), other.package.name.as_str())
            && str_eq(self.package.version.as_str(), other.package.version.as_str())
            && texts_equal(&self.package.authors, &other.package.authors) && str_eq(
            self.package.description.as_str(),
            other.package.description.as_str(),
        );
        if !package_same {
            return false;
        }
        let build_dir_same = match (&self.build.build_dir, &other.build.build_dir) {
            (Some(x), Some(y)) => {
                let same = paths_equal(x.as_str(), y.as_str());
                assert(seq![x@][0] == x@);
                assert(seq![y@][0] == y@);
                assert(same_paths(seq![x@], seq![y@]) == same_path(x@, y@)) by {
                    if same_path(x@, y@) {
                        assert forall|i: int| 0 <= i < 1 implies same_path(
                            #[trigger] seq![x@][i],
                            seq![y@][i],
                        ) by {
                            assert(i == 0);
                        }
                    }
                }
                same
            },
            (None, None) => true,
            _ => false,
        };
        if !(self.build.build_sys == other.build.build_sys && str_eq(
            self.build.build_sys_ver.as_str(),
            other.build.build_sys_ver.as_str(),
        ) && build_dir_same && self.build.edition == other.build.edition
            && self.build.compiler == other.build.compiler) {
            return false;
        }
        if self.unit.len() != other.unit.len() {
            return false;
        }
        let mut i: usize = 0;
        while i < self.unit.len()
            invariant
                self.unit@.len() == other.unit@.len(),
                i <= self.unit@.len(),
                forall|k: int| 0 <= k < i ==> same_unit(self.unit@[k], other.unit@[k]),
            decreases self.unit.len() - i,
        {
            if !units_equal(&self.unit[i], &other.unit[i]) {
                return false;
            }
            i = i + 1;
        }
        true
    }
}

/// A copy of an optional list of strings.
fn copy_opt_texts(o: &Option<Vec<String>>) -> (r: Option<Vec<String>>)
    ensures
        opt_texts(r) == opt_texts(*o),
{
    match o {
        Some(v) => Some(copy_texts(v)),
        None => None,
    }
}

/// A copy of a unit.
fn copy_unit(u: &UnitVector) -> (r: UnitVector)
    ensures
        r@ == u@,
{
    UnitVector {
        name: u.name.clone(),
        kind: u.kind,
        main: u.main.clone(),
        src: copy_texts(&u.src),
        includes: copy_opt_texts(&u.includes),
        deps: copy_opt_texts(&u.deps),
        compiler_flags: copy_opt_texts(&u.compiler_flags),
        linker_flags: copy_opt_texts(&u.linker_flags),
    }
}

impl SaltToml {
    /// A copy of the manifest.
    pub fn duplicate(&self) -> (r: SaltToml)
        ensures
            r@ == self@,
    {
        let mut units: Vec<UnitVector> = Vec::new();
        let mut i: usize = 0;
        while i < self.unit.len()
            invariant
                i <= self.unit@.len(),
                unit_views(units@) == unit_views(self.unit@.subrange(0, i as int)),
            decreases self.unit.len() - i,
        {
            let c = copy_unit(&self.unit[i]);
            let ghost before = units@;
            units.push(c);
            assert(units@ == before.push(c));
            assert(unit_views(units@) =~= unit_views(before).push(c@));
            assert(unit_views(units@) =~= unit_views(self.unit@.subrange(0, i + 1)));
            i = i + 1;
        }
        assert(self.unit@.subrange(0, self.unit@.len() as int) =~= self.unit@);
        let r = SaltToml {
            package: PackageSection {
                name: self.package.name.clone(),
                version: self.package.version.clone(),
                authors: copy_texts(&self.package.authors),
                description: self.package.description.clone(),
            },
            build: BuildSection {
                build_sys: self.build.build_sys,
                build_sys_ver: self.build.build_sys_ver.clone(),
                build_dir: match &self.build.build_dir {
                    Some(d) => Some(d.clone()),
                    None => None,
                },
                edition: self.build.edition,
                compiler: self.build.compiler,
            },
            unit: units,
        };
        assert(r@ =~= self@);
        r
    }
}

impl SaltLock {
    /// A fresh lock for a manifest: the current lock version, a copy of the
    /// manifest, and no recorded files.
    pub fn fresh(current_toml: &SaltToml) -> (r: SaltLock)
        ensures
            r.lock_version@ == lock_version_text(),
            r.manifest@ == current_toml@,
            r.files@ == Map::<String, crate::config::FileState>::empty(),
    {
        SaltLock {
            lock_version: String::from_str("0.1.0"),
            manifest: current_toml.duplicate(),
            files: BTreeMap::new(),
        }
    }
}

/// Whether the contents of a lock file are blank.
pub fn lock_text_is_blank(contents: &str) -> (r: bool)
    ensures
        r == (trim(contents@).len() == 0),
{
    trim_str(contents).unicode_len() == 0
}

/// The lock to build with: the stored lock when there is one and it was made
/// for the current manifest, otherwise a fresh lock for the current manifest.
/// `stored` is `None` when there is no lock file, it is blank, or it does not
/// parse.
pub fn reconcile_lock(current_toml: &SaltToml, stored: Option<SaltLock>) -> (r: SaltLock)
    ensures
        same_manifest(r.manifest, *current_toml),
        r.manifest.unit@.len() == current_toml.unit@.len(),
        forall|i: int|
            0 <= i < current_toml.unit@.len() ==> {
                &&& (#[trigger] r.manifest.unit@[i]).name@ == current_toml.unit@[i].name@
                &&& r.manifest.unit@[i].kind == current_toml.unit@[i].kind
                &&& opt_texts(r.manifest.unit@[i].deps) == opt_texts(current_toml.unit@[i].deps)
                &&& opt_texts(r.manifest.unit@[i].compiler_flags) == opt_texts(
                    current_toml.unit@[i].compiler_flags,
                )
                &&& opt_texts(r.manifest.unit@[i].linker_flags) == opt_texts(
                    current_toml.unit@[i].linker_flags,
                )
            },
        match stored {
            Some(l) => if same_manifest(l.manifest, *current_toml) {
                r == l
            } else {
                r.lock_version@ == lock_version_text() && r.manifest@ == current_toml@
                    && r.files@ == Map::<String, crate::config::FileState>::empty()
            },
            None => r.lock_version@ == lock_version_text() && r.manifest@ == current_toml@
                && r.files@ == Map::<String, crate::config::FileState>::empty(),
        },
{
    match stored {
        Some(lock) => {
            if lock.manifest.same_as(current_toml) {
                proof {
                    lemma_same_manifest_differs_only_in_paths(lock.manifest, *current_toml);
                }
                lock
            } else {
                let r = SaltLock::fresh(current_toml);
                proof {
                    lemma_equal_views_are_same_manifest(r.manifest, *current_toml);
                    lemma_same_manifest_differs_only_in_paths(r.manifest, *current_toml);
                }
                r
            }
        },
        None => {
            let r = SaltLock::fresh(current_toml);
            proof {
                lemma_equal_views_are_same_manifest(r.manifest, *current_toml);
                lemma_same_manifest_differs_only_in_paths(r.manifest, *current_toml);
            }
            r
        },
    }
}

/// Equal lists of paths are the same paths.
proof fn lemma_equal_paths_are_same(a: Seq<Seq<char>>, b: Seq<Seq<char>>)
    requires
        a == b,
    ensures
        same_paths(a, b),
{
    assert forall|i: int| 0 <= i < a.len() implies same_path(#[trigger] a[i], b[i]) by {}
}

/// Two units with the same view are the same unit.
proof fn lemma_equal_views_are_same_unit(a: UnitVector, b: UnitVector)
    requires
        a@ == b@,
    ensures
        same_unit(a, b),
{
    lemma_equal_paths_are_same(a.src.deep_view(), b.src.deep_view());
    match opt_texts(a.includes) {
        Some(x) => lemma_equal_paths_are_same(x, x),
        None => {},
    }
}

/// Two manifests with the same view are the same manifest.
pub proof fn lemma_equal_views_are_same_manifest(a: SaltToml, b: SaltToml)
    requires
        a@ == b@,
    ensures
        same_manifest(a, b),
{
    assert(unit_views(a.unit@).len() == a.unit@.len());
    assert(unit_views(b.unit@).len() == b.unit@.len());
    assert forall|i: int| 0 <= i < a.unit@.len() implies same_unit(
        #[trigger] a.unit@[i],
        b.unit@[i],
    ) by {
        assert(unit_views(a.unit@)[i] == a.unit@[i]@);
        assert(unit_views(b.unit@)[i] == b.unit@[i]@);
        lemma_equal_views_are_same_unit(a.unit@[i], b.unit@[i]);
    }
    match a.build.build_dir {
        Some(d) => lemma_equal_paths_are_same(seq![d@], seq![d@]),
        None => {},
    }
}

/// Two manifests that are the same manifest agree on everything but the text
/// of their paths: package, build system, version, edition and compiler, and
/// for each unit its name, kind, dependencies and flags.
pub proof fn lemma_same_manifest_differs_only_in_paths(a: SaltToml, b: SaltToml)
    requires
        same_manifest(a, b),
    ensures
        a.package@ == b.package@,
        a.build.build_sys == b.build.build_sys,
        a.build.build_sys_ver@ == b.build.build_sys_ver@,
        a.build.edition == b.build.edition,
        a.build.compiler == b.build.compiler,
        a.unit@.len() == b.unit@.len(),
        forall|i: int|
            0 <= i < a.unit@.len() ==> {
                &&& (#[trigger] a.unit@[i]).name@ == b.unit@[i].name@
                &&& a.unit@[i].kind == b.unit@[i].kind
                &&& opt_texts(a.unit@[i].deps) == opt_texts(b.unit@[i].deps)
                &&& opt_texts(a.unit@[i].compiler_flags) == opt_texts(b.unit@[i].compiler_flags)
                &&& opt_texts(a.unit@[i].linker_flags) == opt_texts(b.unit@[i].linker_flags)
                &&& a.unit@[i].src@.len() == b.unit@[i].src@.len()
            },
{
    assert forall|i: int| 0 <= i < a.unit@.len() implies {
        &&& (#[trigger] a.unit@[i]).name@ == b.unit@[i].name@
        &&& a.unit@[i].kind == b.unit@[i].kind
        &&& opt_texts(a.unit@[i].deps) == opt_texts(b.unit@[i].deps)
        &&& opt_texts(a.unit@[i].compiler_flags) == opt_texts(b.unit@[i].compiler_flags)
        &&& opt_texts(a.unit@[i].linker_flags) == opt_texts(b.unit@[i].linker_flags)
        &&& a.unit@[i].src@.len() == b.unit@[i].src@.len()
    } by {
        assert(same_unit(a.unit@[i], b.unit@[i]));
        assert(a.unit@[i].src.deep_view().len() == a.unit@[i].src@.len());
        assert(b.unit@[i].src.deep_view().len() == b.unit@[i].src@.len());
    }
}

/// Every manifest is the same manifest as itself, so a lock reconciled for a
/// manifest is kept unchanged when it is reconciled for that manifest again.
pub proof fn lemma_manifest_matches_itself(m: SaltToml)
    ensures
        same_manifest(m, m),
{
    lemma_equal_views_are_same_manifest(m, m);
}

} // verus!
