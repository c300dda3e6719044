//! Decisions taken while walking a project directory: which entries are
//! copied into the cache and which are skipped.
use vstd::prelude::*;
use crate::text::str_eq;

verus! {

/// What to do with one directory entry.
#[derive(Debug, Clone, Copy, PartialEq, Eq, Structural)]
pub enum WalkStep {
    /// Leave the entry out.
    Skip,
    /// Keep the file.
    Keep,
    /// Walk into the directory.
    Descend,
}

/// The step for an entry named `name` (empty when it has no name): at the
/// top level, excluded directories and excluded names are skipped; a file
/// whose extension is in `extension_filter` is skipped; other files are kept
/// and other directories walked.
pub open spec fn walk_step(
    at_base: bool,
    name: Seq<char>,
    is_dir: bool,
    extension: Option<Seq<char>>,
    excluded_dirs: Seq<Seq<char>>,
    excluded_files: Seq<Seq<char>>,
    extension_filter: Seq<Seq<char>>,
) -> WalkStep {
    if at_base && excluded_dirs.contains(name) && is_dir {
        WalkStep::Skip
    } else if at_base && excluded_files.contains(name) {
        WalkStep::Skip
    } else if !is_dir {
        if extension_filter.len() > 0 && extension_filter.contains(
            match extension {
                Some(e) => e,
                None => seq![],
            },
        ) {
            WalkStep::Skip
        } else {
            WalkStep::Keep
        }
    } else {
        WalkStep::Descend
    }
}

/// Whether some element of `v` equals `s`.
fn contains_str(v: &Vec<&str>, s: &str) -> (r: bool)
    ensures
        r == v@.map_values(|x: &str| x@).contains(s@),
{
    let ghost views = v@.map_values(|x: &str| x@);
    let mut j: usize = 0;
    while j < v.len()
        invariant
            j <= v@.len(),
            views == v@.map_values(|x: &str| x@),
            forall|k: int| 0 <= k < j ==> views[k] != s@,
        decreases v.len() - j,
    {
        if str_eq(v[j], s) {
            assert(views[j as int] == s@);
            return true;
        }
        j = j + 1;
    }
    false
}

/// Decides what to do with one directory entry during a project walk.
pub fn decide_walk_step(
    at_base: bool,
    name: &str,
    is_dir: bool,
    extension: Option<&str>,
    excluded_dirs: &Vec<&str>,
    excluded_files: &Vec<&str>,
    extension_filter: &Vec<&str>,
) -> (r: WalkStep)
    ensures
        r == walk_step(
            at_base,
            name@,
            is_dir,
            match extension {
                Some(e) => Some(e@),
                None => None,
            },
            excluded_dirs@.map_values(|x: &str| x@),
            excluded_files@.map_values(|x: &str| x@),
            extension_filter@.map_values(|x: &str| x@),
        ),
{
    if at_base {
        if contains_str(excluded_dirs, name) && is_dir {
            return WalkStep::Skip;
        }
        if contains_str(excluded_files, name) {
            return WalkStep::Skip;
        }
    }
    if !is_dir {
        let ext = match extension {
            Some(e) => e,
            None => "",
        };
        proof {
            reveal_strlit("");
        }
        assert(ext@ == match extension {
            Some(e) => e@,
            None => Seq::<char>::empty(),
        });
        if extension_filter.len() > 0 && contains_str(extension_filter, ext) {
            return WalkStep::Skip;
        }
        return WalkStep::Keep;
    }
    WalkStep::Descend
}

} // verus!

verus! {

/// Exclusions by name apply only at the top level of the walk: below it, a
/// directory is always walked and a file is kept unless its extension is
/// filtered out.
pub proof fn lemma_exclusions_only_at_top_level(
    name: Seq<char>,
    is_dir: bool,
    extension: Option<Seq<char>>,
    excluded_dirs: Seq<Seq<char>>,
    excluded_files: Seq<Seq<char>>,
    extension_filter: Seq<Seq<char>>,
)
    ensures
        is_dir ==> walk_step(
            false,
            name,
            is_dir,
            extension,
            excluded_dirs,
            excluded_files,
            extension_filter,
        ) == WalkStep::Descend,
        !is_dir && extension_filter.len() == 0 ==> walk_step(
            false,
            name,
            is_dir,
            extension,
            excluded_dirs,
            excluded_files,
            extension_filter,
        ) == WalkStep::Keep,
{
}

} // verus!

verus! {

/// Whether a file found in a source directory is a C source: its extension
/// is `c`.
pub fn is_c_source(p: &str) -> (r: bool)
    ensures
        r == (crate::paths::path_extension_of(p@) == Some("c"@)),
{
    match crate::paths::path_extension(p) {
        Some(e) => str_eq(e.as_str(), "c"),
        None => false,
    }
}

} // verus!

verus! {

/// The directories left out when the project is copied into its cache: the
/// cache itself, Git's data and the default build directory.
pub open spec fn cache_excluded_dir_names() -> Seq<Seq<char>> {
    seq![".csalt"@, ".git"@, "build"@]
}

/// The files left out when the project is copied into its cache: the
/// manifest, the lock and `.gitignore`.
pub open spec fn cache_excluded_file_names() -> Seq<Seq<char>> {
    seq!["Salt.toml"@, "Salt.lock"@, ".gitignore"@]
}

/// The directories left out when the project is copied into its cache.
pub fn cache_excluded_dirs() -> (r: Vec<&'static str>)
    ensures
        r@.map_values(|x: &str| x@) == cache_excluded_dir_names(),
{
    let r = vec![".csalt", ".git", "build"];
    assert(r@.map_values(|x: &str| x@) =~= cache_excluded_dir_names());
    r
}

/// The files left out when the project is copied into its cache.
pub fn cache_excluded_files() -> (r: Vec<&'static str>)
    ensures
        r@.map_values(|x: &str| x@) == cache_excluded_file_names(),
{
    let r = vec!["Salt.toml", "Salt.lock", ".gitignore"];
    assert(r@.map_values(|x: &str| x@) =~= cache_excluded_file_names());
    r
}

/// Copying the project into its cache never copies the manifest or the lock
/// at the top of the project, nor walks into the cache directory itself.
pub proof fn lemma_cache_copy_leaves_out_manifest_lock_and_cache(
    is_dir: bool,
    extension: Option<Seq<char>>,
)
    ensures
        walk_step(
            true,
            "Salt.toml"@,
            is_dir,
            extension,
            cache_excluded_dir_names(),
            cache_excluded_file_names(),
            seq![],
        ) == WalkStep::Skip,
        walk_step(
            true,
            "Salt.lock"@,
            is_dir,
            extension,
            cache_excluded_dir_names(),
            cache_excluded_file_names(),
            seq![],
        ) == WalkStep::Skip,
        walk_step(
            true,
            ".csalt"@,
            true,
            extension,
            cache_excluded_dir_names(),
            cache_excluded_file_names(),
            seq![],
        ) == WalkStep::Skip,
{
    assert(cache_excluded_file_names()[0] == "Salt.toml"@);
    assert(cache_excluded_file_names()[1] == "Salt.lock"@);
    assert(cache_excluded_dir_names()[0] == ".csalt"@);
}

} // verus!

verus! {

/// What gathering the sources of a unit does with one `src` entry.
#[derive(Debug, Clone, Copy, PartialEq, Eq, Structural)]
pub enum SourceEntry {
    /// Nothing is there: the build stops.
    Missing,
    /// A file: it is a source.
    File,
    /// A directory: its `.c` files are sources.
    Directory,
    /// Something else: nothing is gathered from it.
    Ignored,
}

/// What to do with a `src` entry, given what the file system says of its
/// path: a missing path stops the build, a file is gathered, a directory has
/// its `.c` files gathered, and anything else is passed over.
pub fn classify_source_entry(exists: bool, is_file: bool, is_dir: bool) -> (r: SourceEntry)
    ensures
        r == (if !exists {
            SourceEntry::Missing
        } else if is_file {
            SourceEntry::File
        } else if is_dir {
            SourceEntry::Directory
        } else {
            SourceEntry::Ignored
        }),
{
    if !exists {
        SourceEntry::Missing
    } else if is_file {
        SourceEntry::File
    } else if is_dir {
        SourceEntry::Directory
    } else {
        SourceEntry::Ignored
    }
}

} // verus!
