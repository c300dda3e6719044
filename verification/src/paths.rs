//! Paths, held as UTF-8 text, and the few questions asked of the file system.
use vstd::prelude::*;

verus! {

/// The extension of a path as `Path::extension` computes it (the part of the
/// file name after its last `.`), when it is valid UTF-8.
pub uninterp spec fn path_extension_of(p: Seq<char>) -> Option<Seq<char>>;

/// `Path::extension` followed by `OsStr::to_str`: the extension of the file
/// name of `p`, named `path_extension_of(p)`.
#[verifier::external_body]
pub(crate) fn path_extension(p: &str) -> (r: Option<String>)
    ensures
        match r {
            Some(e) => path_extension_of(p@) == Some(e@),
            None => path_extension_of(p@) is None,
        },
{
    std::path::Path::new(p).extension().and_then(|e| e.to_str()).map(|e| e.to_string())
}

/// `Path::is_file`: whether a regular file exists at `p` right now. The answer
/// depends on the file system, so nothing is stated of it.
#[verifier::external_body]
pub(crate) fn path_is_file(p: &str) -> (r: bool) {
    std::path::Path::new(p).is_file()
}

} // verus!

verus! {

/// The Windows verbatim prefix `\\?\`.
pub open spec fn verbatim_prefix() -> Seq<char> {
    seq!['\\', '\\', '?', '\\']
}

/// A path without its Windows verbatim prefix, when it has one.
pub open spec fn cleaned_path(p: Seq<char>) -> Seq<char> {
    if crate::text::has_prefix(p, verbatim_prefix()) {
        p.subrange(4, p.len() as int)
    } else {
        p
    }
}

/// Removes the Windows verbatim prefix `\\?\` that canonicalisation adds.
pub fn clean_windows_path(path: String) -> (r: String)
    ensures
        r@ == cleaned_path(path@),
{
    let prefix = "\\\\?\\";
    proof {
        reveal_strlit("\\\\?\\");
        assert(prefix@ =~= verbatim_prefix());
    }
    if crate::text::starts_with(path.as_str(), prefix) {
        let n = path.as_str().unicode_len();
        String::from_str(path.as_str().substring_char(4, n))
    } else {
        path
    }
}

/// Whether a path is absolute, as `Path::is_absolute` decides it on this
/// platform.
pub uninterp spec fn absolute_path(p: Seq<char>) -> bool;

/// `Path::is_absolute`: whether `p` is absolute on this platform; named
/// `absolute_path(p)`.
#[verifier::external_body]
pub(crate) fn path_is_absolute(p: &str) -> (r: bool)
    ensures
        r == absolute_path(p@),
{
    std::path::Path::new(p).is_absolute()
}

/// The path `Path::join` builds from `base` and `p`.
pub uninterp spec fn joined_path(base: Seq<char>, p: Seq<char>) -> Seq<char>;

/// `Path::join`: `p` appended to `base` (or `p` alone when it is absolute),
/// named `joined_path(base, p)`.
#[verifier::external_body]
pub(crate) fn path_join(base: &str, p: &str) -> (r: String)
    ensures
        r@ == joined_path(base@, p@),
{
    std::path::Path::new(base).join(p).to_string_lossy().into_owned()
}

/// What `Path::strip_prefix` leaves of `p` once the components of `base` are
/// removed from its front, if they are a prefix.
pub uninterp spec fn stripped_path(p: Seq<char>, base: Seq<char>) -> Option<Seq<char>>;

/// `Path::strip_prefix`: the rest of `p` after the leading components that
/// make up `base`, or `None` when `base` is not a prefix of `p`; named
/// `stripped_path(p, base)`.
#[verifier::external_body]
pub(crate) fn path_strip_prefix(p: &str, base: &str) -> (r: Option<String>)
    ensures
        match r {
            Some(s) => stripped_path(p@, base@) == Some(s@),
            None => stripped_path(p@, base@) is None,
        },
{
    std::path::Path::new(p).strip_prefix(base).ok().map(|s| s.to_string_lossy().into_owned())
}

/// Whether two paths are equal component by component, as `Path`'s `==`
/// decides it.
pub uninterp spec fn path_components_equal(a: Seq<char>, b: Seq<char>) -> bool;

/// Whether two paths name the same path: the same text, or equal component
/// by component.
pub open spec fn same_path(a: Seq<char>, b: Seq<char>) -> bool {
    a == b || path_components_equal(a, b)
}

/// `Path`'s `==`: component-wise equality, named
/// `path_components_equal(a, b)`. `Path` is `Eq`, so equal texts are equal
/// paths.
#[verifier::external_body]
pub(crate) fn paths_equal(a: &str, b: &str) -> (r: bool)
    ensures
        r == path_components_equal(a@, b@),
        a@ == b@ ==> r,
{
    std::path::Path::new(a) == std::path::Path::new(b)
}

/// `Path::exists`: whether something exists at `p` right now. The answer
/// depends on the file system, so nothing is stated of it.
#[verifier::external_body]
pub(crate) fn path_exists(p: &str) -> (r: bool) {
    std::path::Path::new(p).exists()
}

/// Where a path written in the manifest points: as written when absolute,
/// otherwise under `base`; without a verbatim prefix.
pub open spec fn resolved_path(base: Seq<char>, p: Seq<char>) -> Seq<char> {
    cleaned_path(if absolute_path(p) { p } else { joined_path(base, p) })
}

/// Resolves a manifest path against the project directory.
pub fn resolve_path(base: &str, p: &str) -> (r: String)
    ensures
        r@ == resolved_path(base@, p@),
{
    let full = if path_is_absolute(p) {
        String::from_str(p)
    } else {
        path_join(base, p)
    };
    clean_windows_path(full)
}

/// Why a directory is not a C-Salt workspace.
#[derive(Debug, Clone, Copy, PartialEq, Eq, Structural)]
pub enum WorkspaceError {
    /// There is no `Salt.toml` in the directory.
    MissingManifest,
}

/// The verdict on a workspace, given whether its `Salt.toml` exists.
pub fn workspace_verdict(manifest_exists: bool) -> (r: Result<(), WorkspaceError>)
    ensures
        r == (if manifest_exists {
            Ok(())
        } else {
            Err(WorkspaceError::MissingManifest)
        }),
{
    if manifest_exists {
        Ok(())
    } else {
        Err(WorkspaceError::MissingManifest)
    }
}

/// The path of the manifest of the project in `base_dir`: `base_dir` joined
/// with `Salt.toml`.
pub fn manifest_path(base_dir: &str) -> (r: String)
    ensures
        r@ == joined_path(base_dir@, "Salt.toml"@),
{
    path_join(base_dir, "Salt.toml")
}

/// Checks that `base_dir` holds a `Salt.toml`: asks the file system whether
/// `manifest_path(base_dir)` exists and gives `workspace_verdict` of the
/// answer. The answer comes from the file system; the only error is a
/// missing manifest.
pub fn verify_workspace(base_dir: &str) -> (r: Result<(), WorkspaceError>)
    ensures
        r is Ok || r == Err::<(), WorkspaceError>(WorkspaceError::MissingManifest),
{
    let manifest = manifest_path(base_dir);
    workspace_verdict(path_exists(manifest.as_str()))
}

} // verus!

verus! {

/// The path `Path::with_extension` builds: `p` with its extension replaced by
/// (or extended with) `ext`.
pub uninterp spec fn path_with_extension_of(p: Seq<char>, ext: Seq<char>) -> Seq<char>;

/// Whether a text holds no path separator, `/` or `\\`.
pub open spec fn no_separator(s: Seq<char>) -> bool {
    !s.contains('/') && !s.contains('\\')
}

/// `Path::with_extension`: `p` with the extension of its file name set to
/// `ext`; named `path_with_extension_of(p, ext)`. The call panics when `ext`
/// holds a path separator, so such an `ext` is not accepted.
#[verifier::external_body]
pub(crate) fn path_with_extension(p: &str, ext: &str) -> (r: String)
    requires
        no_separator(ext@),
    ensures
        r@ == path_with_extension_of(p@, ext@),
{
    std::path::Path::new(p).with_extension(ext).to_string_lossy().into_owned()
}

} // verus!
