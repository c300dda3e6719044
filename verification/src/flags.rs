//! Splitting the output of `pkg-config --libs --cflags` into compiler and
//! linker flags.
use vstd::prelude::*;
use crate::text::{has_prefix, is_whitespace, push_char, starts_with, trim, trim_str, white_space};

verus! {

/// Whether position `i` of `s` opens a new flag: a `-` directly followed by
/// `I`, `L` or `l`, at the start of the text or right after white space.
pub open spec fn flag_start(s: Seq<char>, i: int) -> bool {
    &&& 0 <= i
    &&& i + 1 < s.len()
    &&& s[i] == '-'
    &&& (s[i + 1] == 'I' || s[i + 1] == 'L' || s[i + 1] == 'l')
    &&& (i == 0 || white_space(s[i - 1]))
}

/// The first `n` characters of `s` cut into pieces: a new piece begins at each
/// flag start; the first piece holds whatever comes before the first flag.
pub open spec fn pieces(s: Seq<char>, n: nat) -> Seq<Seq<char>>
    decreases n,
{
    if n == 0 {
        seq![Seq::<char>::empty()]
    } else {
        let prev = pieces(s, (n - 1) as nat);
        if flag_start(s, n - 1) {
            prev.push(seq![s[n - 1]])
        } else {
            prev.update(prev.len() - 1, prev.last().push(s[n - 1]))
        }
    }
}

/// The pieces of the whole text.
pub open spec fn all_pieces(s: Seq<char>) -> Seq<Seq<char>> {
    pieces(s, s.len())
}

/// A (trimmed) flag that goes to the compiler: it starts with `-I`.
pub open spec fn is_compiler_flag(f: Seq<char>) -> bool {
    has_prefix(f, seq!['-', 'I'])
}

/// A (trimmed) flag that goes to the linker: it starts with `-L` or `-l`.
pub open spec fn is_linker_flag(f: Seq<char>) -> bool {
    has_prefix(f, seq!['-', 'L']) || has_prefix(f, seq!['-', 'l'])
}

/// The compiler flags among the trimmed pieces, in order.
pub open spec fn compiler_flags_of(ps: Seq<Seq<char>>) -> Seq<Seq<char>>
    decreases ps.len(),
{
    if ps.len() == 0 {
        seq![]
    } else {
        let rest = compiler_flags_of(ps.drop_last());
        if is_compiler_flag(trim(ps.last())) {
            rest.push(trim(ps.last()))
        } else {
            rest
        }
    }
}

/// The linker flags among the trimmed pieces, in order; a piece that is a
/// compiler flag is never a linker flag.
pub open spec fn linker_flags_of(ps: Seq<Seq<char>>) -> Seq<Seq<char>>
    decreases ps.len(),
{
    if ps.len() == 0 {
        seq![]
    } else {
        let rest = linker_flags_of(ps.drop_last());
        let f = trim(ps.last());
        if !is_compiler_flag(f) && is_linker_flag(f) {
            rest.push(f)
        } else {
            rest
        }
    }
}

/// Files one raw piece: trimmed, it goes to `compiler` when it starts with
/// `-I`, otherwise to `linker` when it starts with `-L` or `-l`, otherwise
/// nowhere.
pub fn save_flag(flag: &str, compiler: &mut Vec<String>, linker: &mut Vec<String>)
    ensures
        final(compiler).deep_view() == old(compiler).deep_view() + compiler_flags_of(seq![flag@]),
        final(linker).deep_view() == old(linker).deep_view() + linker_flags_of(seq![flag@]),
{
    let trimmed = trim_str(flag);
    let ghost ps = seq![flag@];
    assert(ps.drop_last() =~= Seq::<Seq<char>>::empty());
    assert(ps.last() == flag@);
    assert(compiler_flags_of(ps.drop_last()) =~= Seq::<Seq<char>>::empty());
    assert(linker_flags_of(ps.drop_last()) =~= Seq::<Seq<char>>::empty());
    let dash_i = "-I";
    let dash_big_l = "-L";
    let dash_l = "-l";
    proof {
        reveal_strlit("-I");
        reveal_strlit("-L");
        reveal_strlit("-l");
        assert(dash_i@ =~= seq!['-', 'I']);
        assert(dash_big_l@ =~= seq!['-', 'L']);
        assert(dash_l@ =~= seq!['-', 'l']);
    }
    if starts_with(trimmed, dash_i) {
        compiler.push(String::from_str(trimmed));
        assert(compiler.deep_view() =~= old(compiler).deep_view() + compiler_flags_of(ps));
    } else if starts_with(trimmed, dash_big_l) || starts_with(trimmed, dash_l) {
        linker.push(String::from_str(trimmed));
        assert(linker.deep_view() =~= old(linker).deep_view() + linker_flags_of(ps));
    }
    assert(compiler.deep_view() =~= old(compiler).deep_view() + compiler_flags_of(ps));
    assert(linker.deep_view() =~= old(linker).deep_view() + linker_flags_of(ps));
}

} // verus!

verus! {

proof fn lemma_flags_push(done: Seq<Seq<char>>, x: Seq<char>)
    ensures
        compiler_flags_of(done.push(x)) == compiler_flags_of(done) + compiler_flags_of(seq![x]),
        linker_flags_of(done.push(x)) == linker_flags_of(done) + linker_flags_of(seq![x]),
{
    assert(done.push(x).drop_last() =~= done);
    assert(seq![x].drop_last() =~= Seq::<Seq<char>>::empty());
    assert(compiler_flags_of(Seq::<Seq<char>>::empty()) =~= Seq::<Seq<char>>::empty());
    assert(linker_flags_of(Seq::<Seq<char>>::empty()) =~= Seq::<Seq<char>>::empty());
    assert(compiler_flags_of(done.push(x)) =~= compiler_flags_of(done) + compiler_flags_of(seq![x]));
    assert(linker_flags_of(done.push(x)) =~= linker_flags_of(done) + linker_flags_of(seq![x]));
}

/// Parses compiler and linker flags out of the raw output of `pkg-config`, in a
/// single left-to-right scan. A flag boundary is a `-I`, `-L` or `-l` at the
/// start of the text or after white space; each piece between boundaries is
/// trimmed and appended to `true_compiler_flags` (`-I...`) or
/// `true_linker_flags` (`-L...`, `-l...`), or dropped.
pub fn parse_flags_linear(
    raw_stdout: &str,
    true_compiler_flags: &mut Vec<String>,
    true_linker_flags: &mut Vec<String>,
)
    ensures
        final(true_compiler_flags).deep_view() == old(true_compiler_flags).deep_view()
            + compiler_flags_of(all_pieces(raw_stdout@)),
        final(true_linker_flags).deep_view() == old(true_linker_flags).deep_view()
            + linker_flags_of(all_pieces(raw_stdout@)),
{
    let ghost s = raw_stdout@;
    let ghost c0 = true_compiler_flags.deep_view();
    let ghost l0 = true_linker_flags.deep_view();
    let n = raw_stdout.unicode_len();
    let mut current = String::new();
    let mut i: usize = 0;
    let ghost mut done: Seq<Seq<char>> = seq![];
    assert(pieces(s, 0) =~= done.push(current@));
    assert(compiler_flags_of(done) =~= Seq::<Seq<char>>::empty());
    assert(linker_flags_of(done) =~= Seq::<Seq<char>>::empty());
    while i < n
        invariant
            s == raw_stdout@,
            n == s.len(),
            i <= n,
            pieces(s, i as nat) == done.push(current@),
            true_compiler_flags.deep_view() == c0 + compiler_flags_of(done),
            true_linker_flags.deep_view() == l0 + linker_flags_of(done),
        decreases n - i,
    {
        let ch = raw_stdout.get_char(i);
        if ch == '-' && i + 1 < n {
            let next = raw_stdout.get_char(i + 1);
            if next == 'I' || next == 'L' || next == 'l' {
                let is_new_flag = i == 0 || is_whitespace(raw_stdout.get_char(i - 1));
                if is_new_flag {
                    assert(flag_start(s, i as int));
                    save_flag(current.as_str(), true_compiler_flags, true_linker_flags);
                    proof {
                        lemma_flags_push(done, current@);
                        done = done.push(current@);
                    }
                    current = String::new();
                    push_char(&mut current, ch);
                    push_char(&mut current, next);
                    proof {
                        let p1 = pieces(s, (i + 1) as nat);
                        assert(p1 =~= done.push(seq![ch]));
                        assert(!flag_start(s, i + 1));
                        assert(pieces(s, (i + 2) as nat) =~= done.push(current@));
                    }
                    i = i + 2;
                    continue;
                }
            }
        }
        assert(!flag_start(s, i as int));
        push_char(&mut current, ch);
        assert(pieces(s, (i + 1) as nat) =~= done.push(current@));
        i = i + 1;
    }
    save_flag(current.as_str(), true_compiler_flags, true_linker_flags);
    proof {
        lemma_flags_push(done, current@);
    }
}

} // verus!

verus! {

/// Every flag filed for the compiler starts with `-I`, every flag filed for
/// the linker starts with `-L` or `-l`, each is the trimmed text of one piece,
/// and no piece is filed twice.
pub proof fn lemma_flags_are_classified(ps: Seq<Seq<char>>)
    ensures
        forall|i: int|
            0 <= i < compiler_flags_of(ps).len() ==> is_compiler_flag(
                #[trigger] compiler_flags_of(ps)[i],
            ) && exists|j: int| 0 <= j < ps.len() && compiler_flags_of(ps)[i] == trim(ps[j]),
        forall|i: int|
            0 <= i < linker_flags_of(ps).len() ==> is_linker_flag(#[trigger] linker_flags_of(ps)[i])
                && exists|j: int| 0 <= j < ps.len() && linker_flags_of(ps)[i] == trim(ps[j]),
        compiler_flags_of(ps).len() + linker_flags_of(ps).len() <= ps.len(),
    decreases ps.len(),
{
    if ps.len() > 0 {
        let rest = ps.drop_last();
        lemma_flags_are_classified(rest);
        assert forall|i: int|
            0 <= i < compiler_flags_of(ps).len() implies is_compiler_flag(
            #[trigger] compiler_flags_of(ps)[i],
        ) && exists|j: int| 0 <= j < ps.len() && compiler_flags_of(ps)[i] == trim(ps[j]) by {
            if i < compiler_flags_of(rest).len() {
                assert(compiler_flags_of(ps)[i] == compiler_flags_of(rest)[i]);
                let j = choose|j: int| 0 <= j < rest.len() && compiler_flags_of(rest)[i] == trim(rest[j]);
                assert(rest[j] == ps[j]);
            } else {
                assert(compiler_flags_of(ps)[i] == trim(ps.last()));
                assert(ps.last() == ps[ps.len() - 1]);
            }
        }
        assert forall|i: int|
            0 <= i < linker_flags_of(ps).len() implies is_linker_flag(
            #[trigger] linker_flags_of(ps)[i],
        ) && exists|j: int| 0 <= j < ps.len() && linker_flags_of(ps)[i] == trim(ps[j]) by {
            if i < linker_flags_of(rest).len() {
                assert(linker_flags_of(ps)[i] == linker_flags_of(rest)[i]);
                let j = choose|j: int| 0 <= j < rest.len() && linker_flags_of(rest)[i] == trim(rest[j]);
                assert(rest[j] == ps[j]);
            } else {
                assert(linker_flags_of(ps)[i] == trim(ps.last()));
                assert(ps.last() == ps[ps.len() - 1]);
            }
        }
    }
}

} // verus!

verus! {

/// The package managers to suggest when a `pkg` dependency is missing, each
/// with the command that searches it for the package.
pub open spec fn search_commands(dep: Seq<char>) -> Seq<(Seq<char>, Seq<char>)> {
    seq![
        ("apt"@, "apt search "@ + dep + " | grep dev"@),
        ("dnf"@, "dnf search "@ + dep),
        ("pacman"@, "pacman -Ss "@ + dep),
        ("brew"@, "brew search "@ + dep),
        ("nix"@, "nix-env -qaP '.*"@ + dep + ".*'"@),
        ("winget"@, "winget search "@ + dep),
        ("vcpkg"@, "vcpkg search "@ + dep),
        ("scoop"@, "scoop search "@ + dep),
    ]
}

/// The package managers to suggest for a missing package, in order, each with
/// its search command.
pub fn installation_search_commands(dep: &str) -> (r: Vec<(String, String)>)
    ensures
        r@.map_values(|p: (String, String)| (p.0@, p.1@)) == search_commands(dep@),
{
    let mut out: Vec<(String, String)> = Vec::new();
    let c = crate::toolchain::concat("apt search ", dep);
    out.push((String::from_str("apt"), crate::toolchain::concat(c.as_str(), " | grep dev")));
    out.push((String::from_str("dnf"), crate::toolchain::concat("dnf search ", dep)));
    out.push((String::from_str("pacman"), crate::toolchain::concat("pacman -Ss ", dep)));
    out.push((String::from_str("brew"), crate::toolchain::concat("brew search ", dep)));
    let n = crate::toolchain::concat("nix-env -qaP '.*", dep);
    out.push((String::from_str("nix"), crate::toolchain::concat(n.as_str(), ".*'")));
    out.push((String::from_str("winget"), crate::toolchain::concat("winget search ", dep)));
    out.push((String::from_str("vcpkg"), crate::toolchain::concat("vcpkg search ", dep)));
    out.push((String::from_str("scoop"), crate::toolchain::concat("scoop search ", dep)));
    assert(out@.map_values(|p: (String, String)| (p.0@, p.1@)) =~= search_commands(dep@));
    out
}

} // verus!

verus! {

/// Where the flags of a `pkg` dependency come from.
#[derive(Debug, Clone, Copy, PartialEq, Eq, Structural)]
pub enum PackageFlagsSource {
    /// The flags recorded when the package was met before.
    Cached,
    /// A call of `pkg-config`.
    PkgConfig,
    /// Nowhere: the package is new and `pkg-config` is not installed.
    Unavailable,
}

/// Where the flags of a `pkg` dependency come from: those recorded for it when
/// there are any, otherwise `pkg-config` when it is installed; without either
/// the build stops.
pub fn package_flags_source(cached: bool, pkg_config_found: bool) -> (r: PackageFlagsSource)
    ensures
        r == (if cached {
            PackageFlagsSource::Cached
        } else if pkg_config_found {
            PackageFlagsSource::PkgConfig
        } else {
            PackageFlagsSource::Unavailable
        }),
{
    if cached {
        PackageFlagsSource::Cached
    } else if pkg_config_found {
        PackageFlagsSource::PkgConfig
    } else {
        PackageFlagsSource::Unavailable
    }
}

} // verus!
