//! Build-system versions: normalising a user-written version into a full
//! semantic version, and writing one back out.
use vstd::prelude::*;
use crate::text::{char_from_ascii, push_char, trim, trim_str};

verus! {

/// A semantic version `major.minor.patch[-pre][+build]`.
pub struct SemVer {
    pub major: u64,
    pub minor: u64,
    pub patch: u64,
    pub pre: String,
    pub build: String,
}

impl View for SemVer {
    type V = (u64, u64, u64, Seq<char>, Seq<char>);

    open spec fn view(&self) -> Self::V {
        (self.major, self.minor, self.patch, self.pre@, self.build@)
    }
}

/// Why a version is refused.
#[derive(Debug, Clone, Copy, PartialEq, Eq, Structural)]
pub enum VersionError {
    /// The text is a version range (`^`, `~`, `<`, `>`, `=`), not a version.
    RangeNotSupported,
    /// The padded text is not a semantic version.
    InvalidVersion,
}

#[verifier::external_type_specification]
#[verifier::external_body]
pub struct ExSemverVersion(semver::Version);

#[verifier::external_type_specification]
#[verifier::external_body]
pub struct ExSemverVersionReq(semver::VersionReq);

/// A version as `semver` read it: its parts as plain values, beside the
/// `semver` value they were read from.
pub struct ParsedVersion {
    parts: SemVer,
    version: semver::Version,
}

impl View for ParsedVersion {
    type V = (u64, u64, u64, Seq<char>, Seq<char>);

    closed spec fn view(&self) -> Self::V {
        self.parts@
    }
}

impl ParsedVersion {
    /// The parts of the version.
    pub fn parts(&self) -> (r: &SemVer)
        ensures
            r@ == self@,
    {
        &self.parts
    }
}

/// The version that `semver::Version::parse` reads from a text, if any, as
/// `(major, minor, patch, pre-release, build metadata)`.
pub uninterp spec fn parsed_version(text: Seq<char>) -> Option<(u64, u64, u64, Seq<char>, Seq<char>)>;

/// `semver::Version::parse`: reads a full semantic version. The result is
/// named `parsed_version(text)`; the pre-release and build identifiers are
/// handed back as text, beside the parsed value. A version is read only from
/// the whole text, with numbers in base 10 without leading zeros and the
/// identifiers kept as written, so what was read writes back as the text; and
/// any three numbers written that way, joined by dots, are read as a version.
#[verifier::external_body]
pub(crate) fn parse_version(text: &str) -> (r: Option<ParsedVersion>)
    ensures
        match r {
            Some(v) => {
                &&& parsed_version(text@) == Some(v@)
                &&& SemVer::text(v@) == text@
                &&& forall|major: u64, minor: u64, patch: u64|
                    #[trigger] SemVer::text((major, minor, patch, seq![], seq![])) == text@
                        ==> v@ == (major, minor, patch, Seq::<char>::empty(), Seq::<char>::empty())
            },
            None => {
                &&& parsed_version(text@) is None
                &&& forall|major: u64, minor: u64, patch: u64|
                    #[trigger] SemVer::text((major, minor, patch, seq![], seq![])) != text@
            },
        },
{
    match semver::Version::parse(text) {
        Ok(v) => Some(
            ParsedVersion {
                parts: SemVer {
                    major: v.major,
                    minor: v.minor,
                    patch: v.patch,
                    pre: v.pre.as_str().to_string(),
                    build: v.build.as_str().to_string(),
                },
                version: v,
            },
        ),
        Err(_) => None,
    }
}

/// A version requirement as `semver` read it, beside its text.
pub struct VersionRequirement {
    text: String,
    req: semver::VersionReq,
}

impl VersionRequirement {
    /// The text the requirement was read from.
    pub closed spec fn text(&self) -> Seq<char> {
        self.text@
    }
}

/// Whether `semver::VersionReq::parse` accepts a requirement text.
pub uninterp spec fn requirement_parses(req: Seq<char>) -> bool;

/// `semver::VersionReq::parse`: reads a version requirement such as
/// `>=3.15.0`. Whether it succeeds is named `requirement_parses(text)`; the
/// requirement keeps its text. An operator followed by a full version, as in
/// `>=3.15.0`, is a requirement.
#[verifier::external_body]
pub(crate) fn parse_requirement(text: &str) -> (r: Option<VersionRequirement>)
    ensures
        r is Some == requirement_parses(text@),
        text@ == ">=3.15.0"@ ==> r is Some,
        r matches Some(q) ==> q.text() == text@,
{
    match semver::VersionReq::parse(text) {
        Ok(req) => Some(VersionRequirement { text: text.to_string(), req }),
        Err(_) => None,
    }
}

/// What `semver::VersionReq::matches` answers for a version and the
/// requirement that `semver::VersionReq::parse` reads from the text `req`.
pub uninterp spec fn requirement_matches(
    req: Seq<char>,
    v: (u64, u64, u64, Seq<char>, Seq<char>),
) -> bool;

/// Whether `v` is a release (no pre-release identifiers) at or above
/// `major.minor.patch`.
pub open spec fn release_at_least(
    v: (u64, u64, u64, Seq<char>, Seq<char>),
    major: u64,
    minor: u64,
    patch: u64,
) -> bool {
    &&& v.3.len() == 0
    &&& (v.0 > major || (v.0 == major && (v.1 > minor || (v.1 == minor && v.2 >= patch))))
}

/// `semver::VersionReq::matches`: whether the version satisfies the
/// requirement. The result is named `requirement_matches(text, version)`.
/// `>=I.J.K` matches the versions at or above `I.J.K`, and a pre-release
/// version only matches a requirement that names its own `I.J.K` with a
/// pre-release, so `>=3.15.0` matches exactly the releases from 3.15.0 on.
#[verifier::external_body]
pub(crate) fn requirement_accepts(q: &VersionRequirement, v: &ParsedVersion) -> (r: bool)
    ensures
        r == requirement_matches(q.text(), v@),
        q.text() == ">=3.15.0"@ ==> (r <==> release_at_least(v@, 3, 15, 0)),
{
    q.req.matches(&v.version)
}

/// A character that opens a version range.
pub open spec fn range_marker(c: char) -> bool {
    c == '^' || c == '~' || c == '<' || c == '>' || c == '='
}

/// The number of `.` in `s`.
pub open spec fn dot_count(s: Seq<char>) -> nat
    decreases s.len(),
{
    if s.len() == 0 {
        0
    } else {
        dot_count(s.drop_last()) + if s.last() == '.' {
            1nat
        } else {
            0nat
        }
    }
}

/// The trimmed version, completed to three components: `3` becomes `3.0.0`
/// and `3.15` becomes `3.15.0`; longer texts are kept.
pub open spec fn padded_version(s: Seq<char>) -> Seq<char> {
    let d = trim(s);
    if dot_count(d) == 0 {
        d + ".0.0"@
    } else if dot_count(d) == 1 {
        d + ".0"@
    } else {
        d
    }
}

/// The version a user-written text stands for.
pub open spec fn normalized_version(s: Seq<char>) -> Result<
    (u64, u64, u64, Seq<char>, Seq<char>),
    VersionError,
> {
    let d = trim(s);
    if d.len() > 0 && range_marker(d[0]) {
        Err(VersionError::RangeNotSupported)
    } else {
        match parsed_version(padded_version(s)) {
            Some(v) => Ok(v),
            None => Err(VersionError::InvalidVersion),
        }
    }
}

/// Trims a version and completes it to three components.
pub fn pad_version(version: &str) -> (r: String)
    ensures
        r@ == padded_version(version@),
{
    let dirty = trim_str(version);
    let n = dirty.unicode_len();
    let mut dots: usize = 0;
    let mut i: usize = 0;
    while i < n
        invariant
            n == dirty@.len(),
            i <= n,
            dots == dot_count(dirty@.subrange(0, i as int)),
            dots <= i,
        decreases n - i,
    {
        assert(dirty@.subrange(0, i + 1).drop_last() =~= dirty@.subrange(0, i as int));
        if dirty.get_char(i) == '.' {
            dots = dots + 1;
        }
        i = i + 1;
    }
    assert(dirty@.subrange(0, n as int) =~= dirty@);
    let mut clean = String::from_str(dirty);
    if dots == 0 {
        clean.append(".0.0");
    } else if dots == 1 {
        clean.append(".0");
    }
    clean
}

/// Turns a build-system version written by a user into a semantic version:
/// ranges are refused, `3` and `3.15` are completed to `3.0.0` and `3.15.0`,
/// and the result must parse as a semantic version.
pub fn normalize_semver(version: &str) -> (r: Result<ParsedVersion, VersionError>)
    ensures
        match r {
            Ok(v) => normalized_version(version@) == Ok::<_, VersionError>(v@),
            Err(e) => normalized_version(version@) == Err::<
                (u64, u64, u64, Seq<char>, Seq<char>),
                VersionError,
            >(e),
        },
        r matches Ok(v) ==> SemVer::text(v@) == padded_version(version@),
        r matches Ok(v) ==> normalized_version(SemVer::text(v@)) == Ok::<_, VersionError>(v@),
        forall|major: u64, minor: u64, patch: u64|
            #[trigger] SemVer::text((major, minor, patch, seq![], seq![])) == padded_version(
                version@,
            ) ==> (r matches Ok(v) && v@ == (
                major,
                minor,
                patch,
                Seq::<char>::empty(),
                Seq::<char>::empty(),
            )),
{
    let dirty = trim_str(version);
    if dirty.unicode_len() > 0 {
        let c = dirty.get_char(0);
        if c == '^' || c == '~' || c == '<' || c == '>' || c == '=' {
            proof {
                assert forall|major: u64, minor: u64, patch: u64|
                    #[trigger] SemVer::text((major, minor, patch, seq![], seq![]))
                        != padded_version(version@) by {
                    lemma_version_text_starts_with_digit((major, minor, patch, seq![], seq![]));
                    lemma_padded_version_starts_as_trimmed(version@);
                }
            }
            return Err(VersionError::RangeNotSupported);
        }
    }
    let clean = pad_version(version);
    match parse_version(clean.as_str()) {
        Some(v) => {
            proof {
                lemma_normalizing_padded_text_changes_nothing(version@);
            }
            Ok(v)
        },
        None => Err(VersionError::InvalidVersion),
    }
}

/// The decimal digit `d`.
pub open spec fn digit_char(d: nat) -> char {
    (48 + d) as char
}

/// The decimal writing of `n`, without leading zeros.
pub open spec fn decimal_text(n: nat) -> Seq<char>
    decreases n,
{
    if n < 10 {
        seq![digit_char(n)]
    } else {
        decimal_text(n / 10).push(digit_char(n % 10))
    }
}

/// Appends the decimal writing of `n` to `out`.
pub fn push_decimal(out: &mut String, n: u64)
    ensures
        final(out)@ == old(out)@ + decimal_text(n as nat),
    decreases n,
{
    if n < 10 {
        let c = char_from_ascii((48 + n) as u32);
        push_char(out, c);
    } else {
        push_decimal(out, n / 10);
        let c = char_from_ascii((48 + n % 10) as u32);
        push_char(out, c);
    }
}

impl SemVer {
    /// The text of the version: `major.minor.patch`, then `-pre` and `+build`
    /// when those are not empty.
    pub open spec fn text(v: (u64, u64, u64, Seq<char>, Seq<char>)) -> Seq<char> {
        decimal_text(v.0 as nat) + "."@ + decimal_text(v.1 as nat) + "."@ + decimal_text(
            v.2 as nat,
        ) + (if v.3.len() > 0 {
            "-"@ + v.3
        } else {
            seq![]
        }) + (if v.4.len() > 0 {
            "+"@ + v.4
        } else {
            seq![]
        })
    }

    /// Writes the version as `semver` displays it.
    pub fn to_text(&self) -> (r: String)
        ensures
            r@ == SemVer::text(self@),
    {
        let mut out = String::new();
        push_decimal(&mut out, self.major);
        out.append(".");
        push_decimal(&mut out, self.minor);
        out.append(".");
        push_decimal(&mut out, self.patch);
        if self.pre.as_str().unicode_len() > 0 {
            out.append("-");
            out.append(self.pre.as_str());
        }
        if self.build.as_str().unicode_len() > 0 {
            out.append("+");
            out.append(self.build.as_str());
        }
        proof {
            assert(out@ =~= SemVer::text(self@));
        }
        out
    }
}

} // verus!

verus! {

proof fn lemma_dot_count_concat(a: Seq<char>, b: Seq<char>)
    ensures
        dot_count(a + b) == dot_count(a) + dot_count(b),
    decreases b.len(),
{
    if b.len() > 0 {
        lemma_dot_count_concat(a, b.drop_last());
        assert((a + b).drop_last() =~= a + b.drop_last());
        assert((a + b).last() == b.last());
    } else {
        assert(a + b =~= a);
    }
}

/// A padded version always has at least three dot-separated components.
pub proof fn lemma_padded_version_has_three_components(s: Seq<char>)
    ensures
        dot_count(padded_version(s)) >= 2,
{
    let d = trim(s);
    reveal_strlit(".0.0");
    reveal_strlit(".0");
    lemma_dot_count_concat(d, ".0.0"@);
    lemma_dot_count_concat(d, ".0"@);
    let one = seq!['.', '0'];
    let two = seq!['.', '0', '.', '0'];
    assert(".0"@ =~= one);
    assert(".0.0"@ =~= two);
    assert(one.drop_last() =~= seq!['.']);
    assert(seq!['.'].drop_last() =~= Seq::<char>::empty());
    assert(dot_count(Seq::<char>::empty()) == 0);
    assert(seq!['.'].last() == '.');
    assert(dot_count(seq!['.']) == dot_count(seq!['.'].drop_last()) + 1);
    assert(dot_count(seq!['.']) == 1);
    assert(dot_count(one) == 1);
    assert(two.drop_last() =~= seq!['.', '0', '.']);
    assert(seq!['.', '0', '.'].drop_last() =~= one);
    assert(dot_count(seq!['.', '0', '.']) == 2);
    assert(dot_count(two) == 2);
}

proof fn lemma_decimal_text_starts_with_digit(n: nat)
    ensures
        decimal_text(n).len() > 0,
        48 <= (decimal_text(n)[0] as u32) <= 57,
    decreases n,
{
    if n >= 10 {
        lemma_decimal_text_starts_with_digit(n / 10);
    }
}

/// The text of a version starts with a decimal digit.
proof fn lemma_version_text_starts_with_digit(v: (u64, u64, u64, Seq<char>, Seq<char>))
    ensures
        SemVer::text(v).len() > 0,
        48 <= (SemVer::text(v)[0] as u32) <= 57,
{
    lemma_decimal_text_starts_with_digit(v.0 as nat);
    assert(SemVer::text(v)[0] == decimal_text(v.0 as nat)[0]);
}

/// A padded version starts with the first character of the trimmed text.
proof fn lemma_padded_version_starts_as_trimmed(s: Seq<char>)
    ensures
        trim(s).len() > 0 ==> padded_version(s).len() > 0 && padded_version(s)[0] == trim(s)[0],
{
}

/// A version that normalises is normalised to the same version from its
/// padded text: padding twice changes nothing, and the padded text starts as
/// the trimmed one did.
pub proof fn lemma_normalizing_padded_text_changes_nothing(s: Seq<char>)
    requires
        normalized_version(s) is Ok,
    ensures
        normalized_version(padded_version(s)) == normalized_version(s),
{
    let d = trim(s);
    let p = padded_version(s);
    reveal_strlit(".0.0");
    reveal_strlit(".0");
    assert(".0"@ =~= seq!['.', '0']);
    assert(".0.0"@ =~= seq!['.', '0', '.', '0']);
    crate::text::lemma_trim_is_clean(s);
    assert(p.len() > 0);
    if d.len() > 0 {
        assert(p[0] == d[0]);
    } else {
        assert(p[0] == '.');
    }
    assert(!crate::text::white_space('.'));
    assert(!crate::text::white_space('0'));
    crate::text::lemma_clean_text_trims_to_itself(p);
    lemma_padded_version_has_three_components(s);
    assert(padded_version(p) == p);
}

} // verus!
