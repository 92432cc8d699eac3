//! Semantic versions held as plain values, their canonical text, and parsing
//! through the `semver` crate.
use vstd::prelude::*;

verus! {

/// A semantic version: three numeric components, an optional pre-release
/// part and optional build metadata (both empty when absent).
#[derive(Debug)]
pub struct Version {
    pub major: u64,
    pub minor: u64,
    pub patch: u64,
    pub pre: String,
    pub build: String,
}

/// The mathematical value of a `Version`.
pub struct VersionModel {
    pub major: nat,
    pub minor: nat,
    pub patch: nat,
    pub pre: Seq<char>,
    pub build: Seq<char>,
}

impl View for Version {
    type V = VersionModel;

    open spec fn view(&self) -> VersionModel {
        VersionModel {
            major: self.major as nat,
            minor: self.minor as nat,
            patch: self.patch as nat,
            pre: self.pre@,
            build: self.build@,
        }
    }
}

/// The character of a decimal digit.
pub open spec fn digit_char(d: nat) -> char {
    if d == 0 { '0' }
    else if d == 1 { '1' }
    else if d == 2 { '2' }
    else if d == 3 { '3' }
    else if d == 4 { '4' }
    else if d == 5 { '5' }
    else if d == 6 { '6' }
    else if d == 7 { '7' }
    else if d == 8 { '8' }
    else { '9' }
}

/// The decimal text of `n`, without sign or leading zeros.
pub open spec fn decimal(n: nat) -> Seq<char>
    decreases n,
{
    if n < 10 {
        seq![digit_char(n)]
    } else {
        decimal(n / 10).push(digit_char(n % 10))
    }
}

/// `s` holds no `:`.
pub open spec fn colon_free(s: Seq<char>) -> bool {
    forall|i: int| 0 <= i < s.len() ==> s[i] != ':'
}

/// The canonical text of a version: `major.minor.patch`, then `-pre` when
/// there is a pre-release part and `+build` when there is build metadata.
pub open spec fn version_text(v: VersionModel) -> Seq<char> {
    let core = decimal(v.major) + seq!['.'] + decimal(v.minor) + seq!['.'] + decimal(v.patch);
    let with_pre = if v.pre.len() == 0 { core } else { core + seq!['-'] + v.pre };
    if v.build.len() == 0 { with_pre } else { with_pre + seq!['+'] + v.build }
}

/// What `semver` makes of a text: the version it denotes, or `None` where
/// the text is not a semantic version.
pub uninterp spec fn semver_parse(s: Seq<char>) -> Option<VersionModel>;

/// Relies on `semver::Version::from_str`: it accepts exactly the texts that
/// `semver_parse` maps to a version, and since it rejects leading zeros,
/// surrounding text and empty pre-release or build parts, the canonical text
/// of what it returns is the text it was given. On failure the error's message
/// is returned.
#[verifier::external_body]
fn semver_from_str(s: &str) -> (r: Result<Version, String>)
    ensures
        match r {
            Ok(v) => semver_parse(s@) == Some(v@) && version_text(v@) == s@,
            Err(_) => semver_parse(s@) is None,
        },
{
    match s.parse::<semver::Version>() {
        Ok(v) => Ok(Version {
            major: v.major,
            minor: v.minor,
            patch: v.patch,
            pre: v.pre.as_str().to_string(),
            build: v.build.as_str().to_string(),
        }),
        Err(e) => Err(e.to_string()),
    }
}

/// The text of one decimal digit.
fn digit_text(d: u64) -> (r: String)
    requires
        d < 10,
    ensures
        r@ == seq![digit_char(d as nat)],
{
    let t: &str = if d == 0 { "0" } else if d == 1 { "1" } else if d == 2 { "2" } else if d
        == 3 { "3" } else if d == 4 { "4" } else if d == 5 { "5" } else if d == 6 { "6" } else if d
        == 7 { "7" } else if d == 8 { "8" } else { "9" };
    proof {
        reveal_strlit("0");
        reveal_strlit("1");
        reveal_strlit("2");
        reveal_strlit("3");
        reveal_strlit("4");
        reveal_strlit("5");
        reveal_strlit("6");
        reveal_strlit("7");
        reveal_strlit("8");
        reveal_strlit("9");
    }
    let r = String::from_str(t);
    assert(r@ =~= seq![digit_char(d as nat)]);
    r
}

/// The decimal text of `n`.
pub(crate) fn u64_text(n: u64) -> (r: String)
    ensures
        r@ == decimal(n as nat),
{
    let mut rest: u64 = n;
    let mut r = digit_text(rest % 10);
    rest = rest / 10;
    while rest > 0
        invariant
            rest > 0 ==> decimal(n as nat) == decimal(rest as nat) + r@,
            rest == 0 ==> decimal(n as nat) == r@,
        decreases rest,
    {
        let d = digit_text(rest % 10);
        let ghost old_r = r@;
        r = d.concat(r.as_str());
        proof {
            if rest >= 10 {
                assert(decimal(rest as nat) == decimal((rest / 10) as nat).push(digit_char((rest % 10) as nat)));
                assert(decimal(rest as nat) + old_r =~= decimal((rest / 10) as nat) + r@);
            } else {
                assert(decimal(rest as nat) + old_r =~= r@);
            }
        }
        rest = rest / 10;
    }
    r
}

impl Version {
    /// Parses a semantic version; on failure, returns why.
    pub fn parse(s: &str) -> (r: Result<Version, String>)
        ensures
            match r {
                Ok(v) => semver_parse(s@) == Some(v@) && version_text(v@) == s@,
                Err(_) => semver_parse(s@) is None,
            },
    {
        semver_from_str(s)
    }

    /// The canonical text of this version.
    pub fn to_text(&self) -> (r: String)
        ensures
            r@ == version_text(self@),
    {
        let mut r = u64_text(self.major);
        r.append(".");
        let minor = u64_text(self.minor);
        r.append(minor.as_str());
        r.append(".");
        let patch = u64_text(self.patch);
        r.append(patch.as_str());
        proof {
            reveal_strlit(".");
            assert(r@ =~= decimal(self.major as nat) + seq!['.'] + decimal(self.minor as nat)
                + seq!['.'] + decimal(self.patch as nat));
        }
        if !self.pre.as_str().is_empty() {
            r.append("-");
            r.append(self.pre.as_str());
            proof { reveal_strlit("-"); }
        }
        if !self.build.as_str().is_empty() {
            r.append("+");
            r.append(self.build.as_str());
            proof { reveal_strlit("+"); }
        }
        proof {
            assert(r@ =~= version_text(self@));
        }
        r
    }
}

} // verus!
