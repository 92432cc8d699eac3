//! Exact package identifiers, written `name:version`.
use vstd::prelude::*;
use crate::version::{colon_free, semver_parse, version_text, Version, VersionModel};

verus! {

/// An unambiguous reference to one published version of a package.
#[derive(Debug)]
pub struct PackageId {
    pub name: String,
    pub version: Version,
}

/// The mathematical value of a `PackageId`.
pub struct PackageIdModel {
    pub name: Seq<char>,
    pub version: VersionModel,
}

impl View for PackageId {
    type V = PackageIdModel;

    open spec fn view(&self) -> PackageIdModel {
        PackageIdModel { name: self.name@, version: self.version@ }
    }
}

/// Why a text is not a package identifier.
#[derive(Debug)]
pub enum PackageIdError {
    /// No `:` in the text, or nothing before the first one.
    InvalidFormat { text: String },
    /// What follows the first `:` is not a semantic version; `reason` says
    /// why.
    InvalidVersion { text: String, reason: String },
}

/// `i` is the position of the first `:` in `t`.
pub open spec fn is_first_colon(t: Seq<char>, i: int) -> bool {
    0 <= i < t.len() && t[i] == ':' && colon_free(t.take(i))
}

/// `t` is `name:rest` with a non-empty name before its first `:`.
pub open spec fn has_name_part(t: Seq<char>) -> bool {
    exists|i: int| is_first_colon(t, i) && i > 0
}

/// The position of the first `:` in `t` (meaningful where there is one).
pub open spec fn colon_pos(t: Seq<char>) -> int {
    choose|i: int| is_first_colon(t, i)
}

/// The identifier that `t` denotes, if any: the name is what precedes the
/// first `:`, the version what follows it.
pub open spec fn parse_spec(t: Seq<char>) -> Option<PackageIdModel> {
    if has_name_part(t) {
        let i = colon_pos(t);
        match semver_parse(t.skip(i + 1)) {
            Some(v) => Some(PackageIdModel { name: t.take(i), version: v }),
            None => None,
        }
    } else {
        None
    }
}

/// The canonical text `name:version`.
pub open spec fn id_text(id: PackageIdModel) -> Seq<char> {
    id.name + seq![':'] + version_text(id.version)
}

/// A valid identifier: a non-empty name without `:`, and a version whose
/// canonical text `semver` reads back as the same version.
pub open spec fn valid_id(id: PackageIdModel) -> bool {
    &&& id.name.len() > 0
    &&& colon_free(id.name)
    &&& semver_parse(version_text(id.version)) == Some(id.version)
}

/// A text has at most one first `:`.
pub proof fn lemma_first_colon_unique(t: Seq<char>, i: int, j: int)
    requires
        is_first_colon(t, i),
        is_first_colon(t, j),
    ensures
        i == j,
{
    if i < j {
        assert(t.take(j)[i] == ':');
    } else if j < i {
        assert(t.take(i)[j] == ':');
    }
}

/// Writing a valid identifier as text and parsing that text gives back the
/// same identifier.
pub proof fn lemma_parse_text_round_trip(id: PackageIdModel)
    requires
        valid_id(id),
    ensures
        parse_spec(id_text(id)) == Some(id),
{
    let t = id_text(id);
    let n = id.name.len() as int;
    assert(t.take(n) =~= id.name);
    assert(t.skip(n + 1) =~= version_text(id.version));
    assert(is_first_colon(t, n));
    let i = colon_pos(t);
    lemma_first_colon_unique(t, i, n);
}

/// A text quoted and escaped as a Rust string literal.
pub uninterp spec fn debug_quoted(s: Seq<char>) -> Seq<char>;

/// Relies on `str`'s `Debug` impl (through `format!`): the text quoted and
/// escaped as a Rust string literal, a function of the text alone.
#[verifier::external_body]
fn quoted(s: &str) -> (r: String)
    ensures
        r@ == debug_quoted(s@),
{
    format!("{:?}", s)
}

impl PackageId {
    /// Parses `name:version`, splitting at the first `:`.
    pub fn parse(t: &str) -> (r: Result<PackageId, PackageIdError>)
        ensures
            match r {
                Ok(id) => {
                    &&& parse_spec(t@) == Some(id@)
                    &&& valid_id(id@)
                    &&& id_text(id@) == t@
                },
                Err(PackageIdError::InvalidFormat { text }) => !has_name_part(t@) && text@ == t@,
                Err(PackageIdError::InvalidVersion { text, .. }) => {
                    &&& has_name_part(t@)
                    &&& semver_parse(t@.skip(colon_pos(t@) + 1)) is None
                    &&& text@ == t@
                },
            },
            r is Ok <==> parse_spec(t@) is Some,
    {
        let len = t.unicode_len();
        let mut i: usize = 0;
        while i < len
            invariant
                len == t@.len(),
                i <= len,
                colon_free(t@.take(i as int)),
            ensures
                i <= len,
                colon_free(t@.take(i as int)),
                i < len ==> t@[i as int] == ':',
            decreases len - i,
        {
            if t.get_char(i) == ':' {
                break;
            }
            assert(t@.take(i as int + 1) =~= t@.take(i as int).push(t@[i as int]));
            i = i + 1;
        }
        if i == len || i == 0 {
            proof {
                if has_name_part(t@) {
                    let j = choose|j: int| is_first_colon(t@, j) && j > 0;
                    if i == len {
                        assert(t@.take(i as int)[j] == ':');
                    } else {
                        assert(is_first_colon(t@, 0));
                        lemma_first_colon_unique(t@, 0, j);
                    }
                }
            }
            return Err(PackageIdError::InvalidFormat { text: String::from_str(t) });
        }
        proof {
            assert(is_first_colon(t@, i as int));
            lemma_first_colon_unique(t@, i as int, colon_pos(t@));
        }
        let name = t.substring_char(0, i);
        let rest = t.substring_char(i + 1, len);
        assert(name@ =~= t@.take(i as int));
        assert(rest@ =~= t@.skip(i as int + 1));
        match Version::parse(rest) {
            Ok(version) => {
                let id = PackageId { name: String::from_str(name), version };
                assert(t@ =~= id_text(id@));
                Ok(id)
            },
            Err(reason) => Err(
                PackageIdError::InvalidVersion { text: String::from_str(t), reason },
            ),
        }
    }

    /// The canonical text `name:version`.
    pub fn to_text(&self) -> (r: String)
        ensures
            r@ == id_text(self@),
    {
        let mut r = self.name.clone();
        r.append(":");
        let v = self.version.to_text();
        r.append(v.as_str());
        proof {
            reveal_strlit(":");
            assert(r@ =~= id_text(self@));
        }
        r
    }
}

impl PackageIdError {
    /// The message shown to a user.
    pub fn message(&self) -> (r: String)
        ensures
            match self {
                PackageIdError::InvalidFormat { text } => r@ == "invalid package specification: "@ + debug_quoted(text@)
                    + "; expected \"name:x.y.z\""@,
                PackageIdError::InvalidVersion { text, reason } => r@
                    == "invalid package specification: "@ + debug_quoted(text@)
                    + "; expected \"name:x.y.z\": "@ + reason@,
            },
    {
        match self {
            PackageIdError::InvalidFormat { text } => {
                let mut r = String::from_str("invalid package specification: ");
                let q = quoted(text.as_str());
                r.append(q.as_str());
                r.append("; expected \"name:x.y.z\"");
                r
            },
            PackageIdError::InvalidVersion { text, reason } => {
                let mut r = String::from_str("invalid package specification: ");
                let q = quoted(text.as_str());
                r.append(q.as_str());
                r.append("; expected \"name:x.y.z\": ");
                r.append(reason.as_str());
                r
            },
        }
    }
}

} // verus!
