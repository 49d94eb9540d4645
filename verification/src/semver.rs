//! `X.Y.Z` versions: parsing, ordering and display.

use vstd::prelude::*;
use std::cmp::Ordering;

use crate::strings;

verus! {

/// A version `major.minor.patch`.
#[derive(Debug, Clone, Copy, PartialEq, Eq, Structural, Ord)]
pub struct Version {
    pub major: u64,
    pub minor: u64,
    pub patch: u64,
}

/// The three numbers of `s`, if `s` is exactly three unsigned decimal
/// numbers separated by dots.
pub open spec fn parse_version(s: Seq<char>) -> Option<Version> {
    let parts = strings::split_on(s, '.');
    if parts.len() == 3 && strings::parse_u64_spec(parts[0]) is Some && strings::parse_u64_spec(parts[1]) is Some
        && strings::parse_u64_spec(parts[2]) is Some {
        Some(
            Version {
                major: strings::parse_u64_spec(parts[0])->0,
                minor: strings::parse_u64_spec(parts[1])->0,
                patch: strings::parse_u64_spec(parts[2])->0,
            },
        )
    } else {
        None
    }
}

/// Versions are ordered by major, then minor, then patch number.
pub open spec fn version_order(a: Version, b: Version) -> Ordering {
    if a.major < b.major {
        Ordering::Less
    } else if a.major > b.major {
        Ordering::Greater
    } else if a.minor < b.minor {
        Ordering::Less
    } else if a.minor > b.minor {
        Ordering::Greater
    } else if a.patch < b.patch {
        Ordering::Less
    } else if a.patch > b.patch {
        Ordering::Greater
    } else {
        Ordering::Equal
    }
}

/// `a` comes strictly before `b`.
pub open spec fn version_lt(a: Version, b: Version) -> bool {
    version_order(a, b) == Ordering::Less
}

/// The display text `vX.Y.Z`.
pub open spec fn version_text(v: Version) -> Seq<char> {
    seq!['v'] + version_numbers_text(v)
}

/// The text `X.Y.Z`.
pub open spec fn version_numbers_text(v: Version) -> Seq<char> {
    strings::decimal(v.major as nat) + seq!['.'] + strings::decimal(v.minor as nat) + seq!['.']
        + strings::decimal(v.patch as nat)
}

impl Version {
    /// Reads `X.Y.Z`; anything else gives `None`.
    pub fn parse(s: &str) -> (r: Option<Version>)
        ensures
            r == parse_version(s@),
    {
        let chars = strings::chars_of(s);
        let parts = strings::split_chars(&chars, '.');
        if parts.len() != 3 {
            return None;
        }
        let major = strings::parse_u64(&parts[0]);
        let minor = strings::parse_u64(&parts[1]);
        let patch = strings::parse_u64(&parts[2]);
        match (major, minor, patch) {
            (Some(major), Some(minor), Some(patch)) => Some(Version { major, minor, patch }),
            _ => None,
        }
    }

    /// The text `vX.Y.Z`.
    pub fn to_string(&self) -> (s: String)
        ensures
            s@ == version_text(*self),
    {
        let mut v: Vec<char> = Vec::new();
        v.push('v');
        strings::push_decimal(&mut v, self.major);
        v.push('.');
        strings::push_decimal(&mut v, self.minor);
        v.push('.');
        strings::push_decimal(&mut v, self.patch);
        assert(v@ =~= version_text(*self));
        strings::string_from(&v)
    }
}

impl PartialOrd for Version {
    fn partial_cmp(&self, other: &Version) -> (r: Option<Ordering>) {
        if self.major < other.major {
            Some(Ordering::Less)
        } else if self.major > other.major {
            Some(Ordering::Greater)
        } else if self.minor < other.minor {
            Some(Ordering::Less)
        } else if self.minor > other.minor {
            Some(Ordering::Greater)
        } else if self.patch < other.patch {
            Some(Ordering::Less)
        } else if self.patch > other.patch {
            Some(Ordering::Greater)
        } else {
            Some(Ordering::Equal)
        }
    }
}

impl vstd::std_specs::cmp::PartialOrdSpecImpl for Version {
    open spec fn obeys_partial_cmp_spec() -> bool {
        true
    }

    open spec fn partial_cmp_spec(&self, other: &Version) -> Option<Ordering> {
        Some(version_order(*self, *other))
    }
}

/// Law: versions are totally ordered, by major, then minor, then patch number.
pub proof fn law_version_order(a: Version, b: Version, c: Version)
    ensures
        version_order(a, b) == Ordering::Equal <==> a == b,
        version_order(a, b) == Ordering::Less <==> version_order(b, a) == Ordering::Greater,
        version_lt(a, b) && version_lt(b, c) ==> version_lt(a, c),
        version_lt(a, b) <==> (a.major < b.major || (a.major == b.major && (a.minor < b.minor || (a.minor
            == b.minor && a.patch < b.patch)))),
{
}

/// Law: the numbers of a displayed version (`vX.Y.Z` without the `v`) parse
/// back to the same version.
pub proof fn law_display_parses_back(v: Version)
    ensures
        parse_version(version_numbers_text(v)) == Some(v),
        version_text(v) == seq!['v'] + version_numbers_text(v),
{
    let d1 = strings::decimal(v.major as nat);
    let d2 = strings::decimal(v.minor as nat);
    let d3 = strings::decimal(v.patch as nat);
    strings::lemma_parse_decimal(v.major as nat, u64::MAX as nat);
    strings::lemma_parse_decimal(v.minor as nat, u64::MAX as nat);
    strings::lemma_parse_decimal(v.patch as nat, u64::MAX as nat);
    let e = Seq::<char>::empty();
    strings::lemma_split_append_plain(e, d1, '.');
    assert(e + d1 =~= d1);
    assert(strings::split_on(e, '.') =~= seq![e]);
    assert(strings::split_on(d1, '.') =~= seq![d1]);
    strings::lemma_split_append_sep(d1, '.');
    strings::lemma_split_append_plain(d1.push('.'), d2, '.');
    strings::lemma_split_append_sep(d1.push('.') + d2, '.');
    strings::lemma_split_append_plain((d1.push('.') + d2).push('.'), d3, '.');
    assert(version_numbers_text(v) =~= (d1.push('.') + d2).push('.') + d3);
    assert(strings::split_on(version_numbers_text(v), '.') =~= seq![d1, d2, d3]);
}

} // verus!
