//! Version identifiers, read and ordered by the `versions` crate.

use vstd::prelude::*;

verus! {

/// The text that `versions::Version` displays for the version that it reads
/// from `s`; `None` where it reads none from `s`.
pub uninterp spec fn version_text(s: Seq<char>) -> Option<Seq<char>>;

/// How `versions::Version` orders the versions that it reads from `a` and
/// `b`: -1, 0 or 1 as the first is less than, equal to or greater than the
/// second; `None` where it reads no version from one of them.
pub uninterp spec fn version_order(a: Seq<char>, b: Seq<char>) -> Option<i8>;

/// Whether what `versions::Version` reads from `a` equals what it reads from
/// `b`, all fields compared.
pub uninterp spec fn version_same(a: Seq<char>, b: Seq<char>) -> bool;

/// Calls `versions::Version::new` on `s` and, where it returns a version,
/// that version's `Display`. The contract only gives the outcome its name.
#[verifier::external_body]
fn display_version(s: &str) -> (r: Option<String>)
    ensures
        r is Some == version_text(s@) is Some,
        r matches Some(t) ==> version_text(s@) == Some(t@),
{
    match versions::Version::new(s) {
        Some(v) => Some(v.to_string()),
        None => None,
    }
}

/// Calls `versions::Version::new` on both texts and `Ord::cmp` on the two
/// versions, giving -1, 0 or 1 for less, equal or greater. The contract only
/// gives the outcome its name.
#[verifier::external_body]
fn order_versions(a: &str, b: &str) -> (r: Option<i8>)
    ensures
        r == version_order(a@, b@),
{
    match (versions::Version::new(a), versions::Version::new(b)) {
        (Some(x), Some(y)) => Some(
            match x.cmp(&y) {
                std::cmp::Ordering::Less => -1i8,
                std::cmp::Ordering::Equal => 0i8,
                std::cmp::Ordering::Greater => 1i8,
            },
        ),
        _ => None,
    }
}

/// Calls `versions::Version::new` on both texts and compares the results
/// with `==`. The contract only gives the outcome its name.
#[verifier::external_body]
fn equal_versions(a: &str, b: &str) -> (r: bool)
    ensures
        r == version_same(a@, b@),
{
    versions::Version::new(a) == versions::Version::new(b)
}

/// Whether `s` reads as a version.
pub open spec fn is_version(s: Seq<char>) -> bool {
    version_text(s) is Some
}

/// The text shown for the version written as `s`.
pub open spec fn shown_version(s: Seq<char>) -> Seq<char> {
    version_text(s).unwrap()
}

/// Whether the version written as `a` comes before the one written as `b`.
pub open spec fn version_below(a: Seq<char>, b: Seq<char>) -> bool {
    version_order(a, b) == Some(-1i8)
}

/// A version identifier: a text that reads as a version.
#[derive(Debug)]
pub struct Version {
    raw: String,
}

impl View for Version {
    type V = Seq<char>;

    /// The text that the version was read from.
    closed spec fn view(&self) -> Seq<char> {
        self.raw@
    }
}

impl Clone for Version {
    fn clone(&self) -> (r: Self)
        ensures
            r@ == self@,
    {
        proof {
            use_type_invariant(self);
        }
        Version { raw: self.raw.clone() }
    }
}

impl Version {
    #[verifier::type_invariant]
    spec fn reads_as_version(&self) -> bool {
        is_version(self.raw@)
    }

    /// The version written as `text`, if `text` reads as one.
    pub fn new(text: &str) -> (r: Option<Version>)
        ensures
            r is Some == is_version(text@),
            r matches Some(v) ==> v@ == text@,
    {
        match display_version(text) {
            Some(_) => Some(Version { raw: text.to_owned() }),
            None => None,
        }
    }

    /// The text that the version was read from.
    pub fn as_str(&self) -> (r: &str)
        ensures
            r@ == self@,
            is_version(r@),
    {
        proof {
            use_type_invariant(self);
        }
        self.raw.as_str()
    }

    /// The version as it is shown in a heading or a link.
    pub fn text(&self) -> (r: String)
        ensures
            r@ == shown_version(self@),
            is_version(self@),
    {
        proof {
            use_type_invariant(self);
        }
        match display_version(self.raw.as_str()) {
            Some(t) => t,
            None => String::new(),
        }
    }

    /// Whether `self` comes before `other`.
    pub fn below(&self, other: &Version) -> (r: bool)
        ensures
            r == version_below(self@, other@),
    {
        match order_versions(self.raw.as_str(), other.raw.as_str()) {
            Some(o) => o == -1i8,
            None => false,
        }
    }

    /// Whether `self` and `other` are the same version.
    pub fn same(&self, other: &Version) -> (r: bool)
        ensures
            r == version_same(self@, other@),
    {
        equal_versions(self.raw.as_str(), other.raw.as_str())
    }
}

} // verus!
