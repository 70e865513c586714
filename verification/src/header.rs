//! Reading version, date and withdrawal out of the text of a release heading.

use crate::changelog::{ReleaseBuilder, ReleaseModel};
use crate::date::{read_date, Date, DateModel};
use crate::text::{
    chars_of, contains, find_from, followed_by, first_match, lemma_first_match_from, occurs_in, replace_all,
    replaced, slice_of, split_once, string_of, strip_prefix, trim, trimmed, unbracket, unbracketed,
    without_prefix,
};
use crate::version::{is_version, Version};
use vstd::prelude::*;

verus! {

/// What a release heading says.
pub struct HeaderModel {
    /// The text of the version, where the heading holds one.
    pub version: Option<Seq<char>>,
    pub date: Option<DateModel>,
    pub yanked: bool,
}

/// What a release heading says.
#[derive(Debug)]
pub struct Header {
    pub version: Option<Version>,
    pub date: Option<Date>,
    pub yanked: bool,
}

impl View for Header {
    type V = HeaderModel;

    open spec fn view(&self) -> HeaderModel {
        HeaderModel {
            version: crate::changelog::version_of(self.version),
            date: crate::changelog::date_of(self.date),
            yanked: self.yanked,
        }
    }
}

/// The separator between single spaces, as it parts version and date.
pub open spec fn delimiter(separator: Seq<char>) -> Seq<char> {
    " "@ + separator + " "@
}

/// The version that a part of a heading holds: the part without the word
/// `Unreleased` and without brackets round it, if that reads as a version.
pub open spec fn heading_version(part: Seq<char>) -> Option<Seq<char>> {
    let candidate = unbracketed(replaced(part, "Unreleased"@, Seq::<char>::empty()));
    if is_version(candidate) {
        Some(candidate)
    } else {
        None
    }
}

/// The date that a part of a heading holds: first read from what follows
/// the separator and a space at the start of the part, then from the part
/// as it is.
pub open spec fn heading_date(separator: Seq<char>, part: Seq<char>) -> Option<DateModel> {
    match without_prefix(part, separator + " "@) {
        Some(rest) => if read_date(rest) is Some {
            read_date(rest)
        } else {
            read_date(part)
        },
        None => read_date(part),
    }
}

/// What the text of a release heading says, `separator` standing between
/// version and date. The text is trimmed and parted at the first separator
/// between spaces. With two parts, the left one holds the version and the
/// right one the date, and the heading says withdrawn where the right part
/// holds `YANKED`; the date is read with ` [YANKED]` taken out. With one
/// part, that part is read for a version and for a date.
pub open spec fn header_fields(separator: Seq<char>, text: Seq<char>) -> HeaderModel {
    let t = trimmed(text);
    match split_once(t, delimiter(separator)) {
        Some((left, right)) => HeaderModel {
            version: heading_version(left),
            date: heading_date(separator, replaced(right, " [YANKED]"@, Seq::<char>::empty())),
            yanked: occurs_in(right, "YANKED"@),
        },
        None => HeaderModel {
            version: heading_version(t),
            date: heading_date(separator, t),
            yanked: false,
        },
    }
}

/// A release after a heading was read: what the heading says replaces what
/// was there, what it does not say stays.
pub open spec fn with_header(r: ReleaseModel, h: HeaderModel) -> ReleaseModel {
    ReleaseModel {
        version: if h.version is Some {
            h.version
        } else {
            r.version
        },
        date: if h.date is Some {
            h.date
        } else {
            r.date
        },
        yanked: h.yanked || r.yanked,
        ..r
    }
}

fn read_heading_version(part: &Vec<char>) -> (r: Option<Version>)
    ensures
        crate::changelog::version_of(r) == heading_version(part@),
{
    let empty: Vec<char> = Vec::new();
    assert(empty@ =~= Seq::<char>::empty());
    let candidate = unbracket(&replace_all(part, &chars_of("Unreleased"), &empty));
    let text = string_of(&candidate);
    Version::new(text.as_str())
}

fn read_heading_date(separator: &Vec<char>, part: &Vec<char>) -> (r: Option<Date>)
    ensures
        crate::changelog::date_of(r) == heading_date(separator@, part@),
{
    let prefix = followed_by(separator, &chars_of(" "));
    match strip_prefix(part, &prefix) {
        Some(rest) => {
            let first = Date::parse(string_of(&rest).as_str());
            if first.is_some() {
                first
            } else {
                Date::parse(string_of(part).as_str())
            }
        },
        None => Date::parse(string_of(part).as_str()),
    }
}

/// What `text`, the text of a release heading, says.
pub fn read_header(separator: &str, text: &str) -> (r: Header)
    ensures
        r@ == header_fields(separator@, text@),
{
    let sep = chars_of(separator);
    let t = trim(&chars_of(text));
    let delim = followed_by(&followed_by(&chars_of(" "), &sep), &chars_of(" "));
    match find_from(&t, &delim, 0) {
        Some(k) => {
            proof {
                lemma_first_match_from(t@, delim@, 0);
                assert(first_match(t@, delim@) == Some(k as int));
            }
            let left = slice_of(&t, 0, k);
            let right = slice_of(&t, k + delim.len(), t.len());
            assert(left@ =~= t@.take(k as int));
            assert(right@ =~= t@.skip(k + delim@.len()));
            let empty: Vec<char> = Vec::new();
            assert(empty@ =~= Seq::<char>::empty());
            let cleaned = replace_all(&right, &chars_of(" [YANKED]"), &empty);
            Header {
                version: read_heading_version(&left),
                date: read_heading_date(&sep, &cleaned),
                yanked: contains(&right, &chars_of("YANKED")),
            }
        },
        None => Header {
            version: read_heading_version(&t),
            date: read_heading_date(&sep, &t),
            yanked: false,
        },
    }
}

/// Reads a heading and sets in `release` what the heading says.
pub fn apply_header(release: &mut ReleaseBuilder, separator: &str, text: &str)
    ensures
        final(release)@ == with_header(old(release)@, header_fields(separator@, text@)),
{
    let header = read_header(separator, text);
    match header.version {
        Some(v) => {
            release.version(v);
        },
        None => {},
    }
    match header.date {
        Some(d) => {
            release.date(d);
        },
        None => {},
    }
    if header.yanked {
        release.yanked(true);
    }
}

} // verus!
