//! The changelog as the structured forms hold it: versions and dates as
//! texts. Unlike a heading of the Markdown form, a record is read strictly:
//! a version or a date that does not read is an error.

use crate::changelog::{
    copy_changes, lemma_release_models_push, release_models, text_of, version_of, Change,
    ChangeModel, Changelog, ChangelogBuilder, ChangelogModel, Release, ReleaseBuilder,
    ReleaseModel,
};
use crate::date::{read_date, shown_date, Date};
use crate::grouping::models;
use crate::version::{is_version, shown_version, Version};
use vstd::prelude::*;

verus! {

/// A release as a structured form holds it.
#[derive(Debug)]
pub struct ReleaseRecord {
    pub version: Option<String>,
    pub link: Option<String>,
    /// The date as year, month and day with hyphens between.
    pub date: Option<String>,
    pub changes: Vec<Change>,
    pub yanked: bool,
}

/// A changelog as a structured form holds it.
#[derive(Debug)]
pub struct ChangelogRecord {
    pub title: String,
    pub description: String,
    pub releases: Vec<ReleaseRecord>,
}

/// Why a record is no release.
#[derive(Debug)]
pub enum RecordError {
    /// The text does not read as a version.
    InvalidVersion(String),
    /// The text does not read as a date.
    InvalidDate(String),
    /// The changelog could not be built; the text names the missing field.
    ErrorBuildingRelease(String),
}

pub struct ReleaseRecordModel {
    pub version: Option<Seq<char>>,
    pub link: Option<Seq<char>>,
    pub date: Option<Seq<char>>,
    pub changes: Seq<ChangeModel>,
    pub yanked: bool,
}

pub struct ChangelogRecordModel {
    pub title: Seq<char>,
    pub description: Seq<char>,
    pub releases: Seq<ReleaseRecordModel>,
}

pub enum RecordErrorModel {
    InvalidVersion(Seq<char>),
    InvalidDate(Seq<char>),
    ErrorBuildingRelease(Seq<char>),
}

impl View for ReleaseRecord {
    type V = ReleaseRecordModel;

    open spec fn view(&self) -> ReleaseRecordModel {
        ReleaseRecordModel {
            version: text_of(self.version),
            link: text_of(self.link),
            date: text_of(self.date),
            changes: models(self.changes@),
            yanked: self.yanked,
        }
    }
}

/// The models of a list of records.
pub open spec fn record_models(records: Seq<ReleaseRecord>) -> Seq<ReleaseRecordModel> {
    records.map_values(|r: ReleaseRecord| r@)
}

impl View for ChangelogRecord {
    type V = ChangelogRecordModel;

    open spec fn view(&self) -> ChangelogRecordModel {
        ChangelogRecordModel {
            title: self.title@,
            description: self.description@,
            releases: record_models(self.releases@),
        }
    }
}

impl View for RecordError {
    type V = RecordErrorModel;

    open spec fn view(&self) -> RecordErrorModel {
        match *self {
            RecordError::InvalidVersion(t) => RecordErrorModel::InvalidVersion(t@),
            RecordError::InvalidDate(t) => RecordErrorModel::InvalidDate(t@),
            RecordError::ErrorBuildingRelease(t) => RecordErrorModel::ErrorBuildingRelease(t@),
        }
    }
}

/// The record of a release: its version and its date as they are shown.
pub open spec fn record_of(r: ReleaseModel) -> ReleaseRecordModel {
    ReleaseRecordModel {
        version: match r.version {
            Some(v) => Some(shown_version(v)),
            None => None,
        },
        link: r.link,
        date: match r.date {
            Some(d) => Some(shown_date(d)),
            None => None,
        },
        changes: r.changes,
        yanked: r.yanked,
    }
}

/// The release that a record holds, with the separator and the column
/// given; the text that does not read, where the version or else the date
/// does not.
pub open spec fn release_of(
    rec: ReleaseRecordModel,
    separator: Seq<char>,
    wrap: Option<usize>,
) -> Result<ReleaseModel, RecordErrorModel> {
    if rec.version is Some && !is_version(rec.version->0) {
        Err(RecordErrorModel::InvalidVersion(rec.version->0))
    } else if rec.date is Some && read_date(rec.date->0) is None {
        Err(RecordErrorModel::InvalidDate(rec.date->0))
    } else {
        Ok(
            ReleaseModel {
                version: rec.version,
                link: rec.link,
                date: match rec.date {
                    Some(t) => read_date(t),
                    None => None,
                },
                changes: rec.changes,
                yanked: rec.yanked,
                separator,
                wrap,
            },
        )
    }
}

/// The releases that the records from the `i`-th on hold, or the error of
/// the first that holds none.
pub open spec fn releases_from(
    records: Seq<ReleaseRecordModel>,
    separator: Seq<char>,
    wrap: Option<usize>,
    i: int,
) -> Result<Seq<ReleaseModel>, RecordErrorModel>
    decreases records.len() - i,
{
    if i < 0 || i >= records.len() {
        Ok(Seq::empty())
    } else {
        match release_of(records[i], separator, wrap) {
            Ok(r) => match releases_from(records, separator, wrap, i + 1) {
                Ok(rest) => Ok(seq![r] + rest),
                Err(e) => Err(e),
            },
            Err(e) => Err(e),
        }
    }
}

/// The changelog that a record holds.
pub open spec fn changelog_of(
    rec: ChangelogRecordModel,
    separator: Seq<char>,
    wrap: Option<usize>,
) -> Result<ChangelogModel, RecordErrorModel> {
    match releases_from(rec.releases, separator, wrap, 0) {
        Ok(releases) => Ok(
            ChangelogModel { title: rec.title, description: rec.description, releases },
        ),
        Err(e) => Err(e),
    }
}

impl RecordError {
    /// The error in words.
    pub fn message(&self) -> (r: String)
        ensures
            r@ == match self@ {
                RecordErrorModel::InvalidVersion(t) => "invalid version: "@ + t,
                RecordErrorModel::InvalidDate(t) => "invalid date: "@ + t,
                RecordErrorModel::ErrorBuildingRelease(_) => "error building release"@,
            },
    {
        let mut out = String::new();
        match self {
            RecordError::InvalidVersion(t) => {
                out.append("invalid version: ");
                out.append(t.as_str());
            },
            RecordError::InvalidDate(t) => {
                out.append("invalid date: ");
                out.append(t.as_str());
            },
            RecordError::ErrorBuildingRelease(_) => {
                out.append("error building release");
            },
        }
        out
    }
}

impl ReleaseRecord {
    /// The record of a release.
    pub fn from_release(release: &Release) -> (rec: ReleaseRecord)
        ensures
            rec@ == record_of(release@),
    {
        ReleaseRecord {
            version: match release.version() {
                Some(v) => Some(v.text()),
                None => None,
            },
            link: match release.link() {
                Some(l) => Some(l.clone()),
                None => None,
            },
            date: match release.date() {
                Some(d) => Some(d.text()),
                None => None,
            },
            changes: copy_changes(release.changes()),
            yanked: *release.yanked(),
        }
    }

    /// The release that the record holds, with the separator and the column
    /// given.
    pub fn to_release(&self, separator: &str, wrap: Option<usize>) -> (r: Result<
        Release,
        RecordError,
    >)
        ensures
            match release_of(self@, separator@, wrap) {
                Ok(m) => r is Ok && r->Ok_0@ == m,
                Err(e) => r is Err && r->Err_0@ == e,
            },
    {
        let mut builder = ReleaseBuilder::default();
        match &self.version {
            Some(text) => match Version::new(text.as_str()) {
                Some(version) => {
                    builder.version(version);
                },
                None => {
                    return Err(RecordError::InvalidVersion(text.clone()));
                },
            },
            None => {},
        }
        match &self.date {
            Some(text) => match Date::parse(text.as_str()) {
                Some(date) => {
                    builder.date(date);
                },
                None => {
                    return Err(RecordError::InvalidDate(text.clone()));
                },
            },
            None => {},
        }
        match &self.link {
            Some(link) => {
                builder.link(link.clone());
            },
            None => {},
        }
        builder.changes(copy_changes(&self.changes));
        builder.yanked(self.yanked);
        builder.separator(separator.to_owned());
        builder.wrap(wrap);
        match builder.build() {
            Ok(release) => Ok(release),
            Err(field) => Err(RecordError::ErrorBuildingRelease(field)),
        }
    }
}

impl ChangelogRecord {
    /// The record of a changelog.
    pub fn from_changelog(changelog: &Changelog) -> (rec: ChangelogRecord)
        ensures
            rec@.title == changelog@.title,
            rec@.description == changelog@.description,
            rec@.releases == changelog@.releases.map_values(|r: ReleaseModel| record_of(r)),
    {
        let releases = changelog.releases();
        let ghost rm = release_models(releases@);
        let mut records: Vec<ReleaseRecord> = Vec::new();
        let mut i: usize = 0;
        while i < releases.len()
            invariant
                i <= releases.len(),
                rm == release_models(releases@),
                record_models(records@) =~= rm.take(i as int).map_values(
                    |r: ReleaseModel| record_of(r),
                ),
            decreases releases.len() - i,
        {
            assert(rm[i as int] == releases@[i as int]@);
            let record = ReleaseRecord::from_release(&releases[i]);
            proof {
                assert(record_models(records@.push(record)) =~= record_models(records@).push(
                    record@,
                ));
                assert(rm.take(i + 1).map_values(|r: ReleaseModel| record_of(r)) =~= rm.take(
                    i as int,
                ).map_values(|r: ReleaseModel| record_of(r)).push(record_of(rm[i as int])));
            }
            records.push(record);
            i += 1;
        }
        assert(rm.take(releases@.len() as int) =~= rm);
        ChangelogRecord {
            title: changelog.title().clone(),
            description: changelog.description().clone(),
            releases: records,
        }
    }

    /// The changelog that the record holds, its releases with the separator
    /// and the column given.
    pub fn to_changelog(&self, separator: &str, wrap: Option<usize>) -> (r: Result<
        Changelog,
        RecordError,
    >)
        ensures
            match changelog_of(self@, separator@, wrap) {
                Ok(m) => r is Ok && r->Ok_0@ == m,
                Err(e) => r is Err && r->Err_0@ == e,
            },
    {
        let ghost records = record_models(self.releases@);
        let mut releases: Vec<Release> = Vec::new();
        let mut i: usize = 0;
        while i < self.releases.len()
            invariant
                i <= self.releases.len(),
                records == record_models(self.releases@),
                match releases_from(records, separator@, wrap, i as int) {
                    Ok(rest) => releases_from(records, separator@, wrap, 0) == Ok::<
                        Seq<ReleaseModel>,
                        RecordErrorModel,
                    >(release_models(releases@) + rest),
                    Err(e) => releases_from(records, separator@, wrap, 0) == Err::<
                        Seq<ReleaseModel>,
                        RecordErrorModel,
                    >(e),
                },
            decreases self.releases.len() - i,
        {
            assert(records[i as int] == self.releases@[i as int]@);
            match self.releases[i].to_release(separator, wrap) {
                Ok(release) => {
                    proof {
                        lemma_release_models_push(releases@, release);
                        match releases_from(records, separator@, wrap, i + 1) {
                            Ok(rest) => {
                                assert(release_models(releases@).push(release@) + rest
                                    =~= release_models(releases@) + (seq![release@] + rest));
                            },
                            Err(_) => {},
                        }
                    }
                    releases.push(release);
                },
                Err(e) => {
                    return Err(e);
                },
            }
            i += 1;
        }
        assert(release_models(releases@) + Seq::<ReleaseModel>::empty() =~= release_models(
            releases@,
        ));
        let mut builder = ChangelogBuilder::default();
        builder.title(self.title.clone());
        builder.description(self.description.clone());
        builder.releases(releases);
        match builder.build() {
            Ok(changelog) => Ok(changelog),
            Err(field) => Err(RecordError::ErrorBuildingRelease(field)),
        }
    }
}

} // verus!
