//! Conversion of changelogs between Markdown and a structured model.
//!
//! A changelog in the Markdown form is read into a [`changelog::Changelog`]
//! and written back in one canonical layout.

use crate::changelog::{ChangeError, Changelog, ReleaseBuilder};
use crate::header::{apply_header, header_fields, with_header};
use crate::machine::{parsed, run_from, Machine};
use crate::markup::{event_models, markup_events, tokenize, MarkupEvent};
use crate::text::{
    chars_of, contains, first_line, first_line_of, first_visible, first_visible_char, is_space,
    lemma_line_end_bounds, lemma_occurs_in, line_end, matches_at, occurs_in, same_text,
    skip_space,
};
use vstd::prelude::*;

pub mod changelog;
pub mod date;
pub mod grouping;
pub mod header;
pub mod links;
pub mod machine;
pub mod markup;
pub mod record;
pub mod text;
pub mod version;
pub mod wrap;

verus! {

/// The form in which a changelog is written.
#[derive(Debug, Clone, Copy, PartialEq, Eq, Structural)]
pub enum ChangelogFormat {
    Markdown,
    Json,
    Yaml,
}

#[derive(Debug)]
pub enum ChangelogParserError {
    /// The text starts like none of the three forms.
    UnableToDetermineFormat,
    /// A release or the changelog could not be built; the text names the
    /// field that was missing.
    ErrorBuildingRelease(String),
}

impl ChangelogParserError {
    /// The error in words.
    pub fn message(&self) -> (r: String)
        ensures
            r@ == match *self {
                ChangelogParserError::UnableToDetermineFormat =>
                    "unable to determine file format from contents"@,
                ChangelogParserError::ErrorBuildingRelease(_) => "error building release"@,
            },
    {
        match self {
            ChangelogParserError::UnableToDetermineFormat => {
                "unable to determine file format from contents".to_owned()
            },
            ChangelogParserError::ErrorBuildingRelease(_) => "error building release".to_owned(),
        }
    }
}

/// Why a text could not be read as a changelog.
#[derive(Debug)]
pub enum ParseError {
    Parser(ChangelogParserError),
    Change(ChangeError),
}

impl ParseError {
    /// The error in words.
    pub fn message(&self) -> (r: String)
        ensures
            r@ == match *self {
                ParseError::Parser(e) => match e {
                    ChangelogParserError::UnableToDetermineFormat =>
                        "unable to determine file format from contents"@,
                    ChangelogParserError::ErrorBuildingRelease(_) => "error building release"@,
                },
                ParseError::Change(e) => "invalid change type specified: "@ + e.label(),
            },
    {
        match self {
            ParseError::Parser(e) => e.message(),
            ParseError::Change(e) => e.message(),
        }
    }
}

/// What came of a text: the changelog that it holds in the Markdown form, or
/// the text itself for the decoder of the form that it is written in.
#[derive(Debug)]
pub enum ParsedBuffer {
    Changelog(Changelog),
    Json(String),
    Yaml(String),
}

/// The form that a text is written in, told by how it starts: a first
/// visible character `#` tells Markdown and `{` tells the object form;
/// else a first line that is `---` or holds `title:` tells the key-value
/// form. A text that starts otherwise, or shows nothing, tells no form.
pub open spec fn detected_format(buffer: Seq<char>) -> Option<ChangelogFormat> {
    match first_visible(buffer) {
        Some(c) => if c == '{' {
            Some(ChangelogFormat::Json)
        } else if c == '#' {
            Some(ChangelogFormat::Markdown)
        } else if first_line(buffer) == "---"@ || occurs_in(first_line(buffer), "title:"@) {
            Some(ChangelogFormat::Yaml)
        } else {
            None
        },
        None => None,
    }
}

/// A text that starts with `{` is in the object form.
pub proof fn lemma_brace_starts_object_form(buffer: Seq<char>)
    requires
        buffer.len() > 0,
        buffer[0] == '{',
    ensures
        detected_format(buffer) == Some(ChangelogFormat::Json),
{
    assert(!is_space(buffer[0]));
    assert(skip_space(buffer, 0) == 0);
}

/// A text that starts with `#` is in the Markdown form.
pub proof fn lemma_hash_starts_markdown(buffer: Seq<char>)
    requires
        buffer.len() > 0,
        buffer[0] == '#',
    ensures
        detected_format(buffer) == Some(ChangelogFormat::Markdown),
{
    assert(!is_space(buffer[0]));
    assert(skip_space(buffer, 0) == 0);
}

/// A text whose first line is `---` is in the key-value form.
pub proof fn lemma_rule_starts_key_value_form(buffer: Seq<char>)
    requires
        first_line(buffer) == "---"@,
    ensures
        detected_format(buffer) == Some(ChangelogFormat::Yaml),
{
    reveal_strlit("---");
    lemma_line_end_bounds(buffer, 0);
    assert(first_line(buffer).len() == 3);
    assert(line_end(buffer, 0) == 3);
    assert(first_line(buffer)[0] == '-');
    assert(buffer[0] == '-');
    assert(!is_space(buffer[0]));
    assert(skip_space(buffer, 0) == 0);
}

/// A text that starts with a letter and nowhere holds `title:` is in none of
/// the three forms.
pub proof fn lemma_letter_starts_no_form(buffer: Seq<char>)
    requires
        buffer.len() > 0,
        ('a' <= buffer[0] <= 'z') || ('A' <= buffer[0] <= 'Z'),
        !occurs_in(buffer, "title:"@),
    ensures
        detected_format(buffer) is None,
{
    reveal_strlit("---");
    let line = first_line(buffer);
    assert(!is_space(buffer[0]));
    assert(skip_space(buffer, 0) == 0);
    lemma_line_end_bounds(buffer, 1);
    assert(line_end(buffer, 0) == line_end(buffer, 1));
    assert(line[0] == buffer[0]);
    assert(line != "---"@);
    lemma_occurs_in(line, "title:"@);
    lemma_occurs_in(buffer, "title:"@);
    if occurs_in(line, "title:"@) {
        let j = choose|j: int| matches_at(line, "title:"@, j);
        assert(buffer.subrange(j, j + "title:"@.len()) =~= line.subrange(j, j + "title:"@.len()));
        assert(matches_at(buffer, "title:"@, j));
    }
}

/// What a parser was made with.
pub struct Settings {
    /// What stands between version and date in a release heading.
    pub separator: Seq<char>,
    /// The column at which the releases break their descriptions.
    pub wrap: Option<usize>,
}

/// The reader of changelogs.
#[derive(Debug)]
pub struct ChangelogParser {
    separator: String,
    wrap: Option<usize>,
}

impl View for ChangelogParser {
    type V = Settings;

    closed spec fn view(&self) -> Settings {
        Settings { separator: self.separator@, wrap: self.wrap }
    }
}

impl ChangelogParser {
    pub fn new(separator: String, wrap: Option<usize>) -> (parser: Self)
        ensures
            parser@ == (Settings { separator: separator@, wrap }),
    {
        Self { separator, wrap }
    }

    /// Reads a text in whichever form it is written. A text in the Markdown
    /// form is read into its changelog; one in another form comes back as
    /// it is, named by its form, for that form's decoder.
    pub fn parse_buffer(&self, buffer: String) -> (r: Result<ParsedBuffer, ParseError>)
        ensures
            match detected_format(buffer@) {
                Some(ChangelogFormat::Markdown) => match parsed(
                    self@.separator,
                    self@.wrap,
                    markup_events(buffer@),
                ) {
                    Ok(m) => r matches Ok(ParsedBuffer::Changelog(c)) && c@ == m,
                    Err(label) => r matches Err(ParseError::Change(e)) && e.label() == label,
                },
                Some(ChangelogFormat::Json) => r == Ok::<ParsedBuffer, ParseError>(
                    ParsedBuffer::Json(buffer),
                ),
                Some(ChangelogFormat::Yaml) => r == Ok::<ParsedBuffer, ParseError>(
                    ParsedBuffer::Yaml(buffer),
                ),
                None => r matches Err(
                    ParseError::Parser(ChangelogParserError::UnableToDetermineFormat),
                ),
            },
    {
        match Self::get_format_from_buffer(buffer.clone()) {
            Ok(format) => match format {
                ChangelogFormat::Markdown => match self.parse_markdown(buffer) {
                    Ok(changelog) => Ok(ParsedBuffer::Changelog(changelog)),
                    Err(e) => Err(e),
                },
                ChangelogFormat::Json => Ok(ParsedBuffer::Json(buffer)),
                ChangelogFormat::Yaml => Ok(ParsedBuffer::Yaml(buffer)),
            },
            Err(_) => Err(ParseError::Parser(ChangelogParserError::UnableToDetermineFormat)),
        }
    }

    /// Reads a text in the Markdown form: the changelog that its events
    /// describe, or the label of a sub-heading that names no category.
    pub fn parse_markdown(&self, markdown: String) -> (r: Result<Changelog, ParseError>)
        ensures
            match parsed(self@.separator, self@.wrap, markup_events(markdown@)) {
                Ok(m) => r is Ok && r->Ok_0@ == m,
                Err(label) => r matches Err(ParseError::Change(e)) && e.label() == label,
            },
    {
        let events = tokenize(markdown.as_str());
        self.parse_events(&events)
    }

    /// Reads the events of a document in the Markdown form: the changelog
    /// that they describe, or the label of a sub-heading that names no
    /// category, met when a change under it was complete.
    pub fn parse_events(&self, events: &Vec<MarkupEvent>) -> (r: Result<Changelog, ParseError>)
        ensures
            match parsed(self@.separator, self@.wrap, event_models(events@)) {
                Ok(m) => r is Ok && r->Ok_0@ == m,
                Err(label) => r matches Err(ParseError::Change(e)) && e.label() == label,
            },
    {
        let ghost all = event_models(events@);
        let mut machine = Machine::new(self.separator.clone(), self.wrap);
        let ghost start = machine@;
        let mut i: usize = 0;
        while i < events.len()
            invariant
                i <= events.len(),
                all == event_models(events@),
                start == crate::machine::initial(self@.separator, self@.wrap),
                run_from(machine@, all, i as int) == run_from(start, all, 0),
            decreases events.len() - i,
        {
            assert(all[i as int] == events@[i as int]@);
            let ghost before = machine@;
            match machine.step(&events[i]) {
                Ok(()) => {},
                Err(e) => {
                    assert(run_from(before, all, i as int) == Err::<
                        crate::machine::MachineModel,
                        Seq<char>,
                    >(e.label()));
                    return Err(ParseError::Change(e));
                },
            }
            i += 1;
        }
        match machine.finish() {
            Ok(changelog) => Ok(changelog),
            Err(field) => Err(ParseError::Parser(ChangelogParserError::ErrorBuildingRelease(field))),
        }
    }

    /// Reads what `accumulator` holds as a release heading, sets in
    /// `release` what the heading says, and empties the accumulator.
    pub fn parse_release_header(&self, release: &mut ReleaseBuilder, accumulator: &mut String)
        ensures
            final(release)@ == with_header(
                old(release)@,
                header_fields(self@.separator, old(accumulator)@),
            ),
            final(accumulator)@ == Seq::<char>::empty(),
    {
        apply_header(release, self.separator.as_str(), accumulator.as_str());
        *accumulator = String::new();
    }

    /// The form that a text is written in, told by how it starts.
    pub fn get_format_from_buffer(buffer: String) -> (r: Result<
        ChangelogFormat,
        ChangelogParserError,
    >)
        ensures
            match detected_format(buffer@) {
                Some(format) => r == Ok::<ChangelogFormat, ChangelogParserError>(format),
                None => r matches Err(ChangelogParserError::UnableToDetermineFormat),
            },
    {
        let text = chars_of(buffer.as_str());
        match first_visible_char(&text) {
            Some(c) => {
                if c == '{' {
                    Ok(ChangelogFormat::Json)
                } else if c == '#' {
                    Ok(ChangelogFormat::Markdown)
                } else {
                    let line = first_line_of(&text);
                    if same_text(&line, &chars_of("---")) || contains(&line, &chars_of("title:")) {
                        Ok(ChangelogFormat::Yaml)
                    } else {
                        Err(ChangelogParserError::UnableToDetermineFormat)
                    }
                }
            },
            None => Err(ChangelogParserError::UnableToDetermineFormat),
        }
    }
}

} // verus!
