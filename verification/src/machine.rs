//! The state machine that turns the events of a Markdown changelog into a
//! changelog.

use crate::changelog::{
    blank_release, category_of_label, lemma_models_push, lemma_release_models_push,
    release_models, Change, ChangeError, ChangeModel, Changelog, ChangelogBuilder, ChangelogModel,
    Release, ReleaseBuilder, ReleaseModel,
};
use crate::grouping::models;
use crate::header::{apply_header, header_fields, with_header};
use crate::markup::{EventModel, LinkStyle, MarkupEvent, MarkupTag, TagModel};
use vstd::prelude::*;

verus! {

/// The part of the document that the machine is in.
#[derive(Debug)]
pub enum ChangelogSection {
    /// Before the title.
    Preamble,
    Title,
    Description,
    ReleaseHeader,
    ChangesetHeader,
    /// The changes under the sub-heading with this label.
    Changeset(String),
}

pub enum SectionModel {
    Preamble,
    Title,
    Description,
    ReleaseHeader,
    ChangesetHeader,
    Changeset(Seq<char>),
}

impl View for ChangelogSection {
    type V = SectionModel;

    open spec fn view(&self) -> SectionModel {
        match *self {
            ChangelogSection::Preamble => SectionModel::Preamble,
            ChangelogSection::Title => SectionModel::Title,
            ChangelogSection::Description => SectionModel::Description,
            ChangelogSection::ReleaseHeader => SectionModel::ReleaseHeader,
            ChangelogSection::ChangesetHeader => SectionModel::ChangesetHeader,
            ChangelogSection::Changeset(label) => SectionModel::Changeset(label@),
        }
    }
}

/// The state of the machine.
pub struct MachineModel {
    /// What stands between version and date in a release heading.
    pub separator: Seq<char>,
    /// The column at which the releases break their descriptions.
    pub wrap: Option<usize>,
    pub section: SectionModel,
    pub title: Seq<char>,
    pub description: Seq<char>,
    /// The definitions of the collapsed links of the description.
    pub description_links: Seq<char>,
    /// The releases that are complete.
    pub releases: Seq<ReleaseModel>,
    /// The release under construction.
    pub release: ReleaseModel,
    /// The changes of the release under construction.
    pub changeset: Seq<ChangeModel>,
    /// The text of the part under construction.
    pub accumulator: Seq<char>,
    /// The definition under construction of a collapsed link.
    pub link_accumulator: Seq<char>,
}

/// The state before the first event.
pub open spec fn initial(separator: Seq<char>, wrap: Option<usize>) -> MachineModel {
    MachineModel {
        separator,
        wrap,
        section: SectionModel::Preamble,
        title: Seq::empty(),
        description: Seq::empty(),
        description_links: Seq::empty(),
        releases: Seq::empty(),
        release: blank_release(),
        changeset: Seq::empty(),
        accumulator: Seq::empty(),
        link_accumulator: Seq::empty(),
    }
}

/// Whether a release is under construction: a release heading was opened
/// and no later one has closed the release.
pub open spec fn is_pending(s: MachineModel) -> bool {
    s.section is ReleaseHeader || s.section is Changeset
}

/// The state after what the accumulator holds was read as a release heading.
pub open spec fn header_read(s: MachineModel) -> MachineModel {
    MachineModel {
        release: with_header(s.release, header_fields(s.separator, s.accumulator)),
        accumulator: Seq::empty(),
        ..s
    }
}

/// The state after the release under construction was completed: its
/// heading is read from the accumulator, it takes the changes gathered and
/// the machine's separator and column, and joins the complete releases.
pub open spec fn release_closed(s: MachineModel) -> MachineModel {
    let read = header_read(s);
    MachineModel {
        releases: s.releases.push(
            ReleaseModel {
                changes: s.changeset,
                separator: s.separator,
                wrap: s.wrap,
                ..read.release
            },
        ),
        release: blank_release(),
        changeset: Seq::empty(),
        ..read
    }
}

/// The state with `text` added to the accumulator.
pub open spec fn with_text(s: MachineModel, text: Seq<char>) -> MachineModel {
    MachineModel { accumulator: s.accumulator + text, ..s }
}

/// The state after a heading of the given level was opened.
pub open spec fn heading_opened(s: MachineModel, level: i32) -> MachineModel {
    if level == 1 {
        MachineModel { section: SectionModel::Title, ..s }
    } else if level == 2 {
        let closed = match s.section {
            SectionModel::Description => MachineModel {
                description: s.accumulator,
                accumulator: Seq::empty(),
                ..s
            },
            SectionModel::Changeset(_) => release_closed(s),
            SectionModel::ReleaseHeader => release_closed(s),
            _ => s,
        };
        MachineModel { section: SectionModel::ReleaseHeader, ..closed }
    } else if level == 3 {
        MachineModel { section: SectionModel::ChangesetHeader, ..s }
    } else {
        s
    }
}

/// The state after a link was opened.
pub open spec fn link_opened(s: MachineModel, style: LinkStyle, destination: Seq<char>) -> MachineModel {
    match style {
        LinkStyle::Inline => with_text(s, "["@),
        LinkStyle::Collapsed => MachineModel { link_accumulator: "["@, ..with_text(s, "["@) },
        LinkStyle::Shortcut => MachineModel {
            release: ReleaseModel { link: Some(destination), ..s.release },
            ..s
        },
        LinkStyle::Other => s,
    }
}

/// The state after a link was closed.
pub open spec fn link_closed(s: MachineModel, style: LinkStyle, destination: Seq<char>) -> MachineModel {
    match style {
        LinkStyle::Inline => with_text(s, "]("@ + destination + ")"@),
        LinkStyle::Collapsed => MachineModel {
            description_links: s.description_links + (s.link_accumulator + "]: "@ + destination
                + "\n"@),
            link_accumulator: Seq::empty(),
            ..with_text(s, "][]"@)
        },
        _ => s,
    }
}

/// The state after a list item was closed: under a sub-heading the text
/// gathered becomes a change of the category that the sub-heading names;
/// the label of the sub-heading where it names none.
pub open spec fn item_closed(s: MachineModel) -> Result<MachineModel, Seq<char>> {
    match s.section {
        SectionModel::Changeset(label) => match category_of_label(label) {
            Some(category) => Ok(
                MachineModel {
                    changeset: s.changeset.push(
                        ChangeModel { category, description: s.accumulator },
                    ),
                    accumulator: Seq::empty(),
                    ..s
                },
            ),
            None => Err(label),
        },
        _ => Ok(s),
    }
}

/// The state after a plain text.
pub open spec fn text_read(s: MachineModel, text: Seq<char>) -> MachineModel {
    match s.section {
        SectionModel::Title => MachineModel { title: text, ..s },
        SectionModel::Description => MachineModel {
            link_accumulator: if s.link_accumulator.len() > 0 {
                s.link_accumulator + text
            } else {
                s.link_accumulator
            },
            ..with_text(s, text)
        },
        SectionModel::ReleaseHeader => with_text(s, text),
        SectionModel::ChangesetHeader => MachineModel {
            section: SectionModel::Changeset(text),
            ..header_read(s)
        },
        SectionModel::Changeset(_) => with_text(s, text),
        SectionModel::Preamble => s,
    }
}

/// The state after one event, or the label of a sub-heading that names no
/// category, met when a change under it was complete.
pub open spec fn step(s: MachineModel, e: EventModel) -> Result<MachineModel, Seq<char>> {
    match e {
        EventModel::Start(TagModel::Heading(level)) => Ok(heading_opened(s, level)),
        EventModel::End(TagModel::Heading(level)) => if level == 1 {
            Ok(MachineModel { section: SectionModel::Description, ..s })
        } else {
            Ok(s)
        },
        EventModel::Start(TagModel::Link(style, destination)) => Ok(
            link_opened(s, style, destination),
        ),
        EventModel::End(TagModel::Link(style, destination)) => Ok(
            link_closed(s, style, destination),
        ),
        EventModel::End(TagModel::Item) => item_closed(s),
        EventModel::SoftBreak => Ok(with_text(s, "\n"@)),
        EventModel::End(TagModel::Paragraph) => Ok(with_text(s, "\n\n"@)),
        EventModel::Code(text) => Ok(with_text(s, "`"@ + text + "`"@)),
        EventModel::Start(TagModel::Strong) => Ok(with_text(s, "**"@)),
        EventModel::End(TagModel::Strong) => Ok(with_text(s, "**"@)),
        EventModel::Start(TagModel::Emphasis) => Ok(with_text(s, "_"@)),
        EventModel::End(TagModel::Emphasis) => Ok(with_text(s, "_"@)),
        EventModel::Start(TagModel::Strikethrough) => Ok(with_text(s, "~~"@)),
        EventModel::End(TagModel::Strikethrough) => Ok(with_text(s, "~~"@)),
        EventModel::Text(text) => Ok(text_read(s, text)),
        _ => Ok(s),
    }
}

/// The state after the events from the `i`-th on, or the label at which
/// the first of them failed.
pub open spec fn run_from(s: MachineModel, events: Seq<EventModel>, i: int) -> Result<
    MachineModel,
    Seq<char>,
>
    decreases events.len() - i,
{
    if i < 0 || i >= events.len() {
        Ok(s)
    } else {
        match step(s, events[i]) {
            Ok(next) => run_from(next, events, i + 1),
            Err(label) => Err(label),
        }
    }
}

/// The changelog that the machine holds once the events have ended: a
/// release under construction is completed, and the definitions of the
/// description's collapsed links, if there are any, close the description.
pub open spec fn finished(s: MachineModel) -> ChangelogModel {
    let last = if is_pending(s) {
        release_closed(s)
    } else {
        s
    };
    ChangelogModel {
        title: last.title,
        description: if last.description_links.len() > 0 {
            last.description + last.description_links + "\n"@
        } else {
            last.description
        },
        releases: last.releases,
    }
}

/// The changelog that a sequence of events describes, or the label of a
/// sub-heading that names no category, met when a change under it was
/// complete.
pub open spec fn parsed(separator: Seq<char>, wrap: Option<usize>, events: Seq<EventModel>) -> Result<
    ChangelogModel,
    Seq<char>,
> {
    match run_from(initial(separator, wrap), events, 0) {
        Ok(s) => Ok(finished(s)),
        Err(label) => Err(label),
    }
}

/// The machine: it takes the events of a document one by one and hands out
/// the changelog when they have ended.
#[derive(Debug)]
pub struct Machine {
    separator: String,
    wrap: Option<usize>,
    section: ChangelogSection,
    title: String,
    description: String,
    description_links: String,
    releases: Vec<Release>,
    release: ReleaseBuilder,
    changeset: Vec<Change>,
    accumulator: String,
    link_accumulator: String,
}

impl View for Machine {
    type V = MachineModel;

    closed spec fn view(&self) -> MachineModel {
        MachineModel {
            separator: self.separator@,
            wrap: self.wrap,
            section: self.section@,
            title: self.title@,
            description: self.description@,
            description_links: self.description_links@,
            releases: release_models(self.releases@),
            release: self.release@,
            changeset: models(self.changeset@),
            accumulator: self.accumulator@,
            link_accumulator: self.link_accumulator@,
        }
    }
}

impl Machine {
    /// A machine before the first event.
    pub fn new(separator: String, wrap: Option<usize>) -> (m: Machine)
        ensures
            m@ == initial(separator@, wrap),
    {
        let m = Machine {
            separator,
            wrap,
            section: ChangelogSection::Preamble,
            title: String::new(),
            description: String::new(),
            description_links: String::new(),
            releases: Vec::new(),
            release: ReleaseBuilder::default(),
            changeset: Vec::new(),
            accumulator: String::new(),
            link_accumulator: String::new(),
        };
        assert(m@.releases =~= Seq::<ReleaseModel>::empty());
        assert(m@.changeset =~= Seq::<ChangeModel>::empty());
        m
    }

    fn read_header(&mut self)
        ensures
            final(self)@ == header_read(old(self)@),
    {
        apply_header(&mut self.release, self.separator.as_str(), self.accumulator.as_str());
        self.accumulator = String::new();
    }

    fn close_release(&mut self)
        ensures
            final(self)@ == release_closed(old(self)@),
    {
        apply_header(&mut self.release, self.separator.as_str(), self.accumulator.as_str());
        self.accumulator = String::new();
        let mut changes: Vec<Change> = Vec::new();
        std::mem::swap(&mut changes, &mut self.changeset);
        self.release.changes(changes);
        self.release.separator(self.separator.clone());
        self.release.wrap(self.wrap);
        let built = self.release.build();
        match built {
            Ok(release) => {
                proof {
                    lemma_release_models_push(self.releases@, release);
                }
                self.releases.push(release);
            },
            Err(_) => {},
        }
        self.release = ReleaseBuilder::default();
        assert(models(self.changeset@) =~= Seq::<ChangeModel>::empty());
    }

    fn open_heading(&mut self, level: i32)
        ensures
            final(self)@ == heading_opened(old(self)@, level),
    {
        if level == 1 {
            self.section = ChangelogSection::Title;
        } else if level == 2 {
            match &self.section {
                ChangelogSection::Description => {
                    let mut text = String::new();
                    std::mem::swap(&mut text, &mut self.accumulator);
                    self.description = text;
                },
                ChangelogSection::Changeset(_) => {
                    self.close_release();
                },
                ChangelogSection::ReleaseHeader => {
                    self.close_release();
                },
                _ => {},
            }
            self.section = ChangelogSection::ReleaseHeader;
        } else if level == 3 {
            self.section = ChangelogSection::ChangesetHeader;
        }
    }

    fn open_link(&mut self, style: LinkStyle, destination: &String)
        ensures
            final(self)@ == link_opened(old(self)@, style, destination@),
    {
        match style {
            LinkStyle::Inline => {
                self.accumulator.append("[");
            },
            LinkStyle::Collapsed => {
                self.accumulator.append("[");
                self.link_accumulator = "[".to_owned();
            },
            LinkStyle::Shortcut => {
                self.release.link(destination.clone());
            },
            LinkStyle::Other => {},
        }
    }

    fn close_link(&mut self, style: LinkStyle, destination: &String)
        ensures
            final(self)@ == link_closed(old(self)@, style, destination@),
    {
        match style {
            LinkStyle::Inline => {
                let ghost before = self.accumulator@;
                self.accumulator.append("](");
                self.accumulator.append(destination.as_str());
                self.accumulator.append(")");
                assert(self.accumulator@ =~= before + ("]("@ + destination@ + ")"@));
            },
            LinkStyle::Collapsed => {
                self.accumulator.append("][]");
                let ghost definition = self.link_accumulator@;
                self.link_accumulator.append("]: ");
                self.link_accumulator.append(destination.as_str());
                self.link_accumulator.append("\n");
                assert(self.link_accumulator@ =~= definition + "]: "@ + destination@ + "\n"@);
                self.description_links.append(self.link_accumulator.as_str());
                self.link_accumulator = String::new();
            },
            _ => {},
        }
    }

    fn close_item(&mut self) -> (r: Result<(), ChangeError>)
        ensures
            match item_closed(old(self)@) {
                Ok(next) => r is Ok && final(self)@ == next,
                Err(label) => r is Err && r->Err_0.label() == label,
            },
    {
        match &self.section {
            ChangelogSection::Changeset(label) => {
                let mut text = String::new();
                std::mem::swap(&mut text, &mut self.accumulator);
                match Change::new(label.as_str(), text) {
                    Ok(change) => {
                        proof {
                            lemma_models_push(self.changeset@, change);
                        }
                        self.changeset.push(change);
                        Ok(())
                    },
                    Err(e) => Err(e),
                }
            },
            _ => Ok(()),
        }
    }

    fn read_text(&mut self, text: &String)
        ensures
            final(self)@ == text_read(old(self)@, text@),
    {
        match &self.section {
            ChangelogSection::Title => {
                self.title = text.clone();
            },
            ChangelogSection::Description => {
                self.accumulator.append(text.as_str());
                if !self.link_accumulator.as_str().is_empty() {
                    self.link_accumulator.append(text.as_str());
                }
            },
            ChangelogSection::ReleaseHeader => {
                self.accumulator.append(text.as_str());
            },
            ChangelogSection::ChangesetHeader => {
                self.read_header();
                self.section = ChangelogSection::Changeset(text.clone());
            },
            ChangelogSection::Changeset(_) => {
                self.accumulator.append(text.as_str());
            },
            ChangelogSection::Preamble => {},
        }
    }

    /// Takes the next event of the document. Fails, with the label, where
    /// the event completes a change under a sub-heading whose label names no
    /// category.
    pub fn step(&mut self, event: &MarkupEvent) -> (r: Result<(), ChangeError>)
        ensures
            match step(old(self)@, event@) {
                Ok(next) => r is Ok && final(self)@ == next,
                Err(label) => r is Err && r->Err_0.label() == label,
            },
    {
        match event {
            MarkupEvent::Start(MarkupTag::Heading(level)) => {
                self.open_heading(*level);
                Ok(())
            },
            MarkupEvent::End(MarkupTag::Heading(level)) => {
                if *level == 1 {
                    self.section = ChangelogSection::Description;
                }
                Ok(())
            },
            MarkupEvent::Start(MarkupTag::Link(style, destination)) => {
                self.open_link(*style, destination);
                Ok(())
            },
            MarkupEvent::End(MarkupTag::Link(style, destination)) => {
                self.close_link(*style, destination);
                Ok(())
            },
            MarkupEvent::End(MarkupTag::Item) => self.close_item(),
            MarkupEvent::SoftBreak => {
                self.accumulator.append("\n");
                Ok(())
            },
            MarkupEvent::End(MarkupTag::Paragraph) => {
                self.accumulator.append("\n\n");
                Ok(())
            },
            MarkupEvent::Code(text) => {
                let ghost before = self.accumulator@;
                self.accumulator.append("`");
                self.accumulator.append(text.as_str());
                self.accumulator.append("`");
                assert(self.accumulator@ =~= before + ("`"@ + text@ + "`"@));
                Ok(())
            },
            MarkupEvent::Start(MarkupTag::Strong) => {
                self.accumulator.append("**");
                Ok(())
            },
            MarkupEvent::End(MarkupTag::Strong) => {
                self.accumulator.append("**");
                Ok(())
            },
            MarkupEvent::Start(MarkupTag::Emphasis) => {
                self.accumulator.append("_");
                Ok(())
            },
            MarkupEvent::End(MarkupTag::Emphasis) => {
                self.accumulator.append("_");
                Ok(())
            },
            MarkupEvent::Start(MarkupTag::Strikethrough) => {
                self.accumulator.append("~~");
                Ok(())
            },
            MarkupEvent::End(MarkupTag::Strikethrough) => {
                self.accumulator.append("~~");
                Ok(())
            },
            MarkupEvent::Text(text) => {
                self.read_text(text);
                Ok(())
            },
            _ => Ok(()),
        }
    }

    /// The changelog, once the events have ended.
    pub fn finish(self) -> (r: Result<Changelog, String>)
        ensures
            r is Ok,
            r->Ok_0@ == finished(self@),
    {
        let mut last = self;
        let pending = match &last.section {
            ChangelogSection::ReleaseHeader => true,
            ChangelogSection::Changeset(_) => true,
            _ => false,
        };
        if pending {
            last.close_release();
        }
        let mut description = last.description;
        if !last.description_links.as_str().is_empty() {
            description.append(last.description_links.as_str());
            description.append("\n");
        }
        let mut builder = ChangelogBuilder::default();
        builder.title(last.title);
        builder.description(description);
        builder.releases(last.releases);
        builder.build()
    }
}

} // verus!
