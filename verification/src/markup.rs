//! The structural events of a Markdown text, as `pulldown_cmark` reports them.

use pulldown_cmark::{Alignment, CowStr, Event, LinkType, Parser, Tag};
use vstd::prelude::*;

verus! {

/// `pulldown_cmark::LinkType`, with its variants.
#[verifier::external_type_specification]
pub struct ExLinkType(LinkType);

/// `pulldown_cmark::Alignment`, with its variants: a field of `Tag`.
#[verifier::external_type_specification]
pub struct ExAlignment(Alignment);

/// `pulldown_cmark::CowStr`, whose inside stays hidden.
#[verifier::external_type_specification]
#[verifier::external_body]
pub struct ExCowStr<'a>(CowStr<'a>);

/// `pulldown_cmark::Tag`, with its variants, which `tag_of` tells apart.
#[verifier::external_type_specification]
pub struct ExTag<'a>(Tag<'a>);

/// `pulldown_cmark::Event`, with its variants, which `event_of` tells apart.
#[verifier::external_type_specification]
pub struct ExEvent<'a>(Event<'a>);

/// How a link is written.
#[derive(Debug, Clone, Copy, PartialEq, Eq, Structural)]
pub enum LinkStyle {
    /// `[text](destination)`
    Inline,
    /// `[text][]`, the destination defined elsewhere
    Collapsed,
    /// `[text]`, the destination defined elsewhere
    Shortcut,
    Other,
}

/// What an event opens or closes.
#[derive(Debug, PartialEq)]
pub enum MarkupTag {
    Paragraph,
    /// A heading of the given level.
    Heading(i32),
    Item,
    Emphasis,
    Strong,
    Strikethrough,
    /// A link of the given style to the given destination.
    Link(LinkStyle, String),
    Other,
}

/// One structural event of a Markdown text.
#[derive(Debug, PartialEq)]
pub enum MarkupEvent {
    Start(MarkupTag),
    End(MarkupTag),
    Text(String),
    /// Inline code.
    Code(String),
    SoftBreak,
    Other,
}

pub enum TagModel {
    Paragraph,
    Heading(i32),
    Item,
    Emphasis,
    Strong,
    Strikethrough,
    Link(LinkStyle, Seq<char>),
    Other,
}

pub enum EventModel {
    Start(TagModel),
    End(TagModel),
    Text(Seq<char>),
    Code(Seq<char>),
    SoftBreak,
    Other,
}

impl View for MarkupTag {
    type V = TagModel;

    open spec fn view(&self) -> TagModel {
        match *self {
            MarkupTag::Paragraph => TagModel::Paragraph,
            MarkupTag::Heading(level) => TagModel::Heading(level),
            MarkupTag::Item => TagModel::Item,
            MarkupTag::Emphasis => TagModel::Emphasis,
            MarkupTag::Strong => TagModel::Strong,
            MarkupTag::Strikethrough => TagModel::Strikethrough,
            MarkupTag::Link(style, destination) => TagModel::Link(style, destination@),
            MarkupTag::Other => TagModel::Other,
        }
    }
}

impl View for MarkupEvent {
    type V = EventModel;

    open spec fn view(&self) -> EventModel {
        match *self {
            MarkupEvent::Start(tag) => EventModel::Start(tag@),
            MarkupEvent::End(tag) => EventModel::End(tag@),
            MarkupEvent::Text(text) => EventModel::Text(text@),
            MarkupEvent::Code(text) => EventModel::Code(text@),
            MarkupEvent::SoftBreak => EventModel::SoftBreak,
            MarkupEvent::Other => EventModel::Other,
        }
    }
}

/// The models of a list of events.
pub open spec fn event_models(events: Seq<MarkupEvent>) -> Seq<EventModel> {
    events.map_values(|e: MarkupEvent| e@)
}

/// The events that `pulldown_cmark::Parser` reports for a Markdown text, in
/// their order, each as the event of this library that stands for it.
pub uninterp spec fn markup_events(markdown: Seq<char>) -> Seq<EventModel>;

/// `ToString::to_string` on a `pulldown_cmark::CowStr`: the text it holds.
/// Nothing is claimed of the text.
#[verifier::external_body]
fn text_of_cow(s: CowStr<'_>) -> String {
    s.to_string()
}

/// The style of this library that stands for a link type of the parser.
pub open spec fn link_style_model(t: LinkType) -> LinkStyle {
    match t {
        LinkType::Inline => LinkStyle::Inline,
        LinkType::Collapsed => LinkStyle::Collapsed,
        LinkType::Shortcut => LinkStyle::Shortcut,
        _ => LinkStyle::Other,
    }
}

fn link_style_of(t: LinkType) -> (r: LinkStyle)
    ensures
        r == link_style_model(t),
{
    match t {
        LinkType::Inline => LinkStyle::Inline,
        LinkType::Collapsed => LinkStyle::Collapsed,
        LinkType::Shortcut => LinkStyle::Shortcut,
        _ => LinkStyle::Other,
    }
}

/// Whether `r` stands for the tag `t` of the parser: the same kind, the
/// same level of a heading, the style that stands for a link's type.
pub open spec fn stands_for_tag(r: TagModel, t: Tag<'_>) -> bool {
    match t {
        Tag::Paragraph => r == TagModel::Paragraph,
        Tag::Header(level) => r == TagModel::Heading(level),
        Tag::Item => r == TagModel::Item,
        Tag::Emphasis => r == TagModel::Emphasis,
        Tag::Strong => r == TagModel::Strong,
        Tag::Strikethrough => r == TagModel::Strikethrough,
        Tag::Link(style, _, _) => r is Link && r->Link_0 == link_style_model(style),
        _ => r == TagModel::Other,
    }
}

fn tag_of(t: Tag<'_>) -> (r: MarkupTag)
    ensures
        stands_for_tag(r@, t),
{
    match t {
        Tag::Paragraph => MarkupTag::Paragraph,
        Tag::Header(level) => MarkupTag::Heading(level),
        Tag::Item => MarkupTag::Item,
        Tag::Emphasis => MarkupTag::Emphasis,
        Tag::Strong => MarkupTag::Strong,
        Tag::Strikethrough => MarkupTag::Strikethrough,
        Tag::Link(style, destination, _) => MarkupTag::Link(
            link_style_of(style),
            text_of_cow(destination),
        ),
        _ => MarkupTag::Other,
    }
}

/// The event of this library that stands for an event of the parser: the
/// same kind, with the tag that stands for its tag.
fn event_of(e: Event<'_>) -> (r: MarkupEvent)
    ensures
        match e {
            Event::Start(tag) => r@ is Start && stands_for_tag(r@->Start_0, tag),
            Event::End(tag) => r@ is End && stands_for_tag(r@->End_0, tag),
            Event::Text(_) => r@ is Text,
            Event::Code(_) => r@ is Code,
            Event::SoftBreak => r@ == EventModel::SoftBreak,
            _ => r@ == EventModel::Other,
        },
{
    match e {
        Event::Start(tag) => MarkupEvent::Start(tag_of(tag)),
        Event::End(tag) => MarkupEvent::End(tag_of(tag)),
        Event::Text(text) => MarkupEvent::Text(text_of_cow(text)),
        Event::Code(text) => MarkupEvent::Code(text_of_cow(text)),
        Event::SoftBreak => MarkupEvent::SoftBreak,
        _ => MarkupEvent::Other,
    }
}

/// Runs `pulldown_cmark::Parser::new` over the text and turns each event
/// that it yields into the event of this library that stands for it. The
/// contract only gives the events their name.
#[verifier::external_body]
pub(crate) fn tokenize(markdown: &str) -> (events: Vec<MarkupEvent>)
    ensures
        event_models(events@) == markup_events(markdown@),
{
    Parser::new(markdown).map(event_of).collect()
}

} // verus!
