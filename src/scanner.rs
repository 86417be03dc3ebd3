//! The structural events of a markdown document that the test plan reads.
use pulldown_cmark::{CodeBlockKind, Event, Parser, Tag};
use vstd::prelude::*;

verus! {

/// One event of a markdown document, as far as code blocks are concerned.
#[derive(Debug)]
pub enum MdEvent {
    /// A fenced code block opens, with its info string.
    FenceStart(String),
    /// An indented code block opens; it carries no info string.
    IndentStart,
    /// A chunk of text.
    Text(String),
    /// A code block closes.
    CodeEnd,
    /// Any other markdown event.
    Other,
}

/// The mathematical value of an `MdEvent`.
pub enum EventModel {
    FenceStart(Seq<char>),
    IndentStart,
    Text(Seq<char>),
    CodeEnd,
    Other,
}

impl View for MdEvent {
    type V = EventModel;

    open spec fn view(&self) -> EventModel {
        match self {
            MdEvent::FenceStart(info) => EventModel::FenceStart(info@),
            MdEvent::IndentStart => EventModel::IndentStart,
            MdEvent::Text(t) => EventModel::Text(t@),
            MdEvent::CodeEnd => EventModel::CodeEnd,
            MdEvent::Other => EventModel::Other,
        }
    }
}

/// The events that the CommonMark parser yields for a document, in document order.
pub uninterp spec fn markdown_events(doc: Seq<char>) -> Seq<EventModel>;

/// The views of a sequence of events.
pub open spec fn event_views(evs: Seq<MdEvent>) -> Seq<EventModel> {
    evs.map_values(|e: MdEvent| e@)
}

/// Relies on pulldown_cmark::Parser::new and its iterator: the events of `doc` in
/// document order, which depend on the text alone.
#[verifier::external_body]
pub(crate) fn scan_markdown(doc: &str) -> (r: Vec<MdEvent>)
    ensures
        event_views(r@) == markdown_events(doc@),
{
    let mut r = Vec::new();
    for ev in Parser::new(doc) {
        r.push(match ev {
            Event::Start(Tag::CodeBlock(CodeBlockKind::Fenced(info))) => MdEvent::FenceStart(info.to_string()),
            Event::Start(Tag::CodeBlock(CodeBlockKind::Indented)) => MdEvent::IndentStart,
            Event::Text(t) => MdEvent::Text(t.to_string()),
            Event::End(Tag::CodeBlock(_)) => MdEvent::CodeEnd,
            _ => MdEvent::Other,
        });
    }
    r
}

} // verus!
