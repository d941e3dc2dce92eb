use vstd::prelude::*;

verus! {

/// One event of the stream, as the tokenizer produces it and as the
/// normalizer hands it on.
#[derive(Clone, Debug, PartialEq, Eq)]
pub enum XmlEvent {
    /// The start of the document.
    StartDocument,
    /// The end of the document.
    EndDocument,
    /// A processing instruction, with its target name and its data.
    ProcessingInstruction { name: String, data: String },
    /// An opening tag.
    StartElement { name: String },
    /// A closing tag.
    EndElement { name: String },
    /// A CDATA block.
    CData(String),
    /// A comment.
    Comment(String),
    /// Character data.
    Characters(String),
    /// A run of whitespace that stands on its own between markup.
    Whitespace(String),
}

/// What an [`XmlEvent`] is, with its strings seen as sequences of characters.
pub enum EventModel {
    StartDocument,
    EndDocument,
    ProcessingInstruction { name: Seq<char>, data: Seq<char> },
    StartElement { name: Seq<char> },
    EndElement { name: Seq<char> },
    CData(Seq<char>),
    Comment(Seq<char>),
    Characters(Seq<char>),
    Whitespace(Seq<char>),
}

impl View for XmlEvent {
    type V = EventModel;

    open spec fn view(&self) -> EventModel {
        match self {
            XmlEvent::StartDocument => EventModel::StartDocument,
            XmlEvent::EndDocument => EventModel::EndDocument,
            XmlEvent::ProcessingInstruction { name, data } => EventModel::ProcessingInstruction {
                name: name@,
                data: data@,
            },
            XmlEvent::StartElement { name } => EventModel::StartElement { name: name@ },
            XmlEvent::EndElement { name } => EventModel::EndElement { name: name@ },
            XmlEvent::CData(t) => EventModel::CData(t@),
            XmlEvent::Comment(t) => EventModel::Comment(t@),
            XmlEvent::Characters(t) => EventModel::Characters(t@),
            XmlEvent::Whitespace(t) => EventModel::Whitespace(t@),
        }
    }
}

/// The models of a sequence of events, in order.
pub open spec fn models(s: Seq<XmlEvent>) -> Seq<EventModel> {
    s.map_values(|e: XmlEvent| e@)
}

} // verus!
