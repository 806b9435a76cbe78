use vstd::prelude::*;

verus! {

/// One structural event of the input stream, as the tokenizer hands it out:
/// the start of an element (with its tag name), the decoded text content of a
/// leaf element, the close of an element (with its tag name), any other
/// markup construct (ignored by the scanner), or the end of the stream.
pub enum Event {
    Start(String),
    Text(String),
    End(String),
    Other,
    Eof,
}

/// The mathematical value of one event of the tokenization of a byte
/// stream. The first five forms are the values of `Event`. The last two
/// never reach the scanner as values: `Undecodable` stands for an event
/// whose tag name or text content cannot be decoded (the tokenizer refuses
/// it), and `Broken` stands for the point at which the reader reports
/// ill-formed input; it ends the tokenization.
pub enum EventView {
    Start(Seq<char>),
    Text(Seq<char>),
    End(Seq<char>),
    Other,
    Eof,
    Undecodable,
    Broken,
}

/// Whether an event ends the tokenization: a clean end of stream or the
/// point where the reader reports ill-formed input.
pub open spec fn terminal_event(ev: EventView) -> bool {
    ev is Eof || ev is Broken
}

impl View for Event {
    type V = EventView;

    open spec fn view(&self) -> EventView {
        match self {
            Event::Start(n) => EventView::Start(n@),
            Event::Text(t) => EventView::Text(t@),
            Event::End(n) => EventView::End(n@),
            Event::Other => EventView::Other,
            Event::Eof => EventView::Eof,
        }
    }
}

impl DeepView for Event {
    type V = EventView;

    open spec fn deep_view(&self) -> EventView {
        self.view()
    }
}

/// Tag name of the element that carries a page's title.
pub open spec fn title_tag() -> Seq<char> {
    "title"@
}

/// Tag name of the element that carries a page's namespace identifier.
pub open spec fn ns_tag() -> Seq<char> {
    "ns"@
}

/// Tag name of the element that carries a page's body text.
pub open spec fn body_tag() -> Seq<char> {
    "text"@
}

/// Tag name of the element that encloses one page record.
pub open spec fn page_tag() -> Seq<char> {
    "page"@
}

/// Compares a tag name from the stream with an expected tag name.
pub fn tag_eq(name: &String, tag: &str) -> (r: bool)
    ensures
        r == (name@ == tag@),
{
    *name == String::from_str(tag)
}

} // verus!
