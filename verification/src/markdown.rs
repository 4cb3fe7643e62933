use vstd::prelude::*;
use pulldown_cmark::{CowStr, Event as CmarkEvent, Tag as CmarkTag};

verus! {

/// The markdown elements that a note distinguishes.
/// Images, tables and footnote definitions are all `Other`: a note shows none of them.
pub enum MdTag {
    Paragraph,
    Heading(u32),
    BlockQuote,
    CodeBlock,
    List(Option<u64>),
    Item,
    Emphasis,
    Strong,
    Strikethrough,
    /// A link, with its destination url.
    Link(String),
    Other,
}

/// One event of a markdown parse, as the notes use it.
/// Footnote references and task list markers are `Other`.
pub enum MdEvent {
    Start(MdTag),
    End(MdTag),
    Text(String),
    Code(String),
    Html(String),
    SoftBreak,
    HardBreak,
    Rule,
    Other,
}

#[verifier::external_type_specification]
pub struct ExCmarkEvent<'a>(pulldown_cmark::Event<'a>);

#[verifier::external_type_specification]
pub struct ExCmarkTag<'a>(pulldown_cmark::Tag<'a>);

#[verifier::external_type_specification]
pub struct ExCowStr<'a>(pulldown_cmark::CowStr<'a>);

#[verifier::external_type_specification]
#[verifier::external_body]
pub struct ExInlineStr(pulldown_cmark::InlineStr);

#[verifier::external_type_specification]
#[verifier::external_body]
pub struct ExCodeBlockKind<'a>(pulldown_cmark::CodeBlockKind<'a>);

#[verifier::external_type_specification]
#[verifier::external_body]
pub struct ExLinkType(pulldown_cmark::LinkType);

#[verifier::external_type_specification]
#[verifier::external_body]
pub struct ExAlignment(pulldown_cmark::Alignment);

/// The events that pulldown-cmark's `Parser::new_ext` yields for a text, with the
/// strikethrough extension enabled, each converted to an `MdEvent`.
pub uninterp spec fn cmark_events(input: Seq<char>) -> Seq<MdEvent>;

/// `t` is the text of a `pulldown_cmark::CowStr`, as far as it can be read here: the
/// string that a borrowed or boxed one holds. The bytes of an inlined one are
/// private to pulldown-cmark, so of those nothing is said.
pub open spec fn cow_text_is(s: CowStr, t: Seq<char>) -> bool {
    match s {
        CowStr::Borrowed(b) => t == b@,
        CowStr::Boxed(b) => t == b@,
        CowStr::Inlined(_) => true,
    }
}

/// The text of a `pulldown_cmark::CowStr`, as a `String`, through its `Display`
/// (which writes the `str` that it derefs to: the borrowed or boxed string, or the
/// inlined bytes). The text of an inlined one is left unsaid (see `cow_text_is`).
#[verifier::external_body]
fn cow_str_string(s: CowStr) -> (r: String)
    ensures
        cow_text_is(s, r@),
{
    s.to_string()
}

/// `r` is the note's own form of the tag `tag`: the same kind, with the same level,
/// start number or (as far as it can be read) url; `Other` for the kinds a note
/// does not show.
pub open spec fn tag_converted(tag: CmarkTag, r: MdTag) -> bool {
    match tag {
        CmarkTag::Paragraph => r == MdTag::Paragraph,
        CmarkTag::Heading(level) => r == MdTag::Heading(level),
        CmarkTag::BlockQuote => r == MdTag::BlockQuote,
        CmarkTag::CodeBlock(_) => r == MdTag::CodeBlock,
        CmarkTag::List(start) => r == MdTag::List(start),
        CmarkTag::Item => r == MdTag::Item,
        CmarkTag::Emphasis => r == MdTag::Emphasis,
        CmarkTag::Strong => r == MdTag::Strong,
        CmarkTag::Strikethrough => r == MdTag::Strikethrough,
        CmarkTag::Link(_, url, _) => r matches MdTag::Link(u) && cow_text_is(url, u@),
        _ => r == MdTag::Other,
    }
}

/// `r` is the note's own form of the event `event`: the same kind, with its tag
/// converted and, as far as it can be read, the same text; `Other` for footnote
/// references and task list markers.
pub open spec fn event_converted(event: CmarkEvent, r: MdEvent) -> bool {
    match event {
        CmarkEvent::Start(tag) => r matches MdEvent::Start(t) && tag_converted(tag, t),
        CmarkEvent::End(tag) => r matches MdEvent::End(t) && tag_converted(tag, t),
        CmarkEvent::Text(s) => r matches MdEvent::Text(t) && cow_text_is(s, t@),
        CmarkEvent::Code(s) => r matches MdEvent::Code(t) && cow_text_is(s, t@),
        CmarkEvent::Html(s) => r matches MdEvent::Html(t) && cow_text_is(s, t@),
        CmarkEvent::SoftBreak => r == MdEvent::SoftBreak,
        CmarkEvent::HardBreak => r == MdEvent::HardBreak,
        CmarkEvent::Rule => r == MdEvent::Rule,
        _ => r == MdEvent::Other,
    }
}

/// Converts a `pulldown_cmark::Tag` into the note's own tag, variant by variant.
fn md_tag_of(tag: CmarkTag) -> (r: MdTag)
    ensures
        tag_converted(tag, r),
{
    match tag {
        CmarkTag::Paragraph => MdTag::Paragraph,
        CmarkTag::Heading(level) => MdTag::Heading(level),
        CmarkTag::BlockQuote => MdTag::BlockQuote,
        CmarkTag::CodeBlock(_) => MdTag::CodeBlock,
        CmarkTag::List(start) => MdTag::List(start),
        CmarkTag::Item => MdTag::Item,
        CmarkTag::Emphasis => MdTag::Emphasis,
        CmarkTag::Strong => MdTag::Strong,
        CmarkTag::Strikethrough => MdTag::Strikethrough,
        CmarkTag::Link(_, url, _) => MdTag::Link(cow_str_string(url)),
        _ => MdTag::Other,
    }
}

/// Converts a `pulldown_cmark::Event` into the note's own event, variant by variant.
fn md_event_of(event: CmarkEvent) -> (r: MdEvent)
    ensures
        event_converted(event, r),
{
    match event {
        CmarkEvent::Start(tag) => MdEvent::Start(md_tag_of(tag)),
        CmarkEvent::End(tag) => MdEvent::End(md_tag_of(tag)),
        CmarkEvent::Text(t) => MdEvent::Text(cow_str_string(t)),
        CmarkEvent::Code(t) => MdEvent::Code(cow_str_string(t)),
        CmarkEvent::Html(t) => MdEvent::Html(cow_str_string(t)),
        CmarkEvent::SoftBreak => MdEvent::SoftBreak,
        CmarkEvent::HardBreak => MdEvent::HardBreak,
        CmarkEvent::Rule => MdEvent::Rule,
        _ => MdEvent::Other,
    }
}

/// Parses markdown with pulldown-cmark's `Parser::new_ext` (strikethrough enabled)
/// and collects its events. The contract claims only that the result is what the
/// parser yields for this input, whatever that is: the grammar itself is not stated.
#[verifier::external_body]
pub(crate) fn parse_markdown(input: &str) -> (r: Vec<MdEvent>)
    ensures
        r@ == cmark_events(input@),
{
    let mut options = pulldown_cmark::Options::empty();
    options.insert(pulldown_cmark::Options::ENABLE_STRIKETHROUGH);
    pulldown_cmark::Parser::new_ext(input, options).map(md_event_of).collect()
}

} // verus!
