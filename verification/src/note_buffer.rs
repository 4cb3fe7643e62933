use vstd::prelude::*;
use crate::markdown::{MdEvent, MdTag, cmark_events};
use crate::notes::{EventExt, events_with_passwords, markdown_events_with_passwords, same_but_secrets,
    lemma_same_but_secrets_drop_last, with_secrets, lemma_with_secrets_same};
use crate::text::{chars_of, string_of_chars};

verus! {

/// The text tags with which a displayed note is styled.
#[derive(PartialEq, Eq, Structural, Debug, Clone, Copy)]
pub enum NoteTag {
    Bold,
    Italics,
    Strikethrough,
    Header1,
    Header2,
    Header3,
    Code,
    Link,
    Password,
    ListItem,
    Paragraph,
    Blockquote1,
    Blockquote2,
    Blockquote3,
}

pub open spec fn tag_index(tag: NoteTag) -> int {
    match tag {
        NoteTag::Bold => 0,
        NoteTag::Italics => 1,
        NoteTag::Strikethrough => 2,
        NoteTag::Header1 => 3,
        NoteTag::Header2 => 4,
        NoteTag::Header3 => 5,
        NoteTag::Code => 6,
        NoteTag::Link => 7,
        NoteTag::Password => 8,
        NoteTag::ListItem => 9,
        NoteTag::Paragraph => 10,
        NoteTag::Blockquote1 => 11,
        NoteTag::Blockquote2 => 12,
        NoteTag::Blockquote3 => 13,
    }
}

pub open spec fn note_tag_name(tag: NoteTag) -> Seq<char> {
    match tag {
        NoteTag::Bold => "bold"@,
        NoteTag::Italics => "italics"@,
        NoteTag::Strikethrough => "strikethrough"@,
        NoteTag::Header1 => "header1"@,
        NoteTag::Header2 => "header2"@,
        NoteTag::Header3 => "header3"@,
        NoteTag::Code => "code"@,
        NoteTag::Link => "link"@,
        NoteTag::Password => "password"@,
        NoteTag::ListItem => "list_item"@,
        NoteTag::Paragraph => "paragraph"@,
        NoteTag::Blockquote1 => "blockquote1"@,
        NoteTag::Blockquote2 => "blockquote2"@,
        NoteTag::Blockquote3 => "blockquote3"@,
    }
}

impl NoteTag {
    fn index(&self) -> (r: usize)
        ensures
            r == tag_index(*self),
    {
        match self {
            NoteTag::Bold => 0,
            NoteTag::Italics => 1,
            NoteTag::Strikethrough => 2,
            NoteTag::Header1 => 3,
            NoteTag::Header2 => 4,
            NoteTag::Header3 => 5,
            NoteTag::Code => 6,
            NoteTag::Link => 7,
            NoteTag::Password => 8,
            NoteTag::ListItem => 9,
            NoteTag::Paragraph => 10,
            NoteTag::Blockquote1 => 11,
            NoteTag::Blockquote2 => 12,
            NoteTag::Blockquote3 => 13,
        }
    }

    /// The name of the tag in the text buffer's tag table.
    pub fn name(&self) -> (r: &'static str)
        ensures
            r@ == note_tag_name(*self),
    {
        match self {
            NoteTag::Bold => "bold",
            NoteTag::Italics => "italics",
            NoteTag::Strikethrough => "strikethrough",
            NoteTag::Header1 => "header1",
            NoteTag::Header2 => "header2",
            NoteTag::Header3 => "header3",
            NoteTag::Code => "code",
            NoteTag::Link => "link",
            NoteTag::Password => "password",
            NoteTag::ListItem => "list_item",
            NoteTag::Paragraph => "paragraph",
            NoteTag::Blockquote1 => "blockquote1",
            NoteTag::Blockquote2 => "blockquote2",
            NoteTag::Blockquote3 => "blockquote3",
        }
    }
}

/// The tag that styles a blockquote nested at the given level, if any.
pub open spec fn blockquote_tag(level: int) -> Option<NoteTag> {
    if level <= 0 {
        None
    } else if level == 1 {
        Some(NoteTag::Blockquote1)
    } else if level == 2 {
        Some(NoteTag::Blockquote2)
    } else {
        Some(NoteTag::Blockquote3)
    }
}

/// The tag that styles a blockquote nested at the given level, if any.
pub fn get_blockquote_tag(blockquote_level: i32) -> (r: Option<NoteTag>)
    ensures
        r == blockquote_tag(blockquote_level as int),
{
    if blockquote_level <= 0 {
        None
    } else if blockquote_level == 1 {
        Some(NoteTag::Blockquote1)
    } else if blockquote_level == 2 {
        Some(NoteTag::Blockquote2)
    } else {
        Some(NoteTag::Blockquote3)
    }
}

fn blockquote_tag_at(level: i128) -> (r: Option<NoteTag>)
    ensures
        r == blockquote_tag(level as int),
{
    if level <= 0 {
        None
    } else if level == 1 {
        Some(NoteTag::Blockquote1)
    } else if level == 2 {
        Some(NoteTag::Blockquote2)
    } else {
        Some(NoteTag::Blockquote3)
    }
}

/// A tag applied to the characters `start..end` of a note's text.
#[derive(PartialEq, Eq, Structural, Debug, Clone, Copy)]
pub struct TagSpan {
    pub tag: NoteTag,
    pub start: usize,
    pub end: usize,
}

/// A link or a password of a note, at the characters `start_offset..end_offset`
/// of its text, with its url or its secret.
#[derive(Debug)]
pub struct ItemDataInfo {
    pub start_offset: usize,
    pub end_offset: usize,
    pub data: String,
}

/// What a note displays: its text, the tags that style it, its links and its
/// passwords, and the offsets at which a separator line stands (each one held
/// in the text by the object replacement character U+FFFC).
pub struct NoteBufferInfo {
    pub text: String,
    pub tags: Vec<TagSpan>,
    pub links: Vec<ItemDataInfo>,
    pub passwords: Vec<ItemDataInfo>,
    pub separator_offsets: Vec<usize>,
}

/// The state of the rendering of a note, as seen in specifications.
pub struct NoteModel {
    pub text: Seq<char>,
    pub tags: Seq<TagSpan>,
    pub links: Seq<ItemDataInfo>,
    pub passwords: Seq<ItemDataInfo>,
    pub separators: Seq<usize>,
    /// for each tag, where its open span started
    pub active: Seq<Option<usize>>,
    pub list_idx: Option<u64>,
    pub in_item: bool,
    pub bq_level: int,
}

pub open spec fn initial_model() -> NoteModel {
    NoteModel {
        text: Seq::empty(),
        tags: Seq::empty(),
        links: Seq::empty(),
        passwords: Seq::empty(),
        separators: Seq::empty(),
        active: Seq::new(14, |i: int| None),
        list_idx: None,
        in_item: false,
        bq_level: 0,
    }
}

pub open spec fn m_insert(m: NoteModel, s: Seq<char>) -> NoteModel {
    NoteModel { text: m.text + s, ..m }
}

pub open spec fn m_open(m: NoteModel, tag: NoteTag) -> NoteModel {
    NoteModel { active: m.active.update(tag_index(tag), Some(m.text.len() as usize)), ..m }
}

/// Closes the span of a tag, if one is open: the tag then covers it.
pub open spec fn m_close(m: NoteModel, tag: NoteTag) -> NoteModel {
    match m.active[tag_index(tag)] {
        Some(start) => NoteModel {
            tags: m.tags.push(TagSpan { tag, start, end: m.text.len() as usize }),
            active: m.active.update(tag_index(tag), None),
            ..m
        },
        None => m,
    }
}

/// The decimal digits of a number.
pub open spec fn decimal(n: nat) -> Seq<char>
    decreases n,
{
    if n < 10 {
        seq![(48 + n) as char]
    } else {
        decimal(n / 10).push((48 + n % 10) as char)
    }
}

pub open spec fn heading_tag(level: u32) -> NoteTag {
    if level == 1 {
        NoteTag::Header1
    } else if level == 2 {
        NoteTag::Header2
    } else {
        NoteTag::Header3
    }
}

/// What one markdown event does to the rendering of a note.
pub open spec fn md_step(m: NoteModel, e: MdEvent) -> NoteModel {
    match e {
        MdEvent::Start(MdTag::Strong) => m_open(m, NoteTag::Bold),
        MdEvent::End(MdTag::Strong) => m_close(m, NoteTag::Bold),
        MdEvent::Start(MdTag::Emphasis) => m_open(m, NoteTag::Italics),
        MdEvent::End(MdTag::Emphasis) => m_close(m, NoteTag::Italics),
        MdEvent::Start(MdTag::Strikethrough) => m_open(m, NoteTag::Strikethrough),
        MdEvent::End(MdTag::Strikethrough) => m_close(m, NoteTag::Strikethrough),
        MdEvent::Start(MdTag::Link(_)) => m_open(m, NoteTag::Link),
        MdEvent::End(MdTag::Link(url)) => match m.active[tag_index(NoteTag::Link)] {
            Some(start) => {
                let c = m_close(m, NoteTag::Link);
                NoteModel {
                    links: c.links.push(
                        ItemDataInfo { start_offset: start, end_offset: m.text.len() as usize, data: url },
                    ),
                    ..c
                }
            },
            None => m,
        },
        MdEvent::Start(MdTag::List(start_idx)) => NoteModel { list_idx: start_idx, ..m },
        MdEvent::End(MdTag::List(_)) => m_insert(NoteModel { list_idx: None, ..m }, "\n"@),
        MdEvent::Start(MdTag::Item) => {
            let o = NoteModel { in_item: true, ..m_open(m, NoteTag::ListItem) };
            match m.list_idx {
                Some(idx) => NoteModel {
                    list_idx: Some(if idx == u64::MAX { 0 } else { (idx + 1) as u64 }),
                    ..m_insert(o, "\n"@ + decimal(idx as nat) + ".\t"@)
                },
                None => m_insert(o, "\n•\t"@),
            }
        },
        MdEvent::End(MdTag::Item) => NoteModel { in_item: false, ..m_close(m, NoteTag::ListItem) },
        MdEvent::Start(MdTag::Paragraph) => if m.in_item {
            m
        } else {
            let n = if m.text.len() != 0 { m_insert(m, "\n"@) } else { m };
            m_open(n, NoteTag::Paragraph)
        },
        MdEvent::End(MdTag::Paragraph) => if m.in_item {
            m
        } else {
            match m.active[tag_index(NoteTag::Paragraph)] {
                Some(_) => m_insert(m_close(m, NoteTag::Paragraph), "\n"@),
                None => m,
            }
        },
        MdEvent::Start(MdTag::BlockQuote) => {
            let n = NoteModel { bq_level: m.bq_level + 1, ..m };
            match blockquote_tag(n.bq_level) {
                Some(t) => m_open(n, t),
                None => n,
            }
        },
        MdEvent::End(MdTag::BlockQuote) => {
            let c = match blockquote_tag(m.bq_level) {
                Some(t) => m_close(m, t),
                None => m,
            };
            NoteModel { bq_level: c.bq_level - 1, ..c }
        },
        MdEvent::Start(MdTag::Heading(level)) => m_open(m_insert(m, "\n"@), heading_tag(level)),
        MdEvent::End(MdTag::Heading(level)) => m_insert(m_close(m, heading_tag(level)), "\n"@),
        MdEvent::Start(MdTag::CodeBlock) => {
            let n = if m.text.len() != 0 { m_insert(m, "\n"@) } else { m };
            m_open(n, NoteTag::Code)
        },
        MdEvent::End(MdTag::CodeBlock) => m_close(m, NoteTag::Code),
        MdEvent::Start(MdTag::Other) => m,
        MdEvent::End(MdTag::Other) => m,
        MdEvent::Text(t) => m_insert(m, t@),
        MdEvent::Code(t) => m_close(m_insert(m_open(m, NoteTag::Code), t@), NoteTag::Code),
        MdEvent::Html(t) => m_insert(m, t@),
        MdEvent::Rule => NoteModel {
            separators: m.separators.push(m.text.len() as usize),
            ..m_insert(m, seq!['\u{FFFC}'])
        },
        MdEvent::SoftBreak => m_insert(m, "\n"@),
        MdEvent::HardBreak => m_insert(m, "\n"@),
        MdEvent::Other => m,
    }
}

/// What one event, markdown or password, does to the rendering of a note.
pub open spec fn note_step(m: NoteModel, e: EventExt) -> NoteModel {
    match e {
        EventExt::StandardEvent(md) => md_step(m, md),
        EventExt::Password(p) => {
            let n = m_insert(m, "🔒[Password]"@);
            NoteModel {
                tags: n.tags.push(TagSpan { tag: NoteTag::Password, start: m.text.len() as usize, end: n.text.len() as usize }),
                passwords: n.passwords.push(
                    ItemDataInfo { start_offset: m.text.len() as usize, end_offset: n.text.len() as usize, data: p },
                ),
                ..n
            }
        },
    }
}

/// The rendering of a note after a sequence of events.
pub open spec fn note_render(evts: Seq<EventExt>) -> NoteModel
    decreases evts.len(),
{
    if evts.len() == 0 {
        initial_model()
    } else {
        note_step(note_render(evts.drop_last()), evts.last())
    }
}


/// The decimal digits of a number.
fn decimal_chars(n: u64) -> (r: Vec<char>)
    ensures
        r@ == decimal(n as nat),
    decreases n,
{
    if n < 10 {
        let c = ((48 + n) as u8) as char;
        let mut v = Vec::new();
        v.push(c);
        assert(v@ =~= seq![(48 + n as nat) as char]);
        v
    } else {
        let mut v = decimal_chars(n / 10);
        let c = ((48 + n % 10) as u8) as char;
        v.push(c);
        v
    }
}

/// The rendering of a note under way.
struct NoteRenderer {
    text: Vec<char>,
    tags: Vec<TagSpan>,
    links: Vec<ItemDataInfo>,
    passwords: Vec<ItemDataInfo>,
    separators: Vec<usize>,
    active: Vec<Option<usize>>,
    list_idx: Option<u64>,
    in_item: bool,
    bq_level: i128,
}

impl NoteRenderer {
    spec fn model(&self) -> NoteModel {
        NoteModel {
            text: self.text@,
            tags: self.tags@,
            links: self.links@,
            passwords: self.passwords@,
            separators: self.separators@,
            active: self.active@,
            list_idx: self.list_idx,
            in_item: self.in_item,
            bq_level: self.bq_level as int,
        }
    }

    fn new() -> (r: NoteRenderer)
        ensures
            r.model() == initial_model(),
            r.active@.len() == 14,
    {
        let mut active = Vec::new();
        let mut i: usize = 0;
        while i < 14
            invariant
                i <= 14,
                active@ =~= Seq::new(i as nat, |j: int| None::<usize>),
            decreases 14 - i,
        {
            active.push(None);
            i = i + 1;
        }
        NoteRenderer {
            text: Vec::new(),
            tags: Vec::new(),
            links: Vec::new(),
            passwords: Vec::new(),
            separators: Vec::new(),
            active,
            list_idx: None,
            in_item: false,
            bq_level: 0,
        }
    }

    fn insert_str(&mut self, s: &str)
        ensures
            final(self).model() == m_insert(old(self).model(), s@),
            final(self).active@.len() == old(self).active@.len(),
    {
        let v = chars_of(s);
        self.insert_chars(&v);
    }

    fn insert_chars(&mut self, v: &Vec<char>)
        ensures
            final(self).model() == m_insert(old(self).model(), v@),
            final(self).active@.len() == old(self).active@.len(),
    {
        let mut i: usize = 0;
        while i < v.len()
            invariant
                i <= v@.len(),
                self.text@ == old(self).text@ + v@.take(i as int),
                self.tags == old(self).tags,
                self.links == old(self).links,
                self.passwords == old(self).passwords,
                self.separators == old(self).separators,
                self.active == old(self).active,
                self.list_idx == old(self).list_idx,
                self.in_item == old(self).in_item,
                self.bq_level == old(self).bq_level,
            decreases v@.len() - i,
        {
            self.text.push(v[i]);
            assert(self.text@ =~= old(self).text@ + v@.take(i + 1));
            i = i + 1;
        }
        assert(v@.take(v@.len() as int) =~= v@);
    }

    fn open(&mut self, tag: NoteTag)
        requires
            old(self).active@.len() == 14,
        ensures
            final(self).model() == m_open(old(self).model(), tag),
            final(self).active@.len() == 14,
    {
        let at = self.text.len();
        let idx = tag.index();
        self.active.set(idx, Some(at));
    }

    fn close(&mut self, tag: NoteTag)
        requires
            old(self).active@.len() == 14,
        ensures
            final(self).model() == m_close(old(self).model(), tag),
            final(self).active@.len() == 14,
    {
        let idx = tag.index();
        match self.active[idx] {
            Some(start) => {
                let end = self.text.len();
                self.tags.push(TagSpan { tag, start, end });
                self.active.set(idx, None);
            },
            None => {},
        }
    }

    spec fn wf(&self) -> bool {
        &&& self.active@.len() == 14
        &&& -0x1_0000_0000_0000_0000_0000 < self.bq_level < 0x1_0000_0000_0000_0000_0000
    }

    fn step_md(&mut self, e: &MdEvent)
        requires
            old(self).wf(),
        ensures
            final(self).model() == md_step(old(self).model(), *e),
            final(self).active@.len() == 14,
            old(self).bq_level - 1 <= final(self).bq_level <= old(self).bq_level + 1,
    {
        match e {
            MdEvent::Start(MdTag::Strong) => self.open(NoteTag::Bold),
            MdEvent::End(MdTag::Strong) => self.close(NoteTag::Bold),
            MdEvent::Start(MdTag::Emphasis) => self.open(NoteTag::Italics),
            MdEvent::End(MdTag::Emphasis) => self.close(NoteTag::Italics),
            MdEvent::Start(MdTag::Strikethrough) => self.open(NoteTag::Strikethrough),
            MdEvent::End(MdTag::Strikethrough) => self.close(NoteTag::Strikethrough),
            MdEvent::Start(MdTag::Link(_)) => self.open(NoteTag::Link),
            MdEvent::End(MdTag::Link(url)) => {
                match self.active[7] {
                    Some(start) => {
                        let end = self.text.len();
                        self.close(NoteTag::Link);
                        self.links.push(ItemDataInfo { start_offset: start, end_offset: end, data: url.clone() });
                    },
                    None => {},
                }
            },
            MdEvent::Start(MdTag::List(start_idx)) => {
                self.list_idx = *start_idx;
            },
            MdEvent::End(MdTag::List(_)) => {
                self.list_idx = None;
                self.insert_str("\n");
            },
            MdEvent::Start(MdTag::Item) => {
                self.open(NoteTag::ListItem);
                self.in_item = true;
                match self.list_idx {
                    Some(idx) => {
                        self.insert_str("\n");
                        let digits = decimal_chars(idx);
                        self.insert_chars(&digits);
                        self.insert_str(".\t");
                        self.list_idx = Some(if idx == u64::MAX { 0 } else { idx + 1 });
                        assert(self.text@ =~= old(self).text@ + ("\n"@ + decimal(idx as nat) + ".\t"@));
                    },
                    None => {
                        self.insert_str("\n•\t");
                    },
                }
            },
            MdEvent::End(MdTag::Item) => {
                self.close(NoteTag::ListItem);
                self.in_item = false;
            },
            MdEvent::Start(MdTag::Paragraph) => {
                if !self.in_item {
                    if self.text.len() != 0 {
                        self.insert_str("\n");
                    }
                    self.open(NoteTag::Paragraph);
                }
            },
            MdEvent::End(MdTag::Paragraph) => {
                if !self.in_item {
                    if self.active[10].is_some() {
                        self.close(NoteTag::Paragraph);
                        self.insert_str("\n");
                    }
                }
            },
            MdEvent::Start(MdTag::BlockQuote) => {
                self.bq_level = self.bq_level + 1;
                match blockquote_tag_at(self.bq_level) {
                    Some(t) => self.open(t),
                    None => {},
                }
            },
            MdEvent::End(MdTag::BlockQuote) => {
                match blockquote_tag_at(self.bq_level) {
                    Some(t) => self.close(t),
                    None => {},
                }
                self.bq_level = self.bq_level - 1;
            },
            MdEvent::Start(MdTag::Heading(level)) => {
                self.insert_str("\n");
                self.open(heading_tag_of(*level));
            },
            MdEvent::End(MdTag::Heading(level)) => {
                self.close(heading_tag_of(*level));
                self.insert_str("\n");
            },
            MdEvent::Start(MdTag::CodeBlock) => {
                if self.text.len() != 0 {
                    self.insert_str("\n");
                }
                self.open(NoteTag::Code);
            },
            MdEvent::End(MdTag::CodeBlock) => self.close(NoteTag::Code),
            MdEvent::Start(MdTag::Other) => {},
            MdEvent::End(MdTag::Other) => {},
            MdEvent::Text(t) => self.insert_str(t.as_str()),
            MdEvent::Code(t) => {
                self.open(NoteTag::Code);
                self.insert_str(t.as_str());
                self.close(NoteTag::Code);
            },
            MdEvent::Html(t) => self.insert_str(t.as_str()),
            MdEvent::Rule => {
                let at = self.text.len();
                self.separators.push(at);
                self.text.push('\u{FFFC}');
                assert(self.text@ =~= old(self).text@ + seq!['\u{FFFC}']);
            },
            MdEvent::SoftBreak => self.insert_str("\n"),
            MdEvent::HardBreak => self.insert_str("\n"),
            MdEvent::Other => {},
        }
    }

    fn step(&mut self, e: &EventExt)
        requires
            old(self).wf(),
        ensures
            final(self).model() == note_step(old(self).model(), *e),
            final(self).active@.len() == 14,
            old(self).bq_level - 1 <= final(self).bq_level <= old(self).bq_level + 1,
    {
        match e {
            EventExt::StandardEvent(md) => self.step_md(md),
            EventExt::Password(p) => {
                let start = self.text.len();
                self.insert_str("🔒[Password]");
                let end = self.text.len();
                self.tags.push(TagSpan { tag: NoteTag::Password, start, end });
                self.passwords.push(ItemDataInfo { start_offset: start, end_offset: end, data: p.clone() });
            },
        }
    }
}

fn heading_tag_of(level: u32) -> (r: NoteTag)
    ensures
        r == heading_tag(level),
{
    if level == 1 {
        NoteTag::Header1
    } else if level == 2 {
        NoteTag::Header2
    } else {
        NoteTag::Header3
    }
}

/// The rendering of a note from its events.
pub fn note_buffer_of_events(events: &Vec<EventExt>) -> (r: NoteBufferInfo)
    ensures
        r.text@ == note_render(events@).text,
        r.tags@ == note_render(events@).tags,
        r.links@ == note_render(events@).links,
        r.passwords@ == note_render(events@).passwords,
        r.separator_offsets@ == note_render(events@).separators,
{
    let mut renderer = NoteRenderer::new();
    let mut i: usize = 0;
    while i < events.len()
        invariant
            i <= events@.len(),
            renderer.model() == note_render(events@.take(i as int)),
            renderer.active@.len() == 14,
            -(i as int) <= renderer.bq_level <= i,
        decreases events@.len() - i,
    {
        assert(events@.take(i + 1).drop_last() == events@.take(i as int));
        renderer.step(&events[i]);
        i = i + 1;
    }
    assert(events@.take(events@.len() as int) == events@);
    let text = string_of_chars(&renderer.text);
    NoteBufferInfo {
        text,
        tags: renderer.tags,
        links: renderer.links,
        passwords: renderer.passwords,
        separator_offsets: renderer.separators,
    }
}

/// What a note written in markdown displays.
pub fn note_markdown_to_text_buffer(input: &str) -> (r: NoteBufferInfo)
    ensures
        r.text@ == note_render(events_with_passwords(cmark_events(input@))).text,
        r.tags@ == note_render(events_with_passwords(cmark_events(input@))).tags,
        r.links@ == note_render(events_with_passwords(cmark_events(input@))).links,
        r.passwords@ == note_render(events_with_passwords(cmark_events(input@))).passwords,
        r.separator_offsets@ == note_render(events_with_passwords(cmark_events(input@))).separators,
{
    let events = markdown_events_with_passwords(input);
    note_buffer_of_events(&events)
}


/// The spans of a rendering lie within its text.
pub open spec fn spans_in_text(m: NoteModel) -> bool {
    spans_within(m.text, m.tags, m.links, m.passwords, m.separators)
}

pub open spec fn spans_within(
    text: Seq<char>,
    tags: Seq<TagSpan>,
    links: Seq<ItemDataInfo>,
    passwords: Seq<ItemDataInfo>,
    separators: Seq<usize>,
) -> bool {
    &&& forall|i: int| 0 <= i < tags.len() ==> #[trigger] tags[i].start <= tags[i].end <= text.len()
    &&& forall|i: int|
        0 <= i < links.len() ==> #[trigger] links[i].start_offset <= links[i].end_offset <= text.len()
    &&& forall|i: int|
        0 <= i < passwords.len() ==> {
            &&& #[trigger] passwords[i].start_offset <= passwords[i].end_offset <= text.len()
            &&& text.subrange(passwords[i].start_offset as int, passwords[i].end_offset as int)
                == "🔒[Password]"@
        }
    &&& forall|i: int|
        0 <= i < separators.len() ==> #[trigger] separators[i] < text.len() && text[separators[i] as int]
            == '\u{FFFC}'
}

spec fn active_within(text: Seq<char>, active: Seq<Option<usize>>) -> bool {
    &&& active.len() == 14
    &&& forall|i: int| 0 <= i < 14 ==> (#[trigger] active[i] matches Some(s) ==> s <= text.len())
}

spec fn render_inv(m: NoteModel) -> bool {
    &&& spans_within(m.text, m.tags, m.links, m.passwords, m.separators)
    &&& active_within(m.text, m.active)
}

proof fn lemma_extend_inv(m: NoteModel, n: NoteModel)
    requires
        render_inv(m),
        n.text.len() >= m.text.len(),
        n.text.subrange(0, m.text.len() as int) == m.text,
        n.tags == m.tags,
        n.links == m.links,
        n.passwords == m.passwords,
        n.separators == m.separators,
        n.active == m.active,
    ensures
        render_inv(n),
{
    assert forall|i: int| 0 <= i < n.passwords.len() implies
        n.text.subrange(n.passwords[i].start_offset as int, n.passwords[i].end_offset as int) == "🔒[Password]"@ by {
        let a = n.passwords[i].start_offset as int;
        let b = n.passwords[i].end_offset as int;
        assert(n.text.subrange(a, b) =~= m.text.subrange(a, b));
    }
    assert forall|i: int| 0 <= i < n.separators.len() implies #[trigger] n.text[n.separators[i] as int] == '\u{FFFC}' by {
        assert(n.text[n.separators[i] as int] == n.text.subrange(0, m.text.len() as int)[n.separators[i] as int]);
    }
}

proof fn lemma_insert_inv(m: NoteModel, t: Seq<char>)
    requires
        render_inv(m),
    ensures
        render_inv(m_insert(m, t)),
{
    let n = m_insert(m, t);
    assert(n.text.subrange(0, m.text.len() as int) =~= m.text);
    lemma_extend_inv(m, n);
}

proof fn lemma_open_inv(m: NoteModel, tag: NoteTag)
    requires
        render_inv(m),
        m.text.len() <= usize::MAX,
    ensures
        render_inv(m_open(m, tag)),
{
}

proof fn lemma_close_inv(m: NoteModel, tag: NoteTag)
    requires
        render_inv(m),
        m.text.len() <= usize::MAX,
    ensures
        render_inv(m_close(m, tag)),
{
}

proof fn lemma_link_end_inv(m: NoteModel, url: String)
    requires
        render_inv(m),
        m.text.len() <= usize::MAX,
    ensures
        render_inv(md_step(m, MdEvent::End(MdTag::Link(url)))),
{
    let e = MdEvent::End(MdTag::Link(url));
    lemma_close_inv(m, NoteTag::Link);
    if let Some(start) = m.active[tag_index(NoteTag::Link)] {
        let c = m_close(m, NoteTag::Link);
        let r = md_step(m, e);
        assert(start <= m.text.len());
        assert(r.tags == c.tags && r.text == c.text && r.passwords == c.passwords);
        assert(r.separators == c.separators && r.active == c.active);
        assert forall|i: int| 0 <= i < r.links.len() implies #[trigger] r.links[i].start_offset
            <= r.links[i].end_offset <= r.text.len() by {
            if i < c.links.len() {
                assert(r.links[i] == c.links[i]);
            }
        }
        assert(render_inv(r));
    } else {
        assert(md_step(m, e) == m);
    }
}

#[verifier::spinoff_prover]
proof fn lemma_md_step_inv(m: NoteModel, e: MdEvent)
    requires
        render_inv(m),
        md_step(m, e).text.len() <= usize::MAX,
    ensures
        render_inv(md_step(m, e)),
{
    match e {
        MdEvent::End(MdTag::Link(url)) => {
            lemma_link_end_inv(m, url);
        },
        MdEvent::End(MdTag::List(_)) => {
            lemma_insert_inv(NoteModel { list_idx: None, ..m }, "\n"@);
        },
        MdEvent::Start(MdTag::Item) => {
            lemma_open_inv(m, NoteTag::ListItem);
            let o = NoteModel { in_item: true, ..m_open(m, NoteTag::ListItem) };
            assert(o.text.subrange(0, m.text.len() as int) =~= o.text);
            lemma_extend_inv(m_open(m, NoteTag::ListItem), o);
            match m.list_idx {
                Some(idx) => lemma_insert_inv(o, "\n"@ + decimal(idx as nat) + ".\t"@),
                None => lemma_insert_inv(o, "\n•\t"@),
            }
        },
        MdEvent::End(MdTag::Item) => {
            lemma_close_inv(m, NoteTag::ListItem);
        },
        MdEvent::Start(MdTag::Paragraph) => {
            if !m.in_item {
                if m.text.len() != 0 {
                    lemma_insert_inv(m, "\n"@);
                    lemma_open_inv(m_insert(m, "\n"@), NoteTag::Paragraph);
                } else {
                    lemma_open_inv(m, NoteTag::Paragraph);
                }
            }
        },
        MdEvent::End(MdTag::Paragraph) => {
            if !m.in_item && m.active[tag_index(NoteTag::Paragraph)] is Some {
                lemma_close_inv(m, NoteTag::Paragraph);
                lemma_insert_inv(m_close(m, NoteTag::Paragraph), "\n"@);
            }
        },
        MdEvent::Start(MdTag::BlockQuote) => {
            let n = NoteModel { bq_level: m.bq_level + 1, ..m };
            assert(n.text.subrange(0, m.text.len() as int) =~= m.text);
            lemma_extend_inv(m, n);
            if let Some(t) = blockquote_tag(n.bq_level) {
                lemma_open_inv(n, t);
            }
        },
        MdEvent::End(MdTag::BlockQuote) => {
            if let Some(t) = blockquote_tag(m.bq_level) {
                lemma_close_inv(m, t);
            }
        },
        MdEvent::Start(MdTag::Heading(level)) => {
            lemma_insert_inv(m, "\n"@);
            lemma_open_inv(m_insert(m, "\n"@), heading_tag(level));
        },
        MdEvent::End(MdTag::Heading(level)) => {
            lemma_close_inv(m, heading_tag(level));
            lemma_insert_inv(m_close(m, heading_tag(level)), "\n"@);
        },
        MdEvent::Start(MdTag::CodeBlock) => {
            if m.text.len() != 0 {
                lemma_insert_inv(m, "\n"@);
                lemma_open_inv(m_insert(m, "\n"@), NoteTag::Code);
            } else {
                lemma_open_inv(m, NoteTag::Code);
            }
        },
        MdEvent::Text(t) => lemma_insert_inv(m, t@),
        MdEvent::Html(t) => lemma_insert_inv(m, t@),
        MdEvent::Code(t) => {
            lemma_open_inv(m, NoteTag::Code);
            lemma_insert_inv(m_open(m, NoteTag::Code), t@);
            lemma_close_inv(m_insert(m_open(m, NoteTag::Code), t@), NoteTag::Code);
        },
        MdEvent::Rule => {
            let n = md_step(m, e);
            lemma_insert_inv(m, seq!['\u{FFFC}']);
            assert(n.text[m.text.len() as int] == '\u{FFFC}');
            assert forall|i: int| 0 <= i < n.separators.len() implies #[trigger] n.separators[i] < n.text.len()
                && n.text[n.separators[i] as int] == '\u{FFFC}' by {
                if i < m.separators.len() {
                    assert(n.separators[i] == m.separators[i]);
                    assert(n.text[n.separators[i] as int] == m.text[m.separators[i] as int]);
                }
            }
        },
        MdEvent::SoftBreak => lemma_insert_inv(m, "\n"@),
        MdEvent::HardBreak => lemma_insert_inv(m, "\n"@),
        _ => {
            lemma_open_inv(m, NoteTag::Bold);
            lemma_open_inv(m, NoteTag::Italics);
            lemma_open_inv(m, NoteTag::Strikethrough);
            lemma_open_inv(m, NoteTag::Link);
            lemma_close_inv(m, NoteTag::Bold);
            lemma_close_inv(m, NoteTag::Italics);
            lemma_close_inv(m, NoteTag::Strikethrough);
        },
    }
}

#[verifier::spinoff_prover]
proof fn lemma_note_step_inv(m: NoteModel, e: EventExt)
    requires
        render_inv(m),
        note_step(m, e).text.len() <= usize::MAX,
    ensures
        render_inv(note_step(m, e)),
{
    match e {
        EventExt::StandardEvent(md) => lemma_md_step_inv(m, md),
        EventExt::Password(p) => {
            let n = m_insert(m, "🔒[Password]"@);
            lemma_insert_inv(m, "🔒[Password]"@);
            let r = note_step(m, e);
            assert(n.text.subrange(m.text.len() as int, n.text.len() as int) =~= "🔒[Password]"@);
            assert forall|i: int| 0 <= i < r.passwords.len() implies {
                &&& #[trigger] r.passwords[i].start_offset <= r.passwords[i].end_offset <= r.text.len()
                &&& r.text.subrange(r.passwords[i].start_offset as int, r.passwords[i].end_offset as int)
                    == "🔒[Password]"@
            } by {
                if i < m.passwords.len() {
                    assert(r.passwords[i] == m.passwords[i]);
                    let a = m.passwords[i].start_offset as int;
                    let b = m.passwords[i].end_offset as int;
                    assert(r.text.subrange(a, b) =~= m.text.subrange(a, b));
                } else {
                    assert(r.passwords[i].start_offset == m.text.len());
                    assert(r.passwords[i].end_offset == n.text.len());
                }
            }
        },
    }
}

proof fn lemma_text_grows(evts: Seq<EventExt>, k: int)
    requires
        0 <= k <= evts.len(),
    ensures
        note_render(evts.take(k)).text.len() <= note_render(evts).text.len(),
    decreases evts.len() - k,
{
    if k < evts.len() {
        lemma_text_grows(evts, k + 1);
        assert(evts.take(k + 1).drop_last() =~= evts.take(k));
        let m = note_render(evts.take(k));
        let e = evts[k];
        lemma_step_text_grows(m, e);
    } else {
        assert(evts.take(k) =~= evts);
    }
}

proof fn lemma_step_text_grows(m: NoteModel, e: EventExt)
    ensures
        m.text.len() <= note_step(m, e).text.len(),
{
}

/// Every tag, link and password of a rendered note covers characters of its text,
/// each password is displayed as `🔒[Password]`, and at each separator offset the
/// text holds the placeholder character U+FFFC (for texts that fit in memory).
pub proof fn law_note_spans_in_text(evts: Seq<EventExt>)
    requires
        note_render(evts).text.len() <= usize::MAX,
    ensures
        spans_in_text(note_render(evts)),
        note_render(evts).passwords.len() <= evts.len(),
    decreases evts.len(),
{
    lemma_render_inv(evts);
}

proof fn lemma_render_inv(evts: Seq<EventExt>)
    requires
        note_render(evts).text.len() <= usize::MAX,
    ensures
        render_inv(note_render(evts)),
        note_render(evts).passwords.len() <= evts.len(),
    decreases evts.len(),
{
    if evts.len() == 0 {
        assert(initial_model().text.len() == 0);
    } else {
        let prev = evts.drop_last();
        lemma_step_text_grows(note_render(prev), evts.last());
        lemma_render_inv(prev);
        lemma_note_step_inv(note_render(prev), evts.last());
    }
}

/// A link or password span of a note covers the character at `offset`.
pub open spec fn covers(i: ItemDataInfo, offset: int) -> bool {
    i.start_offset <= offset < i.end_offset
}

/// `i` is the first of the spans that covers the character at `offset`.
pub open spec fn is_first_covering(v: Seq<ItemDataInfo>, offset: int, i: int) -> bool {
    &&& 0 <= i < v.len()
    &&& covers(v[i], offset)
    &&& forall|j: int| 0 <= j < i ==> !covers(#[trigger] v[j], offset)
}

/// No span covers the character at `offset`.
pub open spec fn none_covers(v: Seq<ItemDataInfo>, offset: int) -> bool {
    forall|j: int| 0 <= j < v.len() ==> !covers(#[trigger] v[j], offset)
}

fn first_covering(v: &Vec<ItemDataInfo>, offset: usize) -> (r: Option<usize>)
    ensures
        match r {
            Some(i) => is_first_covering(v@, offset as int, i as int),
            None => none_covers(v@, offset as int),
        },
{
    let mut i: usize = 0;
    while i < v.len()
        invariant
            i <= v@.len(),
            forall|j: int| 0 <= j < i ==> !covers(#[trigger] v@[j], offset as int),
        decreases v@.len() - i,
    {
        if v[i].start_offset <= offset && v[i].end_offset > offset {
            return Some(i);
        }
        i = i + 1;
    }
    None
}

/// What a click on a displayed note does.
pub enum NoteClick {
    /// Open the url of the link under the click.
    OpenLink(String),
    /// Offer the password under the click.
    ShowPassword(String),
    Nothing,
}

/// What a click on the character at `offset` of a displayed note does: the first
/// link that covers it is opened; else the first password that covers it is
/// offered; else nothing happens.
pub fn note_click(note: &NoteBufferInfo, offset: usize) -> (r: NoteClick)
    ensures
        match r {
            NoteClick::OpenLink(url) => exists|i: int| is_first_covering(note.links@, offset as int, i)
                && url@ == note.links@[i].data@,
            NoteClick::ShowPassword(p) => none_covers(note.links@, offset as int)
                && exists|i: int| is_first_covering(note.passwords@, offset as int, i)
                && p@ == note.passwords@[i].data@,
            NoteClick::Nothing => none_covers(note.links@, offset as int)
                && none_covers(note.passwords@, offset as int),
        },
{
    match first_covering(&note.links, offset) {
        Some(i) => NoteClick::OpenLink(note.links[i].data.clone()),
        None => match first_covering(&note.passwords, offset) {
            Some(i) => NoteClick::ShowPassword(note.passwords[i].data.clone()),
            None => NoteClick::Nothing,
        },
    }
}

/// Two renderings that differ at most in the secrets of their passwords.
pub open spec fn agree_but_secrets(m1: NoteModel, m2: NoteModel) -> bool {
    &&& m1.text == m2.text
    &&& m1.tags == m2.tags
    &&& m1.links == m2.links
    &&& m1.separators == m2.separators
    &&& m1.active == m2.active
    &&& m1.list_idx == m2.list_idx
    &&& m1.in_item == m2.in_item
    &&& m1.bq_level == m2.bq_level
    &&& m1.passwords.len() == m2.passwords.len()
    &&& forall|i: int| 0 <= i < m1.passwords.len() ==> (#[trigger] m1.passwords[i]).start_offset
        == m2.passwords[i].start_offset && m1.passwords[i].end_offset == m2.passwords[i].end_offset
}

proof fn lemma_md_step_agrees(m1: NoteModel, m2: NoteModel, e: MdEvent)
    requires
        agree_but_secrets(m1, m2),
    ensures
        agree_but_secrets(md_step(m1, e), md_step(m2, e)),
{
}

proof fn lemma_note_step_agrees(m1: NoteModel, m2: NoteModel, e1: EventExt, e2: EventExt)
    requires
        agree_but_secrets(m1, m2),
        e1 == e2 || (e1 is Password && e2 is Password),
    ensures
        agree_but_secrets(note_step(m1, e1), note_step(m2, e2)),
{
    match e1 {
        EventExt::StandardEvent(md) => {
            if e1 == e2 {
                lemma_md_step_agrees(m1, m2, md);
            }
        },
        EventExt::Password(_) => {
            let n1 = note_step(m1, e1);
            let n2 = note_step(m2, e2);
            assert forall|i: int| 0 <= i < n1.passwords.len() implies (#[trigger] n1.passwords[i]).start_offset
                == n2.passwords[i].start_offset && n1.passwords[i].end_offset == n2.passwords[i].end_offset by {
                if i < m1.passwords.len() {
                    assert(n1.passwords[i] == m1.passwords[i]);
                    assert(n2.passwords[i] == m2.passwords[i]);
                }
            }
        },
    }
}

/// A password's secret never shows in a rendered note: two notes whose events
/// differ only in the secrets of their passwords render to the same text, with
/// the same tags, links and separators, and with their passwords at the same places.
pub proof fn law_render_hides_secrets(a: Seq<EventExt>, b: Seq<EventExt>)
    requires
        same_but_secrets(a, b),
    ensures
        agree_but_secrets(note_render(a), note_render(b)),
    decreases a.len(),
{
    if a.len() > 0 {
        lemma_same_but_secrets_drop_last(a, b);
        law_render_hides_secrets(a.drop_last(), b.drop_last());
        assert(a.last() == a[a.len() - 1]);
        assert(b.last() == b[b.len() - 1]);
        lemma_note_step_agrees(note_render(a.drop_last()), note_render(b.drop_last()), a.last(), b.last());
    }
}

/// A rendered note is that of its events with their secrets erased (replaced by
/// any text, the empty one among them): its text, tags, links and separators are
/// the same, so no character of a secret reaches the text; only the passwords'
/// data differ.
pub proof fn law_render_without_secrets(evts: Seq<EventExt>, secret: String)
    ensures
        agree_but_secrets(note_render(evts), note_render(with_secrets(evts, secret))),
{
    lemma_with_secrets_same(evts, secret);
    law_render_hides_secrets(evts, with_secrets(evts, secret));
}

/// Strong text is shown bold: after any events, `**t**` (a `Strong` start, the
/// text `t`, the `Strong` end) adds `t` to the text and exactly one tag, a bold
/// span over `t`, and nothing else (in particular no italics).
pub proof fn law_strong_renders_bold(evts: Seq<EventExt>, t: String)
    requires
        note_render(evts).text.len() + t@.len() <= usize::MAX,
    ensures
        ({
            let m = note_render(evts);
            let r = note_render(evts + seq![
                EventExt::StandardEvent(MdEvent::Start(MdTag::Strong)),
                EventExt::StandardEvent(MdEvent::Text(t)),
                EventExt::StandardEvent(MdEvent::End(MdTag::Strong)),
            ]);
            &&& r.text == m.text + t@
            &&& r.tags == m.tags.push(TagSpan {
                tag: NoteTag::Bold,
                start: m.text.len() as usize,
                end: (m.text.len() + t@.len()) as usize,
            })
            &&& r.links == m.links
            &&& r.passwords == m.passwords
        }),
{
    lemma_wrapped_render(evts, MdTag::Strong, t);
    lemma_active_len(evts);
    let m = note_render(evts);
    let s1 = evts.push(EventExt::StandardEvent(MdEvent::Start(MdTag::Strong)));
    let s2 = s1.push(EventExt::StandardEvent(MdEvent::Text(t)));
    let m1 = note_render(s1);
    let m2 = note_render(s2);
    assert(m1.text == m.text && m1.tags == m.tags);
    assert(m1.active[tag_index(NoteTag::Bold)] == Some(m.text.len() as usize));
    assert(m2.text == m.text + t@ && m2.tags == m.tags);
    assert(m2.active[tag_index(NoteTag::Bold)] == Some(m.text.len() as usize));
    assert((m.text + t@).len() == m.text.len() + t@.len());
}

/// Emphasized text is shown in italics: after any events, `*t*` adds `t` to the
/// text and exactly one tag, an italics span over `t`.
pub proof fn law_emphasis_renders_italics(evts: Seq<EventExt>, t: String)
    requires
        note_render(evts).text.len() + t@.len() <= usize::MAX,
    ensures
        ({
            let m = note_render(evts);
            let r = note_render(evts + seq![
                EventExt::StandardEvent(MdEvent::Start(MdTag::Emphasis)),
                EventExt::StandardEvent(MdEvent::Text(t)),
                EventExt::StandardEvent(MdEvent::End(MdTag::Emphasis)),
            ]);
            &&& r.text == m.text + t@
            &&& r.tags == m.tags.push(TagSpan {
                tag: NoteTag::Italics,
                start: m.text.len() as usize,
                end: (m.text.len() + t@.len()) as usize,
            })
        }),
{
    lemma_wrapped_render(evts, MdTag::Emphasis, t);
    lemma_active_len(evts);
    let m = note_render(evts);
    let s1 = evts.push(EventExt::StandardEvent(MdEvent::Start(MdTag::Emphasis)));
    let s2 = s1.push(EventExt::StandardEvent(MdEvent::Text(t)));
    let m1 = note_render(s1);
    let m2 = note_render(s2);
    assert(m1.text == m.text && m1.tags == m.tags);
    assert(m1.active[tag_index(NoteTag::Italics)] == Some(m.text.len() as usize));
    assert(m2.text == m.text + t@ && m2.tags == m.tags);
    assert(m2.active[tag_index(NoteTag::Italics)] == Some(m.text.len() as usize));
    assert((m.text + t@).len() == m.text.len() + t@.len());
}

proof fn lemma_active_len(evts: Seq<EventExt>)
    ensures
        note_render(evts).active.len() == 14,
    decreases evts.len(),
{
    if evts.len() > 0 {
        lemma_active_len(evts.drop_last());
    }
}

proof fn lemma_wrapped_render(evts: Seq<EventExt>, tag: MdTag, t: String)
    ensures
        ({
            let s1 = evts.push(EventExt::StandardEvent(MdEvent::Start(tag)));
            let s2 = s1.push(EventExt::StandardEvent(MdEvent::Text(t)));
            let s3 = s2.push(EventExt::StandardEvent(MdEvent::End(tag)));
            &&& s3 == evts + seq![
                EventExt::StandardEvent(MdEvent::Start(tag)),
                EventExt::StandardEvent(MdEvent::Text(t)),
                EventExt::StandardEvent(MdEvent::End(tag)),
            ]
            &&& note_render(s1) == note_step(note_render(evts), EventExt::StandardEvent(MdEvent::Start(tag)))
            &&& note_render(s2) == note_step(note_render(s1), EventExt::StandardEvent(MdEvent::Text(t)))
            &&& note_render(s3) == note_step(note_render(s2), EventExt::StandardEvent(MdEvent::End(tag)))
        }),
{
    let s1 = evts.push(EventExt::StandardEvent(MdEvent::Start(tag)));
    let s2 = s1.push(EventExt::StandardEvent(MdEvent::Text(t)));
    let s3 = s2.push(EventExt::StandardEvent(MdEvent::End(tag)));
    assert(s1.drop_last() =~= evts);
    assert(s2.drop_last() =~= s1);
    assert(s3.drop_last() =~= s2);
    assert(s3 =~= evts + seq![
        EventExt::StandardEvent(MdEvent::Start(tag)),
        EventExt::StandardEvent(MdEvent::Text(t)),
        EventExt::StandardEvent(MdEvent::End(tag)),
    ]);
}

/// Struck-through text is shown struck through: after any events, `~~t~~` adds `t`
/// to the text and exactly one tag, a strikethrough span over `t`.
pub proof fn law_strikethrough_renders_struck(evts: Seq<EventExt>, t: String)
    requires
        note_render(evts).text.len() + t@.len() <= usize::MAX,
    ensures
        ({
            let m = note_render(evts);
            let r = note_render(evts + seq![
                EventExt::StandardEvent(MdEvent::Start(MdTag::Strikethrough)),
                EventExt::StandardEvent(MdEvent::Text(t)),
                EventExt::StandardEvent(MdEvent::End(MdTag::Strikethrough)),
            ]);
            &&& r.text == m.text + t@
            &&& r.tags == m.tags.push(TagSpan {
                tag: NoteTag::Strikethrough,
                start: m.text.len() as usize,
                end: (m.text.len() + t@.len()) as usize,
            })
        }),
{
    lemma_wrapped_render(evts, MdTag::Strikethrough, t);
    lemma_active_len(evts);
    let m = note_render(evts);
    let s1 = evts.push(EventExt::StandardEvent(MdEvent::Start(MdTag::Strikethrough)));
    let s2 = s1.push(EventExt::StandardEvent(MdEvent::Text(t)));
    let m1 = note_render(s1);
    let m2 = note_render(s2);
    assert(m1.active[tag_index(NoteTag::Strikethrough)] == Some(m.text.len() as usize));
    assert(m2.text == m.text + t@ && m2.tags == m.tags);
    assert(m2.active[tag_index(NoteTag::Strikethrough)] == Some(m.text.len() as usize));
    assert((m.text + t@).len() == m.text.len() + t@.len());
}

/// Inline code is shown as code: after any events, a `Code(t)` event adds `t` to
/// the text and exactly one tag, a code span over `t`.
pub proof fn law_inline_code_renders_code(evts: Seq<EventExt>, t: String)
    requires
        note_render(evts).text.len() + t@.len() <= usize::MAX,
    ensures
        ({
            let m = note_render(evts);
            let r = note_render(evts.push(EventExt::StandardEvent(MdEvent::Code(t))));
            &&& r.text == m.text + t@
            &&& r.tags == m.tags.push(TagSpan {
                tag: NoteTag::Code,
                start: m.text.len() as usize,
                end: (m.text.len() + t@.len()) as usize,
            })
        }),
{
    lemma_active_len(evts);
    let s1 = evts.push(EventExt::StandardEvent(MdEvent::Code(t)));
    assert(s1.drop_last() =~= evts);
    let m = note_render(evts);
    assert((m.text + t@).len() == m.text.len() + t@.len());
}

/// A link is shown as a link to its url: after any events, `[t](url)` adds `t` to
/// the text, a link span over `t`, and a link over `t` that opens `url`.
pub proof fn law_link_renders_link(evts: Seq<EventExt>, t: String, start_url: String, url: String)
    requires
        note_render(evts).text.len() + t@.len() <= usize::MAX,
    ensures
        ({
            let m = note_render(evts);
            let r = note_render(evts + seq![
                EventExt::StandardEvent(MdEvent::Start(MdTag::Link(start_url))),
                EventExt::StandardEvent(MdEvent::Text(t)),
                EventExt::StandardEvent(MdEvent::End(MdTag::Link(url))),
            ]);
            &&& r.text == m.text + t@
            &&& r.tags == m.tags.push(TagSpan {
                tag: NoteTag::Link,
                start: m.text.len() as usize,
                end: (m.text.len() + t@.len()) as usize,
            })
            &&& r.links == m.links.push(ItemDataInfo {
                start_offset: m.text.len() as usize,
                end_offset: (m.text.len() + t@.len()) as usize,
                data: url,
            })
        }),
{
    lemma_active_len(evts);
    let e1 = EventExt::StandardEvent(MdEvent::Start(MdTag::Link(start_url)));
    let e2 = EventExt::StandardEvent(MdEvent::Text(t));
    let e3 = EventExt::StandardEvent(MdEvent::End(MdTag::Link(url)));
    let s1 = evts.push(e1);
    let s2 = s1.push(e2);
    let s3 = s2.push(e3);
    assert(s1.drop_last() =~= evts);
    assert(s2.drop_last() =~= s1);
    assert(s3.drop_last() =~= s2);
    assert(s3 =~= evts + seq![e1, e2, e3]);
    let m = note_render(evts);
    let m1 = note_render(s1);
    let m2 = note_render(s2);
    assert(m1.active[tag_index(NoteTag::Link)] == Some(m.text.len() as usize));
    assert(m2.text == m.text + t@ && m2.tags == m.tags && m2.links == m.links);
    assert(m2.active[tag_index(NoteTag::Link)] == Some(m.text.len() as usize));
    assert((m.text + t@).len() == m.text.len() + t@.len());
}

} // verus!
