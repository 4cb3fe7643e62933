use projectpad::markdown::{MdEvent, MdTag};
use projectpad::note_buffer::{
    get_blockquote_tag, note_buffer_of_events, note_click, note_markdown_to_text_buffer, NoteClick, NoteTag,
    TagSpan,
};
use projectpad::notes::EventExt;

fn md(e: MdEvent) -> EventExt {
    EventExt::StandardEvent(e)
}

fn text(t: &str) -> EventExt {
    md(MdEvent::Text(t.to_string()))
}

#[test]
fn heading_list_and_rule_rendering() {
    let events = vec![
        md(MdEvent::Start(MdTag::Heading(1))),
        text("Title"),
        md(MdEvent::End(MdTag::Heading(1))),
        md(MdEvent::Start(MdTag::List(Some(3)))),
        md(MdEvent::Start(MdTag::Item)),
        text("x"),
        md(MdEvent::End(MdTag::Item)),
        md(MdEvent::Start(MdTag::Item)),
        text("y"),
        md(MdEvent::End(MdTag::Item)),
        md(MdEvent::End(MdTag::List(Some(3)))),
        md(MdEvent::Rule),
    ];
    let info = note_buffer_of_events(&events);
    assert_eq!("\nTitle\n\n3.\tx\n4.\ty\n\u{FFFC}", info.text);
    assert_eq!(
        vec![
            TagSpan { tag: NoteTag::Header1, start: 1, end: 6 },
            TagSpan { tag: NoteTag::ListItem, start: 7, end: 12 },
            TagSpan { tag: NoteTag::ListItem, start: 12, end: 17 },
        ],
        info.tags
    );
    assert_eq!(vec![18], info.separator_offsets);
    assert!(info.links.is_empty());
    assert!(info.passwords.is_empty());
}

#[test]
fn bullet_list_and_inline_code() {
    let events = vec![
        md(MdEvent::Start(MdTag::List(None))),
        md(MdEvent::Start(MdTag::Item)),
        md(MdEvent::Code("ls".to_string())),
        md(MdEvent::End(MdTag::Item)),
        md(MdEvent::End(MdTag::List(None))),
    ];
    let info = note_buffer_of_events(&events);
    assert_eq!("\n•\tls\n", info.text);
    assert_eq!(
        vec![
            TagSpan { tag: NoteTag::Code, start: 3, end: 5 },
            TagSpan { tag: NoteTag::ListItem, start: 0, end: 5 },
        ],
        info.tags
    );
}

#[test]
fn markdown_link_and_password_rendering() {
    let info = note_markdown_to_text_buffer("a [l](http://x) [pass`s3`]");
    assert_eq!("a l 🔒[Password]\n", info.text);
    assert_eq!(1, info.links.len());
    assert_eq!((2, 3), (info.links[0].start_offset, info.links[0].end_offset));
    assert_eq!("http://x", info.links[0].data);
    assert_eq!(1, info.passwords.len());
    assert_eq!((4, 15), (info.passwords[0].start_offset, info.passwords[0].end_offset));
    assert_eq!("s3", info.passwords[0].data);
    assert!(info.tags.contains(&TagSpan { tag: NoteTag::Link, start: 2, end: 3 }));
    assert!(info.tags.contains(&TagSpan { tag: NoteTag::Password, start: 4, end: 15 }));
    assert!(info.tags.contains(&TagSpan { tag: NoteTag::Paragraph, start: 0, end: 15 }));
}

#[test]
fn clicks_on_a_note() {
    let info = note_markdown_to_text_buffer("a [l](http://x) [pass`s3`]");
    assert!(matches!(note_click(&info, 2), NoteClick::OpenLink(ref u) if u == "http://x"));
    assert!(matches!(note_click(&info, 3), NoteClick::Nothing));
    assert!(matches!(note_click(&info, 5), NoteClick::ShowPassword(ref p) if p == "s3"));
    assert!(matches!(note_click(&info, 0), NoteClick::Nothing));
}

#[test]
fn blockquote_tags_by_level() {
    assert_eq!(None, get_blockquote_tag(0));
    assert_eq!(Some(NoteTag::Blockquote1), get_blockquote_tag(1));
    assert_eq!(Some(NoteTag::Blockquote2), get_blockquote_tag(2));
    assert_eq!(Some(NoteTag::Blockquote3), get_blockquote_tag(3));
    assert_eq!(Some(NoteTag::Blockquote3), get_blockquote_tag(7));
    assert_eq!("blockquote2", NoteTag::Blockquote2.name());
}

#[test]
fn secrets_do_not_change_the_rendering() {
    let a = note_markdown_to_text_buffer("x [pass`one`] y");
    let b = note_markdown_to_text_buffer("x [pass`twotwotwo`] y");
    assert_eq!(a.text, b.text);
    assert!(!a.text.contains("one"));
    assert_eq!(a.tags, b.tags);
    assert_eq!("one", a.passwords[0].data);
    assert_eq!("twotwotwo", b.passwords[0].data);
}

#[test]
fn brackets_before_a_password_are_kept() {
    let info = note_markdown_to_text_buffer("[[x");
    assert_eq!("[[x\n", info.text);
}
