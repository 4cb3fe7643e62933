use projectpad::markdown::{MdEvent, MdTag};
use projectpad::notes::{
    get_events_with_passwords, markdown_events_with_passwords, note_markdown_to_quick_preview,
    quick_preview_of_events, EventExt,
};

fn has_password(evts: &[EventExt], expected: &str) -> bool {
    evts.iter().any(|e| match e {
        EventExt::Password(p) if p == expected => true,
        _ => false,
    })
}

#[test]
fn add_password_events() {
    let evts = markdown_events_with_passwords("hello *world [pass`se*c~~r*et`]*");
    assert!(has_password(&evts, "se*c~~r*et"));
}

#[test]
fn add_password_events_backticks() {
    let evts = markdown_events_with_passwords("hello *world [pass``sec`ret``]*");
    assert!(has_password(&evts, "sec`ret"));
}

#[test]
fn add_password_events_double_backticks() {
    let evts = markdown_events_with_passwords("hello *world [pass```sec``ret```]*");
    assert!(has_password(&evts, "sec``ret"));
}

#[test]
fn add_password_events_triple_backticks() {
    let evts = markdown_events_with_passwords("hello *world [pass````sec```ret````]*");
    assert!(has_password(&evts, "sec```ret"));
}

#[test]
fn add_password_events_leading_trailing_backtick_space_approach() {
    let evts = markdown_events_with_passwords("hello *world [pass`` `sec`ret` ``]*");
    assert!(has_password(&evts, "`sec`ret`"));
}

#[test]
fn incomplete_passwords_dont_drop_items() {
    let evts = markdown_events_with_passwords("hello *world [pass`secret]*");
    assert_eq!(
        "hello world [pass`secret]",
        evts.iter()
            .filter_map(|e| match e {
                EventExt::StandardEvent(MdEvent::Text(t)) => Some(t.to_string()),
                _ => None,
            })
            .fold("".to_string(), |sofar, cur| sofar + &cur)
    );
}

#[test]
fn password_events_keep_other_events_in_order() {
    let evts = markdown_events_with_passwords("a [pass`x`] b");
    let kinds: Vec<String> = evts
        .iter()
        .map(|e| match e {
            EventExt::Password(p) => format!("P:{}", p),
            EventExt::StandardEvent(MdEvent::Text(t)) => format!("T:{}", t),
            EventExt::StandardEvent(_) => "E".to_string(),
        })
        .collect();
    assert_eq!(vec!["E", "T:a ", "P:x", "T: b", "E"], kinds);
}

#[test]
fn quick_preview_shows_text_and_hides_passwords() {
    assert_eq!(
        "\nhello world [password] and `code`\n",
        note_markdown_to_quick_preview("hello *world* [pass`secret`] and ``` `code` ```")
    );
}

#[test]
fn quick_preview_breaks_after_headings_and_paragraphs() {
    assert_eq!("Title\n\npara\n", note_markdown_to_quick_preview("# Title\n\npara"));
}

#[test]
fn quick_preview_of_empty_note() {
    assert_eq!("", note_markdown_to_quick_preview(""));
}

#[test]
fn password_events_from_explicit_events() {
    let evts = get_events_with_passwords(vec![
        MdEvent::Start(MdTag::Paragraph),
        MdEvent::Text("a ".to_string()),
        MdEvent::Text("[".to_string()),
        MdEvent::Text("pass".to_string()),
        MdEvent::Code("s3cr3t".to_string()),
        MdEvent::Text("]".to_string()),
        MdEvent::End(MdTag::Paragraph),
    ]);
    assert!(has_password(&evts, "s3cr3t"));
    assert_eq!(4, evts.len());
    assert_eq!("\na [password]\n", quick_preview_of_events(&evts));
}

#[test]
fn interrupted_password_keeps_every_event() {
    let evts = get_events_with_passwords(vec![
        MdEvent::Text("[".to_string()),
        MdEvent::Text("pass".to_string()),
        MdEvent::Text("[".to_string()),
        MdEvent::Text("x".to_string()),
    ]);
    let texts: Vec<String> = evts
        .iter()
        .map(|e| match e {
            EventExt::StandardEvent(MdEvent::Text(t)) => t.clone(),
            _ => "?".to_string(),
        })
        .collect();
    assert_eq!(vec!["[", "pass", "[", "x"], texts);
    let pending = get_events_with_passwords(vec![
        MdEvent::Text("[".to_string()),
        MdEvent::Text("pass".to_string()),
    ]);
    assert_eq!(2, pending.len());
}

#[test]
fn preview_hides_password_text() {
    assert_eq!("\n[password]\n", note_markdown_to_quick_preview("[pass`x`]"));
    assert_eq!(
        note_markdown_to_quick_preview("a [pass`one`]"),
        note_markdown_to_quick_preview("a [pass`other`]")
    );
}

#[test]
fn every_complete_password_run_is_replaced() {
    let evts = get_events_with_passwords(vec![
        MdEvent::Text("[".to_string()),
        MdEvent::Text("[".to_string()),
        MdEvent::Text("pass".to_string()),
        MdEvent::Code("a".to_string()),
        MdEvent::Text("]".to_string()),
        MdEvent::Text("[".to_string()),
        MdEvent::Text("pass".to_string()),
        MdEvent::Code("b".to_string()),
        MdEvent::Text("]".to_string()),
    ]);
    assert_eq!(3, evts.len());
    assert!(matches!(&evts[0], EventExt::StandardEvent(MdEvent::Text(t)) if t == "["));
    assert!(matches!(&evts[1], EventExt::Password(p) if p == "a"));
    assert!(matches!(&evts[2], EventExt::Password(p) if p == "b"));
}
