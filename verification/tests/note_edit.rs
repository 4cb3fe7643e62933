use projectpad::note_edit::{NoteEdit, NoteEditBuffer};

#[test]
fn toggle_snippet_should_add_bold() {
    let mut buf = NoteEditBuffer::new("");
    NoteEdit::toggle_snippet(&mut buf, "**", "**");
    assert_eq!("****", buf.text());
    assert_eq!(2, buf.cursor_position());
}

#[test]
fn toggle_snippet_should_untoggle_bold() {
    let mut buf = NoteEditBuffer::with_cursor("****", 2);
    NoteEdit::toggle_snippet(&mut buf, "**", "**");
    assert_eq!("", buf.text());
    assert_eq!(0, buf.cursor_position());
}

#[test]
fn toggle_snippet_should_untoggle_link() {
    let mut buf = NoteEditBuffer::with_cursor("[](url)", 1);
    NoteEdit::toggle_snippet(&mut buf, "[", "](url)");
    assert_eq!("", buf.text());
    assert_eq!(0, buf.cursor_position());
}

#[test]
fn toggle_snippet_with_selection_should_wrap_selection() {
    let mut buf = NoteEditBuffer::with_selection("my amazing test", 3, 10);
    NoteEdit::toggle_snippet(&mut buf, "**", "**");
    assert_eq!("my **amazing** test", buf.text());
    let selection_after = buf.selection_bounds().unwrap();
    assert_eq!(5, selection_after.0);
    assert_eq!(12, selection_after.1);
}

#[test]
fn toggle_snippet_with_selection_should_untoggle_selection() {
    let mut buf = NoteEditBuffer::with_selection("my **amazing** test", 5, 12);
    NoteEdit::toggle_snippet(&mut buf, "**", "**");
    assert_eq!("my amazing test", buf.text());
    let selection_after = buf.selection_bounds().unwrap();
    assert_eq!(3, selection_after.0);
    assert_eq!(10, selection_after.1);
}

#[test]
fn toggle_heading_should_set_heading() {
    let mut buf = NoteEditBuffer::new("");
    NoteEdit::toggle_heading(&mut buf);
    assert_eq!(" # ", buf.text());
}

#[test]
fn toggle_heading_should_move_to_next_heading() {
    let mut buf = NoteEditBuffer::with_cursor("line1\n # my **amazing** test", 10);
    NoteEdit::toggle_heading(&mut buf);
    assert_eq!("line1\n ## my **amazing** test", buf.text());
}

#[test]
fn toggle_heading_should_wipe_heading_at_end_of_cycle() {
    let mut buf = NoteEditBuffer::with_cursor(" - line1\nmy **amazing** test", 2);
    NoteEdit::toggle_heading(&mut buf);
    assert_eq!("line1\nmy **amazing** test", buf.text());
}

#[test]
fn toggle_blockquote_with_no_selection_should_toggle() {
    let mut buf = NoteEditBuffer::with_cursor("line1\nmy **amazing** test", 2);
    NoteEdit::toggle_blockquote(&mut buf);
    assert_eq!("> line1\nmy **amazing** test", buf.text());
}

#[test]
fn toggle_blockquote_with_no_selection_should_untoggle() {
    let mut buf = NoteEditBuffer::with_cursor("line1\n> my **amazing** test", 10);
    NoteEdit::toggle_blockquote(&mut buf);
    assert_eq!("line1\nmy **amazing** test", buf.text());
}

#[test]
fn toggle_blockquote_with_selection_should_toggle() {
    let text = "line1\nmy **amazing** test";
    let mut buf = NoteEditBuffer::with_selection(text, 0, text.chars().count());
    NoteEdit::toggle_blockquote(&mut buf);
    assert_eq!("> line1\n> my **amazing** test", buf.text());
}

#[test]
fn toggle_blockquote_with_selection_should_untoggle() {
    let text = "> line1\n> my **amazing** test";
    let mut buf = NoteEditBuffer::with_selection(text, 0, text.chars().count());
    NoteEdit::toggle_blockquote(&mut buf);
    assert_eq!("line1\nmy **amazing** test", buf.text());
}

#[test]
fn toggle_password_with_no_selection_should_toggle() {
    let mut buf = NoteEditBuffer::with_cursor("line1\nmy **amazing** test", 2);
    NoteEdit::toggle_password(&mut buf);
    assert_eq!("li[pass``]ne1\nmy **amazing** test", buf.text());
    assert_eq!(8, buf.cursor_position());
}

#[test]
fn toggle_password_with_no_selection_should_untoggle() {
    let mut buf = NoteEditBuffer::with_cursor("li[pass``]ne1\nmy **amazing** test", 8);
    NoteEdit::toggle_password(&mut buf);
    assert_eq!("line1\nmy **amazing** test", buf.text());
    assert_eq!(2, buf.cursor_position());
}

#[test]
fn toggle_password_with_selection_should_toggle() {
    let mut buf = NoteEditBuffer::with_selection("line1\nmy **amazing** test", 9, 20);
    NoteEdit::toggle_password(&mut buf);
    assert_eq!("line1\nmy [pass`**amazing**`] test", buf.text());
}

#[test]
fn toggle_password_with_selection_should_toggle_with_spaces_if_leading_backtick() {
    let mut buf = NoteEditBuffer::with_selection("line1\nmy `*amazing** test", 9, 20);
    NoteEdit::toggle_password(&mut buf);
    assert_eq!("line1\nmy [pass`` `*amazing** ``] test", buf.text());
}

#[test]
fn toggle_password_with_selection_should_untoggle() {
    let mut buf = NoteEditBuffer::with_selection("line1\nmy [pass`**amazing**`] test", 15, 26);
    NoteEdit::toggle_password(&mut buf);
    assert_eq!("line1\nmy **amazing** test", buf.text());
}

#[test]
fn toggle_snippet_twice_restores_text_and_selection() {
    let mut buf = NoteEditBuffer::with_selection("abc def", 4, 7);
    NoteEdit::toggle_snippet(&mut buf, "~~", "~~");
    assert_eq!("abc ~~def~~", buf.text());
    NoteEdit::toggle_snippet(&mut buf, "~~", "~~");
    assert_eq!("abc def", buf.text());
    assert_eq!(Some((4, 7)), buf.selection_bounds());
}

#[test]
fn toggle_blockquote_twice_on_a_line_restores_it() {
    let mut buf = NoteEditBuffer::with_cursor("a\nbc", 3);
    NoteEdit::toggle_blockquote(&mut buf);
    assert_eq!("a\n> bc", buf.text());
    assert_eq!(5, buf.cursor_position());
    NoteEdit::toggle_blockquote(&mut buf);
    assert_eq!("a\nbc", buf.text());
    assert_eq!(3, buf.cursor_position());
}

#[test]
fn toggle_heading_cycles_back_to_no_heading() {
    let mut buf = NoteEditBuffer::with_cursor("x\ntitle", 4);
    let mut seen = vec![];
    for _ in 0..5 {
        NoteEdit::toggle_heading(&mut buf);
        seen.push(buf.text());
    }
    assert_eq!(
        vec!["x\n # title", "x\n ## title", "x\n ### title", "x\n - title", "x\ntitle"],
        seen
    );
}

#[test]
fn toggle_lists_and_preformat() {
    let mut buf = NoteEditBuffer::with_cursor("item", 0);
    NoteEdit::toggle_ul(&mut buf);
    assert_eq!(" * item", buf.text());
    NoteEdit::toggle_ul(&mut buf);
    assert_eq!("item", buf.text());
    NoteEdit::toggle_ol(&mut buf);
    assert_eq!("1. item", buf.text());
    let mut sel = NoteEditBuffer::with_selection("a\nb", 0, 3);
    NoteEdit::toggle_preformat(&mut sel);
    assert_eq!("\n```\na\nb\n```\n", sel.text());
    let mut word = NoteEditBuffer::with_selection("ab", 0, 2);
    NoteEdit::toggle_preformat(&mut word);
    assert_eq!("`ab`", word.text());
}

#[test]
fn line_breaks_carriage_return_in_blockquote_selection() {
    let text = "a\r\nb\n";
    let mut buf = NoteEditBuffer::with_selection(text, 0, 5);
    NoteEdit::toggle_blockquote(&mut buf);
    assert_eq!("> a\n> b", buf.text());
    assert_eq!(Some((0, 7)), buf.selection_bounds());
}

use projectpad::note_edit::{note_key_action, NoteEditCommand, NoteKey, NoteSearchAction};

#[test]
fn toolbar_commands_apply_their_toggles() {
    let mut buf = NoteEditBuffer::with_selection("my amazing test", 3, 10);
    NoteEdit::apply_command(&mut buf, NoteEditCommand::TextStrikethrough);
    assert_eq!("my ~~amazing~~ test", buf.text());
    let mut buf = NoteEditBuffer::with_selection("my amazing test", 3, 10);
    NoteEdit::apply_command(&mut buf, NoteEditCommand::TextLink);
    assert_eq!("my [amazing](url) test", buf.text());
    let mut buf = NoteEditBuffer::new("item");
    NoteEdit::apply_command(&mut buf, NoteEditCommand::ListOl);
    assert_eq!("1. item", buf.text());
}

#[test]
fn note_search_shortcuts_need_ctrl() {
    assert_eq!(Some(NoteSearchAction::ShowSearchBar), note_key_action(true, NoteKey::Char('f')));
    assert_eq!(Some(NoteSearchAction::SearchNext), note_key_action(true, NoteKey::Enter));
    assert_eq!(Some(NoteSearchAction::SearchPrevious), note_key_action(true, NoteKey::Char('p')));
    assert_eq!(Some(NoteSearchAction::HideSearchBar), note_key_action(true, NoteKey::Escape));
    assert_eq!(None, note_key_action(false, NoteKey::Char('f')));
    assert_eq!(None, note_key_action(true, NoteKey::Char('x')));
}

#[test]
fn toggle_line_start_cycles_through_starts() {
    let mut buf = NoteEditBuffer::with_cursor("item", 2);
    NoteEdit::toggle_line_start(&mut buf, &["- ", "* "]);
    assert_eq!("- item", buf.text());
    NoteEdit::toggle_line_start(&mut buf, &["- ", "* "]);
    assert_eq!("* item", buf.text());
    NoteEdit::toggle_line_start(&mut buf, &["- ", "* "]);
    assert_eq!("item", buf.text());
}
