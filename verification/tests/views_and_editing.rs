use postui::editor::{terminal_width, EditAction, EditCommand, EditInput, EditMode};
use postui::line_index::{LineCursor, PlainIndex};
use postui::view::{
    next_focus, stepped, ClickSequence, Focus, ListScrollState, ResponseScrollState,
    ResponseSelection, ResponseTextPoint, ScrollState, ViewMode,
};

fn typed(input: &mut EditInput, text: &str) {
    for c in text.chars() {
        input.handle_command(None, Some(c));
    }
}

#[test]
fn steps_saturate() {
    assert_eq!(stepped(1, -1), 0);
    assert_eq!(stepped(10, -1), 7);
    assert_eq!(stepped(10, 1), 13);
    assert_eq!(stepped(usize::MAX - 1, 1), usize::MAX);
    assert_eq!(stepped(5, 0), 5);
}

#[test]
fn preview_scroll_reveals_lines() {
    let mut s = ScrollState::new();
    s.set_viewport(10);
    s.reveal_line(25);
    assert_eq!(s.offset(), 16);
    s.reveal_line(3);
    assert_eq!(s.offset(), 3);
    s.reveal_line(8);
    assert_eq!(s.offset(), 3);
    assert!(s.move_by(1));
    assert_eq!(s.offset(), 6);
    s.reset();
    assert_eq!(s.offset(), 0);
    assert!(!s.move_by(-1));
}

#[test]
fn response_scroll_stays_in_bounds() {
    let mut s = ResponseScrollState::new();
    s.update_bounds(5);
    assert!(s.move_by(1));
    assert_eq!(s.offset(), 3);
    assert!(s.move_by(1));
    assert_eq!(s.offset(), 5);
    assert!(!s.move_by(1));
    s.set_offset(100);
    assert_eq!(s.offset(), 5);
    s.update_bounds(2);
    assert_eq!(s.offset(), 2);
    s.set_drag_anchor(Some((4, 1)));
    assert_eq!(s.drag_anchor(), Some((4, 1)));
    s.reset();
    assert_eq!(s.offset(), 0);
    assert_eq!(s.drag_anchor(), None);
}

#[test]
fn list_scroll_is_read_within_bounds() {
    let mut s = ListScrollState::new();
    s.set_offset(50, 20, 5);
    assert_eq!(s.offset, 15);
    assert_eq!(s.offset(10, 5), 5);
    s.move_by(-1, 20, 5);
    assert_eq!(s.offset, 12);
    s.move_by(1, 3, 5);
    assert_eq!(s.offset, 0);
}

#[test]
fn selections_order_their_ends() {
    let a = ResponseTextPoint { line: 4, grapheme: 2 };
    let b = ResponseTextPoint { line: 2, grapheme: 9 };
    let sel = ResponseSelection { anchor: a, head: b, text: String::new(), dragging: false };
    assert_eq!(sel.ordered(), (b, a));
}

#[test]
fn double_clicks_need_time_and_place() {
    let mut clicks = ClickSequence::new();
    assert!(!clicks.register(10, 5, 1000));
    assert!(clicks.register(11, 4, 1300));
    assert!(!clicks.register(11, 4, 1350));
    assert!(!clicks.register(13, 4, 1360));
    assert!(!clicks.register(13, 4, 1800));
    clicks.reset();
    assert!(clicks.previous.is_none());
}

#[test]
fn focus_goes_round() {
    assert_eq!(next_focus(ViewMode::Standard, Focus::Requests, false), Focus::Preview);
    assert_eq!(next_focus(ViewMode::Standard, Focus::Response, false), Focus::Requests);
    assert_eq!(next_focus(ViewMode::Standard, Focus::Requests, true), Focus::Response);
    assert_eq!(next_focus(ViewMode::Standard, Focus::Header, false), Focus::Response);
    assert_eq!(next_focus(ViewMode::ResponseZoom, Focus::Preview, true), Focus::Response);
}

#[test]
fn typing_first_replaces_the_value() {
    let mut input = EditInput::new("old".to_string());
    assert_eq!(input.mode(), EditMode::Replace);
    assert_eq!(input.cursor(), 3);
    typed(&mut input, "new");
    assert_eq!(input.value(), "new");
    assert_eq!(input.mode(), EditMode::Insert);
    assert_eq!(input.handle_command(Some(EditCommand::Confirm), None), EditAction::Confirm);
    assert_eq!(input.handle_command(Some(EditCommand::Back), None), EditAction::Cancel);
    assert_eq!(input.confirmed_value(), "new");
}

#[test]
fn select_all_then_typing_replaces_everything() {
    let mut input = EditInput::new("hello".to_string());
    input.handle_command(Some(EditCommand::End), None);
    typed(&mut input, "!");
    assert_eq!(input.value(), "hello!");
    input.handle_command(Some(EditCommand::SelectAll), None);
    typed(&mut input, "x");
    assert_eq!(input.value(), "x");
}

#[test]
fn cursor_moves_and_deletes_by_grapheme_and_word() {
    let mut input = EditInput::new("foo bar baz".to_string());
    input.handle_command(Some(EditCommand::End), None);
    input.handle_command(Some(EditCommand::DeleteWordLeft), None);
    assert_eq!(input.value(), "foo bar ");
    input.handle_command(Some(EditCommand::WordLeft), None);
    assert_eq!(input.cursor(), 4);
    input.handle_command(Some(EditCommand::DeleteToEnd), None);
    assert_eq!(input.value(), "foo ");
    input.handle_command(Some(EditCommand::Home), None);
    input.handle_command(Some(EditCommand::Delete), None);
    assert_eq!(input.value(), "oo ");
    input.handle_command(Some(EditCommand::Right), None);
    input.handle_command(Some(EditCommand::Backspace), None);
    assert_eq!(input.value(), "o ");
    input.handle_command(Some(EditCommand::Clear), None);
    assert_eq!(input.value(), "");
}

#[test]
fn combining_marks_move_together() {
    let mut input = EditInput::new("e\u{301}x".to_string());
    input.handle_command(Some(EditCommand::Home), None);
    input.handle_command(Some(EditCommand::Right), None);
    assert_eq!(input.cursor(), 2);
    assert_eq!(input.cursor_byte(), 3);
    input.handle_command(Some(EditCommand::Backspace), None);
    assert_eq!(input.value(), "x");
}

#[test]
fn clicks_place_the_cursor_by_column() {
    let mut input = EditInput::new("你好ab".to_string());
    input.place_cursor(3);
    assert_eq!(input.mode(), EditMode::Insert);
    assert_eq!(input.cursor(), 1);
    assert_eq!(input.cursor_width(), 2);
    input.place_cursor(4);
    assert_eq!(input.cursor(), 2);
    assert_eq!(input.cursor_width(), 4);
    input.place_cursor(99);
    assert_eq!(input.cursor(), 4);
    assert_eq!(terminal_width("你好ab"), 6);
}

#[test]
fn control_characters_are_not_typed() {
    let mut input = EditInput::new(String::new());
    typed(&mut input, "a\u{7}b");
    assert_eq!(input.value(), "ab");
}

#[test]
fn plain_bodies_are_indexed_by_display_line() {
    let body = b"first\r\nsecond\n\nlast";
    let index = PlainIndex::new(body);
    assert_eq!(index.line_count, 4);
    assert_eq!(index.ranges(body, 0, 10), vec![(0, 5), (7, 13), (14, 14), (15, 19)]);
    assert_eq!(index.ranges(body, 1, 1), vec![(7, 13)]);

    let long = vec![b'a'; 1100];
    let mut cursor = LineCursor::start();
    assert_eq!(cursor.next(&long), Some((0, 512)));
    assert_eq!(cursor.next(&long), Some((512, 1024)));
    assert_eq!(cursor.next(&long), Some((1024, 1100)));
    assert_eq!(cursor.next(&long), None);
}

#[test]
fn long_lines_break_on_character_boundaries() {
    let mut body = vec![b'a'; 511];
    body.extend_from_slice("é".as_bytes());
    let mut cursor = LineCursor::start();
    assert_eq!(cursor.next(&body), Some((0, 511)));
    assert_eq!(cursor.next(&body), Some((511, 513)));
    assert_eq!(cursor.next(&body), None);
}
