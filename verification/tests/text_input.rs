use gpux::components::text_input::{char_index_for_byte, TextInput};

fn typed(s: &str) -> TextInput {
    let mut t = TextInput::new();
    t.replace_text_in_range(None, s);
    t
}

#[test]
fn new_input_is_empty() {
    let t = TextInput::new();
    assert_eq!(t.text(), "");
    let sel = t.selected_text_range();
    assert_eq!(sel.range, 0..0);
    assert!(!sel.reversed);
    assert_eq!(t.marked_text_range(), None);
}

#[test]
fn typing_inserts_at_caret() {
    let mut t = typed("hello");
    assert_eq!(t.text(), "hello");
    assert_eq!(t.selected_text_range().range, 5..5);
    assert!(t.left());
    assert!(t.left());
    t.replace_text_in_range(None, "X");
    assert_eq!(t.text(), "helXlo");
    assert_eq!(t.selected_text_range().range, 4..4);
}

#[test]
fn left_right_at_edges() {
    let mut t = typed("ab");
    assert!(!t.right());
    assert!(t.left());
    assert!(t.left());
    assert!(!t.left());
    assert_eq!(t.selected_text_range().range, 0..0);
    assert!(t.right());
    assert_eq!(t.selected_text_range().range, 1..1);
}

#[test]
fn arrows_collapse_selection() {
    let mut t = typed("abcd");
    assert!(t.select_left());
    assert!(t.select_left());
    let sel = t.selected_text_range();
    assert_eq!(sel.range, 2..4);
    assert!(sel.reversed);
    assert!(t.left());
    assert_eq!(t.selected_text_range().range, 2..2);
    assert!(t.select_right());
    assert!(t.right());
    assert_eq!(t.selected_text_range().range, 3..3);
}

#[test]
fn select_all_copy_and_backspace() {
    let mut t = typed("héllo");
    assert!(t.select_all());
    assert_eq!(t.copy(), Some("héllo".to_string()));
    assert!(t.backspace());
    assert_eq!(t.text(), "");
    assert!(!t.select_all());
}

#[test]
fn backspace_removes_previous_char() {
    let mut t = typed("abc");
    assert!(t.backspace());
    assert_eq!(t.text(), "ab");
    assert_eq!(t.selected_text_range().range, 2..2);
    let mut e = TextInput::new();
    assert!(!e.backspace());
}

#[test]
fn type_then_backspace_restores() {
    let mut t = typed("abc");
    t.left();
    t.replace_text_in_range(None, "z");
    assert_eq!(t.text(), "abzc");
    t.backspace();
    assert_eq!(t.text(), "abc");
    assert_eq!(t.selected_text_range().range, 2..2);
}

#[test]
fn cut_then_paste_restores() {
    let mut t = typed("hello world");
    for _ in 0..5 {
        t.select_left();
    }
    let clip = t.cut();
    assert_eq!(clip, Some("world".to_string()));
    assert_eq!(t.text(), "hello ");
    assert!(t.paste(clip.as_deref()));
    assert_eq!(t.text(), "hello world");
    assert_eq!(t.selected_text_range().range, 11..11);
}

#[test]
fn copy_without_selection_is_none() {
    let t = typed("abc");
    assert_eq!(t.copy(), None);
    let mut u = typed("abc");
    assert_eq!(u.cut(), None);
    assert_eq!(u.text(), "abc");
}

#[test]
fn paste_replaces_selection() {
    let mut t = typed("abcdef");
    t.left();
    t.select_left();
    t.select_left();
    assert!(t.paste(Some("XY")));
    assert_eq!(t.text(), "abcXYf");
    assert_eq!(t.selected_text_range().range, 5..5);
    assert!(!t.paste(Some("")));
    assert!(!t.paste(None));
    assert_eq!(t.text(), "abcXYf");
}

#[test]
fn replace_explicit_range_then_read() {
    let mut t = typed("abcdef");
    t.replace_text_in_range(Some(1..3), "ZZZ");
    assert_eq!(t.text(), "aZZZdef");
    assert_eq!(t.text_for_range(1..4), Some("ZZZ".to_string()));
    assert_eq!(t.selected_text_range().range, 4..4);
    assert_eq!(t.text_for_range(0..99), None);
    t.replace_text_in_range(Some(5..100), "!");
    assert_eq!(t.text(), "aZZZd!");
    t.replace_text_in_range(Some(50..60), "?");
    assert_eq!(t.text(), "aZZZd!?");
}

#[test]
fn composition_is_marked_then_committed() {
    let mut t = typed("ab");
    t.replace_and_mark_text_in_range(None, "にほ", None);
    assert_eq!(t.text(), "abにほ");
    assert_eq!(t.marked_text_range(), Some(2..4));
    assert_eq!(t.selected_text_range().range, 4..4);
    assert!(!t.left());
    assert!(!t.backspace());
    t.replace_and_mark_text_in_range(None, "日本", Some(1..1));
    assert_eq!(t.text(), "ab日本");
    assert_eq!(t.selected_text_range().range, 3..3);
    t.replace_text_in_range(None, "日本語");
    assert_eq!(t.text(), "ab日本語");
    assert_eq!(t.marked_text_range(), None);
    assert_eq!(t.selected_text_range().range, 5..5);
}

#[test]
fn unmark_keeps_text() {
    let mut t = TextInput::new();
    t.replace_and_mark_text_in_range(None, "x", None);
    t.unmark_text();
    assert_eq!(t.marked_text_range(), None);
    assert_eq!(t.text(), "x");
}

#[test]
fn mouse_drag_selects() {
    let mut t = typed("abcdef");
    t.mouse_down(1);
    assert_eq!(t.selected_text_range().range, 1..1);
    assert!(t.mouse_move(4));
    let sel = t.selected_text_range();
    assert_eq!(sel.range, 1..4);
    assert!(!sel.reversed);
    t.mouse_up();
    assert!(!t.mouse_move(5));
    assert_eq!(t.copy(), Some("bcd".to_string()));
}

#[test]
fn view_parts_split_around_selection() {
    let mut t = typed("abcdef");
    t.select_left();
    t.select_left();
    let v = t.view_parts(true);
    assert_eq!(v.before, "abcd");
    assert_eq!(v.selected, "ef");
    assert_eq!(v.after, "");
    assert!(v.caret_before_selection);
    assert!(!v.caret_after_selection);
    assert!(!v.show_placeholder);
    let e = TextInput::new();
    let ev = e.view_parts(false);
    assert!(ev.show_placeholder);
    assert!(!ev.caret_after_selection);
    let mut m = typed("ab");
    m.replace_and_mark_text_in_range(None, "cd", None);
    let mv = m.view_parts(true);
    assert_eq!(mv.marked, "cd");
    assert!(mv.show_marked);
    assert!(mv.caret_after_selection);
}

#[test]
fn byte_index_to_char_index() {
    assert_eq!(char_index_for_byte("héllo", 3), 2);
    assert_eq!(char_index_for_byte("héllo", 0), 0);
    assert_eq!(char_index_for_byte("héllo", 100), 5);
}

#[test]
fn selection_may_reach_past_the_composition() {
    let mut t = typed("abc");
    t.replace_and_mark_text_in_range(Some(0..1), "x", Some(2..2));
    assert_eq!(t.text(), "xbc");
    assert_eq!(t.marked_text_range(), Some(0..1));
    assert_eq!(t.selected_text_range().range, 2..2);
}
