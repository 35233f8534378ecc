//! The editing model behind the `TextInput` component.
//!
//! Offsets count characters. Every editing command returns what the view
//! layer has to do afterwards (redraw, stop the event, write the clipboard),
//! and the state it leaves behind is described by a transition of
//! [`EditorModel`].

use vstd::prelude::*;
use std::ops::Range;
use vstd::utf8::*;
use vstd::string::StringSliceAdditionalSpecFns;
use crate::text::{chars_of, string_of, splice, splice_chars, slice_chars};

verus! {

pub open spec fn min_int(a: int, b: int) -> int {
    if a <= b { a } else { b }
}

pub open spec fn max_int(a: int, b: int) -> int {
    if a >= b { a } else { b }
}

/// The abstract state of a text input.
pub struct EditorModel {
    pub text: Seq<char>,
    pub cursor: int,
    pub anchor: Option<int>,
    pub marked: Option<(int, int)>,
    pub dragging: bool,
}

impl EditorModel {
    /// Offsets lie inside the text; a marked range is ordered.
    pub open spec fn wf(self) -> bool {
        &&& 0 <= self.cursor <= self.text.len()
        &&& (self.anchor matches Some(a) ==> 0 <= a <= self.text.len())
        &&& (self.marked matches Some(m) ==> 0 <= m.0 <= m.1)
    }

    /// A non-empty selection, if the anchor differs from the cursor.
    pub open spec fn has_selection(self) -> bool {
        self.anchor matches Some(a) && a != self.cursor
    }

    /// Start of the selection (the cursor when there is no anchor).
    pub open spec fn sel_start(self) -> int {
        match self.anchor {
            Some(a) => min_int(self.cursor, a),
            None => self.cursor,
        }
    }

    /// End of the selection (the cursor when there is no anchor).
    pub open spec fn sel_end(self) -> int {
        match self.anchor {
            Some(a) => max_int(self.cursor, a),
            None => self.cursor,
        }
    }

    pub open spec fn with_caret(self, cursor: int) -> EditorModel {
        EditorModel { cursor, anchor: None, ..self }
    }

    /// Left arrow: collapse a selection to its start, else move one back.
    pub open spec fn left(self) -> (EditorModel, bool) {
        if self.marked is Some {
            (self, false)
        } else if self.has_selection() {
            (self.with_caret(self.sel_start()), true)
        } else if self.cursor > 0 {
            (self.with_caret(self.cursor - 1), true)
        } else {
            (self.with_caret(self.cursor), false)
        }
    }

    /// Right arrow: collapse a selection to its end, else move one forward.
    pub open spec fn right(self) -> (EditorModel, bool) {
        if self.marked is Some {
            (self, false)
        } else if self.has_selection() {
            (self.with_caret(self.sel_end()), true)
        } else if self.cursor < self.text.len() {
            (self.with_caret(self.cursor + 1), true)
        } else {
            (self.with_caret(self.cursor), false)
        }
    }

    pub open spec fn anchored(self) -> EditorModel {
        match self.anchor {
            Some(_) => self,
            None => EditorModel { anchor: Some(self.cursor), ..self },
        }
    }

    /// Shift+Left: extend the selection one character back.
    pub open spec fn select_left(self) -> (EditorModel, bool) {
        if self.marked is Some {
            (self, false)
        } else if self.cursor > 0 {
            (EditorModel { cursor: self.cursor - 1, ..self.anchored() }, true)
        } else {
            (self.anchored(), false)
        }
    }

    /// Shift+Right: extend the selection one character forward.
    pub open spec fn select_right(self) -> (EditorModel, bool) {
        if self.marked is Some {
            (self, false)
        } else if self.cursor < self.text.len() {
            (EditorModel { cursor: self.cursor + 1, ..self.anchored() }, true)
        } else {
            (self.anchored(), false)
        }
    }

    /// Select all: anchor at the start, cursor at the end; nothing on empty text.
    pub open spec fn select_all(self) -> (EditorModel, bool) {
        if self.text.len() == 0 {
            (self, false)
        } else {
            (EditorModel { anchor: Some(0), cursor: self.text.len() as int, ..self }, true)
        }
    }

    /// The text with `[start, end)` removed and the caret at `start`.
    pub open spec fn delete_range(self, start: int, end: int) -> EditorModel {
        EditorModel {
            text: splice(self.text, start, end, Seq::empty()),
            cursor: start,
            anchor: None,
            ..self
        }
    }

    /// Backspace: delete the selection, else the character before the cursor.
    pub open spec fn backspace(self) -> (EditorModel, bool) {
        if self.marked is Some {
            (self, false)
        } else if self.has_selection() {
            (self.delete_range(self.sel_start(), self.sel_end()), true)
        } else if self.cursor > 0 {
            (self.delete_range(self.cursor - 1, self.cursor), true)
        } else {
            (self.with_caret(self.cursor), false)
        }
    }

    /// The text between anchor and cursor, when there is an anchor.
    pub open spec fn selected_text(self) -> Option<Seq<char>> {
        match self.anchor {
            Some(_) => Some(self.text.subrange(self.sel_start(), self.sel_end())),
            None => None,
        }
    }

    /// What copy writes to the clipboard: the non-empty selected text.
    pub open spec fn copied(self) -> Option<Seq<char>> {
        match self.selected_text() {
            Some(t) => if t.len() > 0 { Some(t) } else { None },
            None => None,
        }
    }

    /// Cut: with a non-empty selection, remove it (it goes to the clipboard).
    pub open spec fn cut(self) -> EditorModel {
        if self.copied() is Some {
            self.delete_range(self.sel_start(), self.sel_end())
        } else {
            self
        }
    }

    /// Paste a non-empty text over the selection (or at the cursor).
    pub open spec fn paste(self, clip: Seq<char>) -> EditorModel {
        if clip.len() == 0 {
            self
        } else {
            let start = self.sel_start();
            EditorModel {
                text: splice(self.text, start, self.sel_end(), clip),
                cursor: start + clip.len(),
                anchor: None,
                ..self
            }
        }
    }

    /// The range an IME replacement applies to: the given range, else the
    /// marked range, else the selection, else the caret.
    pub open spec fn target_range(self, replacement: Option<(int, int)>) -> (int, int) {
        match replacement {
            Some(r) => r,
            None => match self.marked {
                Some(m) => m,
                None => if self.has_selection() {
                    (self.sel_start(), self.sel_end())
                } else {
                    (self.cursor, self.cursor)
                },
            },
        }
    }

    /// `target_range` clamped to the text, with its end not before its start.
    pub open spec fn clamped_range(self, replacement: Option<(int, int)>) -> (int, int) {
        let r = self.target_range(replacement);
        let start = min_int(r.0, self.text.len() as int);
        let end = max_int(min_int(r.1, self.text.len() as int), start);
        (start, end)
    }

    /// Commit `ins` over the target range; caret after it, nothing marked.
    pub open spec fn replace_text(self, replacement: Option<(int, int)>, ins: Seq<char>) -> EditorModel {
        let (start, end) = self.clamped_range(replacement);
        EditorModel {
            text: splice(self.text, start, end, ins),
            cursor: start + ins.len(),
            anchor: None,
            marked: None,
            ..self
        }
    }

    /// Insert composing text `ins` over the target range and mark it.
    pub open spec fn replace_and_mark(
        self,
        replacement: Option<(int, int)>,
        ins: Seq<char>,
        selected_start: Option<int>,
    ) -> EditorModel {
        let (start, end) = self.clamped_range(replacement);
        EditorModel {
            text: splice(self.text, start, end, ins),
            cursor: match selected_start {
                Some(s) => start + s,
                None => start + ins.len(),
            },
            anchor: None,
            marked: Some((start, start + ins.len())),
            ..self
        }
    }

    /// Mouse press at character `index`: caret there, start dragging.
    pub open spec fn press(self, index: int) -> EditorModel {
        EditorModel { cursor: index, anchor: None, dragging: true, ..self }
    }

    /// Mouse move to character `index`: while dragging, extend the selection.
    pub open spec fn drag(self, index: int) -> (EditorModel, bool) {
        if self.dragging {
            let anchor = if self.anchor is None && index != self.cursor {
                Some(self.cursor)
            } else {
                self.anchor
            };
            (EditorModel { cursor: index, anchor, ..self }, true)
        } else {
            (self, false)
        }
    }
}

/// The number of characters of `text` that lie before byte `byte_index`
/// (clamped to the text), as a layout hit-test is turned into a caret offset.
pub fn char_index_for_byte(text: &str, byte_index: usize) -> (r: usize)
    requires
        text.spec_bytes().len() <= usize::MAX,
        is_char_boundary(text.spec_bytes(), min_int(byte_index as int, text.spec_bytes().len() as int)),
    ensures
        r == decode_utf8(text.spec_bytes().subrange(
            0,
            min_int(byte_index as int, text.spec_bytes().len() as int),
        )).len(),
{
    let n = text.len();
    let b = if byte_index <= n { byte_index } else { n };
    let (prefix, _) = text.split_at(b);
    proof {
        broadcast use vstd::utf8::group_utf8_lib;
        assert(prefix.spec_bytes() == encode_utf8(prefix@));
        assert(decode_utf8(encode_utf8(prefix@)) == prefix@);
    }
    prefix.unicode_len()
}

/// Every editing command keeps the offsets of a well-formed input inside
/// its text (and a marked range ordered).
pub proof fn lemma_commands_keep_wf(m: EditorModel, index: int, clip: Seq<char>, replacement: Option<(int, int)>, ins: Seq<char>, selected_start: Option<int>)
    requires
        m.wf(),
        0 <= index <= m.text.len(),
        selected_start matches Some(s) ==> 0 <= s <= ins.len(),
        replacement matches Some(r) ==> 0 <= r.0,
    ensures
        m.left().0.wf(),
        m.right().0.wf(),
        m.select_left().0.wf(),
        m.select_right().0.wf(),
        m.select_all().0.wf(),
        m.backspace().0.wf(),
        m.cut().wf(),
        m.paste(clip).wf(),
        m.replace_text(replacement, ins).wf(),
        m.replace_and_mark(replacement, ins, selected_start).wf(),
        m.press(index).wf(),
        m.drag(index).0.wf(),
{
}

/// Typed text replaces the selection: with nothing marked and a non-empty
/// selection between the caret and the anchor, committing `t` without a
/// range puts `t` in place of the selected characters, leaves the caret
/// just after it and clears the selection. Without a selection, `t` is
/// inserted at the caret.
pub proof fn lemma_typing_replaces_selection(m: EditorModel, t: Seq<char>, a: int)
    requires
        m.wf(),
        m.marked is None,
    ensures
        m.anchor == Some(a) && a != m.cursor ==> {
            let s = if a < m.cursor { a } else { m.cursor };
            let e = if a < m.cursor { m.cursor } else { a };
            &&& m.replace_text(None, t).text
                == m.text.subrange(0, s) + t + m.text.subrange(e, m.text.len() as int)
            &&& m.replace_text(None, t).cursor == s + t.len()
            &&& m.replace_text(None, t).anchor is None
        },
        !(m.anchor matches Some(a) && a != m.cursor) ==> {
            &&& m.replace_text(None, t).text
                == m.text.subrange(0, m.cursor) + t + m.text.subrange(m.cursor, m.text.len() as int)
            &&& m.replace_text(None, t).cursor == m.cursor + t.len()
        },
{
}

/// Committed text can be read back: after replacing `[a, b)` by `t`, the
/// characters at `[a, a + |t|)` are `t` and the caret follows them.
pub proof fn lemma_replace_then_read(m: EditorModel, a: int, b: int, t: Seq<char>)
    requires
        m.wf(),
        0 <= a <= b <= m.text.len(),
    ensures
        m.replace_text(Some((a, b)), t).text.subrange(a, a + t.len()) == t,
        m.replace_text(Some((a, b)), t).cursor == a + t.len(),
        m.replace_text(Some((a, b)), t).text.len() == m.text.len() - (b - a) + t.len(),
{
    let r = m.replace_text(Some((a, b)), t);
    assert(r.text.subrange(a, a + t.len()) =~= t);
}

/// Cutting a selection and pasting the cut text back restores the text;
/// the caret ends where the selection ended.
pub proof fn lemma_cut_then_paste_restores(m: EditorModel)
    requires
        m.wf(),
        m.copied() is Some,
    ensures
        m.cut().paste(m.copied()->0).text == m.text,
        m.cut().paste(m.copied()->0).cursor == m.sel_end(),
{
    let t = m.copied()->0;
    let c = m.cut();
    let p = c.paste(t);
    assert(c.sel_start() == m.sel_start());
    assert(p.text =~= m.text);
}

/// After select-all, copy yields the whole (non-empty) text and backspace
/// empties the input.
pub proof fn lemma_select_all_then_copy_or_delete(m: EditorModel)
    requires
        m.wf(),
        m.text.len() > 0,
        m.marked is None,
    ensures
        m.select_all().0.copied() == Some(m.text),
        m.select_all().0.backspace().0.text.len() == 0,
        m.select_all().0.backspace().0.cursor == 0,
{
    let s = m.select_all().0;
    assert(s.text.subrange(0, s.text.len() as int) =~= m.text);
    assert(s.backspace().0.text =~= Seq::<char>::empty());
}

/// Without a selection or composition, moving right then left returns the
/// caret to where it was.
pub proof fn lemma_right_then_left(m: EditorModel)
    requires
        m.wf(),
        m.marked is None,
        !m.has_selection(),
        m.cursor < m.text.len(),
    ensures
        m.right().0.left().0.cursor == m.cursor,
        m.right().1 && m.right().0.left().1,
{
}

/// Typing one character at the caret and then pressing backspace restores
/// the text and the caret.
pub proof fn lemma_type_then_backspace(m: EditorModel, c: char)
    requires
        m.wf(),
        m.marked is None,
        !m.has_selection(),
    ensures
        m.replace_text(None, seq![c]).backspace().0.text == m.text,
        m.replace_text(None, seq![c]).backspace().0.cursor == m.cursor,
{
    let t = m.replace_text(None, seq![c]);
    assert(t.cursor == m.cursor + 1);
    assert(t.text =~= m.text.subrange(0, m.cursor) + seq![c] + m.text.subrange(m.cursor, m.text.len() as int));
    assert(t.backspace().0.text =~= m.text);
}

/// Committing text while composing replaces the composing text: the result
/// is as if the text had been committed in place of the composition.
pub proof fn lemma_commit_replaces_composition(m: EditorModel, comp: Seq<char>, t: Seq<char>)
    requires
        m.wf(),
    ensures
        m.replace_and_mark(None, comp, None).replace_text(None, t).text == m.replace_text(None, t).text,
        m.replace_and_mark(None, comp, None).replace_text(None, t).cursor == m.replace_text(None, t).cursor,
        m.replace_and_mark(None, comp, None).replace_text(None, t).marked is None,
{
    let k = m.replace_and_mark(None, comp, None);
    let (s, e) = m.clamped_range(None);
    assert(k.text.len() == m.text.len() - (e - s) + comp.len());
    assert(k.clamped_range(None) == (s, s + comp.len()));
    assert(k.replace_text(None, t).text =~= m.replace_text(None, t).text);
}

/// A selection as reported to the input method: an ordered range and
/// whether the cursor sits at its start.
pub struct TextSelection {
    pub range: Range<usize>,
    pub reversed: bool,
}

/// What the view draws for the input.
pub struct InputView {
    /// Text before the selection (or the placeholder when shown).
    pub before: String,
    pub selected: String,
    pub after: String,
    /// The composing text, clamped to the text.
    pub marked: String,
    pub show_placeholder: bool,
    /// A caret drawn before the selected text.
    pub caret_before_selection: bool,
    /// A caret drawn after the selected text.
    pub caret_after_selection: bool,
    pub show_marked: bool,
}

/// The editable state of a single-line text input.
pub struct TextInput {
    text: String,
    cursor_offset: usize,
    selection_anchor: Option<usize>,
    marked_range: Option<Range<usize>>,
    is_dragging: bool,
}

pub open spec fn range_pair(r: Range<usize>) -> (int, int) {
    (r.start as int, r.end as int)
}

pub open spec fn opt_range_pair(r: Option<Range<usize>>) -> Option<(int, int)> {
    match r {
        Some(r) => Some(range_pair(r)),
        None => None,
    }
}

impl View for TextInput {
    type V = EditorModel;

    closed spec fn view(&self) -> EditorModel {
        EditorModel {
            text: self.text@,
            cursor: self.cursor_offset as int,
            anchor: match self.selection_anchor {
                Some(a) => Some(a as int),
                None => None,
            },
            marked: opt_range_pair(self.marked_range),
            dragging: self.is_dragging,
        }
    }
}

impl TextInput {
    /// An empty input with the caret at 0.
    pub fn new() -> (r: Self)
        ensures
            r@ == (EditorModel {
                text: Seq::empty(),
                cursor: 0,
                anchor: None,
                marked: None,
                dragging: false,
            }),
    {
        TextInput {
            text: String::new(),
            cursor_offset: 0,
            selection_anchor: None,
            marked_range: None,
            is_dragging: false,
        }
    }

    /// The text of the input.
    pub fn text(&self) -> (r: &str)
        ensures
            r@ == self@.text,
    {
        self.text.as_str()
    }

    fn set_caret(&mut self, cursor: usize)
        ensures
            final(self)@ == old(self)@.with_caret(cursor as int),
    {
        self.cursor_offset = cursor;
        self.selection_anchor = None;
    }

    /// Ordered selection bounds of the current state.
    fn selection_bounds(&self) -> (r: (usize, usize))
        ensures
            r.0 == self@.sel_start(),
            r.1 == self@.sel_end(),
    {
        match self.selection_anchor {
            Some(a) => if self.cursor_offset <= a {
                (self.cursor_offset, a)
            } else {
                (a, self.cursor_offset)
            },
            None => (self.cursor_offset, self.cursor_offset),
        }
    }

    fn has_selection(&self) -> (r: bool)
        ensures
            r == self@.has_selection(),
    {
        match self.selection_anchor {
            Some(a) => a != self.cursor_offset,
            None => false,
        }
    }

    /// Left arrow. Returns whether the view must be redrawn.
    pub fn left(&mut self) -> (notify: bool)
        requires
            old(self)@.wf(),
        ensures
            (final(self)@, notify) == old(self)@.left(),
            final(self)@.wf(),
    {
        if self.marked_range.is_some() {
            return false;
        }
        if self.has_selection() {
            let (s, _) = self.selection_bounds();
            self.set_caret(s);
            return true;
        }
        let c = self.cursor_offset;
        if c > 0 {
            self.set_caret(c - 1);
            true
        } else {
            self.set_caret(c);
            false
        }
    }

    /// Right arrow. Returns whether the view must be redrawn.
    pub fn right(&mut self) -> (notify: bool)
        requires
            old(self)@.wf(),
        ensures
            (final(self)@, notify) == old(self)@.right(),
            final(self)@.wf(),
    {
        if self.marked_range.is_some() {
            return false;
        }
        if self.has_selection() {
            let (_, e) = self.selection_bounds();
            self.set_caret(e);
            return true;
        }
        let c = self.cursor_offset;
        let len = self.text.as_str().unicode_len();
        if c < len {
            self.set_caret(c + 1);
            true
        } else {
            self.set_caret(c);
            false
        }
    }

    fn ensure_anchor(&mut self)
        ensures
            final(self)@ == old(self)@.anchored(),
    {
        if self.selection_anchor.is_none() {
            self.selection_anchor = Some(self.cursor_offset);
        }
    }

    /// Shift+Left. Returns whether the view must be redrawn.
    pub fn select_left(&mut self) -> (notify: bool)
        requires
            old(self)@.wf(),
        ensures
            (final(self)@, notify) == old(self)@.select_left(),
            final(self)@.wf(),
    {
        if self.marked_range.is_some() {
            return false;
        }
        self.ensure_anchor();
        if self.cursor_offset > 0 {
            self.cursor_offset = self.cursor_offset - 1;
            true
        } else {
            false
        }
    }

    /// Shift+Right. Returns whether the view must be redrawn.
    pub fn select_right(&mut self) -> (notify: bool)
        requires
            old(self)@.wf(),
        ensures
            (final(self)@, notify) == old(self)@.select_right(),
            final(self)@.wf(),
    {
        if self.marked_range.is_some() {
            return false;
        }
        self.ensure_anchor();
        let len = self.text.as_str().unicode_len();
        if self.cursor_offset < len {
            self.cursor_offset = self.cursor_offset + 1;
            true
        } else {
            false
        }
    }

    /// Select all. Returns whether the command was handled (the view is
    /// redrawn and the event stops here); it is not on empty text.
    pub fn select_all(&mut self) -> (handled: bool)
        requires
            old(self)@.wf(),
        ensures
            (final(self)@, handled) == old(self)@.select_all(),
            final(self)@.wf(),
    {
        let len = self.text.as_str().unicode_len();
        if len == 0 {
            return false;
        }
        self.selection_anchor = Some(0);
        self.cursor_offset = len;
        true
    }

    fn replace_chars(&mut self, start: usize, end: usize, ins: &[char]) -> (new_len: usize)
        requires
            start <= end <= old(self)@.text.len(),
        ensures
            final(self)@ == (EditorModel {
                text: splice(old(self)@.text, start as int, end as int, ins@),
                ..old(self)@
            }),
            new_len == final(self)@.text.len(),
    {
        let chars = chars_of(self.text.as_str());
        let edited = splice_chars(&chars, start, end, ins);
        let n = edited.len();
        self.text = string_of(&edited);
        n
    }

    /// Backspace. Returns whether the view must be redrawn.
    pub fn backspace(&mut self) -> (notify: bool)
        requires
            old(self)@.wf(),
        ensures
            (final(self)@, notify) == old(self)@.backspace(),
            final(self)@.wf(),
    {
        if self.marked_range.is_some() {
            return false;
        }
        if self.has_selection() {
            let (s, e) = self.selection_bounds();
            self.replace_chars(s, e, &[]);
            self.set_caret(s);
            return true;
        }
        let c = self.cursor_offset;
        if c > 0 {
            self.replace_chars(c - 1, c, &[]);
            self.set_caret(c - 1);
            true
        } else {
            self.set_caret(c);
            false
        }
    }

    /// Copy: the text to write to the clipboard, if a non-empty range is selected.
    pub fn copy(&self) -> (clip: Option<String>)
        requires
            self@.wf(),
        ensures
            match clip {
                Some(t) => self@.copied() == Some(t@),
                None => self@.copied() is None,
            },
    {
        match self.selection_anchor {
            Some(_) => {
                let (s, e) = self.selection_bounds();
                let chars = chars_of(self.text.as_str());
                let sel = slice_chars(&chars, s, e);
                if sel.len() > 0 {
                    Some(string_of(&sel))
                } else {
                    None
                }
            },
            None => None,
        }
    }

    /// Cut: removes a non-empty selection and returns it for the clipboard.
    /// The view must be redrawn exactly when something was cut.
    pub fn cut(&mut self) -> (clip: Option<String>)
        requires
            old(self)@.wf(),
        ensures
            match clip {
                Some(t) => old(self)@.copied() == Some(t@),
                None => old(self)@.copied() is None,
            },
            final(self)@ == old(self)@.cut(),
            final(self)@.wf(),
    {
        let clip = self.copy();
        if clip.is_some() {
            let (s, e) = self.selection_bounds();
            self.replace_chars(s, e, &[]);
            self.set_caret(s);
        }
        clip
    }

    /// Paste the clipboard text, if any and non-empty, over the selection.
    /// Returns whether the view must be redrawn.
    pub fn paste(&mut self, clipboard: Option<&str>) -> (notify: bool)
        requires
            old(self)@.wf(),
        ensures
            notify == (clipboard matches Some(t) && t@.len() > 0),
            final(self)@ == match clipboard {
                Some(t) => old(self)@.paste(t@),
                None => old(self)@,
            },
            final(self)@.wf(),
    {
        match clipboard {
            Some(t) => {
                let ins = chars_of(t);
                if ins.len() == 0 {
                    return false;
                }
                let (s, e) = self.selection_bounds();
                let n = self.replace_chars(s, e, &ins);
                proof {
                    assert(s + ins@.len() <= n);
                }
                self.set_caret(s + ins.len());
                true
            },
            None => false,
        }
    }

    fn clamped_range(&self, replacement: &Option<Range<usize>>) -> (r: (usize, usize))
        requires
            self@.wf(),
        ensures
            (r.0 as int, r.1 as int) == self@.clamped_range(opt_range_pair(*replacement)),
            r.0 <= r.1 <= self@.text.len(),
    {
        let (start, end) = match replacement {
            Some(r) => (r.start, r.end),
            None => match &self.marked_range {
                Some(m) => (m.start, m.end),
                None => if self.has_selection() {
                    self.selection_bounds()
                } else {
                    (self.cursor_offset, self.cursor_offset)
                },
            },
        };
        let len = self.text.as_str().unicode_len();
        let s = if start <= len { start } else { len };
        let e0 = if end <= len { end } else { len };
        let e = if e0 >= s { e0 } else { s };
        (s, e)
    }

    /// Commit text from the input method over the target range.
    /// The view is always redrawn.
    pub fn replace_text_in_range(&mut self, replacement_range: Option<Range<usize>>, text: &str)
        requires
            old(self)@.wf(),
        ensures
            final(self)@ == old(self)@.replace_text(opt_range_pair(replacement_range), text@),
            final(self)@.wf(),
    {
        let (s, e) = self.clamped_range(&replacement_range);
        let ins = chars_of(text);
        let n = self.replace_chars(s, e, &ins);
        proof {
            assert(s + ins@.len() <= n);
        }
        self.set_caret(s + ins.len());
        self.marked_range = None;
    }

    /// Insert composing text from the input method over the target range and
    /// mark it. The caret goes to `new_selected_range.start` within the new
    /// text, or after it. The view is always redrawn.
    pub fn replace_and_mark_text_in_range(
        &mut self,
        replacement_range: Option<Range<usize>>,
        new_text: &str,
        new_selected_range: Option<Range<usize>>,
    )
        requires
            old(self)@.wf(),
            new_selected_range matches Some(r)
                ==> old(self)@.clamped_range(opt_range_pair(replacement_range)).0 + r.start <= usize::MAX,
        ensures
            final(self)@ == old(self)@.replace_and_mark(
                opt_range_pair(replacement_range),
                new_text@,
                match new_selected_range {
                    Some(r) => Some(r.start as int),
                    None => None,
                },
            ),
            final(self)@.wf() <==> final(self)@.cursor <= final(self)@.text.len(),
    {
        let (s, e) = self.clamped_range(&replacement_range);
        let ins = chars_of(new_text);
        let n = self.replace_chars(s, e, &ins);
        proof {
            assert(s + ins@.len() <= n);
        }
        let marked_end = s + ins.len();
        let cursor = match new_selected_range {
            Some(r) => s + r.start,
            None => marked_end,
        };
        self.set_caret(cursor);
        self.marked_range = Some(s..marked_end);
    }

    /// End the composition. The view is always redrawn.
    pub fn unmark_text(&mut self)
        ensures
            final(self)@ == (EditorModel { marked: None, ..old(self)@ }),
    {
        self.marked_range = None;
    }

    /// The marked (composing) range, if any.
    pub fn marked_text_range(&self) -> (r: Option<Range<usize>>)
        ensures
            opt_range_pair(r) == self@.marked,
    {
        match &self.marked_range {
            Some(m) => Some(m.start..m.end),
            None => None,
        }
    }

    /// The selection as reported to the input method.
    pub fn selected_text_range(&self) -> (r: TextSelection)
        ensures
            r.range.start == self@.sel_start(),
            r.range.end == self@.sel_end(),
            r.reversed == (self@.anchor matches Some(a) && self@.cursor < a),
    {
        let (s, e) = self.selection_bounds();
        let reversed = match self.selection_anchor {
            Some(a) => self.cursor_offset < a,
            None => false,
        };
        TextSelection { range: s..e, reversed }
    }

    /// The characters in `range`, or `None` when it ends past the text.
    pub fn text_for_range(&self, range: Range<usize>) -> (r: Option<String>)
        requires
            range.end <= self@.text.len() ==> range.start <= range.end,
        ensures
            match r {
                Some(t) => range.end <= self@.text.len()
                    && t@ == self@.text.subrange(range.start as int, range.end as int),
                None => range.end > self@.text.len(),
            },
    {
        let chars = chars_of(self.text.as_str());
        if range.end <= chars.len() {
            Some(string_of(&slice_chars(&chars, range.start, range.end)))
        } else {
            None
        }
    }

    /// Mouse press resolved to character `index`: caret there, dragging
    /// starts. The view is redrawn.
    pub fn mouse_down(&mut self, index: usize)
        requires
            old(self)@.wf(),
            index <= old(self)@.text.len(),
        ensures
            final(self)@ == old(self)@.press(index as int),
            final(self)@.wf(),
    {
        self.set_caret(index);
        self.is_dragging = true;
    }

    /// Mouse move resolved to character `index`. Returns whether the view
    /// must be redrawn (only while dragging).
    pub fn mouse_move(&mut self, index: usize) -> (notify: bool)
        requires
            old(self)@.wf(),
            index <= old(self)@.text.len(),
        ensures
            (final(self)@, notify) == old(self)@.drag(index as int),
            final(self)@.wf(),
    {
        if !self.is_dragging {
            return false;
        }
        if self.selection_anchor.is_none() && index != self.cursor_offset {
            self.selection_anchor = Some(self.cursor_offset);
        }
        self.cursor_offset = index;
        true
    }

    /// What to draw: the text split around the selection, the composing
    /// text, and where the caret goes.
    pub fn view_parts(&self, is_focused: bool) -> (v: InputView)
        requires
            self@.wf(),
        ensures
            v.before@ == self@.text.subrange(0, self@.sel_start()),
            v.selected@ == self@.text.subrange(self@.sel_start(), self@.sel_end()),
            v.after@ == self@.text.subrange(self@.sel_end(), self@.text.len() as int),
            v.marked@ == match self@.marked {
                Some(m) => self@.text.subrange(
                    min_int(m.0, self@.text.len() as int),
                    min_int(m.1, self@.text.len() as int),
                ),
                None => Seq::empty(),
            },
            v.show_placeholder == (self@.text.len() == 0 && !is_focused),
            v.caret_before_selection == (is_focused && self@.sel_start() < self@.sel_end()
                && self@.cursor == self@.sel_start()),
            v.caret_after_selection == (is_focused && (self@.sel_start() == self@.sel_end()
                || self@.cursor == self@.sel_end())),
            v.show_marked == (self@.marked is Some),
    {
        let chars = chars_of(self.text.as_str());
        let len = chars.len();
        let (s, e) = self.selection_bounds();
        let before = string_of(&slice_chars(&chars, 0, s));
        let selected = string_of(&slice_chars(&chars, s, e));
        let after = string_of(&slice_chars(&chars, e, len));
        let marked = match &self.marked_range {
            Some(m) => {
                let ms = if m.start <= len { m.start } else { len };
                let me = if m.end <= len { m.end } else { len };
                string_of(&slice_chars(&chars, ms, me))
            },
            None => String::new(),
        };
        let c = self.cursor_offset;
        InputView {
            before,
            selected,
            after,
            marked,
            show_placeholder: len == 0 && !is_focused,
            caret_before_selection: is_focused && s < e && c == s,
            caret_after_selection: is_focused && (s == e || c == e),
            show_marked: self.marked_range.is_some(),
        }
    }

    /// Mouse release: dragging stops.
    pub fn mouse_up(&mut self)
        ensures
            final(self)@ == (EditorModel { dragging: false, ..old(self)@ }),
    {
        self.is_dragging = false;
    }
}

} // verus!
