//! The global text selection: a drag rectangle in reading order across the
//! text nodes painted in the last frame, and what copying it yields.
//!
//! Points, bounds and text layouts are the caller's types; comparisons in
//! reading order and layout hit tests are supplied by the caller.

use vstd::prelude::*;
use vstd::utf8::{valid_utf8, decode_utf8};
use vstd::slice::slice_subrange;
use crate::text::{chars_of, eq_chars, string_of, trim_end_by, trim_end_white_space, white_space_pred};

verus! {

/// A text node painted in the current frame.
pub struct RegisteredTextNode<B, L> {
    pub bounds: B,
    pub text: String,
    pub layout: L,
}

/// The selection drag and the text nodes of the current frame.
pub struct GlobalSelectionState<P, B, L> {
    pub start: Option<P>,
    pub end: Option<P>,
    pub is_dragging: bool,
    pub frame_nodes: Vec<RegisteredTextNode<B, L>>,
}

impl<P, B, L> GlobalSelectionState<P, B, L> {
    /// No selection, not dragging, no nodes.
    pub fn new() -> (r: Self)
        ensures
            r.start is None,
            r.end is None,
            !r.is_dragging,
            r.frame_nodes@.len() == 0,
    {
        GlobalSelectionState { start: None, end: None, is_dragging: false, frame_nodes: Vec::new() }
    }

    /// Mouse move to `position`: while dragging, the selection's end follows.
    /// Returns whether the window must be refreshed.
    pub fn mouse_move(&mut self, position: P) -> (refresh: bool)
        ensures
            refresh == old(self).is_dragging,
            final(self).end == if old(self).is_dragging { Some(position) } else { old(self).end },
            final(self).start == old(self).start,
            final(self).is_dragging == old(self).is_dragging,
            final(self).frame_nodes == old(self).frame_nodes,
    {
        if self.is_dragging {
            self.end = Some(position);
            true
        } else {
            false
        }
    }

    /// Mouse release: the drag ends, the selection stays.
    pub fn mouse_up(&mut self)
        ensures
            final(self).start == old(self).start,
            final(self).end == old(self).end,
            !final(self).is_dragging,
            final(self).frame_nodes == old(self).frame_nodes,
    {
        self.is_dragging = false;
    }

    /// Scrolling clears the selection and ends any drag.
    pub fn scroll(&mut self)
        ensures
            final(self).start is None,
            final(self).end is None,
            !final(self).is_dragging,
            final(self).frame_nodes == old(self).frame_nodes,
    {
        self.start = None;
        self.end = None;
        self.is_dragging = false;
    }

    /// Select all: from the first node's origin to the last node's far
    /// corner (`span`, computed by the caller from those nodes); nothing
    /// happens when no node was painted.
    pub fn select_all(&mut self, span: (P, P))
        ensures
            old(self).frame_nodes@.len() > 0 ==> final(self).start == Some(span.0)
                && final(self).end == Some(span.1),
            old(self).frame_nodes@.len() == 0 ==> final(self).start == old(self).start
                && final(self).end == old(self).end,
            final(self).is_dragging == old(self).is_dragging,
            final(self).frame_nodes == old(self).frame_nodes,
    {
        if self.frame_nodes.len() > 0 {
            self.start = Some(span.0);
            self.end = Some(span.1);
        }
    }

    /// A new frame starts: the painted nodes are forgotten.
    pub fn begin_frame(&mut self)
        ensures
            final(self).frame_nodes@.len() == 0,
            final(self).start == old(self).start,
            final(self).end == old(self).end,
            final(self).is_dragging == old(self).is_dragging,
    {
        self.frame_nodes = Vec::new();
    }

    /// A text node was painted in this frame.
    pub fn register(&mut self, node: RegisteredTextNode<B, L>)
        ensures
            final(self).frame_nodes@ == old(self).frame_nodes@.push(node),
            final(self).start == old(self).start,
            final(self).end == old(self).end,
            final(self).is_dragging == old(self).is_dragging,
    {
        self.frame_nodes.push(node);
    }

    /// The first node of this frame whose text is `text`.
    pub fn find_node(&self, text: &str) -> (r: Option<usize>)
        ensures
            match r {
                Some(i) => i < self.frame_nodes@.len() && self.frame_nodes@[i as int].text@ == text@
                    && forall|j: int| 0 <= j < i ==> (#[trigger] self.frame_nodes@[j]).text@ != text@,
                None => forall|j: int| 0 <= j < self.frame_nodes@.len() ==> (#[trigger] self.frame_nodes@[j]).text@ != text@,
            },
    {
        let want = chars_of(text);
        let mut i: usize = 0;
        while i < self.frame_nodes.len()
            invariant
                i <= self.frame_nodes@.len(),
                want@ == text@,
                forall|j: int| 0 <= j < i ==> (#[trigger] self.frame_nodes@[j]).text@ != text@,
            decreases self.frame_nodes@.len() - i,
        {
            let have = chars_of(self.frame_nodes[i].text.as_str());
            if eq_chars(&have, &want) {
                return Some(i);
            }
            i += 1;
        }
        None
    }
}

impl<P, B, L> Default for GlobalSelectionState<P, B, L> {
    /// No selection, not dragging, no nodes.
    fn default() -> (r: Self)
        ensures
            r.start is None,
            r.end is None,
            !r.is_dragging,
            r.frame_nodes@.len() == 0,
    {
        Self::new()
    }
}

impl<P: Copy, B, L> GlobalSelectionState<P, B, L> {
    /// Mouse press at `position`: the selection collapses there and a drag starts.
    pub fn mouse_down(&mut self, position: P)
        ensures
            final(self).start == Some(position),
            final(self).end == Some(position),
            final(self).is_dragging,
            final(self).frame_nodes == old(self).frame_nodes,
    {
        self.start = Some(position);
        self.end = Some(position);
        self.is_dragging = true;
    }

    /// The selection's two ends in reading order, as decided by `less`
    /// (`start` first when `less(start, end)`), if both are set.
    pub fn get_selection_range<F: Fn(P, P) -> bool>(&self, less: F) -> (r: Option<(P, P)>)
        requires
            forall|a: P, b: P| call_requires(less, (a, b)),
        ensures
            match (self.start, self.end) {
                (Some(s), Some(e)) => exists|before: bool| call_ensures(less, (s, e), before)
                    && r == if before { Some((s, e)) } else { Some((e, s)) },
                _ => r is None,
            },
    {
        match (self.start, self.end) {
            (Some(s), Some(e)) => {
                let before = less(s, e);
                if before {
                    Some((s, e))
                } else {
                    Some((e, s))
                }
            },
            _ => None,
        }
    }
}

/// Where the selection meets one text node, from the node's layout:
/// hit tests of the selection's start and end (`Ok` inside the text,
/// `Err` with the nearest index outside), and whether the selection starts
/// before the node and ends after it in reading order. Indices are byte
/// offsets into the node's text.
pub struct NodeHit {
    pub start: Result<usize, usize>,
    pub end: Result<usize, usize>,
    pub starts_before_node: bool,
    pub ends_after_node: bool,
}

/// The selection's start within a node.
pub open spec fn hit_start(h: NodeHit) -> int {
    match h.start {
        Ok(i) => i as int,
        Err(i) => if h.starts_before_node { 0 } else { i as int },
    }
}

/// The selection's end within a node of `len` bytes.
pub open spec fn hit_end(h: NodeHit, len: int) -> int {
    match h.end {
        Ok(i) => i as int,
        Err(i) => if h.ends_after_node { len } else { i as int },
    }
}

/// The selected piece of a node's text: the bytes between start and end
/// (the end clamped to the text), if they are non-empty and valid UTF-8.
pub open spec fn node_piece(text: Seq<char>, h: NodeHit) -> Option<Seq<char>> {
    let bytes = vstd::utf8::encode_utf8(text);
    let a = hit_start(h);
    let b = hit_end(h, bytes.len() as int);
    if a < b {
        let e = if b <= bytes.len() { b } else { bytes.len() as int };
        let piece = bytes.subrange(a, e);
        if valid_utf8(piece) { Some(decode_utf8(piece)) } else { None }
    } else {
        None
    }
}

/// A hit whose start lies inside the text whenever it is before its end.
pub open spec fn hit_in_bounds(text: Seq<char>, h: NodeHit) -> bool {
    let len = vstd::utf8::encode_utf8(text).len() as int;
    hit_start(h) < hit_end(h, len) ==> hit_start(h) <= len
}

/// The selected pieces of the nodes, in order, each followed by a space.
pub open spec fn joined_pieces(texts: Seq<Seq<char>>, hits: Seq<NodeHit>) -> Seq<char>
    decreases texts.len(),
{
    if texts.len() == 0 || hits.len() < texts.len() {
        Seq::empty()
    } else {
        let prev = joined_pieces(texts.drop_last(), hits.take(texts.len() - 1));
        match node_piece(texts.last(), hits[texts.len() - 1]) {
            Some(p) => prev + p + seq![' '],
            None => prev,
        }
    }
}

/// Trusted: `std::str::from_utf8` accepts exactly the valid UTF-8 byte
/// sequences, and the string it returns holds the characters they encode.
#[verifier::external_body]
fn str_from_utf8(bytes: &[u8]) -> (r: Option<&str>)
    ensures
        r is Some <==> valid_utf8(bytes@),
        r matches Some(s) ==> s@ == decode_utf8(bytes@),
{
    std::str::from_utf8(bytes).ok()
}

fn hit_bounds(h: &NodeHit, len: usize) -> (r: (usize, usize))
    ensures
        r.0 == hit_start(*h),
        r.1 == hit_end(*h, len as int),
{
    let a = match h.start {
        Ok(i) => i,
        Err(i) => if h.starts_before_node { 0 } else { i },
    };
    let b = match h.end {
        Ok(i) => i,
        Err(i) => if h.ends_after_node { len } else { i },
    };
    (a, b)
}

fn piece_of(text: &String, h: &NodeHit) -> (r: Option<Vec<char>>)
    requires
        hit_in_bounds(text@, *h),
    ensures
        match r {
            Some(p) => node_piece(text@, *h) == Some(p@),
            None => node_piece(text@, *h) is None,
        },
{
    let bytes = text.as_str().as_bytes();
    assert(bytes@ == vstd::utf8::encode_utf8(text@));
    let n = bytes.len();
    let (a, b) = hit_bounds(h, n);
    if a < b {
        let e = if b <= n { b } else { n };
        let piece = slice_subrange(bytes, a, e);
        match str_from_utf8(piece) {
            Some(s) => Some(chars_of(s)),
            None => None,
        }
    } else {
        None
    }
}

/// What copying the selection yields: the selected pieces of the nodes in
/// the given (reading) order, separated by single spaces, without trailing
/// white space; nothing when no node has a selected piece.
pub fn selected_text(nodes: &Vec<String>, hits: &Vec<NodeHit>) -> (r: Option<String>)
    requires
        nodes@.len() == hits@.len(),
        forall|k: int| 0 <= k < nodes@.len() ==> hit_in_bounds(#[trigger] nodes@[k]@, hits@[k]),
    ensures
        ({
            let texts = nodes@.map_values(|t: String| t@);
            let all = joined_pieces(texts, hits@);
            match r {
                Some(t) => all.len() > 0 && t@ == trim_end_by(all, white_space_pred()),
                None => all.len() == 0,
            }
        }),
{
    let ghost texts = nodes@.map_values(|t: String| t@);
    let mut all: Vec<char> = Vec::new();
    let mut i: usize = 0;
    while i < nodes.len()
        invariant
            i <= nodes@.len() == hits@.len(),
            texts == nodes@.map_values(|t: String| t@),
            forall|k: int| 0 <= k < nodes@.len() ==> hit_in_bounds(#[trigger] nodes@[k]@, hits@[k]),
            all@ == joined_pieces(texts.take(i as int), hits@.take(i as int)),
        decreases nodes@.len() - i,
    {
        let p = piece_of(&nodes[i], &hits[i]);
        proof {
            assert(texts.take(i + 1).drop_last() =~= texts.take(i as int));
            assert(hits@.take(i + 1).take(i as int) =~= hits@.take(i as int));
            assert(texts.take(i + 1).last() == nodes@[i as int]@);
        }
        match p {
            Some(piece) => {
                let mut k: usize = 0;
                let ghost before = all@;
                while k < piece.len()
                    invariant
                        k <= piece@.len(),
                        all@ == before + piece@.take(k as int),
                    decreases piece@.len() - k,
                {
                    all.push(piece[k]);
                    assert(piece@.take(k + 1) =~= piece@.take(k as int).push(piece@[k as int]));
                    k += 1;
                }
                all.push(' ');
                assert(piece@.take(piece@.len() as int) =~= piece@);
            },
            None => {},
        }
        i += 1;
    }
    assert(texts.take(nodes@.len() as int) =~= texts);
    assert(hits@.take(nodes@.len() as int) =~= hits@);
    if all.len() == 0 {
        return None;
    }
    let n = trim_end_white_space(&all);
    Some(string_of(&crate::text::slice_chars(&all, 0, n)))
}

/// A node that the selection lies wholly after gives nothing: when the
/// selection neither starts before the node nor inside it (its start misses
/// the node past its last byte) and ends after it, no piece of the node's
/// text is selected.
pub proof fn lemma_node_before_selection_gives_nothing(text: Seq<char>, h: NodeHit, i: usize)
    requires
        h.start == Result::<usize, usize>::Err(i),
        !h.starts_before_node,
        i >= vstd::utf8::encode_utf8(text).len(),
        h.end is Err,
        h.ends_after_node,
    ensures
        node_piece(text, h) is None,
{
}

/// A node that gives no piece leaves the copied text as if it were absent:
/// the joined pieces of the nodes equal those of the nodes after it.
pub proof fn lemma_empty_first_node_adds_nothing(texts: Seq<Seq<char>>, hits: Seq<NodeHit>)
    requires
        texts.len() > 0,
        hits.len() == texts.len(),
        node_piece(texts[0], hits[0]) is None,
    ensures
        joined_pieces(texts, hits) == joined_pieces(texts.skip(1), hits.skip(1)),
    decreases texts.len(),
{
    let n = texts.len();
    if n == 1 {
        assert(joined_pieces(texts.drop_last(), hits.take(0)) == Seq::<char>::empty());
        assert(texts.skip(1).len() == 0);
    } else {
        let t2 = texts.drop_last();
        let h2 = hits.take(n - 1);
        assert(t2[0] == texts[0]);
        assert(h2[0] == hits[0]);
        lemma_empty_first_node_adds_nothing(t2, h2);
        assert(texts.skip(1).drop_last() =~= t2.skip(1));
        assert(hits.skip(1).take(n - 2) =~= h2.skip(1));
        assert(texts.skip(1).last() == texts.last());
        assert(hits.skip(1)[n - 2] == hits[n - 1]);
    }
}

/// Copied text never ends in white space: trimming leaves a text that is
/// empty or ends in another character, and trimming it again changes nothing.
pub proof fn lemma_copied_text_is_trimmed(all: Seq<char>)
    ensures
        trim_end_by(all, white_space_pred()).len() == 0
            || !crate::text::is_white_space(trim_end_by(all, white_space_pred()).last()),
        trim_end_by(trim_end_by(all, white_space_pred()), white_space_pred())
            == trim_end_by(all, white_space_pred()),
    decreases all.len(),
{
    if all.len() > 0 && crate::text::is_white_space(all.last()) {
        lemma_copied_text_is_trimmed(all.drop_last());
    }
}

/// The range of a node's text to highlight, from its hit (see [`NodeHit`]):
/// the ordered selected range when the selection touches the node (a hit
/// inside it, or the node lies between start and end) and the range is
/// non-empty and inside the text.
pub fn highlight_range(text_len: usize, h: &NodeHit) -> (r: Option<(usize, usize)>)
    ensures
        ({
            let a = hit_start(*h);
            let b = hit_end(*h, text_len as int);
            let lo = if a <= b { a } else { b };
            let hi = if a <= b { b } else { a };
            let touched = h.start is Ok || h.end is Ok || (h.starts_before_node && h.ends_after_node);
            r == if touched && lo < hi && hi <= text_len {
                Some((lo as usize, hi as usize))
            } else {
                None
            }
        }),
{
    let (a, b) = hit_bounds(h, text_len);
    let touched = h.start.is_ok() || h.end.is_ok() || (h.starts_before_node && h.ends_after_node);
    let lo = if a <= b { a } else { b };
    let hi = if a <= b { b } else { a };
    if touched && lo < hi && hi <= text_len {
        Some((lo, hi))
    } else {
        None
    }
}

} // verus!
