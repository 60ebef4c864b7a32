//! A one-line text input: its value, cursor and mode, and what each editing command does.
use vstd::prelude::*;
use crate::text::{chars_of, is_space, space_char, string_of};
use unicode_segmentation::UnicodeSegmentation;

verus! {

/// The grapheme clusters of a text, as `unicode-segmentation` finds them.
pub uninterp spec fn graphemes(text: Seq<char>) -> Seq<Seq<char>>;

/// The word-bounded pieces of a text, as `unicode-segmentation` finds them.
pub uninterp spec fn word_pieces(text: Seq<char>) -> Seq<Seq<char>>;

/// The columns that a text takes on a terminal, as `ratatui` measures it.
pub uninterp spec fn display_width(text: Seq<char>) -> nat;

/// The pieces laid end to end.
pub open spec fn concat(pieces: Seq<Seq<char>>) -> Seq<char>
    decreases pieces.len(),
{
    if pieces.len() == 0 {
        Seq::empty()
    } else {
        concat(pieces.drop_last()) + pieces.last()
    }
}

/// The pieces cover the text, each holding at least one character.
pub open spec fn partitions(pieces: Seq<Seq<char>>, text: Seq<char>) -> bool {
    concat(pieces) == text && forall|i: int| 0 <= i < pieces.len() ==> (#[trigger] pieces[i]).len() > 0
}

/// `UnicodeSegmentation::graphemes` (extended clusters): the clusters of the text, which
/// lie end to end over it, none empty.
#[verifier::external_body]
fn grapheme_clusters(text: &str) -> (r: Vec<String>)
    ensures
        crate::text::views(r@) == graphemes(text@),
        partitions(crate::text::views(r@), text@),
{
    text.graphemes(true).map(|piece| piece.to_string()).collect()
}

/// `UnicodeSegmentation::split_word_bounds`: pieces split at word boundaries, whose
/// concatenation is the text, none empty.
#[verifier::external_body]
fn word_bounds(text: &str) -> (r: Vec<String>)
    ensures
        crate::text::views(r@) == word_pieces(text@),
        partitions(crate::text::views(r@), text@),
{
    text.split_word_bounds().map(|piece| piece.to_string()).collect()
}

/// `ratatui::text::Line::width`: the terminal columns of a text.
#[verifier::external_body]
pub fn terminal_width(text: &str) -> (r: usize)
    ensures
        r == display_width(text@),
{
    ratatui::text::Line::from(text).width()
}

/// Whether `char::is_control` holds: the characters of Unicode's category Cc.
pub open spec fn is_control(c: char) -> bool {
    (c as u32) < 32 || (127 <= (c as u32) && (c as u32) < 160)
}

/// Whether `char::is_ascii_punctuation` holds.
pub open spec fn is_ascii_punctuation(c: char) -> bool {
    let v = c as u32;
    (33 <= v && v <= 47) || (58 <= v && v <= 64) || (91 <= v && v <= 96) || (123 <= v && v <= 126)
}

/// A piece is a word when one of its characters is neither white space nor ASCII punctuation.
pub open spec fn is_word(piece: Seq<char>) -> bool {
    exists|i: int| 0 <= i < piece.len() && !is_space(#[trigger] piece[i]) && !is_ascii_punctuation(piece[i])
}

/// The bytes that UTF-8 spends on a character.
pub open spec fn utf8_width(c: char) -> nat {
    if (c as u32) < 0x80 {
        1
    } else if (c as u32) < 0x800 {
        2
    } else if (c as u32) < 0x10000 {
        3
    } else {
        4
    }
}

/// The bytes that UTF-8 spends on a text.
pub open spec fn utf8_len(s: Seq<char>) -> nat
    decreases s.len(),
{
    if s.len() == 0 {
        0
    } else {
        utf8_len(s.drop_last()) + utf8_width(s.last())
    }
}

/// Whether the input was just opened, so that typing replaces its whole value.
#[derive(Clone, Copy, PartialEq, Eq, Structural, Debug)]
pub enum EditMode {
    Replace,
    Insert,
}

/// What a key did to the input.
#[derive(Clone, Copy, PartialEq, Eq, Structural, Debug)]
pub enum EditAction {
    Continue,
    Confirm,
    Cancel,
}

/// The commands an input takes.
#[derive(Clone, Copy, PartialEq, Eq, Structural, Debug)]
pub enum EditCommand {
    SelectAll,
    Clear,
    WordLeft,
    WordRight,
    DeleteWordRight,
    DeleteWordLeft,
    DeleteToEnd,
    Backspace,
    Delete,
    Left,
    Right,
    Home,
    End,
    Confirm,
    Back,
}

pub struct EditView {
    pub value: Seq<char>,
    pub cursor: nat,
    pub mode: EditMode,
}

/// A one-line text input. The cursor counts the characters before it.
pub struct EditInput {
    value: Vec<char>,
    cursor: usize,
    mode: EditMode,
}

impl View for EditInput {
    type V = EditView;

    closed spec fn view(&self) -> EditView {
        EditView { value: self.value@, cursor: self.cursor as nat, mode: self.mode }
    }
}

/// The cursor of an input stands within its value.
pub open spec fn edit_inv(e: EditView) -> bool {
    e.cursor <= e.value.len()
}

/// Where the grapheme before the cursor starts: none at the start.
pub open spec fn previous_grapheme(value: Seq<char>, cursor: nat) -> Option<nat> {
    let gs = graphemes(value.take(cursor as int));
    if gs.len() == 0 {
        None
    } else {
        Some((cursor - gs.last().len()) as nat)
    }
}

/// Where the grapheme after the one at the cursor starts: none unless two graphemes follow
/// the cursor.
pub open spec fn next_grapheme(value: Seq<char>, cursor: nat) -> Option<nat> {
    let gs = graphemes(value.skip(cursor as int));
    if gs.len() < 2 {
        None
    } else {
        Some(cursor + gs[0].len())
    }
}

/// Where the `k`-th piece of a partition starts.
pub open spec fn piece_start(pieces: Seq<Seq<char>>, k: int) -> int {
    concat(pieces.take(k)).len() as int
}

/// The start of the last word piece that begins before the cursor, or the value's start.
pub open spec fn previous_word(value: Seq<char>, cursor: nat) -> nat {
    let ps = word_pieces(value);
    if exists|k: int| 0 <= k < ps.len() && piece_start(ps, k) < cursor && is_word(#[trigger] ps[k]) {
        let k = choose|k: int|
            0 <= k < ps.len() && piece_start(ps, k) < cursor && is_word(#[trigger] ps[k]) && forall|j: int|
                k < j < ps.len() && piece_start(ps, j) < cursor ==> !is_word(#[trigger] ps[j]);
        piece_start(ps, k) as nat
    } else {
        0
    }
}

/// The start of the first word piece that begins after the cursor, or the value's end.
pub open spec fn next_word(value: Seq<char>, cursor: nat) -> nat {
    let ps = word_pieces(value);
    if exists|k: int| 0 <= k < ps.len() && piece_start(ps, k) > cursor && is_word(#[trigger] ps[k]) {
        let k = choose|k: int|
            0 <= k < ps.len() && piece_start(ps, k) > cursor && is_word(#[trigger] ps[k]) && forall|j: int|
                0 <= j < k && piece_start(ps, j) > cursor ==> !is_word(#[trigger] ps[j]);
        piece_start(ps, k) as nat
    } else {
        value.len()
    }
}


pub proof fn lemma_concat_len(pieces: Seq<Seq<char>>, k: int)
    requires
        0 <= k <= pieces.len(),
    ensures
        concat(pieces.take(k)).len() <= concat(pieces).len(),
        k < pieces.len() ==> concat(pieces.take(k + 1)) == concat(pieces.take(k)) + pieces[k],
    decreases pieces.len() - k,
{
    assert(pieces.take(pieces.len() as int) =~= pieces);
    if k < pieces.len() {
        assert(pieces.take(k + 1).drop_last() =~= pieces.take(k));
        lemma_concat_len(pieces, k + 1);
    }
}

/// Clearing a selection: an input in replace mode loses its value and starts inserting.
pub open spec fn cleared(e: EditView) -> EditView {
    EditView { value: Seq::empty(), cursor: 0, mode: EditMode::Insert }
}

pub open spec fn spec_insert(e: EditView, c: char) -> EditView {
    if is_control(c) || e.value.len() >= usize::MAX {
        e
    } else {
        let base = if e.mode == EditMode::Replace {
            cleared(e)
        } else {
            e
        };
        EditView {
            value: base.value.take(base.cursor as int) + seq![c] + base.value.skip(base.cursor as int),
            cursor: base.cursor + 1,
            mode: base.mode,
        }
    }
}

pub open spec fn spec_backspace(e: EditView) -> EditView {
    if e.mode == EditMode::Replace {
        cleared(e)
    } else {
        match previous_grapheme(e.value, e.cursor) {
            None => e,
            Some(p) => EditView {
                value: e.value.take(p as int) + e.value.skip(e.cursor as int),
                cursor: p,
                mode: e.mode,
            },
        }
    }
}

pub open spec fn spec_delete(e: EditView) -> EditView {
    if e.mode == EditMode::Replace {
        cleared(e)
    } else {
        match next_grapheme(e.value, e.cursor) {
            None => e,
            Some(n) => EditView { value: e.value.take(e.cursor as int) + e.value.skip(n as int), ..e },
        }
    }
}

pub open spec fn spec_move_left(e: EditView) -> EditView {
    if e.mode == EditMode::Replace {
        EditView { cursor: 0, mode: EditMode::Insert, ..e }
    } else {
        match previous_grapheme(e.value, e.cursor) {
            None => e,
            Some(p) => EditView { cursor: p, ..e },
        }
    }
}

pub open spec fn spec_move_right(e: EditView) -> EditView {
    if e.mode == EditMode::Replace {
        EditView { cursor: e.value.len(), mode: EditMode::Insert, ..e }
    } else {
        match next_grapheme(e.value, e.cursor) {
            None => e,
            Some(n) => EditView { cursor: n, ..e },
        }
    }
}

pub open spec fn spec_word_left(e: EditView) -> EditView {
    if e.mode == EditMode::Replace {
        EditView { cursor: 0, mode: EditMode::Insert, ..e }
    } else {
        EditView { cursor: previous_word(e.value, e.cursor), ..e }
    }
}

pub open spec fn spec_word_right(e: EditView) -> EditView {
    if e.mode == EditMode::Replace {
        EditView { cursor: e.value.len(), mode: EditMode::Insert, ..e }
    } else {
        EditView { cursor: next_word(e.value, e.cursor), ..e }
    }
}

pub open spec fn spec_delete_word_left(e: EditView) -> EditView {
    if e.mode == EditMode::Replace {
        cleared(e)
    } else {
        let p = previous_word(e.value, e.cursor);
        EditView { value: e.value.take(p as int) + e.value.skip(e.cursor as int), cursor: p, ..e }
    }
}

pub open spec fn spec_delete_word_right(e: EditView) -> EditView {
    if e.mode == EditMode::Replace {
        cleared(e)
    } else {
        let n = next_word(e.value, e.cursor);
        EditView { value: e.value.take(e.cursor as int) + e.value.skip(n as int), ..e }
    }
}

pub open spec fn spec_delete_to_end(e: EditView) -> EditView {
    if e.mode == EditMode::Replace {
        cleared(e)
    } else {
        EditView { value: e.value.take(e.cursor as int), ..e }
    }
}

/// What a command, or else a typed character, does to an input, and what it asks of the
/// dialog around it.
pub open spec fn spec_handle(e: EditView, command: Option<EditCommand>, typed: Option<char>) -> (EditView, EditAction) {
    match command {
        Some(EditCommand::SelectAll) => (EditView { mode: EditMode::Replace, ..e }, EditAction::Continue),
        Some(EditCommand::Clear) => (EditView { value: Seq::empty(), cursor: 0, ..e }, EditAction::Continue),
        Some(EditCommand::WordLeft) => (spec_word_left(e), EditAction::Continue),
        Some(EditCommand::WordRight) => (spec_word_right(e), EditAction::Continue),
        Some(EditCommand::DeleteWordRight) => (spec_delete_word_right(e), EditAction::Continue),
        Some(EditCommand::DeleteWordLeft) => (spec_delete_word_left(e), EditAction::Continue),
        Some(EditCommand::DeleteToEnd) => (spec_delete_to_end(e), EditAction::Continue),
        Some(EditCommand::Backspace) => (spec_backspace(e), EditAction::Continue),
        Some(EditCommand::Delete) => (spec_delete(e), EditAction::Continue),
        Some(EditCommand::Left) => (spec_move_left(e), EditAction::Continue),
        Some(EditCommand::Right) => (spec_move_right(e), EditAction::Continue),
        Some(EditCommand::Home) => (EditView { cursor: 0, mode: EditMode::Insert, ..e }, EditAction::Continue),
        Some(EditCommand::End) => (
            EditView { cursor: e.value.len(), mode: EditMode::Insert, ..e },
            EditAction::Continue,
        ),
        Some(EditCommand::Confirm) => (e, EditAction::Confirm),
        Some(EditCommand::Back) => (e, EditAction::Cancel),
        None => match typed {
            Some(c) => (spec_insert(e, c), EditAction::Continue),
            None => (e, EditAction::Continue),
        },
    }
}

fn range_string(v: &Vec<char>, start: usize, end: usize) -> (r: String)
    requires
        start <= end <= v@.len(),
    ensures
        r@ == v@.subrange(start as int, end as int),
{
    let mut piece: Vec<char> = Vec::new();
    let mut k: usize = start;
    while k < end
        invariant
            start <= k <= end <= v@.len(),
            piece@ == v@.subrange(start as int, k as int),
        decreases end - k,
    {
        piece.push(v[k]);
        assert(piece@ =~= v@.subrange(start as int, k + 1));
        k = k + 1;
    }
    string_of(piece.as_slice())
}

fn char_count(s: &String) -> (r: usize)
    ensures
        r == s@.len(),
{
    chars_of(s.as_str()).len()
}

fn is_word_exec(piece: &str) -> (r: bool)
    ensures
        r == is_word(piece@),
{
    let v = chars_of(piece);
    let mut i: usize = 0;
    while i < v.len()
        invariant
            v@ == piece@,
            i <= v@.len(),
            forall|j: int| 0 <= j < i ==> is_space(#[trigger] v@[j]) || is_ascii_punctuation(v@[j]),
        decreases v@.len() - i,
    {
        let c = v[i];
        let code = c as u32;
        let punct = (33 <= code && code <= 47) || (58 <= code && code <= 64) || (91 <= code && code <= 96)
            || (123 <= code && code <= 126);
        if !space_char(c) && !punct {
            return true;
        }
        i = i + 1;
    }
    false
}

/// The cut of a value at `start..end`: what lies before `start` and what lies from `end` on.
fn cut(v: &Vec<char>, start: usize, end: usize) -> (r: Vec<char>)
    requires
        start <= end <= v@.len(),
    ensures
        r@ == v@.take(start as int) + v@.skip(end as int),
{
    let mut out: Vec<char> = Vec::new();
    let mut k: usize = 0;
    while k < start
        invariant
            start <= end <= v@.len(),
            k <= start,
            out@ == v@.take(k as int),
        decreases start - k,
    {
        out.push(v[k]);
        assert(out@ =~= v@.take(k + 1));
        k = k + 1;
    }
    let mut j: usize = end;
    while j < v.len()
        invariant
            start <= end <= j <= v@.len(),
            out@ == v@.take(start as int) + v@.subrange(end as int, j as int),
        decreases v@.len() - j,
    {
        out.push(v[j]);
        assert(out@ =~= v@.take(start as int) + v@.subrange(end as int, j + 1));
        j = j + 1;
    }
    assert(v@.subrange(end as int, v@.len() as int) =~= v@.skip(end as int));
    out
}

impl EditInput {
    pub fn new(value: String) -> (r: EditInput)
        ensures
            r@ == (EditView { value: value@, cursor: value@.len(), mode: EditMode::Replace }),
    {
        let v = chars_of(value.as_str());
        let n = v.len();
        EditInput { value: v, cursor: n, mode: EditMode::Replace }
    }

    pub fn value(&self) -> (r: String)
        ensures
            r@ == self@.value,
    {
        string_of(self.value.as_slice())
    }

    pub fn confirmed_value(self) -> (r: String)
        ensures
            r@ == self@.value,
    {
        string_of(self.value.as_slice())
    }

    pub fn mode(&self) -> (r: EditMode)
        ensures
            r == self@.mode,
    {
        self.mode
    }

    /// How many characters lie before the cursor.
    pub fn cursor(&self) -> (r: usize)
        ensures
            r == self@.cursor,
    {
        self.cursor
    }

    /// The byte offset of the cursor in the value's UTF-8 text.
    pub fn cursor_byte(&self) -> (r: usize)
        requires
            edit_inv(self@),
            utf8_len(self@.value) <= usize::MAX,
        ensures
            r == utf8_len(self@.value.take(self@.cursor as int)),
    {
        let mut total: usize = 0;
        let mut i: usize = 0;
        proof {
            lemma_utf8_len_prefix(self.value@, self.cursor as int);
            lemma_utf8_len_prefix(self.value@, self.value@.len() as int);
            assert(self.value@.take(self.value@.len() as int) =~= self.value@);
        }
        assert(self.value@.take(0) =~= Seq::<char>::empty());
        while i < self.cursor
            invariant
                self.cursor <= self.value@.len(),
                i <= self.cursor,
                total == utf8_len(self.value@.take(i as int)),
                utf8_len(self.value@.take(self.cursor as int)) <= usize::MAX,
                forall|k: int| 0 <= k <= self.cursor ==> #[trigger] utf8_len(self.value@.take(k)) <= utf8_len(
                    self.value@.take(self.cursor as int),
                ),
            decreases self.cursor - i,
        {
            let c = self.value[i];
            assert(self.value@.take(i + 1).drop_last() =~= self.value@.take(i as int));
            assert(utf8_len(self.value@.take(i + 1)) <= utf8_len(self.value@.take(self.cursor as int)));
            let code = c as u32;
            let w: usize = if code < 0x80 {
                1
            } else if code < 0x800 {
                2
            } else if code < 0x10000 {
                3
            } else {
                4
            };
            total = total + w;
            i = i + 1;
        }
        total
    }

    /// The terminal columns of the value before the cursor.
    pub fn cursor_width(&self) -> (r: usize)
        requires
            edit_inv(self@),
        ensures
            r == display_width(self@.value.take(self@.cursor as int)),
    {
        let prefix = range_string(&self.value, 0, self.cursor);
        assert(self.value@.subrange(0, self.cursor as int) =~= self.value@.take(self.cursor as int));
        terminal_width(prefix.as_str())
    }
}

proof fn lemma_utf8_len_prefix(s: Seq<char>, k: int)
    requires
        0 <= k <= s.len(),
    ensures
        forall|j: int| 0 <= j <= k ==> #[trigger] utf8_len(s.take(j)) <= utf8_len(s.take(k)),
    decreases k,
{
    if k > 0 {
        lemma_utf8_len_prefix(s, k - 1);
        assert(s.take(k).drop_last() =~= s.take(k - 1));
        assert forall|j: int| 0 <= j <= k implies #[trigger] utf8_len(s.take(j)) <= utf8_len(s.take(k)) by {
            if j < k {
                assert(utf8_len(s.take(j)) <= utf8_len(s.take(k - 1)));
            }
        }
    }
}


fn previous_grapheme_of(v: &Vec<char>, cursor: usize) -> (r: Option<usize>)
    requires
        cursor <= v@.len(),
    ensures
        match r {
            Some(p) => previous_grapheme(v@, cursor as nat) == Some(p as nat) && p <= cursor,
            None => previous_grapheme(v@, cursor as nat) is None,
        },
{
    let prefix = range_string(v, 0, cursor);
    assert(v@.subrange(0, cursor as int) =~= v@.take(cursor as int));
    let gs = grapheme_clusters(prefix.as_str());
    if gs.len() == 0 {
        return None;
    }
    let ghost pv = crate::text::views(gs@);
    proof {
        lemma_concat_len(pv, pv.len() - 1);
        assert(pv.take(pv.len() as int) =~= pv);
        assert(pv.take(pv.len() - 1) =~= pv.drop_last());
    }
    let last = char_count(&gs[gs.len() - 1]);
    assert(pv.last() == gs@[gs@.len() - 1]@);
    Some(cursor - last)
}

fn next_grapheme_of(v: &Vec<char>, cursor: usize) -> (r: Option<usize>)
    requires
        cursor <= v@.len(),
    ensures
        match r {
            Some(n) => next_grapheme(v@, cursor as nat) == Some(n as nat) && cursor <= n <= v@.len(),
            None => next_grapheme(v@, cursor as nat) is None,
        },
{
    let suffix = range_string(v, cursor, v.len());
    assert(v@.subrange(cursor as int, v@.len() as int) =~= v@.skip(cursor as int));
    let gs = grapheme_clusters(suffix.as_str());
    if gs.len() < 2 {
        return None;
    }
    let ghost pv = crate::text::views(gs@);
    proof {
        lemma_concat_len(pv, 1);
        lemma_concat_len(pv, 0);
        assert(pv.take(0) =~= Seq::<Seq<char>>::empty());
    }
    let first = char_count(&gs[0]);
    assert(pv[0] == gs@[0]@);
    Some(cursor + first)
}

/// The starts of the pieces, as running sums of their lengths.
fn piece_starts(pieces: &Vec<String>) -> (r: Vec<usize>)
    requires
        concat(crate::text::views(pieces@)).len() <= usize::MAX,
    ensures
        r@.len() == pieces@.len(),
        forall|k: int| 0 <= k < r@.len() ==> #[trigger] r@[k] == piece_start(crate::text::views(pieces@), k),
{
    let ghost pv = crate::text::views(pieces@);
    let mut out: Vec<usize> = Vec::new();
    let mut total: usize = 0;
    let mut k: usize = 0;
    assert(pv.take(0) =~= Seq::<Seq<char>>::empty());
    while k < pieces.len()
        invariant
            pv == crate::text::views(pieces@),
            concat(pv).len() <= usize::MAX,
            k <= pv.len(),
            out@.len() == k,
            total == piece_start(pv, k as int),
            forall|j: int| 0 <= j < k ==> #[trigger] out@[j] == piece_start(pv, j),
        decreases pv.len() - k,
    {
        out.push(total);
        proof {
            lemma_concat_len(pv, k as int);
            lemma_concat_len(pv, k + 1);
        }
        let n = char_count(&pieces[k]);
        assert(pv[k as int] == pieces@[k as int]@);
        total = total + n;
        k = k + 1;
    }
    out
}

fn previous_word_of(v: &Vec<char>, cursor: usize) -> (r: usize)
    requires
        cursor <= v@.len(),
    ensures
        r == previous_word(v@, cursor as nat),
        r <= cursor,
{
    let text = string_of(v.as_slice());
    assert(v@.len() == v.len());
    let pieces = word_bounds(text.as_str());
    let ghost ps = crate::text::views(pieces@);
    let starts = piece_starts(&pieces);
    let mut found: Option<usize> = None;
    let mut k: usize = 0;
    while k < pieces.len()
        invariant
            ps == crate::text::views(pieces@),
            ps == word_pieces(v@),
            starts@.len() == ps.len(),
            forall|j: int| 0 <= j < starts@.len() ==> #[trigger] starts@[j] == piece_start(ps, j),
            k <= ps.len(),
            match found {
                Some(f) => f < k && piece_start(ps, f as int) < cursor && is_word(ps[f as int])
                    && forall|j: int| f < j < k && piece_start(ps, j) < cursor ==> !is_word(#[trigger] ps[j]),
                None => forall|j: int| 0 <= j < k && piece_start(ps, j) < cursor ==> !is_word(#[trigger] ps[j]),
            },
        decreases ps.len() - k,
    {
        assert(starts@[k as int] == piece_start(ps, k as int));
        assert(ps[k as int] == pieces@[k as int]@);
        if starts[k] < cursor && is_word_exec(pieces[k].as_str()) {
            found = Some(k);
        }
        k = k + 1;
    }
    match found {
        Some(f) => {
            proof {
                let kk = choose|kk: int|
                    0 <= kk < ps.len() && piece_start(ps, kk) < cursor && is_word(#[trigger] ps[kk]) && forall|j: int|
                        kk < j < ps.len() && piece_start(ps, j) < cursor ==> !is_word(#[trigger] ps[j]);
                assert(0 <= kk < ps.len() && piece_start(ps, kk) < cursor && is_word(ps[kk]));
                if kk < f {
                    assert(!is_word(ps[f as int]));
                } else if f < kk {
                    assert(!is_word(ps[kk]));
                }
            }
            starts[f]
        },
        None => 0,
    }
}

proof fn lemma_next_word_at(v: Seq<char>, cursor: nat, k: int)
    requires
        0 <= k < word_pieces(v).len(),
        piece_start(word_pieces(v), k) > cursor,
        is_word(word_pieces(v)[k]),
        forall|j: int| 0 <= j < k && piece_start(word_pieces(v), j) > cursor ==> !is_word(#[trigger] word_pieces(v)[j]),
    ensures
        next_word(v, cursor) == piece_start(word_pieces(v), k),
{
    let ps = word_pieces(v);
    let kk = choose|kk: int|
        0 <= kk < ps.len() && piece_start(ps, kk) > cursor && is_word(#[trigger] ps[kk]) && forall|j: int|
            0 <= j < kk && piece_start(ps, j) > cursor ==> !is_word(#[trigger] ps[j]);
    assert(0 <= kk < ps.len() && piece_start(ps, kk) > cursor && is_word(ps[kk]));
    if kk < k {
        assert(!is_word(ps[kk]));
    } else if k < kk {
        assert(!is_word(ps[k]));
    }
}

fn next_word_of(v: &Vec<char>, cursor: usize) -> (r: usize)
    requires
        cursor <= v@.len(),
    ensures
        r == next_word(v@, cursor as nat),
        cursor <= r <= v@.len(),
{
    let text = string_of(v.as_slice());
    assert(v@.len() == v.len());
    let pieces = word_bounds(text.as_str());
    let ghost ps = crate::text::views(pieces@);
    let starts = piece_starts(&pieces);
    let mut k: usize = 0;
    while k < pieces.len()
        invariant
            ps == crate::text::views(pieces@),
            ps == word_pieces(v@),
            concat(ps) == v@,
            starts@.len() == ps.len(),
            forall|j: int| 0 <= j < starts@.len() ==> #[trigger] starts@[j] == piece_start(ps, j),
            k <= ps.len(),
            forall|j: int| 0 <= j < k && piece_start(ps, j) > cursor ==> !is_word(#[trigger] ps[j]),
        decreases ps.len() - k,
    {
        assert(starts@[k as int] == piece_start(ps, k as int));
        assert(ps[k as int] == pieces@[k as int]@);
        if starts[k] > cursor && is_word_exec(pieces[k].as_str()) {
            proof {
                lemma_concat_len(ps, k as int);
                lemma_next_word_at(v@, cursor as nat, k as int);
            }
            return starts[k];
        }
        k = k + 1;
    }
    v.len()
}


impl EditInput {
    /// Clears the value when the input is in replace mode; whether it did.
    fn clear_selection(&mut self) -> (r: bool)
        requires
            edit_inv(old(self)@),
        ensures
            r == (old(self)@.mode == EditMode::Replace),
            r ==> final(self)@ == cleared(old(self)@),
            !r ==> final(self)@ == old(self)@,
    {
        if self.mode != EditMode::Replace {
            return false;
        }
        self.value = Vec::new();
        self.cursor = 0;
        self.mode = EditMode::Insert;
        assert(self.value@ =~= Seq::<char>::empty());
        true
    }

    /// Types a character; control characters are ignored, and so is any character once the
    /// value holds as many characters as a `usize` counts.
    pub fn insert(&mut self, c: char)
        requires
            edit_inv(old(self)@),
        ensures
            edit_inv(final(self)@),
            final(self)@ == spec_insert(old(self)@, c),
    {
        let code = c as u32;
        if code < 32 || (127 <= code && code < 160) || self.value.len() == usize::MAX {
            return;
        }
        if self.mode == EditMode::Replace {
            self.value = Vec::new();
            self.cursor = 0;
            self.mode = EditMode::Insert;
            assert(self.value@ =~= Seq::<char>::empty());
        }
        let ghost before = self.value@;
        self.value.insert(self.cursor, c);
        assert(self.value@ =~= before.take(self.cursor as int) + seq![c] + before.skip(self.cursor as int));
        self.cursor = self.cursor + 1;
    }

    pub fn backspace(&mut self)
        requires
            edit_inv(old(self)@),
        ensures
            edit_inv(final(self)@),
            final(self)@ == spec_backspace(old(self)@),
    {
        if self.clear_selection() {
            return;
        }
        match previous_grapheme_of(&self.value, self.cursor) {
            None => {},
            Some(p) => {
                self.value = cut(&self.value, p, self.cursor);
                self.cursor = p;
            },
        }
    }

    pub fn delete(&mut self)
        requires
            edit_inv(old(self)@),
        ensures
            edit_inv(final(self)@),
            final(self)@ == spec_delete(old(self)@),
    {
        if self.clear_selection() {
            return;
        }
        match next_grapheme_of(&self.value, self.cursor) {
            None => {},
            Some(n) => {
                self.value = cut(&self.value, self.cursor, n);
            },
        }
    }

    pub fn move_left(&mut self)
        requires
            edit_inv(old(self)@),
        ensures
            edit_inv(final(self)@),
            final(self)@ == spec_move_left(old(self)@),
    {
        if self.mode == EditMode::Replace {
            self.cursor = 0;
            self.mode = EditMode::Insert;
            return;
        }
        if let Some(p) = previous_grapheme_of(&self.value, self.cursor) {
            self.cursor = p;
        }
    }

    pub fn move_right(&mut self)
        requires
            edit_inv(old(self)@),
        ensures
            edit_inv(final(self)@),
            final(self)@ == spec_move_right(old(self)@),
    {
        if self.mode == EditMode::Replace {
            self.cursor = self.value.len();
            self.mode = EditMode::Insert;
            return;
        }
        if let Some(n) = next_grapheme_of(&self.value, self.cursor) {
            self.cursor = n;
        }
    }

    pub fn move_word_left(&mut self)
        requires
            edit_inv(old(self)@),
        ensures
            edit_inv(final(self)@),
            final(self)@ == spec_word_left(old(self)@),
    {
        if self.mode == EditMode::Replace {
            self.cursor = 0;
            self.mode = EditMode::Insert;
            return;
        }
        self.cursor = previous_word_of(&self.value, self.cursor);
    }

    pub fn move_word_right(&mut self)
        requires
            edit_inv(old(self)@),
        ensures
            edit_inv(final(self)@),
            final(self)@ == spec_word_right(old(self)@),
    {
        if self.mode == EditMode::Replace {
            self.cursor = self.value.len();
            self.mode = EditMode::Insert;
            return;
        }
        self.cursor = next_word_of(&self.value, self.cursor);
    }

    pub fn delete_word_left(&mut self)
        requires
            edit_inv(old(self)@),
        ensures
            edit_inv(final(self)@),
            final(self)@ == spec_delete_word_left(old(self)@),
    {
        if self.clear_selection() {
            return;
        }
        let p = previous_word_of(&self.value, self.cursor);
        self.value = cut(&self.value, p, self.cursor);
        self.cursor = p;
    }

    pub fn delete_word_right(&mut self)
        requires
            edit_inv(old(self)@),
        ensures
            edit_inv(final(self)@),
            final(self)@ == spec_delete_word_right(old(self)@),
    {
        if self.clear_selection() {
            return;
        }
        let n = next_word_of(&self.value, self.cursor);
        self.value = cut(&self.value, self.cursor, n);
    }

    pub fn delete_line(&mut self)
        ensures
            final(self)@ == (EditView { value: Seq::empty(), cursor: 0, mode: old(self)@.mode }),
    {
        self.value = Vec::new();
        self.cursor = 0;
        assert(self.value@ =~= Seq::<char>::empty());
    }

    pub fn delete_to_end(&mut self)
        requires
            edit_inv(old(self)@),
        ensures
            edit_inv(final(self)@),
            final(self)@ == spec_delete_to_end(old(self)@),
    {
        if self.clear_selection() {
            return;
        }
        let n = self.value.len();
        self.value = cut(&self.value, self.cursor, n);
        assert(self.value@ =~= old(self)@.value.take(self.cursor as int));
    }

    /// Carries out a command, or, with none, types the character pressed without modifiers.
    pub fn handle_command(&mut self, command: Option<EditCommand>, typed: Option<char>) -> (r: EditAction)
        requires
            edit_inv(old(self)@),
        ensures
            edit_inv(final(self)@),
            (final(self)@, r) == spec_handle(old(self)@, command, typed),
    {
        match command {
            Some(EditCommand::SelectAll) => {
                self.mode = EditMode::Replace;
            },
            Some(EditCommand::Clear) => self.delete_line(),
            Some(EditCommand::WordLeft) => self.move_word_left(),
            Some(EditCommand::WordRight) => self.move_word_right(),
            Some(EditCommand::DeleteWordRight) => self.delete_word_right(),
            Some(EditCommand::DeleteWordLeft) => self.delete_word_left(),
            Some(EditCommand::DeleteToEnd) => self.delete_to_end(),
            Some(EditCommand::Backspace) => self.backspace(),
            Some(EditCommand::Delete) => self.delete(),
            Some(EditCommand::Left) => self.move_left(),
            Some(EditCommand::Right) => self.move_right(),
            Some(EditCommand::Home) => {
                self.cursor = 0;
                self.mode = EditMode::Insert;
            },
            Some(EditCommand::End) => {
                self.cursor = self.value.len();
                self.mode = EditMode::Insert;
            },
            Some(EditCommand::Confirm) => return EditAction::Confirm,
            Some(EditCommand::Back) => return EditAction::Cancel,
            None => {
                if let Some(c) = typed {
                    self.insert(c);
                }
            },
        }
        EditAction::Continue
    }
}


/// The index of the first line break at or after `i`, or the text's length.
pub open spec fn break_from(value: Seq<char>, i: int) -> int
    decreases value.len() - i,
{
    if i < 0 || i >= value.len() {
        value.len() as int
    } else if value[i] == '\n' {
        i
    } else {
        break_from(value, i + 1)
    }
}

/// Where line `line` of a text starts: after its `line`-th line break, or at the end.
pub open spec fn line_start(value: Seq<char>, line: nat) -> int
    decreases line,
{
    if line == 0 {
        0
    } else {
        let e = break_from(value, line_start(value, (line - 1) as nat));
        if e < value.len() {
            e + 1
        } else {
            value.len() as int
        }
    }
}

/// The columns that one character takes.
pub open spec fn char_width(c: char) -> nat {
    display_width(seq![c])
}

/// The first index from `i` at which the characters' widths, added from `width`, would
/// pass `column`; `end` when none does. Widths add without passing the largest `usize`.
pub open spec fn position_from(value: Seq<char>, i: int, end: int, width: nat, column: nat) -> int
    decreases end - i,
{
    if i >= end || i < 0 || i >= value.len() {
        end
    } else {
        let w = if width + char_width(value[i]) > usize::MAX {
            usize::MAX as nat
        } else {
            width + char_width(value[i])
        };
        if w > column {
            i
        } else {
            position_from(value, i + 1, end, w, column)
        }
    }
}

/// The character index that the terminal column `column` of line `line` falls on.
pub open spec fn spec_text_position(value: Seq<char>, line: nat, column: nat) -> int {
    let start = line_start(value, line);
    position_from(value, start, break_from(value, start), 0, column)
}

fn char_columns(c: char) -> (r: usize)
    ensures
        r == char_width(c),
{
    let mut s = String::new();
    crate::text::push_char(&mut s, c);
    assert(s@ =~= seq![c]);
    terminal_width(s.as_str())
}

fn break_at_or_after(v: &Vec<char>, i: usize) -> (r: usize)
    requires
        i <= v@.len(),
    ensures
        r == break_from(v@, i as int),
        i <= r <= v@.len(),
{
    let mut k = i;
    while k < v.len() && v[k] != '\n'
        invariant
            i <= k <= v@.len(),
            break_from(v@, i as int) == break_from(v@, k as int),
        decreases v@.len() - k,
    {
        k = k + 1;
    }
    k
}

/// The character index that a terminal column of a line of the text falls on.
pub fn text_position(v: &Vec<char>, line: usize, column: usize) -> (r: usize)
    ensures
        r == spec_text_position(v@, line as nat, column as nat),
        r <= v@.len(),
{
    let mut start: usize = 0;
    let mut n: usize = 0;
    while n < line
        invariant
            n <= line,
            start == line_start(v@, n as nat),
            start <= v@.len(),
        decreases line - n,
    {
        let e = break_at_or_after(v, start);
        start = if e < v.len() {
            e + 1
        } else {
            v.len()
        };
        n = n + 1;
    }
    let end = break_at_or_after(v, start);
    let mut width: usize = 0;
    let mut i = start;
    while i < end
        invariant
            start <= i <= end <= v@.len(),
            end == break_from(v@, start as int),
            spec_text_position(v@, line as nat, column as nat) == position_from(
                v@,
                i as int,
                end as int,
                width as nat,
                column as nat,
            ),
        decreases end - i,
    {
        let cw = char_columns(v[i]);
        let w = width.saturating_add(cw);
        if w > column {
            return i;
        }
        width = w;
        i = i + 1;
    }
    end
}

impl EditInput {
    /// Puts the cursor where a click on terminal column `column` lands, and starts inserting.
    pub fn place_cursor(&mut self, column: usize)
        requires
            edit_inv(old(self)@),
        ensures
            edit_inv(final(self)@),
            final(self)@ == (EditView {
                cursor: spec_text_position(old(self)@.value, 0, column as nat) as nat,
                mode: EditMode::Insert,
                ..old(self)@
            }),
    {
        self.cursor = text_position(&self.value, 0, column);
        self.mode = EditMode::Insert;
    }
}


/// Deleting a word to the right, while inserting, removes just the text that moving a word
/// to the right passes over: the cursor stays, what stands before it is kept, and everything
/// from where the move lands to the end is kept after it.
pub proof fn law_delete_word_right_removes_what_word_right_passes(e: EditView)
    requires
        edit_inv(e),
        e.mode == EditMode::Insert,
    ensures
        ({
            let d = spec_delete_word_right(e);
            let m = spec_word_right(e);
            &&& d.cursor == e.cursor
            &&& d.mode == EditMode::Insert
            &&& d.value.take(e.cursor as int) == e.value.take(e.cursor as int)
            &&& d.value.skip(e.cursor as int) == e.value.skip(m.cursor as int)
        }),
{
    let d = spec_delete_word_right(e);
    let n = next_word(e.value, e.cursor);
    assert(spec_word_right(e).cursor == n);
    assert(d.value == e.value.take(e.cursor as int) + e.value.skip(n as int));
    assert(d.value.take(e.cursor as int) =~= e.value.take(e.cursor as int));
    assert(d.value.skip(e.cursor as int) =~= e.value.skip(n as int));
}

/// Selecting all and then typing a character leaves just that character, the cursor after it.
pub proof fn law_select_all_then_type(e: EditView, c: char)
    requires
        edit_inv(e),
        !is_control(c),
        e.value.len() < usize::MAX,
    ensures
        spec_handle(spec_handle(e, Some(EditCommand::SelectAll), None).0, None, Some(c)).0 == (EditView {
            value: seq![c],
            cursor: 1,
            mode: EditMode::Insert,
        }),
{
    let selected = spec_handle(e, Some(EditCommand::SelectAll), None).0;
    assert(selected.mode == EditMode::Replace);
    let typed = spec_insert(selected, c);
    assert(typed.value =~= seq![c]);
}

} // verus!
