//! The character cursor: a position-tracked walk over the bytes of the source text.
use vstd::prelude::*;
use vstd::string::*;
use vstd::utf8::*;
use crate::text::lemma_boundary_in_prefix;
use crate::util::{Diagnostic, Stream};

verus! {

/// The line feed, after which a new row begins.
pub const LINE_FEED: u8 = 10;

/// The byte at index `i` of `src`, and 0 outside of it.
pub open spec fn byte_at(src: Seq<u8>, i: int) -> u8 {
    if 0 <= i < src.len() {
        src[i]
    } else {
        0
    }
}

/// Whether the `k`-th advance finds a line feed as the current character.
pub open spec fn breaks_line(src: Seq<u8>, k: nat) -> bool {
    k >= 2 && byte_at(src, k - 2) == LINE_FEED
}

/// The row reached after `k` advances over `src`. Rows start at 1; the advance that
/// follows a consumed line feed begins a new row. The count stops at `usize::MAX`.
pub open spec fn row_at(src: Seq<u8>, k: nat) -> usize
    decreases k,
{
    if k == 0 {
        1
    } else {
        let before = row_at(src, (k - 1) as nat);
        if breaks_line(src, k) && before < usize::MAX {
            (before + 1) as usize
        } else {
            before
        }
    }
}

/// The column reached after `k` advances over `src`. It starts at 1, grows by one with
/// each advance and falls to 0 with the advance that follows a consumed line feed.
/// The count stops at `usize::MAX`.
pub open spec fn col_at(src: Seq<u8>, k: nat) -> usize
    decreases k,
{
    if k == 0 {
        1
    } else {
        let before = col_at(src, (k - 1) as nat);
        if breaks_line(src, k) {
            0
        } else if before < usize::MAX {
            (before + 1) as usize
        } else {
            before
        }
    }
}

/// A cursor over the bytes of a source text, with one character of lookahead.
///
/// Its whole state is given by the text and by the number of advances made since the
/// start: the current character is the byte consumed last, the upcoming character the
/// byte after it, and both are 0 where the text has no byte.
pub struct TextStream {
    pos: usize,
    row: usize,
    col: usize,
    content: String,
    cur: u8,
    next: u8,
    steps: Ghost<nat>,
}

impl TextStream {
    /// The bytes of the text.
    pub closed spec fn source(&self) -> Seq<u8> {
        encode_utf8(self.content@)
    }

    /// The number of advances made since the start or the last reset.
    pub closed spec fn consumed(&self) -> nat {
        self.steps@
    }

    /// The fields agree with the text and the number of advances.
    pub closed spec fn inv(&self) -> bool {
        &&& self.pos == self.offset_at()
        &&& self.cur == if self.steps@ == 0 {
            0
        } else {
            byte_at(self.source(), self.steps@ - 1)
        }
        &&& self.next == byte_at(self.source(), self.steps@ as int)
        &&& self.row == row_at(self.source(), self.steps@)
        &&& self.col == col_at(self.source(), self.steps@)
    }

    /// The index of the upcoming byte: the number of advances, or the length of the text
    /// where more advances were made than it has bytes.
    pub open spec fn offset_at(&self) -> nat {
        if self.consumed() <= self.source().len() {
            self.consumed()
        } else {
            self.source().len()
        }
    }

    /// The byte at index `i` of the text, and 0 behind its end.
    fn byte(&self, i: usize) -> (r: u8)
        ensures
            r == byte_at(self.source(), i as int),
    {
        let bytes = self.content.as_str().as_bytes();
        if i < bytes.len() {
            bytes[i]
        } else {
            0
        }
    }

    /// The number of bytes of the text.
    fn len(&self) -> (r: usize)
        ensures
            r == self.source().len(),
    {
        self.content.as_str().as_bytes().len()
    }

    /// A cursor at the start of `source`.
    pub fn new(source: &str) -> (r: TextStream)
        ensures
            r.inv(),
            r.source() == source.spec_bytes(),
            r.consumed() == 0,
    {
        let mut cursor = TextStream {
            pos: 0,
            row: 1,
            col: 1,
            content: String::from_str(source),
            cur: 0,
            next: 0,
            steps: Ghost(0),
        };
        cursor.next = cursor.byte(0);
        cursor
    }

    /// The index of the upcoming byte.
    pub(crate) fn offset(&self) -> (r: usize)
        requires
            self.inv(),
        ensures
            r == self.offset_at(),
    {
        self.pos
    }

    /// The characters that the bytes of the text from `lo` up to `hi` encode.
    pub(crate) fn slice(&self, lo: usize, hi: usize) -> (r: String)
        requires
            lo <= hi <= self.source().len(),
            is_char_boundary(self.source(), lo as int),
            is_char_boundary(self.source(), hi as int),
        ensures
            r@ == decode_utf8(self.source().subrange(lo as int, hi as int)),
    {
        broadcast use encode_utf8_valid_utf8;

        let whole = self.content.as_str();
        let head = whole.split_at(hi).0;
        proof {
            lemma_boundary_in_prefix(self.source(), lo as int, hi as int);
        }
        let piece = head.split_at(lo).1;
        proof {
            encode_utf8_decode_utf8(piece@);
            assert(piece.spec_bytes() =~= self.source().subrange(lo as int, hi as int));
        }
        String::from_str(piece)
    }

    /// The row and the column reached.
    pub fn position(&self) -> (r: (usize, usize))
        requires
            self.inv(),
        ensures
            r.0 == row_at(self.source(), self.consumed()),
            r.1 == col_at(self.source(), self.consumed()),
    {
        (self.row, self.col)
    }

    /// The text of a cursor is valid UTF-8.
    pub proof fn lemma_source_is_text(&self)
        ensures
            valid_utf8(self.source()),
    {
        encode_utf8_valid_utf8(self.content@);
    }
}

impl Stream<u8> for TextStream {
    open spec fn wf(&self) -> bool {
        self.inv()
    }

    open spec fn spec_current(&self) -> u8 {
        if self.consumed() == 0 {
            0
        } else {
            byte_at(self.source(), self.consumed() - 1)
        }
    }

    open spec fn spec_peek(&self) -> u8 {
        byte_at(self.source(), self.consumed() as int)
    }

    /// Consumes the upcoming character and returns it.
    fn next(&mut self) -> (r: u8)
        ensures
            final(self).source() == old(self).source(),
            final(self).consumed() == old(self).consumed() + 1,
    {
        if self.cur == LINE_FEED {
            self.col = 0;
            if self.row < usize::MAX {
                self.row += 1;
            }
        } else if self.col < usize::MAX {
            self.col += 1;
        }
        self.cur = self.next;
        if self.pos < self.len() {
            self.pos += 1;
        }
        self.next = self.byte(self.pos);
        self.steps = Ghost((self.steps@ + 1) as nat);
        self.cur
    }

    fn peek(&self) -> (r: u8) {
        self.next
    }

    fn current(&self) -> (r: u8) {
        self.cur
    }

    fn reset(&mut self)
        ensures
            final(self).source() == old(self).source(),
            final(self).consumed() == 0,
    {
        self.pos = 0;
        self.row = 1;
        self.col = 1;
        self.cur = 0;
        self.next = self.byte(0);
        self.steps = Ghost(0);
    }

    /// Whether no character remains.
    fn eof(&self) -> (r: bool)
        ensures
            r == (self.consumed() >= self.source().len()),
    {
        self.pos >= self.len()
    }

    fn err(&self, msg: &str) -> (r: Diagnostic)
        ensures
            r.row == row_at(self.source(), self.consumed()),
            r.col == col_at(self.source(), self.consumed()),
    {
        Diagnostic { message: String::from_str(msg), row: self.row, col: self.col }
    }
}

} // verus!
