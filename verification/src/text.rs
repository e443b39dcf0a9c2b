//! Where characters begin in UTF-8 text: what the lexical analyzer needs to cut the text of
//! a token out of the source.
use vstd::prelude::*;
use vstd::utf8::*;

verus! {

/// In valid UTF-8, a character begins at each ASCII byte, and one behind it.
pub proof fn lemma_boundary_at_ascii(src: Seq<u8>, i: int)
    requires
        valid_utf8(src),
        0 <= i < src.len(),
        src[i] < 128,
    ensures
        is_char_boundary(src, i),
        is_char_boundary(src, i + 1),
{
    let n = src.len() as int;
    is_char_boundary_iff_not_is_continuation_byte(src, i);
    if i + 1 < n {
        valid_utf8_split(src, i);
        let from_mark = src.subrange(i, n);
        let tail = src.subrange(i + 1, n);
        assert(from_mark[0] == src[i]);
        assert(pop_first_scalar(from_mark) =~= tail);
        assert(valid_utf8(tail));
        assert(valid_first_scalar(tail));
        assert(tail[0] == src[i + 1]);
        is_char_boundary_iff_not_is_continuation_byte(src, i + 1);
    } else {
        is_char_boundary_start_end_of_seq(src);
    }
}

/// In valid UTF-8, where characters begin at `lo` and at `hi`, the bytes before `hi` are
/// valid UTF-8 in which a character begins at `lo`.
pub proof fn lemma_boundary_in_prefix(src: Seq<u8>, lo: int, hi: int)
    requires
        valid_utf8(src),
        0 <= lo <= hi <= src.len(),
        is_char_boundary(src, lo),
        is_char_boundary(src, hi),
    ensures
        valid_utf8(src.subrange(0, hi)),
        is_char_boundary(src.subrange(0, hi), lo),
{
    let head = src.subrange(0, hi);
    valid_utf8_split(src, hi);
    if lo < hi {
        is_char_boundary_iff_not_is_continuation_byte(src, lo);
        assert(head[lo] == src[lo]);
        is_char_boundary_iff_not_is_continuation_byte(head, lo);
    } else {
        is_char_boundary_start_end_of_seq(head);
    }
}

} // verus!
