//! Splitting document text into bounded, overlapping passages.

use crate::rag::ConfigError;
use crate::text::{collect_chars, lemma_texts_add, lemma_texts_push, string_from_range, texts};
use crate::trusted::{is_white_space, white_space};
use vstd::arithmetic::div_mod::lemma_fundamental_div_mod_converse;
use vstd::arithmetic::mul::lemma_mul_inequality;
use vstd::prelude::*;
use vstd::string::*;

verus! {

/// How many windows of `size` characters, each starting `size - overlap`
/// characters after the one before, it takes to cover `len` characters.
pub open spec fn window_count(len: nat, size: nat, overlap: nat) -> nat {
    if len == 0 {
        0
    } else if len <= size {
        1
    } else {
        (1 + (len - overlap - 1) / (size - overlap)) as nat
    }
}

/// Where window `i` starts.
pub open spec fn window_start(i: int, size: nat, overlap: nat) -> int {
    i * (size - overlap)
}

/// Where window `i` ends: `size` characters after its start, or at the end
/// of the text if that comes first.
pub open spec fn window_end(len: nat, i: int, size: nat, overlap: nat) -> int {
    if window_start(i, size, overlap) + size <= len {
        window_start(i, size, overlap) + size
    } else {
        len as int
    }
}

/// Window `i` of `text`.
pub open spec fn window(text: Seq<char>, i: int, size: nat, overlap: nat) -> Seq<char> {
    text.subrange(window_start(i, size, overlap), window_end(text.len(), i, size, overlap))
}

/// The sliding windows that cover `text`: nothing for an empty text, the
/// text itself when it fits into one window.
pub open spec fn sliding_windows(text: Seq<char>, size: nat, overlap: nat) -> Seq<Seq<char>> {
    Seq::new(window_count(text.len(), size, overlap), |i: int| window(text, i, size, overlap))
}

/// The last window index is the first whose window reaches the end of the
/// text.
pub proof fn lemma_window_count(len: nat, size: nat, overlap: nat, last: int)
    requires
        overlap < size < len,
        0 <= last,
        window_start(last, size, overlap) + size >= len,
        window_start(last, size, overlap) + overlap < len,
    ensures
        window_count(len, size, overlap) == last + 1,
{
    let step = size - overlap;
    let x = len - overlap - 1;
    let r = x - last * step;
    lemma_fundamental_div_mod_converse(x, step, last, r);
}

/// Every window before the last is full, and the next one starts before
/// the text ends.
pub proof fn lemma_window_not_last(len: nat, size: nat, overlap: nat, i: int)
    requires
        overlap < size,
        0 <= i,
        i + 1 < window_count(len, size, overlap),
    ensures
        window_start(i, size, overlap) + size < len,
        window_start(i + 1, size, overlap) == window_start(i, size, overlap) + size - overlap,
{
    let step = size - overlap;
    let x = len - overlap - 1;
    let q = x / step;
    assert(len > size);
    assert(i + 1 <= q);
    vstd::arithmetic::div_mod::lemma_fundamental_div_mod(x, step);
    lemma_mul_inequality(i + 1, q, step);
    assert(step * q == q * step) by (nonlinear_arith);
    assert(0 <= x % step) by {
        vstd::arithmetic::div_mod::lemma_mod_bound(x, step);
    }
    assert((i + 1) * step == i * step + step) by (nonlinear_arith);
}


/// Every window holds at least one character and at most `size`; all but
/// the last hold exactly `size`.
pub proof fn lemma_window_lengths(text: Seq<char>, size: nat, overlap: nat)
    requires
        overlap < size,
    ensures
        forall|i: int|
            0 <= i < window_count(text.len(), size, overlap) ==> 0 < (#[trigger] sliding_windows(
                text,
                size,
                overlap,
            )[i]).len() <= size,
        forall|i: int|
            0 <= i && i + 1 < window_count(text.len(), size, overlap) ==> (#[trigger] sliding_windows(
                text,
                size,
                overlap,
            )[i]).len() == size,
{
    let count = window_count(text.len(), size, overlap);
    let step = size - overlap;
    assert forall|i: int| 0 <= i < count implies 0 < (#[trigger] sliding_windows(
        text,
        size,
        overlap,
    )[i]).len() <= size by {
        if i + 1 < count {
            lemma_window_not_last(text.len(), size, overlap, i);
        } else if i > 0 {
            lemma_window_not_last(text.len(), size, overlap, i - 1);
        } else {
            assert(i * step == 0) by (nonlinear_arith)
                requires
                    i == 0,
            ;
        }
        assert(0 <= i * step) by (nonlinear_arith)
            requires
                0 <= i,
                0 < step,
        ;
    }
    assert forall|i: int| 0 <= i && i + 1 < count implies (#[trigger] sliding_windows(
        text,
        size,
        overlap,
    )[i]).len() == size by {
        lemma_window_not_last(text.len(), size, overlap, i);
        assert(0 <= i * step) by (nonlinear_arith)
            requires
                0 <= i,
                0 < step,
        ;
    }
}

/// Consecutive windows share exactly `overlap` characters: the last
/// `overlap` characters of a window are the first `overlap` of the next.
pub proof fn lemma_windows_overlap(text: Seq<char>, size: nat, overlap: nat, i: int)
    requires
        overlap < size,
        0 <= i,
        i + 1 < window_count(text.len(), size, overlap),
    ensures
        sliding_windows(text, size, overlap)[i].len() == size,
        sliding_windows(text, size, overlap)[i + 1].len() > overlap,
        sliding_windows(text, size, overlap)[i + 1].take(overlap as int) == sliding_windows(
            text,
            size,
            overlap,
        )[i].skip(size - overlap),
{
    let step = size - overlap;
    lemma_window_not_last(text.len(), size, overlap, i);
    assert(0 <= i * step) by (nonlinear_arith)
        requires
            0 <= i,
            0 < step,
    ;
    let a = sliding_windows(text, size, overlap)[i];
    let b = sliding_windows(text, size, overlap)[i + 1];
    assert(b.take(overlap as int) =~= a.skip(size - overlap));
}

/// A list of chunks put back together: the first chunk whole, every later
/// chunk without its first `overlap` characters.
pub open spec fn reassemble(chunks: Seq<Seq<char>>, overlap: nat) -> Seq<char>
    decreases chunks.len(),
{
    if chunks.len() == 0 {
        Seq::empty()
    } else if chunks.len() == 1 {
        chunks[0]
    } else {
        reassemble(chunks.drop_last(), overlap) + chunks.last().skip(overlap as int)
    }
}

/// The first `n` windows reassemble to the text up to the end of window
/// `n - 1`.
proof fn lemma_reassemble_prefix(text: Seq<char>, size: nat, overlap: nat, n: int)
    requires
        overlap < size,
        1 <= n <= window_count(text.len(), size, overlap),
    ensures
        reassemble(sliding_windows(text, size, overlap).take(n), overlap) == text.take(
            window_end(text.len(), n - 1, size, overlap),
        ),
    decreases n,
{
    let all = sliding_windows(text, size, overlap);
    let step = size - overlap;
    lemma_window_lengths(text, size, overlap);
    if n == 1 {
        assert(all.take(1)[0] == all[0]);
        assert(0 * step == 0) by (nonlinear_arith);
        assert(all[0] =~= text.take(window_end(text.len(), 0, size, overlap)));
    } else {
        lemma_reassemble_prefix(text, size, overlap, n - 1);
        lemma_window_not_last(text.len(), size, overlap, n - 2);
        assert(all.take(n).drop_last() =~= all.take(n - 1));
        assert(all.take(n).last() == all[n - 1]);
        assert(0 <= (n - 2) * step) by (nonlinear_arith)
            requires
                2 <= n,
                0 < step,
        ;
        let end_before = window_end(text.len(), n - 2, size, overlap);
        let end_now = window_end(text.len(), n - 1, size, overlap);
        assert(all[n - 1].skip(overlap as int) =~= text.subrange(end_before, end_now));
        assert(text.take(end_before) + text.subrange(end_before, end_now) =~= text.take(end_now));
    }
}

/// Putting the windows of a text back together, overlaps left out, gives
/// the text.
pub proof fn lemma_windows_reassemble(text: Seq<char>, size: nat, overlap: nat)
    requires
        overlap < size,
    ensures
        reassemble(sliding_windows(text, size, overlap), overlap) == text,
{
    let all = sliding_windows(text, size, overlap);
    let n = window_count(text.len(), size, overlap) as int;
    let step = size - overlap;
    if n == 0 {
        assert(text =~= Seq::<char>::empty());
    } else {
        lemma_reassemble_prefix(text, size, overlap, n);
        assert(all.take(n) =~= all);
        if text.len() <= size {
            assert(0 * step == 0) by (nonlinear_arith);
        } else {
            let x = text.len() - overlap - 1;
            vstd::arithmetic::div_mod::lemma_fundamental_div_mod(x, step);
            vstd::arithmetic::div_mod::lemma_mod_bound(x, step);
            assert(step * (x / step) == (n - 1) * step) by (nonlinear_arith)
                requires
                    n - 1 == x / step,
            ;
        }
        assert(window_end(text.len(), n - 1, size, overlap) == text.len());
        assert(text.take(text.len() as int) =~= text);
    }
}

/// Whether a blank line begins at position `i`: two line feeds in a row.
pub open spec fn is_break(text: Seq<char>, i: int) -> bool {
    0 <= i && i + 1 < text.len() && text[i] == '\n' && text[i + 1] == '\n'
}

/// The position of the first blank line in `text`, or the length of `text`
/// where it has none.
pub open spec fn first_break(text: Seq<char>) -> int
    decreases text.len(),
{
    if text.len() < 2 {
        text.len() as int
    } else if text[0] == '\n' && text[1] == '\n' {
        0
    } else {
        1 + first_break(text.skip(1))
    }
}

/// `first_break` is the least position at which a blank line begins.
pub proof fn lemma_first_break(text: Seq<char>)
    ensures
        0 <= first_break(text) <= text.len(),
        first_break(text) < text.len() ==> is_break(text, first_break(text)),
        forall|j: int| 0 <= j < first_break(text) ==> !is_break(text, j),
    decreases text.len(),
{
    if text.len() >= 2 && !(text[0] == '\n' && text[1] == '\n') {
        let rest = text.skip(1);
        lemma_first_break(rest);
        assert forall|j: int| 0 <= j < first_break(text) implies !is_break(text, j) by {
            if j > 0 {
                assert(!is_break(rest, j - 1));
            }
        }
    }
}

/// A position with a blank line and none before it is the first break; a
/// text without any has its length as first break.
pub proof fn lemma_first_break_at(text: Seq<char>, at: int)
    requires
        0 <= at <= text.len(),
        forall|j: int| 0 <= j < at ==> !is_break(text, j),
        is_break(text, at) || at == text.len(),
    ensures
        first_break(text) == at,
{
    lemma_first_break(text);
    let b = first_break(text);
    if b < at {
        assert(is_break(text, b));
    } else if at < b {
        assert(!is_break(text, at));
    }
}

/// The text cut at every blank line, scanning from the left: the pieces
/// between the separators, empty ones included.
pub open spec fn pieces(text: Seq<char>) -> Seq<Seq<char>>
    decreases text.len(),
{
    let at = first_break(text);
    if 0 <= at && at + 2 <= text.len() {
        seq![text.take(at)] + pieces(text.skip(at + 2))
    } else {
        seq![text]
    }
}

/// A list of pieces with a blank line put between each two.
pub open spec fn join_with_breaks(parts: Seq<Seq<char>>) -> Seq<char>
    decreases parts.len(),
{
    if parts.len() == 0 {
        Seq::empty()
    } else if parts.len() == 1 {
        parts[0]
    } else {
        parts[0] + seq!['\n', '\n'] + join_with_breaks(parts.drop_first())
    }
}

/// Cutting a text at its blank lines loses nothing: the pieces, joined by
/// blank lines again, are the text.
pub proof fn lemma_pieces_rejoin(text: Seq<char>)
    ensures
        pieces(text).len() >= 1,
        join_with_breaks(pieces(text)) == text,
    decreases text.len(),
{
    let at = first_break(text);
    lemma_first_break(text);
    if 0 <= at && at + 2 <= text.len() {
        let rest = text.skip(at + 2);
        lemma_pieces_rejoin(rest);
        let all = pieces(text);
        assert(all.drop_first() =~= pieces(rest));
        assert(all[0] == text.take(at));
        assert(text.take(at) + seq!['\n', '\n'] + rest =~= text);
    }
}

/// Whether every character of `part` is white space.
pub open spec fn is_blank(part: Seq<char>) -> bool {
    forall|i: int| 0 <= i < part.len() ==> white_space(#[trigger] part[i])
}

/// The parts that hold something other than white space.
pub open spec fn without_blanks(parts: Seq<Seq<char>>) -> Seq<Seq<char>> {
    parts.filter(|part: Seq<char>| !is_blank(part))
}

/// The paragraphs of `text`: its pieces between blank lines, those of
/// white space alone left out.
pub open spec fn paragraphs_of(text: Seq<char>) -> Seq<Seq<char>> {
    without_blanks(pieces(text))
}

/// Every paragraph holds a character that is not white space.
pub proof fn lemma_paragraphs_not_blank(text: Seq<char>)
    ensures
        forall|k: int|
            0 <= k < paragraphs_of(text).len() ==> !is_blank(#[trigger] paragraphs_of(text)[k])
                && paragraphs_of(text)[k].len() > 0,
{
    let keep = |part: Seq<char>| !is_blank(part);
    assert forall|k: int| 0 <= k < paragraphs_of(text).len() implies !is_blank(
        #[trigger] paragraphs_of(text)[k],
    ) && paragraphs_of(text)[k].len() > 0 by {
        pieces(text).lemma_filter_pred(keep, k);
    }
}

/// The chunks of a list of paragraphs: each paragraph's sliding windows,
/// paragraph after paragraph.
pub open spec fn chunks_of_each(paragraphs: Seq<Seq<char>>, size: nat, overlap: nat) -> Seq<
    Seq<char>,
> {
    paragraphs.map_values(|part: Seq<char>| sliding_windows(part, size, overlap)).flatten()
}

/// What `split_smart` makes of `text`: the paragraphs, each one whole where
/// it fits into a chunk and cut into sliding windows where it does not.
pub open spec fn smart_chunks(text: Seq<char>, size: nat, overlap: nat) -> Seq<Seq<char>> {
    chunks_of_each(paragraphs_of(text), size, overlap)
}

/// One more paragraph adds its windows at the end.
pub proof fn lemma_chunks_of_each_push(
    paragraphs: Seq<Seq<char>>,
    last: Seq<char>,
    size: nat,
    overlap: nat,
)
    ensures
        chunks_of_each(paragraphs.push(last), size, overlap) == chunks_of_each(
            paragraphs,
            size,
            overlap,
        ) + sliding_windows(last, size, overlap),
{
    let each = |part: Seq<char>| sliding_windows(part, size, overlap);
    assert(paragraphs.push(last).map_values(each) =~= paragraphs.map_values(each).push(each(last)));
    paragraphs.map_values(each).lemma_flatten_push(each(last));
}

/// Every chunk of a list of paragraphs holds at least one character and at
/// most `size`.
pub proof fn lemma_chunk_lengths(paragraphs: Seq<Seq<char>>, size: nat, overlap: nat)
    requires
        overlap < size,
    ensures
        forall|i: int|
            0 <= i < chunks_of_each(paragraphs, size, overlap).len() ==> 0 < (
            #[trigger] chunks_of_each(paragraphs, size, overlap)[i]).len() <= size,
    decreases paragraphs.len(),
{
    if paragraphs.len() > 0 {
        let before = paragraphs.drop_last();
        let last = paragraphs.last();
        assert(paragraphs =~= before.push(last));
        lemma_chunks_of_each_push(before, last, size, overlap);
        lemma_chunk_lengths(before, size, overlap);
        lemma_window_lengths(last, size, overlap);
        let earlier = chunks_of_each(before, size, overlap);
        assert forall|i: int|
            0 <= i < chunks_of_each(paragraphs, size, overlap).len() implies 0 < (
        #[trigger] chunks_of_each(paragraphs, size, overlap)[i]).len() <= size by {
            if i >= earlier.len() {
                assert(chunks_of_each(paragraphs, size, overlap)[i] == sliding_windows(
                    last,
                    size,
                    overlap,
                )[i - earlier.len()]);
            } else {
                assert(chunks_of_each(paragraphs, size, overlap)[i] == earlier[i]);
            }
        }
    }
}

/// Nothing but blank pieces is lost: the chunks of every paragraph, put
/// back together with the overlaps left out, are the paragraph, and no
/// chunk is longer than `size`.
pub proof fn lemma_smart_chunks_cover(text: Seq<char>, size: nat, overlap: nat)
    requires
        overlap < size,
    ensures
        forall|k: int|
            0 <= k < paragraphs_of(text).len() ==> reassemble(
                sliding_windows(#[trigger] paragraphs_of(text)[k], size, overlap),
                overlap,
            ) == paragraphs_of(text)[k],
        forall|i: int|
            0 <= i < smart_chunks(text, size, overlap).len() ==> 0 < (#[trigger] smart_chunks(
                text,
                size,
                overlap,
            )[i]).len() <= size,
{
    assert forall|k: int| 0 <= k < paragraphs_of(text).len() implies reassemble(
        sliding_windows(#[trigger] paragraphs_of(text)[k], size, overlap),
        overlap,
    ) == paragraphs_of(text)[k] by {
        lemma_windows_reassemble(paragraphs_of(text)[k], size, overlap);
    }
    lemma_chunk_lengths(paragraphs_of(text), size, overlap);
}

/// Splits text into windows of a fixed number of characters that overlap
/// by a fixed, smaller number.
#[derive(Debug, Clone, Copy)]
pub struct TextSplitter {
    chunk_size: usize,
    chunk_overlap: usize,
}

impl TextSplitter {
    #[verifier::type_invariant]
    spec fn advances(self) -> bool {
        self.chunk_overlap < self.chunk_size
    }

    /// The most characters a chunk may hold.
    pub closed spec fn chunk_size(self) -> nat {
        self.chunk_size as nat
    }

    /// The characters that two consecutive windows share.
    pub closed spec fn chunk_overlap(self) -> nat {
        self.chunk_overlap as nat
    }

    /// A splitter for windows of `chunk_size` characters that overlap by
    /// `chunk_overlap`; refused unless the overlap is the smaller number.
    pub fn new(chunk_size: usize, chunk_overlap: usize) -> (made: Result<TextSplitter, ConfigError>)
        ensures
            made is Ok <==> chunk_overlap < chunk_size,
            made matches Ok(splitter) ==> splitter.chunk_size() == chunk_size
                && splitter.chunk_overlap() == chunk_overlap,
            made matches Err(e) ==> e == ConfigError::OverlapNotBelowChunkSize,
    {
        if chunk_overlap < chunk_size {
            Ok(TextSplitter { chunk_size, chunk_overlap })
        } else {
            Err(ConfigError::OverlapNotBelowChunkSize)
        }
    }

    /// Cuts `text` into sliding windows, counted in characters.
    pub fn split(&self, text: &str) -> (chunks: Vec<String>)
        ensures
            texts(chunks@) == sliding_windows(text@, self.chunk_size(), self.chunk_overlap()),
            forall|i: int|
                0 <= i < chunks@.len() ==> 0 < (#[trigger] chunks@[i])@.len()
                    <= self.chunk_size(),
    {
        let chars = collect_chars(text);
        self.split_chars(&chars)
    }

    /// The paragraphs of `text`: what stands between blank lines, unless it
    /// is white space alone.
    pub fn split_by_paragraphs(&self, text: &str) -> (paragraphs: Vec<String>)
        ensures
            texts(paragraphs@) == paragraphs_of(text@),
    {
        let chars = collect_chars(text);
        let n = chars.len();
        let mut paragraphs: Vec<String> = Vec::new();
        let mut piece_start: usize = 0;
        let mut i: usize = 0;
        let ghost mut done: Seq<Seq<char>> = Seq::empty();
        proof {
            assert(chars@.skip(0) =~= chars@);
            assert(done + pieces(chars@) =~= pieces(chars@));
            assert(texts(paragraphs@) =~= Seq::<Seq<char>>::empty());
            reveal(Seq::filter);
            assert(without_blanks(done) =~= Seq::<Seq<char>>::empty());
        }
        while i < n
            invariant
                n == chars@.len(),
                piece_start <= i <= n,
                pieces(chars@) == done + pieces(chars@.skip(piece_start as int)),
                texts(paragraphs@) == without_blanks(done),
                forall|j: int| piece_start <= j < i ==> !is_break(chars@, j),
            decreases n - i,
        {
            if chars[i] == '\n' && i + 1 < n && chars[i + 1] == '\n' {
                let ghost rest = chars@.skip(piece_start as int);
                let ghost part = chars@.subrange(piece_start as int, i as int);
                proof {
                    assert forall|j: int| 0 <= j < i - piece_start implies !is_break(rest, j) by {
                        assert(!is_break(chars@, piece_start + j));
                    }
                    assert(is_break(rest, i - piece_start));
                    lemma_first_break_at(rest, i - piece_start);
                    assert(rest.take(i - piece_start) =~= part);
                    assert(rest.skip(i - piece_start + 2) =~= chars@.skip(i + 2));
                    assert(done + (seq![part] + pieces(chars@.skip(i + 2))) =~= done.push(part)
                        + pieces(chars@.skip(i + 2)));
                    done.lemma_filter_push(part, |p: Seq<char>| !is_blank(p));
                }
                if !is_blank_range(&chars, piece_start, i) {
                    let paragraph = string_from_range(&chars, piece_start, i);
                    proof {
                        lemma_texts_push(paragraphs@, paragraph);
                    }
                    paragraphs.push(paragraph);
                }
                proof {
                    done = done.push(part);
                }
                i = i + 2;
                piece_start = i;
            } else {
                i = i + 1;
            }
        }
        let ghost rest = chars@.skip(piece_start as int);
        proof {
            assert forall|j: int| 0 <= j < rest.len() implies !is_break(rest, j) by {
                assert(!is_break(chars@, piece_start + j));
            }
            lemma_first_break_at(rest, rest.len() as int);
            assert(rest =~= chars@.subrange(piece_start as int, n as int));
            assert(done + seq![rest] =~= done.push(rest));
            done.lemma_filter_push(rest, |p: Seq<char>| !is_blank(p));
        }
        if !is_blank_range(&chars, piece_start, n) {
            let paragraph = string_from_range(&chars, piece_start, n);
            proof {
                lemma_texts_push(paragraphs@, paragraph);
            }
            paragraphs.push(paragraph);
        }
        paragraphs
    }

    /// The paragraphs of `text`, each one whole where it fits into a chunk
    /// and cut into sliding windows where it does not.
    pub fn split_smart(&self, text: &str) -> (chunks: Vec<String>)
        ensures
            texts(chunks@) == smart_chunks(text@, self.chunk_size(), self.chunk_overlap()),
            forall|i: int|
                0 <= i < chunks@.len() ==> 0 < (#[trigger] chunks@[i])@.len()
                    <= self.chunk_size(),
    {
        proof {
            use_type_invariant(self);
        }
        let ghost size = self.chunk_size as nat;
        let ghost overlap = self.chunk_overlap as nat;
        let paragraphs = self.split_by_paragraphs(text);
        let ghost parts = texts(paragraphs@);
        let mut chunks: Vec<String> = Vec::new();
        proof {
            lemma_paragraphs_not_blank(text@);
            assert(texts(chunks@) =~= chunks_of_each(parts.take(0), size, overlap));
        }
        for paragraph in it: paragraphs
            invariant
                size == self.chunk_size,
                overlap == self.chunk_overlap,
                overlap < size,
                texts(it.seq()) == parts,
                parts == paragraphs_of(text@),
                forall|k: int| 0 <= k < parts.len() ==> (#[trigger] parts[k]).len() > 0,
                texts(chunks@) == chunks_of_each(parts.take(it.index()), size, overlap),
                forall|i: int|
                    0 <= i < chunks@.len() ==> 0 < (#[trigger] chunks@[i])@.len() <= size,
        {
            let ghost before = chunks@;
            let ghost part = paragraph@;
            proof {
                assert(parts[it.index()] == part);
                assert(parts.take(it.index() + 1) =~= parts.take(it.index()).push(part));
                lemma_chunks_of_each_push(parts.take(it.index()), part, size, overlap);
            }
            if paragraph.as_str().unicode_len() <= self.chunk_size {
                proof {
                    assert(sliding_windows(part, size, overlap) =~= seq![part]) by {
                        assert(0 * (size - overlap) == 0) by (nonlinear_arith);
                        assert(window(part, 0, size, overlap) =~= part);
                    }
                    lemma_texts_push(before, paragraph);
                    assert(texts(before).push(part) =~= texts(before) + seq![part]);
                }
                chunks.push(paragraph);
            } else {
                let mut windows = self.split(paragraph.as_str());
                proof {
                    lemma_texts_add(before, windows@);
                }
                chunks.append(&mut windows);
            }
        }
        proof {
            assert(parts.take(parts.len() as int) =~= parts);
        }
        chunks
    }

    /// `split` on text that is already a vector of characters.
    fn split_chars(&self, chars: &Vec<char>) -> (chunks: Vec<String>)
        ensures
            texts(chunks@) == sliding_windows(chars@, self.chunk_size(), self.chunk_overlap()),
            forall|i: int|
                0 <= i < chunks@.len() ==> 0 < (#[trigger] chunks@[i])@.len()
                    <= self.chunk_size(),
    {
        proof {
            use_type_invariant(self);
        }
        let ghost size = self.chunk_size as nat;
        let ghost overlap = self.chunk_overlap as nat;
        let ghost step = size - overlap;
        let total = chars.len();
        let mut chunks: Vec<String> = Vec::new();
        if total == 0 {
            assert(texts(chunks@) =~= sliding_windows(chars@, size, overlap));
            return chunks;
        }
        let mut start: usize = 0;
        assert(0 * step == 0) by (nonlinear_arith);
        while total - start > self.chunk_size
            invariant
                total == chars@.len(),
                size == self.chunk_size,
                overlap == self.chunk_overlap,
                step == size - overlap,
                overlap < size,
                start == window_start(chunks@.len() as int, size, overlap),
                start < total,
                chunks@.len() > 0 ==> start + overlap < total && size < total,
                forall|j: int|
                    0 <= j < chunks@.len() ==> (#[trigger] chunks@[j])@ == window(
                        chars@,
                        j,
                        size,
                        overlap,
                    ),
                forall|j: int|
                    0 <= j < chunks@.len() ==> (#[trigger] chunks@[j])@.len() == size,
            decreases total - start,
        {
            let end = start + self.chunk_size;
            let piece = string_from_range(chars, start, end);
            proof {
                let i = chunks@.len() as int;
                assert((i + 1) * step == i * step + step) by (nonlinear_arith);
            }
            chunks.push(piece);
            start = end - self.chunk_overlap;
        }
        let piece = string_from_range(chars, start, total);
        let ghost last = chunks@.len() as int;
        chunks.push(piece);
        proof {
            if total > self.chunk_size {
                lemma_window_count(total as nat, size, overlap, last);
            } else {
                assert(last == 0);
            }
            assert(chunks@.len() == window_count(total as nat, size, overlap));
            assert(texts(chunks@) =~= sliding_windows(chars@, size, overlap));
        }
        chunks
    }
}

/// Whether `chars[from..to]` is white space throughout.
fn is_blank_range(chars: &Vec<char>, from: usize, to: usize) -> (blank: bool)
    requires
        from <= to <= chars.len(),
    ensures
        blank == is_blank(chars@.subrange(from as int, to as int)),
{
    let ghost part = chars@.subrange(from as int, to as int);
    let mut k: usize = from;
    while k < to
        invariant
            from <= k <= to <= chars.len(),
            part == chars@.subrange(from as int, to as int),
            forall|j: int| 0 <= j < k - from ==> white_space(#[trigger] part[j]),
        decreases to - k,
    {
        if !is_white_space(chars[k]) {
            assert(!white_space(part[k - from]));
            return false;
        }
        k = k + 1;
    }
    true
}

impl Default for TextSplitter {
    /// Windows of 500 characters that overlap by 50.
    fn default() -> (splitter: TextSplitter)
        ensures
            splitter.chunk_size() == 500,
            splitter.chunk_overlap() == 50,
    {
        TextSplitter { chunk_size: 500, chunk_overlap: 50 }
    }
}

} // verus!
