//! Splitting text into words, lines and marker-separated pieces.

use vstd::prelude::*;
use crate::text::{find_from, find_text, lemma_find_from};

verus! {

/// A column separator of the downloader's tables: a space or a tab.
pub open spec fn is_blank(c: char) -> bool {
    c == ' ' || c == '\t'
}

/// The views of the texts of `v`, in order.
pub open spec fn texts(v: Seq<Vec<char>>) -> Seq<Seq<char>> {
    Seq::new(v.len(), |k: int| v[k]@)
}

/// First position at or after `i` that holds no blank (the length if none).
pub open spec fn skip_blanks(s: Seq<char>, i: int) -> int
    decreases s.len() - i,
{
    if 0 <= i < s.len() && is_blank(s[i]) {
        skip_blanks(s, i + 1)
    } else {
        i
    }
}

/// First position at or after `i` that holds a blank (the length if none).
pub open spec fn skip_word(s: Seq<char>, i: int) -> int
    decreases s.len() - i,
{
    if 0 <= i < s.len() && !is_blank(s[i]) {
        skip_word(s, i + 1)
    } else {
        i
    }
}

/// The words of `s` that start at or after `i`: maximal runs without blanks.
pub open spec fn words_from(s: Seq<char>, i: int) -> Seq<Seq<char>>
    decreases s.len() - i,
{
    let b = skip_blanks(s, i);
    if i < 0 || b < i || b >= s.len() {
        Seq::empty()
    } else {
        let e = skip_word(s, b);
        if e <= b || e > s.len() {
            Seq::empty()
        } else {
            seq![s.subrange(b, e)] + words_from(s, e)
        }
    }
}

/// The words of `s`, in order.
pub open spec fn words_of(s: Seq<char>) -> Seq<Seq<char>> {
    words_from(s, 0)
}

/// The run of blanks skipped from `i` ends within the text, at a character
/// that is no blank.
pub proof fn lemma_skip_blanks(s: Seq<char>, i: int)
    requires
        0 <= i <= s.len(),
    ensures
        i <= skip_blanks(s, i) <= s.len(),
        skip_blanks(s, i) < s.len() ==> !is_blank(s[skip_blanks(s, i)]),
        forall|k: int| i <= k < skip_blanks(s, i) ==> is_blank(s[k]),
    decreases s.len() - i,
{
    if i < s.len() && is_blank(s[i]) {
        lemma_skip_blanks(s, i + 1);
    }
}

/// The word skipped from `i` ends within the text, at a blank or at the end.
pub proof fn lemma_skip_word(s: Seq<char>, i: int)
    requires
        0 <= i <= s.len(),
    ensures
        i <= skip_word(s, i) <= s.len(),
        skip_word(s, i) < s.len() ==> is_blank(s[skip_word(s, i)]),
        forall|k: int| i <= k < skip_word(s, i) ==> !is_blank(s[k]),
        i < s.len() && !is_blank(s[i]) ==> i < skip_word(s, i),
    decreases s.len() - i,
{
    if i < s.len() && !is_blank(s[i]) {
        lemma_skip_word(s, i + 1);
    }
}

/// Whether `c` separates columns.
pub fn blank(c: char) -> (r: bool)
    ensures
        r == is_blank(c),
{
    c == ' ' || c == '\t'
}

/// Position of the first character at or after `i` that is no blank.
pub fn after_blanks(s: &Vec<char>, i: usize) -> (r: usize)
    requires
        i <= s.len(),
    ensures
        r == skip_blanks(s@, i as int),
        i <= r <= s.len(),
{
    let mut j: usize = i;
    while j < s.len() && blank(s[j])
        invariant
            i <= j <= s.len(),
            skip_blanks(s@, i as int) == skip_blanks(s@, j as int),
        decreases s.len() - j,
    {
        j += 1;
    }
    j
}

/// Position of the first blank at or after `i`.
pub fn after_word(s: &Vec<char>, i: usize) -> (r: usize)
    requires
        i <= s.len(),
    ensures
        r == skip_word(s@, i as int),
        i <= r <= s.len(),
{
    let mut j: usize = i;
    while j < s.len() && !blank(s[j])
        invariant
            i <= j <= s.len(),
            skip_word(s@, i as int) == skip_word(s@, j as int),
        decreases s.len() - j,
    {
        j += 1;
    }
    j
}

/// A copy of `s[from..to]`.
pub fn slice_of(s: &Vec<char>, from: usize, to: usize) -> (out: Vec<char>)
    requires
        from <= to <= s.len(),
    ensures
        out@ == s@.subrange(from as int, to as int),
{
    let mut out: Vec<char> = Vec::new();
    let mut i: usize = from;
    while i < to
        invariant
            from <= i <= to <= s.len(),
            out@ == s@.subrange(from as int, i as int),
        decreases to - i,
    {
        out.push(s[i]);
        i += 1;
    }
    out
}

/// The words of `s`, in order.
pub fn split_words(s: &Vec<char>) -> (out: Vec<Vec<char>>)
    ensures
        texts(out@) == words_of(s@),
{
    let mut out: Vec<Vec<char>> = Vec::new();
    let mut i: usize = 0;
    assert(texts(out@) + words_from(s@, 0) == words_of(s@));
    while i < s.len()
        invariant
            i <= s.len(),
            texts(out@) + words_from(s@, i as int) == words_of(s@),
        decreases s.len() - i,
    {
        let b = after_blanks(s, i);
        if b >= s.len() {
            i = s.len();
            proof {
                assert(words_from(s@, s.len() as int) == Seq::<Seq<char>>::empty());
            }
        } else {
            let e = after_word(s, b);
            proof {
                lemma_skip_blanks(s@, i as int);
                lemma_skip_word(s@, b as int);
            }
            let word = slice_of(s, b, e);
            let ghost before = texts(out@);
            out.push(word);
            proof {
                assert(texts(out@) == before + seq![s@.subrange(b as int, e as int)]);
                assert(words_from(s@, i as int) == seq![s@.subrange(b as int, e as int)]
                    + words_from(s@, e as int));
            }
            i = e;
        }
    }
    assert(words_from(s@, s.len() as int) == Seq::<Seq<char>>::empty());
    out
}

// ---------------------------------------------------------------------------
// Lines
// ---------------------------------------------------------------------------

/// First position at or after `i` that holds a line feed (the length if none).
pub open spec fn line_end(s: Seq<char>, i: int) -> int
    decreases s.len() - i,
{
    if 0 <= i < s.len() && s[i] != '\n' {
        line_end(s, i + 1)
    } else {
        i
    }
}

/// A line without the carriage return that preceded its line feed.
pub open spec fn strip_cr(line: Seq<char>, terminated: bool) -> Seq<char> {
    if terminated && line.len() > 0 && line.last() == '\r' {
        line.drop_last()
    } else {
        line
    }
}

/// The lines of `s` that start at or after `i`. A line ends at a line feed or
/// at the end of the text; a text that ends in a line feed has no empty last
/// line.
pub open spec fn lines_from(s: Seq<char>, i: int) -> Seq<Seq<char>>
    decreases s.len() - i + 1,
{
    if i < 0 || i >= s.len() {
        Seq::empty()
    } else {
        let e = line_end(s, i);
        if e < i || e > s.len() {
            Seq::empty()
        } else {
            seq![strip_cr(s.subrange(i, e), e < s.len())] + lines_from(s, e + 1)
        }
    }
}

/// The lines of `s`, in order.
pub open spec fn lines_of(s: Seq<char>) -> Seq<Seq<char>> {
    lines_from(s, 0)
}

/// Position of the first line feed at or after `i`.
pub fn end_of_line(s: &Vec<char>, i: usize) -> (r: usize)
    requires
        i <= s.len(),
    ensures
        r == line_end(s@, i as int),
        i <= r <= s.len(),
{
    let mut j: usize = i;
    while j < s.len() && s[j] != '\n'
        invariant
            i <= j <= s.len(),
            line_end(s@, i as int) == line_end(s@, j as int),
        decreases s.len() - j,
    {
        j += 1;
    }
    j
}

/// The lines of `s`, in order.
pub fn split_lines(s: &Vec<char>) -> (out: Vec<Vec<char>>)
    ensures
        texts(out@) == lines_of(s@),
{
    let mut out: Vec<Vec<char>> = Vec::new();
    let mut i: usize = 0;
    assert(texts(out@) + lines_from(s@, 0) == lines_of(s@));
    while i < s.len()
        invariant
            i <= s.len(),
            texts(out@) + lines_from(s@, i as int) == lines_of(s@),
        decreases s.len() - i,
    {
        let e = end_of_line(s, i);
        let terminated = e < s.len();
        let stop: usize = if terminated && e > i && s[e - 1] == '\r' {
            e - 1
        } else {
            e
        };
        let line = slice_of(s, i, stop);
        let ghost before = texts(out@);
        let ghost rest = if terminated { lines_from(s@, e + 1) } else { Seq::empty() };
        proof {
            let raw = s@.subrange(i as int, e as int);
            if terminated && e > i && s@[e - 1] == '\r' {
                assert(raw.last() == '\r');
                assert(raw.drop_last() == s@.subrange(i as int, stop as int));
            }
            assert(line@ == strip_cr(raw, terminated));
            assert(lines_from(s@, e + 1) == rest);
            assert(lines_from(s@, i as int) == seq![line@] + rest);
        }
        out.push(line);
        proof {
            assert(texts(out@) == before + seq![line@]);
        }
        if terminated {
            i = e + 1;
        } else {
            i = s.len();
            proof {
                assert(lines_from(s@, s.len() as int) == Seq::<Seq<char>>::empty());
            }
        }
    }
    assert(lines_from(s@, s.len() as int) == Seq::<Seq<char>>::empty());
    out
}

// ---------------------------------------------------------------------------
// Pieces between markers
// ---------------------------------------------------------------------------

/// The pieces of `s` from `i` on that lie between occurrences of `marker`,
/// found from the left without overlap. There is always at least one piece;
/// pieces may be empty.
pub open spec fn pieces_from(s: Seq<char>, marker: Seq<char>, i: int) -> Seq<Seq<char>>
    decreases s.len() - i + 1,
{
    if marker.len() == 0 || i < 0 || i > s.len() {
        Seq::empty()
    } else {
        match find_from(s, marker, i) {
            None => seq![s.subrange(i, s.len() as int)],
            Some(p) => if p < i || p + marker.len() > s.len() {
                Seq::empty()
            } else {
                seq![s.subrange(i, p)] + pieces_from(s, marker, p + marker.len())
            },
        }
    }
}

/// The pieces of `s` between occurrences of `marker`.
pub open spec fn pieces_of(s: Seq<char>, marker: Seq<char>) -> Seq<Seq<char>> {
    pieces_from(s, marker, 0)
}

/// The pieces of `s` between occurrences of `marker`, in order.
pub fn split_pieces(s: &Vec<char>, marker: &Vec<char>) -> (out: Vec<Vec<char>>)
    requires
        marker.len() > 0,
    ensures
        texts(out@) == pieces_of(s@, marker@),
{
    let mut out: Vec<Vec<char>> = Vec::new();
    let mut i: usize = 0;
    let mut done = false;
    assert(texts(out@) + pieces_from(s@, marker@, 0) == pieces_of(s@, marker@));
    while !done
        invariant
            i <= s.len(),
            marker.len() > 0,
            !done ==> texts(out@) + pieces_from(s@, marker@, i as int) == pieces_of(s@, marker@),
            done ==> texts(out@) == pieces_of(s@, marker@),
        decreases (if done { 0int } else { s.len() - i + 1 }),
    {
        let ghost before = texts(out@);
        proof {
            lemma_find_from(s@, marker@, i as int);
        }
        match find_text(s, marker, i) {
            None => {
                let piece = slice_of(s, i, s.len());
                out.push(piece);
                proof {
                    assert(texts(out@) == before + seq![piece@]);
                }
                done = true;
            },
            Some(p) => {
                let piece = slice_of(s, i, p);
                out.push(piece);
                proof {
                    assert(texts(out@) == before + seq![piece@]);
                    assert(pieces_from(s@, marker@, i as int) == seq![piece@] + pieces_from(
                        s@,
                        marker@,
                        p + marker.len(),
                    ));
                }
                i = p + marker.len();
            },
        }
    }
    out
}

} // verus!
