//! Splitting the runner's text files into lines, rows and columns.

use vstd::prelude::*;
use vstd::string::StrSliceExecFns;

use crate::text::{chars_of, is_white_space, is_white_space_exec, trim, trim_range};

verus! {

broadcast use vstd::string::group_string_axioms;

/// The end of the run of non-white-space characters that starts at `i`.
pub open spec fn word_end(s: Seq<char>, i: int) -> int
    decreases s.len() - i,
{
    if 0 <= i < s.len() && !is_white_space(s[i]) {
        word_end(s, i + 1)
    } else {
        i
    }
}

pub proof fn lemma_word_end(s: Seq<char>, i: int)
    requires
        0 <= i <= s.len(),
    ensures
        i <= word_end(s, i) <= s.len(),
        forall|k: int| i <= k < word_end(s, i) ==> !is_white_space(#[trigger] s[k]),
        word_end(s, i) < s.len() ==> is_white_space(s[word_end(s, i)]),
    decreases s.len() - i,
{
    if i < s.len() && !is_white_space(s[i]) {
        lemma_word_end(s, i + 1);
    }
}

/// The white-space separated words of `s` from position `i` on.
pub open spec fn words_from(s: Seq<char>, i: int) -> Seq<Seq<char>>
    decreases s.len() - i,
{
    if i < 0 || i >= s.len() {
        Seq::empty()
    } else if is_white_space(s[i]) {
        words_from(s, i + 1)
    } else {
        let j = word_end(s, i);
        proof {
            lemma_word_end(s, i);
        }
        seq![s.subrange(i, j)] + words_from(s, j)
    }
}

/// The white-space separated words of `s`, as `str::split_whitespace` gives
/// them.
pub open spec fn words(s: Seq<char>) -> Seq<Seq<char>> {
    words_from(s, 0)
}

/// The texts of `v`, in order.
pub open spec fn texts(v: Seq<String>) -> Seq<Seq<char>> {
    Seq::new(v.len(), |k: int| v[k]@)
}

/// The white-space separated words of `text`.
pub fn split_whitespace(text: &str) -> (parts: Vec<String>)
    ensures
        texts(parts@) == words(text@),
{
    let cs = chars_of(text);
    let n = cs.len();
    let mut parts: Vec<String> = Vec::new();
    let mut i: usize = 0;
    while i < n
        invariant
            cs@ == text@,
            n == cs@.len(),
            i <= n,
            words(text@) == texts(parts@) + words_from(text@, i as int),
        decreases n - i,
    {
        if is_white_space_exec(cs[i]) {
            i += 1;
        } else {
            let mut j = i + 1;
            while j < n && !is_white_space_exec(cs[j])
                invariant
                    cs@ == text@,
                    n == cs@.len(),
                    i < j <= n,
                    word_end(text@, i as int) == word_end(text@, j as int),
                decreases n - j,
            {
                j += 1;
            }
            let word = text.substring_char(i, j).to_owned();
            proof {
                lemma_word_end(text@, i as int);
                assert(word_end(text@, i as int) == j);
                assert(texts(parts@.push(word)) =~= texts(parts@).push(word@));
                assert(words_from(text@, i as int) == seq![text@.subrange(i as int, j as int)] + words_from(text@, j as int));
            }
            parts.push(word);
            proof {
                assert(words(text@) =~= texts(parts@) + words_from(text@, j as int));
            }
            i = j;
        }
    }
    proof {
        assert(words_from(text@, i as int) =~= Seq::empty());
        assert(words(text@) =~= texts(parts@));
    }
    parts
}

/// The first position at or after `i` that holds `sep`, or the length.
pub open spec fn piece_end(s: Seq<char>, i: int, sep: char) -> int
    decreases s.len() - i,
{
    if 0 <= i < s.len() && s[i] != sep {
        piece_end(s, i + 1, sep)
    } else {
        i
    }
}

pub proof fn lemma_piece_end(s: Seq<char>, i: int, sep: char)
    requires
        0 <= i <= s.len(),
    ensures
        i <= piece_end(s, i, sep) <= s.len(),
        forall|k: int| i <= k < piece_end(s, i, sep) ==> #[trigger] s[k] != sep,
        piece_end(s, i, sep) < s.len() ==> s[piece_end(s, i, sep)] == sep,
    decreases s.len() - i,
{
    if i < s.len() && s[i] != sep {
        lemma_piece_end(s, i + 1, sep);
    }
}

/// The pieces of `s` between occurrences of `sep`, from position `i` on.
pub open spec fn pieces_from(s: Seq<char>, i: int, sep: char) -> Seq<Seq<char>>
    decreases s.len() - i,
{
    if i < 0 || i > s.len() {
        Seq::empty()
    } else {
        let j = piece_end(s, i, sep);
        proof {
            lemma_piece_end(s, i, sep);
        }
        if j >= s.len() {
            seq![s.subrange(i, s.len() as int)]
        } else {
            seq![s.subrange(i, j)] + pieces_from(s, j + 1, sep)
        }
    }
}

/// The pieces of `s` between occurrences of `sep`, as `str::split` gives them:
/// never none, and empty pieces kept.
pub open spec fn pieces(s: Seq<char>, sep: char) -> Seq<Seq<char>> {
    pieces_from(s, 0, sep)
}

/// There is always at least one piece.
pub proof fn lemma_pieces_nonempty(s: Seq<char>, sep: char)
    ensures
        pieces(s, sep).len() >= 1,
{
    lemma_piece_end(s, 0, sep);
}

/// The pieces of `text` between occurrences of `sep`.
pub fn split_on(text: &str, sep: char) -> (parts: Vec<String>)
    ensures
        texts(parts@) == pieces(text@, sep),
{
    let cs = chars_of(text);
    let n = cs.len();
    let mut parts: Vec<String> = Vec::new();
    let mut i: usize = 0;
    loop
        invariant
            cs@ == text@,
            n == cs@.len(),
            i <= n,
            pieces(text@, sep) == texts(parts@) + pieces_from(text@, i as int, sep),
        decreases n - i,
    {
        let mut j = i;
        while j < n && cs[j] != sep
            invariant
                cs@ == text@,
                n == cs@.len(),
                i <= j <= n,
                piece_end(text@, i as int, sep) == piece_end(text@, j as int, sep),
            decreases n - j,
        {
            j += 1;
        }
        let piece = text.substring_char(i, j).to_owned();
        proof {
            lemma_piece_end(text@, i as int, sep);
            assert(piece_end(text@, i as int, sep) == j);
            assert(texts(parts@.push(piece)) =~= texts(parts@).push(piece@));
        }
        parts.push(piece);
        if j >= n {
            proof {
                assert(pieces_from(text@, i as int, sep) == seq![text@.subrange(i as int, n as int)]);
                assert(pieces(text@, sep) =~= texts(parts@));
            }
            return parts;
        }
        proof {
            assert(pieces_from(text@, i as int, sep)
                == seq![text@.subrange(i as int, j as int)] + pieces_from(text@, j + 1, sep));
            assert(pieces(text@, sep) =~= texts(parts@) + pieces_from(text@, j + 1, sep));
        }
        i = j + 1;
    }
}

/// Whether a line carries no data: blank once trimmed, or a comment starting
/// with `#` (or, where `percent_comments`, with `%`).
pub open spec fn is_skipped_line(line: Seq<char>, percent_comments: bool) -> bool {
    let t = trim(line);
    t.len() == 0 || t[0] == '#' || (percent_comments && t[0] == '%')
}

/// The data rows of `lines` from line `k` on: each kept line's number and
/// its white-space separated columns.
pub open spec fn rows_from(lines: Seq<Seq<char>>, k: int, percent_comments: bool) -> Seq<(int, Seq<Seq<char>>)>
    decreases lines.len() - k,
{
    if k < 0 || k >= lines.len() {
        Seq::empty()
    } else if is_skipped_line(lines[k], percent_comments) {
        rows_from(lines, k + 1, percent_comments)
    } else {
        seq![(k, words(lines[k]))] + rows_from(lines, k + 1, percent_comments)
    }
}

/// One data row of a text file.
#[derive(Clone, Debug)]
pub struct TextRow {
    /// The row's line, counted from zero.
    pub line: usize,
    pub columns: Vec<String>,
}

/// The view of rows as line numbers and column texts.
pub open spec fn rows_view(rows: Seq<TextRow>) -> Seq<(int, Seq<Seq<char>>)> {
    Seq::new(rows.len(), |k: int| (rows[k].line as int, texts(rows[k].columns@)))
}

/// Whether `line` carries no data.
pub fn skipped_line(line: &str, percent_comments: bool) -> (skip: bool)
    ensures
        skip == is_skipped_line(line@, percent_comments),
{
    let cs = chars_of(line);
    let (a, b) = trim_range(&cs, 0, cs.len());
    proof {
        assert(cs@.subrange(0, cs@.len() as int) =~= line@);
    }
    if a == b {
        return true;
    }
    let first = cs[a];
    proof {
        assert(trim(line@)[0] == cs@[a as int]);
    }
    first == '#' || (percent_comments && first == '%')
}

/// The data rows of `text`: its lines, split at `\n`, without blank and
/// comment lines, each split into white-space separated columns.
pub fn text_rows(text: &str, percent_comments: bool) -> (rows: Vec<TextRow>)
    ensures
        rows_view(rows@) == rows_from(pieces(text@, '\n'), 0, percent_comments),
{
    let lines = split_on(text, '\n');
    let ghost ls = texts(lines@);
    let mut rows: Vec<TextRow> = Vec::new();
    let mut k: usize = 0;
    while k < lines.len()
        invariant
            ls == texts(lines@),
            ls == pieces(text@, '\n'),
            k <= lines@.len(),
            rows_from(ls, 0, percent_comments) == rows_view(rows@) + rows_from(ls, k as int, percent_comments),
        decreases lines@.len() - k,
    {
        let line = lines[k].as_str();
        assert(line@ == ls[k as int]);
        if !skipped_line(line, percent_comments) {
            let columns = split_whitespace(line);
            let row = TextRow { line: k, columns };
            proof {
                assert(rows_view(rows@.push(row)) =~= rows_view(rows@).push((k as int, words(ls[k as int]))));
            }
            rows.push(row);
            proof {
                assert(rows_from(ls, 0, percent_comments) =~= rows_view(rows@) + rows_from(ls, k + 1, percent_comments));
            }
        }
        k += 1;
    }
    proof {
        assert(rows_from(ls, k as int, percent_comments) =~= Seq::empty());
        assert(rows_from(ls, 0, percent_comments) =~= rows_view(rows@));
    }
    rows
}

} // verus!
