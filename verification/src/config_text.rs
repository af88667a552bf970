//! The `KEY=VALUE` text files that define legacy grids and cell orders.

use vstd::prelude::*;
use vstd::string::StrSliceExecFns;

use crate::decimal::is_ascii_digit;
use crate::text::{chars_of, same_text, trim, trim_range};
use crate::tokens::{is_skipped_line, lemma_pieces_nonempty, pieces, skipped_line, split_on, texts};

verus! {

broadcast use vstd::string::group_string_axioms;

/// A data line without `=`; `line` counts from zero.
#[derive(Clone, Copy, Debug, PartialEq, Eq, Structural)]
pub struct ConfigLineError {
    pub line: usize,
}

/// One `KEY=VALUE` entry: the trimmed line's text before its first `=`, and
/// the text between that and the next `=` (or the end).
pub open spec fn entry_of(line: Seq<char>) -> (Seq<char>, Seq<char>) {
    let parts = pieces(trim(line), '=');
    (parts[0], parts[1])
}

/// Whether a trimmed line holds an `=`.
pub open spec fn has_equals(line: Seq<char>) -> bool {
    trim(line).contains('=')
}

/// The entries of the lines from `k` on, or the first line without `=`.
pub open spec fn entries_from(lines: Seq<Seq<char>>, k: int) -> Result<Seq<(Seq<char>, Seq<char>)>, ConfigLineError>
    decreases lines.len() - k,
{
    if k < 0 || k >= lines.len() {
        Ok(Seq::empty())
    } else if is_skipped_line(lines[k], true) {
        entries_from(lines, k + 1)
    } else if !has_equals(lines[k]) {
        Err(ConfigLineError { line: k as usize })
    } else {
        match entries_from(lines, k + 1) {
            Ok(rest) => Ok(seq![entry_of(lines[k])] + rest),
            Err(e) => Err(e),
        }
    }
}

/// The view of entries as pairs of texts.
pub open spec fn entries_view(entries: Seq<(String, String)>) -> Seq<(Seq<char>, Seq<char>)> {
    Seq::new(entries.len(), |k: int| (entries[k].0@, entries[k].1@))
}

/// Whether the pieces of a text split at `sep` number at least two exactly
/// when the text holds `sep`.
proof fn lemma_pieces_of_separator(s: Seq<char>, sep: char)
    ensures
        s.contains(sep) <==> pieces(s, sep).len() >= 2,
{
    crate::tokens::lemma_piece_end(s, 0, sep);
    let j = crate::tokens::piece_end(s, 0, sep);
    if j < s.len() {
        crate::tokens::lemma_piece_end(s, j + 1, sep);
        assert(pieces(s, sep) == seq![s.subrange(0, j)] + crate::tokens::pieces_from(s, j + 1, sep));
    }
    if s.contains(sep) {
        let k = choose|k: int| 0 <= k < s.len() && s[k] == sep;
        assert(j <= k);
    } else {
        if j < s.len() {
            assert(s[j] == sep);
        }
    }
}

/// Whether the characters of `cs` include `c`.
fn holds_char(cs: &Vec<char>, c: char) -> (found: bool)
    ensures
        found == cs@.contains(c),
{
    let mut k: usize = 0;
    while k < cs.len()
        invariant
            k <= cs@.len(),
            forall|j: int| 0 <= j < k ==> cs@[j] != c,
        decreases cs@.len() - k,
    {
        if cs[k] == c {
            proof {
                assert(cs@[k as int] == c);
            }
            return true;
        }
        k += 1;
    }
    false
}

/// The `KEY=VALUE` entries of `text`, in order, without blank lines and `#`
/// or `%` comments; or the first data line without `=`.
pub fn config_entries(text: &str) -> (result: Result<Vec<(String, String)>, ConfigLineError>)
    ensures
        match result {
            Ok(entries) => entries_from(pieces(text@, '\n'), 0) == Ok::<Seq<(Seq<char>, Seq<char>)>, ConfigLineError>(entries_view(entries@)),
            Err(e) => entries_from(pieces(text@, '\n'), 0) == Err::<Seq<(Seq<char>, Seq<char>)>, ConfigLineError>(e),
        },
{
    let lines = split_on(text, '\n');
    let ghost ls = texts(lines@);
    let mut entries: Vec<(String, String)> = Vec::new();
    let mut k: usize = 0;
    while k < lines.len()
        invariant
            ls == texts(lines@),
            ls == pieces(text@, '\n'),
            k <= lines@.len(),
            forall|r: Seq<(Seq<char>, Seq<char>)>| entries_from(ls, k as int) == Ok::<Seq<(Seq<char>, Seq<char>)>, ConfigLineError>(r)
                ==> entries_from(ls, 0) == Ok::<Seq<(Seq<char>, Seq<char>)>, ConfigLineError>(entries_view(entries@) + r),
            forall|e: ConfigLineError| entries_from(ls, k as int) == Err::<Seq<(Seq<char>, Seq<char>)>, ConfigLineError>(e)
                ==> entries_from(ls, 0) == Err::<Seq<(Seq<char>, Seq<char>)>, ConfigLineError>(e),
        decreases lines@.len() - k,
    {
        let line = lines[k].as_str();
        assert(line@ == ls[k as int]);
        if !skipped_line(line, true) {
            let cs = chars_of(line);
            let (a, b) = trim_range(&cs, 0, cs.len());
            proof {
                assert(cs@.subrange(0, cs@.len() as int) =~= line@);
            }
            let trimmed = line.substring_char(a, b);
            let tcs = chars_of(trimmed);
            if !holds_char(&tcs, '=') {
                proof {
                    assert(!has_equals(ls[k as int]));
                }
                return Err(ConfigLineError { line: k });
            }
            let parts = split_on(trimmed, '=');
            proof {
                lemma_pieces_of_separator(trimmed@, '=');
                assert(texts(parts@).len() == parts@.len());
            }
            let entry = (parts[0].clone(), parts[1].clone());
            proof {
                assert(entries_view(entries@.push(entry)) =~= entries_view(entries@).push(entry_of(ls[k as int])));
                assert forall|r: Seq<(Seq<char>, Seq<char>)>| entries_from(ls, k + 1) == Ok::<Seq<(Seq<char>, Seq<char>)>, ConfigLineError>(r)
                    implies entries_from(ls, 0) == Ok::<Seq<(Seq<char>, Seq<char>)>, ConfigLineError>(entries_view(entries@.push(entry)) + r) by {
                    assert(entries_from(ls, k as int) == Ok::<Seq<(Seq<char>, Seq<char>)>, ConfigLineError>(seq![entry_of(ls[k as int])] + r));
                    assert(entries_view(entries@) + (seq![entry_of(ls[k as int])] + r) =~= entries_view(entries@.push(entry)) + r);
                }
            }
            entries.push(entry);
        }
        k += 1;
    }
    proof {
        assert(entries_from(ls, k as int) == Ok::<Seq<(Seq<char>, Seq<char>)>, ConfigLineError>(Seq::empty()));
        assert(entries_view(entries@) + Seq::<(Seq<char>, Seq<char>)>::empty() =~= entries_view(entries@));
    }
    Ok(entries)
}

/// The first value given for `key`, if any.
pub open spec fn first_value(entries: Seq<(Seq<char>, Seq<char>)>, key: Seq<char>) -> Option<Seq<char>>
    decreases entries.len(),
{
    if entries.len() == 0 {
        None
    } else if entries[0].0 == key {
        Some(entries[0].1)
    } else {
        first_value(entries.drop_first(), key)
    }
}

/// The first value given for `key`, if any.
pub fn config_value(entries: &Vec<(String, String)>, key: &str) -> (value: Option<String>)
    ensures
        match value {
            Some(v) => first_value(entries_view(entries@), key@) == Some(v@),
            None => first_value(entries_view(entries@), key@) is None,
        },
{
    let ghost all = entries_view(entries@);
    proof {
        assert(all.skip(0) =~= all);
    }
    let mut k: usize = 0;
    while k < entries.len()
        invariant
            all == entries_view(entries@),
            k <= entries@.len(),
            first_value(all, key@) == first_value(all.skip(k as int), key@),
        decreases entries@.len() - k,
    {
        proof {
            assert(all.skip(k as int)[0] == (entries@[k as int].0@, entries@[k as int].1@));
            assert(all.skip(k as int).drop_first() =~= all.skip(k + 1));
        }
        if same_text(entries[k].0.as_str(), key) {
            return Some(entries[k].1.clone());
        }
        k += 1;
    }
    proof {
        assert(all.skip(k as int) =~= Seq::empty());
    }
    None
}

/// `text` without any `f`, as grid files write `100f` for a count.
pub open spec fn without_f(text: Seq<char>) -> Seq<char>
    decreases text.len(),
{
    if text.len() == 0 {
        text
    } else if text.last() == 'f' {
        without_f(text.drop_last())
    } else {
        without_f(text.drop_last()).push(text.last())
    }
}

/// The count a text spells: decimal digits, optionally after a `+`, with a
/// value that fits in `usize`.
pub open spec fn count_of(text: Seq<char>) -> Option<usize> {
    if unsigned_digits(text).len() > 0 && all_digits(unsigned_digits(text))
        && digits_number(unsigned_digits(text)) <= usize::MAX {
        Some(digits_number(unsigned_digits(text)) as usize)
    } else {
        None
    }
}

/// `text` without a leading `+`.
pub open spec fn unsigned_digits(text: Seq<char>) -> Seq<char> {
    if text.len() > 0 && text[0] == '+' { text.drop_first() } else { text }
}

/// Whether every character is a decimal digit.
pub open spec fn all_digits(s: Seq<char>) -> bool {
    forall|k: int| 0 <= k < s.len() ==> is_ascii_digit(#[trigger] s[k])
}

/// The number decimal digits spell.
pub open spec fn digits_number(digits: Seq<char>) -> nat
    decreases digits.len(),
{
    if digits.len() == 0 {
        0
    } else {
        digits_number(digits.drop_last()) * 10 + (digits.last() as u32 - '0' as u32) as nat
    }
}

/// A grid dimension as written in a grid file (`GRIDNROWS=100f`): its `f`s
/// dropped, read as a count.
pub fn grid_count(text: &str) -> (count: Option<usize>)
    ensures
        count == count_of(without_f(text@)),
{
    let cs = chars_of(text);
    let mut kept: Vec<char> = Vec::new();
    let mut k: usize = 0;
    while k < cs.len()
        invariant
            cs@ == text@,
            k <= cs@.len(),
            kept@ == without_f(text@.take(k as int)),
        decreases cs@.len() - k,
    {
        proof {
            assert(text@.take(k + 1).drop_last() =~= text@.take(k as int));
            assert(text@.take(k + 1).last() == text@[k as int]);
        }
        if cs[k] != 'f' {
            kept.push(cs[k]);
        }
        k += 1;
    }
    proof {
        assert(text@.take(k as int) =~= text@);
    }
    let start: usize = if kept.len() > 0 && kept[0] == '+' { 1 } else { 0 };
    let ghost digits = unsigned_digits(kept@);
    proof {
        assert(digits =~= kept@.skip(start as int));
    }
    if start >= kept.len() {
        return None;
    }
    let mut value: usize = 0;
    let mut j: usize = start;
    while j < kept.len()
        invariant
            kept@ == without_f(text@),
            digits == unsigned_digits(kept@),
            start <= j <= kept@.len(),
            digits == kept@.skip(start as int),
            forall|i: int| 0 <= i < j - start ==> is_ascii_digit(#[trigger] digits[i]),
            value == digits_number(digits.take(j - start)),
        decreases kept@.len() - j,
    {
        let c = kept[j];
        if !('0' <= c && c <= '9') {
            proof {
                assert(!is_ascii_digit(digits[j - start]));
                assert(!all_digits(digits));
            }
            return None;
        }
        let d: usize = (c as u32 - '0' as u32) as usize;
        proof {
            assert(digits.take(j - start + 1).drop_last() =~= digits.take(j - start));
            assert(digits.take(j - start + 1).last() == c);
        }
        if value > (usize::MAX - d) / 10 {
            proof {
                assert(value * 10 + d > usize::MAX) by (nonlinear_arith)
                    requires
                        value > (usize::MAX - d) / 10,
                        d <= 9;
                lemma_digits_number_prefix(digits, j - start + 1);
                if all_digits(digits) {
                    assert(digits_number(digits) > usize::MAX);
                }
            }
            return None;
        }
        value = value * 10 + d;
        j += 1;
    }
    proof {
        assert(digits.take(j - start) =~= digits);
    }
    Some(value)
}

/// A longer digit prefix spells no smaller number.
proof fn lemma_digits_number_prefix(digits: Seq<char>, n: int)
    requires
        0 <= n <= digits.len(),
        forall|k: int| 0 <= k < n ==> is_ascii_digit(#[trigger] digits[k]),
    ensures
        all_digits(digits) ==> digits_number(digits.take(n)) <= digits_number(digits),
    decreases digits.len() - n,
{
    if n < digits.len() {
        if is_ascii_digit(digits[n]) {
            assert(digits.take(n + 1).drop_last() =~= digits.take(n));
            lemma_digits_number_prefix(digits, n + 1);
        }
    } else {
        assert(digits.take(n) =~= digits);
    }
}

} // verus!
