//! What cutting, splitting and joining texts comes to.

use vstd::prelude::*;

use crate::text::cut_at;
use crate::text::cut_at_last;
use crate::text::fields;
use crate::text::first_from;
use crate::text::joined;
use crate::text::last_of;
use crate::text::lines_of;
use crate::text::lower_text;
use crate::text::occupied;
use crate::text::occurs_at;
use crate::text::trim_end;
use crate::text::trim_start;
use crate::text::trim_text;
use crate::text::upper_text;
use crate::text::white_space;
use crate::text::without_return;
use crate::text::Separator;

verus! {

// ---------------------------------------------------------------------------
// Letters
// ---------------------------------------------------------------------------

/// Letters change their case one by one: an ASCII letter becomes its counterpart, and every other
/// character stays.
pub proof fn case_changes_letter_by_letter(text: Seq<char>, i: int)
    requires
        0 <= i < text.len(),
    ensures
        lower_text(text).len() == text.len(),
        upper_text(text).len() == text.len(),
        lower_text(text)[i] as int == if 65 <= text[i] as int <= 90 {
            text[i] as int + 32
        } else {
            text[i] as int
        },
        upper_text(text)[i] as int == if 97 <= text[i] as int <= 122 {
            text[i] as int - 32
        } else {
            text[i] as int
        },
{
}

// ---------------------------------------------------------------------------
// Trimming
// ---------------------------------------------------------------------------

proof fn start_is_cut(text: Seq<char>) -> (from: int)
    ensures
        0 <= from <= text.len(),
        trim_start(text) == text.skip(from),
        forall|i: int| 0 <= i < from ==> white_space(#[trigger] text[i]),
        from < text.len() ==> !white_space(text[from]),
    decreases text.len(),
{
    if text.len() > 0 && white_space(text[0]) {
        let rest = text.drop_first();
        let from = start_is_cut(rest);
        assert(rest.skip(from) =~= text.skip(from + 1));
        assert forall|i: int| 0 <= i < from + 1 implies white_space(#[trigger] text[i]) by {
            if i > 0 {
                assert(rest[i - 1] == text[i]);
            }
        }
        from + 1
    } else {
        assert(text.skip(0) =~= text);
        0
    }
}

proof fn end_is_cut(text: Seq<char>) -> (to: int)
    ensures
        0 <= to <= text.len(),
        trim_end(text) == text.take(to),
        forall|i: int| to <= i < text.len() ==> white_space(#[trigger] text[i]),
        to > 0 ==> !white_space(text[to - 1]),
    decreases text.len(),
{
    if text.len() > 0 && white_space(text.last()) {
        let rest = text.drop_last();
        let to = end_is_cut(rest);
        assert(rest.take(to) =~= text.take(to));
        assert forall|i: int| to <= i < text.len() implies white_space(#[trigger] text[i]) by {
            if i < rest.len() {
                assert(rest[i] == text[i]);
            }
        }
        to
    } else {
        assert(text.take(text.len() as int) =~= text);
        text.len() as int
    }
}

/// The text between the positions is all of the text but the white space at its ends.
pub open spec fn trimmed_to(text: Seq<char>, from: int, to: int) -> bool {
    &&& 0 <= from <= to <= text.len()
    &&& forall|i: int| 0 <= i < from ==> white_space(#[trigger] text[i])
    &&& forall|i: int| to <= i < text.len() ==> white_space(#[trigger] text[i])
    &&& from < to ==> !white_space(text[from]) && !white_space(text[to - 1])
}

/// Trimming takes away the white space at either end, and nothing else.
pub proof fn trimming_takes_white_space(text: Seq<char>)
    ensures
        exists|from: int, to: int| #[trigger]
            trimmed_to(text, from, to) && trim_text(text) == text.subrange(from, to),
{
    let from = start_is_cut(text);
    let rest = text.skip(from);
    let size = end_is_cut(rest);
    let to = from + size;
    assert(rest.take(size) =~= text.subrange(from, to));
    assert forall|i: int| to <= i < text.len() implies white_space(#[trigger] text[i]) by {
        assert(rest[i - from] == text[i]);
    }
    if size > 0 {
        assert(rest[size - 1] == text[to - 1]);
    }
    assert(trimmed_to(text, from, to));
}

/// A text without white space at its ends stays as it is.
pub proof fn trimmed_texts_stay(text: Seq<char>)
    requires
        text.len() > 0 ==> !white_space(text[0]) && !white_space(text.last()),
    ensures
        trim_text(text) == text,
{
}

// ---------------------------------------------------------------------------
// Cutting
// ---------------------------------------------------------------------------

proof fn firsts_are_first(text: Seq<char>, pattern: Seq<char>, from: int)
    requires
        0 <= from,
    ensures
        match first_from(text, pattern, from) {
            Some(at) => from <= at && occurs_at(text, pattern, at) && forall|i: int|
                from <= i < at ==> !#[trigger] occurs_at(text, pattern, i),
            None => forall|i: int| from <= i ==> !#[trigger] occurs_at(text, pattern, i),
        },
    decreases text.len() + 1 - from,
{
    if from + pattern.len() <= text.len() && !occurs_at(text, pattern, from) {
        firsts_are_first(text, pattern, from + 1);
    }
}

/// A text is cut at the first copy of a pattern: what stands before and after it are the rest of the
/// text, and the pattern stands nowhere earlier. A text without the pattern is not cut.
pub proof fn texts_are_cut_at_the_first_copy(text: Seq<char>, pattern: Seq<char>)
    ensures
        match cut_at(text, pattern) {
            Some((before, after)) => text == before + pattern + after && forall|i: int|
                0 <= i < before.len() ==> !#[trigger] occurs_at(text, pattern, i),
            None => forall|i: int| !#[trigger] occurs_at(text, pattern, i),
        },
{
    firsts_are_first(text, pattern, 0);
    match first_from(text, pattern, 0) {
        Some(at) => {
            let size = pattern.len() as int;
            assert(text =~= text.take(at) + text.subrange(at, at + size) + text.skip(at + size));
        },
        None => {
            assert forall|i: int| !#[trigger] occurs_at(text, pattern, i) by {
                if i < 0 {
                }
            }
        },
    }
}

/// The cut is the only one with these properties.
pub proof fn first_cuts_are_found(before: Seq<char>, pattern: Seq<char>, after: Seq<char>)
    requires
        forall|i: int|
            0 <= i < before.len() ==> !#[trigger] occurs_at(before + pattern + after, pattern, i),
    ensures
        cut_at(before + pattern + after, pattern) == Some((before, after)),
{
    let text = before + pattern + after;
    let at = before.len() as int;
    assert(text.subrange(at, at + pattern.len()) =~= pattern);
    assert(occurs_at(text, pattern, at));
    firsts_are_first(text, pattern, 0);
    let found = first_from(text, pattern, 0)->0;
    assert(found == at);
    assert(text.take(at) =~= before);
    assert(text.skip(at + pattern.len()) =~= after);
}

/// A text is cut at the last copy of a character: what stands before and after it are the rest of
/// the text, and the character stands nowhere later. A text without the character is not cut.
pub proof fn texts_are_cut_at_the_last_copy(text: Seq<char>, mark: char)
    ensures
        match cut_at_last(text, mark) {
            Some((before, after)) => text == before + seq![mark] + after && !after.contains(mark),
            None => !text.contains(mark),
        },
    decreases text.len(),
{
    if text.len() > 0 {
        let rest = text.drop_last();
        texts_are_cut_at_the_last_copy(rest, mark);
        crate::text::last_of_inside(rest, mark);
        if text.last() == mark {
            assert(text =~= text.take(text.len() - 1) + seq![mark] + text.skip(
                text.len() as int,
            ));
        } else {
            match last_of(rest, mark) {
                Some(at) => {
                    assert(text.take(at) =~= rest.take(at));
                    assert(text.skip(at + 1) =~= rest.skip(at + 1).push(text.last()));
                    assert(text =~= text.take(at) + seq![mark] + text.skip(at + 1));
                    let after = text.skip(at + 1);
                    if after.contains(mark) {
                        let k = after.index_of(mark);
                        assert(rest.skip(at + 1)[k] == mark);
                        assert(rest.skip(at + 1).contains(mark));
                    }
                },
                None => {
                    if text.contains(mark) {
                        let k = text.index_of(mark);
                        assert(rest[k] == mark);
                        assert(rest.contains(mark));
                    }
                },
            }
        }
    }
}

/// The cut is the only one with these properties.
pub proof fn last_cuts_are_found(before: Seq<char>, mark: char, after: Seq<char>)
    requires
        !after.contains(mark),
    ensures
        cut_at_last(before + seq![mark] + after, mark) == Some((before, after)),
{
    let text = before + seq![mark] + after;
    texts_are_cut_at_the_last_copy(text, mark);
    crate::text::last_of_inside(text, mark);
    let at = before.len() as int;
    assert(text[at] == mark);
    assert(text.contains(mark));
    let found = last_of(text, mark)->0;
    if found > at {
        assert(after[found - at - 1] == mark);
        assert(after.contains(mark));
    } else if found < at {
        assert(text.skip(found + 1)[at - found - 1] == mark);
        assert(text.skip(found + 1).contains(mark));
    }
    assert(text.take(at) =~= before);
    assert(text.skip(at + 1) =~= after);
}

// ---------------------------------------------------------------------------
// Splitting
// ---------------------------------------------------------------------------

/// The positions are exactly those of the separators, in order, and the pieces are what stands
/// between them.
pub open spec fn split_at(
    text: Seq<char>,
    separator: Separator,
    positions: Seq<int>,
    pieces: Seq<Seq<char>>,
) -> bool {
    &&& pieces.len() == positions.len() + 1
    &&& forall|k: int|
        0 <= k < positions.len() ==> 0 <= #[trigger] positions[k] < text.len() && separator.ends(
            text[positions[k]],
        )
    &&& forall|i: int, k: int|
        0 <= i < k < positions.len() ==> #[trigger] positions[i] < #[trigger] positions[k]
    &&& forall|i: int|
        0 <= i < text.len() && separator.ends(#[trigger] text[i]) ==> positions.contains(i)
    &&& forall|k: int|
        0 <= k < pieces.len() ==> #[trigger] pieces[k] == text.subrange(
            if k == 0 {
                0
            } else {
                positions[k - 1] + 1
            },
            if k == positions.len() {
                text.len() as int
            } else {
                positions[k]
            },
        )
}

/// What ends a field: the given character, anything but ASCII letters, digits and the underscore, or
/// white space.
pub proof fn separators_end_fields(c: char, mark: char)
    ensures
        Separator::Mark(mark).ends(c) <==> c == mark,
        Separator::NonWord.ends(c) <==> !('a' <= c <= 'z' || 'A' <= c <= 'Z' || '0' <= c <= '9' || c
            == '_'),
        Separator::Blank.ends(c) <==> white_space(c),
{
}

/// A text is split at every separator, and nowhere else.
pub proof fn texts_are_split_at_every_separator(text: Seq<char>, separator: Separator) -> (positions:
    Seq<int>)
    ensures
        split_at(text, separator, positions, fields(text, separator)),
    decreases text.len(),
{
    if text.len() == 0 {
        let pieces = fields(text, separator);
        assert(pieces[0] =~= text.subrange(0, 0));
        seq![]
    } else {
        let rest = text.drop_last();
        let last = text.len() - 1;
        let before = texts_are_split_at_every_separator(rest, separator);
        let pieces = fields(rest, separator);
        let all = fields(text, separator);
        crate::text::fields_not_empty(rest, separator);
        if separator.ends(text[last]) {
            let positions = before.push(last);
            assert forall|i: int|
                0 <= i < text.len() && separator.ends(#[trigger] text[i]) implies positions.contains(
                i,
            ) by {
                if i < last {
                    assert(rest[i] == text[i]);
                    let k = before.index_of(i);
                    assert(positions[k] == i);
                } else {
                    assert(positions[before.len() as int] == i);
                }
            }
            assert forall|k: int| 0 <= k < positions.len() implies 0 <= #[trigger] positions[k]
                < text.len() && separator.ends(text[positions[k]]) by {
                if k < before.len() {
                    assert(positions[k] == before[k]);
                    assert(rest[before[k]] == text[before[k]]);
                }
            }
            assert forall|k: int| 0 <= k < all.len() implies #[trigger] all[k] == text.subrange(
                if k == 0 {
                    0
                } else {
                    positions[k - 1] + 1
                },
                if k == positions.len() {
                    text.len() as int
                } else {
                    positions[k]
                },
            ) by {
                if k < pieces.len() {
                    assert(all[k] == pieces[k]);
                    if k > 0 {
                        assert(before[k - 1] < rest.len());
                        assert(positions[k - 1] == before[k - 1]);
                    }
                    if k < before.len() {
                        assert(positions[k] == before[k]);
                        if k > 0 {
                            assert(before[k - 1] < before[k]);
                        }
                    }
                    assert(all[k] =~= text.subrange(
                        if k == 0 {
                            0
                        } else {
                            positions[k - 1] + 1
                        },
                        positions[k],
                    ));
                } else {
                    assert(all[k] =~= text.subrange(last + 1, text.len() as int));
                }
            }
            positions
        } else {
            assert forall|i: int|
                0 <= i < text.len() && separator.ends(#[trigger] text[i]) implies before.contains(
                i,
            ) by {
                assert(rest[i] == text[i]);
            }
            assert forall|k: int| 0 <= k < before.len() implies 0 <= #[trigger] before[k]
                < text.len() && separator.ends(text[before[k]]) by {
                assert(rest[before[k]] == text[before[k]]);
            }
            assert forall|k: int| 0 <= k < all.len() implies #[trigger] all[k] == text.subrange(
                if k == 0 {
                    0
                } else {
                    before[k - 1] + 1
                },
                if k == before.len() {
                    text.len() as int
                } else {
                    before[k]
                },
            ) by {
                if k > 0 {
                    assert(before[k - 1] < rest.len());
                }
                if k < before.len() {
                    assert(all[k] == pieces[k]);
                    if k > 0 {
                        assert(before[k - 1] < before[k]);
                    }
                    assert(all[k] =~= text.subrange(
                        if k == 0 {
                            0
                        } else {
                            before[k - 1] + 1
                        },
                        before[k],
                    ));
                } else {
                    assert(all[k] == pieces[k].push(text[last]));
                    assert(all[k] =~= text.subrange(
                        if k == 0 {
                            0
                        } else {
                            before[k - 1] + 1
                        },
                        text.len() as int,
                    ));
                }
            }
            before
        }
    }
}

/// The fields of a text give the text back when they are joined by their separator.
pub proof fn joining_undoes_splitting(text: Seq<char>, mark: char)
    ensures
        joined(fields(text, Separator::Mark(mark)), seq![mark]) == text,
    decreases text.len(),
{
    if text.len() > 0 {
        let separator = Separator::Mark(mark);
        let rest = text.drop_last();
        let pieces = fields(rest, separator);
        let all = fields(text, separator);
        joining_undoes_splitting(rest, mark);
        crate::text::fields_not_empty(rest, separator);
        if separator.ends(text.last()) {
            assert(all.drop_last() =~= pieces);
            assert(joined(all, seq![mark]) =~= text);
        } else {
            let tail = pieces.last();
            assert(all.last() == tail.push(text.last()));
            if pieces.len() > 1 {
                assert(all.drop_last() =~= pieces.drop_last());
                let head = joined(pieces.drop_last(), seq![mark]) + seq![mark];
                assert(rest == head + tail);
                assert(joined(all, seq![mark]) == head + tail.push(text.last()));
                assert(head + tail.push(text.last()) =~= (head + tail).push(text.last()));
            } else {
                assert(all.len() == 1 && all[0] == all.last());
                assert(rest == tail);
            }
            assert(text =~= rest.push(text.last()));
        }
    }
}

/// The pieces that are occupied are those that are not empty, in order.
pub proof fn empty_pieces_are_left_out(pieces: Seq<Seq<char>>)
    ensures
        occupied(pieces) == pieces.filter(|piece: Seq<char>| piece.len() > 0),
    decreases pieces.len(),
{
    reveal(Seq::filter);
    if pieces.len() > 0 {
        empty_pieces_are_left_out(pieces.drop_last());
    }
}

// ---------------------------------------------------------------------------
// Lines
// ---------------------------------------------------------------------------

/// The text ends at the end of a line.
pub open spec fn ends_line(text: Seq<char>) -> bool {
    text.len() == 0 || text.last() == '\n'
}

proof fn fields_grow(text: Seq<char>, more: Seq<char>)
    requires
        !more.contains('\n'),
    ensures
        ({
            let before = fields(text, Separator::Mark('\n'));
            fields(text + more, Separator::Mark('\n')) == before.update(
                before.len() - 1,
                before.last() + more,
            )
        }),
    decreases more.len(),
{
    let separator = Separator::Mark('\n');
    let before = fields(text, separator);
    crate::text::fields_not_empty(text, separator);
    if more.len() == 0 {
        assert(text + more =~= text);
        assert(before.last() + more =~= before.last());
        assert(before.update(before.len() - 1, before.last() + more) =~= before);
    } else {
        let shorter = more.drop_last();
        assert forall|i: int| 0 <= i < shorter.len() implies shorter[i] != '\n' by {
            assert(more[i] == shorter[i]);
            if more[i] == '\n' {
                assert(more.contains('\n'));
            }
        }
        fields_grow(text, shorter);
        assert((text + more).drop_last() =~= text + shorter);
        assert((text + more).last() == more.last());
        if more.last() == '\n' {
            assert(more.contains(more[more.len() - 1]));
        }
        assert(before.last() + more =~= (before.last() + shorter).push(more.last()));
        assert(fields(text + more, separator) =~= before.update(
            before.len() - 1,
            before.last() + more,
        ));
    }
}

proof fn ended_texts_end_in_an_empty_field(text: Seq<char>)
    requires
        ends_line(text),
    ensures
        fields(text, Separator::Mark('\n')).last().len() == 0,
{
}

/// A text gains a line with every line that is added to it. A line feed ends it, or a carriage
/// return and a line feed, or the end of the text if it is not empty.
pub proof fn texts_gain_lines(text: Seq<char>, line: Seq<char>)
    requires
        ends_line(text),
        !line.contains('\n'),
        line.len() > 0 ==> line.last() != '\r',
    ensures
        lines_of(seq![]) == Seq::<Seq<char>>::empty(),
        lines_of(text + line + seq!['\n']) == lines_of(text).push(line),
        lines_of(text + line + seq!['\r', '\n']) == lines_of(text).push(line),
        line.len() > 0 ==> lines_of(text + line) == lines_of(text).push(line),
{
    let separator = Separator::Mark('\n');
    let before = fields(text, separator);
    crate::text::fields_not_empty(text, separator);
    ended_texts_end_in_an_empty_field(text);
    fields_grow(text, line);
    let returned = line.push('\r');
    assert forall|i: int| 0 <= i < returned.len() implies returned[i] != '\n' by {
        if i < line.len() {
            assert(line[i] == returned[i]);
            if line[i] == '\n' {
                assert(line.contains('\n'));
            }
        }
    }
    fields_grow(text, returned);
    assert(before.last() + line =~= line);
    assert(before.last() + returned =~= returned);
    let plain = text + line;
    let one = plain + seq!['\n'];
    assert(one.drop_last() =~= plain);
    assert(without_return(line) == line);
    assert(lines_of(one) =~= lines_of(text).push(line));
    let two = text + line + seq!['\r', '\n'];
    assert(two.drop_last() =~= text + returned);
    assert(returned.drop_last() =~= line);
    assert(lines_of(two) =~= lines_of(text).push(line));
    assert(lines_of(plain).len() == before.len() || line.len() == 0);
    if line.len() > 0 {
        assert(lines_of(plain) =~= lines_of(text).push(line));
    }
    assert(lines_of(seq![]) =~= Seq::<Seq<char>>::empty());
}

// ---------------------------------------------------------------------------
// White space
// ---------------------------------------------------------------------------

/// White space is the blank, what a typewriter moves by, and the wider blanks and breaks of Unicode.
pub proof fn white_space_is_blank(c: char)
    ensures
        white_space(c) <==> {
            ||| c == ' '
            ||| c == '\t'
            ||| c == '\n'
            ||| c == '\r'
            ||| c == '\u{b}'
            ||| c == '\u{c}'
            ||| c == '\u{85}'
            ||| c == '\u{a0}'
            ||| c == '\u{1680}'
            ||| '\u{2000}' <= c <= '\u{200a}'
            ||| c == '\u{2028}'
            ||| c == '\u{2029}'
            ||| c == '\u{202f}'
            ||| c == '\u{205f}'
            ||| c == '\u{3000}'
        },
{
}

}
