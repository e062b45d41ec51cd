//! Laws of the text primitives.
use crate::encoding;
use crate::text::NumberFault;
use crate::text;
use vstd::prelude::*;

verus! {

/// White space at the end is all that is taken from there, and all of it.
pub proof fn law_end_is_trimmed_of_white_space(s: Seq<char>)
    ensures
        text::trimmed_end(s).len() <= s.len(),
        text::trimmed_end(s) == s.take(text::trimmed_end(s).len() as int),
        forall|i: int|
            text::trimmed_end(s).len() <= i < s.len() ==> text::is_white_space(#[trigger] s[i]),
        text::trimmed_end(s).len() > 0 ==> !text::is_white_space(text::trimmed_end(s).last()),
    decreases s.len(),
{
    if s.len() > 0 && text::is_white_space(s.last()) {
        let less = s.drop_last();
        law_end_is_trimmed_of_white_space(less);
        let kept = text::trimmed_end(s);
        assert(kept =~= s.take(kept.len() as int));
        assert forall|i: int| kept.len() <= i < s.len() implies text::is_white_space(
            #[trigger] s[i],
        ) by {
            if i < less.len() {
                assert(less[i] == s[i]);
            }
        }
    } else {
        assert(s.take(s.len() as int) =~= s);
    }
}

/// White space at the start is all that is taken from there, and all of it.
pub proof fn law_start_is_trimmed_of_white_space(s: Seq<char>)
    ensures
        text::trimmed_start(s).len() <= s.len(),
        text::trimmed_start(s) == s.skip(s.len() - text::trimmed_start(s).len()),
        forall|i: int|
            0 <= i < s.len() - text::trimmed_start(s).len() ==> text::is_white_space(
                #[trigger] s[i],
            ),
        text::trimmed_start(s).len() > 0 ==> !text::is_white_space(text::trimmed_start(s)[0]),
    decreases s.len(),
{
    if s.len() > 0 && text::is_white_space(s[0]) {
        let less = s.drop_first();
        law_start_is_trimmed_of_white_space(less);
        let kept = text::trimmed_start(s);
        assert(kept =~= s.skip(s.len() - kept.len()));
        assert forall|i: int| 0 <= i < s.len() - kept.len() implies text::is_white_space(
            #[trigger] s[i],
        ) by {
            if i > 0 {
                assert(less[i - 1] == s[i]);
            }
        }
    } else {
        assert(s.skip(0) =~= s);
    }
}

/// Trimming takes the white space from both ends and nothing else.
pub proof fn law_trimming_leaves_the_inside(s: Seq<char>)
    ensures
        text::trimmed(s) == text::trimmed_end(text::trimmed_start(s)),
        text::trimmed(s).len() > 0 ==> !text::is_white_space(text::trimmed(s)[0])
            && !text::is_white_space(text::trimmed(s).last()),
        (forall|i: int| 0 <= i < s.len() ==> text::is_white_space(#[trigger] s[i]))
            ==> text::trimmed(s).len() == 0,
        s.len() > 0 && !text::is_white_space(s[0]) && !text::is_white_space(s.last())
            ==> text::trimmed(s) == s,
{
    let start = text::trimmed_start(s);
    law_start_is_trimmed_of_white_space(s);
    law_end_is_trimmed_of_white_space(start);
    let kept = text::trimmed(s);
    if kept.len() > 0 {
        assert(kept[0] == start[0]);
    }
    if start.len() > 0 {
        assert(start[0] == s[s.len() - start.len()]);
    }
}

/// The characters that count as white space.
pub proof fn law_white_space(c: char)
    ensures
        c == ' ' || c == '\t' || c == '\n' || c == '\r' ==> text::is_white_space(c),
        text::is_white_space(c) && (c as u32) < 128 ==> c == ' ' || ('\t' <= c && c <= '\r'),
        text::is_white_space(c) ==> (c as u32) <= 0x3000,
        c == '\u{85}' || c == '\u{a0}' || c == '\u{1680}' || ('\u{2000}' <= c && c <= '\u{200a}')
            || c == '\u{2028}' || c == '\u{2029}' || c == '\u{202f}' || c == '\u{205f}' || c
            == '\u{3000}' ==> text::is_white_space(c),
{
}

/// Joining the pieces of a split with the separator gives back the text.
pub proof fn law_joining_undoes_splitting(s: Seq<char>, separator: char)
    ensures
        text::joined(text::split_seq(s, separator), seq![separator]) == s,
        text::split_seq(s, separator).len() >= 1,
    decreases s.len(),
{
    let pieces = text::split_seq(s, separator);
    let between = seq![separator];
    if s.len() == 0 {
        assert(text::joined(pieces, between) =~= s);
    } else {
        let less = s.drop_last();
        let before = text::split_seq(less, separator);
        law_joining_undoes_splitting(less, separator);
        if s.last() == separator {
            assert(pieces.drop_last() =~= before);
            assert(text::joined(pieces, between) =~= less + between + Seq::<char>::empty());
            assert(less + between + Seq::<char>::empty() =~= s);
        } else {
            assert(pieces.drop_last() =~= before.drop_last());
            let grown = before.last().push(s.last());
            assert(pieces.last() == grown);
            if before.len() == 1 {
                assert(pieces[0] == grown);
                assert(before[0] == less);
                assert(text::joined(pieces, between) =~= s);
            } else {
                let head = text::joined(before.drop_last(), between) + between;
                assert(less == head + before.last());
                assert(text::joined(pieces, between) == head + grown);
                assert(head + grown =~= (head + before.last()).push(s.last()));
                assert(less.push(s.last()) =~= s);
            }
        }
    }
}

/// Parts are joined in order with the separator between two of them.
pub proof fn law_parts_are_joined_in_order(
    parts: Seq<Seq<char>>,
    part: Seq<char>,
    separator: Seq<char>,
)
    ensures
        text::joined(Seq::<Seq<char>>::empty(), separator).len() == 0,
        text::joined(seq![part], separator) == part,
        parts.len() > 0 ==> text::joined(parts.push(part), separator) == text::joined(
            parts,
            separator,
        ) + separator + part,
{
    assert(parts.push(part).drop_last() =~= parts);
}

/// A mark splits a text into what stands before its first place, the mark, and what
/// stands behind it.
pub proof fn law_a_mark_splits_a_text(s: Seq<char>, mark: char)
    ensures
        !text::before_mark(s, mark).contains(mark),
        text::after_mark(s, mark) matches Some(rest) ==> s == text::before_mark(s, mark).push(mark)
            + rest,
        text::after_mark(s, mark) is None ==> text::before_mark(s, mark) == s,
        text::after_mark(s, mark) is Some <==> s.contains(mark),
    decreases s.len(),
{
    if s.len() > 0 {
        let rest = s.drop_first();
        law_a_mark_splits_a_text(rest, mark);
        let before = text::before_mark(s, mark);
        if s[0] == mark {
            assert(s =~= Seq::<char>::empty().push(mark) + rest);
            assert(s.contains(mark));
        } else {
            assert(before == seq![s[0]] + text::before_mark(rest, mark));
            assert(seq![s[0]] + rest =~= s);
            if before.contains(mark) {
                let i = choose|i: int| 0 <= i < before.len() && before[i] == mark;
                assert(text::before_mark(rest, mark)[i - 1] == mark);
            }
            if s.contains(mark) {
                let i = choose|i: int| 0 <= i < s.len() && s[i] == mark;
                assert(rest[i - 1] == mark);
            }
            if rest.contains(mark) {
                let i = choose|i: int| 0 <= i < rest.len() && rest[i] == mark;
                assert(s[i + 1] == mark);
            }
            if let Some(behind) = text::after_mark(s, mark) {
                assert(s =~= before.push(mark) + behind);
            } else {
                assert(before =~= s);
            }
        }
    }
}

/// Reading on from white space starts afresh.
proof fn lemma_words_continue(first: Seq<char>, second: Seq<char>)
    requires
        text::words_state(first).1.len() == 0,
    ensures
        text::words_state(first + second).0 == text::words_state(first).0 + text::words_state(
            second,
        ).0,
        text::words_state(first + second).1 == text::words_state(second).1,
    decreases second.len(),
{
    if second.len() == 0 {
        assert(first + second =~= first);
        assert(text::words_state(first).0 + Seq::<Seq<char>>::empty() =~= text::words_state(
            first,
        ).0);
        assert(text::words_state(first).1 =~= Seq::<char>::empty());
    } else {
        lemma_words_continue(first, second.drop_last());
        assert((first + second).drop_last() =~= first + second.drop_last());
        assert((first + second).last() == second.last());
        assert(text::words_state(first + second).0 =~= text::words_state(first).0
            + text::words_state(second).0);
    }
}

/// White space parts words: the words of two texts with white space between them are
/// those of the one and then those of the other.
pub proof fn law_white_space_parts_words(first: Seq<char>, space: char, second: Seq<char>)
    requires
        text::is_white_space(space),
    ensures
        text::words(first.push(space) + second) == text::words(first) + text::words(second),
{
    let head = first.push(space);
    assert(head.drop_last() =~= first);
    assert(text::words_state(head).0 =~= text::words(first));
    lemma_words_continue(head, second);
    assert(text::words(head + second) =~= text::words(first) + text::words(second));
}

/// A text without white space is one word, and an empty one is none.
pub proof fn law_texts_without_white_space_are_words(s: Seq<char>)
    requires
        forall|i: int| 0 <= i < s.len() ==> !text::is_white_space(#[trigger] s[i]),
    ensures
        s.len() > 0 ==> text::words(s) == seq![s],
        s.len() == 0 ==> text::words(s).len() == 0,
{
    lemma_one_word(s);
    if s.len() > 0 {
        assert(text::words(s) =~= seq![s]);
    }
}

/// A text without white space is read as one word.
proof fn lemma_one_word(s: Seq<char>)
    requires
        forall|i: int| 0 <= i < s.len() ==> !text::is_white_space(#[trigger] s[i]),
    ensures
        text::words_state(s).0.len() == 0,
        text::words_state(s).1 == s,
    decreases s.len(),
{
    if s.len() > 0 {
        let less = s.drop_last();
        assert forall|i: int| 0 <= i < less.len() implies !text::is_white_space(
            #[trigger] less[i],
        ) by {
            assert(less[i] == s[i]);
        }
        lemma_one_word(less);
        assert(text::words_state(s).1 =~= s);
    } else {
        assert(text::words_state(s).1 =~= s);
    }
}

/// A line that is ended counts without its line feed and the carriage return before it.
pub proof fn law_ended_lines_are_lines(line: Seq<char>, rest: Seq<char>)
    requires
        !line.contains('\n'),
    ensures
        line.len() > 0 && line.last() == '\r' ==> text::text_lines(line.push('\n') + rest) == seq![
            line.drop_last(),
        ] + text::text_lines(rest),
        !(line.len() > 0 && line.last() == '\r') ==> text::text_lines(line.push('\n') + rest)
            == seq![line] + text::text_lines(rest),
        line.len() > 0 ==> text::text_lines(line) == seq![line],
        text::text_lines(Seq::<char>::empty()).len() == 0,
{
    let ended = line.push('\n');
    text::lemma_split_free(line, '\n');
    assert(ended.drop_last() =~= line);
    let start = text::split_seq(ended, '\n');
    assert(start =~= seq![line, Seq::<char>::empty()]);
    text::lemma_split_concat(ended, rest, '\n');
    text::lemma_split_shape(rest, '\n');
    let pieces = text::split_seq(ended + rest, '\n');
    let later = text::split_seq(rest, '\n');
    assert(Seq::<char>::empty() + rest =~= rest);
    assert(pieces =~= seq![line] + later);
    let trim = |l: Seq<char>| text::without_carriage_return(l);
    assert(pieces.drop_last() =~= seq![line] + later.drop_last());
    assert(pieces.drop_last().map_values(trim) =~= seq![text::without_carriage_return(line)]
        + later.drop_last().map_values(trim));
    assert(pieces.last() == later.last());
    assert(text::text_lines(ended + rest) =~= seq![text::without_carriage_return(line)]
        + text::text_lines(rest));
    assert(text::split_seq(line, '\n') =~= seq![line]);
    assert(seq![line].drop_last().map_values(trim) =~= Seq::<Seq<char>>::empty());
    if line.len() > 0 {
        assert(text::text_lines(line) =~= seq![line]);
    }
    let none = text::split_seq(Seq::<char>::empty(), '\n');
    assert(none.drop_last().map_values(trim) =~= Seq::<Seq<char>>::empty());
}

/// A text contains what stands anywhere in it.
pub proof fn law_texts_contain_their_parts(
    before: Seq<char>,
    pattern: Seq<char>,
    behind: Seq<char>,
)
    ensures
        text::contains_text(before + pattern + behind, pattern),
{
    let whole = before + pattern + behind;
    assert(whole.subrange(before.len() as int, (before.len() + pattern.len()) as int) =~= pattern);
    assert(text::occurs_at(whole, pattern, before.len() as int));
}

/// What is contained in a text stands in it letter for letter.
pub proof fn law_contained_texts_stand_there(s: Seq<char>, pattern: Seq<char>)
    requires
        text::contains_text(s, pattern),
    ensures
        exists|before: Seq<char>, behind: Seq<char>| s == #[trigger] ((before + pattern) + behind),
{
    let i = choose|i: int| text::occurs_at(s, pattern, i);
    let before = s.take(i);
    let behind = s.skip(i + pattern.len());
    assert(s =~= (before + s.subrange(i, i + pattern.len())) + behind);
    assert(s == (before + pattern) + behind);
}

/// The digits of a number in decimal are digits.
proof fn lemma_decimal_digits(n: nat)
    ensures
        text::decimal(n).len() > 0,
        '0' <= text::decimal(n)[0] && text::decimal(n)[0] <= '9',
    decreases n,
{
    if n >= 10 {
        lemma_decimal_digits(n / 10);
        assert(text::decimal(n)[0] == text::decimal(n / 10)[0]);
    }
}

/// The digits of a number in decimal have its value.
proof fn lemma_decimal_value(n: nat, max: nat)
    requires
        n <= max,
    ensures
        text::digits_value(text::decimal(n), 10, max) == Ok::<nat, NumberFault>(n),
    decreases n,
{
    let s = text::decimal(n);
    assert(text::digits_value(Seq::<char>::empty(), 10, max) == Ok::<nat, NumberFault>(0));
    assert(text::digit_value(text::digit_char(n % 10), 10) == Some(n % 10));
    if n < 10 {
        assert(s.drop_last() =~= Seq::<char>::empty());
        assert(s.last() == text::digit_char(n));
        assert(n % 10 == n);
    } else {
        lemma_decimal_value(n / 10, max);
        assert(s.drop_last() =~= text::decimal(n / 10));
        assert(s.last() == text::digit_char(n % 10));
        assert((n / 10) * 10 + n % 10 == n);
    }
}

/// A number that was written in decimal is read back as it was.
pub proof fn law_numbers_are_read_back(n: nat, max: nat)
    ensures
        n <= max ==> text::number_value(text::decimal(n), 10, max) == Ok::<nat, NumberFault>(n),
        n <= max ==> text::number_value(seq!['+'] + text::decimal(n), 10, max) == Ok::<
            nat,
            NumberFault,
        >(n),
{
    lemma_decimal_digits(n);
    if n <= max {
        lemma_decimal_value(n, max);
        assert((seq!['+'] + text::decimal(n)).drop_first() =~= text::decimal(n));
    }
}

/// Digits are read from left to right in their radix, letters of either case standing for
/// ten and more; what is no digit, or goes beyond the maximum, is a fault, and the first
/// fault counts.
pub proof fn law_digits_are_read_from_left_to_right(
    s: Seq<char>,
    c: char,
    radix: nat,
    max: nat,
)
    requires
        2 <= radix <= 36,
    ensures
        text::digits_value(s, radix, max) is Err ==> text::digits_value(s.push(c), radix, max)
            == text::digits_value(s, radix, max),
        text::digits_value(s, radix, max) matches Ok(value) ==> (match text::digit_value(c, radix) {
            None => text::digits_value(s.push(c), radix, max) == Err::<nat, NumberFault>(
                NumberFault::InvalidDigit,
            ),
            Some(digit) => if value * radix + digit <= max {
                text::digits_value(s.push(c), radix, max) == Ok::<nat, NumberFault>(
                    value * radix + digit,
                )
            } else {
                text::digits_value(s.push(c), radix, max) == Err::<nat, NumberFault>(
                    NumberFault::Overflow,
                )
            },
        }),
        text::number_value(Seq::<char>::empty(), radix, max) == Err::<nat, NumberFault>(
            NumberFault::Empty,
        ),
        text::number_value(seq!['+'], radix, max) == Err::<nat, NumberFault>(
            NumberFault::InvalidDigit,
        ),
        s.len() > 0 && s[0] != '+' ==> text::number_value(s, radix, max) == text::digits_value(
            s,
            radix,
            max,
        ),
{
    assert(s.push(c).drop_last() =~= s);
}

/// The hexadecimal digits, in either case, and their values.
pub proof fn law_hexadecimal_digits(c: char)
    ensures
        '0' <= c && c <= '9' ==> text::digit_value(c, 16) == Some((c as nat - 48) as nat),
        'a' <= c && c <= 'f' ==> text::digit_value(c, 16) == Some((c as nat - 87) as nat),
        'A' <= c && c <= 'F' ==> text::digit_value(c, 16) == Some((c as nat - 55) as nat),
        !('0' <= c && c <= '9') && !('a' <= c && c <= 'f') && !('A' <= c && c <= 'F')
            ==> text::digit_value(c, 16) is None,
        text::digit_value(c, 10) is Some <==> '0' <= c && c <= '9',
{
}

/// Negative numbers bear a minus sign before their size.
pub proof fn law_signs_are_written(n: nat)
    ensures
        text::signed_decimal(n as int) == text::decimal(n),
        n > 0 ==> text::signed_decimal(-(n as int)) == "-"@ + text::decimal(n),
{
}

/// The characters of a list of texts, text by text.
pub proof fn law_lists_show_their_texts(texts: Seq<String>, i: int)
    ensures
        text::views(texts).len() == texts.len(),
        0 <= i < texts.len() ==> text::views(texts)[i] == texts[i]@,
{
}

/// In lower case ASCII capitals become their small letters, and nothing else changes.
pub proof fn law_capitals_become_small(s: Seq<char>, i: int)
    requires
        0 <= i < s.len(),
    ensures
        encoding::ascii_lowercase(s).len() == s.len(),
        'A' <= s[i] && s[i] <= 'Z' ==> encoding::ascii_lowercase(s)[i] as u32 == s[i] as u32 + 32,
        !('A' <= s[i] && s[i] <= 'Z') ==> encoding::ascii_lowercase(s)[i] == s[i],
{
}

} // verus!
