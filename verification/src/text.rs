//! Text primitives: white space, searching, splitting and numbers.
//!
//! Every function works on the characters of its argument and is specified over
//! `Seq<char>`, so that the modules above can state what they read and write
//! without speaking of encodings.
use vstd::prelude::*;

verus! {

/// Appends one character: `String::push` adds `c` at the end and changes nothing else.
pub assume_specification[ String::push ](s: &mut String, c: char)
    ensures
        final(s)@ == old(s)@.push(c),
;

/// The code points that Unicode gives the `White_Space` property.
pub open spec fn is_white_space(c: char) -> bool {
    let v = c as u32;
    ||| 0x09 <= v <= 0x0d
    ||| v == 0x20
    ||| v == 0x85
    ||| v == 0xa0
    ||| v == 0x1680
    ||| 0x2000 <= v <= 0x200a
    ||| v == 0x2028
    ||| v == 0x2029
    ||| v == 0x202f
    ||| v == 0x205f
    ||| v == 0x3000
}

/// Whether `c` is white space.
pub fn char_is_white_space(c: char) -> (r: bool)
    ensures
        r == is_white_space(c),
{
    let v: u32 = c as u32;
    (0x09 <= v && v <= 0x0d) || v == 0x20 || v == 0x85 || v == 0xa0 || v == 0x1680 || (0x2000 <= v
        && v <= 0x200a) || v == 0x2028 || v == 0x2029 || v == 0x202f || v == 0x205f || v == 0x3000
}

/// The characters of `text` as a vector.
pub fn to_chars(text: &str) -> (r: Vec<char>)
    ensures
        r@ == text@,
{
    let mut chars: Vec<char> = Vec::new();
    for c in it: text.chars()
        invariant
            chars@ == it.seq().take(it.index() as int),
            it.seq() == text@,
    {
        chars.push(c);
    }
    chars
}

/// The text made of `chars[from..to]`.
pub fn from_chars(chars: &Vec<char>, from: usize, to: usize) -> (r: String)
    requires
        from <= to <= chars@.len(),
    ensures
        r@ == chars@.subrange(from as int, to as int),
{
    let mut out = String::new();
    let mut i: usize = from;
    while i < to
        invariant
            from <= i <= to <= chars@.len(),
            out@ == chars@.subrange(from as int, i as int),
        decreases to - i,
    {
        out.push(chars[i]);
        i += 1;
    }
    out
}

/// The characters of each of a list of texts.
pub open spec fn views(texts: Seq<String>) -> Seq<Seq<char>> {
    texts.map_values(|t: String| t@)
}

/// Adds a copy of `text` to a list.
pub fn push_text(list: &mut Vec<String>, text: &str)
    ensures
        views(final(list)@) == views(old(list)@).push(text@),
{
    list.push(text.to_owned());
    assert(views(list@) =~= views(old(list)@).push(text@));
}

/// Whether two texts hold the same characters.
pub fn same_text(a: &str, b: &str) -> (r: bool)
    ensures
        r == (a@ == b@),
{
    a.to_owned() == b.to_owned()
}

/// `s` without the white space at its end.
pub open spec fn trimmed_end(s: Seq<char>) -> Seq<char>
    decreases s.len(),
{
    if s.len() > 0 && is_white_space(s.last()) {
        trimmed_end(s.drop_last())
    } else {
        s
    }
}

/// `s` without the white space at its start.
pub open spec fn trimmed_start(s: Seq<char>) -> Seq<char>
    decreases s.len(),
{
    if s.len() > 0 && is_white_space(s[0]) {
        trimmed_start(s.drop_first())
    } else {
        s
    }
}

/// `s` without the white space at either end.
pub open spec fn trimmed(s: Seq<char>) -> Seq<char> {
    trimmed_end(trimmed_start(s))
}

/// Removes the white space at the end of `text`.
pub fn trim_end(text: &str) -> (r: String)
    ensures
        r@ == trimmed_end(text@),
{
    let chars = to_chars(text);
    let mut end: usize = chars.len();
    assert(chars@.take(end as int) =~= text@);
    while end > 0 && char_is_white_space(chars[end - 1])
        invariant
            end <= chars@.len(),
            trimmed_end(chars@.take(end as int)) == trimmed_end(text@),
        decreases end,
    {
        assert(chars@.take(end as int).drop_last() =~= chars@.take(end - 1));
        assert(chars@.take(end as int).last() == chars@[end - 1]);
        end -= 1;
    }
    proof {
        if end > 0 {
            assert(chars@.take(end as int).last() == chars@[end - 1]);
        }
        assert(chars@.subrange(0, end as int) =~= chars@.take(end as int));
    }
    from_chars(&chars, 0, end)
}

/// Removes the white space at both ends of `text`.
pub fn trim(text: &str) -> (r: String)
    ensures
        r@ == trimmed(text@),
{
    let chars = to_chars(text);
    let mut start: usize = 0;
    assert(chars@.skip(0) =~= text@);
    while start < chars.len() && char_is_white_space(chars[start])
        invariant
            start <= chars@.len(),
            trimmed_start(chars@.skip(start as int)) == trimmed_start(text@),
        decreases chars@.len() - start,
    {
        assert(chars@.skip(start as int).drop_first() =~= chars@.skip(start + 1));
        assert(chars@.skip(start as int)[0] == chars@[start as int]);
        start += 1;
    }
    proof {
        if start < chars@.len() {
            assert(chars@.skip(start as int)[0] == chars@[start as int]);
        }
        assert(chars@.subrange(start as int, chars@.len() as int) =~= chars@.skip(start as int));
    }
    let rest = from_chars(&chars, start, chars.len());
    trim_end(rest.as_str())
}

/// `pattern` stands in `s` at position `i`.
pub open spec fn occurs_at(s: Seq<char>, pattern: Seq<char>, i: int) -> bool {
    0 <= i && i + pattern.len() <= s.len() && s.subrange(i, i + pattern.len()) == pattern
}

/// `pattern` stands somewhere in `s`.
pub open spec fn contains_text(s: Seq<char>, pattern: Seq<char>) -> bool {
    exists|i: int| occurs_at(s, pattern, i)
}

/// Whether `pattern` stands in `chars` at position `at`.
fn matches_at(chars: &Vec<char>, pattern: &Vec<char>, at: usize) -> (r: bool)
    ensures
        r == occurs_at(chars@, pattern@, at as int),
{
    if pattern.len() > chars.len() || at > chars.len() - pattern.len() {
        return false;
    }
    let size: usize = chars.len();
    let mut k: usize = 0;
    while k < pattern.len()
        invariant
            k <= pattern@.len(),
            size == chars@.len(),
            at + pattern@.len() <= size,
            forall|j: int| 0 <= j < k ==> chars@[at + j] == pattern@[j],
        decreases pattern@.len() - k,
    {
        if chars[at + k] != pattern[k] {
            proof {
                if occurs_at(chars@, pattern@, at as int) {
                    assert(chars@.subrange(at as int, at + pattern@.len())[k as int]
                        == pattern@[k as int]);
                }
            }
            return false;
        }
        k += 1;
    }
    assert(chars@.subrange(at as int, at + pattern@.len()) =~= pattern@);
    true
}

/// Whether `text` contains `pattern`.
pub fn contains(text: &str, pattern: &str) -> (r: bool)
    ensures
        r == contains_text(text@, pattern@),
{
    let chars = to_chars(text);
    let wanted = to_chars(pattern);
    let mut i: usize = 0;
    while i <= chars.len()
        invariant
            i <= chars@.len() + 1,
            chars@ == text@,
            wanted@ == pattern@,
            forall|j: int| 0 <= j < i ==> !occurs_at(text@, pattern@, j),
        decreases chars@.len() + 1 - i,
    {
        if matches_at(&chars, &wanted, i) {
            return true;
        }
        if i == chars.len() {
            return false;
        }
        i += 1;
    }
    false
}

/// Whether `text` begins with `prefix`.
pub fn starts_with(text: &str, prefix: &str) -> (r: bool)
    ensures
        r == prefix@.is_prefix_of(text@),
{
    let chars = to_chars(text);
    let wanted = to_chars(prefix);
    matches_at(&chars, &wanted, 0)
}

/// Whether `text` ends with `suffix`.
pub fn ends_with(text: &str, suffix: &str) -> (r: bool)
    ensures
        r == suffix@.is_suffix_of(text@),
{
    let chars = to_chars(text);
    let wanted = to_chars(suffix);
    if wanted.len() > chars.len() {
        return false;
    }
    matches_at(&chars, &wanted, chars.len() - wanted.len())
}

/// The pieces of `s` between the occurrences of `separator`, in order. There is
/// always one more piece than there are separators.
pub open spec fn split_seq<T>(s: Seq<T>, separator: T) -> Seq<Seq<T>>
    decreases s.len(),
{
    if s.len() == 0 {
        seq![Seq::<T>::empty()]
    } else {
        let before = split_seq(s.drop_last(), separator);
        if s.last() == separator {
            before.push(Seq::<T>::empty())
        } else {
            before.drop_last().push(before.last().push(s.last()))
        }
    }
}

/// A split has at least one piece, and no piece holds the separator.
pub proof fn lemma_split_shape<T>(s: Seq<T>, separator: T)
    ensures
        split_seq(s, separator).len() >= 1,
        forall|i: int|
            0 <= i < split_seq(s, separator).len() ==> !(#[trigger] split_seq(
                s,
                separator,
            )[i]).contains(separator),
    decreases s.len(),
{
    if s.len() > 0 {
        let before = split_seq(s.drop_last(), separator);
        lemma_split_shape(s.drop_last(), separator);
        let all = split_seq(s, separator);
        assert forall|i: int| 0 <= i < all.len() implies !(#[trigger] all[i]).contains(separator) by {
            if s.last() != separator && i == all.len() - 1 {
                let piece = before.last();
                assert(!piece.contains(separator));
                assert(all[i] == piece.push(s.last()));
                if all[i].contains(separator) {
                    let k = choose|k: int| 0 <= k < all[i].len() && all[i][k] == separator;
                    assert(k < piece.len());
                    assert(piece[k] == separator);
                }
            } else if i < before.len() {
                assert(all[i] == before[i]);
            }
        }
    }
}

/// The last piece of a split is no longer than the whole.
pub proof fn lemma_split_last<T>(s: Seq<T>, separator: T)
    ensures
        split_seq(s, separator).len() >= 1,
        split_seq(s, separator).last().len() <= s.len(),
    decreases s.len(),
{
    if s.len() > 0 {
        lemma_split_last(s.drop_last(), separator);
    }
}

/// Splitting a concatenation: the pieces of the first part but its last, then the
/// pieces of that last one followed by the second part.
pub proof fn lemma_split_concat<T>(a: Seq<T>, b: Seq<T>, separator: T)
    ensures
        split_seq(a + b, separator) == split_seq(a, separator).drop_last() + split_seq(
            split_seq(a, separator).last() + b,
            separator,
        ),
    decreases b.len(),
{
    lemma_split_shape(a, separator);
    let head = split_seq(a, separator).drop_last();
    let tail = split_seq(a, separator).last();
    lemma_split_shape(tail + b, separator);
    if b.len() == 0 {
        assert(a + b =~= a);
        assert(tail + b =~= tail);
        lemma_split_free(tail, separator);
        assert(head + seq![tail] =~= split_seq(a, separator));
    } else {
        lemma_split_concat(a, b.drop_last(), separator);
        lemma_split_shape(tail + b.drop_last(), separator);
        assert((a + b).drop_last() =~= a + b.drop_last());
        assert((tail + b).drop_last() =~= tail + b.drop_last());
        assert((a + b).last() == b.last());
        assert((tail + b).last() == b.last());
        let inner = split_seq(tail + b.drop_last(), separator);
        assert(split_seq(a + b, separator) =~= head + split_seq(tail + b, separator));
    }
}

/// A sequence without the separator is its own only piece.
pub proof fn lemma_split_free<T>(s: Seq<T>, separator: T)
    requires
        !s.contains(separator),
    ensures
        split_seq(s, separator) == seq![s],
    decreases s.len(),
{
    if s.len() > 0 {
        assert(s.last() == s[s.len() - 1]);
        assert(s.contains(s.last()));
        assert(!s.drop_last().contains(separator)) by {
            if s.drop_last().contains(separator) {
                let k = choose|k: int| 0 <= k < s.drop_last().len() && s.drop_last()[k] == separator;
                assert(s[k] == separator);
            }
        }
        lemma_split_free(s.drop_last(), separator);
        assert(s.drop_last().push(s.last()) =~= s);
        assert(split_seq(s, separator) =~= seq![s]);
    } else {
        assert(s =~= Seq::<T>::empty());
    }
}

/// Splits `text` at every `separator`.
pub fn split(text: &str, separator: char) -> (r: Vec<String>)
    ensures
        r@.map_values(|piece: String| piece@) == split_seq(text@, separator),
{
    let chars = to_chars(text);
    let mut pieces: Vec<String> = Vec::new();
    let mut current = String::new();
    let mut i: usize = 0;
    let ghost as_text = |piece: String| piece@;
    assert(chars@.take(0) =~= Seq::<char>::empty());
    while i < chars.len()
        invariant
            i <= chars@.len(),
            chars@ == text@,
            as_text == (|piece: String| piece@),
            split_seq(chars@.take(i as int), separator) =~= pieces@.map_values(as_text).push(
                current@,
            ),
        decreases chars@.len() - i,
    {
        let ghost done = pieces@.map_values(as_text);
        assert(chars@.take(i + 1).drop_last() =~= chars@.take(i as int));
        assert(chars@.take(i + 1).last() == chars@[i as int]);
        assert(done.push(current@).drop_last() =~= done);
        if chars[i] == separator {
            let ghost before = pieces@;
            let ghost finished = current;
            pieces.push(current);
            current = String::new();
            assert(pieces@.map_values(as_text) =~= done.push(finished@));
        } else {
            current.push(chars[i]);
        }
        i += 1;
    }
    assert(chars@.take(i as int) =~= text@);
    let ghost done = pieces@.map_values(as_text);
    let ghost finished = current;
    pieces.push(current);
    assert(pieces@.map_values(as_text) =~= done.push(finished@));
    pieces
}

/// What stands in `s` before the first `mark`: all of it, if there is none.
pub open spec fn before_mark(s: Seq<char>, mark: char) -> Seq<char>
    decreases s.len(),
{
    if s.len() == 0 || s[0] == mark {
        Seq::empty()
    } else {
        seq![s[0]] + before_mark(s.drop_first(), mark)
    }
}

/// What stands in `s` behind the first `mark`, if there is one.
pub open spec fn after_mark(s: Seq<char>, mark: char) -> Option<Seq<char>>
    decreases s.len(),
{
    if s.len() == 0 {
        None
    } else if s[0] == mark {
        Some(s.drop_first())
    } else {
        after_mark(s.drop_first(), mark)
    }
}

/// Splits `text` at the first `mark`: what stands before it, and what stands behind
/// it if it occurs.
pub fn split_at_mark(text: &str, mark: char) -> (r: (String, Option<String>))
    ensures
        r.0@ == before_mark(text@, mark),
        r.1 is Some <==> after_mark(text@, mark) is Some,
        r.1 is Some ==> r.1->0@ == after_mark(text@, mark)->0,
{
    let chars = to_chars(text);
    let mut i: usize = 0;
    assert(text@.skip(0) =~= text@);
    assert(text@.take(0) =~= Seq::<char>::empty());
    while i < chars.len()
        invariant
            i <= chars@.len(),
            chars@ == text@,
            before_mark(text@, mark) == text@.take(i as int) + before_mark(
                text@.skip(i as int),
                mark,
            ),
            after_mark(text@, mark) == after_mark(text@.skip(i as int), mark),
        decreases chars@.len() - i,
    {
        assert(text@.skip(i as int).drop_first() =~= text@.skip(i + 1));
        assert(text@.skip(i as int)[0] == chars@[i as int]);
        if chars[i] == mark {
            assert(text@.take(i as int) =~= text@.subrange(0, i as int));
            assert(text@.skip(i + 1) =~= text@.subrange(i + 1, text@.len() as int));
            return (from_chars(&chars, 0, i), Some(from_chars(&chars, i + 1, chars.len())));
        }
        assert(text@.take(i + 1) =~= text@.take(i as int) + seq![chars@[i as int]]);
        i += 1;
    }
    assert(text@.take(i as int) =~= text@);
    (text.to_owned(), None)
}

/// The words of `s` read so far and the word being read.
pub open spec fn words_state(s: Seq<char>) -> (Seq<Seq<char>>, Seq<char>)
    decreases s.len(),
{
    if s.len() == 0 {
        (Seq::empty(), Seq::empty())
    } else {
        let (done, current) = words_state(s.drop_last());
        if !is_white_space(s.last()) {
            (done, current.push(s.last()))
        } else if current.len() > 0 {
            (done.push(current), Seq::empty())
        } else {
            (done, current)
        }
    }
}

/// The maximal runs of characters of `s` that are not white space, in order.
pub open spec fn words(s: Seq<char>) -> Seq<Seq<char>> {
    let (done, current) = words_state(s);
    if current.len() > 0 {
        done.push(current)
    } else {
        done
    }
}

/// Splits `text` into its words.
pub fn split_whitespace(text: &str) -> (r: Vec<String>)
    ensures
        r@.map_values(|word: String| word@) == words(text@),
{
    let chars = to_chars(text);
    let mut done: Vec<String> = Vec::new();
    let mut current = String::new();
    let mut i: usize = 0;
    let ghost as_text = |word: String| word@;
    assert(chars@.take(0) =~= Seq::<char>::empty());
    assert(done@.map_values(as_text) =~= Seq::<Seq<char>>::empty());
    while i < chars.len()
        invariant
            i <= chars@.len(),
            chars@ == text@,
            as_text == (|word: String| word@),
            words_state(chars@.take(i as int)) == (done@.map_values(as_text), current@),
        decreases chars@.len() - i,
    {
        let ghost before = done@.map_values(as_text);
        assert(chars@.take(i + 1).drop_last() =~= chars@.take(i as int));
        assert(chars@.take(i + 1).last() == chars@[i as int]);
        if !char_is_white_space(chars[i]) {
            current.push(chars[i]);
        } else if !current.as_str().is_empty() {
            let ghost finished = current;
            done.push(current);
            current = String::new();
            assert(done@.map_values(as_text) =~= before.push(finished@));
        }
        i += 1;
    }
    assert(chars@.take(i as int) =~= text@);
    if !current.as_str().is_empty() {
        let ghost before = done@.map_values(as_text);
        let ghost finished = current;
        done.push(current);
        assert(done@.map_values(as_text) =~= before.push(finished@));
    }
    done
}

/// `s` without one carriage return at its end.
pub open spec fn without_carriage_return(s: Seq<char>) -> Seq<char> {
    if s.len() > 0 && s.last() == '\r' {
        s.drop_last()
    } else {
        s
    }
}

/// The lines of `s`: a line ends at a line feed, with a carriage return before it
/// if there is one. What follows the last line feed is a line if it is not empty,
/// and keeps its carriage return.
pub open spec fn text_lines(s: Seq<char>) -> Seq<Seq<char>> {
    let pieces = split_seq(s, '\n');
    let ended = pieces.drop_last().map_values(|line: Seq<char>| without_carriage_return(line));
    if pieces.last().len() > 0 {
        ended.push(pieces.last())
    } else {
        ended
    }
}

/// Splits `text` into lines.
pub fn lines(text: &str) -> (r: Vec<String>)
    ensures
        r@.map_values(|line: String| line@) == text_lines(text@),
{
    let pieces = split(text, '\n');
    let ghost as_text = |piece: String| piece@;
    let ghost expected = split_seq(text@, '\n');
    proof {
        lemma_split_shape(text@, '\n');
        assert(pieces@.map_values(as_text) == expected);
        assert(pieces@.len() == expected.len());
    }
    let ghost cleaned = expected.drop_last().map_values(
        |line: Seq<char>| without_carriage_return(line),
    );
    let mut out: Vec<String> = Vec::new();
    let last: usize = pieces.len() - 1;
    let mut i: usize = 0;
    while i < last
        invariant
            i <= last,
            last == pieces@.len() - 1,
            as_text == (|piece: String| piece@),
            pieces@.map_values(as_text) == expected,
            cleaned == expected.drop_last().map_values(
                |line: Seq<char>| without_carriage_return(line),
            ),
            out@.map_values(as_text) =~= cleaned.take(i as int),
        decreases last - i,
    {
        let chars = to_chars(pieces[i].as_str());
        assert(pieces@.map_values(as_text)[i as int] == chars@);
        let n: usize = chars.len();
        let line = if n > 0 && chars[n - 1] == '\r' {
            from_chars(&chars, 0, n - 1)
        } else {
            from_chars(&chars, 0, n)
        };
        assert(line@ =~= without_carriage_return(chars@));
        assert(cleaned[i as int] == line@);
        let ghost before = out@;
        let ghost added = line;
        out.push(line);
        assert(out@.map_values(as_text) =~= before.map_values(as_text).push(added@));
        i += 1;
    }
    assert(pieces@.map_values(as_text)[last as int] == pieces@[last as int]@);
    if !pieces[last].as_str().is_empty() {
        let ghost before = out@;
        out.push(pieces[last].clone());
        assert(out@.map_values(as_text) =~= before.map_values(as_text).push(expected.last()));
    }
    assert(cleaned.take(last as int) =~= cleaned);
    out
}

/// `parts` in order, with `separator` between two of them.
pub open spec fn joined(parts: Seq<Seq<char>>, separator: Seq<char>) -> Seq<char>
    decreases parts.len(),
{
    if parts.len() == 0 {
        Seq::empty()
    } else if parts.len() == 1 {
        parts[0]
    } else {
        joined(parts.drop_last(), separator) + separator + parts.last()
    }
}

/// Joins `parts` with `separator`.
pub fn join(parts: &Vec<String>, separator: &str) -> (r: String)
    ensures
        r@ == joined(parts@.map_values(|part: String| part@), separator@),
{
    let ghost texts = parts@.map_values(|part: String| part@);
    let mut out = String::new();
    let mut i: usize = 0;
    while i < parts.len()
        invariant
            i <= parts@.len(),
            texts == parts@.map_values(|part: String| part@),
            out@ =~= joined(texts.take(i as int), separator@),
        decreases parts@.len() - i,
    {
        assert(texts.take(i + 1).drop_last() =~= texts.take(i as int));
        assert(texts.take(i + 1).last() == parts@[i as int]@);
        if i > 0 {
            out.append(separator);
        }
        out.append(parts[i].as_str());
        i += 1;
    }
    assert(texts.take(i as int) =~= texts);
    out
}

/// The character that stands for the decimal digit `d`.
pub open spec fn digit_char(d: nat) -> char {
    (48 + d) as char
}

/// `n` in decimal, without leading zeros.
pub open spec fn decimal(n: nat) -> Seq<char>
    decreases n,
{
    if n < 10 {
        seq![digit_char(n)]
    } else {
        decimal(n / 10).push(digit_char(n % 10))
    }
}

/// Writes `n` in decimal.
pub fn decimal_text(n: u64) -> (r: String)
    ensures
        r@ == decimal(n as nat),
    decreases n,
{
    let digit: u8 = 48u8 + (n % 10) as u8;
    if n < 10 {
        let mut out = String::new();
        out.push(digit as char);
        assert(out@ =~= decimal(n as nat));
        out
    } else {
        let mut out = decimal_text(n / 10);
        out.push(digit as char);
        out
    }
}

/// `n` in decimal, with a minus sign before it if it is negative.
pub open spec fn signed_decimal(n: int) -> Seq<char> {
    if n < 0 {
        "-"@ + decimal((-n) as nat)
    } else {
        decimal(n as nat)
    }
}

/// Writes `n` in decimal.
pub fn signed_text(n: i32) -> (r: String)
    ensures
        r@ == signed_decimal(n as int),
{
    if n < 0 {
        let mut out = "-".to_owned();
        let size: i64 = -(n as i64);
        out.append(decimal_text(size as u64).as_str());
        out
    } else {
        decimal_text(n as u64)
    }
}

/// Why a text is not a number.
#[derive(Debug, Clone, Copy, PartialEq, Eq, Structural)]
pub enum NumberFault {
    /// There is nothing to read.
    Empty,
    /// A character is not a digit of the radix.
    InvalidDigit,
    /// The number is larger than the greatest that is allowed.
    Overflow,
}

impl NumberFault {
    /// The fault in words.
    pub open spec fn words(self) -> Seq<char> {
        match self {
            NumberFault::Empty => "cannot parse integer from empty string"@,
            NumberFault::InvalidDigit => "invalid digit found in string"@,
            NumberFault::Overflow => "number too large to fit in target type"@,
        }
    }

    /// The fault in words.
    pub fn message(self) -> (r: String)
        ensures
            r@ == self.words(),
    {
        match self {
            NumberFault::Empty => "cannot parse integer from empty string".to_owned(),
            NumberFault::InvalidDigit => "invalid digit found in string".to_owned(),
            NumberFault::Overflow => "number too large to fit in target type".to_owned(),
        }
    }
}

/// The value of `c` as a digit, letters of either case standing for ten and more.
pub open spec fn digit_value(c: char, radix: nat) -> Option<nat> {
    let v = if '0' <= c && c <= '9' {
        (c as nat - '0' as nat) as nat
    } else if 'a' <= c && c <= 'z' {
        (c as nat - 'a' as nat + 10) as nat
    } else if 'A' <= c && c <= 'Z' {
        (c as nat - 'A' as nat + 10) as nat
    } else {
        radix
    };
    if v < radix {
        Some(v)
    } else {
        None
    }
}

/// Reads digits from left to right and stops at the first that does not fit.
pub open spec fn digits_value(s: Seq<char>, radix: nat, max: nat) -> Result<nat, NumberFault>
    decreases s.len(),
{
    if s.len() == 0 {
        Ok(0)
    } else {
        match digits_value(s.drop_last(), radix, max) {
            Err(fault) => Err(fault),
            Ok(value) => match digit_value(s.last(), radix) {
                None => Err(NumberFault::InvalidDigit),
                Some(digit) => if value * radix + digit > max {
                    Err(NumberFault::Overflow)
                } else {
                    Ok(value * radix + digit)
                },
            },
        }
    }
}

/// The unsigned number that `s` writes in `radix`: digits, with a plus sign before
/// them if need be, at most `max`.
pub open spec fn number_value(s: Seq<char>, radix: nat, max: nat) -> Result<nat, NumberFault> {
    if s.len() == 0 {
        Err(NumberFault::Empty)
    } else if s[0] == '+' {
        if s.len() == 1 {
            Err(NumberFault::InvalidDigit)
        } else {
            digits_value(s.drop_first(), radix, max)
        }
    } else {
        digits_value(s, radix, max)
    }
}

/// The value of `c` as a digit.
fn digit_of(c: char, radix: u32) -> (r: Option<usize>)
    requires
        2 <= radix <= 36,
    ensures
        r is Some <==> digit_value(c, radix as nat) is Some,
        r is Some ==> r->0 as nat == digit_value(c, radix as nat)->0,
        r is Some ==> r->0 < radix,
{
    let v: u32 = if '0' <= c && c <= '9' {
        c as u32 - 48
    } else if 'a' <= c && c <= 'z' {
        c as u32 - 97 + 10
    } else if 'A' <= c && c <= 'Z' {
        c as u32 - 65 + 10
    } else {
        radix
    };
    if v < radix {
        Some(v as usize)
    } else {
        None
    }
}

/// Reads an unsigned number.
pub fn parse_number(text: &str, radix: u32, max: usize) -> (r: Result<usize, NumberFault>)
    requires
        2 <= radix <= 36,
    ensures
        r is Ok <==> number_value(text@, radix as nat, max as nat) is Ok,
        r is Ok ==> r->Ok_0 as nat == number_value(text@, radix as nat, max as nat)->Ok_0,
        r is Err ==> r->Err_0 == number_value(text@, radix as nat, max as nat)->Err_0,
{
    let chars = to_chars(text);
    if chars.len() == 0 {
        return Err(NumberFault::Empty);
    }
    let start: usize = if chars[0] == '+' {
        1
    } else {
        0
    };
    if start == chars.len() {
        return Err(NumberFault::InvalidDigit);
    }
    let ghost digits = text@.skip(start as int);
    proof {
        assert(text@.skip(0) =~= text@);
        assert(text@.skip(1) =~= text@.drop_first());
    }
    let mut value: usize = 0;
    let mut i: usize = start;
    assert(digits.take(0) =~= Seq::<char>::empty());
    while i < chars.len()
        invariant
            start <= i <= chars@.len(),
            2 <= radix <= 36,
            chars@ == text@,
            digits == text@.skip(start as int),
            number_value(text@, radix as nat, max as nat) == digits_value(
                digits,
                radix as nat,
                max as nat,
            ),
            digits_value(digits.take(i - start), radix as nat, max as nat) == Ok::<
                nat,
                NumberFault,
            >(value as nat),
        decreases chars@.len() - i,
    {
        proof {
            assert(digits.take(i - start + 1).drop_last() =~= digits.take(i - start));
            assert(digits.take(i - start + 1).last() == chars@[i as int]);
            assert(value as nat * radix as nat == value * radix);
        }
        match digit_of(chars[i], radix) {
            None => {
                proof {
                    lemma_fault_stays(digits, i - start + 1, radix as nat, max as nat);
                }
                return Err(NumberFault::InvalidDigit);
            },
            Some(digit) => {
                let next = match value.checked_mul(radix as usize) {
                    None => None,
                    Some(scaled) => scaled.checked_add(digit),
                };
                match next {
                    Some(sum) if sum <= max => {
                        value = sum;
                    },
                    _ => {
                        proof {
                            lemma_fault_stays(digits, i - start + 1, radix as nat, max as nat);
                        }
                        return Err(NumberFault::Overflow);
                    },
                }
            },
        }
        i += 1;
    }
    assert(digits.take(i - start) =~= digits);
    Ok(value)
}

/// A fault in a prefix is the fault of the whole.
proof fn lemma_fault_stays(s: Seq<char>, n: int, radix: nat, max: nat)
    requires
        0 <= n <= s.len(),
        digits_value(s.take(n), radix, max) is Err,
    ensures
        digits_value(s, radix, max) == digits_value(s.take(n), radix, max),
    decreases s.len() - n,
{
    if n == s.len() {
        assert(s.take(n) =~= s);
    } else {
        assert(s.take(n + 1).drop_last() =~= s.take(n));
        lemma_fault_stays(s, n + 1, radix, max);
    }
}

} // verus!
