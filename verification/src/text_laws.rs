//! What holds of cutting, trimming, joining and numbering text, however the text was
//! put together.

use vstd::prelude::*;
use vstd::utf8::*;

verus! {

/// All of `text` is white space.
pub open spec fn is_blank(text: Seq<char>) -> bool {
    forall|i: int| 0 <= i < text.len() ==> crate::text::is_white_space(#[trigger] text[i])
}

/// `text` neither begins nor ends with white space.
pub open spec fn has_no_margin(text: Seq<char>) -> bool {
    text.len() > 0 ==> !crate::text::is_white_space(text[0]) && !crate::text::is_white_space(
        text.last(),
    )
}

/// How many bytes `text` takes.
pub open spec fn byte_len(text: Seq<char>) -> int {
    encode_utf8(text).len() as int
}

/// The bytes of joined texts are the bytes of each, joined.
pub proof fn lemma_bytes_of_joined(a: Seq<char>, b: Seq<char>)
    ensures
        encode_utf8(a + b) == encode_utf8(a) + encode_utf8(b),
    decreases a.len(),
{
    if a.len() == 0 {
        assert(a + b =~= b);
        assert(encode_utf8(a) + encode_utf8(b) =~= encode_utf8(b));
    } else {
        lemma_bytes_of_joined(a.drop_first(), b);
        assert((a + b).drop_first() =~= a.drop_first() + b);
        assert(encode_utf8(a + b) =~= encode_utf8(a) + encode_utf8(b));
    }
}

/// Where one text ends and another begins is a character boundary.
proof fn lemma_joint_is_boundary(a: Seq<char>, b: Seq<char>)
    ensures
        is_char_boundary(encode_utf8(a + b), byte_len(a)),
{
    let bytes = encode_utf8(a + b);
    lemma_bytes_of_joined(a, b);
    encode_utf8_valid_utf8(a + b);
    if b.len() == 0 {
        assert(encode_utf8(b).len() == 0);
        is_char_boundary_start_end_of_seq(bytes);
    } else {
        encode_utf8_valid_utf8(b);
        encode_utf8_first_scalar(b);
        assert(bytes[byte_len(a)] == encode_utf8(b)[0]);
        is_char_boundary_start_end_of_seq(encode_utf8(b));
        is_char_boundary_iff_not_is_continuation_byte(encode_utf8(b), 0);
        is_char_boundary_iff_not_is_continuation_byte(bytes, byte_len(a));
    }
}

/// What is cut out of a line by the place of a text in it is that text, whatever stands
/// around it.
pub proof fn law_cut_is_the_text(before: Seq<char>, text: Seq<char>, after: Seq<char>)
    ensures
        crate::text::sliceable(
            before + text + after,
            byte_len(before),
            byte_len(before) + byte_len(text),
        ),
        crate::text::sliced(
            before + text + after,
            byte_len(before),
            byte_len(before) + byte_len(text),
        ) == text,
{
    let line = before + text + after;
    lemma_bytes_of_joined(before, text);
    lemma_bytes_of_joined(before + text, after);
    lemma_joint_is_boundary(before + text, after);
    assert(line =~= before + (text + after));
    lemma_joint_is_boundary(before, text + after);
    assert(encode_utf8(line).subrange(byte_len(before), byte_len(before) + byte_len(text))
        =~= encode_utf8(text));
    encode_utf8_decode_utf8(text);
}

/// Only the places of texts can be cut out of a line: what comes before the cut, the
/// text that is cut out and what comes after it make up the line.
pub proof fn law_cut_parts_line(line: Seq<char>, start: int, end: int) -> (parts: (
    Seq<char>,
    Seq<char>,
    Seq<char>,
))
    requires
        crate::text::sliceable(line, start, end),
    ensures
        line == parts.0 + parts.1 + parts.2,
        byte_len(parts.0) == start,
        byte_len(parts.0) + byte_len(parts.1) == end,
        crate::text::sliced(line, start, end) == parts.1,
        encode_utf8(parts.1) == encode_utf8(line).subrange(start, end),
{
    let bytes = encode_utf8(line);
    encode_utf8_valid_utf8(line);
    valid_utf8_split(bytes, end);
    decode_utf8_split(bytes, end);
    encode_utf8_decode_utf8(line);
    let upto = bytes.subrange(0, end);
    if start == end {
        is_char_boundary_start_end_of_seq(upto);
    } else {
        is_char_boundary_iff_not_is_continuation_byte(bytes, start);
        is_char_boundary_iff_not_is_continuation_byte(upto, start);
        assert(upto[start] == bytes[start]);
    }
    valid_utf8_split(upto, start);
    decode_utf8_split(upto, start);
    let before = decode_utf8(upto.subrange(0, start));
    let text = decode_utf8(upto.subrange(start, end));
    let after = decode_utf8(bytes.subrange(end, bytes.len() as int));
    decode_utf8_encode_utf8(upto.subrange(0, start));
    decode_utf8_encode_utf8(upto.subrange(start, end));
    law_cut_is_the_text(before, text, after);
    assert(upto.subrange(start, end) =~= bytes.subrange(start, end));
    (before, text, after)
}

/// What is inserted at the place where one text ends and another begins comes between
/// the two.
pub proof fn law_insertion_comes_between(
    before: Seq<char>,
    insertion: Seq<char>,
    after: Seq<char>,
)
    ensures
        crate::text::insertable(before + after, byte_len(before)),
        crate::text::inserted(before + after, byte_len(before), insertion) == before + insertion
            + after,
{
    lemma_joint_is_boundary(before, after);
    lemma_bytes_of_joined(before, after);
    let none = Seq::<char>::empty();
    law_cut_is_the_text(none, before, after);
    law_cut_is_the_text(before, after, none);
    assert(none + before + after =~= before + after);
    assert(before + after + none =~= before + after);
    assert(byte_len(none) == 0);
}

/// Where something can be inserted into a text, the text ends one part and begins
/// another.
pub proof fn law_insertion_parts_text(text: Seq<char>, at: int, insertion: Seq<char>) -> (parts: (
    Seq<char>,
    Seq<char>,
))
    requires
        crate::text::insertable(text, at),
    ensures
        text == parts.0 + parts.1,
        encode_utf8(parts.0) == encode_utf8(text).subrange(0, at),
        encode_utf8(parts.1) == encode_utf8(text).subrange(at, byte_len(text)),
        crate::text::inserted(text, at, insertion) == parts.0 + insertion + parts.1,
{
    encode_utf8_valid_utf8(text);
    is_char_boundary_start_end_of_seq(encode_utf8(text));
    let (_, before, _) = law_cut_parts_line(text, 0, at);
    let (_, after, _) = law_cut_parts_line(text, at, byte_len(text));
    crate::text::law_insertion_keeps_text(text, at);
    (before, after)
}

proof fn lemma_blank_start(margin: Seq<char>, text: Seq<char>)
    requires
        is_blank(margin),
        text.len() > 0 ==> !crate::text::is_white_space(text[0]),
    ensures
        crate::text::trimmed_start(margin + text) == text,
    decreases margin.len(),
{
    if margin.len() == 0 {
        assert(margin + text =~= text);
    } else {
        assert((margin + text)[0] == margin[0]);
        assert((margin + text).drop_first() =~= margin.drop_first() + text);
        lemma_blank_start(margin.drop_first(), text);
    }
}

proof fn lemma_blank_end(text: Seq<char>, margin: Seq<char>)
    requires
        is_blank(margin),
        text.len() > 0 ==> !crate::text::is_white_space(text.last()),
    ensures
        crate::text::trimmed_end(text + margin) == text,
    decreases margin.len(),
{
    if margin.len() == 0 {
        assert(text + margin =~= text);
    } else {
        assert((text + margin).last() == margin.last());
        assert((text + margin).drop_last() =~= text + margin.drop_last());
        lemma_blank_end(text, margin.drop_last());
    }
}

/// Trimming takes away the white space around a text, and nothing else.
pub proof fn law_trimming_takes_margins(left: Seq<char>, text: Seq<char>, right: Seq<char>)
    requires
        is_blank(left),
        is_blank(right),
        has_no_margin(text),
    ensures
        crate::text::trimmed(left + text + right) == text,
{
    if text.len() == 0 {
        let blank = left + text + right;
        assert(is_blank(blank));
        assert(blank =~= blank + Seq::<char>::empty());
        lemma_blank_start(blank, Seq::empty());
    } else {
        assert(left + text + right =~= left + (text + right));
        lemma_blank_start(left, text + right);
        lemma_blank_end(text, right);
    }
}

/// Every line is white space, its trimmed text, and white space again.
pub proof fn law_line_is_trimmed_text_with_margins(line: Seq<char>) -> (margins: (
    Seq<char>,
    Seq<char>,
))
    ensures
        is_blank(margins.0),
        is_blank(margins.1),
        has_no_margin(crate::text::trimmed(line)),
        line == margins.0 + crate::text::trimmed(line) + margins.1,
{
    crate::text::law_trimmed_twice(line);
    let left = lemma_start_margin(line);
    let right = lemma_end_margin(crate::text::trimmed_start(line));
    assert(line =~= left + crate::text::trimmed(line) + right);
    (left, right)
}

proof fn lemma_start_margin(line: Seq<char>) -> (margin: Seq<char>)
    ensures
        is_blank(margin),
        line == margin + crate::text::trimmed_start(line),
    decreases line.len(),
{
    if line.len() > 0 && crate::text::is_white_space(line[0]) {
        let rest = lemma_start_margin(line.drop_first());
        let margin = seq![line[0]] + rest;
        assert(line =~= seq![line[0]] + line.drop_first());
        assert(line =~= margin + crate::text::trimmed_start(line));
        margin
    } else {
        assert(line =~= Seq::<char>::empty() + line);
        Seq::empty()
    }
}

proof fn lemma_end_margin(line: Seq<char>) -> (margin: Seq<char>)
    ensures
        is_blank(margin),
        line == crate::text::trimmed_end(line) + margin,
    decreases line.len(),
{
    if line.len() > 0 && crate::text::is_white_space(line.last()) {
        let rest = lemma_end_margin(line.drop_last());
        let margin = rest.push(line.last());
        assert(line =~= line.drop_last().push(line.last()));
        assert(line =~= crate::text::trimmed_end(line) + margin);
        margin
    } else {
        assert(line =~= line + Seq::<char>::empty());
        Seq::empty()
    }
}

/// The number that digits stand for.
pub open spec fn number(digits: Seq<char>) -> int
    decreases digits.len(),
{
    if digits.len() == 0 {
        0
    } else {
        10 * number(digits.drop_last()) + (digits.last() as int - '0' as int)
    }
}

/// Decimal notation is made of digits, begins with a zero only for zero, and stands for
/// the number that was written.
pub proof fn law_decimal_stands_for_number(n: nat)
    ensures
        number(crate::text::decimal(n)) == n,
        crate::text::decimal(n).len() > 0,
        forall|i: int|
            0 <= i < crate::text::decimal(n).len() ==> '0' <= #[trigger] crate::text::decimal(n)[i]
                <= '9',
        n > 0 ==> crate::text::decimal(n)[0] != '0',
    decreases n,
{
    crate::text::lemma_decimal_digits(n);
    if n < 10 {
        assert(crate::text::decimal(n).drop_last() =~= Seq::<char>::empty());
        assert(number(Seq::empty()) == 0);
        assert(crate::text::digit(n) as int == 0x30 + n);
    } else {
        law_decimal_stands_for_number(n / 10);
        assert(crate::text::decimal(n).drop_last() =~= crate::text::decimal(n / 10));
        assert(crate::text::digit(n % 10) as int == 0x30 + n % 10);
    }
}

proof fn lemma_pieces_of_line(line: Seq<char>)
    requires
        crate::text::lacks(line, '\n'),
    ensures
        crate::text::pieces(line) == seq![line],
    decreases line.len(),
{
    if line.len() > 0 {
        lemma_pieces_of_line(line.drop_last());
        assert(line.drop_last().push(line.last()) =~= line);
        assert(crate::text::pieces(line) =~= seq![line]);
    } else {
        assert(line =~= Seq::<char>::empty());
    }
}

proof fn lemma_pieces_of_joined(a: Seq<char>, b: Seq<char>)
    ensures
        crate::text::pieces(a).len() > 0,
        crate::text::pieces(b).len() > 0,
        crate::text::pieces(a + seq!['\n'] + b) == crate::text::pieces(a) + crate::text::pieces(b),
    decreases b.len(),
{
    let whole = a + seq!['\n'] + b;
    crate::text::lemma_pieces_lack_feeds(a);
    crate::text::lemma_pieces_lack_feeds(b);
    if b.len() == 0 {
        assert(whole.drop_last() =~= a);
        assert(b =~= Seq::<char>::empty());
        assert(crate::text::pieces(whole) =~= crate::text::pieces(a) + crate::text::pieces(b));
    } else {
        lemma_pieces_of_joined(a, b.drop_last());
        assert(whole.drop_last() =~= a + seq!['\n'] + b.drop_last());
        assert(crate::text::pieces(whole) =~= crate::text::pieces(a) + crate::text::pieces(b));
    }
}

proof fn lemma_joined_lines(a: Seq<Seq<char>>, b: Seq<Seq<char>>)
    ensures
        crate::text::joined(a + b) == crate::text::joined(a) + crate::text::joined(b),
    decreases b.len(),
{
    if b.len() == 0 {
        assert(a + b =~= a);
        assert(crate::text::joined(a) =~= crate::text::joined(a) + crate::text::joined(b));
    } else {
        lemma_joined_lines(a, b.drop_last());
        assert((a + b).drop_last() =~= a + b.drop_last());
        assert(crate::text::joined(a + b) =~= crate::text::joined(a) + crate::text::joined(b));
    }
}

/// Putting text on one line takes it line by line: each is trimmed and followed by a
/// space, and empty text adds nothing.
pub proof fn law_lines_are_joined_in_turn(line: Seq<char>, rest: Seq<char>)
    requires
        crate::text::lacks(line, '\n'),
    ensures
        crate::text::joined(crate::text::lines_of(line + seq!['\n'] + rest)) == crate::text::trimmed(
            line,
        ) + seq![' '] + crate::text::joined(crate::text::lines_of(rest)),
        line.len() > 0 ==> crate::text::joined(crate::text::lines_of(line))
            == crate::text::trimmed(line) + seq![' '],
        crate::text::joined(crate::text::lines_of(Seq::empty())) == Seq::<char>::empty(),
{
    let whole = line + seq!['\n'] + rest;
    let none = Seq::<Seq<char>>::empty();
    lemma_pieces_of_line(line);
    lemma_pieces_of_line(Seq::empty());
    lemma_pieces_of_joined(line, rest);
    assert(seq![Seq::<char>::empty()].drop_last() =~= none);
    assert(seq![line].drop_last() =~= none);
    assert(crate::text::joined(none) == Seq::<char>::empty());
    assert(crate::text::joined(seq![line]) =~= crate::text::trimmed(line) + seq![' ']);
    assert(crate::text::lines_of(whole) =~= seq![line] + crate::text::lines_of(rest));
    lemma_joined_lines(seq![line], crate::text::lines_of(rest));
}

/// The last line of a text comes last when its lines are put on one line.
pub proof fn law_last_line_is_joined_last(rest: Seq<char>, line: Seq<char>)
    requires
        crate::text::lacks(line, '\n'),
        line.len() > 0,
    ensures
        crate::text::joined(crate::text::lines_of(rest + seq!['\n'] + line))
            == crate::text::joined(crate::text::pieces(rest)) + crate::text::trimmed(line) + seq![
            ' ',
        ],
{
    let whole = rest + seq!['\n'] + line;
    lemma_pieces_of_line(line);
    lemma_pieces_of_joined(rest, line);
    assert(crate::text::pieces(whole).last() == line);
    lemma_joined_lines(crate::text::pieces(rest), seq![line]);
    assert(seq![line].drop_last() =~= Seq::<Seq<char>>::empty());
    assert(crate::text::joined(Seq::empty()) == Seq::<char>::empty());
    assert(crate::text::joined(seq![line]) =~= crate::text::trimmed(line) + seq![' ']);
    assert(crate::text::joined(crate::text::lines_of(whole)) =~= crate::text::joined(
        crate::text::pieces(rest),
    ) + crate::text::trimmed(line) + seq![' ']);
}

} // verus!
