//! Text: what the other modules need of strings beyond concatenation.

use vstd::prelude::*;
use vstd::string::*;
use vstd::utf8::*;

verus! {

/// The characters of Unicode's property `White_Space`.
pub open spec fn is_white_space(c: char) -> bool {
    let u = c as u32;
    ||| 0x09 <= u <= 0x0d
    ||| u == 0x20
    ||| u == 0x85
    ||| u == 0xa0
    ||| u == 0x1680
    ||| 0x2000 <= u <= 0x200a
    ||| u == 0x2028
    ||| u == 0x2029
    ||| u == 0x202f
    ||| u == 0x205f
    ||| u == 0x3000
}

/// `text` without the white space it begins with.
pub open spec fn trimmed_start(text: Seq<char>) -> Seq<char>
    decreases text.len(),
{
    if text.len() > 0 && is_white_space(text[0]) {
        trimmed_start(text.drop_first())
    } else {
        text
    }
}

/// `text` without the white space it ends with.
pub open spec fn trimmed_end(text: Seq<char>) -> Seq<char>
    decreases text.len(),
{
    if text.len() > 0 && is_white_space(text.last()) {
        trimmed_end(text.drop_last())
    } else {
        text
    }
}

/// `text` without the white space at either end.
pub open spec fn trimmed(text: Seq<char>) -> Seq<char> {
    trimmed_end(trimmed_start(text))
}

/// `str::trim` takes away the white space at both ends and nothing else. White
/// space is what has Unicode's property `White_Space`.
pub assume_specification[ str::trim ](s: &str) -> (res: &str)
    ensures
        res@ == trimmed(s@),
;

/// `String::push` puts one character at the end.
pub assume_specification[ String::push ](s: &mut String, c: char)
    ensures
        final(s)@ == old(s)@.push(c),
;

/// The character of a decimal digit.
pub open spec fn digit(d: nat) -> char {
    (0x30 + d) as char
}

/// `n` in decimal notation, without leading zeros.
pub open spec fn decimal(n: nat) -> Seq<char>
    decreases n,
{
    if n < 10 {
        seq![digit(n)]
    } else {
        decimal(n / 10).push(digit(n % 10))
    }
}

/// A character of decimal notation.
pub open spec fn is_digit(c: char) -> bool {
    '0' <= c <= '9'
}

/// Decimal notation is made of digits.
pub proof fn lemma_decimal_digits(n: nat)
    ensures
        decimal(n).len() > 0,
        forall|i: int| 0 <= i < decimal(n).len() ==> is_digit(#[trigger] decimal(n)[i]),
    decreases n,
{
    if n >= 10 {
        lemma_decimal_digits(n / 10);
    }
}

/// Two numbers with the same decimal notation are the same.
pub proof fn law_decimal_injective(a: nat, b: nat)
    requires
        decimal(a) == decimal(b),
    ensures
        a == b,
    decreases a,
{
    lemma_decimal_digits(a / 10);
    lemma_decimal_digits(b / 10);
    assert(decimal(a).last() == digit(a % 10));
    assert(decimal(b).last() == digit(b % 10));
    assert(digit(a % 10) as nat == 0x30 + a % 10);
    assert(digit(b % 10) as nat == 0x30 + b % 10);
    if a >= 10 && b >= 10 {
        assert(decimal(a).drop_last() =~= decimal(a / 10));
        assert(decimal(b).drop_last() =~= decimal(b / 10));
        law_decimal_injective(a / 10, b / 10);
    }
}

/// Appends `n` in decimal notation.
pub fn push_decimal(text: &mut String, n: usize)
    ensures
        final(text)@ == old(text)@ + decimal(n as nat),
    decreases n,
{
    if n >= 10 {
        push_decimal(text, n / 10);
    }
    let d: u8 = (n % 10) as u8;
    let c: char = (0x30 + d) as char;
    text.push(c);
    assert(text@ =~= old(text)@ + decimal(n as nat));
}

/// Whether two texts are the same.
pub fn same(a: &str, b: &str) -> (res: bool)
    ensures
        res == (a@ == b@),
{
    a.to_owned() == b.to_owned()
}

/// What follows `prefix` in `text`, where `text` begins with it.
pub fn strip_prefix<'a>(text: &'a str, prefix: &str) -> (res: Option<&'a str>)
    ensures
        res is Some <==> prefix@.is_prefix_of(text@),
        res matches Some(rest) ==> rest@ == text@.skip(prefix@.len() as int),
{
    let n: usize = prefix.unicode_len();
    let len: usize = text.unicode_len();
    if len < n {
        return None;
    }
    let mut i: usize = 0;
    while i < n
        invariant
            i <= n <= len,
            n == prefix@.len(),
            len == text@.len(),
            forall|j: int| 0 <= j < i ==> text@[j] == prefix@[j],
        decreases n - i,
    {
        if text.get_char(i) != prefix.get_char(i) {
            return None;
        }
        i = i + 1;
    }
    assert(prefix@ =~= text@.subrange(0, n as int));
    Some(text.substring_char(n, len))
}

/// `text` cut at its line feeds.
pub open spec fn pieces(text: Seq<char>) -> Seq<Seq<char>>
    decreases text.len(),
{
    if text.len() == 0 {
        seq![Seq::<char>::empty()]
    } else {
        let before = pieces(text.drop_last());
        if text.last() == '\n' {
            before.push(Seq::empty())
        } else {
            before.drop_last().push(before.last().push(text.last()))
        }
    }
}

/// The lines of `text`; a line feed at its very end begins no line.
pub open spec fn lines_of(text: Seq<char>) -> Seq<Seq<char>> {
    if pieces(text).last().len() == 0 {
        pieces(text).drop_last()
    } else {
        pieces(text)
    }
}

/// The lines, trimmed, each followed by a space.
pub open spec fn joined(lines: Seq<Seq<char>>) -> Seq<char>
    decreases lines.len(),
{
    if lines.len() == 0 {
        Seq::empty()
    } else {
        joined(lines.drop_last()) + trimmed(lines.last()) + seq![' ']
    }
}

/// Puts the lines of `text`, trimmed, on one line, each followed by a space.
pub fn join_lines(text: &str) -> (res: String)
    ensures
        res@ == joined(lines_of(text@)),
{
    let mut res = String::new();
    let mut line = String::new();
    assert(text@.take(0) =~= Seq::<char>::empty());
    assert(seq![Seq::<char>::empty()].drop_last() =~= Seq::<Seq<char>>::empty());
    for c in chars: text.chars()
        invariant
            chars.seq() == text@,
            pieces(text@.take(chars.index())).len() > 0,
            line@ == pieces(text@.take(chars.index())).last(),
            res@ == joined(pieces(text@.take(chars.index())).drop_last()),
    {
        let ghost i = chars.index();
        let ghost before = pieces(text@.take(i));
        assert(text@.take(i + 1).drop_last() =~= text@.take(i));
        assert(text@.take(i + 1).last() == c);
        if c == '\n' {
            res.append(line.as_str().trim());
            res.push(' ');
            line = String::new();
            assert(before.push(Seq::empty()).drop_last() =~= before);
            assert(res@ =~= joined(before));
        } else {
            line.push(c);
            assert(before.drop_last().push(before.last().push(c)).drop_last()
                =~= before.drop_last());
        }
    }
    assert(text@.take(text@.len() as int) =~= text@);
    if !line.as_str().is_empty() {
        res.append(line.as_str().trim());
        res.push(' ');
        assert(res@ =~= joined(pieces(text@)));
    }
    res
}

/// The bytes `start..end` of `text` are there, and are whole characters.
pub open spec fn sliceable(text: Seq<char>, start: int, end: int) -> bool {
    &&& 0 <= start <= end <= encode_utf8(text).len()
    &&& is_char_boundary(encode_utf8(text), start)
    &&& is_char_boundary(encode_utf8(text), end)
}

/// The text of the bytes `start..end` of `text`.
pub open spec fn sliced(text: Seq<char>, start: int, end: int) -> Seq<char> {
    decode_utf8(encode_utf8(text).subrange(start, end))
}

/// `text` with `insertion` put before its byte `at`.
pub open spec fn inserted(text: Seq<char>, at: int, insertion: Seq<char>) -> Seq<char> {
    sliced(text, 0, at) + insertion + sliced(text, at, encode_utf8(text).len() as int)
}

/// A character boundary that comes before another is one of what comes before the
/// other, too.
proof fn lemma_boundary_in_prefix(bytes: Seq<u8>, start: int, end: int)
    requires
        valid_utf8(bytes),
        0 <= start <= end <= bytes.len(),
        is_char_boundary(bytes, start),
        is_char_boundary(bytes, end),
    ensures
        valid_utf8(bytes.subrange(0, end)),
        is_char_boundary(bytes.subrange(0, end), start),
{
    let prefix = bytes.subrange(0, end);
    valid_utf8_split(bytes, end);
    if start == end {
        is_char_boundary_start_end_of_seq(prefix);
    } else {
        is_char_boundary_iff_not_is_continuation_byte(bytes, start);
        is_char_boundary_iff_not_is_continuation_byte(prefix, start);
        assert(is_continuation_byte(prefix[start]) == is_continuation_byte(bytes[start]));
    }
}

/// Whether `slice(text, start, end)` may be called.
pub fn is_sliceable(text: &str, start: usize, end: usize) -> (res: bool)
    ensures
        res == sliceable(text@, start as int, end as int),
{
    proof {
        encode_utf8_valid_utf8(text@);
    }
    start <= end && text.is_char_boundary(start) && text.is_char_boundary(end)
}

/// The bytes `start..end` of `text`.
pub fn slice(text: &str, start: usize, end: usize) -> (res: &str)
    requires
        sliceable(text@, start as int, end as int),
    ensures
        res@ == sliced(text@, start as int, end as int),
        encode_utf8(res@) == encode_utf8(text@).subrange(start as int, end as int),
{
    proof {
        encode_utf8_valid_utf8(text@);
        lemma_boundary_in_prefix(encode_utf8(text@), start as int, end as int);
    }
    let (before, _) = text.split_at(end);
    let (_, res) = before.split_at(start);
    proof {
        assert(encode_utf8(res@) =~= encode_utf8(text@).subrange(start as int, end as int));
        encode_utf8_decode_utf8(res@);
    }
    res
}

/// Whether `insert_str(text, at, ..)` may be called.
pub open spec fn insertable(text: Seq<char>, at: int) -> bool {
    0 <= at <= encode_utf8(text).len() && is_char_boundary(encode_utf8(text), at)
}

/// `text` with `insertion` put before its byte `at`.
pub fn insert_str(text: &str, at: usize, insertion: &str) -> (res: String)
    requires
        insertable(text@, at as int),
    ensures
        res@ == inserted(text@, at as int, insertion@),
{
    let (before, after) = text.split_at(at);
    let mut res = String::new();
    res.append(before);
    res.append(insertion);
    res.append(after);
    proof {
        encode_utf8_decode_utf8(before@);
        encode_utf8_decode_utf8(after@);
        assert(encode_utf8(before@) =~= encode_utf8(text@).subrange(0, at as int));
        assert(encode_utf8(after@) =~= encode_utf8(text@).subrange(
            at as int,
            encode_utf8(text@).len() as int,
        ));
        assert(res@ =~= inserted(text@, at as int, insertion@));
    }
    res
}

/// An insertion keeps the text around it: without it, the text is what it was.
pub proof fn law_insertion_keeps_text(text: Seq<char>, at: int)
    requires
        insertable(text, at),
    ensures
        sliced(text, 0, at) + sliced(text, at, encode_utf8(text).len() as int) == text,
{
    encode_utf8_valid_utf8(text);
    decode_utf8_split(encode_utf8(text), at);
    encode_utf8_decode_utf8(text);
}

proof fn lemma_trimmed_start(text: Seq<char>)
    ensures
        exists|n: int| 0 <= n <= text.len() && trimmed_start(text) == #[trigger] text.skip(n),
        trimmed_start(text).len() > 0 ==> !is_white_space(trimmed_start(text)[0]),
    decreases text.len(),
{
    if text.len() > 0 && is_white_space(text[0]) {
        lemma_trimmed_start(text.drop_first());
        let n = choose|n: int|
            0 <= n <= text.len() - 1 && trimmed_start(text.drop_first())
                == #[trigger] text.drop_first().skip(n);
        assert(text.drop_first().skip(n) =~= text.skip(n + 1));
    } else {
        assert(text =~= text.skip(0));
    }
}

proof fn lemma_trimmed_end(text: Seq<char>)
    ensures
        exists|n: int| 0 <= n <= text.len() && trimmed_end(text) == #[trigger] text.take(n),
        trimmed_end(text).len() > 0 ==> !is_white_space(trimmed_end(text).last()),
    decreases text.len(),
{
    if text.len() > 0 && is_white_space(text.last()) {
        lemma_trimmed_end(text.drop_last());
        let n = choose|n: int|
            0 <= n <= text.len() - 1 && trimmed_end(text.drop_last())
                == #[trigger] text.drop_last().take(n);
        assert(text.drop_last().take(n) =~= text.take(n));
    } else {
        assert(text =~= text.take(text.len() as int));
    }
}

/// Trimmed text neither begins nor ends with white space, and trimming it again
/// changes nothing.
pub proof fn law_trimmed_twice(text: Seq<char>)
    ensures
        trimmed(text).len() > 0 ==> !is_white_space(trimmed(text)[0]) && !is_white_space(
            trimmed(text).last(),
        ),
        trimmed(trimmed(text)) == trimmed(text),
{
    let begun = trimmed_start(text);
    lemma_trimmed_start(text);
    lemma_trimmed_end(begun);
}

/// `c` is nowhere in `text`.
pub open spec fn lacks(text: Seq<char>, c: char) -> bool {
    forall|i: int| 0 <= i < text.len() ==> #[trigger] text[i] != c
}

proof fn lemma_trimmed_lacks(text: Seq<char>, c: char)
    requires
        lacks(text, c),
    ensures
        lacks(trimmed(text), c),
{
    lemma_trimmed_start(text);
    lemma_trimmed_end(trimmed_start(text));
}

pub proof fn lemma_pieces_lack_feeds(text: Seq<char>)
    ensures
        pieces(text).len() > 0,
        forall|i: int| 0 <= i < pieces(text).len() ==> lacks(#[trigger] pieces(text)[i], '\n'),
    decreases text.len(),
{
    if text.len() > 0 {
        lemma_pieces_lack_feeds(text.drop_last());
    }
}

proof fn lemma_joined_lacks_feeds(lines: Seq<Seq<char>>)
    requires
        forall|i: int| 0 <= i < lines.len() ==> lacks(#[trigger] lines[i], '\n'),
    ensures
        lacks(joined(lines), '\n'),
    decreases lines.len(),
{
    if lines.len() > 0 {
        lemma_joined_lacks_feeds(lines.drop_last());
        lemma_trimmed_lacks(lines.last(), '\n');
    }
}

/// Joined lines are one line.
pub proof fn law_joined_is_one_line(text: Seq<char>)
    ensures
        lacks(joined(lines_of(text)), '\n'),
        lacks(trimmed(joined(lines_of(text))), '\n'),
{
    lemma_pieces_lack_feeds(text);
    lemma_joined_lacks_feeds(lines_of(text));
    lemma_trimmed_lacks(joined(lines_of(text)), '\n');
}

} // verus!
