//! Text as sequences of characters: cutting it at a separator and into lines,
//! reading a decimal number, trimming white space. The functions that cut and
//! trim work on slices of characters and hand out parts of their argument,
//! not copies.

use vstd::prelude::*;

verus! {

/// `String::push` appends one character to the end of the string.
pub assume_specification[ String::push ](s: &mut String, ch: char)
    ensures
        final(s)@ == old(s)@.push(ch),
;

/// `==` on string slices compares them character by character.
pub assume_specification[ <str as PartialEq>::eq ](a: &str, b: &str) -> (same: bool)
    ensures
        same == (a@ == b@),
;

/// The characters of `s`, in order.
pub fn chars_of(s: &str) -> (v: Vec<char>)
    ensures
        v@ == s@,
{
    let mut v: Vec<char> = Vec::new();
    for c in it: s.chars()
        invariant
            v@ == it.seq().take(it.index()),
            it.seq() == s@,
    {
        v.push(c);
    }
    v
}

/// The string made of the characters of `chars`.
pub fn string_of(chars: &[char]) -> (s: String)
    ensures
        s@ == chars@,
{
    let mut s = String::new();
    let mut i: usize = 0;
    while i < chars.len()
        invariant
            i <= chars.len(),
            s@ == chars@.take(i as int),
        decreases chars.len() - i,
    {
        s.push(chars[i]);
        assert(chars@.take(i + 1) =~= chars@.take(i as int).push(chars@[i as int]));
        i += 1;
    }
    assert(chars@.take(i as int) =~= chars@);
    s
}

/// What each of a list of slices holds.
pub open spec fn contents(parts: Seq<&[char]>) -> Seq<Seq<char>> {
    parts.map_values(|p: &[char]| p@)
}

/// The pieces of `s` between occurrences of `sep`: one more piece than there
/// are separators, empty pieces included. The text is read front to back; a
/// separator opens a new, empty piece, and any other character joins the
/// piece that is open.
pub open spec fn split(s: Seq<char>, sep: char) -> Seq<Seq<char>>
    decreases s.len(),
{
    if s.len() == 0 {
        seq![Seq::<char>::empty()]
    } else {
        let before = split(s.drop_last(), sep);
        if s.last() == sep {
            before.push(Seq::<char>::empty())
        } else {
            before.drop_last().push(before.last().push(s.last()))
        }
    }
}

/// The pieces of `text` between occurrences of `sep`.
pub fn split_at_char<'a>(text: &'a [char], sep: char) -> (parts: Vec<&'a [char]>)
    ensures
        contents(parts@) == split(text@, sep),
{
    let mut parts: Vec<&'a [char]> = Vec::new();
    let mut start: usize = 0;
    let mut i: usize = 0;
    assert(text@.take(0) =~= Seq::<char>::empty());
    assert(contents(parts@).push(text@.subrange(0, 0)) =~= seq![Seq::<char>::empty()]);
    while i < text.len()
        invariant
            start <= i <= text.len(),
            split(text@.take(i as int), sep) == contents(parts@).push(
                text@.subrange(start as int, i as int),
            ),
        decreases text.len() - i,
    {
        let ghost before = split(text@.take(i as int), sep);
        let ghost done = contents(parts@);
        assert(text@.take(i + 1).drop_last() =~= text@.take(i as int));
        assert(before.drop_last() =~= done);
        if text[i] == sep {
            parts.push(&text[start..i]);
            start = i + 1;
            assert(contents(parts@) =~= before);
            assert(text@.subrange(start as int, start as int) =~= Seq::<char>::empty());
        } else {
            assert(text@.subrange(start as int, i + 1) =~= text@.subrange(
                start as int,
                i as int,
            ).push(text@[i as int]));
        }
        i += 1;
    }
    assert(text@.take(i as int) =~= text@);
    let ghost done = contents(parts@);
    parts.push(&text[start..i]);
    assert(contents(parts@) =~= done.push(text@.subrange(start as int, i as int)));
    parts
}

/// Cutting a text always yields at least one piece.
pub proof fn split_is_never_empty(s: Seq<char>, sep: char)
    ensures
        split(s, sep).len() >= 1,
    decreases s.len(),
{
    if s.len() > 0 {
        split_is_never_empty(s.drop_last(), sep);
    }
}

/// The pieces put together again, with `sep` between each two.
pub open spec fn join(parts: Seq<Seq<char>>, sep: char) -> Seq<char>
    decreases parts.len(),
{
    if parts.len() == 0 {
        Seq::<char>::empty()
    } else if parts.len() == 1 {
        parts[0]
    } else {
        join(parts.drop_last(), sep) + seq![sep] + parts.last()
    }
}

/// Cutting loses nothing: the pieces, joined by the separator, are the text.
pub proof fn split_joins_back(s: Seq<char>, sep: char)
    ensures
        join(split(s, sep), sep) == s,
    decreases s.len(),
{
    if s.len() == 0 {
        assert(join(split(s, sep), sep) =~= s);
    } else {
        let front = s.drop_last();
        let before = split(front, sep);
        let pieces = split(s, sep);
        split_joins_back(front, sep);
        split_is_never_empty(front, sep);
        assert(s =~= front.push(s.last()));
        if s.last() == sep {
            assert(pieces.drop_last() =~= before);
            assert(join(pieces, sep) =~= join(before, sep) + seq![sep]);
        } else if before.len() == 1 {
            assert(join(pieces, sep) =~= before[0].push(s.last()));
        } else {
            assert(pieces.drop_last() =~= before.drop_last());
            assert(join(pieces, sep) =~= join(before, sep).push(s.last()));
        }
    }
}

/// No piece holds the separator.
pub proof fn split_pieces_hold_no_separator(s: Seq<char>, sep: char)
    ensures
        forall|i: int, j: int|
            0 <= i < split(s, sep).len() && 0 <= j < split(s, sep)[i].len() ==> #[trigger] split(
                s,
                sep,
            )[i][j] != sep,
    decreases s.len(),
{
    if s.len() > 0 {
        split_pieces_hold_no_separator(s.drop_last(), sep);
        split_is_never_empty(s.drop_last(), sep);
    }
}

/// `line` without the carriage return at its end, if it ends in one.
pub open spec fn strip_cr(line: Seq<char>) -> Seq<char> {
    if line.len() > 0 && line.last() == '\r' {
        line.drop_last()
    } else {
        line
    }
}

/// The lines of `s`. A line ends at a line feed; the line feed, and a
/// carriage return directly before it, are not part of the line. What follows
/// the last line feed is a line of its own unless it is empty, and it keeps a
/// carriage return at its end.
pub open spec fn lines(s: Seq<char>) -> Seq<Seq<char>> {
    let pieces = split(s, '\n');
    let ended = Seq::new((pieces.len() - 1) as nat, |k: int| strip_cr(pieces[k]));
    if pieces.last().len() == 0 {
        ended
    } else {
        ended.push(pieces.last())
    }
}

/// No line holds a line feed.
pub proof fn lines_hold_no_line_feed(s: Seq<char>)
    ensures
        forall|i: int, j: int|
            0 <= i < lines(s).len() && 0 <= j < lines(s)[i].len() ==> #[trigger] lines(s)[i][j]
                != '\n',
{
    let pieces = split(s, '\n');
    split_pieces_hold_no_separator(s, '\n');
    split_is_never_empty(s, '\n');
    assert forall|i: int, j: int|
        0 <= i < lines(s).len() && 0 <= j < lines(s)[i].len() implies #[trigger] lines(s)[i][j]
        != '\n' by {
        if i < pieces.len() - 1 {
            assert(lines(s)[i] == strip_cr(pieces[i]));
            assert(lines(s)[i][j] == pieces[i][j]);
        } else {
            assert(lines(s)[i] == pieces.last());
            assert(lines(s)[i][j] == pieces[pieces.len() - 1][j]);
        }
    }
}

/// The lines of `text`.
pub fn lines_of<'a>(text: &'a [char]) -> (ls: Vec<&'a [char]>)
    ensures
        contents(ls@) == lines(text@),
{
    let pieces = split_at_char(text, '\n');
    proof {
        split_is_never_empty(text@, '\n');
    }
    let ghost all = contents(pieces@);
    let last = pieces.len() - 1;
    let mut ls: Vec<&'a [char]> = Vec::new();
    let mut k: usize = 0;
    while k < last
        invariant
            k <= last < pieces.len(),
            all == contents(pieces@),
            ls.len() == k,
            forall|j: int| 0 <= j < k ==> (#[trigger] ls@[j])@ == strip_cr(all[j]),
        decreases last - k,
    {
        let piece = pieces[k];
        let n = piece.len();
        if n > 0 && piece[n - 1] == '\r' {
            ls.push(&piece[0..n - 1]);
        } else {
            ls.push(piece);
        }
        k += 1;
    }
    if pieces[last].len() > 0 {
        ls.push(pieces[last]);
    }
    assert(contents(ls@) =~= lines(text@));
    ls
}

/// The ten decimal digits of ASCII.
pub open spec fn is_digit(c: char) -> bool {
    '0' <= c <= '9'
}

/// What a digit counts for; 0 for every other character.
pub open spec fn digit_value(c: char) -> nat {
    if is_digit(c) {
        (c as u32 - '0' as u32) as nat
    } else {
        0
    }
}

/// The number that the digits of `s` spell in base ten.
pub open spec fn decimal(s: Seq<char>) -> nat
    decreases s.len(),
{
    if s.len() == 0 {
        0
    } else {
        decimal(s.drop_last()) * 10 + digit_value(s.last())
    }
}

/// Every character of `s` is a decimal digit.
pub open spec fn all_digits(s: Seq<char>) -> bool {
    forall|i: int| 0 <= i < s.len() ==> is_digit(#[trigger] s[i])
}

/// The number that `s` spells, where it spells one that a `u64` holds: an
/// optional `+`, then one or more decimal digits and nothing else.
pub open spec fn parse_u64(s: Seq<char>) -> Option<u64> {
    let digits = if s.len() > 0 && s.first() == '+' {
        s.drop_first()
    } else {
        s
    };
    if digits.len() > 0 && all_digits(digits) && decimal(digits) <= u64::MAX {
        Some(decimal(digits) as u64)
    } else {
        None
    }
}

/// A longer numeral does not spell a smaller number than its front part.
proof fn lemma_decimal_grows(s: Seq<char>, k: int)
    requires
        0 <= k <= s.len(),
    ensures
        decimal(s.take(k)) <= decimal(s),
    decreases s.len() - k,
{
    if k < s.len() {
        assert(s.drop_last().take(k) =~= s.take(k));
        lemma_decimal_grows(s.drop_last(), k);
    } else {
        assert(s.take(k) =~= s);
    }
}

/// The number that `field` spells, if it spells one.
pub fn parse_decimal(field: &[char]) -> (value: Option<u64>)
    ensures
        value == parse_u64(field@),
{
    let n = field.len();
    let start: usize = if n > 0 && field[0] == '+' {
        1
    } else {
        0
    };
    let ghost digits = field@.subrange(start as int, n as int);
    assert(digits =~= if field@.len() > 0 && field@.first() == '+' {
        field@.drop_first()
    } else {
        field@
    });
    if start == n {
        return None;
    }
    let mut value: u64 = 0;
    let mut i: usize = start;
    assert(digits.take(0) =~= Seq::<char>::empty());
    while i < n
        invariant
            start <= i <= n == field.len(),
            digits == field@.subrange(start as int, n as int),
            digits == if field@.len() > 0 && field@.first() == '+' {
                field@.drop_first()
            } else {
                field@
            },
            all_digits(digits.take(i - start)),
            value == decimal(digits.take(i - start)),
        decreases n - i,
    {
        let c = field[i];
        let ghost upto = digits.take(i - start + 1);
        assert(upto.drop_last() =~= digits.take(i - start));
        assert(upto.last() == c);
        if !('0' <= c && c <= '9') {
            assert(!is_digit(digits[i - start]));
            return None;
        }
        let digit: u64 = (c as u32 - '0' as u32) as u64;
        proof {
            lemma_decimal_grows(digits, i - start + 1);
            assert(decimal(upto) == value * 10 + digit);
        }
        let tens = match value.checked_mul(10) {
            Some(tens) => tens,
            None => {
                return None;
            },
        };
        value = match tens.checked_add(digit) {
            Some(sum) => sum,
            None => {
                return None;
            },
        };
        i += 1;
    }
    assert(digits.take(i - start) =~= digits);
    Some(value)
}

/// The characters that count as white space: those with the Unicode property
/// `White_Space`.
pub open spec fn is_white_space(c: char) -> bool {
    let u = c as u32;
    ||| 0x09 <= u <= 0x0D
    ||| u == 0x20
    ||| u == 0x85
    ||| u == 0xA0
    ||| u == 0x1680
    ||| 0x2000 <= u <= 0x200A
    ||| u == 0x2028
    ||| u == 0x2029
    ||| u == 0x202F
    ||| u == 0x205F
    ||| u == 0x3000
}

/// Whether `c` counts as white space.
pub fn is_whitespace(c: char) -> (white: bool)
    ensures
        white == is_white_space(c),
{
    let u = c as u32;
    (0x09 <= u && u <= 0x0D) || u == 0x20 || u == 0x85 || u == 0xA0 || u == 0x1680 || (0x2000 <= u
        && u <= 0x200A) || u == 0x2028 || u == 0x2029 || u == 0x202F || u == 0x205F || u == 0x3000
}

/// `s` without the white space at its front.
pub open spec fn trim_start(s: Seq<char>) -> Seq<char>
    decreases s.len(),
{
    if s.len() > 0 && is_white_space(s.first()) {
        trim_start(s.drop_first())
    } else {
        s
    }
}

/// `s` without the white space at its end.
pub open spec fn trim_end(s: Seq<char>) -> Seq<char>
    decreases s.len(),
{
    if s.len() > 0 && is_white_space(s.last()) {
        trim_end(s.drop_last())
    } else {
        s
    }
}

/// `s` without the white space at either end.
pub open spec fn trim(s: Seq<char>) -> Seq<char> {
    trim_end(trim_start(s))
}

/// `text` without the white space at either end.
pub fn trim_chars<'a>(text: &'a [char]) -> (trimmed: &'a [char])
    ensures
        trimmed@ == trim(text@),
{
    let n = text.len();
    let mut from: usize = 0;
    assert(text@.subrange(0, n as int) =~= text@);
    while from < n && is_whitespace(text[from])
        invariant
            from <= n == text.len(),
            trim_start(text@) == trim_start(text@.subrange(from as int, n as int)),
        decreases n - from,
    {
        assert(text@.subrange(from as int, n as int).drop_first() =~= text@.subrange(
            from + 1,
            n as int,
        ));
        from += 1;
    }
    let mut to: usize = n;
    while to > from && is_whitespace(text[to - 1])
        invariant
            from <= to <= n == text.len(),
            trim(text@) == trim_end(text@.subrange(from as int, to as int)),
        decreases to,
    {
        assert(text@.subrange(from as int, to as int).drop_last() =~= text@.subrange(
            from as int,
            to - 1,
        ));
        to -= 1;
    }
    &text[from..to]
}

/// Trimming takes white space away and nothing else: the text is white
/// space, then what is left, then white space again, and what is left neither
/// begins nor ends with white space.
pub proof fn trim_takes_only_white_space(s: Seq<char>)
    ensures
        ({
            let kept = trim(s);
            exists|from: int, to: int|
                {
                    &&& 0 <= from <= to <= s.len()
                    &&& #[trigger] s.subrange(from, to) == kept
                    &&& forall|i: int| 0 <= i < from ==> is_white_space(#[trigger] s[i])
                    &&& forall|i: int| to <= i < s.len() ==> is_white_space(#[trigger] s[i])
                    &&& kept.len() > 0 ==> !is_white_space(kept.first()) && !is_white_space(
                        kept.last(),
                    )
                }
        }),
{
    let from = lemma_trim_start(s);
    let tail = s.subrange(from, s.len() as int);
    let cut = lemma_trim_end(tail);
    let to = from + cut;
    assert(s.subrange(from, to) =~= tail.subrange(0, cut));
    assert(forall|i: int| to <= i < s.len() ==> s[i] == tail[i - from]);
    let kept = trim(s);
    if kept.len() > 0 {
        assert(kept.first() == tail.first());
    }
}

/// Where `trim_start` begins to keep.
proof fn lemma_trim_start(s: Seq<char>) -> (from: int)
    ensures
        0 <= from <= s.len(),
        trim_start(s) == s.subrange(from, s.len() as int),
        forall|i: int| 0 <= i < from ==> is_white_space(#[trigger] s[i]),
        from < s.len() ==> !is_white_space(s[from]),
    decreases s.len(),
{
    if s.len() > 0 && is_white_space(s.first()) {
        let rest = s.drop_first();
        let inner = lemma_trim_start(rest);
        assert(rest.subrange(inner, rest.len() as int) =~= s.subrange(inner + 1, s.len() as int));
        assert(forall|i: int| 1 <= i < inner + 1 ==> s[i] == rest[i - 1]);
        inner + 1
    } else {
        assert(s.subrange(0, s.len() as int) =~= s);
        0
    }
}

/// Where `trim_end` stops keeping.
proof fn lemma_trim_end(s: Seq<char>) -> (to: int)
    ensures
        0 <= to <= s.len(),
        trim_end(s) == s.subrange(0, to),
        forall|i: int| to <= i < s.len() ==> is_white_space(#[trigger] s[i]),
        to > 0 ==> !is_white_space(s[to - 1]),
    decreases s.len(),
{
    if s.len() > 0 && is_white_space(s.last()) {
        let rest = s.drop_last();
        let inner = lemma_trim_end(rest);
        assert(rest.subrange(0, inner) =~= s.subrange(0, inner));
        assert(forall|i: int| 0 <= i < rest.len() ==> s[i] == rest[i]);
        inner
    } else {
        assert(s.subrange(0, s.len() as int) =~= s);
        s.len() as int
    }
}

} // verus!
