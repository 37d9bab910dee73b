//! Text as the kernel and the log see it: lines, trimming, numbers in decimal and hexadecimal.

use vstd::prelude::*;

verus! {

/// Whether `c` has the Unicode property `White_Space`.
pub open spec fn is_white_space(c: char) -> bool {
    ||| '\u{9}' <= c <= '\u{D}'
    ||| c == ' '
    ||| c == '\u{85}'
    ||| c == '\u{A0}'
    ||| c == '\u{1680}'
    ||| '\u{2000}' <= c <= '\u{200A}'
    ||| c == '\u{2028}'
    ||| c == '\u{2029}'
    ||| c == '\u{202F}'
    ||| c == '\u{205F}'
    ||| c == '\u{3000}'
}

/// The first index at which `c` stands in `s`, or the length of `s` where it stands nowhere.
pub open spec fn first_index(s: Seq<char>, c: char) -> int
    decreases s.len(),
{
    if s.len() == 0 || s[0] == c {
        0
    } else {
        1 + first_index(s.skip(1), c)
    }
}

/// A line without the carriage return in front of its line feed.
pub open spec fn line_body(line: Seq<char>) -> Seq<char> {
    if line.len() > 0 && line.last() == '\r' {
        line.drop_last()
    } else {
        line
    }
}

/// The lines of `s`. Each ends at a line feed, or at a carriage return and a line feed, neither of
/// which belongs to it; the last line's ending may be missing.
pub open spec fn lines(s: Seq<char>) -> Seq<Seq<char>>
    decreases s.len(),
    via lines_shrink
{
    let end = first_index(s, '\n');
    if s.len() == 0 {
        Seq::empty()
    } else if end == s.len() {
        seq![s]
    } else {
        seq![line_body(s.take(end))] + lines(s.skip(end + 1))
    }
}

#[via_fn]
proof fn lines_shrink(s: Seq<char>) {
    lemma_first_index(s, '\n');
}

/// `first_index` is in range, names an occurrence of `c` unless it is the length, and no earlier
/// position holds `c`.
pub proof fn lemma_first_index(s: Seq<char>, c: char)
    ensures
        0 <= first_index(s, c) <= s.len(),
        first_index(s, c) < s.len() ==> s[first_index(s, c)] == c,
        forall|i: int| 0 <= i < first_index(s, c) ==> s[i] != c,
    decreases s.len(),
{
    if s.len() > 0 && s[0] != c {
        lemma_first_index(s.skip(1), c);
        assert forall|i: int| 0 <= i < first_index(s, c) implies s[i] != c by {
            if i > 0 {
                assert(s.skip(1)[i - 1] == s[i]);
            }
        }
    }
}

/// The position that `lemma_first_index` describes is the only one.
pub proof fn lemma_first_index_is(s: Seq<char>, c: char, n: int)
    requires
        0 <= n <= s.len(),
        n < s.len() ==> s[n] == c,
        forall|i: int| 0 <= i < n ==> s[i] != c,
    ensures
        first_index(s, c) == n,
{
    lemma_first_index(s, c);
}

/// `s` without the white space in front.
pub open spec fn trim_start(s: Seq<char>) -> Seq<char>
    decreases s.len(),
{
    if s.len() > 0 && is_white_space(s[0]) {
        trim_start(s.skip(1))
    } else {
        s
    }
}

/// `s` without the white space at its end.
pub open spec fn trim_end(s: Seq<char>) -> Seq<char>
    decreases s.len(),
{
    if s.len() > 0 && is_white_space(s.last()) {
        trim_end(s.drop_last())
    } else {
        s
    }
}

/// `s` without the white space around it.
pub open spec fn trim(s: Seq<char>) -> Seq<char> {
    trim_end(trim_start(s))
}

/// Whether `c` is white space.
pub fn white_space(c: char) -> (r: bool)
    ensures
        r == is_white_space(c),
{
    ('\u{9}' <= c && c <= '\u{D}') || c == ' ' || c == '\u{85}' || c == '\u{A0}' || c == '\u{1680}'
        || ('\u{2000}' <= c && c <= '\u{200A}') || c == '\u{2028}' || c == '\u{2029}'
        || c == '\u{202F}' || c == '\u{205F}' || c == '\u{3000}'
}

/// The characters of `s`.
pub fn chars_of(s: &str) -> (v: Vec<char>)
    ensures
        v@ == s@,
{
    let mut v: Vec<char> = Vec::new();
    for c in it: s.chars()
        invariant
            it.seq() == s@,
            v@ == s@.take(it.index() as int),
    {
        v.push(c);
    }
    assert(s@.take(s@.len() as int) == s@);
    v
}

/// The end of the line that starts at `from`, and the start of the next one.
pub fn next_line(text: &Vec<char>, from: usize) -> (r: (usize, usize))
    requires
        from < text@.len(),
    ensures
        from <= r.0 <= r.1 <= text@.len(),
        from < r.1,
        lines(text@.skip(from as int)) == seq![text@.subrange(from as int, r.0 as int)] + lines(
            text@.skip(r.1 as int),
        ),
{
    let ghost rest = text@.skip(from as int);
    let mut at: usize = from;
    while at < text.len() && text[at] != '\n'
        invariant
            from <= at <= text@.len(),
            forall|i: int| from <= i < at ==> text@[i] != '\n',
        decreases text@.len() - at,
    {
        at += 1;
    }
    proof {
        assert forall|i: int| 0 <= i < at - from implies rest[i] != '\n' by {
            assert(rest[i] == text@[from + i]);
        }
        if at < text@.len() {
            assert(rest[at - from] == text@[at as int]);
        }
        lemma_first_index_is(rest, '\n', at - from);
    }
    if at == text.len() {
        proof {
            assert(rest == text@.subrange(from as int, at as int));
            assert(text@.skip(at as int) == Seq::<char>::empty());
            assert(lines(text@.skip(at as int)) == Seq::<Seq<char>>::empty());
            assert(lines(rest) == seq![rest]);
        }
        return (at, at);
    }
    let ghost whole = rest.take(at - from);
    proof {
        assert(whole == text@.subrange(from as int, at as int));
        assert(rest.skip(at - from + 1) == text@.skip(at + 1));
    }
    if at > from && text[at - 1] == '\r' {
        proof {
            assert(whole.last() == text@[at - 1]);
            assert(whole.drop_last() == text@.subrange(from as int, at - 1));
        }
        (at - 1, at + 1)
    } else {
        proof {
            if whole.len() > 0 {
                assert(whole.last() == text@[at - 1]);
            }
        }
        (at, at + 1)
    }
}

/// Where `text[from..to]` starts and ends once trimmed.
pub fn trim_range(text: &Vec<char>, from: usize, to: usize) -> (r: (usize, usize))
    requires
        from <= to <= text@.len(),
    ensures
        from <= r.0 <= r.1 <= to,
        text@.subrange(r.0 as int, r.1 as int) == trim(text@.subrange(from as int, to as int)),
{
    let ghost whole = text@.subrange(from as int, to as int);
    let mut a: usize = from;
    while a < to && white_space(text[a])
        invariant
            from <= a <= to <= text@.len(),
            trim_start(whole) == trim_start(text@.subrange(a as int, to as int)),
        decreases to - a,
    {
        proof {
            let s = text@.subrange(a as int, to as int);
            assert(s[0] == text@[a as int]);
            assert(s.skip(1) == text@.subrange(a + 1, to as int));
        }
        a += 1;
    }
    proof {
        let s = text@.subrange(a as int, to as int);
        if a < to {
            assert(s[0] == text@[a as int]);
        }
        assert(trim_start(whole) == s);
    }
    let mut b: usize = to;
    while b > a && white_space(text[b - 1])
        invariant
            from <= a <= b <= to <= text@.len(),
            trim(whole) == trim_end(text@.subrange(a as int, b as int)),
        decreases b,
    {
        proof {
            let s = text@.subrange(a as int, b as int);
            assert(s.last() == text@[b - 1]);
            assert(s.drop_last() == text@.subrange(a as int, b - 1));
        }
        b -= 1;
    }
    proof {
        let s = text@.subrange(a as int, b as int);
        if b > a {
            assert(s.last() == text@[b - 1]);
        }
    }
    (a, b)
}

/// Whether `text` holds `part` at `at`.
pub fn starts_at(text: &Vec<char>, at: usize, part: &Vec<char>) -> (r: bool)
    requires
        at <= text@.len(),
    ensures
        r == part@.is_prefix_of(text@.skip(at as int)),
{
    let len: usize = text.len();
    if part.len() > len - at {
        return false;
    }
    let mut i: usize = 0;
    while i < part.len()
        invariant
            len == text@.len(),
            at + part@.len() <= len,
            i <= part@.len(),
            forall|j: int| 0 <= j < i ==> part@[j] == text@[at + j],
        decreases part@.len() - i,
    {
        if part[i] != text[at + i] {
            assert(text@.skip(at as int)[i as int] == text@[at + i]);
            return false;
        }
        i += 1;
    }
    assert(part@ == text@.skip(at as int).take(part@.len() as int));
    true
}

/// The digit character of `d`.
pub open spec fn digit_char(d: nat) -> char
    recommends
        d < 16,
{
    if d < 10 {
        (('0' as nat) + d) as char
    } else {
        (('a' as nat) + (d - 10) as nat) as char
    }
}

/// `n` in decimal, without leading zeros.
pub open spec fn decimal(n: nat) -> Seq<char>
    decreases n,
{
    if n < 10 {
        seq![digit_char(n)]
    } else {
        decimal(n / 10).push(digit_char(n % 10))
    }
}

/// `n` in decimal, with a minus sign in front where it is negative.
pub open spec fn signed_decimal(n: int) -> Seq<char> {
    if n < 0 {
        seq!['-'] + decimal((-n) as nat)
    } else {
        decimal(n as nat)
    }
}

/// Every character of a number in hexadecimal is a digit or a letter.
pub proof fn lemma_hex_digits(n: nat, width: nat)
    ensures
        forall|i: int|
            0 <= i < hex(n, width).len() ==> '0' <= #[trigger] hex(n, width)[i] <= '9' || 'a' <= hex(
                n,
                width,
            )[i] <= 'f',
    decreases width,
{
    if width > 0 {
        lemma_hex_digits(n / 16, (width - 1) as nat);
        assert forall|i: int| 0 <= i < hex(n, width).len() implies '0' <= #[trigger] hex(
            n,
            width,
        )[i] <= '9' || 'a' <= hex(n, width)[i] <= 'f' by {
            if i < hex(n, width).len() - 1 {
                assert(hex(n, width)[i] == hex(n / 16, (width - 1) as nat)[i]);
            }
        }
    }
}

/// The last `width` hexadecimal digits of `n`, in lower case.
pub open spec fn hex(n: nat, width: nat) -> Seq<char>
    decreases width,
{
    if width == 0 {
        Seq::empty()
    } else {
        hex(n / 16, (width - 1) as nat).push(digit_char(n % 16))
    }
}

/// The digit character of `d`.
fn digit(d: u8) -> (c: char)
    requires
        d < 16,
    ensures
        c == digit_char(d as nat),
{
    if d < 10 {
        (48u8 + d) as char
    } else {
        (87u8 + d) as char
    }
}

/// `String::push` puts the character behind the text it holds.
pub assume_specification[ String::push ](s: &mut String, c: char)
    ensures
        final(s)@ == old(s)@.push(c),
;

/// Append `n` in decimal.
pub fn push_decimal(out: &mut String, n: u64)
    ensures
        final(out)@ == old(out)@ + decimal(n as nat),
    decreases n,
{
    if n >= 10 {
        push_decimal(out, n / 10);
    }
    out.push(digit((n % 10) as u8));
}

/// Append `n` in decimal, signed.
pub fn push_signed(out: &mut String, n: i32)
    ensures
        final(out)@ == old(out)@ + signed_decimal(n as int),
{
    if n < 0 {
        out.push('-');
        push_decimal(out, (-(n as i64)) as u64);
        assert(final(out)@ == old(out)@ + signed_decimal(n as int));
    } else {
        push_decimal(out, n as u64);
    }
}

/// Append the last `width` hexadecimal digits of `n`.
pub fn push_hex(out: &mut String, n: u64, width: u8)
    ensures
        final(out)@ == old(out)@ + hex(n as nat, width as nat),
    decreases width,
{
    if width > 0 {
        push_hex(out, n / 16, width - 1);
        out.push(digit((n % 16) as u8));
    }
}

/// Whether every character of `s` is a decimal digit.
pub open spec fn all_digits(s: Seq<char>) -> bool {
    forall|i: int| 0 <= i < s.len() ==> '0' <= #[trigger] s[i] <= '9'
}

/// The number that the digits `s` write.
pub open spec fn digits_value(s: Seq<char>) -> nat
    decreases s.len(),
{
    if s.len() == 0 {
        0
    } else {
        digits_value(s.drop_last()) * 10 + (s.last() as nat - '0' as nat) as nat
    }
}

/// Every character of a number in decimal is a digit, and the digits write that number.
pub proof fn lemma_decimal(n: nat)
    ensures
        all_digits(decimal(n)),
        digits_value(decimal(n)) == n,
        decimal(n).len() > 0,
    decreases n,
{
    if n < 10 {
        assert(decimal(n).drop_last() =~= Seq::<char>::empty());
        assert(digits_value(decimal(n).drop_last()) == 0);
    } else {
        lemma_decimal(n / 10);
        assert(decimal(n).drop_last() =~= decimal(n / 10));
    }
}

/// The number that the hexadecimal digits of `n` write, in `width` of them: `n` without what is
/// cut off.
pub open spec fn hex_kept(n: nat, width: nat) -> nat
    decreases width,
{
    if width == 0 {
        0
    } else {
        16 * hex_kept(n / 16, (width - 1) as nat) + n % 16
    }
}

/// The same digits write the same number.
pub proof fn lemma_hex_tells_apart(a: nat, b: nat, width: nat)
    requires
        hex(a, width) == hex(b, width),
    ensures
        hex_kept(a, width) == hex_kept(b, width),
    decreases width,
{
    if width > 0 {
        let rest = (width - 1) as nat;
        assert(hex(a, width).last() == digit_char(a % 16));
        assert(hex(b, width).last() == digit_char(b % 16));
        assert(hex(a, width).drop_last() =~= hex(a / 16, rest));
        assert(hex(b, width).drop_last() =~= hex(b / 16, rest));
        lemma_hex_tells_apart(a / 16, b / 16, rest);
    }
}

/// Sixteen digits hold every `u64` whole.
pub proof fn lemma_hex_holds_u64(n: u64)
    ensures
        hex_kept(n as nat, 16) == n,
{
    reveal_with_fuel(hex_kept, 17);
}

/// The number `s` writes, as `i32`'s `FromStr` reads it: an optional sign, then digits and nothing
/// else, within range.
pub open spec fn parse_i32_spec(s: Seq<char>) -> Option<i32> {
    let signed = s.len() > 0 && (s[0] == '-' || s[0] == '+');
    let body = if signed {
        s.skip(1)
    } else {
        s
    };
    let value = if signed && s[0] == '-' {
        -(digits_value(body) as int)
    } else {
        digits_value(body) as int
    };
    if body.len() > 0 && all_digits(body) && i32::MIN <= value <= i32::MAX {
        Some(value as i32)
    } else {
        None
    }
}

proof fn lemma_digits_grow(s: Seq<char>, n: int)
    requires
        all_digits(s),
        0 <= n <= s.len(),
    ensures
        digits_value(s.take(n)) <= digits_value(s),
    decreases s.len() - n,
{
    if n == s.len() {
        assert(s.take(n) == s);
    } else {
        lemma_digits_grow(s, n + 1);
        assert(s.take(n + 1).drop_last() == s.take(n));
        assert(s.take(n + 1).last() == s[n]);
    }
}

/// The number `text[from..to]` writes. See [`parse_i32_spec`].
pub fn parse_i32(text: &Vec<char>, from: usize, to: usize) -> (r: Option<i32>)
    requires
        from <= to <= text@.len(),
    ensures
        r == parse_i32_spec(text@.subrange(from as int, to as int)),
{
    let ghost s = text@.subrange(from as int, to as int);
    let signed = from < to && (text[from] == '-' || text[from] == '+');
    let negative = signed && text[from] == '-';
    let start: usize = if signed { from + 1 } else { from };
    let ghost body = text@.subrange(start as int, to as int);
    proof {
        if from < to {
            assert(s[0] == text@[from as int]);
        }
        if signed {
            assert(s.skip(1) == body);
        } else {
            assert(s == body);
        }
    }
    if start == to {
        return None;
    }
    let mut value: i64 = 0;
    let mut i: usize = start;
    while i < to
        invariant
            start <= i <= to <= text@.len(),
            body == text@.subrange(start as int, to as int),
            all_digits(body.take(i - start)),
            value == digits_value(body.take(i - start)),
            0 <= value <= 0x8000_0000,
            s == text@.subrange(from as int, to as int),
            s.len() > 0,
            signed == (s[0] == '-' || s[0] == '+'),
            body == (if signed { s.skip(1) } else { s }),
        decreases to - i,
    {
        let c = text[i];
        assert(body[i - start] == c);
        if c < '0' || c > '9' {
            return None;
        }
        value = value * 10 + ((c as u32) - ('0' as u32)) as i64;
        proof {
            let grown = body.take(i - start + 1);
            assert(grown.drop_last() == body.take(i - start));
            assert(grown.last() == c);
            assert forall|j: int| 0 <= j < grown.len() implies '0' <= #[trigger] grown[j] <= '9' by {
                if j < i - start {
                    assert(grown[j] == body.take(i - start)[j]);
                }
            }
        }
        i += 1;
        if value > 0x8000_0000 {
            proof {
                if all_digits(body) {
                    lemma_digits_grow(body, i - start);
                }
            }
            return None;
        }
    }
    assert(body.take(i - start) == body);
    let number: i64 = if negative { -value } else { value };
    if number > 0x7fff_ffff {
        None
    } else {
        Some(number as i32)
    }
}

/// The white space, by its code points: the controls from tab to carriage return, the space, and the
/// spaces and separators beyond ASCII.
pub proof fn law_what_is_white_space(c: char)
    ensures
        is_white_space(c) <==> {
            let code = c as u32;
            ||| 0x9 <= code <= 0xd
            ||| code == 0x20
            ||| code == 0x85
            ||| code == 0xa0
            ||| code == 0x1680
            ||| 0x2000 <= code <= 0x200a
            ||| code == 0x2028
            ||| code == 0x2029
            ||| code == 0x202f
            ||| code == 0x205f
            ||| code == 0x3000
        },
{
}

/// `ls` written out, each line ended by a line feed, with a carriage return in front where `crlf`.
pub open spec fn written_out(ls: Seq<Seq<char>>, crlf: bool) -> Seq<char>
    decreases ls.len(),
{
    if ls.len() == 0 {
        Seq::empty()
    } else {
        ls[0] + (if crlf {
            seq!['\r', '\n']
        } else {
            seq!['\n']
        }) + written_out(ls.skip(1), crlf)
    }
}

/// Whether `l` can be a line: no line feed is in it, and no carriage return ends it.
pub open spec fn is_line(l: Seq<char>) -> bool {
    !l.contains('\n') && (l.len() > 0 ==> l.last() != '\r')
}

/// The lines that were written out are the lines that are read, all of them, in order, without their
/// endings, whichever of the two endings it was.
pub proof fn law_lines_are_read_back(ls: Seq<Seq<char>>, crlf: bool)
    requires
        forall|i: int| 0 <= i < ls.len() ==> is_line(#[trigger] ls[i]),
    ensures
        lines(written_out(ls, crlf)) == ls,
    decreases ls.len(),
{
    let s = written_out(ls, crlf);
    if ls.len() == 0 {
        assert(s.len() == 0);
        assert(ls =~= Seq::<Seq<char>>::empty());
    } else {
        let line = ls[0];
        let ended = if crlf {
            line + seq!['\r']
        } else {
            line
        };
        let rest = written_out(ls.skip(1), crlf);
        assert(s =~= ended + seq!['\n'] + rest);
        assert(is_line(line));
        assert forall|i: int| 0 <= i < ended.len() implies s[i] != '\n' by {
            assert(s[i] == ended[i]);
            if i < line.len() {
                assert(line.contains(line[i]));
            }
        }
        assert(s[ended.len() as int] == '\n');
        lemma_first_index_is(s, '\n', ended.len() as int);
        assert(s.take(ended.len() as int) =~= ended);
        assert(s.skip(ended.len() + 1int) =~= rest);
        if crlf {
            assert(ended.drop_last() =~= line);
        }
        assert(line_body(ended) == line);
        assert forall|i: int| 0 <= i < ls.skip(1).len() implies is_line(#[trigger] ls.skip(1)[i]) by {
            assert(is_line(ls[i + 1]));
        }
        law_lines_are_read_back(ls.skip(1), crlf);
        assert(seq![line] + ls.skip(1) =~= ls);
    }
}

/// The last line's ending may be missing: with it or without it, the lines are the same. Only a
/// carriage return that no line feed follows stays part of its line.
pub proof fn law_the_last_ending_may_be_missing(s: Seq<char>)
    requires
        s.len() > 0,
        s.last() != '\n',
    ensures
        s.last() != '\r' ==> lines(s + seq!['\n']) == lines(s),
        lines(s).len() > 0,
        !s.contains('\n') ==> lines(s) == seq![s],
    decreases s.len(),
{
    let end = first_index(s, '\n');
    lemma_first_index(s, '\n');
    let more = s + seq!['\n'];
    if end == s.len() {
        assert forall|i: int| 0 <= i < s.len() implies more[i] != '\n' by {
            assert(more[i] == s[i]);
        }
        lemma_first_index_is(more, '\n', s.len() as int);
        assert(more.take(s.len() as int) =~= s);
        assert(more.skip(s.len() + 1int) =~= Seq::<char>::empty());
        assert(lines(Seq::<char>::empty()).len() == 0);
        assert(seq![s] + Seq::<Seq<char>>::empty() =~= seq![s]);
        assert(lines(more) == seq![line_body(s)] + lines(Seq::<char>::empty()));
        assert(lines(Seq::<char>::empty()) =~= Seq::<Seq<char>>::empty());
    } else {
        assert(s.contains(s[end]));
        let rest = s.skip(end + 1);
        assert(end + 1 < s.len());
        assert(rest.last() == s.last());
        law_the_last_ending_may_be_missing(rest);
        assert forall|i: int| 0 <= i < end implies more[i] != '\n' by {
            assert(more[i] == s[i]);
        }
        lemma_first_index_is(more, '\n', end);
        assert(more.take(end) =~= s.take(end));
        assert(more.skip(end + 1) =~= rest + seq!['\n']);
    }
}

/// Whether every character of `s` is white space.
pub open spec fn all_white(s: Seq<char>) -> bool {
    forall|i: int| 0 <= i < s.len() ==> is_white_space(#[trigger] s[i])
}

/// What trimming keeps is one stretch of the text: nothing but white space is around it, and it neither
/// begins nor ends with any. White space alone leaves nothing.
pub proof fn law_trimming_takes_white_space_off_both_ends(s: Seq<char>) -> (r: (int, int))
    ensures
        0 <= r.0 <= r.1 <= s.len(),
        trim(s) == s.subrange(r.0, r.1),
        all_white(s.take(r.0)),
        all_white(s.skip(r.1)),
        trim(s).len() > 0 ==> !is_white_space(trim(s)[0]) && !is_white_space(trim(s).last()),
        all_white(s) <==> trim(s).len() == 0,
{
    let from = lemma_trim_start(s);
    let kept = trim_start(s);
    let to = lemma_trim_end(kept);
    assert(kept.take(to) =~= s.subrange(from, from + to));
    assert forall|i: int| 0 <= i < s.skip(from + to).len() implies is_white_space(
        #[trigger] s.skip(from + to)[i],
    ) by {
        assert(s.skip(from + to)[i] == kept.skip(to)[i]);
    }
    if trim(s).len() > 0 {
        assert(trim(s)[0] == kept[0]);
        assert(trim(s)[0] == s[from]);
    } else {
        assert forall|i: int| 0 <= i < s.len() implies is_white_space(#[trigger] s[i]) by {
            if i < from {
                assert(s.take(from)[i] == s[i]);
            } else {
                assert(s.skip(from + to)[i - from - to] == s[i]);
            }
        }
    }
    (from, from + to)
}

/// Trimming at the front takes off white space alone, and all of it.
pub proof fn lemma_trim_start(s: Seq<char>) -> (k: int)
    ensures
        0 <= k <= s.len(),
        trim_start(s) == s.skip(k),
        all_white(s.take(k)),
        k < s.len() ==> !is_white_space(s[k]),
    decreases s.len(),
{
    if s.len() > 0 && is_white_space(s[0]) {
        let k = lemma_trim_start(s.skip(1));
        assert(s.skip(1).skip(k) =~= s.skip(k + 1));
        assert forall|i: int| 0 <= i < k + 1 implies is_white_space(#[trigger] s.take(k + 1)[i]) by {
            if i > 0 {
                assert(s.take(k + 1)[i] == s.skip(1).take(k)[i - 1]);
            }
        }
        k + 1
    } else {
        assert(s.skip(0) =~= s);
        0
    }
}

/// Trimming at the end takes off white space alone, and all of it.
pub proof fn lemma_trim_end(s: Seq<char>) -> (k: int)
    ensures
        0 <= k <= s.len(),
        trim_end(s) == s.take(k),
        all_white(s.skip(k)),
        k > 0 ==> !is_white_space(s[k - 1]),
    decreases s.len(),
{
    let n = s.len() as int;
    if n > 0 && is_white_space(s.last()) {
        let rest = s.drop_last();
        let k = lemma_trim_end(rest);
        assert(rest.take(k) =~= s.take(k));
        assert forall|i: int| 0 <= i < n - k implies is_white_space(#[trigger] s.skip(k)[i]) by {
            if i < n - k - 1 {
                assert(s.skip(k)[i] == rest.skip(k)[i]);
            }
        }
        k
    } else {
        assert(s.take(n) =~= s);
        n
    }
}

/// A number is written digit by digit, the highest first: ten times a number and one more digit is that
/// number and the digit behind it. A digit is written as itself, and so no zero leads but that of zero.
pub proof fn law_a_number_is_written_digit_by_digit(n: nat, d: nat)
    requires
        d < 10,
    ensures
        decimal(d) == seq![('0' as nat + d) as char],
        n > 0 ==> decimal(10 * n + d) == decimal(n).push(('0' as nat + d) as char),
        n > 0 ==> decimal(n)[0] != '0',
        n > 0 ==> signed_decimal(-(n as int)) == seq!['-'] + signed_decimal(n as int),
        signed_decimal(n as int) == decimal(n),
    decreases n,
{
    if n > 0 {
        assert((10 * n + d) / 10 == n && (10 * n + d) % 10 == d);
        if n >= 10 {
            law_a_number_is_written_digit_by_digit(n / 10, d);
            lemma_decimal(n / 10);
            assert(decimal(n)[0] == decimal(n / 10)[0]);
        }
    }
}

/// Sixteen times a number and one more hexadecimal digit is written with that digit behind it; the
/// digits past nine are the letters from `a`. A number takes as many digits as it was given.
pub proof fn law_a_number_in_hexadecimal(n: nat, d: nat, width: nat)
    requires
        d < 16,
    ensures
        hex(n, width).len() == width,
        hex(16 * n + d, width + 1) == hex(n, width).push(
            if d < 10 {
                (0x30 + d) as char
            } else {
                (0x57 + d) as char
            },
        ),
    decreases width,
{
    assert((16 * n + d) / 16 == n && (16 * n + d) % 16 == d);
    if width > 0 {
        law_a_number_in_hexadecimal(n / 16, d, (width - 1) as nat);
    }
}

/// Every number of the type is read back as it was written, also with a plus in front; a number beyond
/// the type is not read at all.
pub proof fn law_a_written_number_is_read_back(n: int)
    ensures
        i32::MIN <= n <= i32::MAX ==> parse_i32_spec(signed_decimal(n)) == Some(n as i32),
        0 <= n <= i32::MAX ==> parse_i32_spec(seq!['+'] + decimal(n as nat)) == Some(n as i32),
        n < i32::MIN || n > i32::MAX ==> parse_i32_spec(signed_decimal(n)) is None,
{
    if n >= 0 {
        let digits = decimal(n as nat);
        lemma_decimal(n as nat);
        assert('0' <= digits[0] <= '9');
        assert((seq!['+'] + digits).skip(1) =~= digits);
    } else {
        let digits = decimal((-n) as nat);
        lemma_decimal((-n) as nat);
        assert((seq!['-'] + digits).skip(1) =~= digits);
    }
}

/// Only a number is read: one sign at most, in front, and then digits, at least one, and nothing else.
/// A minus makes it no more than zero, and without one it is no less.
pub proof fn law_only_a_number_is_read(s: Seq<char>)
    ensures
        parse_i32_spec(s) matches Some(value) ==> {
            &&& s.len() > 0
            &&& '0' <= s.last() <= '9'
            &&& forall|i: int| 1 <= i < s.len() ==> '0' <= #[trigger] s[i] <= '9'
            &&& '0' <= s[0] <= '9' || s[0] == '-' || s[0] == '+'
            &&& if s[0] == '-' {
                value <= 0
            } else {
                value >= 0
            }
        },
{
    if parse_i32_spec(s) is Some {
        let signed = s[0] == '-' || s[0] == '+';
        let body = if signed {
            s.skip(1)
        } else {
            s
        };
        assert(all_digits(body));
        assert forall|i: int| 1 <= i < s.len() implies '0' <= #[trigger] s[i] <= '9' by {
            if signed {
                assert(body[i - 1] == s[i]);
            } else {
                assert(body[i] == s[i]);
            }
        }
        if signed {
            assert(body[body.len() - 1] == s.last());
        } else {
            assert(body[0] == s[0]);
            assert(body[body.len() - 1] == s.last());
        }
    }
}

/// Whether `s` holds `part`, between `before` and `after`.
pub open spec fn holds_between(s: Seq<char>, before: Seq<char>, part: Seq<char>, after: Seq<char>) -> bool {
    s == before + part + after
}

/// Whether `s` holds `part` somewhere.
pub open spec fn mentions(s: Seq<char>, part: Seq<char>) -> bool {
    exists|before: Seq<char>, after: Seq<char>| #[trigger] holds_between(s, before, part, after)
}

/// What stands between two texts is mentioned by the whole.
pub proof fn lemma_mentions(s: Seq<char>, before: Seq<char>, part: Seq<char>, after: Seq<char>)
    requires
        s == before + part + after,
    ensures
        mentions(s, part),
{
    assert(holds_between(s, before, part, after));
}

/// What a text ends in is mentioned by it.
pub proof fn lemma_mentions_end(head: Seq<char>, part: Seq<char>)
    ensures
        mentions(head + part, part),
{
    assert(head + part =~= head + part + Seq::<char>::empty());
    lemma_mentions(head + part, head, part, Seq::<char>::empty());
}

/// Two parts of a text, the second at its end, are both mentioned by it.
pub proof fn lemma_mentions_both(head: Seq<char>, first: Seq<char>, between: Seq<char>, second: Seq<char>)
    ensures
        mentions(head + first + between + second, first),
        mentions(head + first + between + second, second),
{
    let s = head + first + between + second;
    assert(s =~= head + first + (between + second));
    lemma_mentions(s, head, first, between + second);
    lemma_mentions_end(head + first + between, second);
}

} // verus!
