//! Reading and writing of short texts.
use vstd::prelude::*;
use vstd::string::{StrSliceExecFns, StringExecFns};

verus! {

/// The characters with the Unicode property `White_Space`.
pub open spec fn white(c: char) -> bool {
    ||| '\u{9}' <= c <= '\u{d}'
    ||| c == '\u{20}'
    ||| c == '\u{85}'
    ||| c == '\u{a0}'
    ||| c == '\u{1680}'
    ||| '\u{2000}' <= c <= '\u{200a}'
    ||| c == '\u{2028}'
    ||| c == '\u{2029}'
    ||| c == '\u{202f}'
    ||| c == '\u{205f}'
    ||| c == '\u{3000}'
}

/// The text without the white space it starts with.
pub open spec fn trimmed_start(s: Seq<char>) -> Seq<char>
    decreases s.len(),
{
    if s.len() > 0 && white(s.first()) {
        trimmed_start(s.drop_first())
    } else {
        s
    }
}

/// The text without the white space it ends with.
pub open spec fn trimmed_end(s: Seq<char>) -> Seq<char>
    decreases s.len(),
{
    if s.len() > 0 && white(s.last()) {
        trimmed_end(s.drop_last())
    } else {
        s
    }
}

/// The text without the white space around it.
pub open spec fn trimmed(s: Seq<char>) -> Seq<char> {
    trimmed_end(trimmed_start(s))
}

/// What stands before and after the first `mark` of the text, if it has one.
pub open spec fn split_first(s: Seq<char>, mark: char) -> Option<(Seq<char>, Seq<char>)>
    decreases s.len(),
{
    if s.len() == 0 {
        None
    } else if s.first() == mark {
        Some((Seq::empty(), s.drop_first()))
    } else {
        match split_first(s.drop_first(), mark) {
            None => None,
            Some((before, after)) => Some((seq![s.first()] + before, after)),
        }
    }
}

/// Whether `c` is one of `0` to `9`.
pub open spec fn digit(c: char) -> bool {
    '0' <= c <= '9'
}

/// The number that a row of decimal digits writes.
pub open spec fn digits_value(s: Seq<char>) -> nat
    decreases s.len(),
{
    if s.len() == 0 {
        0
    } else {
        10 * digits_value(s.drop_last()) + (s.last() as nat - '0' as nat) as nat
    }
}

/// The digits of a written number: what follows the plus sign, where there is one.
pub open spec fn digits_of(s: Seq<char>) -> Seq<char> {
    if s.len() > 0 && s[0] == '+' {
        s.skip(1)
    } else {
        s
    }
}

/// Whether the text is one or more decimal digits, with at most a plus sign before them, and
/// writes a number of 32 bits.
pub open spec fn writes_u32(s: Seq<char>) -> bool {
    &&& digits_of(s).len() > 0
    &&& forall|i: int| 0 <= i < digits_of(s).len() ==> digit(#[trigger] digits_of(s)[i])
    &&& digits_value(digits_of(s)) <= u32::MAX
}

/// The number of 32 bits that the text writes, if it writes one.
pub open spec fn parsed_u32(s: Seq<char>) -> Option<u32> {
    if writes_u32(s) {
        Some(digits_value(digits_of(s)) as u32)
    } else {
        None
    }
}

/// The digit that writes a number under ten.
pub open spec fn digit_of(n: nat) -> char {
    ('0' as nat + n) as char
}

/// A natural number in decimal, without leading zeros.
pub open spec fn decimal(n: nat) -> Seq<char>
    decreases n,
{
    if n < 10 {
        seq![digit_of(n)]
    } else {
        decimal(n / 10).push(digit_of(n % 10))
    }
}

/// A whole number in decimal, with a minus sign where it is negative.
pub open spec fn signed_decimal(n: int) -> Seq<char> {
    if n < 0 {
        seq!['-'] + decimal((-n) as nat)
    } else {
        decimal(n as nat)
    }
}

/// Whether `c` is white space.
fn is_white(c: char) -> (r: bool)
    ensures
        r == white(c),
{
    ('\u{9}' <= c && c <= '\u{d}') || c == '\u{20}' || c == '\u{85}' || c == '\u{a0}' || c
        == '\u{1680}' || ('\u{2000}' <= c && c <= '\u{200a}') || c == '\u{2028}' || c == '\u{2029}'
        || c == '\u{202f}' || c == '\u{205f}' || c == '\u{3000}'
}

/// The characters of a text.
pub(crate) fn chars_of(s: &str) -> (r: Vec<char>)
    ensures
        r@ == s@,
{
    let mut r: Vec<char> = Vec::new();
    for c in iter: s.chars()
        invariant
            r@ == s@.take(iter.index() as int),
            iter.seq() == s@,
    {
        r.push(c);
    }
    r
}

/// Without the mark there is no split.
proof fn lemma_split_none(s: Seq<char>, mark: char)
    requires
        forall|i: int| 0 <= i < s.len() ==> s[i] != mark,
    ensures
        split_first(s, mark) is None,
    decreases s.len(),
{
    if s.len() > 0 {
        assert(s[0] != mark);
        assert forall|i: int| 0 <= i < s.drop_first().len() implies s.drop_first()[i] != mark by {
            assert(s[i + 1] != mark);
        }
        lemma_split_none(s.drop_first(), mark);
    }
}

/// The split is at the first mark.
proof fn lemma_split_at(s: Seq<char>, mark: char, at: int)
    requires
        0 <= at < s.len(),
        s[at] == mark,
        forall|i: int| 0 <= i < at ==> s[i] != mark,
    ensures
        split_first(s, mark) == Some((s.take(at), s.skip(at + 1))),
    decreases s.len(),
{
    if at == 0 {
        assert(s.take(0) =~= Seq::empty());
        assert(s.skip(1) =~= s.drop_first());
    } else {
        let rest = s.drop_first();
        assert(s[0] != mark);
        assert forall|i: int| 0 <= i < at - 1 implies rest[i] != mark by {
            assert(s[i + 1] != mark);
        }
        lemma_split_at(rest, mark, at - 1);
        assert(seq![s.first()] + rest.take(at - 1) =~= s.take(at));
        assert(rest.skip(at) =~= s.skip(at + 1));
    }
}

/// A text without the white space around it.
pub fn trim(s: &str) -> (r: &str)
    ensures
        r@ == trimmed(s@),
{
    let chars = chars_of(s);
    let n: usize = chars.len();
    let mut i: usize = 0;
    proof {
        assert(s@.skip(0) =~= s@);
    }
    while i < n && is_white(chars[i])
        invariant
            i <= n,
            n == chars@.len(),
            chars@ == s@,
            trimmed_start(s@) == trimmed_start(s@.skip(i as int)),
        decreases n - i,
    {
        proof {
            assert(s@.skip(i as int).drop_first() =~= s@.skip(i + 1));
        }
        i = i + 1;
    }
    let mut j: usize = n;
    proof {
        assert(s@.subrange(i as int, j as int) =~= s@.skip(i as int));
    }
    while i < j && is_white(chars[j - 1])
        invariant
            i <= j <= n,
            n == chars@.len(),
            chars@ == s@,
            trimmed(s@) == trimmed_end(s@.subrange(i as int, j as int)),
        decreases j,
    {
        proof {
            assert(s@.subrange(i as int, j as int).drop_last() =~= s@.subrange(
                i as int,
                j - 1,
            ));
        }
        j = j - 1;
    }
    s.substring_char(i, j)
}

/// What stands before and after the first `mark` of a text.
pub fn split_once(s: &str, mark: char) -> (r: Option<(&str, &str)>)
    ensures
        match r {
            None => split_first(s@, mark) is None,
            Some((before, after)) => split_first(s@, mark) == Some((before@, after@)),
        },
{
    let chars = chars_of(s);
    let n: usize = chars.len();
    let mut i: usize = 0;
    while i < n
        invariant
            i <= n,
            n == chars@.len(),
            chars@ == s@,
            forall|k: int| 0 <= k < i ==> s@[k] != mark,
        decreases n - i,
    {
        if chars[i] == mark {
            let before = s.substring_char(0, i);
            let after = s.substring_char(i + 1, n);
            proof {
                lemma_split_at(s@, mark, i as int);
                assert(before@ =~= s@.take(i as int));
                assert(after@ =~= s@.skip(i + 1));
            }
            return Some((before, after));
        }
        i = i + 1;
    }
    proof {
        lemma_split_none(s@, mark);
    }
    None
}

/// The number that a decimal digit writes.
fn digit_value(c: char) -> (r: u64)
    requires
        digit(c),
    ensures
        r == c as nat - '0' as nat,
{
    (c as u64) - ('0' as u64)
}

/// A longer row of digits writes no smaller number.
proof fn lemma_digits_grow(s: Seq<char>, i: int)
    requires
        0 <= i <= s.len(),
    ensures
        digits_value(s.take(i)) <= digits_value(s),
    decreases s.len(),
{
    if i < s.len() {
        lemma_digits_grow(s.drop_last(), i);
        assert(s.drop_last().take(i) =~= s.take(i));
    } else {
        assert(s.take(i) =~= s);
    }
}

/// Reads a number of 32 bits.
pub fn parse_u32(s: &str) -> (r: Option<u32>)
    ensures
        r == parsed_u32(s@),
{
    let chars = chars_of(s);
    let n: usize = chars.len();
    let start: usize = if n > 0 && chars[0] == '+' {
        1
    } else {
        0
    };
    let ghost digits = digits_of(s@);
    if start == n {
        return None;
    }
    let mut value: u64 = 0;
    let mut i: usize = start;
    while i < n
        invariant
            start <= i <= n,
            n == chars@.len(),
            chars@ == s@,
            digits == digits_of(s@),
            digits == s@.skip(start as int),
            start < n,
            forall|k: int| 0 <= k < i - start ==> digit(#[trigger] digits[k]),
            value == digits_value(digits.take(i - start)),
            value <= u32::MAX,
        decreases n - i,
    {
        let c = chars[i];
        proof {
            assert(digits[i - start] == c);
        }
        if !('0' <= c && c <= '9') {
            return None;
        }
        let next: u64 = 10 * value + digit_value(c);
        proof {
            assert(digits.take(i - start + 1).drop_last() =~= digits.take(i - start));
            lemma_digits_grow(digits, i - start + 1);
        }
        if next > 0xFFFF_FFFF {
            return None;
        }
        value = next;
        i = i + 1;
    }
    proof {
        assert(digits.take(n - start) =~= digits);
    }
    Some(value as u32)
}

/// The digit that writes a number under ten.
fn digit_text(n: u32) -> (r: &'static str)
    requires
        n < 10,
    ensures
        r@ == seq![digit_of(n as nat)],
{
    let r = match n {
        0 => "0",
        1 => "1",
        2 => "2",
        3 => "3",
        4 => "4",
        5 => "5",
        6 => "6",
        7 => "7",
        8 => "8",
        _ => "9",
    };
    proof {
        reveal_strlit("0");
        reveal_strlit("1");
        reveal_strlit("2");
        reveal_strlit("3");
        reveal_strlit("4");
        reveal_strlit("5");
        reveal_strlit("6");
        reveal_strlit("7");
        reveal_strlit("8");
        reveal_strlit("9");
    }
    r
}

/// Appends a natural number in decimal.
fn append_decimal(out: &mut String, n: u32)
    ensures
        final(out)@ == old(out)@ + decimal(n as nat),
    decreases n,
{
    if n >= 10 {
        append_decimal(out, n / 10);
    }
    out.append(digit_text(n % 10));
    proof {
        assert(old(out)@ + decimal(n as nat) =~= out@);
    }
}

/// Appends a whole number in decimal.
pub fn append_int(out: &mut String, n: i32)
    ensures
        final(out)@ == old(out)@ + signed_decimal(n as int),
{
    if n < 0 {
        proof {
            reveal_strlit("-");
        }
        out.append("-");
        let size: u32 = (-(n as i64)) as u32;
        append_decimal(out, size);
        proof {
            assert(out@ =~= old(out)@ + signed_decimal(n as int));
        }
    } else {
        append_decimal(out, n as u32);
    }
}

/// A text is split where two others were joined, if the first of them lacks the mark.
pub proof fn lemma_split_undoes_join(before: Seq<char>, mark: char, after: Seq<char>)
    requires
        !before.contains(mark),
    ensures
        split_first(before + seq![mark] + after, mark) == Some((before, after)),
{
    let s = before + seq![mark] + after;
    let at = before.len() as int;
    assert forall|i: int| 0 <= i < at implies s[i] != mark by {
        assert(before.contains(before[i]));
    }
    lemma_split_at(s, mark, at);
    assert(s.take(at) =~= before);
    assert(s.skip(at + 1) =~= after);
}

/// The parts of a split make up the text, the first of them lacks the mark, and only a text without
/// the mark is not split.
pub proof fn lemma_split_parts(s: Seq<char>, mark: char)
    ensures
        match split_first(s, mark) {
            Some((before, after)) => s == before + seq![mark] + after && !before.contains(mark),
            None => !s.contains(mark),
        },
    decreases s.len(),
{
    if s.len() > 0 {
        let rest = s.drop_first();
        lemma_split_parts(rest, mark);
        match split_first(s, mark) {
            Some((before, after)) => {
                if s.first() == mark {
                    assert(s =~= before + seq![mark] + after);
                } else {
                    let inner = before.drop_first();
                    assert(split_first(rest, mark) matches Some((b, _)) && b =~= inner);
                    assert(rest == inner + seq![mark] + after);
                    assert(s =~= seq![s.first()] + rest);
                    assert(s =~= before + seq![mark] + after);
                    if before.contains(mark) {
                        let i = choose|i: int| 0 <= i < before.len() && before[i] == mark;
                        assert(inner[i - 1] == mark);
                    }
                }
            },
            None => {
                if s.contains(mark) {
                    let i = choose|i: int| 0 <= i < s.len() && s[i] == mark;
                    assert(rest[i - 1] == mark);
                }
            },
        }
    }
}

/// What is left at the start once white space is taken from there.
proof fn lemma_trimmed_start(s: Seq<char>)
    ensures
        trimmed_start(s).len() == 0 || !white(trimmed_start(s).first()),
    decreases s.len(),
{
    if s.len() > 0 && white(s.first()) {
        lemma_trimmed_start(s.drop_first());
    }
}

/// What is left at the end once white space is taken from there: a start of the text.
proof fn lemma_trimmed_end(s: Seq<char>)
    ensures
        trimmed_end(s).len() == 0 || !white(trimmed_end(s).last()),
        trimmed_end(s).len() <= s.len(),
        trimmed_end(s) == s.take(trimmed_end(s).len() as int),
    decreases s.len(),
{
    if s.len() > 0 && white(s.last()) {
        let shorter = s.drop_last();
        lemma_trimmed_end(shorter);
        let n = trimmed_end(shorter).len() as int;
        assert(shorter.take(n) =~= s.take(n));
    } else {
        assert(s.take(s.len() as int) =~= s);
    }
}

/// A trimmed text neither starts nor ends with white space, and trimming it again changes nothing.
pub proof fn lemma_trimmed(s: Seq<char>)
    ensures
        trimmed(s).len() > 0 ==> !white(trimmed(s).first()) && !white(trimmed(s).last()),
        trimmed(trimmed(s)) == trimmed(s),
{
    let start = trimmed_start(s);
    lemma_trimmed_start(s);
    lemma_trimmed_end(start);
    if trimmed(s).len() > 0 {
        assert(trimmed(s)[0] == start[0]);
    }
}

/// A text that neither starts nor ends with white space is not changed by trimming.
pub proof fn lemma_untouched_by_trimming(s: Seq<char>)
    requires
        s.len() > 0 ==> !white(s.first()) && !white(s.last()),
    ensures
        trimmed(s) == s,
{
}

/// A number in decimal is one or more digits that write the number.
pub proof fn lemma_decimal_digits(n: nat)
    ensures
        decimal(n).len() > 0,
        forall|i: int| 0 <= i < decimal(n).len() ==> digit(#[trigger] decimal(n)[i]),
        digits_value(decimal(n)) == n,
    decreases n,
{
    if n < 10 {
        assert(decimal(n).drop_last() =~= Seq::empty());
        assert(digits_value(Seq::<char>::empty()) == 0);
    } else {
        lemma_decimal_digits(n / 10);
        assert(decimal(n).drop_last() =~= decimal(n / 10));
    }
}

/// A number of 32 bits reads back as it was written.
pub proof fn lemma_decimal_reads_back(n: u32)
    ensures
        parsed_u32(decimal(n as nat)) == Some(n),
{
    lemma_decimal_digits(n as nat);
    assert(digit(decimal(n as nat)[0]));
}

/// A whole number in decimal holds digits and at most a minus sign.
pub proof fn lemma_signed_decimal_plain(n: int, c: char)
    requires
        !digit(c),
        c != '-',
    ensures
        !signed_decimal(n).contains(c),
{
    let size = if n < 0 {
        (-n) as nat
    } else {
        n as nat
    };
    lemma_decimal_digits(size);
    if signed_decimal(n).contains(c) {
        let i = choose|i: int| 0 <= i < signed_decimal(n).len() && signed_decimal(n)[i] == c;
        if n < 0 {
            assert(i > 0);
            assert(digit(decimal(size)[i - 1]));
        } else {
            assert(digit(decimal(size)[i]));
        }
    }
}

/// White space by code point.
pub proof fn lemma_white_code_points(c: char)
    ensures
        white(c) <==> 9 <= c as u32 <= 13 || c as u32 == 32 || c as u32 == 133 || c as u32 == 160
            || c as u32 == 5760 || 8192 <= c as u32 <= 8202 || c as u32 == 8232 || c as u32 == 8233
            || c as u32 == 8239 || c as u32 == 8287 || c as u32 == 12288,
{
}

/// What is taken from the start of a text is white space.
proof fn lemma_taken_from_start(s: Seq<char>) -> (gone: Seq<char>)
    ensures
        s == gone + trimmed_start(s),
        forall|i: int| 0 <= i < gone.len() ==> white(#[trigger] gone[i]),
    decreases s.len(),
{
    if s.len() > 0 && white(s.first()) {
        let rest = lemma_taken_from_start(s.drop_first());
        let gone = seq![s.first()] + rest;
        assert(s =~= seq![s.first()] + s.drop_first());
        assert(s =~= gone + trimmed_start(s));
        gone
    } else {
        let gone = Seq::<char>::empty();
        assert(s =~= gone + trimmed_start(s));
        gone
    }
}

/// What is taken from the end of a text is white space.
proof fn lemma_taken_from_end(s: Seq<char>) -> (gone: Seq<char>)
    ensures
        s == trimmed_end(s) + gone,
        forall|i: int| 0 <= i < gone.len() ==> white(#[trigger] gone[i]),
    decreases s.len(),
{
    if s.len() > 0 && white(s.last()) {
        let rest = lemma_taken_from_end(s.drop_last());
        let gone = rest.push(s.last());
        assert(s =~= s.drop_last().push(s.last()));
        assert(s =~= trimmed_end(s) + gone);
        gone
    } else {
        let gone = Seq::<char>::empty();
        assert(s =~= trimmed_end(s) + gone);
        gone
    }
}

/// Trimming takes white space from both ends of a text and nothing else: what it takes, given here,
/// and what it leaves make up the text.
pub proof fn lemma_trimming_takes_white(s: Seq<char>) -> (gone: (Seq<char>, Seq<char>))
    ensures
        s == gone.0 + trimmed(s) + gone.1,
        forall|i: int| 0 <= i < gone.0.len() ==> white(#[trigger] gone.0[i]),
        forall|i: int| 0 <= i < gone.1.len() ==> white(#[trigger] gone.1[i]),
{
    let before = lemma_taken_from_start(s);
    let after = lemma_taken_from_end(trimmed_start(s));
    assert(s =~= before + trimmed(s) + after);
    (before, after)
}

/// Numbers are written digit by digit: one under ten by its digit, and every other by what is left
/// without its last digit, followed by that digit.
pub proof fn lemma_decimal_by_digits(n: nat, d: nat)
    requires
        d < 10,
    ensures
        decimal(d).len() == 1,
        decimal(d)[0] as int == 48 + d,
        n > 0 ==> decimal(10 * n + d).len() == decimal(n).len() + 1,
        n > 0 ==> decimal(10 * n + d).drop_last() == decimal(n),
        n > 0 ==> decimal(10 * n + d).last() as int == 48 + d,
{
    if n > 0 {
        assert((10 * n + d) / 10 == n);
        assert((10 * n + d) % 10 == d);
        assert(decimal(10 * n + d).drop_last() =~= decimal(n));
    }
}

/// A negative number is written as its size after a minus sign, and every other without a sign.
pub proof fn lemma_sign_written(n: int)
    ensures
        n >= 0 ==> signed_decimal(n) == decimal(n as nat),
        n < 0 ==> signed_decimal(n)[0] == '-' && signed_decimal(n).drop_first() == decimal(
            (-n) as nat,
        ),
{
    if n < 0 {
        assert(signed_decimal(n).drop_first() =~= decimal((-n) as nat));
    }
}

/// A number is read from its first character: a digit writes itself, also after a plus sign, and
/// nothing, a plus sign alone or anything else writes none.
pub proof fn lemma_first_digit_read(c: char)
    ensures
        parsed_u32(Seq::<char>::empty()) is None,
        48 <= c as u32 <= 57 ==> parsed_u32(seq![c]) == Some((c as u32 - 48) as u32),
        48 <= c as u32 <= 57 ==> parsed_u32(seq!['+', c]) == Some((c as u32 - 48) as u32),
        !(48 <= c as u32 <= 57) ==> parsed_u32(seq![c]) is None,
        !(48 <= c as u32 <= 57) ==> parsed_u32(seq!['+', c]) is None,
{
    assert(digits_of(seq!['+', c]) =~= seq![c]);
    assert(seq![c].drop_last() =~= Seq::<char>::empty());
    assert(digits_value(Seq::<char>::empty()) == 0);
    assert(digits_value(seq![c]) == (c as nat - '0' as nat) as nat);
    if c == '+' {
        assert(digits_of(seq![c]).len() == 0);
    } else {
        assert(digits_of(seq![c]) == seq![c]);
    }
    assert(seq![c][0] == c);
    if 48 <= c as u32 <= 57 {
        assert(writes_u32(seq![c]));
        assert(writes_u32(seq!['+', c]));
    } else {
        assert(!digit(seq![c][0]));
        assert(!digit(digits_of(seq!['+', c])[0]));
        assert(!writes_u32(seq!['+', c]));
        if c != '+' {
            assert(!digit(digits_of(seq![c])[0]));
        }
    }
}

/// A number is read on digit by digit: one digit more writes ten times as much and the digit, none
/// where that needs more than 32 bits; what is no digit spoils the number, and what is spoilt stays
/// so.
pub proof fn lemma_next_digit_read(s: Seq<char>, c: char)
    requires
        s.len() > 0,
        s != seq!['+'],
    ensures
        48 <= c as u32 <= 57 ==> (parsed_u32(s) matches Some(n) ==> parsed_u32(s.push(c)) == (if 10
            * n + (c as u32 - 48) <= 0xFFFF_FFFF {
            Some((10 * n + (c as u32 - 48)) as u32)
        } else {
            None
        })),
        !(48 <= c as u32 <= 57) ==> parsed_u32(s.push(c)) is None,
        parsed_u32(s) is None ==> parsed_u32(s.push(c)) is None,
{
    let digits = digits_of(s);
    let more = digits_of(s.push(c));
    if s[0] == '+' {
        if s.len() == 1 {
            assert(s =~= seq!['+']);
        }
    }
    assert(more =~= digits.push(c));
    assert(digits.len() > 0);
    assert(more.drop_last() =~= digits);
    assert(more.last() == c);
    assert(digits_value(more) == 10 * digits_value(digits) + (c as nat - '0' as nat) as nat);
    if 48 <= c as u32 <= 57 {
        if writes_u32(s) {
            assert forall|i: int| 0 <= i < more.len() implies digit(#[trigger] more[i]) by {
                if i < digits.len() {
                    assert(digit(digits[i]));
                }
            }
        }
        if writes_u32(s.push(c)) {
            assert forall|i: int| 0 <= i < digits.len() implies digit(#[trigger] digits[i]) by {
                assert(digit(more[i]));
            }
        }
    } else {
        assert(!digit(more[more.len() - 1]));
    }
}

} // verus!
