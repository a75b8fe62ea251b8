//! Numbers as text, for the labels that the windows show.

use vstd::prelude::*;
use vstd::string::StrSliceExecFns;
use vstd::string::StringExecFns;

verus! {

/// The character of one hexadecimal digit.
pub open spec fn digit_char(d: int) -> char {
    if d == 0 { '0' } else if d == 1 { '1' } else if d == 2 { '2' } else if d == 3 { '3' }
    else if d == 4 { '4' } else if d == 5 { '5' } else if d == 6 { '6' } else if d == 7 { '7' }
    else if d == 8 { '8' } else if d == 9 { '9' } else if d == 10 { 'A' } else if d == 11 { 'B' }
    else if d == 12 { 'C' } else if d == 13 { 'D' } else if d == 14 { 'E' } else { 'F' }
}

/// The decimal digits of a number, without leading zeros.
pub open spec fn digits(n: nat) -> Seq<char>
    decreases n,
{
    if n < 10 {
        seq![digit_char(n as int)]
    } else {
        digits(n / 10).push(digit_char((n % 10) as int))
    }
}

/// A number in decimal, with a minus sign in front when it is negative.
pub open spec fn decimal(value: int) -> Seq<char> {
    if value < 0 {
        seq!['-'] + digits((-value) as nat)
    } else {
        digits(value as nat)
    }
}

/// A byte as two hexadecimal digits.
pub open spec fn hex_byte(value: int) -> Seq<char> {
    seq![digit_char(value / 16), digit_char(value % 16)]
}

fn digit(d: u8) -> (r: &'static str)
    requires
        d < 16,
    ensures
        r@ == seq![digit_char(d as int)],
{
    proof {
        reveal_strlit("0");
        reveal_strlit("1");
        reveal_strlit("2");
        reveal_strlit("3");
        reveal_strlit("4");
        reveal_strlit("5");
        reveal_strlit("6");
        reveal_strlit("7");
        reveal_strlit("8");
        reveal_strlit("9");
        reveal_strlit("A");
        reveal_strlit("B");
        reveal_strlit("C");
        reveal_strlit("D");
        reveal_strlit("E");
        reveal_strlit("F");
    }
    let r: &'static str = match d {
        0 => "0",
        1 => "1",
        2 => "2",
        3 => "3",
        4 => "4",
        5 => "5",
        6 => "6",
        7 => "7",
        8 => "8",
        9 => "9",
        10 => "A",
        11 => "B",
        12 => "C",
        13 => "D",
        14 => "E",
        _ => "F",
    };
    assert(r@ =~= seq![digit_char(d as int)]);
    r
}

pub(crate) fn push_digits(out: &mut String, n: u64)
    ensures
        final(out)@ == old(out)@ + digits(n as nat),
    decreases n,
{
    if n < 10 {
        out.append(digit(n as u8));
    } else {
        push_digits(out, n / 10);
        out.append(digit((n % 10) as u8));
        assert(out@ =~= old(out)@ + digits(n as nat));
    }
}

pub(crate) fn push_long_digits(out: &mut String, n: u128)
    ensures
        final(out)@ == old(out)@ + digits(n as nat),
    decreases n,
{
    if n < 10 {
        out.append(digit(n as u8));
    } else {
        push_long_digits(out, n / 10);
        out.append(digit((n % 10) as u8));
        assert(out@ =~= old(out)@ + digits(n as nat));
    }
}

/// Put `value` in decimal behind `out`.
pub fn push_decimal(out: &mut String, value: i64)
    ensures
        final(out)@ == old(out)@ + decimal(value as int),
{
    if value < 0 {
        proof {
            reveal_strlit("-");
        }
        out.append("-");
        let n: u64 = if value == i64::MIN {
            0x8000_0000_0000_0000
        } else {
            (-value) as u64
        };
        push_digits(out, n);
        assert("-"@ =~= seq!['-']);
        assert(out@ =~= old(out)@ + decimal(value as int));
    } else {
        push_digits(out, value as u64);
    }
}

/// Put `value` as two hexadecimal digits behind `out`.
pub fn push_hex_byte(out: &mut String, value: u8)
    ensures
        final(out)@ == old(out)@ + hex_byte(value as int),
{
    out.append(digit(value / 16));
    out.append(digit(value % 16));
    assert(out@ =~= old(out)@ + hex_byte(value as int));
}

/// Put one character behind `out`.
///
/// Calls `String::push`, which the standard library documents to append the character to
/// the end of the text.
#[verifier::external_body]
pub(crate) fn push_char(out: &mut String, c: char)
    ensures
        final(out)@ == old(out)@.push(c),
{
    out.push(c);
}

/// Is a number the code of a character?
pub open spec fn is_scalar(code: int) -> bool {
    0 <= code <= 0xD7FF || 0xE000 <= code <= 0x10FFFF
}

/// The character of a code.
///
/// Calls `char::from_u32`, which the standard library documents to give the character whose
/// code it is, and none where the number is a surrogate or above the last code.
#[verifier::external_body]
pub(crate) fn char_of(code: u32) -> (r: Option<char>)
    ensures
        r == (if is_scalar(code as int) {
            Some(code as char)
        } else {
            None::<char>
        }),
{
    char::from_u32(code)
}

/// Do two texts hold the same characters?
pub fn same_text(a: &str, b: &str) -> (r: bool)
    ensures
        r == (a@ == b@),
{
    a.to_owned() == b.to_owned()
}

/// Is a character white space?
pub open spec fn is_white(c: char) -> bool {
    ||| 0x09 <= c as u32 <= 0x0D
    ||| c as u32 == 0x20
    ||| c as u32 == 0x85
    ||| c as u32 == 0xA0
    ||| c as u32 == 0x1680
    ||| 0x2000 <= c as u32 <= 0x200A
    ||| c as u32 == 0x2028
    ||| c as u32 == 0x2029
    ||| c as u32 == 0x202F
    ||| c as u32 == 0x205F
    ||| c as u32 == 0x3000
}

fn char_is_white(c: char) -> (r: bool)
    ensures
        r == is_white(c),
{
    let v: u32 = c as u32;
    (0x09 <= v && v <= 0x0D) || v == 0x20 || v == 0x85 || v == 0xA0 || v == 0x1680 || (0x2000 <= v
        && v <= 0x200A) || v == 0x2028 || v == 0x2029 || v == 0x202F || v == 0x205F || v == 0x3000
}

/// A text without the white space at its ends.
pub open spec fn trimmed(text: Seq<char>) -> Seq<char>
    decreases text.len(),
{
    if text.len() > 0 && is_white(text.first()) {
        trimmed(text.drop_first())
    } else if text.len() > 0 && is_white(text.last()) {
        trimmed(text.drop_last())
    } else {
        text
    }
}

/// The part of `text` without the white space at its ends.
pub fn trim<'a>(text: &'a str) -> (r: &'a str)
    ensures
        r@ == trimmed(text@),
{
    let mut from: usize = 0;
    let mut to: usize = text.unicode_len();
    assert(text@.subrange(0, to as int) =~= text@);
    while from < to && char_is_white(text.get_char(from))
        invariant
            0 <= from <= to <= text@.len(),
            trimmed(text@) == trimmed(text@.subrange(from as int, to as int)),
        decreases to - from,
    {
        let ghost part = text@.subrange(from as int, to as int);
        assert(part.drop_first() =~= text@.subrange(from + 1, to as int));
        from = from + 1;
    }
    while from < to && char_is_white(text.get_char(to - 1))
        invariant
            0 <= from <= to <= text@.len(),
            from < to ==> !is_white(text@[from as int]),
            trimmed(text@) == trimmed(text@.subrange(from as int, to as int)),
        decreases to - from,
    {
        let ghost part = text@.subrange(from as int, to as int);
        assert(part.first() == text@[from as int]);
        assert(part.drop_last() =~= text@.subrange(from as int, to - 1));
        to = to - 1;
    }
    let ghost core = text@.subrange(from as int, to as int);
    assert(trimmed(core) == core);
    text.substring_char(from, to)
}

/// The first line of a text: up to the first line feed, and without a carriage return
/// before it.
pub open spec fn first_line(text: Seq<char>) -> Seq<char> {
    let end = line_end(text);
    if end < text.len() && end > 0 && text[end - 1] == '\r' {
        text.take(end - 1)
    } else {
        text.take(end)
    }
}

/// Where the first line feed of a text is, or its length.
pub open spec fn line_end(text: Seq<char>) -> int
    decreases text.len(),
{
    if text.len() == 0 {
        0
    } else if line_end(text.drop_last()) < text.len() - 1 {
        line_end(text.drop_last())
    } else if text.last() == '\n' {
        text.len() - 1
    } else {
        text.len() as int
    }
}

/// The first line of `text`.
pub fn head_line<'a>(text: &'a str) -> (r: &'a str)
    ensures
        r@ == first_line(text@),
{
    let n: usize = text.unicode_len();
    let mut end: usize = n;
    let mut i: usize = 0;
    assert(text@.take(0) =~= Seq::<char>::empty());
    while i < n
        invariant
            n == text@.len(),
            0 <= i <= n,
            end <= n,
            end < n ==> end < i && line_end(text@.take(i as int)) == end,
            end == n ==> line_end(text@.take(i as int)) == i,
        decreases n - i,
    {
        proof {
            let next = text@.take(i + 1);
            assert(next.drop_last() =~= text@.take(i as int));
            assert(next.last() == text@[i as int]);
        }
        if end == n && text.get_char(i) == '\n' {
            end = i;
        }
        i = i + 1;
    }
    assert(text@.take(n as int) =~= text@);
    if end < n && end > 0 && text.get_char(end - 1) == '\r' {
        assert(text@.subrange(0, end - 1) =~= text@.take(end - 1));
        text.substring_char(0, end - 1)
    } else {
        assert(text@.subrange(0, end as int) =~= text@.take(end as int));
        text.substring_char(0, end)
    }
}

/// A character with small ASCII letters made capital.
pub open spec fn upper(c: char) -> char {
    if 'a' <= c && c <= 'z' {
        ((c as u32) - 32) as char
    } else {
        c
    }
}

/// A text with small ASCII letters made capital.
pub fn uppercase(text: &str) -> (r: String)
    ensures
        r@ == text@.map_values(|c: char| upper(c)),
{
    let n: usize = text.unicode_len();
    let mut out: String = String::new();
    let ghost whole = text@.map_values(|c: char| upper(c));
    let mut i: usize = 0;
    proof {
        reveal_strlit("");
        assert(out@ =~= whole.take(0));
    }
    while i < n
        invariant
            n == text@.len(),
            whole == text@.map_values(|c: char| upper(c)),
            0 <= i <= n,
            out@ == whole.take(i as int),
        decreases n - i,
    {
        let c: char = text.get_char(i);
        let capital: char = if 'a' <= c && c <= 'z' {
            ((c as u8) - 32) as char
        } else {
            c
        };
        assert(capital == upper(c));
        push_char(&mut out, capital);
        assert(out@ =~= whole.take(i + 1));
        i = i + 1;
    }
    assert(whole.take(n as int) =~= whole);
    out
}

/// Is a character a control character?
pub open spec fn is_control(c: char) -> bool {
    c as u32 <= 0x1F || 0x7F <= c as u32 <= 0x9F
}

/// Appending parts one after the other is appending them as one.
pub proof fn lemma_append_five<A>(o: Seq<A>, a: Seq<A>, b: Seq<A>, c: Seq<A>, d: Seq<A>, e: Seq<A>)
    ensures
        o + a + b + c + d + e == o + (a + b + c + d + e),
{
    let x1 = a + b;
    let x2 = x1 + c;
    let x3 = x2 + d;
    assert(o + a + b =~= o + x1);
    assert(o + x1 + c =~= o + x2);
    assert(o + x2 + d =~= o + x3);
    assert(o + x3 + e =~= o + (x3 + e));
}

/// The number that a digit stands for, from `0` to `9` and from `A` to `F`.
pub open spec fn digit_value(c: char) -> int {
    if '0' <= c <= '9' {
        c as int - 48
    } else if 'A' <= c <= 'F' {
        c as int - 55
    } else {
        -1
    }
}

/// The number that a row of decimal digits stands for.
pub open spec fn number_read(text: Seq<char>) -> int
    decreases text.len(),
{
    if text.len() == 0 {
        0
    } else {
        10 * number_read(text.drop_last()) + digit_value(text.last())
    }
}

/// Written digits read as the number that was written: they are all decimal digits, and the
/// first is a zero only in zero itself.
pub proof fn digits_read_back(n: nat)
    ensures
        number_read(digits(n)) == n,
        digits(n).len() > 0,
        forall|i: int| 0 <= i < digits(n).len() ==> '0' <= #[trigger] digits(n)[i] <= '9',
        n > 0 ==> digits(n)[0] != '0',
        n < 10 ==> digits(n).len() == 1,
    decreases n,
{
    if n < 10 {
        assert(digits(n).drop_last() =~= Seq::<char>::empty());
        assert(number_read(Seq::<char>::empty()) == 0);
    } else {
        digits_read_back(n / 10);
        assert(digits(n).drop_last() =~= digits(n / 10));
    }
}

/// A number reads back from its decimal form: a minus sign stands in front exactly when it is
/// negative.
pub proof fn decimals_read_back(value: int)
    ensures
        value >= 0 ==> number_read(decimal(value)) == value && '0' <= decimal(value)[0] <= '9',
        value < 0 ==> decimal(value)[0] == '-' && number_read(decimal(value).skip(1)) == -value,
        decimal(value).len() > 0,
{
    if value < 0 {
        digits_read_back((-value) as nat);
        assert(decimal(value).skip(1) =~= digits((-value) as nat));
    } else {
        digits_read_back(value as nat);
    }
}

/// A byte reads back from its two hexadecimal digits, the first of which is worth sixteen.
pub proof fn hex_reads_back(value: int)
    requires
        0 <= value < 256,
    ensures
        hex_byte(value).len() == 2,
        16 * digit_value(hex_byte(value)[0]) + digit_value(hex_byte(value)[1]) == value,
        0 <= digit_value(hex_byte(value)[0]) < 16,
        0 <= digit_value(hex_byte(value)[1]) < 16,
{
}

/// Is everything from one place to another white?
pub open spec fn all_white(text: Seq<char>, from: int, to: int) -> bool {
    forall|i: int| from <= i < to ==> is_white(#[trigger] text[i])
}

/// Trimming takes white space off the two ends and nothing else: what is left begins and ends
/// with something to see, and what was taken off is all white.
pub proof fn trimming_takes_the_white_ends(text: Seq<char>)
    ensures
        exists|from: int, to: int|
            #![trigger text.subrange(from, to)]
            {
                &&& 0 <= from <= to <= text.len()
                &&& trimmed(text) == text.subrange(from, to)
                &&& all_white(text, 0, from)
                &&& all_white(text, to, text.len() as int)
            },
        trimmed(text).len() > 0 ==> !is_white(trimmed(text).first()) && !is_white(
            trimmed(text).last(),
        ),
{
    let (from, to) = lemma_trimmed(text);
    assert(trimmed(text) == text.subrange(from, to));
}

proof fn lemma_trimmed(text: Seq<char>) -> (r: (int, int))
    ensures
        0 <= r.0 <= r.1 <= text.len(),
        trimmed(text) == text.subrange(r.0, r.1),
        all_white(text, 0, r.0),
        all_white(text, r.1, text.len() as int),
        r.0 < r.1 ==> !is_white(text[r.0]) && !is_white(text[r.1 - 1]),
    decreases text.len(),
{
    if text.len() > 0 && is_white(text.first()) {
        let rest = text.drop_first();
        let (f, t) = lemma_trimmed(rest);
        assert(rest.subrange(f, t) =~= text.subrange(f + 1, t + 1));
        assert forall|i: int| 0 <= i < f + 1 implies is_white(#[trigger] text[i]) by {
            if i > 0 {
                assert(rest[i - 1] == text[i]);
            }
        }
        assert forall|i: int| t + 1 <= i < text.len() implies is_white(#[trigger] text[i]) by {
            assert(rest[i - 1] == text[i]);
        }
        (f + 1, t + 1)
    } else if text.len() > 0 && is_white(text.last()) {
        let rest = text.drop_last();
        let (f, t) = lemma_trimmed(rest);
        assert(rest.subrange(f, t) =~= text.subrange(f, t));
        assert forall|i: int| 0 <= i < f implies is_white(#[trigger] text[i]) by {
            assert(rest[i] == text[i]);
        }
        assert forall|i: int| t <= i < text.len() implies is_white(#[trigger] text[i]) by {
            if i < text.len() - 1 {
                assert(rest[i] == text[i]);
            }
        }
        (f, t)
    } else {
        assert(text.subrange(0, text.len() as int) =~= text);
        (0, text.len() as int)
    }
}

/// A blank, a tabulator and the ends of lines are white; no letter, digit or sign is.
pub proof fn blanks_are_white(c: char)
    ensures
        c == ' ' || c == '\t' || c == '\n' || c == '\r' ==> is_white(c),
        '!' <= c <= '~' ==> !is_white(c),
{
}

/// The first line of a text is its beginning, as far as the first line feed; a carriage return
/// just before that is left off with it. A text of one line is its own first line.
#[verifier::spinoff_prover]
pub proof fn the_first_line_ends_at_the_first_feed(text: Seq<char>)
    ensures
        ({
            let line = first_line(text);
            &&& line.len() <= text.len()
            &&& line == text.take(line.len() as int)
            &&& !line.contains('\n')
            &&& line.len() < text.len() ==> text[line.len() as int] == '\n' || (text[line.len() as int]
                == '\r' && line.len() + 1 < text.len() && text[line.len() as int + 1] == '\n')
            &&& line.len() < text.len() && line.len() > 0 && text[line.len() as int] == '\n'
                ==> line.last() != '\r'
            &&& !text.contains('\n') ==> line == text
        }),
{
    lemma_line_end(text);
    let end = line_end(text);
    if end == text.len() {
        assert(text.take(end) =~= text);
    } else {
        assert(text[end] == '\n');
    }
}

proof fn lemma_line_end(text: Seq<char>)
    ensures
        0 <= line_end(text) <= text.len(),
        line_end(text) < text.len() ==> text[line_end(text)] == '\n',
        forall|i: int| 0 <= i < line_end(text) ==> #[trigger] text[i] != '\n',
    decreases text.len(),
{
    if text.len() > 0 {
        let rest = text.drop_last();
        lemma_line_end(rest);
        assert forall|i: int| 0 <= i < line_end(text) implies #[trigger] text[i] != '\n' by {
            if i < rest.len() {
                assert(rest[i] == text[i]);
            }
        }
    }
}

/// Capital letters are the small ones thirty-two places on, from `a` to `z`; every other
/// character is its own capital.
pub proof fn capitals_are_thirty_two_before(c: char)
    ensures
        'a' <= c <= 'z' ==> upper(c) as u32 == c as u32 - 32,
        !('a' <= c <= 'z') ==> upper(c) == c,
        upper(upper(c)) == upper(c),
{
}

/// The keys that type nothing come as control characters: those below the blank, and the ones
/// round the delete character.
pub proof fn control_characters_type_nothing(c: char)
    ensures
        (c as u32) < 0x20 ==> is_control(c),
        ' ' <= c <= '~' ==> !is_control(c),
        0x7F <= c as u32 <= 0x9F ==> is_control(c),
        c as u32 >= 0xA0 ==> !is_control(c),
{
}

/// A number is the code of a character unless it is a surrogate or beyond the last one.
pub proof fn surrogates_are_no_characters(code: int)
    ensures
        0xD800 <= code <= 0xDFFF ==> !is_scalar(code),
        code > 0x10FFFF || code < 0 ==> !is_scalar(code),
        0 <= code < 0xD800 || 0xE000 <= code <= 0x10FFFF ==> is_scalar(code),
{
}

} // verus!
