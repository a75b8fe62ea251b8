//! What version of Windows this is, for the places where behaviour depends on it.
//!
//! Two features branch on the same number and must agree about it: system backdrops
//! appear in one build, and at that same build the taskbar stops responding to
//! composition requests because it became a XAML surface.

use vstd::prelude::*;

verus! {

/// The first build whose taskbar is drawn by the shell itself.
pub const XAML_TASKBAR_BUILD: u32 = 22_621;

/// Is this unit white space?
pub open spec fn is_space(unit: u16) -> bool {
    ||| 0x09 <= unit <= 0x0D
    ||| unit == 0x20
    ||| unit == 0x85
    ||| unit == 0xA0
    ||| unit == 0x1680
    ||| 0x2000 <= unit <= 0x200A
    ||| unit == 0x2028
    ||| unit == 0x2029
    ||| unit == 0x202F
    ||| unit == 0x205F
    ||| unit == 0x3000
}

pub open spec fn is_digit(unit: u16) -> bool {
    0x30 <= unit <= 0x39
}

/// The number that some decimal digits stand for.
pub open spec fn digits_value(digits: Seq<u16>) -> nat
    decreases digits.len(),
{
    if digits.len() == 0 {
        0
    } else {
        digits_value(digits.drop_last()) * 10 + (digits.last() - 0x30) as nat
    }
}

/// `text` without the zeros at its ends, and then without the white space at its ends.
pub open spec fn trimmed(text: Seq<u16>) -> Seq<u16> {
    strip_space(strip_zeros(text))
}

/// `text` without the zeros at its ends.
pub open spec fn strip_zeros(text: Seq<u16>) -> Seq<u16>
    decreases text.len(),
{
    if text.len() > 0 && text.first() == 0 {
        strip_zeros(text.drop_first())
    } else if text.len() > 0 && text.last() == 0 {
        strip_zeros(text.drop_last())
    } else {
        text
    }
}

/// `text` without the white space at its ends.
pub open spec fn strip_space(text: Seq<u16>) -> Seq<u16>
    decreases text.len(),
{
    if text.len() > 0 && is_space(text.first()) {
        strip_space(text.drop_first())
    } else if text.len() > 0 && is_space(text.last()) {
        strip_space(text.drop_last())
    } else {
        text
    }
}

/// The digits of a number that may have a plus sign in front.
pub open spec fn unsigned_digits(text: Seq<u16>) -> Seq<u16> {
    if text.len() > 0 && text.first() == 0x2B {
        text.drop_first()
    } else {
        text
    }
}

/// The number that a text stands for, if it stands for one that fits.
pub open spec fn parsed_number(text: Seq<u16>) -> Option<u32> {
    let digits = unsigned_digits(text);
    if digits.len() > 0 && (forall|i: int| 0 <= i < digits.len() ==> is_digit(#[trigger] digits[i]))
        && digits_value(digits) <= u32::MAX {
        Some(digits_value(digits) as u32)
    } else {
        None
    }
}

fn unit_is_space(unit: u16) -> (r: bool)
    ensures
        r == is_space(unit),
{
    (0x09 <= unit && unit <= 0x0D) || unit == 0x20 || unit == 0x85 || unit == 0xA0 || unit
        == 0x1680 || (0x2000 <= unit && unit <= 0x200A) || unit == 0x2028 || unit == 0x2029
        || unit == 0x202F || unit == 0x205F || unit == 0x3000
}

/// The digits before some others make no number smaller.
proof fn lemma_value_grows(digits: Seq<u16>, n: int)
    requires
        0 <= n <= digits.len(),
        forall|i: int| 0 <= i < digits.len() ==> is_digit(#[trigger] digits[i]),
    ensures
        digits_value(digits.take(n)) <= digits_value(digits),
    decreases digits.len() - n,
{
    if n < digits.len() {
        let next = digits.take(n + 1);
        assert(next.drop_last() =~= digits.take(n));
        assert(is_digit(digits[n]));
        lemma_value_grows(digits, n + 1);
    } else {
        assert(digits.take(n) =~= digits);
    }
}

/// Parse `text[from..to]`, a number that may have a plus sign in front.
fn parse(text: &Vec<u16>, from: usize, to: usize) -> (r: Option<u32>)
    requires
        from <= to <= text@.len(),
    ensures
        r == parsed_number(text@.subrange(from as int, to as int)),
{
    let ghost whole = text@.subrange(from as int, to as int);
    let start: usize = if from < to && text[from] == 0x2B {
        from + 1
    } else {
        from
    };
    let ghost digits = text@.subrange(start as int, to as int);
    proof {
        assert(digits =~= unsigned_digits(whole));
    }
    if start == to {
        return None;
    }
    let mut value: u64 = 0;
    let mut i: usize = start;
    assert(digits.take(0) =~= Seq::empty());
    while i < to
        invariant
            start <= i <= to <= text@.len(),
            digits == text@.subrange(start as int, to as int),
            whole == text@.subrange(from as int, to as int),
            digits == unsigned_digits(whole),
            digits.len() > 0,
            forall|k: int| 0 <= k < i - start ==> is_digit(#[trigger] digits[k]),
            value == digits_value(digits.take(i - start)),
            value <= u32::MAX,
        decreases to - i,
    {
        let unit: u16 = text[i];
        assert(unit == digits[i - start]);
        if unit < 0x30 || unit > 0x39 {
            return None;
        }
        proof {
            let next = digits.take(i - start + 1);
            assert(next.drop_last() =~= digits.take(i - start));
            assert(next.last() == unit);
        }
        value = value * 10 + (unit - 0x30) as u64;
        i = i + 1;
        if value > 0xffff_ffff {
            proof {
                if forall|k: int| 0 <= k < digits.len() ==> is_digit(#[trigger] digits[k]) {
                    lemma_value_grows(digits, i - start);
                }
            }
            return None;
        }
    }
    assert(digits.take(i - start) =~= digits);
    Some(value as u32)
}

/// The build number, out of the text that the system keeps it in. `None` when there is
/// no such text, or it is no number.
pub fn build_number(text: Option<&Vec<u16>>) -> (r: Option<u32>)
    ensures
        r == (match text {
            None => None,
            Some(units) => parsed_number(trimmed(units@)),
        }),
{
    match text {
        None => None,
        Some(units) => {
            let mut from: usize = 0;
            let mut to: usize = units.len();
            assert(units@.subrange(0, to as int) =~= units@);
            while from < to && units[from] == 0
                invariant
                    0 <= from <= to <= units@.len(),
                    strip_zeros(units@) == strip_zeros(units@.subrange(from as int, to as int)),
                decreases to - from,
            {
                let ghost part = units@.subrange(from as int, to as int);
                assert(part.drop_first() =~= units@.subrange(from + 1, to as int));
                from = from + 1;
            }
            while from < to && units[to - 1] == 0
                invariant
                    0 <= from <= to <= units@.len(),
                    from < to ==> units@[from as int] != 0,
                    strip_zeros(units@) == strip_zeros(units@.subrange(from as int, to as int)),
                decreases to - from,
            {
                let ghost part = units@.subrange(from as int, to as int);
                assert(part.first() == units@[from as int]);
                assert(part.drop_last() =~= units@.subrange(from as int, to - 1));
                to = to - 1;
            }
            let ghost bare = units@.subrange(from as int, to as int);
            assert(strip_zeros(bare) == bare);
            while from < to && unit_is_space(units[from])
                invariant
                    0 <= from <= to <= units@.len(),
                    strip_space(bare) == strip_space(units@.subrange(from as int, to as int)),
                decreases to - from,
            {
                let ghost part = units@.subrange(from as int, to as int);
                assert(part.drop_first() =~= units@.subrange(from + 1, to as int));
                from = from + 1;
            }
            while from < to && unit_is_space(units[to - 1])
                invariant
                    0 <= from <= to <= units@.len(),
                    from < to ==> !is_space(units@[from as int]),
                    strip_space(bare) == strip_space(units@.subrange(from as int, to as int)),
                decreases to - from,
            {
                let ghost part = units@.subrange(from as int, to as int);
                assert(part.first() == units@[from as int]);
                assert(part.drop_last() =~= units@.subrange(from as int, to - 1));
                to = to - 1;
            }
            let ghost core = units@.subrange(from as int, to as int);
            assert(strip_space(core) == core);
            parse(units, from, to)
        },
    }
}

/// Does the shell draw the taskbar itself, ignoring requests to restyle it?
///
/// Unknown builds answer `true`, because that is the safe assumption: claiming
/// transparency works when it does not is worse than the reverse.
pub fn taskbar_ignores_composition_requests(build: Option<u32>) -> (r: bool)
    ensures
        r == (match build {
            Some(build) => build >= XAML_TASKBAR_BUILD,
            None => true,
        }),
{
    match build {
        Some(build) => build >= XAML_TASKBAR_BUILD,
        None => true,
    }
}

/// A build number reads back from its digits, wherever it was padded with zeros and blanks:
/// those at its ends are not part of it.
#[verifier::spinoff_prover]
pub proof fn a_build_number_reads_back(digits: Seq<u16>)
    requires
        digits.len() > 0,
        forall|i: int| 0 <= i < digits.len() ==> 0x30 <= #[trigger] digits[i] <= 0x39,
        digits_value(digits) <= u32::MAX,
    ensures
        parsed_number(trimmed(digits)) == Some(digits_value(digits) as u32),
        trimmed(digits.push(0)) == trimmed(digits),
        trimmed(digits.push(0x20)) == trimmed(digits),
        trimmed(seq![0x20u16] + digits) == trimmed(digits),
        digits_value(digits) == 10 * digits_value(digits.drop_last()) + (digits.last() - 0x30),
        digits.len() == 1 ==> digits_value(digits) == digits[0] - 0x30,
{
    let last = digits.len() - 1;
    assert(0x30 <= digits[0] <= 0x39);
    assert(0x30 <= digits[last] <= 0x39);
    assert(strip_zeros(digits) == digits);
    assert(strip_space(digits) == digits);
    assert forall|i: int| 0 <= i < digits.len() implies is_digit(#[trigger] digits[i]) by {}
    assert(digits.push(0).first() == digits[0]);
    assert(digits.push(0).drop_last() =~= digits);
    let blank = digits.push(0x20);
    assert(blank.first() == digits[0]);
    assert(blank.last() == 0x20);
    assert(blank.drop_last() =~= digits);
    assert(strip_zeros(blank) == blank);
    let led = seq![0x20u16] + digits;
    assert(led.first() == 0x20 && led.last() == digits[last]);
    assert(led.drop_first() =~= digits);
    assert(strip_zeros(led) == led);
    if digits.len() == 1 {
        assert(digits.drop_last() =~= Seq::<u16>::empty());
        assert(digits_value(Seq::<u16>::empty()) == 0);
    }
}

/// What holds anything but digits, past one plus sign, is no build number.
pub proof fn only_digits_make_a_number(text: Seq<u16>, i: int)
    requires
        1 <= i < text.len(),
        text[i] < 0x30 || text[i] > 0x39,
    ensures
        parsed_number(text) is None,
        parsed_number(Seq::empty()) is None,
{
    let digits = unsigned_digits(text);
    if text.first() == 0x2B {
        assert(digits[i - 1] == text[i]);
        assert(!is_digit(digits[i - 1]));
    } else {
        assert(!is_digit(digits[i]));
    }
}

} // verus!
