use vstd::prelude::*;

verus! {

/// The decimal digits of a number, as ASCII.
pub open spec fn decimal_digits(n: nat) -> Seq<u8>
    decreases n,
{
    let last = (48 + n % 10) as u8;
    if n < 10 {
        seq![last]
    } else {
        decimal_digits(n / 10).push(last)
    }
}

/// Whether a character is a decimal digit.
pub open spec fn is_digit(c: char) -> bool {
    '0' <= c <= '9'
}

/// The number that a sequence of decimal digits stands for.
pub open spec fn decimal_value(digits: Seq<char>) -> int
    decreases digits.len(),
{
    if digits.len() == 0 {
        0
    } else {
        decimal_value(digits.drop_last()) * 10 + (digits.last() as int - '0' as int)
    }
}

/// A word without the plus sign that may stand before a number.
pub open spec fn without_plus(word: Seq<char>) -> Seq<char> {
    if word.len() > 0 && word[0] == '+' {
        word.drop_first()
    } else {
        word
    }
}

/// The number that a word stands for: decimal digits, at least one, behind an
/// optional plus sign, with a value that fits.
pub open spec fn parsed_u32(word: Seq<char>) -> Option<u32> {
    let digits = without_plus(word);
    if digits.len() > 0 && (forall|i: int| 0 <= i < digits.len() ==> is_digit(#[trigger] digits[i]))
        && decimal_value(digits) <= u32::MAX {
        Some(decimal_value(digits) as u32)
    } else {
        None
    }
}

/// Appends the decimal digits of `n`.
pub fn push_decimal(out: &mut Vec<u8>, n: u32)
    ensures
        final(out)@ == old(out)@ + decimal_digits(n as nat),
    decreases n,
{
    if n >= 10 {
        push_decimal(out, n / 10);
    }
    out.push((n % 10) as u8 + 48);
    assert(out@ =~= old(out)@ + decimal_digits(n as nat));
}

/// The value of a sequence of digits is at least that of a shorter one that it
/// begins with, and never negative.
proof fn lemma_decimal_value_grows(digits: Seq<char>, n: int)
    requires
        0 <= n <= digits.len(),
        forall|i: int| 0 <= i < digits.len() ==> is_digit(#[trigger] digits[i]),
    ensures
        0 <= decimal_value(digits.take(n)) <= decimal_value(digits),
    decreases digits.len(),
{
    if n < digits.len() {
        assert(digits.drop_last().take(n) =~= digits.take(n));
        lemma_decimal_value_grows(digits.drop_last(), n);
    } else {
        assert(digits.take(n) =~= digits);
        if digits.len() > 0 {
            lemma_decimal_value_grows(digits.drop_last(), n - 1);
        }
    }
}

/// Reads the word from position `from` up to position `to` as a number.
pub fn parse_u32(text: &Vec<char>, from: usize, to: usize) -> (n: Option<u32>)
    requires
        from <= to <= text.len(),
    ensures
        n == parsed_u32(text@.subrange(from as int, to as int)),
{
    let ghost word = text@.subrange(from as int, to as int);
    let ghost digits = without_plus(word);
    let start: usize = if from < to && text[from] == '+' {
        from + 1
    } else {
        from
    };
    assert(digits =~= text@.subrange(start as int, to as int));
    if start == to {
        return None;
    }
    let mut value: u64 = 0;
    let mut i: usize = start;
    while i < to
        invariant
            start <= i <= to <= text.len(),
            from <= start < to,
            word == text@.subrange(from as int, to as int),
            digits == text@.subrange(start as int, to as int),
            digits == without_plus(word),
            forall|j: int| 0 <= j < i - start ==> is_digit(#[trigger] digits[j]),
            value == decimal_value(digits.take(i - start)),
            value <= u32::MAX,
        decreases to - i,
    {
        let c = text[i];
        assert(digits[i - start] == c);
        if c < '0' || c > '9' {
            assert(!is_digit(digits[i - start]));
            return None;
        }
        assert(digits.take(i - start + 1).drop_last() =~= digits.take(i - start));
        value = value * 10 + (c as u64 - '0' as u64);
        i = i + 1;
        if value > 0xFFFF_FFFF {
            proof {
                if forall|j: int| 0 <= j < digits.len() ==> is_digit(#[trigger] digits[j]) {
                    lemma_decimal_value_grows(digits, i - start);
                }
            }
            return None;
        }
    }
    assert(digits.take(to - start) =~= digits);
    Some(value as u32)
}

/// The characters of the decimal digits of `n`.
pub open spec fn decimal_chars(n: nat) -> Seq<char> {
    decimal_digits(n).map_values(|b: u8| b as char)
}

/// The decimal digits of a number are read back as that number.
pub proof fn decimal_round_trip(n: u32)
    ensures
        parsed_u32(decimal_chars(n as nat)) == Some(n),
{
    lemma_decimal_digits(n as nat);
    let chars = decimal_chars(n as nat);
    assert(chars[0] != '+');
}

/// The decimal digits of a number are digits, at least one of them, and have
/// the number as their value.
pub proof fn lemma_decimal_digits(n: nat)
    ensures
        decimal_digits(n).len() > 0,
        forall|i: int|
            0 <= i < decimal_digits(n).len() ==> 48 <= #[trigger] decimal_digits(n)[i] <= 57,
        forall|i: int|
            0 <= i < decimal_chars(n).len() ==> is_digit(#[trigger] decimal_chars(n)[i]),
        decimal_value(decimal_chars(n)) == n,
    decreases n,
{
    let chars = decimal_chars(n);
    if n >= 10 {
        lemma_decimal_digits(n / 10);
        assert(chars.drop_last() =~= decimal_chars(n / 10));
    } else {
        assert(chars.drop_last() =~= Seq::<char>::empty());
    }
    assert(decimal_digits(n).last() == 48 + n % 10);
    assert(chars.last() == decimal_digits(n).last() as char);
    assert(chars.last() as int - '0' as int == n % 10);
    assert(decimal_value(chars.drop_last()) == n / 10);
}

/// A number below 10^k has at most k decimal digits.
pub proof fn lemma_decimal_digits_len(n: nat, k: nat)
    requires
        1 <= k,
        n < vstd::arithmetic::power::pow(10, k),
    ensures
        decimal_digits(n).len() <= k,
    decreases k,
{
    reveal_with_fuel(vstd::arithmetic::power::pow, 2);
    if n >= 10 {
        assert(k >= 2);
        assert(n / 10 < vstd::arithmetic::power::pow(10, (k - 1) as nat));
        lemma_decimal_digits_len(n / 10, (k - 1) as nat);
    }
}

/// What is read as a number, character by character: nothing is no number, a
/// digit is its own value, and a digit behind a number is worth one where the
/// number is worth ten, as long as the value fits. A plus sign may stand first,
/// but not alone; any other character spoils a number wherever it stands.
pub proof fn numbers_are_read_digit_by_digit(word: Seq<char>, c: char)
    ensures
        parsed_u32(Seq::empty()) is None,
        '0' <= c <= '9' ==> parsed_u32(seq![c]) == Some((c as u32 - '0' as u32) as u32),
        '0' <= c <= '9' ==> parsed_u32(seq!['+', c]) == Some((c as u32 - '0' as u32) as u32),
        !('0' <= c <= '9') ==> parsed_u32(word.push(c)) is None,
        '0' <= c <= '9' && word.len() > 0 && word != seq!['+'] ==> parsed_u32(word.push(c))
            == match parsed_u32(word) {
            Some(v) => {
                let value = v * 10 + (c as int - '0' as int);
                if value <= u32::MAX {
                    Some(value as u32)
                } else {
                    None
                }
            },
            None => None,
        },
{
    reveal_with_fuel(decimal_value, 2);
    let empty = Seq::<char>::empty();
    assert(without_plus(empty) =~= empty);
    assert(seq![c].drop_last() =~= empty);
    assert(seq!['+', c].drop_first() =~= seq![c]);
    assert(seq!['+', c][0] == '+');
    let more = word.push(c);
    let digits = without_plus(word);
    let more_digits = without_plus(more);
    if word.len() > 0 {
        assert(more_digits =~= digits.push(c));
    } else {
        assert(more =~= seq![c]);
        if c == '+' {
            assert(more_digits =~= empty);
        }
    }
    if more_digits.len() > 0 && !('0' <= c <= '9') {
        assert(more_digits[more_digits.len() - 1] == c);
        assert(!is_digit(more_digits[more_digits.len() - 1]));
    }
    if '0' <= c <= '9' && word.len() > 0 && word != seq!['+'] {
        if digits.len() == 0 {
            assert(word =~= seq!['+']);
        }
        assert(more_digits.drop_last() =~= digits);
        assert(forall|i: int| 0 <= i < digits.len() ==> more_digits[i] == #[trigger] digits[i]);
        if forall|i: int| 0 <= i < digits.len() ==> is_digit(#[trigger] digits[i]) {
            lemma_decimal_value_grows(digits, 0);
            assert(digits.take(0) =~= empty);
            assert forall|i: int| 0 <= i < more_digits.len() implies is_digit(
                #[trigger] more_digits[i],
            ) by {
                if i < digits.len() {
                    assert(is_digit(digits[i]));
                }
            }
        } else {
            let i = choose|i: int| 0 <= i < digits.len() && !is_digit(#[trigger] digits[i]);
            assert(!is_digit(more_digits[i]));
        }
    }
}

/// A number is written in digits only, without a zero in front unless it is zero
/// itself; and a digit behind the digits of a number makes up ten times that
/// number and the digit.
pub proof fn numbers_are_written_plainly(n: nat, digit: nat, i: int)
    requires
        digit < 10,
    ensures
        0 <= i < decimal_digits(n).len() ==> 48 <= decimal_digits(n)[i] <= 57,
        n > 0 ==> decimal_digits(n)[0] != 48,
        decimal_digits(digit) == seq![(48 + digit) as u8],
        n > 0 ==> decimal_digits(n * 10 + digit) == decimal_digits(n).push((48 + digit) as u8),
    decreases n,
{
    lemma_decimal_digits(n);
    if n >= 10 {
        numbers_are_written_plainly(n / 10, digit, 0);
        lemma_decimal_digits(n / 10);
    }
    assert((n * 10 + digit) / 10 == n);
    assert((n * 10 + digit) % 10 == digit);
}

} // verus!
