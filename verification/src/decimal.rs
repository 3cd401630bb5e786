use crate::error::NumberError;
use vstd::prelude::*;

verus! {

/// One of the ten decimal digits of ASCII.
pub open spec fn is_digit(c: char) -> bool {
    '0' <= c <= '9'
}

/// The number that a digit stands for.
pub open spec fn digit_value(c: char) -> nat {
    (c as int - '0' as int) as nat
}

/// The digit that stands for a number below ten.
pub open spec fn digit_char(d: nat) -> char {
    (d + '0' as nat) as char
}

/// Every character is a decimal digit.
pub open spec fn all_digits(s: Seq<char>) -> bool {
    forall|i: int| 0 <= i < s.len() ==> is_digit(#[trigger] s[i])
}

/// A number in decimal, without leading zeros.
pub open spec fn decimal(n: nat) -> Seq<char>
    decreases n,
{
    if n < 10 {
        seq![digit_char(n)]
    } else {
        decimal(n / 10).push(digit_char(n % 10))
    }
}

/// `count` zeros.
pub open spec fn zeros(count: nat) -> Seq<char> {
    Seq::new(count, |i: int| '0')
}

/// A number in decimal, with zeros in front until it is `width` characters
/// long; a number that needs more than `width` digits keeps them all.
pub open spec fn zero_padded(n: nat, width: nat) -> Seq<char> {
    let digits = decimal(n);
    if digits.len() >= width {
        digits
    } else {
        zeros((width - digits.len()) as nat) + digits
    }
}

/// The number that a sequence of digits stands for, read in decimal.
pub open spec fn decimal_value(s: Seq<char>) -> nat
    decreases s.len(),
{
    if s.len() == 0 {
        0
    } else {
        decimal_value(s.drop_last()) * 10 + digit_value(s.last())
    }
}

/// What `str::parse::<u32>` of std reads: a plus sign or none, then one
/// decimal digit or more, together no more than `u32::MAX`.
pub open spec fn parsed_u32(s: Seq<char>) -> Option<u32> {
    let digits = if s.len() > 0 && s[0] == '+' {
        s.drop_first()
    } else {
        s
    };
    if digits.len() > 0 && all_digits(digits) && decimal_value(digits) <= u32::MAX {
        Some(decimal_value(digits) as u32)
    } else {
        None
    }
}

/// A number written in decimal is made of digits, at least one.
pub proof fn lemma_decimal_digits(n: nat)
    ensures
        decimal(n).len() >= 1,
        all_digits(decimal(n)),
    decreases n,
{
    if n >= 10 {
        lemma_decimal_digits(n / 10);
    }
}

/// Reading a number written in decimal gives the number back.
pub proof fn lemma_decimal_value(n: nat)
    ensures
        decimal_value(decimal(n)) == n,
    decreases n,
{
    if n < 10 {
        assert(decimal(n).drop_last() =~= Seq::empty());
        assert(decimal_value(decimal(n).drop_last()) == 0);
    } else {
        lemma_decimal_value(n / 10);
        assert(decimal(n).drop_last() =~= decimal(n / 10));
    }
}

/// Zeros in front change neither the digits' being digits nor their value.
pub proof fn lemma_leading_zeros(count: nat, digits: Seq<char>)
    ensures
        decimal_value(zeros(count) + digits) == decimal_value(digits),
        all_digits(digits) ==> all_digits(zeros(count) + digits),
    decreases digits.len(),
{
    let whole = zeros(count) + digits;
    if digits.len() == 0 {
        assert(whole =~= zeros(count));
        lemma_zeros_value(count);
    } else {
        lemma_leading_zeros(count, digits.drop_last());
        assert(whole.drop_last() =~= zeros(count) + digits.drop_last());
        assert(whole.last() == digits.last());
    }
    if all_digits(digits) {
        assert forall|i: int| 0 <= i < whole.len() implies is_digit(#[trigger] whole[i]) by {
            if i >= count {
                assert(whole[i] == digits[i - count]);
            }
        }
    }
}

/// Zeros alone stand for zero.
pub proof fn lemma_zeros_value(count: nat)
    ensures
        decimal_value(zeros(count)) == 0,
    decreases count,
{
    if count > 0 {
        lemma_zeros_value((count - 1) as nat);
        assert(zeros(count).drop_last() =~= zeros((count - 1) as nat));
    }
}

/// The first digits of a number stand for no more than all of them.
pub proof fn lemma_value_of_prefix(s: Seq<char>, k: int)
    requires
        0 <= k <= s.len(),
    ensures
        decimal_value(s.take(k)) <= decimal_value(s),
    decreases s.len(),
{
    if k == s.len() {
        assert(s.take(k) =~= s);
    } else {
        lemma_value_of_prefix(s.drop_last(), k);
        assert(s.drop_last().take(k) =~= s.take(k));
    }
}

/// How many digits a number has, up to five, and that a number of 100000
/// or more has more.
pub proof fn lemma_decimal_len(n: nat)
    ensures
        n < 10 ==> decimal(n).len() == 1,
        10 <= n < 100 ==> decimal(n).len() == 2,
        100 <= n < 1000 ==> decimal(n).len() == 3,
        1000 <= n < 10000 ==> decimal(n).len() == 4,
        10000 <= n < 100000 ==> decimal(n).len() == 5,
        100000 <= n ==> decimal(n).len() >= 6,
    decreases n,
{
    if n >= 10 {
        lemma_decimal_len(n / 10);
    }
}

/// Padded to five, a number takes exactly five digits as long as it is
/// below 100000, and more from there on.
pub proof fn lemma_five_digits(n: nat)
    ensures
        all_digits(zero_padded(n, 5)),
        n < 100000 <==> zero_padded(n, 5).len() == 5,
        zero_padded(n, 5).len() >= 5,
{
    lemma_decimal_len(n);
    lemma_decimal_digits(n);
}

/// Writing a number with zeros in front and reading it again gives the
/// number back.
pub proof fn lemma_zero_padded_round_trip(n: u32, width: nat)
    ensures
        parsed_u32(zero_padded(n as nat, width)) == Some(n),
{
    let digits = decimal(n as nat);
    lemma_decimal_digits(n as nat);
    lemma_decimal_value(n as nat);
    if digits.len() < width {
        lemma_leading_zeros((width - digits.len()) as nat, digits);
        assert(zero_padded(n as nat, width)[0] == '0');
    } else {
        assert(is_digit(digits[0]));
    }
}

/// The number that a decimal digit stands for, or `None` for another
/// character.
pub fn digit_of(c: char) -> (r: Option<u32>)
    ensures
        r == if is_digit(c) {
            Some(digit_value(c) as u32)
        } else {
            None
        },
{
    if '0' <= c && c <= '9' {
        Some(c as u32 - '0' as u32)
    } else {
        None
    }
}

/// Appends a number in decimal, without leading zeros.
pub fn push_decimal(out: &mut Vec<char>, n: u64)
    ensures
        final(out)@ == old(out)@ + decimal(n as nat),
    decreases n,
{
    if n >= 10 {
        push_decimal(out, n / 10);
    }
    let d: u8 = (n % 10) as u8;
    let c: char = (d + 48u8) as char;
    assert(c == digit_char((n % 10) as nat));
    out.push(c);
    assert(out@ == old(out)@ + decimal(n as nat));
}

/// Appends a number in decimal, with zeros in front up to `width`
/// characters.
pub fn push_zero_padded(out: &mut Vec<char>, n: u64, width: usize)
    ensures
        final(out)@ == old(out)@ + zero_padded(n as nat, width as nat),
{
    let mut digits: Vec<char> = Vec::new();
    push_decimal(&mut digits, n);
    assert(digits@ == decimal(n as nat));
    let mut k: usize = digits.len();
    while k < width
        invariant
            digits.len() <= k,
            k <= width || k == digits.len(),
            out@ == old(out)@ + zeros((k - digits.len()) as nat),
        decreases width - k,
    {
        out.push('0');
        assert(zeros((k + 1 - digits.len()) as nat) == zeros((k - digits.len()) as nat).push('0'));
        k += 1;
    }
    let ghost before = out@;
    crate::text::append_chars(out, &digits);
    assert(before + digits@ == old(out)@ + (zeros((k - digits.len()) as nat) + digits@));
    assert(zeros(0) + digits@ == digits@);
}

/// Reads an unsigned number as `str::parse::<u32>` does.
pub fn parse_u32(s: &Vec<char>) -> (r: Option<u32>)
    ensures
        r == parsed_u32(s@),
{
    let start: usize = if s.len() > 0 && s[0] == '+' {
        1
    } else {
        0
    };
    let ghost digits = s@.skip(start as int);
    assert(start == 1 ==> s@.drop_first() == digits);
    assert(start == 0 ==> s@ == digits);
    if start == s.len() {
        return None;
    }
    let mut value: u32 = 0;
    let mut i: usize = start;
    assert(digits.take(0) =~= Seq::empty());
    while i < s.len()
        invariant
            start <= i <= s.len(),
            digits == s@.skip(start as int),
            digits == if s@.len() > 0 && s@[0] == '+' {
                s@.drop_first()
            } else {
                s@
            },
            all_digits(digits.take(i - start)),
            value == decimal_value(digits.take(i - start)),
        decreases s.len() - i,
    {
        let ghost upto = digits.take(i - start + 1);
        assert(upto.drop_last() == digits.take(i - start));
        assert(upto.last() == s@[i as int]);
        match digit_of(s[i]) {
            None => {
                assert(!is_digit(digits[i - start]));
                return None;
            },
            Some(d) => {
                if value > (u32::MAX - d) / 10 {
                    proof {
                        lemma_value_of_prefix(digits, i - start + 1);
                    }
                    return None;
                }
                value = value * 10 + d;
                assert forall|j: int| 0 <= j < upto.len() implies is_digit(#[trigger] upto[j]) by {
                    if j < i - start {
                        assert(upto[j] == digits.take(i - start)[j]);
                    }
                }
            },
        }
        i += 1;
    }
    assert(digits.take(s.len() - start) == digits);
    Some(value)
}

/// How many decimal digits a text begins with.
pub open spec fn digit_run(s: Seq<char>) -> nat
    decreases s.len(),
{
    if s.len() == 0 || !is_digit(s[0]) {
        0
    } else {
        1 + digit_run(s.drop_first())
    }
}

/// Why a text that is no unsigned number is none, as `str::parse::<u32>`
/// tells it: the text is empty; or, after a plus sign if there is one, the
/// digits that it begins with stand for too much; or else a character is
/// missing or no digit.
pub open spec fn number_error(s: Seq<char>) -> NumberError {
    let digits = if s.len() > 0 && s[0] == '+' {
        s.drop_first()
    } else {
        s
    };
    if s.len() == 0 {
        NumberError::Empty
    } else if decimal_value(digits.take(digit_run(digits) as int)) > u32::MAX {
        NumberError::TooLarge
    } else {
        NumberError::InvalidDigit
    }
}

/// What `str::parse::<u32>` of std makes of a text: the number, or why
/// there is none.
pub open spec fn read_u32(s: Seq<char>) -> Result<u32, NumberError> {
    match parsed_u32(s) {
        Some(n) => Ok(n),
        None => Err(number_error(s)),
    }
}

/// A text begins with at least as many digits as are known to be digits.
pub proof fn lemma_digit_run_at_least(s: Seq<char>, k: int)
    requires
        0 <= k <= s.len(),
        all_digits(s.take(k)),
    ensures
        k <= digit_run(s) <= s.len(),
    decreases s.len(),
{
    if s.len() > 0 && is_digit(s[0]) {
        if k > 0 {
            assert forall|j: int| 0 <= j < k - 1 implies is_digit(
                #[trigger] s.drop_first().take(k - 1)[j],
            ) by {
                assert(s.drop_first().take(k - 1)[j] == s.take(k)[j + 1]);
            }
            lemma_digit_run_at_least(s.drop_first(), k - 1);
        } else {
            assert(s.drop_first().take(0) =~= Seq::empty());
            lemma_digit_run_at_least(s.drop_first(), 0);
        }
    } else if k > 0 {
        assert(is_digit(s.take(k)[0]));
    }
}

/// A text begins with exactly the digits that stand before its first
/// character that is none.
pub proof fn lemma_digit_run_ends(s: Seq<char>, k: int)
    requires
        0 <= k <= s.len(),
        all_digits(s.take(k)),
        k == s.len() || !is_digit(s[k]),
    ensures
        digit_run(s) == k,
    decreases s.len(),
{
    if k > 0 {
        assert(is_digit(s.take(k)[0]));
        assert forall|j: int| 0 <= j < k - 1 implies is_digit(
            #[trigger] s.drop_first().take(k - 1)[j],
        ) by {
            assert(s.drop_first().take(k - 1)[j] == s.take(k)[j + 1]);
        }
        lemma_digit_run_ends(s.drop_first(), k - 1);
    }
}

/// Tells why a text is no unsigned number.
pub fn explain_number(s: &Vec<char>) -> (r: NumberError)
    ensures
        r == number_error(s@),
{
    if s.len() == 0 {
        return NumberError::Empty;
    }
    let start: usize = if s[0] == '+' {
        1
    } else {
        0
    };
    let ghost digits = s@.skip(start as int);
    assert(start == 1 ==> s@.drop_first() == digits);
    assert(start == 0 ==> s@ == digits);
    let mut value: u32 = 0;
    let mut i: usize = start;
    assert(digits.take(0) =~= Seq::empty());
    while i < s.len()
        invariant
            start <= i <= s.len(),
            s.len() > 0,
            digits == s@.skip(start as int),
            digits == if s@.len() > 0 && s@[0] == '+' {
                s@.drop_first()
            } else {
                s@
            },
            all_digits(digits.take(i - start)),
            value == decimal_value(digits.take(i - start)),
        decreases s.len() - i,
    {
        let ghost upto = digits.take(i - start + 1);
        assert(upto.drop_last() == digits.take(i - start));
        assert(upto.last() == s@[i as int]);
        match digit_of(s[i]) {
            None => {
                proof {
                    lemma_digit_run_ends(digits, i - start);
                }
                return NumberError::InvalidDigit;
            },
            Some(d) => {
                assert forall|j: int| 0 <= j < upto.len() implies is_digit(#[trigger] upto[j]) by {
                    if j < i - start {
                        assert(upto[j] == digits.take(i - start)[j]);
                    }
                }
                if value > (u32::MAX - d) / 10 {
                    proof {
                        lemma_digit_run_at_least(digits, i - start + 1);
                        let run = digit_run(digits) as int;
                        lemma_value_of_prefix(digits.take(run), i - start + 1);
                        assert(digits.take(run).take(i - start + 1) =~= upto);
                    }
                    return NumberError::TooLarge;
                }
                value = value * 10 + d;
            },
        }
        i += 1;
    }
    proof {
        assert(digits.take(s.len() - start) == digits);
        lemma_digit_run_ends(digits, s.len() - start);
    }
    NumberError::InvalidDigit
}

/// Reads an unsigned number as `str::parse::<u32>` does, and tells why
/// where there is none.
pub fn read_number(s: &Vec<char>) -> (r: Result<u32, NumberError>)
    ensures
        r == read_u32(s@),
{
    match parse_u32(s) {
        Some(n) => Ok(n),
        None => Err(explain_number(s)),
    }
}

} // verus!
