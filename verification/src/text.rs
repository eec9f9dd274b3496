//! Text primitives: comparison, searching, trimming, and decimal numbers.
//!
//! Everything is stated over the characters of a string, `Seq<char>`.
use vstd::prelude::*;

verus! {

/// `String::push` appends one character at the end.
pub assume_specification[ String::push ](s: &mut String, c: char)
    ensures
        final(s)@ == old(s)@.push(c),
;

/// The characters of each string.
pub open spec fn texts(strings: Seq<String>) -> Seq<Seq<char>> {
    Seq::new(strings.len(), |i: int| strings[i]@)
}

/// The characters of `s`, in order.
pub fn to_chars(s: &str) -> (chars: Vec<char>)
    ensures
        chars@ == s@,
{
    let mut out: Vec<char> = Vec::new();
    for c in it: s.chars()
        invariant
            it.seq() == s@,
            out@ == s@.take(it.index() as int),
    {
        out.push(c);
        assert(s@.take(it.index() as int + 1) == s@.take(it.index() as int).push(c));
    }
    assert(s@.take(s@.len() as int) == s@);
    out
}

/// The string made of the characters from `from` (included) to `to` (excluded).
pub fn substring(chars: &Vec<char>, from: usize, to: usize) -> (s: String)
    requires
        from <= to <= chars.len(),
    ensures
        s@ == chars@.subrange(from as int, to as int),
{
    let mut out = String::new();
    let mut i: usize = from;
    while i < to
        invariant
            from <= i <= to <= chars.len(),
            out@ == chars@.subrange(from as int, i as int),
        decreases to - i,
    {
        out.push(chars[i]);
        assert(chars@.subrange(from as int, i as int + 1) == chars@.subrange(
            from as int,
            i as int,
        ).push(chars@[i as int]));
        i += 1;
    }
    out
}

/// Whether two strings hold the same characters.
pub fn same_text(a: &str, b: &str) -> (same: bool)
    ensures
        same == (a@ == b@),
{
    a.to_owned() == b.to_owned()
}

/// ASCII upper-case letters in lower case, every other character as it is.
pub open spec fn ascii_lower(c: char) -> char {
    if 'A' <= c && c <= 'Z' {
        (c as u32 + 32) as char
    } else {
        c
    }
}

/// Whether two texts are the same but for the case of their ASCII letters.
pub open spec fn same_ignoring_case(a: Seq<char>, b: Seq<char>) -> bool {
    &&& a.len() == b.len()
    &&& forall|i: int| 0 <= i < a.len() ==> ascii_lower(#[trigger] a[i]) == ascii_lower(b[i])
}

fn fold_case(c: char) -> (code: u32)
    ensures
        code == ascii_lower(c) as u32,
{
    if 'A' <= c && c <= 'Z' {
        c as u32 + 32
    } else {
        c as u32
    }
}

/// Compares two strings without regard to the case of ASCII letters.
pub fn eq_ignore_ascii_case(a: &str, b: &str) -> (same: bool)
    ensures
        same == same_ignoring_case(a@, b@),
{
    let x = to_chars(a);
    let y = to_chars(b);
    if x.len() != y.len() {
        return false;
    }
    let mut i: usize = 0;
    while i < x.len()
        invariant
            i <= x.len(),
            x.len() == y.len(),
            x@ == a@,
            y@ == b@,
            forall|j: int| 0 <= j < i ==> ascii_lower(#[trigger] a@[j]) == ascii_lower(b@[j]),
        decreases x.len() - i,
    {
        if fold_case(x[i]) != fold_case(y[i]) {
            assert(ascii_lower(a@[i as int]) != ascii_lower(b@[i as int]));
            return false;
        }
        i += 1;
    }
    true
}

/// Whether `text` holds `part` from position `at` on.
pub open spec fn holds_at(text: Seq<char>, part: Seq<char>, at: int) -> bool {
    0 <= at && at + part.len() <= text.len() && text.subrange(at, at + part.len()) == part
}

fn matches_at(text: &Vec<char>, part: &Vec<char>, at: usize) -> (found: bool)
    requires
        at + part.len() <= text.len(),
    ensures
        found == holds_at(text@, part@, at as int),
{
    let mut i: usize = 0;
    while i < part.len()
        invariant
            i <= part.len(),
            at + part.len() <= text.len(),
            forall|j: int| 0 <= j < i ==> text@[at + j] == #[trigger] part@[j],
        decreases part.len() - i,
    {
        if text[at + i] != part[i] {
            assert(text@.subrange(at as int, at + part.len())[i as int] != part@[i as int]);
            return false;
        }
        i += 1;
    }
    assert(text@.subrange(at as int, at + part.len()) =~= part@);
    true
}

/// Whether `text` begins with `part`.
pub fn starts_with(text: &str, part: &str) -> (found: bool)
    ensures
        found == holds_at(text@, part@, 0),
{
    let t = to_chars(text);
    let p = to_chars(part);
    p.len() <= t.len() && matches_at(&t, &p, 0)
}

/// Whether `text` ends with `part`.
pub fn ends_with(text: &str, part: &str) -> (found: bool)
    ensures
        found == holds_at(text@, part@, text@.len() - part@.len()),
{
    let t = to_chars(text);
    let p = to_chars(part);
    p.len() <= t.len() && matches_at(&t, &p, t.len() - p.len())
}

/// Whether `part` occurs anywhere in `text`.
pub fn contains(text: &str, part: &str) -> (found: bool)
    ensures
        found == (exists|at: int| holds_at(text@, part@, at)),
{
    let t = to_chars(text);
    let p = to_chars(part);
    if p.len() > t.len() {
        return false;
    }
    let last: usize = t.len() - p.len();
    let mut at: usize = 0;
    loop
        invariant
            t@ == text@,
            p@ == part@,
            at <= last,
            last + p.len() == t.len(),
            forall|j: int| 0 <= j < at ==> !holds_at(text@, part@, j),
        decreases last - at,
    {
        if matches_at(&t, &p, at) {
            return true;
        }
        if at == last {
            return false;
        }
        at += 1;
    }
}

/// The characters of Unicode's `White_Space` property.
pub open spec fn is_space(c: char) -> bool {
    ||| ('\u{9}' <= c && c <= '\u{d}')
    ||| c == ' '
    ||| c == '\u{85}'
    ||| c == '\u{a0}'
    ||| c == '\u{1680}'
    ||| ('\u{2000}' <= c && c <= '\u{200a}')
    ||| c == '\u{2028}'
    ||| c == '\u{2029}'
    ||| c == '\u{202f}'
    ||| c == '\u{205f}'
    ||| c == '\u{3000}'
}

/// Whether `c` is white space.
pub fn is_whitespace(c: char) -> (space: bool)
    ensures
        space == is_space(c),
{
    ('\u{9}' <= c && c <= '\u{d}') || c == ' ' || c == '\u{85}' || c == '\u{a0}' || c == '\u{1680}'
        || ('\u{2000}' <= c && c <= '\u{200a}') || c == '\u{2028}' || c == '\u{2029}' || c
        == '\u{202f}' || c == '\u{205f}' || c == '\u{3000}'
}

/// `text` without leading and trailing white space.
pub open spec fn trimmed(text: Seq<char>) -> Seq<char>
    decreases text.len(),
{
    if text.len() > 0 && is_space(text.first()) {
        trimmed(text.drop_first())
    } else if text.len() > 0 && is_space(text.last()) {
        trimmed(text.drop_last())
    } else {
        text
    }
}

proof fn lemma_trimmed(text: Seq<char>, from: int, to: int)
    requires
        0 <= from <= to <= text.len(),
        forall|i: int| 0 <= i < from ==> is_space(#[trigger] text[i]),
        forall|i: int| to <= i < text.len() ==> is_space(#[trigger] text[i]),
        from < to ==> !is_space(text[from]) && !is_space(text[to - 1]),
        from == to ==> from == text.len(),
    ensures
        trimmed(text) == text.subrange(from, to),
    decreases text.len(),
{
    if from > 0 {
        assert(is_space(text[0]));
        lemma_trimmed(text.drop_first(), from - 1, to - 1);
        assert(text.drop_first().subrange(from - 1, to - 1) =~= text.subrange(from, to));
    } else if to < text.len() {
        assert(is_space(text[text.len() - 1]));
        lemma_trimmed(text.drop_last(), from, to);
        assert(text.drop_last().subrange(from, to) =~= text.subrange(from, to));
    } else {
        assert(text.subrange(from, to) =~= text);
    }
}

/// Cuts leading and trailing white space off.
pub fn trim(text: &str) -> (inner: String)
    ensures
        inner@ == trimmed(text@),
{
    let t = to_chars(text);
    let mut from: usize = 0;
    while from < t.len() && is_whitespace(t[from])
        invariant
            from <= t.len(),
            forall|i: int| 0 <= i < from ==> is_space(#[trigger] t@[i]),
        decreases t.len() - from,
    {
        from += 1;
    }
    let mut to: usize = t.len();
    while to > from && is_whitespace(t[to - 1])
        invariant
            from <= to <= t.len(),
            from < t.len() ==> !is_space(t@[from as int]),
            forall|i: int| to <= i < t.len() ==> is_space(#[trigger] t@[i]),
        decreases to,
    {
        to -= 1;
    }
    let inner = substring(&t, from, to);
    proof {
        lemma_trimmed(text@, from as int, to as int);
    }
    inner
}

/// The character of a decimal digit.
pub open spec fn digit_char(d: nat) -> char {
    ('0' as u32 + d) as char
}

/// A number in decimal, without leading zeros.
pub open spec fn decimal(n: nat) -> Seq<char>
    decreases n,
{
    if n < 10 {
        seq![digit_char(n)]
    } else {
        decimal(n / 10).push(digit_char(n % 10))
    }
}

/// Appends `n` in decimal.
pub fn push_decimal(out: &mut String, n: u128)
    ensures
        final(out)@ == old(out)@ + decimal(n as nat),
    decreases n,
{
    if n >= 10 {
        push_decimal(out, n / 10);
    }
    let d: u8 = 48u8 + (n % 10) as u8;
    let ghost before = out@;
    out.push(d as char);
    assert(out@ =~= old(out)@ + decimal(n as nat));
}

/// `n` in decimal.
pub fn to_decimal(n: u128) -> (text: String)
    ensures
        text@ == decimal(n as nat),
{
    let mut out = String::new();
    push_decimal(&mut out, n);
    assert(out@ =~= decimal(n as nat));
    out
}

/// A signed number in decimal: a minus sign and the magnitude below zero.
pub open spec fn signed_decimal(n: int) -> Seq<char> {
    if n < 0 {
        seq!['-'] + decimal((-n) as nat)
    } else {
        decimal(n as nat)
    }
}

/// `n` in decimal, with a minus sign where it is negative.
pub fn to_signed_decimal(n: i64) -> (text: String)
    ensures
        text@ == signed_decimal(n as int),
{
    if n < 0 {
        let mut out = String::new();
        out.push('-');
        let magnitude: i128 = -(n as i128);
        push_decimal(&mut out, magnitude as u128);
        assert(out@ =~= signed_decimal(n as int));
        out
    } else {
        to_decimal(n as u128)
    }
}

/// Why a text is not a decimal number of the wanted size.
#[derive(Debug, Clone, Copy, PartialEq, Eq, Structural)]
pub enum NumberError {
    /// There is nothing to read.
    Empty,
    /// A character is not a digit.
    InvalidDigit,
    /// The number is larger than the largest one allowed.
    TooLarge,
}

impl NumberError {
    /// The error in words.
    pub open spec fn words(self) -> Seq<char> {
        match self {
            NumberError::Empty => "cannot parse integer from empty string"@,
            NumberError::InvalidDigit => "invalid digit found in string"@,
            NumberError::TooLarge => "number too large to fit in target type"@,
        }
    }

    /// The error in words, for a message.
    pub fn message(self) -> (text: String)
        ensures
            text@ == self.words(),
    {
        match self {
            NumberError::Empty => "cannot parse integer from empty string".to_owned(),
            NumberError::InvalidDigit => "invalid digit found in string".to_owned(),
            NumberError::TooLarge => "number too large to fit in target type".to_owned(),
        }
    }
}

/// Whether `c` is a decimal digit.
pub open spec fn is_digit(c: char) -> bool {
    '0' <= c && c <= '9'
}

/// The number that `digits` spells, read from the left; the first character that is no digit,
/// or that takes the number over `max`, decides the error.
pub open spec fn digits_value(digits: Seq<char>, max: nat) -> Result<nat, NumberError>
    decreases digits.len(),
{
    if digits.len() == 0 {
        Ok(0)
    } else {
        match digits_value(digits.drop_last(), max) {
            Err(e) => Err(e),
            Ok(v) => if !is_digit(digits.last()) {
                Err(NumberError::InvalidDigit)
            } else {
                let next = v * 10 + (digits.last() as u32 - '0' as u32) as nat;
                if next > max {
                    Err(NumberError::TooLarge)
                } else {
                    Ok(next)
                }
            },
        }
    }
}

/// The number up to `max` that `text` spells: decimal digits, after a plus sign or not.
pub open spec fn number_value(text: Seq<char>, max: nat) -> Result<nat, NumberError> {
    if text.len() == 0 {
        Err(NumberError::Empty)
    } else if text == seq!['+'] {
        Err(NumberError::InvalidDigit)
    } else if text[0] == '+' {
        digits_value(text.skip(1), max)
    } else {
        digits_value(text, max)
    }
}

/// A prefix that is no number spoils the whole.
proof fn lemma_digits_error_stays(digits: Seq<char>, k: int, max: nat)
    requires
        0 <= k <= digits.len(),
        digits_value(digits.take(k), max) is Err,
    ensures
        digits_value(digits, max) == digits_value(digits.take(k), max),
    decreases digits.len() - k,
{
    if k < digits.len() {
        assert(digits.take(k + 1).drop_last() == digits.take(k));
        lemma_digits_error_stays(digits, k + 1, max);
    } else {
        assert(digits.take(k) == digits);
    }
}

/// Reads a decimal number that is at most `max`.
pub fn parse_number(text: &str, max: u64) -> (res: Result<u64, NumberError>)
    ensures
        match number_value(text@, max as nat) {
            Ok(v) => res == Ok::<u64, NumberError>(v as u64) && v <= max,
            Err(e) => res == Err::<u64, NumberError>(e),
        },
{
    let t = to_chars(text);
    if t.len() == 0 {
        return Err(NumberError::Empty);
    }
    let first: usize = if t[0] == '+' {
        1
    } else {
        0
    };
    if first == 1 && t.len() == 1 {
        assert(text@ =~= seq!['+']);
        return Err(NumberError::InvalidDigit);
    }
    let ghost digits = text@.skip(first as int);
    proof {
        assert(first == 0 ==> digits =~= text@);
        assert(text@ == seq!['+'] ==> text@[0] == '+' && text@.len() == 1);
        assert(number_value(text@, max as nat) == digits_value(digits, max as nat));
    }
    let mut value: u64 = 0;
    let mut i: usize = first;
    assert(digits.take(0) =~= Seq::<char>::empty());
    while i < t.len()
        invariant
            first <= i <= t.len(),
            t@ == text@,
            digits == text@.skip(first as int),
            number_value(text@, max as nat) == digits_value(digits, max as nat),
            value <= max,
            digits_value(digits.take(i - first), max as nat) == Ok::<nat, NumberError>(
                value as nat,
            ),
        decreases t.len() - i,
    {
        let c = t[i];
        let ghost upto = digits.take(i - first + 1);
        proof {
            assert(upto.drop_last() == digits.take(i - first));
            assert(upto.last() == c);
            if digits_value(upto, max as nat) is Err {
                lemma_digits_error_stays(digits, i - first + 1, max as nat);
            }
        }
        if c < '0' || c > '9' {
            return Err(NumberError::InvalidDigit);
        }
        let d: u32 = c as u32 - '0' as u32;
        let next: u128 = value as u128 * 10 + d as u128;
        if next > max as u128 {
            return Err(NumberError::TooLarge);
        }
        value = next as u64;
        i += 1;
    }
    assert(digits.take(t.len() - first) =~= digits);
    Ok(value)
}

/// The decimal form of a number is made of digits.
pub proof fn law_decimal_is_digits(n: nat)
    ensures
        decimal(n).len() > 0,
        forall|i: int| 0 <= i < decimal(n).len() ==> is_digit(#[trigger] decimal(n)[i]),
    decreases n,
{
    assert(is_digit(digit_char(n % 10)));
    if n >= 10 {
        law_decimal_is_digits(n / 10);
        assert forall|i: int| 0 <= i < decimal(n).len() implies is_digit(
            #[trigger] decimal(n)[i],
        ) by {
            if i < decimal(n / 10).len() {
                assert(decimal(n)[i] == decimal(n / 10)[i]);
            }
        }
    }
}

proof fn lemma_digits_of_decimal(n: nat, max: nat)
    requires
        n <= max,
    ensures
        digits_value(decimal(n), max) == Ok::<nat, NumberError>(n),
    decreases n,
{
    reveal_with_fuel(digits_value, 2);
    assert(decimal(n).last() == digit_char(n % 10));
    if n >= 10 {
        lemma_digits_of_decimal(n / 10, max);
        assert(decimal(n).drop_last() =~= decimal(n / 10));
    } else {
        assert(decimal(n).drop_last() =~= Seq::<char>::empty());
    }
}

/// Reading a number from its decimal form gives it back.
pub proof fn law_number_of_decimal(n: nat, max: nat)
    requires
        n <= max,
    ensures
        number_value(decimal(n), max) == Ok::<nat, NumberError>(n),
{
    law_decimal_is_digits(n);
    assert(is_digit(decimal(n)[0]));
    lemma_digits_of_decimal(n, max);
    assert(seq!['+'][0] == '+');
}

/// A character is read by its place: one more digit at the end makes ten times the number plus the
/// digit, unless that is larger than allowed; a character that is no digit spoils the number.
pub proof fn law_digits_are_read_by_place(
    text: &str,
    longer: &str,
    c: char,
    max: u64,
    value: u64,
    res: Result<u64, NumberError>,
)
    requires
        longer@ == text@.push(c),
        text@.len() > 0,
        call_ensures(parse_number, (text, max), Ok::<u64, NumberError>(value)),
        call_ensures(parse_number, (longer, max), res),
    ensures
        '0' <= c && c <= '9' && value * 10 + (c as u32 - 48) <= max ==> (res matches Ok(n) && n
            == value * 10 + (c as u32 - 48)),
        '0' <= c && c <= '9' && value * 10 + (c as u32 - 48) > max ==> res == Err::<
            u64,
            NumberError,
        >(NumberError::TooLarge),
        !('0' <= c && c <= '9') ==> res == Err::<u64, NumberError>(NumberError::InvalidDigit),
{
    let digits = if text@[0] == '+' {
        text@.skip(1)
    } else {
        text@
    };
    assert(longer@[0] == text@[0]);
    assert(longer@.skip(1) =~= text@.skip(1).push(c));
    assert(longer@.len() != seq!['+'].len());
    assert(digits.push(c).drop_last() =~= digits);
}

/// The shortest numbers: nothing is no number, one digit is its value, and any other single
/// character is none.
pub proof fn law_single_digits(text: &str, max: u64, res: Result<u64, NumberError>)
    requires
        text@.len() <= 1,
        call_ensures(parse_number, (text, max), res),
    ensures
        text@.len() == 0 ==> res == Err::<u64, NumberError>(NumberError::Empty),
        text@.len() == 1 && '0' <= text@[0] && text@[0] <= '9' ==> if text@[0] as u32 - 48 <= max {
            res matches Ok(n) && n == text@[0] as u32 - 48
        } else {
            res == Err::<u64, NumberError>(NumberError::TooLarge)
        },
        text@.len() == 1 && !('0' <= text@[0] && text@[0] <= '9') ==> res == Err::<
            u64,
            NumberError,
        >(NumberError::InvalidDigit),
{
    reveal_with_fuel(digits_value, 2);
    assert(text@.len() == 1 && text@[0] == '+' ==> text@ =~= seq!['+']);
    assert(text@.len() == 1 && text@[0] != '+' ==> text@ != seq!['+']) by {
        assert(seq!['+'][0] == '+');
    }
    assert(text@.len() == 1 ==> text@.drop_last() =~= Seq::<char>::empty());
}

/// A plus sign before a number changes nothing, and a second one spoils it.
pub proof fn law_plus_sign_changes_nothing(
    text: &str,
    signed: &str,
    max: u64,
    plain: Result<u64, NumberError>,
    res: Result<u64, NumberError>,
)
    requires
        signed@ == seq!['+'] + text@,
        text@.len() > 0,
        call_ensures(parse_number, (text, max), plain),
        call_ensures(parse_number, (signed, max), res),
    ensures
        text@[0] != '+' ==> res == plain,
        text@[0] == '+' ==> res == Err::<u64, NumberError>(NumberError::InvalidDigit),
{
    assert(signed@.skip(1) =~= text@);
    assert(signed@.len() != seq!['+'].len());
    if text@[0] != '+' {
        assert(text@ != seq!['+']) by {
            assert(seq!['+'][0] == '+');
        }
    } else {
        reveal_with_fuel(digits_value, 2);
        assert(text@.take(1).drop_last() =~= Seq::<char>::empty());
        assert(!is_digit('+'));
        lemma_digits_error_stays(text@, 1, max as nat);
    }
}

/// What is wrong at the beginning of a text is wrong with the whole of it.
pub proof fn law_bad_beginning_spoils_a_number(
    text: &str,
    longer: &str,
    max: u64,
    e: NumberError,
    res: Result<u64, NumberError>,
)
    requires
        text@.len() > 1,
        text@.len() <= longer@.len(),
        text@ == longer@.take(text@.len() as int),
        call_ensures(parse_number, (text, max), Err::<u64, NumberError>(e)),
        call_ensures(parse_number, (longer, max), res),
    ensures
        res == Err::<u64, NumberError>(e),
{
    let n = text@.len() as int;
    assert(longer@[0] == text@[0]);
    assert(text@ != seq!['+']);
    assert(longer@ != seq!['+']);
    if text@[0] == '+' {
        assert(longer@.skip(1).take(n - 1) =~= text@.skip(1));
        lemma_digits_error_stays(longer@.skip(1), n - 1, max as nat);
    } else {
        lemma_digits_error_stays(longer@, n, max as nat);
    }
}

/// Decimal forms are written by place: the last character is the last digit, and what stands before
/// it is the decimal form of the rest. No number above zero starts with a zero.
pub proof fn law_decimal_by_place(n: u128, text: String)
    requires
        call_ensures(to_decimal, (n,), text),
    ensures
        n < 10 ==> text@.len() == 1,
        n >= 10 ==> text@.drop_last() == decimal((n / 10) as nat),
        text@.last() as u32 == 48 + n % 10,
        n > 0 ==> text@[0] != '0',
{
    lemma_no_leading_zero(n as nat);
    if n >= 10 {
        assert(text@.drop_last() =~= decimal((n / 10) as nat));
    }
}

proof fn lemma_no_leading_zero(n: nat)
    ensures
        decimal(n).len() > 0,
        n > 0 ==> decimal(n)[0] != '0',
    decreases n,
{
    if n >= 10 {
        lemma_no_leading_zero(n / 10);
        assert(decimal(n)[0] == decimal(n / 10)[0]);
    }
}

/// Writing a number and reading it gives the number, and a negative one is written as a minus sign
/// before what stands for it without its sign.
pub proof fn law_written_numbers_are_read_back(
    n: u64,
    text: String,
    m: i64,
    signed: String,
    magnitude: String,
)
    requires
        call_ensures(to_decimal, (n as u128,), text),
        m < 0,
        call_ensures(to_signed_decimal, (m,), signed),
        call_ensures(to_decimal, ((-m) as u128,), magnitude),
    ensures
        number_value(text@, u64::MAX as nat) == Ok::<nat, NumberError>(n as nat),
        signed@ == seq!['-'] + magnitude@,
{
    law_number_of_decimal(n as nat, u64::MAX as nat);
}

/// The errors in the words of the standard library.
pub proof fn law_number_errors_in_words(e: NumberError, text: String)
    requires
        call_ensures(NumberError::message, (e,), text),
    ensures
        e is Empty ==> text@ == "cannot parse integer from empty string"@,
        e is InvalidDigit ==> text@ == "invalid digit found in string"@,
        e is TooLarge ==> text@ == "number too large to fit in target type"@,
{
}

/// Cutting white space off leaves a part of the text that neither begins nor ends with white space,
/// and all that was cut off is white space.
pub proof fn law_only_white_space_is_cut_off(text: &str, inner: String) -> (bounds: (int, int))
    requires
        call_ensures(trim, (text,), inner),
    ensures
        0 <= bounds.0 <= bounds.1 <= text@.len(),
        inner@ == text@.subrange(bounds.0, bounds.1),
        forall|i: int| 0 <= i < bounds.0 ==> is_space(#[trigger] text@[i]),
        forall|i: int| bounds.1 <= i < text@.len() ==> is_space(#[trigger] text@[i]),
        inner@.len() > 0 ==> !is_space(inner@[0]) && !is_space(inner@.last()),
{
    lemma_trimmed_bounds(text@)
}

proof fn lemma_trimmed_bounds(text: Seq<char>) -> (bounds: (int, int))
    ensures
        0 <= bounds.0 <= bounds.1 <= text.len(),
        trimmed(text) == text.subrange(bounds.0, bounds.1),
        forall|i: int| 0 <= i < bounds.0 ==> is_space(#[trigger] text[i]),
        forall|i: int| bounds.1 <= i < text.len() ==> is_space(#[trigger] text[i]),
        trimmed(text).len() > 0 ==> !is_space(trimmed(text)[0]) && !is_space(trimmed(text).last()),
    decreases text.len(),
{
    if text.len() > 0 && is_space(text.first()) {
        let rest = text.drop_first();
        let (from, to) = lemma_trimmed_bounds(rest);
        assert(rest.subrange(from, to) =~= text.subrange(from + 1, to + 1));
        assert forall|i: int| 0 <= i < from + 1 implies is_space(#[trigger] text[i]) by {
            if i > 0 {
                assert(is_space(rest[i - 1]));
            }
        }
        assert forall|i: int| to + 1 <= i < text.len() implies is_space(#[trigger] text[i]) by {
            assert(is_space(rest[i - 1]));
        }
        (from + 1, to + 1)
    } else if text.len() > 0 && is_space(text.last()) {
        let rest = text.drop_last();
        let (from, to) = lemma_trimmed_bounds(rest);
        assert(rest.subrange(from, to) =~= text.subrange(from, to));
        assert forall|i: int| 0 <= i < from implies is_space(#[trigger] text[i]) by {
            assert(is_space(rest[i]));
        }
        assert forall|i: int| to <= i < text.len() implies is_space(#[trigger] text[i]) by {
            if i < text.len() - 1 {
                assert(is_space(rest[i]));
            }
        }
        (from, to)
    } else {
        assert(text.subrange(0, text.len() as int) =~= text);
        (0, text.len() as int)
    }
}

/// The white space of ASCII is the space and the five characters from the tab to the carriage
/// return; the other white space lies above ASCII.
pub proof fn law_ascii_white_space(c: char, space: bool)
    requires
        call_ensures(is_whitespace, (c,), space),
    ensures
        (c as u32) < 0x80 ==> (space <==> c as u32 == 0x20 || 9 <= c as u32 <= 13),
        c as u32 >= 0x80 ==> (space <==> c as u32 == 0x85 || c as u32 == 0xa0 || c as u32 == 0x1680
            || 0x2000 <= c as u32 <= 0x200a || c as u32 == 0x2028 || c as u32 == 0x2029 || c as u32
            == 0x202f || c as u32 == 0x205f || c as u32 == 0x3000),
{
}

pub(crate) proof fn lemma_same_but_for_case(a: Seq<char>, b: Seq<char>)
    ensures
        same_ignoring_case(a, b) <==> a.len() == b.len() && forall|i: int|
            0 <= i < a.len() ==> {
                let (x, y) = (#[trigger] a[i] as u32, b[i] as u32);
                x == y || (65 <= x <= 90 && y == x + 32) || (65 <= y <= 90 && x == y + 32)
            },
{
    assert forall|x: char, y: char| #[trigger] ascii_lower(x) == #[trigger] ascii_lower(y) <==> {
        let (p, q) = (x as u32, y as u32);
        p == q || (65 <= p <= 90 && q == p + 32) || (65 <= q <= 90 && p == q + 32)
    } by {
        lemma_lower_code(x);
        lemma_lower_code(y);
        assert(ascii_lower(x) == ascii_lower(y) <==> ascii_lower(x) as u32 == ascii_lower(y) as u32);
    }
    if same_ignoring_case(a, b) {
        assert forall|i: int| 0 <= i < a.len() implies {
            let (x, y) = (#[trigger] a[i] as u32, b[i] as u32);
            x == y || (65 <= x <= 90 && y == x + 32) || (65 <= y <= 90 && x == y + 32)
        } by {
            assert(ascii_lower(a[i]) == ascii_lower(b[i]));
        }
    }
}

/// Two texts are the same without regard to case exactly where each character is the same or the
/// other case of the same ASCII letter, whose codes are 32 apart.
pub proof fn law_case_of_ascii_letters(a: &str, b: &str, same: bool)
    requires
        call_ensures(eq_ignore_ascii_case, (a, b), same),
    ensures
        same <==> a@.len() == b@.len() && forall|i: int|
            0 <= i < a@.len() ==> {
                let (x, y) = (#[trigger] a@[i] as u32, b@[i] as u32);
                x == y || (65 <= x <= 90 && y == x + 32) || (65 <= y <= 90 && x == y + 32)
            },
{
    lemma_same_but_for_case(a@, b@);
}

proof fn lemma_lower_code(c: char)
    ensures
        ascii_lower(c) as u32 == (if 65 <= c as u32 <= 90 {
            (c as u32 + 32) as u32
        } else {
            c as u32
        }),
{
}

/// A text begins with a part exactly where it is that part and some rest, ends with it where it is
/// some beginning and that part, and holds it where it is a beginning, that part and a rest.
pub proof fn law_parts_of_a_text(
    text: &str,
    part: &str,
    before: Seq<char>,
    behind: Seq<char>,
    starts: bool,
    ends: bool,
    holds: bool,
)
    requires
        call_ensures(starts_with, (text, part), starts),
        call_ensures(ends_with, (text, part), ends),
        call_ensures(contains, (text, part), holds),
    ensures
        text@ == part@ + behind ==> starts,
        text@ == before + part@ ==> ends,
        text@ == before + part@ + behind ==> holds,
        starts ==> part@.len() <= text@.len() && text@ == part@ + text@.skip(
            part@.len() as int,
        ),
        ends ==> part@.len() <= text@.len() && text@ == text@.take(text@.len() - part@.len())
            + part@,
        holds ==> exists|at: int|
            0 <= at <= text@.len() - part@.len() && #[trigger] text@.subrange(
                at,
                at + part@.len(),
            ) == part@,
        starts || ends ==> holds,
{
    let n = part@.len() as int;
    if text@ == part@ + behind {
        assert(text@.subrange(0, n) =~= part@);
    }
    if text@ == before + part@ {
        assert(text@.subrange(text@.len() - n, text@.len() as int) =~= part@);
    }
    if text@ == before + part@ + behind {
        assert(text@.subrange(before.len() as int, before.len() + n) =~= part@);
        assert(holds_at(text@, part@, before.len() as int));
    }
    if starts {
        assert(text@ =~= text@.subrange(0, n) + text@.skip(n));
        assert(holds_at(text@, part@, 0));
    }
    if ends {
        let at = text@.len() - n;
        assert(text@ =~= text@.take(at) + text@.subrange(at, at + n));
        assert(holds_at(text@, part@, at));
    }
    if holds {
        let at = choose|at: int| holds_at(text@, part@, at);
        assert(text@.subrange(at, at + part@.len()) == part@);
    }
}

/// The characters of a text and a part of them: all of them in order, and those from one place to
/// another; two texts are the same where they have the same characters.
pub proof fn law_characters_of_a_text(
    text: &str,
    chars: &Vec<char>,
    from: usize,
    to: usize,
    part: String,
    other: &str,
    same: bool,
)
    requires
        call_ensures(to_chars, (text,), *chars),
        from <= to <= text@.len(),
        call_ensures(substring, (chars, from, to), part),
        call_ensures(same_text, (text, other), same),
    ensures
        part@.len() == to - from,
        forall|i: int| 0 <= i < to - from ==> #[trigger] part@[i] == text@[from + i],
        same <==> text@ == other@,
{
}

/// Appending a number appends its decimal form and keeps what was there.
pub proof fn law_numbers_are_appended(out: &mut String, n: u128, text: String)
    requires
        call_ensures(push_decimal, (out, n), ()),
        call_ensures(to_decimal, (n,), text),
    ensures
        final(out)@ == old(out)@ + text@,
{
}

} // verus!
