//! Plain text: decimal numbers, alignment, prefixes and blank lines.

use vstd::prelude::*;
use vstd::string::*;

verus! {

// ---------------------------------------------------------------------------
// Decimal numbers
// ---------------------------------------------------------------------------

/// The character for a single decimal digit.
pub open spec fn digit(d: nat) -> char {
    (48 + d) as char
}

/// `n` in decimal, without leading zeros.
pub open spec fn decimal(n: nat) -> Seq<char>
    decreases n,
{
    if n < 10 {
        seq![digit(n)]
    } else {
        decimal(n / 10).push(digit(n % 10))
    }
}

/// `n` copies of `c`.
pub open spec fn run(c: char, n: nat) -> Seq<char> {
    Seq::new(n, |i: int| c)
}

/// How many copies of a filler bring `s` up to `width` characters.
pub open spec fn missing(s: Seq<char>, width: nat) -> nat {
    if s.len() < width {
        (width - s.len()) as nat
    } else {
        0
    }
}

/// `s` padded with blanks on the right up to `width` characters.
pub open spec fn left_aligned(s: Seq<char>, width: nat) -> Seq<char> {
    s + run(' ', missing(s, width))
}

/// `s` padded with blanks on the left up to `width` characters.
pub open spec fn right_aligned(s: Seq<char>, width: nat) -> Seq<char> {
    run(' ', missing(s, width)) + s
}

/// `n` in decimal, padded with zeros on the left up to `width` characters.
pub open spec fn zero_padded(n: nat, width: nat) -> Seq<char> {
    run('0', missing(decimal(n), width)) + decimal(n)
}

/// Whether a cell of a table holds `value` at its start, and blanks behind it as
/// far as it has to be filled up.
pub open spec fn fills_left(cell: Seq<char>, value: Seq<char>, width: nat) -> bool {
    &&& cell.len() == if value.len() < width {
        width
    } else {
        value.len()
    }
    &&& cell.take(value.len() as int) == value
    &&& forall|i: int| value.len() <= i < cell.len() ==> cell[i] == ' '
}

/// Whether a cell of a table holds `value` at its end, and blanks before it as
/// far as it has to be filled up.
pub open spec fn fills_right(cell: Seq<char>, value: Seq<char>, width: nat) -> bool {
    &&& cell.len() == if value.len() < width {
        width
    } else {
        value.len()
    }
    &&& cell.skip(cell.len() - value.len()) == value
    &&& forall|i: int| 0 <= i < cell.len() - value.len() ==> cell[i] == ' '
}

/// A text that is aligned fills its cell on the side it is aligned to.
pub proof fn aligned_texts_fill_their_cells(s: Seq<char>, width: nat)
    ensures
        fills_left(left_aligned(s, width), s, width),
        fills_right(right_aligned(s, width), s, width),
{
    let left = left_aligned(s, width);
    let right = right_aligned(s, width);
    assert(left.take(s.len() as int) =~= s);
    assert(right.skip(right.len() - s.len()) =~= s);
}

fn digit_text(d: u64) -> (r: &'static str)
    requires
        d < 10,
    ensures
        r@ == seq![digit(d as nat)],
{
    proof {
        reveal_strlit("0");
        reveal_strlit("1");
        reveal_strlit("2");
        reveal_strlit("3");
        reveal_strlit("4");
        reveal_strlit("5");
        reveal_strlit("6");
        reveal_strlit("7");
        reveal_strlit("8");
        reveal_strlit("9");
    }
    if d == 0 {
        "0"
    } else if d == 1 {
        "1"
    } else if d == 2 {
        "2"
    } else if d == 3 {
        "3"
    } else if d == 4 {
        "4"
    } else if d == 5 {
        "5"
    } else if d == 6 {
        "6"
    } else if d == 7 {
        "7"
    } else if d == 8 {
        "8"
    } else {
        "9"
    }
}

/// Appends `n` in decimal.
pub fn push_decimal(out: &mut String, n: u64)
    ensures
        final(out)@ == old(out)@ + decimal(n as nat),
    decreases n,
{
    if n >= 10 {
        push_decimal(out, n / 10);
    }
    out.append(digit_text(n % 10));
    assert(out@ =~= old(out)@ + decimal(n as nat));
}

/// Appends `n` copies of the one-character text `unit`.
pub fn push_run(out: &mut String, unit: &str, n: usize)
    requires
        unit@.len() == 1,
    ensures
        final(out)@ == old(out)@ + run(unit@[0], n as nat),
{
    let ghost start = out@;
    let mut i: usize = 0;
    assert(out@ =~= start + run(unit@[0], 0));
    while i < n
        invariant
            i <= n,
            unit@.len() == 1,
            out@ == start + run(unit@[0], i as nat),
        decreases n - i,
    {
        out.append(unit);
        i = i + 1;
        assert(out@ =~= start + run(unit@[0], i as nat));
    }
}

/// `n` copies of the one-character text `unit`.
pub fn repeated(unit: &str, n: usize) -> (r: String)
    requires
        unit@.len() == 1,
    ensures
        r@ == run(unit@[0], n as nat),
{
    let mut out = String::new();
    push_run(&mut out, unit, n);
    assert(out@ =~= run(unit@[0], n as nat));
    out
}

/// `n` in decimal.
pub fn decimal_text(n: u64) -> (r: String)
    ensures
        r@ == decimal(n as nat),
{
    let mut out = String::new();
    push_decimal(&mut out, n);
    assert(out@ =~= decimal(n as nat));
    out
}

/// Appends `s` padded with blanks on the right.
pub fn push_left_aligned(out: &mut String, s: &str, width: usize)
    ensures
        final(out)@ == old(out)@ + left_aligned(s@, width as nat),
{
    proof {
        reveal_strlit(" ");
    }
    out.append(s);
    let len = s.unicode_len();
    if len < width {
        push_run(out, " ", width - len);
    }
    assert(out@ =~= old(out)@ + left_aligned(s@, width as nat));
}

/// Appends `s` padded with blanks on the left.
pub fn push_right_aligned(out: &mut String, s: &str, width: usize)
    ensures
        final(out)@ == old(out)@ + right_aligned(s@, width as nat),
{
    proof {
        reveal_strlit(" ");
    }
    let len = s.unicode_len();
    if len < width {
        push_run(out, " ", width - len);
    }
    out.append(s);
    assert(out@ =~= old(out)@ + right_aligned(s@, width as nat));
}

/// Appends `n` in decimal, padded with zeros on the left.
pub fn push_zero_padded(out: &mut String, n: u64, width: usize)
    ensures
        final(out)@ == old(out)@ + zero_padded(n as nat, width as nat),
{
    proof {
        reveal_strlit("0");
    }
    let number = decimal_text(n);
    let len = number.as_str().unicode_len();
    if len < width {
        push_run(out, "0", width - len);
    }
    out.append(number.as_str());
    assert(out@ =~= old(out)@ + zero_padded(n as nat, width as nat));
}

/// Lines that are put together end with the last of them.
pub proof fn lemma_last_line(lines: Seq<Seq<char>>)
    ensures
        lines.len() == 0 ==> lines.flatten() == Seq::<char>::empty(),
        lines.len() > 0 ==> lines.flatten() == lines.drop_last().flatten() + lines.last(),
{
    if lines.len() > 0 {
        lines.lemma_flatten_and_flatten_alt_are_equivalent();
        lines.drop_last().lemma_flatten_and_flatten_alt_are_equivalent();
    }
}

/// The order of texts: that of the first characters in which they differ, and a
/// text comes before those that it is the start of.
pub open spec fn comes_before(a: Seq<char>, b: Seq<char>) -> bool {
    exists|i: int|
        0 <= i <= a.len() && i < b.len() && #[trigger] a.take(i) == b.take(i) && (i == a.len() || a[i]
            < b[i])
}

/// No text comes before itself, and of two texts no more than one comes before
/// the other.
pub proof fn texts_are_ordered(a: Seq<char>, b: Seq<char>)
    requires
        comes_before(a, b),
    ensures
        a != b,
        !comes_before(b, a),
{
    let i = choose|i: int|
        0 <= i <= a.len() && i < b.len() && #[trigger] a.take(i) == b.take(i) && (i == a.len() || a[i]
            < b[i]);
    if comes_before(b, a) {
        let j = choose|j: int|
            0 <= j <= b.len() && j < a.len() && #[trigger] b.take(j) == a.take(j) && (j == b.len()
                || b[j] < a[j]);
        if i < j {
            assert(a.take(j)[i] == a[i] && b.take(j)[i] == b[i]);
        } else if j < i {
            assert(a.take(i)[j] == a[j] && b.take(i)[j] == b[j]);
        }
    }
}

// ---------------------------------------------------------------------------
// Quoting
// ---------------------------------------------------------------------------

/// A text in double quotes, with what cannot be shown escaped: what the `Debug`
/// format of `str` gives.
pub uninterp spec fn debug_quoted(s: Seq<char>) -> Seq<char>;

/// Formats a text with the `Debug` format of `str`. The result is
/// `debug_quoted` of the text.
#[verifier::external_body]
pub(crate) fn quoted(s: &str) -> (r: String)
    ensures
        r@ == debug_quoted(s@),
{
    format!("{s:?}")
}

// ---------------------------------------------------------------------------
// Reading whole numbers
// ---------------------------------------------------------------------------

/// Why a text is not a whole number of 64 bits.
#[derive(Clone, Copy, Debug, PartialEq, Eq, Structural)]
pub enum IntError {
    /// There is nothing to read.
    Empty,
    /// Something other than a decimal digit stands where one is due.
    InvalidDigit,
    /// The digits stand for more than 64 bits hold.
    Overflow,
}

pub open spec fn is_digit(c: char) -> bool {
    '0' <= c && c <= '9'
}

/// The number that a run of digits stands for.
pub open spec fn digits_value(s: Seq<char>) -> nat
    decreases s.len(),
{
    if s.len() == 0 {
        0
    } else {
        digits_value(s.drop_last()) * 10 + (s.last() as nat - 48) as nat
    }
}

/// How many digits `s` starts with.
pub open spec fn leading_digits(s: Seq<char>) -> nat
    decreases s.len(),
{
    if s.len() == 0 || !is_digit(s[0]) {
        0
    } else {
        1 + leading_digits(s.skip(1))
    }
}

/// What is left of `s` behind the one plus sign that a number may carry.
pub open spec fn unsigned_part(s: Seq<char>) -> Seq<char> {
    if s.len() > 1 && s[0] == '+' {
        s.skip(1)
    } else {
        s
    }
}

/// The whole number that `s` stands for: an optional plus sign and then
/// digits alone, at least one of them, for a number below `2^64`.
pub open spec fn parsed_u64(s: Seq<char>) -> Result<u64, IntError> {
    let body = unsigned_part(s);
    let digits = body.take(leading_digits(body) as int);
    if s.len() == 0 {
        Err(IntError::Empty)
    } else if digits_value(digits) > u64::MAX {
        Err(IntError::Overflow)
    } else if digits.len() < body.len() {
        Err(IntError::InvalidDigit)
    } else {
        Ok(digits_value(digits) as u64)
    }
}

proof fn lemma_leading_digits(s: Seq<char>, n: int)
    requires
        0 <= n <= s.len(),
        forall|i: int| 0 <= i < n ==> is_digit(#[trigger] s[i]),
        n < s.len() ==> !is_digit(s[n]),
    ensures
        leading_digits(s) == n,
    decreases n,
{
    if n > 0 {
        let rest = s.skip(1);
        assert forall|i: int| 0 <= i < n - 1 implies is_digit(#[trigger] rest[i]) by {
            assert(rest[i] == s[i + 1]);
        }
        assert(n < s.len() ==> rest[n - 1] == s[n]);
        lemma_leading_digits(rest, n - 1);
    }
}

proof fn lemma_leading_digits_are_digits(s: Seq<char>)
    ensures
        leading_digits(s) <= s.len(),
        forall|i: int| 0 <= i < leading_digits(s) ==> is_digit(#[trigger] s[i]),
    decreases s.len(),
{
    if s.len() > 0 && is_digit(s[0]) {
        let rest = s.skip(1);
        lemma_leading_digits_are_digits(rest);
        assert forall|i: int| 0 <= i < leading_digits(s) implies is_digit(#[trigger] s[i]) by {
            if i > 0 {
                assert(rest[i - 1] == s[i]);
            }
        }
    }
}

proof fn lemma_digits_value_grows(s: Seq<char>, n: int)
    requires
        0 <= n <= s.len(),
    ensures
        digits_value(s.take(n)) <= digits_value(s),
    decreases s.len() - n,
{
    if n < s.len() {
        lemma_digits_value_grows(s, n + 1);
        assert(s.take(n + 1).drop_last() =~= s.take(n));
    } else {
        assert(s.take(n) =~= s);
    }
}

/// Reads a whole number.
pub fn parse_u64(s: &str) -> (r: Result<u64, IntError>)
    ensures
        r == parsed_u64(s@),
{
    let len = s.unicode_len();
    if len == 0 {
        return Err(IntError::Empty);
    }
    let start: usize = if len > 1 && s.get_char(0) == '+' {
        1
    } else {
        0
    };
    let ghost body = unsigned_part(s@);
    assert(body =~= s@.skip(start as int));
    let mut value: u64 = 0;
    let mut i: usize = start;
    while i < len
        invariant
            start <= i <= len,
            len == s@.len(),
            len > 0,
            body == s@.skip(start as int),
            body == unsigned_part(s@),
            forall|k: int| 0 <= k < i - start ==> is_digit(#[trigger] body[k]),
            value == digits_value(body.take(i - start)),
        decreases len - i,
    {
        let c = s.get_char(i);
        let ghost n = i - start;
        assert(c == body[n]);
        if c < '0' || c > '9' {
            proof {
                lemma_leading_digits(body, n);
            }
            return Err(IntError::InvalidDigit);
        }
        assert(body.take(n + 1).drop_last() =~= body.take(n));
        assert(body.take(n + 1).last() == c);
        let d: u64 = c as u64 - 48;
        if value > 1_844_674_407_370_955_161 || (value == 1_844_674_407_370_955_161 && d > 5) {
            proof {
                let digits = body.take(leading_digits(body) as int);
                lemma_leading_digits_are_digits(body);
                assert forall|k: int| 0 <= k < n + 1 implies is_digit(#[trigger] body[k]) by {}
                lemma_leading_digits_reach(body, n + 1);
                lemma_digits_value_grows(digits, n + 1);
                assert(digits.take(n + 1) =~= body.take(n + 1));
            }
            return Err(IntError::Overflow);
        }
        value = value * 10 + d;
        i = i + 1;
    }
    proof {
        lemma_leading_digits(body, body.len() as int);
        assert(body.take(body.len() as int) =~= body);
    }
    Ok(value)
}

proof fn lemma_leading_digits_reach(s: Seq<char>, n: int)
    requires
        0 <= n <= s.len(),
        forall|i: int| 0 <= i < n ==> is_digit(#[trigger] s[i]),
    ensures
        leading_digits(s) >= n,
    decreases n,
{
    if n > 0 {
        let rest = s.skip(1);
        assert forall|i: int| 0 <= i < n - 1 implies is_digit(#[trigger] rest[i]) by {
            assert(rest[i] == s[i + 1]);
        }
        assert(is_digit(s[0]));
        lemma_leading_digits_reach(rest, n - 1);
    }
}

proof fn lemma_decimal_digits(n: nat)
    ensures
        decimal(n).len() > 0,
        forall|i: int| 0 <= i < decimal(n).len() ==> is_digit(#[trigger] decimal(n)[i]),
        digits_value(decimal(n)) == n,
    decreases n,
{
    if n < 10 {
        let s = decimal(n);
        assert(s.drop_last() =~= Seq::<char>::empty());
        assert(digits_value(s.drop_last()) == 0);
    } else {
        lemma_decimal_digits(n / 10);
        assert(decimal(n).drop_last() =~= decimal(n / 10));
    }
}

/// The digits of a number in decimal stand for it, and the first of them is zero
/// only where the number is.
pub proof fn decimals_stand_for_their_numbers(n: nat)
    ensures
        digits_value(decimal(n)) == n,
        n > 0 ==> decimal(n)[0] != '0',
        n >= 1_000 ==> decimal(n).len() >= 4,
    decreases n,
{
    lemma_decimal_digits(n);
    reveal_with_fuel(decimal, 4);
    if n >= 10 {
        decimals_stand_for_their_numbers(n / 10);
        lemma_decimal_digits(n / 10);
    }
}

/// A number written in decimal reads back as the same number.
pub proof fn decimal_reads_back(n: u64)
    ensures
        parsed_u64(decimal(n as nat)) == Ok::<u64, IntError>(n),
{
    let s = decimal(n as nat);
    lemma_decimal_digits(n as nat);
    assert(is_digit(s[0]));
    lemma_leading_digits(s, s.len() as int);
    assert(s.take(s.len() as int) =~= s);
}

/// A single digit is read as its value, a number with one more digit as ten
/// times the number and the digit, as long as that fits in 64 bits; and a sign
/// changes nothing.
#[verifier::rlimit(60)]
pub proof fn numbers_are_read_digit_by_digit(s: Seq<char>, c: char)
    ensures
        parsed_u64(seq![c]) == if is_digit(c) {
            Ok::<u64, IntError>((c as int - '0' as int) as u64)
        } else {
            Err(IntError::InvalidDigit)
        },
        parsed_u64(s) matches Ok(n) ==> parsed_u64(s.push(c)) == if !is_digit(c) {
            Err::<u64, IntError>(IntError::InvalidDigit)
        } else if 10 * n + (c as int - '0' as int) <= u64::MAX {
            Ok((10 * n + (c as int - '0' as int)) as u64)
        } else {
            Err(IntError::Overflow)
        },
        parsed_u64(s) == Err::<u64, IntError>(IntError::Overflow) ==> parsed_u64(s.push(c)) == Err::<
            u64,
            IntError,
        >(IntError::Overflow),
        parsed_u64(s) == Err::<u64, IntError>(IntError::InvalidDigit) && s != seq!['+']
            ==> parsed_u64(s.push(c)) == Err::<u64, IntError>(IntError::InvalidDigit),
        s.len() > 0 && s[0] != '+' ==> parsed_u64(seq!['+'] + s) == parsed_u64(s),
{
    let one = seq![c];
    lemma_leading_digits(
        one,
        if is_digit(c) {
            1
        } else {
            0
        },
    );
    assert(one.take(1) =~= one);
    assert(one.drop_last() =~= Seq::<char>::empty());
    assert(digits_value(Seq::<char>::empty()) == 0);
    assert(one.take(0) =~= Seq::<char>::empty());
    if s.len() > 0 {
        let body = unsigned_part(s);
        let more = unsigned_part(s.push(c));
        let n = leading_digits(body) as int;
        lemma_leading_digits_are_digits(body);
        lemma_leading_digits_stop(body);
        if s != seq!['+'] {
            if s.len() == 1 {
                assert(s[0] != '+') by {
                    if s[0] == '+' {
                        assert(s =~= seq!['+']);
                    }
                }
            }
            assert(more =~= body.push(c));
            if n < body.len() {
                assert forall|i: int| 0 <= i < n implies is_digit(#[trigger] more[i]) by {
                    assert(more[i] == body[i]);
                }
                assert(more[n] == body[n]);
                lemma_leading_digits(more, n);
                assert(more.take(n) =~= body.take(n));
            } else {
                let k: int = if is_digit(c) {
                    n + 1
                } else {
                    n
                };
                assert forall|i: int| 0 <= i < k implies is_digit(#[trigger] more[i]) by {
                    if i < n {
                        assert(more[i] == body[i]);
                    }
                }
                lemma_leading_digits(more, k);
                assert(body.take(n) =~= body);
                assert(more.take(n) =~= body);
                if is_digit(c) {
                    assert(more.take(n + 1) =~= more);
                    assert(more.drop_last() =~= body);
                }
            }
        } else {
            assert(s[0] == '+');
            assert(body =~= s);
            assert(leading_digits(body) == 0);
            assert(body.take(0) =~= Seq::<char>::empty());
        }
        if s[0] != '+' {
            let signed = seq!['+'] + s;
            assert(unsigned_part(signed) =~= s);
        }
    }
}

proof fn lemma_leading_digits_stop(s: Seq<char>)
    ensures
        leading_digits(s) < s.len() ==> !is_digit(s[leading_digits(s) as int]),
    decreases s.len(),
{
    if s.len() > 0 && is_digit(s[0]) {
        let rest = s.skip(1);
        lemma_leading_digits_stop(rest);
        lemma_leading_digits_are_digits(rest);
        if leading_digits(s) < s.len() {
            assert(rest[leading_digits(rest) as int] == s[leading_digits(s) as int]);
        }
    }
}

// ---------------------------------------------------------------------------
// Comparing and taking apart
// ---------------------------------------------------------------------------

/// Whether the two texts are the same.
pub fn same(a: &str, b: &str) -> (r: bool)
    ensures
        r == (a@ == b@),
{
    a.to_owned() == b.to_owned()
}

pub open spec fn starts_with(s: Seq<char>, prefix: Seq<char>) -> bool {
    s.len() >= prefix.len() && s.take(prefix.len() as int) == prefix
}

/// Whether `s` starts with `prefix`.
pub fn has_prefix(s: &str, prefix: &str) -> (r: bool)
    ensures
        r == starts_with(s@, prefix@),
{
    let n = prefix.unicode_len();
    if s.unicode_len() < n {
        return false;
    }
    same(s.substring_char(0, n), prefix)
}

/// `s` without `prefix`, taken away at the start as often as it stands there.
pub open spec fn without_prefixes(s: Seq<char>, prefix: Seq<char>) -> Seq<char>
    decreases s.len(),
{
    if prefix.len() > 0 && starts_with(s, prefix) {
        without_prefixes(s.skip(prefix.len() as int), prefix)
    } else {
        s
    }
}

/// Takes `prefix` away at the start of `s`, as often as it stands there.
pub fn strip_prefixes<'a>(s: &'a str, prefix: &str) -> (r: &'a str)
    ensures
        r@ == without_prefixes(s@, prefix@),
    decreases s@.len(),
{
    let n = prefix.unicode_len();
    if n > 0 && has_prefix(s, prefix) {
        let rest = s.substring_char(n, s.unicode_len());
        assert(rest@ =~= s@.skip(n as int));
        strip_prefixes(rest, prefix)
    } else {
        s
    }
}

/// A prefix in front changes nothing of what is left without it, and what is left
/// does not start with it.
pub proof fn prefixes_are_taken_away(s: Seq<char>, prefix: Seq<char>)
    requires
        prefix.len() > 0,
    ensures
        without_prefixes(prefix + s, prefix) == without_prefixes(s, prefix),
        !starts_with(without_prefixes(s, prefix), prefix),
        !starts_with(s, prefix) ==> without_prefixes(s, prefix) == s,
    decreases s.len(),
{
    let more = prefix + s;
    assert(more.take(prefix.len() as int) =~= prefix);
    assert(more.skip(prefix.len() as int) =~= s);
    if starts_with(s, prefix) {
        prefixes_are_taken_away(s.skip(prefix.len() as int), prefix);
    }
}

/// The characters with the Unicode property `White_Space`.
pub open spec fn is_white_space(c: char) -> bool {
    ||| '\u{9}' <= c && c <= '\u{d}'
    ||| c == '\u{20}'
    ||| c == '\u{85}'
    ||| c == '\u{a0}'
    ||| c == '\u{1680}'
    ||| '\u{2000}' <= c && c <= '\u{200a}'
    ||| c == '\u{2028}'
    ||| c == '\u{2029}'
    ||| c == '\u{202f}'
    ||| c == '\u{205f}'
    ||| c == '\u{3000}'
}

fn white_space(c: char) -> (r: bool)
    ensures
        r == is_white_space(c),
{
    ('\u{9}' <= c && c <= '\u{d}') || c == '\u{20}' || c == '\u{85}' || c == '\u{a0}' || c
        == '\u{1680}' || ('\u{2000}' <= c && c <= '\u{200a}') || c == '\u{2028}' || c == '\u{2029}'
        || c == '\u{202f}' || c == '\u{205f}' || c == '\u{3000}'
}

/// Whether `s` holds nothing but white space.
pub open spec fn is_blank(s: Seq<char>) -> bool {
    forall|i: int| 0 <= i < s.len() ==> is_white_space(#[trigger] s[i])
}

/// Whether a line holds nothing but white space.
pub fn blank(s: &str) -> (r: bool)
    ensures
        r == is_blank(s@),
{
    for c in it: s.chars()
        invariant
            it.seq() == s@,
            forall|k: int| 0 <= k < it.index() ==> is_white_space(#[trigger] s@[k]),
    {
        if !white_space(c) {
            return false;
        }
    }
    true
}

} // verus!
