//! Window handles travel to the user interface as decimal text and come back
//! as text: the handle is written the way `isize`'s `to_string` writes it and
//! read back the way `str::parse::<isize>` reads it.
use vstd::prelude::*;
use crate::text::{chars_of, push_char, string_of};

verus! {

/// Why a text is not a window handle (the kinds of `std::num::IntErrorKind`
/// that `parse::<isize>` reports).
#[derive(Debug, Clone, Copy, PartialEq, Eq, Structural)]
pub enum HandleTextError {
    Empty,
    InvalidDigit,
    PosOverflow,
    NegOverflow,
}

pub open spec fn is_digit(c: char) -> bool {
    '0' <= c && c <= '9'
}

pub open spec fn digit_value(c: char) -> int {
    (c as int) - ('0' as int)
}

pub open spec fn digit_char(d: int) -> char {
    (d + ('0' as int)) as char
}

/// Reads the digits `d` left to right as `parse` does, stopping at the first
/// character that is not a digit or at the first digit that takes the value
/// out of the range of `isize`. `negative` accumulates towards `isize::MIN`.
pub open spec fn read_digits(negative: bool, d: Seq<char>) -> Result<int, HandleTextError>
    decreases d.len(),
{
    if d.len() == 0 {
        Ok(0)
    } else {
        match read_digits(negative, d.drop_last()) {
            Err(e) => Err(e),
            Ok(v) => if !is_digit(d.last()) {
                Err(HandleTextError::InvalidDigit)
            } else {
                let next = if negative {
                    v * 10 - digit_value(d.last())
                } else {
                    v * 10 + digit_value(d.last())
                };
                if next > isize::MAX {
                    Err(HandleTextError::PosOverflow)
                } else if next < isize::MIN {
                    Err(HandleTextError::NegOverflow)
                } else {
                    Ok(next)
                }
            },
        }
    }
}

/// `str::parse::<isize>`: an optional `+` or `-` followed by at least one
/// decimal digit, with no other character.
pub open spec fn parse_handle_text(s: Seq<char>) -> Result<int, HandleTextError> {
    if s.len() == 0 {
        Err(HandleTextError::Empty)
    } else if (s[0] == '+' || s[0] == '-') && s.len() == 1 {
        Err(HandleTextError::InvalidDigit)
    } else if s[0] == '-' {
        read_digits(true, s.drop_first())
    } else if s[0] == '+' {
        read_digits(false, s.drop_first())
    } else {
        read_digits(false, s)
    }
}

/// The decimal digits of `n`, most significant first, without leading zeros.
pub open spec fn decimal_digits(n: nat) -> Seq<char>
    decreases n,
{
    if n < 10 {
        seq![digit_char(n as int)]
    } else {
        decimal_digits(n / 10).push(digit_char((n % 10) as int))
    }
}

/// The text of a handle: `-` before the digits of a negative value.
pub open spec fn handle_text(h: int) -> Seq<char> {
    if h < 0 {
        seq!['-'] + decimal_digits((-h) as nat)
    } else {
        decimal_digits(h as nat)
    }
}

fn digits_of(n: u128) -> (r: Vec<char>)
    ensures
        r@ == decimal_digits(n as nat),
    decreases n,
{
    let d = ((n % 10) as u8 + 48u8) as char;
    assert(d == digit_char((n % 10) as int));
    if n < 10 {
        let mut r = Vec::new();
        r.push(d);
        assert(r@ =~= seq![digit_char(n as int)]);
        r
    } else {
        let mut r = digits_of(n / 10);
        r.push(d);
        r
    }
}

/// The decimal text of a window handle (`isize::to_string`).
pub fn format_handle(h: isize) -> (r: String)
    ensures
        r@ == handle_text(h as int),
{
    let wide = h as i128;
    let magnitude: u128 = if wide < 0 {
        (0 - wide) as u128
    } else {
        wide as u128
    };
    let digits = digits_of(magnitude);
    if wide < 0 {
        let mut r = String::new();
        push_char(&mut r, '-');
        let mut i: usize = 0;
        while i < digits.len()
            invariant
                i <= digits.len(),
                r@ == seq!['-'] + digits@.take(i as int),
            decreases digits.len() - i,
        {
            push_char(&mut r, digits[i]);
            assert(digits@.take(i + 1) =~= digits@.take(i as int).push(digits@[i as int]));
            i += 1;
        }
        assert(digits@.take(digits.len() as int) =~= digits@);
        r
    } else {
        string_of(&digits)
    }
}

proof fn lemma_read_digits_prefix(negative: bool, d: Seq<char>, i: int)
    requires
        0 <= i < d.len(),
    ensures
        read_digits(negative, d.take(i + 1)) == match read_digits(negative, d.take(i)) {
            Err(e) => Err(e),
            Ok(v) => if !is_digit(d[i]) {
                Err(HandleTextError::InvalidDigit)
            } else {
                let next = if negative {
                    v * 10 - digit_value(d[i])
                } else {
                    v * 10 + digit_value(d[i])
                };
                if next > isize::MAX {
                    Err(HandleTextError::PosOverflow)
                } else if next < isize::MIN {
                    Err(HandleTextError::NegOverflow)
                } else {
                    Ok(next)
                }
            },
        },
{
    assert(d.take(i + 1).drop_last() =~= d.take(i));
}

/// Reads `chars[from..]` as digits.
fn read_digits_exec(chars: &Vec<char>, from: usize, negative: bool) -> (r: Result<
    isize,
    HandleTextError,
>)
    requires
        from <= chars.len(),
    ensures
        match r {
            Ok(v) => read_digits(negative, chars@.skip(from as int)) == Ok::<int, HandleTextError>(
                v as int,
            ),
            Err(e) => read_digits(negative, chars@.skip(from as int)) == Err::<int, _>(e),
        },
{
    let ghost d = chars@.skip(from as int);
    let mut acc: i128 = 0;
    let mut i: usize = from;
    assert(d.take(0) =~= seq![]);
    while i < chars.len()
        invariant
            from <= i <= chars.len(),
            d == chars@.skip(from as int),
            read_digits(negative, d.take(i - from)) == Ok::<int, HandleTextError>(acc as int),
            isize::MIN <= acc <= isize::MAX,
        decreases chars.len() - i,
    {
        let c = chars[i];
        proof {
            lemma_read_digits_prefix(negative, d, i - from);
            assert(d[i - from] == c);
        }
        if !('0' <= c && c <= '9') {
            proof {
                lemma_read_digits_prefix_error(negative, d, (i - from + 1) as int);
            }
            return Err(HandleTextError::InvalidDigit);
        }
        let v = (c as u32 - 48) as i128;
        assert(v == digit_value(c));
        let next: i128 = if negative {
            acc * 10 - v
        } else {
            acc * 10 + v
        };
        if next > (isize::MAX as i128) {
            proof {
                lemma_read_digits_prefix_error(negative, d, (i - from + 1) as int);
            }
            return Err(HandleTextError::PosOverflow);
        }
        if next < (isize::MIN as i128) {
            proof {
                lemma_read_digits_prefix_error(negative, d, (i - from + 1) as int);
            }
            return Err(HandleTextError::NegOverflow);
        }
        acc = next;
        i += 1;
    }
    assert(d.take(chars.len() - from) =~= d);
    Ok(acc as isize)
}

/// Once a prefix of the digits fails, the whole text fails the same way.
proof fn lemma_read_digits_prefix_error(negative: bool, d: Seq<char>, k: int)
    requires
        0 <= k <= d.len(),
        read_digits(negative, d.take(k)) is Err,
    ensures
        read_digits(negative, d) == read_digits(negative, d.take(k)),
    decreases d.len() - k,
{
    if k == d.len() {
        assert(d.take(k) =~= d);
    } else {
        lemma_read_digits_prefix(negative, d, k);
        lemma_read_digits_prefix_error(negative, d, k + 1);
    }
}

/// Reads a window handle from its decimal text (`str::parse::<isize>`).
pub fn parse_handle(text: &str) -> (r: Result<isize, HandleTextError>)
    ensures
        match r {
            Ok(v) => parse_handle_text(text@) == Ok::<int, HandleTextError>(v as int),
            Err(e) => parse_handle_text(text@) == Err::<int, _>(e),
        },
{
    let chars = chars_of(text);
    if chars.len() == 0 {
        return Err(HandleTextError::Empty);
    }
    let first = chars[0];
    if (first == '+' || first == '-') && chars.len() == 1 {
        return Err(HandleTextError::InvalidDigit);
    }
    if first == '-' {
        assert(chars@.skip(1) =~= text@.drop_first());
        read_digits_exec(&chars, 1, true)
    } else if first == '+' {
        assert(chars@.skip(1) =~= text@.drop_first());
        read_digits_exec(&chars, 1, false)
    } else {
        assert(chars@.skip(0) =~= text@);
        read_digits_exec(&chars, 0, false)
    }
}

proof fn lemma_read_decimal_digits(negative: bool, n: nat)
    requires
        negative ==> -(n as int) >= isize::MIN,
        !negative ==> n <= isize::MAX,
    ensures
        read_digits(negative, decimal_digits(n)) == Ok::<int, HandleTextError>(
            if negative {
                -(n as int)
            } else {
                n as int
            },
        ),
    decreases n,
{
    if n < 10 {
        let d = decimal_digits(n);
        assert(d.drop_last() =~= seq![]);
        assert(d.last() == digit_char(n as int));
        assert(is_digit(digit_char(n as int)));
        assert(digit_value(digit_char(n as int)) == n);
        assert(read_digits(negative, d.drop_last()) == Ok::<int, HandleTextError>(0));
    } else {
        lemma_read_decimal_digits(negative, n / 10);
        let d = decimal_digits(n);
        assert(d.drop_last() == decimal_digits(n / 10));
        assert(d.last() == digit_char((n % 10) as int));
        assert(is_digit(digit_char((n % 10) as int)));
        assert(digit_value(digit_char((n % 10) as int)) == n % 10);
        assert((n / 10) * 10 + n % 10 == n);
    }
}

proof fn lemma_decimal_digits_start_with_digit(n: nat)
    ensures
        decimal_digits(n).len() >= 1,
        is_digit(decimal_digits(n)[0]),
    decreases n,
{
    if n >= 10 {
        lemma_decimal_digits_start_with_digit(n / 10);
    }
}

/// Reading back the text of a handle gives the handle: the text that the
/// window list hands out is accepted again when a window is activated.
pub proof fn lemma_handle_text_round_trip(h: isize)
    ensures
        parse_handle_text(handle_text(h as int)) == Ok::<int, HandleTextError>(h as int),
{
    let t = handle_text(h as int);
    if h < 0 {
        let n = (-(h as int)) as nat;
        lemma_read_decimal_digits(true, n);
        lemma_decimal_digits_start_with_digit(n);
        assert(t.drop_first() =~= decimal_digits(n));
    } else {
        let n = h as nat;
        lemma_read_decimal_digits(false, n);
        lemma_decimal_digits_start_with_digit(n);
    }
}

} // verus!
