//! Decimal text of 64-bit integers, read and written.
//!
//! The accepted grammar is an optional `+` or `-` followed by one or more
//! ASCII digits, with nothing before or after, and a value that fits `i64`.

use vstd::prelude::*;
use vstd::string::StrSliceExecFns;
use vstd::string::StringExecFns;
use vstd::string::StringSliceAdditionalSpecFns;

verus! {

/// Whether `c` is one of `0` to `9`.
pub open spec fn is_digit(c: char) -> bool {
    '0' <= c && c <= '9'
}

/// The number a digit stands for.
pub open spec fn digit_value(c: char) -> int {
    c as int - 48
}

/// The digit that stands for `d`, for `d` below ten.
pub open spec fn digit_char(d: int) -> char {
    (d + 48) as u8 as char
}

/// Whether every character of `s` is a digit.
pub open spec fn all_digits(s: Seq<char>) -> bool {
    forall|i: int| 0 <= i < s.len() ==> is_digit(#[trigger] s[i])
}

/// The number that a run of digits denotes in base ten (zero for the empty run).
pub open spec fn digits_value(s: Seq<char>) -> int
    decreases s.len(),
{
    if s.len() == 0 {
        0
    } else {
        digits_value(s.drop_last()) * 10 + digit_value(s.last())
    }
}

/// Whether `s` starts with a minus sign.
pub open spec fn is_negative(s: Seq<char>) -> bool {
    s.len() > 0 && s[0] == '-'
}

/// `s` without its leading sign, if it has one.
pub open spec fn unsigned_part(s: Seq<char>) -> Seq<char> {
    if s.len() > 0 && (s[0] == '-' || s[0] == '+') {
        s.skip(1)
    } else {
        s
    }
}

/// The integer that `s` denotes, where `s` is a decimal numeral within the
/// range of `i64`; `None` for any other text.
pub open spec fn decimal_value(s: Seq<char>) -> Option<int> {
    let body = unsigned_part(s);
    let value = if is_negative(s) {
        -digits_value(body)
    } else {
        digits_value(body)
    };
    if body.len() > 0 && all_digits(body) && i64::MIN <= value <= i64::MAX {
        Some(value)
    } else {
        None
    }
}

/// The digits of `n` in base ten, most significant first, without padding.
pub open spec fn digits_of(n: nat) -> Seq<char>
    decreases n,
{
    if n < 10 {
        seq![digit_char(n as int)]
    } else {
        digits_of(n / 10).push(digit_char((n % 10) as int))
    }
}

/// The decimal numeral of `n`: its digits, after a minus sign when `n` is
/// negative.
pub open spec fn decimal_of(n: int) -> Seq<char> {
    if n < 0 {
        seq!['-'] + digits_of((-n) as nat)
    } else {
        digits_of(n as nat)
    }
}

/// A run of digits denotes at least what any of its prefixes denotes.
pub proof fn lemma_digits_value_grows(s: Seq<char>, k: int)
    requires
        all_digits(s),
        0 <= k <= s.len(),
    ensures
        0 <= digits_value(s.take(k)) <= digits_value(s),
    decreases s.len(),
{
    if s.len() > 0 {
        let front = s.drop_last();
        assert forall|i: int| 0 <= i < front.len() implies is_digit(#[trigger] front[i]) by {
            assert(front[i] == s[i]);
        }
        assert(is_digit(s.last()));
        if k == s.len() {
            lemma_digits_value_grows(front, k - 1);
            assert(front.take(k - 1) =~= front);
            assert(s.take(k) =~= s);
        } else {
            lemma_digits_value_grows(front, k);
            assert(front.take(k) =~= s.take(k));
        }
    } else {
        assert(s.take(k) =~= s);
    }
}

/// Appending one digit multiplies the value by ten and adds the digit.
pub proof fn lemma_digits_value_push(s: Seq<char>, c: char)
    ensures
        digits_value(s.push(c)) == digits_value(s) * 10 + digit_value(c),
{
    assert(s.push(c).drop_last() =~= s);
}

/// The digits of a number are digits, at least one of them, and denote it.
pub proof fn lemma_digits_of(n: nat)
    ensures
        digits_of(n).len() > 0,
        all_digits(digits_of(n)),
        digits_value(digits_of(n)) == n,
    decreases n,
{
    if n < 10 {
        let s = seq![digit_char(n as int)];
        assert(s.drop_last() =~= Seq::<char>::empty());
        assert(digits_value(s.drop_last()) == 0);
        assert(digit_char(n as int) as int == n + 48);
    } else {
        lemma_digits_of(n / 10);
        let c = digit_char((n % 10) as int);
        assert(c as int == n % 10 + 48);
        lemma_digits_value_push(digits_of(n / 10), c);
        assert forall|i: int| 0 <= i < digits_of(n).len() implies is_digit(
            #[trigger] digits_of(n)[i],
        ) by {
            if i < digits_of(n / 10).len() {
                assert(digits_of(n)[i] == digits_of(n / 10)[i]);
            }
        }
    }
}

/// Reading back what was written gives the number that was written.
pub proof fn lemma_decimal_round_trip(n: int)
    requires
        i64::MIN <= n <= i64::MAX,
    ensures
        decimal_value(decimal_of(n)) == Some(n),
{
    if n < 0 {
        let digits = digits_of((-n) as nat);
        lemma_digits_of((-n) as nat);
        let s = seq!['-'] + digits;
        assert(s[0] == '-');
        assert(s.skip(1) =~= digits);
    } else {
        let digits = digits_of(n as nat);
        lemma_digits_of(n as nat);
        assert(is_digit(digits[0]));
    }
}

/// The text of one digit.
fn digit_text(d: u8) -> (text: &'static str)
    requires
        d < 10,
    ensures
        text@ == seq![digit_char(d as int)],
{
    proof {
        reveal_strlit("0");
        reveal_strlit("1");
        reveal_strlit("2");
        reveal_strlit("3");
        reveal_strlit("4");
        reveal_strlit("5");
        reveal_strlit("6");
        reveal_strlit("7");
        reveal_strlit("8");
        reveal_strlit("9");
    }
    let text = match d {
        0 => "0",
        1 => "1",
        2 => "2",
        3 => "3",
        4 => "4",
        5 => "5",
        6 => "6",
        7 => "7",
        8 => "8",
        _ => "9",
    };
    assert(text@ =~= seq![digit_char(d as int)]);
    text
}

/// The digits that `low` holds least significant first, in reading order.
pub open spec fn reversed_digits(low: Seq<u8>) -> Seq<char> {
    Seq::new(low.len(), |i: int| digit_char(low[low.len() - 1 - i] as int))
}

/// Writes `n` in base ten.
pub fn render_u64(n: u64) -> (text: String)
    ensures
        text@ == digits_of(n as nat),
{
    let mut rest: u64 = n;
    let mut low: Vec<u8> = Vec::new();
    assert(reversed_digits(low@) =~= Seq::<char>::empty());
    while rest >= 10
        invariant
            digits_of(n as nat) == digits_of(rest as nat) + reversed_digits(low@),
            forall|i: int| 0 <= i < low@.len() ==> low@[i] < 10,
        decreases rest,
    {
        let d: u8 = (rest % 10) as u8;
        proof {
            let after = low@.push(d);
            assert(reversed_digits(after) =~= seq![digit_char(d as int)] + reversed_digits(low@));
            assert(digits_of(rest as nat) == digits_of((rest / 10) as nat).push(
                digit_char(d as int),
            ));
            assert(digits_of(rest as nat) + reversed_digits(low@) =~= digits_of(
                (rest / 10) as nat,
            ) + reversed_digits(after));
        }
        low.push(d);
        rest = rest / 10;
    }
    let mut text = String::from_str(digit_text(rest as u8));
    let mut k: usize = low.len();
    assert(low@.take(k as int) =~= low@);
    while k > 0
        invariant
            k <= low@.len(),
            forall|i: int| 0 <= i < low@.len() ==> low@[i] < 10,
            text@ + reversed_digits(low@.take(k as int)) == digits_of(n as nat),
        decreases k,
    {
        proof {
            let head = low@.take(k as int);
            assert(reversed_digits(head) =~= seq![digit_char(low@[k - 1] as int)]
                + reversed_digits(low@.take(k - 1)));
            assert(text@ + reversed_digits(head) =~= (text@ + seq![
                digit_char(low@[k - 1] as int),
            ]) + reversed_digits(low@.take(k - 1)));
        }
        k = k - 1;
        text.append(digit_text(low[k]));
    }
    assert(reversed_digits(low@.take(0)) =~= Seq::<char>::empty());
    assert(text@ =~= text@ + Seq::<char>::empty());
    text
}

/// Writes `n` in base ten, with a minus sign when it is negative.
pub fn render_i64(n: i64) -> (text: String)
    ensures
        text@ == decimal_of(n as int),
{
    if n < 0 {
        let magnitude: u64 = (-(n as i128)) as u64;
        let digits = render_u64(magnitude);
        let mut text = String::from_str("-");
        proof {
            reveal_strlit("-");
            assert("-"@ =~= seq!['-']);
        }
        text.append(digits.as_str());
        text
    } else {
        render_u64(n as u64)
    }
}

/// Reads a decimal numeral: `Some` of its value exactly when `text` is an
/// optional sign followed by digits and the value fits `i64`.
pub fn parse_i64(text: &str) -> (value: Option<i64>)
    ensures
        match decimal_value(text@) {
            Some(v) => value == Some(v as i64),
            None => value is None,
        },
{
    broadcast use vstd::string::is_ascii_spec_bytes;

    let ghost body = unsigned_part(text@);
    if !text.is_ascii() {
        proof {
            let i = choose|i: int|
                0 <= i < text@.len() && !('\0' <= #[trigger] text@[i] && text@[i] <= '\u{7f}');
            if i == 0 {
                assert(body =~= text@);
                assert(!is_digit(body[0]));
            } else if body.len() == text@.len() {
                assert(!is_digit(body[i]));
            } else {
                assert(!is_digit(body[i - 1]));
            }
        }
        return None;
    }
    let n: usize = text.as_bytes().len();
    assert(text.spec_bytes().len() == text@.len());
    if n == 0 {
        return None;
    }
    let first: u8 = text.get_ascii(0);
    let negative: bool = first == 45;
    let start: usize = if first == 45 || first == 43 {
        1
    } else {
        0
    };
    assert(body =~= text@.skip(start as int));
    assert(negative == is_negative(text@));
    if start == n {
        return None;
    }
    let limit: i128 = 0x8000_0000_0000_0000;
    let mut acc: i128 = 0;
    let mut i: usize = start;
    assert(body.take(0) =~= Seq::<char>::empty());
    while i < n
        invariant
            text.is_ascii(),
            n == text@.len(),
            start <= i <= n,
            body == text@.skip(start as int),
            body == unsigned_part(text@),
            limit == 0x8000_0000_0000_0000,
            0 <= acc <= limit,
            all_digits(body.take(i - start)),
            acc == digits_value(body.take(i - start)),
        decreases n - i,
    {
        let b: u8 = text.get_ascii(i);
        let ghost c = text@[i as int];
        assert(c == body[i - start]);
        assert(c as int == b as int);
        if b < 48 || b > 57 {
            assert(!is_digit(body[i - start]));
            return None;
        }
        let ghost grown = body.take(i - start + 1);
        proof {
            assert(grown =~= body.take(i - start).push(c));
            lemma_digits_value_push(body.take(i - start), c);
            assert forall|j: int| 0 <= j < grown.len() implies is_digit(#[trigger] grown[j]) by {
                if j < i - start {
                    assert(grown[j] == body.take(i - start)[j]);
                }
            }
        }
        acc = acc * 10 + (b - 48) as i128;
        if acc > limit {
            proof {
                if all_digits(body) {
                    lemma_digits_value_grows(body, i - start + 1);
                }
            }
            return None;
        }
        i = i + 1;
    }
    assert(body.take(i - start) =~= body);
    if negative {
        Some((-acc) as i64)
    } else if acc == limit {
        None
    } else {
        Some(acc as i64)
    }
}

} // verus!
