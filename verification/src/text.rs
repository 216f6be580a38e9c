//! Decimal text: writing integers and reading them back.

use vstd::prelude::*;

verus! {

/// `String::push` appends one character at the end of the string and leaves
/// what was there before it unchanged.
pub assume_specification[ String::push ](s: &mut String, c: char)
    ensures
        final(s)@ == old(s)@.push(c),
;

/// The character that stands for the decimal digit `d`.
pub open spec fn digit_char(d: nat) -> char
    recommends
        d < 10,
{
    (48 + d) as char
}

/// Whether `c` is one of the ten ASCII digits.
pub open spec fn is_digit(c: char) -> bool {
    '0' <= c <= '9'
}

/// The number that the ASCII digit `c` stands for.
pub open spec fn digit_value(c: char) -> nat
    recommends
        is_digit(c),
{
    (c as int - 48) as nat
}

/// The decimal numeral of `n`: no sign and no leading zero.
pub open spec fn decimal(n: nat) -> Seq<char>
    decreases n,
{
    if n < 10 {
        seq![digit_char(n)]
    } else {
        decimal(n / 10).push(digit_char(n % 10))
    }
}

/// The decimal numeral of `i`, with a leading minus sign when `i` is negative.
pub open spec fn signed_decimal(i: int) -> Seq<char> {
    if i < 0 {
        seq!['-'] + decimal((-i) as nat)
    } else {
        decimal(i as nat)
    }
}

/// The number that a string of digits reads as, most significant digit first.
pub open spec fn numeral_value(s: Seq<char>) -> nat
    decreases s.len(),
{
    if s.len() == 0 {
        0
    } else {
        numeral_value(s.drop_last()) * 10 + digit_value(s.last())
    }
}

/// Whether `s` is a non-empty string of ASCII digits.
pub open spec fn is_numeral(s: Seq<char>) -> bool {
    s.len() > 0 && forall|i: int| 0 <= i < s.len() ==> is_digit(#[trigger] s[i])
}

/// What `s` reads as when an optional plus sign may precede the digits: `None`
/// when `s` has another shape or the number does not fit `u64`.
pub open spec fn unsigned_value(s: Seq<char>) -> Option<u64> {
    let body = if s.len() > 0 && s[0] == '+' {
        s.skip(1)
    } else {
        s
    };
    if is_numeral(body) && numeral_value(body) <= u64::MAX {
        Some(numeral_value(body) as u64)
    } else {
        None
    }
}

/// What `s` reads as when an optional plus or minus sign may precede the
/// digits: `None` when `s` has another shape or the number does not fit `i32`.
pub open spec fn signed_value(s: Seq<char>) -> Option<i32> {
    let negative = s.len() > 0 && s[0] == '-';
    let body = if negative || s.len() > 0 && s[0] == '+' {
        s.skip(1)
    } else {
        s
    };
    let value = if negative {
        -numeral_value(body)
    } else {
        numeral_value(body) as int
    };
    if is_numeral(body) && i32::MIN <= value <= i32::MAX {
        Some(value as i32)
    } else {
        None
    }
}

/// Appends the decimal numeral of `n` to `s`.
pub fn push_decimal(s: &mut String, n: u128)
    ensures
        final(s)@ == old(s)@ + decimal(n as nat),
    decreases n,
{
    if n >= 10 {
        push_decimal(s, n / 10);
    }
    let digit: u8 = (n % 10) as u8;
    s.push((48u8 + digit) as char);
    proof {
        assert(s@ =~= old(s)@ + decimal(n as nat));
    }
}

/// Appends the decimal numeral of `i`, with its sign when it is negative.
pub fn push_signed(s: &mut String, i: i64)
    ensures
        final(s)@ == old(s)@ + signed_decimal(i as int),
{
    if i < 0 {
        s.push('-');
        let magnitude: u128 = (-(i as i128)) as u128;
        push_decimal(s, magnitude);
        proof {
            assert(s@ =~= old(s)@ + signed_decimal(i as int));
        }
    } else {
        push_decimal(s, i as u128);
    }
}

/// The characters of `s`, one by one.
pub fn characters(s: &str) -> (chars: Vec<char>)
    ensures
        chars@ == s@,
{
    let mut chars: Vec<char> = Vec::new();
    for c in it: s.chars()
        invariant
            it.seq() == s@,
            chars@ == s@.take(it.index()),
    {
        chars.push(c);
        assert(chars@ =~= s@.take(it.index() + 1));
    }
    assert(s@.take(s@.len() as int) =~= s@);
    chars
}

/// Reads the characters from position `from` on as a numeral of at most
/// `u64::MAX`.
fn read_numeral(chars: &Vec<char>, from: usize) -> (value: Option<u64>)
    requires
        from <= chars@.len(),
    ensures
        ({
            let body = chars@.skip(from as int);
            value == if is_numeral(body) && numeral_value(body) <= u64::MAX {
                Some(numeral_value(body) as u64)
            } else {
                None::<u64>
            }
        }),
{
    let ghost body = chars@.skip(from as int);
    if from == chars.len() {
        return None;
    }
    // Once past `u64::MAX` the exact number no longer matters.
    let beyond: u128 = 0x1_0000_0000_0000_0000;
    let mut total: u128 = 0;
    let mut i: usize = from;
    assert(body.take(0) =~= Seq::<char>::empty());
    while i < chars.len()
        invariant
            from <= i <= chars@.len(),
            beyond == u64::MAX + 1,
            body == chars@.skip(from as int),
            forall|k: int| 0 <= k < i - from ==> is_digit(#[trigger] body[k]),
            numeral_value(body.take(i - from)) <= u64::MAX ==> total == numeral_value(
                body.take(i - from),
            ),
            numeral_value(body.take(i - from)) > u64::MAX ==> total == beyond,
        decreases chars@.len() - i,
    {
        let c: char = chars[i];
        assert(c == body[i - from]);
        if c < '0' || c > '9' {
            assert(!is_digit(body[i - from]));
            return None;
        }
        let digit: u128 = (c as u32 - 48) as u128;
        proof {
            let longer = body.take(i - from + 1);
            assert(longer.drop_last() =~= body.take(i - from));
            assert(longer.last() == c);
            assert(numeral_value(longer) == numeral_value(body.take(i - from)) * 10 + digit);
        }
        total = total * 10 + digit;
        if total > beyond {
            total = beyond;
        }
        i = i + 1;
    }
    assert(body.take(i - from) =~= body);
    if total < beyond {
        Some(total as u64)
    } else {
        None
    }
}

/// Reads an unsigned integer: digits, after an optional plus sign.
pub fn parse_unsigned(s: &str) -> (value: Option<u64>)
    ensures
        value == unsigned_value(s@),
{
    let chars: Vec<char> = characters(s);
    if chars.len() > 0 && chars[0] == '+' {
        read_numeral(&chars, 1)
    } else {
        assert(chars@.skip(0) =~= s@);
        read_numeral(&chars, 0)
    }
}

/// Reads a signed integer: digits, after an optional plus or minus sign.
pub fn parse_signed(s: &str) -> (value: Option<i32>)
    ensures
        value == signed_value(s@),
{
    let chars: Vec<char> = characters(s);
    let negative: bool = chars.len() > 0 && chars[0] == '-';
    let from: usize = if negative || chars.len() > 0 && chars[0] == '+' {
        1
    } else {
        0
    };
    assert(chars@.skip(0) =~= s@);
    match read_numeral(&chars, from) {
        None => None,
        Some(magnitude) => {
            if negative {
                if magnitude <= 0x8000_0000 {
                    Some((-(magnitude as i64)) as i32)
                } else {
                    None
                }
            } else if magnitude <= 0x7fff_ffff {
                Some(magnitude as i32)
            } else {
                None
            }
        },
    }
}

/// Whether two strings hold the same characters.
pub fn same_text(a: &str, b: &str) -> (same: bool)
    ensures
        same == (a@ == b@),
{
    a.to_owned() == b.to_owned()
}

/// Reading a written number gives the number back, for each `u64`.
pub proof fn law_unsigned_round_trip(n: u64)
    ensures
        unsigned_value(decimal(n as nat)) == Some(n),
{
    lemma_decimal_reads_back(n as nat);
    assert(is_digit(decimal(n as nat)[0]));
}

/// Reading a written number gives the number back, for each `i32`.
pub proof fn law_signed_round_trip(n: i32)
    ensures
        signed_value(signed_decimal(n as int)) == Some(n),
{
    let magnitude: nat = if n < 0 {
        (-(n as int)) as nat
    } else {
        n as nat
    };
    lemma_decimal_reads_back(magnitude);
    assert(is_digit(decimal(magnitude)[0]));
    assert(signed_decimal(n as int).skip(1) =~= decimal(magnitude) || n >= 0);
}

/// A decimal numeral reads back as the number it was written from.
pub proof fn lemma_decimal_reads_back(n: nat)
    ensures
        is_numeral(decimal(n)),
        numeral_value(decimal(n)) == n,
    decreases n,
{
    if n < 10 {
        let s = decimal(n);
        assert(s.drop_last() =~= Seq::<char>::empty());
        assert(numeral_value(s.drop_last()) == 0);
    } else {
        lemma_decimal_reads_back(n / 10);
        let s = decimal(n);
        assert(s.drop_last() =~= decimal(n / 10));
        assert(s.last() == digit_char(n % 10));
        assert forall|i: int| 0 <= i < s.len() implies is_digit(#[trigger] s[i]) by {
            if i < s.len() - 1 {
                assert(s[i] == decimal(n / 10)[i]);
            }
        }
    }
}

/// Text that has a number in a given place tells the number: where two texts
/// begin alike, have a number next, and go on with no digit, they are equal only
/// if the numbers are and the rests.
pub proof fn lemma_number_in_place(
    start: Seq<char>,
    m: nat,
    n: nat,
    x: Seq<char>,
    y: Seq<char>,
)
    requires
        start + decimal(m) + x == start + decimal(n) + y,
        x.len() > 0 && !is_digit(x[0]),
        y.len() > 0 && !is_digit(y[0]),
    ensures
        m == n,
        x == y,
{
    let a = decimal(m);
    let b = decimal(n);
    let s = start + a + x;
    let t = start + b + y;
    let k = start.len() as int;
    lemma_decimal_reads_back(m);
    lemma_decimal_reads_back(n);
    if a.len() < b.len() {
        assert(s[k + a.len()] == x[0]);
        assert(t[k + a.len()] == b[a.len() as int]);
    } else if b.len() < a.len() {
        assert(t[k + b.len()] == y[0]);
        assert(s[k + b.len()] == a[b.len() as int]);
    }
    assert(a =~= s.subrange(k, k + a.len()));
    assert(b =~= t.subrange(k, k + b.len()));
    assert(x =~= s.skip(k + a.len()));
    assert(y =~= t.skip(k + b.len()));
}

/// A written number holds digits only, is read back as it was, and has no zero
/// before it; only zero itself is written as one.
pub proof fn law_decimal_is_the_numeral(n: nat)
    ensures
        is_numeral(decimal(n)),
        numeral_value(decimal(n)) == n,
        n > 0 ==> decimal(n)[0] != '0',
        n < 10 <==> decimal(n).len() == 1,
    decreases n,
{
    lemma_decimal_reads_back(n);
    if n >= 10 {
        law_decimal_is_the_numeral(n / 10);
        assert(decimal(n)[0] == decimal(n / 10)[0]);
    }
}

/// A negative number is written as a minus sign and the number without it; every
/// other as the number.
pub proof fn law_sign_goes_before_the_digits(i: int)
    ensures
        i >= 0 ==> signed_decimal(i) == decimal(i as nat),
        i < 0 ==> signed_decimal(i).len() > 1 && signed_decimal(i)[0] == '-'
            && signed_decimal(i).skip(1) == decimal((-i) as nat),
{
    lemma_decimal_reads_back((-i) as nat);
    if i < 0 {
        assert(signed_decimal(i).skip(1) =~= decimal((-i) as nat));
    }
}

/// One more digit makes a number ten times as large, and that digit larger.
pub proof fn law_digits_count_by_tens(s: Seq<char>, digit: char)
    requires
        '0' <= digit <= '9',
    ensures
        numeral_value(Seq::<char>::empty()) == 0,
        numeral_value(s.push(digit)) == 10 * numeral_value(s) + (digit as int - '0' as int),
{
    assert(s.push(digit).drop_last() =~= s);
}

/// Digits alone are read as their number where a `u64` holds it, with or without
/// a plus sign; leading zeros do no harm. Everything else is not read.
pub proof fn law_unsigned_reads_digits(s: Seq<char>)
    ensures
        (forall|i: int| 0 <= i < s.len() ==> '0' <= #[trigger] s[i] <= '9') && s.len() > 0 ==> {
            &&& numeral_value(s) <= u64::MAX ==> unsigned_value(s) == Some(numeral_value(s) as u64)
            &&& numeral_value(s) > u64::MAX ==> unsigned_value(s) is None
            &&& unsigned_value(seq!['+'] + s) == unsigned_value(s)
        },
        unsigned_value(s) is Some ==> s.len() > 0 && (s[0] == '+' || '0' <= s[0] <= '9') && forall|
            i: int,
        | 1 <= i < s.len() ==> '0' <= #[trigger] s[i] <= '9',
        unsigned_value(seq!['+']) is None,
{
    assert((seq!['+'] + s).skip(1) =~= s);
    assert(seq!['+'].skip(1) =~= Seq::<char>::empty());
    if unsigned_value(s) is Some && s[0] == '+' {
        assert forall|i: int| 1 <= i < s.len() implies '0' <= #[trigger] s[i] <= '9' by {
            assert(is_digit(s.skip(1)[i - 1]));
        }
    }
    if unsigned_value(s) is Some && s[0] != '+' {
        assert(is_digit(s[0]));
        assert forall|i: int| 1 <= i < s.len() implies '0' <= #[trigger] s[i] <= '9' by {
            assert(is_digit(s[i]));
        }
    }
}

/// Digits alone are read as their number where an `i32` holds it, with or without
/// a plus sign, and with a minus sign as the negative one. Everything else is not
/// read.
pub proof fn law_signed_reads_digits(s: Seq<char>)
    ensures
        (forall|i: int| 0 <= i < s.len() ==> '0' <= #[trigger] s[i] <= '9') && s.len() > 0 ==> {
            &&& numeral_value(s) <= i32::MAX ==> signed_value(s) == Some(numeral_value(s) as i32)
            &&& numeral_value(s) > i32::MAX ==> signed_value(s) is None
            &&& signed_value(seq!['+'] + s) == signed_value(s)
            &&& -numeral_value(s) >= i32::MIN ==> signed_value(seq!['-'] + s) == Some(
                (-numeral_value(s)) as i32,
            )
            &&& -numeral_value(s) < i32::MIN ==> signed_value(seq!['-'] + s) is None
        },
        signed_value(s) is Some ==> s.len() > 0 && (s[0] == '+' || s[0] == '-' || '0' <= s[0]
            <= '9') && forall|i: int| 1 <= i < s.len() ==> '0' <= #[trigger] s[i] <= '9',
        signed_value(seq!['+']) is None,
        signed_value(seq!['-']) is None,
{
    assert((seq!['+'] + s).skip(1) =~= s);
    assert((seq!['-'] + s).skip(1) =~= s);
    assert(seq!['+'].skip(1) =~= Seq::<char>::empty());
    assert(seq!['-'].skip(1) =~= Seq::<char>::empty());
    if s.len() > 0 && is_digit(s[0]) {
        assert(s[0] != '-' && s[0] != '+');
    }
    if signed_value(s) is Some {
        if s[0] == '+' || s[0] == '-' {
            assert forall|i: int| 1 <= i < s.len() implies '0' <= #[trigger] s[i] <= '9' by {
                assert(is_digit(s.skip(1)[i - 1]));
            }
        } else {
            assert(is_digit(s[0]));
            assert forall|i: int| 1 <= i < s.len() implies '0' <= #[trigger] s[i] <= '9' by {
                assert(is_digit(s[i]));
            }
        }
    }
}

} // verus!
