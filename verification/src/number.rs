//! Numbers of a stylesheet: what a floating-point value is once it is written
//! out, the shortest decimal fraction that stands for it.

use crate::text;
use vstd::arithmetic::power::pow;
use vstd::prelude::*;

verus! {

/// A decimal fraction in its shortest form.
#[derive(Clone, Copy, Debug)]
pub struct Decimal {
    negative: bool,
    digits: u128,
    places: u8,
}

/// A number, or one of the values that are none.
#[derive(Clone, Copy, Debug)]
pub enum Number {
    Finite(Decimal),
    Infinite { negative: bool },
    NotANumber,
}

/// A number as a mathematical value. The finite one is `digits`, with the
/// decimal point before the last `places` of them.
pub enum NumberModel {
    Finite { negative: bool, digits: nat, places: nat },
    Infinite { negative: bool },
    NotANumber,
}

impl View for Decimal {
    type V = NumberModel;

    closed spec fn view(&self) -> NumberModel {
        NumberModel::Finite {
            negative: self.negative,
            digits: self.digits as nat,
            places: self.places as nat,
        }
    }
}

impl View for Number {
    type V = NumberModel;

    open spec fn view(&self) -> NumberModel {
        match *self {
            Number::Finite(decimal) => decimal@,
            Number::Infinite { negative } => NumberModel::Infinite { negative },
            Number::NotANumber => NumberModel::NotANumber,
        }
    }
}

/// `digits` and `places` without the zeros that end the fraction.
pub open spec fn shortest(digits: nat, places: nat) -> (nat, nat)
    decreases places,
{
    if places > 0 && digits % 10 == 0 {
        shortest(digits / 10, (places - 1) as nat)
    } else {
        (digits, places)
    }
}

/// The number that is `digits` with a decimal point before the last `places`.
pub open spec fn finite(negative: bool, digits: nat, places: nat) -> NumberModel {
    let (d, p) = shortest(digits, places);
    NumberModel::Finite { negative, digits: d, places: p }
}

/// The whole number `n`.
pub open spec fn whole(n: nat) -> NumberModel {
    finite(false, n, 0)
}

/// `digits` as text with a decimal point before the last `places` of them; there
/// is at least one digit before the point.
pub open spec fn pointed(digits: nat, places: nat) -> Seq<char>
    decreases places,
{
    if places == 0 {
        text::decimal(digits).push('.')
    } else {
        pointed(digits / 10, (places - 1) as nat).push(text::digit_char(digits % 10))
    }
}

/// A number as text.
pub open spec fn number_text(m: NumberModel) -> Seq<char> {
    match m {
        NumberModel::Finite { negative, digits, places } => (if negative {
            "-"@
        } else {
            ""@
        }) + (if places == 0 {
            text::decimal(digits)
        } else {
            pointed(digits, places)
        }),
        NumberModel::Infinite { negative } => if negative {
            "-inf"@
        } else {
            "inf"@
        },
        NumberModel::NotANumber => "NaN"@,
    }
}

/// Appends `digits` with a decimal point before the last `places` of them.
fn push_pointed(s: &mut String, digits: u128, places: u8)
    ensures
        final(s)@ == old(s)@ + pointed(digits as nat, places as nat),
    decreases places,
{
    if places == 0 {
        text::push_decimal(s, digits);
        s.push('.');
    } else {
        push_pointed(s, digits / 10, places - 1);
        let digit: u8 = (digits % 10) as u8;
        s.push((48u8 + digit) as char);
    }
    assert(s@ =~= old(s)@ + pointed(digits as nat, places as nat));
}

impl Decimal {
    /// The fraction does not end in a zero.
    #[verifier::type_invariant]
    spec fn valid(self) -> bool {
        self.places == 0 || self.digits % 10 != 0
    }

    /// The number that is `digits` with a decimal point before the last `places`
    /// of them.
    pub fn new(negative: bool, digits: u128, places: u8) -> (decimal: Self)
        ensures
            decimal@ == finite(negative, digits as nat, places as nat),
    {
        let mut d: u128 = digits;
        let mut p: u8 = places;
        while p > 0 && d % 10 == 0
            invariant
                shortest(d as nat, p as nat) == shortest(digits as nat, places as nat),
            decreases p,
        {
            d = d / 10;
            p = p - 1;
        }
        Decimal { negative, digits: d, places: p }
    }
}

impl Number {
    /// The whole number `n`.
    pub fn whole(n: u128) -> (number: Self)
        ensures
            number@ == whole(n as nat),
    {
        Number::Finite(Decimal::new(false, n, 0))
    }

    /// The number as text.
    pub fn to_text(&self) -> (s: String)
        ensures
            s@ == number_text(self@),
    {
        match self {
            Number::Finite(decimal) => {
                let mut s: String = if decimal.negative {
                    "-".to_owned()
                } else {
                    "".to_owned()
                };
                if decimal.places == 0 {
                    text::push_decimal(&mut s, decimal.digits);
                } else {
                    push_pointed(&mut s, decimal.digits, decimal.places);
                }
                s
            },
            Number::Infinite { negative } => {
                if *negative {
                    "-inf".to_owned()
                } else {
                    "inf".to_owned()
                }
            },
            Number::NotANumber => "NaN".to_owned(),
        }
    }
}

/// Dropping the zeros that end a fraction keeps its value and leaves none.
pub proof fn law_shortest_keeps_the_value(digits: nat, places: nat)
    ensures
        ({
            let (d, p) = shortest(digits, places);
            &&& p <= places
            &&& d * pow(10, (places - p) as nat) == digits
            &&& p == 0 || d % 10 != 0
        }),
    decreases places,
{
    let (d, p) = shortest(digits, places);
    vstd::arithmetic::power::lemma_pow0(10);
    if places > 0 && digits % 10 == 0 {
        law_shortest_keeps_the_value(digits / 10, (places - 1) as nat);
        reveal(pow);
        let e = (places - 1 - p) as nat;
        assert(pow(10, e + 1) == 10 * pow(10, e));
        assert(d * pow(10, e + 1) == 10 * (d * pow(10, e))) by (nonlinear_arith)
            requires
                pow(10, e + 1) == 10 * pow(10, e),
        ;
    } else {
        assert(d * 1 == d);
    }
}

/// `digits` as text, with a decimal point where there are places.
spec fn magnitude(digits: nat, places: nat) -> Seq<char> {
    if places == 0 {
        text::decimal(digits)
    } else {
        pointed(digits, places)
    }
}

/// Pointed digits begin with a digit, and the point stands before the last
/// `places`.
proof fn lemma_point_in_place(digits: nat, places: nat)
    ensures
        ({
            let s = pointed(digits, places);
            &&& s.len() > places + 1
            &&& text::is_digit(s[0])
            &&& s[s.len() - 1 - places] == '.'
        }),
    decreases places,
{
    if places == 0 {
        text::lemma_decimal_reads_back(digits);
        assert(text::is_digit(text::decimal(digits)[0]));
    } else {
        lemma_point_in_place(digits / 10, (places - 1) as nat);
    }
}

/// Pointed digits tell the digits and the places.
proof fn lemma_pointed_tells(a: nat, p: nat, b: nat, q: nat)
    requires
        pointed(a, p) == pointed(b, q),
    ensures
        a == b,
        p == q,
    decreases p,
{
    let s = pointed(a, p);
    let t = pointed(b, q);
    if p == 0 && q == 0 {
        assert(text::decimal(a) =~= s.drop_last());
        assert(text::decimal(b) =~= t.drop_last());
        text::lemma_decimal_reads_back(a);
        text::lemma_decimal_reads_back(b);
    } else if p > 0 && q > 0 {
        assert(pointed(a / 10, (p - 1) as nat) =~= s.drop_last());
        assert(pointed(b / 10, (q - 1) as nat) =~= t.drop_last());
        lemma_pointed_tells(a / 10, (p - 1) as nat, b / 10, (q - 1) as nat);
        assert(s.last() == text::digit_char(a % 10));
        assert(t.last() == text::digit_char(b % 10));
    } else {
        assert(s.last() == t.last());
        assert(text::digit_char(a % 10) != '.');
        assert(text::digit_char(b % 10) != '.');
    }
}

/// Digits as text begin with a digit and tell the digits and the places.
proof fn lemma_magnitude_tells(a: nat, p: nat, b: nat, q: nat)
    ensures
        magnitude(a, p).len() > 0 && text::is_digit(magnitude(a, p)[0]),
        magnitude(a, p) == magnitude(b, q) ==> a == b && p == q,
{
    text::lemma_decimal_reads_back(a);
    text::lemma_decimal_reads_back(b);
    assert(text::is_digit(text::decimal(a)[0]));
    lemma_point_in_place(a, p);
    lemma_point_in_place(b, q);
    if magnitude(a, p) == magnitude(b, q) {
        let s = magnitude(a, p);
        if p > 0 && q > 0 {
            lemma_pointed_tells(a, p, b, q);
        } else if p > 0 {
            assert(text::is_digit(text::decimal(b)[s.len() - 1 - p]));
        } else if q > 0 {
            assert(text::is_digit(text::decimal(a)[s.len() - 1 - q]));
        }
    }
}

/// What the text of a number begins with.
proof fn lemma_first_characters(m: NumberModel)
    ensures
        ({
            let s = number_text(m);
            match m {
                NumberModel::Finite { negative, digits, places } => {
                    let rest = magnitude(digits, places);
                    &&& negative ==> s == seq!['-'] + rest && s[0] == '-' && text::is_digit(s[1])
                    &&& !negative ==> s == rest && text::is_digit(s[0])
                    &&& rest.len() > 0
                },
                NumberModel::Infinite { negative } => {
                    &&& negative ==> s.len() == 4 && s[0] == '-' && s[1] == 'i'
                    &&& !negative ==> s.len() == 3 && s[0] == 'i'
                },
                NumberModel::NotANumber => s.len() == 3 && s[0] == 'N',
            }
        }),
{
    reveal_strlit("-");
    reveal_strlit("");
    reveal_strlit("inf");
    reveal_strlit("-inf");
    reveal_strlit("NaN");
    if let NumberModel::Finite { negative, digits, places } = m {
        let rest = magnitude(digits, places);
        lemma_magnitude_tells(digits, places, digits, places);
        assert("-"@ =~= seq!['-']);
        assert(""@ + rest =~= rest);
        if negative {
            assert(number_text(m)[1] == rest[0]);
        }
    }
}

/// The text of a number tells the number.
pub proof fn law_text_tells_the_number(m: NumberModel, n: NumberModel)
    requires
        number_text(m) == number_text(n),
    ensures
        m == n,
{
    lemma_first_characters(m);
    lemma_first_characters(n);
    if let NumberModel::Finite { negative, digits, places } = m {
        if let NumberModel::Finite { negative: other, digits: d, places: p } = n {
            let a = magnitude(digits, places);
            let b = magnitude(d, p);
            assert(negative == other);
            if negative {
                assert((seq!['-'] + a).skip(1) =~= a);
                assert((seq!['-'] + b).skip(1) =~= b);
            }
            lemma_magnitude_tells(digits, places, d, p);
        }
    }
}

/// The characters of a pointed number: digits and the point.
proof fn lemma_pointed_characters(digits: nat, places: nat)
    ensures
        forall|i: int|
            0 <= i < pointed(digits, places).len() ==> text::is_digit(
                #[trigger] pointed(digits, places)[i],
            ) || pointed(digits, places)[i] == '.',
    decreases places,
{
    if places == 0 {
        text::lemma_decimal_reads_back(digits);
    } else {
        let front = pointed(digits / 10, (places - 1) as nat);
        lemma_pointed_characters(digits / 10, (places - 1) as nat);
        assert forall|i: int| 0 <= i < pointed(digits, places).len() implies text::is_digit(
            #[trigger] pointed(digits, places)[i],
        ) || pointed(digits, places)[i] == '.' by {
            if i < front.len() {
                assert(pointed(digits, places)[i] == front[i]);
            }
        }
    }
}

/// The characters of a number: digits, the point, the sign, and the letters of
/// the values that are none.
pub proof fn lemma_characters(m: NumberModel)
    ensures
        forall|i: int|
            0 <= i < number_text(m).len() ==> {
                let c = #[trigger] number_text(m)[i];
                ||| text::is_digit(c)
                ||| c == '.' || c == '-'
                ||| 'A' <= c <= 'Z' || 'a' <= c <= 'z'
            },
{
    reveal_strlit("-");
    reveal_strlit("");
    reveal_strlit("inf");
    reveal_strlit("-inf");
    reveal_strlit("NaN");
    if let NumberModel::Finite { negative, digits, places } = m {
        text::lemma_decimal_reads_back(digits);
        lemma_pointed_characters(digits, places);
    }
}

/// The digits of a pointed number without the point read as the number that was
/// written, and the point stands before the last `places` of them.
proof fn lemma_pointed_reads_back(digits: nat, places: nat)
    ensures
        ({
            let s = pointed(digits, places);
            let at = s.len() - 1 - places;
            &&& at > 0
            &&& s[at] == '.'
            &&& text::is_numeral(s.take(at))
            &&& forall|i: int| at < i < s.len() ==> text::is_digit(#[trigger] s[i])
            &&& text::numeral_value(s.take(at) + s.skip(at + 1)) == digits
        }),
    decreases places,
{
    let s = pointed(digits, places);
    let at = s.len() - 1 - places;
    if places == 0 {
        text::lemma_decimal_reads_back(digits);
        assert(s.take(at) =~= text::decimal(digits));
        assert(s.take(at) + s.skip(at + 1) =~= text::decimal(digits));
    } else {
        let t = pointed(digits / 10, (places - 1) as nat);
        let last = text::digit_char(digits % 10);
        lemma_pointed_reads_back(digits / 10, (places - 1) as nat);
        assert(s.take(at) =~= t.take(at));
        assert forall|i: int| at < i < s.len() implies text::is_digit(#[trigger] s[i]) by {
            if i < t.len() {
                assert(s[i] == t[i]);
            }
        }
        let shorter = t.take(at) + t.skip(at + 1);
        assert(s.take(at) + s.skip(at + 1) =~= shorter.push(last));
        text::law_digits_count_by_tens(shorter, last);
    }
}

/// A finite number is written as it is: a minus sign where it is negative, its
/// digits, and a decimal point before as many of them as it has places, with at
/// least one digit before the point.
pub proof fn law_text_reads_back(negative: bool, digits: nat, places: nat)
    ensures
        ({
            let whole = number_text(NumberModel::Finite { negative, digits, places });
            let s = if negative {
                whole.skip(1)
            } else {
                whole
            };
            let at = s.len() - 1 - places;
            &&& negative ==> whole.len() > 0 && whole[0] == '-'
            &&& places == 0 ==> text::is_numeral(s) && text::numeral_value(s) == digits
            &&& places > 0 ==> {
                &&& at > 0
                &&& s[at] == '.'
                &&& text::is_numeral(s.take(at))
                &&& forall|i: int| at < i < s.len() ==> text::is_digit(#[trigger] s[i])
                &&& text::numeral_value(s.take(at) + s.skip(at + 1)) == digits
            }
        }),
{
    let m = NumberModel::Finite { negative, digits, places };
    let rest = magnitude(digits, places);
    lemma_first_characters(m);
    text::lemma_decimal_reads_back(digits);
    lemma_pointed_reads_back(digits, places);
    if negative {
        assert(number_text(m).skip(1) =~= rest);
    }
}

/// The values that are no numbers have their words.
pub proof fn law_words_of_no_numbers()
    ensures
        number_text(NumberModel::Infinite { negative: false }) == "inf"@,
        number_text(NumberModel::Infinite { negative: true }) == "-inf"@,
        number_text(NumberModel::NotANumber) == "NaN"@,
{
}

/// A number made of digits and places keeps its sign and its value, whatever
/// zeros end it; a whole number keeps all its digits.
pub proof fn law_number_keeps_its_value(negative: bool, digits: nat, places: nat)
    ensures
        finite(negative, digits, places) is Finite,
        finite(negative, digits, places)->Finite_negative == negative,
        finite(negative, digits, places)->places <= places,
        finite(negative, digits, places)->digits * pow(
            10,
            (places - finite(negative, digits, places)->places) as nat,
        ) == digits,
        finite(negative, digits, places)->places == 0 || finite(
            negative,
            digits,
            places,
        )->digits % 10 != 0,
        whole(digits) == (NumberModel::Finite { negative: false, digits, places: 0 }),
{
    law_shortest_keeps_the_value(digits, places);
}

} // verus!
