//! Numbers of cells, held as decimal numerals.
//!
//! A worksheet stores a number as the text that stands for it in the
//! worksheet part: an optional minus sign, digits, and optionally a point
//! and more digits. Integers are converted exactly.

use vstd::prelude::*;
use vstd::string::*;
use crate::utility::{decimal_text, digit_char, push_char, push_decimal};

verus! {

/// Whether `c` is a decimal digit.
pub open spec fn is_digit(c: char) -> bool {
    '0' <= c <= '9'
}

/// Whether `s` is a numeral without sign: digits with at most one point,
/// which stands neither first nor last.
pub open spec fn is_unsigned_numeral(s: Seq<char>) -> bool {
    &&& s.len() > 0
    &&& is_digit(s[0])
    &&& is_digit(s.last())
    &&& forall|i: int| 0 <= i < s.len() ==> is_digit(#[trigger] s[i]) || s[i] == '.'
    &&& forall|i: int, j: int|
        0 <= i < s.len() && 0 <= j < s.len() && #[trigger] s[i] == '.' && #[trigger] s[j] == '.'
            ==> i == j
}

/// Whether `s` is a numeral: an unsigned numeral, or a minus sign before
/// one.
pub open spec fn is_numeral(s: Seq<char>) -> bool {
    if s.len() > 0 && s[0] == '-' {
        is_unsigned_numeral(s.skip(1))
    } else {
        is_unsigned_numeral(s)
    }
}

/// The numeral of the integer `n`.
pub open spec fn integer_text(n: int) -> Seq<char> {
    if n < 0 {
        seq!['-'] + decimal_text((-n) as nat)
    } else {
        decimal_text(n as nat)
    }
}

/// The decimal numeral of a natural number holds digits only.
pub proof fn lemma_decimal_text_digits(n: nat)
    ensures
        decimal_text(n).len() > 0,
        forall|i: int| 0 <= i < decimal_text(n).len() ==> is_digit(#[trigger] decimal_text(n)[i]),
        is_unsigned_numeral(decimal_text(n)),
    decreases n,
{
    if n < 10 {
        assert(is_digit(digit_char(n as int)));
    } else {
        lemma_decimal_text_digits(n / 10);
        assert(is_digit(digit_char((n % 10) as int)));
    }
}

/// The numeral of an integer is a numeral.
pub proof fn lemma_integer_text_is_numeral(n: int)
    ensures
        is_numeral(integer_text(n)),
{
    if n < 0 {
        lemma_decimal_text_digits((-n) as nat);
        assert(integer_text(n).skip(1) =~= decimal_text((-n) as nat));
    } else {
        lemma_decimal_text_digits(n as nat);
    }
}

/// A number of a cell.
#[derive(Clone, Debug)]
pub struct Number {
    text: String,
}

impl View for Number {
    type V = Seq<char>;

    /// The numeral that stands for the number.
    closed spec fn view(&self) -> Seq<char> {
        self.text@
    }
}

impl Number {
    /// The text is a numeral.
    pub open spec fn wf(&self) -> bool {
        is_numeral(self@)
    }

    /// The number `n`.
    pub fn from_u64(n: u64) -> (number: Number)
        ensures
            number@ == integer_text(n as int),
            number.wf(),
    {
        let mut text = String::new();
        push_decimal(&mut text, n as u128);
        proof {
            assert(text@ =~= decimal_text(n as nat));
            lemma_integer_text_is_numeral(n as int);
        }
        Number { text }
    }

    /// The number `n`.
    pub fn from_i64(n: i64) -> (number: Number)
        ensures
            number@ == integer_text(n as int),
            number.wf(),
    {
        let mut text = String::new();
        if n < 0 {
            push_char(&mut text, '-');
            let magnitude: u64 = (-(n + 1)) as u64 + 1;
            push_decimal(&mut text, magnitude as u128);
            proof {
                assert(text@ =~= seq!['-'] + decimal_text((-n) as nat));
            }
        } else {
            push_decimal(&mut text, n as u128);
            proof {
                assert(text@ =~= decimal_text(n as nat));
            }
        }
        proof {
            lemma_integer_text_is_numeral(n as int);
        }
        Number { text }
    }

    /// The number that the numeral `text` stands for, if `text` is a
    /// numeral.
    pub fn parse(text: &str) -> (number: Option<Number>)
        ensures
            number is Some <==> is_numeral(text@),
            number matches Some(n) ==> n@ == text@ && n.wf(),
    {
        let ghost s = text@;
        let ghost body = if s.len() > 0 && s[0] == '-' {
            s.skip(1)
        } else {
            s
        };
        let ghost offset: int = s.len() - body.len();
        let mut started = false;
        let mut body_started = false;
        let mut points: u8 = 0;
        let mut first_is_digit = false;
        let mut last_is_digit = false;
        let mut allowed = true;
        let mut signed = false;
        let ghost mut point_at: int = -1;
        proof {
            broadcast use vstd::string::group_string_axioms;

        }
        for c in it: text.chars()
            invariant
                it.seq() == s,
                started == (it.index() > 0),
                body_started == (it.index() > offset),
                body == (if s.len() > 0 && s[0] == '-' {
                    s.skip(1)
                } else {
                    s
                }),
                offset == s.len() - body.len(),
                signed == (it.index() > 0 && s[0] == '-'),
                it.index() > offset ==> first_is_digit == is_digit(body[0]),
                it.index() > offset ==> last_is_digit == is_digit(s[it.index() - 1]),
                it.index() <= offset ==> !first_is_digit && !last_is_digit,
                allowed == (forall|i: int|
                    offset <= i < it.index() ==> is_digit(#[trigger] s[i]) || s[i] == '.'),
                points <= 2,
                points == 0 ==> forall|i: int| offset <= i < it.index() ==> #[trigger] s[i] != '.',
                points == 1 ==> offset <= point_at < it.index() && s[point_at] == '.' && forall|
                    i: int,
                | offset <= i < it.index() && #[trigger] s[i] == '.' ==> i == point_at,
                points == 2 ==> exists|i: int, j: int|
                    offset <= i < j < it.index() && #[trigger] s[i] == '.' && #[trigger] s[j]
                        == '.',
        {
            let ghost position = it.index();
            let digit = '0' <= c && c <= '9';
            if !started && c == '-' {
                signed = true;
            } else {
                if !body_started {
                    first_is_digit = digit;
                }
                body_started = true;
                last_is_digit = digit;
                if c == '.' {
                    proof {
                        if points == 1 {
                            assert(s[point_at] == '.' && s[position] == '.');
                        } else if points == 0 {
                            point_at = position;
                        }
                    }
                    if points < 2 {
                        points = points + 1;
                    }
                } else if !digit {
                    allowed = false;
                }
            }
            started = true;
        }
        let ghost position = s.len() as int;
        let accepted = first_is_digit && last_is_digit && allowed && points <= 1;
        proof {
            assert(forall|i: int| 0 <= i < body.len() ==> body[i] == s[i + offset]);
            if accepted {
                assert(body.len() > 0);
                assert(is_unsigned_numeral(body)) by {
                    assert forall|i: int| 0 <= i < body.len() implies is_digit(#[trigger] body[i])
                        || body[i] == '.' by {
                        assert(is_digit(s[i + offset]) || s[i + offset] == '.');
                    }
                    assert forall|i: int, j: int|
                        0 <= i < body.len() && 0 <= j < body.len() && #[trigger] body[i] == '.'
                            && #[trigger] body[j] == '.' implies i == j by {
                        assert(s[i + offset] == '.' && s[j + offset] == '.');
                    }
                }
            } else if is_unsigned_numeral(body) {
                assert(position > offset);
                if !allowed {
                    let i = choose|i: int|
                        offset <= i < position && !(is_digit(#[trigger] s[i]) || s[i] == '.');
                    assert(body[i - offset] == s[i]);
                }
                if points >= 2 {
                    let (i, j) = choose|i: int, j: int|
                        offset <= i < j < position && #[trigger] s[i] == '.' && #[trigger] s[j]
                            == '.';
                    assert(body[i - offset] == '.' && body[j - offset] == '.');
                }
            }
        }
        if accepted {
            Some(Number { text: text.to_owned() })
        } else {
            None
        }
    }

    /// The numeral that stands for the number.
    pub fn as_str(&self) -> (text: &str)
        ensures
            text@ == self@,
    {
        self.text.as_str()
    }

    /// A copy of the number.
    pub fn duplicate(&self) -> (copy: Number)
        ensures
            copy@ == self@,
    {
        Number { text: self.text.clone() }
    }
}

} // verus!
