//! The scalar values a payload field can hold, and their text form.

use vstd::prelude::*;

verus! {

/// One payload field: an integer, a decimal number, a string or a boolean.
///
/// A decimal number is held as its JSON text (for instance `2.5` or `1e-7`),
/// so that no precision is lost before the payload is written out.
#[derive(Clone, Debug, PartialEq, Eq)]
pub enum FieldValue {
    Int(i64),
    Float(String),
    Str(String),
    Bool(bool),
}

/// The mathematical value of a [`FieldValue`].
pub enum FieldView {
    Int(i64),
    Float(Seq<char>),
    Str(Seq<char>),
    Bool(bool),
}

impl View for FieldValue {
    type V = FieldView;

    open spec fn view(&self) -> FieldView {
        match self {
            FieldValue::Int(i) => FieldView::Int(*i),
            FieldValue::Float(t) => FieldView::Float(t@),
            FieldValue::Str(s) => FieldView::Str(s@),
            FieldValue::Bool(b) => FieldView::Bool(*b),
        }
    }
}

/// The character of one decimal digit.
pub open spec fn digit_char(d: nat) -> char {
    if d == 0 {
        '0'
    } else if d == 1 {
        '1'
    } else if d == 2 {
        '2'
    } else if d == 3 {
        '3'
    } else if d == 4 {
        '4'
    } else if d == 5 {
        '5'
    } else if d == 6 {
        '6'
    } else if d == 7 {
        '7'
    } else if d == 8 {
        '8'
    } else {
        '9'
    }
}

/// The decimal digits of a natural number, most significant first, without
/// leading zeros.
pub open spec fn digits(n: nat) -> Seq<char>
    decreases n,
{
    if n < 10 {
        seq![digit_char(n)]
    } else {
        digits(n / 10).push(digit_char(n % 10))
    }
}

/// The decimal text of an integer: a minus sign for a negative one, then the
/// digits of its magnitude.
pub open spec fn decimal(i: int) -> Seq<char> {
    if i < 0 {
        seq!['-'] + digits((-i) as nat)
    } else {
        digits(i as nat)
    }
}

/// The text of a boolean.
pub open spec fn bool_text(b: bool) -> Seq<char> {
    if b {
        seq!['t', 'r', 'u', 'e']
    } else {
        seq!['f', 'a', 'l', 's', 'e']
    }
}

/// The text form of a field value.
pub open spec fn field_text(v: FieldView) -> Seq<char> {
    match v {
        FieldView::Int(i) => decimal(i as int),
        FieldView::Float(t) => t,
        FieldView::Str(s) => s,
        FieldView::Bool(b) => bool_text(b),
    }
}

fn digit_text(d: u64) -> (r: &'static str)
    requires
        d < 10,
    ensures
        r@ == seq![digit_char(d as nat)],
{
    proof {
        reveal_strlit("0");
        reveal_strlit("1");
        reveal_strlit("2");
        reveal_strlit("3");
        reveal_strlit("4");
        reveal_strlit("5");
        reveal_strlit("6");
        reveal_strlit("7");
        reveal_strlit("8");
        reveal_strlit("9");
    }
    let r = if d == 0 {
        "0"
    } else if d == 1 {
        "1"
    } else if d == 2 {
        "2"
    } else if d == 3 {
        "3"
    } else if d == 4 {
        "4"
    } else if d == 5 {
        "5"
    } else if d == 6 {
        "6"
    } else if d == 7 {
        "7"
    } else if d == 8 {
        "8"
    } else {
        "9"
    };
    assert(r@ =~= seq![digit_char(d as nat)]);
    r
}

fn push_digits(out: &mut String, n: u64)
    ensures
        final(out)@ == old(out)@ + digits(n as nat),
    decreases n,
{
    if n >= 10 {
        push_digits(out, n / 10);
    }
    let ghost before = out@;
    out.append(digit_text(n % 10));
    proof {
        if n >= 10 {
            assert(out@ =~= old(out)@ + digits((n / 10) as nat).push(digit_char((n % 10) as nat)));
        } else {
            assert(out@ =~= old(out)@ + seq![digit_char(n as nat)]);
        }
    }
}

/// Writes an integer in decimal.
pub fn decimal_text(i: i64) -> (r: String)
    ensures
        r@ == decimal(i as int),
{
    let mut out = String::new();
    if i < 0 {
        let magnitude: u64 = (-(i + 1)) as u64 + 1;
        proof {
            reveal_strlit("-");
        }
        out.append("-");
        push_digits(&mut out, magnitude);
        assert(out@ =~= seq!['-'] + digits((-i) as nat));
    } else {
        push_digits(&mut out, i as u64);
        assert(out@ =~= digits(i as nat));
    }
    out
}

impl FieldValue {
    /// The text form of the value: an integer in decimal, a boolean as
    /// `true` or `false`, a string as it is, a decimal number as written.
    pub fn to_string(&self) -> (r: String)
        ensures
            r@ == field_text(self@),
    {
        match self {
            FieldValue::Int(i) => decimal_text(*i),
            FieldValue::Float(t) => t.clone(),
            FieldValue::Str(s) => s.clone(),
            FieldValue::Bool(b) => {
                proof {
                    reveal_strlit("true");
                    reveal_strlit("false");
                }
                let r = if *b {
                    "true".to_owned()
                } else {
                    "false".to_owned()
                };
                assert(r@ =~= bool_text(*b));
                r
            },
        }
    }
}

} // verus!
