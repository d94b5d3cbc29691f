use vstd::prelude::*;
use vstd::string::StringExecFns;
use crate::error::RdbError;

verus! {

/// A TOML scalar, holding what its text form is made from.
#[derive(Debug)]
pub enum Scalar {
    Integer(i64),
    /// A float, as its default text form.
    Float(String),
    Boolean(bool),
    /// A date or time, as its standard text form.
    Datetime(String),
    Text(String),
}

/// A TOML value: a scalar, an array, or a table with its keys in the order
/// in which they were declared.
#[derive(Debug)]
pub enum RecordValue {
    Scalar(Scalar),
    List(Vec<RecordValue>),
    Table(Vec<(String, RecordValue)>),
}

/// What the record encoding reads of a value: the text of a scalar, or the
/// members of an array or table, each with its text (`None` for a nested
/// array or table, which has none).
pub enum ValueModel {
    Scalar(Seq<char>),
    List(Seq<Option<Seq<char>>>),
    Table(Seq<(Seq<char>, Option<Seq<char>>)>),
}

/// The text of a member, as the model of the member's own value gives it.
pub open spec fn nested_text(m: ValueModel) -> Option<Seq<char>> {
    match m {
        ValueModel::Scalar(t) => Some(t),
        _ => None,
    }
}

impl View for RecordValue {
    type V = ValueModel;

    open spec fn view(&self) -> ValueModel {
        match *self {
            RecordValue::Scalar(s) => ValueModel::Scalar(scalar_text(s)),
            RecordValue::List(items) => ValueModel::List(items@.map_values(|v: RecordValue| value_text(v))),
            RecordValue::Table(fields) => ValueModel::Table(
                fields@.map_values(|f: (String, RecordValue)| (f.0@, value_text(f.1))),
            ),
        }
    }
}

/// The character of a decimal digit.
pub open spec fn digit_char(d: nat) -> char {
    if d == 0 { '0' }
    else if d == 1 { '1' }
    else if d == 2 { '2' }
    else if d == 3 { '3' }
    else if d == 4 { '4' }
    else if d == 5 { '5' }
    else if d == 6 { '6' }
    else if d == 7 { '7' }
    else if d == 8 { '8' }
    else { '9' }
}

/// The decimal digits of `n`, most significant first, with no leading zero.
pub open spec fn decimal_digits(n: nat) -> Seq<char>
    decreases n,
{
    if n < 10 {
        seq![digit_char(n)]
    } else {
        decimal_digits(n / 10).push(digit_char(n % 10))
    }
}

/// `n` in decimal, with a leading minus sign when negative.
pub open spec fn decimal_text(n: int) -> Seq<char> {
    if n < 0 {
        seq!['-'] + decimal_digits((-n) as nat)
    } else {
        decimal_digits(n as nat)
    }
}

/// The text form of a boolean.
pub open spec fn bool_text(b: bool) -> Seq<char> {
    if b {
        seq!['t', 'r', 'u', 'e']
    } else {
        seq!['f', 'a', 'l', 's', 'e']
    }
}

/// The text form under which a scalar is stored.
pub open spec fn scalar_text(s: Scalar) -> Seq<char> {
    match s {
        Scalar::Integer(i) => decimal_text(i as int),
        Scalar::Float(t) => t@,
        Scalar::Boolean(b) => bool_text(b),
        Scalar::Datetime(t) => t@,
        Scalar::Text(t) => t@,
    }
}

/// The text form of a value; arrays and tables have none.
pub open spec fn value_text(v: RecordValue) -> Option<Seq<char>> {
    match v {
        RecordValue::Scalar(s) => Some(scalar_text(s)),
        _ => None,
    }
}

fn digit_str(d: u64) -> (r: &'static str)
    requires
        d < 10,
    ensures
        r@ == seq![digit_char(d as nat)],
{
    proof {
        reveal_strlit("0");
        reveal_strlit("1");
        reveal_strlit("2");
        reveal_strlit("3");
        reveal_strlit("4");
        reveal_strlit("5");
        reveal_strlit("6");
        reveal_strlit("7");
        reveal_strlit("8");
        reveal_strlit("9");
    }
    let r = if d == 0 { "0" }
    else if d == 1 { "1" }
    else if d == 2 { "2" }
    else if d == 3 { "3" }
    else if d == 4 { "4" }
    else if d == 5 { "5" }
    else if d == 6 { "6" }
    else if d == 7 { "7" }
    else if d == 8 { "8" }
    else { "9" };
    assert(r@ =~= seq![digit_char(d as nat)]);
    r
}

fn push_decimal(out: &mut String, n: u64)
    ensures
        final(out)@ == old(out)@ + decimal_digits(n as nat),
    decreases n,
{
    if n >= 10 {
        push_decimal(out, n / 10);
    }
    out.append(digit_str(n % 10));
    assert(final(out)@ =~= old(out)@ + decimal_digits(n as nat));
}

/// Renders an integer in decimal.
fn integer_text(n: i64) -> (r: String)
    ensures
        r@ == decimal_text(n as int),
{
    proof {
        reveal_strlit("");
        reveal_strlit("-");
    }
    if n < 0 {
        let mut out = String::from_str("-");
        let magnitude: u64 = (0i128 - n as i128) as u64;
        push_decimal(&mut out, magnitude);
        out
    } else {
        let mut out = String::from_str("");
        push_decimal(&mut out, n as u64);
        assert(out@ =~= decimal_text(n as int));
        out
    }
}

/// Converts a scalar value to the text under which it is stored. An array or
/// a table has no such text and is refused.
pub fn string_from_toml_value(value: &RecordValue) -> (r: Result<String, RdbError>)
    ensures
        match value_text(*value) {
            Some(t) => r matches Ok(s) && s@ == t,
            None => r == Err::<String, RdbError>(RdbError::UnsupportedScalarKind),
        },
{
    proof {
        reveal_strlit("true");
        reveal_strlit("false");
    }
    match value {
        RecordValue::Scalar(Scalar::Integer(i)) => Ok(integer_text(*i)),
        RecordValue::Scalar(Scalar::Float(t)) => Ok(t.clone()),
        RecordValue::Scalar(Scalar::Boolean(b)) => {
            let s = if *b { String::from_str("true") } else { String::from_str("false") };
            assert(s@ =~= bool_text(*b));
            Ok(s)
        },
        RecordValue::Scalar(Scalar::Datetime(t)) => Ok(t.clone()),
        RecordValue::Scalar(Scalar::Text(t)) => Ok(t.clone()),
        _ => Err(RdbError::UnsupportedScalarKind),
    }
}

} // verus!
