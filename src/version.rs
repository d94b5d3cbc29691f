use vstd::prelude::*;
use vstd::string::StrSliceExecFns;

verus! {

/// The major version used when none is configured, or when the configured
/// one cannot be read.
pub const DEFAULT_REDIS_VERSION: u8 = 7;

pub open spec fn is_ascii_digit(c: char) -> bool {
    '0' <= c && c <= '9'
}

/// How many ASCII digits `s` starts with.
pub open spec fn digit_run(s: Seq<char>) -> nat
    decreases s.len(),
{
    if s.len() > 0 && is_ascii_digit(s[0]) {
        1 + digit_run(s.drop_first())
    } else {
        0
    }
}

/// The ASCII digits that `s` starts with.
pub open spec fn leading_digits(s: Seq<char>) -> Seq<char> {
    s.take(digit_run(s) as int)
}

/// The number that a string of ASCII digits reads as in decimal.
pub open spec fn digits_value(d: Seq<char>) -> nat
    decreases d.len(),
{
    if d.len() == 0 {
        0
    } else {
        digits_value(d.drop_last()) * 10 + ((d.last() as u32) - ('0' as u32)) as nat
    }
}

/// The major version that a version string gives: the number its leading
/// digits read as, or the default when it has none or the number does not
/// fit in a byte.
pub open spec fn major_version_of(s: Seq<char>) -> u8 {
    let d = leading_digits(s);
    if d.len() > 0 && digits_value(d) <= 255 {
        digits_value(d) as u8
    } else {
        DEFAULT_REDIS_VERSION
    }
}

/// Relies on `regex::Regex::new`, `Regex::captures` and `Captures::get`: the
/// version pattern compiles, matches exactly the text that starts with an
/// ASCII digit, and its first group is then the whole run of leading digits.
#[verifier::external_body]
fn regex_first_group(pattern: &str, text: &str) -> (r: Option<Option<String>>)
    ensures
        pattern@ == "^([0-9]+)(\\.[0-9]+)?(\\.[0-9]+)?"@ ==> r is Some,
        pattern@ == "^([0-9]+)(\\.[0-9]+)?(\\.[0-9]+)?"@ ==> (r->Some_0 is Some <==> digit_run(text@) > 0),
        pattern@ == "^([0-9]+)(\\.[0-9]+)?(\\.[0-9]+)?"@ ==> (r->Some_0 matches Some(d) ==> d@ == leading_digits(text@)),
{
    let re = match regex::Regex::new(pattern) {
        Ok(re) => re,
        Err(_) => return None,
    };
    match re.captures(text) {
        Some(caps) => match caps.get(1) {
            Some(m) => Some(Some(m.as_str().to_string())),
            None => Some(None),
        },
        None => Some(None),
    }
}

/// The leading digits of a string are digits.
proof fn lemma_leading_digits(s: Seq<char>)
    ensures
        digit_run(s) <= s.len(),
        forall|i: int| 0 <= i < digit_run(s) ==> is_ascii_digit(#[trigger] s[i]),
    decreases s.len(),
{
    if s.len() > 0 && is_ascii_digit(s[0]) {
        lemma_leading_digits(s.drop_first());
        assert forall|i: int| 0 <= i < digit_run(s) implies is_ascii_digit(#[trigger] s[i]) by {
            if i > 0 {
                assert(s[i] == s.drop_first()[i - 1]);
            }
        }
    }
}

/// A longer string of digits reads as no smaller a number.
proof fn lemma_digits_value_grows(d: Seq<char>, i: int)
    requires
        0 <= i <= d.len(),
        forall|j: int| 0 <= j < d.len() ==> is_ascii_digit(#[trigger] d[j]),
    ensures
        digits_value(d.take(i)) <= digits_value(d),
    decreases d.len(),
{
    if i < d.len() {
        let rest = d.drop_last();
        assert forall|j: int| 0 <= j < rest.len() implies is_ascii_digit(#[trigger] rest[j]) by {
            assert(rest[j] == d[j]);
        }
        lemma_digits_value_grows(rest, i);
        assert(rest.take(i) =~= d.take(i));
    } else {
        assert(d.take(i) =~= d);
    }
}

/// Reads a string of ASCII digits as a number, if it fits in a byte.
fn small_decimal(digits: &str) -> (r: Option<u8>)
    requires
        forall|j: int| 0 <= j < digits@.len() ==> is_ascii_digit(#[trigger] digits@[j]),
    ensures
        r == (if digits_value(digits@) <= 255 { Some(digits_value(digits@) as u8) } else { None }),
{
    let n = digits.unicode_len();
    let mut acc: u64 = 0;
    let mut i: usize = 0;
    while i < n
        invariant
            n == digits@.len(),
            i <= n,
            acc == digits_value(digits@.take(i as int)),
            acc <= 255,
            forall|j: int| 0 <= j < digits@.len() ==> is_ascii_digit(#[trigger] digits@[j]),
        decreases n - i,
    {
        let c = digits.get_char(i);
        assert(digits@.take(i as int + 1).drop_last() =~= digits@.take(i as int));
        assert(is_ascii_digit(digits@[i as int]));
        acc = acc * 10 + ((c as u32) - ('0' as u32)) as u64;
        i = i + 1;
        if acc > 255 {
            proof {
                lemma_digits_value_grows(digits@, i as int);
            }
            return None;
        }
    }
    assert(digits@.take(i as int) =~= digits@);
    Some(acc as u8)
}

/// The major version in a version string such as "7.2.4": the number its
/// leading digits read as. A string that does not start with a digit, or
/// whose number does not fit in a byte, gives the default.
pub fn get_major_version(semantic_version: &str) -> (r: u8)
    ensures
        r == major_version_of(semantic_version@),
{
    let group = regex_first_group("^([0-9]+)(\\.[0-9]+)?(\\.[0-9]+)?", semantic_version);
    proof {
        lemma_leading_digits(semantic_version@);
    }
    match group {
        Some(Some(digits)) => {
            assert(digits@ =~= leading_digits(semantic_version@));
            match small_decimal(digits.as_str()) {
                Some(v) => v,
                None => DEFAULT_REDIS_VERSION,
            }
        },
        _ => DEFAULT_REDIS_VERSION,
    }
}

/// The major version to write, from the configured version string if there
/// is one, else the default.
pub fn get_redis_version(configured: Option<&str>) -> (r: u8)
    ensures
        r == match configured {
            Some(s) => major_version_of(s@),
            None => DEFAULT_REDIS_VERSION,
        },
{
    match configured {
        Some(s) => get_major_version(s),
        None => DEFAULT_REDIS_VERSION,
    }
}

} // verus!
