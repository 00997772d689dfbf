//! Typed values, their type tags, and the coercion of a raw token.
use vstd::prelude::*;

use crate::error::CommandError;
use crate::text::same_text;

verus! {

/// The value of an option: a default, or what a token was coerced to.
#[derive(Debug, PartialEq, Eq)]
pub enum Value {
    Boole(bool),
    Int(i64),
    Str(String),
}

/// The mathematical form of a value.
pub enum ValueModel {
    Boole(bool),
    Int(i64),
    Str(Seq<char>),
}

impl View for Value {
    type V = ValueModel;

    open spec fn view(&self) -> ValueModel {
        match self {
            Value::Boole(b) => ValueModel::Boole(*b),
            Value::Int(n) => ValueModel::Int(*n),
            Value::Str(s) => ValueModel::Str(s@),
        }
    }
}

impl Clone for Value {
    fn clone(&self) -> (r: Value)
        ensures
            r == *self,
    {
        match self {
            Value::Boole(b) => Value::Boole(*b),
            Value::Int(n) => Value::Int(*n),
            Value::Str(s) => Value::Str(s.clone()),
        }
    }
}

/// The type an option is declared with; it decides how a value token is read.
#[derive(Debug, Clone, Copy, PartialEq, Eq, Structural)]
pub enum ArgType {
    Boole,
    Int,
    Str,
}

pub open spec fn is_digit(c: char) -> bool {
    '0' <= c && c <= '9'
}

pub open spec fn digit_value(c: char) -> int {
    (c as u32) as int - ('0' as u32) as int
}

/// A non-empty run of decimal digits.
pub open spec fn all_digits(d: Seq<char>) -> bool {
    d.len() > 0 && forall|i: int| 0 <= i < d.len() ==> is_digit(d[i])
}

/// The number that a run of decimal digits writes.
pub open spec fn digits_value(d: Seq<char>) -> int
    decreases d.len(),
{
    if d.len() == 0 {
        0
    } else {
        10 * digits_value(d.drop_last()) + digit_value(d.last())
    }
}

/// An optional `+` or `-` followed by one or more decimal digits, and the
/// number it writes.
pub open spec fn decimal_value(s: Seq<char>) -> Option<int> {
    if s.len() > 0 && (s[0] == '-' || s[0] == '+') {
        let d = s.drop_first();
        if !all_digits(d) {
            None
        } else if s[0] == '-' {
            Some(-digits_value(d))
        } else {
            Some(digits_value(d))
        }
    } else if all_digits(s) {
        Some(digits_value(s))
    } else {
        None
    }
}

/// A decimal that fits in a signed 64-bit integer, and its value.
pub open spec fn parse_i64(s: Seq<char>) -> Option<i64> {
    match decimal_value(s) {
        Some(v) => if i64::MIN <= v <= i64::MAX {
            Some(v as i64)
        } else {
            None
        },
        None => None,
    }
}

/// What a raw value token becomes under a declared type.
pub open spec fn coerce(t: ArgType, raw: Seq<char>) -> Result<ValueModel, CommandError> {
    match t {
        ArgType::Boole => if raw == "true"@ {
            Ok(ValueModel::Boole(true))
        } else if raw == "false"@ {
            Ok(ValueModel::Boole(false))
        } else {
            Err(CommandError::InvalidArg)
        },
        ArgType::Int => match parse_i64(raw) {
            Some(n) => Ok(ValueModel::Int(n)),
            None => Err(CommandError::ParseError),
        },
        ArgType::Str => Ok(ValueModel::Str(raw)),
    }
}

proof fn lemma_digits_nonneg(d: Seq<char>)
    requires
        forall|i: int| 0 <= i < d.len() ==> is_digit(d[i]),
    ensures
        digits_value(d) >= 0,
    decreases d.len(),
{
    if d.len() > 0 {
        lemma_digits_nonneg(d.drop_last());
    }
}

proof fn lemma_digits_prefix_le(d: Seq<char>, k: int)
    requires
        forall|i: int| 0 <= i < d.len() ==> is_digit(d[i]),
        0 <= k <= d.len(),
    ensures
        digits_value(d.subrange(0, k)) <= digits_value(d),
    decreases d.len(),
{
    if k == d.len() {
        assert(d.subrange(0, k) =~= d);
    } else {
        let p = d.drop_last();
        lemma_digits_prefix_le(p, k);
        lemma_digits_nonneg(p);
        assert(p.subrange(0, k) =~= d.subrange(0, k));
    }
}

/// Reads a signed 64-bit decimal: an optional sign and one or more digits,
/// within range.
pub fn parse_int(s: &str) -> (r: Option<i64>)
    ensures
        r == parse_i64(s@),
{
    let n = s.unicode_len();
    if n == 0 {
        return None;
    }
    let first = s.get_char(0);
    let start: usize = if first == '-' || first == '+' { 1 } else { 0 };
    let ghost d = s@.subrange(start as int, n as int);
    proof {
        if start == 1 {
            assert(d =~= s@.drop_first());
        } else {
            assert(d =~= s@);
        }
    }
    if start == n {
        return None;
    }
    let limit: u128 = 9223372036854775808;
    let mut mag: u128 = 0;
    let mut i: usize = start;
    while i < n
        invariant
            n == s@.len(),
            start <= i <= n,
            d == s@.subrange(start as int, n as int),
            first == s@[0],
            start == (if first == '-' || first == '+' { 1usize } else { 0usize }),
            start == 1 ==> d == s@.drop_first(),
            start == 0 ==> d == s@,
            forall|j: int| start <= j < i ==> is_digit(s@[j]),
            mag as int == digits_value(s@.subrange(start as int, i as int)),
            mag <= limit,
            limit == 9223372036854775808,
        decreases n - i,
    {
        let c = s.get_char(i);
        if !('0' <= c && c <= '9') {
            assert(d[i - start] == c);
            return None;
        }
        let dv: u128 = ((c as u32) - ('0' as u32)) as u128;
        let next: u128 = mag * 10 + dv;
        let ghost p = s@.subrange(start as int, i + 1);
        assert(p.drop_last() =~= s@.subrange(start as int, i as int));
        if next > limit {
            proof {
                if all_digits(d) {
                    lemma_digits_prefix_le(d, i + 1 - start);
                    assert(d.subrange(0, i + 1 - start) =~= p);
                }
            }
            return None;
        }
        mag = next;
        i = i + 1;
    }
    assert(s@.subrange(start as int, n as int) =~= d);
    if first == '-' {
        if mag == limit {
            Some(i64::MIN)
        } else {
            Some(-(mag as i64))
        }
    } else if mag > 9223372036854775807 {
        None
    } else {
        Some(mag as i64)
    }
}

/// Coerces a raw value token to the given type.
pub fn coerce_value(t: ArgType, raw: &str) -> (r: Result<Value, CommandError>)
    ensures
        match r {
            Ok(v) => coerce(t, raw@) == Ok::<ValueModel, CommandError>(v@),
            Err(e) => coerce(t, raw@) == Err::<ValueModel, CommandError>(e),
        },
{
    match t {
        ArgType::Boole => {
            if same_text(raw, "true") {
                Ok(Value::Boole(true))
            } else if same_text(raw, "false") {
                Ok(Value::Boole(false))
            } else {
                Err(CommandError::InvalidArg)
            }
        },
        ArgType::Int => match parse_int(raw) {
            Some(n) => Ok(Value::Int(n)),
            None => Err(CommandError::ParseError),
        },
        ArgType::Str => Ok(Value::Str(raw.to_owned())),
    }
}

} // verus!
