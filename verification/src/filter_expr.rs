//! The typed comparison parser: one atomic string such as `>=300` becomes an
//! operator plus a typed operand.
//!
//! The recognized prefixes, tried in this order so that the two-character
//! ones win over their one-character heads, are `>=`, `<=`, `>`, `<`, `^=`
//! and `=`. A string with no recognized prefix is taken whole as the operand
//! of a `<` comparison.

use vstd::prelude::*;

verus! {

use vstd::string::StrSliceExecFns;
use core::cmp::Ordering;
use vstd::std_specs::cmp::PartialEqSpec;
use vstd::std_specs::cmp::PartialOrdSpec;
use vstd::std_specs::convert::IntoSpec;
use crate::errors::ParseError;

/// A type whose values can be read from the operand text of a comparison.
///
/// `operand_ok` says on which texts reading succeeds, and `operand_is`
/// relates a text to the value read from it. Together they pin the
/// behaviour of `parse_operand` down.
pub trait ParseOperand: Sized {
    /// Whether the operand text denotes a value of this type. Unless an
    /// implementation overrides this model and proves `parse_operand`
    /// against it, no text is known to parse.
    open spec fn operand_ok(s: Seq<char>) -> bool {
        false
    }

    /// Whether `v` is the value the operand text denotes. The default
    /// model relates no value to any text.
    open spec fn operand_is(s: Seq<char>, v: &Self) -> bool {
        false
    }

    /// Read a value from the operand text.
    fn parse_operand(s: &str) -> (r: Result<Self, ParseError>)
        ensures
            r is Ok <==> Self::operand_ok(s@),
            r matches Ok(v) ==> Self::operand_is(s@, &v),
    ;
}

pub open spec fn is_dec_digit(c: char) -> bool {
    48 <= c as u32 <= 57
}

pub open spec fn digit_val(c: char) -> nat {
    (c as u32 - 48) as nat
}

pub open spec fn all_dec_digits(s: Seq<char>) -> bool {
    forall|i: int| 0 <= i < s.len() ==> is_dec_digit(#[trigger] s[i])
}

/// The numeric value of a run of decimal digits.
pub open spec fn dec_value(s: Seq<char>) -> nat
    decreases s.len(),
{
    if s.len() == 0 {
        0
    } else {
        dec_value(s.drop_last()) * 10 + digit_val(s.last())
    }
}

/// `s` is a nonempty run of decimal digits whose value is at most `max`.
pub open spec fn digits_within(s: Seq<char>, max: nat) -> bool {
    s.len() > 0 && all_dec_digits(s) && dec_value(s) <= max
}

proof fn lemma_dec_value_prefix(s: Seq<char>, i: int)
    requires
        0 <= i <= s.len(),
    ensures
        dec_value(s.take(i)) <= dec_value(s),
    decreases s.len() - i,
{
    if i == s.len() {
        assert(s.take(i) =~= s);
    } else {
        assert(s.take(i + 1).drop_last() =~= s.take(i));
        assert(dec_value(s.take(i + 1)) == dec_value(s.take(i)) * 10 + digit_val(s.take(i + 1).last()));
        lemma_dec_value_prefix(s, i + 1);
    }
}

/// Parse the characters of `s` from position `start` on as a run of decimal
/// digits whose value is at most `max`.
fn parse_dec_digits(s: &str, start: usize, max: u64) -> (r: Option<u64>)
    requires
        start as nat <= s@.len(),
    ensures
        match r {
            Some(v) => digits_within(s@.skip(start as int), max as nat) && v as nat == dec_value(
                s@.skip(start as int),
            ),
            None => !digits_within(s@.skip(start as int), max as nat),
        },
{
    let n = s.unicode_len();
    let ghost body = s@.skip(start as int);
    if start == n {
        return None;
    }
    let mut acc: u64 = 0;
    let mut i: usize = start;
    #[verifier::loop_isolation(false)]
    while i < n
        invariant
            start <= i <= n,
            all_dec_digits(body.take(i - start)),
            acc as nat == dec_value(body.take(i - start)),
            acc <= max,
        decreases n - i,
    {
        let c = s.get_char(i);
        let cu = c as u32;
        proof {
            assert(body[i - start] == s@[i as int]);
        }
        if cu < 48 || cu > 57 {
            proof {
                assert(!is_dec_digit(body[i - start]));
            }
            return None;
        }
        let d: u64 = (cu - 48) as u64;
        proof {
            assert(body.take(i - start + 1).drop_last() =~= body.take(i - start));
            assert(body.take(i - start + 1).last() == body[i - start]);
            assert(dec_value(body.take(i - start + 1)) == (acc as nat) * 10 + (d as nat));
        }
        if acc > max / 10 || (acc == max / 10 && d > max % 10) {
            proof {
                assert((max / 10) * 10 + max % 10 == max) by (nonlinear_arith);
                if acc > max / 10 {
                    assert((acc as nat) * 10 >= (max / 10 + 1) * 10) by (nonlinear_arith)
                        requires acc > max / 10;
                }
                assert((acc as nat) * 10 + (d as nat) > max);
                lemma_dec_value_prefix(body, i - start + 1);
            }
            return None;
        }
        proof {
            assert((acc as nat) * 10 + (d as nat) <= max) by (nonlinear_arith)
                requires
                    acc <= max / 10,
                    acc == max / 10 ==> d <= max % 10,
                    d <= 9,
                    (max / 10) * 10 + max % 10 == max,
            ;
            assert((max / 10) * 10 + max % 10 == max) by (nonlinear_arith);
        }
        acc = acc * 10 + d;
        i = i + 1;
    }
    proof {
        assert(body.take(n - start) =~= body);
    }
    Some(acc)
}

/// Unsigned decimal syntax: an optional `+` sign followed by a nonempty run
/// of digits whose value is at most `max`.
pub open spec fn spec_parse_unsigned(s: Seq<char>, max: nat) -> Option<nat> {
    let body = if s.len() > 0 && s[0] == '+' {
        s.skip(1)
    } else {
        s
    };
    if digits_within(body, max) {
        Some(dec_value(body))
    } else {
        None
    }
}

impl ParseOperand for usize {
    open spec fn operand_ok(s: Seq<char>) -> bool {
        spec_parse_unsigned(s, usize::MAX as nat) is Some
    }

    open spec fn operand_is(s: Seq<char>, v: &usize) -> bool {
        spec_parse_unsigned(s, usize::MAX as nat) == Some(*v as nat)
    }

    fn parse_operand(s: &str) -> (r: Result<usize, ParseError>) {
        let n = s.unicode_len();
        let start: usize = if n > 0 && s.get_char(0) == '+' {
            1
        } else {
            0
        };
        proof {
            if start == 0 {
                assert(s@.skip(0) =~= s@);
            }
        }
        match parse_dec_digits(s, start, usize::MAX as u64) {
            Some(v) => Ok(v as usize),
            None => Err(ParseError { text: s.to_owned() }),
        }
    }
}

/// Signed 32-bit decimal syntax: an optional `+` or `-` sign followed by a
/// nonempty run of digits whose value fits the type.
pub open spec fn spec_parse_i32(s: Seq<char>) -> Option<int> {
    if s.len() > 0 && s[0] == '-' {
        if digits_within(s.skip(1), 2147483648) {
            Some(-(dec_value(s.skip(1)) as int))
        } else {
            None
        }
    } else {
        match spec_parse_unsigned(s, 2147483647) {
            Some(n) => Some(n as int),
            None => None,
        }
    }
}

impl ParseOperand for i32 {
    open spec fn operand_ok(s: Seq<char>) -> bool {
        spec_parse_i32(s) is Some
    }

    open spec fn operand_is(s: Seq<char>, v: &i32) -> bool {
        spec_parse_i32(s) == Some(*v as int)
    }

    fn parse_operand(s: &str) -> (r: Result<i32, ParseError>) {
        let n = s.unicode_len();
        if n > 0 && s.get_char(0) == '-' {
            match parse_dec_digits(s, 1, 2147483648u64) {
                Some(v) => Ok((-(v as i64)) as i32),
                None => Err(ParseError { text: s.to_owned() }),
            }
        } else {
            let start: usize = if n > 0 && s.get_char(0) == '+' {
                1
            } else {
                0
            };
            proof {
                if start == 0 {
                    assert(s@.skip(0) =~= s@);
                }
            }
            match parse_dec_digits(s, start, 2147483647u64) {
                Some(v) => Ok(v as i32),
                None => Err(ParseError { text: s.to_owned() }),
            }
        }
    }
}

/// Boolean syntax: exactly `true` or `false`.
pub open spec fn spec_parse_bool(s: Seq<char>) -> Option<bool> {
    if s.len() == 4 && s[0] == 't' && s[1] == 'r' && s[2] == 'u' && s[3] == 'e' {
        Some(true)
    } else if s.len() == 5 && s[0] == 'f' && s[1] == 'a' && s[2] == 'l' && s[3] == 's' && s[4]
        == 'e' {
        Some(false)
    } else {
        None
    }
}

impl ParseOperand for bool {
    open spec fn operand_ok(s: Seq<char>) -> bool {
        spec_parse_bool(s) is Some
    }

    open spec fn operand_is(s: Seq<char>, v: &bool) -> bool {
        spec_parse_bool(s) == Some(*v)
    }

    fn parse_operand(s: &str) -> (r: Result<bool, ParseError>) {
        let n = s.unicode_len();
        if n == 4 && s.get_char(0) == 't' && s.get_char(1) == 'r' && s.get_char(2) == 'u'
            && s.get_char(3) == 'e' {
            Ok(true)
        } else if n == 5 && s.get_char(0) == 'f' && s.get_char(1) == 'a' && s.get_char(2) == 'l'
            && s.get_char(3) == 's' && s.get_char(4) == 'e' {
            Ok(false)
        } else {
            Err(ParseError { text: s.to_owned() })
        }
    }
}

impl ParseOperand for String {
    open spec fn operand_ok(s: Seq<char>) -> bool {
        true
    }

    open spec fn operand_is(s: Seq<char>, v: &String) -> bool {
        v@ == s
    }

    fn parse_operand(s: &str) -> (r: Result<String, ParseError>) {
        Ok(s.to_owned())
    }
}

/// A comparison operator paired with a typed operand.
#[derive(Clone, Debug)]
pub enum FilterExpr<T> {
    Eq(T),
    Neq(T),
    Gt(T),
    Lt(T),
    Gte(T),
    Lte(T),
}

pub open spec fn starts_with_2(s: Seq<char>, a: char, b: char) -> bool {
    s.len() >= 2 && s[0] == a && s[1] == b
}

/// How many characters the recognized operator prefix of `s` takes up:
/// two-character prefixes are tried before their one-character heads, and a
/// string with no prefix keeps all its characters as operand text.
pub open spec fn spec_prefix_len(s: Seq<char>) -> int {
    if starts_with_2(s, '>', '=') {
        2
    } else if starts_with_2(s, '<', '=') {
        2
    } else if s.len() >= 1 && s[0] == '>' {
        1
    } else if s.len() >= 1 && s[0] == '<' {
        1
    } else if starts_with_2(s, '^', '=') {
        2
    } else if s.len() >= 1 && s[0] == '=' {
        1
    } else {
        0
    }
}

/// The operand text of `s`: what is left after the operator prefix.
pub open spec fn spec_operand_text(s: Seq<char>) -> Seq<char> {
    s.skip(spec_prefix_len(s))
}

/// Whether `f` carries the comparison operator that the prefix of `s`
/// selects; a string without a prefix selects `<`.
pub open spec fn spec_op_matches<T>(s: Seq<char>, f: FilterExpr<T>) -> bool {
    if starts_with_2(s, '>', '=') {
        f is Gte
    } else if starts_with_2(s, '<', '=') {
        f is Lte
    } else if s.len() >= 1 && s[0] == '>' {
        f is Gt
    } else if s.len() >= 1 && s[0] == '<' {
        f is Lt
    } else if starts_with_2(s, '^', '=') {
        f is Neq
    } else if s.len() >= 1 && s[0] == '=' {
        f is Eq
    } else {
        f is Lt
    }
}

/// The operand carried by a comparison.
pub open spec fn operand_of<T>(f: FilterExpr<T>) -> T {
    match f {
        FilterExpr::Eq(x) => x,
        FilterExpr::Neq(x) => x,
        FilterExpr::Gt(x) => x,
        FilterExpr::Lt(x) => x,
        FilterExpr::Gte(x) => x,
        FilterExpr::Lte(x) => x,
    }
}

impl<T: ParseOperand> FilterExpr<T> {
    /// Parse a comparison string: strip the operator prefix, then read the
    /// remaining text as an operand of `T`. Fails exactly when the operand
    /// text does not denote a value of `T`.
    pub fn parse(value: &str) -> (r: Result<Self, ParseError>)
        ensures
            r is Ok <==> T::operand_ok(spec_operand_text(value@)),
            r matches Ok(f) ==> spec_op_matches(value@, f) && T::operand_is(
                spec_operand_text(value@),
                &operand_of(f),
            ),
    {
        let n = value.unicode_len();
        let c0 = if n >= 1 {
            value.get_char(0)
        } else {
            ' '
        };
        let c1 = if n >= 2 {
            value.get_char(1)
        } else {
            ' '
        };
        proof {
            assert(value@.subrange(1, n as int) =~= value@.skip(1));
            assert(value@.subrange(2, n as int) =~= value@.skip(2));
            assert(value@.subrange(0, n as int) =~= value@);
        }
        if n >= 2 && c0 == '>' && c1 == '=' {
            match T::parse_operand(value.substring_char(2, n)) {
                Ok(v) => Ok(FilterExpr::Gte(v)),
                Err(e) => Err(e),
            }
        } else if n >= 2 && c0 == '<' && c1 == '=' {
            match T::parse_operand(value.substring_char(2, n)) {
                Ok(v) => Ok(FilterExpr::Lte(v)),
                Err(e) => Err(e),
            }
        } else if n >= 1 && c0 == '>' {
            match T::parse_operand(value.substring_char(1, n)) {
                Ok(v) => Ok(FilterExpr::Gt(v)),
                Err(e) => Err(e),
            }
        } else if n >= 1 && c0 == '<' {
            match T::parse_operand(value.substring_char(1, n)) {
                Ok(v) => Ok(FilterExpr::Lt(v)),
                Err(e) => Err(e),
            }
        } else if n >= 2 && c0 == '^' && c1 == '=' {
            match T::parse_operand(value.substring_char(2, n)) {
                Ok(v) => Ok(FilterExpr::Neq(v)),
                Err(e) => Err(e),
            }
        } else if n >= 1 && c0 == '=' {
            match T::parse_operand(value.substring_char(1, n)) {
                Ok(v) => Ok(FilterExpr::Eq(v)),
                Err(e) => Err(e),
            }
        } else {
            match T::parse_operand(value.substring_char(0, n)) {
                Ok(v) => Ok(FilterExpr::Lt(v)),
                Err(e) => Err(e),
            }
        }
    }
}

/// What `apply` decides, over the specification-level meaning of the
/// operand type's equality and ordering.
pub open spec fn spec_apply<T: PartialEq + PartialOrd>(f: &FilterExpr<T>, other: &T) -> bool {
    match f {
        FilterExpr::Eq(x) => other.eq_spec(x),
        FilterExpr::Neq(x) => !other.eq_spec(x),
        FilterExpr::Gt(x) => other.partial_cmp_spec(x) == Some(Ordering::Greater),
        FilterExpr::Lt(x) => other.partial_cmp_spec(x) == Some(Ordering::Less),
        FilterExpr::Gte(x) => other.partial_cmp_spec(x) matches Some(
            Ordering::Greater
            | Ordering::Equal,
        ),
        FilterExpr::Lte(x) => other.partial_cmp_spec(x) matches Some(
            Ordering::Less
            | Ordering::Equal,
        ),
    }
}

impl<T: PartialEq + PartialOrd> FilterExpr<T> {
    /// Evaluate the comparison against a candidate value, using the
    /// operand type's own equality and ordering.
    pub fn apply(&self, other: T) -> (r: bool)
        ensures
            T::obeys_eq_spec() && T::obeys_partial_cmp_spec() ==> r == spec_apply(self, &other),
    {
        match self {
            FilterExpr::Eq(x) => other == *x,
            FilterExpr::Neq(x) => other != *x,
            FilterExpr::Gt(x) => other > *x,
            FilterExpr::Lt(x) => other < *x,
            FilterExpr::Gte(x) => other >= *x,
            FilterExpr::Lte(x) => other <= *x,
        }
    }

    /// Evaluate the comparison against a candidate of a related type,
    /// converting it into the operand type first.
    pub fn apply_as<S: Into<T>>(&self, other: S) -> (r: bool)
        ensures
            T::obeys_eq_spec() && T::obeys_partial_cmp_spec()
                && <S as IntoSpec<T>>::obeys_into_spec() ==> r == spec_apply(
                self,
                &other.into_spec(),
            ),
    {
        match self {
            FilterExpr::Eq(x) => other.into() == *x,
            FilterExpr::Neq(x) => other.into() != *x,
            FilterExpr::Gt(x) => other.into() > *x,
            FilterExpr::Lt(x) => other.into() < *x,
            FilterExpr::Gte(x) => other.into() >= *x,
            FilterExpr::Lte(x) => other.into() <= *x,
        }
    }
}

impl<T: ParseOperand> core::str::FromStr for FilterExpr<T> {
    type Err = ParseError;

    fn from_str(s: &str) -> Result<Self, Self::Err> {
        FilterExpr::parse(s)
    }
}

/// For every supported prefix `p` and operand text `v`, parsing `p + v`
/// selects the operator belonging to `p` and hands exactly `v` to the
/// operand parser; text with no prefix is handed whole to a `<` comparison.
/// The one-character prefixes `>` and `<` demand that `v` not begin with
/// `=`, which would turn them into their two-character forms.
pub proof fn lemma_prefix_selects_operator<T>(v: Seq<char>, f: FilterExpr<T>)
    ensures
        spec_operand_text(seq!['>', '='] + v) == v,
        spec_op_matches(seq!['>', '='] + v, f) <==> f is Gte,
        spec_operand_text(seq!['<', '='] + v) == v,
        spec_op_matches(seq!['<', '='] + v, f) <==> f is Lte,
        spec_operand_text(seq!['^', '='] + v) == v,
        spec_op_matches(seq!['^', '='] + v, f) <==> f is Neq,
        spec_operand_text(seq!['='] + v) == v,
        spec_op_matches(seq!['='] + v, f) <==> f is Eq,
        v.len() == 0 || v[0] != '=' ==> spec_operand_text(seq!['>'] + v) == v,
        v.len() == 0 || v[0] != '=' ==> (spec_op_matches(seq!['>'] + v, f) <==> f is Gt),
        v.len() == 0 || v[0] != '=' ==> spec_operand_text(seq!['<'] + v) == v,
        v.len() == 0 || v[0] != '=' ==> (spec_op_matches(seq!['<'] + v, f) <==> f is Lt),
        v.len() == 0 || (v[0] != '>' && v[0] != '<' && v[0] != '=' && !starts_with_2(v, '^', '='))
            ==> spec_operand_text(v) == v && (spec_op_matches(v, f) <==> f is Lt),
{
    assert((seq!['>', '='] + v).skip(2) =~= v);
    assert((seq!['<', '='] + v).skip(2) =~= v);
    assert((seq!['^', '='] + v).skip(2) =~= v);
    assert((seq!['='] + v).skip(1) =~= v);
    assert((seq!['>'] + v).skip(1) =~= v);
    assert((seq!['<'] + v).skip(1) =~= v);
    assert(v.skip(0) =~= v);
}

} // verus!
