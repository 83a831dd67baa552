//! Conversions between collections of strings and numbers: rendering
//! slices as owned strings, borrowing them back, and reading digit
//! strings into vectors of integers.

use vstd::prelude::*;

verus! {

use vstd::string::StrSliceExecFns;
use vstd::string::to_string_from_display_ensures;

use crate::strings::StrExtension;
use crate::strings::all_digit_chars;
use crate::strings::char_is_digit;
use crate::strings::char_is_whitespace;
use crate::strings::digit_char_value;
use crate::strings::is_whitespace_char;
use crate::strings::spec_digits_of;
use crate::strings::str_chars;

/// Renders every element of the slice with its `Display` implementation.
pub fn to_vec_string<T: core::fmt::Display>(v: &[T]) -> (r: Vec<String>)
    ensures
        r@.len() == v@.len(),
        forall|i: int|
            0 <= i < v@.len() ==> to_string_from_display_ensures::<T>(&v@[i], #[trigger] r@[i]),
{
    let mut out: Vec<String> = Vec::new();
    let mut i: usize = 0;
    while i < v.len()
        invariant
            i <= v@.len(),
            out@.len() == i,
            forall|j: int|
                0 <= j < i ==> to_string_from_display_ensures::<T>(&v@[j], #[trigger] out@[j]),
        decreases v@.len() - i,
    {
        out.push(v[i].to_string());
        i = i + 1;
    }
    out
}

/// Borrows every `String` of the slice as a `&str`.
pub fn to_vec_slice<'a>(v: &'a [String]) -> (r: Vec<&'a str>)
    ensures
        r@.len() == v@.len(),
        forall|i: int| 0 <= i < v@.len() ==> #[trigger] r@[i]@ == v@[i]@,
{
    let mut out: Vec<&str> = Vec::new();
    let mut i: usize = 0;
    while i < v.len()
        invariant
            i <= v@.len(),
            out@.len() == i,
            forall|j: int| 0 <= j < i ==> #[trigger] out@[j]@ == v@[j]@,
        decreases v@.len() - i,
    {
        out.push(v[i].as_str());
        i = i + 1;
    }
    out
}

/// The digit values of a string of ASCII decimal digits; any other
/// string yields an empty vector.
pub fn string_to_digits(string: &str) -> (r: Vec<u32>)
    ensures
        r@ == if all_digit_chars(string@) {
            spec_digits_of(string@)
        } else {
            Seq::<u32>::empty()
        },
{
    string.to_digits()
}

/// The numeric value of a string of digit characters, most significant
/// first.
pub open spec fn spec_digits_value(s: Seq<char>) -> int
    decreases s.len(),
{
    if s.len() == 0 {
        0
    } else {
        spec_digits_value(s.drop_last()) * 10 + digit_char_value(s.last())
    }
}

/// The token without an optional leading plus sign.
pub open spec fn spec_strip_plus(t: Seq<char>) -> Seq<char> {
    if t.len() > 0 && t[0] == '+' {
        t.drop_first()
    } else {
        t
    }
}

/// True of tokens that read as a `u32`: after an optional leading plus
/// sign, at least one character, all of them ASCII decimal digits, with a
/// value that fits.
pub open spec fn valid_number_token(t: Seq<char>) -> bool {
    let d = spec_strip_plus(t);
    d.len() > 0 && all_digit_chars(d) && spec_digits_value(d) <= u32::MAX
}

/// The maximal runs of non-white-space characters of `s` from position
/// `i` on, with `cur` the part of the current run already read.
pub open spec fn spec_tokens_acc(s: Seq<char>, i: int, cur: Seq<char>) -> Seq<Seq<char>>
    decreases s.len() - i,
{
    if i < 0 || i >= s.len() {
        if cur.len() == 0 {
            Seq::empty()
        } else {
            seq![cur]
        }
    } else if is_whitespace_char(s[i]) {
        if cur.len() == 0 {
            spec_tokens_acc(s, i + 1, Seq::empty())
        } else {
            seq![cur] + spec_tokens_acc(s, i + 1, Seq::empty())
        }
    } else {
        spec_tokens_acc(s, i + 1, cur.push(s[i]))
    }
}

/// The maximal runs of non-white-space characters of `s`, in order.
pub open spec fn spec_ws_tokens(s: Seq<char>) -> Seq<Seq<char>> {
    spec_tokens_acc(s, 0, Seq::empty())
}

/// The value of a digit string never shrinks as more digits are read.
proof fn lemma_digits_value_grows(s: Seq<char>, j: int)
    requires
        0 <= j <= s.len(),
    ensures
        0 <= spec_digits_value(s.take(j)) <= spec_digits_value(s),
    decreases s.len(),
{
    if s.len() == 0 {
        assert(s.take(j) =~= s);
    } else if j == s.len() {
        assert(s.take(j) =~= s);
        lemma_digits_value_grows(s.drop_last(), s.len() - 1);
        assert(s.drop_last().take(s.len() - 1) =~= s.drop_last());
    } else {
        assert(s.take(j) =~= s.drop_last().take(j));
        lemma_digits_value_grows(s.drop_last(), j);
    }
}

/// Reads a token as a `u32`: an optional leading plus sign, then only
/// digits, with a value that fits.
fn parse_u32_digits(t: &Vec<char>) -> (r: Option<u32>)
    ensures
        r is Some <==> valid_number_token(t@),
        r matches Some(v) ==> v == spec_digits_value(spec_strip_plus(t@)),
{
    let n = t.len();
    if n == 0 {
        return None;
    }
    let start: usize = if t[0] == '+' {
        1
    } else {
        0
    };
    if start >= n {
        return None;
    }
    let ghost digits = spec_strip_plus(t@);
    proof {
        assert(digits =~= t@.skip(start as int));
    }
    let mut value: u32 = 0;
    let mut i: usize = start;
    while i < n
        invariant
            start <= i <= n,
            n == t@.len(),
            start < n,
            digits =~= t@.skip(start as int),
            digits == spec_strip_plus(t@),
            forall|j: int| start <= j < i ==> crate::strings::is_digit_char(#[trigger] t@[j]),
            value == spec_digits_value(digits.take(i - start)),
        decreases n - i,
    {
        let c = t[i];
        if !char_is_digit(c) {
            proof {
                assert(digits[i - start] == t@[i as int]);
                assert(!all_digit_chars(digits));
                assert(!valid_number_token(t@));
            }
            return None;
        }
        let d = c as u32 - 48;
        let next = match value.checked_mul(10) {
            Some(m) => m.checked_add(d),
            None => None,
        };
        match next {
            Some(v) => {
                proof {
                    assert(digits.take(i - start + 1).drop_last() =~= digits.take(i - start));
                    assert(digits.take(i - start + 1).last() == t@[i as int]);
                }
                value = v;
            },
            None => {
                // The prefix read so far already exceeds `u32::MAX`, so the
                // whole token does.
                proof {
                    assert(digits.take(i - start + 1).drop_last() =~= digits.take(i - start));
                    assert(digits.take(i - start + 1).last() == t@[i as int]);
                    assert(spec_digits_value(digits.take(i - start + 1)) > u32::MAX);
                    lemma_digits_value_grows(digits, i - start + 1);
                    assert(spec_digits_value(digits) > u32::MAX);
                    assert(!valid_number_token(t@));
                }
                return None;
            },
        }
        i = i + 1;
    }
    proof {
        assert(digits.take(n - start) =~= digits);
        assert forall|k: int| 0 <= k < digits.len() implies crate::strings::is_digit_char(
            #[trigger] digits[k],
        ) by {
            assert(digits[k] == t@[start + k]);
        }
    }
    Some(value)
}

/// The error returned when a white-space-separated token of the input
/// does not read as a `u32`.
#[derive(Debug, Clone, Copy, PartialEq, Eq, Structural)]
pub struct ParseNumberError;

/// Reads the white-space-separated tokens of the string as `u32` values.
/// Fails exactly when some token is not a number that fits (each token
/// may carry a leading plus sign).
pub fn string_to_vec_of_integers(string: &str) -> (r: Result<Vec<u32>, ParseNumberError>)
    ensures
        r is Ok <==> (forall|j: int|
            0 <= j < spec_ws_tokens(string@).len() ==> valid_number_token(
                #[trigger] spec_ws_tokens(string@)[j],
            )),
        r matches Ok(v) ==> v@.len() == spec_ws_tokens(string@).len() && (forall|j: int|
            0 <= j < v@.len() ==> #[trigger] v@[j] == spec_digits_value(
                spec_strip_plus(spec_ws_tokens(string@)[j]),
            )),
{
    let chars = str_chars(string);
    let n = chars.len();
    let ghost toks = spec_ws_tokens(string@);
    let mut out: Vec<u32> = Vec::new();
    let mut cur: Vec<char> = Vec::new();
    let ghost mut done: Seq<Seq<char>> = Seq::empty();
    let mut i: usize = 0;
    while i < n
        invariant
            i <= n,
            n == chars@.len(),
            chars@ == string@,
            toks == spec_ws_tokens(string@),
            toks =~= done + spec_tokens_acc(chars@, i as int, cur@),
            out@.len() == done.len(),
            forall|j: int| 0 <= j < done.len() ==> valid_number_token(#[trigger] done[j]),
            forall|j: int|
                0 <= j < done.len() ==> #[trigger] out@[j] == spec_digits_value(
                    spec_strip_plus(done[j]),
                ),
        decreases n - i,
    {
        let c = chars[i];
        let ghost pre_cur = cur@;
        let ghost pre_done = done;
        if char_is_whitespace(c) {
            if cur.len() > 0 {
                proof {
                    assert(spec_tokens_acc(chars@, i as int, pre_cur) =~= seq![pre_cur]
                        + spec_tokens_acc(chars@, i + 1, Seq::empty()));
                }
                match parse_u32_digits(&cur) {
                    Some(v) => {
                        out.push(v);
                        proof {
                            done = done.push(cur@);
                            assert(pre_done + spec_tokens_acc(chars@, i as int, pre_cur)
                                =~= done + spec_tokens_acc(chars@, i + 1, Seq::empty()));
                        }
                        cur = Vec::new();
                    },
                    None => {
                        proof {
                            assert(toks =~= pre_done + (seq![pre_cur] + spec_tokens_acc(
                                chars@,
                                i + 1,
                                Seq::empty(),
                            )));
                            assert(toks[pre_done.len() as int] == pre_cur);
                            assert(!valid_number_token(toks[pre_done.len() as int]));
                        }
                        return Err(ParseNumberError);
                    },
                }
            } else {
                proof {
                    assert(spec_tokens_acc(chars@, i as int, pre_cur) == spec_tokens_acc(
                        chars@,
                        i + 1,
                        Seq::<char>::empty(),
                    ));
                    assert(pre_cur =~= Seq::<char>::empty());
                }
            }
        } else {
            cur.push(c);
            proof {
                assert(spec_tokens_acc(chars@, i as int, pre_cur) == spec_tokens_acc(
                    chars@,
                    i + 1,
                    pre_cur.push(chars@[i as int]),
                ));
                assert(cur@ =~= pre_cur.push(chars@[i as int]));
            }
        }
        i = i + 1;
    }
    if cur.len() > 0 {
        proof {
            assert(spec_tokens_acc(chars@, n as int, cur@) =~= seq![cur@]);
            assert(toks =~= done.push(cur@));
            assert(toks[done.len() as int] == cur@);
        }
        match parse_u32_digits(&cur) {
            Some(v) => {
                out.push(v);
                proof {
                    done = done.push(cur@);
                }
            },
            None => {
                proof {
                    assert(!valid_number_token(toks[done.len() as int]));
                }
                return Err(ParseNumberError);
            },
        }
    } else {
        proof {
            assert(spec_tokens_acc(chars@, n as int, cur@) =~= Seq::<Seq<char>>::empty());
        }
    }
    proof {
        assert(toks =~= done);
    }
    Ok(out)
}

} // verus!
