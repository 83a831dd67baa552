//! Localized rendering of numbers with thousands separators: a style
//! picks the separator pair, `add_sep` inserts the thousands separator
//! into a plain run of digits, and `thousands_separator` assembles the
//! sign, the grouped integer part and the fraction.
//!
//! The value to format arrives as its plain ASCII rendering (the absolute
//! value, with a `.` before any fraction digits) together with its sign,
//! so that callers can format any numeric type they can render.

use vstd::prelude::*;

verus! {

use vstd::string::StrSliceExecFns;
use vstd::string::StringExecFns;
use vstd::string::is_ascii;

use crate::strings::push_char;
use crate::vecs::first_index_where;
use crate::vecs::lemma_first_index_where;

/// Localized formatting styles for separators.
pub enum FormatStyle {
    /// `1.234,56` (common in Europe and South America).
    Euro,
    /// `1.234,56` (the same pair, named for the Brazilian context).
    PtBr,
    /// `1,234.56` (standard in the US and the UK).
    Us,
}

/// The thousands separator of a style.
pub open spec fn spec_thousands_sep(style: FormatStyle) -> char {
    match style {
        FormatStyle::Euro => '.',
        FormatStyle::PtBr => '.',
        FormatStyle::Us => ',',
    }
}

/// The decimal separator of a style.
pub open spec fn spec_decimal_sep(style: FormatStyle) -> char {
    match style {
        FormatStyle::Euro => ',',
        FormatStyle::PtBr => ',',
        FormatStyle::Us => '.',
    }
}

/// The characters of `s` from position `i` on, with the separator put
/// before every later position whose distance to the end is a multiple
/// of three.
pub open spec fn spec_add_sep_from(s: Seq<char>, i: int, sep: char) -> Seq<char>
    decreases s.len() - i,
{
    if i < 0 || i >= s.len() {
        Seq::empty()
    } else {
        let rest = spec_add_sep_from(s, i + 1, sep);
        if i > 0 && (s.len() - i) % 3 == 0 {
            seq![sep] + seq![s[i]] + rest
        } else {
            seq![s[i]] + rest
        }
    }
}

/// The digit run with the thousands separator inserted every three
/// digits, counted from the right.
pub open spec fn spec_add_sep(s: Seq<char>, sep: char) -> Seq<char> {
    spec_add_sep_from(s, 0, sep)
}

/// Appends `integer` to `buffer`, inserting the separator before every
/// position whose distance to the end is a positive multiple of three.
/// The input must be ASCII (it is meant to be a run of digits).
pub fn add_sep(integer: &str, separator: char, buffer: &mut String)
    requires
        is_ascii(integer),
    ensures
        final(buffer)@ == old(buffer)@ + spec_add_sep(integer@, separator),
{
    let len = integer.unicode_len();
    let mut i: usize = 0;
    proof {
        assert(old(buffer)@ + spec_add_sep_from(integer@, 0, separator) =~= buffer@
            + spec_add_sep_from(integer@, 0, separator));
    }
    while i < len
        invariant
            len == integer@.len(),
            i <= len,
            old(buffer)@ + spec_add_sep(integer@, separator) =~= buffer@ + spec_add_sep_from(
                integer@,
                i as int,
                separator,
            ),
        decreases len - i,
    {
        let ghost pre = buffer@;
        if i > 0 && (len - i) % 3 == 0 {
            push_char(buffer, separator);
        }
        push_char(buffer, integer.get_char(i));
        proof {
            assert(pre + spec_add_sep_from(integer@, i as int, separator) =~= buffer@
                + spec_add_sep_from(integer@, i + 1, separator));
        }
        i = i + 1;
    }
    proof {
        assert(buffer@ + spec_add_sep_from(integer@, len as int, separator) =~= buffer@);
    }
}

/// The localized rendering: the sign, then the integer part with
/// thousands separators, then (when fraction digits were requested and
/// present) the decimal separator and the fraction, unchanged.
pub open spec fn spec_thousands_separator(
    abs: Seq<char>,
    is_negative: bool,
    decimals: nat,
    style: FormatStyle,
) -> Seq<char> {
    let sign: Seq<char> = if is_negative {
        seq!['-']
    } else {
        Seq::empty()
    };
    let dot = first_index_where(abs, |c: char| c == '.');
    if decimals > 0 && dot < abs.len() {
        sign + spec_add_sep(abs.take(dot), spec_thousands_sep(style)) + seq![
            spec_decimal_sep(style),
        ] + abs.skip(dot + 1)
    } else {
        sign + spec_add_sep(abs, spec_thousands_sep(style))
    }
}

/// Formats a number into a localized string with thousands separators.
///
/// `abs_value` is the plain ASCII rendering of the absolute value, with a
/// `.` before exactly `decimals` fraction digits when `decimals` is
/// positive (`"1234567.90"`); `is_negative` carries the sign. The integer
/// part (everything before the first `.`) is grouped in threes with the
/// style's thousands separator, and the fraction is kept as it is behind
/// the style's decimal separator.
pub fn thousands_separator(
    abs_value: &str,
    is_negative: bool,
    decimals: usize,
    style: FormatStyle,
) -> (r: String)
    requires
        is_ascii(abs_value),
    ensures
        r@ == spec_thousands_separator(abs_value@, is_negative, decimals as nat, style),
{
    let thousands_sep = match style {
        FormatStyle::Euro => '.',
        FormatStyle::PtBr => '.',
        FormatStyle::Us => ',',
    };
    let decimal_sep = match style {
        FormatStyle::Euro => ',',
        FormatStyle::PtBr => ',',
        FormatStyle::Us => '.',
    };
    let n = abs_value.unicode_len();
    // Scan for the first dot, which splits integer and fraction parts.
    let mut dot: usize = 0;
    let mut found = false;
    while !found && dot < n
        invariant
            n == abs_value@.len(),
            dot <= n,
            forall|j: int| 0 <= j < dot ==> abs_value@[j] != '.',
            found ==> dot < n && abs_value@[dot as int] == '.',
        decreases n - dot, (if found { 0int } else { 1int }),
    {
        if abs_value.get_char(dot) == '.' {
            found = true;
        } else {
            dot = dot + 1;
        }
    }
    proof {
        lemma_first_index_where(abs_value@, |c: char| c == '.', dot as int);
    }
    let mut result = String::new();
    if is_negative {
        push_char(&mut result, '-');
    }
    if decimals > 0 && found {
        let integer_part = abs_value.substring_char(0, dot);
        let fraction_part = abs_value.substring_char(dot + 1, n);
        proof {
            assert forall|k: int| 0 <= k < integer_part@.len() implies '\0' <= #[trigger] integer_part@[k]
                <= '\u{7f}' by {
                assert(integer_part@[k] == abs_value@[k]);
            }
        }
        add_sep(integer_part, thousands_sep, &mut result);
        push_char(&mut result, decimal_sep);
        result.append(fraction_part);
    } else {
        add_sep(abs_value, thousands_sep, &mut result);
    }
    result
}

} // verus!
