//! Character-level string helpers: counting, digit tests and extraction,
//! whitespace normalisation, and the fixed-layout document formatters.
//!
//! All contracts speak about the sequence of characters of a string (its
//! view `s@`), never about its UTF-8 bytes.

use vstd::prelude::*;

verus! {

use vstd::string::StrSliceExecFns;

use crate::vecs::first_index_where;
use crate::vecs::last_index_where;
use crate::vecs::lemma_first_index_where;
use crate::vecs::lemma_last_index_where;

/// True of the ten ASCII decimal digit characters.
pub open spec fn is_digit_char(c: char) -> bool {
    48 <= c as u32 <= 57
}

/// The numeric value of an ASCII decimal digit character.
pub open spec fn digit_char_value(c: char) -> u32
    recommends
        is_digit_char(c),
{
    (c as u32 - 48) as u32
}

/// The ASCII decimal digit character for a value below ten.
pub open spec fn digit_to_char(d: u64) -> char
    recommends
        d < 10,
{
    ((d + 48) as u8) as char
}

/// True of the characters that Unicode classifies as white space; this is
/// the set that `char::is_whitespace` recognises.
pub open spec fn is_whitespace_char(c: char) -> bool {
    let u = c as u32;
    ||| (9 <= u <= 13)
    ||| u == 32
    ||| u == 0x85
    ||| u == 0xA0
    ||| u == 0x1680
    ||| (0x2000 <= u <= 0x200A)
    ||| u == 0x2028
    ||| u == 0x2029
    ||| u == 0x202F
    ||| u == 0x205F
    ||| u == 0x3000
}

/// Decides `is_digit_char`.
pub fn char_is_digit(c: char) -> (b: bool)
    ensures
        b == is_digit_char(c),
{
    let u = c as u32;
    48 <= u && u <= 57
}

/// Decides `is_whitespace_char`.
pub fn char_is_whitespace(c: char) -> (b: bool)
    ensures
        b == is_whitespace_char(c),
{
    let u = c as u32;
    (9 <= u && u <= 13) || u == 32 || u == 0x85 || u == 0xA0 || u == 0x1680 || (0x2000 <= u && u
        <= 0x200A) || u == 0x2028 || u == 0x2029 || u == 0x202F || u == 0x205F || u == 0x3000
}

/// True of the 128 ASCII characters.
pub open spec fn is_ascii_char(c: char) -> bool {
    '\0' <= c <= '\u{7f}'
}

/// Decides `is_ascii_char`.
pub fn char_is_ascii(c: char) -> (b: bool)
    ensures
        b == is_ascii_char(c),
{
    '\0' <= c && c <= '\u{7f}'
}

/// Relies on `String::push`: appends the character to the end of the string.
#[verifier::external_body]
pub(crate) fn push_char(s: &mut String, c: char)
    ensures
        final(s)@ == old(s)@.push(c),
{
    s.push(c);
}

/// Collects the characters of a string slice into a vector.
pub fn str_chars(s: &str) -> (r: Vec<char>)
    ensures
        r@ == s@,
{
    let n = s.unicode_len();
    let mut out: Vec<char> = Vec::new();
    let mut i: usize = 0;
    while i < n
        invariant
            n == s@.len(),
            i <= n,
            out@ == s@.take(i as int),
        decreases n - i,
    {
        out.push(s.get_char(i));
        proof {
            assert(s@.take(i + 1) =~= s@.take(i as int).push(s@[i as int]));
        }
        i = i + 1;
    }
    proof {
        assert(s@.take(n as int) =~= s@);
    }
    out
}

/// Builds a string holding exactly the given characters.
pub fn chars_to_string(chars: &Vec<char>) -> (r: String)
    ensures
        r@ == chars@,
{
    let mut out = String::new();
    let mut i: usize = 0;
    while i < chars.len()
        invariant
            i <= chars@.len(),
            out@ == chars@.take(i as int),
        decreases chars@.len() - i,
    {
        push_char(&mut out, chars[i]);
        proof {
            assert(chars@.take(i + 1) =~= chars@.take(i as int).push(chars@[i as int]));
        }
        i = i + 1;
    }
    proof {
        assert(chars@.take(chars@.len() as int) =~= chars@);
    }
    out
}

/// The base-10 character representation of `n`, most significant digit
/// first, with no leading zeros (and `"0"` for zero).
pub open spec fn spec_u64_to_chars(n: u64) -> Seq<char>
    decreases n,
{
    if n < 10 {
        seq![digit_to_char(n)]
    } else {
        spec_u64_to_chars(n / 10).push(digit_to_char(n % 10))
    }
}

/// Renders `n` in base 10.
pub fn u64_to_string(n: u64) -> (r: String)
    ensures
        r@ == spec_u64_to_chars(n),
{
    let mut digits: Vec<char> = Vec::new();
    digits.insert(0, digit_char_of(n % 10));
    let mut m = n / 10;
    proof {
        if n >= 10 {
            assert(spec_u64_to_chars(n) =~= spec_u64_to_chars(n / 10) + digits@);
        }
    }
    while m > 0
        invariant
            m > 0 ==> spec_u64_to_chars(n) == spec_u64_to_chars(m) + digits@,
            m == 0 ==> spec_u64_to_chars(n) == digits@,
        decreases m,
    {
        let ghost pre = digits@;
        digits.insert(0, digit_char_of(m % 10));
        proof {
            if m >= 10 {
                assert(spec_u64_to_chars(m) + pre =~= spec_u64_to_chars(m / 10) + digits@);
            } else {
                assert(spec_u64_to_chars(m) + pre =~= digits@);
            }
        }
        m = m / 10;
    }
    chars_to_string(&digits)
}

/// Converts a digit value below ten to its ASCII character.
fn digit_char_of(d: u64) -> (c: char)
    requires
        d < 10,
    ensures
        c == digit_to_char(d),
{
    (d as u8 + 48) as char
}

/// True when every character of the sequence is an ASCII decimal digit.
pub open spec fn all_digit_chars(s: Seq<char>) -> bool {
    forall|i: int| 0 <= i < s.len() ==> is_digit_char(#[trigger] s[i])
}

/// The numeric values of a sequence of digit characters.
pub open spec fn spec_digits_of(s: Seq<char>) -> Seq<u32> {
    Seq::new(s.len(), |i: int| digit_char_value(s[i]))
}

/// The characters of `s` from position `i` on, with each space that
/// directly follows another space removed; `prev` is the character that
/// preceded position `i`.
pub open spec fn spec_squeeze_from(s: Seq<char>, i: int, prev: char) -> Seq<char>
    decreases s.len() - i,
{
    if i < 0 || i >= s.len() {
        Seq::empty()
    } else {
        let rest = spec_squeeze_from(s, i + 1, s[i]);
        if prev == ' ' && s[i] == ' ' {
            rest
        } else {
            seq![s[i]] + rest
        }
    }
}

/// The string with every run of spaces collapsed to a single space. The
/// scan starts with a non-space previous character, so a leading space is
/// kept.
pub open spec fn spec_collapse_spaces(s: Seq<char>) -> Seq<char> {
    spec_squeeze_from(s, 0, 'x')
}

/// The CNPJ presentation of a string of 14 digits (anything else is
/// returned unchanged): `12.345.678/9012-34`.
pub open spec fn spec_format_cnpj(s: Seq<char>) -> Seq<char> {
    if s.len() == 14 && all_digit_chars(s) {
        s.subrange(0, 2) + "."@ + s.subrange(2, 5) + "."@ + s.subrange(5, 8) + "/"@ + s.subrange(
            8,
            12,
        ) + "-"@ + s.subrange(12, 14)
    } else {
        s
    }
}

/// The CPF presentation of a string of 11 digits (anything else is
/// returned unchanged): `123.456.789-01`.
pub open spec fn spec_format_cpf(s: Seq<char>) -> Seq<char> {
    if s.len() == 11 && all_digit_chars(s) {
        s.subrange(0, 3) + "."@ + s.subrange(3, 6) + "."@ + s.subrange(6, 9) + "-"@ + s.subrange(
            9,
            11,
        )
    } else {
        s
    }
}

/// The NCM presentation of a string of 8 digits (anything else is
/// returned unchanged): `2309.90.90`.
pub open spec fn spec_format_ncm(s: Seq<char>) -> Seq<char> {
    if s.len() == 8 && all_digit_chars(s) {
        s.subrange(0, 4) + "."@ + s.subrange(4, 6) + "."@ + s.subrange(6, 8)
    } else {
        s
    }
}

/// Decides `all_digit_chars`.
fn str_all_digits(s: &str) -> (b: bool)
    ensures
        b == all_digit_chars(s@),
{
    let n = s.unicode_len();
    let mut i: usize = 0;
    while i < n
        invariant
            n == s@.len(),
            i <= n,
            forall|j: int| 0 <= j < i ==> is_digit_char(#[trigger] s@[j]),
        decreases n - i,
    {
        if !char_is_digit(s.get_char(i)) {
            return false;
        }
        i = i + 1;
    }
    true
}

/// Gets the first or the last `n` characters of a `String` or `&str`.
pub trait GetNChars {
    /// The characters of the string.
    spec fn chars_view(&self) -> Seq<char>;

    /// The first `num` characters, or the whole string when it has fewer.
    fn get_first_n_chars<'a>(&'a self, num: usize) -> (r: &'a str)
        ensures
            r@ == if num as int <= self.chars_view().len() {
                self.chars_view().take(num as int)
            } else {
                self.chars_view()
            },
    ;

    /// The last `num` characters, or the whole string when it has fewer.
    fn get_last_n_chars<'a>(&'a self, num: usize) -> (r: &'a str)
        requires
            num >= 1,
        ensures
            r@ == if num as int <= self.chars_view().len() {
                self.chars_view().skip(self.chars_view().len() - num as int)
            } else {
                self.chars_view()
            },
    ;
}

impl GetNChars for str {
    open spec fn chars_view(&self) -> Seq<char> {
        self@
    }

    fn get_first_n_chars<'a>(&'a self, num: usize) -> (r: &'a str) {
        let n = self.unicode_len();
        if num >= n {
            self
        } else {
            self.substring_char(0, num)
        }
    }

    fn get_last_n_chars<'a>(&'a self, num: usize) -> (r: &'a str) {
        let n = self.unicode_len();
        if num >= n {
            self
        } else {
            self.substring_char(n - num, n)
        }
    }
}

impl GetNChars for String {
    open spec fn chars_view(&self) -> Seq<char> {
        self@
    }

    fn get_first_n_chars<'a>(&'a self, num: usize) -> (r: &'a str) {
        self.as_str().get_first_n_chars(num)
    }

    fn get_last_n_chars<'a>(&'a self, num: usize) -> (r: &'a str) {
        self.as_str().get_last_n_chars(num)
    }
}

/// In-place character removal for `String`.
pub trait StringExtension: View<V = Seq<char>> {
    /// Removes every Unicode white-space character.
    fn remove_all_whitespace(&mut self)
        ensures
            final(self)@ == old(self)@.filter(|c: char| !is_whitespace_char(c)),
    ;

    /// Removes every occurrence of the given character.
    fn remove_all_char(&mut self, ch: char)
        ensures
            final(self)@ == old(self)@.filter(|c: char| c != ch),
    ;
}

impl StringExtension for String {
    fn remove_all_whitespace(&mut self) {
        let chars = str_chars(self.as_str());
        let mut kept: Vec<char> = Vec::new();
        proof {
            reveal(Seq::filter);
            assert(chars@.take(0).filter(|c: char| !is_whitespace_char(c)) =~= Seq::<
                char,
            >::empty());
        }
        let mut i: usize = 0;
        while i < chars.len()
            invariant
                i <= chars@.len(),
                kept@ == chars@.take(i as int).filter(|c: char| !is_whitespace_char(c)),
            decreases chars@.len() - i,
        {
            let c = chars[i];
            if !char_is_whitespace(c) {
                kept.push(c);
            }
            proof {
                reveal(Seq::filter);
                assert(chars@.take(i + 1).drop_last() =~= chars@.take(i as int));
                assert(chars@.take(i + 1).last() == chars@[i as int]);
                assert(chars@.take(i + 1).filter(|c: char| !is_whitespace_char(c)) == if (|c: char| !is_whitespace_char(c))(chars@[i as int]) {
                    chars@.take(i as int).filter(|c: char| !is_whitespace_char(c)).push(chars@[i as int])
                } else {
                    chars@.take(i as int).filter(|c: char| !is_whitespace_char(c))
                });
            }
            i = i + 1;
        }
        proof {
            assert(chars@.take(chars@.len() as int) =~= chars@);
        }
        *self = chars_to_string(&kept);
    }

    fn remove_all_char(&mut self, ch: char) {
        let chars = str_chars(self.as_str());
        let mut kept: Vec<char> = Vec::new();
        proof {
            reveal(Seq::filter);
            assert(chars@.take(0).filter(|c: char| c != ch) =~= Seq::<char>::empty());
        }
        let mut i: usize = 0;
        while i < chars.len()
            invariant
                i <= chars@.len(),
                kept@ == chars@.take(i as int).filter(|c: char| c != ch),
            decreases chars@.len() - i,
        {
            let c = chars[i];
            if c != ch {
                kept.push(c);
            }
            proof {
                reveal(Seq::filter);
                assert(chars@.take(i + 1).drop_last() =~= chars@.take(i as int));
                assert(chars@.take(i + 1).last() == chars@[i as int]);
                assert(chars@.take(i + 1).filter(|c: char| c != ch) == if (|c: char| c != ch)(chars@[i as int]) {
                    chars@.take(i as int).filter(|c: char| c != ch).push(chars@[i as int])
                } else {
                    chars@.take(i as int).filter(|c: char| c != ch)
                });
            }
            i = i + 1;
        }
        proof {
            assert(chars@.take(chars@.len() as int) =~= chars@);
        }
        *self = chars_to_string(&kept);
    }
}


/// Character-level extensions to `str`: counting, digit tests, digit
/// extraction, whitespace normalisation, and fixed-layout formatting of
/// Brazilian document numbers.
pub trait StrExtension: View<V = Seq<char>> {
    /// The number of characters (not bytes) of the string.
    fn chars_count(&self) -> (n: usize)
        ensures
            n == self@.len(),
    ;

    /// True when the string is non-empty and holds only ASCII decimal
    /// digits.
    fn contains_only_digits(&self) -> (b: bool)
        ensures
            b == (self@.len() > 0 && all_digit_chars(self@)),
    ;

    /// True when at least one character is an ASCII decimal digit.
    fn contains_some_digits(&self) -> (b: bool)
        ensures
            b == exists|i: int| 0 <= i < self@.len() && is_digit_char(#[trigger] self@[i]),
    ;

    /// True when the string has exactly `num_digit` characters, all of
    /// them ASCII decimal digits.
    fn contains_num_digits(&self, num_digit: usize) -> (b: bool)
        ensures
            b == (self@.len() == num_digit && all_digit_chars(self@)),
    ;

    /// True when the string has at most `num_digit` characters, all of
    /// them ASCII decimal digits.
    fn contains_up_to_num_digits(&self, num_digit: usize) -> (b: bool)
        ensures
            b == (self@.len() <= num_digit && all_digit_chars(self@)),
    ;

    /// Replaces each run of several spaces with a single space.
    fn replace_multiple_whitespaces(&self) -> (r: String)
        ensures
            r@ == spec_collapse_spaces(self@),
    ;

    /// Keeps only the ASCII decimal digits.
    fn remove_non_digits(&self) -> (r: String)
        ensures
            r@ == self@.filter(|c: char| is_digit_char(c)),
    ;

    /// Removes the first and the last character; one or two characters
    /// leave nothing.
    fn remove_first_and_last_char(&self) -> (r: String)
        ensures
            r@ == if self@.len() <= 2 {
                Seq::<char>::empty()
            } else {
                self@.subrange(1, self@.len() - 1)
            },
    ;

    /// The leading run of ASCII decimal digits.
    fn select_first_digits(&self) -> (r: String)
        ensures
            r@ == self@.take(first_index_where(self@, |c: char| !is_digit_char(c))),
    ;

    /// The characters before the first non-digit; a string of digits only
    /// (or an empty one) yields the empty string, since no non-digit ever
    /// stops the scan.
    fn retain_first_digits<'a>(&'a self) -> (r: &'a str)
        ensures
            r@ == if all_digit_chars(self@) {
                Seq::<char>::empty()
            } else {
                self@.take(first_index_where(self@, |c: char| !is_digit_char(c)))
            },
    ;

    /// The part strictly between the first and the last occurrence of the
    /// delimiter, or the whole string when the delimiter does not occur.
    /// The delimiter must be an ASCII byte, and must not occur exactly
    /// once.
    fn strip_prefix_and_sufix<'a>(&'a self, delimiter_byte: u8) -> (r: &'a str)
        requires
            delimiter_byte < 128,
            (exists|i: int| 0 <= i < self@.len() && self@[i] == delimiter_byte as char) ==> (exists|
                i: int,
                j: int,
            |
                0 <= i < j < self@.len() && self@[i] == delimiter_byte as char && self@[j]
                    == delimiter_byte as char),
        ensures
            (forall|i: int| 0 <= i < self@.len() ==> self@[i] != delimiter_byte as char) ==> r@
                == self@,
            (exists|i: int| 0 <= i < self@.len() && self@[i] == delimiter_byte as char) ==> r@
                == self@.subrange(
                first_index_where(self@, |c: char| c == delimiter_byte as char) + 1,
                last_index_where(self@, |c: char| c == delimiter_byte as char),
            ),
    ;

    /// The number of bytes that the occurrences of `ch` take up: for an
    /// ASCII `ch` this is the number of occurrences.
    fn count_char(&self, ch: char) -> (n: usize)
        ensures
            n == vstd::utf8::encode_utf8(self@.filter(|c: char| c == ch)).len() as usize,
            is_ascii_char(ch) ==> n == self@.filter(|c: char| c == ch).len(),
    ;

    /// The digit values of a string of ASCII decimal digits; any other
    /// string yields an empty vector.
    fn to_digits(&self) -> (r: Vec<u32>)
        ensures
            r@ == if all_digit_chars(self@) {
                spec_digits_of(self@)
            } else {
                Seq::<u32>::empty()
            },
    ;

    /// Formats a string of 14 digits as a CNPJ.
    fn format_cnpj(&self) -> (r: String)
        ensures
            r@ == spec_format_cnpj(self@),
    ;

    /// Formats a string of 11 digits as a CPF.
    fn format_cpf(&self) -> (r: String)
        ensures
            r@ == spec_format_cpf(self@),
    ;

    /// Formats a string of 8 digits as an NCM.
    fn format_ncm(&self) -> (r: String)
        ensures
            r@ == spec_format_ncm(self@),
    ;
}

impl StrExtension for str {
    fn chars_count(&self) -> (n: usize) {
        self.unicode_len()
    }

    fn contains_only_digits(&self) -> (b: bool) {
        !self.is_empty() && str_all_digits(self)
    }

    fn contains_some_digits(&self) -> (b: bool) {
        let n = self.unicode_len();
        let mut i: usize = 0;
        while i < n
            invariant
                n == self@.len(),
                i <= n,
                forall|j: int| 0 <= j < i ==> !is_digit_char(#[trigger] self@[j]),
            decreases n - i,
        {
            if char_is_digit(self.get_char(i)) {
                return true;
            }
            i = i + 1;
        }
        false
    }

    fn contains_num_digits(&self, num_digit: usize) -> (b: bool) {
        self.unicode_len() == num_digit && str_all_digits(self)
    }

    fn contains_up_to_num_digits(&self, num_digit: usize) -> (b: bool) {
        self.unicode_len() <= num_digit && str_all_digits(self)
    }

    fn replace_multiple_whitespaces(&self) -> (r: String) {
        let chars = str_chars(self);
        let n = chars.len();
        let mut kept: Vec<char> = Vec::new();
        let mut prev: char = 'x';
        let mut i: usize = 0;
        while i < n
            invariant
                n == chars@.len(),
                chars@ == self@,
                i <= n,
                spec_collapse_spaces(self@) == kept@ + spec_squeeze_from(
                    chars@,
                    i as int,
                    prev,
                ),
            decreases n - i,
        {
            let c = chars[i];
            let ghost pre_kept = kept@;
            if !(prev == ' ' && c == ' ') {
                kept.push(c);
                proof {
                    assert(pre_kept + spec_squeeze_from(chars@, i as int, prev) =~= kept@
                        + spec_squeeze_from(chars@, i + 1, chars@[i as int]));
                }
            }
            prev = c;
            i = i + 1;
        }
        proof {
            assert(kept@ + spec_squeeze_from(chars@, n as int, prev) =~= kept@);
        }
        chars_to_string(&kept)
    }

    fn remove_non_digits(&self) -> (r: String) {
        let chars = str_chars(self);
        let mut kept: Vec<char> = Vec::new();
        proof {
            reveal(Seq::filter);
            assert(chars@.take(0).filter(|c: char| is_digit_char(c)) =~= Seq::<char>::empty());
        }
        let mut i: usize = 0;
        while i < chars.len()
            invariant
                i <= chars@.len(),
                chars@ == self@,
                kept@ == chars@.take(i as int).filter(|c: char| is_digit_char(c)),
            decreases chars@.len() - i,
        {
            let c = chars[i];
            if char_is_digit(c) {
                kept.push(c);
            }
            proof {
                reveal(Seq::filter);
                assert(chars@.take(i + 1).drop_last() =~= chars@.take(i as int));
                assert(chars@.take(i + 1).last() == chars@[i as int]);
                assert(chars@.take(i + 1).filter(|c: char| is_digit_char(c)) == if (|c: char|
                    is_digit_char(c))(chars@[i as int]) {
                    chars@.take(i as int).filter(|c: char| is_digit_char(c)).push(
                        chars@[i as int],
                    )
                } else {
                    chars@.take(i as int).filter(|c: char| is_digit_char(c))
                });
            }
            i = i + 1;
        }
        proof {
            assert(chars@.take(chars@.len() as int) =~= chars@);
        }
        chars_to_string(&kept)
    }

    fn remove_first_and_last_char(&self) -> (r: String) {
        let n = self.unicode_len();
        if n <= 2 {
            String::new()
        } else {
            String::from_str(self.substring_char(1, n - 1))
        }
    }

    fn select_first_digits(&self) -> (r: String) {
        let n = self.unicode_len();
        let mut i: usize = 0;
        let mut stop = false;
        while !stop && i < n
            invariant
                n == self@.len(),
                i <= n,
                forall|j: int| 0 <= j < i ==> is_digit_char(#[trigger] self@[j]),
                stop ==> i < n && !is_digit_char(self@[i as int]),
            decreases n - i, (if stop { 0int } else { 1int }),
        {
            if char_is_digit(self.get_char(i)) {
                i = i + 1;
            } else {
                stop = true;
            }
        }
        proof {
            lemma_first_index_where(self@, |c: char| !is_digit_char(c), i as int);
        }
        String::from_str(self.substring_char(0, i))
    }

    fn retain_first_digits<'a>(&'a self) -> (r: &'a str) {
        let n = self.unicode_len();
        let mut i: usize = 0;
        let mut stop = false;
        while !stop && i < n
            invariant
                n == self@.len(),
                i <= n,
                forall|j: int| 0 <= j < i ==> is_digit_char(#[trigger] self@[j]),
                stop ==> i < n && !is_digit_char(self@[i as int]),
            decreases n - i, (if stop { 0int } else { 1int }),
        {
            if char_is_digit(self.get_char(i)) {
                i = i + 1;
            } else {
                stop = true;
            }
        }
        if stop {
            proof {
                lemma_first_index_where(self@, |c: char| !is_digit_char(c), i as int);
            }
            self.substring_char(0, i)
        } else {
            self.substring_char(0, 0)
        }
    }

    fn strip_prefix_and_sufix<'a>(&'a self, delimiter_byte: u8) -> (r: &'a str) {
        let d = delimiter_byte as char;
        let n = self.unicode_len();
        // Forward scan for the first occurrence.
        let mut a: usize = 0;
        let mut found = false;
        while !found && a < n
            invariant
                n == self@.len(),
                a <= n,
                d == delimiter_byte as char,
                forall|j: int| 0 <= j < a ==> self@[j] != d,
                found ==> a < n && self@[a as int] == d,
            decreases n - a, (if found { 0int } else { 1int }),
        {
            if self.get_char(a) == d {
                found = true;
            } else {
                a = a + 1;
            }
        }
        if !found {
            return self;
        }
        // Backward scan for the last occurrence.
        let mut b: usize = n;
        let mut found_last = false;
        while !found_last && b > 0
            invariant
                n == self@.len(),
                b <= n,
                d == delimiter_byte as char,
                !found_last ==> forall|j: int| b <= j < n ==> self@[j] != d,
                found_last ==> b < n && self@[b as int] == d && forall|j: int|
                    b < j < n ==> self@[j] != d,
            decreases b, (if found_last { 0int } else { 1int }),
        {
            if self.get_char(b - 1) == d {
                b = b - 1;
                found_last = true;
            } else {
                b = b - 1;
            }
        }
        proof {
            lemma_first_index_where(self@, |c: char| c == delimiter_byte as char, a as int);
            lemma_last_index_where(self@, |c: char| c == delimiter_byte as char, b as int);
            // The delimiter occurs at `a`, so by the precondition it occurs
            // at two distinct positions, which the two scans bracket.
            let (i, j) = choose|i: int, j: int|
                0 <= i < j < self@.len() && self@[i] == d && self@[j] == d;
            assert(a <= i);
            assert(j <= b);
        }
        self.substring_char(a + 1, b)
    }

    fn count_char(&self, ch: char) -> (n: usize) {
        let chars = str_chars(self);
        let mut kept: Vec<char> = Vec::new();
        proof {
            reveal(Seq::filter);
            assert(chars@.take(0).filter(|c: char| c == ch) =~= Seq::<char>::empty());
        }
        let mut i: usize = 0;
        while i < chars.len()
            invariant
                i <= chars@.len(),
                chars@ == self@,
                kept@ == chars@.take(i as int).filter(|c: char| c == ch),
                forall|j: int| 0 <= j < kept@.len() ==> #[trigger] kept@[j] == ch,
            decreases chars@.len() - i,
        {
            let c = chars[i];
            if c == ch {
                kept.push(c);
            }
            proof {
                reveal(Seq::filter);
                assert(chars@.take(i + 1).drop_last() =~= chars@.take(i as int));
                assert(chars@.take(i + 1).last() == chars@[i as int]);
                assert(chars@.take(i + 1).filter(|c: char| c == ch) == if (|c: char| c == ch)(
                    chars@[i as int],
                ) {
                    chars@.take(i as int).filter(|c: char| c == ch).push(chars@[i as int])
                } else {
                    chars@.take(i as int).filter(|c: char| c == ch)
                });
            }
            i = i + 1;
        }
        proof {
            assert(chars@.take(chars@.len() as int) =~= chars@);
        }
        let retained = chars_to_string(&kept);
        proof {
            if is_ascii_char(ch) {
                assert forall|k: int| 0 <= k < kept@.len() implies '\0' <= #[trigger] kept@[k]
                    <= '\u{7f}' by {
                    assert(kept@[k] == ch);
                }
                assert(vstd::utf8::is_ascii_chars(kept@));
                vstd::utf8::is_ascii_chars_encode_utf8(kept@);
            }
        }
        retained.as_str().len()
    }

    fn to_digits(&self) -> (r: Vec<u32>) {
        let chars = str_chars(self);
        let n = chars.len();
        let mut out: Vec<u32> = Vec::new();
        let mut i: usize = 0;
        while i < n
            invariant
                n == chars@.len(),
                chars@ == self@,
                i <= n,
                out@.len() == i,
                forall|j: int|
                    0 <= j < i ==> is_digit_char(#[trigger] chars@[j]) && out@[j]
                        == digit_char_value(chars@[j]),
            decreases n - i,
        {
            let c = chars[i];
            if !char_is_digit(c) {
                let empty: Vec<u32> = Vec::new();
                return empty;
            }
            out.push(c as u32 - 48);
            i = i + 1;
        }
        proof {
            assert(out@ =~= spec_digits_of(self@));
        }
        out
    }

    fn format_cnpj(&self) -> (r: String) {
        if self.contains_num_digits(14) {
            let mut out = String::from_str(self.substring_char(0, 2));
            out.append(".");
            out.append(self.substring_char(2, 5));
            out.append(".");
            out.append(self.substring_char(5, 8));
            out.append("/");
            out.append(self.substring_char(8, 12));
            out.append("-");
            out.append(self.substring_char(12, 14));
            out
        } else {
            String::from_str(self)
        }
    }

    fn format_cpf(&self) -> (r: String) {
        if self.contains_num_digits(11) {
            let mut out = String::from_str(self.substring_char(0, 3));
            out.append(".");
            out.append(self.substring_char(3, 6));
            out.append(".");
            out.append(self.substring_char(6, 9));
            out.append("-");
            out.append(self.substring_char(9, 11));
            out
        } else {
            String::from_str(self)
        }
    }

    fn format_ncm(&self) -> (r: String) {
        if self.contains_num_digits(8) {
            let mut out = String::from_str(self.substring_char(0, 4));
            out.append(".");
            out.append(self.substring_char(4, 6));
            out.append(".");
            out.append(self.substring_char(6, 8));
            out
        } else {
            String::from_str(self)
        }
    }
}

} // verus!
