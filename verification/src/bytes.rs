//! Byte-slice extensions: trimming ASCII white space and rendering bytes
//! as a lowercase hexadecimal string.

use vstd::prelude::*;

verus! {

use crate::strings::chars_to_string;
use crate::vecs::first_index_where;
use crate::vecs::last_index_where;
use crate::vecs::lemma_first_index_where;
use crate::vecs::lemma_last_index_where;

/// True of the five ASCII white-space bytes: space, tab, line feed, form
/// feed, and carriage return.
pub open spec fn is_ascii_ws_byte(b: u8) -> bool {
    b == 32 || b == 9 || b == 10 || b == 12 || b == 13
}

/// Decides `is_ascii_ws_byte`.
fn byte_is_ascii_ws(b: u8) -> (r: bool)
    ensures
        r == is_ascii_ws_byte(b),
{
    b == 32 || b == 9 || b == 10 || b == 12 || b == 13
}

/// The lowercase hexadecimal digit for a value below sixteen.
pub open spec fn spec_hex_char(v: u8) -> char
    recommends
        v < 16,
{
    if v < 10 {
        ((48 + v) as u8) as char
    } else {
        ((87 + v) as u8) as char
    }
}

/// Two lowercase hexadecimal digits for every byte, high nibble first.
pub open spec fn spec_hex_chars(s: Seq<u8>) -> Seq<char> {
    Seq::new(
        2 * s.len(),
        |i: int|
            if i % 2 == 0 {
                spec_hex_char(s[i / 2] / 16)
            } else {
                spec_hex_char(s[i / 2] % 16)
            },
    )
}

/// Converts a value below sixteen to its lowercase hexadecimal digit.
fn hex_digit_char(v: u8) -> (c: char)
    requires
        v < 16,
    ensures
        c == spec_hex_char(v),
{
    if v < 10 {
        (48 + v) as char
    } else {
        (87 + v) as char
    }
}

/// Byte slice extensions.
pub trait BytesExtension {
    /// The slice with leading and trailing ASCII white space removed.
    fn trim<'a>(&'a self) -> (r: &'a Self);

    /// The bytes as a lowercase hexadecimal string, two digits per byte.
    fn to_hex_string(&self) -> (r: String);
}

impl BytesExtension for [u8] {
    /// The subslice from the first to the last byte that is not ASCII
    /// white space; a slice of white space only trims to nothing.
    fn trim<'a>(&'a self) -> (r: &'a [u8])
        ensures
            (forall|i: int| 0 <= i < self@.len() ==> is_ascii_ws_byte(#[trigger] self@[i])) ==> r@
                == Seq::<u8>::empty(),
            (exists|i: int| 0 <= i < self@.len() && !is_ascii_ws_byte(#[trigger] self@[i])) ==> r@
                == self@.subrange(
                first_index_where(self@, |b: u8| !is_ascii_ws_byte(b)),
                last_index_where(self@, |b: u8| !is_ascii_ws_byte(b)) + 1,
            ),
    {
        let n = self.len();
        let mut a: usize = 0;
        let mut found = false;
        while !found && a < n
            invariant
                n == self@.len(),
                a <= n,
                forall|j: int| 0 <= j < a ==> is_ascii_ws_byte(#[trigger] self@[j]),
                found ==> a < n && !is_ascii_ws_byte(self@[a as int]),
            decreases n - a, (if found { 0int } else { 1int }),
        {
            if !byte_is_ascii_ws(self[a]) {
                found = true;
            } else {
                a = a + 1;
            }
        }
        if !found {
            return &self[0..0];
        }
        let mut b: usize = n;
        let mut found_last = false;
        while !found_last && b > 0
            invariant
                n == self@.len(),
                b <= n,
                !found_last ==> forall|j: int| b <= j < n ==> is_ascii_ws_byte(#[trigger] self@[j]),
                found_last ==> b < n && !is_ascii_ws_byte(self@[b as int]) && forall|j: int|
                    b < j < n ==> is_ascii_ws_byte(#[trigger] self@[j]),
            decreases b, (if found_last { 0int } else { 1int }),
        {
            if !byte_is_ascii_ws(self[b - 1]) {
                b = b - 1;
                found_last = true;
            } else {
                b = b - 1;
            }
        }
        proof {
            lemma_first_index_where(self@, |x: u8| !is_ascii_ws_byte(x), a as int);
            lemma_last_index_where(self@, |x: u8| !is_ascii_ws_byte(x), b as int);
            assert(a <= b);
        }
        &self[a..b + 1]
    }

    fn to_hex_string(&self) -> (r: String)
        ensures
            r@ == spec_hex_chars(self@),
    {
        let n = self.len();
        let mut out: Vec<char> = Vec::new();
        let mut i: usize = 0;
        while i < n
            invariant
                n == self@.len(),
                i <= n,
                out@.len() == 2 * i,
                forall|j: int| 0 <= j < 2 * i ==> out@[j] == spec_hex_chars(self@)[j],
            decreases n - i,
        {
            let byte = self[i];
            out.push(hex_digit_char(byte / 16));
            out.push(hex_digit_char(byte % 16));
            i = i + 1;
        }
        proof {
            assert(out@ =~= spec_hex_chars(self@));
        }
        chars_to_string(&out)
    }
}

} // verus!
