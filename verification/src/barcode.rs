//! A validated barcode value: `Z` followed by digits, eight to twenty
//! characters in all.

use vstd::prelude::*;
use vstd::string::StringSliceAdditionalSpecFns;
use crate::errors::DomainError;
use crate::sequence::{code_of, lemma_decimal_short, lemma_leading_zeros, zero_pad, zeros, CODE_LENGTH, MAX_CODE};
use crate::text::{all_digits, chars_of, decimal, is_digit};

verus! {

/// Whether `s` is a barcode: eight to twenty characters, `Z` first, ASCII
/// digits after it.
pub open spec fn barcode_valid(s: Seq<char>) -> bool {
    &&& 8 <= s.len() <= 20
    &&& s[0] == 'Z'
    &&& all_digits(s.drop_first())
}

/// Whether checking `code` would slice it inside its first character: its
/// UTF-8 length is between 8 and 20 and that character is not ASCII.
pub open spec fn splits_first_char(code: &str) -> bool {
    &&& 8 <= code.spec_bytes().len() <= 20
    &&& code@.len() > 0
    &&& code@[0] as u32 >= 128
}

#[derive(Debug, Clone, PartialEq, Eq)]
pub struct Barcode(String);

impl View for Barcode {
    type V = Seq<char>;

    closed spec fn view(&self) -> Seq<char> {
        self.0@
    }
}

impl Barcode {
    /// The barcode `code`, refused unless it is valid.
    pub fn new(code: &str) -> (r: Result<Self, DomainError>)
        requires
            !splits_first_char(code),
        ensures
            barcode_valid(code@) ==> (r matches Ok(b) && b@ == code@),
            !barcode_valid(code@) ==> (r matches Err(DomainError::InvalidBarcode { code: c }) && c@ == code@),
    {
        if !Self::is_valid(code) {
            return Err(DomainError::InvalidBarcode { code: String::from_str(code) });
        }
        Ok(Self(String::from_str(code)))
    }

    /// The text of the barcode.
    pub fn value(&self) -> (s: &str)
        ensures
            s@ == self@,
    {
        self.0.as_str()
    }

    /// The text of the barcode, as it is displayed.
    pub fn to_string(&self) -> (s: String)
        ensures
            s@ == self@,
    {
        self.0.clone()
    }

    fn is_valid(code: &str) -> (r: bool)
        ensures
            r == barcode_valid(code@),
    {
        let chars = chars_of(code);
        let n = chars.len();
        if n < 8 || n > 20 {
            return false;
        }
        if chars[0] != 'Z' {
            return false;
        }
        let mut i: usize = 1;
        while i < n
            invariant
                1 <= i <= n,
                n == chars@.len(),
                chars@ == code@,
                forall|j: int| 1 <= j < i ==> is_digit(#[trigger] chars@[j]),
            decreases n - i,
        {
            let c = chars[i];
            if !('0' <= c && c <= '9') {
                assert(code@.drop_first()[i - 1] == c);
                return false;
            }
            i = i + 1;
        }
        assert forall|j: int| 0 <= j < code@.drop_first().len() implies is_digit(#[trigger] code@.drop_first()[j]) by {
            assert(code@.drop_first()[j] == chars@[j + 1]);
        }
        true
    }
}

/// Every code that a sequence hands out is a valid barcode.
pub proof fn lemma_sequence_codes_are_barcodes(v: nat)
    requires
        v <= MAX_CODE,
    ensures
        barcode_valid(code_of(v)),
{
    lemma_decimal_short(v);
    let d = decimal(v);
    let w = (CODE_LENGTH - d.len()) as nat;
    lemma_leading_zeros(w, d);
    if d.len() >= CODE_LENGTH {
        assert(zeros(0) + d =~= d);
    }
    assert(zero_pad(d, CODE_LENGTH as nat) == zeros(w) + d);
    assert(code_of(v).drop_first() =~= zeros(w) + d);
}


/// A barcode is exactly a `Z` followed by ASCII digits, eight to twenty
/// characters in all: any other character after the `Z`, at any place, is
/// refused.
pub proof fn lemma_barcode_valid_meaning(s: Seq<char>)
    ensures
        barcode_valid(s) <==> (8 <= s.len() <= 20 && s[0] == 'Z'
            && forall|i: int| 1 <= i < s.len() ==> '0' <= #[trigger] s[i] <= '9'),
{
    if 8 <= s.len() <= 20 && s[0] == 'Z' {
        if forall|i: int| 1 <= i < s.len() ==> '0' <= #[trigger] s[i] <= '9' {
            assert forall|j: int| 0 <= j < s.drop_first().len() implies is_digit(#[trigger] s.drop_first()[j]) by {
                assert(s.drop_first()[j] == s[j + 1]);
            }
        }
        if barcode_valid(s) {
            assert forall|i: int| 1 <= i < s.len() implies '0' <= #[trigger] s[i] <= '9' by {
                assert(s[i] == s.drop_first()[i - 1]);
                assert(is_digit(s.drop_first()[i - 1]));
            }
        }
    }
}

} // verus!
