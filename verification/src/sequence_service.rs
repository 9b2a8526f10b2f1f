//! The decisions around the stored sequence state: reading it, reserving a
//! range from it, and handing out the next code. Reading and writing the
//! store is left to the caller.

use vstd::prelude::*;
use crate::errors::DomainError;
use crate::text::decimal;
use crate::sequence::{advance, code_of, increment, parse_code_spec, Sequence};

verus! {

/// The sequence decisions; the stored last used code is passed in.
#[derive(Debug, Clone, Copy)]
pub struct SequenceService;

impl SequenceService {
    pub fn new() -> Self {
        SequenceService
    }

    /// The sequence whose stored last used code is `last_used_code`.
    pub fn current_sequence(&self, last_used_code: &str) -> (r: Result<Sequence, DomainError>)
        ensures
            parse_code_spec(last_used_code@) matches Some(v) ==> (r matches Ok(s) && s@ == v),
            parse_code_spec(last_used_code@) is None ==> (r matches Err(DomainError::InvalidBarcode { code }) && code@ == last_used_code@),
    {
        Sequence::from_code(last_used_code)
    }

    /// The `quantity` codes handed out one by one after the code `start`;
    /// refused if `start` is not a code, then if `quantity` is 0.
    pub fn codes_for_range(&self, start: &str, quantity: u64) -> (r: Result<Vec<String>, DomainError>)
        ensures
            parse_code_spec(start@) is None ==> (r matches Err(DomainError::InvalidBarcode { code }) && code@ == start@),
            parse_code_spec(start@) is Some && quantity == 0 ==> (r matches Err(DomainError::InvalidQuantity { value }) && value == 0),
            quantity > 0 ==> (parse_code_spec(start@) matches Some(v) ==> (r matches Ok(codes) && codes@.len() == quantity
                && forall|i: int| 0 <= i < quantity ==> #[trigger] codes@[i]@ == code_of(advance(v, (i + 1) as nat)))),
    {
        let mut sequence = Sequence::from_code(start)?;
        if quantity == 0 {
            return Err(DomainError::InvalidQuantity { value: 0 });
        }
        let mut codes: Vec<String> = Vec::new();
        let ghost v = sequence@;
        let mut i: u64 = 0;
        while i < quantity
            invariant
                i <= quantity,
                codes@.len() == i,
                sequence@ == advance(v, i as nat),
                forall|j: int| 0 <= j < i ==> #[trigger] codes@[j]@ == code_of(advance(v, (j + 1) as nat)),
            decreases quantity - i,
        {
            codes.push(sequence.next());
            i = i + 1;
        }
        Ok(codes)
    }

    /// The next code after the stored last used code, and the code to store
    /// as last used afterwards.
    pub fn next_code(&self, last_used_code: &str) -> (r: Result<(String, String), DomainError>)
        ensures
            parse_code_spec(last_used_code@) matches Some(v) ==> (r matches Ok((code, stored))
                && code@ == code_of(increment(v)) && stored@ == code_of(increment(v))),
            parse_code_spec(last_used_code@) is None ==> (r matches Err(DomainError::InvalidBarcode { code }) && code@ == last_used_code@),
    {
        let mut sequence = self.current_sequence(last_used_code)?;
        let code = sequence.next();
        let stored = sequence.last_used_code();
        Ok((code, stored))
    }

    /// Reserves `quantity` codes after the stored last used code, as the
    /// store does inside its transaction: the first and last reserved codes
    /// and the code to store as last used. Failures are reported as database
    /// errors carrying the text of the domain error.
    pub fn reserve_from_stored(&self, last_used_code: &str, quantity: u64) -> (r: Result<(String, String, String), DomainError>)
        ensures
            parse_code_spec(last_used_code@) is None ==> (r matches Err(DomainError::Database(m))
                && m@ == "Invalid barcode: "@ + last_used_code@),
            parse_code_spec(last_used_code@) is Some && quantity == 0 ==> (r matches Err(DomainError::Database(m))
                && m@ == "Invalid quantity: "@ + decimal(0)),
            quantity > 0 ==> (parse_code_spec(last_used_code@) matches Some(v) ==> (r matches Ok((start, end, stored))
                && start@ == code_of(increment(v))
                && end@ == code_of(advance(increment(v), (quantity - 1) as nat))
                && stored@ == end@)),
    {
        let mut sequence = match Sequence::from_code(last_used_code) {
            Ok(s) => s,
            Err(e) => {
                return Err(DomainError::Database(e.message()));
            },
        };
        match sequence.reserve_range(quantity) {
            Ok((start, end, _codes)) => {
                let stored = sequence.last_used_code();
                Ok((start, end, stored))
            },
            Err(e) => Err(DomainError::Database(e.message())),
        }
    }
}

} // verus!
