//! Producing the codes of a batch and placing them on the sheet.

use vstd::prelude::*;
use crate::errors::DomainError;
use crate::label_layout::LabelPosition;
use crate::sequence::{advance, code_of, parse_code_spec, Sequence};

verus! {

/// Where the `i`-th label goes with `columns` labels per row: row `i / columns`,
/// column `i % columns`, counting `i` as a `u32`.
pub open spec fn position_of(i: int, columns: u32) -> LabelPosition {
    LabelPosition { row: ((i as u32) / columns) as u32, column: ((i as u32) % columns) as u32 }
}

/// Stateless helpers for the labels of a batch.
#[derive(Debug, Clone, Copy)]
pub struct LabelService;

impl LabelService {
    pub fn new() -> Self {
        LabelService
    }

    /// The `quantity` codes that follow the code `start`; refused if `start`
    /// is not a code or `quantity` is 0.
    pub fn generate_codes(&self, start: &str, quantity: u64) -> (r: Result<Vec<String>, DomainError>)
        ensures
            parse_code_spec(start@) is None ==> (r matches Err(DomainError::InvalidBarcode { code }) && code@ == start@),
            parse_code_spec(start@) is Some && quantity == 0 ==> (r matches Err(DomainError::InvalidQuantity { value }) && value == 0),
            quantity > 0 ==> (parse_code_spec(start@) matches Some(v) ==> (r matches Ok(codes) && codes@.len() == quantity
                && forall|i: int| 0 <= i < quantity ==> #[trigger] codes@[i]@ == code_of(advance(v, (i + 1) as nat)))),
    {
        let mut sequence = Sequence::from_code(start)?;
        sequence.next_n(quantity)
    }

    /// Each code with its place on the sheet, in order: the `i`-th code goes
    /// to row `i / columns`, column `i % columns`.
    pub fn calculate_positions(&self, codes: &[String], columns: u32) -> (r: Vec<(String, LabelPosition)>)
        requires
            codes@.len() > 0 ==> columns > 0,
        ensures
            r@.len() == codes@.len(),
            forall|i: int| 0 <= i < codes@.len() ==> (#[trigger] r@[i]).0 == codes@[i] && r@[i].1 == position_of(i, columns),
    {
        let mut out: Vec<(String, LabelPosition)> = Vec::new();
        let n = codes.len();
        let mut i: usize = 0;
        while i < n
            invariant
                n == codes@.len(),
                n > 0 ==> columns > 0,
                i <= n,
                out@.len() == i,
                forall|j: int| 0 <= j < i ==> (#[trigger] out@[j]).0 == codes@[j] && out@[j].1 == position_of(j, columns),
            decreases n - i,
        {
            #[verifier::truncate]
            let k = i as u32;
            let row = k / columns;
            let col = k % columns;
            out.push((codes[i].clone(), LabelPosition { row, column: col }));
            i = i + 1;
        }
        out
    }
}

impl Default for LabelService {
    fn default() -> (s: Self)
        ensures
            s == LabelService,
    {
        Self::new()
    }
}

/// Labels placed by `calculate_positions` sit left to right, row by row:
/// the column is below the column count, and row and column give back the
/// index.
pub proof fn lemma_positions_fill_rows(i: int, columns: u32)
    requires
        0 <= i <= u32::MAX,
        columns > 0,
    ensures
        position_of(i, columns).column < columns,
        position_of(i, columns).row * columns + position_of(i, columns).column == i,
{
    let k = i as u32;
    assert(k == i);
    assert((k / columns) * columns + k % columns == k) by (nonlinear_arith)
        requires columns > 0;
}

/// Two labels of one batch never share a place on the sheet.
pub proof fn lemma_positions_distinct(i: int, j: int, columns: u32)
    requires
        0 <= i < j <= u32::MAX,
        columns > 0,
    ensures
        position_of(i, columns) != position_of(j, columns),
{
    lemma_positions_fill_rows(i, columns);
    lemma_positions_fill_rows(j, columns);
}

} // verus!
