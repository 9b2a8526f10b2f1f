//! The computing part of the read-side use cases: sequence information,
//! label preview, and the size of a job listing. Fetching what they need from
//! the store is left to the caller.

use std::sync::Arc;
use vstd::prelude::*;
use crate::clock::{label_stamp_text, local_label_timestamp, LABEL_TIMESTAMP_FORMAT};
use crate::dto::{PreviewLabelDto, SequenceInfoDto};
use crate::errors::{ApplicationError, DomainError};
use crate::label_layout::{spec_layout, LabelLayout, LabelPosition};
use crate::sequence::{code_of, increment, parse_code_spec};
use crate::sequence_service::SequenceService;
use crate::zpl::{batch_zpl, ZplGenerator};

verus! {

/// Reports the last code handed out and the one that comes next.
pub struct GetCurrentSequence {
    sequence_service: Arc<SequenceService>,
}

impl GetCurrentSequence {
    pub fn new(sequence_service: Arc<SequenceService>) -> Self {
        Self { sequence_service }
    }

    /// The information for the stored last used code `last_used_code`.
    pub fn execute(&self, last_used_code: &str) -> (r: Result<SequenceInfoDto, ApplicationError>)
        ensures
            parse_code_spec(last_used_code@) matches Some(v) ==> (r matches Ok(info)
                && info.last_used_code@ == code_of(v) && info.next_code@ == code_of(increment(v))),
            parse_code_spec(last_used_code@) is None ==> (r matches Err(ApplicationError::Domain(DomainError::InvalidBarcode { code }))
                && code@ == last_used_code@),
    {
        let sequence = match self.sequence_service.current_sequence(last_used_code) {
            Ok(s) => s,
            Err(e) => return Err(ApplicationError::Domain(e)),
        };
        let next_code = {
            let mut seq = sequence.clone();
            seq.next()
        };
        Ok(SequenceInfoDto { last_used_code: sequence.last_used_code(), next_code })
    }
}

/// Whether a preview sheet of one label can be rendered: a column count
/// above zero and a row width that fits in a `u32`.
pub open spec fn preview_fits(label_width_dots: u32, columns: u32) -> bool {
    columns > 0 && label_width_dots * columns <= u32::MAX
}

/// Renders the label that the next code would get.
pub struct PreviewLabel {
    sequence_service: Arc<SequenceService>,
}

impl PreviewLabel {
    pub fn new(sequence_service: Arc<SequenceService>) -> Self {
        Self { sequence_service }
    }

    /// The preview for the stored last used code `last_used_code`, stamped
    /// with the current local time.
    pub fn execute(
        &self,
        last_used_code: &str,
        label_width_dots: u32,
        label_height_dots: u32,
        columns: u32,
        dpi: u32,
    ) -> (r: Result<PreviewLabelDto, ApplicationError>)
        requires
            preview_fits(label_width_dots, columns),
        ensures
            parse_code_spec(last_used_code@) matches Some(v) ==> (r matches Ok(p)
                && p.code@ == code_of(increment(v))
                && label_stamp_text(p.timestamp@)
                && p.zpl@ == batch_zpl(spec_layout(label_width_dots, label_height_dots, columns, dpi),
                    seq![(p.code, LabelPosition { row: 0, column: 0 })], p.timestamp@)),
            parse_code_spec(last_used_code@) is None ==> (r matches Err(ApplicationError::Domain(DomainError::InvalidBarcode { code }))
                && code@ == last_used_code@),
    {
        let sequence = match self.sequence_service.current_sequence(last_used_code) {
            Ok(s) => s,
            Err(e) => return Err(ApplicationError::Domain(e)),
        };
        let next_code = {
            let mut seq = sequence.clone();
            seq.next()
        };
        let timestamp = local_label_timestamp(LABEL_TIMESTAMP_FORMAT);
        Ok(Self::render(next_code, label_width_dots, label_height_dots, columns, dpi, timestamp))
    }

    /// The preview of the single label `code`, at the first position of the
    /// sheet, titled `timestamp`.
    pub fn render(
        code: String,
        label_width_dots: u32,
        label_height_dots: u32,
        columns: u32,
        dpi: u32,
        timestamp: String,
    ) -> (p: PreviewLabelDto)
        requires
            preview_fits(label_width_dots, columns),
        ensures
            p.code@ == code@,
            p.timestamp@ == timestamp@,
            p.zpl@ == batch_zpl(spec_layout(label_width_dots, label_height_dots, columns, dpi),
                seq![(p.code, LabelPosition { row: 0, column: 0 })], timestamp@),
    {
        let layout = LabelLayout::new(label_width_dots, label_height_dots, columns, dpi);
        let generator = ZplGenerator::new(layout);
        let mut labels: Vec<(String, LabelPosition)> = Vec::new();
        labels.push((code.clone(), LabelPosition { row: 0, column: 0 }));
        assert(labels@ =~= seq![(code, LabelPosition { row: 0, column: 0 })]);
        proof {
            assert((0 as nat) / (columns as nat) == 0) by (nonlinear_arith) requires columns > 0;
            assert(label_height_dots * 1 == label_height_dots);
        }
        let zpl = generator.generate_batch(labels.as_slice(), timestamp.as_str());
        PreviewLabelDto { code, timestamp, zpl }
    }
}

/// How many jobs a listing returns when no limit is given.
pub const DEFAULT_LIMIT: i64 = 50;

/// The most jobs a listing returns.
pub const MAX_LIMIT: i64 = 500;

/// The number of jobs to list: the given limit, or 50 when none is given,
/// brought into the range 1 to 500.
pub fn effective_limit(limit: Option<i64>) -> (n: i64)
    ensures
        n == clamp_limit(match limit {
            Some(l) => l,
            None => DEFAULT_LIMIT,
        }),
        1 <= n <= MAX_LIMIT,
{
    let l = match limit {
        Some(l) => l,
        None => DEFAULT_LIMIT,
    };
    if l < 1 {
        1
    } else if l > MAX_LIMIT {
        MAX_LIMIT
    } else {
        l
    }
}

/// `l` brought into the range 1 to 500.
pub open spec fn clamp_limit(l: i64) -> i64 {
    if l < 1 {
        1
    } else if l > MAX_LIMIT {
        MAX_LIMIT
    } else {
        l
    }
}


/// How many jobs a listing returns: 50 when no limit is given, the limit
/// itself from 1 to 500, 1 below that and 500 above it; so a larger limit
/// never lists fewer jobs.
pub proof fn lemma_listing_limit(limit: Option<i64>, other: i64)
    ensures
        ({
            let n = clamp_limit(match limit {
                Some(l) => l,
                None => DEFAULT_LIMIT,
            });
            match limit {
                None => n == 50,
                Some(l) => {
                    &&& 1 <= l <= 500 ==> n == l
                    &&& l < 1 ==> n == 1
                    &&& l > 500 ==> n == 500
                    &&& l <= other ==> n <= clamp_limit(other)
                },
            }
        }),
{
}

} // verus!
