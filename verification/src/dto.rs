//! The plain records that cross the boundary to the user interface.

use vstd::prelude::*;
use crate::print_job::{status_name, PrintJob};

verus! {

/// A request to print `quantity` labels on the printer `printer_id`.
#[derive(Debug, Clone)]
pub struct PrintRequestDto {
    pub quantity: u64,
    pub printer_id: String,
}

/// A print job as the user interface shows it.
#[derive(Debug, Clone)]
pub struct PrintJobDto {
    pub id: String,
    pub printer_id: String,
    pub start_code: String,
    pub end_code: String,
    pub quantity: u64,
    pub status: String,
    pub created_at: String,
    pub completed_at: Option<String>,
}

/// The outcome of a print request.
#[derive(Debug, Clone)]
pub struct PrintResultDto {
    pub job_id: String,
    pub start_code: String,
    pub end_code: String,
    pub quantity: u64,
    pub status: String,
}

/// The last code handed out and the one that comes next.
#[derive(Debug, Clone)]
pub struct SequenceInfoDto {
    pub last_used_code: String,
    pub next_code: String,
}

/// A label rendered for preview.
#[derive(Debug, Clone)]
pub struct PreviewLabelDto {
    pub code: String,
    pub timestamp: String,
    pub zpl: String,
}

impl PrintJobDto {
    /// The record of a job: its fields, with the status by its stored name.
    pub fn from_job(job: PrintJob) -> (dto: Self)
        ensures
            dto.id@ == job.id@,
            dto.printer_id@ == job.printer_id@,
            dto.start_code@ == job.start_code@,
            dto.end_code@ == job.end_code@,
            dto.quantity == job.quantity,
            dto.status@ == status_name(job.status),
            dto.created_at@ == job.created_at@,
            dto.completed_at == job.completed_at,
    {
        let status = job.status.to_string();
        PrintJobDto {
            id: job.id,
            printer_id: job.printer_id,
            start_code: job.start_code,
            end_code: job.end_code,
            quantity: job.quantity,
            status,
            created_at: job.created_at,
            completed_at: job.completed_at,
        }
    }
}

} // verus!
