//! Printing a batch of labels, as the decisions between the steps that talk
//! to the store and to the printer. The caller performs each action and
//! hands back what came of it.

use vstd::prelude::*;
use crate::clock::{label_stamp_text, local_label_timestamp, new_job_id, utc_now_rfc3339, utc_rfc3339_text, uuid_v4_text, LABEL_TIMESTAMP_FORMAT};
use crate::dto::{PrintRequestDto, PrintResultDto};
use crate::errors::{infrastructure_message, ApplicationError, DomainError, InfrastructureError};
use crate::label_layout::{position_fits, spec_layout, LabelLayout, LabelPosition};
use crate::label_service::{position_of, LabelService};
use crate::print_job::{job_stamped, PrintJob, PrintJobStatus};
use crate::sequence::{advance, code_of, parse_code_spec};
use crate::sequence_service::SequenceService;
use crate::zpl::{batch_fits, batch_zpl, rows_for, ZplGenerator};

verus! {

/// The label geometry of a printer, in dots, as its stored record gives it.
#[derive(Debug, Clone, Copy)]
pub struct PrinterSheet {
    pub label_width_dots: u32,
    pub label_height_dots: u32,
    pub columns: u32,
    pub dpi: u32,
}

/// The layout for a printer's sheet.
pub open spec fn sheet_layout(sheet: PrinterSheet) -> LabelLayout {
    spec_layout(sheet.label_width_dots, sheet.label_height_dots, sheet.columns, sheet.dpi)
}

/// Codes placed on the sheet in order, `columns` to a row.
pub open spec fn positioned(codes: Seq<String>, columns: u32) -> Seq<(String, LabelPosition)> {
    Seq::new(codes.len(), |i: int| (codes[i], position_of(i, columns)))
}

/// Whether `quantity` labels can be placed and rendered on the sheet
/// without dividing by zero or overflowing a `u32`.
pub open spec fn sheet_fits(sheet: PrinterSheet, quantity: nat) -> bool {
    &&& quantity <= u32::MAX
    &&& quantity > 0 ==> sheet.columns > 0
    &&& sheet.label_width_dots * sheet.columns <= u32::MAX
    &&& quantity > 0 ==> sheet.label_height_dots * rows_for(quantity, sheet.columns) <= u32::MAX
    &&& forall|i: int| 0 <= i < quantity ==> position_fits(sheet_layout(sheet), #[trigger] position_of(i, sheet.columns))
}


/// Whether `quantity` labels fit on the sheet: the check the caller makes
/// before reporting a stored job, since rendering a sheet that does not fit
/// would divide by zero or overflow.
pub fn sheet_fits_check(sheet: &PrinterSheet, quantity: u64) -> (r: bool)
    ensures
        r == sheet_fits(*sheet, quantity as nat),
{
    let max: u64 = 0xffff_ffff;
    let width = sheet.label_width_dots as u64;
    let height = sheet.label_height_dots as u64;
    let columns = sheet.columns as u64;
    if quantity > max {
        return false;
    }
    proof {
        assert(width * columns <= max * max) by (nonlinear_arith)
            requires width <= max, columns <= max;
    }
    if quantity == 0 {
        proof {
            assert forall|i: int| 0 <= i < quantity implies position_fits(sheet_layout(*sheet), #[trigger] position_of(i, sheet.columns)) by {}
        }
        return width * columns <= max;
    }
    if columns == 0 {
        return false;
    }
    let rows = (quantity - 1) / columns + 1;
    let last_row = rows - 1;
    let last_column = if quantity < columns { quantity - 1 } else { columns - 1 };
    proof {
        assert(height * rows <= max * max) by (nonlinear_arith)
            requires height <= max, rows <= max, rows >= 1;
        assert(last_column * width <= max * max) by (nonlinear_arith)
            requires width <= max, last_column <= max;
        assert(last_row * height <= max * max) by (nonlinear_arith)
            requires height <= max, last_row <= max;
    }
    let ok = width * columns <= max
        && height * rows <= max
        && 50 + last_column * width <= max
        && 50 + last_row * height + 160 <= max;
    proof {
        let l = sheet_layout(*sheet);
        let c = sheet.columns;
        assert(rows == rows_for(quantity as nat, c));
        if ok {
            assert forall|i: int| 0 <= i < quantity implies position_fits(l, #[trigger] position_of(i, c)) by {
                let k = i as u32;
                assert(k == i);
                let row = (k / c) as nat;
                let col = (k % c) as nat;
                assert(row <= last_row) by (nonlinear_arith)
                    requires row == k / c, k <= quantity - 1, last_row == (quantity - 1) / (c as int), c > 0;
                assert(col <= last_column) by (nonlinear_arith)
                    requires col == k % c, k <= quantity - 1, c > 0,
                        last_column == (if quantity < c { quantity - 1 } else { c - 1 });
                assert(col * width <= last_column * width) by (nonlinear_arith)
                    requires col <= last_column;
                assert(row * height <= last_row * height) by (nonlinear_arith)
                    requires row <= last_row;
            }
        } else if !(width * columns <= max) || !(height * rows <= max) {
        } else if !(50 + last_column * width <= max) {
            let i = last_column as int;
            assert(position_of(i, c).column == last_column) by {
                let k = i as u32;
                assert(k == i);
                assert(k % c == k) by (nonlinear_arith) requires k < c;
            }
            assert(!position_fits(l, position_of(i, c)));
        } else {
            let i = (quantity - 1) as int;
            assert(position_of(i, c).row == last_row) by {
                let k = i as u32;
                assert(k == i);
            }
            assert(!position_fits(l, position_of(i, c)));
        }
    }
    ok
}

/// What came of the last action.
pub enum PrintEvent {
    /// The printer record was looked up.
    PrinterLooked(Result<Option<PrinterSheet>, DomainError>),
    /// The store reserved a range: its first and last codes.
    RangeReserved(Result<(String, String), DomainError>),
    /// The new job was stored.
    JobSaved(Result<(), DomainError>),
    /// The job's status was stored.
    StatusSaved(Result<(), DomainError>),
    /// The ZPL was sent to the printer.
    Sent(Result<(), InfrastructureError>),
}

/// What the caller is to do next.
pub enum PrintAction {
    /// Look up the printer with this identifier.
    FindPrinter(String),
    /// Reserve this many codes in the store.
    ReserveRange(u64),
    /// Store this new job.
    SaveJob(PrintJob),
    /// Store the job's new status and completion time.
    SaveStatus { job_id: String, status: PrintJobStatus, completed_at: Option<String> },
    /// Send this ZPL to the printer.
    Send(String),
    /// Stop: this is the outcome of the request.
    Finish(Result<PrintResultDto, ApplicationError>),
}

/// Where a print request stands.
pub enum PrintStage {
    AwaitPrinter,
    AwaitRange { sheet: PrinterSheet },
    AwaitJobSaved { sheet: PrinterSheet, codes: Vec<String>, job: PrintJob },
    AwaitPrintingSaved { job: PrintJob, zpl: String, timestamp: String },
    AwaitSend { job: PrintJob },
    AwaitFinalSaved { job: PrintJob, send_error: Option<InfrastructureError> },
    Done,
}

/// A print request in progress.
pub struct PrintWorkflow {
    pub request: PrintRequestDto,
    pub stage: PrintStage,
}

impl PrintWorkflow {
    /// Whether the stage and its job agree: the job is pending until it is
    /// stored, printing until it is sent, then completed or failed as the
    /// sending went; its identifier is a random UUID, its times are UTC
    /// RFC 3339 texts, and the sheet's title is a label timestamp.
    pub open spec fn consistent(&self) -> bool {
        match self.stage {
            PrintStage::AwaitJobSaved { job, codes, .. } => job.status == PrintJobStatus::Pending && job.quantity == self.request.quantity
                && codes@.len() == self.request.quantity && uuid_v4_text(job.id@) && job_stamped(job),
            PrintStage::AwaitPrintingSaved { job, timestamp, .. } => job.status == PrintJobStatus::Printing && job.quantity == self.request.quantity
                && uuid_v4_text(job.id@) && job_stamped(job) && label_stamp_text(timestamp@),
            PrintStage::AwaitSend { job } => job.status == PrintJobStatus::Printing && job.quantity == self.request.quantity
                && uuid_v4_text(job.id@) && job_stamped(job),
            PrintStage::AwaitFinalSaved { job, send_error } => job.quantity == self.request.quantity
                && uuid_v4_text(job.id@) && job_stamped(job) && (match send_error {
                None => job.status == PrintJobStatus::Completed,
                Some(_) => job.status == PrintJobStatus::Failed,
            }),
            _ => true,
        }
    }

    /// Whether `event` answers the action this stage asked for; a printer
    /// found must leave room on its sheet for the requested labels, as the
    /// placing and rendering panic otherwise.
    pub open spec fn accepts(&self, event: PrintEvent) -> bool {
        match self.stage {
            PrintStage::AwaitPrinter => event is PrinterLooked,
            PrintStage::AwaitRange { .. } => event is RangeReserved,
            PrintStage::AwaitJobSaved { sheet, .. } => event is JobSaved && (event->JobSaved_0 is Ok ==> sheet_fits(sheet, self.request.quantity as nat)),
            PrintStage::AwaitPrintingSaved { .. } => event is StatusSaved,
            PrintStage::AwaitSend { .. } => event is Sent,
            PrintStage::AwaitFinalSaved { .. } => event is StatusSaved,
            PrintStage::Done => false,
        }
    }

    /// Begins a request: the first action is to look up its printer.
    pub fn start(request: PrintRequestDto) -> (r: (PrintWorkflow, PrintAction))
        ensures
            r.0.request == request,
            r.0.stage is AwaitPrinter,
            r.0.consistent(),
            r.1 matches PrintAction::FindPrinter(id) && id@ == request.printer_id@,
    {
        let id = request.printer_id.clone();
        (PrintWorkflow { request, stage: PrintStage::AwaitPrinter }, PrintAction::FindPrinter(id))
    }

    /// Takes what came of the last action and decides the next one.
    pub fn step(self, event: PrintEvent) -> (r: (PrintWorkflow, PrintAction))
        requires
            self.consistent(),
            self.accepts(event),
        ensures
            r.0.request == self.request,
            r.0.consistent(),
            // a failed store or lookup ends the request with its error
            (event matches PrintEvent::PrinterLooked(Err(e)) ==> r.1 == PrintAction::Finish(Err(ApplicationError::Domain(e)))),
            (event matches PrintEvent::RangeReserved(Err(e)) ==> r.1 == PrintAction::Finish(Err(ApplicationError::Domain(e)))),
            (event matches PrintEvent::JobSaved(Err(e)) ==> r.1 == PrintAction::Finish(Err(ApplicationError::Domain(e)))),
            (event matches PrintEvent::StatusSaved(Err(e)) ==> r.1 == PrintAction::Finish(Err(ApplicationError::Domain(e)))),
            // no printer: the request is refused
            (event matches PrintEvent::PrinterLooked(Ok(None)) ==> r.1 == PrintAction::Finish(Err(ApplicationError::PrinterNotConfigured))),
            // a printer: reserve the requested number of codes
            (event matches PrintEvent::PrinterLooked(Ok(Some(sheet))) ==> r.1 == PrintAction::ReserveRange(self.request.quantity)
                && r.0.stage == PrintStage::AwaitRange { sheet }),
            // a range: the codes after its first code, and a new pending job for it
            (event matches PrintEvent::RangeReserved(Ok((start, end))) ==> (match parse_code_spec(start@) {
                None => r.1 matches PrintAction::Finish(Err(ApplicationError::Domain(DomainError::InvalidBarcode { code }))) && code@ == start@,
                Some(v) => if self.request.quantity == 0 {
                    r.1 matches PrintAction::Finish(Err(ApplicationError::Domain(DomainError::InvalidQuantity { value }))) && value == 0
                } else {
                    r.1 matches PrintAction::SaveJob(job) && (r.0.stage matches PrintStage::AwaitJobSaved { sheet, codes, job: kept }
                        && kept == job
                        && job.printer_id@ == self.request.printer_id@ && job.start_code@ == start@ && job.end_code@ == end@
                        && job.quantity == self.request.quantity && job.status == PrintJobStatus::Pending && job.completed_at is None
                        && uuid_v4_text(job.id@) && utc_rfc3339_text(job.created_at@)
                        && self.stage == PrintStage::AwaitRange { sheet }
                        && codes@.len() == self.request.quantity
                        && forall|i: int| 0 <= i < codes@.len() ==> #[trigger] codes@[i]@ == code_of(advance(v, (i + 1) as nat)))
                },
            })),
            // the job stored: render the sheet and mark the job printing
            (event matches PrintEvent::JobSaved(Ok(_)) ==> (self.stage matches PrintStage::AwaitJobSaved { sheet, codes, job }
                && r.1 == PrintAction::SaveStatus { job_id: job.id, status: PrintJobStatus::Printing, completed_at: None }
                && (r.0.stage matches PrintStage::AwaitPrintingSaved { job: printing, zpl, timestamp }
                && printing == PrintJob { status: PrintJobStatus::Printing, ..job }
                && label_stamp_text(timestamp@)
                && zpl@ == batch_zpl(sheet_layout(sheet), positioned(codes@, sheet.columns), timestamp@)))),
            // printing stored: send the sheet
            (event matches PrintEvent::StatusSaved(Ok(_)) && self.stage is AwaitPrintingSaved ==> (self.stage matches PrintStage::AwaitPrintingSaved { job, zpl, .. }
                && r.1 == PrintAction::Send(zpl) && r.0.stage == PrintStage::AwaitSend { job })),
            // sent or not: store the final status with the time
            (event matches PrintEvent::Sent(sent) ==> (self.stage matches PrintStage::AwaitSend { job }
                && (r.1 matches PrintAction::SaveStatus { job_id, status, completed_at }
                && job_id == job.id && (completed_at matches Some(t) && utc_rfc3339_text(t@))
                && status == (if sent is Ok { PrintJobStatus::Completed } else { PrintJobStatus::Failed })
                && (r.0.stage matches PrintStage::AwaitFinalSaved { job: done, send_error }
                && done.status == status && (done.completed_at matches Some(t) && utc_rfc3339_text(t@))
                && done.id == job.id && done.start_code == job.start_code && done.end_code == job.end_code
                && send_error == (match sent { Ok(_) => None, Err(e) => Some(e) }))))),
            // the final status stored: report success, or the failed sending
            (event matches PrintEvent::StatusSaved(Ok(_)) && self.stage is AwaitFinalSaved ==> (self.stage matches PrintStage::AwaitFinalSaved { job, send_error }
                && match send_error {
                    None => r.1 matches PrintAction::Finish(Ok(res)) && res.job_id == job.id && uuid_v4_text(res.job_id@)
                        && res.start_code == job.start_code
                        && res.end_code == job.end_code && res.quantity == self.request.quantity && res.status@ == "completed"@
                        && job.status == PrintJobStatus::Completed,
                    Some(e) => r.1 matches PrintAction::Finish(Err(ApplicationError::PrintJobFailed(m))) && m@ == infrastructure_message(e),
                })),
            // success is reported only once the printer took the sheet and the
            // completed status was stored
            (r.1 matches PrintAction::Finish(Ok(_)) ==> (event matches PrintEvent::StatusSaved(Ok(_))
                && (self.stage matches PrintStage::AwaitFinalSaved { job, send_error }
                && send_error is None && job.status == PrintJobStatus::Completed))),
            // the request is over once an outcome is given
            (r.1 is Finish <==> r.0.stage is Done),
    {
        let request = self.request;
        match self.stage {
            PrintStage::AwaitPrinter => {
                match event {
                    PrintEvent::PrinterLooked(Err(e)) => Self::finish(request, Err(ApplicationError::Domain(e))),
                    PrintEvent::PrinterLooked(Ok(None)) => Self::finish(request, Err(ApplicationError::PrinterNotConfigured)),
                    PrintEvent::PrinterLooked(Ok(Some(sheet))) => {
                        let q = request.quantity;
                        (PrintWorkflow { request, stage: PrintStage::AwaitRange { sheet } }, PrintAction::ReserveRange(q))
                    },
                    _ => Self::finish(request, Err(ApplicationError::PrinterNotConfigured)),
                }
            },
            PrintStage::AwaitRange { sheet } => {
                match event {
                    PrintEvent::RangeReserved(Err(e)) => Self::finish(request, Err(ApplicationError::Domain(e))),
                    PrintEvent::RangeReserved(Ok((start, end))) => {
                        let service = SequenceService::new();
                        match service.codes_for_range(start.as_str(), request.quantity) {
                            Err(e) => Self::finish(request, Err(ApplicationError::Domain(e))),
                            Ok(codes) => {
                                let job_id = new_job_id();
                                let job = PrintJob::new(
                                    job_id.as_str(),
                                    request.printer_id.as_str(),
                                    start.as_str(),
                                    end.as_str(),
                                    request.quantity,
                                );
                                let saved = job.clone();
                                (PrintWorkflow { request, stage: PrintStage::AwaitJobSaved { sheet, codes, job } }, PrintAction::SaveJob(saved))
                            },
                        }
                    },
                    _ => Self::finish(request, Err(ApplicationError::PrinterNotConfigured)),
                }
            },
            PrintStage::AwaitJobSaved { sheet, codes, job } => {
                match event {
                    PrintEvent::JobSaved(Err(e)) => Self::finish(request, Err(ApplicationError::Domain(e))),
                    PrintEvent::JobSaved(Ok(())) => {
                        let timestamp = local_label_timestamp(LABEL_TIMESTAMP_FORMAT);
                        let zpl = Self::render_sheet(sheet, &codes, request.quantity, timestamp.as_str());
                        let mut job = job;
                        match job.start_printing() {
                            Err(e) => Self::finish(request, Err(ApplicationError::Domain(e))),
                            Ok(()) => {
                                let job_id = job.id.clone();
                                (
                                    PrintWorkflow { request, stage: PrintStage::AwaitPrintingSaved { job, zpl, timestamp } },
                                    PrintAction::SaveStatus { job_id, status: PrintJobStatus::Printing, completed_at: None },
                                )
                            },
                        }
                    },
                    _ => Self::finish(request, Err(ApplicationError::PrinterNotConfigured)),
                }
            },
            PrintStage::AwaitPrintingSaved { job, zpl, timestamp } => {
                match event {
                    PrintEvent::StatusSaved(Err(e)) => Self::finish(request, Err(ApplicationError::Domain(e))),
                    PrintEvent::StatusSaved(Ok(())) => {
                        (PrintWorkflow { request, stage: PrintStage::AwaitSend { job } }, PrintAction::Send(zpl))
                    },
                    _ => Self::finish(request, Err(ApplicationError::PrinterNotConfigured)),
                }
            },
            PrintStage::AwaitSend { job } => {
                match event {
                    PrintEvent::Sent(Ok(())) => {
                        let mut job = job;
                        match job.complete() {
                            Err(e) => Self::finish(request, Err(ApplicationError::Domain(e))),
                            Ok(()) => {
                                let job_id = job.id.clone();
                                let completed_at = Some(utc_now_rfc3339());
                                (
                                    PrintWorkflow { request, stage: PrintStage::AwaitFinalSaved { job, send_error: None } },
                                    PrintAction::SaveStatus { job_id, status: PrintJobStatus::Completed, completed_at },
                                )
                            },
                        }
                    },
                    PrintEvent::Sent(Err(e)) => {
                        let mut job = job;
                        match job.fail() {
                            Err(d) => Self::finish(request, Err(ApplicationError::Domain(d))),
                            Ok(()) => {
                                let job_id = job.id.clone();
                                let completed_at = Some(utc_now_rfc3339());
                                (
                                    PrintWorkflow { request, stage: PrintStage::AwaitFinalSaved { job, send_error: Some(e) } },
                                    PrintAction::SaveStatus { job_id, status: PrintJobStatus::Failed, completed_at },
                                )
                            },
                        }
                    },
                    _ => Self::finish(request, Err(ApplicationError::PrinterNotConfigured)),
                }
            },
            PrintStage::AwaitFinalSaved { job, send_error } => {
                match event {
                    PrintEvent::StatusSaved(Err(e)) => Self::finish(request, Err(ApplicationError::Domain(e))),
                    PrintEvent::StatusSaved(Ok(())) => {
                        match send_error {
                            Some(e) => Self::finish(request, Err(ApplicationError::PrintJobFailed(e.message()))),
                            None => {
                                let status = job.status.to_string();
                                let q = request.quantity;
                                Self::finish(request, Ok(PrintResultDto {
                                    job_id: job.id,
                                    start_code: job.start_code,
                                    end_code: job.end_code,
                                    quantity: q,
                                    status,
                                }))
                            },
                        }
                    },
                    _ => Self::finish(request, Err(ApplicationError::PrinterNotConfigured)),
                }
            },
            PrintStage::Done => Self::finish(request, Err(ApplicationError::PrinterNotConfigured)),
        }
    }

    fn finish(request: PrintRequestDto, outcome: Result<PrintResultDto, ApplicationError>) -> (r: (PrintWorkflow, PrintAction))
        ensures
            r.0.request == request,
            r.0.stage is Done,
            r.1 == PrintAction::Finish(outcome),
    {
        (PrintWorkflow { request, stage: PrintStage::Done }, PrintAction::Finish(outcome))
    }

    /// The ZPL of the whole sheet: the codes placed in order, titled with the
    /// timestamp.
    fn render_sheet(sheet: PrinterSheet, codes: &Vec<String>, quantity: u64, timestamp: &str) -> (zpl: String)
        requires
            codes@.len() == quantity,
            sheet_fits(sheet, quantity as nat),
        ensures
            zpl@ == batch_zpl(sheet_layout(sheet), positioned(codes@, sheet.columns), timestamp@),
    {
        let layout = LabelLayout::new(sheet.label_width_dots, sheet.label_height_dots, sheet.columns, sheet.dpi);
        let generator = ZplGenerator::new(layout);
        let labels = LabelService::new().calculate_positions(codes.as_slice(), sheet.columns);
        assert(labels@ =~= positioned(codes@, sheet.columns));
        assert(batch_fits(sheet_layout(sheet), labels@)) by {
            assert forall|i: int| 0 <= i < labels@.len() implies position_fits(sheet_layout(sheet), #[trigger] labels@[i].1) by {
                assert(labels@[i].1 == position_of(i, sheet.columns));
            }
        }
        generator.generate_batch(labels.as_slice(), timestamp)
    }
}

} // verus!
