use std::sync::Arc;

use label_printer::clock::stored_time_or_now;
use label_printer::dto::{PrintJobDto, PrintRequestDto};
use label_printer::errors::{ApplicationError, DomainError, InfrastructureError};
use label_printer::print_job::{PrintJob, PrintJobStatus};
use label_printer::sequence_service::SequenceService;
use label_printer::transport::{format_address, TcpPrinterTransport};
use label_printer::use_cases::{effective_limit, GetCurrentSequence, PreviewLabel};
use label_printer::workflow::{sheet_fits_check, PrintAction, PrintEvent, PrintWorkflow, PrinterSheet};

fn sheet() -> PrinterSheet {
    PrinterSheet { label_width_dots: 400, label_height_dots: 400, columns: 2, dpi: 203 }
}

fn request(quantity: u64) -> PrintRequestDto {
    PrintRequestDto { quantity, printer_id: "printer-1".to_string() }
}

fn run(quantity: u64, send: Result<(), InfrastructureError>) -> (Vec<PrintAction>, Result<label_printer::dto::PrintResultDto, ApplicationError>) {
    let (mut flow, mut action) = PrintWorkflow::start(request(quantity));
    let mut actions = Vec::new();
    let mut send = Some(send);
    loop {
        let event = match &action {
            PrintAction::FindPrinter(id) => {
                assert_eq!(id, "printer-1");
                PrintEvent::PrinterLooked(Ok(Some(sheet())))
            }
            PrintAction::ReserveRange(q) => {
                let (start, end, _) = SequenceService::new().reserve_from_stored("Z0000000", *q).unwrap();
                PrintEvent::RangeReserved(Ok((start, end)))
            }
            PrintAction::SaveJob(_) => PrintEvent::JobSaved(Ok(())),
            PrintAction::SaveStatus { .. } => PrintEvent::StatusSaved(Ok(())),
            PrintAction::Send(_) => PrintEvent::Sent(send.take().unwrap()),
            PrintAction::Finish(_) => break,
        };
        actions.push(action);
        let next = flow.step(event);
        flow = next.0;
        action = next.1;
    }
    match action {
        PrintAction::Finish(outcome) => (actions, outcome),
        _ => unreachable!(),
    }
}

#[test]
fn print_run_succeeds_and_marks_the_job_completed() {
    let (actions, outcome) = run(4, Ok(()));
    let result = outcome.unwrap();
    assert_eq!(result.start_code, "Z0000001");
    assert_eq!(result.end_code, "Z0000004");
    assert_eq!(result.quantity, 4);
    assert_eq!(result.status, "completed");
    let statuses: Vec<PrintJobStatus> = actions
        .iter()
        .filter_map(|a| match a {
            PrintAction::SaveStatus { status, completed_at, job_id } => {
                assert_eq!(job_id, &result.job_id);
                assert_eq!(completed_at.is_some(), *status != PrintJobStatus::Printing);
                Some(*status)
            }
            _ => None,
        })
        .collect();
    assert_eq!(statuses, vec![PrintJobStatus::Printing, PrintJobStatus::Completed]);
    let zpl = actions
        .iter()
        .find_map(|a| match a {
            PrintAction::Send(zpl) => Some(zpl.clone()),
            _ => None,
        })
        .unwrap();
    assert!(zpl.starts_with("^XA\n^PW800\n^LL800\n"));
    assert!(zpl.contains("^FDZ0000002\n"));
    assert!(zpl.contains("^FDZ0000005\n"));
    match &actions[2] {
        PrintAction::SaveJob(job) => {
            assert_eq!(job.status, PrintJobStatus::Pending);
            assert_eq!(job.start_code, "Z0000001");
            assert_eq!(job.end_code, "Z0000004");
        }
        _ => panic!("expected the job to be saved third"),
    }
}

#[test]
fn print_run_send_failure_marks_failed() {
    let (actions, outcome) = run(4, Err(InfrastructureError::PrinterConnection("connection reset".to_string())));
    match outcome {
        Err(ApplicationError::PrintJobFailed(m)) => assert_eq!(m, "Printer connection failed: connection reset"),
        _ => panic!("expected a failed print job"),
    }
    match actions.last().unwrap() {
        PrintAction::SaveStatus { status, completed_at, .. } => {
            assert_eq!(*status, PrintJobStatus::Failed);
            assert!(completed_at.is_some());
        }
        _ => panic!("expected the failed status to be stored"),
    }
}

#[test]
fn print_run_missing_printer() {
    let (flow, _) = PrintWorkflow::start(request(4));
    let (_, action) = flow.step(PrintEvent::PrinterLooked(Ok(None)));
    assert!(matches!(action, PrintAction::Finish(Err(ApplicationError::PrinterNotConfigured))));
}

#[test]
fn print_run_store_errors_end_the_request() {
    let (flow, _) = PrintWorkflow::start(request(4));
    let (_, action) = flow.step(PrintEvent::PrinterLooked(Err(DomainError::Database("down".to_string()))));
    match action {
        PrintAction::Finish(Err(e)) => {
            assert_eq!(e.code(), "DOMAIN_ERROR");
            assert_eq!(e.message(), "Database error: down");
        }
        _ => panic!("expected an error"),
    }
    let (flow, _) = PrintWorkflow::start(request(0));
    let (flow, action) = flow.step(PrintEvent::PrinterLooked(Ok(Some(sheet()))));
    assert!(matches!(action, PrintAction::ReserveRange(0)));
    let (_, action) = flow.step(PrintEvent::RangeReserved(Ok(("Z0000001".to_string(), "Z0000001".to_string()))));
    assert!(matches!(action, PrintAction::Finish(Err(ApplicationError::Domain(DomainError::InvalidQuantity { value: 0 })))));
}

#[test]
fn get_current_sequence_reports_last_and_next() {
    let use_case = GetCurrentSequence::new(Arc::new(SequenceService::new()));
    let info = use_case.execute("Z0000005").unwrap();
    assert_eq!(info.last_used_code, "Z0000005");
    assert_eq!(info.next_code, "Z0000006");
    let info = use_case.execute("Z9999999").unwrap();
    assert_eq!(info.next_code, "Z0000001");
    assert!(use_case.execute("garbage").is_err());
}

#[test]
fn preview_renders_the_next_code() {
    let use_case = PreviewLabel::new(Arc::new(SequenceService::new()));
    let preview = use_case.execute("Z0000000", 400, 400, 2, 203).unwrap();
    assert_eq!(preview.code, "Z0000001");
    assert!(preview.zpl.starts_with("^XA"));
    assert!(preview.zpl.trim_end().ends_with("^XZ"));
    assert!(preview.zpl.contains("^BC"));
    assert!(preview.zpl.contains(&preview.timestamp));
    let fixed = PreviewLabel::render("Z0000009".to_string(), 100, 100, 1, 203, "stamp".to_string());
    assert!(fixed.zpl.contains("^FDstamp\n"));
    assert!(fixed.zpl.contains("^LL100\n"));
}

#[test]
fn listing_limits() {
    assert_eq!(effective_limit(None), 50);
    assert_eq!(effective_limit(Some(10)), 10);
    assert_eq!(effective_limit(Some(0)), 1);
    assert_eq!(effective_limit(Some(-5)), 1);
    assert_eq!(effective_limit(Some(10_000)), 500);
}

#[test]
fn job_record_for_the_interface() {
    let job = PrintJob::new("job-1", "printer-1", "Z0000001", "Z0000010", 10);
    let dto = PrintJobDto::from_job(job.clone());
    assert_eq!(dto.id, "job-1");
    assert_eq!(dto.printer_id, "printer-1");
    assert_eq!(dto.start_code, "Z0000001");
    assert_eq!(dto.end_code, "Z0000010");
    assert_eq!(dto.quantity, 10);
    assert_eq!(dto.status, "pending");
    assert_eq!(dto.created_at, job.created_at);
    assert!(dto.completed_at.is_none());
}

#[test]
fn printer_addresses() {
    assert_eq!(format_address("192.168.1.100", 9100), "192.168.1.100:9100");
    let t = TcpPrinterTransport::new("10.0.0.2", 9100);
    assert_eq!(t.address(), "10.0.0.2:9100");
    assert_eq!(t.connect_timeout_ms(), 5000);
    assert_eq!(t.write_timeout_ms(), 30000);
    let t = TcpPrinterTransport::new_with_timeouts("10.255.255.1", 9100, 50, 1000);
    assert_eq!(t.connect_timeout_ms(), 50);
}

#[test]
fn error_codes_and_messages() {
    let e = ApplicationError::Infrastructure(InfrastructureError::PrinterTimeout);
    assert_eq!(e.code(), "PRINTER_TIMEOUT");
    assert_eq!(e.message(), "Printer timeout");
    let e = ApplicationError::PrinterNotConfigured;
    assert_eq!(e.code(), "PRINTER_NOT_CONFIGURED");
    assert_eq!(e.message(), "Printer not configured");
    let e = ApplicationError::Domain(DomainError::QuantityTooLarge { value: 12, max: 10 });
    assert_eq!(e.message(), "Quantity too large: 12 exceeds limit of 10");
    let e = ApplicationError::Domain(DomainError::InvalidPrinterConfig { field: "dpi".to_string(), message: "bad".to_string() });
    assert_eq!(e.message(), "Invalid printer config: dpi - bad");
    let e = ApplicationError::Infrastructure(InfrastructureError::ZplGeneration("x".to_string()));
    assert_eq!(e.code(), "ZPL_GENERATION_FAILED");
    assert_eq!(e.message(), "ZPL generation failed: x");
}

#[test]
fn sheet_fit_checks() {
    let s = PrinterSheet { label_width_dots: 400, label_height_dots: 200, columns: 2, dpi: 203 };
    assert!(sheet_fits_check(&s, 0));
    assert!(sheet_fits_check(&s, 10));
    assert!(!sheet_fits_check(&s, 5_000_000_000));
    let no_columns = PrinterSheet { label_width_dots: 400, label_height_dots: 200, columns: 0, dpi: 203 };
    assert!(sheet_fits_check(&no_columns, 0));
    assert!(!sheet_fits_check(&no_columns, 1));
    let tall = PrinterSheet { label_width_dots: 400, label_height_dots: 4_000_000_000, columns: 1, dpi: 203 };
    assert!(sheet_fits_check(&tall, 1));
    assert!(!sheet_fits_check(&tall, 2));
}

fn is_utc_rfc3339(s: &str) -> bool {
    let b = s.as_bytes();
    let n = b.len();
    if n < 25 || !s.ends_with("+00:00") {
        return false;
    }
    let digits = |r: std::ops::Range<usize>| b[r].iter().all(|c| c.is_ascii_digit());
    let body = &b[..n - 6];
    let frac_len = match body.iter().rposition(|&c| c == b'.') {
        Some(p) if p > 10 => body.len() - p,
        _ => 0,
    };
    let core = body.len() - frac_len;
    if core < 19 || ![0usize, 4, 7, 10].contains(&frac_len) {
        return false;
    }
    let y = core - 15;
    digits(0..y)
        && b[y] == b'-'
        && digits(y + 1..y + 3)
        && b[y + 3] == b'-'
        && digits(y + 4..y + 6)
        && b[y + 6] == b'T'
        && digits(y + 7..y + 9)
        && b[y + 9] == b':'
        && digits(y + 10..y + 12)
        && b[y + 12] == b':'
        && digits(y + 13..y + 15)
        && (frac_len == 0 || digits(core + 1..core + frac_len))
}

#[test]
fn job_times_are_utc_rfc3339() {
    let mut job = PrintJob::new("job-1", "printer-1", "Z0000001", "Z0000010", 10);
    assert!(is_utc_rfc3339(&job.created_at), "{}", job.created_at);
    job.start_printing().unwrap();
    job.complete().unwrap();
    let done = job.completed_at.clone().unwrap();
    assert!(is_utc_rfc3339(&done), "{}", done);
    let mut other = PrintJob::new("job-2", "printer-1", "Z0000001", "Z0000010", 10);
    other.start_printing().unwrap();
    other.fail().unwrap();
    assert!(is_utc_rfc3339(other.completed_at.as_deref().unwrap()));
}

#[test]
fn preview_timestamp_is_a_label_date() {
    let use_case = PreviewLabel::new(Arc::new(SequenceService::new()));
    let preview = use_case.execute("Z0000000", 400, 400, 2, 203).unwrap();
    let t = preview.timestamp.as_bytes();
    assert_eq!(t.len(), 19, "{}", preview.timestamp);
    assert_eq!((t[2], t[5], t[10], t[13], t[16]), (b'/', b'/', b' ', b':', b':'));
    for i in [0, 1, 3, 4, 6, 7, 8, 9, 11, 12, 14, 15, 17, 18] {
        assert!(t[i].is_ascii_digit());
    }
}

#[test]
fn print_run_job_ids_are_random_uuids() {
    let (actions, _) = run(2, Ok(()));
    let id = actions
        .iter()
        .find_map(|a| match a {
            PrintAction::SaveJob(job) => Some(job.id.clone()),
            _ => None,
        })
        .unwrap();
    let b = id.as_bytes();
    assert_eq!(b.len(), 36);
    for (i, c) in b.iter().enumerate() {
        if [8, 13, 18, 23].contains(&i) {
            assert_eq!(*c, b'-');
        } else {
            assert!(c.is_ascii_digit() || (b'a'..=b'f').contains(c));
        }
    }
    assert_eq!(b[14], b'4');
    assert!(b"89ab".contains(&b[19]));
}

#[test]
fn stored_jobs_read_back_in_utc() {
    let job = PrintJob::from_stored(
        "job-9",
        "printer-1",
        "Z0000001",
        "Z0000005",
        5,
        "completed",
        "2024-05-01T10:30:00+02:00",
        Some("2024-05-01T10:31:15.250+02:00".to_string()),
    );
    assert_eq!(job.id, "job-9");
    assert_eq!(job.printer_id, "printer-1");
    assert_eq!(job.start_code, "Z0000001");
    assert_eq!(job.end_code, "Z0000005");
    assert_eq!(job.quantity, 5);
    assert_eq!(job.status, PrintJobStatus::Completed);
    assert_eq!(job.created_at, "2024-05-01T08:30:00+00:00");
    assert_eq!(job.completed_at.as_deref(), Some("2024-05-01T08:31:15.250+00:00"));
}

#[test]
fn stored_jobs_with_unreadable_times() {
    let job = PrintJob::from_stored("job-1", "p", "Z0000001", "Z0000001", 1, "bogus", "yesterday", Some("later".to_string()));
    assert_eq!(job.status, PrintJobStatus::Pending);
    assert!(is_utc_rfc3339(&job.created_at), "{}", job.created_at);
    assert_eq!(job.completed_at, None);
    let pending = PrintJob::from_stored("job-2", "p", "Z0000001", "Z0000001", 1, "pending", "2024-01-02T03:04:05Z", None);
    assert_eq!(pending.created_at, "2024-01-02T03:04:05+00:00");
    assert_eq!(pending.completed_at, None);
}

#[test]
fn stored_times_or_now() {
    assert_eq!(stored_time_or_now("1999-12-31T23:00:00-01:00"), "2000-01-01T00:00:00+00:00");
    assert!(is_utc_rfc3339(&stored_time_or_now("not a time")));
}
