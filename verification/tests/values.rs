use label_printer::barcode::Barcode;
use label_printer::print_job::{PrintJob, PrintJobStatus};
use label_printer::printer_config::{check_printer_settings, is_valid_ip, ConnectionType};
use label_printer::sequence::Sequence;
use label_printer::errors::DomainError;

#[test]
fn test_valid_barcode() {
    let barcode = Barcode::new("Z0000001").unwrap();
    assert_eq!(barcode.value(), "Z0000001");
}

#[test]
fn test_invalid_prefix() {
    assert!(Barcode::new("A0000001").is_err());
}

#[test]
fn test_invalid_chars() {
    assert!(Barcode::new("Z000000A").is_err());
}

#[test]
fn test_too_short() {
    assert!(Barcode::new("Z1").is_err());
    assert!(Barcode::new("Z12").is_err());
    assert!(Barcode::new("Z123").is_err());
}

#[test]
fn test_too_long() {
    assert!(Barcode::new("Z00000000000000000000").is_err());
}

#[test]
fn barcode_lengths_at_the_edges() {
    assert!(Barcode::new("Z0000000000000000000").is_ok());
    assert!(Barcode::new("Z1234567").is_ok());
    assert!(Barcode::new("Z123456").is_err());
    assert_eq!(Barcode::new("Z7654321").unwrap().to_string(), "Z7654321");
}

#[test]
fn sequence_codes_are_barcodes() {
    for v in [0u64, 1, 42, 9999999] {
        assert!(Barcode::new(&Sequence::to_code(v)).is_ok());
    }
}

#[test]
fn test_connection_type_str() {
    assert_eq!(ConnectionType::Tcp.as_str(), "tcp");
    assert_eq!(ConnectionType::Usb.as_str(), "usb");
    assert_eq!(ConnectionType::Serial.as_str(), "serial");
}

#[test]
fn test_connection_type_from_str() {
    assert_eq!(
        ConnectionType::from_str("tcp").unwrap(),
        ConnectionType::Tcp
    );
    assert_eq!(
        ConnectionType::from_str("USB").unwrap(),
        ConnectionType::Usb
    );
    assert!(ConnectionType::from_str("invalid").is_err());
}

#[test]
fn connection_type_round_trip_and_error() {
    for t in [ConnectionType::Tcp, ConnectionType::Usb, ConnectionType::Serial] {
        assert_eq!(ConnectionType::from_str(t.as_str()).unwrap(), t);
    }
    assert_eq!(ConnectionType::from_str("SeRiAl").unwrap(), ConnectionType::Serial);
    match ConnectionType::from_str("wifi") {
        Err(DomainError::InvalidPrinterConfig { field, message }) => {
            assert_eq!(field, "connection_type");
            assert_eq!(message, "Unknown connection type: wifi");
        }
        _ => panic!("expected a config error"),
    }
}

#[test]
fn test_status_as_str() {
    assert_eq!(PrintJobStatus::Pending.as_str(), "pending");
    assert_eq!(PrintJobStatus::Printing.as_str(), "printing");
    assert_eq!(PrintJobStatus::Completed.as_str(), "completed");
    assert_eq!(PrintJobStatus::Failed.as_str(), "failed");
}

#[test]
fn test_status_from_str() {
    assert_eq!(
        PrintJobStatus::from_str("pending").unwrap(),
        PrintJobStatus::Pending
    );
    assert_eq!(
        PrintJobStatus::from_str("printing").unwrap(),
        PrintJobStatus::Printing
    );
    assert_eq!(
        PrintJobStatus::from_str("completed").unwrap(),
        PrintJobStatus::Completed
    );
    assert_eq!(
        PrintJobStatus::from_str("failed").unwrap(),
        PrintJobStatus::Failed
    );
    assert!(PrintJobStatus::from_str("invalid").is_err());
}

#[test]
fn status_names_round_trip_and_are_case_sensitive() {
    for s in [PrintJobStatus::Pending, PrintJobStatus::Printing, PrintJobStatus::Completed, PrintJobStatus::Failed] {
        assert_eq!(PrintJobStatus::from_str(s.as_str()).unwrap(), s);
        assert_eq!(s.to_string(), s.as_str());
    }
    match PrintJobStatus::from_str("Pending") {
        Err(e) => assert_eq!(e.message(), "Invalid print job status: Pending"),
        Ok(_) => panic!("expected an error"),
    }
}

fn valid_print_job() -> PrintJob {
    PrintJob::new("job-1", "printer-1", "Z0000001", "Z0000010", 10)
}

#[test]
fn test_new_print_job() {
    let job = valid_print_job();
    assert_eq!(job.id, "job-1");
    assert_eq!(job.printer_id, "printer-1");
    assert_eq!(job.start_code, "Z0000001");
    assert_eq!(job.end_code, "Z0000010");
    assert_eq!(job.quantity, 10);
    assert_eq!(job.status, PrintJobStatus::Pending);
    assert!(job.completed_at.is_none());
}

#[test]
fn test_start_printing() {
    let mut job = valid_print_job();
    job.start_printing().unwrap();
    assert_eq!(job.status, PrintJobStatus::Printing);
}

#[test]
fn test_start_printing_from_invalid_state() {
    let mut job = valid_print_job();
    job.start_printing().unwrap();
    job.complete().unwrap();

    let result = job.start_printing();
    assert!(result.is_err());
}

#[test]
fn test_complete() {
    let mut job = valid_print_job();
    job.start_printing().unwrap();
    job.complete().unwrap();
    assert_eq!(job.status, PrintJobStatus::Completed);
    assert!(job.completed_at.is_some());
}

#[test]
fn test_complete_from_invalid_state() {
    let mut job = valid_print_job();

    let result = job.complete();
    assert!(result.is_err());
}

#[test]
fn test_fail() {
    let mut job = valid_print_job();
    job.start_printing().unwrap();
    job.fail().unwrap();
    assert_eq!(job.status, PrintJobStatus::Failed);
    assert!(job.completed_at.is_some());
}

#[test]
fn test_fail_from_invalid_state() {
    let mut job = valid_print_job();

    let result = job.fail();
    assert!(result.is_err());
}

#[test]
fn test_is_terminal() {
    let mut job = valid_print_job();
    assert!(!job.is_terminal());

    job.start_printing().unwrap();
    assert!(!job.is_terminal());

    job.complete().unwrap();
    assert!(job.is_terminal());
}

#[test]
fn terminal_jobs_refuse_every_transition() {
    let mut job = valid_print_job();
    job.start_printing().unwrap();
    job.fail().unwrap();
    let before = job.clone();
    for result in [job.start_printing(), job.complete(), job.fail()] {
        match result {
            Err(DomainError::InvalidStateTransition { from, .. }) => assert_eq!(from, "failed"),
            _ => panic!("expected a refused transition"),
        }
    }
    assert_eq!(job.status, before.status);
    assert_eq!(job.completed_at, before.completed_at);
}

#[test]
fn transition_error_message() {
    let mut job = valid_print_job();
    match job.complete() {
        Err(e) => assert_eq!(e.message(), "Invalid state transition from pending to completed"),
        Ok(_) => panic!("expected an error"),
    }
}

#[test]
fn ip_addresses() {
    assert!(is_valid_ip("192.168.1.100"));
    assert!(is_valid_ip("0.0.0.0"));
    assert!(is_valid_ip("+1.02.003.255"));
    assert!(!is_valid_ip("256.1.1.1"));
    assert!(!is_valid_ip("1.1.1"));
    assert!(!is_valid_ip("1.1.1.1.1"));
    assert!(!is_valid_ip("1..1.1"));
    assert!(!is_valid_ip("invalid-ip"));
    assert!(!is_valid_ip("1.1.1.+"));
    assert!(!is_valid_ip(""));
}

fn check(dpi: u32, width_ok: bool, height_ok: bool, columns: u32, ip: &str, port: u16) -> Result<(), DomainError> {
    check_printer_settings(dpi, width_ok, "0", height_ok, "250.5", columns, ip, port)
}

fn field_and_message(r: Result<(), DomainError>) -> (String, String) {
    match r {
        Err(DomainError::InvalidPrinterConfig { field, message }) => (field, message),
        _ => panic!("expected a config error"),
    }
}

#[test]
fn printer_settings_checks_in_order() {
    assert!(check(203, true, true, 2, "192.168.1.100", 9100).is_ok());
    assert_eq!(
        field_and_message(check(0, false, false, 0, "", 0)),
        ("dpi".to_string(), "DPI must be between 1 and 600, got 0".to_string())
    );
    assert_eq!(
        field_and_message(check(601, true, true, 2, "192.168.1.100", 9100)),
        ("dpi".to_string(), "DPI must be between 1 and 600, got 601".to_string())
    );
    assert_eq!(
        field_and_message(check(203, false, false, 2, "192.168.1.100", 9100)),
        ("label_width_mm".to_string(), "Label width must be between 0 and 200mm, got 0".to_string())
    );
    assert_eq!(
        field_and_message(check(203, true, false, 2, "192.168.1.100", 9100)),
        ("label_height_mm".to_string(), "Label height must be between 0 and 200mm, got 250.5".to_string())
    );
    assert_eq!(
        field_and_message(check(203, true, true, 5, "192.168.1.100", 9100)),
        ("columns".to_string(), "Columns must be between 1 and 4, got 5".to_string())
    );
    assert_eq!(
        field_and_message(check(203, true, true, 4, "", 9100)),
        ("ip_address".to_string(), "IP address cannot be empty".to_string())
    );
    assert_eq!(
        field_and_message(check(203, true, true, 4, "invalid-ip", 9100)),
        ("ip_address".to_string(), "Invalid IP address format: invalid-ip".to_string())
    );
    assert_eq!(
        field_and_message(check(203, true, true, 1, "10.0.0.1", 0)),
        ("port".to_string(), "Port cannot be 0".to_string())
    );
}

#[test]
fn stored_names_fall_back() {
    assert_eq!(PrintJobStatus::from_stored("failed"), PrintJobStatus::Failed);
    assert_eq!(PrintJobStatus::from_stored("??"), PrintJobStatus::Pending);
    assert_eq!(ConnectionType::from_stored("Serial"), ConnectionType::Serial);
    assert_eq!(ConnectionType::from_stored("bluetooth"), ConnectionType::Tcp);
}
