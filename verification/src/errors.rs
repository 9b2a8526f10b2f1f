//! Error values of the domain, of the infrastructure and of the use cases.

use vstd::prelude::*;
use crate::text::{decimal, push_decimal};

verus! {

/// A rule of the domain that an input or a state broke.
#[derive(Debug)]
pub enum DomainError {
    InvalidBarcode { code: String },
    SequenceOverflow { value: u64 },
    InvalidQuantity { value: u64 },
    QuantityTooLarge { value: u64, max: u64 },
    InvalidPrinterConfig { field: String, message: String },
    PrinterNotConfigured,
    Database(String),
    InvalidStateTransition { from: String, to: String },
    InvalidPrintJobStatus(String),
}

/// A failure of the database or of the printer connection.
#[derive(Debug)]
pub enum InfrastructureError {
    Database(String),
    PrinterConnection(String),
    PrinterTimeout,
    PrinterUnavailable,
    ZplGeneration(String),
}

/// What a use case reports to its caller.
#[derive(Debug)]
pub enum ApplicationError {
    Domain(DomainError),
    Infrastructure(InfrastructureError),
    PrinterNotConfigured,
    PrintJobFailed(String),
    PrintCancelled,
}


/// The text of a domain error, as it is displayed.
pub open spec fn domain_message(e: DomainError) -> Seq<char> {
    match e {
        DomainError::InvalidBarcode { code } => "Invalid barcode: "@ + code@,
        DomainError::SequenceOverflow { value } => "Sequence overflow: value "@ + decimal(value as nat) + " exceeds maximum"@,
        DomainError::InvalidQuantity { value } => "Invalid quantity: "@ + decimal(value as nat),
        DomainError::QuantityTooLarge { value, max } => "Quantity too large: "@ + decimal(value as nat) + " exceeds limit of "@
            + decimal(max as nat),
        DomainError::InvalidPrinterConfig { field, message } => "Invalid printer config: "@ + field@ + " - "@ + message@,
        DomainError::PrinterNotConfigured => "Printer not configured"@,
        DomainError::Database(m) => "Database error: "@ + m@,
        DomainError::InvalidStateTransition { from, to } => "Invalid state transition from "@ + from@ + " to "@ + to@,
        DomainError::InvalidPrintJobStatus(s) => "Invalid print job status: "@ + s@,
    }
}

/// The text of an infrastructure error, as it is displayed.
pub open spec fn infrastructure_message(e: InfrastructureError) -> Seq<char> {
    match e {
        InfrastructureError::Database(m) => "Database error: "@ + m@,
        InfrastructureError::PrinterConnection(m) => "Printer connection failed: "@ + m@,
        InfrastructureError::PrinterTimeout => "Printer timeout"@,
        InfrastructureError::PrinterUnavailable => "Printer unavailable"@,
        InfrastructureError::ZplGeneration(m) => "ZPL generation failed: "@ + m@,
    }
}

/// The text of an application error, as it is displayed: a wrapped error
/// shows through unchanged.
pub open spec fn application_message(e: ApplicationError) -> Seq<char> {
    match e {
        ApplicationError::Domain(d) => domain_message(d),
        ApplicationError::Infrastructure(i) => infrastructure_message(i),
        ApplicationError::PrinterNotConfigured => "Printer not configured"@,
        ApplicationError::PrintJobFailed(m) => "Print job failed: "@ + m@,
        ApplicationError::PrintCancelled => "Print cancelled"@,
    }
}

/// The code under which an application error reaches the user interface.
pub open spec fn application_code(e: ApplicationError) -> Seq<char> {
    match e {
        ApplicationError::Domain(_) => "DOMAIN_ERROR"@,
        ApplicationError::Infrastructure(i) => match i {
            InfrastructureError::Database(_) => "DATABASE_ERROR"@,
            InfrastructureError::PrinterConnection(_) => "PRINTER_CONNECTION_FAILED"@,
            InfrastructureError::PrinterTimeout => "PRINTER_TIMEOUT"@,
            InfrastructureError::PrinterUnavailable => "PRINTER_UNAVAILABLE"@,
            InfrastructureError::ZplGeneration(_) => "ZPL_GENERATION_FAILED"@,
        },
        ApplicationError::PrinterNotConfigured => "PRINTER_NOT_CONFIGURED"@,
        ApplicationError::PrintJobFailed(_) => "PRINT_JOB_FAILED"@,
        ApplicationError::PrintCancelled => "PRINT_CANCELLED"@,
    }
}

impl DomainError {
    /// The displayed text of the error.
    pub fn message(&self) -> (s: String)
        ensures
            s@ == domain_message(*self),
    {
        match self {
            DomainError::InvalidBarcode { code } => {
                let mut s = String::from_str("Invalid barcode: ");
                s.append(code.as_str());
                s
            },
            DomainError::SequenceOverflow { value } => {
                let mut s = String::from_str("Sequence overflow: value ");
                push_decimal(&mut s, *value);
                s.append(" exceeds maximum");
                s
            },
            DomainError::InvalidQuantity { value } => {
                let mut s = String::from_str("Invalid quantity: ");
                push_decimal(&mut s, *value);
                s
            },
            DomainError::QuantityTooLarge { value, max } => {
                let mut s = String::from_str("Quantity too large: ");
                push_decimal(&mut s, *value);
                s.append(" exceeds limit of ");
                push_decimal(&mut s, *max);
                s
            },
            DomainError::InvalidPrinterConfig { field, message } => {
                let mut s = String::from_str("Invalid printer config: ");
                s.append(field.as_str());
                s.append(" - ");
                s.append(message.as_str());
                s
            },
            DomainError::PrinterNotConfigured => String::from_str("Printer not configured"),
            DomainError::Database(m) => {
                let mut s = String::from_str("Database error: ");
                s.append(m.as_str());
                s
            },
            DomainError::InvalidStateTransition { from, to } => {
                let mut s = String::from_str("Invalid state transition from ");
                s.append(from.as_str());
                s.append(" to ");
                s.append(to.as_str());
                s
            },
            DomainError::InvalidPrintJobStatus(v) => {
                let mut s = String::from_str("Invalid print job status: ");
                s.append(v.as_str());
                s
            },
        }
    }
}

impl InfrastructureError {
    /// The displayed text of the error.
    pub fn message(&self) -> (s: String)
        ensures
            s@ == infrastructure_message(*self),
    {
        match self {
            InfrastructureError::Database(m) => {
                let mut s = String::from_str("Database error: ");
                s.append(m.as_str());
                s
            },
            InfrastructureError::PrinterConnection(m) => {
                let mut s = String::from_str("Printer connection failed: ");
                s.append(m.as_str());
                s
            },
            InfrastructureError::PrinterTimeout => String::from_str("Printer timeout"),
            InfrastructureError::PrinterUnavailable => String::from_str("Printer unavailable"),
            InfrastructureError::ZplGeneration(m) => {
                let mut s = String::from_str("ZPL generation failed: ");
                s.append(m.as_str());
                s
            },
        }
    }
}

impl ApplicationError {
    /// The displayed text of the error.
    pub fn message(&self) -> (s: String)
        ensures
            s@ == application_message(*self),
    {
        match self {
            ApplicationError::Domain(d) => d.message(),
            ApplicationError::Infrastructure(i) => i.message(),
            ApplicationError::PrinterNotConfigured => String::from_str("Printer not configured"),
            ApplicationError::PrintJobFailed(m) => {
                let mut s = String::from_str("Print job failed: ");
                s.append(m.as_str());
                s
            },
            ApplicationError::PrintCancelled => String::from_str("Print cancelled"),
        }
    }

    /// The code under which the error reaches the user interface.
    pub fn code(&self) -> (s: &'static str)
        ensures
            s@ == application_code(*self),
    {
        match self {
            ApplicationError::Domain(_) => "DOMAIN_ERROR",
            ApplicationError::Infrastructure(i) => match i {
                InfrastructureError::Database(_) => "DATABASE_ERROR",
                InfrastructureError::PrinterConnection(_) => "PRINTER_CONNECTION_FAILED",
                InfrastructureError::PrinterTimeout => "PRINTER_TIMEOUT",
                InfrastructureError::PrinterUnavailable => "PRINTER_UNAVAILABLE",
                InfrastructureError::ZplGeneration(_) => "ZPL_GENERATION_FAILED",
            },
            ApplicationError::PrinterNotConfigured => "PRINTER_NOT_CONFIGURED",
            ApplicationError::PrintJobFailed(_) => "PRINT_JOB_FAILED",
            ApplicationError::PrintCancelled => "PRINT_CANCELLED",
        }
    }
}

} // verus!
