//! A print job and the states it moves through: pending, printing, then
//! completed or failed.

use vstd::prelude::*;
use crate::clock::{parse_stored_time, stored_time_in_utc, stored_time_or_now, utc_now_rfc3339, utc_rfc3339_text};
use crate::errors::DomainError;
use crate::text::str_eq;

verus! {

/// Where a print job stands.
#[derive(Debug, Clone, Copy, PartialEq, Eq, Structural)]
pub enum PrintJobStatus {
    Pending,
    Printing,
    Completed,
    Failed,
}

/// The stored name of a status.
pub open spec fn status_name(s: PrintJobStatus) -> Seq<char> {
    match s {
        PrintJobStatus::Pending => "pending"@,
        PrintJobStatus::Printing => "printing"@,
        PrintJobStatus::Completed => "completed"@,
        PrintJobStatus::Failed => "failed"@,
    }
}

/// The status whose stored name is exactly `s`.
pub open spec fn status_named(s: Seq<char>) -> Option<PrintJobStatus> {
    if s == "pending"@ {
        Some(PrintJobStatus::Pending)
    } else if s == "printing"@ {
        Some(PrintJobStatus::Printing)
    } else if s == "completed"@ {
        Some(PrintJobStatus::Completed)
    } else if s == "failed"@ {
        Some(PrintJobStatus::Failed)
    } else {
        None
    }
}

/// Whether a status is final: completed or failed.
pub open spec fn status_is_terminal(s: PrintJobStatus) -> bool {
    s == PrintJobStatus::Completed || s == PrintJobStatus::Failed
}

/// The status that starting to print leads to, if it is allowed.
pub open spec fn after_start(s: PrintJobStatus) -> Option<PrintJobStatus> {
    if s == PrintJobStatus::Pending {
        Some(PrintJobStatus::Printing)
    } else {
        None
    }
}

/// The status that completing leads to, if it is allowed.
pub open spec fn after_complete(s: PrintJobStatus) -> Option<PrintJobStatus> {
    if s == PrintJobStatus::Printing {
        Some(PrintJobStatus::Completed)
    } else {
        None
    }
}

/// The status that failing leads to, if it is allowed.
pub open spec fn after_fail(s: PrintJobStatus) -> Option<PrintJobStatus> {
    if s == PrintJobStatus::Printing {
        Some(PrintJobStatus::Failed)
    } else {
        None
    }
}

impl PrintJobStatus {
    /// The stored name: `pending`, `printing`, `completed` or `failed`.
    pub fn as_str(&self) -> (s: &'static str)
        ensures
            s@ == status_name(*self),
    {
        match self {
            PrintJobStatus::Pending => "pending",
            PrintJobStatus::Printing => "printing",
            PrintJobStatus::Completed => "completed",
            PrintJobStatus::Failed => "failed",
        }
    }

    /// The status with the stored name `s` (case matters).
    pub fn from_str(s: &str) -> (r: Result<Self, DomainError>)
        ensures
            status_named(s@) matches Some(t) ==> r == Ok::<PrintJobStatus, DomainError>(t),
            status_named(s@) is None ==> (r matches Err(DomainError::InvalidPrintJobStatus(m)) && m@ == s@),
    {
        if str_eq(s, "pending") {
            Ok(PrintJobStatus::Pending)
        } else if str_eq(s, "printing") {
            Ok(PrintJobStatus::Printing)
        } else if str_eq(s, "completed") {
            Ok(PrintJobStatus::Completed)
        } else if str_eq(s, "failed") {
            Ok(PrintJobStatus::Failed)
        } else {
            Err(DomainError::InvalidPrintJobStatus(String::from_str(s)))
        }
    }

    /// The status read back from a stored name: pending when the name is not
    /// one of the four.
    pub fn from_stored(s: &str) -> (r: Self)
        ensures
            r == (match status_named(s@) {
                Some(t) => t,
                None => PrintJobStatus::Pending,
            }),
    {
        match Self::from_str(s) {
            Ok(t) => t,
            Err(_) => PrintJobStatus::Pending,
        }
    }

    /// The displayed form of the status: its stored name.
    pub fn to_string(&self) -> (s: String)
        ensures
            s@ == status_name(*self),
    {
        String::from_str(self.as_str())
    }
}

/// Every status is found again from its stored name.
pub proof fn lemma_status_name_round_trip(s: PrintJobStatus)
    ensures
        status_named(status_name(s)) == Some(s),
{
    reveal_strlit("pending");
    reveal_strlit("printing");
    reveal_strlit("completed");
    reveal_strlit("failed");
    match s {
        PrintJobStatus::Pending => {},
        PrintJobStatus::Printing => {
            assert("printing"@ != "pending"@) by { assert("printing"@[1] != "pending"@[1]); }
        },
        PrintJobStatus::Completed => {
            assert("completed"@ != "pending"@) by { assert("completed"@[0] != "pending"@[0]); }
            assert("completed"@ != "printing"@) by { assert("completed"@[0] != "printing"@[0]); }
        },
        PrintJobStatus::Failed => {
            assert("failed"@ != "pending"@) by { assert("failed"@[0] != "pending"@[0]); }
            assert("failed"@ != "printing"@) by { assert("failed"@[0] != "printing"@[0]); }
            assert("failed"@ != "completed"@) by { assert("failed"@[0] != "completed"@[0]); }
        },
    }
}

/// A request to print a range of codes, and what became of it.
#[derive(Debug)]
pub struct PrintJob {
    pub id: String,
    pub printer_id: String,
    pub start_code: String,
    pub end_code: String,
    pub quantity: u64,
    pub status: PrintJobStatus,
    /// When the job was created, in RFC 3339 form.
    pub created_at: String,
    /// When the job reached a final status, in RFC 3339 form.
    pub completed_at: Option<String>,
}

/// Whether a job carries a completion time exactly when its status is final.
pub open spec fn job_consistent(job: PrintJob) -> bool {
    job.completed_at is Some <==> status_is_terminal(job.status)
}

/// Whether the job's creation time, and its completion time where it has
/// one, are UTC instants in RFC 3339 form.
pub open spec fn job_stamped(job: PrintJob) -> bool {
    &&& utc_rfc3339_text(job.created_at@)
    &&& job.completed_at matches Some(t) ==> utc_rfc3339_text(t@)
}

impl Clone for PrintJob {
    fn clone(&self) -> (r: Self)
        ensures
            r == *self,
    {
        PrintJob {
            id: self.id.clone(),
            printer_id: self.printer_id.clone(),
            start_code: self.start_code.clone(),
            end_code: self.end_code.clone(),
            quantity: self.quantity,
            status: self.status,
            created_at: self.created_at.clone(),
            completed_at: match &self.completed_at {
                Some(t) => Some(t.clone()),
                None => None,
            },
        }
    }
}

impl PrintJob {
    /// A pending job for the codes `start_code` to `end_code`, created now.
    pub fn new(id: &str, printer_id: &str, start_code: &str, end_code: &str, quantity: u64) -> (job: Self)
        ensures
            job.id@ == id@,
            job.printer_id@ == printer_id@,
            job.start_code@ == start_code@,
            job.end_code@ == end_code@,
            job.quantity == quantity,
            job.status == PrintJobStatus::Pending,
            job.completed_at is None,
            job_consistent(job),
            utc_rfc3339_text(job.created_at@),
            job_stamped(job),
    {
        PrintJob {
            id: String::from_str(id),
            printer_id: String::from_str(printer_id),
            start_code: String::from_str(start_code),
            end_code: String::from_str(end_code),
            quantity,
            status: PrintJobStatus::Pending,
            created_at: utc_now_rfc3339(),
            completed_at: None,
        }
    }

    /// A job read back from its stored record: the status from its stored
    /// name, the creation time in UTC (the current time when the stored text
    /// does not parse), and the completion time in UTC when there is one and
    /// it parses.
    pub fn from_stored(
        id: &str,
        printer_id: &str,
        start_code: &str,
        end_code: &str,
        quantity: u64,
        status: &str,
        created_at: &str,
        completed_at: Option<String>,
    ) -> (job: Self)
        ensures
            job.id@ == id@,
            job.printer_id@ == printer_id@,
            job.start_code@ == start_code@,
            job.end_code@ == end_code@,
            job.quantity == quantity,
            job.status == (match status_named(status@) {
                Some(t) => t,
                None => PrintJobStatus::Pending,
            }),
            match stored_time_in_utc(created_at@) {
                Some(t) => job.created_at@ == t,
                None => utc_rfc3339_text(job.created_at@),
            },
            match completed_at {
                Some(c) => match stored_time_in_utc(c@) {
                    Some(t) => job.completed_at matches Some(d) && d@ == t,
                    None => job.completed_at is None,
                },
                None => job.completed_at is None,
            },
            job_stamped(job),
    {
        let completed = match completed_at {
            Some(c) => parse_stored_time(c.as_str()),
            None => None,
        };
        PrintJob {
            id: String::from_str(id),
            printer_id: String::from_str(printer_id),
            start_code: String::from_str(start_code),
            end_code: String::from_str(end_code),
            quantity,
            status: PrintJobStatus::from_stored(status),
            created_at: stored_time_or_now(created_at),
            completed_at: completed,
        }
    }

    /// Moves a pending job to printing; any other status is refused and the
    /// job is left as it was.
    pub fn start_printing(&mut self) -> (r: Result<(), DomainError>)
        ensures
            after_start(old(self).status) matches Some(s) ==> (r is Ok && *final(self) == PrintJob { status: s, ..*old(self) }),
            after_start(old(self).status) is None ==> (*final(self) == *old(self)
                && (r matches Err(DomainError::InvalidStateTransition { from, to })
                && from@ == status_name(old(self).status) && to@ == "printing"@)),
            job_consistent(*old(self)) ==> job_consistent(*final(self)),
            job_stamped(*old(self)) ==> job_stamped(*final(self)),
    {
        match self.status {
            PrintJobStatus::Pending => {
                self.status = PrintJobStatus::Printing;
                Ok(())
            },
            _ => Err(DomainError::InvalidStateTransition {
                from: String::from_str(self.status.as_str()),
                to: String::from_str("printing"),
            }),
        }
    }

    /// Moves a printing job to completed and records the completion time;
    /// any other status is refused and the job is left as it was.
    pub fn complete(&mut self) -> (r: Result<(), DomainError>)
        ensures
            after_complete(old(self).status) matches Some(s) ==> (r is Ok
                && (final(self).completed_at matches Some(t) && utc_rfc3339_text(t@))
                && *final(self) == PrintJob { status: s, completed_at: final(self).completed_at, ..*old(self) }),
            after_complete(old(self).status) is None ==> (*final(self) == *old(self)
                && (r matches Err(DomainError::InvalidStateTransition { from, to })
                && from@ == status_name(old(self).status) && to@ == "completed"@)),
            job_consistent(*old(self)) ==> job_consistent(*final(self)),
            job_stamped(*old(self)) ==> job_stamped(*final(self)),
    {
        match self.status {
            PrintJobStatus::Printing => {
                self.status = PrintJobStatus::Completed;
                self.completed_at = Some(utc_now_rfc3339());
                Ok(())
            },
            _ => Err(DomainError::InvalidStateTransition {
                from: String::from_str(self.status.as_str()),
                to: String::from_str("completed"),
            }),
        }
    }

    /// Moves a printing job to failed and records the time; any other status
    /// is refused and the job is left as it was.
    pub fn fail(&mut self) -> (r: Result<(), DomainError>)
        ensures
            after_fail(old(self).status) matches Some(s) ==> (r is Ok
                && (final(self).completed_at matches Some(t) && utc_rfc3339_text(t@))
                && *final(self) == PrintJob { status: s, completed_at: final(self).completed_at, ..*old(self) }),
            after_fail(old(self).status) is None ==> (*final(self) == *old(self)
                && (r matches Err(DomainError::InvalidStateTransition { from, to })
                && from@ == status_name(old(self).status) && to@ == "failed"@)),
            job_consistent(*old(self)) ==> job_consistent(*final(self)),
            job_stamped(*old(self)) ==> job_stamped(*final(self)),
    {
        match self.status {
            PrintJobStatus::Printing => {
                self.status = PrintJobStatus::Failed;
                self.completed_at = Some(utc_now_rfc3339());
                Ok(())
            },
            _ => Err(DomainError::InvalidStateTransition {
                from: String::from_str(self.status.as_str()),
                to: String::from_str("failed"),
            }),
        }
    }

    /// Whether the job has reached a final status.
    pub fn is_terminal(&self) -> (r: bool)
        ensures
            r == status_is_terminal(self.status),
    {
        match self.status {
            PrintJobStatus::Completed | PrintJobStatus::Failed => true,
            _ => false,
        }
    }
}

/// A job in a final status accepts no further transition.
pub proof fn lemma_terminal_is_final(s: PrintJobStatus)
    requires
        status_is_terminal(s),
    ensures
        after_start(s) is None,
        after_complete(s) is None,
        after_fail(s) is None,
{
}

/// Only a printing job can be completed or failed, and only a pending job can
/// start printing: every allowed transition moves forward through
/// pending, printing, final.
pub proof fn lemma_transitions_move_forward(s: PrintJobStatus)
    ensures
        after_start(s) is Some ==> s == PrintJobStatus::Pending,
        after_complete(s) is Some ==> s == PrintJobStatus::Printing && status_is_terminal(after_complete(s)->0),
        after_fail(s) is Some ==> s == PrintJobStatus::Printing && status_is_terminal(after_fail(s)->0),
{
}

} // verus!
