//! The persistence sink's data: what a classification looks like in the
//! durable audit log, and the typed failures of the storage collaborator.
//!
//! The sink is best-effort telemetry. Its failures are logged and discarded
//! by the adapter that attempted the write; they are never surfaced as a
//! failure of the classification itself.

use vstd::prelude::*;

use crate::classify::{ClassificationInfo, ClassificationView};

verus! {

/// Why a persistence attempt failed.
#[derive(Debug, Clone, Copy, PartialEq, Eq, Structural)]
pub enum StorageError {
    /// The storage collaborator could not be reached.
    Unavailable,
    /// Waiting for a pooled connection or for the write ran out of time.
    Timeout,
    /// The write conflicted with a concurrent one.
    WriteConflict,
}

pub open spec fn storage_message_of(e: StorageError) -> Seq<char> {
    match e {
        StorageError::Unavailable => "storage unavailable"@,
        StorageError::Timeout => "storage timed out"@,
        StorageError::WriteConflict => "storage write conflict"@,
    }
}

impl StorageError {
    /// A diagnostic phrase for this failure, for the operational log.
    pub fn message(&self) -> (r: &'static str)
        ensures
            r@ == storage_message_of(*self),
    {
        match self {
            StorageError::Unavailable => "storage unavailable",
            StorageError::Timeout => "storage timed out",
            StorageError::WriteConflict => "storage write conflict",
        }
    }
}

/// The persisted form of a classification: one append-only row.
pub struct ClassificationRecord {
    pub language_name: String,
    pub script_name: String,
    pub confidence_ppm: u32,
}

/// The mathematical shadow of a `ClassificationRecord`.
pub struct RecordView {
    pub language_name: Seq<char>,
    pub script_name: Seq<char>,
    pub confidence_ppm: int,
}

impl View for ClassificationRecord {
    type V = RecordView;

    open spec fn view(&self) -> RecordView {
        RecordView {
            language_name: self.language_name@,
            script_name: self.script_name@,
            confidence_ppm: self.confidence_ppm as int,
        }
    }
}

/// What a classification becomes in the audit log.
pub open spec fn record_of(v: ClassificationView) -> RecordView {
    RecordView {
        language_name: v.lang_name,
        script_name: v.script_name,
        confidence_ppm: v.confidence_ppm,
    }
}

/// Projects a classification onto its persisted form.
pub fn to_record(info: &ClassificationInfo) -> (r: ClassificationRecord)
    ensures
        r@ == record_of(info@),
{
    ClassificationRecord {
        language_name: info.lang_name.clone(),
        script_name: info.script_name.clone(),
        confidence_ppm: info.confidence_ppm,
    }
}

} // verus!
