//! Whether a requested batch can be served, from what probing its files found.
use vstd::prelude::*;

verus! {

/// The state of one requested batch.
#[derive(Debug)]
pub enum BatchFileStatus {
    /// The batch file exists; its content.
    FileReadSuccessfully(String),
    /// The batch file exists but could not be read.
    FileReadError(String),
    /// Neither the batch nor the kind's completion marker exists: preparation has not
    /// produced it yet.
    FileDoesNotExistYet,
    /// The batch does not exist and the kind is complete: it never will.
    FileWillNeverExist,
}

/// What probing the batch file found.
#[derive(Debug)]
pub enum BatchFileProbe {
    /// No such file.
    Missing,
    /// The file exists and reads as this text.
    Read(String),
    /// The file exists but reading it failed.
    Unreadable,
}

pub open spec fn read_error_message() -> Seq<char> {
    "Failed to read batch file"@
}

/// The status for a probe of the batch file and whether the kind's completion marker
/// exists. The batch file decides first; the marker counts only when the batch is missing.
pub open spec fn is_status_of(batch: BatchFileProbe, complete_exists: bool, r: BatchFileStatus) -> bool {
    match batch {
            BatchFileProbe::Read(content) => r == BatchFileStatus::FileReadSuccessfully(content),
            BatchFileProbe::Unreadable => r matches BatchFileStatus::FileReadError(m) && m@
                == read_error_message(),
            BatchFileProbe::Missing => if complete_exists {
                r == BatchFileStatus::FileWillNeverExist
            } else {
                r == BatchFileStatus::FileDoesNotExistYet
            },
        }
}

/// Classifies a requested batch.
pub fn batch_file_status(batch: BatchFileProbe, complete_exists: bool) -> (r: BatchFileStatus)
    ensures
        is_status_of(batch, complete_exists, r),
{
    match batch {
        BatchFileProbe::Read(content) => BatchFileStatus::FileReadSuccessfully(content),
        BatchFileProbe::Unreadable => BatchFileStatus::FileReadError(
            String::from_str("Failed to read batch file"),
        ),
        BatchFileProbe::Missing => if complete_exists {
            BatchFileStatus::FileWillNeverExist
        } else {
            BatchFileStatus::FileDoesNotExistYet
        },
    }
}

/// Exactly one outcome: for every probe, the status is served content exactly when the
/// batch file was read, an error exactly when it could not be read, "never" exactly when
/// it is missing and the kind is complete, and "not yet" exactly when it is missing and
/// the kind is not complete.
pub proof fn law_one_outcome(batch: BatchFileProbe, complete_exists: bool, r: BatchFileStatus)
    requires
        is_status_of(batch, complete_exists, r),
    ensures
        (r is FileReadSuccessfully) <==> (batch is Read),
        (r is FileReadError) <==> (batch is Unreadable),
        (r is FileWillNeverExist) <==> (batch is Missing && complete_exists),
        (r is FileDoesNotExistYet) <==> (batch is Missing && !complete_exists),
{
}

} // verus!
