//! The two requests of the service, from decoded request to response.
use crate::ids::{delta_error, full_date_error, is_delta_text, is_full_date_text};
use crate::ids::{DeltaAbc, FullDate, ImportOptions, OsmFileType};
use crate::oracle::{is_status_of, BatchFileProbe, BatchFileStatus};
use vstd::prelude::*;

verus! {

/// The identifier of an import as a request carries it.
#[derive(Debug, Clone)]
pub enum ImportType {
    FullDate(String),
    DeltaAbc(String),
}

/// The answer to a batch request.
#[derive(Debug, Clone)]
pub enum BatchResponse {
    BatchContent(String),
    BatchesPending(String),
    BatchesComplete(String),
    Error(String),
}

pub open spec fn unknown_import_message() -> Seq<char> {
    "import type is unknown"@
}

pub open spec fn data_root() -> Seq<char> {
    "./data/"@
}

/// Validates a request's identifier into the options of its import.
pub fn get_import_options(import_type: Option<ImportType>) -> (r: Result<ImportOptions, String>)
    ensures
        match import_type {
            None => r matches Err(e) && e@ == unknown_import_message(),
            Some(ImportType::FullDate(s)) => if is_full_date_text(s@) {
                r matches Ok(o) && o.osm_file_type matches OsmFileType::Full(d) && d@ == s@
                    && o.base_path@ == data_root()
            } else {
                r matches Err(e) && e@ == full_date_error(s@)
            },
            Some(ImportType::DeltaAbc(s)) => if is_delta_text(s@) {
                r matches Ok(o) && o.osm_file_type matches OsmFileType::Delta(d) && d@ == s@
                    && o.base_path@ == data_root()
            } else {
                r matches Err(e) && e@ == delta_error(s@)
            },
        },
{
    match import_type {
        Some(ImportType::FullDate(date)) => {
            let validated = FullDate::new(date)?;
            Ok(
                ImportOptions {
                    osm_file_type: OsmFileType::Full(validated),
                    base_path: String::from_str("./data/"),
                },
            )
        },
        Some(ImportType::DeltaAbc(abc)) => {
            let validated = DeltaAbc::new(abc)?;
            Ok(
                ImportOptions {
                    osm_file_type: OsmFileType::Delta(validated),
                    base_path: String::from_str("./data/"),
                },
            )
        },
        None => Err(String::from_str("import type is unknown")),
    }
}

/// The response to a batch whose status is `status`, and whether preparation is to be
/// started.
pub open spec fn is_response_to(status: BatchFileStatus, r: (BatchResponse, bool)) -> bool {
    match status {
        BatchFileStatus::FileReadSuccessfully(c) => r == (BatchResponse::BatchContent(c), false),
        BatchFileStatus::FileReadError(m) => r == (BatchResponse::Error(m), false),
        BatchFileStatus::FileWillNeverExist => r.0 matches BatchResponse::BatchesComplete(s)
            && s@.len() == 0 && !r.1,
        BatchFileStatus::FileDoesNotExistYet => r.0 matches BatchResponse::BatchesPending(s)
            && s@.len() == 0 && r.1,
    }
}

/// The service's request handlers, apart from reaching the files.
#[derive(Debug, Default, Clone, Copy)]
pub struct OSMImportService;

impl OSMImportService {
    /// Always `Pong`.
    pub fn ping(&self) -> (r: String)
        ensures
            r@ == "Pong"@,
    {
        String::from_str("Pong")
    }

    /// The response to a batch request whose batch has `status`, and whether preparation
    /// of the import should be started: only when the batch is not there yet.
    pub fn batch_response(&self, status: BatchFileStatus) -> (r: (BatchResponse, bool))
        ensures
            is_response_to(status, r),
    {
        match status {
            BatchFileStatus::FileReadSuccessfully(content) => (
                BatchResponse::BatchContent(content),
                false,
            ),
            BatchFileStatus::FileReadError(error) => (BatchResponse::Error(error), false),
            BatchFileStatus::FileWillNeverExist => (
                BatchResponse::BatchesComplete(String::new()),
                false,
            ),
            BatchFileStatus::FileDoesNotExistYet => (
                BatchResponse::BatchesPending(String::new()),
                true,
            ),
        }
    }
}

/// Served content is the file's content: when the batch file was read, classifying it and
/// answering the request hands back exactly the text read, and starts no preparation.
pub proof fn law_content_is_file_content(
    content: String,
    complete_exists: bool,
    status: BatchFileStatus,
    r: (BatchResponse, bool),
)
    requires
        is_status_of(BatchFileProbe::Read(content), complete_exists, status),
        is_response_to(status, r),
    ensures
        r == (BatchResponse::BatchContent(content), false),
{
}

} // verus!
