//! Serving OpenStreetMap imports as numbered batch files.
//!
//! An import (a full snapshot or a delta) is prepared once: its source is downloaded,
//! turned into XML, and split into batch documents of at most a fixed number of top-level
//! elements per kind, with a completion marker per kind. Requests for a batch are then
//! answered from the files, or tell the client to come back later, or that the batch will
//! never exist.
pub mod batch;
pub mod ids;
pub mod oracle;
pub mod pipeline;
pub mod service;
pub mod text;
pub mod xml;

pub use batch::{batch_osm_xml, BatchError, BatchPlan, KindBatches};
pub use ids::{DeltaAbc, ElementKind, FullDate, ImportOptions, OsmFileType};
pub use oracle::{batch_file_status, BatchFileProbe, BatchFileStatus};
pub use service::{get_import_options, BatchResponse, ImportType, OSMImportService};
