//! Preparation of one import as a sequence of steps: the decisions are here, the file,
//! network and process work is done by the caller, which reports back how each step went.
//!
//! A caller makes a [`Preparation`], then repeatedly performs [`Preparation::action`] and
//! hands the outcome to [`Preparation::advance`], until the action is `Finish`.
use crate::batch::{
    batch_osm_xml, completion_message, law_completion_counts_batches, plan_matches, root_event,
    texts, BatchError, BatchPlan, KindBatches,
};
use crate::ids::law_batch_files_distinct;
use crate::xml::{distinct_keys, document_events, document_readable, XmlEvent};
use crate::ids::{ElementKind, ImportOptions, OsmFileType};
use std::io::Read;
use vstd::prelude::*;

verus! {

/// Elements per batch for a full snapshot.
pub const FULL_BATCH_SIZE: usize = 500;

/// Elements per batch for a delta.
pub const DELTA_BATCH_SIZE: usize = 1000;

/// A downloaded PBF smaller than this is taken for an error page.
pub const MIN_PBF_SIZE: u64 = 1000;

pub open spec fn too_small_message() -> Seq<char> {
    "Downloaded PBF file appears to be invalid (too small)"@
}

pub open spec fn conversion_failed_message() -> Seq<char> {
    "PBF to XML conversion failed. Please install osmium-tool: 'sudo apt-get install osmium-tool' or similar for your OS."@
}

impl ImportOptions {
    pub open spec fn spec_batch_size(&self) -> usize {
        if self.is_delta() {
            DELTA_BATCH_SIZE
        } else {
            FULL_BATCH_SIZE
        }
    }

    pub open spec fn spec_source_archive(&self) -> Seq<char> {
        match self.osm_file_type {
            OsmFileType::Full(_) => self.spec_import_dir() + "/"@ + self.spec_import_scope()
                + ".osm.pbf"@,
            OsmFileType::Delta(_) => self.spec_import_dir() + "/"@ + self.spec_import_scope()
                + ".osc.gz"@,
        }
    }

    pub open spec fn spec_source_xml(&self) -> Seq<char> {
        self.spec_import_dir() + "/"@ + self.spec_filename_base()
    }

    pub open spec fn spec_batches_dir(&self) -> Seq<char> {
        self.spec_import_dir() + "/batches"@
    }

    pub open spec fn spec_source_url(&self) -> Seq<char> {
        match self.osm_file_type {
            OsmFileType::Full(d) => "https://download.geofabrik.de/asia/bangladesh-"@ + d@
                + ".osm.pbf"@,
            OsmFileType::Delta(abc) => "https://download.geofabrik.de/asia/bangladesh-updates/"@
                + abc@ + ".osc.gz"@,
        }
    }

    /// Elements per batch: 500 for a full snapshot, 1000 for a delta.
    pub fn batch_size(&self) -> (r: usize)
        ensures
            r == self.spec_batch_size(),
            r > 0,
    {
        match &self.osm_file_type {
            OsmFileType::Full(_) => FULL_BATCH_SIZE,
            OsmFileType::Delta(_) => DELTA_BATCH_SIZE,
        }
    }

    /// `<import_dir>/<scope>.osm.pbf` or `<import_dir>/<scope>.osc.gz`.
    pub fn get_source_archive(&self) -> (r: String)
        ensures
            r@ == self.spec_source_archive(),
    {
        let mut r = self.get_import_dir();
        r.append("/");
        let scope = self.get_import_scope();
        r.append(scope.as_str());
        match &self.osm_file_type {
            OsmFileType::Full(_) => r.append(".osm.pbf"),
            OsmFileType::Delta(_) => r.append(".osc.gz"),
        }
        r
    }

    /// `<import_dir>/<base>`: the XML document that is batched.
    pub fn get_source_xml(&self) -> (r: String)
        ensures
            r@ == self.spec_source_xml(),
    {
        let mut r = self.get_import_dir();
        r.append("/");
        let base = self.get_filename_base();
        r.append(base.as_str());
        r
    }

    /// `<import_dir>/batches`.
    pub fn get_batches_dir(&self) -> (r: String)
        ensures
            r@ == self.spec_batches_dir(),
    {
        let mut r = self.get_import_dir();
        r.append("/batches");
        r
    }

    /// Where the source archive is downloaded from.
    pub fn get_source_url(&self) -> (r: String)
        ensures
            r@ == self.spec_source_url(),
    {
        match &self.osm_file_type {
            OsmFileType::Full(d) => {
                let mut r = String::from_str("https://download.geofabrik.de/asia/bangladesh-");
                r.append(d.as_str());
                r.append(".osm.pbf");
                r
            },
            OsmFileType::Delta(abc) => {
                let mut r = String::from_str(
                    "https://download.geofabrik.de/asia/bangladesh-updates/",
                );
                r.append(abc.as_str());
                r.append(".osc.gz");
                r
            },
        }
    }
}

/// Where a preparation stands.
#[derive(Debug, Clone, Copy, PartialEq, Eq, Structural)]
pub enum Stage {
    CreateDir,
    WriteLock,
    CheckArchive,
    Download,
    CheckSource,
    MeasureArchive,
    Convert,
    RenameConverted,
    RemoveTemp,
    Decompress,
    CheckComplete,
    ResetBatches,
    BuildBatches,
    RemoveLock,
    Finished,
}

/// What the caller is asked to do next.
#[derive(Debug)]
pub enum Action {
    /// Create the directory and its parents.
    CreateDir { path: String },
    /// Write the lock file with the text `locked`.
    WriteLock { path: String },
    /// Report whether the file exists.
    CheckExists { path: String },
    /// Fetch the remote file into `dest`.
    Download { url: String, dest: String },
    /// Report the file's size.
    MeasureFile { path: String },
    /// Run the PBF to XML converter from `src` into `dest`.
    Convert { src: String, dest: String },
    /// Rename `from` to `to`.
    Rename { from: String, to: String },
    /// Remove the file if it exists.
    RemoveFile { path: String },
    /// Decompress the gzip file `src` into `dest`.
    Decompress { src: String, dest: String },
    /// Report whether all of the files exist.
    CheckAllExist { paths: Vec<String> },
    /// Remove the directory if it exists, then create it and each of `kind_dirs`.
    ResetDir { path: String, kind_dirs: Vec<String> },
    /// Batch the XML document `source` and write the batches and completion markers.
    BuildBatches { source: String },
    /// Remove the lock file; failure to do so is only reported.
    RemoveLock { path: String },
    /// The preparation is over, with this outcome.
    Finish { outcome: Result<(), String> },
}

/// How the last action went.
#[derive(Debug)]
pub enum Outcome {
    /// Done.
    Done,
    /// The answer to a check.
    Exists(bool),
    /// The answer to a size request.
    Size(u64),
    /// The action failed, for this reason.
    Failed(String),
}

/// One preparation of one import.
pub struct Preparation {
    pub options: ImportOptions,
    pub stage: Stage,
    /// The failure that ends the preparation, once there is one.
    pub failure: Option<String>,
    /// Every kind's completion marker exists or is about to be written.
    pub batches_ready: bool,
}

/// The first failure, if any.
pub open spec fn failure_of(o: Outcome) -> Option<Seq<char>> {
    match o {
        Outcome::Failed(m) => Some(m@),
        _ => None,
    }
}

impl Preparation {
    /// A preparation about to begin, or `None` when the import's lock file exists, in which
    /// case another preparation is taken to be running and nothing is to be done.
    pub fn start(options: ImportOptions, lock_exists: bool) -> (r: Option<Preparation>)
        ensures
            lock_exists ==> r is None,
            !lock_exists ==> (r matches Some(p) && p.options == options && p.stage
                == Stage::CreateDir && p.failure is None && !p.batches_ready),
    {
        if lock_exists {
            None
        } else {
            Some(Preparation { options, stage: Stage::CreateDir, failure: None, batches_ready: false })
        }
    }

    /// The stage after `stage` when the caller reports `o`, and the failure that it
    /// records, for a preparation of `options` whose failure so far is `failure`.
    pub open spec fn next(
        options: ImportOptions,
        stage: Stage,
        failure: Option<Seq<char>>,
        o: Outcome,
    ) -> (Stage, Option<Seq<char>>) {
        let delta = options.is_delta();
        match failure_of(o) {
            Some(m) => match stage {
                Stage::CreateDir | Stage::WriteLock => (Stage::Finished, Some(m)),
                Stage::Convert => (Stage::RemoveTemp, Some(conversion_failed_message())),
                Stage::RemoveTemp => (Stage::RemoveLock, failure),
                Stage::RemoveLock | Stage::Finished => (Stage::Finished, failure),
                _ => (Stage::RemoveLock, Some(m)),
            },
            None => match stage {
                Stage::CreateDir => (Stage::WriteLock, failure),
                Stage::WriteLock => (Stage::CheckArchive, failure),
                Stage::CheckArchive => if o == Outcome::Exists(true) {
                    (Stage::CheckSource, failure)
                } else {
                    (Stage::Download, failure)
                },
                Stage::Download => (Stage::CheckSource, failure),
                Stage::CheckSource => if o == Outcome::Exists(true) {
                    (Stage::CheckComplete, failure)
                } else if delta {
                    (Stage::Decompress, failure)
                } else {
                    (Stage::MeasureArchive, failure)
                },
                Stage::MeasureArchive => match o {
                    Outcome::Size(n) => if n >= MIN_PBF_SIZE {
                        (Stage::Convert, failure)
                    } else {
                        (Stage::RemoveLock, Some(too_small_message()))
                    },
                    _ => (Stage::RemoveLock, Some(too_small_message())),
                },
                Stage::Convert => (Stage::RenameConverted, failure),
                Stage::RenameConverted => (Stage::CheckComplete, failure),
                Stage::RemoveTemp => (Stage::RemoveLock, failure),
                Stage::Decompress => (Stage::CheckComplete, failure),
                Stage::CheckComplete => if o == Outcome::Exists(true) {
                    (Stage::RemoveLock, failure)
                } else {
                    (Stage::ResetBatches, failure)
                },
                Stage::ResetBatches => (Stage::BuildBatches, failure),
                Stage::BuildBatches => (Stage::RemoveLock, failure),
                Stage::RemoveLock => (Stage::Finished, failure),
                Stage::Finished => (Stage::Finished, failure),
            },
        }
    }

    /// Every kind's batches are complete once the completion markers were found, or once
    /// building the batches succeeded.
    pub open spec fn next_ready(stage: Stage, ready: bool, o: Outcome) -> bool {
        ready || (failure_of(o) is None && ((stage == Stage::CheckComplete && o
            == Outcome::Exists(true)) || stage == Stage::BuildBatches))
    }

    /// Moves on after the caller reports how the current action went.
    pub fn advance(&mut self, o: Outcome)
        ensures
            final(self).options == old(self).options,
            (final(self).stage, opt_view(final(self).failure)) == Preparation::next(
                old(self).options,
                old(self).stage,
                opt_view(old(self).failure),
                o,
            ),
            final(self).batches_ready == Preparation::next_ready(
                old(self).stage,
                old(self).batches_ready,
                o,
            ),
    {
        let delta = match &self.options.osm_file_type {
            OsmFileType::Full(_) => false,
            OsmFileType::Delta(_) => true,
        };
        let found = is_found(&o);
        let ready_now = match &o {
            Outcome::Failed(_) => false,
            _ => match self.stage {
                Stage::CheckComplete => found,
                Stage::BuildBatches => true,
                _ => false,
            },
        };
        self.batches_ready = self.batches_ready || ready_now;
        match o {
            Outcome::Failed(m) => {
                match self.stage {
                    Stage::CreateDir | Stage::WriteLock => {
                        self.stage = Stage::Finished;
                        self.failure = Some(m);
                    },
                    Stage::Convert => {
                        self.stage = Stage::RemoveTemp;
                        self.failure = Some(
                            String::from_str(
                                "PBF to XML conversion failed. Please install osmium-tool: 'sudo apt-get install osmium-tool' or similar for your OS.",
                            ),
                        );
                    },
                    Stage::RemoveTemp => {
                        self.stage = Stage::RemoveLock;
                    },
                    Stage::RemoveLock | Stage::Finished => {
                        self.stage = Stage::Finished;
                    },
                    _ => {
                        self.stage = Stage::RemoveLock;
                        self.failure = Some(m);
                    },
                }
            },
            Outcome::Size(n) => {
                match self.stage {
                    Stage::MeasureArchive => {
                        if n >= MIN_PBF_SIZE {
                            self.stage = Stage::Convert;
                        } else {
                            self.stage = Stage::RemoveLock;
                            self.failure = Some(
                                String::from_str(
                                    "Downloaded PBF file appears to be invalid (too small)",
                                ),
                            );
                        }
                    },
                    _ => self.advance_plain(&o, delta),
                }
            },
            _ => self.advance_plain(&o, delta),
        }
    }

    /// The move on any report that is neither a failure nor a size.
    fn advance_plain(&mut self, o: &Outcome, delta: bool)
        requires
            delta == old(self).options.is_delta(),
            failure_of(*o) is None,
            !(*o is Size && old(self).stage == Stage::MeasureArchive),
        ensures
            final(self).options == old(self).options,
            final(self).batches_ready == old(self).batches_ready,
            (final(self).stage, opt_view(final(self).failure)) == Preparation::next(
                old(self).options,
                old(self).stage,
                opt_view(old(self).failure),
                *o,
            ),
    {
        let found = is_found(o);
        let next = match self.stage {
            Stage::CreateDir => Stage::WriteLock,
            Stage::WriteLock => Stage::CheckArchive,
            Stage::CheckArchive => if found {
                Stage::CheckSource
            } else {
                Stage::Download
            },
            Stage::Download => Stage::CheckSource,
            Stage::CheckSource => if found {
                Stage::CheckComplete
            } else if delta {
                Stage::Decompress
            } else {
                Stage::MeasureArchive
            },
            Stage::MeasureArchive => {
                self.failure = Some(
                    String::from_str("Downloaded PBF file appears to be invalid (too small)"),
                );
                Stage::RemoveLock
            },
            Stage::Convert => Stage::RenameConverted,
            Stage::RenameConverted => Stage::CheckComplete,
            Stage::RemoveTemp => Stage::RemoveLock,
            Stage::Decompress => Stage::CheckComplete,
            Stage::CheckComplete => if found {
                Stage::RemoveLock
            } else {
                Stage::ResetBatches
            },
            Stage::ResetBatches => Stage::BuildBatches,
            Stage::BuildBatches => Stage::RemoveLock,
            Stage::RemoveLock => Stage::Finished,
            Stage::Finished => Stage::Finished,
        };
        self.stage = next;
    }
}

fn is_found(o: &Outcome) -> (r: bool)
    ensures
        r == (*o == Outcome::Exists(true)),
{
    match o {
        Outcome::Exists(b) => *b,
        _ => false,
    }
}

/// The text of an optional string.
pub open spec fn opt_view(o: Option<String>) -> Option<Seq<char>> {
    match o {
        Some(s) => Some(s@),
        None => None,
    }
}

impl ImportOptions {
    pub open spec fn spec_temp_xml(&self) -> Seq<char> {
        self.spec_source_xml() + ".temp"@
    }

    /// The completion markers of the three kinds, in the order node, way, relation.
    pub open spec fn spec_completion_files(&self) -> Seq<Seq<char>> {
        seq![
            self.spec_batches_complete_file(ElementKind::Node.spec_name()),
            self.spec_batches_complete_file(ElementKind::Way.spec_name()),
            self.spec_batches_complete_file(ElementKind::Relation.spec_name()),
        ]
    }

    /// The batch directories of the three kinds, in the order node, way, relation.
    pub open spec fn spec_kind_dirs(&self) -> Seq<Seq<char>> {
        seq![
            self.spec_batches_dir() + "/"@ + ElementKind::Node.spec_name(),
            self.spec_batches_dir() + "/"@ + ElementKind::Way.spec_name(),
            self.spec_batches_dir() + "/"@ + ElementKind::Relation.spec_name(),
        ]
    }
}

/// The action that a preparation of `options` at `stage` asks for.
pub open spec fn is_action_of(
    a: Action,
    options: ImportOptions,
    stage: Stage,
    failure: Option<Seq<char>>,
) -> bool {
    match stage {
        Stage::CreateDir => a matches Action::CreateDir { path } && path@
            == options.spec_import_dir(),
        Stage::WriteLock => a matches Action::WriteLock { path } && path@
            == options.spec_lock_file(),
        Stage::CheckArchive => a matches Action::CheckExists { path } && path@
            == options.spec_source_archive(),
        Stage::Download => a matches Action::Download { url, dest } && url@
            == options.spec_source_url() && dest@ == options.spec_source_archive(),
        Stage::CheckSource => a matches Action::CheckExists { path } && path@
            == options.spec_source_xml(),
        Stage::MeasureArchive => a matches Action::MeasureFile { path } && path@
            == options.spec_source_archive(),
        Stage::Convert => a matches Action::Convert { src, dest } && src@
            == options.spec_source_archive() && dest@ == options.spec_temp_xml(),
        Stage::RenameConverted => a matches Action::Rename { from, to } && from@
            == options.spec_temp_xml() && to@ == options.spec_source_xml(),
        Stage::RemoveTemp => a matches Action::RemoveFile { path } && path@
            == options.spec_temp_xml(),
        Stage::Decompress => a matches Action::Decompress { src, dest } && src@
            == options.spec_source_archive() && dest@ == options.spec_source_xml(),
        Stage::CheckComplete => a matches Action::CheckAllExist { paths } && texts(paths@)
            == options.spec_completion_files(),
        Stage::ResetBatches => a matches Action::ResetDir { path, kind_dirs } && path@
            == options.spec_batches_dir() && texts(kind_dirs@) == options.spec_kind_dirs(),
        Stage::BuildBatches => a matches Action::BuildBatches { source } && source@
            == options.spec_source_xml(),
        Stage::RemoveLock => a matches Action::RemoveLock { path } && path@
            == options.spec_lock_file(),
        Stage::Finished => a matches Action::Finish { outcome } && match failure {
            None => outcome is Ok,
            Some(m) => outcome matches Err(e) && e@ == m,
        },
    }
}

impl Preparation {
    /// What the caller is to do next.
    pub fn action(&self) -> (r: Action)
        ensures
            is_action_of(r, self.options, self.stage, opt_view(self.failure)),
    {
        let o = &self.options;
        match self.stage {
            Stage::CreateDir => Action::CreateDir { path: o.get_import_dir() },
            Stage::WriteLock => Action::WriteLock { path: o.get_lock_file() },
            Stage::CheckArchive => Action::CheckExists { path: o.get_source_archive() },
            Stage::Download => Action::Download {
                url: o.get_source_url(),
                dest: o.get_source_archive(),
            },
            Stage::CheckSource => Action::CheckExists { path: o.get_source_xml() },
            Stage::MeasureArchive => Action::MeasureFile { path: o.get_source_archive() },
            Stage::Convert => Action::Convert { src: o.get_source_archive(), dest: temp_xml(o) },
            Stage::RenameConverted => Action::Rename { from: temp_xml(o), to: o.get_source_xml() },
            Stage::RemoveTemp => Action::RemoveFile { path: temp_xml(o) },
            Stage::Decompress => Action::Decompress {
                src: o.get_source_archive(),
                dest: o.get_source_xml(),
            },
            Stage::CheckComplete => {
                let mut paths: Vec<String> = Vec::new();
                paths.push(o.get_batches_complete_file(ElementKind::Node.name()));
                paths.push(o.get_batches_complete_file(ElementKind::Way.name()));
                paths.push(o.get_batches_complete_file(ElementKind::Relation.name()));
                assert(texts(paths@) =~= o.spec_completion_files());
                Action::CheckAllExist { paths }
            },
            Stage::ResetBatches => {
                let mut kind_dirs: Vec<String> = Vec::new();
                kind_dirs.push(kind_dir(o, ElementKind::Node));
                kind_dirs.push(kind_dir(o, ElementKind::Way));
                kind_dirs.push(kind_dir(o, ElementKind::Relation));
                assert(texts(kind_dirs@) =~= o.spec_kind_dirs());
                Action::ResetDir { path: o.get_batches_dir(), kind_dirs }
            },
            Stage::BuildBatches => Action::BuildBatches { source: o.get_source_xml() },
            Stage::RemoveLock => Action::RemoveLock { path: o.get_lock_file() },
            Stage::Finished => match &self.failure {
                None => Action::Finish { outcome: Ok(()) },
                Some(m) => Action::Finish { outcome: Err(m.clone()) },
            },
        }
    }
}

fn temp_xml(o: &ImportOptions) -> (r: String)
    ensures
        r@ == o.spec_temp_xml(),
{
    let mut r = o.get_source_xml();
    r.append(".temp");
    r
}

fn kind_dir(o: &ImportOptions, k: ElementKind) -> (r: String)
    ensures
        r@ == o.spec_batches_dir() + "/"@ + k.spec_name(),
{
    let mut r = o.get_batches_dir();
    r.append("/");
    r.append(k.name());
    r
}

/// A successful preparation leaves every kind complete: the stage is past the batches, with
/// no failure, only once the completion markers were found or the batches were built.
pub open spec fn ready_invariant(stage: Stage, failure: Option<Seq<char>>, ready: bool) -> bool {
    &&& (failure is None && (stage == Stage::RemoveLock || stage == Stage::Finished)) ==> ready
    &&& stage == Stage::RemoveTemp ==> failure is Some
}

/// Completion after success: a fresh preparation meets the invariant, and every report
/// keeps it, so a preparation that finishes without failure has found or written the
/// completion markers of every kind.
pub proof fn law_success_leaves_kinds_complete(
    options: ImportOptions,
    stage: Stage,
    failure: Option<Seq<char>>,
    ready: bool,
    o: Outcome,
)
    requires
        ready_invariant(stage, failure, ready),
    ensures
        ready_invariant(Stage::CreateDir, None, false),
        ({
            let (s2, f2) = Preparation::next(options, stage, failure, o);
            ready_invariant(s2, f2, Preparation::next_ready(stage, ready, o))
        }),
{
}

/// Idempotence: when the completion markers of every kind are found, the preparation goes
/// straight to releasing its lock and then finishes, whatever is reported; the batches are
/// neither reset nor rebuilt.
pub proof fn law_complete_import_is_left_alone(
    options: ImportOptions,
    failure: Option<Seq<char>>,
    o: Outcome,
)
    ensures
        Preparation::next(options, Stage::CheckComplete, failure, Outcome::Exists(true)) == (
            Stage::RemoveLock,
            failure,
        ),
        Preparation::next(options, Stage::RemoveLock, failure, o).0 == Stage::Finished,
{
}

/// What gzip decompression of these bytes yields; `None` when they are not a gzip stream.
pub uninterp spec fn gunzip_of(data: Seq<u8>) -> Option<Seq<u8>>;

/// Relies on flate2's `read::GzDecoder`, read to the end: the decompressed bytes of the
/// stream, which depend on the bytes alone, or an error when they are not gzip.
#[verifier::external_body]
fn gunzip(data: &[u8]) -> (r: Result<Vec<u8>, String>)
    ensures
        match r {
            Ok(v) => gunzip_of(data@) == Some(v@),
            Err(_) => gunzip_of(data@) is None,
        },
{
    let mut out = Vec::new();
    match flate2::read::GzDecoder::new(data).read_to_end(&mut out) {
        Ok(_) => Ok(out),
        Err(err) => Err(err.to_string()),
    }
}

/// Expands a delta's gzip archive, as read from disk, into the XML document's bytes.
pub fn decompress_gz(data: &[u8]) -> (r: Result<Vec<u8>, String>)
    ensures
        match r {
            Ok(v) => gunzip_of(data@) == Some(v@),
            Err(_) => gunzip_of(data@) is None,
        },
{
    gunzip(data)
}

// ---------------------------------------------------------------------------------------
// The files of a plan
// ---------------------------------------------------------------------------------------

/// A file that preparing an import writes: where, and what.
#[derive(Debug)]
pub struct OutputFile {
    pub path: String,
    pub content: String,
}

/// `files` are the batch files of one kind of a plan: batch `n` goes to the kind's file
/// numbered `n`.
pub open spec fn batch_files_of(options: ImportOptions, kb: KindBatches, files: Seq<OutputFile>) -> bool {
    &&& files.len() == kb.batches@.len()
    &&& forall|n: int|
        0 <= n < files.len() ==> (#[trigger] files[n]).path@ == options.spec_batch_file(
            kb.kind.spec_name(),
            n as nat,
        ) && files[n].content@ == kb.batches@[n]@
}

impl ImportOptions {
    /// Batches the import's source document, with the import's batch size and change
    /// wrapping, and with the import's source name in the completion markers.
    pub fn prepare_batches(&self, text: &str) -> (r: Result<BatchPlan, BatchError>)
        ensures
            !document_readable(text@) ==> r matches Err(BatchError::Xml(_)),
            document_readable(text@) ==> exists|events: Seq<XmlEvent>|
                #[trigger] document_events(text@, events) && match root_event(events) {
                    None => r matches Err(BatchError::MissingRoot),
                    Some(_) => r matches Ok(plan) && plan_matches(
                        plan,
                        events,
                        self.is_delta(),
                        self.spec_batch_size() as nat,
                        self.spec_filename_base(),
                    ) && distinct_keys(plan.root.spec_attributes()),
                },
    {
        let delta = match &self.osm_file_type {
            OsmFileType::Full(_) => false,
            OsmFileType::Delta(_) => true,
        };
        let base = self.get_filename_base();
        batch_osm_xml(text, delta, self.batch_size(), base.as_str())
    }

    /// The files that one kind's batches are written to, in batch order.
    pub fn batch_files(&self, kb: &KindBatches) -> (r: Vec<OutputFile>)
        ensures
            batch_files_of(*self, *kb, r@),
    {
        let mut files: Vec<OutputFile> = Vec::new();
        let mut n: usize = 0;
        while n < kb.batches.len()
            invariant
                n <= kb.batches.len(),
                files.len() == n,
                forall|m: int|
                    0 <= m < n ==> (#[trigger] files@[m]).path@ == self.spec_batch_file(
                        kb.kind.spec_name(),
                        m as nat,
                    ) && files@[m].content@ == kb.batches@[m]@,
            decreases kb.batches.len() - n,
        {
            let path = self.get_batch_file(kb.kind.name(), n);
            files.push(OutputFile { path, content: kb.batches[n].clone() });
            n = n + 1;
        }
        files
    }

    /// The completion marker of one kind.
    pub fn completion_file(&self, kb: &KindBatches) -> (r: OutputFile)
        ensures
            r.path@ == self.spec_batches_complete_file(kb.kind.spec_name()),
            r.content@ == kb.completion@,
    {
        OutputFile {
            path: self.get_batches_complete_file(kb.kind.name()),
            content: kb.completion.clone(),
        }
    }
}

/// Batch numbering: the batch files of a kind are numbered exactly `0` to `count - 1`,
/// where `count` is the number of the kind's batches, and no two are the same file.
pub proof fn law_batch_files_numbered_from_zero(
    options: ImportOptions,
    kb: KindBatches,
    files: Seq<OutputFile>,
    n: nat,
)
    requires
        batch_files_of(options, kb, files),
    ensures
        forall|i: int, j: int|
            0 <= i < j < files.len() ==> (#[trigger] files[i]).path@ != (#[trigger] files[j]).path@,
        n < kb.batches@.len() <==> exists|i: int|
            0 <= i < files.len() && (#[trigger] files[i]).path@ == options.spec_batch_file(
                kb.kind.spec_name(),
                n,
            ),
{
    let k = kb.kind.spec_name();
    assert forall|i: int, j: int| 0 <= i < j < files.len() implies (#[trigger] files[i]).path@
        != (#[trigger] files[j]).path@ by {
        law_batch_files_distinct(options, k, i as nat, j as nat);
    }
    if n < kb.batches@.len() {
        assert(files[n as int].path@ == options.spec_batch_file(k, n));
    }
    if exists|i: int|
        0 <= i < files.len() && (#[trigger] files[i]).path@ == options.spec_batch_file(k, n) {
        let i = choose|i: int|
            0 <= i < files.len() && (#[trigger] files[i]).path@ == options.spec_batch_file(k, n);
        if i != n {
            law_batch_files_distinct(options, k, i as nat, n);
        }
    }
}

/// Completion markers cite the source: for a plan of the import, each kind's marker is the
/// kind's completion file and says how many batches the kind has and the import's source
/// name.
pub proof fn law_completion_cites_source(
    options: ImportOptions,
    plan: BatchPlan,
    events: Seq<XmlEvent>,
    k: ElementKind,
    file: OutputFile,
)
    requires
        plan_matches(
            plan,
            events,
            options.is_delta(),
            options.spec_batch_size() as nat,
            options.spec_filename_base(),
        ),
        file.path@ == options.spec_batches_complete_file(plan.spec_for(k).kind.spec_name()),
        file.content@ == plan.spec_for(k).completion@,
    ensures
        file.path@ == options.spec_batches_complete_file(k.spec_name()),
        file.content@ == completion_message(
            plan.spec_for(k).batches@.len(),
            options.spec_filename_base(),
        ),
{
    law_completion_counts_batches(
        plan,
        events,
        options.is_delta(),
        options.spec_batch_size() as nat,
        options.spec_filename_base(),
        k,
    );
}

/// The stage, failure and readiness after the reports `outcomes`, in order.
pub open spec fn run(
    options: ImportOptions,
    stage: Stage,
    failure: Option<Seq<char>>,
    ready: bool,
    outcomes: Seq<Outcome>,
) -> (Stage, Option<Seq<char>>, bool)
    decreases outcomes.len(),
{
    if outcomes.len() == 0 {
        (stage, failure, ready)
    } else {
        let (s, f, r) = run(options, stage, failure, ready, outcomes.drop_last());
        let (s2, f2) = Preparation::next(options, s, f, outcomes.last());
        (s2, f2, Preparation::next_ready(s, r, outcomes.last()))
    }
}

/// Completion after success, over a whole run: whatever the reports, a preparation that
/// started afresh and has finished without failure has found the completion markers of
/// every kind, or has built and written the batches and markers of every kind.
pub proof fn law_successful_run_completes_kinds(options: ImportOptions, outcomes: Seq<Outcome>)
    ensures
        ({
            let (s, f, r) = run(options, Stage::CreateDir, None, false, outcomes);
            s == Stage::Finished && f is None ==> r
        }),
{
    lemma_run_keeps_ready_invariant(options, outcomes);
}

proof fn lemma_run_keeps_ready_invariant(options: ImportOptions, outcomes: Seq<Outcome>)
    ensures
        ({
            let (s, f, r) = run(options, Stage::CreateDir, None, false, outcomes);
            ready_invariant(s, f, r)
        }),
    decreases outcomes.len(),
{
    if outcomes.len() > 0 {
        lemma_run_keeps_ready_invariant(options, outcomes.drop_last());
        let (s, f, r) = run(options, Stage::CreateDir, None, false, outcomes.drop_last());
        law_success_leaves_kinds_complete(options, s, f, r, outcomes.last());
    }
}

} // verus!
