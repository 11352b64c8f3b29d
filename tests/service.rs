use osm_import_rust::pipeline::{decompress_gz, Action, Outcome, Preparation, Stage};
use osm_import_rust::{
    batch_file_status, batch_osm_xml, get_import_options, BatchFileProbe, BatchFileStatus,
    BatchResponse, ImportType, OSMImportService, OsmFileType,
};
use std::io::Write;

#[test]
fn ping_answers_pong() {
    assert_eq!(OSMImportService.ping(), "Pong");
}

#[test]
fn import_options_from_request() {
    let o = get_import_options(Some(ImportType::FullDate("010123".to_string()))).unwrap();
    assert!(matches!(o.osm_file_type, OsmFileType::Full(_)));
    assert_eq!(o.base_path, "./data/");
    assert_eq!(o.get_import_dir(), "./data/full/010123");
    let o = get_import_options(Some(ImportType::DeltaAbc("001/002/003".to_string()))).unwrap();
    assert_eq!(o.get_import_dir(), "./data/delta/001_002_003");
    let e = get_import_options(Some(ImportType::FullDate("1-1-23".to_string()))).unwrap_err();
    assert_eq!(e, "Invalid date format: 1-1-23 (expected ddmmyy)");
    let e = get_import_options(Some(ImportType::DeltaAbc("1/2/3".to_string()))).unwrap_err();
    assert_eq!(e, "Invalid ABC format: 1/2/3 (expected AAA/BBB/CCC)");
    let e = get_import_options(None).unwrap_err();
    assert_eq!(e, "import type is unknown");
}

#[test]
fn oracle_outcomes() {
    assert!(matches!(
        batch_file_status(BatchFileProbe::Read("x".to_string()), false),
        BatchFileStatus::FileReadSuccessfully(c) if c == "x"
    ));
    assert!(matches!(
        batch_file_status(BatchFileProbe::Read("x".to_string()), true),
        BatchFileStatus::FileReadSuccessfully(_)
    ));
    assert!(matches!(
        batch_file_status(BatchFileProbe::Unreadable, true),
        BatchFileStatus::FileReadError(m) if m == "Failed to read batch file"
    ));
    assert!(matches!(
        batch_file_status(BatchFileProbe::Missing, true),
        BatchFileStatus::FileWillNeverExist
    ));
    assert!(matches!(
        batch_file_status(BatchFileProbe::Missing, false),
        BatchFileStatus::FileDoesNotExistYet
    ));
}

#[test]
fn responses_for_each_status() {
    let s = OSMImportService;
    let (r, start) = s.batch_response(BatchFileStatus::FileReadSuccessfully("doc".to_string()));
    assert!(matches!(r, BatchResponse::BatchContent(c) if c == "doc"));
    assert!(!start);
    let (r, start) = s.batch_response(BatchFileStatus::FileReadError("bad".to_string()));
    assert!(matches!(r, BatchResponse::Error(m) if m == "bad"));
    assert!(!start);
    let (r, start) = s.batch_response(BatchFileStatus::FileWillNeverExist);
    assert!(matches!(r, BatchResponse::BatchesComplete(m) if m.is_empty()));
    assert!(!start);
    let (r, start) = s.batch_response(BatchFileStatus::FileDoesNotExistYet);
    assert!(matches!(r, BatchResponse::BatchesPending(m) if m.is_empty()));
    assert!(start);
}

fn answer(docs: &[String], n: usize) -> BatchResponse {
    let probe = match docs.get(n) {
        Some(d) => BatchFileProbe::Read(d.clone()),
        None => BatchFileProbe::Missing,
    };
    OSMImportService.batch_response(batch_file_status(probe, true)).0
}

#[test]
fn availability_after_completion() {
    let mut src = String::from("<osm>");
    for i in 0..501 {
        src.push_str(&format!(r#"<node id="{}"/>"#, i));
    }
    src.push_str("</osm>");
    let plan = batch_osm_xml(&src, false, 500, "010123.osm").unwrap();
    match answer(&plan.nodes.batches, 0) {
        BatchResponse::BatchContent(c) => {
            assert_eq!(c, plan.nodes.batches[0]);
            assert_eq!(c.matches("<node ").count(), 500);
        }
        other => panic!("unexpected {:?}", other),
    }
    assert!(matches!(answer(&plan.nodes.batches, 2), BatchResponse::BatchesComplete(_)));
    match answer(&plan.nodes.batches, 1) {
        BatchResponse::BatchContent(c) => assert_eq!(c.matches("<node ").count(), 1),
        other => panic!("unexpected {:?}", other),
    }
}

fn full_options() -> osm_import_rust::ImportOptions {
    get_import_options(Some(ImportType::FullDate("010123".to_string()))).unwrap()
}

fn delta_options() -> osm_import_rust::ImportOptions {
    get_import_options(Some(ImportType::DeltaAbc("004/123/456".to_string()))).unwrap()
}

#[test]
fn existing_lock_suppresses_a_second_preparation() {
    assert!(Preparation::start(full_options(), true).is_none());
    let p = Preparation::start(full_options(), false).unwrap();
    assert!(p.stage == Stage::CreateDir);
}

#[test]
fn two_requests_that_both_see_no_lock_both_start() {
    // The lock only guards against a preparation whose lock file is already written: two
    // requests that both look before either writes it each start one. This is accepted.
    let first = Preparation::start(full_options(), false);
    let second = Preparation::start(full_options(), false);
    assert!(first.is_some() && second.is_some());
}

fn path_of(a: &Action) -> String {
    format!("{:?}", a)
}

#[test]
fn full_preparation_from_scratch() {
    let mut p = Preparation::start(full_options(), false).unwrap();
    let steps = vec![
        (Outcome::Done, "CreateDir"),
        (Outcome::Done, "WriteLock"),
        (Outcome::Exists(false), "CheckExists"),
        (Outcome::Done, "Download"),
        (Outcome::Exists(false), "CheckExists"),
        (Outcome::Size(5000), "MeasureFile"),
        (Outcome::Done, "Convert"),
        (Outcome::Done, "Rename"),
        (Outcome::Exists(false), "CheckAllExist"),
        (Outcome::Done, "ResetDir"),
        (Outcome::Done, "BuildBatches"),
        (Outcome::Done, "RemoveLock"),
    ];
    for (outcome, name) in steps {
        let a = p.action();
        assert!(path_of(&a).starts_with(name), "{:?} is not {}", a, name);
        p.advance(outcome);
    }
    assert!(p.batches_ready);
    assert!(matches!(p.action(), Action::Finish { outcome: Ok(()) }));
}

#[test]
fn full_preparation_actions_name_the_import_files() {
    let mut p = Preparation::start(full_options(), false).unwrap();
    assert!(matches!(p.action(), Action::CreateDir { path } if path == "./data/full/010123"));
    p.advance(Outcome::Done);
    assert!(matches!(p.action(), Action::WriteLock { path } if path == "./data/full/010123/lock"));
    p.advance(Outcome::Done);
    p.advance(Outcome::Exists(false));
    match p.action() {
        Action::Download { url, dest } => {
            assert_eq!(url, "https://download.geofabrik.de/asia/bangladesh-010123.osm.pbf");
            assert_eq!(dest, "./data/full/010123/010123.osm.pbf");
        }
        other => panic!("unexpected {:?}", other),
    }
    p.advance(Outcome::Done);
    p.advance(Outcome::Exists(false));
    p.advance(Outcome::Size(1000));
    match p.action() {
        Action::Convert { src, dest } => {
            assert_eq!(src, "./data/full/010123/010123.osm.pbf");
            assert_eq!(dest, "./data/full/010123/010123.osm.temp");
        }
        other => panic!("unexpected {:?}", other),
    }
    p.advance(Outcome::Done);
    p.advance(Outcome::Done);
    match p.action() {
        Action::CheckAllExist { paths } => assert_eq!(
            paths,
            vec![
                "./data/full/010123/batches/node/010123.osm.batches_complete".to_string(),
                "./data/full/010123/batches/way/010123.osm.batches_complete".to_string(),
                "./data/full/010123/batches/relation/010123.osm.batches_complete".to_string(),
            ]
        ),
        other => panic!("unexpected {:?}", other),
    }
    p.advance(Outcome::Exists(false));
    match p.action() {
        Action::ResetDir { path, kind_dirs } => {
            assert_eq!(path, "./data/full/010123/batches");
            assert_eq!(kind_dirs[2], "./data/full/010123/batches/relation");
        }
        other => panic!("unexpected {:?}", other),
    }
}

#[test]
fn small_pbf_fails_and_releases_the_lock() {
    let mut p = Preparation::start(full_options(), false).unwrap();
    for o in [Outcome::Done, Outcome::Done, Outcome::Exists(true), Outcome::Exists(false)] {
        p.advance(o);
    }
    assert!(matches!(p.action(), Action::MeasureFile { .. }));
    p.advance(Outcome::Size(999));
    assert!(matches!(p.action(), Action::RemoveLock { .. }));
    p.advance(Outcome::Done);
    assert!(matches!(
        p.action(),
        Action::Finish { outcome: Err(m) } if m == "Downloaded PBF file appears to be invalid (too small)"
    ));
    assert!(!p.batches_ready);
}

#[test]
fn failed_conversion_removes_the_temp_file() {
    let mut p = Preparation::start(full_options(), false).unwrap();
    for o in [
        Outcome::Done,
        Outcome::Done,
        Outcome::Exists(true),
        Outcome::Exists(false),
        Outcome::Size(2000),
    ] {
        p.advance(o);
    }
    p.advance(Outcome::Failed("no osmium".to_string()));
    assert!(matches!(p.action(), Action::RemoveFile { path } if path == "./data/full/010123/010123.osm.temp"));
    p.advance(Outcome::Done);
    assert!(matches!(p.action(), Action::RemoveLock { .. }));
    p.advance(Outcome::Failed("gone".to_string()));
    match p.action() {
        Action::Finish { outcome: Err(m) } => assert!(m.starts_with("PBF to XML conversion failed")),
        other => panic!("unexpected {:?}", other),
    }
}

#[test]
fn lock_failure_ends_without_removing_it() {
    let mut p = Preparation::start(delta_options(), false).unwrap();
    p.advance(Outcome::Done);
    p.advance(Outcome::Failed("read-only".to_string()));
    assert!(matches!(p.action(), Action::Finish { outcome: Err(m) } if m == "read-only"));
}

#[test]
fn delta_preparation_decompresses() {
    let mut p = Preparation::start(delta_options(), false).unwrap();
    for o in [Outcome::Done, Outcome::Done, Outcome::Exists(false), Outcome::Done, Outcome::Exists(false)] {
        p.advance(o);
    }
    match p.action() {
        Action::Decompress { src, dest } => {
            assert_eq!(src, "./data/delta/004_123_456/004_123_456.osc.gz");
            assert_eq!(dest, "./data/delta/004_123_456/004_123_456.osc");
        }
        other => panic!("unexpected {:?}", other),
    }
}

#[test]
fn completed_import_is_not_rebuilt() {
    let mut p = Preparation::start(delta_options(), false).unwrap();
    for o in [Outcome::Done, Outcome::Done, Outcome::Exists(true), Outcome::Exists(true)] {
        p.advance(o);
    }
    assert!(matches!(p.action(), Action::CheckAllExist { .. }));
    p.advance(Outcome::Exists(true));
    assert!(matches!(p.action(), Action::RemoveLock { path } if path == "./data/delta/004_123_456/lock"));
    p.advance(Outcome::Done);
    assert!(matches!(p.action(), Action::Finish { outcome: Ok(()) }));
    assert!(p.batches_ready);
}

#[test]
fn gzip_archives_are_expanded() {
    let text = b"<osmChange><create><node id=\"1\"/></create></osmChange>";
    let mut enc = flate2::write::GzEncoder::new(Vec::new(), flate2::Compression::default());
    enc.write_all(text).unwrap();
    let gz = enc.finish().unwrap();
    assert_ne!(gz, text.to_vec());
    assert_eq!(decompress_gz(&gz).unwrap(), text.to_vec());
    assert!(decompress_gz(b"not gzip at all").is_err());
}

#[test]
fn plan_files_are_laid_out_for_the_import() {
    let options = full_options();
    let mut src = String::from("<osm>");
    for i in 0..1001 {
        src.push_str(&format!(r#"<node id="{}"/>"#, i));
    }
    src.push_str("</osm>");
    let plan = options.prepare_batches(&src).unwrap();
    let files = options.batch_files(&plan.nodes);
    let paths: Vec<&str> = files.iter().map(|f| f.path.as_str()).collect();
    assert_eq!(
        paths,
        vec![
            "./data/full/010123/batches/node/010123.osm.batch_000000.xml",
            "./data/full/010123/batches/node/010123.osm.batch_000001.xml",
            "./data/full/010123/batches/node/010123.osm.batch_000002.xml",
        ]
    );
    assert_eq!(files[2].content, plan.nodes.batches[2]);
    assert_eq!(files[2].content.matches("<node ").count(), 1);
    let complete = options.completion_file(&plan.nodes);
    assert_eq!(complete.path, "./data/full/010123/batches/node/010123.osm.batches_complete");
    assert_eq!(complete.content, "wrote 3 batches from 010123.osm\n");
    let none = options.completion_file(&plan.relations);
    assert_eq!(none.content, "wrote 0 batches from 010123.osm\n");
    assert!(options.batch_files(&plan.relations).is_empty());
}

#[test]
fn delta_plan_uses_delta_size_and_name() {
    let options = delta_options();
    let mut src = String::from("<osmChange><create>");
    for i in 0..1001 {
        src.push_str(&format!(r#"<node id="{}"/>"#, i));
    }
    src.push_str("</create></osmChange>");
    let plan = options.prepare_batches(&src).unwrap();
    assert_eq!(plan.nodes.batches.len(), 2);
    assert_eq!(plan.nodes.batches[0].matches("<create>").count(), 1000);
    assert_eq!(plan.nodes.completion, "wrote 2 batches from 004_123_456.osc\n");
}
