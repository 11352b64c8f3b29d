use osm_import_rust::{DeltaAbc, FullDate, ImportOptions, OsmFileType};

fn full(date: &str) -> ImportOptions {
    ImportOptions {
        osm_file_type: OsmFileType::Full(FullDate::new(date.to_string()).unwrap()),
        base_path: "./data/".to_string(),
    }
}

fn delta(abc: &str) -> ImportOptions {
    ImportOptions {
        osm_file_type: OsmFileType::Delta(DeltaAbc::new(abc.to_string()).unwrap()),
        base_path: "./data/".to_string(),
    }
}

#[test]
fn full_date_accepts_six_digits() {
    let d = FullDate::new("010123".to_string()).unwrap();
    assert_eq!(d.as_str(), "010123");
}

#[test]
fn full_date_rejects_other_shapes() {
    for bad in ["01012", "0101234", "01a123", "", " 010123", "010123\n"] {
        let e = FullDate::new(bad.to_string()).unwrap_err();
        assert_eq!(e, format!("Invalid date format: {} (expected ddmmyy)", bad));
    }
}

#[test]
fn delta_accepts_triple() {
    let d = DeltaAbc::new("004/123/456".to_string()).unwrap();
    assert_eq!(d.as_str(), "004/123/456");
    assert_eq!(d.as_underscore(), "004_123_456");
}

#[test]
fn delta_rejects_other_shapes() {
    for bad in ["004/123/45", "004_123_456", "004/123/4567", "a04/123/456", "004/123/456/"] {
        let e = DeltaAbc::new(bad.to_string()).unwrap_err();
        assert_eq!(e, format!("Invalid ABC format: {} (expected AAA/BBB/CCC)", bad));
    }
}

#[test]
fn full_import_paths() {
    let o = full("010123");
    assert_eq!(o.get_import_type(), "full");
    assert_eq!(o.get_import_scope(), "010123");
    assert_eq!(o.get_import_dir(), "./data/full/010123");
    assert_eq!(o.get_filename_base(), "010123.osm");
    assert_eq!(o.get_lock_file(), "./data/full/010123/lock");
    assert_eq!(
        o.get_batch_file("node", 0),
        "./data/full/010123/batches/node/010123.osm.batch_000000.xml"
    );
    assert_eq!(
        o.get_batch_file("way", 42),
        "./data/full/010123/batches/way/010123.osm.batch_000042.xml"
    );
    assert_eq!(
        o.get_batches_complete_file("relation"),
        "./data/full/010123/batches/relation/010123.osm.batches_complete"
    );
    assert_eq!(o.get_source_archive(), "./data/full/010123/010123.osm.pbf");
    assert_eq!(o.get_source_xml(), "./data/full/010123/010123.osm");
    assert_eq!(o.get_batches_dir(), "./data/full/010123/batches");
    assert_eq!(
        o.get_source_url(),
        "https://download.geofabrik.de/asia/bangladesh-010123.osm.pbf"
    );
    assert_eq!(o.batch_size(), 500);
}

#[test]
fn delta_import_paths() {
    let o = delta("004/123/456");
    assert_eq!(o.get_import_type(), "delta");
    assert_eq!(o.get_import_scope(), "004_123_456");
    assert_eq!(o.get_import_dir(), "./data/delta/004_123_456");
    assert_eq!(o.get_filename_base(), "004_123_456.osc");
    assert_eq!(o.get_lock_file(), "./data/delta/004_123_456/lock");
    assert_eq!(
        o.get_batch_file("node", 7),
        "./data/delta/004_123_456/batches/node/004_123_456.osc.batch_000007.xml"
    );
    assert_eq!(
        o.get_batches_complete_file("way"),
        "./data/delta/004_123_456/batches/way/004_123_456.osc.batches_complete"
    );
    assert_eq!(o.get_source_archive(), "./data/delta/004_123_456/004_123_456.osc.gz");
    assert_eq!(o.get_source_xml(), "./data/delta/004_123_456/004_123_456.osc");
    assert_eq!(
        o.get_source_url(),
        "https://download.geofabrik.de/asia/bangladesh-updates/004/123/456.osc.gz"
    );
    assert_eq!(o.batch_size(), 1000);
}

#[test]
fn batch_numbers_beyond_six_digits_widen() {
    let o = full("311299");
    assert_eq!(
        o.get_batch_file("node", 999999),
        "./data/full/311299/batches/node/311299.osm.batch_999999.xml"
    );
    assert_eq!(
        o.get_batch_file("node", 1234567),
        "./data/full/311299/batches/node/311299.osm.batch_1234567.xml"
    );
}

#[test]
fn batch_files_are_numbered_distinctly() {
    let o = full("010123");
    let names: Vec<String> = (0..1200).map(|n| o.get_batch_file("node", n)).collect();
    let mut sorted = names.clone();
    sorted.sort();
    sorted.dedup();
    assert_eq!(sorted.len(), names.len());
}
