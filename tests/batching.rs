use osm_import_rust::{batch_osm_xml, BatchError, ElementKind};

const HEADER: &str = "<?xml version='1.0' encoding='UTF-8'?>\n";

fn count(doc: &str, needle: &str) -> usize {
    doc.matches(needle).count()
}

#[test]
fn happy_path_full_import() {
    let src = r#"<osm generator="g"><node id="1" lat="0" lon="0"/><way id="2"><nd ref="1"/></way></osm>"#;
    let plan = batch_osm_xml(src, false, 500, "010123.osm").unwrap();
    assert_eq!(plan.root.tag, "osm");
    assert_eq!(plan.nodes.batches.len(), 1);
    assert_eq!(
        plan.nodes.batches[0],
        format!(
            "{}<osm generator=\"Chaldal osm-import-rust; g\">\n<node id=\"1\" lat=\"0\" lon=\"0\"/>\n</osm>\n",
            HEADER
        )
    );
    assert_eq!(plan.ways.batches.len(), 1);
    assert_eq!(
        plan.ways.batches[0],
        format!(
            "{}<osm generator=\"Chaldal osm-import-rust; g\">\n<way id=\"2\"><nd ref=\"1\"/></way>\n</osm>\n",
            HEADER
        )
    );
    assert!(plan.relations.batches.is_empty());
    assert_eq!(plan.nodes.completion, "wrote 1 batches from 010123.osm\n");
    assert_eq!(plan.ways.completion, "wrote 1 batches from 010123.osm\n");
    assert_eq!(plan.relations.completion, "wrote 0 batches from 010123.osm\n");
    assert!(plan.for_kind(ElementKind::Relation).kind == ElementKind::Relation);
}

#[test]
fn delta_container_wrapping() {
    let src = r#"<osmChange><modify><node id="5" lat="1" lon="2"/></modify><delete><way id="7"/></delete></osmChange>"#;
    let plan = batch_osm_xml(src, true, 1000, "004_123_456.osc").unwrap();
    assert_eq!(plan.root.tag, "osmChange");
    assert_eq!(
        plan.nodes.batches[0],
        format!(
            "{}<osmChange generator=\"Chaldal osm-import-rust; \">\n<modify>\n<node id=\"5\" lat=\"1\" lon=\"2\"/>\n</modify>\n</osmChange>\n",
            HEADER
        )
    );
    assert!(plan.ways.batches[0].contains("<delete>\n<way id=\"7\"/>\n</delete>"));
    assert_eq!(plan.relations.completion, "wrote 0 batches from 004_123_456.osc\n");
}

#[test]
fn delta_container_wraps_open_elements_too() {
    let src = r#"<osmChange version="0.6"><create><way id="3"><nd ref="1"/><tag k="a" v="b"/></way></create></osmChange>"#;
    let plan = batch_osm_xml(src, true, 1000, "x.osc").unwrap();
    assert!(plan.ways.batches[0]
        .contains("\n<create>\n<way id=\"3\"><nd ref=\"1\"/><tag k=\"a\" v=\"b\"/></way>\n</create>\n"));
}

#[test]
fn containers_are_ordinary_tags_in_full_imports() {
    let src = r#"<osm><create><node id="1"/></create></osm>"#;
    let plan = batch_osm_xml(src, false, 500, "x.osm").unwrap();
    assert!(plan.nodes.batches[0].contains("\n<node id=\"1\"/>\n"));
    assert!(!plan.nodes.batches[0].contains("create"));
}

fn many_nodes(n: usize) -> String {
    let mut s = String::from(r#"<osm version="0.6">"#);
    for i in 0..n {
        s.push_str(&format!(r#"<node id="{}" lat="0" lon="0"/>"#, i));
    }
    s.push_str("</osm>");
    s
}

#[test]
fn batch_boundary_at_501_nodes() {
    let plan = batch_osm_xml(&many_nodes(501), false, 500, "010123.osm").unwrap();
    assert_eq!(plan.nodes.batches.len(), 2);
    assert_eq!(count(&plan.nodes.batches[0], "<node "), 500);
    assert_eq!(count(&plan.nodes.batches[1], "<node "), 1);
    assert!(plan.nodes.batches[1].contains("<node id=\"500\" "));
    assert_eq!(plan.nodes.completion, "wrote 2 batches from 010123.osm\n");
}

#[test]
fn exactly_full_batches_leave_no_empty_batch() {
    let plan = batch_osm_xml(&many_nodes(1000), false, 500, "a.osm").unwrap();
    assert_eq!(plan.nodes.batches.len(), 2);
    assert_eq!(count(&plan.nodes.batches[1], "<node "), 500);
    assert_eq!(plan.nodes.completion, "wrote 2 batches from a.osm\n");
}

#[test]
fn batches_keep_source_order() {
    let plan = batch_osm_xml(&many_nodes(7), false, 3, "a.osm").unwrap();
    assert_eq!(plan.nodes.batches.len(), 3);
    let mut ids = Vec::new();
    for doc in &plan.nodes.batches {
        for line in doc.lines().filter(|l| l.starts_with("<node ")) {
            ids.push(line.to_string());
        }
    }
    let expected: Vec<String> =
        (0..7).map(|i| format!(r#"<node id="{}" lat="0" lon="0"/>"#, i)).collect();
    assert_eq!(ids, expected);
    assert_eq!(count(&plan.nodes.batches[2], "<node "), 1);
}

#[test]
fn generator_is_rewritten() {
    let src = r#"<osm version="0.6" generator="osmium/1.0"><node id="1"/></osm>"#;
    let plan = batch_osm_xml(src, false, 500, "a.osm").unwrap();
    assert!(plan.nodes.batches[0]
        .starts_with(&format!("{}<osm version=\"0.6\" generator=\"Chaldal osm-import-rust; osmium/1.0\">\n", HEADER)));
    assert_eq!(
        plan.root.attributes,
        vec![
            ("version".to_string(), "0.6".to_string()),
            ("generator".to_string(), "Chaldal osm-import-rust; osmium/1.0".to_string())
        ]
    );
}

#[test]
fn missing_generator_is_added() {
    let src = r#"<osm version="0.6"><node id="1"/></osm>"#;
    let plan = batch_osm_xml(src, false, 500, "a.osm").unwrap();
    assert_eq!(
        plan.root.attributes,
        vec![
            ("version".to_string(), "0.6".to_string()),
            ("generator".to_string(), "Chaldal osm-import-rust; ".to_string())
        ]
    );
    assert!(plan.nodes.batches[0].ends_with("\n</osm>\n"));
}

#[test]
fn attribute_values_are_escaped_once() {
    let src = r#"<osm><node id="1"><tag k="name" v="A &amp; B &lt;&quot;x&quot;&gt;"/></node></osm>"#;
    let plan = batch_osm_xml(src, false, 500, "a.osm").unwrap();
    assert!(plan.nodes.batches[0]
        .contains(r#"<node id="1"><tag k="name" v="A &amp; B &lt;&quot;x&quot;&gt;"/></node>"#));
}

#[test]
fn root_attribute_values_are_escaped() {
    let src = r#"<osm note="a&amp;b"><node id="1"/></osm>"#;
    let plan = batch_osm_xml(src, false, 500, "a.osm").unwrap();
    assert_eq!(plan.root.attributes[0].1, "a&b");
    assert!(plan.nodes.batches[0].contains(r#"<osm note="a&amp;b" generator="#));
}

#[test]
fn text_and_cdata_inside_elements() {
    let src = r#"<osm><way id="1">a &lt; b<![CDATA[x<y]]></way>loose text</osm>"#;
    let plan = batch_osm_xml(src, false, 500, "a.osm").unwrap();
    assert!(plan.ways.batches[0].contains("<way id=\"1\">a &lt; b<![CDATA[x<y]]></way>\n"));
    assert!(!plan.ways.batches[0].contains("loose"));
}

#[test]
fn namespace_prefixes_are_dropped_from_tags() {
    let src = r#"<x:osm xmlns:x="u"><x:node id="1"/></x:osm>"#;
    let plan = batch_osm_xml(src, false, 500, "a.osm").unwrap();
    assert_eq!(plan.root.tag, "osm");
    assert_eq!(plan.nodes.batches.len(), 1);
    assert!(plan.nodes.batches[0].contains("\n<node id=\"1\"/>\n"));
}

#[test]
fn missing_root_is_an_error() {
    let r = batch_osm_xml(r#"<data><node id="1"/></data>"#, false, 500, "a.osm");
    assert!(matches!(r, Err(BatchError::MissingRoot)));
}

#[test]
fn empty_root_element_is_not_a_root() {
    let r = batch_osm_xml(r#"<osm/>"#, false, 500, "a.osm");
    assert!(matches!(r, Err(BatchError::MissingRoot)));
}

#[test]
fn malformed_xml_is_an_error() {
    let r = batch_osm_xml(r#"<osm><node id="1"></way></osm>"#, false, 500, "a.osm");
    assert!(matches!(r, Err(BatchError::Xml(_))));
    let r = batch_osm_xml(r#"<osm><node id=1/></osm>"#, false, 500, "a.osm");
    assert!(matches!(r, Err(BatchError::Xml(_))));
}

#[test]
fn elements_of_each_kind_are_batched_apart() {
    let src = r#"<osm><node id="1"/><way id="2"/><relation id="3"><member ref="2"/></relation><node id="4"/></osm>"#;
    let plan = batch_osm_xml(src, false, 500, "a.osm").unwrap();
    assert_eq!(count(&plan.nodes.batches[0], "<node "), 2);
    assert_eq!(count(&plan.ways.batches[0], "<way "), 1);
    assert!(plan.relations.batches[0].contains("<relation id=\"3\"><member ref=\"2\"/></relation>\n"));
    assert_eq!(plan.relations.completion, "wrote 1 batches from a.osm\n");
}

#[test]
fn escaped_values_read_back_unchanged() {
    let src = r#"<osm><node id="1"><tag k="note" v="1 &lt; 2 &amp; &quot;q&quot; &gt; 0"/></node></osm>"#;
    let first = batch_osm_xml(src, false, 500, "a.osm").unwrap();
    let again = batch_osm_xml(&first.nodes.batches[0], false, 500, "a.osm").unwrap();
    let fragment = |doc: &str| doc.lines().find(|l| l.starts_with("<node ")).unwrap().to_string();
    assert_eq!(fragment(&again.nodes.batches[0]), fragment(&first.nodes.batches[0]));
    assert_eq!(
        again.root.attributes,
        vec![(
            "generator".to_string(),
            "Chaldal osm-import-rust; Chaldal osm-import-rust; ".to_string()
        )]
    );
}

#[test]
fn duplicate_attributes_are_an_error() {
    let r = batch_osm_xml(r#"<osm a="1" a="2"><node id="1"/></osm>"#, false, 500, "a.osm");
    assert!(matches!(r, Err(BatchError::Xml(_))));
}

#[test]
fn unknown_entities_are_an_error() {
    let r = batch_osm_xml(r#"<osm><way id="1">x &nbsp; y</way></osm>"#, false, 500, "a.osm");
    assert!(matches!(r, Err(BatchError::Xml(_))));
}

#[test]
fn comments_and_declarations_are_skipped() {
    let src = "<?xml version=\"1.0\"?>\n<!-- c --><osm>\n  <node id=\"1\"><!-- inner --></node>\n</osm>";
    let plan = batch_osm_xml(src, false, 500, "a.osm").unwrap();
    assert!(plan.nodes.batches[0].contains("\n<node id=\"1\"></node>\n"));
}

#[test]
fn tag_names_end_at_whitespace() {
    let src = "<osm\tversion=\"0.6\"><node\nid=\"1\" /></osm>";
    let plan = batch_osm_xml(src, false, 500, "a.osm").unwrap();
    assert_eq!(plan.root.attributes[0], ("version".to_string(), "0.6".to_string()));
    assert!(plan.nodes.batches[0].contains("\n<node id=\"1\"/>\n"));
}
