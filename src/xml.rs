//! Reading an XML document into a list of events, through quick-xml.
//!
//! quick-xml reads the document into its raw events (the text of each tag, end tag,
//! character data and CDATA section), parses a tag's attributes and resolves references in
//! character data. What a tag's name is, and which events batching reads, is decided here.
use crate::text::attr_views;
use quick_xml::escape::unescape;
use quick_xml::events::attributes::Attributes;
use quick_xml::events::Event;
use quick_xml::Reader;
use vstd::prelude::*;

verus! {

/// The kind of a raw event of quick-xml's reader.
#[derive(Debug, Clone, Copy, PartialEq, Eq, Structural)]
pub enum RawKind {
    /// A start tag; its text is the tag's content between `<` and `>`.
    Start,
    /// An end tag; its text is the tag's name.
    End,
    /// A self-closing tag; its text is the tag's content between `<` and `/>`.
    Empty,
    /// Character data, still escaped.
    Text,
    /// A CDATA section's content.
    CData,
    /// A declaration, comment, processing instruction or doctype.
    Other,
}

/// The raw events that quick-xml's reader, with whitespace-only text dropped, reads from a
/// document up to its end; `None` when it reports an error first.
pub uninterp spec fn raw_events_of(text: Seq<char>) -> Option<Seq<(RawKind, Seq<char>)>>;

/// The attributes, as key and unescaped value in order, that quick-xml reads from the
/// attribute part of a tag; `None` when it reports an error.
pub uninterp spec fn attributes_of(text: Seq<char>) -> Option<Seq<(Seq<char>, Seq<char>)>>;

/// Character data with its entity and character references resolved by quick-xml;
/// `None` when a reference cannot be resolved.
pub uninterp spec fn unescaped_of(text: Seq<char>) -> Option<Seq<char>>;

pub open spec fn raw_views(v: Seq<(RawKind, String)>) -> Seq<(RawKind, Seq<char>)> {
    v.map_values(|p: (RawKind, String)| (p.0, p.1@))
}

/// No key occurs twice.
pub open spec fn distinct_keys(attrs: Seq<(Seq<char>, Seq<char>)>) -> bool {
    forall|i: int, j: int|
        0 <= i < j < attrs.len() ==> (#[trigger] attrs[i]).0 != (#[trigger] attrs[j]).0
}

/// Relies on `quick_xml::Reader::from_str` with `trim_text`, read with `read_event` up to
/// `Eof`: each event's kind and text (`Event` dereferences to its bytes), which depend on
/// the document alone, or the first error.
#[verifier::external_body]
fn raw_events(text: &str) -> (r: Result<Vec<(RawKind, String)>, String>)
    ensures
        match r {
            Ok(v) => raw_events_of(text@) == Some(raw_views(v@)),
            Err(_) => raw_events_of(text@) is None,
        },
{
    let mut reader = Reader::from_str(text);
    reader.config_mut().trim_text(true);
    let mut out = Vec::new();
    loop {
        let event = match reader.read_event().map_err(|err| err.to_string())? {
            Event::Eof => return Ok(out),
            ev @ Event::Start(_) => (RawKind::Start, ev),
            ev @ Event::End(_) => (RawKind::End, ev),
            ev @ Event::Empty(_) => (RawKind::Empty, ev),
            ev @ Event::Text(_) => (RawKind::Text, ev),
            ev @ Event::CData(_) => (RawKind::CData, ev),
            ev => (RawKind::Other, ev),
        };
        out.push((event.0, String::from_utf8_lossy(&event.1).into_owned()));
    }
}

/// Relies on `quick_xml::events::attributes::Attributes::new`, iterated to its end, with
/// `Attribute::unescape_value`: the attributes of a tag's attribute part, which depend on
/// that text alone, or the first error. The iterator checks for duplicates, so a key
/// occurs at most once.
#[verifier::external_body]
fn attributes(text: &str) -> (r: Result<Vec<(String, String)>, String>)
    ensures
        match r {
            Ok(v) => attributes_of(text@) == Some(attr_views(v@)) && distinct_keys(
                attr_views(v@),
            ),
            Err(_) => attributes_of(text@) is None,
        },
{
    let mut out = Vec::new();
    for a in Attributes::new(text, 0) {
        let a = a.map_err(|err| err.to_string())?;
        let value = a.unescape_value().map_err(|err| err.to_string())?;
        out.push((String::from_utf8_lossy(a.key.as_ref()).into_owned(), value.into_owned()));
    }
    Ok(out)
}

/// Relies on `quick_xml::escape::unescape`: the text with its references resolved, which
/// depends on the text alone, or an error.
#[verifier::external_body]
fn unescape_text(text: &str) -> (r: Result<String, String>)
    ensures
        match r {
            Ok(s) => unescaped_of(text@) == Some(s@),
            Err(_) => unescaped_of(text@) is None,
        },
{
    match unescape(text) {
        Ok(s) => Ok(s.into_owned()),
        Err(err) => Err(err.to_string()),
    }
}

/// One event of a document, with names stripped of namespace prefixes, attribute values
/// and character data unescaped. Declarations, comments, processing instructions and
/// doctypes carry nothing that batching reads and are not represented.
#[derive(Debug, Clone)]
pub enum XmlEvent {
    Start { name: String, attrs: Vec<(String, String)> },
    End { name: String },
    Empty { name: String, attrs: Vec<(String, String)> },
    Text { text: String },
    CData { text: String },
}

/// Why a document could not be read.
#[derive(Debug, Clone)]
pub enum XmlError {
    /// The reader's own message.
    Syntax(String),
}

// ---------------------------------------------------------------------------------------
// Names
// ---------------------------------------------------------------------------------------

/// The whitespace that ends a tag's name.
pub open spec fn is_xml_space(c: char) -> bool {
    c == ' ' || c == '\r' || c == '\n' || c == '\t'
}

/// `k` is where a tag's name ends: the first whitespace, or the end of the text.
pub open spec fn is_name_end(s: Seq<char>, k: int) -> bool {
    &&& 0 <= k <= s.len()
    &&& forall|j: int| 0 <= j < k ==> !is_xml_space(#[trigger] s[j])
    &&& (k == s.len() || is_xml_space(s[k]))
}

pub open spec fn name_end(s: Seq<char>) -> int {
    choose|k: int| is_name_end(s, k)
}

/// `k` is the first `:` of a name.
pub open spec fn is_prefix_end(s: Seq<char>, k: int) -> bool {
    &&& 0 <= k < s.len()
    &&& s[k] == ':'
    &&& forall|j: int| 0 <= j < k ==> #[trigger] s[j] != ':'
}

/// A name without its namespace prefix: everything after the first `:`, if there is one.
pub open spec fn local_part(s: Seq<char>) -> Seq<char> {
    if exists|k: int| is_prefix_end(s, k) {
        s.skip((choose|k: int| is_prefix_end(s, k)) + 1)
    } else {
        s
    }
}

/// The local name of a tag from its content.
pub open spec fn tag_name(raw: Seq<char>) -> Seq<char> {
    local_part(raw.take(name_end(raw)))
}

/// The attribute part of a tag's content.
pub open spec fn tag_rest(raw: Seq<char>) -> Seq<char> {
    raw.skip(name_end(raw))
}

proof fn lemma_name_end_unique(s: Seq<char>, k: int)
    requires
        is_name_end(s, k),
    ensures
        name_end(s) == k,
{
    let m = name_end(s);
    assert(is_name_end(s, m));
    if m < k {
        assert(!is_xml_space(s[m]));
    } else if k < m {
        assert(!is_xml_space(s[k]));
    }
}

proof fn lemma_prefix_end_unique(s: Seq<char>, k: int)
    requires
        is_prefix_end(s, k),
    ensures
        local_part(s) == s.skip(k + 1),
{
    let m = choose|m: int| is_prefix_end(s, m);
    assert(is_prefix_end(s, m));
    if m < k {
        assert(s[m] != ':');
    } else if k < m {
        assert(s[k] != ':');
    }
}

fn space_at(s: &str, k: usize) -> (r: bool)
    requires
        k < s@.len(),
    ensures
        r == is_xml_space(s@[k as int]),
{
    let c = s.get_char(k);
    c == ' ' || c == '\r' || c == '\n' || c == '\t'
}

/// Splits a tag's content into its name and its attribute part.
fn split_tag(raw: &str) -> (r: (String, String))
    ensures
        r.0@ == raw@.take(name_end(raw@)),
        r.1@ == tag_rest(raw@),
{
    let n = raw.unicode_len();
    let mut k: usize = 0;
    while k < n && !space_at(raw, k)
        invariant
            n == raw@.len(),
            k <= n,
            forall|j: int| 0 <= j < k ==> !is_xml_space(#[trigger] raw@[j]),
        decreases n - k,
    {
        k = k + 1;
    }
    proof {
        lemma_name_end_unique(raw@, k as int);
    }
    (String::from_str(raw.substring_char(0, k)), String::from_str(raw.substring_char(k, n)))
}

/// The name without its namespace prefix.
fn local_name(name: &str) -> (r: String)
    ensures
        r@ == local_part(name@),
{
    let n = name.unicode_len();
    let mut k: usize = 0;
    while k < n
        invariant
            n == name@.len(),
            k <= n,
            forall|j: int| 0 <= j < k ==> #[trigger] name@[j] != ':',
        decreases n - k,
    {
        if name.get_char(k) == ':' {
            proof {
                lemma_prefix_end_unique(name@, k as int);
            }
            return String::from_str(name.substring_char(k + 1, n));
        }
        k = k + 1;
    }
    assert(!exists|m: int| is_prefix_end(name@, m));
    assert(name@.subrange(0, n as int) =~= name@);
    String::from_str(name)
}

// ---------------------------------------------------------------------------------------
// Events
// ---------------------------------------------------------------------------------------

/// Whether a raw event can be turned into an event: its attributes or references must
/// read.
pub open spec fn convertible(kind: RawKind, raw: Seq<char>) -> bool {
    match kind {
        RawKind::Start | RawKind::Empty => attributes_of(tag_rest(raw)) is Some,
        RawKind::Text => unescaped_of(raw) is Some,
        _ => true,
    }
}

/// `e` is the event that a raw event becomes.
pub open spec fn converts_to(kind: RawKind, raw: Seq<char>, e: XmlEvent) -> bool {
    match kind {
        RawKind::Start => e matches XmlEvent::Start { name, attrs } && name@ == tag_name(raw)
            && attributes_of(tag_rest(raw)) == Some(attr_views(attrs@)) && distinct_keys(
            attr_views(attrs@),
        ),
        RawKind::Empty => e matches XmlEvent::Empty { name, attrs } && name@ == tag_name(raw)
            && attributes_of(tag_rest(raw)) == Some(attr_views(attrs@)) && distinct_keys(
            attr_views(attrs@),
        ),
        RawKind::End => e matches XmlEvent::End { name } && name@ == local_part(raw),
        RawKind::Text => e matches XmlEvent::Text { text } && unescaped_of(raw) == Some(text@),
        RawKind::CData => e matches XmlEvent::CData { text } && text@ == raw,
        RawKind::Other => false,
    }
}

/// Every raw event can be turned into an event.
pub open spec fn all_convertible(raws: Seq<(RawKind, Seq<char>)>) -> bool {
    forall|i: int| 0 <= i < raws.len() ==> convertible(#[trigger] raws[i].0, raws[i].1)
}

/// `evs` are the raw events turned into events, in order, with the ones of kind `Other`
/// left out.
pub open spec fn events_from(raws: Seq<(RawKind, Seq<char>)>, evs: Seq<XmlEvent>) -> bool
    decreases raws.len(),
{
    if raws.len() == 0 {
        evs.len() == 0
    } else if raws.last().0 == RawKind::Other {
        events_from(raws.drop_last(), evs)
    } else {
        &&& evs.len() > 0
        &&& converts_to(raws.last().0, raws.last().1, evs.last())
        &&& events_from(raws.drop_last(), evs.drop_last())
    }
}

/// quick-xml reads the document to its end, and every tag's attributes and every
/// reference in character data read too.
pub open spec fn document_readable(text: Seq<char>) -> bool {
    raw_events_of(text) matches Some(raws) && all_convertible(raws)
}

/// `evs` are the events of the document.
pub open spec fn document_events(text: Seq<char>, evs: Seq<XmlEvent>) -> bool {
    raw_events_of(text) matches Some(raws) && all_convertible(raws) && events_from(raws, evs)
}

/// Turns one raw event into an event; `None` for the kinds that batching does not read.
fn convert(kind: RawKind, raw: &str) -> (r: Result<Option<XmlEvent>, XmlError>)
    ensures
        kind == RawKind::Other ==> r matches Ok(None),
        kind != RawKind::Other && convertible(kind, raw@) ==> (r matches Ok(Some(e))
            && converts_to(kind, raw@, e)),
        !convertible(kind, raw@) ==> r is Err,
{
    match kind {
        RawKind::Start | RawKind::Empty => {
            let (qname, rest) = split_tag(raw);
            let name = local_name(qname.as_str());
            let attrs = match attributes(rest.as_str()) {
                Ok(attrs) => attrs,
                Err(msg) => {
                    return Err(XmlError::Syntax(msg));
                },
            };
            if kind == RawKind::Start {
                Ok(Some(XmlEvent::Start { name, attrs }))
            } else {
                Ok(Some(XmlEvent::Empty { name, attrs }))
            }
        },
        RawKind::End => Ok(Some(XmlEvent::End { name: local_name(raw) })),
        RawKind::Text => match unescape_text(raw) {
            Ok(text) => Ok(Some(XmlEvent::Text { text })),
            Err(msg) => Err(XmlError::Syntax(msg)),
        },
        RawKind::CData => Ok(Some(XmlEvent::CData { text: String::from_str(raw) })),
        RawKind::Other => Ok(None),
    }
}

/// Reads every event of `text` up to its end: the events of the document exactly when it
/// reads, an error otherwise.
pub fn read_events(text: &str) -> (r: Result<Vec<XmlEvent>, XmlError>)
    ensures
        match r {
            Ok(v) => document_events(text@, v@),
            Err(_) => !document_readable(text@),
        },
{
    let raws = match raw_events(text) {
        Ok(raws) => raws,
        Err(msg) => {
            return Err(XmlError::Syntax(msg));
        },
    };
    let ghost rv = raw_views(raws@);
    let mut events: Vec<XmlEvent> = Vec::new();
    let mut i: usize = 0;
    while i < raws.len()
        invariant
            i <= raws.len(),
            rv == raw_views(raws@),
            raw_events_of(text@) == Some(rv),
            forall|j: int| 0 <= j < i ==> convertible(#[trigger] rv[j].0, rv[j].1),
            events_from(rv.take(i as int), events@),
        decreases raws.len() - i,
    {
        let kind = raws[i].0;
        assert(rv[i as int] == (raws@[i as int].0, raws@[i as int].1@));
        let ghost t = rv.take(i + 1);
        assert(t.drop_last() =~= rv.take(i as int));
        assert(t.last() == rv[i as int]);
        match convert(kind, raws[i].1.as_str()) {
            Ok(Some(e)) => {
                let ghost before = events@;
                events.push(e);
                assert(events@.drop_last() =~= before);
            },
            Ok(None) => {},
            Err(e) => {
                assert(!convertible(rv[i as int].0, rv[i as int].1));
                assert(!all_convertible(rv));
                return Err(e);
            },
        }
        i = i + 1;
    }
    assert(rv.take(raws.len() as int) =~= rv);
    Ok(events)
}

/// The attributes that a start tag carries, if `e` is one.
pub open spec fn start_attrs(e: XmlEvent) -> Option<Seq<(String, String)>> {
    match e {
        XmlEvent::Start { attrs, .. } => Some(attrs@),
        _ => None,
    }
}

/// In the events of a document, no start tag carries a key twice.
pub proof fn lemma_start_keys_distinct(raws: Seq<(RawKind, Seq<char>)>, evs: Seq<XmlEvent>, i: int)
    requires
        events_from(raws, evs),
        0 <= i < evs.len(),
        start_attrs(evs[i]) is Some,
    ensures
        distinct_keys(attr_views(start_attrs(evs[i])->0)),
    decreases raws.len(),
{
    if raws.len() == 0 {
    } else if raws.last().0 == RawKind::Other {
        lemma_start_keys_distinct(raws.drop_last(), evs, i);
    } else if i == evs.len() - 1 {
    } else {
        assert(evs.drop_last()[i] == evs[i]);
        lemma_start_keys_distinct(raws.drop_last(), evs.drop_last(), i);
    }
}

} // verus!
