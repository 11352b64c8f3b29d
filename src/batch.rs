//! Splitting an OSM document into numbered batch documents, one series per element kind.
//!
//! The events of the document drive a small state machine that cuts out each top-level
//! `node`, `way` and `relation` as a text fragment (wrapped in its change container for
//! deltas). The fragments of each kind are then cut into runs of at most `B`, and each run
//! becomes a standalone document under a copy of the source's root element.
use crate::ids::ElementKind;
use crate::text::{
    attr_views, attrs_text, decimal, escape_text, push_attrs, push_escaped_text,
    push_padded_decimal,
};
use crate::xml;
use crate::xml::{
    distinct_keys, document_events, document_readable, lemma_start_keys_distinct, read_events,
    start_attrs, XmlError, XmlEvent,
};
use vstd::prelude::*;

verus! {

// ---------------------------------------------------------------------------------------
// Names
// ---------------------------------------------------------------------------------------

/// The element kind that a tag name denotes, if any.
pub open spec fn kind_of(name: Seq<char>) -> Option<ElementKind> {
    if name == "node"@ {
        Some(ElementKind::Node)
    } else if name == "way"@ {
        Some(ElementKind::Way)
    } else if name == "relation"@ {
        Some(ElementKind::Relation)
    } else {
        None
    }
}

/// The change operations that wrap elements in a delta.
pub open spec fn is_container_name(name: Seq<char>) -> bool {
    name == "create"@ || name == "modify"@ || name == "delete"@
}

/// The root elements that a source document may have.
pub open spec fn is_root_name(name: Seq<char>) -> bool {
    name == "osm"@ || name == "osmChange"@
}

fn same_text(a: &str, b: &str) -> (r: bool)
    ensures
        r == (a@ == b@),
{
    let n = a.unicode_len();
    if n != b.unicode_len() {
        return false;
    }
    let mut i: usize = 0;
    while i < n
        invariant
            n == a@.len() == b@.len(),
            i <= n,
            forall|j: int| 0 <= j < i ==> a@[j] == b@[j],
        decreases n - i,
    {
        if a.get_char(i) != b.get_char(i) {
            return false;
        }
        i = i + 1;
    }
    assert(a@ =~= b@);
    true
}

fn kind_from_name(name: &str) -> (r: Option<ElementKind>)
    ensures
        r == kind_of(name@),
{
    if same_text(name, "node") {
        Some(ElementKind::Node)
    } else if same_text(name, "way") {
        Some(ElementKind::Way)
    } else if same_text(name, "relation") {
        Some(ElementKind::Relation)
    } else {
        None
    }
}

fn container_name(name: &str) -> (r: bool)
    ensures
        r == is_container_name(name@),
{
    same_text(name, "create") || same_text(name, "modify") || same_text(name, "delete")
}

fn root_name(name: &str) -> (r: bool)
    ensures
        r == is_root_name(name@),
{
    same_text(name, "osm") || same_text(name, "osmChange")
}

// ---------------------------------------------------------------------------------------
// Tags
// ---------------------------------------------------------------------------------------

/// `<name attrs` followed by `close` (`>` or `/>`).
pub open spec fn tag_text(name: Seq<char>, attrs: Seq<(String, String)>, close: Seq<char>) -> Seq<
    char,
> {
    "<"@ + name + attrs_text(attr_views(attrs)) + close
}

pub open spec fn end_tag(name: Seq<char>) -> Seq<char> {
    "</"@ + name + ">"@
}

pub open spec fn cdata_text(text: Seq<char>) -> Seq<char> {
    "<![CDATA["@ + text + "]]>"@
}

/// The opening of the change container around an element of a delta, if one is open.
pub open spec fn wrap_open(delta: bool, container: Seq<char>) -> Seq<char> {
    if delta && container.len() > 0 {
        "<"@ + container + ">\n"@
    } else {
        Seq::empty()
    }
}

/// The closing of the change container around an element of a delta, if one is open.
pub open spec fn wrap_close(delta: bool, container: Seq<char>) -> Seq<char> {
    if delta && container.len() > 0 {
        "\n</"@ + container + ">"@
    } else {
        Seq::empty()
    }
}

fn push_tag(out: &mut String, name: &str, attrs: &Vec<(String, String)>, close: &str)
    ensures
        final(out)@ == old(out)@ + tag_text(name@, attrs@, close@),
{
    let ghost start = out@;
    out.append("<");
    out.append(name);
    push_attrs(out, attrs);
    out.append(close);
    assert(out@ =~= start + tag_text(name@, attrs@, close@));
}

fn push_end_tag(out: &mut String, name: &str)
    ensures
        final(out)@ == old(out)@ + end_tag(name@),
{
    let ghost start = out@;
    out.append("</");
    out.append(name);
    out.append(">");
    assert(out@ =~= start + end_tag(name@));
}

// ---------------------------------------------------------------------------------------
// Extraction
// ---------------------------------------------------------------------------------------

/// What the extraction has seen so far.
pub struct Extraction {
    /// Inside a top-level element.
    pub in_element: bool,
    /// Nesting depth inside that element; 1 on the element itself.
    pub depth: nat,
    /// The kind of the element most recently begun.
    pub kind: ElementKind,
    /// The text of the element being collected.
    pub current: Seq<char>,
    /// The open change container of a delta, or empty.
    pub container: Seq<char>,
    /// The finished fragments of each kind, in document order.
    pub nodes: Seq<Seq<char>>,
    pub ways: Seq<Seq<char>>,
    pub relations: Seq<Seq<char>>,
}

impl Extraction {
    pub open spec fn initial() -> Extraction {
        Extraction {
            in_element: false,
            depth: 0,
            kind: ElementKind::Node,
            current: Seq::empty(),
            container: Seq::empty(),
            nodes: Seq::empty(),
            ways: Seq::empty(),
            relations: Seq::empty(),
        }
    }

    /// Inside an element the depth counts at least the element itself.
    pub open spec fn wf(self) -> bool {
        self.in_element ==> self.depth >= 1
    }

    pub open spec fn fragments(self, k: ElementKind) -> Seq<Seq<char>> {
        match k {
            ElementKind::Node => self.nodes,
            ElementKind::Way => self.ways,
            ElementKind::Relation => self.relations,
        }
    }

    /// Adds a finished fragment to the end of its kind's list.
    pub open spec fn emit(self, k: ElementKind, frag: Seq<char>) -> Extraction {
        match k {
            ElementKind::Node => Extraction { nodes: self.nodes.push(frag), ..self },
            ElementKind::Way => Extraction { ways: self.ways.push(frag), ..self },
            ElementKind::Relation => Extraction { relations: self.relations.push(frag), ..self },
        }
    }

    /// The effect of one event.
    pub open spec fn step(self, e: XmlEvent, delta: bool) -> Extraction {
        match e {
            XmlEvent::Start { name, attrs } => match kind_of(name@) {
                Some(k) => Extraction {
                    in_element: true,
                    depth: 1,
                    kind: k,
                    current: wrap_open(delta, self.container) + tag_text(name@, attrs@, ">"@),
                    ..self
                },
                None => if delta && is_container_name(name@) {
                    Extraction { container: name@, ..self }
                } else if self.in_element {
                    Extraction {
                        depth: self.depth + 1,
                        current: self.current + tag_text(name@, attrs@, ">"@),
                        ..self
                    }
                } else {
                    self
                },
            },
            XmlEvent::End { name } => match kind_of(name@) {
                Some(_) => if self.in_element && self.depth == 1 {
                    let frag = self.current + end_tag(name@) + wrap_close(delta, self.container);
                    Extraction { in_element: false, depth: 0, current: frag, ..self }.emit(
                        self.kind,
                        frag,
                    )
                } else if self.in_element {
                    Extraction {
                        depth: (self.depth - 1) as nat,
                        current: self.current + end_tag(name@),
                        ..self
                    }
                } else {
                    self
                },
                None => if delta && is_container_name(name@) {
                    Extraction { container: Seq::empty(), ..self }
                } else if self.in_element && self.depth > 1 {
                    Extraction {
                        depth: (self.depth - 1) as nat,
                        current: self.current + end_tag(name@),
                        ..self
                    }
                } else {
                    self
                },
            },
            XmlEvent::Empty { name, attrs } => match kind_of(name@) {
                Some(k) => {
                    let frag = wrap_open(delta, self.container) + tag_text(name@, attrs@, "/>"@)
                        + wrap_close(delta, self.container);
                    Extraction { kind: k, current: frag, ..self }.emit(k, frag)
                },
                None => if self.in_element {
                    Extraction { current: self.current + tag_text(name@, attrs@, "/>"@), ..self }
                } else {
                    self
                },
            },
            XmlEvent::Text { text } => if self.in_element {
                Extraction { current: self.current + escape_text(text@), ..self }
            } else {
                self
            },
            XmlEvent::CData { text } => if self.in_element {
                Extraction { current: self.current + cdata_text(text@), ..self }
            } else {
                self
            },
        }
    }
}

/// The extraction after all of `events`, in order.
pub open spec fn extract(events: Seq<XmlEvent>, delta: bool) -> Extraction
    decreases events.len(),
{
    if events.len() == 0 {
        Extraction::initial()
    } else {
        extract(events.drop_last(), delta).step(events.last(), delta)
    }
}

/// The top-level elements of kind `k`, as text, in document order.
pub open spec fn fragments_of(events: Seq<XmlEvent>, delta: bool, k: ElementKind) -> Seq<
    Seq<char>,
> {
    extract(events, delta).fragments(k)
}

struct Extractor {
    in_element: bool,
    depth: usize,
    kind: ElementKind,
    current: String,
    container: String,
    nodes: Vec<String>,
    ways: Vec<String>,
    relations: Vec<String>,
}

/// The texts of a list of strings.
pub open spec fn texts(v: Seq<String>) -> Seq<Seq<char>> {
    v.map_values(|s: String| s@)
}

impl View for Extractor {
    type V = Extraction;

    closed spec fn view(&self) -> Extraction {
        Extraction {
            in_element: self.in_element,
            depth: self.depth as nat,
            kind: self.kind,
            current: self.current@,
            container: self.container@,
            nodes: texts(self.nodes@),
            ways: texts(self.ways@),
            relations: texts(self.relations@),
        }
    }
}

impl Extractor {
    fn new() -> (r: Extractor)
        ensures
            r@ == Extraction::initial(),
    {
        let r = Extractor {
            in_element: false,
            depth: 0,
            kind: ElementKind::Node,
            current: String::new(),
            container: String::new(),
            nodes: Vec::new(),
            ways: Vec::new(),
            relations: Vec::new(),
        };
        assert(texts(r.nodes@) =~= Seq::empty());
        assert(texts(r.ways@) =~= Seq::empty());
        assert(texts(r.relations@) =~= Seq::empty());
        r
    }

    fn emit(&mut self, k: ElementKind)
        ensures
            final(self)@ == old(self)@.emit(k, old(self).current@),
    {
        let frag = self.current.clone();
        match k {
            ElementKind::Node => {
                self.nodes.push(frag);
                assert(texts(self.nodes@) =~= texts(old(self).nodes@).push(frag@));
            },
            ElementKind::Way => {
                self.ways.push(frag);
                assert(texts(self.ways@) =~= texts(old(self).ways@).push(frag@));
            },
            ElementKind::Relation => {
                self.relations.push(frag);
                assert(texts(self.relations@) =~= texts(old(self).relations@).push(frag@));
            },
        }
    }

    /// Begins a fresh fragment, opening the change container of a delta if one is open.
    fn begin(&mut self, delta: bool)
        ensures
            final(self)@ == (Extraction {
                current: wrap_open(delta, old(self)@.container),
                ..old(self)@
            }),
    {
        let mut cur = String::new();
        if delta && !self.container.as_str().is_empty() {
            cur.append("<");
            cur.append(self.container.as_str());
            cur.append(">\n");
            assert(cur@ =~= wrap_open(delta, self.container@));
        } else {
            assert(cur@ =~= wrap_open(delta, self.container@));
        }
        self.current = cur;
    }

    /// Closes the change container of a delta, if one is open.
    fn push_wrap_close(&mut self, delta: bool)
        ensures
            final(self)@ == (Extraction {
                current: old(self)@.current + wrap_close(delta, old(self)@.container),
                ..old(self)@
            }),
    {
        let ghost start = self.current@;
        if delta && !self.container.as_str().is_empty() {
            self.current.append("\n</");
            self.current.append(self.container.as_str());
            self.current.append(">");
        }
        assert(self.current@ =~= start + wrap_close(delta, self.container@));
    }

    fn step(&mut self, e: &XmlEvent, delta: bool)
        requires
            old(self)@.depth < usize::MAX,
            old(self)@.wf(),
        ensures
            final(self)@ == old(self)@.step(*e, delta),
            final(self)@.wf(),
            final(self)@.depth <= old(self)@.depth + 1,
    {
        match e {
            XmlEvent::Start { name, attrs } => match kind_from_name(name.as_str()) {
                Some(k) => {
                    self.begin(delta);
                    push_tag(&mut self.current, name.as_str(), attrs, ">");
                    self.in_element = true;
                    self.depth = 1;
                    self.kind = k;
                },
                None => {
                    if delta && container_name(name.as_str()) {
                        self.container = name.clone();
                    } else if self.in_element {
                        push_tag(&mut self.current, name.as_str(), attrs, ">");
                        self.depth = self.depth + 1;
                    }
                },
            },
            XmlEvent::End { name } => match kind_from_name(name.as_str()) {
                Some(_) => {
                    if self.in_element && self.depth == 1 {
                        push_end_tag(&mut self.current, name.as_str());
                        self.push_wrap_close(delta);
                        self.in_element = false;
                        self.depth = 0;
                        let k = self.kind;
                        self.emit(k);
                    } else if self.in_element {
                        push_end_tag(&mut self.current, name.as_str());
                        self.depth = self.depth - 1;
                    }
                },
                None => {
                    if delta && container_name(name.as_str()) {
                        self.container = String::new();
                    } else if self.in_element && self.depth > 1 {
                        push_end_tag(&mut self.current, name.as_str());
                        self.depth = self.depth - 1;
                    }
                },
            },
            XmlEvent::Empty { name, attrs } => match kind_from_name(name.as_str()) {
                Some(k) => {
                    self.begin(delta);
                    push_tag(&mut self.current, name.as_str(), attrs, "/>");
                    self.push_wrap_close(delta);
                    self.kind = k;
                    self.emit(k);
                },
                None => {
                    if self.in_element {
                        push_tag(&mut self.current, name.as_str(), attrs, "/>");
                    }
                },
            },
            XmlEvent::Text { text } => {
                if self.in_element {
                    push_escaped_text(&mut self.current, text.as_str());
                }
            },
            XmlEvent::CData { text } => {
                if self.in_element {
                    let ghost start = self.current@;
                    self.current.append("<![CDATA[");
                    self.current.append(text.as_str());
                    self.current.append("]]>");
                    assert(self.current@ =~= start + cdata_text(text@));
                }
            },
        }
    }
}

/// The fragments of each kind in a document, in document order.
pub struct Fragments {
    pub nodes: Vec<String>,
    pub ways: Vec<String>,
    pub relations: Vec<String>,
}

impl Fragments {
    pub open spec fn spec_of(&self, k: ElementKind) -> Seq<Seq<char>> {
        match k {
            ElementKind::Node => texts(self.nodes@),
            ElementKind::Way => texts(self.ways@),
            ElementKind::Relation => texts(self.relations@),
        }
    }

    pub fn of(&self, k: ElementKind) -> (r: &Vec<String>)
        ensures
            texts(r@) == self.spec_of(k),
    {
        match k {
            ElementKind::Node => &self.nodes,
            ElementKind::Way => &self.ways,
            ElementKind::Relation => &self.relations,
        }
    }
}

/// Runs the extraction over every event and hands back the fragments of each kind.
pub fn extract_fragments(events: &Vec<XmlEvent>, delta: bool) -> (r: Fragments)
    ensures
        forall|k: ElementKind| #[trigger] r.spec_of(k) == fragments_of(events@, delta, k),
{
    let mut x = Extractor::new();
    let mut i: usize = 0;
    while i < events.len()
        invariant
            i <= events.len(),
            x@ == extract(events@.take(i as int), delta),
            x@.wf(),
            x@.depth <= i,
        decreases events.len() - i,
    {
        assert(events@.take(i + 1).drop_last() =~= events@.take(i as int));
        x.step(&events[i], delta);
        i = i + 1;
    }
    assert(events@.take(events.len() as int) =~= events@);
    let r = Fragments { nodes: x.nodes, ways: x.ways, relations: x.relations };
    assert forall|k: ElementKind| #[trigger] r.spec_of(k) == fragments_of(events@, delta, k) by {
        match k {
            ElementKind::Node => {},
            ElementKind::Way => {},
            ElementKind::Relation => {},
        }
    }
    r
}

// ---------------------------------------------------------------------------------------
// Root element
// ---------------------------------------------------------------------------------------

/// The first start tag named `osm` or `osmChange`, as its name and attributes.
pub open spec fn root_event(events: Seq<XmlEvent>) -> Option<(Seq<char>, Seq<(String, String)>)>
    decreases events.len(),
{
    if events.len() == 0 {
        None
    } else {
        match events[0] {
            XmlEvent::Start { name, attrs } => if is_root_name(name@) {
                Some((name@, attrs@))
            } else {
                root_event(events.drop_first())
            },
            _ => root_event(events.drop_first()),
        }
    }
}

/// The token that batch documents put before the source's own `generator`.
pub open spec fn producer_prefix() -> Seq<char> {
    "Chaldal osm-import-rust; "@
}

pub open spec fn has_key(attrs: Seq<(Seq<char>, Seq<char>)>, key: Seq<char>) -> bool {
    exists|i: int| 0 <= i < attrs.len() && (#[trigger] attrs[i]).0 == key
}

/// The source root's attributes with `generator` rewritten to name this producer first,
/// followed by the source's own generator (empty when it had none, in which case the
/// attribute is added at the end).
pub open spec fn root_attributes(attrs: Seq<(Seq<char>, Seq<char>)>) -> Seq<(Seq<char>, Seq<char>)> {
    if has_key(attrs, "generator"@) {
        attrs.map_values(|a: (Seq<char>, Seq<char>)|
            if a.0 == "generator"@ {
                (a.0, producer_prefix() + a.1)
            } else {
                a
            })
    } else {
        attrs.push(("generator"@, producer_prefix()))
    }
}

/// The root element that every batch document carries.
pub struct RootElement {
    pub tag: String,
    pub attributes: Vec<(String, String)>,
}

impl RootElement {
    pub open spec fn spec_attributes(&self) -> Seq<(Seq<char>, Seq<char>)> {
        attr_views(self.attributes@)
    }
}

fn find_root(events: &Vec<XmlEvent>) -> (r: Option<usize>)
    ensures
        match r {
            None => root_event(events@) is None,
            Some(i) => i < events.len() && (events@[i as int] matches XmlEvent::Start {
                name,
                attrs,
            } && root_event(events@) == Some((name@, attrs@))),
        },
{
    let mut i: usize = 0;
    assert(events@.skip(0) =~= events@);
    while i < events.len()
        invariant
            i <= events.len(),
            root_event(events@) == root_event(events@.skip(i as int)),
        decreases events.len() - i,
    {
        assert(events@.skip(i as int).drop_first() =~= events@.skip(i + 1));
        assert(events@.skip(i as int)[0] == events@[i as int]);
        if let XmlEvent::Start { name, attrs } = &events[i] {
            if root_name(name.as_str()) {
                return Some(i);
            }
        }
        i = i + 1;
    }
    assert(events@.skip(i as int).len() == 0);
    None
}

/// Copies the root's attributes, rewriting `generator`.
fn rewrite_root_attributes(attrs: &Vec<(String, String)>) -> (r: Vec<(String, String)>)
    ensures
        attr_views(r@) == root_attributes(attr_views(attrs@)),
{
    let ghost src = attr_views(attrs@);
    let mut out: Vec<(String, String)> = Vec::new();
    let mut found = false;
    let mut i: usize = 0;
    while i < attrs.len()
        invariant
            i <= attrs.len(),
            src == attr_views(attrs@),
            out.len() == i,
            found == has_key(src.take(i as int), "generator"@),
            forall|j: int|
                0 <= j < i ==> (#[trigger] attr_views(out@)[j]) == (if src[j].0 == "generator"@ {
                    (src[j].0, producer_prefix() + src[j].1)
                } else {
                    src[j]
                }),
        decreases attrs.len() - i,
    {
        let ghost before = attr_views(out@);
        let key = attrs[i].0.clone();
        let is_generator = same_text(key.as_str(), "generator");
        if is_generator {
            let mut v = String::from_str("Chaldal osm-import-rust; ");
            v.append(attrs[i].1.as_str());
            out.push((key, v));
            found = true;
        } else {
            out.push((key, attrs[i].1.clone()));
        }
        proof {
            assert(attr_views(out@) =~= before.push(attr_views(out@)[i as int]));
            let t = src.take(i + 1);
            if is_generator {
                assert(t[i as int].0 == "generator"@);
            } else if has_key(t, "generator"@) {
                let w = choose|w: int| 0 <= w < t.len() && (#[trigger] t[w]).0 == "generator"@;
                if w < i {
                    assert(src.take(i as int)[w] == t[w]);
                }
            }
            if has_key(src.take(i as int), "generator"@) {
                let w = choose|w: int|
                    0 <= w < i && (#[trigger] src.take(i as int)[w]).0 == "generator"@;
                assert(t[w] == src.take(i as int)[w]);
            }
        }
        i = i + 1;
    }
    assert(src.take(attrs.len() as int) =~= src);
    if !found {
        assert(attr_views(out@) =~= src) by {
            assert forall|j: int| 0 <= j < src.len() implies attr_views(out@)[j] == src[j] by {
                if src[j].0 == "generator"@ {
                    assert(src.take(attrs.len() as int)[j] == src[j]);
                }
            }
        }
        let ghost before = attr_views(out@);
        out.push((String::from_str("generator"), String::from_str("Chaldal osm-import-rust; ")));
        assert(attr_views(out@) =~= before.push(attr_views(out@)[src.len() as int]));
        assert(attr_views(out@) =~= src.push(("generator"@, producer_prefix())));
    } else {
        assert(attr_views(out@) =~= root_attributes(src));
    }
    out
}

/// Finds the root element of a document and rewrites its `generator`; `None` when the
/// document has no `osm` or `osmChange` start tag.
pub fn parse_root_element(events: &Vec<XmlEvent>) -> (r: Option<RootElement>)
    ensures
        match root_event(events@) {
            None => r is None,
            Some((tag, attrs)) => r matches Some(root) && root.tag@ == tag
                && root.spec_attributes() == root_attributes(attr_views(attrs)),
        },
{
    match find_root(events) {
        None => None,
        Some(i) => match &events[i] {
            XmlEvent::Start { name, attrs } => Some(
                RootElement { tag: name.clone(), attributes: rewrite_root_attributes(attrs) },
            ),
            _ => None,
        },
    }
}

// ---------------------------------------------------------------------------------------
// Batches
// ---------------------------------------------------------------------------------------

/// `items` cut, from the front, into runs of `size`; the last run holds what is left.
pub open spec fn chunks<T>(items: Seq<T>, size: nat) -> Seq<Seq<T>>
    decreases items.len(),
{
    if items.len() == 0 {
        Seq::empty()
    } else if items.len() <= size || size == 0 {
        seq![items]
    } else {
        seq![items.take(size as int)] + chunks(items.skip(size as int), size)
    }
}

/// The first line of every batch document.
pub open spec fn xml_declaration() -> Seq<char> {
    "<?xml version='1.0' encoding='UTF-8'?>\n"@
}

/// Each fragment followed by a line break.
pub open spec fn lines(items: Seq<Seq<char>>) -> Seq<char>
    decreases items.len(),
{
    if items.len() == 0 {
        Seq::empty()
    } else {
        lines(items.drop_last()) + items.last() + "\n"@
    }
}

/// A standalone document: the declaration, the root element with its attributes, the
/// fragments one per line, and the closing root tag.
pub open spec fn batch_document(
    tag: Seq<char>,
    attrs: Seq<(Seq<char>, Seq<char>)>,
    items: Seq<Seq<char>>,
) -> Seq<char> {
    xml_declaration() + "<"@ + tag + attrs_text(attrs) + ">\n"@ + lines(items) + "</"@ + tag
        + ">\n"@
}

/// The batch documents of one kind.
pub open spec fn batch_documents(
    tag: Seq<char>,
    attrs: Seq<(Seq<char>, Seq<char>)>,
    frags: Seq<Seq<char>>,
    size: nat,
) -> Seq<Seq<char>> {
    chunks(frags, size).map_values(|c: Seq<Seq<char>>| batch_document(tag, attrs, c))
}

/// The text of a completion marker.
pub open spec fn completion_message(count: nat, source_base: Seq<char>) -> Seq<char> {
    "wrote "@ + decimal(count) + " batches from "@ + source_base + "\n"@
}

/// Builds one batch document from `items[start..end]`.
pub fn write_batch(root: &RootElement, items: &Vec<String>, start: usize, end: usize) -> (r: String)
    requires
        start <= end <= items.len(),
    ensures
        r@ == batch_document(
            root.tag@,
            root.spec_attributes(),
            texts(items@).subrange(start as int, end as int),
        ),
{
    let mut content = String::from_str("<?xml version='1.0' encoding='UTF-8'?>\n");
    content.append("<");
    content.append(root.tag.as_str());
    push_attrs(&mut content, &root.attributes);
    content.append(">\n");
    let ghost head = content@;
    let mut i: usize = start;
    while i < end
        invariant
            start <= i <= end <= items.len(),
            content@ == head + lines(texts(items@).subrange(start as int, i as int)),
        decreases end - i,
    {
        let ghost before = content@;
        content.append(items[i].as_str());
        content.append("\n");
        proof {
            let t = texts(items@).subrange(start as int, i + 1);
            assert(t.drop_last() =~= texts(items@).subrange(start as int, i as int));
            assert(content@ =~= before + t.last() + "\n"@);
        }
        i = i + 1;
    }
    content.append("</");
    content.append(root.tag.as_str());
    content.append(">\n");
    assert(content@ =~= batch_document(
        root.tag@,
        root.spec_attributes(),
        texts(items@).subrange(start as int, end as int),
    ));
    content
}

/// Cuts `items` into runs of `size` and builds a batch document from each.
pub fn write_batches(root: &RootElement, items: &Vec<String>, size: usize) -> (r: Vec<String>)
    requires
        size > 0,
    ensures
        texts(r@) == batch_documents(
            root.tag@,
            root.spec_attributes(),
            texts(items@),
            size as nat,
        ),
{
    let ghost all = texts(items@);
    let ghost doc = |c: Seq<Seq<char>>| batch_document(root.tag@, root.spec_attributes(), c);
    let mut out: Vec<String> = Vec::new();
    let mut start: usize = 0;
    let n = items.len();
    assert(all.skip(0) =~= all);
    while start < n
        invariant
            n == items.len() == all.len(),
            all == texts(items@),
            size > 0,
            start <= n,
            doc == (|c: Seq<Seq<char>>| batch_document(root.tag@, root.spec_attributes(), c)),
            chunks(all, size as nat).map_values(doc) == texts(out@) + chunks(
                all.skip(start as int),
                size as nat,
            ).map_values(doc),
        decreases n - start,
    {
        let end: usize = if n - start <= size {
            n
        } else {
            start + size
        };
        let d = write_batch(root, items, start, end);
        let ghost rest = all.skip(start as int);
        proof {
            if rest.len() <= size {
                assert(rest =~= all.subrange(start as int, end as int));
                assert(all.skip(end as int).len() == 0);
                assert(chunks(rest, size as nat) == seq![rest]);
            } else {
                assert(rest.take(size as int) =~= all.subrange(start as int, end as int));
                assert(rest.skip(size as int) =~= all.skip(end as int));
            }
            assert(chunks(rest, size as nat) =~= seq![all.subrange(start as int, end as int)]
                + chunks(all.skip(end as int), size as nat));
            assert(chunks(rest, size as nat).map_values(doc) =~= seq![d@] + chunks(
                all.skip(end as int),
                size as nat,
            ).map_values(doc));
        }
        let ghost before = texts(out@);
        out.push(d);
        assert(texts(out@) =~= before.push(d@));
        assert(texts(out@) + chunks(all.skip(end as int), size as nat).map_values(doc)
            =~= before + (seq![d@] + chunks(all.skip(end as int), size as nat).map_values(doc)));
        start = end;
    }
    assert(chunks(all.skip(n as int), size as nat) =~= Seq::<Seq<Seq<char>>>::empty());
    assert(texts(out@) =~= texts(out@) + Seq::<Seq<char>>::empty());
    out
}

// ---------------------------------------------------------------------------------------
// The whole document
// ---------------------------------------------------------------------------------------

/// The batch documents of one kind and the text of its completion marker.
pub struct KindBatches {
    pub kind: ElementKind,
    /// Batch `n` is at index `n`.
    pub batches: Vec<String>,
    pub completion: String,
}

/// Everything that preparing one source document writes.
pub struct BatchPlan {
    pub root: RootElement,
    pub nodes: KindBatches,
    pub ways: KindBatches,
    pub relations: KindBatches,
}

impl BatchPlan {
    pub open spec fn spec_for(&self, k: ElementKind) -> KindBatches {
        match k {
            ElementKind::Node => self.nodes,
            ElementKind::Way => self.ways,
            ElementKind::Relation => self.relations,
        }
    }

    pub fn for_kind(&self, k: ElementKind) -> (r: &KindBatches)
        ensures
            *r == self.spec_for(k),
    {
        match k {
            ElementKind::Node => &self.nodes,
            ElementKind::Way => &self.ways,
            ElementKind::Relation => &self.relations,
        }
    }
}

/// Why a document could not be batched.
#[derive(Debug, Clone)]
pub enum BatchError {
    /// The document is not well-formed XML.
    Xml(XmlError),
    /// The document has no `osm` or `osmChange` element.
    MissingRoot,
}

/// What batching the document with these events writes for kind `k`: the documents, each
/// under the rewritten root, and the completion marker that counts them.
pub open spec fn kind_batches_match(
    kb: KindBatches,
    events: Seq<XmlEvent>,
    delta: bool,
    size: nat,
    source_base: Seq<char>,
    k: ElementKind,
) -> bool {
    match root_event(events) {
        None => false,
        Some((tag, attrs)) => {
            let docs = batch_documents(
                tag,
                root_attributes(attr_views(attrs)),
                fragments_of(events, delta, k),
                size,
            );
            &&& kb.kind == k
            &&& texts(kb.batches@) == docs
            &&& kb.completion@ == completion_message(docs.len(), source_base)
        },
    }
}

/// The plan that batching a document with these events yields.
pub open spec fn plan_matches(
    plan: BatchPlan,
    events: Seq<XmlEvent>,
    delta: bool,
    size: nat,
    source_base: Seq<char>,
) -> bool {
    &&& root_event(events) matches Some((tag, attrs)) && plan.root.tag@ == tag
        && plan.root.spec_attributes() == root_attributes(attr_views(attrs))
    &&& forall|k: ElementKind|
        kind_batches_match(#[trigger] plan.spec_for(k), events, delta, size, source_base, k)
}

fn completion_text(count: usize, source_base: &str) -> (r: String)
    ensures
        r@ == completion_message(count as nat, source_base@),
{
    let mut r = String::from_str("wrote ");
    push_padded_decimal(&mut r, count as u64, 1);
    r.append(" batches from ");
    r.append(source_base);
    r.append("\n");
    r
}

fn kind_batches(
    root: &RootElement,
    frags: &Fragments,
    k: ElementKind,
    size: usize,
    source_base: &str,
) -> (r: KindBatches)
    requires
        size > 0,
    ensures
        r.kind == k,
        texts(r.batches@) == batch_documents(
            root.tag@,
            root.spec_attributes(),
            frags.spec_of(k),
            size as nat,
        ),
        r.completion@ == completion_message(r.batches@.len(), source_base@),
{
    let batches = write_batches(root, frags.of(k), size);
    assert(texts(batches@).len() == batches@.len());
    let completion = completion_text(batches.len(), source_base);
    KindBatches { kind: k, batches, completion }
}

/// Batches an already-read document: `delta` selects change-container wrapping, `size`
/// is the number of elements per batch, `source_base` the source's file name that the
/// completion markers cite.
pub fn build_batches(events: &Vec<XmlEvent>, delta: bool, size: usize, source_base: &str) -> (r:
    Result<BatchPlan, BatchError>)
    requires
        size > 0,
    ensures
        match r {
            Ok(plan) => plan_matches(plan, events@, delta, size as nat, source_base@),
            Err(e) => e == BatchError::MissingRoot && root_event(events@) is None,
        },
{
    let root = match parse_root_element(events) {
        Some(root) => root,
        None => {
            return Err(BatchError::MissingRoot);
        },
    };
    let frags = extract_fragments(events, delta);
    let nodes = kind_batches(&root, &frags, ElementKind::Node, size, source_base);
    let ways = kind_batches(&root, &frags, ElementKind::Way, size, source_base);
    let relations = kind_batches(&root, &frags, ElementKind::Relation, size, source_base);
    let plan = BatchPlan { root, nodes, ways, relations };
    assert forall|k: ElementKind|
        kind_batches_match(
            #[trigger] plan.spec_for(k),
            events@,
            delta,
            size as nat,
            source_base@,
            k,
        ) by {
        match k {
            ElementKind::Node => {},
            ElementKind::Way => {},
            ElementKind::Relation => {},
        }
    }
    Ok(plan)
}

/// Reads `text` and batches it. Fails with an XML error exactly when the document does not
/// read, with `MissingRoot` when it has no root element, and otherwise yields the plan that
/// the document's events determine, whose root attributes hold each key once.
pub fn batch_osm_xml(text: &str, delta: bool, size: usize, source_base: &str) -> (r: Result<
    BatchPlan,
    BatchError,
>)
    requires
        size > 0,
    ensures
        !document_readable(text@) ==> r matches Err(BatchError::Xml(_)),
        document_readable(text@) ==> exists|events: Seq<XmlEvent>|
            #[trigger] document_events(text@, events) && match root_event(events) {
                None => r matches Err(BatchError::MissingRoot),
                Some(_) => r matches Ok(plan) && plan_matches(
                    plan,
                    events,
                    delta,
                    size as nat,
                    source_base@,
                ) && distinct_keys(plan.root.spec_attributes()),
            },
{
    let events = match read_events(text) {
        Ok(events) => events,
        Err(e) => {
            return Err(BatchError::Xml(e));
        },
    };
    let r = build_batches(&events, delta, size, source_base);
    proof {
        if let Some((tag, attrs)) = root_event(events@) {
            let i = lemma_root_is_start(events@);
            let raws = xml::raw_events_of(text@)->0;
            lemma_start_keys_distinct(raws, events@, i);
            lemma_root_attributes_distinct(attr_views(attrs));
        }
    }
    r
}

/// The root comes from a start tag of the events.
proof fn lemma_root_is_start(events: Seq<XmlEvent>) -> (i: int)
    requires
        root_event(events) is Some,
    ensures
        0 <= i < events.len(),
        start_attrs(events[i]) == Some((root_event(events)->0).1),
    decreases events.len(),
{
    match events[0] {
        XmlEvent::Start { name, attrs } => if is_root_name(name@) {
            0
        } else {
            let j = lemma_root_is_start(events.drop_first());
            j + 1
        },
        _ => {
            let j = lemma_root_is_start(events.drop_first());
            j + 1
        },
    }
}

/// Rewriting `generator` keeps each key once.
proof fn lemma_root_attributes_distinct(attrs: Seq<(Seq<char>, Seq<char>)>)
    requires
        distinct_keys(attrs),
    ensures
        distinct_keys(root_attributes(attrs)),
{
    let r = root_attributes(attrs);
    if has_key(attrs, "generator"@) {
        assert forall|i: int, j: int| 0 <= i < j < r.len() implies (#[trigger] r[i]).0 != (
        #[trigger] r[j]).0 by {
            assert(r[i].0 == attrs[i].0);
            assert(r[j].0 == attrs[j].0);
        }
    } else {
        assert forall|i: int, j: int| 0 <= i < j < r.len() implies (#[trigger] r[i]).0 != (
        #[trigger] r[j]).0 by {
            if j == attrs.len() {
                assert(r[i] == attrs[i]);
                assert(attrs[i].0 != "generator"@);
            } else {
                assert(r[i] == attrs[i]);
                assert(r[j] == attrs[j]);
            }
        }
    }
}

// ---------------------------------------------------------------------------------------
// Properties of batching
// ---------------------------------------------------------------------------------------

/// Every run but the last holds exactly `size` items; the last holds between one and
/// `size`.
pub proof fn lemma_chunk_sizes<T>(items: Seq<T>, size: nat)
    requires
        size > 0,
    ensures
        forall|i: int|
            0 <= i < chunks(items, size).len() - 1 ==> (#[trigger] chunks(items, size)[i]).len()
                == size,
        chunks(items, size).len() > 0 ==> 1 <= chunks(items, size).last().len() <= size,
        chunks(items, size).len() == 0 <==> items.len() == 0,
    decreases items.len(),
{
    if items.len() > size {
        let rest = items.skip(size as int);
        lemma_chunk_sizes(rest, size);
        let c = chunks(items, size);
        assert(c == seq![items.take(size as int)] + chunks(rest, size));
        assert forall|i: int| 0 <= i < c.len() - 1 implies (#[trigger] c[i]).len() == size by {
            if i > 0 {
                assert(c[i] == chunks(rest, size)[i - 1]);
            }
        }
    }
}

/// Concatenating the runs in order gives back the items.
pub proof fn lemma_chunks_flatten<T>(items: Seq<T>, size: nat)
    requires
        size > 0,
    ensures
        chunks(items, size).flatten() == items,
    decreases items.len(),
{
    if items.len() == 0 {
        assert(chunks(items, size).flatten() =~= items);
    } else if items.len() <= size {
        let c = chunks(items, size);
        assert(c == seq![items]);
        assert(c.drop_first() =~= Seq::<Seq<T>>::empty());
        assert(c.drop_first().flatten() == Seq::<T>::empty());
        assert(c.flatten() == c.first() + c.drop_first().flatten());
        assert(c.flatten() =~= items);
    } else {
        let rest = items.skip(size as int);
        lemma_chunks_flatten(rest, size);
        let c = chunks(items, size);
        assert(c.drop_first() =~= chunks(rest, size));
        assert(c.flatten() == c.first() + c.drop_first().flatten());
        assert(items =~= items.take(size as int) + rest);
    }
}

/// The elements that batch `n` of kind `k` holds.
pub open spec fn batch_elements(
    events: Seq<XmlEvent>,
    delta: bool,
    size: nat,
    k: ElementKind,
) -> Seq<Seq<Seq<char>>> {
    chunks(fragments_of(events, delta, k), size)
}

/// Batch size bound: in a plan, every batch of a kind but the last holds exactly `size`
/// top-level elements of that kind, and the last holds between one and `size`.
pub proof fn law_batch_size_bound(
    plan: BatchPlan,
    events: Seq<XmlEvent>,
    delta: bool,
    size: nat,
    source_base: Seq<char>,
    k: ElementKind,
)
    requires
        size > 0,
        plan_matches(plan, events, delta, size, source_base),
    ensures
        plan.spec_for(k).batches@.len() == batch_elements(events, delta, size, k).len(),
        forall|n: int|
            0 <= n < plan.spec_for(k).batches@.len() - 1 ==> (#[trigger] batch_elements(
                events,
                delta,
                size,
                k,
            )[n]).len() == size,
        plan.spec_for(k).batches@.len() > 0 ==> 1 <= batch_elements(
            events,
            delta,
            size,
            k,
        ).last().len() <= size,
{
    assert(kind_batches_match(plan.spec_for(k), events, delta, size, source_base, k));
    lemma_chunk_sizes(fragments_of(events, delta, k), size);
    assert(texts(plan.spec_for(k).batches@).len() == plan.spec_for(k).batches@.len());
}

/// Order and multiplicity are kept: concatenating in order the elements of all batches of
/// a kind gives exactly the top-level elements of that kind in the source, in source
/// order; and each batch document is built from its batch's elements.
pub proof fn law_batches_keep_elements(
    plan: BatchPlan,
    events: Seq<XmlEvent>,
    delta: bool,
    size: nat,
    source_base: Seq<char>,
    k: ElementKind,
)
    requires
        size > 0,
        plan_matches(plan, events, delta, size, source_base),
    ensures
        batch_elements(events, delta, size, k).flatten() == fragments_of(events, delta, k),
        forall|n: int|
            0 <= n < plan.spec_for(k).batches@.len() ==> (#[trigger] plan.spec_for(
                k,
            ).batches@[n])@ == batch_document(
                plan.root.tag@,
                plan.root.spec_attributes(),
                batch_elements(events, delta, size, k)[n],
            ),
{
    assert(kind_batches_match(plan.spec_for(k), events, delta, size, source_base, k));
    lemma_chunks_flatten(fragments_of(events, delta, k), size);
    assert forall|n: int| 0 <= n < plan.spec_for(k).batches@.len() implies (#[trigger] plan.spec_for(
        k,
    ).batches@[n])@ == batch_document(
        plan.root.tag@,
        plan.root.spec_attributes(),
        batch_elements(events, delta, size, k)[n],
    ) by {
        assert(texts(plan.spec_for(k).batches@)[n] == plan.spec_for(k).batches@[n]@);
    }
}

/// Root fidelity: every batch document opens with the XML declaration and the source's
/// root tag carrying the rewritten root attributes, and ends by closing that tag.
pub proof fn law_batch_documents_framed(
    plan: BatchPlan,
    events: Seq<XmlEvent>,
    delta: bool,
    size: nat,
    source_base: Seq<char>,
    k: ElementKind,
    n: int,
)
    requires
        size > 0,
        plan_matches(plan, events, delta, size, source_base),
        0 <= n < plan.spec_for(k).batches@.len(),
    ensures
        ({
            let doc = plan.spec_for(k).batches@[n]@;
            let head = xml_declaration() + "<"@ + plan.root.tag@ + attrs_text(
                plan.root.spec_attributes(),
            ) + ">\n"@;
            let tail = "</"@ + plan.root.tag@ + ">\n"@;
            &&& root_event(events) matches Some((tag, attrs)) && plan.root.tag@ == tag
                && plan.root.spec_attributes() == root_attributes(attr_views(attrs))
            &&& doc.len() >= head.len() + tail.len()
            &&& doc.take(head.len() as int) == head
            &&& doc.skip(doc.len() - tail.len()) == tail
        }),
{
    law_batches_keep_elements(plan, events, delta, size, source_base, k);
    let doc = plan.spec_for(k).batches@[n]@;
    let head = xml_declaration() + "<"@ + plan.root.tag@ + attrs_text(plan.root.spec_attributes())
        + ">\n"@;
    let tail = "</"@ + plan.root.tag@ + ">\n"@;
    let body = lines(batch_elements(events, delta, size, k)[n]);
    assert(doc =~= head + body + tail);
    assert(doc.take(head.len() as int) =~= head);
    assert(doc.skip(doc.len() - tail.len()) =~= tail);
}

/// Completion: the plan holds, for each kind, a completion marker that states how many
/// batches of that kind there are and cites the source's file name.
pub proof fn law_completion_counts_batches(
    plan: BatchPlan,
    events: Seq<XmlEvent>,
    delta: bool,
    size: nat,
    source_base: Seq<char>,
    k: ElementKind,
)
    requires
        plan_matches(plan, events, delta, size, source_base),
    ensures
        plan.spec_for(k).kind == k,
        plan.spec_for(k).completion@ == completion_message(
            plan.spec_for(k).batches@.len(),
            source_base,
        ),
{
    assert(kind_batches_match(plan.spec_for(k), events, delta, size, source_base, k));
    assert(texts(plan.spec_for(k).batches@).len() == plan.spec_for(k).batches@.len());
}

} // verus!
