//! The DICOM-XML document model: an ordered sequence of XML events
//! mirroring the dialect the external DICOM toolkit reads and writes
//! (`<file-format>` holding an optional `<meta-header>` and a `<data-set>`
//! of `<element tag=".." vr=".." name="..">body</element>` entries).
//!
//! The model supports lookup by (tag, name), idempotent element insertion
//! before the close of the data set, conditional meta-header synthesis, and
//! the two built-in skeletons used for worklist and image conversion.

use vstd::prelude::*;

use crate::gdt::{
    spec_empty_gdt_file, spec_empty_patient, GdtBasicDiagnosticsObject, GdtBasicDiagnosticsV,
    GdtFile, GdtFileV, GdtPatientGender, GdtPatientObject, GdtPatientV,
};
use crate::strutil::{div100, str_eq, utf8_len};
use xml::reader::EventReader;
use xml::reader::XmlEvent as ReadEvent;
use xml::writer::EventWriter;
use xml::writer::XmlEvent as WriteEvent;

verus! {

/// One XML attribute.
#[derive(Debug, Clone, PartialEq)]
pub struct XmlAttr {
    pub name: String,
    pub value: String,
}

/// One XML event: element start with attributes, element end, or character
/// data. Names are local names; the toolkit dialect uses no namespaces.
#[derive(Debug, Clone, PartialEq)]
pub enum XmlNode {
    Start { name: String, attributes: Vec<XmlAttr> },
    End { name: String },
    Text { content: String },
}

#[verifier::ext_equal]
pub struct XmlAttrV {
    pub name: Seq<char>,
    pub value: Seq<char>,
}

#[verifier::ext_equal]
pub enum XmlNodeV {
    Start { name: Seq<char>, attributes: Seq<XmlAttrV> },
    End { name: Seq<char> },
    Text { content: Seq<char> },
}

impl View for XmlAttr {
    type V = XmlAttrV;

    open spec fn view(&self) -> XmlAttrV {
        XmlAttrV { name: self.name@, value: self.value@ }
    }
}

impl DeepView for XmlAttr {
    type V = XmlAttrV;

    open spec fn deep_view(&self) -> XmlAttrV {
        self.view()
    }
}

impl View for XmlNode {
    type V = XmlNodeV;

    open spec fn view(&self) -> XmlNodeV {
        match self {
            XmlNode::Start { name, attributes } => XmlNodeV::Start {
                name: name@,
                attributes: attributes.deep_view(),
            },
            XmlNode::End { name } => XmlNodeV::End { name: name@ },
            XmlNode::Text { content } => XmlNodeV::Text { content: content@ },
        }
    }
}

impl DeepView for XmlNode {
    type V = XmlNodeV;

    open spec fn deep_view(&self) -> XmlNodeV {
        self.view()
    }
}

/// A DICOM element to insert: tag, value representation, name, and body.
#[derive(Debug, Clone, PartialEq)]
pub struct DcmElement {
    pub tag: String,
    pub vr: String,
    pub name: String,
    pub body: String,
}

pub struct DcmElementV {
    pub tag: Seq<char>,
    pub vr: Seq<char>,
    pub name: Seq<char>,
    pub body: Seq<char>,
}

impl View for DcmElement {
    type V = DcmElementV;

    open spec fn view(&self) -> DcmElementV {
        DcmElementV { tag: self.tag@, vr: self.vr@, name: self.name@, body: self.body@ }
    }
}

/// The two transfer syntaxes this system emits skeletons for.
#[derive(Debug, Clone, Copy, PartialEq, Eq, Structural)]
pub enum DcmTransferType {
    JPEGBaseline,
    LittleEndianExplicit,
}

/// Image formats the DICOM toolkit can extract.
#[derive(Debug, Clone, Copy, PartialEq, Eq, Structural)]
pub enum DCMImageFormat {
    Jpeg,
    Png,
}

/// Errors of XML reading and writing, with the underlying message.
#[derive(Debug, Clone, PartialEq)]
pub enum XmlError {
    Read(String),
    Write(String),
}

// ---------------------------------------------------------------------------
// Lookup
// ---------------------------------------------------------------------------

/// Value of the first attribute called `name`.
pub open spec fn spec_attr_value(attrs: Seq<XmlAttrV>, name: Seq<char>) -> Option<Seq<char>>
    decreases attrs.len(),
{
    if attrs.len() == 0 {
        None
    } else if attrs[0].name == name {
        Some(attrs[0].value)
    } else {
        spec_attr_value(attrs.skip(1), name)
    }
}

/// True when `n` is the start of an `element` whose `tag` and `name`
/// attributes are the given pair; element identity is that pair.
pub open spec fn spec_is_element_with(n: XmlNodeV, tag: Seq<char>, name: Seq<char>) -> bool {
    match n {
        XmlNodeV::Start { name: en, attributes } => en == "element"@ && spec_attr_value(
            attributes,
            "tag"@,
        ) == Some(tag) && spec_attr_value(attributes, "name"@) == Some(name),
        _ => false,
    }
}

/// True when the document holds an element with this (tag, name) identity.
pub open spec fn spec_xml_contains(doc: Seq<XmlNodeV>, tag: Seq<char>, name: Seq<char>) -> bool {
    exists|i: int| 0 <= i < doc.len() && spec_is_element_with(#[trigger] doc[i], tag, name)
}

/// Index of the first element with this identity.
pub open spec fn spec_find_element(doc: Seq<XmlNodeV>, tag: Seq<char>, name: Seq<char>) -> Option<
    int,
>
    decreases doc.len(),
{
    if doc.len() == 0 {
        None
    } else if spec_is_element_with(doc[0], tag, name) {
        Some(0)
    } else {
        match spec_find_element(doc.skip(1), tag, name) {
            None => None,
            Some(j) => Some(j + 1),
        }
    }
}

/// Index of the first end event with the given element name.
pub open spec fn spec_find_end(doc: Seq<XmlNodeV>, name: Seq<char>) -> Option<int>
    decreases doc.len(),
{
    if doc.len() == 0 {
        None
    } else if doc[0] matches XmlNodeV::End { name: n } && n == name {
        Some(0)
    } else {
        match spec_find_end(doc.skip(1), name) {
            None => None,
            Some(j) => Some(j + 1),
        }
    }
}

/// Index of the first start event with the given element name.
pub open spec fn spec_find_start(doc: Seq<XmlNodeV>, name: Seq<char>) -> Option<int>
    decreases doc.len(),
{
    if doc.len() == 0 {
        None
    } else if doc[0] matches XmlNodeV::Start { name: n, .. } && n == name {
        Some(0)
    } else {
        match spec_find_start(doc.skip(1), name) {
            None => None,
            Some(j) => Some(j + 1),
        }
    }
}

/// Body of the first element with this identity: the character data right
/// after its start event, `None` when the element is absent or empty.
pub open spec fn spec_get_element_body(
    doc: Seq<XmlNodeV>,
    name: Seq<char>,
    tag: Seq<char>,
) -> Option<Seq<char>> {
    match spec_find_element(doc, tag, name) {
        None => None,
        Some(i) => {
            if i + 1 < doc.len() {
                match doc[i + 1] {
                    XmlNodeV::Text { content } => Some(content),
                    _ => None,
                }
            } else {
                None
            }
        },
    }
}

/// Value of the first attribute called `name`, if any.
pub fn value_of_attribute(attrs: &Vec<XmlAttr>, name: &str) -> (r: Option<String>)
    ensures
        match r {
            Some(v) => spec_attr_value(attrs.deep_view(), name@) == Some(v@),
            None => spec_attr_value(attrs.deep_view(), name@) == None::<Seq<char>>,
        },
{
    let ghost dv: Seq<XmlAttrV> = attrs.deep_view();
    let mut i: usize = 0;
    proof {
        assert(dv.skip(0) =~= dv);
    }
    while i < attrs.len()
        invariant
            0 <= i <= attrs@.len(),
            dv == attrs.deep_view(),
            dv.len() == attrs@.len(),
            forall|j: int| 0 <= j < attrs@.len() ==> #[trigger] dv[j] == attrs@[j]@,
            spec_attr_value(dv, name@) == spec_attr_value(dv.skip(i as int), name@),
        decreases attrs@.len() - i,
    {
        proof {
            assert(dv.skip(i as int)[0] == dv[i as int]);
            assert(dv.skip(i as int).skip(1) =~= dv.skip(i + 1));
        }
        if str_eq(attrs[i].name.as_str(), name) {
            return Some(attrs[i].value.clone());
        }
        i = i + 1;
    }
    proof {
        assert(dv.skip(dv.len() as int) =~= Seq::<XmlAttrV>::empty());
    }
    None
}

/// True when the start event `n` is an `element` with this identity.
fn is_element_with(n: &XmlNode, tag: &str, name: &str) -> (r: bool)
    ensures
        r == spec_is_element_with(n@, tag@, name@),
{
    match n {
        XmlNode::Start { name: en, attributes } => {
            if !str_eq(en.as_str(), "element") {
                return false;
            }
            let tv = value_of_attribute(attributes, "tag");
            let nv = value_of_attribute(attributes, "name");
            match (tv, nv) {
                (Some(t), Some(m)) => str_eq(t.as_str(), tag) && str_eq(m.as_str(), name),
                _ => false,
            }
        },
        _ => false,
    }
}

/// Index of the first element with this identity, if any.
fn find_element(events: &Vec<XmlNode>, tag: &str, name: &str) -> (r: Option<usize>)
    ensures
        match r {
            Some(i) => i < events@.len() && spec_find_element(events.deep_view(), tag@, name@)
                == Some(i as int),
            None => spec_find_element(events.deep_view(), tag@, name@) == None::<int>,
        },
{
    let ghost dv: Seq<XmlNodeV> = events.deep_view();
    let mut i: usize = 0;
    proof {
        assert(dv.skip(0) =~= dv);
    }
    while i < events.len()
        invariant
            0 <= i <= events@.len(),
            dv == events.deep_view(),
            dv.len() == events@.len(),
            forall|j: int| 0 <= j < events@.len() ==> #[trigger] dv[j] == events@[j]@,
            spec_find_element(dv, tag@, name@) == match spec_find_element(
                dv.skip(i as int),
                tag@,
                name@,
            ) {
                None => None::<int>,
                Some(j) => Some(j + i),
            },
        decreases events@.len() - i,
    {
        proof {
            assert(dv.skip(i as int)[0] == dv[i as int]);
            assert(dv.skip(i as int).skip(1) =~= dv.skip(i + 1));
        }
        if is_element_with(&events[i], tag, name) {
            return Some(i);
        }
        i = i + 1;
    }
    proof {
        assert(dv.skip(dv.len() as int) =~= Seq::<XmlNodeV>::empty());
    }
    None
}

/// The first element index witnesses containment; absence refutes it.
proof fn lemma_find_element_contains(doc: Seq<XmlNodeV>, tag: Seq<char>, name: Seq<char>)
    ensures
        match spec_find_element(doc, tag, name) {
            Some(i) => 0 <= i < doc.len() && spec_is_element_with(doc[i], tag, name)
                && spec_xml_contains(doc, tag, name),
            None => !spec_xml_contains(doc, tag, name),
        },
    decreases doc.len(),
{
    if doc.len() == 0 {
    } else if spec_is_element_with(doc[0], tag, name) {
    } else {
        lemma_find_element_contains(doc.skip(1), tag, name);
        match spec_find_element(doc.skip(1), tag, name) {
            Some(j) => {
                assert(doc.skip(1)[j] == doc[j + 1]);
            },
            None => {
                assert forall|i: int|
                    0 <= i < doc.len() implies !spec_is_element_with(#[trigger] doc[i], tag, name) by {
                    if i > 0 {
                        assert(doc.skip(1)[i - 1] == doc[i]);
                    }
                }
            },
        }
    }
}

/// True when the document holds an element with this identity.
pub fn xml_contains(xml_events: &Vec<XmlNode>, tag: &str, name: &str) -> (r: bool)
    ensures
        r == spec_xml_contains(xml_events.deep_view(), tag@, name@),
{
    proof {
        lemma_find_element_contains(xml_events.deep_view(), tag@, name@);
    }
    match find_element(xml_events, tag, name) {
        Some(_) => true,
        None => false,
    }
}

/// Index of the first end event with the given name, if any.
pub(crate) fn find_end(events: &Vec<XmlNode>, name: &str) -> (r: Option<usize>)
    ensures
        match r {
            Some(i) => i < events@.len() && spec_find_end(events.deep_view(), name@) == Some(
                i as int,
            ),
            None => spec_find_end(events.deep_view(), name@) == None::<int>,
        },
{
    let ghost dv: Seq<XmlNodeV> = events.deep_view();
    let mut i: usize = 0;
    proof {
        assert(dv.skip(0) =~= dv);
    }
    while i < events.len()
        invariant
            0 <= i <= events@.len(),
            dv == events.deep_view(),
            dv.len() == events@.len(),
            forall|j: int| 0 <= j < events@.len() ==> #[trigger] dv[j] == events@[j]@,
            spec_find_end(dv, name@) == match spec_find_end(dv.skip(i as int), name@) {
                None => None::<int>,
                Some(j) => Some(j + i),
            },
        decreases events@.len() - i,
    {
        proof {
            assert(dv.skip(i as int)[0] == dv[i as int]);
            assert(dv.skip(i as int).skip(1) =~= dv.skip(i + 1));
        }
        let hit: bool = match &events[i] {
            XmlNode::End { name: n } => str_eq(n.as_str(), name),
            _ => false,
        };
        if hit {
            return Some(i);
        }
        i = i + 1;
    }
    proof {
        assert(dv.skip(dv.len() as int) =~= Seq::<XmlNodeV>::empty());
    }
    None
}

/// Index of the first start event with the given name, if any.
fn find_start(events: &Vec<XmlNode>, name: &str) -> (r: Option<usize>)
    ensures
        match r {
            Some(i) => i < events@.len() && spec_find_start(events.deep_view(), name@) == Some(
                i as int,
            ),
            None => spec_find_start(events.deep_view(), name@) == None::<int>,
        },
{
    let ghost dv: Seq<XmlNodeV> = events.deep_view();
    let mut i: usize = 0;
    proof {
        assert(dv.skip(0) =~= dv);
    }
    while i < events.len()
        invariant
            0 <= i <= events@.len(),
            dv == events.deep_view(),
            dv.len() == events@.len(),
            forall|j: int| 0 <= j < events@.len() ==> #[trigger] dv[j] == events@[j]@,
            spec_find_start(dv, name@) == match spec_find_start(dv.skip(i as int), name@) {
                None => None::<int>,
                Some(j) => Some(j + i),
            },
        decreases events@.len() - i,
    {
        proof {
            assert(dv.skip(i as int)[0] == dv[i as int]);
            assert(dv.skip(i as int).skip(1) =~= dv.skip(i + 1));
        }
        let hit: bool = match &events[i] {
            XmlNode::Start { name: n, .. } => str_eq(n.as_str(), name),
            _ => false,
        };
        if hit {
            return Some(i);
        }
        i = i + 1;
    }
    proof {
        assert(dv.skip(dv.len() as int) =~= Seq::<XmlNodeV>::empty());
    }
    None
}

// ---------------------------------------------------------------------------
// Reading and writing XML text (the xml crate, trusted)
// ---------------------------------------------------------------------------

/// What the xml crate's reader yields for a given text.
pub uninterp spec fn xml_doc_of(text: Seq<char>) -> Seq<XmlNodeV>;

/// Whether the xml crate's reader accepts a given text.
pub uninterp spec fn xml_parse_ok(text: Seq<char>) -> bool;

/// Relies on the xml crate's `EventReader`: whether parsing succeeds and
/// what it yields depend on the text alone. Start events keep their local
/// name and attributes, end events their local name, character data its
/// text; other events are dropped. A malformed document is an error.
#[verifier::external_body]
pub fn parse_xml_events(text: &str) -> (r: Result<Vec<XmlNode>, XmlError>)
    ensures
        r is Ok == xml_parse_ok(text@),
        r matches Ok(v) ==> v.deep_view() == xml_doc_of(text@),
{
    let mut out: Vec<XmlNode> = Vec::new();
    for ev in EventReader::new(text.as_bytes()) {
        match ev {
            Ok(ReadEvent::StartElement { name, attributes, .. }) => {
                let attrs = attributes.into_iter().map(|a| XmlAttr { name: a.name.local_name, value: a.value }).collect();
                out.push(XmlNode::Start { name: name.local_name, attributes: attrs })
            },
            Ok(ReadEvent::EndElement { name }) => out.push(XmlNode::End { name: name.local_name }),
            Ok(ReadEvent::Characters(c)) => out.push(XmlNode::Text { content: c }),
            Ok(_) => {},
            Err(e) => return Err(XmlError::Read(e.to_string())),
        }
    }
    Ok(out)
}

/// What the xml crate's writer produces for a given event list.
pub uninterp spec fn xml_text_of(doc: Seq<XmlNodeV>) -> Seq<char>;

/// Whether the xml crate's writer accepts a given event list.
pub uninterp spec fn xml_write_ok(doc: Seq<XmlNodeV>) -> bool;

/// Relies on the xml crate's `EventWriter`: whether writing succeeds and
/// the produced text depend on the events alone. A rejected event is an
/// error.
#[verifier::external_body]
pub fn write_xml_events(events: &Vec<XmlNode>) -> (r: Result<String, XmlError>)
    ensures
        r is Ok == xml_write_ok(events.deep_view()),
        r matches Ok(s) ==> s@ == xml_text_of(events.deep_view()),
{
    let mut w = EventWriter::new(Vec::new());
    for n in events {
        let res = match n {
            XmlNode::Start { name, attributes } => {
                let mut b = WriteEvent::start_element(name.as_str());
                for a in attributes { b = b.attr(a.name.as_str(), a.value.as_str()); }
                w.write(b)
            },
            XmlNode::End { .. } => w.write(WriteEvent::end_element()),
            XmlNode::Text { content } => w.write(WriteEvent::characters(content.as_str())),
        };
        if let Err(e) = res { return Err(XmlError::Write(e.to_string())); }
    }
    String::from_utf8(w.into_inner()).map_err(|e| XmlError::Write(e.to_string()))
}

// ---------------------------------------------------------------------------
// Building and copying nodes
// ---------------------------------------------------------------------------

/// An attribute from name and value.
pub(crate) fn attr(name: &str, value: &str) -> (r: XmlAttr)
    ensures
        r@ == (XmlAttrV { name: name@, value: value@ }),
{
    XmlAttr { name: String::from_str(name), value: String::from_str(value) }
}

/// A faithful copy of one attribute.
fn clone_attr(a: &XmlAttr) -> (r: XmlAttr)
    ensures
        r@ == a@,
{
    XmlAttr { name: a.name.clone(), value: a.value.clone() }
}

/// A faithful copy of one event.
fn clone_node(n: &XmlNode) -> (r: XmlNode)
    ensures
        r@ == n@,
{
    match n {
        XmlNode::Start { name, attributes } => {
            let mut attrs: Vec<XmlAttr> = Vec::new();
            let mut i: usize = 0;
            while i < attributes.len()
                invariant
                    0 <= i <= attributes@.len(),
                    attrs@.len() == i,
                    forall|j: int| 0 <= j < i ==> #[trigger] attrs@[j]@ == attributes@[j]@,
                decreases attributes@.len() - i,
            {
                attrs.push(clone_attr(&attributes[i]));
                i = i + 1;
            }
            let r = XmlNode::Start { name: name.clone(), attributes: attrs };
            proof {
                assert(r@ matches XmlNodeV::Start { name: rn, attributes: ra } && rn == name@
                    && ra =~= attributes.deep_view());
            }
            r
        },
        XmlNode::End { name } => XmlNode::End { name: name.clone() },
        XmlNode::Text { content } => XmlNode::Text { content: content.clone() },
    }
}

/// A faithful copy of an event list.
fn clone_events(events: &Vec<XmlNode>) -> (r: Vec<XmlNode>)
    ensures
        r.deep_view() == events.deep_view(),
{
    let mut r: Vec<XmlNode> = Vec::new();
    let mut i: usize = 0;
    while i < events.len()
        invariant
            0 <= i <= events@.len(),
            r@.len() == i,
            forall|j: int| 0 <= j < i ==> #[trigger] r@[j]@ == events@[j]@,
        decreases events@.len() - i,
    {
        r.push(clone_node(&events[i]));
        i = i + 1;
    }
    proof {
        assert(r.deep_view() =~= events.deep_view());
    }
    r
}

// ---------------------------------------------------------------------------
// Element insertion
// ---------------------------------------------------------------------------

/// The three events of a freshly built element.
pub open spec fn spec_element_nodes(el: DcmElementV) -> Seq<XmlNodeV> {
    seq![
        XmlNodeV::Start {
            name: "element"@,
            attributes: seq![
                XmlAttrV { name: "tag"@, value: el.tag },
                XmlAttrV { name: "vr"@, value: el.vr },
                XmlAttrV { name: "vm"@, value: "1"@ },
                XmlAttrV { name: "len"@, value: "0"@ },
                XmlAttrV { name: "name"@, value: el.name },
            ],
        },
        XmlNodeV::Text { content: el.body },
        XmlNodeV::End { name: "element"@ },
    ]
}

/// Where a new element goes: right before the close of the data set, or
/// near the end of the document when the close is absent.
pub open spec fn spec_insert_pos(doc: Seq<XmlNodeV>) -> int {
    match spec_find_end(doc, "data-set"@) {
        Some(i) => i,
        None => if doc.len() >= 2 {
            doc.len() - 2
        } else {
            doc.len() as int
        },
    }
}

/// Idempotent element insertion: a no-op when an element with the same
/// (tag, name) identity exists, otherwise the new element's three events
/// spliced in at the insertion position.
pub open spec fn spec_add_element(doc: Seq<XmlNodeV>, el: DcmElementV) -> Seq<XmlNodeV> {
    if spec_xml_contains(doc, el.tag, el.name) {
        doc
    } else {
        let p = spec_insert_pos(doc);
        doc.take(p) + spec_element_nodes(el) + doc.skip(p)
    }
}

/// Inserts `element` unless an element with the same (tag, name) identity
/// already exists.
pub fn add_element_if_not_exist(events: &mut Vec<XmlNode>, element: DcmElement)
    ensures
        final(events).deep_view() == spec_add_element(old(events).deep_view(), element@),
{
    let ghost dv: Seq<XmlNodeV> = events.deep_view();
    if xml_contains(events, element.tag.as_str(), element.name.as_str()) {
        return;
    }
    let p: usize = match find_end(events, "data-set") {
        Some(i) => i,
        None => if events.len() >= 2 {
            events.len() - 2
        } else {
            events.len()
        },
    };
    proof {
        assert(p as int == spec_insert_pos(dv));
    }
    let mut attrs: Vec<XmlAttr> = Vec::new();
    attrs.push(attr("tag", element.tag.as_str()));
    attrs.push(attr("vr", element.vr.as_str()));
    attrs.push(attr("vm", "1"));
    attrs.push(attr("len", "0"));
    attrs.push(attr("name", element.name.as_str()));
    let start = XmlNode::Start { name: String::from_str("element"), attributes: attrs };
    let text = XmlNode::Text { content: element.body };
    let end = XmlNode::End { name: String::from_str("element") };
    proof {
        assert(start@ matches XmlNodeV::Start { name: sn, attributes: sa } && sn == "element"@
            && sa =~= spec_element_nodes(element@)[0]->Start_attributes);
    }
    events.insert(p, end);
    events.insert(p, text);
    events.insert(p, start);
    proof {
        assert(events.deep_view() =~= dv.take(p as int) + spec_element_nodes(element@) + dv.skip(
            p as int,
        ));
    }
}

/// Containment of any identity is preserved by insertion, and the inserted
/// element's own identity is contained afterwards.
pub proof fn lemma_add_element_contains(doc: Seq<XmlNodeV>, el: DcmElementV)
    ensures
        spec_xml_contains(spec_add_element(doc, el), el.tag, el.name),
        forall|t: Seq<char>, n: Seq<char>|
            spec_xml_contains(doc, t, n) ==> #[trigger] spec_xml_contains(
                spec_add_element(doc, el),
                t,
                n,
            ),
{
    reveal_strlit("element");
    reveal_strlit("tag");
    reveal_strlit("vr");
    reveal_strlit("vm");
    reveal_strlit("len");
    reveal_strlit("name");
    let out = spec_add_element(doc, el);
    if spec_xml_contains(doc, el.tag, el.name) {
    } else {
        let p = spec_insert_pos(doc);
        assert(0 <= p <= doc.len()) by {
            lemma_find_end_range(doc, "data-set"@);
        }
        let nodes = spec_element_nodes(el);
        let snode = nodes[0];
        assert(spec_is_element_with(snode, el.tag, el.name)) by {
            let attrs = snode->Start_attributes;
            assert(attrs[0].name == "tag"@);
            assert(spec_attr_value(attrs, "tag"@) == Some(el.tag));
            assert("name"@.len() == 4);
            assert("tag"@.len() == 3);
            assert("vr"@.len() == 2);
            assert("vm"@.len() == 2);
            assert("len"@.len() == 3);
            assert("vr"@[0] == 'v' && "vm"@[0] == 'v' && "name"@[0] == 'n');
            assert("vr"@[1] == 'r' && "vm"@[1] == 'm');
            assert("len"@[0] == 'l');
            assert(attrs.skip(1)[0] == attrs[1]);
            assert(attrs.skip(1).skip(1) =~= attrs.skip(2));
            assert(attrs.skip(2)[0] == attrs[2]);
            assert(attrs.skip(2).skip(1) =~= attrs.skip(3));
            assert(attrs.skip(3)[0] == attrs[3]);
            assert(attrs.skip(3).skip(1) =~= attrs.skip(4));
            assert(attrs.skip(4)[0] == attrs[4]);
            assert(attrs.skip(4).skip(1) =~= attrs.skip(5));
            assert(attrs.skip(5).len() == 0);
            assert(spec_attr_value(attrs.skip(4), "name"@) == Some(el.name));
            assert(spec_attr_value(attrs.skip(3), "name"@) == Some(el.name));
            assert(spec_attr_value(attrs.skip(2), "name"@) == Some(el.name));
            assert(spec_attr_value(attrs.skip(1), "name"@) == Some(el.name));
            assert(spec_attr_value(attrs, "name"@) == Some(el.name));
        }
        assert(out[p] == snode);
        assert(spec_xml_contains(out, el.tag, el.name));
        assert forall|t: Seq<char>, n: Seq<char>|
            spec_xml_contains(doc, t, n) implies #[trigger] spec_xml_contains(out, t, n) by {
            let i = choose|i: int| 0 <= i < doc.len() && spec_is_element_with(#[trigger] doc[i], t, n);
            if i < p {
                assert(out[i] == doc[i]);
                assert(spec_is_element_with(out[i], t, n));
            } else {
                assert(out[i + 3] == doc[i]);
                assert(spec_is_element_with(out[i + 3], t, n));
            }
        }
    }
}

/// The first matching end index lies inside the document.
pub(crate) proof fn lemma_find_end_range(doc: Seq<XmlNodeV>, name: Seq<char>)
    ensures
        match spec_find_end(doc, name) {
            Some(i) => 0 <= i < doc.len(),
            None => true,
        },
    decreases doc.len(),
{
    if doc.len() > 0 {
        lemma_find_end_range(doc.skip(1), name);
    }
}

// ---------------------------------------------------------------------------
// Meta-header synthesis
// ---------------------------------------------------------------------------

/// The events of one element with the five standard attributes; the body is
/// present only when non-empty.
pub open spec fn spec_el(
    tag: Seq<char>,
    vr: Seq<char>,
    vm: Seq<char>,
    len_s: Seq<char>,
    name: Seq<char>,
    body: Seq<char>,
) -> Seq<XmlNodeV> {
    let start = XmlNodeV::Start {
        name: "element"@,
        attributes: seq![
            XmlAttrV { name: "tag"@, value: tag },
            XmlAttrV { name: "vr"@, value: vr },
            XmlAttrV { name: "vm"@, value: vm },
            XmlAttrV { name: "len"@, value: len_s },
            XmlAttrV { name: "name"@, value: name },
        ],
    };
    if body.len() > 0 {
        seq![start, XmlNodeV::Text { content: body }, XmlNodeV::End { name: "element"@ }]
    } else {
        seq![start, XmlNodeV::End { name: "element"@ }]
    }
}

/// Builds the events of one element.
fn el(tag: &str, vr: &str, vm: &str, len_s: &str, name: &str, body: &str) -> (r: Vec<XmlNode>)
    ensures
        r.deep_view() == spec_el(tag@, vr@, vm@, len_s@, name@, body@),
{
    let mut attrs: Vec<XmlAttr> = Vec::new();
    attrs.push(attr("tag", tag));
    attrs.push(attr("vr", vr));
    attrs.push(attr("vm", vm));
    attrs.push(attr("len", len_s));
    attrs.push(attr("name", name));
    let mut r: Vec<XmlNode> = Vec::new();
    r.push(XmlNode::Start { name: String::from_str("element"), attributes: attrs });
    if body.unicode_len() > 0 {
        r.push(XmlNode::Text { content: String::from_str(body) });
    }
    r.push(XmlNode::End { name: String::from_str("element") });
    proof {
        assert(r.deep_view() =~= spec_el(tag@, vr@, vm@, len_s@, name@, body@)) by {
            assert(r@[0]@ matches XmlNodeV::Start { name: sn, attributes: sa } && sa =~= spec_el(
                tag@,
                vr@,
                vm@,
                len_s@,
                name@,
                body@,
            )[0]->Start_attributes);
        }
    }
    r
}

/// The synthesized meta-header events: the JPEG Baseline variant carries a
/// MediaStorageSOPClassUID element, the Little Endian Explicit one does not.
pub open spec fn spec_meta_nodes(tt: DcmTransferType) -> Seq<XmlNodeV> {
    let open = seq![
        XmlNodeV::Start {
            name: "meta-header"@,
            attributes: seq![
                XmlAttrV { name: "xfer"@, value: "1.2.840.10008.1.2.1"@ },
                XmlAttrV { name: "name"@, value: "Little Endian Explicit"@ },
            ],
        },
    ];
    let extra = match tt {
        DcmTransferType::JPEGBaseline => spec_el(
            "0002,0002"@,
            "UI"@,
            "1"@,
            "28"@,
            "MediaStorageSOPClassUID"@,
            "1.2.840.10008.5.1.4.1.1.7.2"@,
        ),
        DcmTransferType::LittleEndianExplicit => Seq::empty(),
    };
    open + extra + spec_el("0002,0000"@, "UL"@, "1"@, "4"@, "FileMetaInformationGroupLength"@, "0"@)
        + spec_el("0002,0003"@, "UI"@, "1"@, "50"@, "MediaStorageSOPInstanceUID"@, Seq::empty())
        + spec_el("0002,0010"@, "UI"@, "1"@, "22"@, "TransferSyntaxUID"@, Seq::empty()) + spec_el(
        "0002,0012"@,
        "UI"@,
        "1"@,
        "28"@,
        "ImplementationClassUID"@,
        Seq::empty(),
    ) + spec_el("0002,0013"@, "SH"@, "1"@, "16"@, "ImplementationVersionName"@, Seq::empty())
        + seq![XmlNodeV::End { name: "meta-header"@ }]
}

/// True when the document already has a meta-header.
pub open spec fn spec_has_meta(doc: Seq<XmlNodeV>) -> bool {
    spec_find_start(doc, "meta-header"@) matches Some(_)
}

/// Where a synthesized meta-header goes: immediately before the data set,
/// or right after the document's opening event when the data set is absent.
pub open spec fn spec_meta_pos(doc: Seq<XmlNodeV>) -> int {
    match spec_find_start(doc, "data-set"@) {
        Some(i) => i,
        None => if doc.len() >= 1 {
            1
        } else {
            0
        },
    }
}

/// Conditional meta-header synthesis: a no-op when a meta-header exists,
/// otherwise the synthesized events spliced in at the meta position.
pub open spec fn spec_add_meta(tt: DcmTransferType, doc: Seq<XmlNodeV>) -> Seq<XmlNodeV> {
    if spec_has_meta(doc) {
        doc
    } else {
        let p = spec_meta_pos(doc);
        doc.take(p) + spec_meta_nodes(tt) + doc.skip(p)
    }
}

/// The first matching start index lies inside the document.
proof fn lemma_find_start_range(doc: Seq<XmlNodeV>, name: Seq<char>)
    ensures
        match spec_find_start(doc, name) {
            Some(i) => 0 <= i < doc.len(),
            None => true,
        },
    decreases doc.len(),
{
    if doc.len() > 0 {
        lemma_find_start_range(doc.skip(1), name);
    }
}

/// Synthesizes a meta-header if none exists, spliced in immediately before
/// the data set.
pub fn add_meta_header_if_not_exist(transfer_type: DcmTransferType, events: &mut Vec<XmlNode>)
    ensures
        final(events).deep_view() == spec_add_meta(transfer_type, old(events).deep_view()),
{
    let ghost dv: Seq<XmlNodeV> = events.deep_view();
    match find_start(events, "meta-header") {
        Some(_) => {
            return;
        },
        None => {},
    }
    let p: usize = match find_start(events, "data-set") {
        Some(i) => i,
        None => if events.len() >= 1 {
            1
        } else {
            0
        },
    };
    proof {
        lemma_find_start_range(dv, "data-set"@);
        assert(p as int == spec_meta_pos(dv));
    }
    let ghost open_s: Seq<XmlNodeV> = seq![
        XmlNodeV::Start {
            name: "meta-header"@,
            attributes: seq![
                XmlAttrV { name: "xfer"@, value: "1.2.840.10008.1.2.1"@ },
                XmlAttrV { name: "name"@, value: "Little Endian Explicit"@ },
            ],
        },
    ];
    let ghost extra_s: Seq<XmlNodeV> = match transfer_type {
        DcmTransferType::JPEGBaseline => spec_el(
            "0002,0002"@,
            "UI"@,
            "1"@,
            "28"@,
            "MediaStorageSOPClassUID"@,
            "1.2.840.10008.5.1.4.1.1.7.2"@,
        ),
        DcmTransferType::LittleEndianExplicit => Seq::empty(),
    };
    let mut meta: Vec<XmlNode> = Vec::new();
    let mut mh_attrs: Vec<XmlAttr> = Vec::new();
    mh_attrs.push(attr("xfer", "1.2.840.10008.1.2.1"));
    mh_attrs.push(attr("name", "Little Endian Explicit"));
    proof {
        assert(mh_attrs.deep_view() =~= open_s[0]->Start_attributes);
    }
    meta.push(XmlNode::Start { name: String::from_str("meta-header"), attributes: mh_attrs });
    proof {
        assert(meta.deep_view() =~= open_s);
    }
    let extra: Vec<XmlNode> = match transfer_type {
        DcmTransferType::JPEGBaseline => el(
            "0002,0002",
            "UI",
            "1",
            "28",
            "MediaStorageSOPClassUID",
            "1.2.840.10008.5.1.4.1.1.7.2",
        ),
        DcmTransferType::LittleEndianExplicit => Vec::new(),
    };
    proof {
        assert(extra.deep_view() =~= extra_s);
    }
    let mut meta: Vec<XmlNode> = append_events(meta, &extra);
    let e1 = el("0002,0000", "UL", "1", "4", "FileMetaInformationGroupLength", "0");
    meta = append_events(meta, &e1);
    let e2 = el("0002,0003", "UI", "1", "50", "MediaStorageSOPInstanceUID", "");
    meta = append_events(meta, &e2);
    let e3 = el("0002,0010", "UI", "1", "22", "TransferSyntaxUID", "");
    meta = append_events(meta, &e3);
    let e4 = el("0002,0012", "UI", "1", "28", "ImplementationClassUID", "");
    meta = append_events(meta, &e4);
    let e5 = el("0002,0013", "SH", "1", "16", "ImplementationVersionName", "");
    meta = append_events(meta, &e5);
    proof {
        reveal_strlit("");
        assert(""@ =~= Seq::<char>::empty());
    }
    meta.push(XmlNode::End { name: String::from_str("meta-header") });
    proof {
        assert(meta.deep_view() =~= open_s + extra_s + spec_el(
            "0002,0000"@,
            "UL"@,
            "1"@,
            "4"@,
            "FileMetaInformationGroupLength"@,
            "0"@,
        ) + spec_el("0002,0003"@, "UI"@, "1"@, "50"@, "MediaStorageSOPInstanceUID"@, Seq::empty())
            + spec_el("0002,0010"@, "UI"@, "1"@, "22"@, "TransferSyntaxUID"@, Seq::empty())
            + spec_el("0002,0012"@, "UI"@, "1"@, "28"@, "ImplementationClassUID"@, Seq::empty())
            + spec_el("0002,0013"@, "SH"@, "1"@, "16"@, "ImplementationVersionName"@, Seq::empty())
            + seq![XmlNodeV::End { name: "meta-header"@ }]);
        assert(meta.deep_view() == spec_meta_nodes(transfer_type));
    }
    let spliced: Vec<XmlNode> = splice_at(events, p, &meta);
    *events = spliced;
    proof {
        assert(events.deep_view() =~= dv.take(p as int) + spec_meta_nodes(transfer_type) + dv.skip(
            p as int,
        ));
    }
}

/// `deep_view` of an event vector indexes to the view of each event.
proof fn lemma_nodes_view(v: &Vec<XmlNode>)
    ensures
        v.deep_view().len() == v@.len(),
        forall|i: int| 0 <= i < v@.len() ==> #[trigger] v.deep_view()[i] == v@[i]@,
{
}

/// `out` with copies of all events of `tail` appended.
fn append_events(out: Vec<XmlNode>, tail: &Vec<XmlNode>) -> (r: Vec<XmlNode>)
    ensures
        r.deep_view() == out.deep_view() + tail.deep_view(),
{
    let mut r: Vec<XmlNode> = out;
    let ghost n0: int = r@.len() as int;
    let ghost r0: Seq<XmlNode> = r@;
    let mut i: usize = 0;
    while i < tail.len()
        invariant
            0 <= i <= tail@.len(),
            r@.len() == n0 + i,
            n0 == r0.len(),
            forall|j: int| 0 <= j < n0 ==> #[trigger] r@[j] == r0[j],
            forall|j: int| 0 <= j < i ==> (#[trigger] r@[n0 + j])@ == tail@[j]@,
        decreases tail@.len() - i,
    {
        r.push(clone_node(&tail[i]));
        i = i + 1;
    }
    proof {
        assert forall|m: int| 0 <= m < r@.len() implies r.deep_view()[m] == (out.deep_view()
            + tail.deep_view())[m] by {
            if m >= n0 {
                assert(r@[n0 + (m - n0)]@ == tail@[m - n0]@);
            }
        }
        assert(r.deep_view() =~= out.deep_view() + tail.deep_view());
    }
    r
}

/// `events` with copies of all events of `mid` spliced in at position `p`.
pub(crate) fn splice_at(events: &Vec<XmlNode>, p: usize, mid: &Vec<XmlNode>) -> (r: Vec<XmlNode>)
    requires
        p <= events@.len(),
    ensures
        r.deep_view() == events.deep_view().take(p as int) + mid.deep_view()
            + events.deep_view().skip(p as int),
{
    let mut r: Vec<XmlNode> = Vec::new();
    let mut j: usize = 0;
    while j < p
        invariant
            0 <= j <= p,
            p <= events@.len(),
            r@.len() == j,
            forall|m: int| 0 <= m < j ==> (#[trigger] r@[m])@ == events@[m]@,
        decreases p - j,
    {
        r.push(clone_node(&events[j]));
        j = j + 1;
    }
    let r2: Vec<XmlNode> = append_events(r, mid);
    let mut r3: Vec<XmlNode> = r2;
    let ghost n2: int = r3@.len() as int;
    let ghost s2: Seq<XmlNode> = r3@;
    let mut k: usize = p;
    while k < events.len()
        invariant
            p <= k <= events@.len(),
            r3@.len() == n2 + (k - p),
            n2 == s2.len(),
            forall|m: int| 0 <= m < n2 ==> #[trigger] r3@[m] == s2[m],
            forall|m: int| p <= m < k ==> (#[trigger] r3@[n2 + (m - p)])@ == events@[m]@,
        decreases events@.len() - k,
    {
        r3.push(clone_node(&events[k]));
        k = k + 1;
    }
    proof {
        let want = events.deep_view().take(p as int) + mid.deep_view() + events.deep_view().skip(
            p as int,
        );
        assert(r.deep_view().len() == p);
        assert(mid.deep_view().len() == mid@.len());
        assert(r2.deep_view().len() == p + mid@.len());
        assert(r2@.len() == r2.deep_view().len());
        assert(n2 == p + mid@.len());
        assert(events.deep_view().len() == events@.len());
        assert(want.len() == events@.len() + mid@.len());
        assert(r3@.len() == want.len());
        assert forall|m: int| 0 <= m < r3@.len() implies r3.deep_view()[m] == want[m] by {
            if m < n2 {
                assert(r3@[m] == s2[m]);
                assert(r3.deep_view()[m] == r2.deep_view()[m]);
                assert(r2.deep_view()[m] == (r.deep_view() + mid.deep_view())[m]);
                if m < p {
                    assert(r.deep_view()[m] == r@[m]@);
                    assert(r@[m]@ == events@[m]@);
                }
            } else {
                assert(r3@[n2 + ((m - n2 + p) - p)]@ == events@[m - n2 + p]@);
            }
        }
        assert(r3.deep_view() =~= want);
    }
    r3
}

// ---------------------------------------------------------------------------
// Patient field formatting
// ---------------------------------------------------------------------------

/// A GDT `DDMMYYYY` date rearranged to the DICOM `YYYYMMDD` order.
pub open spec fn spec_gdt_date_to_dcm(s: Seq<char>) -> Seq<char>
    recommends
        s.len() == 8,
{
    s.subrange(4, 8) + s.subrange(2, 4) + s.subrange(0, 2)
}

/// Converts a GDT date (`DDMMYYYY`) to a DICOM date (`YYYYMMDD`). `None`
/// unless the input is exactly eight characters.
pub fn gdt_date_to_dcm(s: &String) -> (r: Option<String>)
    ensures
        match r {
            Some(t) => s@.len() == 8 && t@ == spec_gdt_date_to_dcm(s@),
            None => s@.len() != 8,
        },
{
    if s.as_str().unicode_len() != 8 {
        return None;
    }
    let mut out: String = String::from_str(s.as_str().substring_char(4, 8));
    out.append(s.as_str().substring_char(2, 4));
    out.append(s.as_str().substring_char(0, 2));
    Some(out)
}

/// Converting a date to DICOM order and back reproduces it, for every
/// well-formed eight-character date.
pub proof fn lemma_date_round_trip(d: Seq<char>)
    requires
        d.len() == 8,
    ensures
        crate::gdt::spec_dcm_date_to_gdt(spec_gdt_date_to_dcm(d)) == d,
{
    assert(crate::gdt::spec_dcm_date_to_gdt(spec_gdt_date_to_dcm(d)) =~= d);
}

/// The DICOM sex code of a GDT gender.
pub open spec fn spec_gender_dcm(g: GdtPatientGender) -> Seq<char> {
    match g {
        GdtPatientGender::Male => seq!['M'],
        GdtPatientGender::Female => seq!['F'],
    }
}

/// Writes a GDT gender as the DICOM sex code: male is `M`, female is `F`.
pub fn gdt_gender_to_dcm(gender: &GdtPatientGender) -> (r: String)
    ensures
        r@ == spec_gender_dcm(*gender),
{
    proof {
        reveal_strlit("M");
        reveal_strlit("F");
        assert("M"@ =~= seq!['M']);
        assert("F"@ =~= seq!['F']);
    }
    match gender {
        GdtPatientGender::Male => String::from_str("M"),
        GdtPatientGender::Female => String::from_str("F"),
    }
}

/// What `str::to_uppercase` returns for a given character sequence.
pub uninterp spec fn upper_of(s: Seq<char>) -> Seq<char>;

/// Relies on str::to_uppercase: the result depends on the characters alone,
/// and an empty string stays empty.
#[verifier::external_body]
fn to_upper(s: &str) -> (r: String)
    ensures
        r@ == upper_of(s@),
        s@.len() == 0 ==> r@.len() == 0,
{
    s.to_uppercase()
}

/// `s` with every space turned into a caret.
pub open spec fn spec_replace_spaces(s: Seq<char>) -> Seq<char> {
    Seq::new(
        s.len(),
        |i: int|
            if s[i] == ' ' {
                '^'
            } else {
                s[i]
            },
    )
}

/// Replaces every space with a caret.
fn replace_spaces(s: &str) -> (r: String)
    ensures
        r@ == spec_replace_spaces(s@),
{
    let n: usize = s.unicode_len();
    let mut r: String = String::new();
    let mut i: usize = 0;
    proof {
        reveal_strlit("^");
        assert(r@ =~= spec_replace_spaces(s@).take(0));
    }
    while i < n
        invariant
            0 <= i <= n,
            n == s@.len(),
            "^"@ == seq!['^'],
            r@ == spec_replace_spaces(s@).take(i as int),
        decreases n - i,
    {
        let c: char = s.get_char(i);
        if c as u32 == 32 {
            r.append("^");
            proof {
                assert(s@[i as int] == ' ');
                assert(r@ =~= spec_replace_spaces(s@).take(i + 1));
            }
        } else {
            r.append(s.substring_char(i, i + 1));
            proof {
                assert(s@.subrange(i as int, i + 1)[0] == s@[i as int]);
                assert(s@[i as int] != ' ');
                assert(r@ =~= spec_replace_spaces(s@).take(i + 1));
            }
        }
        i = i + 1;
    }
    proof {
        assert(spec_replace_spaces(s@).take(n as int) =~= spec_replace_spaces(s@));
    }
    r
}

/// The worklist-style DICOM patient name: `LASTNAME^FIRSTNAME` uppercased,
/// with internal spaces turned into carets; a single name part is only
/// uppercased.
pub open spec fn spec_patient_name(p: GdtPatientV) -> Seq<char> {
    if p.patient_name.len() > 0 && p.patient_first_name.len() > 0 {
        spec_replace_spaces(
            upper_of(p.patient_name) + seq!['^'] + upper_of(p.patient_first_name),
        )
    } else if p.patient_name.len() > 0 {
        upper_of(p.patient_name)
    } else {
        upper_of(p.patient_first_name)
    }
}

/// Formats the worklist-style DICOM patient name.
pub fn gdt_get_patient_name(patient: &GdtPatientObject) -> (r: String)
    ensures
        r@ == spec_patient_name(patient@),
{
    let ln: usize = patient.patient_name.as_str().unicode_len();
    let fl: usize = patient.patient_first_name.as_str().unicode_len();
    if ln > 0 && fl > 0 {
        let mut joined: String = to_upper(patient.patient_name.as_str());
        joined.append("^");
        let upper_first: String = to_upper(patient.patient_first_name.as_str());
        joined.append(upper_first.as_str());
        proof {
            reveal_strlit("^");
            assert(joined@ =~= upper_of(patient@.patient_name) + seq!['^'] + upper_of(
                patient@.patient_first_name,
            ));
        }
        replace_spaces(joined.as_str())
    } else if ln > 0 {
        to_upper(patient.patient_name.as_str())
    } else {
        to_upper(patient.patient_first_name.as_str())
    }
}

/// The annex-style patient name: `First Last` in natural order, without
/// case folding; a single name part stands alone.
pub open spec fn spec_patient_name_annex(p: GdtPatientV) -> Seq<char> {
    if p.patient_first_name.len() > 0 && p.patient_name.len() > 0 {
        p.patient_first_name + seq![' '] + p.patient_name
    } else if p.patient_first_name.len() > 0 {
        p.patient_first_name
    } else {
        p.patient_name
    }
}

/// Formats the annex-style patient name.
pub fn gdt_get_patient_name_annex(patient: &GdtPatientObject) -> (r: String)
    ensures
        r@ == spec_patient_name_annex(patient@),
{
    let ln: usize = patient.patient_name.as_str().unicode_len();
    let fl: usize = patient.patient_first_name.as_str().unicode_len();
    if fl > 0 && ln > 0 {
        let mut r: String = patient.patient_first_name.clone();
        r.append(" ");
        r.append(patient.patient_name.as_str());
        proof {
            reveal_strlit(" ");
            assert(r@ =~= patient@.patient_first_name + seq![' '] + patient@.patient_name);
        }
        r
    } else if fl > 0 {
        patient.patient_first_name.clone()
    } else {
        patient.patient_name.clone()
    }
}

/// The patient height in meters: the centimeter field divided by one
/// hundred, exactly; `None` when the field is not a plain decimal number.
pub fn gdt_get_patient_height_in_meters(patient: &GdtBasicDiagnosticsObject) -> (r: Option<String>)
    ensures
        match r {
            Some(t) => crate::strutil::spec_div100(patient@.patient_height) == Some(t@),
            None => crate::strutil::spec_div100(patient@.patient_height) == None::<Seq<char>>,
        },
{
    div100(patient.patient_height.as_str())
}

// ---------------------------------------------------------------------------
// Applying GDT fields to a document
// ---------------------------------------------------------------------------

/// The birth-date element body: the converted date when well-formed, empty
/// otherwise.
pub open spec fn spec_birth_body(dob: Seq<char>) -> Seq<char> {
    if dob.len() == 8 {
        spec_gdt_date_to_dcm(dob)
    } else {
        Seq::empty()
    }
}

/// The patient-size element body: the height in meters when the field
/// parses, empty otherwise.
pub open spec fn spec_size_body(height: Seq<char>) -> Seq<char> {
    match crate::strutil::spec_div100(height) {
        Some(m) => m,
        None => Seq::empty(),
    }
}

/// At-most-once insertion of the six patient elements, in order:
/// PatientName, PatientID, PatientBirthDate, PatientSex, PatientSize,
/// PatientWeight.
pub open spec fn spec_apply_gdt_fields(f: GdtFileV, doc: Seq<XmlNodeV>) -> Seq<XmlNodeV> {
    let d1 = spec_add_element(
        doc,
        DcmElementV {
            tag: "0010,0010"@,
            vr: "PN"@,
            name: "PatientName"@,
            body: spec_patient_name(f.object_patient),
        },
    );
    let d2 = spec_add_element(
        d1,
        DcmElementV {
            tag: "0010,0020"@,
            vr: "LO"@,
            name: "PatientID"@,
            body: f.object_patient.patient_number,
        },
    );
    let d3 = spec_add_element(
        d2,
        DcmElementV {
            tag: "0010,0030"@,
            vr: "DA"@,
            name: "PatientBirthDate"@,
            body: spec_birth_body(f.object_patient.patient_dob),
        },
    );
    let d4 = spec_add_element(
        d3,
        DcmElementV {
            tag: "0010,0040"@,
            vr: "CS"@,
            name: "PatientSex"@,
            body: spec_gender_dcm(f.object_patient.patient_gender),
        },
    );
    let d5 = spec_add_element(
        d4,
        DcmElementV {
            tag: "0010,1020"@,
            vr: "DS"@,
            name: "PatientSize"@,
            body: spec_size_body(f.object_basic_diagnostics.patient_height),
        },
    );
    spec_add_element(
        d5,
        DcmElementV {
            tag: "0010,1030"@,
            vr: "DS"@,
            name: "PatientWeight"@,
            body: f.object_basic_diagnostics.patient_weight,
        },
    )
}

/// Copies the document and inserts the patient elements drawn from the GDT
/// record, each at most once.
pub fn apply_gdt_fields(file: &GdtFile, xml_events: &Vec<XmlNode>) -> (r: Vec<XmlNode>)
    ensures
        r.deep_view() == spec_apply_gdt_fields(file@, xml_events.deep_view()),
{
    let mut cloned: Vec<XmlNode> = clone_events(xml_events);
    add_element_if_not_exist(
        &mut cloned,
        DcmElement {
            tag: String::from_str("0010,0010"),
            vr: String::from_str("PN"),
            name: String::from_str("PatientName"),
            body: gdt_get_patient_name(&file.object_patient),
        },
    );
    add_element_if_not_exist(
        &mut cloned,
        DcmElement {
            tag: String::from_str("0010,0020"),
            vr: String::from_str("LO"),
            name: String::from_str("PatientID"),
            body: file.object_patient.patient_number.clone(),
        },
    );
    let birth: String = match gdt_date_to_dcm(&file.object_patient.patient_dob) {
        Some(s) => s,
        None => String::new(),
    };
    proof {
        assert(birth@ =~= spec_birth_body(file@.object_patient.patient_dob));
    }
    add_element_if_not_exist(
        &mut cloned,
        DcmElement {
            tag: String::from_str("0010,0030"),
            vr: String::from_str("DA"),
            name: String::from_str("PatientBirthDate"),
            body: birth,
        },
    );
    add_element_if_not_exist(
        &mut cloned,
        DcmElement {
            tag: String::from_str("0010,0040"),
            vr: String::from_str("CS"),
            name: String::from_str("PatientSex"),
            body: gdt_gender_to_dcm(&file.object_patient.patient_gender),
        },
    );
    let size: String = match gdt_get_patient_height_in_meters(&file.object_basic_diagnostics) {
        Some(s) => s,
        None => String::new(),
    };
    proof {
        assert(size@ =~= spec_size_body(file@.object_basic_diagnostics.patient_height));
    }
    add_element_if_not_exist(
        &mut cloned,
        DcmElement {
            tag: String::from_str("0010,1020"),
            vr: String::from_str("DS"),
            name: String::from_str("PatientSize"),
            body: size,
        },
    );
    add_element_if_not_exist(
        &mut cloned,
        DcmElement {
            tag: String::from_str("0010,1030"),
            vr: String::from_str("DS"),
            name: String::from_str("PatientWeight"),
            body: file.object_basic_diagnostics.patient_weight.clone(),
        },
    );
    cloned
}

/// Serializes the document patched with the record's patient elements:
/// succeeds exactly when the writer accepts the patched document.
pub fn file_to_xml(file: &GdtFile, xml_events: &Vec<XmlNode>) -> (r: Result<String, XmlError>)
    ensures
        r is Ok == xml_write_ok(spec_apply_gdt_fields(file@, xml_events.deep_view())),
        r matches Ok(s) ==> s@ == xml_text_of(
            spec_apply_gdt_fields(file@, xml_events.deep_view()),
        ),
{
    let patched: Vec<XmlNode> = apply_gdt_fields(file, xml_events);
    write_xml_events(&patched)
}

/// Applying the same record's fields twice changes nothing beyond the first
/// application: every element the second pass would insert already exists.
pub proof fn lemma_apply_gdt_fields_idempotent(f: GdtFileV, doc: Seq<XmlNodeV>)
    ensures
        spec_apply_gdt_fields(f, spec_apply_gdt_fields(f, doc)) == spec_apply_gdt_fields(f, doc),
{
    let e1 = DcmElementV {
        tag: "0010,0010"@,
        vr: "PN"@,
        name: "PatientName"@,
        body: spec_patient_name(f.object_patient),
    };
    let e2 = DcmElementV {
        tag: "0010,0020"@,
        vr: "LO"@,
        name: "PatientID"@,
        body: f.object_patient.patient_number,
    };
    let e3 = DcmElementV {
        tag: "0010,0030"@,
        vr: "DA"@,
        name: "PatientBirthDate"@,
        body: spec_birth_body(f.object_patient.patient_dob),
    };
    let e4 = DcmElementV {
        tag: "0010,0040"@,
        vr: "CS"@,
        name: "PatientSex"@,
        body: spec_gender_dcm(f.object_patient.patient_gender),
    };
    let e5 = DcmElementV {
        tag: "0010,1020"@,
        vr: "DS"@,
        name: "PatientSize"@,
        body: spec_size_body(f.object_basic_diagnostics.patient_height),
    };
    let e6 = DcmElementV {
        tag: "0010,1030"@,
        vr: "DS"@,
        name: "PatientWeight"@,
        body: f.object_basic_diagnostics.patient_weight,
    };
    let d1 = spec_add_element(doc, e1);
    let d2 = spec_add_element(d1, e2);
    let d3 = spec_add_element(d2, e3);
    let d4 = spec_add_element(d3, e4);
    let d5 = spec_add_element(d4, e5);
    let d6 = spec_add_element(d5, e6);
    lemma_add_element_contains(doc, e1);
    lemma_add_element_contains(d1, e2);
    lemma_add_element_contains(d2, e3);
    lemma_add_element_contains(d3, e4);
    lemma_add_element_contains(d4, e5);
    lemma_add_element_contains(d5, e6);
    assert(spec_xml_contains(d6, e1.tag, e1.name));
    assert(spec_xml_contains(d6, e2.tag, e2.name));
    assert(spec_xml_contains(d6, e3.tag, e3.name));
    assert(spec_xml_contains(d6, e4.tag, e4.name));
    assert(spec_xml_contains(d6, e5.tag, e5.name));
    assert(spec_xml_contains(d6, e6.tag, e6.name));
    assert(spec_add_element(d6, e1) == d6);
    assert(spec_add_element(d6, e2) == d6);
    assert(spec_add_element(d6, e3) == d6);
    assert(spec_add_element(d6, e4) == d6);
    assert(spec_add_element(d6, e5) == d6);
    assert(spec_add_element(d6, e6) == d6);
}

// ---------------------------------------------------------------------------
// Reading fields back out of a document
// ---------------------------------------------------------------------------

/// Body of the first element with the given name and tag, if present and
/// non-empty.
pub fn xml_get_element_body(events: &Vec<XmlNode>, in_name: &str, in_tag: &str) -> (r: Option<
    String,
>)
    ensures
        match r {
            Some(s) => spec_get_element_body(events.deep_view(), in_name@, in_tag@) == Some(s@),
            None => spec_get_element_body(events.deep_view(), in_name@, in_tag@) == None::<
                Seq<char>,
            >,
        },
{
    proof {
        lemma_nodes_view(events);
    }
    match find_element(events, in_tag, in_name) {
        None => None,
        Some(i) => {
            let n: usize = events.len();
            assert(i < n);
            if i + 1 < n {
                match &events[i + 1] {
                    XmlNode::Text { content } => Some(content.clone()),
                    _ => None,
                }
            } else {
                None
            }
        },
    }
}

/// The PatientName element body.
pub fn xml_get_patient_name(events: &Vec<XmlNode>) -> (r: Option<String>)
    ensures
        match r {
            Some(s) => spec_get_element_body(events.deep_view(), "PatientName"@, "0010,0010"@)
                == Some(s@),
            None => spec_get_element_body(events.deep_view(), "PatientName"@, "0010,0010"@)
                == None::<Seq<char>>,
        },
{
    xml_get_element_body(events, "PatientName", "0010,0010")
}

/// The PatientSize element body (meters).
pub fn xml_get_patient_height_meter(events: &Vec<XmlNode>) -> (r: Option<String>)
    ensures
        match r {
            Some(s) => spec_get_element_body(events.deep_view(), "PatientSize"@, "0010,1020"@)
                == Some(s@),
            None => spec_get_element_body(events.deep_view(), "PatientSize"@, "0010,1020"@)
                == None::<Seq<char>>,
        },
{
    xml_get_element_body(events, "PatientSize", "0010,1020")
}

/// The PatientWeight element body (kilograms).
pub fn xml_get_patient_weight_kg(events: &Vec<XmlNode>) -> (r: Option<String>)
    ensures
        match r {
            Some(s) => spec_get_element_body(events.deep_view(), "PatientWeight"@, "0010,1030"@)
                == Some(s@),
            None => spec_get_element_body(events.deep_view(), "PatientWeight"@, "0010,1030"@)
                == None::<Seq<char>>,
        },
{
    xml_get_element_body(events, "PatientWeight", "0010,1030")
}

/// The PatientID element body.
pub fn xml_get_patient_patient_id(events: &Vec<XmlNode>) -> (r: Option<String>)
    ensures
        match r {
            Some(s) => spec_get_element_body(events.deep_view(), "PatientID"@, "0010,0020"@)
                == Some(s@),
            None => spec_get_element_body(events.deep_view(), "PatientID"@, "0010,0020"@) == None::<
                Seq<char>,
            >,
        },
{
    xml_get_element_body(events, "PatientID", "0010,0020")
}

/// The PatientBirthDate element body.
pub fn xml_get_patient_birth_date(events: &Vec<XmlNode>) -> (r: Option<String>)
    ensures
        match r {
            Some(s) => spec_get_element_body(events.deep_view(), "PatientBirthDate"@, "0010,0030"@)
                == Some(s@),
            None => spec_get_element_body(events.deep_view(), "PatientBirthDate"@, "0010,0030"@)
                == None::<Seq<char>>,
        },
{
    xml_get_element_body(events, "PatientBirthDate", "0010,0030")
}

/// The PatientSex element body.
pub fn xml_get_patient_sex(events: &Vec<XmlNode>) -> (r: Option<String>)
    ensures
        match r {
            Some(s) => spec_get_element_body(events.deep_view(), "PatientSex"@, "0010,0040"@)
                == Some(s@),
            None => spec_get_element_body(events.deep_view(), "PatientSex"@, "0010,0040"@)
                == None::<Seq<char>>,
        },
{
    xml_get_element_body(events, "PatientSex", "0010,0040")
}

/// The StudyDate element body.
pub fn xml_get_study_date(events: &Vec<XmlNode>) -> (r: Option<String>)
    ensures
        match r {
            Some(s) => spec_get_element_body(events.deep_view(), "StudyDate"@, "0008,0020"@)
                == Some(s@),
            None => spec_get_element_body(events.deep_view(), "StudyDate"@, "0008,0020"@) == None::<
                Seq<char>,
            >,
        },
{
    xml_get_element_body(events, "StudyDate", "0008,0020")
}

/// The StudyTime element body.
pub fn xml_get_study_time(events: &Vec<XmlNode>) -> (r: Option<String>)
    ensures
        match r {
            Some(s) => spec_get_element_body(events.deep_view(), "StudyTime"@, "0008,0030"@)
                == Some(s@),
            None => spec_get_element_body(events.deep_view(), "StudyTime"@, "0008,0030"@) == None::<
                Seq<char>,
            >,
        },
{
    xml_get_element_body(events, "StudyTime", "0008,0030")
}

// ---------------------------------------------------------------------------
// Reading a document back into a GDT record
// ---------------------------------------------------------------------------

/// What converting a document to a GDT record yields: the fixed GDT
/// version, study date and time into the request object, patient id, name,
/// birth date, sex, and the body measurements. Dates are converted only
/// when well-formed; the height comes back in centimeters when the meter
/// value is a plain decimal.
pub open spec fn spec_dcm_xml_to_file(doc: Seq<XmlNodeV>) -> GdtFileV {
    let empty = crate::gdt::spec_empty_gdt_file();
    GdtFileV {
        object_header_data: crate::gdt::GdtHeaderDataV {
            version_gdt: seq!['0', '3', '.', '0', '0'],
            ..empty.object_header_data
        },
        object_request: crate::gdt::GdtRequestV {
            date_of_examination: match spec_get_element_body(doc, "StudyDate"@, "0008,0020"@) {
                Some(d) => if d.len() == 8 {
                    crate::gdt::spec_dcm_date_to_gdt(d)
                } else {
                    Seq::empty()
                },
                None => Seq::empty(),
            },
            time_of_examination: match spec_get_element_body(doc, "StudyTime"@, "0008,0030"@) {
                Some(t) => t,
                None => Seq::empty(),
            },
            ..empty.object_request
        },
        object_patient: GdtPatientV {
            patient_number: match spec_get_element_body(doc, "PatientID"@, "0010,0020"@) {
                Some(s) => s,
                None => Seq::empty(),
            },
            patient_name: match spec_get_element_body(doc, "PatientName"@, "0010,0010"@) {
                Some(s) => s,
                None => Seq::empty(),
            },
            patient_dob: match spec_get_element_body(doc, "PatientBirthDate"@, "0010,0030"@) {
                Some(d) => if d.len() == 8 {
                    crate::gdt::spec_dcm_date_to_gdt(d)
                } else {
                    Seq::empty()
                },
                None => Seq::empty(),
            },
            patient_gender: match spec_get_element_body(doc, "PatientSex"@, "0010,0040"@) {
                Some(s) => if s == "M"@ {
                    GdtPatientGender::Male
                } else if s == "F"@ {
                    GdtPatientGender::Female
                } else {
                    GdtPatientGender::Male
                },
                None => GdtPatientGender::Male,
            },
            ..spec_empty_patient()
        },
        object_basic_diagnostics: GdtBasicDiagnosticsV {
            patient_weight: match spec_get_element_body(doc, "PatientWeight"@, "0010,1030"@) {
                Some(s) => s,
                None => Seq::empty(),
            },
            patient_height: match spec_get_element_body(doc, "PatientSize"@, "0010,1020"@) {
                Some(h) => match crate::strutil::spec_mul100(h) {
                    Some(cm) => cm,
                    None => Seq::empty(),
                },
                None => Seq::empty(),
            },
        },
        ..empty
    }
}

/// Converts a document back into a GDT record, field by field.
pub fn dcm_xml_to_file(events: &Vec<XmlNode>) -> (r: GdtFile)
    ensures
        r@ == spec_dcm_xml_to_file(events.deep_view()),
{
    let mut file: GdtFile = crate::gdt::empty_gdt_file();
    file.object_header_data.version_gdt = String::from_str("03.00");
    proof {
        reveal_strlit("03.00");
        assert("03.00"@ =~= seq!['0', '3', '.', '0', '0']);
    }
    match xml_get_study_date(events) {
        Some(date) => {
            match crate::gdt::dcm_date_to_gdt(&date) {
                Some(d) => {
                    file.object_request.date_of_examination = d;
                },
                None => {},
            }
        },
        None => {},
    }
    match xml_get_study_time(events) {
        Some(t) => {
            file.object_request.time_of_examination = t;
        },
        None => {},
    }
    match xml_get_patient_patient_id(events) {
        Some(id) => {
            file.object_patient.patient_number = id;
        },
        None => {},
    }
    match xml_get_patient_name(events) {
        Some(name) => {
            file.object_patient.patient_name = name;
        },
        None => {},
    }
    match xml_get_patient_birth_date(events) {
        Some(bd) => {
            match crate::gdt::dcm_date_to_gdt(&bd) {
                Some(d) => {
                    file.object_patient.patient_dob = d;
                },
                None => {},
            }
        },
        None => {},
    }
    match xml_get_patient_sex(events) {
        Some(sx) => {
            match crate::gdt::dcm_gender_to_gdt(&sx) {
                Some(g) => {
                    file.object_patient.patient_gender = g;
                },
                None => {},
            }
        },
        None => {},
    }
    match xml_get_patient_weight_kg(events) {
        Some(w) => {
            file.object_basic_diagnostics.patient_weight = w;
        },
        None => {},
    }
    match xml_get_patient_height_meter(events) {
        Some(h) => {
            match crate::strutil::mul100(h.as_str()) {
                Some(cm) => {
                    file.object_basic_diagnostics.patient_height = cm;
                },
                None => {},
            }
        },
        None => {},
    }
    file
}

/// Gender mapping, both directions, over the record scanner and the DICOM
/// writer: code `1` is male and writes as `M`, code `2` is female and
/// writes as `F`, and any other code in field 3110 is an invalid value.
pub proof fn lemma_gender_mapping(
    lines: Seq<Seq<char>>,
    i: int,
    file: GdtFileV,
    c: Seq<char>,
)
    requires
        0 <= i < lines.len(),
        utf8_len(c) <= 990,
        lines[i] == crate::gdt::spec_gdt_line_s(crate::gdt::tag_s(3110) + c),
    ensures
        c == "1"@ ==> crate::gdt::spec_scan(lines, i, crate::gdt::ScanMode::InPatient, file)
            == crate::gdt::spec_scan(
            lines,
            i + 1,
            crate::gdt::ScanMode::InPatient,
            GdtFileV {
                object_patient: GdtPatientV {
                    patient_gender: GdtPatientGender::Male,
                    ..file.object_patient
                },
                ..file
            },
        ),
        c == "2"@ ==> crate::gdt::spec_scan(lines, i, crate::gdt::ScanMode::InPatient, file)
            == crate::gdt::spec_scan(
            lines,
            i + 1,
            crate::gdt::ScanMode::InPatient,
            GdtFileV {
                object_patient: GdtPatientV {
                    patient_gender: GdtPatientGender::Female,
                    ..file.object_patient
                },
                ..file
            },
        ),
        !(c == "1"@) && !(c == "2"@) ==> crate::gdt::spec_scan(
            lines,
            i,
            crate::gdt::ScanMode::InPatient,
            file,
        ) == Err::<GdtFileV, crate::gdt::GdtErrV>(crate::gdt::GdtErrV::InvalidValue("Gender"@, c)),
        spec_gender_dcm(GdtPatientGender::Male) == "M"@,
        spec_gender_dcm(GdtPatientGender::Female) == "F"@,
{
    crate::gdt::lemma_ser_line_decode(3110, c);
    reveal_strlit("1");
    reveal_strlit("2");
    assert("1"@ != "2"@) by {
        assert("1"@[0] == '1');
        assert("2"@[0] == '2');
    }
    reveal_strlit("M");
    reveal_strlit("F");
    assert("M"@ =~= seq!['M']);
    assert("F"@ =~= seq!['F']);
}

// ---------------------------------------------------------------------------
// Built-in skeletons
// ---------------------------------------------------------------------------

/// The data-set attributes of each transfer syntax.
pub open spec fn spec_ds_attrs(tt: DcmTransferType) -> Seq<XmlAttrV> {
    match tt {
        DcmTransferType::JPEGBaseline => seq![
            XmlAttrV { name: "xfer"@, value: "1.2.840.10008.1.2.4.50"@ },
            XmlAttrV { name: "name"@, value: "JPEG Baseline"@ },
        ],
        DcmTransferType::LittleEndianExplicit => seq![
            XmlAttrV { name: "xfer"@, value: "1.2.840.10008.1.2.1"@ },
            XmlAttrV { name: "name"@, value: "Little Endian Explicit"@ },
        ],
    }
}

/// The built-in skeleton before meta-header synthesis: a file-format
/// holding one data-set pre-populated with the standard study elements and
/// a scheduled-procedure-step sequence stamped with the given date and
/// time. The JPEG Baseline variant carries SOP class and instance
/// elements; the Little Endian Explicit one a study instance UID.
pub open spec fn spec_default_base(tt: DcmTransferType, date: Seq<char>, time: Seq<char>) -> Seq<
    XmlNodeV,
> {
    let ff_open = seq![
        XmlNodeV::Start { name: "file-format"@, attributes: Seq::empty() },
        XmlNodeV::Start { name: "data-set"@, attributes: spec_ds_attrs(tt) },
    ];
    let jpeg_head = match tt {
        DcmTransferType::JPEGBaseline => spec_el(
            "0008,0016"@,
            "UI"@,
            "1"@,
            "28"@,
            "SOPClassUID"@,
            "1.2.840.10008.5.1.4.1.1.7.2"@,
        ) + spec_el("0008,0018"@, "UI"@, "1"@, "50"@, "SOPInstanceUID"@, Seq::empty()),
        DcmTransferType::LittleEndianExplicit => Seq::empty(),
    };
    let lee_uid = match tt {
        DcmTransferType::JPEGBaseline => Seq::empty(),
        DcmTransferType::LittleEndianExplicit => spec_el(
            "0020,000d"@,
            "UI"@,
            "1"@,
            "26"@,
            "StudyInstanceUID"@,
            "1.2.276.0.7230010.3.2.109"@,
        ),
    };
    ff_open + jpeg_head + spec_el("0008,0020"@, "DA"@, "0"@, "0"@, "StudyDate"@, Seq::empty())
        + spec_el("0008,0030"@, "TM"@, "0"@, "0"@, "StudyTime"@, Seq::empty()) + spec_el(
        "0008,0050"@,
        "SH"@,
        "0"@,
        "0"@,
        "AccessionNumber"@,
        Seq::empty(),
    ) + spec_el("0008,0090"@, "PN"@, "0"@, "0"@, "ReferringPhysicianName"@, Seq::empty()) + lee_uid
        + spec_el("0020,0010"@, "SH"@, "0"@, "0"@, "StudyID"@, Seq::empty()) + spec_el(
        "0020,0011"@,
        "IS"@,
        "0"@,
        "0"@,
        "SeriesNumber"@,
        Seq::empty(),
    ) + spec_el("0020,0013"@, "IS"@, "0"@, "0"@, "InstanceNumber"@, Seq::empty()) + seq![
        XmlNodeV::Start {
            name: "sequence"@,
            attributes: seq![
                XmlAttrV { name: "tag"@, value: "0040,0100"@ },
                XmlAttrV { name: "vr"@, value: "SQ"@ },
                XmlAttrV { name: "card"@, value: "1"@ },
                XmlAttrV { name: "len"@, value: "24"@ },
                XmlAttrV { name: "name"@, value: "ScheduledProcedureStepSequence"@ },
            ],
        },
        XmlNodeV::Start {
            name: "item"@,
            attributes: seq![
                XmlAttrV { name: "card"@, value: "1"@ },
                XmlAttrV { name: "len"@, value: "16"@ },
            ],
        },
    ] + spec_el("0040,0002"@, "DA"@, "1"@, "8"@, "ScheduledProcedureStepStartDate"@, date)
        + spec_el("0040,0003"@, "TM"@, "1"@, "6"@, "ScheduledProcedureStepStartTime"@, time)
        + seq![
        XmlNodeV::End { name: "item"@ },
        XmlNodeV::End { name: "sequence"@ },
        XmlNodeV::End { name: "data-set"@ },
        XmlNodeV::End { name: "file-format"@ },
    ]
}

/// The built-in skeleton for a transfer syntax, stamped with the given
/// date and time, with its meta-header synthesized.
pub open spec fn spec_default_doc(tt: DcmTransferType, date: Seq<char>, time: Seq<char>) -> Seq<
    XmlNodeV,
> {
    spec_add_meta(tt, spec_default_base(tt, date, time))
}

/// Builds the skeleton for a transfer syntax, stamping the scheduled step
/// with the given date (`YYYYMMDD`) and time (`HHMMSS`).
#[verifier::rlimit(100)]
pub fn default_dcm_xml_at(transfer_type: DcmTransferType, today: &str, current_time: &str) -> (r:
    Vec<XmlNode>)
    ensures
        r.deep_view() == spec_default_doc(transfer_type, today@, current_time@),
{
    let ghost base: Seq<XmlNodeV> = spec_default_base(transfer_type, today@, current_time@);
    let ghost mut cur: Seq<XmlNodeV> = Seq::empty();
    let mut v: Vec<XmlNode> = Vec::new();
    v.push(XmlNode::Start { name: String::from_str("file-format"), attributes: Vec::new() });
    proof {
        cur = cur + seq![
            XmlNodeV::Start { name: "file-format"@, attributes: Seq::<XmlAttrV>::empty() },
        ];
        assert(v.deep_view() =~~= cur);
    }
    let mut ds_attrs: Vec<XmlAttr> = Vec::new();
    match transfer_type {
        DcmTransferType::JPEGBaseline => {
            ds_attrs.push(attr("xfer", "1.2.840.10008.1.2.4.50"));
            ds_attrs.push(attr("name", "JPEG Baseline"));
        },
        DcmTransferType::LittleEndianExplicit => {
            ds_attrs.push(attr("xfer", "1.2.840.10008.1.2.1"));
            ds_attrs.push(attr("name", "Little Endian Explicit"));
        },
    }
    proof {
        assert(ds_attrs.deep_view() =~= spec_ds_attrs(transfer_type));
    }
    v.push(XmlNode::Start { name: String::from_str("data-set"), attributes: ds_attrs });
    proof {
        cur = cur + seq![
            XmlNodeV::Start { name: "data-set"@, attributes: spec_ds_attrs(transfer_type) },
        ];
        assert(v.deep_view() =~~= cur);
    }
    let jpeg_head: Vec<XmlNode> = match transfer_type {
        DcmTransferType::JPEGBaseline => {
            let h: Vec<XmlNode> = el(
                "0008,0016",
                "UI",
                "1",
                "28",
                "SOPClassUID",
                "1.2.840.10008.5.1.4.1.1.7.2",
            );
            append_events(h, &el("0008,0018", "UI", "1", "50", "SOPInstanceUID", ""))
        },
        DcmTransferType::LittleEndianExplicit => Vec::new(),
    };
    proof {
        reveal_strlit("");
        assert(""@ =~= Seq::<char>::empty());
    }
    let mut v: Vec<XmlNode> = append_events(v, &jpeg_head);
    proof {
        cur = cur + jpeg_head.deep_view();
        assert(v.deep_view() =~~= cur);
    }
    v = append_events(v, &el("0008,0020", "DA", "0", "0", "StudyDate", ""));
    v = append_events(v, &el("0008,0030", "TM", "0", "0", "StudyTime", ""));
    v = append_events(v, &el("0008,0050", "SH", "0", "0", "AccessionNumber", ""));
    v = append_events(v, &el("0008,0090", "PN", "0", "0", "ReferringPhysicianName", ""));
    proof {
        cur = cur + spec_el("0008,0020"@, "DA"@, "0"@, "0"@, "StudyDate"@, Seq::empty()) + spec_el(
            "0008,0030"@,
            "TM"@,
            "0"@,
            "0"@,
            "StudyTime"@,
            Seq::empty(),
        ) + spec_el("0008,0050"@, "SH"@, "0"@, "0"@, "AccessionNumber"@, Seq::empty()) + spec_el(
            "0008,0090"@,
            "PN"@,
            "0"@,
            "0"@,
            "ReferringPhysicianName"@,
            Seq::empty(),
        );
        assert(v.deep_view() =~~= cur);
    }
    let lee_uid: Vec<XmlNode> = match transfer_type {
        DcmTransferType::JPEGBaseline => Vec::new(),
        DcmTransferType::LittleEndianExplicit => el(
            "0020,000d",
            "UI",
            "1",
            "26",
            "StudyInstanceUID",
            "1.2.276.0.7230010.3.2.109",
        ),
    };
    v = append_events(v, &lee_uid);
    v = append_events(v, &el("0020,0010", "SH", "0", "0", "StudyID", ""));
    v = append_events(v, &el("0020,0011", "IS", "0", "0", "SeriesNumber", ""));
    v = append_events(v, &el("0020,0013", "IS", "0", "0", "InstanceNumber", ""));
    proof {
        cur = cur + lee_uid.deep_view() + spec_el(
            "0020,0010"@,
            "SH"@,
            "0"@,
            "0"@,
            "StudyID"@,
            Seq::empty(),
        ) + spec_el("0020,0011"@, "IS"@, "0"@, "0"@, "SeriesNumber"@, Seq::empty()) + spec_el(
            "0020,0013"@,
            "IS"@,
            "0"@,
            "0"@,
            "InstanceNumber"@,
            Seq::empty(),
        );
        assert(v.deep_view() =~~= cur);
    }
    let mut sq_attrs: Vec<XmlAttr> = Vec::new();
    sq_attrs.push(attr("tag", "0040,0100"));
    sq_attrs.push(attr("vr", "SQ"));
    sq_attrs.push(attr("card", "1"));
    sq_attrs.push(attr("len", "24"));
    sq_attrs.push(attr("name", "ScheduledProcedureStepSequence"));
    let mut item_attrs: Vec<XmlAttr> = Vec::new();
    item_attrs.push(attr("card", "1"));
    item_attrs.push(attr("len", "16"));
    let ghost sq_attrs_s: Seq<XmlAttrV> = sq_attrs.deep_view();
    let ghost item_attrs_s: Seq<XmlAttrV> = item_attrs.deep_view();
    v.push(XmlNode::Start { name: String::from_str("sequence"), attributes: sq_attrs });
    v.push(XmlNode::Start { name: String::from_str("item"), attributes: item_attrs });
    proof {
        assert(sq_attrs_s =~= seq![
            XmlAttrV { name: "tag"@, value: "0040,0100"@ },
            XmlAttrV { name: "vr"@, value: "SQ"@ },
            XmlAttrV { name: "card"@, value: "1"@ },
            XmlAttrV { name: "len"@, value: "24"@ },
            XmlAttrV { name: "name"@, value: "ScheduledProcedureStepSequence"@ },
        ]);
        assert(item_attrs_s =~= seq![
            XmlAttrV { name: "card"@, value: "1"@ },
            XmlAttrV { name: "len"@, value: "16"@ },
        ]);
        cur = cur + seq![
            XmlNodeV::Start { name: "sequence"@, attributes: sq_attrs_s },
            XmlNodeV::Start { name: "item"@, attributes: item_attrs_s },
        ];
        assert(v.deep_view() =~~= cur);
    }
    v = append_events(
        v,
        &el("0040,0002", "DA", "1", "8", "ScheduledProcedureStepStartDate", today),
    );
    v = append_events(
        v,
        &el("0040,0003", "TM", "1", "6", "ScheduledProcedureStepStartTime", current_time),
    );
    v.push(XmlNode::End { name: String::from_str("item") });
    v.push(XmlNode::End { name: String::from_str("sequence") });
    v.push(XmlNode::End { name: String::from_str("data-set") });
    v.push(XmlNode::End { name: String::from_str("file-format") });
    proof {
        cur = cur + spec_el(
            "0040,0002"@,
            "DA"@,
            "1"@,
            "8"@,
            "ScheduledProcedureStepStartDate"@,
            today@,
        ) + spec_el("0040,0003"@, "TM"@, "1"@, "6"@, "ScheduledProcedureStepStartTime"@,
            current_time@) + seq![
            XmlNodeV::End { name: "item"@ },
            XmlNodeV::End { name: "sequence"@ },
            XmlNodeV::End { name: "data-set"@ },
            XmlNodeV::End { name: "file-format"@ },
        ];
        assert(v.deep_view() =~~= cur);
        assert(cur =~~= base);
        assert(v.deep_view() == base);
    }
    add_meta_header_if_not_exist(transfer_type, &mut v);
    v
}

/// Relies on chrono's UTC clock and formatter: the current UTC date,
/// written `YYYYMMDD`.
#[verifier::external_body]
fn now_date_utc() -> (r: String) {
    let dt: chrono::DateTime<chrono::Utc> = std::time::SystemTime::now().into();
    dt.format("%Y%m%d").to_string()
}

/// Relies on chrono's UTC clock and formatter: the current UTC time,
/// written `HHMMSS`.
#[verifier::external_body]
fn now_time_utc() -> (r: String) {
    let dt: chrono::DateTime<chrono::Utc> = std::time::SystemTime::now().into();
    dt.format("%H%M%S").to_string()
}

/// The built-in skeleton for a transfer syntax, stamped with the current
/// UTC date and time.
pub fn default_dcm_xml(transfer_type: DcmTransferType) -> (r: Vec<XmlNode>)
    ensures
        exists|d: Seq<char>, t: Seq<char>| r.deep_view() == spec_default_doc(transfer_type, d, t),
{
    let date: String = now_date_utc();
    let time: String = now_time_utc();
    let r: Vec<XmlNode> = default_dcm_xml_at(transfer_type, date.as_str(), time.as_str());
    proof {
        assert(r.deep_view() == spec_default_doc(transfer_type, date@, time@));
    }
    r
}

/// Parses toolkit-produced XML text and synthesizes a meta-header if the
/// document has none: succeeds exactly when the reader accepts the text.
pub fn parse_dcm_xml(text: &str) -> (r: Result<Vec<XmlNode>, XmlError>)
    ensures
        r is Ok == xml_parse_ok(text@),
        r matches Ok(v) ==> v.deep_view() == spec_add_meta(
            DcmTransferType::JPEGBaseline,
            xml_doc_of(text@),
        ),
{
    match parse_xml_events(text) {
        Ok(v) => {
            let mut events: Vec<XmlNode> = v;
            add_meta_header_if_not_exist(DcmTransferType::JPEGBaseline, &mut events);
            Ok(events)
        },
        Err(e) => Err(e),
    }
}

} // verus!
