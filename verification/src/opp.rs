//! The practice-management exchange document: a small XML command file
//! carrying one patient element, built from a GDT record.

use vstd::prelude::*;

use crate::dcm_xml::{
    attr, find_end, lemma_find_end_range, spec_find_end, splice_at, write_xml_events, XmlAttr,
    XmlAttrV, XmlError, XmlNode, XmlNodeV,
};
use crate::gdt::{GdtFile, GdtPatientGender};

verus! {

/// A GDT date (`DDMMYYYY`) written `YYYY-MM-DD`. `None` unless the input
/// is exactly eight characters.
pub open spec fn spec_gdt_date_to_opp(s: Seq<char>) -> Seq<char>
    recommends
        s.len() == 8,
{
    s.subrange(4, 8) + seq!['-'] + s.subrange(2, 4) + seq!['-'] + s.subrange(0, 2)
}

/// Converts a GDT date to the dashed `YYYY-MM-DD` form; `None` unless the
/// input is exactly eight characters.
pub fn gdt_date_to_opp(s: &String) -> (r: Option<String>)
    ensures
        match r {
            Some(t) => s@.len() == 8 && t@ == spec_gdt_date_to_opp(s@),
            None => s@.len() != 8,
        },
{
    if s.as_str().unicode_len() != 8 {
        return None;
    }
    let mut out: String = String::from_str(s.as_str().substring_char(4, 8));
    out.append("-");
    out.append(s.as_str().substring_char(2, 4));
    out.append("-");
    out.append(s.as_str().substring_char(0, 2));
    proof {
        reveal_strlit("-");
        assert(out@ =~= spec_gdt_date_to_opp(s@));
    }
    Some(out)
}

/// The gender word of the exchange dialect.
pub open spec fn spec_opp_gender(g: GdtPatientGender) -> Seq<char> {
    match g {
        GdtPatientGender::Male => "MALE"@,
        GdtPatientGender::Female => "FEMALE"@,
    }
}

/// The two events of the patient element: reference, names, the dashed
/// birth date (empty when the record's date is malformed), and the gender
/// word.
pub open spec fn spec_patient_nodes(f: crate::gdt::GdtFileV) -> Seq<XmlNodeV> {
    seq![
        XmlNodeV::Start {
            name: "patient"@,
            attributes: seq![
                XmlAttrV { name: "reference"@, value: f.object_patient.patient_number },
                XmlAttrV { name: "firstName"@, value: f.object_patient.patient_first_name },
                XmlAttrV { name: "lastName"@, value: f.object_patient.patient_name },
                XmlAttrV {
                    name: "birthdate"@,
                    value: if f.object_patient.patient_dob.len() == 8 {
                        spec_gdt_date_to_opp(f.object_patient.patient_dob)
                    } else {
                        Seq::empty()
                    },
                },
                XmlAttrV {
                    name: "gender"@,
                    value: spec_opp_gender(f.object_patient.patient_gender),
                },
            ],
        },
        XmlNodeV::End { name: "patient"@ },
    ]
}

/// Where the patient element goes: right before the close of the `opp`
/// element, or near the end of the document when that close is absent.
pub open spec fn spec_opp_insert_pos(doc: Seq<XmlNodeV>) -> int {
    match spec_find_end(doc, "opp"@) {
        Some(i) => i,
        None => if doc.len() >= 2 {
            doc.len() - 2
        } else {
            doc.len() as int
        },
    }
}

/// The document with the record's patient element spliced in before the
/// close of the `opp` element.
pub open spec fn spec_insert_patient(f: crate::gdt::GdtFileV, doc: Seq<XmlNodeV>) -> Seq<
    XmlNodeV,
> {
    let p = spec_opp_insert_pos(doc);
    doc.take(p) + spec_patient_nodes(f) + doc.skip(p)
}

/// Inserts the record's patient element before the close of the `opp`
/// element.
pub fn insert_patient_to_xml(file: &GdtFile, events: &mut Vec<XmlNode>)
    ensures
        final(events).deep_view() == spec_insert_patient(file@, old(events).deep_view()),
{
    let ghost dv: Seq<XmlNodeV> = events.deep_view();
    let p: usize = match find_end(events, "opp") {
        Some(i) => i,
        None => if events.len() >= 2 {
            events.len() - 2
        } else {
            events.len()
        },
    };
    proof {
        lemma_find_end_range(dv, "opp"@);
        assert(p as int == spec_opp_insert_pos(dv));
    }
    let birth: String = match gdt_date_to_opp(&file.object_patient.patient_dob) {
        Some(d) => d,
        None => String::new(),
    };
    let gender: &str = match file.object_patient.patient_gender {
        GdtPatientGender::Male => "MALE",
        GdtPatientGender::Female => "FEMALE",
    };
    let mut attrs: Vec<XmlAttr> = Vec::new();
    attrs.push(attr("reference", file.object_patient.patient_number.as_str()));
    attrs.push(attr("firstName", file.object_patient.patient_first_name.as_str()));
    attrs.push(attr("lastName", file.object_patient.patient_name.as_str()));
    attrs.push(attr("birthdate", birth.as_str()));
    attrs.push(attr("gender", gender));
    let mut patient: Vec<XmlNode> = Vec::new();
    patient.push(XmlNode::Start { name: String::from_str("patient"), attributes: attrs });
    patient.push(XmlNode::End { name: String::from_str("patient") });
    proof {
        assert(patient.deep_view() =~~= spec_patient_nodes(file@));
    }
    let spliced: Vec<XmlNode> = splice_at(events, p, &patient);
    *events = spliced;
}

/// The exchange skeleton: an `opp` document carrying the update command
/// and this software's identification.
pub open spec fn spec_opp_base() -> Seq<XmlNodeV> {
    seq![
        XmlNodeV::Start {
            name: "opp"@,
            attributes: seq![XmlAttrV { name: "version"@, value: "1.2"@ }],
        },
        XmlNodeV::Start {
            name: "command"@,
            attributes: seq![
                XmlAttrV { name: "type"@, value: "UPDATE_CREATE"@ },
                XmlAttrV { name: "silent"@, value: "NO"@ },
            ],
        },
        XmlNodeV::End { name: "command"@ },
        XmlNodeV::Start {
            name: "software"@,
            attributes: seq![
                XmlAttrV { name: "name"@, value: "gdt2dicom"@ },
                XmlAttrV { name: "version"@, value: "0.1.0"@ },
            ],
        },
        XmlNodeV::End { name: "software"@ },
        XmlNodeV::End { name: "opp"@ },
    ]
}

/// Builds the exchange skeleton.
pub fn default_opp_xml() -> (r: Vec<XmlNode>)
    ensures
        r.deep_view() == spec_opp_base(),
{
    let mut opp_attrs: Vec<XmlAttr> = Vec::new();
    opp_attrs.push(attr("version", "1.2"));
    let mut cmd_attrs: Vec<XmlAttr> = Vec::new();
    cmd_attrs.push(attr("type", "UPDATE_CREATE"));
    cmd_attrs.push(attr("silent", "NO"));
    let mut sw_attrs: Vec<XmlAttr> = Vec::new();
    sw_attrs.push(attr("name", "gdt2dicom"));
    sw_attrs.push(attr("version", "0.1.0"));
    let mut r: Vec<XmlNode> = Vec::new();
    r.push(XmlNode::Start { name: String::from_str("opp"), attributes: opp_attrs });
    r.push(XmlNode::Start { name: String::from_str("command"), attributes: cmd_attrs });
    r.push(XmlNode::End { name: String::from_str("command") });
    r.push(XmlNode::Start { name: String::from_str("software"), attributes: sw_attrs });
    r.push(XmlNode::End { name: String::from_str("software") });
    r.push(XmlNode::End { name: String::from_str("opp") });
    proof {
        assert(r.deep_view() =~~= spec_opp_base());
    }
    r
}

/// Serializes the exchange document for a GDT record: the skeleton with
/// the record's patient element inserted. Succeeds exactly when the writer
/// accepts the document.
pub fn file_to_xml(file: &GdtFile) -> (r: Result<String, XmlError>)
    ensures
        r is Ok == crate::dcm_xml::xml_write_ok(spec_insert_patient(file@, spec_opp_base())),
        r matches Ok(s) ==> s@ == crate::dcm_xml::xml_text_of(
            spec_insert_patient(file@, spec_opp_base()),
        ),
{
    let mut events: Vec<XmlNode> = default_opp_xml();
    insert_patient_to_xml(file, &mut events);
    write_xml_events(&events)
}

} // verus!
