use gdt2dicom::command::binary_to_path;
use gdt2dicom::dcm_xml::{
    apply_gdt_fields, default_dcm_xml_at, xml_get_patient_birth_date, xml_get_patient_patient_id,
    xml_get_patient_sex, DcmTransferType,
};
use gdt2dicom::gdt::{file_to_string, parse_file};
use gdt2dicom::jpeg_extraction::extract_jpeg_from_dicom;
use gdt2dicom::opp::{default_opp_xml, file_to_xml, gdt_date_to_opp, insert_patient_to_xml};
use gdt2dicom::strutil::{div100, mul100, parse_u32, str_eq, u32_to_dec, u32_to_dec_pad};
use gdt2dicom::worklist::{wl_filename_at, WorklistConversion};

fn to_lines(s: &str) -> Vec<String> {
    let mut lines: Vec<String> = Vec::new();
    for part in s.split("\r\n") {
        if !part.is_empty() {
            lines.push(part.to_string());
        }
    }
    lines
}

/// A GDT record for one patient, written the way a practice system would.
fn patient_record_lines() -> Vec<String> {
    let mut file = gdt2dicom::gdt::empty_gdt_file();
    file.object_patient.patient_number = "12345".to_string();
    file.object_patient.patient_name = "Müller".to_string();
    file.object_patient.patient_first_name = "Hans".to_string();
    file.object_patient.patient_dob = "01021980".to_string();
    file.object_patient.patient_gender = gdt2dicom::gdt::GdtPatientGender::Male;
    to_lines(&file_to_string(file))
}

#[test]
fn full_conversion_of_one_record() {
    let lines = patient_record_lines();
    let parsed = parse_file(&lines).expect("record parses");
    assert_eq!(parsed.object_patient.patient_number, "12345");

    // The produced worklist file lands in the bare root under the
    // patient's name and the conversion timestamp.
    let filename = wl_filename_at(
        parsed.object_patient.patient_first_name.as_str(),
        parsed.object_patient.patient_name.as_str(),
        "01.02.2024_10.30.00",
    );
    assert_eq!(filename, "Hans_Müller_01.02.2024_10.30.00.wl");
    let wc = WorklistConversion::new();
    let out = wc.output_folder(&Some("root".to_string())).unwrap();
    assert_eq!(out.folder, "root");
    assert!(out.lockfile.is_none());

    // The underlying DICOM XML carries the converted patient fields.
    let skeleton = default_dcm_xml_at(DcmTransferType::LittleEndianExplicit, "20240201", "103000");
    let doc = apply_gdt_fields(&parsed, &skeleton);
    assert_eq!(xml_get_patient_patient_id(&doc).unwrap(), "12345");
    assert_eq!(xml_get_patient_birth_date(&doc).unwrap(), "19800201");
    assert_eq!(xml_get_patient_sex(&doc).unwrap(), "M");
}

#[test]
fn binary_names_resolve_to_themselves() {
    assert_eq!(binary_to_path("xml2dcm".to_string()), "xml2dcm");
}

#[test]
fn opp_date_gets_dashes() {
    assert_eq!(gdt_date_to_opp(&"01021980".to_string()).unwrap(), "1980-02-01");
    assert!(gdt_date_to_opp(&"0102".to_string()).is_none());
}

#[test]
fn opp_document_carries_the_patient() {
    let mut file = gdt2dicom::gdt::empty_gdt_file();
    file.object_patient.patient_number = "77".to_string();
    file.object_patient.patient_first_name = "Erika".to_string();
    file.object_patient.patient_name = "Muster".to_string();
    file.object_patient.patient_dob = "24121999".to_string();
    let mut events = default_opp_xml();
    insert_patient_to_xml(&file, &mut events);
    let text = file_to_xml(&file).expect("serializes");
    assert!(text.contains("reference=\"77\""));
    assert!(text.contains("firstName=\"Erika\""));
    assert!(text.contains("lastName=\"Muster\""));
    assert!(text.contains("birthdate=\"1999-12-24\""));
    assert!(text.contains("gender=\"MALE\""));
    assert!(text.contains("UPDATE_CREATE"));
}

#[test]
fn jpeg_extraction_needs_a_patient_id() {
    let empty: Vec<gdt2dicom::dcm_xml::XmlNode> = Vec::new();
    assert!(
        extract_jpeg_from_dicom(&empty, &"x.dcm".to_string(), &"/pics".to_string()).is_none()
    );
    let text = "<file-format><data-set>\
                <element tag=\"0010,0020\" vr=\"LO\" vm=\"1\" len=\"2\" name=\"PatientID\">77</element>\
                </data-set></file-format>";
    let events = gdt2dicom::dcm_xml::parse_xml_events(text).unwrap();
    let inv = extract_jpeg_from_dicom(&events, &"x.dcm".to_string(), &"/pics".to_string())
        .expect("has a patient id");
    assert_eq!(inv.program, "dcmj2pnm");
    assert_eq!(
        inv.args,
        vec![
            "+oj".to_string(),
            "+Wm".to_string(),
            "+Fa".to_string(),
            "x.dcm".to_string(),
            "/pics/77".to_string()
        ]
    );
}

#[test]
fn decimal_helpers_are_exact() {
    assert_eq!(parse_u32("0042").unwrap(), 42);
    assert_eq!(parse_u32("4294967295").unwrap(), u32::MAX);
    assert!(parse_u32("4294967296").is_none());
    assert!(parse_u32("12a").is_none());
    assert!(parse_u32("").is_none());
    assert_eq!(u32_to_dec(0), "0");
    assert_eq!(u32_to_dec(8202), "8202");
    assert_eq!(u32_to_dec_pad(7, 3), "007");
    assert_eq!(u32_to_dec_pad(1234, 3), "1234");
    assert!(str_eq("abc", "abc"));
    assert!(!str_eq("abc", "abd"));
    assert_eq!(div100("170").unwrap(), "1.7");
    assert_eq!(div100("5").unwrap(), "0.05");
    assert_eq!(div100("170.5").unwrap(), "1.705");
    assert!(div100("x").is_none());
    assert!(div100("1.").is_none());
    assert_eq!(mul100("1.75").unwrap(), "175");
    assert_eq!(mul100("1.7").unwrap(), "170");
    assert_eq!(mul100("0.05").unwrap(), "5");
    assert_eq!(mul100("2").unwrap(), "200");
    assert!(mul100("").is_none());
}
