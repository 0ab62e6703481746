use gdt2dicom::dcm_xml::{
    apply_gdt_fields, dcm_xml_to_file, default_dcm_xml, default_dcm_xml_at, file_to_xml,
    gdt_date_to_dcm, gdt_gender_to_dcm, gdt_get_patient_name, gdt_get_patient_name_annex,
    gdt_get_patient_height_in_meters, parse_dcm_xml, parse_xml_events, write_xml_events,
    xml_contains, xml_get_patient_birth_date, xml_get_patient_name, xml_get_patient_patient_id,
    xml_get_patient_sex, xml_get_patient_weight_kg, xml_get_study_date, xml_get_study_time,
    DcmTransferType, XmlNode,
};
use gdt2dicom::gdt::{empty_gdt_file, GdtPatientGender};

fn sample_file() -> gdt2dicom::gdt::GdtFile {
    let mut file = empty_gdt_file();
    file.object_patient.patient_number = "12345".to_string();
    file.object_patient.patient_name = "Müller".to_string();
    file.object_patient.patient_first_name = "Hans".to_string();
    file.object_patient.patient_dob = "01021980".to_string();
    file.object_patient.patient_gender = GdtPatientGender::Male;
    file.object_basic_diagnostics.patient_height = "170".to_string();
    file.object_basic_diagnostics.patient_weight = "70".to_string();
    file
}

#[test]
fn worklist_name_is_uppercased_and_caret_joined() {
    let file = sample_file();
    assert_eq!(gdt_get_patient_name(&file.object_patient), "MÜLLER^HANS");
}

#[test]
fn worklist_name_spaces_become_carets() {
    let mut file = sample_file();
    file.object_patient.patient_name = "de Boer".to_string();
    assert_eq!(gdt_get_patient_name(&file.object_patient), "DE^BOER^HANS");
}

#[test]
fn worklist_name_single_part() {
    let mut file = sample_file();
    file.object_patient.patient_first_name = String::new();
    assert_eq!(gdt_get_patient_name(&file.object_patient), "MÜLLER");
}

#[test]
fn annex_name_is_natural_order() {
    let file = sample_file();
    assert_eq!(gdt_get_patient_name_annex(&file.object_patient), "Hans Müller");
}

#[test]
fn gdt_date_to_dcm_rearranges() {
    assert_eq!(gdt_date_to_dcm(&"01021980".to_string()).unwrap(), "19800201");
    assert!(gdt_date_to_dcm(&"0102198".to_string()).is_none());
}

#[test]
fn date_round_trip_on_dates() {
    let d = "24121999".to_string();
    let dcm = gdt_date_to_dcm(&d).unwrap();
    let back = gdt2dicom::gdt::dcm_date_to_gdt(&dcm).unwrap();
    assert_eq!(back, d);
}

#[test]
fn gender_writes_m_and_f() {
    assert_eq!(gdt_gender_to_dcm(&GdtPatientGender::Male), "M");
    assert_eq!(gdt_gender_to_dcm(&GdtPatientGender::Female), "F");
}

#[test]
fn height_in_meters_is_exact() {
    let mut file = sample_file();
    assert_eq!(gdt_get_patient_height_in_meters(&file.object_basic_diagnostics).unwrap(), "1.7");
    file.object_basic_diagnostics.patient_height = "165".to_string();
    assert_eq!(gdt_get_patient_height_in_meters(&file.object_basic_diagnostics).unwrap(), "1.65");
    file.object_basic_diagnostics.patient_height = "170.5".to_string();
    assert_eq!(
        gdt_get_patient_height_in_meters(&file.object_basic_diagnostics).unwrap(),
        "1.705"
    );
    file.object_basic_diagnostics.patient_height = "100".to_string();
    assert_eq!(gdt_get_patient_height_in_meters(&file.object_basic_diagnostics).unwrap(), "1");
    file.object_basic_diagnostics.patient_height = "tall".to_string();
    assert!(gdt_get_patient_height_in_meters(&file.object_basic_diagnostics).is_none());
}

#[test]
fn apply_fields_inserts_patient_elements() {
    let file = sample_file();
    let skeleton = default_dcm_xml_at(DcmTransferType::LittleEndianExplicit, "20240101", "120000");
    let patched = apply_gdt_fields(&file, &skeleton);
    assert_eq!(xml_get_patient_patient_id(&patched).unwrap(), "12345");
    assert_eq!(xml_get_patient_birth_date(&patched).unwrap(), "19800201");
    assert_eq!(xml_get_patient_sex(&patched).unwrap(), "M");
    assert_eq!(xml_get_patient_name(&patched).unwrap(), "MÜLLER^HANS");
    assert_eq!(xml_get_patient_weight_kg(&patched).unwrap(), "70");
}

#[test]
fn apply_fields_twice_is_idempotent() {
    let file = sample_file();
    let skeleton = default_dcm_xml_at(DcmTransferType::LittleEndianExplicit, "20240101", "120000");
    let once = apply_gdt_fields(&file, &skeleton);
    let twice = apply_gdt_fields(&file, &once);
    assert_eq!(once, twice);
}

#[test]
fn apply_fields_does_not_duplicate_existing_identity() {
    let file = sample_file();
    let skeleton = default_dcm_xml_at(DcmTransferType::LittleEndianExplicit, "20240101", "120000");
    let once = apply_gdt_fields(&file, &skeleton);
    let mut starts = 0;
    for ev in once.iter() {
        if let XmlNode::Start { name, attributes } = ev {
            if name == "element" {
                let is_pid = attributes.iter().any(|a| a.name == "tag" && a.value == "0010,0020");
                if is_pid {
                    starts += 1;
                }
            }
        }
    }
    assert_eq!(starts, 1);
}

#[test]
fn default_skeletons_have_stamped_schedule() {
    let doc = default_dcm_xml_at(DcmTransferType::LittleEndianExplicit, "20240101", "120000");
    let mut found_date = false;
    for ev in doc.iter() {
        if let XmlNode::Text { content } = ev {
            if content == "20240101" {
                found_date = true;
            }
        }
    }
    assert!(found_date);
    assert!(xml_contains(&doc, "0020,000d", "StudyInstanceUID"));
    let jpeg = default_dcm_xml_at(DcmTransferType::JPEGBaseline, "20240101", "120000");
    assert!(xml_contains(&jpeg, "0008,0016", "SOPClassUID"));
    assert!(xml_contains(&jpeg, "0002,0002", "MediaStorageSOPClassUID"));
    assert!(!xml_contains(&doc, "0002,0002", "MediaStorageSOPClassUID"));
}

#[test]
fn default_skeleton_with_clock_has_meta_header() {
    let doc = default_dcm_xml(DcmTransferType::LittleEndianExplicit);
    assert!(xml_contains(&doc, "0002,0010", "TransferSyntaxUID"));
}

#[test]
fn xml_text_round_trips_through_reader() {
    let file = sample_file();
    let skeleton = default_dcm_xml_at(DcmTransferType::LittleEndianExplicit, "20240101", "120000");
    let text = file_to_xml(&file, &skeleton).expect("serializes");
    let parsed = parse_xml_events(&text).expect("parses back");
    assert_eq!(xml_get_patient_patient_id(&parsed).unwrap(), "12345");
    assert_eq!(xml_get_patient_birth_date(&parsed).unwrap(), "19800201");
    assert_eq!(xml_get_patient_sex(&parsed).unwrap(), "M");
}

#[test]
fn writer_escapes_and_reader_unescapes() {
    let mut file = sample_file();
    file.object_patient.patient_number = "a<b&c".to_string();
    let skeleton = default_dcm_xml_at(DcmTransferType::LittleEndianExplicit, "20240101", "120000");
    let text = file_to_xml(&file, &skeleton).expect("serializes");
    assert!(!text.contains("<b&c"));
    let parsed = parse_xml_events(&text).expect("parses back");
    assert_eq!(xml_get_patient_patient_id(&parsed).unwrap(), "a<b&c");
}

#[test]
fn parse_dcm_xml_synthesizes_meta_header() {
    let text = "<file-format><data-set xfer=\"1.2.840.10008.1.2.1\" name=\"LEE\">\
                <element tag=\"0010,0020\" vr=\"LO\" vm=\"1\" len=\"0\" name=\"PatientID\">77</element>\
                </data-set></file-format>";
    let parsed = parse_dcm_xml(text).expect("parses");
    assert!(xml_contains(&parsed, "0002,0010", "TransferSyntaxUID"));
    assert_eq!(xml_get_patient_patient_id(&parsed).unwrap(), "77");
}

#[test]
fn malformed_xml_is_an_error() {
    assert!(parse_xml_events("<file-format><unclosed").is_err());
}

#[test]
fn dcm_xml_to_file_reads_fields_back() {
    let text = "<file-format><data-set>\
                <element tag=\"0008,0020\" vr=\"DA\" vm=\"1\" len=\"8\" name=\"StudyDate\">19991224</element>\
                <element tag=\"0008,0030\" vr=\"TM\" vm=\"1\" len=\"6\" name=\"StudyTime\">110435</element>\
                <element tag=\"0010,0020\" vr=\"LO\" vm=\"1\" len=\"5\" name=\"PatientID\">12345</element>\
                <element tag=\"0010,0010\" vr=\"PN\" vm=\"1\" len=\"6\" name=\"PatientName\">MILLER</element>\
                <element tag=\"0010,0030\" vr=\"DA\" vm=\"1\" len=\"8\" name=\"PatientBirthDate\">19800201</element>\
                <element tag=\"0010,0040\" vr=\"CS\" vm=\"1\" len=\"1\" name=\"PatientSex\">F</element>\
                <element tag=\"0010,1020\" vr=\"DS\" vm=\"1\" len=\"4\" name=\"PatientSize\">1.75</element>\
                <element tag=\"0010,1030\" vr=\"DS\" vm=\"1\" len=\"2\" name=\"PatientWeight\">70</element>\
                </data-set></file-format>";
    let events = parse_xml_events(text).expect("parses");
    let file = dcm_xml_to_file(&events);
    assert_eq!(file.object_header_data.version_gdt, "03.00");
    assert_eq!(file.object_request.date_of_examination, "24121999");
    assert_eq!(file.object_request.time_of_examination, "110435");
    assert_eq!(file.object_patient.patient_number, "12345");
    assert_eq!(file.object_patient.patient_name, "MILLER");
    assert_eq!(file.object_patient.patient_dob, "01021980");
    assert_eq!(file.object_patient.patient_gender, GdtPatientGender::Female);
    assert_eq!(file.object_basic_diagnostics.patient_height, "175");
    assert_eq!(file.object_basic_diagnostics.patient_weight, "70");
}

#[test]
fn study_accessors_absent_yield_none() {
    let doc: Vec<XmlNode> = Vec::new();
    assert!(xml_get_study_date(&doc).is_none());
    assert!(xml_get_study_time(&doc).is_none());
    assert!(xml_get_patient_name(&doc).is_none());
}

#[test]
fn serialized_text_differs_from_input_fields() {
    // The XML writer's output carries markup around the values; the trusted
    // serializer cannot simply hand back its input.
    let file = sample_file();
    let skeleton = default_dcm_xml_at(DcmTransferType::LittleEndianExplicit, "20240101", "120000");
    let text = write_xml_events(&skeleton).expect("serializes");
    assert!(text.contains("<data-set"));
    assert!(text.contains("</file-format>"));
    let _ = file;
}
