use gdt2dicom::gdt::{
    empty_gdt_file, file_to_string, line_body_to_gdt_string, parse_file, dcm_date_to_gdt,
    dcm_gender_to_gdt, GdtError, GdtPatientGender, string_to_gdt_line,
};

fn to_lines(s: &str) -> Vec<String> {
    let mut lines: Vec<String> = Vec::new();
    for part in s.split("\r\n") {
        if !part.is_empty() {
            lines.push(part.to_string());
        }
    }
    lines
}

#[test]
fn serialize_minimal_record_exact() {
    let file = empty_gdt_file();
    let s = file_to_string(file);
    // Check the structural facts of the emitted record.
    assert!(s.starts_with("01380006301\r\n"));
    assert!(s.contains("8200Obj_Kopfdaten\r\n"));
    assert!(s.contains("921803.00\r\n"));
    assert!(s.contains("8200Obj_Patient\r\n"));
    assert!(s.contains("31101\r\n"));
    assert!(s.contains("8200Obj_Basisdiagnostik\r\n"));
    assert!(s.contains("8200Obj_Anforderung\r\n"));
    assert!(s.contains("8202"));
    assert!(s.ends_with("\r\n"));
}

#[test]
fn round_trip_patient_fields() {
    let mut file = empty_gdt_file();
    file.object_patient.patient_number = "12345".to_string();
    file.object_patient.patient_name = "Miller".to_string();
    file.object_patient.patient_first_name = "Hans".to_string();
    file.object_patient.patient_dob = "01021980".to_string();
    file.object_patient.patient_gender = GdtPatientGender::Female;
    file.object_header_data.gdt_id_receiver = "RECV".to_string();
    file.object_header_data.gdt_id_sender = "SEND".to_string();
    file.object_basic_diagnostics.patient_height = "170".to_string();
    file.object_basic_diagnostics.patient_weight = "70".to_string();
    file.object_request.date_of_examination = "02031999".to_string();
    file.object_request.time_of_examination = "110435".to_string();
    file.object_request.request_identifier = "REQ1".to_string();
    file.object_request.request_uid = "UID1".to_string();
    let s = file_to_string(file.clone());
    let lines = to_lines(&s);
    let parsed = parse_file(&lines).expect("serialized record parses");
    assert_eq!(parsed.object_patient, file.object_patient);
    assert_eq!(parsed.object_basic_diagnostics, file.object_basic_diagnostics);
    assert_eq!(parsed.object_request, file.object_request);
    assert_eq!(
        parsed.object_header_data.gdt_id_receiver,
        file.object_header_data.gdt_id_receiver
    );
    assert_eq!(parsed.object_header_data.gdt_id_sender, file.object_header_data.gdt_id_sender);
    // The version is recomputed by the serializer.
    assert_eq!(parsed.object_header_data.version_gdt, "03.00");
    assert_eq!(parsed.record_type, 6301);
}

#[test]
fn round_trip_empty_optional_fields() {
    let file = empty_gdt_file();
    let s = file_to_string(file.clone());
    let lines = to_lines(&s);
    let parsed = parse_file(&lines).expect("serialized record parses");
    assert_eq!(parsed.object_patient, file.object_patient);
    assert_eq!(parsed.object_request, file.object_request);
}

#[test]
fn record_length_counts_all_bytes() {
    let file = empty_gdt_file();
    let s = file_to_string(file);
    let lines = to_lines(&s);
    let parsed = parse_file(&lines).expect("parses");
    assert_eq!(parsed.record_length as usize, s.len());
}

#[test]
fn record_length_counts_utf8_bytes_of_umlauts() {
    let mut file = empty_gdt_file();
    file.object_patient.patient_name = "Müller".to_string();
    file.object_patient.patient_first_name = "Hänsel".to_string();
    let s = file_to_string(file);
    let lines = to_lines(&s);
    let parsed = parse_file(&lines).expect("parses");
    // The 8100 value is the UTF-8 byte count of the whole record, which
    // exceeds its character count here.
    assert_eq!(parsed.record_length as usize, s.len());
    assert!(s.len() > s.chars().count());
}

#[test]
fn line_prefix_counts_utf8_bytes() {
    // "3101Müller" is ten characters but eleven bytes; with CRLF and the
    // three prefix digits the line is sixteen bytes in all.
    let line = line_body_to_gdt_string("3101Müller".to_string());
    assert_eq!(line, "0163101Müller\r\n");
    assert_eq!(line.len(), line_body_to_gdt_string("3101Miller".to_string()).len() + 1);
}

#[test]
fn line_too_short_is_an_error() {
    let r = string_to_gdt_line(&"013800".to_string());
    assert!(matches!(r, Err(GdtError::LineTooShort(_))));
}

#[test]
fn bad_field_identifier_is_an_error() {
    let r = string_to_gdt_line(&"013x2345678".to_string());
    assert!(matches!(r, Err(GdtError::FieldIdentifierNotNumber(_))));
}

#[test]
fn good_line_decodes() {
    let r = string_to_gdt_line(&"01380006301".to_string()).unwrap();
    assert_eq!(r.field_identifier, 8000);
    assert_eq!(r.content, "6301");
}

#[test]
fn missing_header_lines_are_errors() {
    let r = parse_file(&Vec::new());
    assert!(matches!(r, Err(GdtError::LineNotFound(_))));
    let one = vec!["01380006301".to_string()];
    let r = parse_file(&one);
    assert!(matches!(r, Err(GdtError::LineNotFound(_))));
}

#[test]
fn non_numeric_header_is_an_error() {
    let lines = vec!["0138000abcd".to_string(), "02281000000190".to_string()];
    let r = parse_file(&lines);
    assert!(matches!(r, Err(GdtError::NumberExpected(_))));
}

#[test]
fn invalid_gender_is_an_error() {
    let lines = vec![
        "01380006301".to_string(),
        "02281000000190".to_string(),
        "0208200Obj_Patient".to_string(),
        "01031103".to_string(),
        "0128201".to_string(),
    ];
    let r = parse_file(&lines);
    assert!(matches!(r, Err(GdtError::InvalidValue(_, _))));
}

#[test]
fn malformed_data_line_is_skipped() {
    let lines = vec![
        "01380006301".to_string(),
        "02281000000190".to_string(),
        "0208200Obj_Patient".to_string(),
        "bad".to_string(),
        "013300012345".to_string(),
        "0128201".to_string(),
    ];
    let parsed = parse_file(&lines).expect("tolerates the bad line");
    assert_eq!(parsed.object_patient.patient_number, "12345");
}

#[test]
fn early_end_of_record_stops_parsing() {
    let lines = vec![
        "01380006301".to_string(),
        "02281000000190".to_string(),
        "01382021".to_string(),
        "0208200Obj_Patient".to_string(),
        "013300099999".to_string(),
        "0128201".to_string(),
    ];
    let parsed = parse_file(&lines).expect("parses");
    assert_eq!(parsed.object_patient.patient_number, "");
}

#[test]
fn unknown_objects_are_dropped() {
    let lines = vec![
        "01380006301".to_string(),
        "02281000000190".to_string(),
        "0198200Obj_Anhang".to_string(),
        "0128201".to_string(),
        "0208200Obj_Patient".to_string(),
        "013300054321".to_string(),
        "0128201".to_string(),
    ];
    let parsed = parse_file(&lines).expect("parses");
    assert_eq!(parsed.object_patient.patient_number, "54321");
}

#[test]
fn dcm_date_to_gdt_rearranges() {
    let r = dcm_date_to_gdt(&"19800201".to_string()).unwrap();
    assert_eq!(r, "01021980");
}

#[test]
fn dcm_date_to_gdt_rejects_short() {
    assert!(dcm_date_to_gdt(&"1980".to_string()).is_none());
    assert!(dcm_date_to_gdt(&"".to_string()).is_none());
}

#[test]
fn dcm_gender_codes() {
    assert_eq!(dcm_gender_to_gdt(&"M".to_string()), Some(GdtPatientGender::Male));
    assert_eq!(dcm_gender_to_gdt(&"F".to_string()), Some(GdtPatientGender::Female));
    assert_eq!(dcm_gender_to_gdt(&"X".to_string()), None);
    assert_eq!(dcm_gender_to_gdt(&"".to_string()), None);
}
