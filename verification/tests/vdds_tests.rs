use gdt2dicom::gdt::{empty_gdt_file, GdtPatientGender};
use gdt2dicom::vdds::{
    default_vdds_mmi_folder, gdt_date_to_vdds, vdds_os, vdds_reply_status, ImageInfo,
    ImageInfoRequest, ImagesRequest, VddsPatient, VddsPatientGender, VddsWait,
};

#[test]
fn patient_is_drawn_from_the_record() {
    let mut file = empty_gdt_file();
    file.object_patient.patient_number = "77".to_string();
    file.object_patient.patient_first_name = "Erika".to_string();
    file.object_patient.patient_name = "Muster".to_string();
    file.object_patient.patient_dob = "01021980".to_string();
    file.object_patient.patient_gender = GdtPatientGender::Female;
    file.object_patient.street = "Gasse 1".to_string();
    let p = VddsPatient::new(&file);
    assert_eq!(p.id, "77");
    assert_eq!(p.first_name, "Erika");
    assert_eq!(p.last_name, "Muster");
    assert_eq!(p.date_of_birth, "19800201");
    assert_eq!(p.sex, VddsPatientGender::Female);
    assert_eq!(p.street, "Gasse 1");
}

#[test]
fn vdds_date_passes_short_values_through() {
    assert_eq!(gdt_date_to_vdds(&"01021980".to_string()), "19800201");
    assert_eq!(gdt_date_to_vdds(&"1980".to_string()), "1980");
    assert_eq!(gdt_date_to_vdds(&String::new()), "");
}

#[test]
fn patient_ini_holds_required_and_optional_entries() {
    let mut file = empty_gdt_file();
    file.object_patient.patient_number = "77".to_string();
    file.object_patient.patient_first_name = "Erika".to_string();
    file.object_patient.patient_name = "Muster".to_string();
    let p = VddsPatient::new(&file);
    let doc = p.to_ini("SomeBVS".to_string());
    assert_eq!(doc.sections.len(), 1);
    let section = &doc.sections[0];
    assert_eq!(section.name, "PATIENT");
    let keys: Vec<&str> = section.entries.iter().map(|e| e.key.as_str()).collect();
    assert!(keys.contains(&"PVS"));
    assert!(keys.contains(&"BVS"));
    assert!(keys.contains(&"PATID"));
    assert!(keys.contains(&"SEX"));
    assert!(keys.contains(&"READY"));
    // No optional fields were set, so none of their keys appear.
    assert!(!keys.contains(&"TITLE"));
    assert!(!keys.contains(&"STREET"));
    let bvs = section.entries.iter().find(|e| e.key == "BVS").unwrap();
    assert_eq!(bvs.value, "SomeBVS");
}

#[test]
fn image_info_request_ini() {
    let req = ImageInfoRequest { pat_id: "77".to_string() };
    let doc = req.to_ini("SomeBVS".to_string());
    assert_eq!(doc.sections[0].name, "PATID");
    assert_eq!(doc.sections[0].entries.len(), 6);
    let pat = doc.sections[0].entries.iter().find(|e| e.key == "PATID").unwrap();
    assert_eq!(pat.value, "77");
}

#[test]
fn images_request_lists_each_image() {
    let req = ImagesRequest {
        mmo_infos: vec![
            (
                "MMOID1".to_string(),
                ImageInfo {
                    mmo_id: "img-1".to_string(),
                    date: "20240101".to_string(),
                    time: "1030".to_string(),
                },
            ),
            (
                "MMOID2".to_string(),
                ImageInfo {
                    mmo_id: "img-2".to_string(),
                    date: "20240102".to_string(),
                    time: "1130".to_string(),
                },
            ),
        ],
    };
    let doc = req.to_ini();
    let section = &doc.sections[0];
    assert_eq!(section.name, "MMOIDS");
    let count = section.entries.iter().find(|e| e.key == "COUNT").unwrap();
    assert_eq!(count.value, "2");
    let first = section.entries.iter().find(|e| e.key == "MMOID1").unwrap();
    assert_eq!(first.value, "img-1");
    let second = section.entries.iter().find(|e| e.key == "MMOID2").unwrap();
    assert_eq!(second.value, "img-2");
}

#[test]
fn reply_poll_decisions() {
    let one = "1".to_string();
    let zero = "0".to_string();
    let five = "5".to_string();
    assert_eq!(vdds_reply_status(Some(&zero), Some(&zero), false), VddsWait::NotReady);
    assert_eq!(vdds_reply_status(None, None, false), VddsWait::NotReady);
    assert_eq!(vdds_reply_status(Some(&one), Some(&zero), false), VddsWait::Accept);
    assert_eq!(vdds_reply_status(Some(&one), Some(&five), false), VddsWait::Fail);
    assert_eq!(vdds_reply_status(Some(&one), Some(&five), true), VddsWait::Accept);
    assert_eq!(vdds_reply_status(Some(&one), None, true), VddsWait::Accept);
}

#[test]
fn platform_codes() {
    assert_eq!(vdds_os(), "3");
    assert_eq!(default_vdds_mmi_folder(), "/etc/vdds/VDDS_MMI.INI");
}
