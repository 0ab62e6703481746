//! Extraction of JPEG images from a DICOM file: decides, from the parsed
//! DICOM-XML events, whether and how the external image converter runs.
//! The caller executes the command.

use vstd::prelude::*;

use crate::dcm_xml::{spec_get_element_body, xml_get_patient_patient_id, XmlNode};
use crate::pipeline::{Invocation, InvocationV};

verus! {

/// Decides the image extraction for a DICOM file whose parsed XML events
/// are given: with no patient id in the file there is nothing to run;
/// otherwise the converter writes all frames under the patient's id inside
/// the target folder.
pub fn extract_jpeg_from_dicom(
    events: &Vec<XmlNode>,
    dicom_path: &String,
    jpeg_dir_path: &String,
) -> (r: Option<Invocation>)
    ensures
        match spec_get_element_body(events.deep_view(), "PatientID"@, "0010,0020"@) {
            None => r is None,
            Some(id) => r matches Some(inv) && inv@ == (InvocationV {
                program: "dcmj2pnm"@,
                args: seq![
                    "+oj"@,
                    "+Wm"@,
                    "+Fa"@,
                    dicom_path@,
                    jpeg_dir_path@ + seq!['/'] + id,
                ],
                print_output: true,
            }),
        },
{
    let patient_id: String = match xml_get_patient_patient_id(events) {
        Some(id) => id,
        None => {
            return None;
        },
    };
    let mut out_path: String = jpeg_dir_path.clone();
    out_path.append("/");
    out_path.append(patient_id.as_str());
    let mut args: Vec<String> = Vec::new();
    args.push(String::from_str("+oj"));
    args.push(String::from_str("+Wm"));
    args.push(String::from_str("+Fa"));
    args.push(dicom_path.clone());
    args.push(out_path);
    let inv = Invocation { program: String::from_str("dcmj2pnm"), args, print_output: true };
    proof {
        reveal_strlit("/");
        assert(inv@.args =~~= seq![
            "+oj"@,
            "+Wm"@,
            "+Fa"@,
            dicom_path@,
            jpeg_dir_path@ + seq!['/'] + patient_id@,
        ]);
    }
    Some(inv)
}

} // verus!
