//! The GDT record model: a typed view of the line-oriented patient-record
//! exchange format, with a parser over record lines and a serializer that
//! reconstructs a conformant record byte for byte.
//!
//! A physical GDT line is `{3-digit total length}{4-digit field tag}{content}`
//! followed by CRLF; the length prefix counts the whole line including the
//! prefix and the CRLF. Named sub-objects are bounded by sentinel tags 8200
//! (open, content = object name) and 8201 (close, content = line count of the
//! object); the record ends with tag 8202 carrying the total line count.

use vstd::prelude::*;

use crate::strutil::{
    all_digits, lemma_parse_of_pad, lemma_u32_dec_digits, lemma_u32_dec_len_le,
    lemma_utf8_len_ascii, lemma_utf8_len_bounds, lemma_utf8_len_concat, lemma_utf8_len_digits,
    lemma_zero_pad, parse_u32, pow10, spec_parse_u32, str_eq, u32_dec, u32_to_dec, u32_to_dec_pad,
    utf8_len, utf8_len_exec, zero_pad,
};

verus! {

/// A whole GDT record: header pair plus the named sub-objects.
#[derive(Debug, Clone, PartialEq)]
pub struct GdtFile {
    pub record_type: u32,
    pub record_length: u32,
    pub object_request: GdtRequestObject,
    pub object_annex: GdtAnnexObject,
    pub object_physician_identification: GdtPhysicianIdentificationObject,
    pub object_basic_diagnostics: GdtBasicDiagnosticsObject,
    pub object_permanent_diagnosis: GdtPermanentDiagnosisObject,
    pub object_permanent_medication: GdtPermanentMedicationObject,
    pub object_diagnosis: GdtDiagnosisObject,
    pub object_admission: GdtAdmissionObject,
    pub object_header_data: GdtHeaderDataObject,
    pub object_patient: GdtPatientObject,
    pub object_invoice_recipient: GdtInvoiceRecipientObject,
    pub object_end_of_record: GdtEndOfRecordObject,
    pub object_certificate: GdtCertificateObject,
    pub object_appointment_request: GdtAppointmentRequestObject,
    pub object_referral: GdtReferralObject,
    pub object_health: GdtHealthObject,
}

/// Examination request data (object `Obj_Anforderung`).
#[derive(Debug, Clone, PartialEq)]
pub struct GdtRequestObject {
    /// Field 6200, `DDMMYYYY`.
    pub date_of_examination: String,
    /// Field 6201, e.g. `110435`.
    pub time_of_examination: String,
    /// Field 8310.
    pub request_identifier: String,
    /// Field 8314.
    pub request_uid: String,
}

#[derive(Debug, Clone, PartialEq, Eq, Structural)]
pub struct GdtAnnexObject {}

#[derive(Debug, Clone, PartialEq, Eq, Structural)]
pub struct GdtPhysicianIdentificationObject {}

/// Basic diagnostics (object `Obj_Basisdiagnostik`).
#[derive(Debug, Clone, PartialEq)]
pub struct GdtBasicDiagnosticsObject {
    /// Field 3622, centimeters.
    pub patient_height: String,
    /// Field 3623 (some emitters use 3632), kilograms.
    pub patient_weight: String,
}

#[derive(Debug, Clone, PartialEq, Eq, Structural)]
pub struct GdtPermanentDiagnosisObject {}

#[derive(Debug, Clone, PartialEq, Eq, Structural)]
pub struct GdtPermanentMedicationObject {}

#[derive(Debug, Clone, PartialEq, Eq, Structural)]
pub struct GdtDiagnosisObject {}

#[derive(Debug, Clone, PartialEq, Eq, Structural)]
pub struct GdtAdmissionObject {}

/// Record header data (object `Obj_Kopfdaten`).
#[derive(Debug, Clone, PartialEq)]
pub struct GdtHeaderDataObject {
    /// Field 8315, GDT id of the receiver.
    pub gdt_id_receiver: String,
    /// Field 8316, GDT id of the sender.
    pub gdt_id_sender: String,
    /// Field 9218, GDT version.
    pub version_gdt: String,
}

/// Patient master data (object `Obj_Patient`).
#[derive(Debug, Clone, PartialEq)]
pub struct GdtPatientObject {
    /// Field 3000.
    pub patient_number: String,
    /// Field 3101, last name.
    pub patient_name: String,
    /// Field 3102, first name.
    pub patient_first_name: String,
    /// Field 3103, date of birth as `DDMMYYYY`.
    pub patient_dob: String,
    /// Field 3104, title.
    pub patient_title: String,
    /// Field 3105, insurance number.
    pub insurance_number: String,
    /// Field 3106, town.
    pub address: String,
    /// Field 3107, street.
    pub street: String,
    /// Field 3110, `"1"` male / `"2"` female.
    pub patient_gender: GdtPatientGender,
    /// Field 3618.
    pub mobile_phone_number: String,
    /// Field 3619.
    pub email_address: String,
    /// Field 3626.
    pub phone_number: String,
}

#[derive(Debug, Clone, PartialEq, Eq, Structural)]
pub struct GdtInvoiceRecipientObject {}

#[derive(Debug, Clone, PartialEq, Eq, Structural)]
pub struct GdtEndOfRecordObject {}

#[derive(Debug, Clone, PartialEq, Eq, Structural)]
pub struct GdtCertificateObject {}

#[derive(Debug, Clone, PartialEq, Eq, Structural)]
pub struct GdtAppointmentRequestObject {}

#[derive(Debug, Clone, PartialEq, Eq, Structural)]
pub struct GdtReferralObject {}

#[derive(Debug, Clone, PartialEq, Eq, Structural)]
pub struct GdtHealthObject {}

/// Patient gender as the GDT field 3110 encodes it.
#[derive(Debug, Clone, Copy, PartialEq, Eq, Structural)]
pub enum GdtPatientGender {
    Male,
    Female,
}

/// One decoded physical line: the field tag from columns 4-7 and the rest.
#[derive(Debug, Clone, PartialEq)]
pub struct RawGdtLine {
    pub field_identifier: u32,
    pub content: String,
}

/// Errors of the GDT parser. Each carries the offending text.
#[derive(Debug, Clone, PartialEq)]
pub enum GdtError {
    /// Columns 4-7 of the line are not a number.
    FieldIdentifierNotNumber(String),
    /// A physical line shorter than seven characters.
    LineTooShort(String),
    /// A required line (by index) is missing.
    LineNotFound(String),
    /// A field that must be numeric is not.
    NumberExpected(String),
    /// A field holds a value outside its enumeration; the first part names
    /// the field.
    InvalidValue(String, String),
}

// ---------------------------------------------------------------------------
// Mathematical views
// ---------------------------------------------------------------------------

pub struct GdtRequestV {
    pub date_of_examination: Seq<char>,
    pub time_of_examination: Seq<char>,
    pub request_identifier: Seq<char>,
    pub request_uid: Seq<char>,
}

pub struct GdtBasicDiagnosticsV {
    pub patient_height: Seq<char>,
    pub patient_weight: Seq<char>,
}

pub struct GdtHeaderDataV {
    pub gdt_id_receiver: Seq<char>,
    pub gdt_id_sender: Seq<char>,
    pub version_gdt: Seq<char>,
}

pub struct GdtPatientV {
    pub patient_number: Seq<char>,
    pub patient_name: Seq<char>,
    pub patient_first_name: Seq<char>,
    pub patient_dob: Seq<char>,
    pub patient_title: Seq<char>,
    pub insurance_number: Seq<char>,
    pub address: Seq<char>,
    pub street: Seq<char>,
    pub patient_gender: GdtPatientGender,
    pub mobile_phone_number: Seq<char>,
    pub email_address: Seq<char>,
    pub phone_number: Seq<char>,
}

/// View of a whole record: the header pair and the four populated objects
/// (the remaining objects carry no fields).
pub struct GdtFileV {
    pub record_type: u32,
    pub record_length: u32,
    pub object_request: GdtRequestV,
    pub object_basic_diagnostics: GdtBasicDiagnosticsV,
    pub object_header_data: GdtHeaderDataV,
    pub object_patient: GdtPatientV,
}

pub struct RawGdtLineV {
    pub field_identifier: u32,
    pub content: Seq<char>,
}

pub enum GdtErrV {
    FieldIdentifierNotNumber(Seq<char>),
    LineTooShort(Seq<char>),
    LineNotFound(Seq<char>),
    NumberExpected(Seq<char>),
    InvalidValue(Seq<char>, Seq<char>),
}

impl View for GdtRequestObject {
    type V = GdtRequestV;

    open spec fn view(&self) -> GdtRequestV {
        GdtRequestV {
            date_of_examination: self.date_of_examination@,
            time_of_examination: self.time_of_examination@,
            request_identifier: self.request_identifier@,
            request_uid: self.request_uid@,
        }
    }
}

impl View for GdtBasicDiagnosticsObject {
    type V = GdtBasicDiagnosticsV;

    open spec fn view(&self) -> GdtBasicDiagnosticsV {
        GdtBasicDiagnosticsV {
            patient_height: self.patient_height@,
            patient_weight: self.patient_weight@,
        }
    }
}

impl View for GdtHeaderDataObject {
    type V = GdtHeaderDataV;

    open spec fn view(&self) -> GdtHeaderDataV {
        GdtHeaderDataV {
            gdt_id_receiver: self.gdt_id_receiver@,
            gdt_id_sender: self.gdt_id_sender@,
            version_gdt: self.version_gdt@,
        }
    }
}

impl View for GdtPatientObject {
    type V = GdtPatientV;

    open spec fn view(&self) -> GdtPatientV {
        GdtPatientV {
            patient_number: self.patient_number@,
            patient_name: self.patient_name@,
            patient_first_name: self.patient_first_name@,
            patient_dob: self.patient_dob@,
            patient_title: self.patient_title@,
            insurance_number: self.insurance_number@,
            address: self.address@,
            street: self.street@,
            patient_gender: self.patient_gender,
            mobile_phone_number: self.mobile_phone_number@,
            email_address: self.email_address@,
            phone_number: self.phone_number@,
        }
    }
}

impl View for GdtFile {
    type V = GdtFileV;

    open spec fn view(&self) -> GdtFileV {
        GdtFileV {
            record_type: self.record_type,
            record_length: self.record_length,
            object_request: self.object_request@,
            object_basic_diagnostics: self.object_basic_diagnostics@,
            object_header_data: self.object_header_data@,
            object_patient: self.object_patient@,
        }
    }
}

impl View for RawGdtLine {
    type V = RawGdtLineV;

    open spec fn view(&self) -> RawGdtLineV {
        RawGdtLineV { field_identifier: self.field_identifier, content: self.content@ }
    }
}

impl View for GdtError {
    type V = GdtErrV;

    open spec fn view(&self) -> GdtErrV {
        match self {
            GdtError::FieldIdentifierNotNumber(s) => GdtErrV::FieldIdentifierNotNumber(s@),
            GdtError::LineTooShort(s) => GdtErrV::LineTooShort(s@),
            GdtError::LineNotFound(s) => GdtErrV::LineNotFound(s@),
            GdtError::NumberExpected(s) => GdtErrV::NumberExpected(s@),
            GdtError::InvalidValue(a, b) => GdtErrV::InvalidValue(a@, b@),
        }
    }
}

/// The record with both header numbers zero and every field empty.
pub open spec fn spec_empty_gdt_file() -> GdtFileV {
    GdtFileV {
        record_type: 0,
        record_length: 0,
        object_request: GdtRequestV {
            date_of_examination: Seq::empty(),
            time_of_examination: Seq::empty(),
            request_identifier: Seq::empty(),
            request_uid: Seq::empty(),
        },
        object_basic_diagnostics: GdtBasicDiagnosticsV {
            patient_height: Seq::empty(),
            patient_weight: Seq::empty(),
        },
        object_header_data: GdtHeaderDataV {
            gdt_id_receiver: Seq::empty(),
            gdt_id_sender: Seq::empty(),
            version_gdt: Seq::empty(),
        },
        object_patient: spec_empty_patient(),
    }
}

pub open spec fn spec_empty_patient() -> GdtPatientV {
    GdtPatientV {
        patient_number: Seq::empty(),
        patient_name: Seq::empty(),
        patient_first_name: Seq::empty(),
        patient_dob: Seq::empty(),
        patient_title: Seq::empty(),
        insurance_number: Seq::empty(),
        address: Seq::empty(),
        street: Seq::empty(),
        patient_gender: GdtPatientGender::Male,
        mobile_phone_number: Seq::empty(),
        email_address: Seq::empty(),
        phone_number: Seq::empty(),
    }
}

/// A fresh, empty record value.
pub fn empty_gdt_file() -> (r: GdtFile)
    ensures
        r@ == spec_empty_gdt_file(),
{
    let r = GdtFile {
        record_type: 0,
        record_length: 0,
        object_request: GdtRequestObject {
            date_of_examination: String::new(),
            time_of_examination: String::new(),
            request_identifier: String::new(),
            request_uid: String::new(),
        },
        object_annex: GdtAnnexObject {},
        object_physician_identification: GdtPhysicianIdentificationObject {},
        object_basic_diagnostics: GdtBasicDiagnosticsObject {
            patient_height: String::new(),
            patient_weight: String::new(),
        },
        object_permanent_diagnosis: GdtPermanentDiagnosisObject {},
        object_permanent_medication: GdtPermanentMedicationObject {},
        object_diagnosis: GdtDiagnosisObject {},
        object_admission: GdtAdmissionObject {},
        object_header_data: GdtHeaderDataObject {
            gdt_id_receiver: String::new(),
            gdt_id_sender: String::new(),
            version_gdt: String::new(),
        },
        object_patient: empty_patient(),
        object_invoice_recipient: GdtInvoiceRecipientObject {},
        object_end_of_record: GdtEndOfRecordObject {},
        object_certificate: GdtCertificateObject {},
        object_appointment_request: GdtAppointmentRequestObject {},
        object_referral: GdtReferralObject {},
        object_health: GdtHealthObject {},
    };
    proof {
        assert(r@.object_request.date_of_examination =~= Seq::<char>::empty());
    }
    r
}

/// A fresh, empty patient object.
pub fn empty_patient() -> (r: GdtPatientObject)
    ensures
        r@ == spec_empty_patient(),
{
    GdtPatientObject {
        patient_number: String::new(),
        patient_name: String::new(),
        patient_first_name: String::new(),
        patient_dob: String::new(),
        patient_title: String::new(),
        insurance_number: String::new(),
        address: String::new(),
        street: String::new(),
        patient_gender: GdtPatientGender::Male,
        mobile_phone_number: String::new(),
        email_address: String::new(),
        phone_number: String::new(),
    }
}

// ---------------------------------------------------------------------------
// Line decoding
// ---------------------------------------------------------------------------

/// What decoding one physical line yields: the tag from columns 4-7 and the
/// content after them. Lines shorter than seven characters are an error, as
/// are non-numeric tag columns.
pub open spec fn spec_gdt_line(l: Seq<char>) -> Result<RawGdtLineV, GdtErrV> {
    if l.len() < 7 {
        Err(GdtErrV::LineTooShort(l))
    } else {
        match spec_parse_u32(l.subrange(3, 7)) {
            Some(id) => Ok(RawGdtLineV { field_identifier: id, content: l.skip(7) }),
            None => Err(GdtErrV::FieldIdentifierNotNumber(l)),
        }
    }
}

/// Decodes one physical line (without its CRLF terminator).
pub fn string_to_gdt_line(s: &String) -> (r: Result<RawGdtLine, GdtError>)
    ensures
        match r {
            Ok(l) => spec_gdt_line(s@) == Ok::<RawGdtLineV, GdtErrV>(l@),
            Err(e) => spec_gdt_line(s@) == Err::<RawGdtLineV, GdtErrV>(e@),
        },
{
    let n: usize = s.as_str().unicode_len();
    if n < 7 {
        return Err(GdtError::LineTooShort(s.clone()));
    }
    let tag: &str = s.as_str().substring_char(3, 7);
    match parse_u32(tag) {
        Some(id) => Ok(
            RawGdtLine {
                field_identifier: id,
                content: String::from_str(s.as_str().substring_char(7, n)),
            },
        ),
        None => Err(GdtError::FieldIdentifierNotNumber(s.clone())),
    }
}

// ---------------------------------------------------------------------------
// Record scanning
// ---------------------------------------------------------------------------

/// Which part of the record the scanner is inside: the top level between
/// objects, or one of the four recognized named objects.
pub enum ScanMode {
    TopLevel,
    InRequest,
    InHeader,
    InPatient,
    InBasic,
}

/// One pass of the record scanner from line `i` onwards, in `mode`, with the
/// record built so far. Mirrors the line-by-line reading discipline:
/// undecodable lines are skipped, tag 8200 opens a recognized object afresh,
/// tag 8201 closes the current object, tag 8202 ends the record early,
/// unrecognized tags are ignored, and an invalid gender code is fatal.
pub open spec fn spec_scan(lines: Seq<Seq<char>>, i: int, mode: ScanMode, file: GdtFileV) -> Result<
    GdtFileV,
    GdtErrV,
>
    decreases lines.len() - i,
{
    if i < 0 || i >= lines.len() {
        Ok(file)
    } else {
        let step = spec_gdt_line(lines[i]);
        match mode {
            ScanMode::TopLevel => match step {
                Err(_) => spec_scan(lines, i + 1, ScanMode::TopLevel, file),
                Ok(rl) => {
                    if rl.field_identifier == 8200 && rl.content == "Obj_Anforderung"@ {
                        spec_scan(
                            lines,
                            i + 1,
                            ScanMode::InRequest,
                            GdtFileV { object_request: spec_empty_gdt_file().object_request, ..file },
                        )
                    } else if rl.field_identifier == 8200 && rl.content == "Obj_Kopfdaten"@ {
                        spec_scan(
                            lines,
                            i + 1,
                            ScanMode::InHeader,
                            GdtFileV {
                                object_header_data: spec_empty_gdt_file().object_header_data,
                                ..file
                            },
                        )
                    } else if rl.field_identifier == 8200 && rl.content == "Obj_Patient"@ {
                        spec_scan(
                            lines,
                            i + 1,
                            ScanMode::InPatient,
                            GdtFileV { object_patient: spec_empty_patient(), ..file },
                        )
                    } else if rl.field_identifier == 8200 && rl.content == "Obj_Basisdiagnostik"@ {
                        spec_scan(
                            lines,
                            i + 1,
                            ScanMode::InBasic,
                            GdtFileV {
                                object_basic_diagnostics: spec_empty_gdt_file().object_basic_diagnostics,
                                ..file
                            },
                        )
                    } else if rl.field_identifier == 8202 {
                        Ok(file)
                    } else {
                        spec_scan(lines, i + 1, ScanMode::TopLevel, file)
                    }
                },
            },
            ScanMode::InRequest => match step {
                Err(_) => spec_scan(lines, i + 1, ScanMode::InRequest, file),
                Ok(rl) => {
                    if rl.field_identifier == 8201 {
                        spec_scan(lines, i + 1, ScanMode::TopLevel, file)
                    } else {
                        spec_scan(
                            lines,
                            i + 1,
                            ScanMode::InRequest,
                            GdtFileV {
                                object_request: spec_request_field(
                                    file.object_request,
                                    rl.field_identifier,
                                    rl.content,
                                ),
                                ..file
                            },
                        )
                    }
                },
            },
            ScanMode::InHeader => match step {
                Err(_) => spec_scan(lines, i + 1, ScanMode::InHeader, file),
                Ok(rl) => {
                    if rl.field_identifier == 8201 {
                        spec_scan(lines, i + 1, ScanMode::TopLevel, file)
                    } else {
                        spec_scan(
                            lines,
                            i + 1,
                            ScanMode::InHeader,
                            GdtFileV {
                                object_header_data: spec_header_field(
                                    file.object_header_data,
                                    rl.field_identifier,
                                    rl.content,
                                ),
                                ..file
                            },
                        )
                    }
                },
            },
            ScanMode::InPatient => match step {
                Err(_) => spec_scan(lines, i + 1, ScanMode::InPatient, file),
                Ok(rl) => {
                    if rl.field_identifier == 8201 {
                        spec_scan(lines, i + 1, ScanMode::TopLevel, file)
                    } else if rl.field_identifier == 3110 && !(rl.content == "1"@) && !(rl.content
                        == "2"@) {
                        Err(GdtErrV::InvalidValue("Gender"@, rl.content))
                    } else {
                        spec_scan(
                            lines,
                            i + 1,
                            ScanMode::InPatient,
                            GdtFileV {
                                object_patient: spec_patient_field(
                                    file.object_patient,
                                    rl.field_identifier,
                                    rl.content,
                                ),
                                ..file
                            },
                        )
                    }
                },
            },
            ScanMode::InBasic => match step {
                Err(_) => spec_scan(lines, i + 1, ScanMode::InBasic, file),
                Ok(rl) => {
                    if rl.field_identifier == 8201 {
                        spec_scan(lines, i + 1, ScanMode::TopLevel, file)
                    } else {
                        spec_scan(
                            lines,
                            i + 1,
                            ScanMode::InBasic,
                            GdtFileV {
                                object_basic_diagnostics: spec_basic_field(
                                    file.object_basic_diagnostics,
                                    rl.field_identifier,
                                    rl.content,
                                ),
                                ..file
                            },
                        )
                    }
                },
            },
        }
    }
}

/// Effect of one request-object line on the request object.
pub open spec fn spec_request_field(o: GdtRequestV, id: u32, c: Seq<char>) -> GdtRequestV {
    if id == 6200 {
        GdtRequestV { date_of_examination: c, ..o }
    } else if id == 6201 {
        GdtRequestV { time_of_examination: c, ..o }
    } else if id == 8310 {
        GdtRequestV { request_identifier: c, ..o }
    } else if id == 8314 {
        GdtRequestV { request_uid: c, ..o }
    } else {
        o
    }
}

/// Effect of one header-object line on the header object.
pub open spec fn spec_header_field(o: GdtHeaderDataV, id: u32, c: Seq<char>) -> GdtHeaderDataV {
    if id == 8315 {
        GdtHeaderDataV { gdt_id_receiver: c, ..o }
    } else if id == 8316 {
        GdtHeaderDataV { gdt_id_sender: c, ..o }
    } else if id == 9218 {
        GdtHeaderDataV { version_gdt: c, ..o }
    } else {
        o
    }
}

/// Effect of one patient-object line on the patient object, for lines that
/// are not fatal (the invalid gender code is handled by the scanner).
pub open spec fn spec_patient_field(o: GdtPatientV, id: u32, c: Seq<char>) -> GdtPatientV {
    if id == 3000 {
        GdtPatientV { patient_number: c, ..o }
    } else if id == 3101 {
        GdtPatientV { patient_name: c, ..o }
    } else if id == 3102 {
        GdtPatientV { patient_first_name: c, ..o }
    } else if id == 3103 {
        GdtPatientV { patient_dob: c, ..o }
    } else if id == 3104 {
        GdtPatientV { patient_title: c, ..o }
    } else if id == 3105 {
        GdtPatientV { insurance_number: c, ..o }
    } else if id == 3106 {
        GdtPatientV { address: c, ..o }
    } else if id == 3107 {
        GdtPatientV { street: c, ..o }
    } else if id == 3618 {
        GdtPatientV { mobile_phone_number: c, ..o }
    } else if id == 3619 {
        GdtPatientV { email_address: c, ..o }
    } else if id == 3626 {
        GdtPatientV { phone_number: c, ..o }
    } else if id == 3110 && c == "1"@ {
        GdtPatientV { patient_gender: GdtPatientGender::Male, ..o }
    } else if id == 3110 && c == "2"@ {
        GdtPatientV { patient_gender: GdtPatientGender::Female, ..o }
    } else {
        o
    }
}

/// Effect of one basic-diagnostics line on the basic-diagnostics object.
pub open spec fn spec_basic_field(o: GdtBasicDiagnosticsV, id: u32, c: Seq<char>) -> GdtBasicDiagnosticsV {
    if id == 3622 {
        GdtBasicDiagnosticsV { patient_height: c, ..o }
    } else if id == 3623 {
        GdtBasicDiagnosticsV { patient_weight: c, ..o }
    } else if id == 3632 {
        GdtBasicDiagnosticsV { patient_weight: c, ..o }
    } else {
        o
    }
}

/// What the two-line record header yields: both contents must decode and
/// parse as numbers.
pub open spec fn spec_read_record_header(lines: Seq<Seq<char>>) -> Result<(u32, u32), GdtErrV> {
    if lines.len() < 1 {
        Err(GdtErrV::LineNotFound(seq!['0']))
    } else {
        match spec_gdt_line(lines[0]) {
            Err(e) => Err(e),
            Ok(l1) => match spec_parse_u32(l1.content) {
                None => Err(GdtErrV::NumberExpected(l1.content)),
                Some(t) => {
                    if lines.len() < 2 {
                        Err(GdtErrV::LineNotFound(seq!['1']))
                    } else {
                        match spec_gdt_line(lines[1]) {
                            Err(e) => Err(e),
                            Ok(l2) => match spec_parse_u32(l2.content) {
                                None => Err(GdtErrV::NumberExpected(l2.content)),
                                Some(len) => Ok((t, len)),
                            },
                        }
                    }
                },
            },
        }
    }
}

/// What parsing a whole record yields: the header pair, then a top-level scan
/// of the remaining lines over an empty record.
pub open spec fn spec_parse_file(lines: Seq<Seq<char>>) -> Result<GdtFileV, GdtErrV> {
    match spec_read_record_header(lines) {
        Err(e) => Err(e),
        Ok(h) => spec_scan(
            lines,
            2,
            ScanMode::TopLevel,
            GdtFileV { record_type: h.0, record_length: h.1, ..spec_empty_gdt_file() },
        ),
    }
}

/// `deep_view` of a vector of lines indexes to the view of each line.
proof fn lemma_lines_view(lines: &Vec<String>)
    ensures
        lines.deep_view().len() == lines@.len(),
        forall|i: int|
            0 <= i < lines@.len() ==> #[trigger] lines.deep_view()[i] == lines@[i]@,
{
}

// ---------------------------------------------------------------------------
// The parser
// ---------------------------------------------------------------------------

/// Reads the two-line record header into `file.record_type` and
/// `file.record_length`; the rest of the record is untouched.
pub fn read_record_header(file: &mut GdtFile, lines: &Vec<String>) -> (r: Result<(), GdtError>)
    ensures
        match r {
            Ok(_) => ({
                let h = spec_read_record_header(lines.deep_view());
                h matches Ok(p) && final(file)@ == (GdtFileV {
                    record_type: p.0,
                    record_length: p.1,
                    ..old(file)@
                })
            }),
            Err(e) => spec_read_record_header(lines.deep_view()) == Err::<(u32, u32), GdtErrV>(e@),
        },
{
    proof {
        lemma_lines_view(lines);
        reveal_strlit("0");
        reveal_strlit("1");
    }
    if lines.len() < 1 {
        proof {
            assert("0"@ =~= seq!['0']);
        }
        return Err(GdtError::LineNotFound(String::from_str("0")));
    }
    let l1 = match string_to_gdt_line(&lines[0]) {
        Ok(l) => l,
        Err(e) => {
            return Err(e);
        },
    };
    let t: u32 = match parse_u32(l1.content.as_str()) {
        Some(v) => v,
        None => {
            return Err(GdtError::NumberExpected(l1.content));
        },
    };
    if lines.len() < 2 {
        proof {
            assert("1"@ =~= seq!['1']);
        }
        return Err(GdtError::LineNotFound(String::from_str("1")));
    }
    let l2 = match string_to_gdt_line(&lines[1]) {
        Ok(l) => l,
        Err(e) => {
            return Err(e);
        },
    };
    let len: u32 = match parse_u32(l2.content.as_str()) {
        Some(v) => v,
        None => {
            return Err(GdtError::NumberExpected(l2.content));
        },
    };
    file.record_type = t;
    file.record_length = len;
    Ok(())
}

/// Reads the body of an `Obj_Anforderung` object, starting at line `start`
/// (the line after the 8200 opener), into `file.object_request`. Returns the
/// index of the first line after the object. This reader never fails: no
/// field of the request object is fatal.
pub fn read_request_object(lines: &Vec<String>, start: usize, file: &mut GdtFile) -> (r: Result<
    usize,
    GdtError,
>)
    requires
        start <= lines@.len(),
    ensures
        r is Ok,
        match r {
            Ok(j) => start <= j <= lines@.len() && spec_scan(
                lines.deep_view(),
                start as int,
                ScanMode::InRequest,
                old(file)@,
            ) == spec_scan(lines.deep_view(), j as int, ScanMode::TopLevel, final(file)@),
            Err(e) => spec_scan(
                lines.deep_view(),
                start as int,
                ScanMode::InRequest,
                old(file)@,
            ) == Err::<GdtFileV, GdtErrV>(e@),
        },
{
    proof {
        lemma_lines_view(lines);
    }
    let ghost lv: Seq<Seq<char>> = lines.deep_view();
    let mut i: usize = start;
    loop
        invariant
            start <= i <= lines@.len(),
            lv == lines.deep_view(),
            spec_scan(lv, start as int, ScanMode::InRequest, old(file)@) == spec_scan(
                lv,
                i as int,
                ScanMode::InRequest,
                file@,
            ),
        decreases lines@.len() - i,
    {
        if i >= lines.len() {
            return Ok(i);
        }
        match string_to_gdt_line(&lines[i]) {
            Err(_) => {
                i = i + 1;
            },
            Ok(rl) => {
                let id: u32 = rl.field_identifier;
                if id == 8201 {
                    return Ok(i + 1);
                } else if id == 6200 {
                    file.object_request.date_of_examination = rl.content;
                    i = i + 1;
                } else if id == 6201 {
                    file.object_request.time_of_examination = rl.content;
                    i = i + 1;
                } else if id == 8310 {
                    file.object_request.request_identifier = rl.content;
                    i = i + 1;
                } else if id == 8314 {
                    file.object_request.request_uid = rl.content;
                    i = i + 1;
                } else {
                    i = i + 1;
                }
            },
        }
    }
}

/// Reads the body of an `Obj_Kopfdaten` object, starting at line `start`,
/// into `file.object_header_data`. Returns the index of the first line after
/// the object. This reader never fails: no field of the header object is
/// fatal.
pub fn read_header_data_object(lines: &Vec<String>, start: usize, file: &mut GdtFile) -> (r: Result<
    usize,
    GdtError,
>)
    requires
        start <= lines@.len(),
    ensures
        r is Ok,
        match r {
            Ok(j) => start <= j <= lines@.len() && spec_scan(
                lines.deep_view(),
                start as int,
                ScanMode::InHeader,
                old(file)@,
            ) == spec_scan(lines.deep_view(), j as int, ScanMode::TopLevel, final(file)@),
            Err(e) => spec_scan(
                lines.deep_view(),
                start as int,
                ScanMode::InHeader,
                old(file)@,
            ) == Err::<GdtFileV, GdtErrV>(e@),
        },
{
    proof {
        lemma_lines_view(lines);
    }
    let ghost lv: Seq<Seq<char>> = lines.deep_view();
    let mut i: usize = start;
    loop
        invariant
            start <= i <= lines@.len(),
            lv == lines.deep_view(),
            spec_scan(lv, start as int, ScanMode::InHeader, old(file)@) == spec_scan(
                lv,
                i as int,
                ScanMode::InHeader,
                file@,
            ),
        decreases lines@.len() - i,
    {
        if i >= lines.len() {
            return Ok(i);
        }
        match string_to_gdt_line(&lines[i]) {
            Err(_) => {
                i = i + 1;
            },
            Ok(rl) => {
                let id: u32 = rl.field_identifier;
                if id == 8201 {
                    return Ok(i + 1);
                } else if id == 8315 {
                    file.object_header_data.gdt_id_receiver = rl.content;
                    i = i + 1;
                } else if id == 8316 {
                    file.object_header_data.gdt_id_sender = rl.content;
                    i = i + 1;
                } else if id == 9218 {
                    file.object_header_data.version_gdt = rl.content;
                    i = i + 1;
                } else {
                    i = i + 1;
                }
            },
        }
    }
}

/// Reads the body of an `Obj_Patient` object, starting at line `start`, into
/// `file.object_patient`. A gender field that is neither `"1"` nor `"2"` is
/// fatal. Returns the index of the first line after the object.
pub fn read_patient_object(lines: &Vec<String>, start: usize, file: &mut GdtFile) -> (r: Result<
    usize,
    GdtError,
>)
    requires
        start <= lines@.len(),
    ensures
        match r {
            Ok(j) => start <= j <= lines@.len() && spec_scan(
                lines.deep_view(),
                start as int,
                ScanMode::InPatient,
                old(file)@,
            ) == spec_scan(lines.deep_view(), j as int, ScanMode::TopLevel, final(file)@),
            Err(e) => spec_scan(
                lines.deep_view(),
                start as int,
                ScanMode::InPatient,
                old(file)@,
            ) == Err::<GdtFileV, GdtErrV>(e@),
        },
{
    proof {
        lemma_lines_view(lines);
    }
    let ghost lv: Seq<Seq<char>> = lines.deep_view();
    let mut i: usize = start;
    loop
        invariant
            start <= i <= lines@.len(),
            lv == lines.deep_view(),
            spec_scan(lv, start as int, ScanMode::InPatient, old(file)@) == spec_scan(
                lv,
                i as int,
                ScanMode::InPatient,
                file@,
            ),
        decreases lines@.len() - i,
    {
        if i >= lines.len() {
            return Ok(i);
        }
        match string_to_gdt_line(&lines[i]) {
            Err(_) => {
                i = i + 1;
            },
            Ok(rl) => {
                let id: u32 = rl.field_identifier;
                if id == 8201 {
                    return Ok(i + 1);
                } else if id == 3000 {
                    file.object_patient.patient_number = rl.content;
                    i = i + 1;
                } else if id == 3101 {
                    file.object_patient.patient_name = rl.content;
                    i = i + 1;
                } else if id == 3102 {
                    file.object_patient.patient_first_name = rl.content;
                    i = i + 1;
                } else if id == 3103 {
                    file.object_patient.patient_dob = rl.content;
                    i = i + 1;
                } else if id == 3104 {
                    file.object_patient.patient_title = rl.content;
                    i = i + 1;
                } else if id == 3105 {
                    file.object_patient.insurance_number = rl.content;
                    i = i + 1;
                } else if id == 3106 {
                    file.object_patient.address = rl.content;
                    i = i + 1;
                } else if id == 3107 {
                    file.object_patient.street = rl.content;
                    i = i + 1;
                } else if id == 3618 {
                    file.object_patient.mobile_phone_number = rl.content;
                    i = i + 1;
                } else if id == 3619 {
                    file.object_patient.email_address = rl.content;
                    i = i + 1;
                } else if id == 3626 {
                    file.object_patient.phone_number = rl.content;
                    i = i + 1;
                } else if id == 3110 {
                    if str_eq(rl.content.as_str(), "1") {
                        file.object_patient.patient_gender = GdtPatientGender::Male;
                        i = i + 1;
                    } else if str_eq(rl.content.as_str(), "2") {
                        file.object_patient.patient_gender = GdtPatientGender::Female;
                        i = i + 1;
                    } else {
                        return Err(
                            GdtError::InvalidValue(String::from_str("Gender"), rl.content),
                        );
                    }
                } else {
                    i = i + 1;
                }
            },
        }
    }
}

/// Reads the body of an `Obj_Basisdiagnostik` object, starting at line
/// `start`, into `file.object_basic_diagnostics`. Returns the index of the
/// first line after the object. This reader never fails: no field of the
/// basic-diagnostics object is fatal.
pub fn read_basic_diagnostics_object(lines: &Vec<String>, start: usize, file: &mut GdtFile) -> (r:
    Result<usize, GdtError>)
    requires
        start <= lines@.len(),
    ensures
        r is Ok,
        match r {
            Ok(j) => start <= j <= lines@.len() && spec_scan(
                lines.deep_view(),
                start as int,
                ScanMode::InBasic,
                old(file)@,
            ) == spec_scan(lines.deep_view(), j as int, ScanMode::TopLevel, final(file)@),
            Err(e) => spec_scan(
                lines.deep_view(),
                start as int,
                ScanMode::InBasic,
                old(file)@,
            ) == Err::<GdtFileV, GdtErrV>(e@),
        },
{
    proof {
        lemma_lines_view(lines);
    }
    let ghost lv: Seq<Seq<char>> = lines.deep_view();
    let mut i: usize = start;
    loop
        invariant
            start <= i <= lines@.len(),
            lv == lines.deep_view(),
            spec_scan(lv, start as int, ScanMode::InBasic, old(file)@) == spec_scan(
                lv,
                i as int,
                ScanMode::InBasic,
                file@,
            ),
        decreases lines@.len() - i,
    {
        if i >= lines.len() {
            return Ok(i);
        }
        match string_to_gdt_line(&lines[i]) {
            Err(_) => {
                i = i + 1;
            },
            Ok(rl) => {
                let id: u32 = rl.field_identifier;
                if id == 8201 {
                    return Ok(i + 1);
                } else if id == 3622 {
                    file.object_basic_diagnostics.patient_height = rl.content;
                    i = i + 1;
                } else if id == 3623 {
                    file.object_basic_diagnostics.patient_weight = rl.content;
                    i = i + 1;
                } else if id == 3632 {
                    file.object_basic_diagnostics.patient_weight = rl.content;
                    i = i + 1;
                } else {
                    i = i + 1;
                }
            },
        }
    }
}

/// Parses a whole GDT record from its physical lines (CRLF terminators
/// already stripped). Returns exactly what the record scanner yields:
/// structural header faults and invalid enumerations are errors, malformed
/// data lines are skipped.
pub fn parse_file(lines: &Vec<String>) -> (r: Result<GdtFile, GdtError>)
    ensures
        match r {
            Ok(f) => spec_parse_file(lines.deep_view()) == Ok::<GdtFileV, GdtErrV>(f@),
            Err(e) => spec_parse_file(lines.deep_view()) == Err::<GdtFileV, GdtErrV>(e@),
        },
{
    proof {
        lemma_lines_view(lines);
        reveal_strlit("Obj_Anforderung");
        reveal_strlit("Obj_Kopfdaten");
        reveal_strlit("Obj_Patient");
        reveal_strlit("Obj_Basisdiagnostik");
    }
    let ghost lv: Seq<Seq<char>> = lines.deep_view();
    let mut file: GdtFile = empty_gdt_file();
    match read_record_header(&mut file, lines) {
        Ok(_) => {},
        Err(e) => {
            return Err(e);
        },
    }
    let ghost file0: GdtFileV = file@;
    let mut i: usize = if lines.len() < 2 {
        lines.len()
    } else {
        2
    };
    proof {
        assert(spec_scan(lv, 2, ScanMode::TopLevel, file0) == spec_scan(
            lv,
            i as int,
            ScanMode::TopLevel,
            file0,
        ));
    }
    loop
        invariant
            i <= lines@.len(),
            lv == lines.deep_view(),
            spec_scan(lv, 2, ScanMode::TopLevel, file0) == spec_scan(
                lv,
                i as int,
                ScanMode::TopLevel,
                file@,
            ),
            spec_parse_file(lv) == spec_scan(lv, 2, ScanMode::TopLevel, file0),
        decreases lines@.len() - i,
    {
        if i >= lines.len() {
            return Ok(file);
        }
        match string_to_gdt_line(&lines[i]) {
            Err(_) => {
                i = i + 1;
            },
            Ok(rl) => {
                let id: u32 = rl.field_identifier;
                if id == 8200 && str_eq(rl.content.as_str(), "Obj_Anforderung") {
                    file.object_request = GdtRequestObject {
                        date_of_examination: String::new(),
                        time_of_examination: String::new(),
                        request_identifier: String::new(),
                        request_uid: String::new(),
                    };
                    match read_request_object(lines, i + 1, &mut file) {
                        Ok(j) => {
                            i = j;
                        },
                        Err(e) => {
                            return Err(e);
                        },
                    }
                } else if id == 8200 && str_eq(rl.content.as_str(), "Obj_Kopfdaten") {
                    file.object_header_data = GdtHeaderDataObject {
                        gdt_id_receiver: String::new(),
                        gdt_id_sender: String::new(),
                        version_gdt: String::new(),
                    };
                    match read_header_data_object(lines, i + 1, &mut file) {
                        Ok(j) => {
                            i = j;
                        },
                        Err(e) => {
                            return Err(e);
                        },
                    }
                } else if id == 8200 && str_eq(rl.content.as_str(), "Obj_Patient") {
                    file.object_patient = empty_patient();
                    match read_patient_object(lines, i + 1, &mut file) {
                        Ok(j) => {
                            i = j;
                        },
                        Err(e) => {
                            return Err(e);
                        },
                    }
                } else if id == 8200 && str_eq(rl.content.as_str(), "Obj_Basisdiagnostik") {
                    file.object_basic_diagnostics = GdtBasicDiagnosticsObject {
                        patient_height: String::new(),
                        patient_weight: String::new(),
                    };
                    match read_basic_diagnostics_object(lines, i + 1, &mut file) {
                        Ok(j) => {
                            i = j;
                        },
                        Err(e) => {
                            return Err(e);
                        },
                    }
                } else if id == 8202 {
                    return Ok(file);
                } else {
                    i = i + 1;
                }
            },
        }
    }
}

// ---------------------------------------------------------------------------
// Serialization
// ---------------------------------------------------------------------------

/// The CRLF line terminator.
pub open spec fn crlf() -> Seq<char> {
    seq!['\r', '\n']
}

/// A four-digit field tag.
pub open spec fn tag_s(t: u32) -> Seq<char> {
    zero_pad(u32_dec(t as nat), 4)
}

/// One physical line for `body` (without the CRLF): three length digits
/// counting the whole line's UTF-8 bytes including prefix and CRLF, then
/// the body.
pub open spec fn spec_gdt_line_s(body: Seq<char>) -> Seq<char> {
    zero_pad(u32_dec((utf8_len(body) + 5) as nat), 3) + body
}

/// The physical lines of one object envelope: the 8200 opener carrying the
/// object name, one line per field body, and the 8201 closer carrying the
/// object's line count.
pub open spec fn spec_obj_lines(name: Seq<char>, bodies: Seq<Seq<char>>) -> Seq<Seq<char>> {
    seq![spec_gdt_line_s(tag_s(8200) + name)] + bodies.map_values(
        |b: Seq<char>| spec_gdt_line_s(b),
    ) + seq![spec_gdt_line_s(tag_s(8201) + u32_dec((bodies.len() + 2) as nat))]
}

/// Lines joined with CRLF terminators after every line.
pub open spec fn spec_join_crlf(lines: Seq<Seq<char>>) -> Seq<char>
    decreases lines.len(),
{
    if lines.len() == 0 {
        Seq::empty()
    } else {
        lines[0] + crlf() + spec_join_crlf(lines.skip(1))
    }
}

/// Joining distributes over concatenation of line lists.
pub proof fn lemma_join_concat(a: Seq<Seq<char>>, b: Seq<Seq<char>>)
    ensures
        spec_join_crlf(a + b) == spec_join_crlf(a) + spec_join_crlf(b),
    decreases a.len(),
{
    if a.len() == 0 {
        assert(a + b =~= b);
        assert(spec_join_crlf(a) =~= Seq::<char>::empty());
        assert(spec_join_crlf(a) + spec_join_crlf(b) =~= spec_join_crlf(b));
    } else {
        assert((a + b).len() > 0);
        assert((a + b)[0] == a[0]);
        assert((a + b).skip(1) =~= a.skip(1) + b);
        lemma_join_concat(a.skip(1), b);
        assert(spec_join_crlf(a + b) == a[0] + crlf() + (spec_join_crlf(a.skip(1)) + spec_join_crlf(
            b,
        )));
        assert(a[0] + crlf() + (spec_join_crlf(a.skip(1)) + spec_join_crlf(b)) =~= (a[0] + crlf()
            + spec_join_crlf(a.skip(1))) + spec_join_crlf(b));
    }
}

/// Joining a single line appends that line and a CRLF.
pub proof fn lemma_join_one(l: Seq<char>)
    ensures
        spec_join_crlf(seq![l]) == l + crlf(),
{
    assert(seq![l].skip(1) =~= Seq::<Seq<char>>::empty());
    assert(l + crlf() + spec_join_crlf(seq![l].skip(1)) =~= l + crlf());
}

/// The body of one field line: four tag digits, then the content.
pub open spec fn spec_body_of_pair(pr: (u32, Seq<char>)) -> Seq<char> {
    tag_s(pr.0) + pr.1
}

/// Field lines of the header object as (tag, content) pairs. The version
/// line is always written, with the fixed version this system speaks.
pub open spec fn spec_header_pairs(o: GdtHeaderDataV) -> Seq<(u32, Seq<char>)> {
    (if o.gdt_id_receiver.len() > 0 {
        seq![(8315u32, o.gdt_id_receiver)]
    } else {
        Seq::empty()
    }) + (if o.gdt_id_sender.len() > 0 {
        seq![(8316u32, o.gdt_id_sender)]
    } else {
        Seq::empty()
    }) + seq![(9218u32, seq!['0', '3', '.', '0', '0'])]
}

/// Serialized field bodies of the header object.
pub open spec fn spec_header_bodies(o: GdtHeaderDataV) -> Seq<Seq<char>> {
    spec_header_pairs(o).map_values(|pr: (u32, Seq<char>)| spec_body_of_pair(pr))
}

/// The gender code of field 3110.
pub open spec fn spec_gender_code(g: GdtPatientGender) -> Seq<char> {
    match g {
        GdtPatientGender::Male => seq!['1'],
        GdtPatientGender::Female => seq!['2'],
    }
}

/// Field lines of the patient object as (tag, content) pairs: the four
/// optional fields this system writes, then the gender, always written.
pub open spec fn spec_patient_pairs(o: GdtPatientV) -> Seq<(u32, Seq<char>)> {
    (if o.patient_number.len() > 0 {
        seq![(3000u32, o.patient_number)]
    } else {
        Seq::empty()
    }) + (if o.patient_name.len() > 0 {
        seq![(3101u32, o.patient_name)]
    } else {
        Seq::empty()
    }) + (if o.patient_first_name.len() > 0 {
        seq![(3102u32, o.patient_first_name)]
    } else {
        Seq::empty()
    }) + (if o.patient_dob.len() > 0 {
        seq![(3103u32, o.patient_dob)]
    } else {
        Seq::empty()
    }) + seq![(3110u32, spec_gender_code(o.patient_gender))]
}

/// Serialized field bodies of the patient object.
pub open spec fn spec_patient_bodies(o: GdtPatientV) -> Seq<Seq<char>> {
    spec_patient_pairs(o).map_values(|pr: (u32, Seq<char>)| spec_body_of_pair(pr))
}

/// Field lines of the basic-diagnostics object as (tag, content) pairs.
pub open spec fn spec_basic_pairs(o: GdtBasicDiagnosticsV) -> Seq<(u32, Seq<char>)> {
    (if o.patient_height.len() > 0 {
        seq![(3622u32, o.patient_height)]
    } else {
        Seq::empty()
    }) + (if o.patient_weight.len() > 0 {
        seq![(3623u32, o.patient_weight)]
    } else {
        Seq::empty()
    })
}

/// Serialized field bodies of the basic-diagnostics object.
pub open spec fn spec_basic_bodies(o: GdtBasicDiagnosticsV) -> Seq<Seq<char>> {
    spec_basic_pairs(o).map_values(|pr: (u32, Seq<char>)| spec_body_of_pair(pr))
}

/// Field lines of the request object as (tag, content) pairs.
pub open spec fn spec_request_pairs(o: GdtRequestV) -> Seq<(u32, Seq<char>)> {
    (if o.date_of_examination.len() > 0 {
        seq![(6200u32, o.date_of_examination)]
    } else {
        Seq::empty()
    }) + (if o.time_of_examination.len() > 0 {
        seq![(6201u32, o.time_of_examination)]
    } else {
        Seq::empty()
    }) + (if o.request_identifier.len() > 0 {
        seq![(8310u32, o.request_identifier)]
    } else {
        Seq::empty()
    }) + (if o.request_uid.len() > 0 {
        seq![(8314u32, o.request_uid)]
    } else {
        Seq::empty()
    })
}

/// Serialized field bodies of the request object.
pub open spec fn spec_request_bodies(o: GdtRequestV) -> Seq<Seq<char>> {
    spec_request_pairs(o).map_values(|pr: (u32, Seq<char>)| spec_body_of_pair(pr))
}

/// The fixed first record line: type 6301.
pub open spec fn spec_header_line() -> Seq<char> {
    spec_gdt_line_s(tag_s(8000) + u32_dec(6301))
}

/// Every field this system serializes fits a physical line: the three-digit
/// byte-length prefix caps a field content at 990 UTF-8 bytes.
pub open spec fn spec_ser_ok(f: GdtFileV) -> bool {
    &&& utf8_len(f.object_header_data.gdt_id_receiver) <= 990
    &&& utf8_len(f.object_header_data.gdt_id_sender) <= 990
    &&& utf8_len(f.object_patient.patient_number) <= 990
    &&& utf8_len(f.object_patient.patient_name) <= 990
    &&& utf8_len(f.object_patient.patient_first_name) <= 990
    &&& utf8_len(f.object_patient.patient_dob) <= 990
    &&& utf8_len(f.object_basic_diagnostics.patient_height) <= 990
    &&& utf8_len(f.object_basic_diagnostics.patient_weight) <= 990
    &&& utf8_len(f.object_request.date_of_examination) <= 990
    &&& utf8_len(f.object_request.time_of_examination) <= 990
    &&& utf8_len(f.object_request.request_identifier) <= 990
    &&& utf8_len(f.object_request.request_uid) <= 990
}

/// The physical lines of a serialized record: fixed type line, record-length
/// line, the four objects this system writes, and the 8202 end line carrying
/// the total line count. The record length counts every emitted UTF-8
/// byte, CRLF terminators included.
pub open spec fn spec_file_to_lines(f: GdtFileV) -> Seq<Seq<char>> {
    let h = spec_obj_lines("Obj_Kopfdaten"@, spec_header_bodies(f.object_header_data));
    let p = spec_obj_lines("Obj_Patient"@, spec_patient_bodies(f.object_patient));
    let b = spec_obj_lines("Obj_Basisdiagnostik"@, spec_basic_bodies(f.object_basic_diagnostics));
    let q = spec_obj_lines("Obj_Anforderung"@, spec_request_bodies(f.object_request));
    let total_lines = 3 + h.len() + p.len() + b.len() + q.len();
    let end_line = spec_gdt_line_s(tag_s(8202) + u32_dec(total_lines as nat));
    let total_length = (utf8_len(spec_header_line()) + 2) + 16 + utf8_len(spec_join_crlf(h))
        + utf8_len(spec_join_crlf(p)) + utf8_len(spec_join_crlf(b)) + utf8_len(
        spec_join_crlf(q),
    ) + (utf8_len(end_line) + 2);
    let length_line = spec_gdt_line_s(tag_s(8100) + zero_pad(u32_dec(total_length as nat), 7));
    seq![spec_header_line(), length_line] + h + p + b + q + seq![end_line]
}

/// The serialized record text.
pub open spec fn spec_file_to_string(f: GdtFileV) -> Seq<char> {
    spec_join_crlf(spec_file_to_lines(f))
}

/// Small powers of ten, by unfolding.
proof fn lemma_pow10_vals()
    ensures
        pow10(0) == 1,
        pow10(1) == 10,
        pow10(2) == 100,
        pow10(3) == 1000,
        pow10(4) == 10000,
        pow10(5) == 100000,
        pow10(6) == 1000000,
        pow10(7) == 10000000,
        pow10(8) == 100000000,
        pow10(9) == 1000000000,
        pow10(10) == 10000000000,
{
    assert(pow10(0) == 1);
    assert(pow10(1) == 10);
    assert(pow10(2) == 100);
    assert(pow10(3) == 1000);
    assert(pow10(4) == 10000);
    assert(pow10(5) == 100000);
    assert(pow10(6) == 1000000);
    assert(pow10(7) == 10000000);
    assert(pow10(8) == 100000000);
    assert(pow10(9) == 1000000000);
    assert(pow10(10) == 10000000000);
}

/// A tag below 10000 prints as exactly four digit characters and reads back
/// as itself.
proof fn lemma_tag_s(t: u32)
    requires
        t < 10000,
    ensures
        tag_s(t).len() == 4,
        all_digits(tag_s(t)),
        spec_parse_u32(tag_s(t)) == Some(t),
{
    lemma_pow10_vals();
    lemma_u32_dec_digits(t as nat);
    lemma_u32_dec_len_le(t as nat, 4);
    lemma_zero_pad(u32_dec(t as nat), 4);
    lemma_parse_of_pad(t as nat, 4);
}

/// Any `u32` prints in at most ten digits.
proof fn lemma_dec_len_10(n: u32)
    ensures
        u32_dec(n as nat).len() <= 10,
        u32_dec(n as nat).len() >= 1,
{
    lemma_pow10_vals();
    lemma_u32_dec_digits(n as nat);
    lemma_u32_dec_len_le(n as nat, 10);
}

/// Builds one physical line from its body: three length digits, the body,
/// CRLF.
pub fn line_body_to_gdt_string(line: String) -> (r: String)
    requires
        utf8_len(line@) + 5 <= u32::MAX,
    ensures
        r@ == spec_gdt_line_s(line@) + crlf(),
        r@.len() >= line@.len() + 5,
{
    let n: usize = utf8_len_exec(line.as_str());
    let mut r: String = u32_to_dec_pad((n + 5) as u32, 3);
    r.append(line.as_str());
    r.append("\r\n");
    proof {
        reveal_strlit("\r\n");
        assert("\r\n"@ =~= crlf());
        assert(r@ =~= spec_gdt_line_s(line@) + crlf());
        lemma_u32_dec_digits((utf8_len(line@) + 5) as nat);
        lemma_zero_pad(u32_dec((utf8_len(line@) + 5) as nat), 3);
    }
    r
}

/// Builds an object envelope from its name and its field-body lines; returns
/// the object's physical line count and its text.
pub fn obj_and_lines_to_gdt_string(obj_name: &str, lines: Vec<String>) -> (r: (usize, String))
    requires
        utf8_len(obj_name@) + 9 <= u32::MAX,
        forall|i: int|
            0 <= i < lines@.len() ==> utf8_len((#[trigger] lines@[i])@) + 5 <= u32::MAX,
        lines@.len() + 2 <= u32::MAX,
    ensures
        r.0 == lines@.len() + 2,
        r.1@ == spec_join_crlf(spec_obj_lines(obj_name@, lines.deep_view())),
{
    proof {
        lemma_lines_view(&lines);
    }
    let ghost bodies: Seq<Seq<char>> = lines.deep_view();
    let mut open_body: String = u32_to_dec_pad(8200, 4);
    open_body.append(obj_name);
    proof {
        lemma_tag_s(8200);
        lemma_utf8_len_digits(tag_s(8200));
        lemma_utf8_len_concat(tag_s(8200), obj_name@);
    }
    let mut s: String = line_body_to_gdt_string(open_body);
    let ghost open_line: Seq<char> = spec_gdt_line_s(tag_s(8200) + obj_name@);
    proof {
        lemma_join_one(open_line);
        assert(s@ == spec_join_crlf(seq![open_line]));
    }
    let mut k: usize = 0;
    while k < lines.len()
        invariant
            0 <= k <= lines@.len(),
            bodies == lines.deep_view(),
            forall|i: int|
                0 <= i < lines@.len() ==> utf8_len((#[trigger] lines@[i])@) + 5 <= u32::MAX,
            s@ == spec_join_crlf(
                seq![open_line] + bodies.take(k as int).map_values(
                    |b: Seq<char>| spec_gdt_line_s(b),
                ),
            ),
        decreases lines@.len() - k,
    {
        let next: String = line_body_to_gdt_string(lines[k].clone());
        s.append(next.as_str());
        proof {
            let pfx = seq![open_line] + bodies.take(k as int).map_values(
                |b: Seq<char>| spec_gdt_line_s(b),
            );
            let pfx2 = seq![open_line] + bodies.take(k + 1).map_values(
                |b: Seq<char>| spec_gdt_line_s(b),
            );
            assert(pfx2 =~= pfx + seq![spec_gdt_line_s(bodies[k as int])]);
            lemma_join_concat(pfx, seq![spec_gdt_line_s(bodies[k as int])]);
            lemma_join_one(spec_gdt_line_s(bodies[k as int]));
            assert(s@ =~= spec_join_crlf(pfx2));
        }
        k = k + 1;
    }
    let mut close_body: String = u32_to_dec_pad(8201, 4);
    let count: usize = lines.len() + 2;
    close_body.append(u32_to_dec(count as u32).as_str());
    proof {
        lemma_tag_s(8201);
        lemma_dec_len_10(count as u32);
        lemma_utf8_len_digits(tag_s(8201));
        lemma_u32_dec_digits(count as nat);
        lemma_utf8_len_digits(u32_dec(count as nat));
        lemma_utf8_len_concat(tag_s(8201), u32_dec(count as nat));
    }
    let close: String = line_body_to_gdt_string(close_body);
    s.append(close.as_str());
    proof {
        let mapped = bodies.map_values(|b: Seq<char>| spec_gdt_line_s(b));
        assert(bodies.take(lines@.len() as int) =~= bodies);
        let close_line = spec_gdt_line_s(tag_s(8201) + u32_dec((bodies.len() + 2) as nat));
        let pfx = seq![open_line] + mapped;
        lemma_join_concat(pfx, seq![close_line]);
        lemma_join_one(close_line);
        assert(spec_obj_lines(obj_name@, bodies) =~= pfx + seq![close_line]);
        assert(s@ =~= spec_join_crlf(spec_obj_lines(obj_name@, bodies)));
    }
    (count, s)
}

/// Length bounds of one physical line: the prefix is three to ten digits.
proof fn lemma_line_s_len(b: Seq<char>)
    requires
        utf8_len(b) + 5 <= u32::MAX,
    ensures
        spec_gdt_line_s(b).len() <= b.len() + 10,
        spec_gdt_line_s(b).len() >= b.len() + 3,
{
    lemma_dec_len_10((utf8_len(b) + 5) as u32);
    lemma_u32_dec_digits((utf8_len(b) + 5) as nat);
    lemma_zero_pad(u32_dec((utf8_len(b) + 5) as nat), 3);
}

/// Shape and length bound of an object envelope with short name and bounded
/// bodies.
proof fn lemma_obj_lines_bound(name: Seq<char>, bodies: Seq<Seq<char>>)
    requires
        name.len() <= 100,
        utf8_len(name) <= 400,
        bodies.len() <= 5,
        forall|i: int|
            0 <= i < bodies.len() ==> (#[trigger] bodies[i]).len() <= 994 && utf8_len(bodies[i])
                <= 3976,
    ensures
        spec_obj_lines(name, bodies).len() == bodies.len() + 2,
        spec_join_crlf(spec_obj_lines(name, bodies)).len() <= 8400,
{
    let lines = spec_obj_lines(name, bodies);
    lemma_tag_s(8200);
    lemma_tag_s(8201);
    lemma_utf8_len_digits(tag_s(8200));
    lemma_utf8_len_digits(tag_s(8201));
    lemma_utf8_len_concat(tag_s(8200), name);
    lemma_line_s_len(tag_s(8200) + name);
    lemma_dec_len_10((bodies.len() + 2) as u32);
    lemma_u32_dec_digits((bodies.len() + 2) as nat);
    lemma_utf8_len_digits(u32_dec((bodies.len() + 2) as nat));
    lemma_utf8_len_concat(tag_s(8201), u32_dec((bodies.len() + 2) as nat));
    lemma_line_s_len(tag_s(8201) + u32_dec((bodies.len() + 2) as nat));
    assert forall|i: int| 0 <= i < lines.len() implies (#[trigger] lines[i]).len() <= 1198 by {
        if 1 <= i < 1 + bodies.len() {
            let mapped = bodies.map_values(|b: Seq<char>| spec_gdt_line_s(b));
            assert(lines[i] == mapped[i - 1]);
            assert(mapped[i - 1] == spec_gdt_line_s(bodies[i - 1]));
            lemma_utf8_len_bounds(bodies[i - 1]);
            lemma_line_s_len(bodies[i - 1]);
        }
    }
    lemma_join_len_bound(lines, 1198);
    assert(lines.len() * (1198 + 2) <= 7 * 1200) by (nonlinear_arith)
        requires
            lines.len() <= 7,
    ;
}

/// A join of lines each at most `m` long is at most `len * (m + 2)` long.
proof fn lemma_join_len_bound(lines: Seq<Seq<char>>, m: nat)
    requires
        forall|i: int| 0 <= i < lines.len() ==> (#[trigger] lines[i]).len() <= m,
    ensures
        spec_join_crlf(lines).len() <= lines.len() * (m + 2),
    decreases lines.len(),
{
    if lines.len() == 0 {
    } else {
        assert(forall|i: int|
            0 <= i < lines.skip(1).len() ==> (#[trigger] lines.skip(1)[i]).len() <= m);
        lemma_join_len_bound(lines.skip(1), m);
        assert(lines.len() * (m + 2) == (lines.len() - 1) * (m + 2) + (m + 2)) by (nonlinear_arith);
    }
}

/// Byte and character bounds of serialized field bodies whose contents are
/// bounded: each body is a four-digit tag followed by its content.
proof fn lemma_bodies_bound(pairs: Seq<(u32, Seq<char>)>)
    requires
        forall|k: int|
            0 <= k < pairs.len() ==> ((#[trigger] pairs[k]).0 < 10000 && utf8_len(pairs[k].1)
                <= 990),
    ensures
        forall|k: int|
            0 <= k < pairs.len() ==> (spec_body_of_pair(#[trigger] pairs[k]).len() <= 994
                && utf8_len(spec_body_of_pair(pairs[k])) <= 994),
{
    assert forall|k: int| 0 <= k < pairs.len() implies (spec_body_of_pair(
        #[trigger] pairs[k],
    ).len() <= 994 && utf8_len(spec_body_of_pair(pairs[k])) <= 994) by {
        lemma_tag_s(pairs[k].0);
        lemma_utf8_len_digits(tag_s(pairs[k].0));
        lemma_utf8_len_concat(tag_s(pairs[k].0), pairs[k].1);
        lemma_utf8_len_bounds(pairs[k].1);
    }
}

/// Serializes the header object; returns its line count and text. The
/// version field is always written as `03.00`.
pub fn obj_header_to_string(obj: GdtHeaderDataObject) -> (r: (usize, String))
    requires
        utf8_len(obj@.gdt_id_receiver) <= 990,
        utf8_len(obj@.gdt_id_sender) <= 990,
    ensures
        r.0 == spec_header_bodies(obj@).len() + 2,
        r.1@ == spec_join_crlf(spec_obj_lines("Obj_Kopfdaten"@, spec_header_bodies(obj@))),
        r.1@.len() <= 8400,
{
    let ghost bodies_s: Seq<Seq<char>> = spec_header_bodies(obj@);
    let mut bodies: Vec<String> = Vec::new();
    if obj.gdt_id_receiver.as_str().unicode_len() > 0 {
        let mut b: String = u32_to_dec_pad(8315, 4);
        b.append(obj.gdt_id_receiver.as_str());
        bodies.push(b);
    }
    if obj.gdt_id_sender.as_str().unicode_len() > 0 {
        let mut b: String = u32_to_dec_pad(8316, 4);
        b.append(obj.gdt_id_sender.as_str());
        bodies.push(b);
    }
    let mut v: String = u32_to_dec_pad(9218, 4);
    v.append("03.00");
    bodies.push(v);
    proof {
        reveal_strlit("03.00");
        reveal_strlit("Obj_Kopfdaten");
        lemma_lines_view(&bodies);
        lemma_tag_s(8315);
        lemma_tag_s(8316);
        lemma_tag_s(9218);
        assert("03.00"@ =~= seq!['0', '3', '.', '0', '0']);
        assert(bodies.deep_view() =~= bodies_s);
        lemma_utf8_len_ascii("Obj_Kopfdaten"@);
        lemma_utf8_len_ascii(seq!['0', '3', '.', '0', '0']);
        lemma_bodies_bound(spec_header_pairs(obj@));
        assert forall|i2: int|
            0 <= i2 < bodies@.len() implies utf8_len((#[trigger] bodies@[i2])@) + 5
            <= u32::MAX by {
            assert(bodies.deep_view()[i2] == bodies@[i2]@);
            assert(bodies_s[i2] == spec_body_of_pair(spec_header_pairs(obj@)[i2]));
        }
        lemma_obj_lines_bound("Obj_Kopfdaten"@, bodies_s);
    }
    obj_and_lines_to_gdt_string("Obj_Kopfdaten", bodies)
}

/// Serializes the patient object; returns its line count and text. Only
/// non-empty fields are written; the gender is always written.
pub fn obj_patient_to_string(obj: GdtPatientObject) -> (r: (usize, String))
    requires
        utf8_len(obj@.patient_number) <= 990,
        utf8_len(obj@.patient_name) <= 990,
        utf8_len(obj@.patient_first_name) <= 990,
        utf8_len(obj@.patient_dob) <= 990,
    ensures
        r.0 == spec_patient_bodies(obj@).len() + 2,
        r.1@ == spec_join_crlf(spec_obj_lines("Obj_Patient"@, spec_patient_bodies(obj@))),
        r.1@.len() <= 8400,
{
    let ghost bodies_s: Seq<Seq<char>> = spec_patient_bodies(obj@);
    let mut bodies: Vec<String> = Vec::new();
    if obj.patient_number.as_str().unicode_len() > 0 {
        let mut b: String = u32_to_dec_pad(3000, 4);
        b.append(obj.patient_number.as_str());
        bodies.push(b);
    }
    if obj.patient_name.as_str().unicode_len() > 0 {
        let mut b: String = u32_to_dec_pad(3101, 4);
        b.append(obj.patient_name.as_str());
        bodies.push(b);
    }
    if obj.patient_first_name.as_str().unicode_len() > 0 {
        let mut b: String = u32_to_dec_pad(3102, 4);
        b.append(obj.patient_first_name.as_str());
        bodies.push(b);
    }
    if obj.patient_dob.as_str().unicode_len() > 0 {
        let mut b: String = u32_to_dec_pad(3103, 4);
        b.append(obj.patient_dob.as_str());
        bodies.push(b);
    }
    let mut g: String = u32_to_dec_pad(3110, 4);
    match obj.patient_gender {
        GdtPatientGender::Male => g.append(u32_to_dec(1).as_str()),
        GdtPatientGender::Female => g.append(u32_to_dec(2).as_str()),
    }
    bodies.push(g);
    proof {
        reveal_strlit("Obj_Patient");
        lemma_lines_view(&bodies);
        lemma_tag_s(3000);
        lemma_tag_s(3101);
        lemma_tag_s(3102);
        lemma_tag_s(3103);
        lemma_tag_s(3110);
        assert(u32_dec(1) =~= spec_gender_code(GdtPatientGender::Male));
        assert(u32_dec(2) =~= spec_gender_code(GdtPatientGender::Female));
        assert(bodies.deep_view() =~= bodies_s);
        lemma_utf8_len_ascii("Obj_Patient"@);
        lemma_utf8_len_ascii(seq!['1']);
        lemma_utf8_len_ascii(seq!['2']);
        lemma_bodies_bound(spec_patient_pairs(obj@));
        assert forall|i2: int|
            0 <= i2 < bodies@.len() implies utf8_len((#[trigger] bodies@[i2])@) + 5
            <= u32::MAX by {
            assert(bodies.deep_view()[i2] == bodies@[i2]@);
            assert(bodies_s[i2] == spec_body_of_pair(spec_patient_pairs(obj@)[i2]));
        }
        lemma_obj_lines_bound("Obj_Patient"@, bodies_s);
    }
    obj_and_lines_to_gdt_string("Obj_Patient", bodies)
}

/// Serializes the basic-diagnostics object; returns its line count and text.
pub fn obj_basic_diagnostics_request_to_string(obj: GdtBasicDiagnosticsObject) -> (r: (
    usize,
    String,
))
    requires
        utf8_len(obj@.patient_height) <= 990,
        utf8_len(obj@.patient_weight) <= 990,
    ensures
        r.0 == spec_basic_bodies(obj@).len() + 2,
        r.1@ == spec_join_crlf(spec_obj_lines("Obj_Basisdiagnostik"@, spec_basic_bodies(obj@))),
        r.1@.len() <= 8400,
{
    let ghost bodies_s: Seq<Seq<char>> = spec_basic_bodies(obj@);
    let mut bodies: Vec<String> = Vec::new();
    if obj.patient_height.as_str().unicode_len() > 0 {
        let mut b: String = u32_to_dec_pad(3622, 4);
        b.append(obj.patient_height.as_str());
        bodies.push(b);
    }
    if obj.patient_weight.as_str().unicode_len() > 0 {
        let mut b: String = u32_to_dec_pad(3623, 4);
        b.append(obj.patient_weight.as_str());
        bodies.push(b);
    }
    proof {
        reveal_strlit("Obj_Basisdiagnostik");
        lemma_lines_view(&bodies);
        lemma_tag_s(3622);
        lemma_tag_s(3623);
        assert(bodies.deep_view() =~= bodies_s);
        lemma_utf8_len_ascii("Obj_Basisdiagnostik"@);
        lemma_bodies_bound(spec_basic_pairs(obj@));
        assert forall|i2: int|
            0 <= i2 < bodies@.len() implies utf8_len((#[trigger] bodies@[i2])@) + 5
            <= u32::MAX by {
            assert(bodies.deep_view()[i2] == bodies@[i2]@);
            assert(bodies_s[i2] == spec_body_of_pair(spec_basic_pairs(obj@)[i2]));
        }
        lemma_obj_lines_bound("Obj_Basisdiagnostik"@, bodies_s);
    }
    obj_and_lines_to_gdt_string("Obj_Basisdiagnostik", bodies)
}

/// Serializes the request object; returns its line count and text.
pub fn obj_gdt_request_to_string(obj: GdtRequestObject) -> (r: (usize, String))
    requires
        utf8_len(obj@.date_of_examination) <= 990,
        utf8_len(obj@.time_of_examination) <= 990,
        utf8_len(obj@.request_identifier) <= 990,
        utf8_len(obj@.request_uid) <= 990,
    ensures
        r.0 == spec_request_bodies(obj@).len() + 2,
        r.1@ == spec_join_crlf(spec_obj_lines("Obj_Anforderung"@, spec_request_bodies(obj@))),
        r.1@.len() <= 8400,
{
    let ghost bodies_s: Seq<Seq<char>> = spec_request_bodies(obj@);
    let mut bodies: Vec<String> = Vec::new();
    if obj.date_of_examination.as_str().unicode_len() > 0 {
        let mut b: String = u32_to_dec_pad(6200, 4);
        b.append(obj.date_of_examination.as_str());
        bodies.push(b);
    }
    if obj.time_of_examination.as_str().unicode_len() > 0 {
        let mut b: String = u32_to_dec_pad(6201, 4);
        b.append(obj.time_of_examination.as_str());
        bodies.push(b);
    }
    if obj.request_identifier.as_str().unicode_len() > 0 {
        let mut b: String = u32_to_dec_pad(8310, 4);
        b.append(obj.request_identifier.as_str());
        bodies.push(b);
    }
    if obj.request_uid.as_str().unicode_len() > 0 {
        let mut b: String = u32_to_dec_pad(8314, 4);
        b.append(obj.request_uid.as_str());
        bodies.push(b);
    }
    proof {
        reveal_strlit("Obj_Anforderung");
        lemma_lines_view(&bodies);
        lemma_tag_s(6200);
        lemma_tag_s(6201);
        lemma_tag_s(8310);
        lemma_tag_s(8314);
        assert(bodies.deep_view() =~= bodies_s);
        lemma_utf8_len_ascii("Obj_Anforderung"@);
        lemma_bodies_bound(spec_request_pairs(obj@));
        assert forall|i2: int|
            0 <= i2 < bodies@.len() implies utf8_len((#[trigger] bodies@[i2])@) + 5
            <= u32::MAX by {
            assert(bodies.deep_view()[i2] == bodies@[i2]@);
            assert(bodies_s[i2] == spec_body_of_pair(spec_request_pairs(obj@)[i2]));
        }
        lemma_obj_lines_bound("Obj_Anforderung"@, bodies_s);
    }
    obj_and_lines_to_gdt_string("Obj_Anforderung", bodies)
}

/// Serializes a whole record: the inverse of parsing for the objects this
/// system writes. Emits the fixed type line, the record-length line, the
/// four objects, and the 8202 end line; the record length counts every
/// emitted byte including CRLF terminators and the length line itself.
#[verifier::rlimit(80)]
pub fn file_to_string(file: GdtFile) -> (r: String)
    requires
        spec_ser_ok(file@),
    ensures
        r@ == spec_file_to_string(file@),
{
    let ghost fv: GdtFileV = file@;
    let mut header_body: String = u32_to_dec_pad(8000, 4);
    header_body.append(u32_to_dec(6301).as_str());
    proof {
        lemma_tag_s(8000);
        lemma_dec_len_10(6301);
        lemma_utf8_len_digits(tag_s(8000));
        lemma_u32_dec_digits(6301);
        lemma_utf8_len_digits(u32_dec(6301));
        lemma_utf8_len_concat(tag_s(8000), u32_dec(6301));
    }
    let header: String = line_body_to_gdt_string(header_body);
    let (header_lines, header_obj) = obj_header_to_string(file.object_header_data);
    let (patient_lines, patient) = obj_patient_to_string(file.object_patient);
    let (basic_lines, basic) = obj_basic_diagnostics_request_to_string(
        file.object_basic_diagnostics,
    );
    let (request_lines, request) = obj_gdt_request_to_string(file.object_request);

    let total_lines: usize = 1 + 1 + header_lines + patient_lines + basic_lines + request_lines
        + 1;
    let mut end_body: String = u32_to_dec_pad(8202, 4);
    end_body.append(u32_to_dec(total_lines as u32).as_str());
    proof {
        lemma_tag_s(8202);
        lemma_dec_len_10(total_lines as u32);
        lemma_utf8_len_digits(tag_s(8202));
        lemma_u32_dec_digits(total_lines as nat);
        lemma_utf8_len_digits(u32_dec(total_lines as nat));
        lemma_utf8_len_concat(tag_s(8202), u32_dec(total_lines as nat));
    }
    let end_of_record: String = line_body_to_gdt_string(end_body);
    proof {
        lemma_line_s_len(tag_s(8000) + u32_dec(6301));
        lemma_line_s_len(end_body@);
        assert(header@.len() <= 26);
        assert(end_of_record@.len() <= 30);
        lemma_utf8_len_bounds(header@);
        lemma_utf8_len_bounds(end_of_record@);
        lemma_utf8_len_bounds(header_obj@);
        lemma_utf8_len_bounds(patient@);
        lemma_utf8_len_bounds(basic@);
        lemma_utf8_len_bounds(request@);
    }

    let total_length: usize = utf8_len_exec(header.as_str()) + 16 + utf8_len_exec(
        header_obj.as_str(),
    ) + utf8_len_exec(patient.as_str()) + utf8_len_exec(basic.as_str()) + utf8_len_exec(
        request.as_str(),
    ) + utf8_len_exec(end_of_record.as_str());
    let mut length_body: String = u32_to_dec_pad(8100, 4);
    length_body.append(u32_to_dec_pad(total_length as u32, 7).as_str());
    proof {
        lemma_tag_s(8100);
        lemma_u32_dec_digits(total_length as nat);
        lemma_zero_pad(u32_dec(total_length as nat), 7);
        lemma_dec_len_10(total_length as u32);
        lemma_utf8_len_digits(tag_s(8100));
        lemma_utf8_len_digits(zero_pad(u32_dec(total_length as nat), 7));
        lemma_utf8_len_concat(tag_s(8100), zero_pad(u32_dec(total_length as nat), 7));
    }
    let record_length: String = line_body_to_gdt_string(length_body);

    let mut output: String = header;
    output.append(record_length.as_str());
    output.append(header_obj.as_str());
    output.append(patient.as_str());
    output.append(basic.as_str());
    output.append(request.as_str());
    output.append(end_of_record.as_str());
    proof {
        let h = spec_obj_lines("Obj_Kopfdaten"@, spec_header_bodies(fv.object_header_data));
        let p = spec_obj_lines("Obj_Patient"@, spec_patient_bodies(fv.object_patient));
        let b = spec_obj_lines(
            "Obj_Basisdiagnostik"@,
            spec_basic_bodies(fv.object_basic_diagnostics),
        );
        let q = spec_obj_lines("Obj_Anforderung"@, spec_request_bodies(fv.object_request));
        let total_lines_s = 3 + h.len() + p.len() + b.len() + q.len();
        let end_line = spec_gdt_line_s(tag_s(8202) + u32_dec(total_lines_s as nat));
        let total_length_s = (utf8_len(spec_header_line()) + 2) + 16 + utf8_len(
            spec_join_crlf(h),
        ) + utf8_len(spec_join_crlf(p)) + utf8_len(spec_join_crlf(b)) + utf8_len(
            spec_join_crlf(q),
        ) + (utf8_len(end_line) + 2);
        let length_line = spec_gdt_line_s(
            tag_s(8100) + zero_pad(u32_dec(total_length_s as nat), 7),
        );
        assert(total_lines == total_lines_s);
        assert(end_of_record@ == end_line + crlf());
        lemma_utf8_len_ascii(crlf());
        lemma_utf8_len_concat(spec_header_line(), crlf());
        lemma_utf8_len_concat(end_line, crlf());
        assert(utf8_len(header@) == utf8_len(spec_header_line()) + 2);
        assert(utf8_len(end_of_record@) == utf8_len(end_line) + 2);
        assert(total_length == total_length_s);
        assert(record_length@ == length_line + crlf());
        let all = seq![spec_header_line(), length_line] + h + p + b + q + seq![end_line];
        lemma_join_concat(seq![spec_header_line()], seq![length_line]);
        lemma_join_one(spec_header_line());
        lemma_join_one(length_line);
        lemma_join_one(end_line);
        lemma_join_concat(seq![spec_header_line(), length_line], h);
        lemma_join_concat(seq![spec_header_line(), length_line] + h, p);
        lemma_join_concat(seq![spec_header_line(), length_line] + h + p, b);
        lemma_join_concat(seq![spec_header_line(), length_line] + h + p + b, q);
        lemma_join_concat(seq![spec_header_line(), length_line] + h + p + b + q, seq![end_line]);
        assert(seq![spec_header_line(), length_line] =~= seq![spec_header_line()] + seq![
            length_line
        ]);
        assert(spec_file_to_lines(fv) == all);
        assert(output@ =~= spec_join_crlf(all));
    }
    output
}

// ---------------------------------------------------------------------------
// Round trip: parsing a serialized record
// ---------------------------------------------------------------------------

/// A serialized field line decodes back to its tag and content.
pub proof fn lemma_ser_line_decode(t: u32, c: Seq<char>)
    requires
        t < 10000,
        utf8_len(c) <= 990,
    ensures
        spec_gdt_line(spec_gdt_line_s(tag_s(t) + c)) == Ok::<RawGdtLineV, GdtErrV>(
            RawGdtLineV { field_identifier: t, content: c },
        ),
{
    lemma_tag_s(t);
    lemma_utf8_len_digits(tag_s(t));
    lemma_utf8_len_concat(tag_s(t), c);
    let body = tag_s(t) + c;
    let n = (utf8_len(body) + 5) as nat;
    lemma_pow10_vals();
    lemma_u32_dec_digits(n);
    lemma_u32_dec_len_le(n, 3);
    lemma_zero_pad(u32_dec(n), 3);
    let line = spec_gdt_line_s(body);
    assert(line.len() == 3 + body.len());
    assert(line.subrange(3, 7) =~= tag_s(t));
    assert(line.skip(7) =~= c);
}

/// Effect of one in-object field line on the record, by mode.
pub open spec fn spec_apply_body(mode: ScanMode, file: GdtFileV, t: u32, c: Seq<char>) -> GdtFileV {
    match mode {
        ScanMode::TopLevel => file,
        ScanMode::InRequest => GdtFileV {
            object_request: spec_request_field(file.object_request, t, c),
            ..file
        },
        ScanMode::InHeader => GdtFileV {
            object_header_data: spec_header_field(file.object_header_data, t, c),
            ..file
        },
        ScanMode::InPatient => GdtFileV {
            object_patient: spec_patient_field(file.object_patient, t, c),
            ..file
        },
        ScanMode::InBasic => GdtFileV {
            object_basic_diagnostics: spec_basic_field(file.object_basic_diagnostics, t, c),
            ..file
        },
    }
}

/// Folds a list of field lines over the record, by mode.
pub open spec fn spec_fold_bodies(
    mode: ScanMode,
    file: GdtFileV,
    pairs: Seq<(u32, Seq<char>)>,
) -> GdtFileV
    decreases pairs.len(),
{
    if pairs.len() == 0 {
        file
    } else {
        spec_fold_bodies(mode, spec_apply_body(mode, file, pairs[0].0, pairs[0].1), pairs.skip(1))
    }
}

/// Folding distributes over concatenation of field-line lists.
proof fn lemma_fold_concat(mode: ScanMode, file: GdtFileV, a: Seq<(u32, Seq<char>)>, b: Seq<(u32, Seq<char>)>)
    ensures
        spec_fold_bodies(mode, file, a + b) == spec_fold_bodies(
            mode,
            spec_fold_bodies(mode, file, a),
            b,
        ),
    decreases a.len(),
{
    if a.len() == 0 {
        assert(a + b =~= b);
    } else {
        assert((a + b)[0] == a[0]);
        assert((a + b).skip(1) =~= a.skip(1) + b);
        lemma_fold_concat(mode, spec_apply_body(mode, file, a[0].0, a[0].1), a.skip(1), b);
    }
}

/// Pairs that a serialized object emits: known four-digit tags, no closer,
/// bounded contents, and no invalid gender line.
pub open spec fn spec_pairs_ok(pairs: Seq<(u32, Seq<char>)>) -> bool {
    forall|k: int|
        0 <= k < pairs.len() ==> {
            let pr = #[trigger] pairs[k];
            &&& 1000 <= pr.0 < 10000
            &&& pr.0 != 8201
            &&& pr.0 != 8200
            &&& pr.0 != 8202
            &&& utf8_len(pr.1) <= 990
            &&& !(pr.0 == 3110 && !(pr.1 == "1"@) && !(pr.1 == "2"@))
        }
}

/// Scanning a run of serialized field lines inside an object folds them over
/// the record and stays in the same mode.
proof fn lemma_scan_bodies(
    lines: Seq<Seq<char>>,
    i: int,
    mode: ScanMode,
    file: GdtFileV,
    pairs: Seq<(u32, Seq<char>)>,
)
    requires
        0 <= i,
        i + pairs.len() <= lines.len(),
        !(mode matches ScanMode::TopLevel),
        spec_pairs_ok(pairs),
        forall|k: int|
            0 <= k < pairs.len() ==> lines[i + k] == spec_gdt_line_s(
                spec_body_of_pair(#[trigger] pairs[k]),
            ),
    ensures
        spec_scan(lines, i, mode, file) == spec_scan(
            lines,
            i + pairs.len(),
            mode,
            spec_fold_bodies(mode, file, pairs),
        ),
    decreases pairs.len(),
{
    if pairs.len() == 0 {
    } else {
        let t = pairs[0].0;
        let c = pairs[0].1;
        lemma_ser_line_decode(t, c);
        assert(lines[i] == spec_gdt_line_s(tag_s(t) + c));
        let file2 = spec_apply_body(mode, file, t, c);
        assert(spec_scan(lines, i, mode, file) == spec_scan(lines, i + 1, mode, file2));
        let rest = pairs.skip(1);
        assert(forall|k: int|
            0 <= k < rest.len() ==> lines[i + 1 + k] == spec_gdt_line_s(
                spec_body_of_pair(#[trigger] rest[k]),
            ));
        assert(spec_pairs_ok(rest));
        lemma_scan_bodies(lines, i + 1, mode, file2, rest);
        assert(spec_fold_bodies(mode, file, pairs) == spec_fold_bodies(mode, file2, rest));
    }
}

/// Folding a single field line is one application.
proof fn lemma_fold_one(mode: ScanMode, file: GdtFileV, pr: (u32, Seq<char>))
    ensures
        spec_fold_bodies(mode, file, seq![pr]) == spec_apply_body(mode, file, pr.0, pr.1),
{
    let one = seq![pr];
    assert(one.len() == 1);
    assert(one[0] == pr);
    assert(one.skip(1) =~= Seq::<(u32, Seq<char>)>::empty());
    let applied = spec_apply_body(mode, file, pr.0, pr.1);
    assert(spec_fold_bodies(mode, applied, one.skip(1)) == applied);
}

/// What a serialized patient object reads back as: the four supported fields
/// and the gender survive, the fields this system does not write come back
/// empty.
pub open spec fn spec_patient_roundtrip(o: GdtPatientV) -> GdtPatientV {
    GdtPatientV {
        patient_number: o.patient_number,
        patient_name: o.patient_name,
        patient_first_name: o.patient_first_name,
        patient_dob: o.patient_dob,
        patient_gender: o.patient_gender,
        ..spec_empty_patient()
    }
}

/// What a serialized header object reads back as: both ids survive and the
/// version is the fixed one this system writes.
pub open spec fn spec_header_roundtrip(o: GdtHeaderDataV) -> GdtHeaderDataV {
    GdtHeaderDataV {
        gdt_id_receiver: o.gdt_id_receiver,
        gdt_id_sender: o.gdt_id_sender,
        version_gdt: seq!['0', '3', '.', '0', '0'],
    }
}

/// Scanning a serialized patient object from its 8200 opener yields the
/// round-tripped patient and returns to the top level.
#[verifier::rlimit(100)]
proof fn lemma_scan_obj_patient(lines: Seq<Seq<char>>, i: int, file: GdtFileV, o: GdtPatientV)
    requires
        0 <= i,
        utf8_len(o.patient_number) <= 990,
        utf8_len(o.patient_name) <= 990,
        utf8_len(o.patient_first_name) <= 990,
        utf8_len(o.patient_dob) <= 990,
        i + spec_obj_lines("Obj_Patient"@, spec_patient_bodies(o)).len() <= lines.len(),
        forall|k: int|
            0 <= k < spec_obj_lines("Obj_Patient"@, spec_patient_bodies(o)).len() ==> lines[i + k]
                == spec_obj_lines("Obj_Patient"@, spec_patient_bodies(o))[k],
    ensures
        spec_scan(lines, i, ScanMode::TopLevel, file) == spec_scan(
            lines,
            i + spec_obj_lines("Obj_Patient"@, spec_patient_bodies(o)).len(),
            ScanMode::TopLevel,
            GdtFileV { object_patient: spec_patient_roundtrip(o), ..file },
        ),
{
    let pairs = spec_patient_pairs(o);
    let objlines = spec_obj_lines("Obj_Patient"@, spec_patient_bodies(o));
    let pl = pairs.len() as int;
    proof_strlits();
    // The opener.
    assert(objlines[0] == spec_gdt_line_s(tag_s(8200) + "Obj_Patient"@));
    reveal_strlit("Obj_Patient");
    lemma_utf8_len_ascii("Obj_Patient"@);
    lemma_utf8_len_ascii(seq!['1']);
    lemma_utf8_len_ascii(seq!['2']);
    lemma_ser_line_decode(8200, "Obj_Patient"@);
    let f0 = GdtFileV { object_patient: spec_empty_patient(), ..file };
    assert(spec_scan(lines, i, ScanMode::TopLevel, file) == spec_scan(
        lines,
        i + 1,
        ScanMode::InPatient,
        f0,
    ));
    // The field lines.
    assert(spec_pairs_ok(pairs)) by {
        assert forall|k: int| 0 <= k < pairs.len() implies {
            let pr = #[trigger] pairs[k];
            &&& 1000 <= pr.0 < 10000
            &&& pr.0 != 8201
            &&& pr.0 != 8200
            &&& pr.0 != 8202
            &&& utf8_len(pr.1) <= 990
            &&& !(pr.0 == 3110 && !(pr.1 == "1"@) && !(pr.1 == "2"@))
        } by {
            assert("1"@ =~= seq!['1']);
            assert("2"@ =~= seq!['2']);
        }
    }
    let bodies = spec_patient_bodies(o);
    let mapped = bodies.map_values(|b: Seq<char>| spec_gdt_line_s(b));
    assert forall|k: int| 0 <= k < pairs.len() implies lines[i + 1 + k] == spec_gdt_line_s(
        spec_body_of_pair(#[trigger] pairs[k]),
    ) by {
        assert(objlines[1 + k] == mapped[k]);
        assert(mapped[k] == spec_gdt_line_s(bodies[k]));
        assert(bodies[k] == spec_body_of_pair(pairs[k]));
    }
    lemma_scan_bodies(lines, i + 1, ScanMode::InPatient, f0, pairs);
    let folded = spec_fold_bodies(ScanMode::InPatient, f0, pairs);
    // The closer.
    assert(objlines[1 + pl] == spec_gdt_line_s(tag_s(8201) + u32_dec((pairs.len() + 2) as nat)));
    lemma_dec_len_10((pairs.len() + 2) as u32);
    lemma_u32_dec_digits((pairs.len() + 2) as nat);
    lemma_utf8_len_digits(u32_dec((pairs.len() + 2) as nat));
    lemma_ser_line_decode(8201, u32_dec((pairs.len() + 2) as nat));
    assert(spec_scan(lines, i + 1 + pl, ScanMode::InPatient, folded) == spec_scan(
        lines,
        i + 2 + pl,
        ScanMode::TopLevel,
        folded,
    ));
    // Evaluate the fold.
    let s1: Seq<(u32, Seq<char>)> = if o.patient_number.len() > 0 {
        seq![(3000u32, o.patient_number)]
    } else {
        Seq::empty()
    };
    let s2: Seq<(u32, Seq<char>)> = if o.patient_name.len() > 0 {
        seq![(3101u32, o.patient_name)]
    } else {
        Seq::empty()
    };
    let s3: Seq<(u32, Seq<char>)> = if o.patient_first_name.len() > 0 {
        seq![(3102u32, o.patient_first_name)]
    } else {
        Seq::empty()
    };
    let s4: Seq<(u32, Seq<char>)> = if o.patient_dob.len() > 0 {
        seq![(3103u32, o.patient_dob)]
    } else {
        Seq::empty()
    };
    let s5: Seq<(u32, Seq<char>)> = seq![(3110u32, spec_gender_code(o.patient_gender))];
    assert(pairs == s1 + s2 + s3 + s4 + s5);
    let m = ScanMode::InPatient;
    lemma_fold_concat(m, f0, s1, s2 + s3 + s4 + s5);
    let f1 = spec_fold_bodies(m, f0, s1);
    assert((s1 + s2 + s3 + s4 + s5).skip(s1.len() as int) =~= s2 + s3 + s4 + s5);
    lemma_fold_concat(m, f1, s2, s3 + s4 + s5);
    let f2 = spec_fold_bodies(m, f1, s2);
    lemma_fold_concat(m, f2, s3, s4 + s5);
    let f3 = spec_fold_bodies(m, f2, s3);
    lemma_fold_concat(m, f3, s4, s5);
    let f4 = spec_fold_bodies(m, f3, s4);
    let f5 = spec_fold_bodies(m, f4, s5);
    assert(spec_fold_bodies(m, f0, s1 + (s2 + s3 + s4 + s5)) == f5) by {
        assert(s1 + (s2 + s3 + s4 + s5) =~= s1 + s2 + s3 + s4 + s5);
        assert(s2 + (s3 + s4 + s5) =~= s2 + s3 + s4 + s5);
        assert(s3 + (s4 + s5) =~= s3 + s4 + s5);
    }
    if o.patient_number.len() > 0 {
        lemma_fold_one(m, f0, (3000u32, o.patient_number));
        assert(f1 == spec_apply_body(m, f0, 3000u32, o.patient_number));
        assert(f1.object_patient.patient_number == o.patient_number);
    } else {
        assert(o.patient_number =~= Seq::<char>::empty());
        assert(f1 == f0);
    }
    if o.patient_name.len() > 0 {
        lemma_fold_one(m, f1, (3101u32, o.patient_name));
        assert(f2 == spec_apply_body(m, f1, 3101u32, o.patient_name));
    } else {
        assert(o.patient_name =~= Seq::<char>::empty());
        assert(f2 == f1);
    }
    if o.patient_first_name.len() > 0 {
        lemma_fold_one(m, f2, (3102u32, o.patient_first_name));
        assert(f3 == spec_apply_body(m, f2, 3102u32, o.patient_first_name));
    } else {
        assert(o.patient_first_name =~= Seq::<char>::empty());
        assert(f3 == f2);
    }
    if o.patient_dob.len() > 0 {
        lemma_fold_one(m, f3, (3103u32, o.patient_dob));
        assert(f4 == spec_apply_body(m, f3, 3103u32, o.patient_dob));
    } else {
        assert(o.patient_dob =~= Seq::<char>::empty());
        assert(f4 == f3);
    }
    lemma_fold_one(m, f4, (3110u32, spec_gender_code(o.patient_gender)));
    assert(f5 == spec_apply_body(m, f4, 3110u32, spec_gender_code(o.patient_gender)));
    assert("1"@ =~= seq!['1']);
    assert("2"@ =~= seq!['2']);
    match o.patient_gender {
        GdtPatientGender::Male => {
            assert(spec_gender_code(o.patient_gender) == "1"@);
            assert(f5.object_patient.patient_gender == GdtPatientGender::Male);
        },
        GdtPatientGender::Female => {
            assert(spec_gender_code(o.patient_gender) == "2"@);
            assert("1"@ != "2"@) by {
                assert("1"@[0] == '1');
                assert("2"@[0] == '2');
            }
            assert(f5.object_patient.patient_gender == GdtPatientGender::Female);
        },
    }
    assert(f5.object_patient.patient_number == o.patient_number);
    assert(f5.object_patient.patient_name == o.patient_name);
    assert(f5.object_patient.patient_first_name == o.patient_first_name);
    assert(f5.object_patient.patient_dob == o.patient_dob);
    assert(f5.object_patient.patient_title == Seq::<char>::empty());
    assert(f5.object_patient == spec_patient_roundtrip(o));
    assert(folded == (GdtFileV { object_patient: spec_patient_roundtrip(o), ..file }));
    assert(objlines.len() == pl + 2);
}

/// Scanning a serialized header object from its 8200 opener yields the
/// round-tripped header and returns to the top level.
#[verifier::rlimit(100)]
proof fn lemma_scan_obj_header(lines: Seq<Seq<char>>, i: int, file: GdtFileV, o: GdtHeaderDataV)
    requires
        0 <= i,
        utf8_len(o.gdt_id_receiver) <= 990,
        utf8_len(o.gdt_id_sender) <= 990,
        i + spec_obj_lines("Obj_Kopfdaten"@, spec_header_bodies(o)).len() <= lines.len(),
        forall|k: int|
            0 <= k < spec_obj_lines("Obj_Kopfdaten"@, spec_header_bodies(o)).len() ==> lines[i + k]
                == spec_obj_lines("Obj_Kopfdaten"@, spec_header_bodies(o))[k],
    ensures
        spec_scan(lines, i, ScanMode::TopLevel, file) == spec_scan(
            lines,
            i + spec_obj_lines("Obj_Kopfdaten"@, spec_header_bodies(o)).len(),
            ScanMode::TopLevel,
            GdtFileV { object_header_data: spec_header_roundtrip(o), ..file },
        ),
{
    let pairs = spec_header_pairs(o);
    let objlines = spec_obj_lines("Obj_Kopfdaten"@, spec_header_bodies(o));
    let pl = pairs.len() as int;
    proof_strlits();
    assert(objlines[0] == spec_gdt_line_s(tag_s(8200) + "Obj_Kopfdaten"@));
    reveal_strlit("Obj_Kopfdaten");
    lemma_utf8_len_ascii("Obj_Kopfdaten"@);
    lemma_utf8_len_ascii(seq!['0', '3', '.', '0', '0']);
    lemma_ser_line_decode(8200, "Obj_Kopfdaten"@);
    let f0 = GdtFileV { object_header_data: spec_empty_gdt_file().object_header_data, ..file };
    assert(spec_scan(lines, i, ScanMode::TopLevel, file) == spec_scan(
        lines,
        i + 1,
        ScanMode::InHeader,
        f0,
    ));
    assert(spec_pairs_ok(pairs));
    let bodies = spec_header_bodies(o);
    let mapped = bodies.map_values(|b: Seq<char>| spec_gdt_line_s(b));
    assert forall|k: int| 0 <= k < pairs.len() implies lines[i + 1 + k] == spec_gdt_line_s(
        spec_body_of_pair(#[trigger] pairs[k]),
    ) by {
        assert(objlines[1 + k] == mapped[k]);
        assert(mapped[k] == spec_gdt_line_s(bodies[k]));
        assert(bodies[k] == spec_body_of_pair(pairs[k]));
    }
    lemma_scan_bodies(lines, i + 1, ScanMode::InHeader, f0, pairs);
    let folded = spec_fold_bodies(ScanMode::InHeader, f0, pairs);
    assert(objlines[1 + pl] == spec_gdt_line_s(tag_s(8201) + u32_dec((pairs.len() + 2) as nat)));
    lemma_dec_len_10((pairs.len() + 2) as u32);
    lemma_u32_dec_digits((pairs.len() + 2) as nat);
    lemma_utf8_len_digits(u32_dec((pairs.len() + 2) as nat));
    lemma_ser_line_decode(8201, u32_dec((pairs.len() + 2) as nat));
    assert(spec_scan(lines, i + 1 + pl, ScanMode::InHeader, folded) == spec_scan(
        lines,
        i + 2 + pl,
        ScanMode::TopLevel,
        folded,
    ));
    let s1: Seq<(u32, Seq<char>)> = if o.gdt_id_receiver.len() > 0 {
        seq![(8315u32, o.gdt_id_receiver)]
    } else {
        Seq::empty()
    };
    let s2: Seq<(u32, Seq<char>)> = if o.gdt_id_sender.len() > 0 {
        seq![(8316u32, o.gdt_id_sender)]
    } else {
        Seq::empty()
    };
    let s3: Seq<(u32, Seq<char>)> = seq![(9218u32, seq!['0', '3', '.', '0', '0'])];
    assert(pairs == s1 + s2 + s3);
    assert(pairs =~= s1 + (s2 + s3));
    let m = ScanMode::InHeader;
    lemma_fold_concat(m, f0, s1, s2 + s3);
    let f1 = spec_fold_bodies(m, f0, s1);
    lemma_fold_concat(m, f1, s2, s3);
    let f2 = spec_fold_bodies(m, f1, s2);
    let f3 = spec_fold_bodies(m, f2, s3);
    assert(spec_fold_bodies(m, f0, s1 + (s2 + s3)) == f3) by {
        assert(s1 + (s2 + s3) =~= s1 + s2 + s3);
    }
    if o.gdt_id_receiver.len() > 0 {
        lemma_fold_one(m, f0, (8315u32, o.gdt_id_receiver));
        assert(f1 == spec_apply_body(m, f0, 8315u32, o.gdt_id_receiver));
    } else {
        assert(o.gdt_id_receiver =~= Seq::<char>::empty());
        assert(f1 == f0);
    }
    if o.gdt_id_sender.len() > 0 {
        lemma_fold_one(m, f1, (8316u32, o.gdt_id_sender));
        assert(f2 == spec_apply_body(m, f1, 8316u32, o.gdt_id_sender));
    } else {
        assert(o.gdt_id_sender =~= Seq::<char>::empty());
        assert(f2 == f1);
    }
    lemma_fold_one(m, f2, (9218u32, seq!['0', '3', '.', '0', '0']));
    assert(f3 == spec_apply_body(m, f2, 9218u32, seq!['0', '3', '.', '0', '0']));
    assert(f3.object_header_data == spec_header_roundtrip(o));
    assert(folded == (GdtFileV { object_header_data: spec_header_roundtrip(o), ..file }));
    assert(objlines.len() == pl + 2);
}

/// Scanning a serialized basic-diagnostics object from its 8200 opener
/// yields the object unchanged and returns to the top level.
#[verifier::rlimit(100)]
proof fn lemma_scan_obj_basic(
    lines: Seq<Seq<char>>,
    i: int,
    file: GdtFileV,
    o: GdtBasicDiagnosticsV,
)
    requires
        0 <= i,
        utf8_len(o.patient_height) <= 990,
        utf8_len(o.patient_weight) <= 990,
        i + spec_obj_lines("Obj_Basisdiagnostik"@, spec_basic_bodies(o)).len() <= lines.len(),
        forall|k: int|
            0 <= k < spec_obj_lines("Obj_Basisdiagnostik"@, spec_basic_bodies(o)).len()
                ==> lines[i + k] == spec_obj_lines(
                "Obj_Basisdiagnostik"@,
                spec_basic_bodies(o),
            )[k],
    ensures
        spec_scan(lines, i, ScanMode::TopLevel, file) == spec_scan(
            lines,
            i + spec_obj_lines("Obj_Basisdiagnostik"@, spec_basic_bodies(o)).len(),
            ScanMode::TopLevel,
            GdtFileV { object_basic_diagnostics: o, ..file },
        ),
{
    let pairs = spec_basic_pairs(o);
    let objlines = spec_obj_lines("Obj_Basisdiagnostik"@, spec_basic_bodies(o));
    let pl = pairs.len() as int;
    proof_strlits();
    assert(objlines[0] == spec_gdt_line_s(tag_s(8200) + "Obj_Basisdiagnostik"@));
    reveal_strlit("Obj_Basisdiagnostik");
    lemma_utf8_len_ascii("Obj_Basisdiagnostik"@);
    lemma_ser_line_decode(8200, "Obj_Basisdiagnostik"@);
    let f0 = GdtFileV {
        object_basic_diagnostics: spec_empty_gdt_file().object_basic_diagnostics,
        ..file
    };
    assert(spec_scan(lines, i, ScanMode::TopLevel, file) == spec_scan(
        lines,
        i + 1,
        ScanMode::InBasic,
        f0,
    ));
    assert(spec_pairs_ok(pairs));
    let bodies = spec_basic_bodies(o);
    let mapped = bodies.map_values(|b: Seq<char>| spec_gdt_line_s(b));
    assert forall|k: int| 0 <= k < pairs.len() implies lines[i + 1 + k] == spec_gdt_line_s(
        spec_body_of_pair(#[trigger] pairs[k]),
    ) by {
        assert(objlines[1 + k] == mapped[k]);
        assert(mapped[k] == spec_gdt_line_s(bodies[k]));
        assert(bodies[k] == spec_body_of_pair(pairs[k]));
    }
    lemma_scan_bodies(lines, i + 1, ScanMode::InBasic, f0, pairs);
    let folded = spec_fold_bodies(ScanMode::InBasic, f0, pairs);
    assert(objlines[1 + pl] == spec_gdt_line_s(tag_s(8201) + u32_dec((pairs.len() + 2) as nat)));
    lemma_dec_len_10((pairs.len() + 2) as u32);
    lemma_u32_dec_digits((pairs.len() + 2) as nat);
    lemma_utf8_len_digits(u32_dec((pairs.len() + 2) as nat));
    lemma_ser_line_decode(8201, u32_dec((pairs.len() + 2) as nat));
    assert(spec_scan(lines, i + 1 + pl, ScanMode::InBasic, folded) == spec_scan(
        lines,
        i + 2 + pl,
        ScanMode::TopLevel,
        folded,
    ));
    let s1: Seq<(u32, Seq<char>)> = if o.patient_height.len() > 0 {
        seq![(3622u32, o.patient_height)]
    } else {
        Seq::empty()
    };
    let s2: Seq<(u32, Seq<char>)> = if o.patient_weight.len() > 0 {
        seq![(3623u32, o.patient_weight)]
    } else {
        Seq::empty()
    };
    assert(pairs == s1 + s2);
    let m = ScanMode::InBasic;
    lemma_fold_concat(m, f0, s1, s2);
    let f1 = spec_fold_bodies(m, f0, s1);
    let f2 = spec_fold_bodies(m, f1, s2);
    if o.patient_height.len() > 0 {
        lemma_fold_one(m, f0, (3622u32, o.patient_height));
        assert(f1 == spec_apply_body(m, f0, 3622u32, o.patient_height));
    } else {
        assert(o.patient_height =~= Seq::<char>::empty());
        assert(f1 == f0);
    }
    if o.patient_weight.len() > 0 {
        lemma_fold_one(m, f1, (3623u32, o.patient_weight));
        assert(f2 == spec_apply_body(m, f1, 3623u32, o.patient_weight));
    } else {
        assert(o.patient_weight =~= Seq::<char>::empty());
        assert(f2 == f1);
    }
    assert(f2.object_basic_diagnostics == o);
    assert(folded == (GdtFileV { object_basic_diagnostics: o, ..file }));
    assert(objlines.len() == pl + 2);
}

/// Scanning a serialized request object from its 8200 opener yields the
/// object unchanged and returns to the top level.
#[verifier::rlimit(100)]
proof fn lemma_scan_obj_request(lines: Seq<Seq<char>>, i: int, file: GdtFileV, o: GdtRequestV)
    requires
        0 <= i,
        utf8_len(o.date_of_examination) <= 990,
        utf8_len(o.time_of_examination) <= 990,
        utf8_len(o.request_identifier) <= 990,
        utf8_len(o.request_uid) <= 990,
        i + spec_obj_lines("Obj_Anforderung"@, spec_request_bodies(o)).len() <= lines.len(),
        forall|k: int|
            0 <= k < spec_obj_lines("Obj_Anforderung"@, spec_request_bodies(o)).len()
                ==> lines[i + k] == spec_obj_lines("Obj_Anforderung"@, spec_request_bodies(o))[k],
    ensures
        spec_scan(lines, i, ScanMode::TopLevel, file) == spec_scan(
            lines,
            i + spec_obj_lines("Obj_Anforderung"@, spec_request_bodies(o)).len(),
            ScanMode::TopLevel,
            GdtFileV { object_request: o, ..file },
        ),
{
    let pairs = spec_request_pairs(o);
    let objlines = spec_obj_lines("Obj_Anforderung"@, spec_request_bodies(o));
    let pl = pairs.len() as int;
    proof_strlits();
    assert(objlines[0] == spec_gdt_line_s(tag_s(8200) + "Obj_Anforderung"@));
    reveal_strlit("Obj_Anforderung");
    lemma_utf8_len_ascii("Obj_Anforderung"@);
    lemma_ser_line_decode(8200, "Obj_Anforderung"@);
    let f0 = GdtFileV { object_request: spec_empty_gdt_file().object_request, ..file };
    assert(spec_scan(lines, i, ScanMode::TopLevel, file) == spec_scan(
        lines,
        i + 1,
        ScanMode::InRequest,
        f0,
    ));
    assert(spec_pairs_ok(pairs));
    let bodies = spec_request_bodies(o);
    let mapped = bodies.map_values(|b: Seq<char>| spec_gdt_line_s(b));
    assert forall|k: int| 0 <= k < pairs.len() implies lines[i + 1 + k] == spec_gdt_line_s(
        spec_body_of_pair(#[trigger] pairs[k]),
    ) by {
        assert(objlines[1 + k] == mapped[k]);
        assert(mapped[k] == spec_gdt_line_s(bodies[k]));
        assert(bodies[k] == spec_body_of_pair(pairs[k]));
    }
    lemma_scan_bodies(lines, i + 1, ScanMode::InRequest, f0, pairs);
    let folded = spec_fold_bodies(ScanMode::InRequest, f0, pairs);
    assert(objlines[1 + pl] == spec_gdt_line_s(tag_s(8201) + u32_dec((pairs.len() + 2) as nat)));
    lemma_dec_len_10((pairs.len() + 2) as u32);
    lemma_u32_dec_digits((pairs.len() + 2) as nat);
    lemma_utf8_len_digits(u32_dec((pairs.len() + 2) as nat));
    lemma_ser_line_decode(8201, u32_dec((pairs.len() + 2) as nat));
    assert(spec_scan(lines, i + 1 + pl, ScanMode::InRequest, folded) == spec_scan(
        lines,
        i + 2 + pl,
        ScanMode::TopLevel,
        folded,
    ));
    let s1: Seq<(u32, Seq<char>)> = if o.date_of_examination.len() > 0 {
        seq![(6200u32, o.date_of_examination)]
    } else {
        Seq::empty()
    };
    let s2: Seq<(u32, Seq<char>)> = if o.time_of_examination.len() > 0 {
        seq![(6201u32, o.time_of_examination)]
    } else {
        Seq::empty()
    };
    let s3: Seq<(u32, Seq<char>)> = if o.request_identifier.len() > 0 {
        seq![(8310u32, o.request_identifier)]
    } else {
        Seq::empty()
    };
    let s4: Seq<(u32, Seq<char>)> = if o.request_uid.len() > 0 {
        seq![(8314u32, o.request_uid)]
    } else {
        Seq::empty()
    };
    assert(pairs == s1 + s2 + s3 + s4);
    assert(pairs =~= s1 + (s2 + s3 + s4));
    let m = ScanMode::InRequest;
    lemma_fold_concat(m, f0, s1, s2 + s3 + s4);
    let f1 = spec_fold_bodies(m, f0, s1);
    lemma_fold_concat(m, f1, s2, s3 + s4);
    let f2 = spec_fold_bodies(m, f1, s2);
    lemma_fold_concat(m, f2, s3, s4);
    let f3 = spec_fold_bodies(m, f2, s3);
    let f4 = spec_fold_bodies(m, f3, s4);
    assert(spec_fold_bodies(m, f0, s1 + (s2 + s3 + s4)) == f4) by {
        assert(s1 + (s2 + s3 + s4) =~= s1 + s2 + s3 + s4);
        assert(s2 + (s3 + s4) =~= s2 + s3 + s4);
    }
    if o.date_of_examination.len() > 0 {
        lemma_fold_one(m, f0, (6200u32, o.date_of_examination));
        assert(f1 == spec_apply_body(m, f0, 6200u32, o.date_of_examination));
    } else {
        assert(o.date_of_examination =~= Seq::<char>::empty());
        assert(f1 == f0);
    }
    if o.time_of_examination.len() > 0 {
        lemma_fold_one(m, f1, (6201u32, o.time_of_examination));
        assert(f2 == spec_apply_body(m, f1, 6201u32, o.time_of_examination));
    } else {
        assert(o.time_of_examination =~= Seq::<char>::empty());
        assert(f2 == f1);
    }
    if o.request_identifier.len() > 0 {
        lemma_fold_one(m, f2, (8310u32, o.request_identifier));
        assert(f3 == spec_apply_body(m, f2, 8310u32, o.request_identifier));
    } else {
        assert(o.request_identifier =~= Seq::<char>::empty());
        assert(f3 == f2);
    }
    if o.request_uid.len() > 0 {
        lemma_fold_one(m, f3, (8314u32, o.request_uid));
        assert(f4 == spec_apply_body(m, f3, 8314u32, o.request_uid));
    } else {
        assert(o.request_uid =~= Seq::<char>::empty());
        assert(f4 == f3);
    }
    assert(f4.object_request == o);
    assert(folded == (GdtFileV { object_request: o, ..file }));
    assert(objlines.len() == pl + 2);
}

/// Shape and size facts of one serialized object whose field lines are in
/// order: line count, and a bound on its joined text.
proof fn lemma_obj_package(name: Seq<char>, pairs: Seq<(u32, Seq<char>)>)
    requires
        name.len() <= 100,
        utf8_len(name) <= 400,
        pairs.len() <= 5,
        spec_pairs_ok(pairs),
    ensures
        spec_obj_lines(name, pairs.map_values(|pr: (u32, Seq<char>)| spec_body_of_pair(pr))).len()
            == pairs.len() + 2,
        spec_join_crlf(
            spec_obj_lines(name, pairs.map_values(|pr: (u32, Seq<char>)| spec_body_of_pair(pr))),
        ).len() <= 8400,
{
    let bodies = pairs.map_values(|pr: (u32, Seq<char>)| spec_body_of_pair(pr));
    lemma_bodies_bound(pairs);
    lemma_obj_lines_bound(name, bodies);
}

/// Round trip: a record that this serializer wrote parses back, and every
/// field the serializer supports is reproduced. The record type and length
/// are recomputed by the serializer, the header version comes back as the
/// fixed one it writes, and the patient fields the serializer does not
/// write must be empty in the input.
#[verifier::rlimit(100)]
pub proof fn lemma_serialize_parse_round_trip(f: GdtFileV)
    requires
        spec_ser_ok(f),
        f.object_patient.patient_title.len() == 0,
        f.object_patient.insurance_number.len() == 0,
        f.object_patient.address.len() == 0,
        f.object_patient.street.len() == 0,
        f.object_patient.mobile_phone_number.len() == 0,
        f.object_patient.email_address.len() == 0,
        f.object_patient.phone_number.len() == 0,
    ensures
        spec_parse_file(spec_file_to_lines(f)) matches Ok(g) && g.object_patient
            == f.object_patient && g.object_header_data == spec_header_roundtrip(
            f.object_header_data,
        ) && g.object_basic_diagnostics == f.object_basic_diagnostics && g.object_request
            == f.object_request,
{
    proof_strlits();
    let lines = spec_file_to_lines(f);
    let h = spec_obj_lines("Obj_Kopfdaten"@, spec_header_bodies(f.object_header_data));
    let p = spec_obj_lines("Obj_Patient"@, spec_patient_bodies(f.object_patient));
    let b = spec_obj_lines("Obj_Basisdiagnostik"@, spec_basic_bodies(f.object_basic_diagnostics));
    let q = spec_obj_lines("Obj_Anforderung"@, spec_request_bodies(f.object_request));
    let total_lines_s = 3 + h.len() + p.len() + b.len() + q.len();
    let end_line = spec_gdt_line_s(tag_s(8202) + u32_dec(total_lines_s as nat));
    let total_length_s = (utf8_len(spec_header_line()) + 2) + 16 + utf8_len(spec_join_crlf(h))
        + utf8_len(spec_join_crlf(p)) + utf8_len(spec_join_crlf(b)) + utf8_len(
        spec_join_crlf(q),
    ) + (utf8_len(end_line) + 2);
    let length_line = spec_gdt_line_s(tag_s(8100) + zero_pad(u32_dec(total_length_s as nat), 7));
    assert(lines == seq![spec_header_line(), length_line] + h + p + b + q + seq![end_line]);

    // Sizes.
    let hp = spec_header_pairs(f.object_header_data);
    let pp = spec_patient_pairs(f.object_patient);
    let bp = spec_basic_pairs(f.object_basic_diagnostics);
    let qp = spec_request_pairs(f.object_request);
    reveal_strlit("Obj_Kopfdaten");
    reveal_strlit("Obj_Patient");
    reveal_strlit("Obj_Basisdiagnostik");
    reveal_strlit("Obj_Anforderung");
    lemma_utf8_len_ascii(seq!['0', '3', '.', '0', '0']);
    lemma_utf8_len_ascii(seq!['1']);
    lemma_utf8_len_ascii(seq!['2']);
    lemma_utf8_len_ascii("Obj_Kopfdaten"@);
    lemma_utf8_len_ascii("Obj_Patient"@);
    lemma_utf8_len_ascii("Obj_Basisdiagnostik"@);
    lemma_utf8_len_ascii("Obj_Anforderung"@);
    assert(spec_pairs_ok(hp));
    assert(spec_pairs_ok(pp));
    assert(spec_pairs_ok(bp));
    assert(spec_pairs_ok(qp));
    lemma_obj_package("Obj_Kopfdaten"@, hp);
    lemma_obj_package("Obj_Patient"@, pp);
    lemma_obj_package("Obj_Basisdiagnostik"@, bp);
    lemma_obj_package("Obj_Anforderung"@, qp);
    lemma_tag_s(8000);
    lemma_dec_len_10(6301);
    lemma_utf8_len_digits(tag_s(8000));
    lemma_u32_dec_digits(6301);
    lemma_utf8_len_digits(u32_dec(6301));
    lemma_utf8_len_concat(tag_s(8000), u32_dec(6301));
    lemma_line_s_len(tag_s(8000) + u32_dec(6301));
    lemma_dec_len_10(total_lines_s as u32);
    lemma_u32_dec_digits(total_lines_s as nat);
    lemma_utf8_len_digits(u32_dec(total_lines_s as nat));
    lemma_ser_line_decode(8202, u32_dec(total_lines_s as nat));
    lemma_tag_s(8202);
    lemma_utf8_len_digits(tag_s(8202));
    lemma_utf8_len_concat(tag_s(8202), u32_dec(total_lines_s as nat));
    lemma_line_s_len(tag_s(8202) + u32_dec(total_lines_s as nat));
    lemma_utf8_len_bounds(spec_header_line());
    lemma_utf8_len_bounds(spec_join_crlf(h));
    lemma_utf8_len_bounds(spec_join_crlf(p));
    lemma_utf8_len_bounds(spec_join_crlf(b));
    lemma_utf8_len_bounds(spec_join_crlf(q));
    lemma_utf8_len_bounds(end_line);
    assert(total_length_s <= 200000);

    // The two header lines parse as the numbers they carry.
    assert(lines[0] == spec_header_line());
    assert(lines[1] == length_line);
    lemma_ser_line_decode(8000, u32_dec(6301));
    lemma_u32_dec_digits(6301);
    assert(spec_parse_u32(u32_dec(6301)) == Some(6301u32));
    lemma_dec_len_10(total_length_s as u32);
    lemma_u32_dec_digits(total_length_s as nat);
    lemma_zero_pad(u32_dec(total_length_s as nat), 7);
    lemma_utf8_len_digits(zero_pad(u32_dec(total_length_s as nat), 7));
    lemma_ser_line_decode(8100, zero_pad(u32_dec(total_length_s as nat), 7));
    lemma_parse_of_pad(total_length_s as nat, 7);
    assert(spec_read_record_header(lines) == Ok::<(u32, u32), GdtErrV>(
        (6301u32, total_length_s as u32),
    ));

    let f0 = GdtFileV {
        record_type: 6301u32,
        record_length: total_length_s as u32,
        ..spec_empty_gdt_file()
    };
    assert(spec_parse_file(lines) == spec_scan(lines, 2, ScanMode::TopLevel, f0));

    // Walk the four objects.
    let i1 = 2 + h.len() as int;
    let i2 = i1 + p.len() as int;
    let i3 = i2 + b.len() as int;
    let i4 = i3 + q.len() as int;
    assert(lines.len() == i4 + 1);
    assert(forall|k: int| 0 <= k < h.len() ==> lines[2 + k] == h[k]);
    lemma_scan_obj_header(lines, 2, f0, f.object_header_data);
    let f1 = GdtFileV { object_header_data: spec_header_roundtrip(f.object_header_data), ..f0 };
    assert(forall|k: int| 0 <= k < p.len() ==> lines[i1 + k] == p[k]);
    lemma_scan_obj_patient(lines, i1, f1, f.object_patient);
    let f2 = GdtFileV { object_patient: spec_patient_roundtrip(f.object_patient), ..f1 };
    assert(forall|k: int| 0 <= k < b.len() ==> lines[i2 + k] == b[k]);
    lemma_scan_obj_basic(lines, i2, f2, f.object_basic_diagnostics);
    let f3 = GdtFileV { object_basic_diagnostics: f.object_basic_diagnostics, ..f2 };
    assert(forall|k: int| 0 <= k < q.len() ==> lines[i3 + k] == q[k]);
    lemma_scan_obj_request(lines, i3, f3, f.object_request);
    let f4 = GdtFileV { object_request: f.object_request, ..f3 };
    assert(spec_scan(lines, 2, ScanMode::TopLevel, f0) == spec_scan(
        lines,
        i4,
        ScanMode::TopLevel,
        f4,
    ));

    // The end-of-record line.
    assert(lines[i4] == end_line);
    assert(spec_scan(lines, i4, ScanMode::TopLevel, f4) == Ok::<GdtFileV, GdtErrV>(f4));

    // The supported fields came back.
    assert(f.object_patient.patient_title =~= Seq::<char>::empty());
    assert(f.object_patient.insurance_number =~= Seq::<char>::empty());
    assert(f.object_patient.address =~= Seq::<char>::empty());
    assert(f.object_patient.street =~= Seq::<char>::empty());
    assert(f.object_patient.mobile_phone_number =~= Seq::<char>::empty());
    assert(f.object_patient.email_address =~= Seq::<char>::empty());
    assert(f.object_patient.phone_number =~= Seq::<char>::empty());
    assert(spec_patient_roundtrip(f.object_patient) == f.object_patient);
}

// ---------------------------------------------------------------------------
// DICOM-side conversions
// ---------------------------------------------------------------------------

/// A DICOM `YYYYMMDD` date rearranged to the GDT `DDMMYYYY` order.
pub open spec fn spec_dcm_date_to_gdt(s: Seq<char>) -> Seq<char>
    recommends
        s.len() == 8,
{
    s.subrange(6, 8) + s.subrange(4, 6) + s.subrange(0, 4)
}

/// Converts a DICOM date (`YYYYMMDD`) to a GDT date (`DDMMYYYY`). `None`
/// unless the input is exactly eight characters.
pub fn dcm_date_to_gdt(s: &String) -> (r: Option<String>)
    ensures
        match r {
            Some(t) => s@.len() == 8 && t@ == spec_dcm_date_to_gdt(s@),
            None => s@.len() != 8,
        },
{
    if s.as_str().unicode_len() != 8 {
        return None;
    }
    let mut out: String = String::from_str(s.as_str().substring_char(6, 8));
    out.append(s.as_str().substring_char(4, 6));
    out.append(s.as_str().substring_char(0, 4));
    Some(out)
}

/// Reads a DICOM sex code: `M` is male, `F` is female, anything else is not
/// recognized.
pub fn dcm_gender_to_gdt(gender_str: &String) -> (r: Option<GdtPatientGender>)
    ensures
        r == Some(GdtPatientGender::Male) <==> gender_str@ == "M"@,
        r == Some(GdtPatientGender::Female) <==> gender_str@ == "F"@,
        r is None <==> !(gender_str@ == "M"@) && !(gender_str@ == "F"@),
{
    proof {
        reveal_strlit("M");
        reveal_strlit("F");
        assert("M"@[0] == 'M');
        assert("F"@[0] == 'F');
    }
    if str_eq(gender_str.as_str(), "M") {
        Some(GdtPatientGender::Male)
    } else if str_eq(gender_str.as_str(), "F") {
        Some(GdtPatientGender::Female)
    } else {
        None
    }
}

/// Reveals the string literals of the record grammar.
proof fn proof_strlits()
    ensures
        "Obj_Anforderung"@.len() == 15,
        "Obj_Kopfdaten"@.len() == 13,
        "Obj_Patient"@.len() == 11,
        "Obj_Basisdiagnostik"@.len() == 19,
        "1"@ == seq!['1'],
        "2"@ == seq!['2'],
{
    reveal_strlit("Obj_Anforderung");
    reveal_strlit("Obj_Kopfdaten");
    reveal_strlit("Obj_Patient");
    reveal_strlit("Obj_Basisdiagnostik");
    reveal_strlit("1");
    reveal_strlit("2");
    assert("1"@ =~= seq!['1']);
    assert("2"@ =~= seq!['2']);
}

} // verus!
