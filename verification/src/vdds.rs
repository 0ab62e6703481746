//! The patient-data side of the VDDS media interface: the patient record
//! sent to an image-management system and the interpretation of its INI
//! replies. The files themselves are written, sent, and polled by the
//! caller; this module builds and reads their contents.

use vstd::prelude::*;

use crate::gdt::{GdtFile, GdtPatientGender};
use crate::strutil::{str_eq, u32_dec, u32_to_dec};

verus! {

/// An INI document as ordered sections of ordered key-value entries.
#[derive(Debug, Clone, PartialEq)]
pub struct IniEntry {
    pub key: String,
    pub value: String,
}

#[derive(Debug, Clone, PartialEq)]
pub struct IniSectionData {
    pub name: String,
    pub entries: Vec<IniEntry>,
}

#[derive(Debug, Clone, PartialEq)]
pub struct IniDoc {
    pub sections: Vec<IniSectionData>,
}

#[verifier::ext_equal]
pub struct IniEntryV {
    pub key: Seq<char>,
    pub value: Seq<char>,
}

impl View for IniEntry {
    type V = IniEntryV;

    open spec fn view(&self) -> IniEntryV {
        IniEntryV { key: self.key@, value: self.value@ }
    }
}

impl DeepView for IniEntry {
    type V = IniEntryV;

    open spec fn deep_view(&self) -> IniEntryV {
        self.view()
    }
}

/// The patient record of a VDDS exchange.
#[derive(Debug, Clone, PartialEq)]
pub struct VddsPatient {
    pub id: String,
    pub first_name: String,
    pub last_name: String,
    pub title: String,
    /// `YYYYMMDD`.
    pub date_of_birth: String,
    pub sex: VddsPatientGender,
    pub street: String,
    pub city: String,
    pub phone: String,
    pub mobile_phone: String,
    pub email_address: String,
    pub insurance_number: String,
}

#[derive(Debug, Clone, Copy, PartialEq, Eq, Structural)]
pub enum VddsPatientGender {
    Male,
    Female,
}

/// The name this system announces itself under in VDDS exchanges.
pub fn pvs_name() -> (r: &'static str)
    ensures
        r@ == "gdt2dicom_PVS"@,
{
    "gdt2dicom_PVS"
}

/// A GDT date (`DDMMYYYY`) in VDDS order (`YYYYMMDD`); anything shorter than
/// eight characters is passed through unchanged.
pub open spec fn spec_gdt_date_to_vdds(s: Seq<char>) -> Seq<char> {
    if s.len() < 8 {
        s
    } else {
        s.subrange(4, 8) + s.subrange(2, 4) + s.subrange(0, 2)
    }
}

/// Converts a GDT date to VDDS order; short values pass through unchanged.
pub fn gdt_date_to_vdds(s: &String) -> (r: String)
    ensures
        r@ == spec_gdt_date_to_vdds(s@),
{
    let n: usize = s.as_str().unicode_len();
    if n < 8 {
        return s.clone();
    }
    let mut out: String = String::from_str(s.as_str().substring_char(4, 8));
    out.append(s.as_str().substring_char(2, 4));
    out.append(s.as_str().substring_char(0, 2));
    out
}

/// The VDDS gender of a GDT gender.
pub fn gdt_gender_to_vdds(gender: &GdtPatientGender) -> (r: VddsPatientGender)
    ensures
        r == VddsPatientGender::Male <==> gender == GdtPatientGender::Male,
        r == VddsPatientGender::Female <==> gender == GdtPatientGender::Female,
{
    match gender {
        GdtPatientGender::Male => VddsPatientGender::Male,
        GdtPatientGender::Female => VddsPatientGender::Female,
    }
}

impl VddsPatient {
    /// The VDDS patient drawn from a GDT record: field for field, with the
    /// date converted to VDDS order.
    pub fn new(gdt_file: &GdtFile) -> (r: VddsPatient)
        ensures
            r.id@ == gdt_file@.object_patient.patient_number,
            r.first_name@ == gdt_file@.object_patient.patient_first_name,
            r.last_name@ == gdt_file@.object_patient.patient_name,
            r.title@ == gdt_file@.object_patient.patient_title,
            r.date_of_birth@ == spec_gdt_date_to_vdds(gdt_file@.object_patient.patient_dob),
            r.sex == VddsPatientGender::Male <==> gdt_file@.object_patient.patient_gender
                == GdtPatientGender::Male,
            r.street@ == gdt_file@.object_patient.street,
            r.city@ == gdt_file@.object_patient.address,
            r.phone@ == gdt_file@.object_patient.phone_number,
            r.mobile_phone@ == gdt_file@.object_patient.mobile_phone_number,
            r.email_address@ == gdt_file@.object_patient.email_address,
            r.insurance_number@ == gdt_file@.object_patient.insurance_number,
    {
        let p = &gdt_file.object_patient;
        VddsPatient {
            id: p.patient_number.clone(),
            first_name: p.patient_first_name.clone(),
            last_name: p.patient_name.clone(),
            title: p.patient_title.clone(),
            date_of_birth: gdt_date_to_vdds(&p.patient_dob),
            sex: gdt_gender_to_vdds(&p.patient_gender),
            street: p.street.clone(),
            city: p.address.clone(),
            phone: p.phone_number.clone(),
            mobile_phone: p.mobile_phone_number.clone(),
            email_address: p.email_address.clone(),
            insurance_number: p.insurance_number.clone(),
        }
    }

    /// The PATIENT section this patient writes: the required fields, then
    /// each optional field only when non-empty, then the handshake fields.
    #[verifier::rlimit(100)]
    #[verifier::spinoff_prover]
    pub fn to_ini(&self, bvs_name: String) -> (r: IniDoc)
        ensures
            r.sections@.len() == 1,
            r.sections@[0].name@ == "PATIENT"@,
            r.sections@[0].entries.deep_view() == spec_patient_entries(
                self,
                bvs_name@,
            ),
    {
        let ghost bvs: Seq<char> = bvs_name@;
        let mut entries: Vec<IniEntry> = Vec::new();
        entries.push(ini_entry("PVS", String::from_str(pvs_name())));
        entries.push(ini_entry("BVS", bvs_name));
        entries.push(ini_entry("PATID", self.id.clone()));
        entries.push(ini_entry("FIRSTNAME", self.first_name.clone()));
        entries.push(ini_entry("LASTNAME", self.last_name.clone()));
        match self.sex {
            VddsPatientGender::Female => entries.push(ini_entry("SEX", String::from_str("W"))),
            VddsPatientGender::Male => entries.push(ini_entry("SEX", String::from_str("M"))),
        }
        proof {
            assert(entries.deep_view() =~~= spec_patient_head(self, bvs));
        }
        let opt_a: Vec<IniEntry> = self.optional_entries_a();
        let mut entries: Vec<IniEntry> = append_entries(entries, &opt_a);
        let opt_b: Vec<IniEntry> = self.optional_entries_b();
        entries = append_entries(entries, &opt_b);
        let ghost before_tail: Seq<IniEntryV> = entries.deep_view();
        entries.push(ini_entry("READY", String::from_str("0")));
        entries.push(ini_entry("ERRORLEVEL", String::from_str("0")));
        entries.push(ini_entry("ERRORTEXT", String::new()));
        proof {
            assert(entries.deep_view() =~~= before_tail + spec_patient_tail());
            assert(entries.deep_view() =~= spec_patient_entries(self, bvs)) by {
                assert(spec_patient_head(self, bvs) + spec_patient_opt_a(self)
                    + spec_patient_opt_b(self) + spec_patient_tail() =~= (spec_patient_head(
                    self,
                    bvs,
                ) + spec_patient_opt_a(self) + spec_patient_opt_b(self)) + spec_patient_tail());
            }
        }
                IniDoc {
            sections: ini_doc_one(String::from_str("PATIENT"), entries),
        }
    }

    /// The first run of optional entries, as written.
    fn optional_entries_a(&self) -> (r: Vec<IniEntry>)
        ensures
            r.deep_view() == spec_patient_opt_a(self),
    {
        let mut r: Vec<IniEntry> = Vec::new();
        if self.title.as_str().unicode_len() > 0 {
            r.push(ini_entry("TITLE", self.title.clone()));
        }
        if self.date_of_birth.as_str().unicode_len() > 0 {
            r.push(ini_entry("BIRTHDAY", self.date_of_birth.clone()));
        }
        if self.street.as_str().unicode_len() > 0 {
            r.push(ini_entry("STREET", self.street.clone()));
        }
        if self.city.as_str().unicode_len() > 0 {
            r.push(ini_entry("CITY", self.city.clone()));
        }
        proof {
            assert(r.deep_view() =~~= spec_patient_opt_a(self));
        }
        r
    }

    /// The second run of optional entries, as written.
    fn optional_entries_b(&self) -> (r: Vec<IniEntry>)
        ensures
            r.deep_view() == spec_patient_opt_b(self),
    {
        let mut r: Vec<IniEntry> = Vec::new();
        if self.phone.as_str().unicode_len() > 0 {
            r.push(ini_entry("HOMEPHONE", self.phone.clone()));
        }
        if self.mobile_phone.as_str().unicode_len() > 0 {
            r.push(ini_entry("CELLULAR", self.mobile_phone.clone()));
        }
        if self.email_address.as_str().unicode_len() > 0 {
            r.push(ini_entry("EMAIL", self.email_address.clone()));
        }
        if self.insurance_number.as_str().unicode_len() > 0 {
            r.push(ini_entry("INSURANCENUMBER", self.insurance_number.clone()));
        }
        proof {
            assert(r.deep_view() =~~= spec_patient_opt_b(self));
        }
        r
    }
}

/// `out` with copies of all entries of `tail` appended.
fn append_entries(out: Vec<IniEntry>, tail: &Vec<IniEntry>) -> (r: Vec<IniEntry>)
    ensures
        r.deep_view() == out.deep_view() + tail.deep_view(),
{
    let mut r: Vec<IniEntry> = out;
    let ghost n0: int = r@.len() as int;
    let ghost r0: Seq<IniEntry> = r@;
    let mut i: usize = 0;
    while i < tail.len()
        invariant
            0 <= i <= tail@.len(),
            r@.len() == n0 + i,
            n0 == r0.len(),
            forall|j: int| 0 <= j < n0 ==> #[trigger] r@[j] == r0[j],
            forall|j: int| 0 <= j < i ==> (#[trigger] r@[n0 + j])@ == tail@[j]@,
        decreases tail@.len() - i,
    {
        let e: &IniEntry = &tail[i];
        r.push(IniEntry { key: e.key.clone(), value: e.value.clone() });
        i = i + 1;
    }
    proof {
        assert forall|m: int| 0 <= m < r@.len() implies r.deep_view()[m] == (out.deep_view()
            + tail.deep_view())[m] by {
            if m >= n0 {
                assert(r@[n0 + (m - n0)]@ == tail@[m - n0]@);
            }
        }
        assert(r.deep_view() =~= out.deep_view() + tail.deep_view());
    }
    r
}

/// The six required leading entries of a patient's PATIENT section.
pub open spec fn spec_patient_head(p: &VddsPatient, bvs: Seq<char>) -> Seq<IniEntryV> {
    seq![
        IniEntryV { key: "PVS"@, value: "gdt2dicom_PVS"@ },
        IniEntryV { key: "BVS"@, value: bvs },
        IniEntryV { key: "PATID"@, value: p.id@ },
        IniEntryV { key: "FIRSTNAME"@, value: p.first_name@ },
        IniEntryV { key: "LASTNAME"@, value: p.last_name@ },
        IniEntryV {
            key: "SEX"@,
            value: match p.sex {
                VddsPatientGender::Female => "W"@,
                VddsPatientGender::Male => "M"@,
            },
        },
    ]
}

/// The first run of optional entries: title, birthday, street, city, each
/// written only when non-empty.
pub open spec fn spec_patient_opt_a(p: &VddsPatient) -> Seq<IniEntryV> {
    (if p.title@.len() > 0 {
        seq![IniEntryV { key: "TITLE"@, value: p.title@ }]
    } else {
        Seq::empty()
    }) + (if p.date_of_birth@.len() > 0 {
        seq![IniEntryV { key: "BIRTHDAY"@, value: p.date_of_birth@ }]
    } else {
        Seq::empty()
    }) + (if p.street@.len() > 0 {
        seq![IniEntryV { key: "STREET"@, value: p.street@ }]
    } else {
        Seq::empty()
    }) + (if p.city@.len() > 0 {
        seq![IniEntryV { key: "CITY"@, value: p.city@ }]
    } else {
        Seq::empty()
    })
}

/// The second run of optional entries: phone, mobile, email and insurance
/// number, each written only when non-empty.
pub open spec fn spec_patient_opt_b(p: &VddsPatient) -> Seq<IniEntryV> {
    (if p.phone@.len() > 0 {
        seq![IniEntryV { key: "HOMEPHONE"@, value: p.phone@ }]
    } else {
        Seq::empty()
    }) + (if p.mobile_phone@.len() > 0 {
        seq![IniEntryV { key: "CELLULAR"@, value: p.mobile_phone@ }]
    } else {
        Seq::empty()
    }) + (if p.email_address@.len() > 0 {
        seq![IniEntryV { key: "EMAIL"@, value: p.email_address@ }]
    } else {
        Seq::empty()
    }) + (if p.insurance_number@.len() > 0 {
        seq![IniEntryV { key: "INSURANCENUMBER"@, value: p.insurance_number@ }]
    } else {
        Seq::empty()
    })
}

/// The three handshake entries that close a request section.
pub open spec fn spec_patient_tail() -> Seq<IniEntryV> {
    seq![
        IniEntryV { key: "READY"@, value: "0"@ },
        IniEntryV { key: "ERRORLEVEL"@, value: "0"@ },
        IniEntryV { key: "ERRORTEXT"@, value: Seq::empty() },
    ]
}

/// The entries of a patient's PATIENT section.
pub open spec fn spec_patient_entries(p: &VddsPatient, bvs: Seq<char>) -> Seq<IniEntryV> {
    spec_patient_head(p, bvs) + spec_patient_opt_a(p) + spec_patient_opt_b(p)
        + spec_patient_tail()
}

/// One entry from a key literal and a value.
fn ini_entry(key: &str, value: String) -> (r: IniEntry)
    ensures
        r@ == (IniEntryV { key: key@, value: value@ }),
{
    IniEntry { key: String::from_str(key), value }
}

/// A one-section document body.
fn ini_doc_one(name: String, entries: Vec<IniEntry>) -> (r: Vec<IniSectionData>)
    ensures
        r@.len() == 1,
        r@[0].name == name,
        r@[0].entries == entries,
{
    let mut sections: Vec<IniSectionData> = Vec::new();
    sections.push(IniSectionData { name, entries });
    sections
}

/// A request for the image list of one patient.
#[derive(Debug, Clone, PartialEq)]
pub struct ImageInfoRequest {
    pub pat_id: String,
}

/// One image known to the image-management system.
#[derive(Debug, Clone, PartialEq)]
pub struct ImageInfo {
    pub mmo_id: String,
    pub date: String,
    pub time: String,
}

/// A request for the image files behind a set of image infos.
#[derive(Debug, Clone, PartialEq)]
pub struct ImagesRequest {
    pub mmo_infos: Vec<(String, ImageInfo)>,
}

impl ImageInfoRequest {
    /// The PATID section this request writes.
    pub fn to_ini(&self, bvs_name: String) -> (r: IniDoc)
        ensures
            r.sections@.len() == 1,
            r.sections@[0].name@ == "PATID"@,
            r.sections@[0].entries.deep_view() =~~= seq![
                IniEntryV { key: "PVS"@, value: "gdt2dicom_PVS"@ },
                IniEntryV { key: "BVS"@, value: bvs_name@ },
                IniEntryV { key: "PATID"@, value: self.pat_id@ },
                IniEntryV { key: "READY"@, value: "0"@ },
                IniEntryV { key: "ERRORLEVEL"@, value: "0"@ },
                IniEntryV { key: "ERRORTEXT"@, value: Seq::empty() },
            ],
    {
        let mut entries: Vec<IniEntry> = Vec::new();
        entries.push(ini_entry("PVS", String::from_str(pvs_name())));
        entries.push(ini_entry("BVS", bvs_name));
        entries.push(ini_entry("PATID", self.pat_id.clone()));
        entries.push(ini_entry("READY", String::from_str("0")));
        entries.push(ini_entry("ERRORLEVEL", String::from_str("0")));
        entries.push(ini_entry("ERRORTEXT", String::new()));
        IniDoc { sections: ini_doc_one(String::from_str("PATID"), entries) }
    }
}

impl ImagesRequest {
    /// The MMOIDS section this request writes: the handshake fields, then
    /// one entry per requested image, in order.
    pub fn to_ini(&self) -> (r: IniDoc)
        requires
            self.mmo_infos@.len() <= u32::MAX,
        ensures
            r.sections@.len() == 1,
            r.sections@[0].name@ == "MMOIDS"@,
            r.sections@[0].entries.deep_view() == seq![
                IniEntryV { key: "PVS"@, value: "gdt2dicom_PVS"@ },
                IniEntryV { key: "COUNT"@, value: u32_dec(self.mmo_infos@.len() as nat) },
                IniEntryV { key: "EXT"@, value: "JPG"@ },
                IniEntryV { key: "READY"@, value: "0"@ },
                IniEntryV { key: "ERRORLEVEL"@, value: "0"@ },
                IniEntryV { key: "ERRORTEXT"@, value: Seq::empty() },
            ] + Seq::new(
                self.mmo_infos@.len() as nat,
                |i: int|
                    IniEntryV {
                        key: self.mmo_infos@[i].0@,
                        value: self.mmo_infos@[i].1.mmo_id@,
                    },
            ),
    {
        let ghost head: Seq<IniEntryV> = seq![
            IniEntryV { key: "PVS"@, value: "gdt2dicom_PVS"@ },
            IniEntryV { key: "COUNT"@, value: u32_dec(self.mmo_infos@.len() as nat) },
            IniEntryV { key: "EXT"@, value: "JPG"@ },
            IniEntryV { key: "READY"@, value: "0"@ },
            IniEntryV { key: "ERRORLEVEL"@, value: "0"@ },
            IniEntryV { key: "ERRORTEXT"@, value: Seq::empty() },
        ];
        let mut entries: Vec<IniEntry> = Vec::new();
        entries.push(ini_entry("PVS", String::from_str(pvs_name())));
        entries.push(ini_entry("COUNT", u32_to_dec(self.mmo_infos.len() as u32)));
        entries.push(ini_entry("EXT", String::from_str("JPG")));
        entries.push(ini_entry("READY", String::from_str("0")));
        entries.push(ini_entry("ERRORLEVEL", String::from_str("0")));
        entries.push(ini_entry("ERRORTEXT", String::new()));
        proof {
            assert(entries.deep_view() =~~= head);
        }
        let ghost head_e: Seq<IniEntry> = entries@;
        let mut i: usize = 0;
        while i < self.mmo_infos.len()
            invariant
                0 <= i <= self.mmo_infos@.len(),
                head_e.len() == 6,
                head.len() == 6,
                entries@.len() == 6 + i,
                forall|j: int| 0 <= j < 6 ==> #[trigger] entries@[j] == head_e[j],
                forall|j: int| 0 <= j < 6 ==> #[trigger] head_e[j]@ == head[j],
                forall|j: int|
                    0 <= j < i ==> (#[trigger] entries@[6 + j])@ == (IniEntryV {
                        key: self.mmo_infos@[j].0@,
                        value: self.mmo_infos@[j].1.mmo_id@,
                    }),
            decreases self.mmo_infos@.len() - i,
        {
            let pair: &(String, ImageInfo) = &self.mmo_infos[i];
            entries.push(IniEntry { key: pair.0.clone(), value: pair.1.mmo_id.clone() });
            i = i + 1;
        }
        proof {
            let want = head + Seq::new(
                self.mmo_infos@.len() as nat,
                |j: int|
                    IniEntryV {
                        key: self.mmo_infos@[j].0@,
                        value: self.mmo_infos@[j].1.mmo_id@,
                    },
            );
            assert forall|m: int| 0 <= m < entries@.len() implies entries.deep_view()[m]
                == want[m] by {
                if m >= 6 {
                    assert(entries@[6 + (m - 6)]@ == (IniEntryV {
                        key: self.mmo_infos@[m - 6].0@,
                        value: self.mmo_infos@[m - 6].1.mmo_id@,
                    }));
                }
            }
            assert(entries.deep_view() =~= want);
        }
        IniDoc { sections: ini_doc_one(String::from_str("MMOIDS"), entries) }
    }
}

/// What the poll loop decides from the handshake fields of a reply section:
/// keep waiting while READY is not `1`; once ready, the reply is accepted
/// when ERRORLEVEL is `0` or failures are allowed, and fatal otherwise.
#[derive(Debug, Clone, Copy, PartialEq, Eq, Structural)]
pub enum VddsWait {
    NotReady,
    Accept,
    Fail,
}

/// Decides one round of the reply poll.
pub fn vdds_reply_status(
    ready: Option<&String>,
    error_level: Option<&String>,
    allow_fail: bool,
) -> (r: VddsWait)
    ensures
        ({
            let is_ready = ready matches Some(v) && v@ == "1"@;
            let ok_level = error_level matches Some(v) && v@ == "0"@;
            if !is_ready {
                r == VddsWait::NotReady
            } else if ok_level || allow_fail {
                r == VddsWait::Accept
            } else {
                r == VddsWait::Fail
            }
        }),
{
    let is_ready: bool = match ready {
        Some(v) => str_eq(v.as_str(), "1"),
        None => false,
    };
    if !is_ready {
        return VddsWait::NotReady;
    }
    let ok_level: bool = match error_level {
        Some(v) => str_eq(v.as_str(), "0"),
        None => false,
    };
    if ok_level || allow_fail {
        VddsWait::Accept
    } else {
        VddsWait::Fail
    }
}

/// The operating-system code VDDS partners expect from this platform.
pub fn vdds_os() -> (r: String)
    ensures
        r@ == "3"@,
{
    String::from_str("3")
}

/// Where the VDDS partner registry lives on this platform.
pub fn default_vdds_mmi_folder() -> (r: String)
    ensures
        r@ == "/etc/vdds/VDDS_MMI.INI"@,
{
    String::from_str("/etc/vdds/VDDS_MMI.INI")
}

} // verus!
