//! GDT <-> DICOM bridge library.
//!
//! The crate models the GDT patient-record exchange format, the XML dialect
//! used to build DICOM datasets, the external-tool conversion pipeline, and
//! the folder watch/scan/convert workflow that ties them together.

pub mod command;
pub mod dcm_xml;
pub mod gdt;
pub mod jpeg_extraction;
pub mod opp;
pub mod pipeline;
pub mod strutil;
pub mod vdds;
pub mod worklist;
