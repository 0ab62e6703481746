//! The conversion pipeline as a state machine: it turns a DICOM-XML file
//! into a binary worklist file through up to six external-tool invocations
//! (`xml2dcm`, `dcmodify` for the study UID and the optional AETitle and
//! modality stamps, `dcmdump`, `dump2dcm -g`), one at a time.
//!
//! The machine only decides: it hands out the command to run next and
//! consumes each command's exit status. Running the commands, capturing
//! their output, and managing the temporary files is the caller's work. A
//! non-zero exit at any stage aborts the pipeline at once, so no later
//! stage runs and nothing is written to the output path.

use vstd::prelude::*;

verus! {

/// One external command: program name, arguments, and whether the caller
/// should echo its output.
#[derive(Debug, Clone, PartialEq)]
pub struct Invocation {
    pub program: String,
    pub args: Vec<String>,
    pub print_output: bool,
}

#[verifier::ext_equal]
pub struct InvocationV {
    pub program: Seq<char>,
    pub args: Seq<Seq<char>>,
    pub print_output: bool,
}

impl View for Invocation {
    type V = InvocationV;

    open spec fn view(&self) -> InvocationV {
        InvocationV {
            program: self.program@,
            args: self.args.deep_view(),
            print_output: self.print_output,
        }
    }
}

/// The pipeline stages, in the order they run.
#[derive(Debug, Clone, Copy, PartialEq, Eq, Structural)]
pub enum PipelineStep {
    /// `xml2dcm` from the XML file to the intermediate DICOM file.
    ConvertXml,
    /// `dcmodify --gen-stud-uid`, so every produced entry is unique.
    GenerateUid,
    /// `dcmodify -i 0032,1060=AETITLE`, only when an AETitle is set.
    StampAeTitle,
    /// `dcmodify -i (0040,0100)[0].(0008,0060)=MODALITY`, only when a
    /// modality is set.
    StampModality,
    /// `dcmdump` of the intermediate file; the caller writes the captured
    /// standard output to the dump file.
    DumpDcm,
    /// `dump2dcm -g` from the dump file to the output path.
    EncodeWorklist,
}

/// Where the pipeline stands: waiting for the result of a step, finished,
/// or aborted.
#[derive(Debug, Clone, Copy, PartialEq, Eq, Structural)]
pub enum PipelineStatus {
    Running(PipelineStep),
    Done,
    Failed,
}

/// What the caller must do next: run a command, stop with the captured
/// error text, or stop because the worklist file is written.
#[derive(Debug, Clone, PartialEq)]
pub enum PipelineAction {
    Run(Invocation),
    Abort(String),
    Finished,
}

/// One worklist conversion in flight: the file paths it works over, the
/// optional stamps, and the current status.
#[derive(Debug, Clone, PartialEq)]
pub struct WorklistPipeline {
    pub xml_path: String,
    pub dcm_path: String,
    pub dump_path: String,
    pub output_path: String,
    pub aetitle: Option<String>,
    pub modality: Option<String>,
    pub status: PipelineStatus,
}

#[verifier::ext_equal]
pub struct WorklistPipelineV {
    pub xml_path: Seq<char>,
    pub dcm_path: Seq<char>,
    pub dump_path: Seq<char>,
    pub output_path: Seq<char>,
    pub aetitle: Option<Seq<char>>,
    pub modality: Option<Seq<char>>,
    pub status: PipelineStatus,
}

impl View for WorklistPipeline {
    type V = WorklistPipelineV;

    open spec fn view(&self) -> WorklistPipelineV {
        WorklistPipelineV {
            xml_path: self.xml_path@,
            dcm_path: self.dcm_path@,
            dump_path: self.dump_path@,
            output_path: self.output_path@,
            aetitle: match &self.aetitle {
                Some(a) => Some(a@),
                None => None,
            },
            modality: match &self.modality {
                Some(m) => Some(m@),
                None => None,
            },
            status: self.status,
        }
    }
}

/// The step that follows a successful step, skipping the stamps that are
/// not configured; `None` after the last step.
pub open spec fn spec_next_step(p: WorklistPipelineV, step: PipelineStep) -> Option<PipelineStep> {
    match step {
        PipelineStep::ConvertXml => Some(PipelineStep::GenerateUid),
        PipelineStep::GenerateUid => if p.aetitle is Some {
            Some(PipelineStep::StampAeTitle)
        } else if p.modality is Some {
            Some(PipelineStep::StampModality)
        } else {
            Some(PipelineStep::DumpDcm)
        },
        PipelineStep::StampAeTitle => if p.modality is Some {
            Some(PipelineStep::StampModality)
        } else {
            Some(PipelineStep::DumpDcm)
        },
        PipelineStep::StampModality => Some(PipelineStep::DumpDcm),
        PipelineStep::DumpDcm => Some(PipelineStep::EncodeWorklist),
        PipelineStep::EncodeWorklist => None,
    }
}

/// The command of each step: program, arguments, and echo flag.
pub open spec fn spec_invocation(p: WorklistPipelineV, step: PipelineStep) -> InvocationV {
    match step {
        PipelineStep::ConvertXml => InvocationV {
            program: "xml2dcm"@,
            args: seq![p.xml_path, p.dcm_path],
            print_output: false,
        },
        PipelineStep::GenerateUid => InvocationV {
            program: "dcmodify"@,
            args: seq!["--gen-stud-uid"@, p.dcm_path],
            print_output: true,
        },
        PipelineStep::StampAeTitle => InvocationV {
            program: "dcmodify"@,
            args: seq![
                "-i"@,
                "0032,1060="@ + (if p.aetitle is Some {
                    p.aetitle->0
                } else {
                    Seq::empty()
                }),
                p.dcm_path,
            ],
            print_output: true,
        },
        PipelineStep::StampModality => InvocationV {
            program: "dcmodify"@,
            args: seq![
                "-i"@,
                "(0040,0100)[0].(0008,0060)="@ + (if p.modality is Some {
                    p.modality->0
                } else {
                    Seq::empty()
                }),
                p.dcm_path,
            ],
            print_output: false,
        },
        PipelineStep::DumpDcm => InvocationV {
            program: "dcmdump"@,
            args: seq![p.dcm_path],
            print_output: false,
        },
        PipelineStep::EncodeWorklist => InvocationV {
            program: "dump2dcm"@,
            args: seq!["-g"@, p.dump_path, p.output_path],
            print_output: true,
        },
    }
}

impl WorklistPipeline {
    /// Starts a pipeline over the given files and stamps; the first command
    /// to run is the XML conversion.
    pub fn start(
        xml_path: String,
        dcm_path: String,
        dump_path: String,
        output_path: String,
        aetitle: Option<String>,
        modality: Option<String>,
    ) -> (r: (WorklistPipeline, Invocation))
        ensures
            r.0@.xml_path == xml_path@,
            r.0@.dcm_path == dcm_path@,
            r.0@.dump_path == dump_path@,
            r.0@.output_path == output_path@,
            r.0@.aetitle == match aetitle {
                Some(a) => Some::<Seq<char>>(a@),
                None => None::<Seq<char>>,
            },
            r.0@.modality == match modality {
                Some(m) => Some::<Seq<char>>(m@),
                None => None::<Seq<char>>,
            },
            r.0@.status == PipelineStatus::Running(PipelineStep::ConvertXml),
            r.1@ == spec_invocation(r.0@, PipelineStep::ConvertXml),
    {
        let p = WorklistPipeline {
            xml_path,
            dcm_path,
            dump_path,
            output_path,
            aetitle,
            modality,
            status: PipelineStatus::Running(PipelineStep::ConvertXml),
        };
        let inv = invocation_of(&p, PipelineStep::ConvertXml);
        (p, inv)
    }

    /// Consumes the result of the step the pipeline was waiting for. On
    /// failure the pipeline aborts at once with the captured error text and
    /// never runs another command; on success it hands out the next
    /// command, or reports completion after the last one.
    pub fn on_step_result(&mut self, success: bool, stderr: String) -> (r: PipelineAction)
        requires
            old(self)@.status matches PipelineStatus::Running(_),
        ensures
            final(self)@ == (WorklistPipelineV { status: final(self)@.status, ..old(self)@ }),
            old(self)@.status matches PipelineStatus::Running(step) ==> {
                if !success {
                    &&& final(self)@.status == PipelineStatus::Failed
                    &&& r matches PipelineAction::Abort(e) && e@ == stderr@
                } else {
                    match spec_next_step(old(self)@, step) {
                        Some(next) => {
                            &&& final(self)@.status == PipelineStatus::Running(next)
                            &&& r matches PipelineAction::Run(inv) && inv@ == spec_invocation(
                                old(self)@,
                                next,
                            )
                        },
                        None => {
                            &&& final(self)@.status == PipelineStatus::Done
                            &&& r == PipelineAction::Finished
                        },
                    }
                }
            },
    {
        let step: PipelineStep = match self.status {
            PipelineStatus::Running(s) => s,
            _ => PipelineStep::ConvertXml,
        };
        if !success {
            self.status = PipelineStatus::Failed;
            return PipelineAction::Abort(stderr);
        }
        let next: Option<PipelineStep> = match step {
            PipelineStep::ConvertXml => Some(PipelineStep::GenerateUid),
            PipelineStep::GenerateUid => {
                if self.aetitle.is_some() {
                    Some(PipelineStep::StampAeTitle)
                } else if self.modality.is_some() {
                    Some(PipelineStep::StampModality)
                } else {
                    Some(PipelineStep::DumpDcm)
                }
            },
            PipelineStep::StampAeTitle => {
                if self.modality.is_some() {
                    Some(PipelineStep::StampModality)
                } else {
                    Some(PipelineStep::DumpDcm)
                }
            },
            PipelineStep::StampModality => Some(PipelineStep::DumpDcm),
            PipelineStep::DumpDcm => Some(PipelineStep::EncodeWorklist),
            PipelineStep::EncodeWorklist => None,
        };
        match next {
            Some(n) => {
                let inv = invocation_of(self, n);
                self.status = PipelineStatus::Running(n);
                PipelineAction::Run(inv)
            },
            None => {
                self.status = PipelineStatus::Done;
                PipelineAction::Finished
            },
        }
    }
}

/// Builds the command of one step.
fn invocation_of(p: &WorklistPipeline, step: PipelineStep) -> (r: Invocation)
    ensures
        r@ == spec_invocation(p@, step),
{
    match step {
        PipelineStep::ConvertXml => {
            let mut args: Vec<String> = Vec::new();
            args.push(p.xml_path.clone());
            args.push(p.dcm_path.clone());
            let r = Invocation {
                program: String::from_str("xml2dcm"),
                args,
                print_output: false,
            };
            proof {
                assert(r@.args =~= spec_invocation(p@, step).args);
                assert(r@ =~~= spec_invocation(p@, step));
            }
            r
        },
        PipelineStep::GenerateUid => {
            let mut args: Vec<String> = Vec::new();
            args.push(String::from_str("--gen-stud-uid"));
            args.push(p.dcm_path.clone());
            let r = Invocation {
                program: String::from_str("dcmodify"),
                args,
                print_output: true,
            };
            proof {
                assert(r@.args =~= spec_invocation(p@, step).args);
                assert(r@ =~~= spec_invocation(p@, step));
            }
            r
        },
        PipelineStep::StampAeTitle => {
            let mut stamp: String = String::from_str("0032,1060=");
            match &p.aetitle {
                Some(a) => stamp.append(a.as_str()),
                None => {},
            }
            let mut args: Vec<String> = Vec::new();
            args.push(String::from_str("-i"));
            args.push(stamp);
            args.push(p.dcm_path.clone());
            let r = Invocation {
                program: String::from_str("dcmodify"),
                args,
                print_output: true,
            };
            proof {
                if p@.aetitle is None {
                    assert("0032,1060="@ =~= "0032,1060="@ + Seq::<char>::empty());
                }
                assert(r@.args =~= spec_invocation(p@, step).args);
                assert(r@ =~~= spec_invocation(p@, step));
            }
            r
        },
        PipelineStep::StampModality => {
            let mut stamp: String = String::from_str("(0040,0100)[0].(0008,0060)=");
            match &p.modality {
                Some(m) => stamp.append(m.as_str()),
                None => {},
            }
            let mut args: Vec<String> = Vec::new();
            args.push(String::from_str("-i"));
            args.push(stamp);
            args.push(p.dcm_path.clone());
            let r = Invocation {
                program: String::from_str("dcmodify"),
                args,
                print_output: false,
            };
            proof {
                if p@.modality is None {
                    assert("(0040,0100)[0].(0008,0060)="@ =~= "(0040,0100)[0].(0008,0060)="@
                        + Seq::<char>::empty());
                }
                assert(r@.args =~= spec_invocation(p@, step).args);
                assert(r@ =~~= spec_invocation(p@, step));
            }
            r
        },
        PipelineStep::DumpDcm => {
            let mut args: Vec<String> = Vec::new();
            args.push(p.dcm_path.clone());
            let r = Invocation {
                program: String::from_str("dcmdump"),
                args,
                print_output: false,
            };
            proof {
                assert(r@.args =~= spec_invocation(p@, step).args);
                assert(r@ =~~= spec_invocation(p@, step));
            }
            r
        },
        PipelineStep::EncodeWorklist => {
            let mut args: Vec<String> = Vec::new();
            args.push(String::from_str("-g"));
            args.push(p.dump_path.clone());
            args.push(p.output_path.clone());
            let r = Invocation {
                program: String::from_str("dump2dcm"),
                args,
                print_output: true,
            };
            proof {
                assert(r@.args =~= spec_invocation(p@, step).args);
                assert(r@ =~~= spec_invocation(p@, step));
            }
            r
        },
    }
}

/// Short circuit: when the first stage fails, the pipeline is aborted at
/// once — the caller gets no further command to run — and the output path
/// was never part of any command that was handed out, so nothing was
/// written there. The output path appears only in the final encoding step,
/// which failure makes unreachable.
pub proof fn lemma_pipeline_short_circuit(p: WorklistPipelineV, stderr: Seq<char>)
    requires
        p.status == PipelineStatus::Running(PipelineStep::ConvertXml),
        p.output_path != p.xml_path,
        p.output_path != p.dcm_path,
        p.output_path != p.dump_path,
        p.output_path != "-i"@,
        p.output_path != "--gen-stud-uid"@,
        p.aetitle matches Some(a) ==> p.output_path != "0032,1060="@ + a,
        p.aetitle is None ==> p.output_path != "0032,1060="@ + Seq::<char>::empty(),
        p.modality matches Some(m) ==> p.output_path != "(0040,0100)[0].(0008,0060)="@ + m,
        p.modality is None ==> p.output_path != "(0040,0100)[0].(0008,0060)="@
            + Seq::<char>::empty(),
    ensures
        // The only command issued so far was the first stage's, and it does
        // not touch the output path.
        forall|i: int|
            0 <= i < spec_invocation(p, PipelineStep::ConvertXml).args.len() ==> spec_invocation(
                p,
                PipelineStep::ConvertXml,
            ).args[i] != p.output_path,
        // Among all stages, only the final encoding step names the output
        // path at all.
        forall|step: PipelineStep, i: int|
            0 <= i < spec_invocation(p, step).args.len() && spec_invocation(p, step).args[i]
                == p.output_path ==> step == PipelineStep::EncodeWorklist,
{
    assert forall|step: PipelineStep, i: int|
        0 <= i < spec_invocation(p, step).args.len() && spec_invocation(p, step).args[i]
            == p.output_path implies step == PipelineStep::EncodeWorklist by {
        match step {
            PipelineStep::ConvertXml => {},
            PipelineStep::GenerateUid => {},
            PipelineStep::StampAeTitle => {},
            PipelineStep::StampModality => {},
            PipelineStep::DumpDcm => {},
            PipelineStep::EncodeWorklist => {},
        }
    }
}

} // verus!
