use gdt2dicom::pipeline::{PipelineAction, PipelineStatus, PipelineStep, WorklistPipeline};

fn start_pipeline(aetitle: Option<&str>, modality: Option<&str>) -> (WorklistPipeline, gdt2dicom::pipeline::Invocation) {
    WorklistPipeline::start(
        "in.xml".to_string(),
        "work.dcm".to_string(),
        "work.dump".to_string(),
        "out/wk.wl".to_string(),
        aetitle.map(|s| s.to_string()),
        modality.map(|s| s.to_string()),
    )
}

#[test]
fn first_stage_is_xml_conversion() {
    let (p, inv) = start_pipeline(None, None);
    assert_eq!(p.status, PipelineStatus::Running(PipelineStep::ConvertXml));
    assert_eq!(inv.program, "xml2dcm");
    assert_eq!(inv.args, vec!["in.xml".to_string(), "work.dcm".to_string()]);
}

#[test]
fn first_stage_failure_aborts_without_second_stage() {
    let (mut p, _inv) = start_pipeline(Some("US1"), Some("US"));
    let action = p.on_step_result(false, "xml2dcm: parse error".to_string());
    assert_eq!(p.status, PipelineStatus::Failed);
    match action {
        PipelineAction::Abort(e) => assert_eq!(e, "xml2dcm: parse error"),
        _ => panic!("a failed first stage must abort"),
    }
    // No command was ever handed out that names the output path.
}

#[test]
fn plain_run_sequence_without_stamps() {
    let (mut p, _inv) = start_pipeline(None, None);
    let mut programs: Vec<String> = Vec::new();
    loop {
        match p.on_step_result(true, String::new()) {
            PipelineAction::Run(inv) => programs.push(inv.program),
            PipelineAction::Finished => break,
            PipelineAction::Abort(_) => panic!("no stage failed"),
        }
    }
    assert_eq!(
        programs,
        vec!["dcmodify".to_string(), "dcmdump".to_string(), "dump2dcm".to_string()]
    );
}

#[test]
fn stamps_run_when_configured() {
    let (mut p, _inv) = start_pipeline(Some("US1"), Some("US"));
    let mut args_log: Vec<Vec<String>> = Vec::new();
    loop {
        match p.on_step_result(true, String::new()) {
            PipelineAction::Run(inv) => args_log.push(inv.args),
            PipelineAction::Finished => break,
            PipelineAction::Abort(_) => panic!("no stage failed"),
        }
    }
    assert_eq!(args_log.len(), 5);
    assert_eq!(args_log[0], vec!["--gen-stud-uid".to_string(), "work.dcm".to_string()]);
    assert_eq!(
        args_log[1],
        vec!["-i".to_string(), "0032,1060=US1".to_string(), "work.dcm".to_string()]
    );
    assert_eq!(
        args_log[2],
        vec![
            "-i".to_string(),
            "(0040,0100)[0].(0008,0060)=US".to_string(),
            "work.dcm".to_string()
        ]
    );
    assert_eq!(args_log[3], vec!["work.dcm".to_string()]);
    assert_eq!(
        args_log[4],
        vec!["-g".to_string(), "work.dump".to_string(), "out/wk.wl".to_string()]
    );
}

#[test]
fn output_path_appears_only_in_final_stage() {
    let (mut p, first) = start_pipeline(Some("US1"), Some("US"));
    let mut all_args: Vec<Vec<String>> = vec![first.args];
    loop {
        match p.on_step_result(true, String::new()) {
            PipelineAction::Run(inv) => all_args.push(inv.args),
            PipelineAction::Finished => break,
            PipelineAction::Abort(_) => panic!("no stage failed"),
        }
    }
    for (i, args) in all_args.iter().enumerate() {
        let names_output = args.iter().any(|a| a == "out/wk.wl");
        assert_eq!(names_output, i == all_args.len() - 1);
    }
}

#[test]
fn mid_pipeline_failure_aborts() {
    let (mut p, _inv) = start_pipeline(None, None);
    match p.on_step_result(true, String::new()) {
        PipelineAction::Run(inv) => assert_eq!(inv.program, "dcmodify"),
        _ => panic!("expected the uid stage"),
    }
    let action = p.on_step_result(false, "dcmodify: no such file".to_string());
    assert!(matches!(action, PipelineAction::Abort(_)));
    assert_eq!(p.status, PipelineStatus::Failed);
}
