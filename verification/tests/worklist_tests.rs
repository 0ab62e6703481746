use gdt2dicom::worklist::{
    handle_event, is_gdt_file, processed_filename_at, wl_filename_at, WorklistConversion,
    WorklistConversionState,
};

#[test]
fn gdt_extension_is_case_insensitive() {
    assert!(is_gdt_file("A.gdt"));
    assert!(is_gdt_file("A.GDT"));
    assert!(is_gdt_file("A.GdT"));
    assert!(is_gdt_file("a.b.gdt"));
    assert!(!is_gdt_file("B.txt"));
    assert!(!is_gdt_file("A.gdtx"));
    assert!(!is_gdt_file("Agdt"));
    assert!(!is_gdt_file(".gdt"));
    assert!(!is_gdt_file("A."));
    assert!(!is_gdt_file(""));
}

#[test]
fn scan_separates_candidates_from_ignored() {
    let mut wc = WorklistConversion::new();
    let _ = wc.set_input_dir_path(Some("/in".to_string()));
    let root = Some("/worklist".to_string());
    let entries = vec!["A.gdt".to_string(), "B.txt".to_string()];
    let plan = wc.scan_folder(&root, &entries);
    assert_eq!(plan.gdt_files, vec!["A.gdt".to_string()]);
    assert_eq!(plan.ignored, vec!["B.txt".to_string()]);
    assert_eq!(plan.processed_dir.unwrap(), "/in/processed");
    let output = plan.output.unwrap();
    assert_eq!(output.folder, "/worklist");
    assert!(!output.create_folder);
    assert!(output.lockfile.is_none());
}

#[test]
fn scan_without_watch_or_root_is_empty() {
    let wc = WorklistConversion::new();
    let entries = vec!["A.gdt".to_string()];
    let plan = wc.scan_folder(&Some("/worklist".to_string()), &entries);
    assert!(plan.gdt_files.is_empty());
    assert!(plan.ignored.is_empty());
    assert!(plan.output.is_none());

    let mut wc = WorklistConversion::new();
    let _ = wc.set_input_dir_path(Some("/in".to_string()));
    let plan = wc.scan_folder(&None, &entries);
    assert!(plan.gdt_files.is_empty());
    assert!(plan.output.is_none());
}

#[test]
fn aetitle_folder_gets_created_with_lockfile() {
    let mut wc = WorklistConversion::new();
    let _ = wc.set_input_dir_path(Some("/in".to_string()));
    wc.set_aetitle_string("US1".to_string());
    let plan = wc.output_folder(&Some("root".to_string())).unwrap();
    assert_eq!(plan.folder, "root/US1");
    assert!(plan.create_folder);
    assert_eq!(plan.lockfile.unwrap(), "root/US1/.lockfile");
}

#[test]
fn empty_aetitle_clears_it() {
    let mut wc = WorklistConversion::new();
    wc.set_aetitle_string("US1".to_string());
    wc.set_aetitle_string(String::new());
    let plan = wc.output_folder(&Some("root".to_string())).unwrap();
    assert_eq!(plan.folder, "root");
    assert!(plan.lockfile.is_none());
}

#[test]
fn set_same_path_is_a_noop() {
    let mut wc = WorklistConversion::new();
    let p1 = wc.set_input_dir_path(Some("/in".to_string()));
    assert_eq!(p1.watch.unwrap(), "/in");
    assert!(p1.scan_now);
    let p2 = wc.set_input_dir_path(Some("/in".to_string()));
    assert!(p2.watch.is_none());
    assert!(p2.unwatch.is_none());
    assert!(!p2.scan_now);
}

#[test]
fn changing_path_unwatches_previous() {
    let mut wc = WorklistConversion::new();
    let _ = wc.set_input_dir_path(Some("/old".to_string()));
    let plan = wc.set_input_dir_path(Some("/new".to_string()));
    assert_eq!(plan.unwatch.unwrap(), "/old");
    assert_eq!(plan.watch.unwrap(), "/new");
    assert!(plan.scan_now);
    assert_eq!(wc.input_dir_path().unwrap(), "/new");
}

#[test]
fn unwatch_clears_and_reports() {
    let mut wc = WorklistConversion::new();
    let _ = wc.set_input_dir_path(Some("/in".to_string()));
    assert_eq!(wc.unwatch_input_dir().unwrap(), "/in");
    assert!(wc.input_dir_path().is_none());
    assert!(wc.unwatch_input_dir().is_none());
}

#[test]
fn snapshot_round_trip() {
    let mut wc = WorklistConversion::new();
    let _ = wc.set_input_dir_path(Some("/in".to_string()));
    wc.set_aetitle_string("US1".to_string());
    wc.set_modality_string("US".to_string());
    let snap = wc.to_state();
    assert_eq!(snap.input_dir_path.clone().unwrap(), "/in");
    let (restored, plan) = WorklistConversion::from_state(&snap);
    assert_eq!(restored.input_dir_path().unwrap(), "/in");
    assert_eq!(plan.watch.unwrap(), "/in");
    assert!(plan.scan_now);
}

#[test]
fn restore_treats_empty_stamps_as_unset() {
    let snap = WorklistConversionState {
        input_dir_path: None,
        aetitle: Some(String::new()),
        modality: None,
    };
    let (restored, plan) = WorklistConversion::from_state(&snap);
    assert!(restored.aetitle.is_none());
    assert!(plan.watch.is_none());
    assert!(!plan.scan_now);
}

#[test]
fn events_trigger_scans_only_for_gdt_creates() {
    let gdt = vec!["/in/A.gdt".to_string()];
    let txt = vec!["/in/B.txt".to_string()];
    assert!(handle_event(true, &gdt));
    assert!(!handle_event(true, &txt));
    assert!(!handle_event(false, &gdt));
    assert!(!handle_event(true, &Vec::new()));
}

#[test]
fn produced_and_archived_names_share_the_stem() {
    let wl = wl_filename_at("Hans", "Müller", "01.02.2024_10.30.00");
    let archived = processed_filename_at("Hans", "Müller", "01.02.2024_10.30.00");
    assert_eq!(wl, "Hans_Müller_01.02.2024_10.30.00.wl");
    assert_eq!(archived, "Hans_Müller_01.02.2024_10.30.00.gdt");
}
