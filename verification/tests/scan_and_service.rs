//! Checks of the scanner state machine, the file filter, and the
//! manifest-building service.

use rustfoil::compress::CompressionFlag;
use rustfoil::error::RustfoilError;
use rustfoil::filter::{filter_files, keep_file};
use rustfoil::index::{FileInfo, ParsedFileInfo};
use rustfoil::scan::{FolderListing, ScanAction, ScanState};
use rustfoil::service::{Input, RustfoilService};

fn info(id: &str, name: &str, size: &str) -> FileInfo {
    FileInfo {
        id: String::from(id),
        size: String::from(size),
        name: String::from(name),
        shared: false,
    }
}

fn parsed(id: &str, name: &str, size: &str, shared: bool) -> ParsedFileInfo {
    let mut p = ParsedFileInfo::new(info(id, name, size));
    p.shared = shared;
    p
}

fn default_input() -> Input {
    Input {
        folder_ids: vec![String::from("A")],
        credentials: String::from("credentials.json"),
        token: String::from("token.json"),
        output_path: String::from("index.tlf"),
        share_files: false,
        no_recursion: false,
        add_nsw_files_without_title_id: false,
        add_non_nsw_files: false,
        success: None,
        referrer: None,
        google_api_key: None,
        one_fichier_keys: None,
        headers: None,
        min_version: None,
        theme_blacklist: None,
        theme_whitelist: None,
        theme_error: None,
        public_key: None,
        share_index: false,
        upload_folder_id: None,
        upload_my_drive: false,
        compression: CompressionFlag::ZSTD,
        verbose: 0,
    }
}

const TOKEN_NAME: &str = "Game[0123456789ABCDEF].nsp";

#[test]
fn tokened_archive_name_passes_both_default_policies() {
    let p = parsed("id1", TOKEN_NAME, "1", false);
    assert_eq!(p.name_encoded.contains("%5B"), true);
    assert!(keep_file(&p, false, false));
}

#[test]
fn name_without_token_needs_the_identifier_override() {
    let p = parsed("id1", "Game.nsp", "1", false);
    assert!(!keep_file(&p, false, false));
    assert!(keep_file(&p, false, true));
}

#[test]
fn extension_check_is_case_insensitive_and_total() {
    assert!(keep_file(&parsed("i", "GAME[0123456789ABCDEF].NSP", "1", false), false, false));
    assert!(keep_file(&parsed("i", "g[0123456789abcdef].XcZ", "1", false), false, false));
    // Shorter than the extension window: no panic, extension absent.
    assert!(!keep_file(&parsed("i", "abc", "1", false), false, true));
    assert!(!keep_file(&parsed("i", "", "1", false), false, true));
    // Wrong extension needs the extension override.
    let txt = parsed("i", "Notes[0123456789ABCDEF].txt", "1", false);
    assert!(!keep_file(&txt, false, false));
    assert!(keep_file(&txt, true, false));
}

#[test]
fn filter_is_idempotent_on_a_mixed_list() {
    let files = vec![
        parsed("1", TOKEN_NAME, "1", false),
        parsed("2", "Game.nsp", "1", false),
        parsed("3", "readme.txt", "1", false),
        parsed("4", "Other[FEDCBA9876543210].xci", "1", true),
    ];
    let once = filter_files(&files, false, false);
    let twice = filter_files(&once, false, false);
    let names_once: Vec<&str> = once.iter().map(|f| f.name.as_str()).collect();
    let names_twice: Vec<&str> = twice.iter().map(|f| f.name.as_str()).collect();
    assert_eq!(names_once, vec![TOKEN_NAME, "Other[FEDCBA9876543210].xci"]);
    assert_eq!(names_once, names_twice);
}

#[test]
fn recursive_scan_yields_the_filtered_tree() {
    // A/{f1.nsp, B/{f2.txt, f3.xci}} with default policies and recursion.
    let mut scan = ScanState::new(vec![String::from("A")], true, false, false);
    assert!(matches!(scan.next_action(), ScanAction::Authenticate));
    scan.mark_authenticated();
    match scan.next_action() {
        ScanAction::ListFolder(id) => assert_eq!(id, "A"),
        _ => panic!("expected a listing request for A"),
    }
    scan.ingest(FolderListing {
        files: vec![info("f1", "f1[0123456789ABCDEF].nsp", "10")],
        folders: vec![String::from("B")],
    });
    match scan.next_action() {
        ScanAction::ListFolder(id) => assert_eq!(id, "B"),
        _ => panic!("expected a listing request for B"),
    }
    scan.ingest(FolderListing {
        files: vec![
            info("f2", "f2.txt", "20"),
            info("f3", "f3[0123456789ABCDEF].xci", "30"),
        ],
        folders: vec![],
    });
    assert!(matches!(scan.next_action(), ScanAction::Done));
    let names: Vec<&str> = scan.files.iter().map(|f| f.name.as_str()).collect();
    assert_eq!(names, vec!["f1[0123456789ABCDEF].nsp", "f3[0123456789ABCDEF].xci"]);
}

#[test]
fn each_root_completes_before_the_next_root() {
    // Roots [A, B]; A has child C. A's whole subtree (including C) must
    // be listed before B, so the files stay grouped by root in input
    // order: a1, c1, b1.
    let mut scan = ScanState::new(
        vec![String::from("A"), String::from("B")],
        true,
        true,
        true,
    );
    scan.mark_authenticated();
    match scan.next_action() {
        ScanAction::ListFolder(id) => assert_eq!(id, "A"),
        _ => panic!("expected a listing request for A"),
    }
    scan.ingest(FolderListing {
        files: vec![info("a1", "a1.bin", "1")],
        folders: vec![String::from("C")],
    });
    match scan.next_action() {
        ScanAction::ListFolder(id) => assert_eq!(id, "C"),
        _ => panic!("expected C ahead of the remaining root B"),
    }
    scan.ingest(FolderListing {
        files: vec![info("c1", "c1.bin", "1")],
        folders: vec![],
    });
    match scan.next_action() {
        ScanAction::ListFolder(id) => assert_eq!(id, "B"),
        _ => panic!("expected a listing request for B"),
    }
    scan.ingest(FolderListing {
        files: vec![info("b1", "b1.bin", "1")],
        folders: vec![],
    });
    assert!(matches!(scan.next_action(), ScanAction::Done));
    let ids: Vec<&str> = scan.files.iter().map(|f| f.id.as_str()).collect();
    assert_eq!(ids, vec!["a1", "c1", "b1"]);
}

#[test]
fn non_recursive_scan_stops_at_the_top_level() {
    let mut scan = ScanState::new(vec![String::from("A")], false, true, true);
    scan.mark_authenticated();
    scan.ingest(FolderListing {
        files: vec![info("f1", "anything.bin", "1")],
        folders: vec![String::from("B"), String::from("C")],
    });
    assert!(matches!(scan.next_action(), ScanAction::Done));
    assert_eq!(scan.files.len(), 1);
}

#[test]
fn percent_encoding_feeds_the_locator() {
    let p = parsed("id9", "My Game (EU) [0123456789ABCDEF].nsp", "42", false);
    assert_eq!(
        p.name_encoded,
        "My%20Game%20%28EU%29%20%5B0123456789ABCDEF%5D%2Ensp"
    );
    let service = RustfoilService::new(default_input());
    let idx = service.generate_index(vec![p]).unwrap();
    let files = idx.files.as_ref().unwrap();
    assert_eq!(
        files[0].url,
        "gdrive:id9#My%20Game%20%28EU%29%20%5B0123456789ABCDEF%5D%2Ensp"
    );
    assert_eq!(files[0].size, 42);
}

#[test]
fn generate_index_parses_sizes_and_copies_metadata() {
    let mut input = default_input();
    input.success = Some(String::from("loaded"));
    input.min_version = Some(String::from("13"));
    input.headers = Some(vec![String::from("X: y")]);
    let service = RustfoilService::new(input);
    let files = vec![
        parsed("a", "a.nsp", "0", false),
        parsed("b", "b.nsp", "18446744073709551615", false),
    ];
    let idx = service.generate_index(files).unwrap();
    let entries = idx.files.as_ref().unwrap();
    assert_eq!(entries[0].size, 0);
    assert_eq!(entries[1].size, u64::MAX);
    assert_eq!(idx.success.as_deref(), Some("loaded"));
    assert_eq!(idx.version.as_deref(), Some("13"));
    assert_eq!(idx.headers.as_ref().unwrap().len(), 1);
    assert!(idx.directories.is_none());
    assert!(idx.referrer.is_none());
}

#[test]
fn generate_index_rejects_malformed_sizes_naming_the_file() {
    let service = RustfoilService::new(default_input());
    for bad in ["", "12a", "-1", "18446744073709551616", "+7"] {
        let files = vec![
            parsed("good", "a.nsp", "1", false),
            parsed("offender", "b.nsp", bad, false),
        ];
        match service.generate_index(files) {
            Err(RustfoilError::InvalidSize { file_id }) => assert_eq!(file_id, "offender"),
            _ => panic!("size {bad:?} must be rejected"),
        }
    }
}

#[test]
fn malformed_minimum_version_is_a_fatal_configuration_error() {
    for bad in ["abc", "1.", ".5", "01", "1.2.3", "", "1a", "-1"] {
        let mut input = default_input();
        input.min_version = Some(String::from(bad));
        let service = RustfoilService::new(input);
        let r = service.generate_index(vec![]);
        assert!(
            matches!(r, Err(RustfoilError::InvalidVersion)),
            "version {bad:?} must be rejected"
        );
    }
    for good in ["0", "14", "13.0", "0.5", "10.25"] {
        let mut input = default_input();
        input.min_version = Some(String::from(good));
        let service = RustfoilService::new(input);
        let idx = service.generate_index(vec![]).unwrap();
        assert_eq!(idx.version.as_deref(), Some(good));
    }
}

#[test]
fn validate_input_reports_missing_credentials() {
    let service = RustfoilService::new(default_input());
    assert!(service.validate_input(true).is_ok());
    assert!(matches!(
        service.validate_input(false),
        Err(RustfoilError::CredentialsMissing)
    ));
}

#[test]
fn share_decisions_skip_already_shared_files() {
    let service = RustfoilService::new(default_input());
    assert_eq!(service.share_file(String::from("x"), true), None);
    assert_eq!(
        service.share_file(String::from("x"), false),
        Some(String::from("x"))
    );
    let files = vec![
        parsed("p", "a.nsp", "1", false),
        parsed("q", "b.nsp", "1", true),
        parsed("r", "c.nsp", "1", false),
    ];
    let ids = service.share_candidates(&files);
    assert_eq!(ids, vec![String::from("p"), String::from("r")]);
}

#[test]
fn build_output_produces_a_container_for_the_manifest() {
    let mut input = default_input();
    input.compression = CompressionFlag::Off;
    let service = RustfoilService::new(input);
    let idx = service
        .generate_index(vec![parsed("abc", "Game[0123456789ABCDEF].nsp", "100", false)])
        .unwrap();
    let out = service.build_output(&idx, None).unwrap();
    assert_eq!(&out[..7], b"TINFOIL");
    assert_eq!(out[7], 0x00);
    let v: serde_json::Value = serde_json::from_slice(&out[8..]).unwrap();
    assert_eq!(v.as_object().unwrap().len(), 1);
    assert_eq!(
        v.get("files").unwrap().as_array().unwrap()[0]
            .get("size")
            .unwrap()
            .as_u64()
            .unwrap(),
        100
    );
}
