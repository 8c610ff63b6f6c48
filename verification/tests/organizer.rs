use photo_tools::compose::canonical_target;
use photo_tools::copy_plan::{plan_copy, CopyOutcome};
use photo_tools::error::ErrorKind;
use photo_tools::number::{parse_u32, u32_to_string};
use photo_tools::pipeline::{finish_file, screen_file, ScreenDecision};
use photo_tools::resolve::{
    directory_number, file_number_from_name, resolve_file_number, resolve_metadata,
    transform_timestamp, ResolvedMetadata,
};
use photo_tools::scan::{default_allowed_extensions, extension_of, has_allowed_extension};
use photo_tools::text::{drop_tail, to_lowercase};

#[test]
fn parse_u32_accepts_plain_digits() {
    assert_eq!(parse_u32("0"), Some(0));
    assert_eq!(parse_u32("1234"), Some(1234));
    assert_eq!(parse_u32("0042"), Some(42));
    assert_eq!(parse_u32("4294967295"), Some(u32::MAX));
}

#[test]
fn parse_u32_rejects_bad_input() {
    assert_eq!(parse_u32(""), None);
    assert_eq!(parse_u32("12a4"), None);
    assert_eq!(parse_u32("-1"), None);
    assert_eq!(parse_u32(" 12"), None);
    assert_eq!(parse_u32("4294967296"), None);
}

#[test]
fn u32_to_string_renders_decimal() {
    assert_eq!(u32_to_string(0), "0");
    assert_eq!(u32_to_string(7), "7");
    assert_eq!(u32_to_string(100), "100");
    assert_eq!(u32_to_string(4294967295), "4294967295");
}

#[test]
fn lowercase_and_drop_tail() {
    assert_eq!(to_lowercase("AbC.JpG"), "abc.jpg");
    assert_eq!(to_lowercase(""), "");
    assert_eq!(drop_tail("100CANON", "CANON"), "100");
    assert_eq!(drop_tail("100NIKON", "CANON"), "100NIKON");
    assert_eq!(drop_tail("CANON", "CANON"), "");
}

#[test]
fn extension_extraction() {
    assert_eq!(extension_of("IMG_1234.CR2"), Some("CR2".to_string()));
    assert_eq!(extension_of("archive.tar.gz"), Some("gz".to_string()));
    assert_eq!(extension_of("noextension"), None);
    assert_eq!(extension_of(".hidden"), None);
    assert_eq!(extension_of("trailing."), Some("".to_string()));
}

#[test]
fn extension_filter_is_case_insensitive() {
    let allowed = default_allowed_extensions();
    assert!(has_allowed_extension("IMG_1234.CR2", &allowed));
    assert!(has_allowed_extension("IMG_1234.jpg", &allowed));
    assert!(has_allowed_extension("clip.MP4", &allowed));
    assert!(!has_allowed_extension("notes.txt", &allowed));
    assert!(!has_allowed_extension("noextension", &allowed));
    assert!(!has_allowed_extension(".jpg", &allowed));
}

#[test]
fn directory_number_from_parent_name() {
    assert_eq!(directory_number("100CANON").unwrap(), 100);
    assert_eq!(directory_number("007CANON").unwrap(), 7);
    let e = directory_number("100NIKON").unwrap_err();
    assert_eq!(e.kind, ErrorKind::StructureViolation);
    let e = directory_number("CANON").unwrap_err();
    assert_eq!(e.kind, ErrorKind::StructureViolation);
    let e = directory_number("12XCANON").unwrap_err();
    assert_eq!(e.kind, ErrorKind::StructureViolation);
}

#[test]
fn file_number_from_trailing_group() {
    assert_eq!(file_number_from_name("IMG_1234.CR2"), Some(1234));
    assert_eq!(file_number_from_name("A_12_34.jpg"), Some(34));
    assert_eq!(file_number_from_name("_123.jpg"), Some(123));
    assert_eq!(file_number_from_name("123.jpg"), None);
    assert_eq!(file_number_from_name("IMG_.jpg"), None);
    assert_eq!(file_number_from_name("IMG_12a4.jpg"), None);
    assert_eq!(file_number_from_name("IMG_1234."), None);
    assert_eq!(file_number_from_name("noextension"), None);
}

#[test]
fn file_number_prefers_metadata_index() {
    assert_eq!(resolve_file_number("5678", "IMG_1234.CR2").unwrap(), 5678);
    assert_eq!(resolve_file_number("", "IMG_1234.CR2").unwrap(), 1234);
    assert_eq!(resolve_file_number("n/a", "IMG_1234.CR2").unwrap(), 1234);
    let e = resolve_file_number("n/a", "IMG_abcd.CR2").unwrap_err();
    assert_eq!(e.kind, ErrorKind::MetadataUnavailable);
}

#[test]
fn timestamp_becomes_filesystem_safe() {
    assert_eq!(
        transform_timestamp("2020:05:01 10:00:00"),
        "2020-05-01_10-00-00"
    );
    assert_eq!(transform_timestamp(""), "");
    assert_eq!(transform_timestamp("a:b c"), "a-b_c");
}

#[test]
fn canonical_filename_is_deterministic() {
    let m1 = ResolvedMetadata {
        directory_number: 100,
        file_number: 1234,
        timestamp: "2020-05-01_10-00-00".to_string(),
    };
    let m2 = ResolvedMetadata {
        directory_number: 100,
        file_number: 1234,
        timestamp: "2020-05-01_10-00-00".to_string(),
    };
    let t1 = canonical_target("dst-dir", &m1, "cr2");
    let t2 = canonical_target("dst-dir", &m2, "cr2");
    assert_eq!(t1.filename, t2.filename);
    assert_eq!(t1.dir, t2.dir);
    assert_eq!(t1.path, t2.path);
}

#[test]
fn canonical_target_composes_the_documented_path() {
    let meta = ResolvedMetadata {
        directory_number: 100,
        file_number: 1234,
        timestamp: "2020-05-01_10-00-00".to_string(),
    };
    let t = canonical_target("dst-dir", &meta, "cr2");
    assert_eq!(t.filename, "2020-05-01_10-00-00_100-1234.cr2");
    assert_eq!(t.dir, "dst-dir/2020-05-01");
    assert_eq!(t.path, "dst-dir/2020-05-01/2020-05-01_10-00-00_100-1234.cr2");
}

#[test]
fn resolve_metadata_combines_all_sources() {
    let m = resolve_metadata("IMG_1234.CR2", "100CANON", "1234", "2020:05:01 10:00:00").unwrap();
    assert_eq!(m.directory_number, 100);
    assert_eq!(m.file_number, 1234);
    assert_eq!(m.timestamp, "2020-05-01_10-00-00");

    let e = resolve_metadata("IMG_1234.CR2", "misc", "1234", "2020:05:01 10:00:00").unwrap_err();
    assert_eq!(e.kind, ErrorKind::StructureViolation);

    let e = resolve_metadata("IMG_x.CR2", "100CANON", "", "2020:05:01 10:00:00").unwrap_err();
    assert_eq!(e.kind, ErrorKind::MetadataUnavailable);
}

#[test]
fn screening_skips_foreign_extensions_without_aborting() {
    let allowed = default_allowed_extensions();
    // Even with a directory layout that would be fatal for a processed
    // file, a filtered extension is only skipped.
    let d = screen_file("notes.txt", "stuff", "somewhere", &allowed).unwrap();
    assert!(matches!(d, ScreenDecision::Skip));
    let d = screen_file("noextension", "100CANON", "DCIM", &allowed).unwrap();
    assert!(matches!(d, ScreenDecision::Skip));
}

#[test]
fn screening_enforces_camera_layout() {
    let allowed = default_allowed_extensions();
    let e = screen_file("IMG_1234.CR2", "100CANON", "misc", &allowed).unwrap_err();
    assert_eq!(e.kind, ErrorKind::StructureViolation);
    let e = screen_file("IMG_1234.CR2", "photos", "DCIM", &allowed).unwrap_err();
    assert_eq!(e.kind, ErrorKind::StructureViolation);
    match screen_file("IMG_1234.CR2", "100CANON", "DCIM", &allowed).unwrap() {
        ScreenDecision::Process {
            directory_number,
            extension_lower,
        } => {
            assert_eq!(directory_number, 100);
            assert_eq!(extension_lower, "cr2");
        }
        other => panic!("expected a processing decision, got {:?}", other),
    }
}

#[test]
fn end_to_end_example_produces_the_documented_target() {
    let allowed = default_allowed_extensions();
    let (dir_number, ext_lower) =
        match screen_file("IMG_1234.CR2", "100CANON", "DCIM", &allowed).unwrap() {
            ScreenDecision::Process {
                directory_number,
                extension_lower,
            } => (directory_number, extension_lower),
            other => panic!("expected a processing decision, got {:?}", other),
        };
    let t = finish_file(
        "dst-dir",
        "IMG_1234.CR2",
        dir_number,
        &ext_lower,
        "1234",
        "2020:05:01 10:00:00",
    )
    .unwrap();
    assert_eq!(t.path, "dst-dir/2020-05-01/2020-05-01_10-00-00_100-1234.cr2");
}

#[test]
fn allow_set_entries_match_case_insensitively_too() {
    let allowed = vec!["JPG".to_string(), "Cr2".to_string()];
    assert!(has_allowed_extension("a.jpg", &allowed));
    assert!(has_allowed_extension("a.JPG", &allowed));
    assert!(has_allowed_extension("b.cr2", &allowed));
    assert!(!has_allowed_extension("c.mp4", &allowed));
}

#[test]
fn malformed_timestamp_propagates_into_the_path() {
    // Timestamps are not validated: a malformed creation date yields a
    // malformed but deterministic target path rather than an error.
    let t = finish_file("dst-dir", "IMG_1234.CR2", 100, "cr2", "1234", "oops").unwrap();
    assert_eq!(t.path, "dst-dir/oops/oops_100-1234.cr2");
}

#[test]
fn copy_plan_state_machine() {
    assert_eq!(plan_copy(false, false), CopyOutcome::Copied);
    assert_eq!(plan_copy(false, true), CopyOutcome::Copied);
    assert_eq!(plan_copy(true, true), CopyOutcome::AlreadyDone);
    assert_eq!(plan_copy(true, false), CopyOutcome::Conflict);
}

#[test]
fn rerun_after_copy_is_already_done() {
    // First run: the destination is absent, so the file is copied.
    let first = plan_copy(false, false);
    assert_eq!(first, CopyOutcome::Copied);
    // Second run over the unchanged pair: the destination now exists and
    // holds exactly the source bytes, so nothing is copied again.
    let second = plan_copy(true, true);
    assert_eq!(second, CopyOutcome::AlreadyDone);
}

#[test]
fn differing_destination_is_a_conflict() {
    assert_eq!(plan_copy(true, false), CopyOutcome::Conflict);
}
