use chrono::{NaiveDate, NaiveDateTime};
use ps2_filetypes::{PSUEntryKind, PSUFile, DIR_ID, FILE_ID, PAGE_SIZE, PSU};

fn stamp(h: u32) -> NaiveDateTime {
    NaiveDate::from_ymd_opt(2024, 3, 9).unwrap().and_hms_opt(h, 5, 6).unwrap()
}

#[test]
fn constants() {
    assert_eq!(DIR_ID, 0x8427);
    assert_eq!(FILE_ID, 0x8497);
    assert_eq!(PAGE_SIZE, 1024);
}

#[test]
fn kind_words() {
    assert_eq!(PSUEntryKind::Directory.to_string(), "directory");
    assert_eq!(PSUEntryKind::File.to_string(), "file");
}

#[test]
fn default_archive_is_empty() {
    assert_eq!(PSU::default().entries.len(), 0);
}

#[test]
fn add_defaults_adds_directory_dot_and_dot_dot() {
    let mut psu = PSU::default();
    psu.add_defaults("BASLUS-12345", 3, stamp(1));
    assert_eq!(psu.entries.len(), 3);
    let names: Vec<&str> = psu.entries.iter().map(|e| e.name.as_str()).collect();
    assert_eq!(names, vec!["BASLUS-12345", ".", ".."]);
    assert_eq!(psu.entries[0].size, 5);
    assert_eq!(psu.entries[1].size, 0);
    assert_eq!(psu.entries[2].size, 0);
    for e in &psu.entries {
        assert_eq!(e.id, DIR_ID);
        assert_eq!(e.sector, 0);
        assert_eq!(e.created, stamp(1));
        assert_eq!(e.modified, stamp(1));
        assert!(matches!(e.kind, PSUEntryKind::Directory));
        assert!(e.contents.is_none());
    }
}

#[test]
fn with_files_lists_files_after_the_directory() {
    let files = vec![
        PSUFile { name: "a.bin".to_string(), contents: vec![1, 2, 3], created: stamp(2), modified: stamp(3) },
        PSUFile { name: "b".to_string(), contents: Vec::new(), created: stamp(4), modified: stamp(5) },
    ];
    let psu = PSU::with_files("SAVE", None, stamp(1), files);
    assert_eq!(psu.entries.len(), 5);
    assert_eq!(psu.entries[0].name, "SAVE");
    assert_eq!(psu.entries[0].size, 4);
    let a = &psu.entries[3];
    assert_eq!(a.id, FILE_ID);
    assert_eq!(a.name, "a.bin");
    assert_eq!(a.size, 3);
    assert_eq!(a.created, stamp(2));
    assert_eq!(a.modified, stamp(3));
    assert_eq!(a.contents, Some(vec![1, 2, 3]));
    assert!(matches!(a.kind, PSUEntryKind::File));
    assert_eq!(psu.entries[4].name, "b");
    assert_eq!(psu.entries[4].size, 0);
}

#[test]
fn listing_of_an_empty_archive_is_the_heading() {
    let expected = format!(
        "{:12}| {:16}| {:9}| {:25}| {:25}\n{:-<99}",
        "Type", "Name", "Size", "Created", "Modified", ""
    );
    assert_eq!(PSU::default().to_string(), expected);
}

#[test]
fn listing_has_a_line_per_entry() {
    let mut psu = PSU::default();
    psu.add_defaults("SAVE", 1, stamp(7));
    psu.add_file(PSUFile { name: "data".to_string(), contents: vec![0; 1234], created: stamp(8), modified: stamp(9) });
    let text = psu.to_string();
    let lines: Vec<&str> = text.split('\n').collect();
    assert_eq!(lines.len(), 6);
    assert_eq!(lines[1], "-".repeat(99));
    assert_eq!(
        lines[2],
        "directory   | SAVE            |         3| 2024-03-09 07:05:06      | 2024-03-09 07:05:06      "
    );
    assert_eq!(
        lines[5],
        "file        | data            |      1234| 2024-03-09 08:05:06      | 2024-03-09 09:05:06      "
    );
}

#[test]
fn listing_keeps_long_names_whole() {
    let mut psu = PSU::default();
    psu.add_defaults("A_VERY_LONG_SAVE_NAME", 0, stamp(0));
    let text = psu.to_string();
    assert!(text.contains("\ndirectory   | A_VERY_LONG_SAVE_NAME| "));
}

#[test]
fn given_timestamp_is_applied_to_every_entry() {
    let files = vec![PSUFile { name: "a".to_string(), contents: vec![9], created: stamp(2), modified: stamp(3) }];
    let psu = PSU::with_files("SAVE", Some(stamp(11)), stamp(1), files);
    assert_eq!(psu.entries.len(), 4);
    for e in &psu.entries {
        assert_eq!(e.created, stamp(11));
        assert_eq!(e.modified, stamp(11));
    }
}
