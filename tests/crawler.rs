use folder_crawler::file_size::PB_LIMIT;
use folder_crawler::{
    filter_out, list_items, partition, scan_mode, worker_count, EntryFilter, FileError, FileMeta,
    FileSize, Folder, PathProbe, ScanMode,
};

fn dir_probe() -> PathProbe {
    PathProbe { is_dir: true, is_file: false, exists: Some(true), listable: true }
}

fn strings(v: &[&str]) -> Vec<String> {
    v.iter().map(|s| s.to_string()).collect()
}

#[test]
fn classify_boundary_table() {
    let table: [(u64, Option<FileSize>); 16] = [
        (0, Some(FileSize::B)),
        (1023, Some(FileSize::B)),
        (1024, Some(FileSize::KB)),
        (1048575, Some(FileSize::KB)),
        (1048576, Some(FileSize::MB)),
        (1073741823, Some(FileSize::MB)),
        (1073741824, Some(FileSize::GB)),
        (1099511627775, Some(FileSize::GB)),
        (1099511627776, Some(FileSize::TB)),
        (1125899906842623, Some(FileSize::TB)),
        (1125899906842624, Some(FileSize::PB)),
        (PB_LIMIT - 1, Some(FileSize::PB)),
        (PB_LIMIT, None),
        (PB_LIMIT + 1, None),
        (u64::MAX, None),
        (500, Some(FileSize::B)),
    ];
    for (bytes, unit) in table {
        assert_eq!(FileSize::from(bytes), unit, "bytes {}", bytes);
    }
}

#[test]
fn classify_is_total_below_ceiling() {
    let mut b: u64 = 1;
    while b < PB_LIMIT {
        for v in [b - 1, b, b + 1] {
            let u = FileSize::from(v);
            assert!(u.is_some());
            assert_ne!(u, Some(FileSize::Unbounded));
        }
        b = b.saturating_mul(3);
    }
    assert_eq!(FileSize::from(PB_LIMIT), None);
}

#[test]
fn magnitude_truncates() {
    assert_eq!(FileSize::KB.sizer(1535), Some(1));
    assert_eq!(FileSize::KB.sizer(1500), Some(1));
    assert_eq!(FileSize::B.sizer(2000), Some(2000));
    assert_eq!(FileSize::MB.sizer(3 * 1048576 + 5), Some(3));
    assert_eq!(FileSize::GB.sizer(1073741824 * 7 - 1), Some(6));
    assert_eq!(FileSize::PB.sizer(1125899906842624 * 2), Some(2));
    assert_eq!(FileSize::Unbounded.sizer(1535), None);
}

#[test]
fn unit_labels_and_parsing() {
    assert_eq!(FileSize::KB.label(), "kb");
    assert_eq!(FileSize::Unbounded.label(), "unbounded");
    assert_eq!(FileSize::parse("kb").ok(), Some(FileSize::KB));
    assert_eq!(FileSize::parse("PB").ok(), Some(FileSize::PB));
    assert_eq!(FileSize::parse("Unbounded").ok(), Some(FileSize::Unbounded));
    assert_eq!("b".parse::<FileSize>().ok(), Some(FileSize::B));
    let err = FileSize::parse("kbx").err().unwrap();
    assert_eq!(err.message(), "Failed to convert kbx to a valid file size");
    assert!("".parse::<FileSize>().is_err());
}

#[test]
fn unit_names_ignore_case() {
    assert_eq!(FileSize::parse("Kb").ok(), Some(FileSize::KB));
    assert_eq!("mB".parse::<FileSize>().ok(), Some(FileSize::MB));
    assert_eq!("uNbOuNdEd".parse::<FileSize>().ok(), Some(FileSize::Unbounded));
    for u in [FileSize::B, FileSize::KB, FileSize::MB, FileSize::GB, FileSize::TB, FileSize::PB] {
        assert_eq!(u.label().parse::<FileSize>().ok(), Some(u));
        assert_eq!(u.label().to_uppercase().parse::<FileSize>().ok(), Some(u));
    }
    match "Gbz".parse::<FileSize>() {
        Err(e) => assert_eq!(e.0, "Gbz"),
        Ok(u) => panic!("unexpected {:?}", u),
    }
}

#[test]
fn permission_decode_table() {
    assert_eq!(Folder::change_permissions(0o755), "rwxr-xr-x");
    assert_eq!(Folder::change_permissions(0o100644), "rw-r--r--");
    assert_eq!(Folder::change_permissions(0o40700), "rwx------");
    assert_eq!(Folder::change_permissions(0o100), "--x------");
    assert_eq!(Folder::change_permissions(0), "---------");
    assert_eq!(Folder::change_permissions(0o77), "---------");
}

#[test]
fn exclusion_is_a_textual_prefix() {
    let kept = filter_out(strings(&["/a/b", "/a/bc", "/x"]), "/a/b".to_string());
    assert_eq!(kept, strings(&["/x"]));
}

#[test]
fn empty_exclusion_keeps_everything() {
    let all = strings(&["/a/b", "/a/bc", "/x"]);
    assert_eq!(filter_out(all.clone(), String::new()), all);
}

#[test]
fn path_validation_errors() {
    let file = PathProbe { is_dir: false, is_file: true, exists: Some(true), listable: false };
    match Folder::check_path(&"/etc/hosts".to_string(), file) {
        Err(FileError::NotAFolder(p)) => assert_eq!(p, "/etc/hosts"),
        other => panic!("unexpected {:?}", other),
    }
    let missing = PathProbe { is_dir: false, is_file: false, exists: Some(false), listable: false };
    let e = Folder::check_path(&"/nope".to_string(), missing).err().unwrap();
    assert!(matches!(e, FileError::FileNotFound(_)));
    assert_eq!(e.message(), "Folder /nope is invalid or missing\n");
    let locked = PathProbe { is_dir: true, is_file: false, exists: Some(true), listable: false };
    let e = Folder::check_path(&"/root".to_string(), locked).err().unwrap();
    assert!(matches!(e, FileError::PermissionError(_)));
    assert_eq!(e.message(), "Invalid permissions to enumerate of this folder /root\n");
    let e = FileError::NotAFolder("/f".to_string());
    assert_eq!(e.message(), "/f is not a directory\n");
    assert!(Folder::check_path(&"/tmp".to_string(), dir_probe()).is_ok());
}

#[test]
fn change_directory_moves_only_on_success() {
    let mut f = Folder::new("/home".to_string());
    assert!(f.change_directory("/tmp".to_string(), dir_probe()).is_ok());
    assert_eq!(f.get_current_path(), "/tmp");
    let missing = PathProbe { is_dir: false, is_file: false, exists: Some(false), listable: false };
    assert!(f.change_directory("/nope".to_string(), missing).is_err());
    assert_eq!(f.get_current_path(), "/tmp");
}

#[test]
fn shallow_crawl_lists_immediate_entries() {
    let f = Folder::new("/d".to_string());
    let listing = vec![Some("/d/a".to_string()), Some("/d/b".to_string()), Some("/d/sub".to_string())];
    let got = f.crawl_folder(dir_probe(), listing).unwrap();
    assert_eq!(got, strings(&["/d/a", "/d/b", "/d/sub"]));
}

#[test]
fn shallow_crawl_skips_unreadable_entries() {
    let f = Folder::new("/d".to_string());
    let listing = vec![Some("/d/a".to_string()), None, Some("/d/sub".to_string())];
    assert_eq!(f.crawl_folder(dir_probe(), listing).unwrap(), strings(&["/d/a", "/d/sub"]));
    let file = PathProbe { is_dir: false, is_file: true, exists: Some(true), listable: false };
    assert!(matches!(f.crawl_folder(file, vec![]), Err(FileError::NotAFolder(_))));
}

#[test]
fn recursive_crawl_includes_subdirectory_children() {
    let f = Folder::new("/d".to_string());
    let walk = vec![
        Some("/d".to_string()),
        Some("/d/a".to_string()),
        Some("/d/b".to_string()),
        Some("/d/sub".to_string()),
        Some("/d/sub/c".to_string()),
    ];
    let got = f.crawl_folder_rec(&"/d".to_string(), dir_probe(), walk).unwrap();
    assert_eq!(got, strings(&["/d", "/d/a", "/d/b", "/d/sub", "/d/sub/c"]));
}

#[test]
fn crawl_root_validates_the_root() {
    let f = Folder::new("/home".to_string());
    let got = f.crawl_root(dir_probe(), vec![Some("/bin".to_string())]).unwrap();
    assert_eq!(got, strings(&["/bin"]));
    let locked = PathProbe { is_dir: true, is_file: false, exists: Some(true), listable: false };
    match f.crawl_root(locked, vec![]) {
        Err(FileError::PermissionError(p)) => assert_eq!(p, "/"),
        other => panic!("unexpected {:?}", other),
    }
}

fn meta(path: &str, len: u64, mode: u32) -> FileMeta {
    FileMeta { path: path.to_string(), len, mode }
}

#[test]
fn end_to_end_three_files() {
    let mut folder = Folder::new("/r".to_string());
    let entries = folder.find_size(vec![
        meta("/r/a", 500, 0o100644),
        meta("/r/b", 2000, 0o100600),
        meta("/r/c", 2_000_000, 0o100755),
    ]);
    let units: Vec<FileSize> = entries.iter().map(|e| e.0).collect();
    assert_eq!(units, vec![FileSize::B, FileSize::KB, FileSize::MB]);
    let lines = list_items(0, FileSize::Unbounded, &mut folder, entries);
    assert_eq!(
        lines,
        strings(&["500b\trw-r--r--\t/r/a", "1kb\trw-------\t/r/b", "1mb\trwxr-xr-x\t/r/c"])
    );
    assert_eq!(folder.file_count(), 3);
    assert_eq!(folder.summary(), Some("Scanned 3 files in total".to_string()));
}

#[test]
fn unclassifiable_sizes_are_left_out() {
    let folder = Folder::new("/r".to_string());
    let entries = folder.find_size(vec![meta("/r/huge", PB_LIMIT, 0o100644), meta("/r/z", 0, 0o644)]);
    assert_eq!(entries.len(), 1);
    assert_eq!(entries[0], (FileSize::B, "0b\trw-r--r--\t/r/z".to_string(), 0));
}

#[test]
fn report_filters_by_unit_and_minimum() {
    let mut folder = Folder::new("/r".to_string());
    let entries = folder.find_size(vec![
        meta("/r/a", 5000, 0o100644),
        meta("/r/b", 1500, 0o100644),
        meta("/r/c", 700, 0o100644),
    ]);
    let lines = list_items(2, FileSize::KB, &mut folder, entries.clone());
    assert_eq!(lines, strings(&["4kb\trw-r--r--\t/r/a"]));
    assert_eq!(folder.file_count(), 1);
    let lines = folder.list_folder_items(0, entries, EntryFilter::SameUnit(FileSize::B));
    assert_eq!(lines, strings(&["700b\trw-r--r--\t/r/c"]));
    assert_eq!(folder.summary(), Some("Scanned 2 files in total".to_string()));
}

#[test]
fn no_summary_without_entries() {
    let mut folder = Folder::new("/r".to_string());
    assert_eq!(list_items(0, FileSize::Unbounded, &mut folder, vec![]), Vec::<String>::new());
    assert_eq!(folder.summary(), None);
}

#[test]
fn fan_out_yields_the_single_pass_paths() {
    let all: Vec<String> = (0..23).map(|i| format!("/p{}/f{}", i % 4, i)).collect();
    let single = filter_out(all.clone(), "/p1".to_string());
    for workers in 1..10usize {
        let batches = partition(all.clone(), workers);
        assert_eq!(batches.len(), workers);
        let mut merged: Vec<String> = Vec::new();
        for b in batches.into_iter().rev() {
            merged.extend(filter_out(b, "/p1".to_string()));
        }
        let mut expected = single.clone();
        merged.sort();
        expected.sort();
        assert_eq!(merged, expected, "workers {}", workers);
    }
}

#[test]
fn partition_widths() {
    let all = strings(&["a", "b", "c", "d", "e"]);
    let batches = partition(all.clone(), 2);
    assert_eq!(batches, vec![strings(&["a", "b", "c"]), strings(&["d", "e"])]);
    let batches = partition(all.clone(), 4);
    assert_eq!(
        batches,
        vec![strings(&["a", "b"]), strings(&["c", "d"]), strings(&["e"]), vec![]]
    );
    let batches = partition(vec![], 3);
    assert_eq!(batches, vec![Vec::<String>::new(), vec![], vec![]]);
}

#[test]
fn scan_modes_and_workers() {
    assert_eq!(scan_mode(&"/".to_string(), true), ScanMode::RootFanOut);
    assert_eq!(scan_mode(&"/".to_string(), false), ScanMode::Shallow);
    assert_eq!(scan_mode(&"/tmp".to_string(), true), ScanMode::Recursive);
    assert_eq!(worker_count(Some(4)), 4);
    assert_eq!(worker_count(None), 8);
    assert_eq!(worker_count(Some(0)), 8);
}
