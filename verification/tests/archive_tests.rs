use std::io::Write;

use browser_manager::archive::{extract_plan, sanitize_entry_name};
use browser_manager::errors::ArchiveError;

#[test]
fn unpack_zip_file_wont_exist() {
    let result = extract_plan("file_wont_exist", None);
    match result {
        Ok(_) => assert_ne!(
            1, 2,
            "Should not have got an Ok on a file that doesn't exist"
        ),
        Err(e) => assert!(matches!(e, ArchiveError::NotFound)),
    }
}

#[test]
fn unpack_zip_file_not_zip() {
    let result = extract_plan("cheese.txt", Some(b"Hello, world!".to_vec()));
    match result {
        Ok(_) => assert_ne!(
            1, 2,
            "Should not have got an Ok on a file that doesn't exist"
        ),
        Err(e) => assert!(matches!(e, ArchiveError::Other)),
    }
}

#[test]
fn invalid_tarball_is_a_distinct_error() {
    let result = extract_plan("cheese.tar.gz", Some(b"Hello, world!".to_vec()));
    match result {
        Ok(_) => panic!("plain text is not a gzip stream"),
        Err(e) => assert!(matches!(e, ArchiveError::UnsupportedFormat)),
    }
}

fn zip_bytes(entries: &[(&str, &[u8], Option<u32>)]) -> Vec<u8> {
    let mut writer = zip::ZipWriter::new(std::io::Cursor::new(Vec::new()));
    for (name, data, mode) in entries {
        let mut options = zip::write::SimpleFileOptions::default();
        if let Some(mode) = mode {
            options = options.unix_permissions(*mode);
        }
        writer.start_file(*name, options).unwrap();
        writer.write_all(data).unwrap();
    }
    writer.finish().unwrap().into_inner()
}

#[test]
fn zip_entries_are_planned_in_order() {
    let bytes = zip_bytes(&[
        ("chromedriver", b"pretend binary", Some(0o755)),
        ("notes/readme.txt", b"hello", None),
    ]);
    let plan = extract_plan("chromedriver_linux64.zip", Some(bytes)).unwrap();
    assert_eq!(plan.len(), 2);
    assert!(!plan[0].is_dir);
    assert_eq!(plan[0].path, "chromedriver");
    assert_eq!(plan[0].data, b"pretend binary".to_vec());
    assert_eq!(plan[0].mode, Some(0o100755));
    assert_eq!(plan[1].path, "notes/readme.txt");
    assert_eq!(plan[1].data, b"hello".to_vec());
}

#[test]
fn zip_directory_entries_are_recreated() {
    let mut writer = zip::ZipWriter::new(std::io::Cursor::new(Vec::new()));
    writer
        .add_directory("sub", zip::write::SimpleFileOptions::default())
        .unwrap();
    writer
        .start_file("sub/file.txt", zip::write::SimpleFileOptions::default())
        .unwrap();
    writer.write_all(b"inside").unwrap();
    let bytes = writer.finish().unwrap().into_inner();

    let plan = extract_plan("driver.zip", Some(bytes)).unwrap();
    assert_eq!(plan.len(), 2);
    assert!(plan[0].is_dir);
    assert_eq!(plan[0].path, "sub");
    assert!(plan[0].data.is_empty());
    assert!(!plan[1].is_dir);
    assert_eq!(plan[1].path, "sub/file.txt");
    assert_eq!(plan[1].data, b"inside".to_vec());
}

#[test]
fn traversal_components_are_dropped_from_zip_entries() {
    let bytes = zip_bytes(&[("../evil.txt", b"payload", None)]);
    let plan = extract_plan("driver.zip", Some(bytes)).unwrap();
    assert_eq!(plan.len(), 1);
    assert_eq!(plan[0].path, "evil.txt");
}

#[test]
fn tarball_entries_are_planned() {
    let mut header = tar::Header::new_gnu();
    let data: &[u8] = b"pretend driver";
    header.set_size(data.len() as u64);
    header.set_mode(0o755);
    header.set_cksum();
    let mut builder = tar::Builder::new(Vec::new());
    builder.append_data(&mut header, "geckodriver", data).unwrap();
    let tar_bytes = builder.into_inner().unwrap();

    let mut encoder =
        flate2::write::GzEncoder::new(Vec::new(), flate2::Compression::default());
    encoder.write_all(&tar_bytes).unwrap();
    let gz_bytes = encoder.finish().unwrap();

    let plan = extract_plan("geckodriver-v0.33.0-linux64.tar.gz", Some(gz_bytes)).unwrap();
    assert_eq!(plan.len(), 1);
    assert!(!plan[0].is_dir);
    assert_eq!(plan[0].path, "geckodriver");
    assert_eq!(plan[0].mode, Some(0o755));
    assert_eq!(plan[0].data, b"pretend driver".to_vec());
}

#[test]
fn gzip_with_truncated_tar_is_unsupported() {
    let mut encoder =
        flate2::write::GzEncoder::new(Vec::new(), flate2::Compression::default());
    encoder.write_all(b"not a tar stream, far too short").unwrap();
    let gz_bytes = encoder.finish().unwrap();
    match extract_plan("thing.tar.gz", Some(gz_bytes)) {
        Ok(plan) => assert!(plan.is_empty(), "a short stream holds no entries"),
        Err(e) => assert!(matches!(e, ArchiveError::UnsupportedFormat)),
    }
}

#[test]
fn sanitize_drops_unsafe_components() {
    assert_eq!(sanitize_entry_name("../evil"), "evil");
    assert_eq!(sanitize_entry_name("/etc/passwd"), "etc/passwd");
    assert_eq!(sanitize_entry_name("a/./b//c"), "a/b/c");
    assert_eq!(sanitize_entry_name("a/../../b"), "a/b");
    assert_eq!(sanitize_entry_name(".."), "");
    assert_eq!(sanitize_entry_name("plain.txt"), "plain.txt");
}
