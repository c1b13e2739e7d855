use std::collections::BTreeMap;

use sha2::Digest;
use udv::config::HashAlgorithm;
use udv::orchestrator::{Action, AddErrorKind, AddOrchestrator, AddReport};

fn s2b(s: &str) -> Vec<u8> {
    s.as_bytes().to_vec()
}

fn b2s(b: &[u8]) -> String {
    String::from_utf8(b.to_vec()).unwrap()
}

fn sha256_hex(data: &[u8]) -> String {
    format!("{:x}", sha2::Sha256::digest(data))
}

/// A filesystem stand-in: regular files, cache objects, sidecars and
/// the ignore file, with knobs to make individual operations fail.
#[derive(Default)]
struct MemFs {
    files: BTreeMap<String, Vec<u8>>,
    dirs: Vec<String>,
    cache: BTreeMap<String, Vec<u8>>,
    sidecars: BTreeMap<String, Vec<u8>>,
    ignore: Option<Vec<u8>>,
    object_writes: usize,
    fail_reads: Vec<String>,
    fail_store_times: usize,
    fail_manifest: bool,
    fail_ignore_write: bool,
}

impl MemFs {
    fn is_dir(&self, path: &str) -> bool {
        let prefix = format!("{}/", path);
        self.dirs.iter().any(|d| d == path)
            || self.files.keys().any(|f| f.starts_with(&prefix))
    }

    fn path_exists(&self, path: &str) -> bool {
        self.files.contains_key(path) || self.is_dir(path)
    }

    fn walk(&self, dir: &str) -> Vec<Vec<u8>> {
        let prefix = format!("{}/", dir);
        self.files
            .keys()
            .filter(|f| f.starts_with(&prefix))
            .map(|f| s2b(f))
            .collect()
    }
}

/// Drives one add operation over the memory filesystem.
fn run_add(fs: &mut MemFs, target: &str) -> AddReport {
    let mut orch = AddOrchestrator::new(s2b(target), HashAlgorithm::SHA256);
    let mut action = orch.on_stat(fs.path_exists(target), fs.is_dir(target));
    loop {
        action = match action {
            Action::ListFiles { path } => {
                let listed = fs.walk(&b2s(&path));
                orch.on_listed(listed)
            }
            Action::ReadFile { path } => {
                let name = b2s(&path);
                if fs.fail_reads.iter().any(|p| p == &name) {
                    orch.on_file_read_failed()
                } else {
                    let data = fs.files.get(&name).cloned();
                    match data {
                        Some(d) => orch.on_file_bytes(d),
                        None => orch.on_file_read_failed(),
                    }
                }
            }
            Action::CheckObject { rel_path } => {
                let present = fs.cache.contains_key(&b2s(&rel_path));
                orch.on_object_checked(present)
            }
            Action::WriteObject { rel_path, data } => {
                if fs.fail_store_times > 0 {
                    fs.fail_store_times -= 1;
                    orch.on_store_result(false)
                } else {
                    fs.object_writes += 1;
                    fs.cache.insert(b2s(&rel_path), data);
                    orch.on_store_result(true)
                }
            }
            Action::WriteSidecar { path, data } => {
                if fs.fail_manifest {
                    orch.on_manifest_result(false)
                } else {
                    fs.sidecars.insert(b2s(&path), data);
                    orch.on_manifest_result(true)
                }
            }
            Action::ReadIgnore => {
                let content = fs.ignore.clone().unwrap_or_default();
                orch.on_ignore_content(content)
            }
            Action::WriteIgnore { data } => {
                if fs.fail_ignore_write {
                    orch.on_ignore_written(false)
                } else {
                    fs.ignore = Some(data);
                    orch.on_ignore_written(true)
                }
            }
            Action::Finish => break,
        };
    }
    orch.into_report()
}

fn sidecar_json(fs: &MemFs, path: &str) -> serde_json::Value {
    let raw = fs
        .sidecars
        .get(path)
        .unwrap_or_else(|| panic!("sidecar missing: {}", path));
    serde_json::from_slice(raw).expect("sidecar is not valid JSON")
}

fn ignore_text(fs: &MemFs) -> String {
    b2s(fs.ignore.as_deref().unwrap_or(b""))
}

#[test]
fn test_udv_add_single_file() {
    let mut fs = MemFs::default();
    fs.files.insert("test_file.txt".to_string(), s2b("Test content\n"));
    let report = run_add(&mut fs, "test_file.txt");
    assert!(report.ok, "udv add failed");

    let json = sidecar_json(&fs, "test_file.txt.dvc");
    assert_eq!(json["algo"], "sha256", "Incorrect hash algorithm in .dvc file");
    assert!(json["hash"].is_string(), "Hash is not a string in .dvc file");
    assert!(json["size_bytes"].is_u64(), "Size is not a u64 in .dvc file");

    let expected = sha256_hex(b"Test content\n");
    assert_eq!(json["hash"].as_str().unwrap(), expected);
    assert_eq!(json["size_bytes"].as_u64().unwrap(), 13);
    assert_eq!(json["path"].as_str().unwrap(), "test_file.txt");

    let cache_path = format!(".udv/cache/{}/{}", &expected[..2], &expected[2..]);
    assert_eq!(
        fs.cache.get(&cache_path).expect("cache object missing"),
        &s2b("Test content\n"),
        "cache object does not hold the original bytes"
    );
    assert!(
        ignore_text(&fs).contains("test_file.txt"),
        "File not added to .gitignore"
    );
}

#[test]
fn test_udv_add_nonexistent_file() {
    let mut fs = MemFs::default();
    let report = run_add(&mut fs, "nonexistent_file.txt");
    assert!(!report.ok, "udv add unexpectedly succeeded for non-existent file");
    assert!(matches!(report.error, Some(AddErrorKind::NotFound)));
    assert!(fs.cache.is_empty());
    assert!(fs.sidecars.is_empty());
    assert!(fs.ignore.is_none());
}

#[test]
fn test_udv_add_already_tracked_file() {
    let mut fs = MemFs::default();
    fs.files.insert("test_file.txt".to_string(), s2b("Test content\n"));
    let first = run_add(&mut fs, "test_file.txt");
    assert!(first.ok);
    let ignore_after_first = fs.ignore.clone();
    let second = run_add(&mut fs, "test_file.txt");
    assert!(second.ok, "udv add failed for already tracked file");
    assert_eq!(fs.object_writes, 1, "an unchanged file was written to the cache again");
    assert_eq!(fs.cache.len(), 1);
    assert_eq!(fs.ignore, ignore_after_first, "re-add duplicated the ignore entry");
}

#[test]
fn test_udv_add_directory() {
    let mut fs = MemFs::default();
    fs.files.insert("test_dir/file1.txt".to_string(), s2b("Content of file 1"));
    fs.files.insert(
        "test_dir/file2.txt".to_string(),
        s2b("Different content for file 2"),
    );
    fs.files.insert(
        "test_dir/sub_dir/file3.txt".to_string(),
        s2b("Unique content for file 3 in subdirectory"),
    );
    let report = run_add(&mut fs, "test_dir");
    assert!(report.ok, "udv add failed for directory");

    for (path, content) in [
        ("test_dir/file1.txt", "Content of file 1"),
        ("test_dir/file2.txt", "Different content for file 2"),
        (
            "test_dir/sub_dir/file3.txt",
            "Unique content for file 3 in subdirectory",
        ),
    ] {
        let json = sidecar_json(&fs, &format!("{}.dvc", path));
        assert_eq!(json["algo"], "sha256", "Incorrect hash algorithm in .dvc file");
        assert_eq!(json["hash"].as_str().unwrap(), sha256_hex(content.as_bytes()));
        assert_eq!(json["size_bytes"].as_u64().unwrap(), content.len() as u64);
    }

    let ignore = ignore_text(&fs);
    assert!(
        ignore.contains("test_dir/file1.txt")
            && ignore.contains("test_dir/file2.txt")
            && ignore.contains("test_dir/sub_dir/file3.txt"),
        "Not all files were added to .gitignore"
    );
}

#[test]
fn test_udv_add_directory_excludes_udv_folder() {
    let mut fs = MemFs::default();
    fs.files.insert("test_dir/file1.txt".to_string(), s2b("Content of file 1"));
    fs.files.insert(
        "test_dir/.udv/udv_file.txt".to_string(),
        s2b("This file should not be tracked"),
    );
    let report = run_add(&mut fs, "test_dir");
    assert!(report.ok, "udv add failed for directory");

    assert!(
        !fs.sidecars.contains_key("test_dir/.udv/udv_file.txt.dvc"),
        ".dvc file was incorrectly created for a file in the .udv folder"
    );
    let udv_hash = sha256_hex(b"This file should not be tracked");
    let udv_cache_path = format!(".udv/cache/{}/{}", &udv_hash[..2], &udv_hash[2..]);
    assert!(
        !fs.cache.contains_key(&udv_cache_path),
        "File from .udv folder was incorrectly cached"
    );
    let ignore = ignore_text(&fs);
    assert!(
        ignore.contains("test_dir/file1.txt"),
        "file1.txt was not added to .gitignore"
    );
    assert!(
        !ignore.contains("test_dir/.udv/udv_file.txt"),
        "File from .udv folder was incorrectly added to .gitignore"
    );
}

#[test]
fn test_nested_control_dir_yields_two_of_three() {
    let mut fs = MemFs::default();
    fs.files.insert("data/a.txt".to_string(), s2b("alpha"));
    fs.files.insert("data/b.txt".to_string(), s2b("beta"));
    fs.files.insert("data/sub/.udv/c.txt".to_string(), s2b("gamma"));
    let report = run_add(&mut fs, "data");
    assert!(report.ok);
    assert_eq!(fs.sidecars.len(), 2, "expected exactly two sidecars");
    assert_eq!(fs.cache.len(), 2, "expected exactly two cache objects");
    assert!(fs.sidecars.contains_key("data/a.txt.dvc"));
    assert!(fs.sidecars.contains_key("data/b.txt.dvc"));
}

#[test]
fn test_identical_content_deduplicates() {
    let mut fs = MemFs::default();
    fs.files.insert("data/x.bin".to_string(), s2b("same bytes"));
    fs.files.insert("data/y.bin".to_string(), s2b("same bytes"));
    let report = run_add(&mut fs, "data");
    assert!(report.ok);
    assert_eq!(fs.sidecars.len(), 2, "expected two sidecars");
    assert_eq!(fs.cache.len(), 1, "expected one shared cache object");
    let jx = sidecar_json(&fs, "data/x.bin.dvc");
    let jy = sidecar_json(&fs, "data/y.bin.dvc");
    assert_eq!(jx["hash"], jy["hash"], "both sidecars must reference the same identity");
    assert_eq!(jx["hash"].as_str().unwrap(), sha256_hex(b"same bytes"));
}

#[test]
fn test_single_file_read_failure_propagates() {
    let mut fs = MemFs::default();
    fs.files.insert("big.bin".to_string(), s2b("payload"));
    fs.fail_reads.push("big.bin".to_string());
    let report = run_add(&mut fs, "big.bin");
    assert!(!report.ok);
    assert!(matches!(report.error, Some(AddErrorKind::IoError)));
    assert_eq!(report.failures.len(), 1);
    assert!(fs.sidecars.is_empty());
}

#[test]
fn test_directory_continues_after_store_failure() {
    let mut fs = MemFs::default();
    fs.files.insert("d/a.txt".to_string(), s2b("first"));
    fs.files.insert("d/b.txt".to_string(), s2b("second"));
    fs.fail_store_times = 1;
    let report = run_add(&mut fs, "d");
    assert!(!report.ok);
    assert!(report.error.is_none(), "a directory add aggregates per-file failures");
    assert_eq!(report.failures.len(), 1);
    assert!(matches!(report.failures[0].kind, AddErrorKind::StoreWriteFailed));
    assert_eq!(report.completed.len(), 1, "the other file must still be tracked");
    assert_eq!(fs.sidecars.len(), 1);
}

#[test]
fn test_manifest_failure_leaves_cache_object() {
    let mut fs = MemFs::default();
    fs.files.insert("note.txt".to_string(), s2b("kept"));
    fs.fail_manifest = true;
    let report = run_add(&mut fs, "note.txt");
    assert!(!report.ok);
    assert!(matches!(report.error, Some(AddErrorKind::ManifestWriteFailed)));
    assert_eq!(fs.cache.len(), 1, "the committed cache object stays in place");
    assert!(fs.sidecars.is_empty());
}

#[test]
fn test_ignore_write_failure_is_io_error() {
    let mut fs = MemFs::default();
    fs.files.insert("note.txt".to_string(), s2b("kept"));
    fs.fail_ignore_write = true;
    let report = run_add(&mut fs, "note.txt");
    assert!(!report.ok);
    assert!(matches!(report.error, Some(AddErrorKind::IoError)));
}
