use nextest_archiver::format::ends_with;
use nextest_archiver::paths::to_forward_slash;
use nextest_archiver::{
    plan_entries, try_plan_entries, ArchiveAction, ArchiveFormat, ArchiveManifest, Archiver,
    CompressionSettings, DirChild, PlannedEntry,
};
use std::collections::HashMap;

#[test]
fn test_archive_format_autodetect() {
    assert_eq!(
        ArchiveFormat::autodetect("foo.tar.zst".as_ref()).unwrap(),
        ArchiveFormat::TarZst,
    );
    assert_eq!(
        ArchiveFormat::autodetect("foo/bar.tar.zst".as_ref()).unwrap(),
        ArchiveFormat::TarZst,
    );
    ArchiveFormat::autodetect("foo".as_ref()).unwrap_err();
    ArchiveFormat::autodetect("/".as_ref()).unwrap_err();
}

#[test]
fn autodetect_rejects_empty_path() {
    let err = ArchiveFormat::autodetect("").unwrap_err();
    assert_eq!(err.file_name, "");
}

#[test]
fn autodetect_error_carries_file_name_only() {
    let err = ArchiveFormat::autodetect("out/dir/archive.tar.gz").unwrap_err();
    assert_eq!(err.file_name, "archive.tar.gz");
}

#[test]
fn autodetect_looks_at_final_component() {
    // The suffix is on a directory, not on the file name.
    let err = ArchiveFormat::autodetect("a.tar.zst/b").unwrap_err();
    assert_eq!(err.file_name, "b");
}

#[test]
fn autodetect_file_name_matches_suffix_only() {
    assert_eq!(ArchiveFormat::autodetect_file_name("x.tar.zst").unwrap(), ArchiveFormat::TarZst);
    assert_eq!(ArchiveFormat::autodetect_file_name(".tar.zst").unwrap(), ArchiveFormat::TarZst);
    let err = ArchiveFormat::autodetect_file_name("tar.zst").unwrap_err();
    assert_eq!(err.file_name, "tar.zst");
    assert!(ArchiveFormat::autodetect_file_name("x.tar.zst.bak").is_err());
    assert!(ArchiveFormat::autodetect_file_name("").is_err());
}

#[test]
fn every_registered_suffix_is_detected() {
    let formats = ArchiveFormat::supported_formats();
    assert_eq!(formats, vec![(".tar.zst", ArchiveFormat::TarZst)]);
    for (suffix, format) in formats {
        let name = format!("some-archive{suffix}");
        assert_eq!(ArchiveFormat::autodetect_file_name(&name).unwrap(), format);
    }
}

#[test]
fn ends_with_compares_characters() {
    assert!(ends_with("abc", "bc"));
    assert!(ends_with("abc", ""));
    assert!(ends_with("é.zst", ".zst"));
    assert!(!ends_with("bc", "abc"));
    assert!(!ends_with("abd", "bc"));
}

#[test]
fn forward_slash_rewrites_host_separator() {
    assert_eq!(to_forward_slash("debug\\deps\\foo", '\\'), "debug/deps/foo");
    assert_eq!(to_forward_slash("debug/deps/foo", '\\'), "debug/deps/foo");
    assert_eq!(to_forward_slash("a\\b/c", '/'), "a\\b/c");
    assert_eq!(to_forward_slash("", '\\'), "");
}

fn manifest(
    target: &str,
    tests: &[&str],
    non_tests: &[&str],
    linked: &[&str],
) -> ArchiveManifest {
    ArchiveManifest {
        binaries_metadata: "{\n  \"rust-binaries\": {}\n}".to_owned(),
        cargo_metadata: "{\"packages\":[]}".to_owned(),
        target_directory: target.to_owned(),
        test_binaries: tests.iter().map(|s| s.to_string()).collect(),
        non_test_binaries: non_tests.iter().map(|s| s.to_string()).collect(),
        linked_paths: linked.iter().map(|s| s.to_string()).collect(),
    }
}

fn memory(name: &str, contents: &str) -> PlannedEntry {
    PlannedEntry::Memory { name: name.to_owned(), contents: contents.to_owned() }
}

#[test]
fn plan_for_single_primary_binary() {
    let m = manifest("build", &["build/debug/mytest"], &[], &[]);
    let entries = plan_entries(&m, '/');
    assert_eq!(
        entries,
        vec![
            memory("target/nextest/binaries-metadata.json", &m.binaries_metadata),
            memory("target/nextest/cargo-metadata.json", &m.cargo_metadata),
            PlannedEntry::File {
                src: "build/debug/mytest".to_owned(),
                dest: "build/debug/mytest".to_owned(),
                remap: false,
            },
        ]
    );
    let mut archiver = Archiver::new(entries, 0, '/');
    let (written, count) = run(&mut archiver, &FakeFs { nodes: HashMap::new() });
    assert_eq!(count, 3);
    let dests: Vec<String> = written.iter().map(dest_of).collect();
    assert_eq!(
        dests,
        vec![
            "target/nextest/binaries-metadata.json",
            "target/nextest/cargo-metadata.json",
            "build/debug/mytest",
        ]
    );
}

#[test]
fn plan_orders_all_kinds_of_entries() {
    let m = manifest(
        "/work/target",
        &["/work/target/debug/deps/a-123", "/work/target/release/b"],
        &["debug/helper"],
        &["debug/build/out"],
    );
    let entries = plan_entries(&m, '/');
    assert_eq!(
        entries,
        vec![
            memory("target/nextest/binaries-metadata.json", &m.binaries_metadata),
            memory("target/nextest/cargo-metadata.json", &m.cargo_metadata),
            PlannedEntry::File {
                src: "/work/target/debug/deps/a-123".to_owned(),
                dest: "target/debug/deps/a-123".to_owned(),
                remap: false,
            },
            PlannedEntry::File {
                src: "/work/target/release/b".to_owned(),
                dest: "target/release/b".to_owned(),
                remap: false,
            },
            PlannedEntry::File {
                src: "/work/target/debug/helper".to_owned(),
                dest: "target/debug/helper".to_owned(),
                remap: true,
            },
            PlannedEntry::Tree {
                src: "/work/target/debug/build/out".to_owned(),
                dest: "target/debug/build/out".to_owned(),
                follow_symlinks: true,
            },
        ]
    );
}

#[test]
fn plan_with_backslash_host_separator_writes_forward_slashes() {
    let m = manifest("/work/target", &[], &["debug\\helper"], &["debug\\out"]);
    let entries = plan_entries(&m, '\\');
    match &entries[2] {
        PlannedEntry::File { dest, .. } => assert_eq!(dest, "target/debug/helper"),
        other => panic!("unexpected entry {other:?}"),
    }
    match &entries[3] {
        PlannedEntry::Tree { dest, .. } => assert_eq!(dest, "target/debug/out"),
        other => panic!("unexpected entry {other:?}"),
    }
}

#[test]
fn plan_of_empty_manifest_holds_metadata_only() {
    let m = manifest("/work/target", &[], &[], &[]);
    let entries = try_plan_entries(&m, '/').unwrap();
    assert_eq!(
        entries,
        vec![memory("target/nextest/binaries-metadata.json", &m.binaries_metadata), memory("target/nextest/cargo-metadata.json", &m.cargo_metadata)]
    );
}

#[test]
fn plan_refuses_binary_outside_build_root() {
    let m = manifest("/work/target", &["/elsewhere/foo"], &[], &[]);
    assert!(try_plan_entries(&m, '/').is_none());
}

#[test]
fn plan_refuses_build_root_without_parent() {
    let m = manifest("/", &["/foo"], &[], &[]);
    assert!(try_plan_entries(&m, '/').is_none());
}

#[test]
fn plan_accepts_binaries_within_build_root() {
    let m = manifest("/work/target", &["/work/target/debug/t"], &["x"], &[]);
    assert_eq!(try_plan_entries(&m, '/').unwrap(), plan_entries(&m, '/'));
}

#[derive(Clone)]
enum Node {
    File,
    Dir(Vec<&'static str>),
    SymlinkToDir(&'static str),
    SymlinkToFile,
}

struct FakeFs {
    nodes: HashMap<String, Node>,
}

impl FakeFs {
    fn resolve(&self, path: &str) -> Node {
        match &self.nodes[path] {
            Node::SymlinkToDir(target) => self.resolve(target),
            other => other.clone(),
        }
    }

    fn list(&self, path: &str) -> Vec<DirChild> {
        let Node::Dir(names) = self.resolve(path) else { panic!("{path} is not a directory") };
        names
            .iter()
            .map(|name| {
                let child = format!("{path}/{name}");
                let node = &self.nodes[&child];
                DirChild {
                    path: child.clone(),
                    name: name.to_string(),
                    is_dir: matches!(node, Node::Dir(_)),
                    is_symlink: matches!(node, Node::SymlinkToDir(_) | Node::SymlinkToFile),
                }
            })
            .collect()
    }
}

/// Carries out every action against the fake filesystem; returns the
/// actions that wrote entries, and the final count.
fn run(archiver: &mut Archiver, fs: &FakeFs) -> (Vec<ArchiveAction>, usize) {
    let mut written = Vec::new();
    let mut action = archiver.start();
    loop {
        action = match action {
            ArchiveAction::AppendMemory { .. } | ArchiveAction::AppendFile { .. } => {
                written.push(action.clone());
                archiver.appended()
            }
            ArchiveAction::ListDir { path, .. } => archiver.listed(fs.list(&path)),
            ArchiveAction::ProbeDir { path } => {
                archiver.probed(matches!(fs.resolve(&path), Node::Dir(_)))
            }
            ArchiveAction::Finished { file_count } => return (written, file_count),
        };
    }
}

fn dest_of(action: &ArchiveAction) -> String {
    match action {
        ArchiveAction::AppendMemory { name, .. } => name.clone(),
        ArchiveAction::AppendFile { dest, .. } => dest.clone(),
        other => panic!("not a write: {other:?}"),
    }
}

fn sample_fs() -> FakeFs {
    let mut nodes = HashMap::new();
    nodes.insert("/work/target/debug/out".to_owned(), Node::Dir(vec!["a.txt", "sub", "link", "flink"]));
    nodes.insert("/work/target/debug/out/a.txt".to_owned(), Node::File);
    nodes.insert("/work/target/debug/out/sub".to_owned(), Node::Dir(vec!["b.bin"]));
    nodes.insert("/work/target/debug/out/sub/b.bin".to_owned(), Node::File);
    nodes.insert("/work/target/debug/out/link".to_owned(), Node::SymlinkToDir("/data"));
    nodes.insert("/work/target/debug/out/flink".to_owned(), Node::SymlinkToFile);
    nodes.insert("/data".to_owned(), Node::Dir(vec!["c", "d"]));
    nodes.insert("/work/target/debug/out/link/c".to_owned(), Node::File);
    nodes.insert("/work/target/debug/out/link/d".to_owned(), Node::File);
    FakeFs { nodes }
}

#[test]
fn run_counts_every_entry() {
    let m = manifest(
        "/work/target",
        &["/work/target/debug/t1", "/work/target/debug/t2"],
        &["debug/helper"],
        &["debug/out"],
    );
    let mut archiver = Archiver::new(plan_entries(&m, '/'), 1_700_000_000, '/');
    let (written, count) = run(&mut archiver, &sample_fs());
    // 2 metadata entries + 2 primary + 1 secondary + 5 files below the linked path.
    assert_eq!(count, 10);
    assert_eq!(written.len(), 10);
    assert_eq!(archiver.file_count(), 10);
}

#[test]
fn run_writes_metadata_first_with_fixed_stamp() {
    let m = manifest("/work/target", &["/work/target/debug/t1"], &[], &["debug/out"]);
    let mut archiver = Archiver::new(plan_entries(&m, '/'), 42, '/');
    let (written, _) = run(&mut archiver, &sample_fs());
    assert_eq!(
        written[0],
        ArchiveAction::AppendMemory {
            name: "target/nextest/binaries-metadata.json".to_owned(),
            contents: m.binaries_metadata.clone(),
            mtime: 42,
            mode: 0o664,
        }
    );
    assert_eq!(
        written[1],
        ArchiveAction::AppendMemory {
            name: "target/nextest/cargo-metadata.json".to_owned(),
            contents: m.cargo_metadata.clone(),
            mtime: 42,
            mode: 0o664,
        }
    );
    assert_eq!(dest_of(&written[2]), "target/debug/t1");
}

#[test]
fn run_follows_symlinks_to_directories() {
    let m = manifest("/work/target", &[], &[], &["debug/out"]);
    let mut archiver = Archiver::new(plan_entries(&m, '/'), 0, '/');
    let (written, count) = run(&mut archiver, &sample_fs());
    let mut dests: Vec<String> = written[2..].iter().map(dest_of).collect();
    dests.sort();
    assert_eq!(
        dests,
        vec![
            "target/debug/out/a.txt",
            "target/debug/out/flink",
            "target/debug/out/link/c",
            "target/debug/out/link/d",
            "target/debug/out/sub/b.bin",
        ]
    );
    assert_eq!(count, 7);
    // The symlink to a file is written from its own path, as one entry.
    assert!(written.contains(&ArchiveAction::AppendFile {
        src: "/work/target/debug/out/flink".to_owned(),
        dest: "target/debug/out/flink".to_owned(),
        remap: false,
    }));
}

#[test]
fn run_walks_children_last_listed_first() {
    let m = manifest("/work/target", &[], &[], &["debug/out"]);
    let mut archiver = Archiver::new(plan_entries(&m, '/'), 0, '/');
    let (written, _) = run(&mut archiver, &sample_fs());
    assert_eq!(dest_of(&written[2]), "target/debug/out/flink");
}

#[test]
fn run_lists_linked_root_through_path_mapper() {
    let m = manifest("/work/target", &[], &["debug/helper"], &["debug/out"]);
    let mut archiver = Archiver::new(plan_entries(&m, '/'), 0, '/');
    assert!(matches!(archiver.start(), ArchiveAction::AppendMemory { .. }));
    assert!(matches!(archiver.appended(), ArchiveAction::AppendMemory { .. }));
    assert_eq!(
        archiver.appended(),
        ArchiveAction::AppendFile {
            src: "/work/target/debug/helper".to_owned(),
            dest: "target/debug/helper".to_owned(),
            remap: true,
        }
    );
    assert_eq!(
        archiver.appended(),
        ArchiveAction::ListDir { path: "/work/target/debug/out".to_owned(), remap: true }
    );
    let children = vec![DirChild {
        path: "/mapped/out/x".to_owned(),
        name: "x".to_owned(),
        is_dir: false,
        is_symlink: false,
    }];
    assert_eq!(
        archiver.listed(children),
        ArchiveAction::AppendFile {
            src: "/mapped/out/x".to_owned(),
            dest: "target/debug/out/x".to_owned(),
            remap: false,
        }
    );
    assert_eq!(archiver.appended(), ArchiveAction::Finished { file_count: 4 });
}

#[test]
fn run_normalises_child_names_with_backslash_separator() {
    let m = manifest("C:\\work\\target", &[], &[], &["debug\\out"]);
    let mut archiver = Archiver::new(plan_entries(&m, '\\'), 0, '\\');
    archiver.start();
    archiver.appended();
    let action = archiver.appended();
    assert!(matches!(action, ArchiveAction::ListDir { remap: true, .. }));
    let children = vec![DirChild {
        path: "C:\\mapped\\a\\b".to_owned(),
        name: "a\\b".to_owned(),
        is_dir: false,
        is_symlink: false,
    }];
    match archiver.listed(children) {
        ArchiveAction::AppendFile { dest, .. } => assert_eq!(dest, "target/debug/out/a/b"),
        other => panic!("unexpected action {other:?}"),
    }
}

#[test]
fn run_of_empty_plan_finishes_at_once() {
    let mut archiver = Archiver::new(Vec::new(), 0, '/');
    assert_eq!(archiver.start(), ArchiveAction::Finished { file_count: 0 });
}

#[test]
fn compression_settings_enable_checksums() {
    let s = CompressionSettings::new(3, 8);
    assert_eq!(s, CompressionSettings { level: 3, include_checksum: true, workers: 8 });
    let h = CompressionSettings::for_host(19);
    assert_eq!(h.level, 19);
    assert!(h.include_checksum);
    assert!(h.workers >= 1);
}
