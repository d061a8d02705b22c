use std::collections::BTreeMap;
use std::io::{Cursor, Read};

use dlc_installer::archive::{ArchiveEntry, ArchiveHandle};
use dlc_installer::error::{ErrorKind, ExtractError};
use dlc_installer::extract::{ExtractAction, ExtractEvent, Extraction, BLOCK_SIZE};
use dlc_installer::path::EntryPath;
use sevenz_rust::{
    AesEncoderOptions, Archive, Password, SevenZArchiveEntry, SevenZMethod, SevenZReader,
    SevenZWriter,
};

#[derive(Debug, Clone, PartialEq, Eq)]
enum Node {
    Directory,
    File(Vec<u8>),
}

type Tree = BTreeMap<String, Node>;

struct Run {
    result: Result<(), ExtractError>,
    written: u64,
    total: u64,
    reports: Vec<(u64, u64)>,
}

fn listed(name: &str, is_directory: bool) -> SevenZArchiveEntry {
    let mut entry = SevenZArchiveEntry::new();
    entry.name = name.to_string();
    entry.is_directory = is_directory;
    entry
}

/// Packs the items into an archive in memory; a directory has no bytes.
fn pack(items: &[(&str, Option<&[u8]>)], password: Option<&str>) -> Vec<u8> {
    let mut writer = SevenZWriter::new(Cursor::new(Vec::new())).unwrap();
    if let Some(secret) = password {
        writer.set_content_methods(vec![
            AesEncoderOptions::new(Password::from(secret)).into(),
            SevenZMethod::LZMA2.into(),
        ]);
    }
    for (name, data) in items {
        writer.push_archive_entry(listed(name, data.is_none()), data.map(|bytes| bytes)).unwrap();
    }
    writer.finish().unwrap().into_inner()
}

fn plain(entry: &SevenZArchiveEntry) -> ArchiveEntry {
    ArchiveEntry {
        name: entry.name().to_string(),
        is_directory: entry.is_directory(),
        has_stream: entry.has_stream(),
        size: entry.size(),
    }
}

fn prefix(path: &EntryPath, count: usize) -> String {
    (0..count).map(|i| path.component(i)).collect::<Vec<_>>().join("/")
}

fn create_dirs(tree: &mut Tree, path: &EntryPath) -> Result<(), String> {
    for count in 0..=path.len() {
        let key = prefix(path, count);
        if let Some(Node::File(_)) = tree.get(&key) {
            return Err(format!("{} is not a directory", key));
        }
        tree.insert(key, Node::Directory);
    }
    Ok(())
}

fn create_file(tree: &mut Tree, path: &EntryPath) -> Result<String, String> {
    let key = path.render();
    if let Some(Node::Directory) = tree.get(&key) {
        return Err(format!("{} is a directory", key));
    }
    tree.insert(key.clone(), Node::File(Vec::new()));
    Ok(key)
}

fn given_up(extraction: &mut Extraction, cause: String) -> ExtractError {
    match extraction.step(ExtractEvent::Failed { cause }) {
        Some(ExtractAction::Abort(error)) => error,
        other => panic!("a failure must end the extraction, got {:?}", other),
    }
}

/// Extracts an archive held in memory into a tree held in memory, decoding
/// with the real decoder and deciding with the library.
fn extract(archive: Vec<u8>, password: Option<&str>, tree: &mut Tree, delete_after: bool) -> Run {
    let (mut extraction, first) = Extraction::start(
        password.map(|text| text.to_string()),
        vec!["dll".to_string()],
        delete_after,
    );
    let mut reports = Vec::new();
    let secret = match first {
        ExtractAction::Open { credential: Some(text) } => Password::from(text.as_str()),
        ExtractAction::Open { credential: None } => Password::empty(),
        other => panic!("an extraction begins by opening the archive, not by {:?}", other),
    };
    let len = archive.len() as u64;
    let mut reader = match SevenZReader::new(Cursor::new(archive), len, secret) {
        Ok(reader) => reader,
        Err(error) => {
            let error = given_up(&mut extraction, error.to_string());
            return Run { result: Err(error), written: 0, total: 0, reports };
        }
    };
    let handle = ArchiveHandle::of_index(reader.archive()).unwrap();
    let started = extraction.step(ExtractEvent::Opened(handle)).unwrap();
    let total = extraction.total_uncompressed_size();
    assert_eq!(started, ExtractAction::Start { total });

    let mut failure = None;
    let decoded = reader.for_each_entries(|entry, data| {
        let mut action = extraction.step(ExtractEvent::Entry(plain(entry))).unwrap();
        let mut open = String::new();
        loop {
            let event = match &action {
                ExtractAction::Probe { path } => {
                    ExtractEvent::Probed { exists: tree.contains_key(&path.render()) }
                }
                ExtractAction::CreateDirectory { path } => match create_dirs(tree, path) {
                    Ok(()) => ExtractEvent::Completed,
                    Err(cause) => ExtractEvent::Failed { cause },
                },
                ExtractAction::CreateFile { path, parent } => {
                    match create_dirs(tree, parent).and_then(|_| create_file(tree, path)) {
                        Ok(key) => {
                            open = key;
                            ExtractEvent::Completed
                        }
                        Err(cause) => ExtractEvent::Failed { cause },
                    }
                }
                ExtractAction::ReadBlock | ExtractAction::Progress { .. } => {
                    if let ExtractAction::Progress { position, total } = &action {
                        reports.push((*position, *total));
                    }
                    let mut buffer = [0u8; BLOCK_SIZE];
                    match data.read(&mut buffer) {
                        Ok(len) => {
                            if let Some(Node::File(bytes)) = tree.get_mut(&open) {
                                bytes.extend_from_slice(&buffer[..len]);
                            }
                            ExtractEvent::Block { len }
                        }
                        Err(error) => ExtractEvent::Failed { cause: error.to_string() },
                    }
                }
                ExtractAction::NextEntry => return Ok(true),
                ExtractAction::Abort(error) => {
                    failure = Some(error.clone());
                    return Ok(false);
                }
                other => panic!("not asked for within an entry: {:?}", other),
            };
            action = extraction.step(event).unwrap();
        }
    });
    let result = match (failure, decoded) {
        (Some(error), _) => Err(error),
        (None, Err(error)) => Err(given_up(&mut extraction, error.to_string())),
        (None, Ok(())) => match extraction.step(ExtractEvent::EndOfArchive).unwrap() {
            ExtractAction::Finish => Ok(()),
            ExtractAction::RemoveArchive => {
                assert_eq!(extraction.step(ExtractEvent::Completed), Some(ExtractAction::Finish));
                Ok(())
            }
            other => panic!("not asked for at the end: {:?}", other),
        },
    };
    Run { result, written: extraction.uncompressed_bytes_written(), total, reports }
}

fn tree(nodes: &[(&str, Node)]) -> Tree {
    nodes.iter().map(|(path, node)| (path.to_string(), node.clone())).collect()
}

fn bytes(text: &str) -> Node {
    Node::File(text.as_bytes().to_vec())
}

#[test]
fn index_entries_are_listed_in_order() {
    let mut first = listed("bin/lib.dll", false);
    first.has_stream = true;
    first.size = 5;
    let second = listed("assets/", true);
    let mut third = listed("assets/tex.bin", false);
    third.has_stream = true;
    third.size = 10;
    let mut index = Archive::default();
    index.files = vec![first, second, third];
    let handle = ArchiveHandle::of_index(&index).unwrap();
    assert_eq!(
        handle.entries(),
        &vec![
            ArchiveEntry {
                name: "bin/lib.dll".to_string(),
                is_directory: false,
                has_stream: true,
                size: 5,
            },
            ArchiveEntry {
                name: "assets/".to_string(),
                is_directory: true,
                has_stream: false,
                size: 0,
            },
            ArchiveEntry {
                name: "assets/tex.bin".to_string(),
                is_directory: false,
                has_stream: true,
                size: 10,
            },
        ]
    );
    assert_eq!(handle.total_uncompressed_size(), 15);
}

#[test]
fn index_without_files_gives_an_empty_handle() {
    let handle = ArchiveHandle::of_index(&Archive::default()).unwrap();
    assert!(handle.entries().is_empty());
    assert_eq!(handle.total_uncompressed_size(), 0);
}

#[test]
fn index_whose_sizes_do_not_fit_gives_no_handle() {
    let mut big = listed("a", false);
    big.has_stream = true;
    big.size = u64::MAX;
    let mut one = listed("b", false);
    one.has_stream = true;
    one.size = 1;
    let mut index = Archive::default();
    index.files = vec![big.clone(), one];
    assert!(ArchiveHandle::of_index(&index).is_none());
    index.files = vec![big];
    assert_eq!(ArchiveHandle::of_index(&index).unwrap().total_uncompressed_size(), u64::MAX);
}

#[test]
fn packed_archive_lists_what_was_packed() {
    let archive = pack(&[("a.txt", Some(b"hello")), ("d", None), ("d/b.bin", Some(&[0u8; 300]))], None);
    let len = archive.len() as u64;
    let reader = SevenZReader::new(Cursor::new(archive), len, Password::empty()).unwrap();
    let handle = ArchiveHandle::of_index(reader.archive()).unwrap();
    assert_eq!(handle.total_uncompressed_size(), 305);
    let names: Vec<&str> = handle.entries().iter().map(|e| e.name.as_str()).collect();
    assert_eq!(names, vec!["a.txt", "d", "d/b.bin"]);
    assert!(handle.entries()[1].is_directory);
    assert!(!handle.entries()[1].has_stream);
    assert_eq!(handle.entries()[2].size, 300);
}

#[test]
fn real_archive_is_extracted_into_an_empty_tree() {
    let big: Vec<u8> = (0..5000u32).map(|i| (i * 7 % 256) as u8).collect();
    let archive = pack(
        &[("readme.txt", Some(b"read me")), ("data", None), ("data/big.bin", Some(&big))],
        None,
    );
    let mut tree = Tree::new();
    let run = extract(archive, None, &mut tree, false);
    assert_eq!(run.result, Ok(()));
    assert_eq!(tree.get("readme.txt"), Some(&bytes("read me")));
    assert_eq!(tree.get("data"), Some(&Node::Directory));
    assert_eq!(tree.get("data/big.bin"), Some(&Node::File(big)));
    assert_eq!(run.total, 5007);
    assert_eq!(run.written, 5007);
    assert_eq!(run.reports.last(), Some(&(5007, 5007)));
    assert!(run.reports.windows(2).all(|pair| pair[0].0 < pair[1].0));
}

#[test]
fn real_archive_over_a_used_tree_skips_and_overwrites() {
    let texture = [1u8, 2, 3, 4, 5, 6, 7, 8, 9, 10];
    let archive = pack(
        &[
            ("data/cfg.txt", Some(b"defaults")),
            ("assets", None),
            ("bin/lib.dll", Some(b"fresh binary")),
            ("assets/tex.bin", Some(&texture)),
        ],
        None,
    );
    let mut tree = tree(&[
        ("", Node::Directory),
        ("data", Node::Directory),
        ("data/cfg.txt", bytes("user settings")),
        ("bin", Node::Directory),
        ("bin/lib.dll", bytes("stale")),
    ]);
    let run = extract(archive.clone(), None, &mut tree, false);
    assert_eq!(run.result, Ok(()));
    assert_eq!(tree.get("data/cfg.txt"), Some(&bytes("user settings")));
    assert_eq!(tree.get("bin/lib.dll"), Some(&bytes("fresh binary")));
    assert_eq!(tree.get("assets"), Some(&Node::Directory));
    assert_eq!(tree.get("assets/tex.bin"), Some(&Node::File(texture.to_vec())));
    assert_eq!(run.total, 30);
    assert_eq!(run.written, 22);

    let once = tree.clone();
    let again = extract(archive, None, &mut tree, false);
    assert_eq!(again.result, Ok(()));
    assert_eq!(tree, once);
    assert_eq!(again.written, 12);
}

#[test]
fn encrypted_archive_is_extracted_with_its_password() {
    let archive = pack(&[("secret/plan.txt", Some(b"the plan"))], Some("open sesame"));
    let mut tree = Tree::new();
    let run = extract(archive, Some("open sesame"), &mut tree, true);
    assert_eq!(run.result, Ok(()));
    assert_eq!(tree.get("secret/plan.txt"), Some(&bytes("the plan")));
    assert_eq!(run.written, 8);
}

#[test]
fn damaged_archive_fails_at_open_and_leaves_the_tree_alone() {
    let mut tree = tree(&[("", Node::Directory), ("keep.txt", bytes("mine"))]);
    let before = tree.clone();
    let run = extract(b"this is no archive at all, whatever its name".to_vec(), None, &mut tree, true);
    match &run.result {
        Err(error) => assert_eq!(error.kind(), ErrorKind::Decode),
        Ok(()) => panic!("a damaged archive was extracted"),
    }
    assert!(matches!(run.result, Err(ExtractError::Decode(_))));
    assert_eq!(tree, before);
    assert_eq!(run.written, 0);
    assert!(run.reports.is_empty());
}

#[test]
fn cut_off_archive_fails_at_open() {
    let mut archive = pack(&[("a.txt", Some(b"hello world"))], None);
    archive.truncate(archive.len() - 10);
    let mut tree = Tree::new();
    let run = extract(archive, None, &mut tree, false);
    assert!(matches!(run.result, Err(ExtractError::Decode(_))));
    assert!(tree.is_empty());
}

#[test]
fn wrong_password_does_not_produce_the_files() {
    let archive = pack(&[("secret/plan.txt", Some(b"the plan, in full"))], Some("open sesame"));
    let mut tree = Tree::new();
    let run = extract(archive, Some("wrong"), &mut tree, true);
    assert!(run.result.is_err());
    assert_ne!(tree.get("secret/plan.txt"), Some(&bytes("the plan, in full")));
}
