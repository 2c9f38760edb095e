use channel_archive::packager::{plan_archive, EntryKind, WalkEntry};
use std::collections::BTreeMap;
use std::io::{Cursor, Read, Write};

fn pack(walked: &Vec<WalkEntry>, contents: &BTreeMap<String, Vec<u8>>) -> Vec<u8> {
    let mut writer = zip::ZipWriter::new(Cursor::new(Vec::new()));
    for entry in plan_archive(walked) {
        let options = zip::write::SimpleFileOptions::default().unix_permissions(entry.permissions);
        if entry.directory {
            writer.add_directory(entry.name.as_str(), options).unwrap();
        } else {
            writer.start_file(entry.name.as_str(), options).unwrap();
            writer.write_all(&contents[&entry.name]).unwrap();
        }
    }
    writer.finish().unwrap().into_inner()
}

fn unpack(bundle: Vec<u8>) -> (BTreeMap<String, Vec<u8>>, Vec<String>, Vec<u32>) {
    let mut archive = zip::ZipArchive::new(Cursor::new(bundle)).unwrap();
    let mut files = BTreeMap::new();
    let mut directories = Vec::new();
    let mut modes = Vec::new();
    for index in 0..archive.len() {
        let mut entry = archive.by_index(index).unwrap();
        if let Some(mode) = entry.unix_mode() {
            modes.push(mode & 0o777);
        }
        if entry.is_dir() {
            directories.push(entry.name().unwrap().trim_end_matches('/').to_string());
        } else {
            let mut bytes = Vec::new();
            entry.read_to_end(&mut bytes).unwrap();
            let name = entry.name().unwrap().to_string();
            files.insert(name, bytes);
        }
    }
    (files, directories, modes)
}

#[test]
fn packing_and_unpacking_reproduces_paths_and_bytes() {
    let mut contents = BTreeMap::new();
    contents.insert(String::from("messages.json"), b"[\n{\"id\":1}\n]".to_vec());
    contents.insert(String::from("assets/1.png"), vec![0x89, 0x50, 0x4e, 0x47, 0, 1, 2, 3]);
    contents.insert(String::from("assets/2_notes.txt"), Vec::new());
    let walked = vec![
        WalkEntry { path: String::new(), kind: EntryKind::Directory },
        WalkEntry { path: String::from("assets"), kind: EntryKind::Directory },
        WalkEntry { path: String::from("assets/1.png"), kind: EntryKind::File },
        WalkEntry { path: String::from("assets/2_notes.txt"), kind: EntryKind::File },
        WalkEntry { path: String::from("empty"), kind: EntryKind::Directory },
        WalkEntry { path: String::from("messages.json"), kind: EntryKind::File },
    ];
    let (files, directories, modes) = unpack(pack(&walked, &contents));
    assert_eq!(files, contents);
    assert_eq!(directories, vec![String::from("empty")]);
    assert_eq!(modes, vec![0o755, 0o755, 0o755, 0o755]);
}

#[test]
fn packing_an_empty_tree_gives_an_empty_bundle() {
    let walked = vec![WalkEntry { path: String::new(), kind: EntryKind::Directory }];
    let (files, directories, _) = unpack(pack(&walked, &BTreeMap::new()));
    assert!(files.is_empty());
    assert!(directories.is_empty());
}
