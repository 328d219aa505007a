use std::io::{Cursor, Write};

use adona::archive::{entry_steps, extract, plan_entries, InstallPlan, InstallStep, StoredEntry};
use adona::error::Error;
use adona::path::entry_path;
use zip::write::SimpleFileOptions;
use zip::{CompressionMethod, ZipWriter};

fn path(pieces: &[&str]) -> Vec<String> {
    pieces.iter().map(|piece| piece.to_string()).collect()
}

fn entry(name: &str, content: &[u8]) -> StoredEntry {
    StoredEntry { name: name.to_string(), content: content.to_vec() }
}

fn create_dir(pieces: &[&str]) -> InstallStep {
    InstallStep::CreateDir { path: path(pieces) }
}

fn write_file(pieces: &[&str], content: &[u8]) -> InstallStep {
    InstallStep::WriteFile { path: path(pieces), content: content.to_vec() }
}

/// A zip archive with the entries given. A name that ends in `/` is added
/// as a directory.
fn archive(entries: &[(&str, &[u8])], method: CompressionMethod) -> Vec<u8> {
    let mut writer = ZipWriter::new(Cursor::new(Vec::new()));
    let options = SimpleFileOptions::default().compression_method(method);
    for (name, content) in entries {
        if name.ends_with('/') {
            writer.add_directory(name.to_string(), options).unwrap();
        } else {
            writer.start_file(name.to_string(), options).unwrap();
            writer.write_all(content).unwrap();
        }
    }
    writer.finish().unwrap().into_inner()
}

/// The archive with every occurrence of `from` replaced by `to`, which has
/// the same length: a way to store a path that no writer would store.
fn renamed(bytes: Vec<u8>, from: &str, to: &str) -> Vec<u8> {
    assert_eq!(from.len(), to.len());
    let mut bytes = bytes;
    let mut found = 0;
    let mut index = 0;
    while index + from.len() <= bytes.len() {
        if &bytes[index..index + from.len()] == from.as_bytes() {
            bytes[index..index + from.len()].copy_from_slice(to.as_bytes());
            found += 1;
            index += from.len();
        } else {
            index += 1;
        }
    }
    assert_eq!(found, 2, "the local header and the central directory hold the name");
    bytes
}

#[test]
fn reads_a_stored_path_into_its_components() {
    assert_eq!(entry_path("docs/readme.txt"), Ok(path(&["docs", "readme.txt"])));
    assert_eq!(entry_path("assets/"), Ok(path(&["assets"])));
    assert_eq!(entry_path("readme.txt"), Ok(path(&["readme.txt"])));
    assert_eq!(entry_path("a/b/c/d"), Ok(path(&["a", "b", "c", "d"])));
}

#[test]
fn drops_the_pieces_that_name_nothing() {
    assert_eq!(entry_path(""), Ok(path(&[])));
    assert_eq!(entry_path("."), Ok(path(&[])));
    assert_eq!(entry_path("./"), Ok(path(&[])));
    assert_eq!(entry_path("./a//b/./c/"), Ok(path(&["a", "b", "c"])));
    assert_eq!(entry_path("a/.hidden/...more"), Ok(path(&["a", ".hidden", "...more"])));
}

#[test]
fn cuts_at_backslashes_too() {
    assert_eq!(entry_path("docs\\readme.txt"), Ok(path(&["docs", "readme.txt"])));
    assert_eq!(entry_path("docs\\sub/readme.txt"), Ok(path(&["docs", "sub", "readme.txt"])));
}

#[test]
fn keeps_characters_beyond_ascii() {
    assert_eq!(entry_path("Grüße/日本語.txt"), Ok(path(&["Grüße", "日本語.txt"])));
}

#[test]
fn rejects_a_path_that_steps_to_a_parent() {
    for name in [
        "../../etc/passwd",
        "..",
        "../",
        "a/..",
        "a/../b",
        "a/b/../../../c",
        "docs/..\\..\\secret",
        "./..",
    ] {
        assert_eq!(entry_path(name), Err(Error::PathTraversalAttempt), "{}", name);
    }
}

#[test]
fn rejects_an_absolute_path() {
    for name in ["/etc/passwd", "/", "\\windows\\system32", "//server/share", "C:\\boot.ini", "c:/x", "C:", "z:relative"] {
        assert_eq!(entry_path(name), Err(Error::PathTraversalAttempt), "{}", name);
    }
}

#[test]
fn accepts_dots_and_colons_that_are_harmless() {
    assert_eq!(entry_path("..."), Ok(path(&["..."])));
    assert_eq!(entry_path("a/..b/c.."), Ok(path(&["a", "..b", "c.."])));
    assert_eq!(entry_path("ab:c"), Ok(path(&["ab:c"])));
    assert_eq!(entry_path("1:30"), Ok(path(&["1:30"])));
    assert_eq!(entry_path("a/C:"), Ok(path(&["a", "C:"])));
}

#[test]
fn a_file_is_written_after_its_directory_is_made() {
    assert_eq!(
        entry_steps(entry("docs/guide/readme.txt", b"hello")),
        Ok(vec![create_dir(&["docs", "guide"]), write_file(&["docs", "guide", "readme.txt"], b"hello")])
    );
    assert_eq!(
        entry_steps(entry("readme.txt", b"")),
        Ok(vec![create_dir(&[]), write_file(&["readme.txt"], b"")])
    );
}

#[test]
fn a_directory_entry_makes_its_directory() {
    assert_eq!(entry_steps(entry("assets/", b"")), Ok(vec![create_dir(&["assets"])]));
    assert_eq!(entry_steps(entry("a/b/", b"ignored")), Ok(vec![create_dir(&["a", "b"])]));
    assert_eq!(entry_steps(entry("./", b"")), Ok(vec![create_dir(&[])]));
}

#[test]
fn a_file_in_the_place_of_the_destination_is_rejected() {
    assert_eq!(entry_steps(entry("", b"x")), Err(Error::PathTraversalAttempt));
    assert_eq!(entry_steps(entry(".", b"x")), Err(Error::PathTraversalAttempt));
}

#[test]
fn an_escaping_entry_gets_no_steps() {
    assert_eq!(entry_steps(entry("../../etc/passwd", b"root")), Err(Error::PathTraversalAttempt));
    assert_eq!(entry_steps(entry("/etc/", b"")), Err(Error::PathTraversalAttempt));
}

#[test]
fn plans_the_entries_in_their_order() {
    let plan = plan_entries(
        vec![entry("docs/readme.txt", b"read me"), entry("assets/", b""), entry("top", b"t")],
        "/games/addons",
    );
    assert_eq!(
        plan,
        Ok(InstallPlan {
            destination: "/games/addons".to_string(),
            steps: vec![
                create_dir(&["docs"]),
                write_file(&["docs", "readme.txt"], b"read me"),
                create_dir(&["assets"]),
                create_dir(&[]),
                write_file(&["top"], b"t"),
            ],
        })
    );
}

#[test]
fn plans_nothing_for_no_entries() {
    assert_eq!(
        plan_entries(vec![], "out"),
        Ok(InstallPlan { destination: "out".to_string(), steps: vec![] })
    );
}

#[test]
fn one_escaping_entry_leaves_no_plan() {
    let plan = plan_entries(
        vec![entry("docs/readme.txt", b"fine"), entry("../../etc/passwd", b"root"), entry("more", b"")],
        "out",
    );
    assert_eq!(plan, Err(Error::PathTraversalAttempt));
}

#[test]
fn unpacks_a_file_and_an_empty_directory() {
    for method in [CompressionMethod::Stored, CompressionMethod::Deflated] {
        let bytes = archive(&[("docs/readme.txt", b"read me first\n"), ("assets/", b"")], method);
        assert_eq!(
            extract(&bytes, "/games/addons"),
            Ok(InstallPlan {
                destination: "/games/addons".to_string(),
                steps: vec![
                    create_dir(&["docs"]),
                    write_file(&["docs", "readme.txt"], b"read me first\n"),
                    create_dir(&["assets"]),
                ],
            })
        );
    }
}

#[test]
fn unpacking_twice_gives_the_same_plan() {
    let bytes = archive(&[("a/b.txt", b"b"), ("c.txt", b"c")], CompressionMethod::Deflated);
    assert_eq!(extract(&bytes, "out"), extract(&bytes, "out"));
}

#[test]
fn unpacks_bytes_as_they_were_packed() {
    let content: Vec<u8> = (0..=255u8).cycle().take(70_000).collect();
    let bytes = archive(&[("blob.bin", &content)], CompressionMethod::Deflated);
    let plan = extract(&bytes, "out").unwrap();
    assert_eq!(plan.steps, vec![create_dir(&[]), write_file(&["blob.bin"], &content)]);
}

#[test]
fn unpacks_an_archive_without_entries() {
    let bytes = archive(&[], CompressionMethod::Stored);
    assert_eq!(
        extract(&bytes, "out"),
        Ok(InstallPlan { destination: "out".to_string(), steps: vec![] })
    );
}

#[test]
fn rejects_an_archive_with_a_traversal() {
    let bytes = renamed(
        archive(&[("docs/readme.txt", b"fine"), ("AAAAAAAAAAAAAAAA", b"root::0:0")], CompressionMethod::Stored),
        "AAAAAAAAAAAAAAAA",
        "../../etc/passwd",
    );
    assert_eq!(extract(&bytes, "out"), Err(Error::PathTraversalAttempt));
}

#[test]
fn rejects_an_archive_with_an_absolute_path() {
    let bytes = renamed(
        archive(&[("AAAAAAAAAAA", b"root::0:0")], CompressionMethod::Stored),
        "AAAAAAAAAAA",
        "/etc/passwd",
    );
    assert_eq!(extract(&bytes, "out"), Err(Error::PathTraversalAttempt));
}

#[test]
fn rejects_what_is_no_archive() {
    assert_eq!(extract(b"", "out"), Err(Error::ArchiveCorrupt));
    assert_eq!(extract(b"PK but not really", "out"), Err(Error::ArchiveCorrupt));
    assert_eq!(extract(&[0u8; 4096], "out"), Err(Error::ArchiveCorrupt));
}

#[test]
fn rejects_an_archive_with_damaged_content() {
    let content = b"some content that is long enough to be found again";
    let mut bytes = archive(&[("a.txt", content)], CompressionMethod::Stored);
    let at = bytes.windows(content.len()).position(|window| window == content).unwrap();
    bytes[at] ^= 0xff;
    assert_eq!(extract(&bytes, "out"), Err(Error::ArchiveCorrupt));
}

#[test]
fn rejects_a_truncated_archive() {
    let bytes = archive(&[("a.txt", b"content")], CompressionMethod::Stored);
    assert_eq!(extract(&bytes[..bytes.len() / 2], "out"), Err(Error::ArchiveCorrupt));
}
