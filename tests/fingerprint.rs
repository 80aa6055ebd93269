use skills_hub::fingerprint::{hash_entries, FileEntry};

fn entry(p: &str, c: &[u8]) -> FileEntry {
    FileEntry { rel_path: p.to_string(), contents: c.to_vec() }
}

#[test]
fn fingerprint_values() {
    assert_eq!(
        hash_entries(&vec![entry("a.txt", b"cursor")]),
        "5fd50c33e63278a5dd20290edb0e6bd54b4893e5f8920c7ad3c08088216c16b7"
    );
    assert_eq!(
        hash_entries(&vec![entry("a.txt", b"codex")]),
        "3efcaaf91806e3751e38cb70918cfd1e31a8372499bdcf8d53c056e57c678a9e"
    );
    assert_eq!(hash_entries(&vec![]), "e3b0c44298fc1c149afbf4c8996fb92427ae41e4649b934ca495991b7852b855");
}

#[test]
fn identical_trees_share_a_fingerprint() {
    let a = vec![entry("SKILL.md", b"---\nname: x\n---\n"), entry("d/b.txt", b"1")];
    let b = vec![entry("SKILL.md", b"---\nname: x\n---\n"), entry("d/b.txt", b"1")];
    assert_eq!(hash_entries(&a), hash_entries(&b));
    let c = vec![entry("SKILL.md", b"---\nname: x\n---\n"), entry("d/b.txt", b"2")];
    assert_ne!(hash_entries(&a), hash_entries(&c));
}
