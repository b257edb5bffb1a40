use fencryption::container::{
    bytes_equal, decode_entries, decode_entry, decode_header, decode_pack, encode_entry,
    encode_header, encode_pack, last_separator, parent_before, parents_first, EntryHeader,
    EntryKind, Pack, PackEntry, PackError,
};

fn dir(path: &str) -> PackEntry {
    PackEntry { kind: EntryKind::Directory, path: path.as_bytes().to_vec(), content: Vec::new() }
}

fn file(path: &str, content: &[u8]) -> PackEntry {
    PackEntry { kind: EntryKind::File, path: path.as_bytes().to_vec(), content: content.to_vec() }
}

fn docs() -> Pack {
    Pack {
        root: b"docs".to_vec(),
        entries: vec![file("a.txt", b"hello"), dir("sub"), file("sub/b.txt", b"world")],
    }
}

#[test]
fn header_layout_of_a_directory() {
    assert_eq!(
        encode_header(EntryKind::Directory, b"sub", 0),
        Ok(vec![0, 3, 0, b's', b'u', b'b'])
    );
}

#[test]
fn header_layout_of_a_file() {
    assert_eq!(
        encode_header(EntryKind::File, b"a", 0x0102),
        Ok(vec![1, 1, 0, b'a', 2, 1, 0, 0, 0, 0, 0, 0])
    );
}

#[test]
fn header_rejects_bad_paths() {
    assert_eq!(encode_header(EntryKind::File, b"", 0), Err(PackError::InvalidEntry));
    assert_eq!(encode_header(EntryKind::File, &vec![b'a'; 65536], 0), Err(PackError::InvalidEntry));
    assert!(encode_header(EntryKind::File, &vec![b'a'; 65535], 0).is_ok());
    assert_eq!(encode_header(EntryKind::Directory, b"d", 1), Err(PackError::InvalidEntry));
}

#[test]
fn entry_layout() {
    assert_eq!(
        encode_entry(&file("a.txt", b"hello")),
        Ok(vec![
            1, 5, 0, b'a', b'.', b't', b'x', b't', 5, 0, 0, 0, 0, 0, 0, 0, b'h', b'e', b'l', b'l',
            b'o'
        ])
    );
    let mut odd = dir("d");
    odd.content = vec![1];
    assert_eq!(encode_entry(&odd), Err(PackError::InvalidEntry));
}

#[test]
fn header_round_trip() {
    let bytes = encode_header(EntryKind::File, b"x/y", 77).unwrap();
    assert_eq!(
        decode_header(&bytes, 0),
        Ok((EntryHeader { kind: EntryKind::File, path: b"x/y".to_vec(), content_len: 77 }, 14))
    );
}

#[test]
fn entry_round_trip_at_an_offset() {
    let mut bytes = vec![9u8, 9, 9];
    bytes.extend(encode_entry(&file("f", b"abc")).unwrap());
    bytes.extend(encode_entry(&dir("d")).unwrap());
    assert_eq!(decode_entry(&bytes, 3), Ok((file("f", b"abc"), 15)));
    assert_eq!(decode_entry(&bytes, 18), Ok((dir("d"), 4)));
    assert_eq!(decode_entries(&bytes, 3), Ok(vec![file("f", b"abc"), dir("d")]));
    assert_eq!(decode_entries(&bytes, bytes.len()), Ok(vec![]));
}

#[test]
fn decode_rejects_unknown_kind() {
    assert_eq!(decode_header(&[2, 1, 0, b'a'], 0), Err(PackError::MalformedContainer));
}

#[test]
fn decode_rejects_truncated_entries() {
    let bytes = encode_entry(&file("a.txt", b"hello")).unwrap();
    for cut in 1..bytes.len() {
        assert_eq!(decode_entry(&bytes[..cut], 0), Err(PackError::MalformedContainer));
        assert_eq!(decode_entries(&bytes[..cut], 0), Err(PackError::MalformedContainer));
    }
    assert_eq!(decode_entry(&[0, 0, 0], 0), Err(PackError::MalformedContainer));
}

#[test]
fn pack_layout() {
    let pack = Pack { root: b"r".to_vec(), entries: vec![dir("d")] };
    assert_eq!(
        encode_pack(&pack),
        Ok(vec![0x46, 0x50, 0x4b, 0x31, 1, 0, b'r', 0, 1, 0, b'd'])
    );
}

#[test]
fn pack_round_trip_docs() {
    let bytes = encode_pack(&docs()).unwrap();
    assert_eq!(decode_pack(&bytes), Ok(docs()));
}

#[test]
fn pack_round_trip_deep_tree() {
    let big: Vec<u8> = (0..300_000u32).map(|i| (i % 251) as u8).collect();
    let pack = Pack {
        root: b"tree".to_vec(),
        entries: vec![
            dir("empty"),
            dir("a"),
            dir("a/b"),
            dir("a/b/c"),
            dir("a/b/c/d"),
            file("a/b/c/d/zero", b""),
            file("a/b/big", &big),
            file("top", b"t"),
            dir("a/b/c/empty"),
        ],
    };
    let bytes = encode_pack(&pack).unwrap();
    assert_eq!(decode_pack(&bytes), Ok(pack));
}

#[test]
fn pack_round_trip_empty_tree() {
    let pack = Pack { root: Vec::new(), entries: Vec::new() };
    let bytes = encode_pack(&pack).unwrap();
    assert_eq!(bytes, vec![0x46, 0x50, 0x4b, 0x31, 0, 0]);
    assert_eq!(decode_pack(&bytes), Ok(pack));
}

#[test]
fn encode_rejects_child_before_parent() {
    let pack = Pack { root: b"r".to_vec(), entries: vec![file("sub/b.txt", b"w"), dir("sub")] };
    assert_eq!(encode_pack(&pack), Err(PackError::InvalidEntry));
}

#[test]
fn encode_rejects_file_as_parent() {
    let pack = Pack { root: b"r".to_vec(), entries: vec![file("sub", b""), file("sub/b", b"w")] };
    assert_eq!(encode_pack(&pack), Err(PackError::InvalidEntry));
}

#[test]
fn encode_rejects_long_root() {
    let pack = Pack { root: vec![b'r'; 65536], entries: Vec::new() };
    assert_eq!(encode_pack(&pack), Err(PackError::InvalidEntry));
}

#[test]
fn decode_rejects_bad_magic() {
    let mut bytes = encode_pack(&docs()).unwrap();
    bytes[3] = 0x32;
    assert_eq!(decode_pack(&bytes), Err(PackError::MalformedContainer));
    assert_eq!(decode_pack(&[]), Err(PackError::MalformedContainer));
    assert_eq!(decode_pack(b"FPK1"), Err(PackError::MalformedContainer));
}

#[test]
fn decode_rejects_truncated_pack() {
    let bytes = encode_pack(&docs()).unwrap();
    assert_eq!(decode_pack(&bytes[..bytes.len() - 1]), Err(PackError::MalformedContainer));
    assert_eq!(decode_pack(&bytes[..8]), Err(PackError::MalformedContainer));
}

#[test]
fn decode_rejects_orphans() {
    let mut bytes = vec![0x46, 0x50, 0x4b, 0x31, 0, 0];
    bytes.extend(encode_entry(&file("sub/b.txt", b"w")).unwrap());
    assert_eq!(decode_pack(&bytes), Err(PackError::MalformedContainer));
}

#[test]
fn parents_first_on_examples() {
    assert!(parents_first(&docs().entries));
    assert!(parents_first(&vec![]));
    assert!(!parents_first(&vec![file("x/y", b"")]));
    assert!(parent_before(&docs().entries, 2));
    assert!(parent_before(&vec![dir("a"), file("b/c", b"")], 0));
    assert!(!parent_before(&vec![dir("a"), file("b/c", b"")], 1));
}

#[test]
fn last_separator_on_examples() {
    assert_eq!(last_separator(b""), None);
    assert_eq!(last_separator(b"abc"), None);
    assert_eq!(last_separator(b"a/b"), Some(1));
    assert_eq!(last_separator(b"a/b/c"), Some(3));
    assert_eq!(last_separator(b"/"), Some(0));
}

#[test]
fn bytes_equal_on_examples() {
    assert!(bytes_equal(b"", b""));
    assert!(bytes_equal(b"abc", b"abc"));
    assert!(!bytes_equal(b"abc", b"abd"));
    assert!(!bytes_equal(b"abc", b"ab"));
}
