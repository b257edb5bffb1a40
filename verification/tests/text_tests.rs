use fencryption::paths::{file_stem, last_index_of, trimmed_len, with_suffix, without_suffix};
use fencryption::text::{decimal, digit, from_chars, join, to_chars};

#[test]
fn chars_round_trip() {
    assert_eq!(to_chars("héllo"), vec!['h', 'é', 'l', 'l', 'o']);
    assert_eq!(from_chars(&['h', 'é', 'l', 'l', 'o']), "héllo");
    assert_eq!(to_chars(""), Vec::<char>::new());
    assert_eq!(from_chars(&[]), "");
}

#[test]
fn decimal_on_examples() {
    assert_eq!(decimal(0), "0");
    assert_eq!(decimal(7), "7");
    assert_eq!(decimal(10), "10");
    assert_eq!(decimal(1234567890), "1234567890");
    assert_eq!(decimal(usize::MAX), usize::MAX.to_string());
    assert_eq!(digit(0), '0');
    assert_eq!(digit(9), '9');
}

#[test]
fn concat_on_examples() {
    assert_eq!(join("ab", "cd"), "abcd");
    assert_eq!(join("", ""), "");
}

#[test]
fn with_suffix_on_examples() {
    assert_eq!(with_suffix("docs", ".pack"), "docs.pack");
    assert_eq!(with_suffix("docs/", ".pack"), "docs.pack");
    assert_eq!(with_suffix("a/b/docs///", ".pack"), "a/b/docs.pack");
    assert_eq!(with_suffix("file.txt", ".enc"), "file.txt.enc");
    assert_eq!(with_suffix("/", ".enc"), "/.enc");
    assert_eq!(with_suffix("", ".enc"), ".enc");
}

#[test]
fn without_suffix_on_examples() {
    assert_eq!(without_suffix("docs.pack", ".pack"), Some("docs".to_string()));
    assert_eq!(without_suffix("a/b.enc", ".enc"), Some("a/b".to_string()));
    assert_eq!(without_suffix(".pack", ".pack"), None);
    assert_eq!(without_suffix("a/.pack", ".pack"), None);
    assert_eq!(without_suffix("docs.pack", ".enc"), None);
    assert_eq!(without_suffix("docs", ".pack"), None);
    assert_eq!(without_suffix("x", ""), Some("x".to_string()));
}

#[test]
fn file_stem_on_examples() {
    assert_eq!(file_stem("docs.pack"), Some("docs".to_string()));
    assert_eq!(file_stem("/a/b/docs.pack"), Some("docs".to_string()));
    assert_eq!(file_stem("a.b.pack"), Some("a.b".to_string()));
    assert_eq!(file_stem("docs"), Some("docs".to_string()));
    assert_eq!(file_stem(".hidden"), Some(".hidden".to_string()));
    assert_eq!(file_stem("dir/docs.pack/"), Some("docs".to_string()));
    assert_eq!(file_stem(""), None);
    assert_eq!(file_stem(".."), None);
    assert_eq!(file_stem("a/.."), None);
    assert_eq!(file_stem("."), None);
}

#[test]
fn file_stem_agrees_with_std() {
    for path in ["docs.pack", "/a/b/docs.pack", "a.b.pack", "docs", ".hidden", "x/y.z/", "a/.."] {
        let expected = std::path::Path::new(path)
            .file_stem()
            .map(|stem| stem.to_str().unwrap().to_string());
        assert_eq!(file_stem(path), expected);
    }
}

#[test]
fn index_helpers() {
    assert_eq!(last_index_of(&['a', '/', 'b', '/', 'c'], '/'), Some(3));
    assert_eq!(last_index_of(&['a'], '/'), None);
    assert_eq!(trimmed_len(&['a', '/', '/']), 1);
    assert_eq!(trimmed_len(&['/', '/']), 1);
    assert_eq!(trimmed_len(&[]), 0);
}
