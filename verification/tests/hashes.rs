use rustus::utils::hashes::{read_checksum, same_bytes, verify_chunk_checksum, Algorithm};

const DIGESTS: [(&str, &str); 4] = [
    ("md5", "kAFQmDzST7DWlj99KOF/cg=="),
    ("sha1", "qZk+NkcGgWq6PiVxeFDCbJzQ2J0="),
    ("sha256", "ungWv48Bz+pBQUDeXa4iI7ADYaOWF3qctBD/YfIAFa0="),
    (
        "sha512",
        "3a81oZNherrMQXNJriBBMRLm+k6JqX6iCp7u5ktV05ohkpkqJ0/BqDa6PCOj/uu9RU1EI2Q86A4qmslPpUyknw==",
    ),
];

#[test]
fn digests_of_known_bytes() {
    for (name, digest) in DIGESTS {
        let field = format!("{} {}", name, digest);
        assert_eq!(verify_chunk_checksum(field.as_bytes(), b"abc"), Some(true));
        assert_eq!(verify_chunk_checksum(field.as_bytes(), b"abd"), Some(false));
        for (other, _) in DIGESTS {
            let field = format!("{} {}", other, digest);
            assert_eq!(
                verify_chunk_checksum(field.as_bytes(), b"abc"),
                Some(other == name)
            );
        }
    }
}

#[test]
fn fields_that_tell_no_checksum() {
    for field in [
        "",
        "md5",
        "crc32 AAAA",
        "MD5 kAFQmDzST7DWlj99KOF/cg==",
        "md5 kAFQmDzST7DWlj99KOF/cg",
        " md5 kAFQmDzST7DWlj99KOF/cg==",
        "md5 \u{e9}",
    ] {
        assert_eq!(verify_chunk_checksum(field.as_bytes(), b"abc"), None);
    }
}

#[test]
fn parts_of_a_checksum_field() {
    assert_eq!(
        read_checksum(b"sha256 AAAA rest"),
        Some((Algorithm::Sha256, "AAAA".to_string()))
    );
    assert_eq!(
        read_checksum(b"sha1 "),
        Some((Algorithm::Sha1, String::new()))
    );
    assert_eq!(read_checksum(b"sha3 AAAA"), None);
}

#[test]
fn byte_sequences_that_are_the_same() {
    assert!(same_bytes(&vec![], &vec![]));
    assert!(same_bytes(&vec![1, 2], &vec![1, 2]));
    assert!(!same_bytes(&vec![1, 2], &vec![1, 3]));
    assert!(!same_bytes(&vec![1, 2], &vec![1, 2, 3]));
}
