//! The content-addressed identity hash and the trust store.

use ludo::bless::BlessInfo;
use ludo::ludorc::UserRc;

fn info(title: &str, path: &str, bytes: &[u8]) -> BlessInfo {
    BlessInfo::new(String::from(title), String::from(path), bytes)
}

#[test]
fn hashing_is_deterministic() {
    let a = info("ext", "ws/bin/libext.so", b"\x00\x01\x02");
    let b = info("ext", "ws/bin/libext.so", b"\x00\x01\x02");
    assert_eq!(a.hash, b.hash);
    assert_eq!(a.title, "ext");
    assert_eq!(a.path, "ws/bin/libext.so");
}

#[test]
fn changing_any_input_changes_the_hash() {
    let base = info("ext", "ws/bin/libext.so", b"\x00\x01\x02");
    let other_title = info("ext2", "ws/bin/libext.so", b"\x00\x01\x02");
    let other_path = info("ext", "ws/bin/libext2.so", b"\x00\x01\x02");
    let other_bytes = info("ext", "ws/bin/libext.so", b"\x00\x01\x03");
    assert_ne!(base.hash, other_title.hash);
    assert_ne!(base.hash, other_path.hash);
    assert_ne!(base.hash, other_bytes.hash);
}

#[test]
fn hash_is_rendered_text_of_a_256_bit_digest() {
    // 32 digest bytes render to 44 characters of padded base64.
    let a = info("ext", "p", b"");
    assert_eq!(a.hash.len(), 44);
    assert!(a.hash.is_ascii());
}

#[test]
fn membership_is_exact_string_match() {
    let a = info("ext", "p", b"bytes");
    let mut store = UserRc::default();
    assert!(!store.is_blessed(&a));

    // A prefix or a re-encoding is not a member.
    let mut truncated = a.hash.clone();
    truncated.pop();
    store.bless(truncated);
    assert!(!store.is_blessed(&a));

    store.bless(a.hash.clone());
    assert!(store.is_blessed(&a));
}

#[test]
fn blessing_flips_the_verdict_and_revokes_nothing() {
    let a = info("first", "p1", b"one");
    let b = info("second", "p2", b"two");
    let mut store = UserRc::from_parts(1, vec![a.hash.clone()]).expect("supported version");
    assert!(store.is_blessed(&a));
    assert!(!store.is_blessed(&b));

    let added = store.bless(b.hash.clone());
    assert!(added);
    assert!(store.is_blessed(&a));
    assert!(store.is_blessed(&b));

    // Blessing an approved hash again records nothing new.
    let added_again = store.bless(b.hash.clone());
    assert!(!added_again);
    assert_eq!(store.blessed.len(), 2);
}
