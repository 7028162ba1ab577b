use pgml_components::hash::{
    hash_marker, hashed_bundle_file, hashed_main_file, plan_publication, short_hash,
    short_hash_of_digest,
};

#[test]
fn short_hash_of_known_contents() {
    assert_eq!(short_hash(b""), "d41d8cd9");
    assert_eq!(short_hash(b"abc"), "90015098");
    assert_eq!(short_hash(b"abcdefghijklmnopqrstuvwxyz"), "c3fcd3d7");
}

#[test]
fn short_hash_has_eight_lowercase_hex_digits() {
    for content in [&b"X"[..], &b"console.log(1)\n"[..], &[0u8, 255, 7][..]] {
        let hash = short_hash(content);
        assert_eq!(hash.len(), 8);
        assert!(hash.chars().all(|c| "0123456789abcdef".contains(c)));
    }
}

#[test]
fn equal_contents_have_equal_hashes() {
    let first = short_hash(b"X");
    let second = short_hash(&[b'X']);
    assert_eq!(first, second);
    assert_ne!(short_hash(b"X"), short_hash(b"Y"));
}

#[test]
fn short_hash_differs_from_its_content() {
    assert_ne!(short_hash(b"d41d8cd9"), "d41d8cd9");
    assert_ne!(short_hash(b""), "");
}

#[test]
fn short_hash_reads_the_first_four_bytes() {
    let mut digest = [0u8; 16];
    digest[0] = 0x00;
    digest[1] = 0x01;
    digest[2] = 0xab;
    digest[3] = 0xff;
    digest[4] = 0x77;
    assert_eq!(short_hash_of_digest(&digest), "0001abff");
    assert_eq!(short_hash_of_digest(&[0x9f; 16]), "9f9f9f9f");
    assert_eq!(short_hash_of_digest(&[0; 16]), "00000000");
}

#[test]
fn every_hex_digit_is_written() {
    let mut digest = [0u8; 16];
    digest[0] = 0x01;
    digest[1] = 0x23;
    digest[2] = 0x45;
    digest[3] = 0x67;
    assert_eq!(short_hash_of_digest(&digest), "01234567");
    digest[0] = 0x89;
    digest[1] = 0xab;
    digest[2] = 0xcd;
    digest[3] = 0xef;
    assert_eq!(short_hash_of_digest(&digest), "89abcdef");
}

#[test]
fn published_names_embed_the_hash() {
    assert_eq!(hashed_bundle_file("f561aaf6"), "static/js/bundle.f561aaf6.js");
    assert_eq!(hashed_main_file("f561aaf6"), "static/js/main.f561aaf6.js");
    assert_eq!(hashed_bundle_file(""), "static/js/bundle..js");
}

#[test]
fn marker_is_the_hash_on_its_own_line() {
    assert_eq!(hash_marker("f561aaf6"), "f561aaf6\n");
    assert_eq!(hash_marker(""), "\n");
}

#[test]
fn publication_of_a_bundle() {
    let plan = plan_publication(b"abc");
    assert_eq!(plan.hash, "90015098");
    assert_eq!(plan.bundle_copy, "static/js/bundle.90015098.js");
    assert_eq!(plan.main_copy, "static/js/main.90015098.js");
    assert_eq!(plan.marker, "90015098\n");
}

#[test]
fn publication_is_the_same_for_the_same_content() {
    let first = plan_publication(b"X");
    let second = plan_publication(b"X");
    assert_eq!(first.hash, second.hash);
    assert_eq!(first.bundle_copy, second.bundle_copy);
    assert_eq!(first.main_copy, second.main_copy);
    assert_eq!(first.marker, second.marker);
}
