use bundle_repo::classify::{count_unprintable, is_binary_sample, verdict_for};
use bundle_repo::content::decode_content;

#[test]
fn plain_text_is_not_binary() {
    assert!(!is_binary_sample(b"Hello, World!"));
    assert!(!is_binary_sample(b"hi"));
    assert!(!is_binary_sample(b""));
}

#[test]
fn unprintable_bytes_are_binary() {
    assert!(is_binary_sample(&[0u8, 159u8, 146u8, 150u8]));
    assert!(is_binary_sample(&[0u8, 1, 2, 3]));
}

#[test]
fn sniffed_types_decide() {
    let png = [0x89u8, b'P', b'N', b'G', 0x0D, 0x0A, 0x1A, 0x0A, 0, 0, 0, 0x0D];
    assert!(is_binary_sample(&png));
}

#[test]
fn threshold_is_thirty_percent() {
    let three_of_ten = [b'a', b'a', b'a', b'a', b'a', b'a', b'a', 1, 2, 3];
    assert_eq!(count_unprintable(&three_of_ten), 3);
    assert!(!is_binary_sample(&three_of_ten));
    let four_of_ten = [b'a', b'a', b'a', b'a', b'a', b'a', 1, 2, 3, 4];
    assert!(is_binary_sample(&four_of_ten));
}

#[test]
fn classification_is_repeatable() {
    let sample = [0u8, b'x', 200, 13, 10];
    assert_eq!(is_binary_sample(&sample), is_binary_sample(&sample));
}

#[test]
fn decoding_modes() {
    assert_eq!(decode_content(b"plain".to_vec(), true), "plain");
    assert_eq!(decode_content(b"a\xFFb".to_vec(), false), "a\u{FFFD}b");
    assert_eq!(decode_content(b"a\xFFb".to_vec(), true), "a\u{FFFD}b");
}

#[test]
fn sniffed_family_decides_the_verdict() {
    assert!(!verdict_for(&Some("text/html".to_string()), &[0u8, 0, 0]));
    assert!(verdict_for(&Some("image/png".to_string()), b"plain words"));
    assert!(verdict_for(&None, &[0u8, 1, 2, 3]));
    assert!(!verdict_for(&None, b"hi"));
}
