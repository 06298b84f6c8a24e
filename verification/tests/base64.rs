//! Decoding base64.
use cs_tui::base64::decode;

#[test]
fn encodings_decode() {
    assert_eq!(decode(""), Some(vec![]));
    assert_eq!(decode("Zg=="), Some(b"f".to_vec()));
    assert_eq!(decode("Zm8="), Some(b"fo".to_vec()));
    assert_eq!(decode("Zm9v"), Some(b"foo".to_vec()));
    assert_eq!(decode("Zm9vYmFy"), Some(b"foobar".to_vec()));
    assert_eq!(decode("AP/+"), Some(vec![0, 255, 254]));
}

#[test]
fn what_is_no_encoding_is_refused() {
    for bad in ["Z", "Zg", "Zg=", "Zm9v!", "Zh==", "Zg==Zg==", "=", "Zm 9v"] {
        assert_eq!(decode(bad), None, "{bad:?}");
    }
}
