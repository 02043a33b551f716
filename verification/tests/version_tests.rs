use zygiskd::apatch::{classify_helper_output, Version};

#[test]
fn helper_at_or_above_minimum_is_supported() {
    assert_eq!(classify_helper_output(b"apd 12", 10), Some(Version::Supported));
    assert_eq!(classify_helper_output(b"apd 10", 10), Some(Version::Supported));
}

#[test]
fn helper_below_minimum_is_too_old() {
    assert_eq!(classify_helper_output(b"apd 5", 10), Some(Version::TooOld));
}

#[test]
fn malformed_helper_output_is_unsupported() {
    assert_eq!(classify_helper_output(b"", 10), None);
    assert_eq!(classify_helper_output(b"apd", 10), None);
    assert_eq!(classify_helper_output(b"apd 1 2", 10), None);
    assert_eq!(classify_helper_output(b"apd twelve", 10), None);
}

#[test]
fn helper_output_whitespace_is_flexible() {
    assert_eq!(classify_helper_output(b"apd 12\n", 10), Some(Version::Supported));
    assert_eq!(classify_helper_output(b"  apd\t12  ", 10), Some(Version::Supported));
}
