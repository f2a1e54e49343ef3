use quick_repertoire::logging::{preview_for_log, redact_secret};

#[test]
fn preview_for_log_truncates_long_values() {
    assert_eq!(preview_for_log("abcdefgh", 5), "abcde… (8 chars total)");
}

#[test]
fn redact_secret_masks_short_and_long_values() {
    assert_eq!(redact_secret(""), "<empty>");
    assert_eq!(redact_secret("abcd1234"), "*** (len=8)");
    assert_eq!(redact_secret("1234567890abcdef"), "1234***cdef (len=16)");
}

#[test]
fn preview_for_log_keeps_short_values_whole() {
    assert_eq!(preview_for_log("abc", 5), "abc");
}
