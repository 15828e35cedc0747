use flowtype::transcript::clean_transcription;

fn clean(s: &str) -> Option<String> {
    clean_transcription(&s.as_bytes().to_vec())
        .map(|v| String::from_utf8(v).unwrap())
}

#[test]
fn test_plain_text_is_trimmed() {
    assert_eq!(clean("  hello world \n"), Some("hello world".to_string()));
}

#[test]
fn test_bracketed_noise_is_dropped() {
    assert_eq!(clean("[BLANK_AUDIO]"), None);
    assert_eq!(clean(" (upbeat music) "), None);
    assert_eq!(clean("[silence] ..."), None);
}

#[test]
fn test_brackets_are_stripped_around_text() {
    assert_eq!(clean("(upbeat music) hi"), Some("hi".to_string()));
    assert_eq!(clean("a [x] b (y) c"), Some("a  b  c".to_string()));
}

#[test]
fn test_mismatched_closer_ends_span() {
    // The first closing bracket of either kind ends the span.
    assert_eq!(clean("[cough) done"), Some("done".to_string()));
}

#[test]
fn test_unclosed_opener_stops_stripping() {
    assert_eq!(clean("keep [this"), Some("keep [this".to_string()));
}

#[test]
fn test_ellipsis_is_dropped() {
    assert_eq!(clean("..."), None);
    assert_eq!(clean(" ... "), None);
    assert_eq!(clean("...."), Some("....".to_string()));
}

#[test]
fn test_special_token_prefix_is_dropped() {
    assert_eq!(clean("[_BEG"), None);
    assert_eq!(clean("[_ something"), None);
}

#[test]
fn test_empty_is_dropped() {
    assert_eq!(clean(""), None);
    assert_eq!(clean("   "), None);
}
