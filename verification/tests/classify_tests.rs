use jenkins_api::classify::classify_error_body;
use jenkins_api::error::Error;

#[test]
fn can_post_with_body_and_get_error_state() {
    let body = "hviqsuvnqsodjfsqjdgo java.lang.IllegalStateException: my error\nvzfjsd";
    let classified = classify_error_body(body);
    assert_eq!(
        classified,
        Some(Error::IllegalState {
            message: "my error".to_string()
        })
    );
}

#[test]
fn can_post_with_body_and_get_error_argument() {
    let body = "hviqsuvnqsodjfsqjdgo java.lang.IllegalArgumentException: my error\nvzfjsd";
    let classified = classify_error_body(body);
    assert_eq!(
        classified,
        Some(Error::IllegalArgument {
            message: "my error".to_string()
        })
    );
}

#[test]
fn can_post_with_body_and_get_error_new() {
    // an unrecognized exception name falls back to the generic status error
    let body = "hviqsuvnqsodjfsqjdgo java.lang.NewException: my error\nvzfjsd";
    let classified = classify_error_body(body);
    assert_eq!(classified, None);
}

#[test]
fn body_without_signature_is_not_classified() {
    assert_eq!(classify_error_body("ok"), None);
    assert_eq!(classify_error_body(""), None);
    assert_eq!(classify_error_body("java.lang without a colon"), None);
}

#[test]
fn message_stops_at_end_of_line() {
    let body = "java.lang.IllegalStateException: first line\nsecond line";
    assert_eq!(
        classify_error_body(body),
        Some(Error::IllegalState {
            message: "first line".to_string()
        })
    );
}

#[test]
fn message_may_run_to_end_of_body() {
    let body = "java.lang.IllegalArgumentException: no newline";
    assert_eq!(
        classify_error_body(body),
        Some(Error::IllegalArgument {
            message: "no newline".to_string()
        })
    );
}

#[test]
fn first_signature_wins() {
    let body = "java.lang.NewException: first\njava.lang.IllegalStateException: second";
    // the first match has an unrecognized name, so nothing is classified
    assert_eq!(classify_error_body(body), None);
}

#[test]
fn signature_dots_match_any_character_but_newlines() {
    // the two separators of the signature may be any character other
    // than a line break
    let body = "javaXlangYIllegalStateException: odd but matched";
    assert_eq!(
        classify_error_body(body),
        Some(Error::IllegalState {
            message: "odd but matched".to_string()
        })
    );
    let body2 = "java\nlang.IllegalStateException: broken";
    assert_eq!(classify_error_body(body2), None);
}

#[test]
fn empty_message_is_kept() {
    let body = "java.lang.IllegalStateException: \nrest";
    assert_eq!(
        classify_error_body(body),
        Some(Error::IllegalState {
            message: "".to_string()
        })
    );
}
