use obs_rs::capture::{helper_reply, with_diagnostics, CaptureError, MAX_DISCOVERY_REPLY_BYTES};

#[test]
fn diagnostics_follow_the_message_after_a_colon() {
    assert_eq!(with_diagnostics("wait for helper: denied", ""), "wait for helper: denied");
    assert_eq!(
        with_diagnostics("Windows capture helper did not finish within 10 seconds", "stuck"),
        "Windows capture helper did not finish within 10 seconds: stuck"
    );
}

#[test]
fn oversized_reply_is_refused_before_the_exit_status() {
    assert_eq!(
        helper_reply("x".to_owned(), MAX_DISCOVERY_REPLY_BYTES + 1, false, "exit code: 1", ""),
        Err(CaptureError::ReplyTooLarge { bytes: MAX_DISCOVERY_REPLY_BYTES + 1 })
    );
}

#[test]
fn failed_exit_is_a_protocol_error_with_diagnostics() {
    assert_eq!(
        helper_reply(String::new(), 0, false, "exit code: 2", "no display"),
        Err(CaptureError::Protocol {
            message: "Windows capture helper exited with exit code: 2: no display".to_owned()
        })
    );
}

#[test]
fn successful_reply_is_returned_unchanged() {
    assert_eq!(
        helper_reply("{\"ok\":true}".to_owned(), MAX_DISCOVERY_REPLY_BYTES, true, "exit code: 0", "warn"),
        Ok("{\"ok\":true}".to_owned())
    );
}
