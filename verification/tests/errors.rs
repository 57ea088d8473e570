use kanal::Error;
use kanal::ErrorTimeout;

#[test]
fn error_messages() {
    assert_eq!(Error::Closed.message(), "channel is closed");
    assert_eq!(Error::SendClosed.message(), "channel send side is closed");
    assert_eq!(Error::ReceiveClosed.message(), "channel receive side is closed");
}

#[test]
fn timeout_error_messages() {
    assert_eq!(ErrorTimeout::Closed.message(), "channel is closed");
    assert_eq!(ErrorTimeout::SendClosed.message(), "channel send side is closed");
    assert_eq!(ErrorTimeout::ReceiveClosed.message(), "channel receive side is closed");
    assert_eq!(ErrorTimeout::Timeout.message(), "channel operation timeout");
}

#[test]
fn errors_keep_their_kind_under_a_deadline() {
    assert_eq!(Error::Closed.with_deadline(), ErrorTimeout::Closed);
    assert_eq!(Error::SendClosed.with_deadline(), ErrorTimeout::SendClosed);
    assert_eq!(Error::ReceiveClosed.with_deadline(), ErrorTimeout::ReceiveClosed);
}
