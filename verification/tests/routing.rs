use tdlib_rs::msg::Message;
use tdlib_rs::registry::{PollOutcome, Registry};

fn response_tagged(id: u32, note: &str) -> Message {
    Message {
        has_extra: true,
        extra: Some(id),
        client_id: None,
        code: None,
        reason: None,
        body: note.to_string(),
    }
}

#[test]
fn notify_without_waiter_is_noop() {
    let mut reg = Registry::new();
    reg.notify(response_tagged(9, "stale"));
    assert!(matches!(reg.try_recv(9), PollOutcome::Closed));
}

#[test]
fn notify_with_unreadable_tag_is_noop() {
    let mut reg = Registry::new();
    reg.subscribe(1);
    let mut m = response_tagged(1, "unreadable tag");
    m.extra = None;
    reg.notify(m);
    assert!(matches!(reg.try_recv(1), PollOutcome::Pending));
}

#[test]
fn response_reaches_matching_waiter_only() {
    let mut reg = Registry::new();
    reg.subscribe(1);
    reg.subscribe(2);
    reg.notify(response_tagged(2, "for two"));
    assert!(matches!(reg.try_recv(1), PollOutcome::Pending));
    match reg.try_recv(2) {
        PollOutcome::Ready(m) => assert_eq!(m.body, "for two"),
        _ => panic!("waiter two should hold its response"),
    }
}

#[test]
fn fulfilled_response_is_taken_once() {
    let mut reg = Registry::new();
    reg.subscribe(4);
    reg.notify(response_tagged(4, "once"));
    assert!(matches!(reg.try_recv(4), PollOutcome::Ready(_)));
    assert!(matches!(reg.try_recv(4), PollOutcome::Closed));
}

#[test]
fn duplicate_notification_is_discarded() {
    let mut reg = Registry::new();
    reg.subscribe(6);
    reg.notify(response_tagged(6, "first"));
    reg.notify(response_tagged(6, "second"));
    match reg.try_recv(6) {
        PollOutcome::Ready(m) => assert_eq!(m.body, "first"),
        _ => panic!("the first delivery should stand"),
    }
}

#[test]
fn unsubscribed_poll_reports_closed() {
    let mut reg = Registry::new();
    assert!(matches!(reg.try_recv(0), PollOutcome::Closed));
}
