use tdlib_rs::create_client;
use tdlib_rs::dispatch::{on_response, Core, Step};
use tdlib_rs::msg::Message;
use tdlib_rs::registry::PollOutcome;

fn take_ready(core: &mut Core, id: u32) -> Message {
    match core.poll(id) {
        PollOutcome::Ready(m) => m,
        PollOutcome::Pending => panic!("response for {} not delivered yet", id),
        PollOutcome::Closed => panic!("waiter for {} vanished", id),
    }
}

#[test]
fn handle_factory_wraps_minted_integer() {
    let h = create_client(5);
    assert_eq!(h.id(), 5);
}

#[test]
fn tagging_attaches_fresh_id_and_keeps_fields() {
    let mut core = Core::new();
    let body = r#"{"@type":"getMe","name":"bob"}"#;
    let (id, payload) = core.begin_request(body).expect("object bodies can be tagged");
    let v: serde_json::Value = serde_json::from_str(&payload).expect("payload is a document");
    assert_eq!(v["@extra"], serde_json::Value::from(id));
    assert_eq!(v["@type"], serde_json::Value::from("getMe"));
    assert_eq!(v["name"], serde_json::Value::from("bob"));
}

#[test]
fn untaggable_body_starts_nothing() {
    let mut core = Core::new();
    assert!(core.begin_request("not a document").is_none());
    assert!(core.begin_request("[1,2]").is_none());
    // the failed starts issued no id: the next attempt still gets the first
    let (id, _) = core.begin_request("{}").unwrap();
    assert_eq!(id, 0);
}

#[test]
fn concurrent_requests_get_their_own_responses_out_of_order() {
    let mut core = Core::new();
    let (id_a, _) = core.begin_request(r#"{"which":"a"}"#).unwrap();
    let (id_b, _) = core.begin_request(r#"{"which":"b"}"#).unwrap();
    assert_ne!(id_a, id_b);
    let resp_b = format!(r#"{{"@extra":{},"answer":"for b"}}"#, id_b);
    let resp_a = format!(r#"{{"@extra":{},"answer":"for a"}}"#, id_a);
    // delivered in the opposite of send order
    assert!(core.receive(Some(&resp_b)).is_none());
    assert!(core.receive(Some(&resp_a)).is_none());
    let got_a = take_ready(&mut core, id_a);
    let got_b = take_ready(&mut core, id_b);
    assert_eq!(got_a.body, resp_a);
    assert_eq!(got_b.body, resp_b);
}

#[test]
fn rate_limited_request_backs_off_and_retries_fresh() {
    let mut core = Core::new();
    let body = r#"{"@type":"sendMessage","text":"hi"}"#;
    let (id0, payload0) = core.begin_request(body).unwrap();
    let limited = format!(
        r#"{{"@extra":{},"code":429,"message":"Too many requests: retry after 5"}}"#,
        id0
    );
    assert!(core.receive(Some(&limited)).is_none());
    let first = take_ready(&mut core, id0);
    let secs = match on_response(first) {
        Step::Retry { secs } => secs,
        Step::Done(_) => panic!("a recognized rate limit must retry"),
    };
    assert!(secs >= 5);
    assert_eq!(secs, 5);
    // the retry carries the same fields under a fresh id
    let (id1, payload1) = core.begin_request(body).unwrap();
    assert_ne!(id1, id0);
    let mut v0: serde_json::Value = serde_json::from_str(&payload0).unwrap();
    let mut v1: serde_json::Value = serde_json::from_str(&payload1).unwrap();
    assert_eq!(v1["@extra"], serde_json::Value::from(id1));
    v0.as_object_mut().unwrap().remove("@extra");
    v1.as_object_mut().unwrap().remove("@extra");
    assert_eq!(v0, v1);
    // only the eventual non-rate-limited response comes back
    let real = format!(r#"{{"@extra":{},"ok":true}}"#, id1);
    assert!(core.receive(Some(&real)).is_none());
    let second = take_ready(&mut core, id1);
    match on_response(second) {
        Step::Done(d) => assert_eq!(d.body, real),
        Step::Retry { .. } => panic!("a plain response must come back unchanged"),
    }
}

#[test]
fn rate_limit_without_readable_demand_is_returned_as_is() {
    let mut core = Core::new();
    let (id, _) = core.begin_request("{}").unwrap();
    let limited = format!(
        r#"{{"@extra":{},"code":429,"message":"Too many requests: try later"}}"#,
        id
    );
    assert!(core.receive(Some(&limited)).is_none());
    let m = take_ready(&mut core, id);
    match on_response(m) {
        Step::Done(d) => {
            assert_eq!(d.code, Some(429));
            assert_eq!(d.body, limited);
        },
        Step::Retry { .. } => panic!("an unreadable demand is not specially handled"),
    }
}

#[test]
fn matching_reason_without_rate_limit_status_is_no_retry() {
    let m = Message {
        has_extra: true,
        extra: Some(0),
        client_id: None,
        code: Some(200),
        reason: Some("retry after 5".to_string()),
        body: "{}".to_string(),
    };
    match on_response(m) {
        Step::Done(d) => assert_eq!(d.code, Some(200)),
        Step::Retry { .. } => panic!("only the reserved status triggers a retry"),
    }
}

#[test]
fn updates_are_paired_with_their_session() {
    let mut core = Core::new();
    let upd = r#"{"@client_id":3,"@type":"updateNewMessage","text":"x"}"#;
    let (message, client) = core.receive(Some(upd)).expect("a handled update comes out");
    assert_eq!(client.id(), 3);
    assert_eq!(message.body, upd);
    assert!(!message.has_extra);
}

#[test]
fn dropped_messages_do_not_corrupt_later_classification() {
    let mut core = Core::new();
    let (id, _) = core.begin_request(r#"{"q":1}"#).unwrap();
    // a non-document, a handle-less document, and out-of-range handles: all dropped
    assert!(core.receive(Some("not a document")).is_none());
    assert!(core.receive(Some(r#"{"foo":1}"#)).is_none());
    assert!(core.receive(Some(r#"{"@client_id":-1,"foo":1}"#)).is_none());
    assert!(core.receive(Some(r#"{"@client_id":4294967296,"foo":1}"#)).is_none());
    // a silent transport tick changes nothing either
    assert!(core.receive(None).is_none());
    // the next valid update is still classified
    let (message, client) = core.receive(Some(r#"{"@client_id":7,"k":2}"#)).unwrap();
    assert_eq!(client.id(), 7);
    assert_eq!(message.client_id, Some(7));
    // and the earlier waiter is intact
    assert!(matches!(core.poll(id), PollOutcome::Pending));
    let resp = format!(r#"{{"@extra":{},"done":true}}"#, id);
    assert!(core.receive(Some(&resp)).is_none());
    assert_eq!(take_ready(&mut core, id).body, resp);
}

#[test]
fn tagged_message_is_never_an_update() {
    let mut core = Core::new();
    // carries the tag field, so it is a response even with a handle present
    assert!(core
        .receive(Some(r#"{"@extra":99,"@client_id":3,"k":1}"#))
        .is_none());
    // stale: nobody waits for 99
    assert!(matches!(core.poll(99), PollOutcome::Closed));
    // a present but unreadable tag still routes to the response path
    assert!(core
        .receive(Some(r#"{"@extra":"zz","@client_id":3,"k":1}"#))
        .is_none());
}

#[test]
fn issued_ids_are_pairwise_distinct() {
    let mut core = Core::new();
    let mut ids: Vec<u32> = Vec::new();
    for k in 0..100 {
        let body = format!(r#"{{"n":{}}}"#, k);
        let (id, _) = core.begin_request(&body).unwrap();
        ids.push(id);
    }
    for a in 0..ids.len() {
        for b in (a + 1)..ids.len() {
            assert_ne!(ids[a], ids[b]);
        }
    }
}
