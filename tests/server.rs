use chat::broker::Broker;
use chat::header::{ServerHeader, Timestamp};
use chat::server::{
    decode_filename, filename_len, login_reply, login_request, message_head, notice_head,
    plan_content, ContentPlan, BUF_SIZE, SPILL_ID_LEN,
};
use chat::wire::{decode_frame, encode_frame};
use chat::{Descriptor, MessageType};

fn t0() -> Timestamp {
    Timestamp::new(1_600_000_000, 0).unwrap()
}

fn desc(kind: MessageType, header_len: u16, content_len: u64) -> Descriptor {
    Descriptor::from(kind).with_header_len(header_len).with_content_len(content_len)
}

#[test]
fn join_registers_new_user() {
    let mut b: Broker<u32> = Broker::new();
    assert_eq!(b.len(), 0);
    assert_eq!(b.join("alice".to_string(), 1), MessageType::Login);
    assert!(b.contains(&"alice".to_string()));
    assert_eq!(b.len(), 1);
}

#[test]
fn duplicate_join_changes_nothing() {
    let mut b: Broker<u32> = Broker::new();
    b.join("alice".to_string(), 1);
    assert_eq!(b.join("alice".to_string(), 2), MessageType::UsernameExists);
    assert_eq!(b.len(), 1);
    assert_eq!(b.subscribers()[0].queue, 1);
}

#[test]
fn logout_removes_and_returns_queue() {
    let mut b: Broker<u32> = Broker::new();
    b.join("alice".to_string(), 1);
    b.join("bob".to_string(), 2);
    assert_eq!(b.logout(&"alice".to_string()), Some(1));
    assert!(!b.contains(&"alice".to_string()));
    assert!(b.contains(&"bob".to_string()));
    assert_eq!(b.len(), 1);
    assert_eq!(b.logout(&"alice".to_string()), None);
    assert_eq!(b.len(), 1);
}

#[test]
fn registry_size_counts_accepted_joins_less_logouts() {
    let mut b: Broker<u32> = Broker::new();
    let mut accepted = 0usize;
    let mut logouts = 0usize;
    for (i, name) in ["a", "b", "a", "c", "b"].iter().enumerate() {
        if b.join(name.to_string(), i as u32) == MessageType::Login {
            accepted += 1;
        }
    }
    for name in ["a", "c"] {
        b.logout(&name.to_string());
        logouts += 1;
    }
    assert_eq!(accepted, 3);
    assert_eq!(b.len(), accepted - logouts);
}

#[test]
fn subscribers_in_registration_order() {
    let mut b: Broker<u32> = Broker::new();
    b.join("x".to_string(), 10);
    b.join("y".to_string(), 20);
    let names: Vec<&str> = b.subscribers().iter().map(|s| s.username.as_str()).collect();
    assert_eq!(names, vec!["x", "y"]);
}

#[test]
fn content_plan_threshold() {
    assert!(matches!(plan_content(0), ContentPlan::InMemory));
    assert!(matches!(plan_content(BUF_SIZE as u64), ContentPlan::InMemory));
    match plan_content(BUF_SIZE as u64 + 1) {
        ContentPlan::Spill(id) => assert_eq!(id.len(), SPILL_ID_LEN),
        ContentPlan::InMemory => panic!("large content must spill"),
    }
}

#[test]
fn spill_ids_are_fresh() {
    let a = match plan_content(102400) {
        ContentPlan::Spill(id) => id,
        ContentPlan::InMemory => panic!("expected a spill"),
    };
    let b = match plan_content(102400) {
        ContentPlan::Spill(id) => id,
        ContentPlan::InMemory => panic!("expected a spill"),
    };
    assert_ne!(a, b);
}

#[test]
fn filename_decoding() {
    assert_eq!(decode_filename(b"a.txt".to_vec()), "a.txt");
    assert_eq!(decode_filename(vec![0xff, 0xfe]), "");
    assert_eq!(decode_filename(Vec::new()), "");
}

#[test]
fn filename_len_only_for_files() {
    assert_eq!(filename_len(&desc(MessageType::File, 5, 3)), 5);
    assert_eq!(filename_len(&desc(MessageType::Utf8, 5, 3)), 0);
}

#[test]
fn login_request_outcomes() {
    let login = desc(MessageType::Login, 5, 0);
    assert_eq!(login_request(&login, b"alice".to_vec()), Ok("alice".to_string()));
    assert_eq!(
        login_request(&desc(MessageType::Utf8, 5, 0), b"alice".to_vec()),
        Err(Descriptor::from(MessageType::BadLogin))
    );
    assert_eq!(
        login_request(&desc(MessageType::Login, 2, 0), vec![0xc3, 0x28]),
        Err(Descriptor::from(MessageType::BadUsername))
    );
}

#[test]
fn login_reply_outcomes() {
    assert_eq!(login_reply(MessageType::Login), (Descriptor::from(MessageType::Login), true));
    assert_eq!(
        login_reply(MessageType::UsernameExists),
        (Descriptor::from(MessageType::UsernameExists), false)
    );
}

#[test]
fn message_head_overwrites_header_len() {
    let d = desc(MessageType::File, 5, 3);
    let (d2, h) = message_head(d, "alice".to_string(), Some("a.txt".to_string()), t0()).unwrap();
    let expected = ServerHeader::new(t0())
        .with_username("alice".to_string())
        .with_filename("a.txt".to_string())
        .to_json();
    assert_eq!(h, expected);
    assert_eq!(d2, d.with_header_len(h.len() as u16));
    assert_eq!(d2.content_len, 3);
}

#[test]
fn message_head_rejects_oversized_header() {
    let long = "x".repeat(70_000);
    assert!(message_head(desc(MessageType::Utf8, 0, 1), long, None, t0()).is_none());
}

fn header_json(h: &[u8]) -> serde_json::Value {
    serde_json::from_slice(h).unwrap()
}

/// Fan-out of one broadcast unit to every subscriber's inbox.
fn fan_out(b: &Broker<usize>, inboxes: &mut [Vec<Vec<u8>>], frame: &[u8]) {
    for s in b.subscribers() {
        inboxes[s.queue].push(frame.to_vec());
    }
}

#[test]
fn login_success() {
    let mut b: Broker<usize> = Broker::new();
    let sent = desc(MessageType::Login, 5, 0);
    let name = login_request(&sent, b"alice".to_vec()).unwrap();
    let (reply, started) = login_reply(b.join(name, 0));
    assert!(started);
    assert_eq!(reply, desc(MessageType::Login, 0, 0));
    assert_eq!(reply.as_bytes()[..2], [1, 0]);
    assert!(b.contains(&"alice".to_string()));
}

#[test]
fn duplicate_username() {
    let mut b: Broker<usize> = Broker::new();
    b.join("alice".to_string(), 0);
    let name = login_request(&desc(MessageType::Login, 5, 0), b"alice".to_vec()).unwrap();
    let (reply, started) = login_reply(b.join(name, 1));
    assert!(!started);
    assert_eq!(reply, desc(MessageType::UsernameExists, 0, 0));
    assert_eq!(b.len(), 1);
    assert_eq!(b.subscribers()[0].queue, 0);
}

#[test]
fn text_fan_out() {
    let mut b: Broker<usize> = Broker::new();
    b.join("alice".to_string(), 0);
    b.join("bob".to_string(), 1);
    let mut inboxes = vec![Vec::new(), Vec::new()];
    let sent = desc(MessageType::Utf8, 0, 5);
    assert!(sent.kind.carries_payload());
    assert_eq!(filename_len(&sent), 0);
    assert!(matches!(plan_content(sent.content_len), ContentPlan::InMemory));
    let (d, h) = message_head(sent, "alice".to_string(), None, t0()).unwrap();
    let frame = encode_frame(&d, &h, b"hello");
    fan_out(&b, &mut inboxes, &frame);
    for inbox in &inboxes {
        assert_eq!(inbox.len(), 1);
        let (rd, rh, rc) = decode_frame(&inbox[0]).unwrap();
        assert_eq!(rd.kind, MessageType::Utf8);
        assert_eq!(header_json(&rh)["from"], "alice");
        assert_eq!(rc, b"hello".to_vec());
    }
    assert_eq!(inboxes[0], inboxes[1]);
}

#[test]
fn small_file_fan_out() {
    let mut b: Broker<usize> = Broker::new();
    b.join("alice".to_string(), 0);
    b.join("bob".to_string(), 1);
    let mut inboxes = vec![Vec::new(), Vec::new()];
    let sent = desc(MessageType::File, 5, 3);
    let name = decode_filename(b"a.txt"[..filename_len(&sent)].to_vec());
    assert!(matches!(plan_content(sent.content_len), ContentPlan::InMemory));
    let (d, h) = message_head(sent, "alice".to_string(), Some(name), t0()).unwrap();
    let frame = encode_frame(&d, &h, &[1, 2, 3]);
    fan_out(&b, &mut inboxes, &frame);
    for inbox in &inboxes {
        let (rd, rh, rc) = decode_frame(&inbox[0]).unwrap();
        assert_eq!(rd.kind, MessageType::File);
        let v = header_json(&rh);
        assert_eq!(v["from"], "alice");
        assert_eq!(v["filename"], "a.txt");
        assert_eq!(rc, vec![1, 2, 3]);
    }
}

#[test]
fn large_file_spill() {
    let sent = desc(MessageType::File, 5, 102400);
    assert!(matches!(plan_content(sent.content_len), ContentPlan::Spill(_)));
    let content: Vec<u8> = (0..102400u32).map(|i| (i % 251) as u8).collect();
    let (d, h) = message_head(sent, "alice".to_string(), Some("big.bin".to_string()), t0()).unwrap();
    let (rd, _, rc) = decode_frame(&encode_frame(&d, &h, &content)).unwrap();
    assert_eq!(rd.content_len, 102400);
    assert_eq!(rc, content);
}

#[test]
fn logout_broadcast() {
    let mut b: Broker<usize> = Broker::new();
    b.join("alice".to_string(), 0);
    b.join("bob".to_string(), 1);
    let mut inboxes = vec![Vec::new(), Vec::new()];
    assert_eq!(b.logout(&"alice".to_string()), Some(0));
    let (d, h) = notice_head(MessageType::Logout, "alice".to_string(), t0()).unwrap();
    fan_out(&b, &mut inboxes, &encode_frame(&d, &h, &[]));
    assert!(inboxes[0].is_empty());
    let (rd, rh, rc) = decode_frame(&inboxes[1][0]).unwrap();
    assert_eq!(rd.kind, MessageType::Logout);
    assert_eq!(rd.content_len, 0);
    assert_eq!(header_json(&rh)["from"], "alice");
    assert!(rc.is_empty());
}

#[test]
fn join_notice() {
    let (d, h) = notice_head(MessageType::Login, "carol".to_string(), t0()).unwrap();
    assert_eq!(d.kind, MessageType::Login);
    assert_eq!(d.header_len as usize, h.len());
    assert_eq!(d.content_len, 0);
    assert_eq!(
        String::from_utf8(h).unwrap(),
        r#"{"timestamp":"2020-09-13T12:26:40Z","from":"carol"}"#
    );
}

#[test]
fn continuous_subscriber_sees_every_message_in_order() {
    let mut b: Broker<usize> = Broker::new();
    b.join("alice".to_string(), 0);
    b.join("bob".to_string(), 1);
    let mut inboxes = vec![Vec::new(), Vec::new(), Vec::new()];
    for i in 0..3u8 {
        fan_out(&b, &mut inboxes, &[i]);
        if i == 0 {
            b.join("carol".to_string(), 2);
        }
    }
    assert_eq!(inboxes[0], vec![vec![0u8], vec![1], vec![2]]);
    assert_eq!(inboxes[1], inboxes[0]);
    assert_eq!(inboxes[2], vec![vec![1u8], vec![2]]);
}
