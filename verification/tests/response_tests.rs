use fortune_deck::response::generate_uuid_v4;

#[test]
fn response_keeps_given_metadata() {
    let resp = generate_uuid_v4(
        Some(String::from("203.0.113.7")),
        Some(String::from("curl/8.0")),
    );
    assert_eq!(resp.ip_address, "203.0.113.7");
    assert_eq!(resp.user_agent, "curl/8.0");
}

#[test]
fn response_substitutes_placeholders() {
    let resp = generate_uuid_v4(None, None);
    assert_eq!(resp.ip_address, "Unknown IP");
    assert_eq!(resp.user_agent, "Unknown User-Agent");
}

#[test]
fn response_uuid_is_hyphenated_v4() {
    let resp = generate_uuid_v4(None, None);
    let chars: Vec<char> = resp.uuid.chars().collect();
    assert_eq!(chars.len(), 36);
    for (i, c) in chars.iter().enumerate() {
        match i {
            8 | 13 | 18 | 23 => assert_eq!(*c, '-'),
            14 => assert_eq!(*c, '4'),
            _ => assert!(c.is_ascii_hexdigit() && !c.is_ascii_uppercase()),
        }
    }
}

#[test]
fn response_uuids_are_fresh_per_call() {
    let first = generate_uuid_v4(None, None);
    let second = generate_uuid_v4(None, None);
    assert_ne!(first.uuid, second.uuid);
}

#[test]
fn response_timestamp_looks_like_rfc3339() {
    let resp = generate_uuid_v4(None, None);
    assert!(resp.created_at.len() >= 19);
    let bytes = resp.created_at.as_bytes();
    assert_eq!(bytes[4], b'-');
    assert_eq!(bytes[7], b'-');
    assert_eq!(bytes[10], b'T');
    assert_eq!(bytes[13], b':');
    assert_eq!(bytes[16], b':');
}
