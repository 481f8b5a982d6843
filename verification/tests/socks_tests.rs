use aether::socks::{connect_request, greeting_accepted, reply_tail, ReplyTail, GREETING};

#[test]
fn greeting_offers_no_authentication() {
    assert_eq!(GREETING, [5, 1, 0]);
    assert!(greeting_accepted([5, 0]));
    assert!(!greeting_accepted([5, 0xff]));
    assert!(!greeting_accepted([4, 0]));
}

#[test]
fn connect_request_by_domain_name() {
    let r = connect_request(b"1.1.1.1", 443).expect("a short host");
    assert_eq!(r, vec![5, 1, 0, 3, 7, b'1', b'.', b'1', b'.', b'1', b'.', b'1', 1, 187]);
    let long = vec![b'a'; 256];
    assert!(connect_request(&long, 80).is_none());
    let max = vec![b'a'; 255];
    assert_eq!(connect_request(&max, 80).map(|v| v.len()), Some(5 + 255 + 2));
}

#[test]
fn reply_heads() {
    assert_eq!(reply_tail([5, 0, 0, 1]), Some(ReplyTail::Fixed(6)));
    assert_eq!(reply_tail([5, 0, 0, 4]), Some(ReplyTail::Fixed(18)));
    assert_eq!(reply_tail([5, 0, 0, 3]), Some(ReplyTail::Named));
    assert_eq!(reply_tail([5, 0, 0, 9]), None);
    assert_eq!(reply_tail([5, 1, 0, 1]), None);
}
