use gd_profiles::structs::GenericError;
use gd_profiles::utils::{default_server, listing_decodable, parse_gj_messages_response, proxy_list};

#[test]
fn empty_inbox_marker_gives_no_messages() {
    let msgs = parse_gj_messages_response("-2".to_string()).unwrap();
    assert_eq!(msgs.len(), 0);
}

#[test]
fn single_message_is_read() {
    let listing = "1:123:2:456:4:aGVsbG8=".to_string();
    assert!(listing_decodable(&listing));
    let msgs = parse_gj_messages_response(listing).unwrap();
    assert_eq!(msgs.len(), 1);
    assert_eq!(msgs[0].id, "123");
    assert_eq!(msgs[0].from, 456);
    assert_eq!(msgs[0].subject, "hello");
}

#[test]
fn messages_keep_listing_order() {
    let listing = "1:1:2:10:4:YXV0aC1hYmM=|1:2:2:20:4:aGVsbG8=".to_string();
    let msgs = parse_gj_messages_response(listing).unwrap();
    assert_eq!(msgs.len(), 2);
    assert_eq!(msgs[0].id, "1");
    assert_eq!(msgs[0].from, 10);
    assert_eq!(msgs[0].subject, "auth-abc");
    assert_eq!(msgs[1].id, "2");
    assert_eq!(msgs[1].from, 20);
    assert_eq!(msgs[1].subject, "hello");
}

#[test]
fn missing_keys_take_defaults() {
    let msgs = parse_gj_messages_response("7:x".to_string()).unwrap();
    assert_eq!(msgs.len(), 1);
    assert_eq!(msgs[0].id, "0");
    assert_eq!(msgs[0].from, 0);
    assert_eq!(msgs[0].subject, "");
}

#[test]
fn unreadable_sender_is_minus_one() {
    let msgs = parse_gj_messages_response("1:5:2:abc".to_string()).unwrap();
    assert_eq!(msgs[0].from, -1);
}

#[test]
fn later_value_for_a_key_wins() {
    let msgs = parse_gj_messages_response("1:5:1:6".to_string()).unwrap();
    assert_eq!(msgs[0].id, "6");
}

#[test]
fn trailing_spaces_are_dropped_from_values() {
    let msgs = parse_gj_messages_response("1:42   :2:9  ".to_string()).unwrap();
    assert_eq!(msgs[0].id, "42");
    assert_eq!(msgs[0].from, 9);
}

#[test]
fn subject_is_cut_at_nul() {
    let msgs = parse_gj_messages_response("4:aGVsbG8=\u{0}garbage".to_string()).unwrap();
    assert_eq!(msgs[0].subject, "hello");
}

#[test]
fn trailing_key_without_value_is_ignored() {
    let msgs = parse_gj_messages_response("1:3:2".to_string()).unwrap();
    assert_eq!(msgs[0].id, "3");
    assert_eq!(msgs[0].from, 0);
}

#[test]
fn unreadable_key_fails() {
    let res = parse_gj_messages_response("x:1".to_string());
    assert_eq!(res.unwrap_err(), GenericError::ParseIntError);
}

#[test]
fn key_out_of_i32_range_fails() {
    let res = parse_gj_messages_response("2147483648:1".to_string());
    assert_eq!(res.unwrap_err(), GenericError::ParseIntError);
    let ok = parse_gj_messages_response("-2147483648:1|+1:7".to_string()).unwrap();
    assert_eq!(ok.len(), 2);
    assert_eq!(ok[1].id, "7");
}

#[test]
fn error_in_a_later_message_fails_whole_listing() {
    let res = parse_gj_messages_response("1:1|:2".to_string());
    assert_eq!(res.unwrap_err(), GenericError::ParseIntError);
}

#[test]
fn empty_listing_fails() {
    let res = parse_gj_messages_response("".to_string());
    assert_eq!(res.unwrap_err(), GenericError::ParseIntError);
}

#[test]
fn non_ascii_subject_is_not_decodable() {
    assert!(!listing_decodable(&"1:1:4:é".to_string()));
    // a failing message before it stops the reading first
    assert!(listing_decodable(&"z|1:1:4:é".to_string()));
    // non-ASCII outside the subject is fine
    assert!(listing_decodable(&"1:é".to_string()));
    let msgs = parse_gj_messages_response("1:é".to_string()).unwrap();
    assert_eq!(msgs[0].id, "é");
}

#[test]
fn default_server_prefers_override() {
    assert_eq!(default_server(None), "https://www.boomlings.com");
    assert_eq!(default_server(Some("http://proxy".to_string())), "http://proxy");
}

#[test]
fn proxy_list_picks_from_list() {
    assert_eq!(proxy_list("d".to_string(), None), "d");
    let list = vec!["a".to_string(), "b".to_string(), "c".to_string()];
    for _ in 0..20 {
        let s = proxy_list("d".to_string(), Some(list.clone()));
        assert!(list.contains(&s));
    }
    assert_eq!(proxy_list("d".to_string(), Some(vec!["only".to_string()])), "only");
}
