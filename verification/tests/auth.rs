use gd_profiles::auth::{
    auth_code, auth_completions, deletion_list, find_challenge, judge_completion, new_challenge,
    new_token, parse_bot_account_id, parse_challenge_id, AuthStuff, CompletionCheck, CompletionPoll,
    CompletionStep, step_for, CHALLENGE_LEN, MAX_TRIES, TOKEN_LEN,
};
use gd_profiles::structs::{Challenge, GDMessage, GenericError};

fn msg(id: &str, from: i64, subject: &str) -> GDMessage {
    GDMessage { id: id.to_string(), from, subject: subject.to_string() }
}

#[test]
fn bot_account_id_parses_like_u32() {
    assert_eq!(parse_bot_account_id("12345"), Some(12345));
    assert_eq!(parse_bot_account_id("+7"), Some(7));
    assert_eq!(parse_bot_account_id("007"), Some(7));
    assert_eq!(parse_bot_account_id("4294967295"), Some(u32::MAX));
    assert_eq!(parse_bot_account_id("4294967296"), None);
    assert_eq!(parse_bot_account_id("-1"), None);
    assert_eq!(parse_bot_account_id("-0"), None);
    assert_eq!(parse_bot_account_id(""), None);
    assert_eq!(parse_bot_account_id("+"), None);
    assert_eq!(parse_bot_account_id("1 "), None);
    for s in ["0", "99999999999999999999999", "12a", "٣"] {
        assert_eq!(parse_bot_account_id(s), s.parse::<u32>().ok());
    }
}

#[test]
fn new_challenge_shape() {
    let c = new_challenge(42);
    assert_eq!(c.bot_account_id, 42);
    assert_eq!(c.challenge.chars().count(), CHALLENGE_LEN);
    assert!(c.challenge.chars().all(|ch| ch.is_ascii_alphanumeric()));
    let u = uuid::Uuid::from_u128(c.id);
    assert_eq!(u.get_version_num(), 4);
    assert_eq!(u.get_variant(), uuid::Variant::RFC4122);
}

#[test]
fn token_shape() {
    let t = new_token();
    assert_eq!(t.len(), TOKEN_LEN);
    assert!(t.chars().all(|ch| ch.is_ascii_alphanumeric()));
}

#[test]
fn challenge_id_parsing() {
    let id = parse_challenge_id("67e55044-10b1-426f-9247-bb680e5fe0c8").unwrap();
    assert_eq!(id, 0x67e5504410b1426f9247bb680e5fe0c8);
    assert_eq!(parse_challenge_id("not a uuid"), Err(GenericError::UuidError));
}

#[test]
fn find_challenge_first_match() {
    let mk = |id: u128| Challenge { bot_account_id: 1, challenge: "x".to_string(), id };
    let pending = vec![(1, mk(5)), (2, mk(9)), (3, mk(9))];
    assert_eq!(find_challenge(&pending, 9), Some(1));
    assert_eq!(find_challenge(&pending, 5), Some(0));
    assert_eq!(find_challenge(&pending, 4), None);
    assert_eq!(find_challenge(&Vec::new(), 4), None);
}

#[test]
fn poll_allows_seven_looks() {
    let mut poll = CompletionPoll::new();
    let mut allowed = 0;
    for _ in 0..20 {
        if poll.next_attempt() {
            allowed += 1;
        }
    }
    assert_eq!(allowed, MAX_TRIES);
    assert_eq!(poll.tries_made(), MAX_TRIES);
}

#[test]
fn judge() {
    let expected = "abc".to_string();
    assert_eq!(judge_completion(&None, &expected), CompletionCheck::Pending);
    assert_eq!(judge_completion(&Some("abc".to_string()), &expected), CompletionCheck::Matched);
    assert_eq!(judge_completion(&Some("abd".to_string()), &expected), CompletionCheck::Mismatched);
}

#[test]
fn auth_codes() {
    assert_eq!(auth_code(&"auth-XYZ".to_string()), Some("XYZ".to_string()));
    assert_eq!(auth_code(&"auth-auth-XYZ".to_string()), Some("XYZ".to_string()));
    assert_eq!(auth_code(&"auth-".to_string()), Some("".to_string()));
    assert_eq!(auth_code(&"hello".to_string()), None);
    assert_eq!(auth_code(&"auth".to_string()), None);
    assert_eq!(auth_code(&"Auth-x".to_string()), None);
}

#[test]
fn completions_and_deletion_list() {
    let msgs = vec![msg("11", 1, "auth-A1"), msg("12", 2, "hi"), msg("13", 3, "auth-B2")];
    assert_eq!(
        auth_completions(&msgs),
        vec![(1, "A1".to_string()), (3, "B2".to_string())]
    );
    assert_eq!(deletion_list(&msgs), "11,12,13");
    assert_eq!(deletion_list(&vec![msg("5", 1, "")]), "5");
    assert_eq!(deletion_list(&Vec::new()), "");
}

#[test]
fn challenge_round_trip_through_store() {
    let stuff = AuthStuff::new();
    let c = stuff.request_challenge(77, 1000);
    assert_eq!(c.bot_account_id, 1000);
    let (acc, found) = stuff.find_pending(c.id).unwrap();
    assert_eq!(acc, 77);
    assert_eq!(found.challenge, c.challenge);
    assert!(stuff.find_pending(c.id ^ 1).is_none());

    let mut poll = CompletionPoll::new();
    assert_eq!(stuff.completion_step(&mut poll, 77, &c.challenge).0, CompletionStep::Wait);

    let subject = format!("auth-{}", c.challenge);
    let ids = stuff.record_auth_messages(&vec![msg("900", 77, &subject), msg("901", 5, "x")]);
    assert_eq!(ids, "900,901");
    assert_eq!(stuff.completion_step(&mut poll, 77, &c.challenge).0, CompletionStep::Accepted);
    // the code was consumed
    assert_eq!(stuff.completion_step(&mut poll, 77, &c.challenge).0, CompletionStep::Wait);

    stuff.record_auth_messages(&vec![msg("902", 77, "auth-wrong")]);
    assert_eq!(stuff.completion_step(&mut poll, 77, &c.challenge).0, CompletionStep::Rejected);
    for _ in 0..3 {
        stuff.completion_step(&mut poll, 77, &c.challenge).0;
    }
    assert_eq!(stuff.completion_step(&mut poll, 77, &c.challenge).0, CompletionStep::OutOfTries);
}

#[test]
fn step_follows_the_look() {
    assert_eq!(step_for(CompletionCheck::Pending), CompletionStep::Wait);
    assert_eq!(step_for(CompletionCheck::Matched), CompletionStep::Accepted);
    assert_eq!(step_for(CompletionCheck::Mismatched), CompletionStep::Rejected);

    let stuff = AuthStuff::new();
    let mut poll = CompletionPoll::new();
    stuff.record_auth_messages(&vec![msg("1", 9, "auth-good")]);
    let (step, seen) = stuff.completion_step(&mut poll, 9, &"good".to_string());
    assert_eq!(step, CompletionStep::Accepted);
    assert_eq!(seen, Some("good".to_string()));
    stuff.record_auth_messages(&vec![msg("2", 9, "auth-bad")]);
    let (step, seen) = stuff.completion_step(&mut poll, 9, &"good".to_string());
    assert_eq!(step, CompletionStep::Rejected);
    assert_eq!(seen, Some("bad".to_string()));
    // a rejected code is not consumed
    let (step, _) = stuff.completion_step(&mut poll, 9, &"good".to_string());
    assert_eq!(step, CompletionStep::Rejected);
}
