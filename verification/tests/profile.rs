use rustrict::{CensorStr, Type};
use gd_profiles::gd::{delete_messages_url, deletion_form, gjp2, message_form, messages_url, response_failed};
use gd_profiles::profile::{
    text_is, valid_url_check, validate_profile, BIO_THRESHOLD, PRONOUNS_THRESHOLD, TYPE_EVASIVE,
    TYPE_MEAN, TYPE_OFFENSIVE, TYPE_PROFANE, TYPE_SEVERE, TYPE_SEXUAL,
};
use gd_profiles::structs::{GenericError, ProfanityErrorType, Profile};

fn profile(id: i64) -> Profile {
    Profile {
        id,
        bio: None,
        pronouns: None,
        website: None,
        social_github: None,
        social_bluesky: None,
        social_fediverse: None,
        social_discord: None,
        social_matrix: None,
        social_tumblr: None,
        social_myspace: None,
        social_facebook: None,
        color1: Some(0xff00ff),
        color2: None,
    }
}

#[test]
#[allow(deprecated)]
fn thresholds_are_rustrict_types() {
    assert_eq!(TYPE_PROFANE, Type::PROFANE.bits());
    assert_eq!(TYPE_OFFENSIVE, Type::OFFENSIVE.bits());
    assert_eq!(TYPE_SEXUAL, Type::SEXUAL.bits());
    assert_eq!(TYPE_MEAN, Type::MEAN.bits());
    assert_eq!(TYPE_EVASIVE, Type::EVASIVE.bits());
    assert_eq!(TYPE_SEVERE, Type::SEVERE.bits());
    assert_eq!(PRONOUNS_THRESHOLD, (Type::SEVERE | Type::OFFENSIVE | Type::MEAN | Type::SEXUAL).bits());
    assert_eq!(BIO_THRESHOLD, (Type::SEVERE | Type::EVASIVE | Type::PROFANE).bits());
}

#[test]
fn text_is_agrees_with_rustrict() {
    for text in ["hello there", "she/her", "fuck you", "f u c k", "you are a bitch", ""] {
        assert_eq!(text_is(text, TYPE_SEVERE), text.is(Type::SEVERE));
        assert_eq!(text_is(text, PRONOUNS_THRESHOLD), text.is(Type::SEVERE | Type::OFFENSIVE | Type::MEAN | Type::SEXUAL));
    }
}

#[test]
fn plain_profile_is_accepted() {
    let mut p = profile(5);
    p.pronouns = Some("they/them".to_string());
    p.bio = Some("I like making levels.".to_string());
    p.website = Some("https://example.com/me".to_string());
    assert_eq!(validate_profile(5, &p), Ok(()));
    assert_eq!(validate_profile(5, &profile(5)), Ok(()));
}

#[test]
fn other_accounts_profile_is_refused() {
    assert_eq!(validate_profile(6, &profile(5)), Err(GenericError::InvalidAuthenticationError));
}

#[test]
fn profane_fields_are_refused() {
    let bad = "fuck you bitch";
    assert!(bad.is(Type::SEVERE | Type::PROFANE));
    let mut p = profile(5);
    p.bio = Some(bad.to_string());
    assert_eq!(validate_profile(5, &p), Err(GenericError::ProfanityError(ProfanityErrorType::Bio)));
    let mut q = profile(5);
    q.pronouns = Some(bad.to_string());
    q.bio = Some(bad.to_string());
    if bad.is(Type::SEVERE | Type::OFFENSIVE | Type::MEAN | Type::SEXUAL) {
        assert_eq!(validate_profile(5, &q), Err(GenericError::ProfanityError(ProfanityErrorType::Pronouns)));
    }
}

#[test]
fn bad_website_is_refused() {
    let mut p = profile(5);
    p.website = Some("not a url".to_string());
    assert_eq!(validate_profile(5, &p), Err(GenericError::InvalidWebsiteError));
    p.website = Some(String::new());
    assert_eq!(validate_profile(5, &p), Ok(()));
}

#[test]
fn url_check() {
    assert!(valid_url_check("https://a.b"));
    assert!(valid_url_check("http://x"));
    assert!(!valid_url_check("https://"));
    assert!(!valid_url_check("http://"));
    assert!(!valid_url_check("ftp://x"));
    assert!(!valid_url_check("https://a b"));
    assert!(!valid_url_check("https://a\tb"));
    assert!(!valid_url_check(""));
}

#[test]
fn gd_requests() {
    let h = gjp2("hunter2");
    assert_eq!(h, "dcc58eb53f0c1604c19240834e7fd12e73f9a9c7");
    assert_eq!(messages_url("https://s"), "https://s/database/getGJMessages20.php");
    assert_eq!(delete_messages_url("https://s"), "https://s/database/deleteGJMessages20.php");
    let f = message_form("12", "abc");
    assert_eq!(
        f,
        vec![
            ("secret".to_string(), "Wmfd2893gb7".to_string()),
            ("accountID".to_string(), "12".to_string()),
            ("gjp2".to_string(), "abc".to_string()),
        ]
    );
    let d = deletion_form("12", "abc", "1,2");
    assert_eq!(d.len(), 4);
    assert_eq!(d[3], ("messages".to_string(), "1,2".to_string()));
    assert!(response_failed(500, "ok"));
    assert!(response_failed(200, "-1"));
    assert!(!response_failed(200, "1:2"));
}
