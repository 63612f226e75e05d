//! What a profile update must satisfy before it is stored.

use vstd::prelude::*;

use crate::external::{profanity_analysis, profanity_bits};
use crate::structs::{GenericError, Profile, ProfanityErrorType};
use crate::text::chars_of;

verus! {

/// `rustrict::Type::PROFANE`.
pub const TYPE_PROFANE: u32 = 0b000_000_000_000_000_111;

/// `rustrict::Type::OFFENSIVE`.
pub const TYPE_OFFENSIVE: u32 = 0b000_000_000_000_111_000;

/// `rustrict::Type::SEXUAL`.
pub const TYPE_SEXUAL: u32 = 0b000_000_000_111_000_000;

/// `rustrict::Type::MEAN`.
pub const TYPE_MEAN: u32 = 0b000_000_111_000_000_000;

/// `rustrict::Type::EVASIVE`.
pub const TYPE_EVASIVE: u32 = 0b000_111_000_000_000_000;

/// `rustrict::Type::SEVERE`.
pub const TYPE_SEVERE: u32 = 0b100_100_100_100_100_100;

/// What pronouns may not be.
pub const PRONOUNS_THRESHOLD: u32 = TYPE_SEVERE | TYPE_OFFENSIVE | TYPE_MEAN | TYPE_SEXUAL;

/// What a bio may not be.
pub const BIO_THRESHOLD: u32 = TYPE_SEVERE | TYPE_EVASIVE | TYPE_PROFANE;

/// An analysis meets a threshold when they share a bit, as `Type::is` decides.
pub open spec fn meets(analysis: u32, threshold: u32) -> bool {
    analysis & threshold != 0
}

/// Whether `text` meets `threshold`, as `CensorStr::is` decides.
pub fn text_is(text: &str, threshold: u32) -> (res: bool)
    ensures
        res == meets(profanity_bits(text@), threshold),
{
    let analysis = profanity_analysis(text);
    analysis & threshold != 0
}

/// The characters that may not stand in a web address: space and the
/// control characters.
pub open spec fn is_url_space(c: char) -> bool {
    c <= ' ' || c == '\u{7f}'
}

pub open spec fn http_scheme() -> Seq<char> {
    seq!['h', 't', 't', 'p', ':', '/', '/']
}

pub open spec fn https_scheme() -> Seq<char> {
    seq!['h', 't', 't', 'p', 's', ':', '/', '/']
}

/// A web address: `http://` or `https://`, then at least one character, and
/// no space or control character anywhere. This is the service's own rule
/// for a profile's website; no outside crate decides it.
pub open spec fn valid_url(s: Seq<char>) -> bool {
    &&& (s.len() > 8 && s.take(8) == https_scheme()) || (s.len() > 7 && s.take(7) == http_scheme())
    &&& forall|i: int| 0 <= i < s.len() ==> !is_url_space(#[trigger] s[i])
}

/// Whether `s` begins with `prefix`.
fn starts_with_chars(s: &Vec<char>, prefix: &Vec<char>) -> (res: bool)
    ensures
        res == (prefix@.len() <= s@.len() && s@.take(prefix@.len() as int) == prefix@),
{
    if prefix.len() > s.len() {
        return false;
    }
    let mut i: usize = 0;
    while i < prefix.len()
        invariant
            prefix@.len() <= s@.len(),
            i <= prefix@.len(),
            forall|j: int| 0 <= j < i ==> s@[j] == prefix@[j],
        decreases prefix@.len() - i,
    {
        if s[i] != prefix[i] {
            assert(s@.take(prefix@.len() as int)[i as int] != prefix@[i as int]);
            return false;
        }
        i = i + 1;
    }
    assert(s@.take(prefix@.len() as int) =~= prefix@);
    true
}

/// Whether `website` is a web address the service accepts.
pub fn valid_url_check(website: &str) -> (res: bool)
    ensures
        res == valid_url(website@),
{
    let s = chars_of(website);
    let https: Vec<char> = vec!['h', 't', 't', 'p', 's', ':', '/', '/'];
    let http: Vec<char> = vec!['h', 't', 't', 'p', ':', '/', '/'];
    assert(https@ =~= https_scheme());
    assert(http@ =~= http_scheme());
    let scheme_ok = (s.len() > 8 && starts_with_chars(&s, &https)) || (s.len() > 7
        && starts_with_chars(&s, &http));
    if !scheme_ok {
        return false;
    }
    let mut i: usize = 0;
    while i < s.len()
        invariant
            i <= s@.len(),
            s@ == website@,
            forall|j: int| 0 <= j < i ==> !is_url_space(#[trigger] s@[j]),
        decreases s@.len() - i,
    {
        let c = s[i];
        if c <= ' ' || c == '\u{7f}' {
            return false;
        }
        i = i + 1;
    }
    true
}

/// The text of an optional field, empty when absent.
pub open spec fn text_or_empty(field: Option<String>) -> Seq<char> {
    match field {
        Some(t) => t@,
        None => Seq::<char>::empty(),
    }
}

/// The answer to a request to store `profile` as the profile of account `id`:
/// the profile must be the account's own, its pronouns and bio decent, and
/// its website, if given, a web address. Both bio checks read the analysis
/// with rustrict's built-in word list; no list of extra words is configured,
/// so the wider second threshold decides.
pub open spec fn profile_verdict(id: u32, profile: Profile) -> Result<(), GenericError> {
    let pronouns = text_or_empty(profile.pronouns);
    let website = text_or_empty(profile.website);
    if profile.id != id as i64 {
        Err(GenericError::InvalidAuthenticationError)
    } else if meets(profanity_bits(pronouns), PRONOUNS_THRESHOLD) {
        Err(GenericError::ProfanityError(ProfanityErrorType::Pronouns))
    } else if profile.bio matches Some(bio) && (meets(profanity_bits(bio@), TYPE_SEVERE) || meets(
        profanity_bits(bio@),
        BIO_THRESHOLD,
    )) {
        Err(GenericError::ProfanityError(ProfanityErrorType::Bio))
    } else if website.len() != 0 && !valid_url(website) {
        Err(GenericError::InvalidWebsiteError)
    } else {
        Ok(())
    }
}

/// Checks a profile that account `id` asks to store, after its token was
/// verified.
pub fn validate_profile(id: u32, profile: &Profile) -> (res: Result<(), GenericError>)
    ensures
        res == profile_verdict(id, *profile),
{
    if profile.id != id as i64 {
        return Err(GenericError::InvalidAuthenticationError);
    }
    let empty = String::new();
    let pronouns: &String = match &profile.pronouns {
        Some(p) => p,
        None => &empty,
    };
    if text_is(pronouns.as_str(), PRONOUNS_THRESHOLD) {
        return Err(GenericError::ProfanityError(ProfanityErrorType::Pronouns));
    }
    match &profile.bio {
        Some(bio) => {
            if text_is(bio.as_str(), TYPE_SEVERE) {
                return Err(GenericError::ProfanityError(ProfanityErrorType::Bio));
            }
            if text_is(bio.as_str(), BIO_THRESHOLD) {
                return Err(GenericError::ProfanityError(ProfanityErrorType::Bio));
            }
        },
        None => {},
    }
    let website: &String = match &profile.website {
        Some(w) => w,
        None => &empty,
    };
    if website.as_str().unicode_len() != 0 && !valid_url_check(website.as_str()) {
        return Err(GenericError::InvalidWebsiteError);
    }
    Ok(())
}

/// A bio whose analysis is severe, evasive or profane is refused, for an
/// account's own profile whose pronouns pass; any other bio passes the bio
/// check.
pub proof fn law_bio_refused_exactly_when_profane(id: u32, profile: Profile)
    requires
        profile.id == id as i64,
        !meets(
            profanity_bits(text_or_empty(profile.pronouns)),
            TYPE_SEVERE | TYPE_OFFENSIVE | TYPE_MEAN | TYPE_SEXUAL,
        ),
    ensures
        (profile_verdict(id, profile) == Err::<(), GenericError>(
            GenericError::ProfanityError(ProfanityErrorType::Bio),
        )) <==> (profile.bio matches Some(b) && meets(
            profanity_bits(b@),
            TYPE_SEVERE | TYPE_EVASIVE | TYPE_PROFANE,
        )),
{
    let pb = profanity_bits(text_or_empty(profile.pronouns));
    assert(pb & PRONOUNS_THRESHOLD == pb & (TYPE_SEVERE | TYPE_OFFENSIVE | TYPE_MEAN | TYPE_SEXUAL)) by (bit_vector);
    if let Some(b) = profile.bio {
        let a = profanity_bits(b@);
        assert((a & TYPE_SEVERE != 0 || a & BIO_THRESHOLD != 0) == (a & (TYPE_SEVERE | TYPE_EVASIVE
            | TYPE_PROFANE) != 0)) by (bit_vector);
    }
}

/// Pronouns whose analysis is severe, offensive, mean or sexual are refused
/// on an account's own profile.
pub proof fn law_pronouns_refused_when_inappropriate(id: u32, profile: Profile)
    requires
        profile.id == id as i64,
        meets(
            profanity_bits(text_or_empty(profile.pronouns)),
            TYPE_SEVERE | TYPE_OFFENSIVE | TYPE_MEAN | TYPE_SEXUAL,
        ),
    ensures
        profile_verdict(id, profile) == Err::<(), GenericError>(
            GenericError::ProfanityError(ProfanityErrorType::Pronouns),
        ),
{
    let pb = profanity_bits(text_or_empty(profile.pronouns));
    assert(pb & PRONOUNS_THRESHOLD == pb & (TYPE_SEVERE | TYPE_OFFENSIVE | TYPE_MEAN | TYPE_SEXUAL)) by (bit_vector);
}

} // verus!
