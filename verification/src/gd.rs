//! Requests to the Geometry Dash servers that read and clear the bot
//! account's inbox.

use vstd::prelude::*;

use crate::external::{is_lower_hex, sha1_hex, sha1_hex_text};

verus! {

/// The salt that Geometry Dash appends to a password before hashing it.
pub open spec fn gjp2_salt() -> Seq<char> {
    "mI29fmAnxgTs"@
}

/// The hashed password that the servers accept: the SHA-1 of the password
/// followed by the salt, in lowercase hex.
pub fn gjp2(password: &str) -> (hash: String)
    ensures
        hash@ == sha1_hex_text(password@ + gjp2_salt()),
        hash@.len() == 40,
        forall|i: int| 0 <= i < hash@.len() ==> is_lower_hex(#[trigger] hash@[i]),
{
    let salted = String::from_str(password).concat("mI29fmAnxgTs");
    sha1_hex(salted.as_str())
}

/// The endpoint that lists the inbox.
pub fn messages_url(server: &str) -> (url: String)
    ensures
        url@ == server@ + "/database/getGJMessages20.php"@,
{
    String::from_str(server).concat("/database/getGJMessages20.php")
}

/// The endpoint that deletes messages.
pub fn delete_messages_url(server: &str) -> (url: String)
    ensures
        url@ == server@ + "/database/deleteGJMessages20.php"@,
{
    String::from_str(server).concat("/database/deleteGJMessages20.php")
}

/// The form fields that identify the bot account to the servers.
pub open spec fn account_form(account_id: Seq<char>, gjp2: Seq<char>) -> Seq<(Seq<char>, Seq<char>)> {
    seq![("secret"@, "Wmfd2893gb7"@), ("accountID"@, account_id), ("gjp2"@, gjp2)]
}

pub open spec fn form_is(form: Seq<(String, String)>, expected: Seq<(Seq<char>, Seq<char>)>) -> bool {
    &&& form.len() == expected.len()
    &&& forall|i: int|
        0 <= i < form.len() ==> (#[trigger] form[i]).0@ == expected[i].0 && form[i].1@
            == expected[i].1
}

/// The form of the request that lists the inbox.
pub fn message_form(account_id: &str, gjp2: &str) -> (form: Vec<(String, String)>)
    ensures
        form_is(form@, account_form(account_id@, gjp2@)),
{
    let mut form: Vec<(String, String)> = Vec::new();
    form.push((String::from_str("secret"), String::from_str("Wmfd2893gb7")));
    form.push((String::from_str("accountID"), String::from_str(account_id)));
    form.push((String::from_str("gjp2"), String::from_str(gjp2)));
    form
}

/// The form of the request that deletes the messages listed in `messages`.
pub fn deletion_form(account_id: &str, gjp2: &str, messages: &str) -> (form: Vec<(String, String)>)
    ensures
        form_is(form@, account_form(account_id@, gjp2@).push(("messages"@, messages@))),
{
    let mut form = message_form(account_id, gjp2);
    form.push((String::from_str("messages"), String::from_str(messages)));
    form
}

/// An answer of the servers that signals a failure: a status other than 200,
/// or the body `-1`.
pub fn response_failed(status: u16, body: &str) -> (failed: bool)
    ensures
        failed == (status != 200 || body@ == seq!['-', '1']),
{
    let chars = crate::text::chars_of(body);
    let is_minus_one = chars.len() == 2 && chars[0] == '-' && chars[1] == '1';
    assert(is_minus_one ==> chars@ =~= seq!['-', '1']);
    status != 200 || is_minus_one
}

} // verus!
