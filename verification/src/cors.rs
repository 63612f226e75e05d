//! The headers that let browsers on any origin call the service.

use vstd::prelude::*;

verus! {

/// Adds the CORS headers to every answer.
pub struct CORS;

/// The headers added to every answer, by name and value.
pub open spec fn cors_headers() -> Seq<(Seq<char>, Seq<char>)> {
    seq![
        ("Access-Control-Allow-Origin"@, "*"@),
        ("Access-Control-Allow-Methods"@, "POST, GET, PATCH, OPTIONS"@),
        ("Access-Control-Allow-Headers"@, "*"@),
        ("Access-Control-Allow-Credentials"@, "true"@),
    ]
}

impl CORS {
    /// The name under which the headers are added.
    pub fn info_name() -> (name: &'static str)
        ensures
            name@ == "i hate CORS"@,
    {
        "i hate CORS"
    }

    /// The headers to set on an answer, in order.
    pub fn response_headers() -> (headers: Vec<(String, String)>)
        ensures
            headers@.len() == cors_headers().len(),
            forall|i: int|
                0 <= i < headers@.len() ==> (#[trigger] headers@[i]).0@ == cors_headers()[i].0
                    && headers@[i].1@ == cors_headers()[i].1,
    {
        let mut headers: Vec<(String, String)> = Vec::new();
        headers.push((String::from_str("Access-Control-Allow-Origin"), String::from_str("*")));
        headers.push(
            (
                String::from_str("Access-Control-Allow-Methods"),
                String::from_str("POST, GET, PATCH, OPTIONS"),
            ),
        );
        headers.push((String::from_str("Access-Control-Allow-Headers"), String::from_str("*")));
        headers.push(
            (String::from_str("Access-Control-Allow-Credentials"), String::from_str("true")),
        );
        headers
    }
}

} // verus!
