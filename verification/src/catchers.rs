//! Bodies of the answers for statuses that no route answered itself.

use vstd::prelude::*;

use crate::external::status_text;

verus! {

pub fn catch_500() -> (body: String)
    ensures
        body@ == "500 Internal Server Error"@,
{
    status_text(500)
}

pub fn catch_400() -> (body: String)
    ensures
        body@ == "400 Bad Request"@,
{
    status_text(400)
}

pub fn catch_401() -> (body: String)
    ensures
        body@ == "401 Unauthorized"@,
{
    status_text(401)
}

pub fn catch_404() -> (body: String)
    ensures
        body@ == "404 Not Found"@,
{
    status_text(404)
}

pub fn catch_422() -> (body: String)
    ensures
        body@ == "422 Unprocessable Entity"@,
{
    status_text(422)
}

} // verus!
