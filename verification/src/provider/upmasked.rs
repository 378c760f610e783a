//! The request paths of the Upmasked provider's two endpoints.
//!
//! The network transport itself (an HTTP client and the base URL it
//! joins these paths onto) lives outside the library; the library
//! states exactly which path each primitive operation requests.

use vstd::prelude::*;

verus! {

/// The path of the Upmasked endpoint that lists the available numbers.
pub fn numbers_path() -> (r: String)
    ensures
        r@ == "/api/sms/numbers"@,
{
    "/api/sms/numbers".to_owned()
}

/// The path of the Upmasked endpoint that lists the messages received
/// on the number named `number`: the fixed prefix with the number
/// appended.
pub fn messages_path(number: &str) -> (r: String)
    ensures
        r@ == "/api/sms/messages/"@ + number@,
{
    let mut p: String = "/api/sms/messages/".to_owned();
    p.append(number);
    p
}

} // verus!
